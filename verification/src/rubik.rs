//! Pieces, exact integer rotation matrices and the piece rotation algebra.
//!
//! A piece lives on the {-1,0,1}^3 lattice and carries one optional sticker
//! color per axis pair. A quarter turn of a face is an orthogonal integer
//! matrix applied to the position; the two color slots of the axes that the
//! rotation exchanges are swapped, while the slot of the rotation axis is
//! untouched.

use vstd::prelude::*;

verus! {

use crate::coord_ok;

/// One of the six sticker colors.
#[derive(Clone, Copy, Debug, PartialEq, Eq)]
pub enum Color {
    Blue,
    Yellow,
    Red,
    White,
    Green,
    Orange,
}

/// A position on the {-1,0,1}^3 lattice.
pub open spec fn lattice(p: (i32, i32, i32)) -> bool {
    coord_ok(p.0) && coord_ok(p.1) && coord_ok(p.2)
}

/// One of the 27 sub-cubes. `position` is its current lattice point; `color`
/// holds one optional sticker color per axis pair (x, y, z in that order),
/// `None` where the piece has no sticker on that axis.
#[derive(Clone, Copy, Debug)]
pub struct Piece {
    pub position: (i32, i32, i32),
    pub color: (Option<Color>, Option<Color>, Option<Color>),
}

/// A 3x3 integer matrix, stored as rows.
#[derive(Clone, Copy, Debug)]
pub struct Mat3 {
    pub r0: (i32, i32, i32),
    pub r1: (i32, i32, i32),
    pub r2: (i32, i32, i32),
}

/// Every entry of the matrix is -1, 0 or 1.
pub open spec fn mat_small(m: Mat3) -> bool {
    &&& coord_ok(m.r0.0) && coord_ok(m.r0.1) && coord_ok(m.r0.2)
    &&& coord_ok(m.r1.0) && coord_ok(m.r1.1) && coord_ok(m.r1.2)
    &&& coord_ok(m.r2.0) && coord_ok(m.r2.1) && coord_ok(m.r2.2)
}

pub open spec fn spec_dot(r: (i32, i32, i32), v: (i32, i32, i32)) -> int {
    r.0 * v.0 + r.1 * v.1 + r.2 * v.2
}

/// Matrix times column vector, as unbounded integers.
pub open spec fn spec_apply(m: Mat3, v: (i32, i32, i32)) -> (int, int, int) {
    (spec_dot(m.r0, v), spec_dot(m.r1, v), spec_dot(m.r2, v))
}

/// Matrix times a lattice vector: for the quarter-turn matrices the result is
/// again a lattice vector, so it fits in the coordinates' type.
pub open spec fn spec_apply_i32(m: Mat3, v: (i32, i32, i32)) -> (i32, i32, i32) {
    let r = spec_apply(m, v);
    (r.0 as i32, r.1 as i32, r.2 as i32)
}

/// Quarter turn about the x axis: (x, y, z) -> (x, -z, y).
pub open spec fn spec_rot_x_cw() -> Mat3 {
    Mat3 { r0: (1, 0, 0), r1: (0, 0, -1i32), r2: (0, 1, 0) }
}

/// Quarter turn about the x axis, the other way: (x, y, z) -> (x, z, -y).
pub open spec fn spec_rot_x_ccw() -> Mat3 {
    Mat3 { r0: (1, 0, 0), r1: (0, 0, 1), r2: (0, -1i32, 0) }
}

/// Quarter turn about the y axis: (x, y, z) -> (-z, y, x).
pub open spec fn spec_rot_y_cw() -> Mat3 {
    Mat3 { r0: (0, 0, -1i32), r1: (0, 1, 0), r2: (1, 0, 0) }
}

/// Quarter turn about the y axis, the other way: (x, y, z) -> (z, y, -x).
pub open spec fn spec_rot_y_ccw() -> Mat3 {
    Mat3 { r0: (0, 0, 1), r1: (0, 1, 0), r2: (-1i32, 0, 0) }
}

/// Quarter turn about the z axis: (x, y, z) -> (y, -x, z).
pub open spec fn spec_rot_z_cw() -> Mat3 {
    Mat3 { r0: (0, 1, 0), r1: (-1i32, 0, 0), r2: (0, 0, 1) }
}

/// Quarter turn about the z axis, the other way: (x, y, z) -> (-y, x, z).
pub open spec fn spec_rot_z_ccw() -> Mat3 {
    Mat3 { r0: (0, -1i32, 0), r1: (1, 0, 0), r2: (0, 0, 1) }
}

/// The six quarter-turn matrices are the only rotations a face move uses;
/// a half turn is two applications of a quarter turn.
pub open spec fn is_quarter_rotation(m: Mat3) -> bool {
    ||| m == spec_rot_x_cw()
    ||| m == spec_rot_x_ccw()
    ||| m == spec_rot_y_cw()
    ||| m == spec_rot_y_ccw()
    ||| m == spec_rot_z_cw()
    ||| m == spec_rot_z_ccw()
}

/// The axis (0 = x, 1 = y, 2 = z) that a quarter-turn matrix leaves fixed.
pub open spec fn rot_axis(m: Mat3) -> int {
    if m == spec_rot_x_cw() || m == spec_rot_x_ccw() {
        0
    } else if m == spec_rot_y_cw() || m == spec_rot_y_ccw() {
        1
    } else {
        2
    }
}

/// Swap the two color slots other than `axis`.
pub open spec fn swapped_colors(
    c: (Option<Color>, Option<Color>, Option<Color>),
    axis: int,
) -> (Option<Color>, Option<Color>, Option<Color>) {
    if axis == 0 {
        (c.0, c.2, c.1)
    } else if axis == 1 {
        (c.2, c.1, c.0)
    } else {
        (c.1, c.0, c.2)
    }
}

/// The piece after one quarter turn: the position is rotated, and when the
/// position actually moves, the two color slots that the rotation exchanges
/// are swapped; a piece on the rotation axis keeps all its colors in place.
pub open spec fn rotated_piece(p: Piece, m: Mat3) -> Piece {
    let np = spec_apply_i32(m, p.position);
    if np == p.position {
        p
    } else {
        Piece { position: np, color: swapped_colors(p.color, rot_axis(m)) }
    }
}

/// The piece after a half turn: two quarter turns of the same matrix.
pub open spec fn half_turned_piece(p: Piece, m: Mat3) -> Piece {
    rotated_piece(rotated_piece(p, m), m)
}

/// Data of a failed rotation: the position before, the rotated position, and
/// the adjusted coordinate delta that did not have exactly one zero axis.
/// It signals a matrix that is not one of the quarter-turn rotations.
#[derive(Clone, Copy, Debug)]
pub struct RotateError {
    pub before: (i32, i32, i32),
    pub after: (i32, i32, i32),
    pub delta: (i32, i32, i32),
}

pub fn rot_x_cw() -> (m: Mat3)
    ensures
        m == spec_rot_x_cw(),
{
    Mat3 { r0: (1, 0, 0), r1: (0, 0, -1i32), r2: (0, 1, 0) }
}

pub fn rot_x_ccw() -> (m: Mat3)
    ensures
        m == spec_rot_x_ccw(),
{
    Mat3 { r0: (1, 0, 0), r1: (0, 0, 1), r2: (0, -1i32, 0) }
}

pub fn rot_y_cw() -> (m: Mat3)
    ensures
        m == spec_rot_y_cw(),
{
    Mat3 { r0: (0, 0, -1i32), r1: (0, 1, 0), r2: (1, 0, 0) }
}

pub fn rot_y_ccw() -> (m: Mat3)
    ensures
        m == spec_rot_y_ccw(),
{
    Mat3 { r0: (0, 0, 1), r1: (0, 1, 0), r2: (-1i32, 0, 0) }
}

pub fn rot_z_cw() -> (m: Mat3)
    ensures
        m == spec_rot_z_cw(),
{
    Mat3 { r0: (0, 1, 0), r1: (-1i32, 0, 0), r2: (0, 0, 1) }
}

pub fn rot_z_ccw() -> (m: Mat3)
    ensures
        m == spec_rot_z_ccw(),
{
    Mat3 { r0: (0, -1i32, 0), r1: (1, 0, 0), r2: (0, 0, 1) }
}

/// Matrix times column vector on vectors with entries in -4..=4 (enough for a
/// position or for a delta of two rotated positions).
fn mat_apply(m: &Mat3, v: (i32, i32, i32)) -> (r: (i32, i32, i32))
    requires
        mat_small(*m),
        -4 <= v.0 <= 4,
        -4 <= v.1 <= 4,
        -4 <= v.2 <= 4,
    ensures
        r.0 == spec_dot(m.r0, v),
        r.1 == spec_dot(m.r1, v),
        r.2 == spec_dot(m.r2, v),
        -12 <= r.0 <= 12,
        -12 <= r.1 <= 12,
        -12 <= r.2 <= 12,
{
    broadcast use lemma_small_mul;

    (
        m.r0.0 * v.0 + m.r0.1 * v.1 + m.r0.2 * v.2,
        m.r1.0 * v.0 + m.r1.1 * v.1 + m.r1.2 * v.2,
        m.r2.0 * v.0 + m.r2.1 * v.1 + m.r2.2 * v.2,
    )
}

/// The product of a matrix entry in {-1, 0, 1} and any coordinate is the
/// coordinate itself, its negation, or zero; this keeps every rotation within
/// linear arithmetic.
pub broadcast proof fn lemma_small_mul(e: i32, x: i32)
    requires
        coord_ok(e),
    ensures
        #[trigger] (e * x) == if e == 1 {
            x as int
        } else if e == -1 {
            -(x as int)
        } else {
            0
        },
{
    assert(e * x == if e == 1 {
        x as int
    } else if e == -1 {
        -(x as int)
    } else {
        0
    }) by (nonlinear_arith)
        requires
            -1 <= e <= 1,
    ;
}

impl Piece {
    /// The 0..27 slot that this piece's current position occupies.
    pub open spec fn spec_cubelet(self) -> int {
        cubelet_of(self.position)
    }

    /// The 0..27 slot of the piece's current position.
    pub fn cubelet(&self) -> (r: usize)
        requires
            lattice(self.position),
        ensures
            r == self.spec_cubelet(),
            r < 27,
    {
        ((self.position.0 + 1) * 9 + (1 - self.position.1) * 3 + (self.position.2 + 1)) as usize
    }

    /// Rotate the piece in place. Only the logical position and colors change;
    /// any visual transform of the piece is the renderer's business.
    ///
    /// The delta between the rotated and the old position normally has exactly
    /// one zero axis: the rotation axis; the color slots of the other two axes
    /// are swapped. A piece on the rotation axis does not move and keeps its
    /// colors. When a coordinate passes through zero the raw delta can look
    /// like a single-axis shift; applying the matrix to the delta once more
    /// and adding recovers the true two-axis change. Any other outcome means
    /// the matrix was not a quarter-turn rotation, and is reported as an
    /// error, with the piece left untouched.
    #[verifier::rlimit(60)]
    pub fn rotate(&mut self, mat: &Mat3) -> (r: Result<
        ((i32, i32, i32), (i32, i32, i32)),
        RotateError,
    >)
        requires
            mat_small(*mat),
            lattice(old(self).position),
        ensures
            is_quarter_rotation(*mat) ==> {
                &&& *final(self) == rotated_piece(*old(self), *mat)
                &&& r == Ok::<_, RotateError>(
                    (old(self).position, rotated_piece(*old(self), *mat).position),
                )
            },
            r is Err ==> *final(self) == *old(self),
    {
        broadcast use lemma_small_mul;

        let prev: (i32, i32, i32) = self.position;
        let new: (i32, i32, i32) = mat_apply(mat, prev);
        let mut rot: (i32, i32, i32) = (new.0 - prev.0, new.1 - prev.1, new.2 - prev.2);
        let zeros: usize = (if rot.0 == 0 {
            1
        } else {
            0
        }) + (if rot.1 == 0 {
            1
        } else {
            0
        }) + (if rot.2 == 0 {
            1
        } else {
            0
        });
        if zeros == 3 {
            return Ok((prev, new));
        }
        if zeros == 2 {
            let adj: (i32, i32, i32) = mat_apply(mat, rot);
            rot = (rot.0 + adj.0, rot.1 + adj.1, rot.2 + adj.2);
        }
        let zeros_adj: usize = (if rot.0 == 0 {
            1
        } else {
            0
        }) + (if rot.1 == 0 {
            1
        } else {
            0
        }) + (if rot.2 == 0 {
            1
        } else {
            0
        });
        if zeros_adj != 1 {
            return Err(RotateError { before: prev, after: new, delta: rot });
        }
        let c: (Option<Color>, Option<Color>, Option<Color>) = self.color;
        if rot.0 == 0 {
            self.color = (c.0, c.2, c.1);
        } else if rot.1 == 0 {
            self.color = (c.2, c.1, c.0);
        } else {
            self.color = (c.1, c.0, c.2);
        }
        self.position = new;
        Ok((prev, new))
    }
}

/// The 0..27 slot of a lattice position, row-major: x slabs, then y rows from
/// the top, then z.
pub open spec fn cubelet_of(p: (i32, i32, i32)) -> int {
    (p.0 + 1) * 9 + (1 - p.1) * 3 + (p.2 + 1)
}

/// The lattice position of a 0..27 slot; inverse of `cubelet_of`.
pub open spec fn position_of(c: int) -> (i32, i32, i32) {
    ((c / 9 - 1) as i32, (1 - (c / 3) % 3) as i32, (c % 3 - 1) as i32)
}

pub proof fn lemma_cubelet_of_position(c: int)
    requires
        0 <= c < 27,
    ensures
        lattice(position_of(c)),
        cubelet_of(position_of(c)) == c,
{
    assert(lattice(position_of(c)) && cubelet_of(position_of(c)) == c) by (nonlinear_arith)
        requires 0 <= c < 27;
}

pub proof fn lemma_position_of_cubelet(p: (i32, i32, i32))
    requires
        lattice(p),
    ensures
        0 <= cubelet_of(p) < 27,
        position_of(cubelet_of(p)) == p,
{
    assert(0 <= cubelet_of(p) < 27 && position_of(cubelet_of(p)) == p) by (nonlinear_arith)
        requires lattice(p);
}

/// A quarter turn of the lattice is injective: positions that map equal were
/// equal.
pub proof fn lemma_quarter_rotation_injective(m: Mat3, p: (i32, i32, i32), q: (i32, i32, i32))
    requires
        is_quarter_rotation(m),
        lattice(p),
        lattice(q),
        spec_apply_i32(m, p) == spec_apply_i32(m, q),
    ensures
        p == q,
{
    broadcast use lemma_small_mul;

    if m == spec_rot_x_cw() {
        assert(p == q);
    } else if m == spec_rot_x_ccw() {
        assert(p == q);
    } else if m == spec_rot_y_cw() {
        assert(p == q);
    } else if m == spec_rot_y_ccw() {
        assert(p == q);
    } else if m == spec_rot_z_cw() {
        assert(p == q);
    } else {
        assert(m == spec_rot_z_ccw());
        assert(p == q);
    }
}

/// A quarter turn keeps lattice positions on the lattice.
pub proof fn lemma_quarter_rotation_lattice(m: Mat3, p: (i32, i32, i32))
    requires
        is_quarter_rotation(m),
        lattice(p),
    ensures
        lattice(spec_apply_i32(m, p)),
{
    broadcast use lemma_small_mul;

    if m == spec_rot_x_cw() {
        assert(lattice(spec_apply_i32(m, p)));
    } else if m == spec_rot_x_ccw() {
        assert(lattice(spec_apply_i32(m, p)));
    } else if m == spec_rot_y_cw() {
        assert(lattice(spec_apply_i32(m, p)));
    } else if m == spec_rot_y_ccw() {
        assert(lattice(spec_apply_i32(m, p)));
    } else if m == spec_rot_z_cw() {
        assert(lattice(spec_apply_i32(m, p)));
    } else {
        assert(m == spec_rot_z_ccw());
        assert(lattice(spec_apply_i32(m, p)));
    }
}

/// Applying one of the six quarter-turn matrices four times returns any piece
/// to its original position and colors: a quarter turn has order four.
pub proof fn lemma_quarter_turn_order_four(p: Piece, m: Mat3)
    requires
        is_quarter_rotation(m),
        lattice(p.position),
    ensures
        rotated_piece(rotated_piece(rotated_piece(rotated_piece(p, m), m), m), m) == p,
{
    broadcast use lemma_small_mul;

    let goal = rotated_piece(rotated_piece(rotated_piece(rotated_piece(p, m), m), m), m) == p;
    if m == spec_rot_x_cw() {
        assert(goal);
    } else if m == spec_rot_x_ccw() {
        assert(goal);
    } else if m == spec_rot_y_cw() {
        assert(goal);
    } else if m == spec_rot_y_ccw() {
        assert(goal);
    } else if m == spec_rot_z_cw() {
        assert(goal);
    } else {
        assert(m == spec_rot_z_ccw());
        assert(goal);
    }
}

/// A half turn (two quarter turns) applied twice is the identity.
pub proof fn lemma_half_turn_involutive(p: Piece, m: Mat3)
    requires
        is_quarter_rotation(m),
        lattice(p.position),
    ensures
        half_turned_piece(half_turned_piece(p, m), m) == p,
{
    lemma_quarter_turn_order_four(p, m);
}

/// A quarter turn undone by the opposite quarter turn is the identity.
pub proof fn lemma_quarter_turn_then_inverse(p: Piece, m: Mat3, mi: Mat3)
    requires
        is_quarter_rotation(m),
        is_quarter_rotation(mi),
        rot_axis(mi) == rot_axis(m),
        mi != m,
        lattice(p.position),
    ensures
        rotated_piece(rotated_piece(p, m), mi) == p,
{
    broadcast use lemma_small_mul;

    let goal = rotated_piece(rotated_piece(p, m), mi) == p;
    if m == spec_rot_x_cw() {
        assert(mi == spec_rot_x_ccw());
        assert(goal);
    } else if m == spec_rot_x_ccw() {
        assert(mi == spec_rot_x_cw());
        assert(goal);
    } else if m == spec_rot_y_cw() {
        assert(mi == spec_rot_y_ccw());
        assert(goal);
    } else if m == spec_rot_y_ccw() {
        assert(mi == spec_rot_y_cw());
        assert(goal);
    } else if m == spec_rot_z_cw() {
        assert(mi == spec_rot_z_ccw());
        assert(goal);
    } else {
        assert(m == spec_rot_z_ccw());
        assert(mi == spec_rot_z_cw());
        assert(goal);
    }
}

/// Well-formed piece collection: 27 pieces, each on the lattice, no two at the
/// same point. Together with the pigeonhole argument below this makes the 27
/// positions a bijection onto the {-1,0,1}^3 lattice.
pub open spec fn pieces_wf(ps: Seq<Piece>) -> bool {
    &&& ps.len() == 27
    &&& forall|i: int| 0 <= i < 27 ==> lattice((#[trigger] ps[i]).position)
    &&& forall|i: int, j: int|
        0 <= i < 27 && 0 <= j < 27 && i != j ==> (#[trigger] ps[i]).position != (
        #[trigger] ps[j]).position
}

/// No gaps: in a well-formed collection every one of the 27 cubelet slots is
/// occupied by some piece. 27 distinct lattice positions fill the whole
/// 27-point lattice.
pub proof fn lemma_pieces_onto(ps: Seq<Piece>, c: int)
    requires
        pieces_wf(ps),
        0 <= c < 27,
    ensures
        exists|i: int| 0 <= i < 27 && cubelet_of((#[trigger] ps[i]).position) == c,
{
    let cs = Seq::new(27, |i: int| cubelet_of(ps[i].position));
    assert(cs.no_duplicates()) by {
        assert forall|i: int, j: int| 0 <= i < 27 && 0 <= j < 27 && i != j implies cs[i]
            != cs[j] by {
            lemma_position_of_cubelet(ps[i].position);
            lemma_position_of_cubelet(ps[j].position);
        }
    }
    cs.unique_seq_to_set();
    let full = vstd::set_lib::set_int_range(0, 27);
    assert(cs.to_set().subset_of(full)) by {
        assert forall|x: int| cs.to_set().contains(x) implies full.contains(x) by {
            let i = choose|i: int| 0 <= i < 27 && (#[trigger] cs[i]) == x;
            lemma_position_of_cubelet(ps[i].position);
        }
    }
    vstd::set_lib::lemma_int_range(0, 27);
    vstd::set_lib::lemma_subset_equality(cs.to_set(), full);
    assert(full.contains(c));
    assert(cs.to_set().contains(c));
    let i = choose|i: int| 0 <= i < 27 && (#[trigger] cs[i]) == c;
    assert(0 <= i < 27 && cubelet_of(ps[i].position) == c);
}

} // verus!
