//! The cube: 27 pieces, face moves, a FIFO move queue and the time-driven
//! animation state machine.
//!
//! The cube's discrete state changes only at the instant a move completes;
//! while a move is in flight the pieces' logical positions and colors are
//! untouched and only the renderer's visual transforms (the caller's business)
//! vary with time.

use vstd::prelude::*;

verus! {

use crate::rubik::{Mat3, Piece, cubelet_of, is_quarter_rotation, lattice, pieces_wf, rot_axis,
    rotated_piece, half_turned_piece, spec_rot_x_cw, spec_rot_x_ccw, spec_rot_y_cw, spec_rot_y_ccw,
    spec_rot_z_cw, spec_rot_z_ccw};
use crate::facelets::{spec_facelet_piece, facelet_piece, FaceletError, parse_facelet_str,
    encode_pieces, parsed_pieces, lemma_parsed_pieces_wf, valid_facelets, encoded_facelets,
    spec_char_color};
use std::collections::VecDeque;

/// A face move: one of the six faces turned a clockwise quarter (`L`), a
/// counter-clockwise quarter (`LP`), or a half turn (`L2`, two quarter turns).
#[derive(Clone, Copy, Debug, PartialEq, Eq)]
pub enum Move {
    L,
    LP,
    L2,
    R,
    RP,
    R2,
    U,
    UP,
    U2,
    D,
    DP,
    D2,
    F,
    FP,
    F2,
    B,
    BP,
    B2,
}

impl Move {
    /// The face a move turns: 0 left, 1 up, 2 front, 3 down, 4 right, 5 back.
    pub open spec fn spec_face(self) -> int {
        match self {
            Move::L | Move::LP | Move::L2 => 0,
            Move::U | Move::UP | Move::U2 => 1,
            Move::F | Move::FP | Move::F2 => 2,
            Move::D | Move::DP | Move::D2 => 3,
            Move::R | Move::RP | Move::R2 => 4,
            Move::B | Move::BP | Move::B2 => 5,
        }
    }

    /// The face index a move turns.
    pub fn face(&self) -> (r: usize)
        ensures
            r == self.spec_face(),
            r < 6,
    {
        match self {
            Move::L | Move::LP | Move::L2 => 0,
            Move::U | Move::UP | Move::U2 => 1,
            Move::F | Move::FP | Move::F2 => 2,
            Move::D | Move::DP | Move::D2 => 3,
            Move::R | Move::RP | Move::R2 => 4,
            Move::B | Move::BP | Move::B2 => 5,
        }
    }

    /// The quarter-turn matrix a move applies to its face's pieces; a half
    /// turn applies it twice.
    pub open spec fn spec_matrix(self) -> Mat3 {
        match self {
            Move::L | Move::L2 | Move::RP => spec_rot_x_cw(),
            Move::LP | Move::R | Move::R2 => spec_rot_x_ccw(),
            Move::U | Move::U2 | Move::DP => spec_rot_y_cw(),
            Move::UP | Move::D | Move::D2 => spec_rot_y_ccw(),
            Move::F | Move::F2 | Move::BP => spec_rot_z_cw(),
            Move::FP | Move::B | Move::B2 => spec_rot_z_ccw(),
        }
    }

    /// Whether the move is a half turn (180 degrees).
    pub open spec fn is_half_turn(self) -> bool {
        match self {
            Move::L2 | Move::R2 | Move::U2 | Move::D2 | Move::F2 | Move::B2 => true,
            _ => false,
        }
    }

    /// The move that undoes this one: the opposite quarter turn, or the half
    /// turn itself.
    pub open spec fn spec_inverse(self) -> Move {
        match self {
            Move::L => Move::LP,
            Move::LP => Move::L,
            Move::L2 => Move::L2,
            Move::R => Move::RP,
            Move::RP => Move::R,
            Move::R2 => Move::R2,
            Move::U => Move::UP,
            Move::UP => Move::U,
            Move::U2 => Move::U2,
            Move::D => Move::DP,
            Move::DP => Move::D,
            Move::D2 => Move::D2,
            Move::F => Move::FP,
            Move::FP => Move::F,
            Move::F2 => Move::F2,
            Move::B => Move::BP,
            Move::BP => Move::B,
            Move::B2 => Move::B2,
        }
    }
}

/// The axis perpendicular to a face: faces 0 and 4 sit on the x axis, 1 and 3
/// on y, 2 and 5 on z.
pub open spec fn face_axis(f: int) -> int {
    if f == 0 || f == 4 {
        0
    } else if f == 1 || f == 3 {
        1
    } else {
        2
    }
}

/// Whether a lattice position lies on face `f`: exactly one coordinate pinned
/// to the face's side of the cube.
pub open spec fn on_face(p: (i32, i32, i32), f: int) -> bool {
    if f == 0 {
        p.0 == -1
    } else if f == 1 {
        p.1 == 1
    } else if f == 2 {
        p.2 == 1
    } else if f == 3 {
        p.1 == -1
    } else if f == 4 {
        p.0 == 1
    } else {
        p.2 == -1
    }
}

/// A piece is on face `f` exactly when its current cubelet slot appears among
/// the 9 facelet-table entries of that face; that is the same as the face's
/// coordinate test.
pub proof fn lemma_face_table_membership(f: int, p: (i32, i32, i32))
    requires
        0 <= f < 6,
        lattice(p),
    ensures
        (exists|t: int| 0 <= t < 9 && (#[trigger] spec_facelet_piece(f * 9 + t)) == cubelet_of(p))
            <==> on_face(p, f),
{
    let x = p.0 as int;
    let y = p.1 as int;
    let z = p.2 as int;
    if on_face(p, f) {
        if f == 0 {
            let t = (1 - y) * 3 + (z + 1);
            assert(0 <= t < 9 && spec_facelet_piece(f * 9 + t) == cubelet_of(p));
        } else if f == 1 {
            let t = (z + 1) * 3 + (x + 1);
            assert(0 <= t < 9 && spec_facelet_piece(f * 9 + t) == cubelet_of(p));
        } else if f == 2 {
            let t = (1 - y) * 3 + (x + 1);
            assert(0 <= t < 9 && spec_facelet_piece(f * 9 + t) == cubelet_of(p));
        } else if f == 3 {
            let t = (1 - z) * 3 + (x + 1);
            assert(0 <= t < 9 && spec_facelet_piece(f * 9 + t) == cubelet_of(p));
        } else if f == 4 {
            let t = (1 - y) * 3 + (1 - z);
            assert(0 <= t < 9 && spec_facelet_piece(f * 9 + t) == cubelet_of(p));
        } else {
            let t = (1 - y) * 3 + (1 - x);
            assert(0 <= t < 9 && spec_facelet_piece(f * 9 + t) == cubelet_of(p));
        }
    }
}

/// Whether the piece currently sits on face `f`, decided as the original
/// layout decides it: the piece's live cubelet slot is looked up among the 9
/// facelet-table entries of the face.
fn piece_on_face(p: &Piece, f: usize) -> (r: bool)
    requires
        lattice(p.position),
        f < 6,
    ensures
        r == on_face(p.position, f as int),
{
    let cb: usize = p.cubelet();
    let mut found: bool = false;
    let mut k: usize = 0;
    while k < 9
        invariant
            f < 6,
            k <= 9,
            cb == cubelet_of(p.position),
            found == exists|t: int|
                0 <= t < k && (#[trigger] spec_facelet_piece(f as int * 9 + t)) == cb,
        decreases 9 - k,
    {
        if facelet_piece(f * 9 + k) == cb {
            found = true;
        }
        k += 1;
    }
    proof {
        lemma_face_table_membership(f as int, p.position);
    }
    found
}

/// The pieces of face `f` after one quarter turn of that face: every piece on
/// the face rotated, every other piece untouched.
pub open spec fn face_rotated_pieces(ps: Seq<Piece>, f: int, m: Mat3) -> Seq<Piece> {
    Seq::new(
        ps.len(),
        |i: int|
            if on_face(ps[i].position, f) {
                rotated_piece(ps[i], m)
            } else {
                ps[i]
            },
    )
}

/// A quarter turn about a face's own axis does not change whether a position
/// lies on that face.
pub proof fn lemma_rotation_preserves_face(m: Mat3, f: int, p: (i32, i32, i32))
    requires
        is_quarter_rotation(m),
        rot_axis(m) == face_axis(f),
        0 <= f < 6,
        lattice(p),
    ensures
        on_face(crate::rubik::spec_apply_i32(m, p), f) == on_face(p, f),
{
    broadcast use crate::rubik::lemma_small_mul;

}

/// Rotating one face keeps the pieces well formed: rotated pieces stay on the
/// face's plane and apart from each other, untouched pieces stay off it.
pub proof fn lemma_face_rotation_wf(ps: Seq<Piece>, f: int, m: Mat3)
    requires
        pieces_wf(ps),
        0 <= f < 6,
        is_quarter_rotation(m),
        rot_axis(m) == face_axis(f),
    ensures
        pieces_wf(face_rotated_pieces(ps, f, m)),
{
    let rs = face_rotated_pieces(ps, f, m);
    assert forall|i: int| 0 <= i < 27 implies lattice((#[trigger] rs[i]).position) by {
        crate::rubik::lemma_quarter_rotation_lattice(m, ps[i].position);
    }
    assert forall|i: int, j: int|
        0 <= i < 27 && 0 <= j < 27 && i != j implies (#[trigger] rs[i]).position != (
    #[trigger] rs[j]).position by {
        crate::rubik::lemma_quarter_rotation_lattice(m, ps[i].position);
        crate::rubik::lemma_quarter_rotation_lattice(m, ps[j].position);
        lemma_rotation_preserves_face(m, f, ps[i].position);
        lemma_rotation_preserves_face(m, f, ps[j].position);
        if on_face(ps[i].position, f) && on_face(ps[j].position, f) {
            if rs[i].position == rs[j].position {
                crate::rubik::lemma_quarter_rotation_injective(m, ps[i].position, ps[j].position);
            }
        }
    }
}

/// Turn face `f` by the quarter-turn matrix `m`: rotate exactly the pieces
/// whose current position lies on the face.
fn rotate_face(pieces: &mut Vec<Piece>, f: usize, m: &Mat3)
    requires
        pieces_wf(old(pieces)@),
        f < 6,
        is_quarter_rotation(*m),
        rot_axis(*m) == face_axis(f as int),
    ensures
        final(pieces)@ == face_rotated_pieces(old(pieces)@, f as int, *m),
        pieces_wf(final(pieces)@),
{
    let ghost orig = pieces@;
    let mut j: usize = 0;
    while j < 27
        invariant
            pieces_wf(orig),
            f < 6,
            is_quarter_rotation(*m),
            rot_axis(*m) == face_axis(f as int),
            j <= 27,
            pieces@.len() == 27,
            forall|t: int|
                0 <= t < j ==> (#[trigger] pieces@[t]) == face_rotated_pieces(
                    orig,
                    f as int,
                    *m,
                )[t],
            forall|t: int| j <= t < 27 ==> (#[trigger] pieces@[t]) == orig[t],
        decreases 27 - j,
    {
        if piece_on_face(&pieces[j], f) {
            let mut p: Piece = pieces[j];
            let _ = p.rotate(m);
            pieces[j] = p;
        }
        j += 1;
    }
    proof {
        assert(pieces@ =~= face_rotated_pieces(orig, f as int, *m));
        lemma_face_rotation_wf(orig, f as int, *m);
    }
}

/// One move applied to one piece: a piece on the move's face is turned by the
/// move's matrix (twice for a half turn); every other piece is untouched.
pub open spec fn moved_piece(p: Piece, mv: Move) -> Piece {
    if on_face(p.position, mv.spec_face()) {
        if mv.is_half_turn() {
            half_turned_piece(p, mv.spec_matrix())
        } else {
            rotated_piece(p, mv.spec_matrix())
        }
    } else {
        p
    }
}

/// One move applied to all 27 pieces.
pub open spec fn moved_pieces(ps: Seq<Piece>, mv: Move) -> Seq<Piece> {
    Seq::new(ps.len(), |i: int| moved_piece(ps[i], mv))
}

/// A move's matrix is a quarter turn about its face's axis.
pub proof fn lemma_move_matrix_axis(mv: Move)
    ensures
        is_quarter_rotation(mv.spec_matrix()),
        rot_axis(mv.spec_matrix()) == face_axis(mv.spec_face()),
{
}

/// Applying a move keeps the pieces well formed; this is the heart of the
/// bijection invariant: no finite sequence of moves can ever duplicate or
/// lose a lattice position.
pub proof fn lemma_move_preserves_wf(ps: Seq<Piece>, mv: Move)
    requires
        pieces_wf(ps),
    ensures
        pieces_wf(moved_pieces(ps, mv)),
{
    lemma_move_matrix_axis(mv);
    let f = mv.spec_face();
    let m = mv.spec_matrix();
    lemma_face_rotation_wf(ps, f, m);
    if mv.is_half_turn() {
        lemma_face_rotation_wf(face_rotated_pieces(ps, f, m), f, m);
        assert forall|i: int| 0 <= i < 27 implies face_rotated_pieces(
            face_rotated_pieces(ps, f, m),
            f,
            m,
        )[i] == (#[trigger] moved_pieces(ps, mv)[i]) by {
            lemma_rotation_preserves_face(m, f, ps[i].position);
        }
        assert(face_rotated_pieces(face_rotated_pieces(ps, f, m), f, m) =~= moved_pieces(ps, mv));
    } else {
        assert(face_rotated_pieces(ps, f, m) =~= moved_pieces(ps, mv));
    }
}

/// Apply a move's discrete rotation to the pieces: one quarter turn of the
/// move's face, or two for a half turn, each turn selecting the pieces from
/// their positions at that instant.
fn apply_move(pieces: &mut Vec<Piece>, mv: Move)
    requires
        pieces_wf(old(pieces)@),
    ensures
        final(pieces)@ == moved_pieces(old(pieces)@, mv),
        pieces_wf(final(pieces)@),
{
    proof {
        lemma_move_matrix_axis(mv);
        lemma_move_preserves_wf(old(pieces)@, mv);
    }
    let ghost orig = pieces@;
    let f: usize = mv.face();
    let m: Mat3 = match mv {
        Move::L | Move::L2 | Move::RP => crate::rubik::rot_x_cw(),
        Move::LP | Move::R | Move::R2 => crate::rubik::rot_x_ccw(),
        Move::U | Move::U2 | Move::DP => crate::rubik::rot_y_cw(),
        Move::UP | Move::D | Move::D2 => crate::rubik::rot_y_ccw(),
        Move::F | Move::F2 | Move::BP => crate::rubik::rot_z_cw(),
        Move::FP | Move::B | Move::B2 => crate::rubik::rot_z_ccw(),
    };
    let half: bool = match mv {
        Move::L2 | Move::R2 | Move::U2 | Move::D2 | Move::F2 | Move::B2 => true,
        _ => false,
    };
    rotate_face(pieces, f, &m);
    if half {
        rotate_face(pieces, f, &m);
        proof {
            assert forall|i: int| 0 <= i < 27 implies (#[trigger] pieces@[i]) == moved_pieces(
                orig,
                mv,
            )[i] by {
                lemma_rotation_preserves_face(m, f as int, orig[i].position);
            }
            assert(pieces@ =~= moved_pieces(orig, mv));
        }
    } else {
        proof {
            assert(pieces@ =~= moved_pieces(orig, mv));
        }
    }
}

/// A move followed by its inverse leaves every piece exactly where it was,
/// with its colors as they were: the face's pieces are turned back, the rest
/// were never touched.
pub proof fn lemma_move_then_inverse(ps: Seq<Piece>, mv: Move)
    requires
        pieces_wf(ps),
    ensures
        moved_pieces(moved_pieces(ps, mv), mv.spec_inverse()) == ps,
{
    lemma_move_matrix_axis(mv);
    lemma_move_matrix_axis(mv.spec_inverse());
    let f = mv.spec_face();
    let m = mv.spec_matrix();
    let mi = mv.spec_inverse().spec_matrix();
    let once = moved_pieces(ps, mv);
    assert forall|i: int| 0 <= i < 27 implies (#[trigger] moved_pieces(once, mv.spec_inverse())[i])
        == ps[i] by {
        let p = ps[i];
        if on_face(p.position, f) {
            if mv.is_half_turn() {
                lemma_rotation_preserves_face(m, f, p.position);
                crate::rubik::lemma_quarter_rotation_lattice(m, p.position);
                lemma_rotation_preserves_face(m, f, rotated_piece(p, m).position);
                crate::rubik::lemma_half_turn_involutive(p, m);
            } else {
                lemma_rotation_preserves_face(m, f, p.position);
                crate::rubik::lemma_quarter_turn_then_inverse(p, m, mi);
            }
        }
    }
    assert(moved_pieces(moved_pieces(ps, mv), mv.spec_inverse()) =~= ps);
}

/// A sequence of moves applied in order, each to the result of the previous.
pub open spec fn moves_applied(ps: Seq<Piece>, mvs: Seq<Move>) -> Seq<Piece>
    decreases mvs.len(),
{
    if mvs.len() == 0 {
        ps
    } else {
        moves_applied(moved_pieces(ps, mvs[0]), mvs.skip(1))
    }
}

/// No finite sequence of moves breaks the bijection: after any queue of moves
/// has fully applied, the 27 pieces are still well formed — no two share a
/// position and (by the pigeonhole argument on well-formed pieces) no lattice
/// point is left empty.
pub proof fn lemma_moves_preserve_wf(ps: Seq<Piece>, mvs: Seq<Move>)
    requires
        pieces_wf(ps),
    ensures
        pieces_wf(moves_applied(ps, mvs)),
    decreases mvs.len(),
{
    if mvs.len() > 0 {
        lemma_move_preserves_wf(ps, mvs[0]);
        lemma_moves_preserve_wf(moved_pieces(ps, mvs[0]), mvs.skip(1));
    }
}

/// The indices of the pieces now on face `f`, as a set.
pub open spec fn face_index_set(ps: Seq<Piece>, f: int) -> Set<int> {
    Set::new(|i: int| 0 <= i < 27 && on_face(ps[i].position, f))
}

/// The cubelet slots that make up face `f`'s plane.
pub open spec fn face_cubelet_set(f: int) -> Set<int> {
    Set::new(|c: int| 0 <= c < 27 && on_face(crate::rubik::position_of(c), f))
}

/// Each face's plane holds exactly 9 of the 27 cubelet slots.
proof fn lemma_face_cubelet_count(f: int)
    requires
        0 <= f < 6,
    ensures
        face_cubelet_set(f).finite(),
        face_cubelet_set(f).len() == 9,
{
    broadcast use vstd::set::group_set_axioms;

    let s = face_cubelet_set(f);
    if f == 0 {
        assert(s =~= vstd::set_lib::set_int_range(0, 9));
        vstd::set_lib::lemma_int_range(0, 9);
    } else if f == 4 {
        assert(s =~= vstd::set_lib::set_int_range(18, 27));
        vstd::set_lib::lemma_int_range(18, 27);
    } else {
        let e = if f == 1 {
            Set::empty().insert(0int).insert(1).insert(2).insert(9).insert(10).insert(11).insert(
                18,
            ).insert(19).insert(20)
        } else if f == 3 {
            Set::empty().insert(6int).insert(7).insert(8).insert(15).insert(16).insert(17).insert(
                24,
            ).insert(25).insert(26)
        } else if f == 2 {
            Set::empty().insert(2int).insert(5).insert(8).insert(11).insert(14).insert(17).insert(
                20,
            ).insert(23).insert(26)
        } else {
            Set::empty().insert(0int).insert(3).insert(6).insert(9).insert(12).insert(15).insert(
                18,
            ).insert(21).insert(24)
        };
        assert(s =~= e);
        assert(e.len() == 9);
    }
}

/// A well-formed collection has exactly 9 pieces on each face: the positions
/// biject onto the lattice, and each face's plane holds 9 lattice points.
pub proof fn lemma_face_count(ps: Seq<Piece>, f: int)
    requires
        pieces_wf(ps),
        0 <= f < 6,
    ensures
        face_index_set(ps, f).finite(),
        face_index_set(ps, f).len() == 9,
{
    broadcast use vstd::set::group_set_axioms;

    let a = face_index_set(ps, f);
    let b = face_cubelet_set(f);
    let fmap = |i: int| cubelet_of(ps[i].position);
    vstd::set_lib::lemma_int_range(0, 27);
    assert(a.subset_of(vstd::set_lib::set_int_range(0, 27)));
    vstd::set_lib::lemma_set_subset_finite(vstd::set_lib::set_int_range(0, 27), a);
    assert(vstd::relations::injective_on(fmap, a)) by {
        assert forall|i: int, j: int| a.contains(i) && a.contains(j) && fmap(i) == fmap(j)
            implies i == j by {
            crate::rubik::lemma_position_of_cubelet(ps[i].position);
            crate::rubik::lemma_position_of_cubelet(ps[j].position);
        }
    }
    assert(a.map(fmap) =~= b) by {
        assert forall|c: int| #[trigger] b.contains(c) implies a.map(fmap).contains(c) by {
            crate::rubik::lemma_pieces_onto(ps, c);
            let i = choose|i: int|
                0 <= i < 27 && cubelet_of((#[trigger] ps[i]).position) == c;
            crate::rubik::lemma_position_of_cubelet(ps[i].position);
            assert(a.contains(i) && fmap(i) == c);
        }
        assert forall|c: int| #[trigger] a.map(fmap).contains(c) implies b.contains(c) by {
            let i = choose|i: int| a.contains(i) && fmap(i) == c;
            crate::rubik::lemma_position_of_cubelet(ps[i].position);
        }
    }
    vstd::set_lib::lemma_map_size(a, b, fmap);
    lemma_face_cubelet_count(f);
}

/// In a strictly ascending sequence every earlier entry is below every later
/// one.
proof fn lemma_ascending_entries(r: Seq<usize>, i: int, j: int)
    requires
        forall|t: int| 0 < t < r.len() ==> r[t - 1] < #[trigger] r[t],
        0 <= i < j < r.len(),
    ensures
        r[i] < r[j],
    decreases j - i,
{
    if i + 1 < j {
        lemma_ascending_entries(r, i, j - 1);
    }
}

/// A sorted list of exactly the on-face indices has exactly 9 entries.
pub proof fn lemma_face_list_len(ps: Seq<Piece>, f: int, r: Seq<usize>)
    requires
        pieces_wf(ps),
        0 <= f < 6,
        is_face_index_list(ps, f, r),
    ensures
        r.len() == 9,
{
    let ri = r.map_values(|u: usize| u as int);
    let a = face_index_set(ps, f);
    assert(ri.no_duplicates()) by {
        assert forall|i: int, j: int|
            0 <= i < ri.len() && 0 <= j < ri.len() && i != j implies ri[i] != ri[j] by {
            if i < j {
                lemma_ascending_entries(r, i, j);
            } else {
                lemma_ascending_entries(r, j, i);
            }
        }
    }
    assert(ri.to_set() =~= a) by {
        assert forall|x: int| #[trigger] ri.to_set().contains(x) implies a.contains(x) by {
            let t = choose|t: int| 0 <= t < ri.len() && ri[t] == x;
            assert(r[t] < 27 && on_face(ps[r[t] as int].position, f));
        }
        assert forall|x: int| #[trigger] a.contains(x) implies ri.to_set().contains(x) by {
            assert(on_face(ps[x].position, f));
            assert(r.contains(x as usize));
            let t = choose|t: int| 0 <= t < r.len() && r[t] == x as usize;
            assert(ri[t] == x);
        }
    }
    ri.unique_seq_to_set();
    lemma_face_count(ps, f);
}

/// A sorted list of the indices of exactly the pieces now on face `f`.
pub open spec fn is_face_index_list(ps: Seq<Piece>, f: int, r: Seq<usize>) -> bool {
    &&& forall|t: int|
        0 <= t < r.len() ==> (#[trigger] r[t]) < 27 && on_face(ps[r[t] as int].position, f)
    &&& forall|i: int| 0 <= i < 27 && (#[trigger] on_face(ps[i].position, f)) ==> r.contains(
        i as usize,
    )
    &&& forall|t: int| 0 < t < r.len() ==> r[t - 1] < #[trigger] r[t]
}

/// The indices of the pieces currently on face `f`, in ascending order,
/// re-derived from the live positions (earlier moves may have carried pieces
/// onto or off the face).
fn face(pieces: &Vec<Piece>, f: usize) -> (r: Vec<usize>)
    requires
        pieces_wf(pieces@),
        f < 6,
    ensures
        is_face_index_list(pieces@, f as int, r@),
        r@.len() == 9,
{
    let mut out: Vec<usize> = Vec::new();
    let mut j: usize = 0;
    while j < 27
        invariant
            pieces_wf(pieces@),
            f < 6,
            j <= 27,
            forall|t: int|
                0 <= t < out@.len() ==> (#[trigger] out@[t]) < j && on_face(
                    pieces@[out@[t] as int].position,
                    f as int,
                ),
            forall|i: int|
                0 <= i < j && (#[trigger] on_face(pieces@[i].position, f as int))
                    ==> out@.contains(i as usize),
            forall|t: int| 0 < t < out@.len() ==> out@[t - 1] < #[trigger] out@[t],
        decreases 27 - j,
    {
        if piece_on_face(&pieces[j], f) {
            let ghost before = out@;
            out.push(j);
            proof {
                assert forall|i: int|
                    0 <= i < j + 1 && (#[trigger] on_face(pieces@[i].position, f as int))
                        implies out@.contains(i as usize) by {
                    if i < j {
                        let k = choose|k: int| 0 <= k < before.len() && before[k] == i as usize;
                        assert(out@[k] == i as usize);
                    } else {
                        assert(out@[out@.len() - 1] == j);
                    }
                }
            }
        }
        j += 1;
    }
    proof {
        lemma_face_list_len(pieces@, f as int, out@);
    }
    out
}

/// What one call of `animate` did.
#[derive(Clone, Copy, Debug, PartialEq, Eq)]
pub enum AnimationTick {
    /// Nothing in flight and nothing queued.
    Idle,
    /// A move left the queue; its animation starts at this tick's time.
    Started { mv: Move },
    /// The move in flight is mid-animation, `elapsed` milliseconds in. The
    /// logical state is untouched; the renderer draws the face partway turned.
    Animating { mv: Move, elapsed: u64 },
    /// The move in flight ran past its duration: its discrete rotation has
    /// been applied, exactly once, and nothing is in flight any more.
    Completed { mv: Move },
}

/// Timing options of the move animation: how many milliseconds one move takes
/// on screen. Purely visual smoothing (the easing exponent) belongs to the
/// renderer.
pub struct CubeAnimationOptions {
    pub move_time: u64,
}

impl Default for CubeAnimationOptions {
    /// 1.2 seconds per move.
    fn default() -> (r: Self)
        ensures
            r.move_time == 1200,
    {
        CubeAnimationOptions { move_time: 1200 }
    }
}

/// The puzzle: 27 pieces, the move in flight (if any) with the face indices
/// it captured and its start time, the queue of pending moves, and the fixed
/// duration of one move's animation.
pub struct Cube {
    pub pieces: Vec<Piece>,
    pub current_move: Option<Move>,
    pub current_face: Option<Vec<usize>>,
    pub move_start: u64,
    pub move_queue: VecDeque<Move>,
    pub move_time: u64,
}

impl Cube {
    /// Well-formed cube: the pieces are a bijection onto the lattice, and the
    /// captured face indices exist exactly while a move is in flight.
    pub open spec fn wf(self) -> bool {
        &&& pieces_wf(self.pieces@)
        &&& (self.current_move is Some <==> self.current_face is Some)
    }

    /// Build a cube from a facelet string. Exactly the well-formed strings
    /// are accepted; the cube starts idle with an empty queue.
    pub fn from_facelet_str(fstr: &str, anim: CubeAnimationOptions) -> (r: Result<
        Cube,
        FaceletError,
    >)
        ensures
            r is Ok <==> valid_facelets(fstr@),
            r matches Ok(cube) ==> {
                &&& cube.wf()
                &&& cube.pieces@ == parsed_pieces(fstr@)
                &&& cube.current_move is None
                &&& cube.current_face is None
                &&& cube.move_queue@ == Seq::<Move>::empty()
                &&& cube.move_start == 0
                &&& cube.move_time == anim.move_time
            },
            r == Err::<Cube, FaceletError>(FaceletError::InvalidLength) <==> fstr@.len() != 54,
            r matches Err(FaceletError::InvalidChar(ch)) ==> exists|i: int|
                0 <= i < 54 && fstr@[i] == ch && spec_char_color(ch) is None && (forall|j: int|
                    0 <= j < i ==> (#[trigger] spec_char_color(fstr@[j])) is Some),
    {
        let pieces: Vec<Piece> = match parse_facelet_str(fstr) {
            Ok(p) => p,
            Err(e) => {
                return Err(e);
            },
        };
        proof {
            lemma_parsed_pieces_wf(fstr@);
        }
        Ok(
            Cube {
                pieces,
                current_move: None,
                current_face: None,
                move_start: 0,
                move_queue: VecDeque::new(),
                move_time: anim.move_time,
            },
        )
    }

    /// The cube's current facelet encoding: for each facelet, the color the
    /// piece now sitting behind it shows on that face's axis.
    pub fn to_facelet_str(&self) -> (out: String)
        requires
            self.wf(),
        ensures
            out@ == encoded_facelets(self.pieces@),
    {
        encode_pieces(&self.pieces)
    }

    /// Append moves to the tail of the queue; they will run strictly in
    /// order, one at a time, never skipped or reordered.
    pub fn queue(&mut self, moves: &[Move])
        ensures
            final(self).move_queue@ == old(self).move_queue@ + moves@,
            final(self).pieces@ == old(self).pieces@,
            final(self).current_move == old(self).current_move,
            final(self).current_face == old(self).current_face,
            final(self).move_start == old(self).move_start,
            final(self).move_time == old(self).move_time,
            old(self).wf() ==> final(self).wf(),
    {
        let mut k: usize = 0;
        let n: usize = moves.len();
        while k < n
            invariant
                k <= n,
                n == moves@.len(),
                self.move_queue@ == old(self).move_queue@ + moves@.take(k as int),
                self.pieces@ == old(self).pieces@,
                self.current_move == old(self).current_move,
                self.current_face == old(self).current_face,
                self.move_start == old(self).move_start,
                self.move_time == old(self).move_time,
            decreases n - k,
        {
            let mv: Move = *vstd::slice::slice_index_get(moves, k);
            self.move_queue.push_back(mv);
            proof {
                assert(self.move_queue@ =~= old(self).move_queue@ + moves@.take(k + 1));
            }
            k += 1;
        }
        proof {
            assert(moves@.take(n as int) =~= moves@);
        }
    }

    /// One animation tick with the frame's monotonic time (milliseconds).
    ///
    /// While a move is in flight the logical state stays frozen; once the
    /// elapsed time passes `move_time`, the move's discrete rotation is
    /// applied exactly once and the cube is idle again. An idle cube with a
    /// non-empty queue starts exactly one move per tick, capturing the face's
    /// piece indices from the pieces' current positions; finalization of one
    /// move therefore always happens before the next move leaves the queue.
    pub fn animate(&mut self, time: u64) -> (r: AnimationTick)
        requires
            old(self).wf(),
            old(self).current_move is Some ==> time >= old(self).move_start,
        ensures
            final(self).wf(),
            final(self).move_time == old(self).move_time,
            match old(self).current_move {
                Some(mv) => {
                    &&& final(self).move_start == old(self).move_start
                    &&& final(self).move_queue@ == old(self).move_queue@
                    &&& if time - old(self).move_start > old(self).move_time {
                        &&& r == (AnimationTick::Completed { mv })
                        &&& final(self).pieces@ == moved_pieces(old(self).pieces@, mv)
                        &&& final(self).current_move is None
                        &&& final(self).current_face is None
                    } else {
                        &&& r == (AnimationTick::Animating {
                            mv,
                            elapsed: (time - old(self).move_start) as u64,
                        })
                        &&& final(self).pieces@ == old(self).pieces@
                        &&& final(self).current_move == old(self).current_move
                        &&& final(self).current_face == old(self).current_face
                    }
                },
                None => {
                    &&& final(self).pieces@ == old(self).pieces@
                    &&& if old(self).move_queue@.len() > 0 {
                        &&& r == (AnimationTick::Started { mv: old(self).move_queue@[0] })
                        &&& final(self).current_move == Some(old(self).move_queue@[0])
                        &&& final(self).move_queue@ == old(self).move_queue@.skip(1)
                        &&& final(self).move_start == time
                        &&& final(self).current_face matches Some(cf) && is_face_index_list(
                            old(self).pieces@,
                            old(self).move_queue@[0].spec_face(),
                            cf@,
                        ) && cf@.len() == 9
                    } else {
                        &&& r == AnimationTick::Idle
                        &&& final(self).current_move is None
                        &&& final(self).current_face is None
                        &&& final(self).move_queue@ == old(self).move_queue@
                        &&& final(self).move_start == old(self).move_start
                    }
                },
            },
    {
        match self.current_move {
            Some(mv) => {
                let elapsed: u64 = time - self.move_start;
                if elapsed > self.move_time {
                    apply_move(&mut self.pieces, mv);
                    self.current_move = None;
                    self.current_face = None;
                    AnimationTick::Completed { mv }
                } else {
                    AnimationTick::Animating { mv, elapsed }
                }
            },
            None => {
                match self.move_queue.pop_front() {
                    Some(nmv) => {
                        let cf: Vec<usize> = face(&self.pieces, nmv.face());
                        self.current_move = Some(nmv);
                        self.current_face = Some(cf);
                        self.move_start = time;
                        AnimationTick::Started { mv: nmv }
                    },
                    None => AnimationTick::Idle,
                }
            },
        }
    }

    /// The solved cube: every face one solid color, in the codec's face and
    /// color order.
    pub fn solved(anim: CubeAnimationOptions) -> (r: Cube)
        ensures
            r.wf(),
            r.pieces@ == parsed_pieces(spec_solved_facelets()),
            r.current_move is None,
            r.current_face is None,
            r.move_queue@ == Seq::<Move>::empty(),
            r.move_time == anim.move_time,
    {
        proof {
            lemma_solved_facelets_valid();
        }
        match Self::from_facelet_str(
            "BBBBBBBBBYYYYYYYYYRRRRRRRRRWWWWWWWWWGGGGGGGGGOOOOOOOOO",
            anim,
        ) {
            Ok(c) => c,
            Err(_) => unreached(),
        }
    }
}

/// The facelet string of the solved cube.
pub open spec fn spec_solved_facelets() -> Seq<char> {
    "BBBBBBBBBYYYYYYYYYRRRRRRRRRWWWWWWWWWGGGGGGGGGOOOOOOOOO"@
}

/// The solved string is a well-formed facelet string.
pub proof fn lemma_solved_facelets_valid()
    ensures
        valid_facelets(spec_solved_facelets()),
{
    reveal_strlit("BBBBBBBBBYYYYYYYYYRRRRRRRRRWWWWWWWWWGGGGGGGGGOOOOOOOOO");
}

} // verus!
