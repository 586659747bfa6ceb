//! The facelet-string codec.
//!
//! A cube state travels as exactly 54 characters, one per visible sticker, in
//! a fixed scan order: 9 stickers for each of the 6 faces, face order left,
//! up, front, down, right, back. Facelet `i` belongs to face `i / 9`; within a
//! face the stickers are scanned in a fixed order of the 9 positions. Each
//! facelet lands in one of the three color slots of one piece: the slot is the
//! face's axis and the piece is given by `spec_facelet_piece`.

use vstd::prelude::*;

verus! {

use crate::rubik::{Color, Piece, cubelet_of, position_of, lattice, lemma_cubelet_of_position,
    lemma_position_of_cubelet, pieces_wf, lemma_pieces_onto};

/// The piece slot (in the solved layout, the piece's 0..27 cubelet number)
/// that facelet `i` belongs to.
pub open spec fn spec_facelet_piece(i: int) -> int {
    let f = i / 9;
    let r = i % 9;
    if f == 0 {
        r
    } else if f == 1 {
        (r % 3) * 9 + r / 3
    } else if f == 2 {
        (r % 3) * 9 + (r / 3) * 3 + 2
    } else if f == 3 {
        (r % 3) * 9 + 6 + (2 - r / 3)
    } else if f == 4 {
        18 + (r / 3) * 3 + (2 - r % 3)
    } else {
        (2 - r % 3) * 9 + (r / 3) * 3
    }
}

/// Which of a piece's three color slots facelet `i` writes: faces 0 and 4 are
/// the x axis, 1 and 3 the y axis, 2 and 5 the z axis.
pub open spec fn spec_facelet_slot(i: int) -> int {
    let f = i / 9;
    if f == 0 || f == 4 {
        0
    } else if f == 1 || f == 3 {
        1
    } else {
        2
    }
}

/// The piece slot of facelet `i`, computed rather than tabulated; it agrees
/// with `spec_facelet_piece` entry by entry.
pub fn facelet_piece(i: usize) -> (r: usize)
    requires
        i < 54,
    ensures
        r == spec_facelet_piece(i as int),
        r < 27,
{
    let f: usize = i / 9;
    let r: usize = i % 9;
    if f == 0 {
        r
    } else if f == 1 {
        (r % 3) * 9 + r / 3
    } else if f == 2 {
        (r % 3) * 9 + (r / 3) * 3 + 2
    } else if f == 3 {
        (r % 3) * 9 + 6 + (2 - r / 3)
    } else if f == 4 {
        18 + (r / 3) * 3 + (2 - r % 3)
    } else {
        (2 - r % 3) * 9 + (r / 3) * 3
    }
}

/// The color slot of facelet `i`; agrees with `spec_facelet_slot`.
pub fn facelet_slot(i: usize) -> (r: usize)
    requires
        i < 54,
    ensures
        r == spec_facelet_slot(i as int),
        r < 3,
{
    let f: usize = i / 9;
    if f == 0 || f == 4 {
        0
    } else if f == 1 || f == 3 {
        1
    } else {
        2
    }
}

/// The letter of each sticker color.
pub open spec fn spec_color_char(c: Color) -> char {
    match c {
        Color::Blue => 'B',
        Color::Yellow => 'Y',
        Color::Red => 'R',
        Color::White => 'W',
        Color::Green => 'G',
        Color::Orange => 'O',
    }
}

/// The color of a facelet letter; characters outside the six letters are not
/// colors.
pub open spec fn spec_char_color(ch: char) -> Option<Color> {
    if ch == 'B' {
        Some(Color::Blue)
    } else if ch == 'Y' {
        Some(Color::Yellow)
    } else if ch == 'R' {
        Some(Color::Red)
    } else if ch == 'W' {
        Some(Color::White)
    } else if ch == 'G' {
        Some(Color::Green)
    } else if ch == 'O' {
        Some(Color::Orange)
    } else {
        None
    }
}

/// A well-formed facelet string: 54 characters, each one of the six letters.
pub open spec fn valid_facelets(s: Seq<char>) -> bool {
    &&& s.len() == 54
    &&& forall|i: int| 0 <= i < 54 ==> (#[trigger] spec_char_color(s[i])) is Some
}

pub fn char_color(ch: char) -> (r: Option<Color>)
    ensures
        r == spec_char_color(ch),
{
    if ch == 'B' {
        Some(Color::Blue)
    } else if ch == 'Y' {
        Some(Color::Yellow)
    } else if ch == 'R' {
        Some(Color::Red)
    } else if ch == 'W' {
        Some(Color::White)
    } else if ch == 'G' {
        Some(Color::Green)
    } else if ch == 'O' {
        Some(Color::Orange)
    } else {
        None
    }
}

/// Reading the color slot `sl` of a piece.
pub open spec fn read_slot(p: Piece, sl: int) -> Option<Color> {
    if sl == 0 {
        p.color.0
    } else if sl == 1 {
        p.color.1
    } else {
        p.color.2
    }
}

/// Writing the color slot `sl` of a piece.
pub open spec fn write_slot(p: Piece, sl: int, col: Option<Color>) -> Piece {
    if sl == 0 {
        Piece { position: p.position, color: (col, p.color.1, p.color.2) }
    } else if sl == 1 {
        Piece { position: p.position, color: (p.color.0, col, p.color.2) }
    } else {
        Piece { position: p.position, color: (p.color.0, p.color.1, col) }
    }
}

/// The 27 pieces before any sticker is written: each piece at its own lattice
/// point, all slots empty.
pub open spec fn initial_pieces() -> Seq<Piece> {
    Seq::new(27, |c: int| Piece { position: position_of(c), color: (None, None, None) })
}

/// The pieces after the first `k` facelets of `s` have been written.
pub open spec fn parse_upto(s: Seq<char>, k: int) -> Seq<Piece>
    decreases k,
{
    if k <= 0 {
        initial_pieces()
    } else {
        let prev = parse_upto(s, k - 1);
        let c = spec_facelet_piece(k - 1);
        prev.update(c, write_slot(prev[c], spec_facelet_slot(k - 1), spec_char_color(s[k - 1])))
    }
}

/// The pieces a well-formed facelet string denotes.
pub open spec fn parsed_pieces(s: Seq<char>) -> Seq<Piece> {
    parse_upto(s, 54)
}

/// The index of the piece currently sitting in cubelet slot `c`.
pub open spec fn piece_index_at(pieces: Seq<Piece>, c: int) -> int {
    choose|j: int| 0 <= j < pieces.len() && cubelet_of(pieces[j].position) == c
}

/// The facelet letter a piece slot shows: the color's letter, or 'X' where the
/// slot holds no sticker.
pub open spec fn spec_slot_char(oc: Option<Color>) -> char {
    match oc {
        Some(c) => spec_color_char(c),
        None => 'X',
    }
}

/// The 54-character encoding of a piece configuration, reading each facelet
/// from the piece currently in that facelet's cubelet slot.
pub open spec fn encoded_facelets(pieces: Seq<Piece>) -> Seq<char> {
    Seq::new(
        54,
        |i: int|
            spec_slot_char(
                read_slot(
                    pieces[piece_index_at(pieces, spec_facelet_piece(i))],
                    spec_facelet_slot(i),
                ),
            ),
    )
}

/// Two distinct facelets never write the same slot of the same piece.
pub proof fn lemma_facelet_targets_injective(i: int, j: int)
    requires
        0 <= i < 54,
        0 <= j < 54,
        i != j,
    ensures
        spec_facelet_piece(i) != spec_facelet_piece(j) || spec_facelet_slot(i)
            != spec_facelet_slot(j),
{
}

/// Every facelet's piece slot is in range.
pub proof fn lemma_facelet_piece_bounds(i: int)
    requires
        0 <= i < 54,
    ensures
        0 <= spec_facelet_piece(i) < 27,
{
}

/// Parsing never moves a piece: after any number of facelets, piece `c` still
/// sits at its own lattice point.
pub proof fn lemma_parse_upto_positions(s: Seq<char>, k: int)
    requires
        0 <= k <= 54,
    ensures
        parse_upto(s, k).len() == 27,
        forall|c: int| 0 <= c < 27 ==> (#[trigger] parse_upto(s, k)[c]).position == position_of(c),
    decreases k,
{
    if k > 0 {
        lemma_parse_upto_positions(s, k - 1);
        lemma_facelet_piece_bounds(k - 1);
    }
}

/// What one slot of the parse holds: the color of its facelet's letter once
/// that facelet has been read, nothing before.
pub proof fn lemma_parse_upto_slot(s: Seq<char>, k: int, i: int)
    requires
        0 <= k <= 54,
        0 <= i < 54,
    ensures
        read_slot(parse_upto(s, k)[spec_facelet_piece(i)], spec_facelet_slot(i)) == if i < k {
            spec_char_color(s[i])
        } else {
            None
        },
    decreases k,
{
    lemma_facelet_piece_bounds(i);
    if k > 0 {
        lemma_parse_upto_slot(s, k - 1, i);
        lemma_parse_upto_positions(s, k - 1);
        lemma_facelet_piece_bounds(k - 1);
        if i != k - 1 {
            lemma_facelet_targets_injective(i, k - 1);
        }
    }
}

/// A letter that names a color is the letter of that color.
pub proof fn lemma_char_color_inverse(ch: char)
    requires
        spec_char_color(ch) is Some,
    ensures
        spec_color_char(spec_char_color(ch)->Some_0) == ch,
{
}

/// Parsing a well-formed facelet string and encoding the pieces again gives
/// back the very same string: the codec round-trips.
pub proof fn lemma_facelet_round_trip(s: Seq<char>)
    requires
        valid_facelets(s),
    ensures
        encoded_facelets(parsed_pieces(s)) == s,
{
    let ps = parsed_pieces(s);
    lemma_parse_upto_positions(s, 54);
    assert forall|i: int| 0 <= i < 54 implies encoded_facelets(ps)[i] == s[i] by {
        lemma_facelet_piece_bounds(i);
        let c = spec_facelet_piece(i);
        lemma_cubelet_of_position(c);
        assert(cubelet_of(ps[c].position) == c);
        let j = piece_index_at(ps, c);
        assert(0 <= j < 27 && cubelet_of(ps[j].position) == c);
        lemma_cubelet_of_position(j);
        assert(j == c);
        lemma_parse_upto_slot(s, 54, i);
        lemma_char_color_inverse(s[i]);
    }
    assert(encoded_facelets(ps) =~= s);
}

/// A facelet string that does not parse: the wrong length, or a character
/// that names no sticker color.
#[derive(Clone, Copy, Debug, PartialEq, Eq)]
pub enum FaceletError {
    InvalidLength,
    InvalidChar(char),
}

/// Parse a facelet string into the 27 pieces it denotes. Exactly the
/// well-formed strings parse; a wrong length or a foreign character is
/// reported, never swallowed, and the first offending character is named.
pub fn parse_facelet_str(s: &str) -> (r: Result<Vec<Piece>, FaceletError>)
    ensures
        r is Ok <==> valid_facelets(s@),
        r matches Ok(v) ==> v@ == parsed_pieces(s@),
        r == Err::<Vec<Piece>, FaceletError>(FaceletError::InvalidLength) <==> s@.len() != 54,
        r matches Err(FaceletError::InvalidChar(ch)) ==> exists|i: int|
            0 <= i < 54 && s@[i] == ch && spec_char_color(ch) is None && (forall|j: int|
                0 <= j < i ==> (#[trigger] spec_char_color(s@[j])) is Some),
{
    let n: usize = s.unicode_len();
    if n != 54 {
        return Err(FaceletError::InvalidLength);
    }
    let mut pieces: Vec<Piece> = Vec::new();
    let mut c: usize = 0;
    while c < 27
        invariant
            c <= 27,
            pieces@.len() == c,
            forall|t: int| 0 <= t < c ==> pieces@[t] == initial_pieces()[t],
        decreases 27 - c,
    {
        let x: i32 = (c / 9) as i32 - 1;
        let y: i32 = 1 - ((c / 3) % 3) as i32;
        let z: i32 = (c % 3) as i32 - 1;
        pieces.push(Piece { position: (x, y, z), color: (None, None, None) });
        c += 1;
    }
    assert(pieces@ =~= initial_pieces());
    let mut f: usize = 0;
    while f < 54
        invariant
            f <= 54,
            s@.len() == 54,
            pieces@.len() == 27,
            pieces@ == parse_upto(s@, f as int),
            forall|j: int| 0 <= j < f ==> (#[trigger] spec_char_color(s@[j])) is Some,
        decreases 54 - f,
    {
        let ch: char = s.get_char(f);
        match char_color(ch) {
            None => {
                proof {
                    let w = f as int;
                    assert(0 <= w < 54 && s@[w] == ch && spec_char_color(ch) is None && (
                    forall|j: int| 0 <= j < w ==> (#[trigger] spec_char_color(s@[j])) is Some));
                }
                return Err(FaceletError::InvalidChar(ch));
            },
            Some(col) => {
                let ci: usize = facelet_piece(f);
                let sl: usize = facelet_slot(f);
                let mut p: Piece = pieces[ci];
                if sl == 0 {
                    p.color = (Some(col), p.color.1, p.color.2);
                } else if sl == 1 {
                    p.color = (p.color.0, Some(col), p.color.2);
                } else {
                    p.color = (p.color.0, p.color.1, Some(col));
                }
                pieces[ci] = p;
                proof {
                    assert(pieces@ =~= parse_upto(s@, f + 1));
                }
            },
        }
        f += 1;
    }
    Ok(pieces)
}

/// The pieces a well-formed string denotes are well formed: each piece on its
/// own lattice point.
pub proof fn lemma_parsed_pieces_wf(s: Seq<char>)
    ensures
        pieces_wf(parsed_pieces(s)),
{
    lemma_parse_upto_positions(s, 54);
    let ps = parsed_pieces(s);
    assert forall|c: int| 0 <= c < 27 implies lattice((#[trigger] ps[c]).position) by {
        lemma_cubelet_of_position(c);
    }
    assert forall|i: int, j: int|
        0 <= i < 27 && 0 <= j < 27 && i != j implies (#[trigger] ps[i]).position != (
    #[trigger] ps[j]).position by {
        lemma_cubelet_of_position(i);
        lemma_cubelet_of_position(j);
    }
}

/// The index of the piece now sitting in cubelet slot `c`. In a well-formed
/// collection there is exactly one.
pub fn find_piece_at(pieces: &Vec<Piece>, c: usize) -> (r: usize)
    requires
        pieces_wf(pieces@),
        c < 27,
    ensures
        r < 27,
        cubelet_of(pieces@[r as int].position) == c,
        r == piece_index_at(pieces@, c as int),
{
    proof {
        lemma_pieces_onto(pieces@, c as int);
    }
    let mut j: usize = 0;
    loop
        invariant
            pieces_wf(pieces@),
            c < 27,
            j <= 27,
            forall|t: int| 0 <= t < j ==> cubelet_of((#[trigger] pieces@[t]).position) != c,
            exists|i: int| 0 <= i < 27 && cubelet_of((#[trigger] pieces@[i]).position) == c,
        decreases 27 - j,
    {
        assert(j < 27);
        if pieces[j].cubelet() == c {
            proof {
                let w = piece_index_at(pieces@, c as int);
                assert(0 <= w < 27 && cubelet_of(pieces@[w].position) == c);
                lemma_position_of_cubelet(pieces@[j as int].position);
                lemma_position_of_cubelet(pieces@[w].position);
            }
            return j;
        }
        j += 1;
    }
}

/// Encode 27 well-formed pieces as the 54-character facelet string they show.
pub fn encode_pieces(pieces: &Vec<Piece>) -> (out: String)
    requires
        pieces_wf(pieces@),
    ensures
        out@ == encoded_facelets(pieces@),
{
    let mut out: String = String::from_str("");
    proof {
        reveal_strlit("");
    }
    let mut i: usize = 0;
    while i < 54
        invariant
            i <= 54,
            pieces_wf(pieces@),
            out@.len() == i,
            forall|t: int| 0 <= t < i ==> out@[t] == encoded_facelets(pieces@)[t],
        decreases 54 - i,
    {
        let ci: usize = facelet_piece(i);
        let idx: usize = find_piece_at(pieces, ci);
        let sl: usize = facelet_slot(i);
        let p: Piece = pieces[idx];
        let oc: Option<Color> = if sl == 0 {
            p.color.0
        } else if sl == 1 {
            p.color.1
        } else {
            p.color.2
        };
        proof {
            reveal_strlit("B");
            reveal_strlit("Y");
            reveal_strlit("R");
            reveal_strlit("W");
            reveal_strlit("G");
            reveal_strlit("O");
            reveal_strlit("X");
        }
        match oc {
            Some(Color::Blue) => out.append("B"),
            Some(Color::Yellow) => out.append("Y"),
            Some(Color::Red) => out.append("R"),
            Some(Color::White) => out.append("W"),
            Some(Color::Green) => out.append("G"),
            Some(Color::Orange) => out.append("O"),
            None => out.append("X"),
        }
        i += 1;
    }
    proof {
        assert(out@ =~= encoded_facelets(pieces@));
    }
    out
}

} // verus!
