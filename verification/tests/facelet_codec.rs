use eyecandy::cube::{Cube, CubeAnimationOptions};
use eyecandy::facelets::{facelet_piece, facelet_slot, parse_facelet_str, FaceletError};

const SOLVED: &str = "BBBBBBBBBYYYYYYYYYRRRRRRRRRWWWWWWWWWGGGGGGGGGOOOOOOOOO";

/// The facelet-to-piece table, written out, against the computed mapping.
#[test]
fn facelet_piece_table() {
    let table: [usize; 54] = [
        0, 1, 2, 3, 4, 5, 6, 7, 8, //
        0, 9, 18, 1, 10, 19, 2, 11, 20, //
        2, 11, 20, 5, 14, 23, 8, 17, 26, //
        8, 17, 26, 7, 16, 25, 6, 15, 24, //
        20, 19, 18, 23, 22, 21, 26, 25, 24, //
        18, 9, 0, 21, 12, 3, 24, 15, 6,
    ];
    for i in 0..54 {
        assert_eq!(facelet_piece(i), table[i], "facelet {}", i);
    }
}

#[test]
fn facelet_slot_by_face() {
    for i in 0..54 {
        let expected = [0, 1, 2, 1, 0, 2][i / 9];
        assert_eq!(facelet_slot(i), expected, "facelet {}", i);
    }
}

#[test]
fn solved_string_round_trips() {
    let cube = Cube::from_facelet_str(SOLVED, CubeAnimationOptions::default()).unwrap();
    assert_eq!(cube.to_facelet_str(), SOLVED);
}

#[test]
fn scrambled_string_round_trips() {
    let s = "RBBOBBBYYWGYWYOWROOBGORBORRGGBGWROWRWWBYGGWYYROGWOYGRY";
    let cube = Cube::from_facelet_str(s, CubeAnimationOptions::default()).unwrap();
    assert_eq!(cube.to_facelet_str(), s);
}

#[test]
fn wrong_length_is_rejected() {
    let r = Cube::from_facelet_str("BBB", CubeAnimationOptions::default());
    assert!(matches!(r, Err(FaceletError::InvalidLength)));
    let long = SOLVED.to_owned() + "B";
    let r = Cube::from_facelet_str(&long, CubeAnimationOptions::default());
    assert!(matches!(r, Err(FaceletError::InvalidLength)));
}

#[test]
fn empty_string_is_rejected() {
    let r = Cube::from_facelet_str("", CubeAnimationOptions::default());
    assert!(matches!(r, Err(FaceletError::InvalidLength)));
}

#[test]
fn foreign_character_is_rejected_and_named() {
    let mut s = SOLVED.to_owned().into_bytes();
    s[10] = b'Q';
    let s = String::from_utf8(s).unwrap();
    let r = Cube::from_facelet_str(&s, CubeAnimationOptions::default());
    assert!(matches!(r, Err(FaceletError::InvalidChar('Q'))));
}

#[test]
fn first_foreign_character_is_the_one_named() {
    let mut s = SOLVED.to_owned().into_bytes();
    s[5] = b'q';
    s[40] = b'z';
    let s = String::from_utf8(s).unwrap();
    let r = parse_facelet_str(&s);
    assert!(matches!(r, Err(FaceletError::InvalidChar('q'))));
}

#[test]
fn lowercase_letters_are_not_colors() {
    let s = SOLVED.to_lowercase();
    let r = Cube::from_facelet_str(&s, CubeAnimationOptions::default());
    assert!(matches!(r, Err(FaceletError::InvalidChar('b'))));
}

#[test]
fn parsed_pieces_sit_on_the_lattice() {
    let pieces = parse_facelet_str(SOLVED).unwrap();
    assert_eq!(pieces.len(), 27);
    for (i, p) in pieces.iter().enumerate() {
        let (x, y, z) = p.position;
        assert_eq!(x, (i / 9) as i32 - 1);
        assert_eq!(y, 1 - ((i / 3) % 3) as i32);
        assert_eq!(z, (i % 3) as i32 - 1);
    }
}

#[test]
fn missing_sticker_encodes_as_x() {
    let mut cube = Cube::solved(CubeAnimationOptions::default());
    let idx = cube
        .pieces
        .iter()
        .position(|p| p.position == (-1, 0, 0))
        .unwrap();
    cube.pieces[idx].color = (None, cube.pieces[idx].color.1, cube.pieces[idx].color.2);
    let s = cube.to_facelet_str();
    assert_eq!(s.as_bytes()[4], b'X');
}
