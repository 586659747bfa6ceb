use eyecandy::cube::{AnimationTick, Cube, CubeAnimationOptions, Move};
use eyecandy::rubik::{rot_x_cw, Color, Mat3, Piece};

const SOLVED: &str = "BBBBBBBBBYYYYYYYYYRRRRRRRRRWWWWWWWWWGGGGGGGGGOOOOOOOOO";

/// Golden value: the facelet encoding after [L, F, L2, U', B, R', L'] from
/// the solved state, computed once from the move semantics.
const GOLDEN: &str = "RBBOBBBYYWGYWYOWROOBGORBORRGGBGWROWRWWBYGGWYYROGWOYGRY";

/// Drive the animation with a strictly increasing clock until the cube goes
/// idle with an empty queue.
fn run_to_completion(cube: &mut Cube, clock: &mut u64) {
    loop {
        *clock += 700;
        if let AnimationTick::Idle = cube.animate(*clock) {
            break;
        }
    }
}

fn animate_moves(cube: &mut Cube, moves: &[Move]) {
    let mut clock = 0u64;
    cube.queue(moves);
    run_to_completion(cube, &mut clock);
}

#[test]
fn quarter_turn_has_order_four() {
    let mut cube = Cube::solved(CubeAnimationOptions::default());
    animate_moves(&mut cube, &[Move::L, Move::L, Move::L, Move::L]);
    assert_eq!(cube.to_facelet_str(), SOLVED);
}

#[test]
fn quarter_turn_changes_state() {
    let mut cube = Cube::solved(CubeAnimationOptions::default());
    animate_moves(&mut cube, &[Move::L]);
    assert_ne!(cube.to_facelet_str(), SOLVED);
}

#[test]
fn half_turn_twice_is_identity() {
    for mv in [Move::L2, Move::R2, Move::U2, Move::D2, Move::F2, Move::B2] {
        let mut cube = Cube::solved(CubeAnimationOptions::default());
        animate_moves(&mut cube, &[mv, mv]);
        assert_eq!(cube.to_facelet_str(), SOLVED, "{:?}", mv);
    }
}

#[test]
fn half_turn_equals_two_quarters() {
    let mut a = Cube::solved(CubeAnimationOptions::default());
    animate_moves(&mut a, &[Move::U2]);
    let mut b = Cube::solved(CubeAnimationOptions::default());
    animate_moves(&mut b, &[Move::U, Move::U]);
    assert_eq!(a.to_facelet_str(), b.to_facelet_str());
}

#[test]
fn every_move_undone_by_its_inverse() {
    let pairs = [
        (Move::L, Move::LP),
        (Move::LP, Move::L),
        (Move::R, Move::RP),
        (Move::RP, Move::R),
        (Move::U, Move::UP),
        (Move::UP, Move::U),
        (Move::D, Move::DP),
        (Move::DP, Move::D),
        (Move::F, Move::FP),
        (Move::FP, Move::F),
        (Move::B, Move::BP),
        (Move::BP, Move::B),
        (Move::L2, Move::L2),
        (Move::U2, Move::U2),
    ];
    for (mv, inv) in pairs {
        let mut cube = Cube::solved(CubeAnimationOptions::default());
        animate_moves(&mut cube, &[mv, inv]);
        assert_eq!(cube.to_facelet_str(), SOLVED, "{:?} then {:?}", mv, inv);
    }
}

#[test]
fn golden_sequence_and_its_inverse() {
    let mut cube = Cube::solved(CubeAnimationOptions::default());
    let seq = [
        Move::L,
        Move::F,
        Move::L2,
        Move::UP,
        Move::B,
        Move::RP,
        Move::LP,
    ];
    animate_moves(&mut cube, &seq);
    assert_eq!(cube.to_facelet_str(), GOLDEN);
    let back = [
        Move::L,
        Move::R,
        Move::BP,
        Move::U,
        Move::L2,
        Move::FP,
        Move::LP,
    ];
    animate_moves(&mut cube, &back);
    assert_eq!(cube.to_facelet_str(), SOLVED);
}

#[test]
fn positions_stay_a_bijection() {
    let mut cube = Cube::solved(CubeAnimationOptions::default());
    animate_moves(
        &mut cube,
        &[
            Move::L,
            Move::F,
            Move::L2,
            Move::UP,
            Move::B,
            Move::RP,
            Move::LP,
            Move::D,
            Move::U2,
            Move::B2,
        ],
    );
    let mut seen = [false; 27];
    for p in &cube.pieces {
        let (x, y, z) = p.position;
        assert!((-1..=1).contains(&x) && (-1..=1).contains(&y) && (-1..=1).contains(&z));
        let slot = ((x + 1) * 9 + (1 - y) * 3 + (z + 1)) as usize;
        assert!(!seen[slot], "duplicate position {:?}", p.position);
        seen[slot] = true;
    }
    assert!(seen.iter().all(|&b| b), "a lattice point was left empty");
}

#[test]
fn animation_state_machine_ticks() {
    let mut cube = Cube::solved(CubeAnimationOptions::default());
    cube.queue(&[Move::R, Move::U]);
    assert_eq!(cube.animate(100), AnimationTick::Started { mv: Move::R });
    assert_eq!(
        cube.animate(700),
        AnimationTick::Animating {
            mv: Move::R,
            elapsed: 600
        }
    );
    // mid-flight the logical state is untouched
    assert_eq!(cube.to_facelet_str(), SOLVED);
    assert_eq!(
        cube.animate(1300),
        AnimationTick::Animating {
            mv: Move::R,
            elapsed: 1200
        }
    );
    assert_eq!(cube.animate(1301), AnimationTick::Completed { mv: Move::R });
    assert_ne!(cube.to_facelet_str(), SOLVED);
    assert_eq!(cube.animate(1400), AnimationTick::Started { mv: Move::U });
    assert_eq!(cube.animate(2700), AnimationTick::Completed { mv: Move::U });
    assert_eq!(cube.animate(2800), AnimationTick::Idle);
}

#[test]
fn started_tick_captures_nine_face_pieces() {
    let mut cube = Cube::solved(CubeAnimationOptions::default());
    cube.queue(&[Move::F]);
    assert_eq!(cube.animate(0), AnimationTick::Started { mv: Move::F });
    let cf = cube.current_face.as_ref().unwrap();
    assert_eq!(cf.len(), 9);
    for &i in cf.iter() {
        // face 2 is the front: every captured piece has z == 1
        assert_eq!(cube.pieces[i].position.2, 1);
    }
}

#[test]
fn face_capture_follows_moved_pieces() {
    // after R the up face contains pieces that started on other faces;
    // the capture must read live positions, not the original layout
    let mut cube = Cube::solved(CubeAnimationOptions::default());
    animate_moves(&mut cube, &[Move::R]);
    cube.queue(&[Move::U]);
    let mut clock = 10_000u64;
    assert_eq!(
        cube.animate(clock),
        AnimationTick::Started { mv: Move::U }
    );
    let cf = cube.current_face.clone().unwrap();
    assert_eq!(cf.len(), 9);
    for &i in cf.iter() {
        assert_eq!(cube.pieces[i].position.1, 1);
    }
    run_to_completion(&mut cube, &mut clock);
    assert!(cube.current_move.is_none());
}

#[test]
fn queue_runs_in_append_order() {
    let mut cube = Cube::solved(CubeAnimationOptions::default());
    cube.queue(&[Move::L]);
    cube.queue(&[Move::F, Move::B]);
    let mut started = Vec::new();
    let mut clock = 0u64;
    loop {
        clock += 500;
        match cube.animate(clock) {
            AnimationTick::Started { mv } => started.push(mv),
            AnimationTick::Idle => break,
            _ => {}
        }
    }
    assert_eq!(started, vec![Move::L, Move::F, Move::B]);
}

#[test]
fn queueing_mid_flight_runs_after_the_current_move() {
    let mut cube = Cube::solved(CubeAnimationOptions::default());
    cube.queue(&[Move::L]);
    assert_eq!(cube.animate(0), AnimationTick::Started { mv: Move::L });
    assert!(matches!(
        cube.animate(600),
        AnimationTick::Animating { mv: Move::L, .. }
    ));
    cube.queue(&[Move::LP]);
    assert_eq!(cube.animate(1300), AnimationTick::Completed { mv: Move::L });
    assert_eq!(cube.animate(1400), AnimationTick::Started { mv: Move::LP });
    assert_eq!(cube.animate(2700), AnimationTick::Completed { mv: Move::LP });
    assert_eq!(cube.to_facelet_str(), SOLVED);
}

#[test]
fn rotate_moves_position_and_swaps_colors() {
    let mut p = Piece {
        position: (-1, 1, 0),
        color: (Some(Color::Blue), Some(Color::Yellow), None),
    };
    // about x: (x, y, z) -> (x, -z, y); the y and z color slots swap
    let r = p.rotate(&rot_x_cw()).unwrap();
    assert_eq!(r, ((-1, 1, 0), (-1, 0, 1)));
    assert_eq!(p.position, (-1, 0, 1));
    assert_eq!(p.color, (Some(Color::Blue), None, Some(Color::Yellow)));
}

#[test]
fn rotate_on_axis_keeps_colors() {
    let mut p = Piece {
        position: (-1, 0, 0),
        color: (Some(Color::Blue), None, None),
    };
    let r = p.rotate(&rot_x_cw()).unwrap();
    assert_eq!(r, ((-1, 0, 0), (-1, 0, 0)));
    assert_eq!(p.position, (-1, 0, 0));
    assert_eq!(p.color, (Some(Color::Blue), None, None));
}

#[test]
fn rotate_rejects_a_matrix_that_is_no_quarter_turn() {
    // point reflection: every delta axis is nonzero, no single rotation axis
    let neg = Mat3 {
        r0: (-1, 0, 0),
        r1: (0, -1, 0),
        r2: (0, 0, -1),
    };
    let mut p = Piece {
        position: (1, 1, 1),
        color: (Some(Color::Green), Some(Color::Yellow), Some(Color::Red)),
    };
    let before = (p.position, p.color);
    let r = p.rotate(&neg);
    assert!(r.is_err());
    let e = r.unwrap_err();
    assert_eq!(e.before, (1, 1, 1));
    assert_eq!(e.after, (-1, -1, -1));
    assert_eq!((p.position, p.color), before, "a failed rotation must not mutate");
}

#[test]
fn move_faces() {
    assert_eq!(Move::L.face(), 0);
    assert_eq!(Move::LP.face(), 0);
    assert_eq!(Move::L2.face(), 0);
    assert_eq!(Move::U.face(), 1);
    assert_eq!(Move::F.face(), 2);
    assert_eq!(Move::D.face(), 3);
    assert_eq!(Move::R.face(), 4);
    assert_eq!(Move::B2.face(), 5);
}

#[test]
fn default_animation_options() {
    let o = CubeAnimationOptions::default();
    assert_eq!(o.move_time, 1200);
}
