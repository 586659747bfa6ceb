//! Logical model of a 3x3x3 twisty puzzle and its animated move engine.
//!
//! The library owns the discrete state: 27 pieces on the {-1,0,1}^3 lattice,
//! face rotations as exact integer matrices, a facelet-string codec, a FIFO
//! move queue and the time-driven state machine that advances it. Rendering,
//! camera smoothing and windowing are floating-point work that lives in the
//! surrounding application.

use vstd::prelude::*;

pub mod cube;
pub mod facelets;
pub mod rubik;

verus! {

/// A coordinate of a piece position or a rotation-matrix entry: the puzzle's
/// algebra happens on the integers -1, 0 and 1.
pub open spec fn coord_ok(c: i32) -> bool {
    -1 <= c <= 1
}

} // verus!
