//! The piece randomizer: a uniform choice among the seven piece types, with
//! replacement, drawn from the process-wide random number generator.

use vstd::prelude::*;
use rand::RngExt;
use crate::pieces::TetrominoType;

verus! {

/// The piece type at index `i` of the fixed ordering the randomizer draws
/// from.
pub open spec fn spec_piece_from_index(i: int) -> TetrominoType {
    if i == 0 {
        TetrominoType::I
    } else if i == 1 {
        TetrominoType::J
    } else if i == 2 {
        TetrominoType::L
    } else if i == 3 {
        TetrominoType::O
    } else if i == 4 {
        TetrominoType::S
    } else if i == 5 {
        TetrominoType::T
    } else {
        TetrominoType::Z
    }
}

/// Relies on rand::rng and rand::RngExt::random_range: sampling from the
/// half-open range `0..7` yields a value below seven, and the range is
/// non-empty, so the call does not panic. Nothing more is assumed of the
/// outcome.
#[verifier::external_body]
fn random_index_below_seven() -> (r: u8)
    ensures
        r < 7,
{
    rand::rng().random_range(0..7u8)
}

/// The piece type at index `i` of the randomizer's fixed ordering.
pub fn piece_from_index(i: u8) -> (t: TetrominoType)
    requires
        i < 7,
    ensures
        t == spec_piece_from_index(i as int),
{
    if i == 0 {
        TetrominoType::I
    } else if i == 1 {
        TetrominoType::J
    } else if i == 2 {
        TetrominoType::L
    } else if i == 3 {
        TetrominoType::O
    } else if i == 4 {
        TetrominoType::S
    } else if i == 5 {
        TetrominoType::T
    } else {
        TetrominoType::Z
    }
}

/// Draws a uniformly random piece type. To the contracts the outcome is an
/// arbitrary piece type; callers state what holds whichever piece comes
/// back.
pub fn get_random_piece() -> (t: TetrominoType)
    ensures
        exists|i: int| 0 <= i < 7 && t == spec_piece_from_index(i),
{
    let i = random_index_below_seven();
    let t = piece_from_index(i);
    proof {
        assert(0 <= (i as int) && (i as int) < 7 && t == spec_piece_from_index(i as int));
    }
    t
}

} // verus!
