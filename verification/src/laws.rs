//! Laws that relate several engine operations, stated over the same
//! transition relations that the operations' contracts use.

use vstd::prelude::*;
use vstd::arithmetic::power2::lemma2_to64;
use crate::board::full_row;
use crate::board::full_row_count;
use crate::board::keep_row;
use crate::board::lemma_filter_drops_at_most;
use crate::engine::ActivePiece;
use crate::engine::Engine;
use crate::engine::covered;
use crate::engine::lock_step;
use crate::engine::piece_cell;
use crate::engine::first_fit;
use crate::engine::hold_step;
use crate::engine::piece_fits;
use crate::engine::rotate_step;
use crate::engine::score_gain;
use crate::engine::with_active;
use crate::pieces::lemma_kicks_shape;
use crate::pieces::spec_kicks;

verus! {

/// Law: of two consecutive hold requests with no intervening lock, the
/// second is a no-op — whatever the first did, it either left the hold
/// unavailable or left a state in which no hold can act, so the held piece
/// and the hold flag are unchanged by the second request.
pub proof fn lemma_second_hold_is_noop(s0: Engine, s1: Engine, s2: Engine)
    requires
        hold_step(s0, s1),
        hold_step(s1, s2),
    ensures
        s2 == s1,
{
    if s0.state is Playing && s0.active is Some && s0.hold.can_hold {
        assert(!s1.hold.can_hold);
    }
}

/// The naive rotation candidate succeeds: the piece fits at its own pivot in
/// the next clockwise rotation state, so no kick is needed.
pub open spec fn no_kick_needed(pre: Engine) -> bool {
    &&& pre.state is Playing
    &&& pre.active is Some
    &&& {
        let p = pre.active.unwrap();
        piece_fits(
            pre.grid,
            p.piece_type,
            (p.rotation_state as int + 1) % 4,
            p.position.x as int,
            p.position.y as int,
        )
    }
}

/// When the identity kick is validated it is the first fit, so the rotation
/// keeps the pivot and only advances the rotation state.
proof fn lemma_identity_kick_rotation(pre: Engine, post: Engine)
    requires
        pre.active is Some,
        pre.active.unwrap().rotation_state < 4,
        no_kick_needed(pre),
        rotate_step(pre, post),
    ensures
        post == with_active(
            pre,
            Some(
                ActivePiece {
                    piece_type: pre.active.unwrap().piece_type,
                    position: pre.active.unwrap().position,
                    rotation_state: ((pre.active.unwrap().rotation_state as int + 1)
                        % 4) as usize,
                },
            ),
        ),
{
    let p = pre.active.unwrap();
    let nr = (p.rotation_state as int + 1) % 4;
    let kicks = spec_kicks(p.piece_type, p.rotation_state as int, nr);
    lemma_kicks_shape(p.piece_type, p.rotation_state as int, nr);
    assert(piece_fits(
        pre.grid,
        p.piece_type,
        nr,
        p.position.x as int + kicks[0].0,
        p.position.y as int + kicks[0].1,
    ));
    assert(first_fit(pre.grid, p.piece_type, nr, p.position.x as int, p.position.y as int, kicks)
        == Some(0int));
}

/// Law: rotating a piece clockwise four times returns it to its original
/// rotation state and cell positions whenever no kick was needed at any
/// step — in fact the whole engine state comes back to where it started.
pub proof fn lemma_four_rotations_round_trip(
    s0: Engine,
    s1: Engine,
    s2: Engine,
    s3: Engine,
    s4: Engine,
)
    requires
        s0.active is Some,
        s0.active.unwrap().rotation_state < 4,
        no_kick_needed(s0),
        rotate_step(s0, s1),
        no_kick_needed(s1),
        rotate_step(s1, s2),
        no_kick_needed(s2),
        rotate_step(s2, s3),
        no_kick_needed(s3),
        rotate_step(s3, s4),
    ensures
        s4 == s0,
{
    let r0 = s0.active.unwrap().rotation_state as int;
    lemma_identity_kick_rotation(s0, s1);
    lemma_identity_kick_rotation(s1, s2);
    lemma_identity_kick_rotation(s2, s3);
    lemma_identity_kick_rotation(s3, s4);
    assert(s4.active.unwrap().rotation_state as int == ((((r0 + 1) % 4 + 1) % 4 + 1) % 4 + 1) % 4);
    assert(((((r0 + 1) % 4 + 1) % 4 + 1) % 4 + 1) % 4 == r0);
}

/// Law: a single lock event completes at most four rows. On a board with no
/// full row — which is what a line-clear pass always leaves behind — locking
/// one piece yields a grid whose clear pass removes k rows with 0 ≤ k ≤ 4.
pub proof fn lemma_lock_clears_at_most_four(pre: Engine, post: Engine)
    requires
        pre.wf(),
        pre.state is Playing,
        pre.active is Some,
        lock_step(pre, post),
        forall|y: int| 0 <= y < pre.grid.height ==> !full_row(#[trigger] pre.grid.rows()[y]),
    ensures
        0 <= full_row_count(post.grid.rows()) <= 4,
{
    broadcast use vstd::set::group_set_axioms;
    broadcast use vstd::seq_lib::group_filter_ensures;

    let p = pre.active.unwrap();
    let t = p.piece_type;
    let rot = p.rotation_state as int;
    let px = p.position.x as int;
    let py = p.position.y as int;
    let s = set![
        piece_cell(t, rot, px, py, 0).1,
        piece_cell(t, rot, px, py, 1).1,
        piece_cell(t, rot, px, py, 2).1,
        piece_cell(t, rot, px, py, 3).1,
    ];
    assert(s.len() <= 4);
    assert forall|y: int|
        0 <= y < post.grid.rows().len() && !keep_row(#[trigger] post.grid.rows()[y]) implies s.contains(
        y,
    ) by {
        let pre_row = pre.grid.rows()[y];
        assert(!full_row(pre_row));
        assert(pre_row.len() == pre.grid.width);
        let x = choose|x: int| 0 <= x < pre_row.len() && !(#[trigger] pre_row[x] is Some);
        assert(pre.grid.cell(x, y) is None);
        assert(post.grid.cell(x, y) is Some);
        assert(covered(p, x, y));
        let i = choose|i: int|
            0 <= i < 4 && #[trigger] piece_cell(t, rot, px, py, i) == (x, y);
        assert(y == piece_cell(t, rot, px, py, i).1);
        if i == 0 {
            assert(s.contains(y));
        } else if i == 1 {
            assert(s.contains(y));
        } else if i == 2 {
            assert(s.contains(y));
        } else {
            assert(s.contains(y));
        }
    }
    lemma_filter_drops_at_most(post.grid.rows(), s);
}

/// Law: the score gained by one lock event clearing k rows is exactly
/// 100 × 2^(k−1) — nothing, 100, 200, 400, and 800 for k = 0..4.
pub proof fn lemma_score_gain_values()
    ensures
        score_gain(0) == 0,
        score_gain(1) == 100,
        score_gain(2) == 200,
        score_gain(3) == 400,
        score_gain(4) == 800,
{
    lemma2_to64();
}

} // verus!
