//! The engine state and its operations: the active-piece lifecycle
//! (spawn, move, rotate with wall kicks, gravity, lock), the hold slot,
//! line clearing with scoring and leveling, game-over detection, and
//! restart. Every illegal or premature action is a defined no-op that
//! leaves the state unchanged.

use vstd::prelude::*;
use vstd::arithmetic::power2::pow2;
use vstd::arithmetic::power2::lemma2_to64;
use vstd::arithmetic::power2::lemma_pow2_strictly_increases;
use vstd::arithmetic::power2::lemma_pow2_unfold;
use vstd::arithmetic::div_mod::lemma_div_is_ordered;
use crate::board::Grid;
use crate::board::MAX_DIM;
use crate::board::cell_free_wide;
use crate::board::full_row_count;
use crate::board::spec_cleared_rows;
use crate::pieces::TetrominoType;
use crate::pieces::lemma_offsets_in_range;
use crate::pieces::spec_kicks;
use crate::pieces::spec_offsets;

verus! {

/// A position on the board grid.
#[derive(Clone, Copy, Debug, PartialEq, Eq, Hash, Structural)]
pub struct GridPosition {
    pub x: i32,
    pub y: i32,
}

/// The falling piece: its type, its pivot position, and its rotation state
/// in 0..4. Its four occupied cells are always computed from these three
/// values, so a move or rotation can never apply to only part of the piece.
#[derive(Clone, Copy, Debug, PartialEq, Eq, Structural)]
pub struct ActivePiece {
    pub piece_type: TetrominoType,
    pub position: GridPosition,
    pub rotation_state: usize,
}

/// The single-slot lookahead refilled whenever it is consumed.
#[derive(Clone, Copy, Debug, PartialEq, Eq, Structural)]
pub struct NextPiece {
    pub piece_type: TetrominoType,
}

/// The hold slot. `can_hold` turns false on a hold action and returns to
/// true only through a lock event.
#[derive(Clone, Copy, Debug, PartialEq, Eq, Structural)]
pub struct HoldPiece {
    pub piece_type: Option<TetrominoType>,
    pub can_hold: bool,
}

/// Cumulative score, cumulative lines cleared, and the level derived from
/// them.
#[derive(Clone, Copy, Debug, PartialEq, Eq, Structural)]
pub struct GameScore {
    pub score: u32,
    pub level: u32,
    pub lines_cleared: u32,
}

/// Whether the game is running or has ended at a blocked spawn.
#[derive(Clone, Copy, Debug, PartialEq, Eq, Structural)]
pub enum GameState {
    Playing,
    GameOver,
}

/// The complete engine state. All mutation goes through the operations on
/// this type.
pub struct Engine {
    pub grid: Grid,
    pub active: Option<ActivePiece>,
    pub next: NextPiece,
    pub hold: HoldPiece,
    pub score: GameScore,
    pub state: GameState,
}

/// Cell `i` (0..4) of a piece of type `t` in rotation state `rot` whose
/// pivot is at `(px, py)`.
pub open spec fn piece_cell(t: TetrominoType, rot: int, px: int, py: int, i: int) -> (int, int) {
    let off = spec_offsets(t, rot)[i];
    (px + off.0, py + off.1)
}

/// Whether a piece of type `t` in rotation state `rot` with pivot `(px, py)`
/// has all four of its cells in bounds and unoccupied.
pub open spec fn piece_fits(g: Grid, t: TetrominoType, rot: int, px: int, py: int) -> bool {
    forall|i: int|
        0 <= i < 4 ==> {
            let c = #[trigger] piece_cell(t, rot, px, py, i);
            g.cell_free(c.0, c.1)
        }
}

/// A fitting piece keeps its pivot within two cells of the board.
pub proof fn lemma_fits_pivot_bounds(g: Grid, t: TetrominoType, rot: int, px: int, py: int)
    requires
        g.wf(),
        piece_fits(g, t, rot, px, py),
    ensures
        -2 <= px <= g.width + 1,
        -2 <= py <= g.height + 1,
{
    lemma_offsets_in_range(t, rot);
    let c = piece_cell(t, rot, px, py, 0);
    assert(g.cell_free(c.0, c.1));
}

/// The four cells of a piece are always distinct, at any pivot and in any
/// rotation state.
pub proof fn lemma_piece_cells_distinct(t: TetrominoType, rot: int, px: int, py: int)
    ensures
        forall|i: int, j: int|
            #![trigger piece_cell(t, rot, px, py, i), piece_cell(t, rot, px, py, j)]
            0 <= i < j < 4 ==> piece_cell(t, rot, px, py, i) != piece_cell(t, rot, px, py, j),
{
    crate::pieces::lemma_offsets_distinct(t, rot);
}

/// The same engine with a different active slot; everything else unchanged.
pub open spec fn with_active(e: Engine, a: Option<ActivePiece>) -> Engine {
    Engine { grid: e.grid, active: a, next: e.next, hold: e.hold, score: e.score, state: e.state }
}

impl Engine {
    /// Well-formedness: a well-formed grid, a rotation state in 0..4 and a
    /// near-board pivot whenever a piece is active, no active piece after
    /// game over, and the level law `level == lines_cleared / 10 + 1`.
    pub open spec fn wf(self) -> bool {
        &&& self.grid.wf()
        &&& match self.active {
            Some(p) => {
                &&& p.rotation_state < 4
                &&& -2 <= p.position.x <= self.grid.width + 1
                &&& -2 <= p.position.y <= self.grid.height + 1
            },
            None => true,
        }
        &&& (self.state is GameOver ==> self.active is None)
        &&& self.score.level == self.score.lines_cleared / 10 + 1
    }
}

/// The initial engine state: an empty board of the given dimensions, zero
/// score at level one, an empty hold slot (a hold becomes available with the
/// first lock), the given lookahead piece, and Playing mode.
pub open spec fn is_initial(e: Engine, width: int, height: int, next: TetrominoType) -> bool {
    &&& e.grid.wf()
    &&& e.grid.width == width
    &&& e.grid.height == height
    &&& e.grid.blank()
    &&& e.active is None
    &&& e.next.piece_type == next
    &&& e.hold == (HoldPiece { piece_type: None, can_hold: false })
    &&& e.score == (GameScore { score: 0, level: 1, lines_cleared: 0 })
    &&& e.state is Playing
}

/// The spawn pivot column: the middle of the board.
pub open spec fn spawn_x(g: Grid) -> int {
    g.width as int / 2
}

/// The spawn pivot row: just below the top of the board.
pub open spec fn spawn_y(g: Grid) -> int {
    g.height as int - 2
}

/// Whether the engine has an active piece that can shift by `(dx, dy)`.
pub open spec fn movable(pre: Engine, dx: int, dy: int) -> bool {
    &&& pre.state is Playing
    &&& pre.active is Some
    &&& {
        let p = pre.active.unwrap();
        piece_fits(
            pre.grid,
            p.piece_type,
            p.rotation_state as int,
            p.position.x + dx,
            p.position.y + dy,
        )
    }
}

/// What one `try_move(dx, dy)` call does: if the shifted piece fits, the
/// pivot (and with it all four cells) moves by `(dx, dy)`; otherwise the
/// state is left completely unchanged.
pub open spec fn move_step(pre: Engine, post: Engine, dx: int, dy: int) -> bool {
    if movable(pre, dx, dy) {
        let p = pre.active.unwrap();
        post == with_active(
            pre,
            Some(
                ActivePiece {
                    piece_type: p.piece_type,
                    position: GridPosition {
                        x: (p.position.x + dx) as i32,
                        y: (p.position.y + dy) as i32,
                    },
                    rotation_state: p.rotation_state,
                },
            ),
        )
    } else {
        post == pre
    }
}

/// What one `spawn_from(refill)` call does: if the game is running and no
/// piece is active, the lookahead piece is placed at the spawn pivot in
/// rotation state 0 and the lookahead is refilled with `refill`; a blocked
/// spawn creates no piece and ends the game.
pub open spec fn spawn_step(pre: Engine, post: Engine, refill: TetrominoType) -> bool {
    if pre.state is Playing && pre.active is None {
        let t = pre.next.piece_type;
        if piece_fits(pre.grid, t, 0, spawn_x(pre.grid), spawn_y(pre.grid)) {
            post == (Engine {
                grid: pre.grid,
                active: Some(
                    ActivePiece {
                        piece_type: t,
                        position: GridPosition {
                            x: spawn_x(pre.grid) as i32,
                            y: spawn_y(pre.grid) as i32,
                        },
                        rotation_state: 0,
                    },
                ),
                next: NextPiece { piece_type: refill },
                hold: pre.hold,
                score: pre.score,
                state: GameState::Playing,
            })
        } else {
            post == (Engine {
                grid: pre.grid,
                active: None,
                next: NextPiece { piece_type: refill },
                hold: pre.hold,
                score: pre.score,
                state: GameState::GameOver,
            })
        }
    } else {
        post == pre
    }
}

/// The index of the first kick candidate in `kicks` at which the piece fits,
/// if any.
pub open spec fn first_fit(
    g: Grid,
    t: TetrominoType,
    rot: int,
    px: int,
    py: int,
    kicks: Seq<(i32, i32)>,
) -> Option<int>
    decreases kicks.len(),
{
    if kicks.len() == 0 {
        None
    } else if piece_fits(g, t, rot, px + kicks[0].0, py + kicks[0].1) {
        Some(0)
    } else {
        match first_fit(g, t, rot, px, py, kicks.skip(1)) {
            Some(i) => Some(i + 1),
            None => None,
        }
    }
}

/// If the piece fits at candidate `i` and at no earlier candidate, then `i`
/// is the first fit.
proof fn lemma_first_fit_at(
    g: Grid,
    t: TetrominoType,
    rot: int,
    px: int,
    py: int,
    kicks: Seq<(i32, i32)>,
    i: int,
)
    requires
        0 <= i < kicks.len(),
        piece_fits(g, t, rot, px + kicks[i].0, py + kicks[i].1),
        forall|j: int|
            0 <= j < i ==> !piece_fits(g, t, rot, px + (#[trigger] kicks[j]).0, py + kicks[j].1),
    ensures
        first_fit(g, t, rot, px, py, kicks) == Some(i),
    decreases i,
{
    if i == 0 {
    } else {
        assert(kicks.skip(1)[i - 1] == kicks[i]);
        assert(forall|j: int|
            0 <= j < i - 1 ==> !piece_fits(
                g,
                t,
                rot,
                px + (#[trigger] kicks.skip(1)[j]).0,
                py + kicks.skip(1)[j].1,
            )) by {
            assert(forall|j: int| 0 <= j < i - 1 ==> #[trigger] kicks.skip(1)[j] == kicks[j + 1]);
        }
        lemma_first_fit_at(g, t, rot, px, py, kicks.skip(1), i - 1);
    }
}

/// If the piece fits at no candidate, there is no first fit.
proof fn lemma_first_fit_none(
    g: Grid,
    t: TetrominoType,
    rot: int,
    px: int,
    py: int,
    kicks: Seq<(i32, i32)>,
)
    requires
        forall|j: int|
            0 <= j < kicks.len() ==> !piece_fits(
                g,
                t,
                rot,
                px + (#[trigger] kicks[j]).0,
                py + kicks[j].1,
            ),
    ensures
        first_fit(g, t, rot, px, py, kicks) is None,
    decreases kicks.len(),
{
    if kicks.len() > 0 {
        assert(forall|j: int|
            0 <= j < kicks.skip(1).len() ==> #[trigger] kicks.skip(1)[j] == kicks[j + 1]);
        lemma_first_fit_none(g, t, rot, px, py, kicks.skip(1));
    }
}

/// What one `rotate_cw` call does: the target rotation state is one step
/// clockwise; the kick candidates for the (from, to) pair are tried in table
/// order, and the first one at which the piece fits corrects the pivot —
/// later candidates are never tried. If no candidate fits, the state is left
/// completely unchanged.
pub open spec fn rotate_step(pre: Engine, post: Engine) -> bool {
    if pre.state is Playing && pre.active is Some {
        let p = pre.active.unwrap();
        let new_rot = (p.rotation_state as int + 1) % 4;
        let kicks = spec_kicks(p.piece_type, p.rotation_state as int, new_rot);
        match first_fit(
            pre.grid,
            p.piece_type,
            new_rot,
            p.position.x as int,
            p.position.y as int,
            kicks,
        ) {
            Some(i) => post == with_active(
                pre,
                Some(
                    ActivePiece {
                        piece_type: p.piece_type,
                        position: GridPosition {
                            x: (p.position.x + kicks[i].0) as i32,
                            y: (p.position.y + kicks[i].1) as i32,
                        },
                        rotation_state: new_rot as usize,
                    },
                ),
            ),
            None => post == pre,
        }
    } else {
        post == pre
    }
}

/// Whether `(x, y)` is one of the first `n` cells of piece `p`.
pub open spec fn covered_upto(p: ActivePiece, x: int, y: int, n: int) -> bool {
    exists|i: int|
        0 <= i < n && #[trigger] piece_cell(
            p.piece_type,
            p.rotation_state as int,
            p.position.x as int,
            p.position.y as int,
            i,
        ) == (x, y)
}

/// Whether `(x, y)` is one of the four cells of piece `p`.
pub open spec fn covered(p: ActivePiece, x: int, y: int) -> bool {
    covered_upto(p, x, y, 4)
}

/// What one `lock_piece` call does: the active piece's in-bounds cells are
/// written into the board, the active slot is cleared, and the hold becomes
/// available again; everything else is untouched. With no active piece (or
/// after game over) nothing happens at all.
pub open spec fn lock_step(pre: Engine, post: Engine) -> bool {
    if pre.state is Playing && pre.active is Some {
        let p = pre.active.unwrap();
        &&& post.grid.wf()
        &&& post.grid.width == pre.grid.width
        &&& post.grid.height == pre.grid.height
        &&& forall|x: int, y: int|
            0 <= x < pre.grid.width && 0 <= y < pre.grid.height ==> #[trigger] post.grid.cell(x, y)
                == (if covered(p, x, y) {
                Some(p.piece_type)
            } else {
                pre.grid.cell(x, y)
            })
        &&& post.active is None
        &&& post.hold == (HoldPiece { piece_type: pre.hold.piece_type, can_hold: true })
        &&& post.next == pre.next
        &&& post.score == pre.score
        &&& post.state == pre.state
    } else {
        post == pre
    }
}

/// Addition capped at the counter's maximum.
pub open spec fn cap_add_u32(a: int, b: int) -> int {
    if a + b <= u32::MAX as int {
        a + b
    } else {
        u32::MAX as int
    }
}

/// The score gained by clearing `k` rows in one lock event: 100 × 2^(k−1)
/// for k ≥ 1 and nothing for k == 0, computed once per event.
pub open spec fn score_gain(k: int) -> int {
    if k <= 0 {
        0
    } else {
        100 * pow2((k - 1) as nat) as int
    }
}

/// What one `clear_lines` call does: every full row is removed (rows above
/// shift down, fresh empty rows appear at the top); clearing k rows adds
/// 100 × 2^(k−1) to the score and k to the lines-cleared counter (each
/// capped at the counter's maximum), and the level is recomputed as
/// ⌊lines / 10⌋ + 1.
pub open spec fn clear_step(pre: Engine, post: Engine) -> bool {
    if pre.state is Playing {
        let k = full_row_count(pre.grid.rows());
        &&& post.grid.wf()
        &&& post.grid.width == pre.grid.width
        &&& post.grid.height == pre.grid.height
        &&& post.grid.rows() == spec_cleared_rows(pre.grid.rows(), pre.grid.width as int)
        &&& post.score.score == cap_add_u32(pre.score.score as int, score_gain(k))
        &&& post.score.lines_cleared == cap_add_u32(pre.score.lines_cleared as int, k)
        &&& post.score.level == post.score.lines_cleared as int / 10 + 1
        &&& post.active == pre.active
        &&& post.hold == pre.hold
        &&& post.next == pre.next
        &&& post.state == pre.state
    } else {
        post == pre
    }
}

/// What one gravity tick does to a running game with an active piece: the
/// piece moves one row down if it fits there; a blocked downward move is the
/// sole lock trigger, and the lock and the line-clear pass happen
/// synchronously within the same step.
pub open spec fn gravity_step(pre: Engine, post: Engine) -> bool {
    if pre.state is Playing && pre.active is Some {
        if movable(pre, 0, -1) {
            move_step(pre, post, 0, -1)
        } else {
            exists|mid: Engine| #[trigger] lock_step(pre, mid) && clear_step(mid, post)
        }
    } else {
        post == pre
    }
}

/// What one `request_hold` call does: a no-op unless the game is running,
/// a piece is active, and the hold is available. Otherwise the active piece
/// is discarded without locking; with an empty hold slot its type is stored
/// and the normal spawn flow will produce the next piece, while with an
/// occupied slot the previously held type spawns immediately (re-running the
/// game-over check) and the discarded type is stored. In all acting cases
/// the hold becomes unavailable until the next lock.
pub open spec fn hold_step(pre: Engine, post: Engine) -> bool {
    if pre.state is Playing && pre.active is Some && pre.hold.can_hold {
        let t = pre.active.unwrap().piece_type;
        match pre.hold.piece_type {
            None => post == (Engine {
                grid: pre.grid,
                active: None,
                next: pre.next,
                hold: HoldPiece { piece_type: Some(t), can_hold: false },
                score: pre.score,
                state: pre.state,
            }),
            Some(h) => {
                if piece_fits(pre.grid, h, 0, spawn_x(pre.grid), spawn_y(pre.grid)) {
                    post == (Engine {
                        grid: pre.grid,
                        active: Some(
                            ActivePiece {
                                piece_type: h,
                                position: GridPosition {
                                    x: spawn_x(pre.grid) as i32,
                                    y: spawn_y(pre.grid) as i32,
                                },
                                rotation_state: 0,
                            },
                        ),
                        next: pre.next,
                        hold: HoldPiece { piece_type: Some(t), can_hold: false },
                        score: pre.score,
                        state: GameState::Playing,
                    })
                } else {
                    post == (Engine {
                        grid: pre.grid,
                        active: None,
                        next: pre.next,
                        hold: HoldPiece { piece_type: Some(t), can_hold: false },
                        score: pre.score,
                        state: GameState::GameOver,
                    })
                }
            },
        }
    } else {
        post == pre
    }
}

/// What one restart does: accepted only in game-over mode, it rebuilds the
/// empty board at the same dimensions and returns every component to its
/// initial value, with `next` as the new lookahead piece.
pub open spec fn restart_step(pre: Engine, post: Engine, next: TetrominoType) -> bool {
    if pre.state is GameOver {
        is_initial(post, pre.grid.width as int, pre.grid.height as int, next)
    } else {
        post == pre
    }
}

/// Checks all four cells of a candidate placement. Coordinates come in a
/// wide integer type so that callers can form candidates before any bounds
/// are known.
fn piece_fits_exec(g: &Grid, t: TetrominoType, rot: usize, px: i64, py: i64) -> (r: bool)
    requires
        g.wf(),
        rot < 4,
        -0x1_0000_0000 <= px <= 0x1_0000_0000,
        -0x1_0000_0000 <= py <= 0x1_0000_0000,
    ensures
        r == piece_fits(*g, t, rot as int, px as int, py as int),
{
    proof {
        lemma_offsets_in_range(t, rot as int);
    }
    let offs = t.get_offsets_for_rotation(rot);
    let mut i: usize = 0;
    while i < offs.len()
        invariant
            g.wf(),
            rot < 4,
            -0x1_0000_0000 <= px <= 0x1_0000_0000,
            -0x1_0000_0000 <= py <= 0x1_0000_0000,
            offs@ == spec_offsets(t, rot as int),
            offs@.len() == 4,
            forall|j: int|
                0 <= j < 4 ==> -2 <= (#[trigger] offs@[j]).0 <= 2 && -2 <= offs@[j].1 <= 2,
            i <= 4,
            forall|j: int|
                0 <= j < i ==> {
                    let c = #[trigger] piece_cell(t, rot as int, px as int, py as int, j);
                    g.cell_free(c.0, c.1)
                },
        decreases 4 - i,
    {
        let off = offs[i];
        let cx = px + off.0 as i64;
        let cy = py + off.1 as i64;
        if !cell_free_wide(g, cx, cy) {
            proof {
                let c = piece_cell(t, rot as int, px as int, py as int, i as int);
                assert(!g.cell_free(c.0, c.1));
            }
            return false;
        }
        i = i + 1;
    }
    true
}

impl Engine {
    /// Builds an engine over an empty board of the given dimensions with the
    /// given first lookahead piece; rejects non-positive (or oversized)
    /// dimensions.
    pub fn new_with_next(width: i32, height: i32, next: TetrominoType) -> (r: Option<Engine>)
        ensures
            match r {
                Some(e) => e.wf() && is_initial(e, width as int, height as int, next),
                None => !(1 <= width <= MAX_DIM && 1 <= height <= MAX_DIM),
            },
    {
        match Grid::new(width, height) {
            None => None,
            Some(g) => Some(
                Engine {
                    grid: g,
                    active: None,
                    next: NextPiece { piece_type: next },
                    hold: HoldPiece { piece_type: None, can_hold: false },
                    score: GameScore { score: 0, level: 1, lines_cleared: 0 },
                    state: GameState::Playing,
                },
            ),
        }
    }

    /// Builds an engine over an empty board of the given dimensions, drawing
    /// the first lookahead piece at random; rejects non-positive (or
    /// oversized) dimensions.
    pub fn new(width: i32, height: i32) -> (r: Option<Engine>)
        ensures
            match r {
                Some(e) => e.wf() && exists|t: TetrominoType|
                    is_initial(e, width as int, height as int, t),
                None => !(1 <= width <= MAX_DIM && 1 <= height <= MAX_DIM),
            },
    {
        let t = crate::rng::get_random_piece();
        let r = Self::new_with_next(width, height, t);
        proof {
            if r is Some {
                assert(is_initial(r.unwrap(), width as int, height as int, t));
            }
        }
        r
    }

    /// Spawns the lookahead piece at the spawn pivot, drawing a fresh random
    /// lookahead. Returns whether a piece was created; a blocked spawn
    /// transitions the engine to game over instead.
    pub fn spawn_tetromino(&mut self) -> (spawned: bool)
        requires
            old(self).wf(),
        ensures
            final(self).wf(),
            exists|refill: TetrominoType| #[trigger] spawn_step(*old(self), *final(self), refill),
            spawned == (old(self).state is Playing && old(self).active is None && piece_fits(
                old(self).grid,
                old(self).next.piece_type,
                0,
                spawn_x(old(self).grid),
                spawn_y(old(self).grid),
            )),
    {
        let refill = crate::rng::get_random_piece();
        self.spawn_from(refill)
    }

    /// Restarts after a game over, drawing a fresh random lookahead piece.
    /// Accepted only in game-over mode.
    pub fn restart_game(&mut self)
        requires
            old(self).wf(),
        ensures
            final(self).wf(),
            exists|next: TetrominoType| #[trigger] restart_step(
                *old(self),
                *final(self),
                next,
            ),
    {
        let next = crate::rng::get_random_piece();
        self.restart_with(next);
    }

    /// Attempts to shift the active piece by `(dx, dy)`. The move is atomic:
    /// either all four cells (and the pivot) shift together, or the state is
    /// left completely unchanged.
    pub fn try_move(&mut self, dx: i32, dy: i32) -> (moved: bool)
        requires
            old(self).wf(),
        ensures
            final(self).wf(),
            move_step(*old(self), *final(self), dx as int, dy as int),
            moved == movable(*old(self), dx as int, dy as int),
            moved ==> {
                let p = old(self).active.unwrap();
                let q = final(self).active.unwrap();
                forall|i: int|
                    0 <= i < 4 ==> #[trigger] piece_cell(
                        q.piece_type,
                        q.rotation_state as int,
                        q.position.x as int,
                        q.position.y as int,
                        i,
                    ) == {
                        let c = piece_cell(
                            p.piece_type,
                            p.rotation_state as int,
                            p.position.x as int,
                            p.position.y as int,
                            i,
                        );
                        (c.0 + dx, c.1 + dy)
                    }
            },
    {
        match self.state {
            GameState::GameOver => {
                return false;
            },
            GameState::Playing => {},
        }
        let p = match self.active {
            Some(p) => p,
            None => {
                return false;
            },
        };
        let nx = p.position.x as i64 + dx as i64;
        let ny = p.position.y as i64 + dy as i64;
        if piece_fits_exec(&self.grid, p.piece_type, p.rotation_state, nx, ny) {
            proof {
                lemma_fits_pivot_bounds(
                    self.grid,
                    p.piece_type,
                    p.rotation_state as int,
                    nx as int,
                    ny as int,
                );
            }
            self.active = Some(
                ActivePiece {
                    piece_type: p.piece_type,
                    position: GridPosition { x: nx as i32, y: ny as i32 },
                    rotation_state: p.rotation_state,
                },
            );
            true
        } else {
            false
        }
    }

    /// Attempts to rotate the active piece one step clockwise, trying the
    /// kick candidates for the rotation pair in table order; the first
    /// candidate at which the piece fits wins. If none fits, the rotation is
    /// rejected and the state is left completely unchanged.
    pub fn rotate_cw(&mut self) -> (rotated: bool)
        requires
            old(self).wf(),
        ensures
            final(self).wf(),
            rotate_step(*old(self), *final(self)),
            rotated == (old(self).state is Playing && old(self).active is Some && {
                let p = old(self).active.unwrap();
                let new_rot = (p.rotation_state as int + 1) % 4;
                first_fit(
                    old(self).grid,
                    p.piece_type,
                    new_rot,
                    p.position.x as int,
                    p.position.y as int,
                    spec_kicks(p.piece_type, p.rotation_state as int, new_rot),
                ) is Some
            }),
    {
        match self.state {
            GameState::GameOver => {
                return false;
            },
            GameState::Playing => {},
        }
        let p = match self.active {
            Some(p) => p,
            None => {
                return false;
            },
        };
        let new_rot = (p.rotation_state + 1) % 4;
        let kicks = p.piece_type.get_srs_kicks(p.rotation_state, new_rot);
        let ghost skicks = spec_kicks(p.piece_type, p.rotation_state as int, new_rot as int);
        let mut i: usize = 0;
        while i < kicks.len()
            invariant
                self.wf(),
                *self == *old(self),
                self.active == Some(p),
                self.state is Playing,
                p.rotation_state < 4,
                -2 <= p.position.x <= self.grid.width + 1,
                -2 <= p.position.y <= self.grid.height + 1,
                new_rot == (p.rotation_state as int + 1) % 4,
                new_rot < 4,
                kicks@ == skicks,
                skicks == spec_kicks(p.piece_type, p.rotation_state as int, new_rot as int),
                i <= kicks@.len(),
                forall|j: int|
                    0 <= j < i ==> !piece_fits(
                        self.grid,
                        p.piece_type,
                        new_rot as int,
                        p.position.x + (#[trigger] skicks[j]).0,
                        p.position.y + skicks[j].1,
                    ),
            decreases kicks@.len() - i,
        {
            let kick = kicks[i];
            let cx = p.position.x as i64 + kick.0 as i64;
            let cy = p.position.y as i64 + kick.1 as i64;
            if piece_fits_exec(&self.grid, p.piece_type, new_rot, cx, cy) {
                proof {
                    lemma_fits_pivot_bounds(
                        self.grid,
                        p.piece_type,
                        new_rot as int,
                        cx as int,
                        cy as int,
                    );
                    lemma_first_fit_at(
                        self.grid,
                        p.piece_type,
                        new_rot as int,
                        p.position.x as int,
                        p.position.y as int,
                        skicks,
                        i as int,
                    );
                }
                self.active = Some(
                    ActivePiece {
                        piece_type: p.piece_type,
                        position: GridPosition { x: cx as i32, y: cy as i32 },
                        rotation_state: new_rot,
                    },
                );
                return true;
            }
            i = i + 1;
        }
        proof {
            lemma_first_fit_none(
                self.grid,
                p.piece_type,
                new_rot as int,
                p.position.x as int,
                p.position.y as int,
                skicks,
            );
        }
        false
    }

    /// Spawns the lookahead piece at the spawn pivot, refilling the
    /// lookahead with `refill`. Returns whether a piece was created; a
    /// blocked spawn transitions the engine to game over instead.
    pub fn spawn_from(&mut self, refill: TetrominoType) -> (spawned: bool)
        requires
            old(self).wf(),
        ensures
            final(self).wf(),
            spawn_step(*old(self), *final(self), refill),
            spawned == (old(self).state is Playing && old(self).active is None && piece_fits(
                old(self).grid,
                old(self).next.piece_type,
                0,
                spawn_x(old(self).grid),
                spawn_y(old(self).grid),
            )),
    {
        match self.state {
            GameState::GameOver => {
                return false;
            },
            GameState::Playing => {},
        }
        if self.active.is_some() {
            return false;
        }
        let t = self.next.piece_type;
        self.next = NextPiece { piece_type: refill };
        let px = self.grid.width / 2;
        let py = self.grid.height - 2;
        if piece_fits_exec(&self.grid, t, 0, px as i64, py as i64) {
            proof {
                lemma_fits_pivot_bounds(self.grid, t, 0, px as int, py as int);
            }
            self.active = Some(
                ActivePiece {
                    piece_type: t,
                    position: GridPosition { x: px, y: py },
                    rotation_state: 0,
                },
            );
            true
        } else {
            self.state = GameState::GameOver;
            false
        }
    }

    /// The ghost-piece target: the pivot the active piece would reach by
    /// falling straight down until blocked. A pure projection; the engine
    /// state is not touched.
    pub fn ghost_position(&self) -> (r: Option<GridPosition>)
        requires
            self.wf(),
        ensures
            match r {
                None => self.active is None,
                Some(gp) => {
                    &&& self.active is Some
                    &&& {
                        let p = self.active.unwrap();
                        &&& gp.x == p.position.x
                        &&& gp.y <= p.position.y
                        &&& !piece_fits(
                            self.grid,
                            p.piece_type,
                            p.rotation_state as int,
                            gp.x as int,
                            gp.y as int - 1,
                        )
                        &&& forall|yy: int|
                            gp.y <= yy < p.position.y ==> piece_fits(
                                self.grid,
                                p.piece_type,
                                p.rotation_state as int,
                                p.position.x as int,
                                yy,
                            )
                    }
                },
            },
    {
        let p = match self.active {
            Some(p) => p,
            None => {
                return None;
            },
        };
        let px = p.position.x as i64;
        let mut gy: i64 = p.position.y as i64;
        let mut can = piece_fits_exec(&self.grid, p.piece_type, p.rotation_state, px, gy - 1);
        proof {
            if can {
                lemma_fits_pivot_bounds(
                    self.grid,
                    p.piece_type,
                    p.rotation_state as int,
                    px as int,
                    gy as int - 1,
                );
            }
        }
        while can
            invariant
                self.wf(),
                self.active == Some(p),
                px == p.position.x,
                gy <= p.position.y,
                -2 <= gy <= MAX_DIM + 1,
                can == piece_fits(
                    self.grid,
                    p.piece_type,
                    p.rotation_state as int,
                    px as int,
                    gy as int - 1,
                ),
                can ==> gy - 1 >= -2,
                forall|yy: int|
                    gy <= yy < p.position.y ==> piece_fits(
                        self.grid,
                        p.piece_type,
                        p.rotation_state as int,
                        px as int,
                        yy,
                    ),
            decreases gy + 2,
        {
            gy = gy - 1;
            can = piece_fits_exec(&self.grid, p.piece_type, p.rotation_state, px, gy - 1);
            proof {
                if can {
                    lemma_fits_pivot_bounds(
                        self.grid,
                        p.piece_type,
                        p.rotation_state as int,
                        px as int,
                        gy as int - 1,
                    );
                }
            }
        }
        Some(GridPosition { x: p.position.x, y: gy as i32 })
    }

    /// Locks the active piece: writes its in-bounds cells into the board,
    /// clears the active slot, and makes the hold available again. Called at
    /// a lock transition, never speculatively; line clearing follows as its
    /// own pass.
    pub fn lock_piece(&mut self)
        requires
            old(self).wf(),
        ensures
            final(self).wf(),
            lock_step(*old(self), *final(self)),
    {
        match self.state {
            GameState::GameOver => {
                return ;
            },
            GameState::Playing => {},
        }
        let p = match self.active {
            Some(p) => p,
            None => {
                return ;
            },
        };
        self.active = None;
        self.hold.can_hold = true;
        proof {
            lemma_offsets_in_range(p.piece_type, p.rotation_state as int);
        }
        let offs = p.piece_type.get_offsets_for_rotation(p.rotation_state);
        let mut i: usize = 0;
        while i < offs.len()
            invariant
                old(self).wf(),
                old(self).active == Some(p),
                old(self).state is Playing,
                p.rotation_state < 4,
                -2 <= p.position.x <= old(self).grid.width + 1,
                -2 <= p.position.y <= old(self).grid.height + 1,
                offs@ == spec_offsets(p.piece_type, p.rotation_state as int),
                offs@.len() == 4,
                forall|j: int|
                    0 <= j < 4 ==> -2 <= (#[trigger] offs@[j]).0 <= 2 && -2 <= offs@[j].1 <= 2,
                i <= 4,
                self.grid.wf(),
                self.grid.width == old(self).grid.width,
                self.grid.height == old(self).grid.height,
                self.active is None,
                self.hold == (HoldPiece { piece_type: old(self).hold.piece_type, can_hold: true }),
                self.next == old(self).next,
                self.score == old(self).score,
                self.state == old(self).state,
                forall|x: int, y: int|
                    0 <= x < self.grid.width && 0 <= y < self.grid.height
                        ==> #[trigger] self.grid.cell(x, y) == (if covered_upto(p, x, y, i as int) {
                        Some(p.piece_type)
                    } else {
                        old(self).grid.cell(x, y)
                    }),
            decreases 4 - i,
        {
            let off = offs[i];
            let cx = p.position.x + off.0;
            let cy = p.position.y + off.1;
            let ghost prev_grid = self.grid;
            self.grid.write_cell(cx, cy, Some(p.piece_type));
            proof {
                let rot = p.rotation_state as int;
                let px = p.position.x as int;
                let py = p.position.y as int;
                assert forall|x: int, y: int|
                    0 <= x < self.grid.width && 0 <= y < self.grid.height implies #[trigger] self.grid.cell(
                    x,
                    y,
                ) == (if covered_upto(p, x, y, i + 1) {
                    Some(p.piece_type)
                } else {
                    old(self).grid.cell(x, y)
                }) by {
                    if x == cx && y == cy {
                        assert(piece_cell(p.piece_type, rot, px, py, i as int) == (x, y));
                        assert(covered_upto(p, x, y, i + 1));
                    } else {
                        assert(self.grid.cell(x, y) == prev_grid.cell(x, y));
                        if covered_upto(p, x, y, i + 1) {
                            let w = choose|j: int|
                                0 <= j < i + 1 && #[trigger] piece_cell(p.piece_type, rot, px, py, j)
                                    == (x, y);
                            assert(w != i);
                            assert(covered_upto(p, x, y, i as int));
                        }
                        if covered_upto(p, x, y, i as int) {
                            assert(covered_upto(p, x, y, i + 1));
                        }
                    }
                }
            }
            i = i + 1;
        }
    }

    /// Scans the board bottom-up, removes every full row, and updates score,
    /// lines-cleared counter, and level. Returns how many rows were cleared.
    pub fn clear_lines(&mut self) -> (k: u32)
        requires
            old(self).wf(),
        ensures
            final(self).wf(),
            clear_step(*old(self), *final(self)),
            k as int == (if old(self).state is Playing {
                full_row_count(old(self).grid.rows())
            } else {
                0
            }),
    {
        match self.state {
            GameState::GameOver => {
                return 0;
            },
            GameState::Playing => {},
        }
        let cleared = self.grid.clear_full_rows();
        if cleared > 0 {
            let gain = score_gain_exec(cleared);
            self.score.score = cap_add(self.score.score, gain);
            let old_lines = self.score.lines_cleared;
            self.score.lines_cleared = cap_add(self.score.lines_cleared, cleared as u32);
            let new_level = self.score.lines_cleared / 10 + 1;
            if new_level > self.score.level {
                self.score.level = new_level;
            } else {
                proof {
                    lemma_div_is_ordered(
                        old_lines as int,
                        self.score.lines_cleared as int,
                        10,
                    );
                }
            }
        }
        cleared as u32
    }

    /// One gravity tick: the active piece moves one row down if it can;
    /// otherwise it locks into the board and the line-clear pass runs in the
    /// same step. Returns whether a lock happened.
    pub fn apply_gravity(&mut self) -> (locked: bool)
        requires
            old(self).wf(),
        ensures
            final(self).wf(),
            gravity_step(*old(self), *final(self)),
            locked == (old(self).state is Playing && old(self).active is Some && !movable(
                *old(self),
                0,
                -1,
            )),
    {
        match self.state {
            GameState::GameOver => {
                return false;
            },
            GameState::Playing => {},
        }
        if self.active.is_none() {
            return false;
        }
        if self.try_move(0, -1) {
            false
        } else {
            self.lock_piece();
            let ghost mid = *self;
            self.clear_lines();
            proof {
                assert(lock_step(*old(self), mid));
                assert(clear_step(mid, *self));
            }
            true
        }
    }

    /// Requests a hold. A no-op if the hold is unavailable or no piece is
    /// active; otherwise the active piece's cells are discarded without
    /// locking, the hold slot is filled or swapped (a swap re-runs the
    /// game-over check at the spawn pivot), and the hold becomes unavailable
    /// until the next lock. Returns whether the hold acted.
    pub fn request_hold(&mut self) -> (held: bool)
        requires
            old(self).wf(),
        ensures
            final(self).wf(),
            hold_step(*old(self), *final(self)),
            held == (old(self).state is Playing && old(self).active is Some
                && old(self).hold.can_hold),
    {
        match self.state {
            GameState::GameOver => {
                return false;
            },
            GameState::Playing => {},
        }
        let p = match self.active {
            Some(p) => p,
            None => {
                return false;
            },
        };
        if !self.hold.can_hold {
            return false;
        }
        match self.hold.piece_type {
            None => {
                self.active = None;
                self.hold = HoldPiece { piece_type: Some(p.piece_type), can_hold: false };
            },
            Some(h) => {
                self.active = None;
                let px = self.grid.width / 2;
                let py = self.grid.height - 2;
                if piece_fits_exec(&self.grid, h, 0, px as i64, py as i64) {
                    proof {
                        lemma_fits_pivot_bounds(self.grid, h, 0, px as int, py as int);
                    }
                    self.active = Some(
                        ActivePiece {
                            piece_type: h,
                            position: GridPosition { x: px, y: py },
                            rotation_state: 0,
                        },
                    );
                } else {
                    self.state = GameState::GameOver;
                }
                self.hold = HoldPiece { piece_type: Some(p.piece_type), can_hold: false };
            },
        }
        true
    }

    /// Restarts after a game over: rebuilds the empty board at the same
    /// dimensions and returns score, hold, lookahead, and mode to their
    /// initial values. Accepted only in game-over mode.
    pub fn restart_with(&mut self, next: TetrominoType)
        requires
            old(self).wf(),
        ensures
            final(self).wf(),
            restart_step(*old(self), *final(self), next),
    {
        match self.state {
            GameState::Playing => {
                return ;
            },
            GameState::GameOver => {},
        }
        match Grid::new(self.grid.width, self.grid.height) {
            Some(g) => {
                self.grid = g;
                self.active = None;
                self.next = NextPiece { piece_type: next };
                self.hold = HoldPiece { piece_type: None, can_hold: false };
                self.score = GameScore { score: 0, level: 1, lines_cleared: 0 };
                self.state = GameState::Playing;
            },
            None => {
                proof {
                    assert(false);
                }
            },
        }
    }
}

/// Saturating add on the score counters.
fn cap_add(a: u32, b: u32) -> (r: u32)
    ensures
        r as int == cap_add_u32(a as int, b as int),
{
    if a <= u32::MAX - b {
        a + b
    } else {
        u32::MAX
    }
}

/// Computes the score gained by clearing `k` rows, capped at the counter's
/// maximum.
fn score_gain_exec(k: usize) -> (g: u32)
    requires
        1 <= k <= 1024,
    ensures
        g as int == (if score_gain(k as int) <= u32::MAX as int {
            score_gain(k as int)
        } else {
            u32::MAX as int
        }),
{
    if k > 26 {
        proof {
            lemma2_to64();
            if k - 1 > 26 {
                lemma_pow2_strictly_increases(26, (k - 1) as nat);
            }
        }
        return u32::MAX;
    }
    proof {
        lemma2_to64();
    }
    let mut g: u32 = 100;
    let mut i: usize = 1;
    while i < k
        invariant
            1 <= i <= k,
            k <= 26,
            g as int == 100 * pow2((i - 1) as nat),
        decreases k - i,
    {
        proof {
            lemma2_to64();
            if i - 1 < 24 {
                lemma_pow2_strictly_increases((i - 1) as nat, 24);
            }
            lemma_pow2_unfold(i as nat);
        }
        g = g * 2;
        i = i + 1;
    }
    proof {
        lemma2_to64();
        if i - 1 < 25 {
            lemma_pow2_strictly_increases((i - 1) as nat, 25);
        }
    }
    g
}

} // verus!
