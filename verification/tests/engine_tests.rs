//! Behavioral tests for the engine: piece tables, collision, movement,
//! rotation with wall kicks, gravity and locking, line clearing and scoring,
//! hold, game over, and restart.

use tetris_engine::board::Grid;
use tetris_engine::board::is_valid_position;
use tetris_engine::engine::Engine;
use tetris_engine::engine::GameState;
use tetris_engine::engine::GridPosition;
use tetris_engine::pieces::TetrominoType;

fn standard(next: TetrominoType) -> Engine {
    match Engine::new_with_next(10, 20, next) {
        Some(e) => e,
        None => panic!("a 10 by 20 board must be accepted"),
    }
}

fn active_cells(e: &Engine) -> Vec<(i32, i32)> {
    let p = e.active.expect("an active piece was expected");
    let offs = p.piece_type.get_offsets_for_rotation(p.rotation_state);
    offs.iter().map(|o| (p.position.x + o.0, p.position.y + o.1)).collect()
}

#[test]
fn offsets_match_reference_tables() {
    let t = TetrominoType::T;
    assert_eq!(t.get_offsets_for_rotation(0), vec![(-1, 0), (0, 0), (1, 0), (0, 1)]);
    assert_eq!(t.get_offsets_for_rotation(1), vec![(0, 1), (0, 0), (0, -1), (1, 0)]);
    assert_eq!(t.get_offsets_for_rotation(2), vec![(-1, 0), (0, 0), (1, 0), (0, -1)]);
    assert_eq!(t.get_offsets_for_rotation(3), vec![(0, 1), (0, 0), (0, -1), (-1, 0)]);
    let i = TetrominoType::I;
    assert_eq!(i.get_offsets_for_rotation(1), vec![(1, 1), (1, 0), (1, -1), (1, -2)]);
    assert_eq!(i.get_offsets_for_rotation(5), i.get_offsets_for_rotation(1));
    // O never rotates visually.
    for rot in 0..4 {
        assert_eq!(
            TetrominoType::O.get_offsets_for_rotation(rot),
            vec![(0, 0), (1, 0), (0, 1), (1, 1)]
        );
    }
    assert_eq!(TetrominoType::Z.get_offsets(), vec![(0, 0), (1, 0), (0, 1), (-1, 1)]);
}

#[test]
fn kick_tables_match_reference() {
    let t = TetrominoType::T;
    assert_eq!(
        t.get_srs_kicks(0, 1),
        vec![(0, 0), (-1, 0), (-1, 1), (0, -2), (-1, -2)]
    );
    assert_eq!(
        TetrominoType::I.get_srs_kicks(0, 1),
        vec![(0, 0), (-2, 0), (1, 0), (-2, -1), (1, 2)]
    );
    assert_eq!(TetrominoType::O.get_srs_kicks(0, 1), vec![(0, 0)]);
    // Every table starts with the identity correction.
    for from in 0..4usize {
        let to = (from + 1) % 4;
        for piece in [
            TetrominoType::I,
            TetrominoType::J,
            TetrominoType::L,
            TetrominoType::O,
            TetrominoType::S,
            TetrominoType::T,
            TetrominoType::Z,
        ] {
            assert_eq!(piece.get_srs_kicks(from, to)[0], (0, 0));
        }
    }
}

#[test]
fn validity_is_bounds_and_occupancy() {
    let mut g = Grid::new(10, 20).expect("valid dimensions");
    assert!(is_valid_position(&g, 0, 0));
    assert!(is_valid_position(&g, 9, 19));
    assert!(!is_valid_position(&g, -1, 0));
    assert!(!is_valid_position(&g, 10, 0));
    assert!(!is_valid_position(&g, 0, -1));
    assert!(!is_valid_position(&g, 0, 20));
    g.write_cell(3, 4, Some(TetrominoType::S));
    assert!(!is_valid_position(&g, 3, 4));
    assert_eq!(g.get_cell(3, 4), Some(TetrominoType::S));
    // Writes outside the board are ignored.
    g.write_cell(-5, 100, Some(TetrominoType::S));
    assert!(is_valid_position(&g, 3, 5));
}

#[test]
fn grid_rejects_non_positive_dimensions() {
    assert!(Grid::new(0, 20).is_none());
    assert!(Grid::new(10, 0).is_none());
    assert!(Grid::new(-3, 20).is_none());
    assert!(Engine::new_with_next(0, 20, TetrominoType::I).is_none());
    assert!(Engine::new_with_next(10, -1, TetrominoType::I).is_none());
    assert!(Engine::new(10, 20).is_some());
}

#[test]
fn spawn_places_piece_at_spawn_pivot() {
    let mut e = standard(TetrominoType::T);
    assert!(e.spawn_from(TetrominoType::I));
    let p = e.active.expect("spawn must create a piece");
    assert_eq!(p.piece_type, TetrominoType::T);
    assert_eq!(p.position, GridPosition { x: 5, y: 18 });
    assert_eq!(p.rotation_state, 0);
    assert_eq!(e.next.piece_type, TetrominoType::I);
    // A second spawn with a piece still active is a no-op.
    assert!(!e.spawn_from(TetrominoType::S));
    assert_eq!(e.next.piece_type, TetrominoType::I);
}

#[test]
fn move_shifts_all_four_cells_atomically() {
    let mut e = standard(TetrominoType::T);
    e.spawn_from(TetrominoType::I);
    let before = active_cells(&e);
    assert!(e.try_move(-1, 0));
    let after = active_cells(&e);
    for (b, a) in before.iter().zip(after.iter()) {
        assert_eq!((b.0 - 1, b.1), *a);
    }
}

#[test]
fn blocked_move_changes_nothing() {
    let mut e = standard(TetrominoType::T);
    e.spawn_from(TetrominoType::I);
    // The T piece spans columns 4..=6; four steps left put its leftmost cell
    // at the wall, the fifth must be rejected with the state unchanged.
    for _ in 0..4 {
        assert!(e.try_move(-1, 0));
    }
    let before = active_cells(&e);
    let score_before = e.score;
    assert!(!e.try_move(-1, 0));
    assert_eq!(active_cells(&e), before);
    assert_eq!(e.score, score_before);
    assert_eq!(e.active.unwrap().position, GridPosition { x: 1, y: 18 });
}

#[test]
fn rotation_without_kick_keeps_pivot() {
    let mut e = standard(TetrominoType::T);
    e.spawn_from(TetrominoType::I);
    assert!(e.rotate_cw());
    let p = e.active.unwrap();
    assert_eq!(p.rotation_state, 1);
    assert_eq!(p.position, GridPosition { x: 5, y: 18 });
}

#[test]
fn four_rotations_round_trip() {
    let mut e = standard(TetrominoType::T);
    e.spawn_from(TetrominoType::I);
    // Keep clear of the ceiling so that no rotation needs a kick.
    for _ in 0..8 {
        assert!(e.try_move(0, -1));
    }
    let before_cells = active_cells(&e);
    let before_piece = e.active.unwrap();
    for _ in 0..4 {
        assert!(e.rotate_cw());
    }
    assert_eq!(e.active.unwrap(), before_piece);
    assert_eq!(active_cells(&e), before_cells);
}

#[test]
fn rotation_against_obstacle_uses_first_listed_kick() {
    // A T piece whose pivot sits at (8, 5) with its rightmost cell on the
    // wall column, and a block right below the pivot: the naive (0, 0)
    // candidate collides, so the listed (-1, 0) kick must win.
    let mut e = standard(TetrominoType::T);
    e.grid.write_cell(8, 4, Some(TetrominoType::S));
    e.spawn_from(TetrominoType::I);
    for _ in 0..3 {
        assert!(e.try_move(1, 0));
    }
    for _ in 0..13 {
        assert!(e.try_move(0, -1));
    }
    assert_eq!(e.active.unwrap().position, GridPosition { x: 8, y: 5 });
    assert!(e.rotate_cw());
    let p = e.active.unwrap();
    assert_eq!(p.rotation_state, 1);
    assert_eq!(p.position, GridPosition { x: 7, y: 5 });
}

#[test]
fn rejected_rotation_changes_nothing() {
    // A T piece on the floor: the naive candidate and both downward kicks
    // leave the board, and a block at (4, 1) defeats the two leftward kicks,
    // so the rotation is rejected and the piece is left untouched.
    let mut e = standard(TetrominoType::T);
    e.spawn_from(TetrominoType::I);
    while e.try_move(0, -1) {}
    assert_eq!(e.active.unwrap().position, GridPosition { x: 5, y: 0 });
    e.grid.write_cell(4, 1, Some(TetrominoType::J));
    let before = e.active.unwrap();
    assert!(!e.rotate_cw());
    assert_eq!(e.active.unwrap(), before);
}

#[test]
fn gravity_moves_down_then_locks_and_resets_hold() {
    let mut e = standard(TetrominoType::T);
    e.spawn_from(TetrominoType::I);
    assert!(!e.apply_gravity());
    assert_eq!(e.active.unwrap().position, GridPosition { x: 5, y: 17 });
    // Fall to the floor.
    while e.active.is_some() && e.active.unwrap().position.y > 0 {
        e.apply_gravity();
    }
    assert_eq!(e.active.unwrap().position.y, 0);
    let cells = active_cells(&e);
    // One more tick: blocked by the floor, so the piece locks.
    assert!(e.apply_gravity());
    assert!(e.active.is_none());
    assert!(e.hold.can_hold);
    for (x, y) in cells {
        assert_eq!(e.grid.get_cell(x, y), Some(TetrominoType::T));
    }
    assert_eq!(e.score.score, 0);
    assert_eq!(e.score.lines_cleared, 0);
}

fn fill_row_except(e: &mut Engine, y: i32, gap: Option<i32>) {
    for x in 0..10 {
        if Some(x) != gap {
            e.grid.write_cell(x, y, Some(TetrominoType::J));
        }
    }
}

#[test]
fn vertical_i_into_gap_clears_one_line() {
    // Bottom row fully occupied except column 5; an I piece dropped
    // vertically into the gap clears exactly one line for 100 points.
    let mut e = standard(TetrominoType::I);
    fill_row_except(&mut e, 0, Some(5));
    e.spawn_from(TetrominoType::T);
    // Rotate the I piece vertical: its cells move to column pivot+1.
    assert!(e.rotate_cw());
    // Align the vertical bar with the gap column.
    assert!(e.try_move(-1, 0));
    // Drop until it locks.
    let mut locked = false;
    for _ in 0..25 {
        if e.apply_gravity() {
            locked = true;
            break;
        }
    }
    assert!(locked);
    assert_eq!(e.score.lines_cleared, 1);
    assert_eq!(e.score.score, 100);
    assert_eq!(e.score.level, 1);
    // The rest of the bar shifted down one row into columns 5, rows 0..3.
    for y in 0..3 {
        assert_eq!(e.grid.get_cell(5, y), Some(TetrominoType::I));
    }
    assert_eq!(e.grid.get_cell(5, 3), None);
    // The previously filled row is gone.
    assert_eq!(e.grid.get_cell(0, 0), None);
}

#[test]
fn clear_scores_double_and_quadruple() {
    let mut e = standard(TetrominoType::I);
    fill_row_except(&mut e, 0, None);
    fill_row_except(&mut e, 1, None);
    assert_eq!(e.clear_lines(), 2);
    assert_eq!(e.score.score, 200);
    assert_eq!(e.score.lines_cleared, 2);

    let mut e = standard(TetrominoType::I);
    for y in 0..4 {
        fill_row_except(&mut e, y, None);
    }
    assert_eq!(e.clear_lines(), 4);
    assert_eq!(e.score.score, 800);
    assert_eq!(e.score.lines_cleared, 4);
}

#[test]
fn partial_row_is_never_counted_full() {
    let mut e = standard(TetrominoType::I);
    fill_row_except(&mut e, 0, Some(9));
    fill_row_except(&mut e, 1, None);
    fill_row_except(&mut e, 3, Some(0));
    assert_eq!(e.clear_lines(), 1);
    assert_eq!(e.score.score, 100);
    // The partial rows shifted down but survived.
    assert_eq!(e.grid.get_cell(0, 0), Some(TetrominoType::J));
    assert_eq!(e.grid.get_cell(9, 0), None);
    assert_eq!(e.grid.get_cell(1, 2), Some(TetrominoType::J));
    assert_eq!(e.grid.get_cell(0, 2), None);
}

#[test]
fn clear_with_no_full_rows_changes_nothing() {
    let mut e = standard(TetrominoType::I);
    fill_row_except(&mut e, 0, Some(4));
    assert_eq!(e.clear_lines(), 0);
    assert_eq!(e.score.score, 0);
    assert_eq!(e.score.lines_cleared, 0);
    assert_eq!(e.grid.get_cell(0, 0), Some(TetrominoType::J));
}

#[test]
fn level_recomputes_every_ten_lines() {
    let mut e = standard(TetrominoType::I);
    for y in 0..10 {
        fill_row_except(&mut e, y, None);
    }
    assert_eq!(e.clear_lines(), 10);
    assert_eq!(e.score.lines_cleared, 10);
    assert_eq!(e.score.level, 2);
    // 100 * 2^9
    assert_eq!(e.score.score, 51200);
}

#[test]
fn hold_is_unavailable_before_first_lock() {
    let mut e = standard(TetrominoType::T);
    e.spawn_from(TetrominoType::I);
    assert!(!e.request_hold());
    assert!(e.active.is_some());
    assert_eq!(e.hold.piece_type, None);
}

/// Locks one piece so the hold becomes available, then spawns the next.
fn engine_with_hold_available() -> Engine {
    let mut e = standard(TetrominoType::T);
    e.spawn_from(TetrominoType::S);
    while !e.apply_gravity() {}
    assert!(e.hold.can_hold);
    assert!(e.spawn_from(TetrominoType::L));
    e
}

#[test]
fn first_hold_stores_piece_and_clears_active() {
    let mut e = engine_with_hold_available();
    assert_eq!(e.active.unwrap().piece_type, TetrominoType::S);
    assert!(e.request_hold());
    assert_eq!(e.hold.piece_type, Some(TetrominoType::S));
    assert!(!e.hold.can_hold);
    assert!(e.active.is_none());
    // No cells of the discarded piece were written into the board.
    for y in 15..20 {
        for x in 0..10 {
            assert_eq!(e.grid.get_cell(x, y), None);
        }
    }
}

#[test]
fn second_hold_without_lock_is_noop() {
    let mut e = engine_with_hold_available();
    assert!(e.request_hold());
    let held = e.hold;
    // A piece spawns again, but the hold stays spent until the next lock.
    assert!(e.spawn_from(TetrominoType::J));
    assert!(!e.request_hold());
    assert_eq!(e.hold, held);
    assert_eq!(e.active.unwrap().piece_type, TetrominoType::L);
}

#[test]
fn hold_swap_spawns_held_piece() {
    let mut e = engine_with_hold_available();
    assert!(e.request_hold());
    assert!(e.spawn_from(TetrominoType::J));
    // Lock the active piece to make the hold available again.
    while !e.apply_gravity() {}
    assert!(e.spawn_from(TetrominoType::Z));
    assert_eq!(e.active.unwrap().piece_type, TetrominoType::J);
    // Swap: the held S comes back at the spawn pivot, J goes into the slot.
    assert!(e.request_hold());
    let p = e.active.unwrap();
    assert_eq!(p.piece_type, TetrominoType::S);
    assert_eq!(p.position, GridPosition { x: 5, y: 18 });
    assert_eq!(p.rotation_state, 0);
    assert_eq!(e.hold.piece_type, Some(TetrominoType::J));
    assert!(!e.hold.can_hold);
}

#[test]
fn blocked_spawn_ends_the_game() {
    let mut e = standard(TetrominoType::T);
    // Pre-occupy two of the spawn cells of the spawn pivot.
    e.grid.write_cell(5, 18, Some(TetrominoType::J));
    e.grid.write_cell(5, 19, Some(TetrominoType::J));
    assert!(!e.spawn_from(TetrominoType::I));
    assert!(e.active.is_none());
    assert_eq!(e.state, GameState::GameOver);
    // All gameplay operations are now no-ops.
    assert!(!e.try_move(-1, 0));
    assert!(!e.rotate_cw());
    assert!(!e.request_hold());
    assert!(!e.apply_gravity());
    assert_eq!(e.clear_lines(), 0);
    assert_eq!(e.state, GameState::GameOver);
}

#[test]
fn no_hidden_rows_above_the_board() {
    // The board has no hidden buffer rows above the visible grid: the spawn
    // pivot sits two rows below the top, and a single block on the top row
    // at the spawn column already defeats a T spawn (its upper cell lands
    // there). Conventional implementations often reserve two hidden rows;
    // this engine deliberately does not.
    let mut e = standard(TetrominoType::T);
    e.grid.write_cell(5, 19, Some(TetrominoType::J));
    assert!(!e.spawn_from(TetrominoType::I));
    assert_eq!(e.state, GameState::GameOver);
    assert!(e.active.is_none());
}

#[test]
fn restart_resets_everything() {
    let mut e = standard(TetrominoType::T);
    fill_row_except(&mut e, 0, None);
    e.clear_lines();
    e.grid.write_cell(5, 18, Some(TetrominoType::J));
    e.grid.write_cell(5, 19, Some(TetrominoType::J));
    e.spawn_from(TetrominoType::I);
    assert_eq!(e.state, GameState::GameOver);
    e.restart_with(TetrominoType::Z);
    assert_eq!(e.state, GameState::Playing);
    assert!(e.active.is_none());
    assert_eq!(e.next.piece_type, TetrominoType::Z);
    assert_eq!(e.hold.piece_type, None);
    assert!(!e.hold.can_hold);
    assert_eq!(e.score.score, 0);
    assert_eq!(e.score.level, 1);
    assert_eq!(e.score.lines_cleared, 0);
    for y in 0..20 {
        for x in 0..10 {
            assert_eq!(e.grid.get_cell(x, y), None);
        }
    }
    // Restart while playing is a no-op.
    let mut playing = standard(TetrominoType::T);
    playing.spawn_from(TetrominoType::I);
    playing.restart_with(TetrominoType::Z);
    assert_eq!(playing.next.piece_type, TetrominoType::I);
    assert!(playing.active.is_some());
}

#[test]
fn ghost_projects_piece_to_the_floor() {
    let mut e = standard(TetrominoType::T);
    assert!(e.ghost_position().is_none());
    e.spawn_from(TetrominoType::I);
    assert_eq!(e.ghost_position(), Some(GridPosition { x: 5, y: 0 }));
    // With a stack below, the ghost rests on top of it.
    e.grid.write_cell(5, 7, Some(TetrominoType::J));
    assert_eq!(e.ghost_position(), Some(GridPosition { x: 5, y: 8 }));
    // The projection never mutates the engine.
    assert_eq!(e.active.unwrap().position, GridPosition { x: 5, y: 18 });
}

#[test]
fn random_spawns_produce_valid_pieces() {
    // The randomizer is exercised through the public spawn flow: the
    // lookahead it refills is always one of the seven types, so repeated
    // spawns keep working.
    let mut e = standard(TetrominoType::T);
    for _ in 0..7 {
        assert!(e.spawn_tetromino());
        let t = e.active.unwrap().piece_type;
        assert!(matches!(
            t,
            TetrominoType::I
                | TetrominoType::J
                | TetrominoType::L
                | TetrominoType::O
                | TetrominoType::S
                | TetrominoType::T
                | TetrominoType::Z
        ));
        // Drop and lock it so the next spawn has room.
        while !e.apply_gravity() {}
        if e.state == GameState::GameOver {
            break;
        }
    }
}

#[test]
fn random_restart_returns_to_initial_state() {
    let mut e = standard(TetrominoType::T);
    e.grid.write_cell(5, 18, Some(TetrominoType::J));
    e.grid.write_cell(5, 19, Some(TetrominoType::J));
    e.spawn_from(TetrominoType::I);
    assert_eq!(e.state, GameState::GameOver);
    e.restart_game();
    assert_eq!(e.state, GameState::Playing);
    assert_eq!(e.score.score, 0);
    assert_eq!(e.grid.get_cell(5, 18), None);
}
