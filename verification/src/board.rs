//! The playing field: a fixed-size grid of cells, each empty or holding the
//! type of the piece that was locked into it. Only locked blocks are
//! reflected here; the active piece's cells are never written until lock.

use vstd::prelude::*;
use crate::pieces::TetrominoType;

verus! {

broadcast use vstd::seq_lib::group_filter_ensures;

/// Largest accepted board dimension; keeps every coordinate computation far
/// from the integer limits.
pub const MAX_DIM: i32 = 1024;

/// The board. `cells[y][x]` is row `y` (0 is the bottom), column `x`
/// (0 is the left edge).
pub struct Grid {
    pub width: i32,
    pub height: i32,
    pub cells: Vec<Vec<Option<TetrominoType>>>,
}

/// A row with every cell occupied.
pub open spec fn full_row(row: Seq<Option<TetrominoType>>) -> bool {
    forall|x: int| 0 <= x < row.len() ==> (#[trigger] row[x]) is Some
}

/// Whether a row survives a line-clear pass.
pub open spec fn keep_row(row: Seq<Option<TetrominoType>>) -> bool {
    !full_row(row)
}

/// A row of `w` empty cells.
pub open spec fn spec_empty_row(w: int) -> Seq<Option<TetrominoType>> {
    Seq::new(w as nat, |x: int| None)
}

/// `n` empty rows of width `w`.
pub open spec fn empty_rows(n: int, w: int) -> Seq<Seq<Option<TetrominoType>>> {
    Seq::new(n as nat, |i: int| spec_empty_row(w))
}

/// The rows that survive a line-clear pass, bottom-up, in their original
/// order.
pub open spec fn kept_rows(rows: Seq<Seq<Option<TetrominoType>>>) -> Seq<
    Seq<Option<TetrominoType>>,
> {
    rows.filter(|r: Seq<Option<TetrominoType>>| keep_row(r))
}

/// The number of full rows.
pub open spec fn full_row_count(rows: Seq<Seq<Option<TetrominoType>>>) -> int {
    rows.len() - kept_rows(rows).len()
}

/// The grid contents after one line-clear pass: every full row is removed,
/// the rows above shift down, and fresh empty rows appear at the top.
pub open spec fn spec_cleared_rows(rows: Seq<Seq<Option<TetrominoType>>>, w: int) -> Seq<
    Seq<Option<TetrominoType>>,
> {
    kept_rows(rows) + empty_rows(full_row_count(rows), w)
}

impl Grid {
    /// The grid contents as a sequence of rows of cells.
    pub open spec fn rows(self) -> Seq<Seq<Option<TetrominoType>>> {
        self.cells@.map_values(|r: Vec<Option<TetrominoType>>| r@)
    }

    /// Well-formedness: positive bounded dimensions and a rectangular cell
    /// matrix.
    pub open spec fn wf(self) -> bool {
        &&& 1 <= self.width <= MAX_DIM
        &&& 1 <= self.height <= MAX_DIM
        &&& self.rows().len() == self.height
        &&& forall|y: int|
            0 <= y < self.height ==> (#[trigger] self.rows()[y]).len() == self.width
    }

    /// The content of the cell at column `x`, row `y`.
    pub open spec fn cell(self, x: int, y: int) -> Option<TetrominoType> {
        self.rows()[y][x]
    }

    /// The single source of truth for validity: a position is free iff it is
    /// in bounds and its cell is unoccupied.
    pub open spec fn cell_free(self, x: int, y: int) -> bool {
        &&& 0 <= x < self.width
        &&& 0 <= y < self.height
        &&& self.cell(x, y) is None
    }

    /// Every cell of the grid is empty.
    pub open spec fn blank(self) -> bool {
        forall|x: int, y: int|
            0 <= x < self.width && 0 <= y < self.height ==> #[trigger] self.cell(x, y) is None
    }

    /// Builds an empty grid, rejecting non-positive (or oversized)
    /// dimensions.
    pub fn new(width: i32, height: i32) -> (r: Option<Grid>)
        ensures
            match r {
                Some(g) => {
                    &&& g.wf()
                    &&& g.width == width
                    &&& g.height == height
                    &&& g.blank()
                },
                None => !(1 <= width <= MAX_DIM && 1 <= height <= MAX_DIM),
            },
    {
        if width < 1 || width > MAX_DIM || height < 1 || height > MAX_DIM {
            return None;
        }
        let mut cells: Vec<Vec<Option<TetrominoType>>> = Vec::new();
        let mut y: i32 = 0;
        while y < height
            invariant
                0 <= y <= height,
                1 <= width <= MAX_DIM,
                cells@.len() == y,
                forall|i: int| 0 <= i < y ==> (#[trigger] cells@[i])@ == spec_empty_row(width as int),
            decreases height - y,
        {
            cells.push(empty_row(width));
            y = y + 1;
        }
        let g = Grid { width, height, cells };
        proof {
            assert forall|yy: int| 0 <= yy < g.height implies (#[trigger] g.rows()[yy]).len()
                == g.width by {
                assert(g.rows()[yy] == g.cells@[yy]@);
            }
            assert forall|xx: int, yy: int|
                0 <= xx < g.width && 0 <= yy < g.height implies #[trigger] g.cell(xx, yy)
                is None by {
                assert(g.rows()[yy] == g.cells@[yy]@);
            }
        }
        Some(g)
    }

    /// Reads one in-bounds cell.
    pub fn get_cell(&self, x: i32, y: i32) -> (r: Option<TetrominoType>)
        requires
            self.wf(),
            0 <= x < self.width,
            0 <= y < self.height,
        ensures
            r == self.cell(x as int, y as int),
    {
        proof {
            assert(self.rows()[y as int] == self.cells@[y as int]@);
        }
        self.cells[y as usize][x as usize]
    }

    /// Writes one cell; positions outside the board are ignored, so a lock
    /// near the edge never writes out of bounds.
    pub fn write_cell(&mut self, x: i32, y: i32, v: Option<TetrominoType>)
        requires
            old(self).wf(),
        ensures
            final(self).wf(),
            final(self).width == old(self).width,
            final(self).height == old(self).height,
            forall|xx: int, yy: int|
                0 <= xx < old(self).width && 0 <= yy < old(self).height
                    ==> #[trigger] final(self).cell(xx, yy) == (if xx == x && yy == y {
                    v
                } else {
                    old(self).cell(xx, yy)
                }),
    {
        if x < 0 || x >= self.width || y < 0 || y >= self.height {
            return ;
        }
        let xu = x as usize;
        let yu = y as usize;
        proof {
            assert(self.rows()[y as int] == self.cells@[y as int]@);
        }
        let mut row = self.cells.remove(yu);
        row[xu] = v;
        self.cells.insert(yu, row);
        proof {
            assert(self.cells@ =~= old(self).cells@.update(y as int, self.cells@[y as int]));
            assert forall|yy: int| 0 <= yy < self.height implies (#[trigger] self.rows()[yy])
                == (if yy == y {
                old(self).rows()[yy].update(x as int, v)
            } else {
                old(self).rows()[yy]
            }) by {
                assert(self.rows()[yy] == self.cells@[yy]@);
                assert(old(self).rows()[yy] == old(self).cells@[yy]@);
            }
        }
    }

    /// Removes every full row, shifting the rows above each one down and
    /// adding fresh empty rows at the top; returns how many rows were
    /// removed. Rows are re-examined after each shift, so full rows that
    /// become contiguous through shifting are all cleared in one pass.
    pub fn clear_full_rows(&mut self) -> (k: usize)
        requires
            old(self).wf(),
        ensures
            final(self).wf(),
            final(self).width == old(self).width,
            final(self).height == old(self).height,
            final(self).rows() == spec_cleared_rows(old(self).rows(), old(self).width as int),
            k as int == full_row_count(old(self).rows()),
    {
        let ghost orig = old(self).rows();
        let ghost w = old(self).width as int;
        let hu = self.height as usize;
        let mut y: usize = 0;
        let mut k: usize = 0;
        proof {
            assert(orig.take((y + k) as int) =~= Seq::<Seq<Option<TetrominoType>>>::empty());
            assert(kept_rows(Seq::<Seq<Option<TetrominoType>>>::empty()) =~= Seq::<
                Seq<Option<TetrominoType>>,
            >::empty()) by {
                reveal(Seq::filter);
            }
            assert(self.rows() =~= kept_rows(orig.take((y + k) as int)) + orig.skip((y + k) as int)
                + empty_rows(k as int, w));
        }
        while y < hu
            invariant
                self.wf(),
                self.width == old(self).width,
                self.height == old(self).height,
                orig == old(self).rows(),
                w == old(self).width as int,
                hu == old(self).height as usize,
                orig.len() == hu,
                forall|yy: int| 0 <= yy < orig.len() ==> (#[trigger] orig[yy]).len() == w,
                y <= hu,
                k <= hu,
                y + k <= hu ==> {
                    &&& self.rows() == kept_rows(orig.take((y + k) as int)) + orig.skip(
                        (y + k) as int,
                    ) + empty_rows(k as int, w)
                    &&& kept_rows(orig.take((y + k) as int)).len() == y
                },
                y + k > hu ==> {
                    &&& self.rows() == kept_rows(orig) + empty_rows(k as int, w)
                    &&& k as int == full_row_count(orig)
                },
            decreases hu - y, hu - k,
        {
            let ghost n = (y + k) as int;
            proof {
                lemma_kept_rows_props(orig, w);
                if y + k <= hu {
                    assert(forall|yy: int|
                        0 <= yy < orig.take(n).len() ==> (#[trigger] orig.take(n)[yy]).len() == w);
                    lemma_kept_rows_props(orig.take(n), w);
                }
                assert(spec_empty_row(w)[0] is None);
            }
            if self.row_is_full(y) {
                proof {
                    // A full row at index y can only be an original,
                    // not-yet-examined row: kept rows and fresh empty rows
                    // are never full.
                    if y + k > hu {
                        if y < kept_rows(orig).len() {
                            assert(self.rows()[y as int] == kept_rows(orig)[y as int]);
                            assert(false);
                        } else {
                            assert(self.rows()[y as int] == empty_rows(k as int, w)[y
                                - kept_rows(orig).len()]);
                            assert(false);
                        }
                    }
                    if y + k == hu {
                        assert(k >= 1) by {
                            if k == 0 {
                                assert(kept_rows(orig.take(n)).len() == y);
                                assert(self.rows()[y as int] == kept_rows(orig.take(n))[y as int]);
                            }
                        }
                        assert(self.rows()[y as int] == empty_rows(k as int, w)[0]);
                        assert(false);
                    }
                    assert(y + k < hu);
                    assert(self.rows()[y as int] == orig.skip(n)[0]);
                    assert(full_row(orig[n]));
                }
                let ghost prev = *self;
                let ghost k0 = k as int;
                let _removed = self.cells.remove(y);
                let blank = empty_row(self.width);
                self.cells.push(blank);
                k = k + 1;
                proof {
                    let kt = kept_rows(orig.take(n));
                    let rest = orig.skip(n);
                    let emp = empty_rows(k0, w);
                    assert(self.cells@ == prev.cells@.remove(y as int).push(blank));
                    assert(self.rows() =~= prev.rows().remove(y as int).push(spec_empty_row(w)))
                        by {
                        assert forall|i: int| 0 <= i < self.cells@.len() implies #[trigger] self.rows()[i]
                            == prev.rows().remove(y as int).push(spec_empty_row(w))[i] by {
                            assert(self.rows()[i] == self.cells@[i]@);
                            if i < self.cells@.len() - 1 {
                                assert(prev.rows().remove(y as int)[i] == prev.rows()[
                                    if i < y as int {
                                        i
                                    } else {
                                        i + 1
                                    }
                                ]);
                                assert(prev.rows()[
                                    if i < y as int {
                                        i
                                    } else {
                                        i + 1
                                    }
                                ] == prev.cells@[
                                    if i < y as int {
                                        i
                                    } else {
                                        i + 1
                                    }
                                ]@);
                            }
                        }
                    }
                    assert(prev.rows().remove(y as int) =~= kt + rest.skip(1) + emp);
                    assert(rest.skip(1) =~= orig.skip(n + 1));
                    assert(emp.push(spec_empty_row(w)) =~= empty_rows(k0 + 1, w));
                    assert(orig.take(n + 1) =~= orig.take(n).push(orig[n]));
                    lemma_kept_push(orig.take(n), orig[n]);
                    assert(kept_rows(orig.take(n + 1)) == kt);
                    assert(self.rows() =~= kept_rows(orig.take(n + 1)) + orig.skip(n + 1)
                        + empty_rows(k0 + 1, w));
                    // Well-formedness of the shifted grid.
                    assert forall|yy: int| 0 <= yy < self.height implies (#[trigger] self.rows()[yy]).len()
                        == self.width by {
                        if yy < kt.len() {
                            assert(self.rows()[yy] == kt[yy]);
                        } else if yy < kt.len() + orig.skip(n + 1).len() {
                            assert(self.rows()[yy] == orig.skip(n + 1)[yy - kt.len()]);
                            assert(orig.skip(n + 1)[yy - kt.len()] == orig[yy - kt.len() + n + 1]);
                        } else {
                            assert(self.rows()[yy] == empty_rows(k0 + 1, w)[yy - kt.len()
                                - orig.skip(n + 1).len()]);
                        }
                    }
                }
            } else {
                proof {
                    if y + k <= hu {
                        if y + k == hu {
                            assert(orig.take(n) =~= orig);
                            assert(orig.skip(n) =~= Seq::<Seq<Option<TetrominoType>>>::empty());
                            assert(self.rows() =~= kept_rows(orig) + empty_rows(k as int, w));
                            assert(full_row_count(orig) == hu - kept_rows(orig).len());
                            assert(kept_rows(orig).len() == y);
                        } else {
                            assert(self.rows()[y as int] == orig.skip(n)[0]);
                            assert(!full_row(orig[n]));
                            assert(orig.take(n + 1) =~= orig.take(n).push(orig[n]));
                            lemma_kept_push(orig.take(n), orig[n]);
                            assert(kept_rows(orig.take(n + 1)) == kept_rows(orig.take(n)).push(
                                orig[n],
                            ));
                            assert(kept_rows(orig.take(n)) + orig.skip(n) + empty_rows(k as int, w)
                                =~= kept_rows(orig.take(n + 1)) + orig.skip(n + 1) + empty_rows(
                                k as int,
                                w,
                            ));
                        }
                    }
                }
                y = y + 1;
            }
        }
        proof {
            if y + k <= hu {
                assert(k == 0);
                assert(orig.take((y + k) as int) =~= orig);
                assert(self.rows() =~= kept_rows(orig) + empty_rows(full_row_count(orig), w));
            }
            assert(self.rows() == spec_cleared_rows(orig, w));
        }
        k
    }

    /// Whether row `y` is completely occupied.
    fn row_is_full(&self, y: usize) -> (r: bool)
        requires
            self.wf(),
            y < self.height as usize,
        ensures
            r == full_row(self.rows()[y as int]),
    {
        proof {
            assert(self.rows()[y as int] == self.cells@[y as int]@);
        }
        let row = &self.cells[y];
        let mut x: usize = 0;
        while x < row.len()
            invariant
                row@ == self.rows()[y as int],
                x <= row@.len(),
                forall|i: int| 0 <= i < x ==> (#[trigger] row@[i]) is Some,
            decreases row@.len() - x,
        {
            if row[x].is_none() {
                return false;
            }
            x = x + 1;
        }
        true
    }
}

/// The validity check used uniformly by move, rotate, spawn, and the ghost
/// projection: a position is valid iff it is in bounds and unoccupied.
pub fn is_valid_position(grid: &Grid, x: i32, y: i32) -> (r: bool)
    requires
        grid.wf(),
    ensures
        r == grid.cell_free(x as int, y as int),
{
    if x < 0 || x >= grid.width || y < 0 || y >= grid.height {
        return false;
    }
    proof {
        assert(grid.rows()[y as int] == grid.cells@[y as int]@);
    }
    if grid.cells[y as usize][x as usize].is_some() {
        return false;
    }
    true
}

/// The same validity check for candidate positions computed in a wider
/// integer type, so that callers never risk overflow before the bounds are
/// known.
pub(crate) fn cell_free_wide(grid: &Grid, x: i64, y: i64) -> (r: bool)
    requires
        grid.wf(),
    ensures
        r == grid.cell_free(x as int, y as int),
{
    if x < 0 || x >= grid.width as i64 || y < 0 || y >= grid.height as i64 {
        return false;
    }
    proof {
        assert(grid.rows()[y as int] == grid.cells@[y as int]@);
    }
    if grid.cells[y as usize][x as usize].is_some() {
        return false;
    }
    true
}

/// A row with any empty cell is never counted full.
pub proof fn lemma_row_with_empty_cell_not_full(row: Seq<Option<TetrominoType>>, x: int)
    requires
        0 <= x < row.len(),
        row[x] is None,
    ensures
        !full_row(row),
{
}

/// Appending a row keeps it exactly when it is not full.
proof fn lemma_kept_push(s: Seq<Seq<Option<TetrominoType>>>, x: Seq<Option<TetrominoType>>)
    ensures
        kept_rows(s.push(x)) == (if full_row(x) {
            kept_rows(s)
        } else {
            kept_rows(s).push(x)
        }),
{
    reveal(Seq::filter);
    assert(s.push(x).drop_last() =~= s);
    assert(s.push(x).last() == x);
}

/// Surviving rows keep the row width of the grid they came from.
proof fn lemma_kept_rows_props(rows: Seq<Seq<Option<TetrominoType>>>, w: int)
    requires
        forall|y: int| 0 <= y < rows.len() ==> (#[trigger] rows[y]).len() == w,
    ensures
        kept_rows(rows).len() <= rows.len(),
        forall|i: int|
            0 <= i < kept_rows(rows).len() ==> (#[trigger] kept_rows(rows)[i]).len() == w,
    decreases rows.len(),
{
    reveal(Seq::filter);
    if rows.len() > 0 {
        assert(forall|y: int|
            0 <= y < rows.drop_last().len() ==> (#[trigger] rows.drop_last()[y]).len() == w);
        lemma_kept_rows_props(rows.drop_last(), w);
        assert(rows.last().len() == w);
    }
}

/// A line-clear pass leaves no full row behind: surviving rows were not
/// full, and the fresh rows at the top are empty.
pub proof fn lemma_cleared_rows_not_full(rows: Seq<Seq<Option<TetrominoType>>>, w: int)
    requires
        1 <= w,
    ensures
        forall|y: int|
            0 <= y < spec_cleared_rows(rows, w).len() ==> !full_row(
                #[trigger] spec_cleared_rows(rows, w)[y],
            ),
{
    let out = spec_cleared_rows(rows, w);
    assert forall|y: int| 0 <= y < out.len() implies !full_row(out[y]) by {
        if y < kept_rows(rows).len() {
            assert(out[y] == kept_rows(rows)[y]);
        } else {
            assert(out[y] == empty_rows(full_row_count(rows), w)[y - kept_rows(rows).len()]);
            assert(out[y][0] is None);
        }
    }
}

/// If every row that a filter pass drops has its index in the finite set
/// `s`, then at most `s.len()` rows are dropped.
pub proof fn lemma_filter_drops_at_most(rows: Seq<Seq<Option<TetrominoType>>>, s: Set<int>)
    requires
        s.finite(),
        forall|y: int| 0 <= y < rows.len() && !keep_row(#[trigger] rows[y]) ==> s.contains(y),
    ensures
        rows.len() - kept_rows(rows).len() <= s.len(),
    decreases rows.len(),
{
    broadcast use vstd::set::group_set_axioms;

    reveal(Seq::filter);
    if rows.len() > 0 {
        let prefix = rows.drop_last();
        if keep_row(rows.last()) {
            assert(forall|y: int|
                0 <= y < prefix.len() && !keep_row(#[trigger] prefix[y]) ==> s.contains(y));
            lemma_filter_drops_at_most(prefix, s);
        } else {
            assert(s.contains(rows.len() - 1));
            let s2 = s.remove(rows.len() - 1);
            assert(forall|y: int|
                0 <= y < prefix.len() && !keep_row(#[trigger] prefix[y]) ==> s2.contains(y));
            lemma_filter_drops_at_most(prefix, s2);
        }
    }
}

/// Builds one empty row.
fn empty_row(width: i32) -> (r: Vec<Option<TetrominoType>>)
    requires
        width >= 0,
    ensures
        r@ == spec_empty_row(width as int),
{
    let mut v: Vec<Option<TetrominoType>> = Vec::new();
    let mut x: i32 = 0;
    while x < width
        invariant
            0 <= x <= width,
            v@.len() == x,
            forall|i: int| 0 <= i < x ==> (#[trigger] v@[i]) is None,
        decreases width - x,
    {
        v.push(None);
        x = x + 1;
    }
    proof {
        assert(v@ =~= spec_empty_row(width as int));
    }
    v
}

} // verus!
