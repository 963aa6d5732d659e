//! Terminal grid representation.
//!
//! The grid is a 2D array of cells representing the visible terminal area.
//! It supports scrolling regions, inserting/deleting lines and resizing.

use vstd::prelude::*;

use crate::cell::{Cell, CellModel};
use crate::line::{blank_cells, blank_line, fill_range, Line, LineModel};
use crate::cell::blank_cell;
use crate::cursor::min_int;
use crate::views::{group_views, views};

verus! {

broadcast use group_views;

/// A line after `Line::resize(cols)`.
pub open spec fn resized_line(l: LineModel, cols: nat) -> LineModel {
    if cols > l.cells.len() {
        LineModel { cells: l.cells + blank_cells((cols - l.cells.len()) as nat), ..l }
    } else {
        LineModel { cells: l.cells.subrange(0, cols as int), ..l }
    }
}

/// The lines after `Grid::resize(rows, cols)`: existing lines are cut or
/// padded to `cols`, missing lines are blank.
pub open spec fn resized_lines(lines: Seq<LineModel>, rows: nat, cols: nat) -> Seq<LineModel> {
    Seq::new(rows, |r: int| if r < lines.len() { resized_line(lines[r], cols) } else { blank_line(cols) })
}

/// The lines after scrolling the region `[top, bottom]` up by `n` lines:
/// the region's lines move up by `n` and `n` blank lines fill its bottom.
pub open spec fn scrolled_up(lines: Seq<LineModel>, top: int, bottom: int, n: int, cols: nat) -> Seq<
    LineModel,
> {
    Seq::new(
        lines.len(),
        |i: int|
            if top <= i && i <= bottom - n {
                lines[i + n]
            } else if bottom - n < i && i <= bottom && top <= i {
                blank_line(cols)
            } else {
                lines[i]
            },
    )
}

/// The lines after scrolling the region `[top, bottom]` down by `n` lines:
/// the region's lines move down by `n` and `n` blank lines fill its top.
pub open spec fn scrolled_down(lines: Seq<LineModel>, top: int, bottom: int, n: int, cols: nat) -> Seq<
    LineModel,
> {
    Seq::new(
        lines.len(),
        |i: int|
            if top <= i && i < top + n && i <= bottom {
                blank_line(cols)
            } else if top + n <= i && i <= bottom {
                lines[i - n]
            } else {
                lines[i]
            },
    )
}

/// The effective bottom of a scroll region: `bottom` clamped to the last row.
pub open spec fn region_bottom(bottom: int, rows: int) -> int {
    min_int(bottom, rows - 1)
}

/// The effective scroll amount: `n` clamped to the height of the region.
pub open spec fn region_amount(top: int, bottom: int, n: int, rows: int) -> int {
    min_int(n, region_bottom(bottom, rows) - top + 1)
}

/// Whether a scroll of `[top, bottom]` by `n` does anything: the region
/// holds at least one line (a single line too) and `n` is not zero.
pub open spec fn scroll_applies(top: int, bottom: int, n: int, rows: int) -> bool {
    top <= bottom && top < rows && n != 0
}

/// A 2D grid of terminal cells.
#[derive(Debug)]
pub struct Grid {
    /// Lines in the grid (row 0 is at the top)
    lines: Vec<Line>,
    /// Number of columns
    cols: usize,
    /// Number of rows
    rows: usize,
}

impl View for Grid {
    type V = Seq<LineModel>;

    closed spec fn view(&self) -> Seq<LineModel> {
        views(self.lines@)
    }
}

impl Grid {
    pub closed spec fn spec_rows(&self) -> nat {
        self.rows as nat
    }

    pub closed spec fn spec_cols(&self) -> nat {
        self.cols as nat
    }

    /// Well-formed: `rows` lines, each of `cols` cells.
    pub open spec fn wf(&self) -> bool {
        &&& self@.len() == self.spec_rows()
        &&& forall|r: int| 0 <= r < self@.len() ==> #[trigger] self@[r].cells.len() == self.spec_cols()
    }

    /// A grid of blank lines.
    pub open spec fn blank_lines(rows: nat, cols: nat) -> Seq<LineModel> {
        Seq::new(rows, |i: int| blank_line(cols))
    }

    proof fn lemma_view_len(&self)
        ensures
            self@.len() == self.lines@.len(),
    {
    }

    /// Create a new grid with the given dimensions.
    pub fn new(rows: usize, cols: usize) -> (res: Self)
        ensures
            res.wf(),
            res.spec_rows() == rows,
            res.spec_cols() == cols,
            res@ == Self::blank_lines(rows as nat, cols as nat),
    {
        let mut lines: Vec<Line> = Vec::new();
        let mut i: usize = 0;
        while i < rows
            invariant
                i <= rows,
                views(lines@) =~= Self::blank_lines(i as nat, cols as nat),
            decreases rows - i,
        {
            lines.push(Line::new(cols));
            i = i + 1;
        }
        Grid { lines, cols, rows }
    }

    /// Get the number of rows.
    pub fn rows(&self) -> (res: usize)
        ensures
            res == self.spec_rows(),
    {
        self.rows
    }

    /// Get the number of columns.
    pub fn cols(&self) -> (res: usize)
        ensures
            res == self.spec_cols(),
    {
        self.cols
    }

    /// Get a reference to a line.
    pub fn line(&self, row: usize) -> (res: &Line)
        requires
            self.wf(),
            row < self.spec_rows(),
        ensures
            res@ == self@[row as int],
    {
        &self.lines[row]
    }

    /// Get a mutable reference to a line.
    pub fn line_mut(&mut self, row: usize) -> (res: &mut Line)
        requires
            old(self).wf(),
            row < old(self).spec_rows(),
        ensures
            (*res)@ == old(self)@[row as int],
            final(self)@ == old(self)@.update(row as int, (*final(res))@),
            final(self).spec_rows() == old(self).spec_rows(),
            final(self).spec_cols() == old(self).spec_cols(),
    {
        &mut self.lines[row]
    }

    /// Get a reference to a cell.
    pub fn cell(&self, row: usize, col: usize) -> (res: &Cell)
        requires
            self.wf(),
            row < self.spec_rows(),
            col < self.spec_cols(),
        ensures
            res@ == self@[row as int].cells[col as int],
    {
        assert(self@[row as int] == self.lines@[row as int]@);
        self.lines[row].cell(col)
    }

    /// Replace the cell at (`row`, `col`).
    pub fn set_cell(&mut self, row: usize, col: usize, cell: Cell)
        requires
            old(self).wf(),
            row < old(self).spec_rows(),
            col < old(self).spec_cols(),
        ensures
            final(self).wf(),
            final(self).spec_rows() == old(self).spec_rows(),
            final(self).spec_cols() == old(self).spec_cols(),
            final(self)@ == old(self)@.update(
                row as int,
                LineModel {
                    cells: old(self)@[row as int].cells.update(col as int, cell@),
                    ..old(self)@[row as int]
                },
            ),
    {
        let ghost before = self.lines@;
        assert(views(before)[row as int] == old(self)@[row as int]);
        let mut line = self.lines.remove(row);
        assert(line@ == old(self)@[row as int]);
        line.set(col, cell);
        self.lines.insert(row, line);
        proof {
            assert(self.lines@ =~= before.update(row as int, line));
            assert(self@ =~= old(self)@.update(row as int, line@));
            assert forall|r: int| 0 <= r < self@.len() implies #[trigger] self@[r].cells.len()
                == self.spec_cols() by {
                if r != row {
                    assert(self@[r] == old(self)@[r]);
                }
            }
        }
    }

    /// Resize the grid. New cells are blank, excess cells are dropped.
    pub fn resize(&mut self, rows: usize, cols: usize)
        requires
            old(self).wf(),
        ensures
            final(self).wf(),
            final(self).spec_rows() == rows,
            final(self).spec_cols() == cols,
            final(self)@ == resized_lines(old(self)@, rows as nat, cols as nat),
    {
        let n = self.lines.len();
        let mut i: usize = 0;
        while i < n
            invariant
                n == self.lines@.len(),
                n == old(self).lines@.len(),
                self.rows == old(self).rows,
                self.cols == old(self).cols,
                i <= n,
                forall|r: int| 0 <= r < i ==> #[trigger] views(self.lines@)[r] == resized_line(
                    views(old(self).lines@)[r],
                    cols as nat,
                ),
                forall|r: int| i <= r < n ==> #[trigger] views(self.lines@)[r] == views(
                    old(self).lines@,
                )[r],
            decreases n - i,
        {
            let ghost prev = self.lines@;
            assert(views(prev)[i as int] == views(old(self).lines@)[i as int]);
            let mut line = self.lines.remove(i);
            assert(line@ == views(prev)[i as int]);
            line.resize(cols);
            self.lines.insert(i, line);
            proof {
                assert(self.lines@ =~= prev.update(i as int, line));
            }
            i = i + 1;
        }
        assert(self.rows == n);
        if rows > self.rows {
            let mut k = self.rows;
            while k < rows
                invariant
                    self.rows <= k <= rows,
                    self.lines@.len() == k,
                    self.rows == old(self).rows,
                    self.rows == n,
                    forall|r: int| 0 <= r < n ==> #[trigger] views(self.lines@)[r] == resized_line(
                        views(old(self).lines@)[r],
                        cols as nat,
                    ),
                    forall|r: int| n <= r < k ==> #[trigger] views(self.lines@)[r] == blank_line(
                        cols as nat,
                    ),
                decreases rows - k,
            {
                self.lines.push(Line::new(cols));
                k = k + 1;
            }
        } else if rows < self.rows {
            self.lines.truncate(rows);
        }
        self.rows = rows;
        self.cols = cols;
        proof {
            assert(self@ =~= resized_lines(old(self)@, rows as nat, cols as nat));
        }
    }

    /// Clear the entire grid.
    pub fn clear(&mut self)
        requires
            old(self).wf(),
        ensures
            final(self).wf(),
            final(self).spec_rows() == old(self).spec_rows(),
            final(self).spec_cols() == old(self).spec_cols(),
            final(self)@ == Self::blank_lines(old(self).spec_rows(), old(self).spec_cols()),
    {
        let n = self.lines.len();
        let mut i: usize = 0;
        while i < n
            invariant
                n == self.lines@.len(),
                n == self.rows,
                self.rows == old(self).rows,
                self.cols == old(self).cols,
                i <= n,
                old(self).wf(),
                forall|r: int| 0 <= r < i ==> #[trigger] views(self.lines@)[r] == blank_line(
                    self.cols as nat,
                ),
                forall|r: int| i <= r < n ==> #[trigger] views(self.lines@)[r] == views(
                    old(self).lines@,
                )[r],
            decreases n - i,
        {
            let ghost prev = self.lines@;
            assert(views(prev)[i as int] == views(old(self).lines@)[i as int]);
            let mut line = self.lines.remove(i);
            proof {
                assert(line@ == views(prev)[i as int]);
                assert(line@ == views(old(self).lines@)[i as int]);
                assert(line@.cells.len() == self.cols);
            }
            line.clear();
            self.lines.insert(i, line);
            proof {
                assert(self.lines@ =~= prev.update(i as int, line));
            }
            i = i + 1;
        }
        proof {
            assert(self@ =~= Self::blank_lines(old(self).spec_rows(), old(self).spec_cols()));
        }
    }

    /// Clear from (`row`, `col`) to the end of the screen.
    pub fn clear_below(&mut self, row: usize, col: usize)
        requires
            old(self).wf(),
        ensures
            final(self).wf(),
            final(self).spec_rows() == old(self).spec_rows(),
            final(self).spec_cols() == old(self).spec_cols(),
            row >= old(self).spec_rows() ==> final(self)@ == old(self)@,
            row < old(self).spec_rows() ==> final(self)@ == Seq::new(
                old(self)@.len(),
                |r: int|
                    if r < row {
                        old(self)@[r]
                    } else if r == row {
                        LineModel {
                            cells: fill_range(
                                old(self)@[r].cells,
                                col as int,
                                old(self).spec_cols() as int,
                                blank_cell(),
                            ),
                            ..old(self)@[r]
                        }
                    } else {
                        blank_line(old(self).spec_cols())
                    },
            ),
    {
        if row >= self.rows {
            return;
        }
        assert(self@[row as int] == self.lines@[row as int]@);
        self.lines[row].clear_from(col);
        let mut r = row + 1;
        while r < self.rows
            invariant
                row < r <= self.rows,
                self.rows == old(self).rows,
                self.cols == old(self).cols,
                self.lines@.len() == self.rows,
                old(self).wf(),
                forall|k: int| 0 <= k < row ==> #[trigger] self@[k] == old(self)@[k],
                self@[row as int] == (LineModel {
                    cells: fill_range(old(self)@[row as int].cells, col as int, self.cols as int, blank_cell()),
                    ..old(self)@[row as int]
                }),
                forall|k: int| row < k < r ==> #[trigger] self@[k] == blank_line(self.cols as nat),
                forall|k: int| r <= k < self.rows ==> #[trigger] self@[k] == old(self)@[k],
            decreases self.rows - r,
        {
            assert(self@[r as int] == old(self)@[r as int]);
            self.lines[r].clear();
            r = r + 1;
        }
        proof {
            assert(self@ =~= Seq::new(
                old(self)@.len(),
                |k: int|
                    if k < row {
                        old(self)@[k]
                    } else if k == row {
                        LineModel {
                            cells: fill_range(
                                old(self)@[k].cells,
                                col as int,
                                old(self).spec_cols() as int,
                                blank_cell(),
                            ),
                            ..old(self)@[k]
                        }
                    } else {
                        blank_line(old(self).spec_cols())
                    },
            ));
        }
    }

    /// Clear from the start of the screen to (`row`, `col`), inclusive.
    pub fn clear_above(&mut self, row: usize, col: usize)
        requires
            old(self).wf(),
            row <= old(self).spec_rows(),
        ensures
            final(self).wf(),
            final(self).spec_rows() == old(self).spec_rows(),
            final(self).spec_cols() == old(self).spec_cols(),
            final(self)@ == Seq::new(
                old(self)@.len(),
                |r: int|
                    if r < row {
                        blank_line(old(self).spec_cols())
                    } else if r == row {
                        LineModel {
                            cells: fill_range(old(self)@[r].cells, 0, col + 1, blank_cell()),
                            ..old(self)@[r]
                        }
                    } else {
                        old(self)@[r]
                    },
            ),
    {
        let mut r: usize = 0;
        while r < row
            invariant
                r <= row <= self.rows,
                self.rows == old(self).rows,
                self.cols == old(self).cols,
                self.lines@.len() == self.rows,
                old(self).wf(),
                forall|k: int| 0 <= k < r ==> #[trigger] self@[k] == blank_line(self.cols as nat),
                forall|k: int| r <= k < self.rows ==> #[trigger] self@[k] == old(self)@[k],
            decreases row - r,
        {
            assert(self@[r as int] == old(self)@[r as int]);
            self.lines[r].clear();
            r = r + 1;
        }
        if row < self.rows {
            assert(self@[row as int] == old(self)@[row as int]);
            self.lines[row].clear_to(col);
        }
        proof {
            assert(self@ =~= Seq::new(
                old(self)@.len(),
                |k: int|
                    if k < row {
                        blank_line(old(self).spec_cols())
                    } else if k == row {
                        LineModel {
                            cells: fill_range(old(self)@[k].cells, 0, col + 1, blank_cell()),
                            ..old(self)@[k]
                        }
                    } else {
                        old(self)@[k]
                    },
            ));
        }
    }

    /// Scroll the region [top, bottom] up by n lines. The lines scrolled
    /// off the top are returned (for scrollback); blank lines appear at the
    /// bottom of the region.
    pub fn scroll_up(&mut self, top: usize, bottom: usize, n: usize) -> (scrolled: Vec<Line>)
        requires
            old(self).wf(),
        ensures
            final(self).wf(),
            final(self).spec_rows() == old(self).spec_rows(),
            final(self).spec_cols() == old(self).spec_cols(),
            !scroll_applies(top as int, bottom as int, n as int, old(self).spec_rows() as int) ==> {
                &&& final(self)@ == old(self)@
                &&& scrolled@.len() == 0
            },
            scroll_applies(top as int, bottom as int, n as int, old(self).spec_rows() as int) ==> {
                let b = region_bottom(bottom as int, old(self).spec_rows() as int);
                let k = region_amount(top as int, bottom as int, n as int, old(self).spec_rows() as int);
                &&& final(self)@ == scrolled_up(old(self)@, top as int, b, k, old(self).spec_cols())
                &&& views(scrolled@) == old(self)@.subrange(top as int, top + k)
            },
    {
        if top > bottom || top >= self.rows || n == 0 {
            return Vec::new();
        }
        let b = if bottom < self.rows - 1 {
            bottom
        } else {
            self.rows - 1
        };
        let k = if n < b - top + 1 {
            n
        } else {
            b - top + 1
        };
        let ghost old_lines = old(self)@;
        let cols = self.cols;
        let mut scrolled: Vec<Line> = Vec::new();
        let mut i: usize = 0;
        while i < k
            invariant
                top <= b < self.rows,
                1 <= k <= b - top + 1,
                i <= k,
                cols == self.cols,
                self.rows == old(self).rows,
                self.cols == old(self).cols,
                self.lines@.len() == self.rows,
                old_lines == old(self)@,
                old(self).wf(),
                self@ =~= scrolled_up(old_lines, top as int, b as int, i as int, cols as nat),
                views(scrolled@) =~= old_lines.subrange(top as int, top + i),
            decreases k - i,
        {
            let ghost prev = self.lines@;
            let line = self.lines.remove(top);
            assert(line@ == views(prev)[top as int]);
            scrolled.push(line);
            self.lines.insert(b, Line::new(cols));
            proof {
                assert(self@ =~= scrolled_up(old_lines, top as int, b as int, i + 1, cols as nat));
            }
            i = i + 1;
        }
        proof {
            assert forall|r: int| 0 <= r < self@.len() implies #[trigger] self@[r].cells.len()
                == self.spec_cols() by {
                let s = scrolled_up(old_lines, top as int, b as int, k as int, cols as nat);
                assert(self@[r] == s[r]);
            }
        }
        scrolled
    }

    /// Scroll the region [top, bottom] down by n lines. Lines scrolled off
    /// the bottom are lost; blank lines appear at the top of the region.
    pub fn scroll_down(&mut self, top: usize, bottom: usize, n: usize)
        requires
            old(self).wf(),
        ensures
            final(self).wf(),
            final(self).spec_rows() == old(self).spec_rows(),
            final(self).spec_cols() == old(self).spec_cols(),
            !scroll_applies(top as int, bottom as int, n as int, old(self).spec_rows() as int)
                ==> final(self)@ == old(self)@,
            scroll_applies(top as int, bottom as int, n as int, old(self).spec_rows() as int)
                ==> final(self)@ == scrolled_down(
                old(self)@,
                top as int,
                region_bottom(bottom as int, old(self).spec_rows() as int),
                region_amount(top as int, bottom as int, n as int, old(self).spec_rows() as int),
                old(self).spec_cols(),
            ),
    {
        if top > bottom || top >= self.rows || n == 0 {
            return;
        }
        let b = if bottom < self.rows - 1 {
            bottom
        } else {
            self.rows - 1
        };
        let k = if n < b - top + 1 {
            n
        } else {
            b - top + 1
        };
        let ghost old_lines = old(self)@;
        let cols = self.cols;
        let mut i: usize = 0;
        while i < k
            invariant
                top <= b < self.rows,
                1 <= k <= b - top + 1,
                i <= k,
                cols == self.cols,
                self.rows == old(self).rows,
                self.cols == old(self).cols,
                self.lines@.len() == self.rows,
                old_lines == old(self)@,
                old(self).wf(),
                self@ =~= scrolled_down(old_lines, top as int, b as int, i as int, cols as nat),
            decreases k - i,
        {
            let _lost = self.lines.remove(b);
            self.lines.insert(top, Line::new(cols));
            proof {
                assert(self@ =~= scrolled_down(old_lines, top as int, b as int, i + 1, cols as nat));
            }
            i = i + 1;
        }
        proof {
            assert forall|r: int| 0 <= r < self@.len() implies #[trigger] self@[r].cells.len()
                == self.spec_cols() by {
                let s = scrolled_down(old_lines, top as int, b as int, k as int, cols as nat);
                assert(self@[r] == s[r]);
            }
        }
    }

    /// Insert n blank lines at `row`, shifting the lines of [row, bottom]
    /// down; lines shifted past `bottom` are lost.
    pub fn insert_lines(&mut self, row: usize, bottom: usize, n: usize)
        requires
            old(self).wf(),
        ensures
            final(self).wf(),
            final(self).spec_rows() == old(self).spec_rows(),
            final(self).spec_cols() == old(self).spec_cols(),
            !scroll_applies(row as int, bottom as int, n as int, old(self).spec_rows() as int)
                ==> final(self)@ == old(self)@,
            scroll_applies(row as int, bottom as int, n as int, old(self).spec_rows() as int)
                ==> final(self)@ == scrolled_down(
                old(self)@,
                row as int,
                region_bottom(bottom as int, old(self).spec_rows() as int),
                region_amount(row as int, bottom as int, n as int, old(self).spec_rows() as int),
                old(self).spec_cols(),
            ),
    {
        if row > bottom || row >= self.rows {
            return;
        }
        self.scroll_down(row, bottom, n);
    }

    /// Delete n lines at `row`, shifting the lines of [row, bottom] up;
    /// blank lines appear at `bottom`.
    pub fn delete_lines(&mut self, row: usize, bottom: usize, n: usize)
        requires
            old(self).wf(),
        ensures
            final(self).wf(),
            final(self).spec_rows() == old(self).spec_rows(),
            final(self).spec_cols() == old(self).spec_cols(),
            !scroll_applies(row as int, bottom as int, n as int, old(self).spec_rows() as int)
                ==> final(self)@ == old(self)@,
            scroll_applies(row as int, bottom as int, n as int, old(self).spec_rows() as int)
                ==> final(self)@ == scrolled_up(
                old(self)@,
                row as int,
                region_bottom(bottom as int, old(self).spec_rows() as int),
                region_amount(row as int, bottom as int, n as int, old(self).spec_rows() as int),
                old(self).spec_cols(),
            ),
    {
        if row > bottom || row >= self.rows {
            return;
        }
        let _scrolled = self.scroll_up(row, bottom, n);
    }

    /// Get a mutable reference to a cell.
    pub fn cell_mut(&mut self, row: usize, col: usize) -> (res: &mut Cell)
        requires
            old(self).wf(),
            row < old(self).spec_rows(),
            col < old(self).spec_cols(),
        ensures
            (*res)@ == old(self)@[row as int].cells[col as int],
            final(self)@ == old(self)@.update(
                row as int,
                LineModel {
                    cells: old(self)@[row as int].cells.update(col as int, (*final(res))@),
                    ..old(self)@[row as int]
                },
            ),
            final(self).spec_rows() == old(self).spec_rows(),
            final(self).spec_cols() == old(self).spec_cols(),
    {
        assert(self@[row as int] == self.lines@[row as int]@);
        self.lines[row].cell_mut(col)
    }

    /// The lines of the grid, top to bottom.
    pub fn lines(&self) -> (res: &[Line])
        ensures
            views(res@) == self@,
    {
        self.lines.as_slice()
    }
}

} // verus!
