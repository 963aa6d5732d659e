//! Line representation for the terminal grid.
//!
//! A line is a row of cells with a flag telling whether it was wrapped.

use vstd::prelude::*;

use crate::cell::{
    blank_cell, cells_view, lemma_cells_view_drop_last, lemma_cells_view_insert, lemma_cells_view_push,
    lemma_cells_view_remove, lemma_cells_view_subrange, lemma_cells_view_update, Cell, CellFlags,
    CellModel, char_to_string,
};
use crate::color::Color;
use crate::text::{push_str_chars, string_from_chars, trim_end, trim_end_chars};

verus! {

/// The abstract value of a line.
pub struct LineModel {
    pub cells: Seq<CellModel>,
    pub wrapped: bool,
}

/// `n` blank cells.
pub open spec fn blank_cells(n: nat) -> Seq<CellModel> {
    Seq::new(n, |i: int| blank_cell())
}

/// A blank, unwrapped line of `cols` cells.
pub open spec fn blank_line(cols: nat) -> LineModel {
    LineModel { cells: blank_cells(cols), wrapped: false }
}

/// `cells` with positions `start..min(end, len)` replaced by `fill`.
pub open spec fn fill_range(cells: Seq<CellModel>, start: int, end: int, fill: CellModel) -> Seq<
    CellModel,
> {
    Seq::new(cells.len(), |i: int| if start <= i && i < end { fill } else { cells[i] })
}

/// `cells` with the text of every cell replaced by `c`.
pub open spec fn texts_replaced(cells: Seq<CellModel>, c: char) -> Seq<CellModel> {
    Seq::new(cells.len(), |k: int| CellModel { text: seq![c], ..cells[k] })
}

/// The text a sequence of cells shows: the text of each cell that is not
/// the spacer of a wide character, concatenated.
pub open spec fn cells_text(cells: Seq<CellModel>) -> Seq<char>
    decreases cells.len(),
{
    if cells.len() == 0 {
        Seq::empty()
    } else {
        let last = cells.last();
        let rest = cells_text(cells.drop_last());
        if last.flags & CellFlags::WIDE_CHAR_SPACER != 0 {
            rest
        } else {
            rest + last.text
        }
    }
}

#[derive(Debug)]
pub struct Line {
    cells: Vec<Cell>,
    pub wrapped: bool,
}

impl View for Line {
    type V = LineModel;

    closed spec fn view(&self) -> LineModel {
        LineModel { cells: cells_view(self.cells@), wrapped: self.wrapped }
    }
}

impl Line {
    pub fn new(cols: usize) -> (res: Self)
        ensures
            res@ == blank_line(cols as nat),
    {
        let mut cells: Vec<Cell> = Vec::new();
        let mut i: usize = 0;
        while i < cols
            invariant
                i <= cols,
                cells_view(cells@) =~= blank_cells(i as nat),
            decreases cols - i,
        {
            let c = Cell::blank();
            proof {
                lemma_cells_view_push(cells@, c);
            }
            cells.push(c);
            i = i + 1;
        }
        Line { cells, wrapped: false }
    }

    pub fn with_cells(cells: Vec<Cell>) -> (res: Self)
        ensures
            res@.cells == cells_view(cells@),
            !res@.wrapped,
    {
        Line { cells, wrapped: false }
    }

    pub fn len(&self) -> (res: usize)
        ensures
            res == self@.cells.len(),
    {
        self.cells.len()
    }

    pub fn is_empty(&self) -> (res: bool)
        ensures
            res == (self@.cells.len() == 0),
    {
        self.cells.len() == 0
    }

    pub fn get(&self, col: usize) -> (res: Option<&Cell>)
        ensures
            col < self@.cells.len() ==> res.is_some() && res.unwrap()@ == self@.cells[col as int],
            col >= self@.cells.len() ==> res.is_none(),
    {
        if col < self.cells.len() {
            Some(&self.cells[col])
        } else {
            None
        }
    }

    /// The cell at `col` (which must be in the line).
    pub fn cell(&self, col: usize) -> (res: &Cell)
        requires
            col < self@.cells.len(),
        ensures
            res@ == self@.cells[col as int],
    {
        &self.cells[col]
    }

    /// Mutable access to the cell at `col` (which must be in the line).
    pub fn cell_mut(&mut self, col: usize) -> (res: &mut Cell)
        requires
            col < old(self)@.cells.len(),
        ensures
            (*res)@ == old(self)@.cells[col as int],
            final(self)@ == (LineModel {
                cells: old(self)@.cells.update(col as int, (*final(res))@),
                ..old(self)@
            }),
    {
        broadcast use crate::cell::lemma_cells_view_update_auto;

        &mut self.cells[col]
    }

    /// Mutable access to the cell at `col`, when the line has one.
    pub fn get_mut(&mut self, col: usize) -> (res: Option<&mut Cell>)
        ensures
            col < old(self)@.cells.len() <==> res is Some,
            res is Some ==> (*res.unwrap())@ == old(self)@.cells[col as int] && final(self)@ == (
            LineModel { cells: old(self)@.cells.update(col as int, (*final(res.unwrap()))@), ..old(self)@ }),
            res is None ==> final(self)@ == old(self)@,
    {
        if col < self.cells.len() {
            Some(self.cell_mut(col))
        } else {
            None
        }
    }

    /// Mutable access to all cells; the number of cells cannot change.
    pub fn cells_mut(&mut self) -> (res: &mut [Cell])
        ensures
            cells_view(res@) == old(self)@.cells,
            final(self)@ == (LineModel { cells: cells_view(final(res)@), ..old(self)@ }),
    {
        self.cells.as_mut_slice()
    }

    /// A copy of this line.
    pub fn duplicate(&self) -> (res: Self)
        ensures
            res@ == self@,
    {
        let mut cells: Vec<Cell> = Vec::new();
        let mut i: usize = 0;
        while i < self.cells.len()
            invariant
                i <= self.cells@.len(),
                cells_view(cells@) == cells_view(self.cells@).subrange(0, i as int),
            decreases self.cells.len() - i,
        {
            let c = self.cells[i].duplicate();
            proof {
                lemma_cells_view_push(cells@, c);
                assert(cells_view(self.cells@).subrange(0, i + 1) =~= cells_view(self.cells@).subrange(
                    0,
                    i as int,
                ).push(c@));
            }
            cells.push(c);
            i = i + 1;
        }
        proof {
            assert(cells_view(self.cells@).subrange(0, self.cells@.len() as int) =~= cells_view(self.cells@));
        }
        Line { cells, wrapped: self.wrapped }
    }

    /// Replace the text of every cell by `c`, keeping the attributes.
    pub fn fill_text(&mut self, c: char)
        ensures
            final(self)@ == (LineModel { cells: texts_replaced(old(self)@.cells, c), ..old(self)@ }),
    {
        let n = self.cells.len();
        let mut i: usize = 0;
        while i < n
            invariant
                n == self.cells@.len(),
                n == old(self).cells@.len(),
                self.wrapped == old(self).wrapped,
                i <= n,
                forall|k: int| 0 <= k < i ==> #[trigger] self.cells@[k]@ == (CellModel { text: seq![c], ..old(self)@.cells[k] }),
                forall|k: int| i <= k < n ==> #[trigger] self.cells@[k]@ == old(self)@.cells[k],
            decreases n - i,
        {
            let mut cell = self.cells[i].duplicate();
            cell.c = char_to_string(c);
            self.cells.set(i, cell);
            i = i + 1;
        }
        proof {
            assert(self@.cells =~= texts_replaced(old(self)@.cells, c));
        }
    }

    /// Whether the line was wrapped.
    pub fn is_wrapped(&self) -> (res: bool)
        ensures
            res == self@.wrapped,
    {
        self.wrapped
    }

    /// Mark the line as wrapped (or not).
    pub fn set_wrapped(&mut self, wrapped: bool)
        ensures
            final(self)@ == (LineModel { wrapped, ..old(self)@ }),
    {
        self.wrapped = wrapped;
    }

    pub fn set(&mut self, col: usize, cell: Cell)
        ensures
            col < old(self)@.cells.len() ==> final(self)@ == (LineModel {
                cells: old(self)@.cells.update(col as int, cell@),
                ..old(self)@
            }),
            col >= old(self)@.cells.len() ==> final(self)@ == old(self)@,
    {
        if col < self.cells.len() {
            proof {
                lemma_cells_view_update(self.cells@, col as int, cell);
            }
            self.cells[col] = cell;
        }
    }

    pub fn cells(&self) -> (res: &[Cell])
        ensures
            cells_view(res@) == self@.cells,
    {
        self.cells.as_slice()
    }

    /// Replace every cell of `[start, min(end, len))` by `fill` cells.
    fn fill_cells(&mut self, start: usize, end: usize, bg: Color)
        ensures
            final(self)@ == (LineModel {
                cells: fill_range(old(self)@.cells, start as int, end as int, CellModel { bg, ..blank_cell() }),
                ..old(self)@
            }),
    {
        let ghost fill = CellModel { bg, ..blank_cell() };
        let stop = if end < self.cells.len() {
            end
        } else {
            self.cells.len()
        };
        let mut col = start;
        while col < stop
            invariant
                fill == (CellModel { bg, ..blank_cell() }),
                start <= col,
                col == start || col <= stop,
                stop <= self.cells@.len(),
                self.cells@.len() == old(self).cells@.len(),
                stop == (if end < self.cells@.len() { end as int } else { self.cells@.len() as int }),
                self.wrapped == old(self).wrapped,
                self@.cells =~= fill_range(old(self)@.cells, start as int, col as int, fill),
            decreases stop - col,
        {
            let mut cell = Cell::blank();
            cell.bg = bg;
            let ghost prev = self.cells@;
            proof {
                lemma_cells_view_update(self.cells@, col as int, cell);
            }
            self.cells[col] = cell;
            assert(self.cells@ == prev.update(col as int, cell));
            assert(self@.cells == cells_view(self.cells@));
            assert(self@.cells =~= fill_range(old(self)@.cells, start as int, col + 1, fill));
            col = col + 1;
        }
        proof {
            assert(self@.cells =~= fill_range(old(self)@.cells, start as int, end as int, fill));
        }
    }

    pub fn clear(&mut self)
        ensures
            final(self)@ == blank_line(old(self)@.cells.len()),
    {
        let n = self.cells.len();
        self.fill_cells(0, n, Color::Default);
        self.wrapped = false;
        proof {
            assert(self@.cells =~= blank_cells(n as nat));
        }
    }

    pub fn clear_with_bg(&mut self, bg: Color)
        ensures
            final(self)@ == (LineModel {
                cells: Seq::new(old(self)@.cells.len(), |i: int| CellModel { bg, ..blank_cell() }),
                wrapped: false,
            }),
    {
        let n = self.cells.len();
        self.fill_cells(0, n, bg);
        self.wrapped = false;
        proof {
            assert(self@.cells =~= Seq::new(
                old(self)@.cells.len(),
                |i: int| CellModel { bg, ..blank_cell() },
            ));
        }
    }

    pub fn clear_range(&mut self, start: usize, end: usize)
        ensures
            final(self)@ == (LineModel {
                cells: fill_range(old(self)@.cells, start as int, end as int, blank_cell()),
                ..old(self)@
            }),
    {
        self.fill_cells(start, end, Color::Default);
    }

    pub fn clear_range_with_bg(&mut self, start: usize, end: usize, bg: Color)
        ensures
            final(self)@ == (LineModel {
                cells: fill_range(old(self)@.cells, start as int, end as int, CellModel { bg, ..blank_cell() }),
                ..old(self)@
            }),
    {
        self.fill_cells(start, end, bg);
    }

    /// Clear from `col` (inclusive) to the end of the line.
    pub fn clear_from(&mut self, col: usize)
        ensures
            final(self)@ == (LineModel {
                cells: fill_range(old(self)@.cells, col as int, old(self)@.cells.len() as int, blank_cell()),
                ..old(self)@
            }),
    {
        let n = self.cells.len();
        self.fill_cells(col, n, Color::Default);
    }

    /// Clear from the start of the line to `col` (inclusive).
    pub fn clear_to(&mut self, col: usize)
        ensures
            final(self)@ == (LineModel {
                cells: fill_range(old(self)@.cells, 0, col + 1, blank_cell()),
                ..old(self)@
            }),
    {
        let end = if col < self.cells.len() {
            col + 1
        } else {
            self.cells.len()
        };
        self.fill_cells(0, end, Color::Default);
        proof {
            assert(self@.cells =~= fill_range(old(self)@.cells, 0, col + 1, blank_cell()));
        }
    }

    /// Erase `n` cells starting at `col` (ECH).
    pub fn erase_cells(&mut self, col: usize, n: usize)
        ensures
            final(self)@ == (LineModel {
                cells: fill_range(old(self)@.cells, col as int, col + n, blank_cell()),
                ..old(self)@
            }),
    {
        let end = if n <= self.cells.len() && col <= self.cells.len() - n {
            col + n
        } else {
            self.cells.len()
        };
        self.fill_cells(col, end, Color::Default);
        proof {
            assert(self@.cells =~= fill_range(old(self)@.cells, col as int, col + n, blank_cell()));
        }
    }

    pub fn resize(&mut self, new_cols: usize)
        ensures
            new_cols > old(self)@.cells.len() ==> final(self)@ == (LineModel {
                cells: old(self)@.cells + blank_cells((new_cols - old(self)@.cells.len()) as nat),
                ..old(self)@
            }),
            new_cols <= old(self)@.cells.len() ==> final(self)@ == (LineModel {
                cells: old(self)@.cells.subrange(0, new_cols as int),
                ..old(self)@
            }),
    {
        if new_cols > self.cells.len() {
            let ghost old_len = self.cells@.len();
            while self.cells.len() < new_cols
                invariant
                    old_len < new_cols,
                    old_len == old(self)@.cells.len(),
                    old_len <= self.cells@.len() <= new_cols,
                    self.wrapped == old(self).wrapped,
                    self@.cells =~= old(self)@.cells + blank_cells((self.cells@.len() - old_len) as nat),
                decreases new_cols - self.cells.len(),
            {
                let c = Cell::blank();
                proof {
                    lemma_cells_view_push(self.cells@, c);
                }
                self.cells.push(c);
            }
        } else {
            proof {
                lemma_cells_view_subrange(self.cells@, 0, new_cols as int);
            }
            self.cells.truncate(new_cols);
            proof {
                assert(self@.cells =~= old(self)@.cells.subrange(0, new_cols as int));
            }
        }
    }

    /// Insert `count` blank cells at `col`, shifting the rest right; cells
    /// pushed past the end are lost.
    pub fn insert_cells(&mut self, col: usize, count: usize)
        ensures
            col >= old(self)@.cells.len() ==> final(self)@ == old(self)@,
            col < old(self)@.cells.len() ==> {
                let len = old(self)@.cells.len() as int;
                let k = min_int(count as int, len - col);
                final(self)@ == (LineModel {
                    cells: old(self)@.cells.subrange(0, col as int) + blank_cells(k as nat)
                        + old(self)@.cells.subrange(col as int, len - k),
                    ..old(self)@
                })
            },
    {
        if col >= self.cells.len() {
            return;
        }
        let len = self.cells.len();
        let insert_count = if count < len - col {
            count
        } else {
            len - col
        };
        let mut i: usize = 0;
        while i < insert_count
            invariant
                i <= insert_count,
                insert_count <= len - col,
                len == old(self)@.cells.len(),
                col < len,
                self.wrapped == old(self).wrapped,
                self@.cells =~= old(self)@.cells.subrange(0, len - i),
            decreases insert_count - i,
        {
            proof {
                lemma_cells_view_drop_last(self.cells@);
            }
            self.cells.pop();
            i = i + 1;
        }
        let mut j: usize = 0;
        while j < insert_count
            invariant
                j <= insert_count,
                insert_count <= len - col,
                len == old(self)@.cells.len(),
                col < len,
                self.wrapped == old(self).wrapped,
                self.cells@.len() == len - insert_count + j,
                self@.cells =~= old(self)@.cells.subrange(0, col as int) + blank_cells(j as nat)
                    + old(self)@.cells.subrange(col as int, len - insert_count),
            decreases insert_count - j,
        {
            let c = Cell::blank();
            proof {
                lemma_cells_view_insert(self.cells@, col as int, c);
            }
            self.cells.insert(col, c);
            j = j + 1;
        }
    }

    /// Delete `count` cells at `col`, shifting the rest left and filling
    /// the end with blank cells.
    pub fn delete_cells(&mut self, col: usize, count: usize)
        ensures
            col >= old(self)@.cells.len() ==> final(self)@ == old(self)@,
            col < old(self)@.cells.len() ==> {
                let len = old(self)@.cells.len() as int;
                let k = min_int(count as int, len - col);
                final(self)@ == (LineModel {
                    cells: old(self)@.cells.subrange(0, col as int) + old(self)@.cells.subrange(
                        col + k,
                        len,
                    ) + blank_cells(k as nat),
                    ..old(self)@
                })
            },
    {
        if col >= self.cells.len() {
            return;
        }
        let len = self.cells.len();
        let delete_count = if count < len - col {
            count
        } else {
            len - col
        };
        let mut i: usize = 0;
        while i < delete_count
            invariant
                i <= delete_count,
                delete_count <= len - col,
                len == old(self)@.cells.len(),
                col < len,
                self.wrapped == old(self).wrapped,
                self@.cells =~= old(self)@.cells.subrange(0, col as int) + old(self)@.cells.subrange(
                    col + i,
                    len as int,
                ),
            decreases delete_count - i,
        {
            proof {
                lemma_cells_view_remove(self.cells@, col as int);
            }
            self.cells.remove(col);
            i = i + 1;
        }
        let mut j: usize = 0;
        while j < delete_count
            invariant
                j <= delete_count,
                delete_count <= len - col,
                len == old(self)@.cells.len(),
                col < len,
                self.wrapped == old(self).wrapped,
                self@.cells =~= old(self)@.cells.subrange(0, col as int) + old(self)@.cells.subrange(
                    col + delete_count,
                    len as int,
                ) + blank_cells(j as nat),
            decreases delete_count - j,
        {
            let c = Cell::blank();
            proof {
                lemma_cells_view_push(self.cells@, c);
            }
            self.cells.push(c);
            j = j + 1;
        }
    }

    /// The characters the line shows, without trailing whitespace.
    pub fn text_chars(&self) -> (res: Vec<char>)
        ensures
            res@ == trim_end(cells_text(self@.cells)),
    {
        let mut v: Vec<char> = Vec::new();
        let mut i: usize = 0;
        while i < self.cells.len()
            invariant
                i <= self.cells@.len(),
                v@ == cells_text(self@.cells.subrange(0, i as int)),
            decreases self.cells.len() - i,
        {
            let cell = &self.cells[i];
            proof {
                assert(self@.cells.subrange(0, i + 1).drop_last() =~= self@.cells.subrange(0, i as int));
            }
            if !cell.is_wide_spacer() {
                push_str_chars(&mut v, cell.c.as_str());
            }
            i = i + 1;
        }
        proof {
            assert(self@.cells.subrange(0, self.cells@.len() as int) =~= self@.cells);
        }
        trim_end_chars(&mut v);
        v
    }

    /// The text the line shows, without trailing whitespace.
    pub fn text_content(&self) -> (res: String)
        ensures
            res@ == trim_end(cells_text(self@.cells)),
    {
        let v = self.text_chars();
        string_from_chars(&v)
    }
}

impl Clone for Line {
    fn clone(&self) -> (res: Self)
        ensures
            res@ == self@,
    {
        self.duplicate()
    }
}

pub use crate::cursor::min_int;

} // verus!
