//! Snapshots of terminal state.
//!
//! A snapshot is a plain, deterministic copy of what a screen shows: its
//! size, the cursor and every line with its text and cells. It is used for
//! golden tests and debugging.

use vstd::prelude::*;
use vstd::string::*;

use crate::cell::{CellFlags, CellModel};
use crate::color::Color;
use crate::line::{cells_text, Line, LineModel};
use crate::screen::{sv_wf, Screen};
use crate::text::trim_end;

verus! {

/// One cell of a snapshot: its text, colors and attribute flags.
#[derive(Debug, Clone)]
pub struct CellSnapshot {
    pub c: String,
    pub fg: Color,
    pub bg: Color,
    pub flags: CellFlags,
}

/// One line of a snapshot: the text it shows (trailing whitespace
/// removed), its cells and whether it was wrapped.
#[derive(Debug, Clone)]
pub struct LineSnapshot {
    pub text: String,
    pub cells: Vec<CellSnapshot>,
    pub wrapped: bool,
}

#[derive(Debug, Clone)]
pub struct Snapshot {
    pub cols: usize,
    pub rows: usize,
    pub cursor_row: usize,
    pub cursor_col: usize,
    pub cursor_visible: bool,
    pub lines: Vec<LineSnapshot>,
    pub using_alternate: bool,
    pub title: String,
}

/// The snapshot cell `s` records the cell `c`.
pub open spec fn records_cell(s: CellSnapshot, c: CellModel) -> bool {
    &&& s.c@ == c.text
    &&& s.fg == c.fg
    &&& s.bg == c.bg
    &&& s.flags.bits == c.flags
}

/// The snapshot line `s` records the line `l`.
pub open spec fn records_line(s: LineSnapshot, l: LineModel) -> bool {
    &&& s.text@ == trim_end(cells_text(l.cells))
    &&& s.wrapped == l.wrapped
    &&& s.cells@.len() == l.cells.len()
    &&& forall|i: int| 0 <= i < l.cells.len() ==> records_cell(#[trigger] s.cells@[i], l.cells[i])
}

/// The texts of `lines` joined with newlines.
pub open spec fn joined(texts: Seq<Seq<char>>) -> Seq<char>
    decreases texts.len(),
{
    if texts.len() == 0 {
        Seq::empty()
    } else if texts.len() == 1 {
        texts[0]
    } else {
        joined(texts.drop_last()) + seq!['\n'] + texts.last()
    }
}

/// The text of each line of a snapshot.
pub open spec fn line_texts(lines: Seq<LineSnapshot>) -> Seq<Seq<char>> {
    Seq::new(lines.len(), |i: int| lines[i].text@)
}

/// Two snapshots show the same screen: the same size and cursor position,
/// and lines with the same text and wrapping.
pub open spec fn same_screen_spec(a: Snapshot, b: Snapshot) -> bool {
    &&& a.cols == b.cols
    &&& a.rows == b.rows
    &&& a.cursor_row == b.cursor_row
    &&& a.cursor_col == b.cursor_col
    &&& a.lines@.len() == b.lines@.len()
    &&& forall|i: int|
        0 <= i < a.lines@.len() ==> #[trigger] a.lines@[i].text@ == b.lines@[i].text@ && a.lines@[i].wrapped
            == b.lines@[i].wrapped
}

impl LineSnapshot {
    /// Record a line.
    pub fn from_line(line: &Line) -> (res: Self)
        ensures
            records_line(res, line@),
    {
        let cells = line.cells();
        let mut out: Vec<CellSnapshot> = Vec::new();
        let mut i: usize = 0;
        while i < cells.len()
            invariant
                i <= cells@.len(),
                crate::cell::cells_view(cells@) == line@.cells,
                out@.len() == i,
                forall|k: int| 0 <= k < i ==> records_cell(#[trigger] out@[k], line@.cells[k]),
            decreases cells.len() - i,
        {
            let cell = &cells[i];
            assert(cell@ == line@.cells[i as int]);
            out.push(CellSnapshot { c: cell.c.clone(), fg: cell.fg, bg: cell.bg, flags: cell.flags });
            i = i + 1;
        }
        LineSnapshot { text: line.text_content(), cells: out, wrapped: line.is_wrapped() }
    }
}

impl Snapshot {
    /// Record the visible state of `screen`.
    pub fn from_screen(screen: &Screen, using_alternate: bool, title: String) -> (res: Self)
        requires
            screen.wf(),
        ensures
            res.rows == screen@.rows,
            res.cols == screen@.cols,
            res.cursor_row == screen@.cursor.row,
            res.cursor_col == screen@.cursor.col,
            res.cursor_visible == screen@.mode.cursor_visible,
            res.using_alternate == using_alternate,
            res.title@ == title@,
            res.lines@.len() == screen@.rows,
            forall|r: int| 0 <= r < screen@.rows ==> records_line(#[trigger] res.lines@[r], screen@.lines[r]),
    {
        let rows = screen.rows();
        let mut lines: Vec<LineSnapshot> = Vec::new();
        let mut row: usize = 0;
        while row < rows
            invariant
                screen.wf(),
                rows == screen@.rows,
                row <= rows,
                lines@.len() == row,
                forall|r: int| 0 <= r < row ==> records_line(#[trigger] lines@[r], screen@.lines[r]),
            decreases rows - row,
        {
            lines.push(LineSnapshot::from_line(screen.grid.line(row)));
            row = row + 1;
        }
        Snapshot {
            cols: screen.cols(),
            rows,
            cursor_row: screen.cursor.row,
            cursor_col: screen.cursor.col,
            cursor_visible: screen.mode.cursor_visible,
            lines,
            using_alternate,
            title,
        }
    }

    /// The text of every line, joined with newlines.
    pub fn text_content(&self) -> (res: String)
        ensures
            res@ == joined(line_texts(self.lines@)),
    {
        let mut s = String::new();
        let mut i: usize = 0;
        while i < self.lines.len()
            invariant
                i <= self.lines@.len(),
                s@ == joined(line_texts(self.lines@.subrange(0, i as int))),
            decreases self.lines.len() - i,
        {
            let ghost prev = line_texts(self.lines@.subrange(0, i as int));
            let ghost next = line_texts(self.lines@.subrange(0, i + 1));
            if i > 0 {
                s.append("\n");
                proof {
                    reveal_strlit("\n");
                }
            }
            s.append(self.lines[i].text.as_str());
            proof {
                assert(next.drop_last() =~= prev);
                assert(next.last() == self.lines@[i as int].text@);
                if i == 0 {
                    assert(s@ =~= joined(next));
                } else {
                    assert(s@ =~= joined(next));
                }
            }
            i = i + 1;
        }
        proof {
            assert(self.lines@.subrange(0, self.lines@.len() as int) =~= self.lines@);
        }
        s
    }

    /// The text of every line.
    pub fn visible_text(&self) -> (res: Vec<String>)
        ensures
            res@.len() == self.lines@.len(),
            forall|i: int| 0 <= i < res@.len() ==> #[trigger] res@[i]@ == self.lines@[i].text@,
    {
        let mut out: Vec<String> = Vec::new();
        let mut i: usize = 0;
        while i < self.lines.len()
            invariant
                i <= self.lines@.len(),
                out@.len() == i,
                forall|k: int| 0 <= k < i ==> #[trigger] out@[k]@ == self.lines@[k].text@,
            decreases self.lines.len() - i,
        {
            out.push(self.lines[i].text.clone());
            i = i + 1;
        }
        out
    }

    /// The text of line `row` (empty when there is no such line).
    pub fn row_text(&self, row: usize) -> (res: String)
        ensures
            row < self.lines@.len() ==> res@ == self.lines@[row as int].text@,
            row >= self.lines@.len() ==> res@ == Seq::<char>::empty(),
    {
        if row < self.lines.len() {
            self.lines[row].text.clone()
        } else {
            String::new()
        }
    }

    /// Whether two snapshots show the same screen: the same size and
    /// cursor position, and lines with the same text and wrapping.
    pub fn same_screen(&self, other: &Self) -> (res: bool)
        ensures
            res == same_screen_spec(*self, *other),
    {
        if !(self.cols == other.cols && self.rows == other.rows && self.cursor_row == other.cursor_row
            && self.cursor_col == other.cursor_col && self.lines.len() == other.lines.len()) {
            return false;
        }
        let mut i: usize = 0;
        while i < self.lines.len()
            invariant
                i <= self.lines@.len(),
                self.lines@.len() == other.lines@.len(),
                self.cols == other.cols && self.rows == other.rows && self.cursor_row == other.cursor_row
                    && self.cursor_col == other.cursor_col,
                forall|k: int|
                    0 <= k < i ==> #[trigger] self.lines@[k].text@ == other.lines@[k].text@
                        && self.lines@[k].wrapped == other.lines@[k].wrapped,
            decreases self.lines.len() - i,
        {
            let a = &self.lines[i];
            let b = &other.lines[i];
            let same_text = a.text.eq(&b.text);
            if !same_text || a.wrapped != b.wrapped {
                return false;
            }
            assert(self.lines@[i as int].text@ == other.lines@[i as int].text@);
            assert(self.lines@[i as int].wrapped == other.lines@[i as int].wrapped);
            assert forall|k: int| 0 <= k < i + 1 implies #[trigger] self.lines@[k].text@ == other.lines@[k].text@
                && self.lines@[k].wrapped == other.lines@[k].wrapped by {
                if k < i {
                }
            }
            i = i + 1;
        }
        assert(self.cols == other.cols);
        assert(self.lines@.len() == other.lines@.len());
        assert(forall|k: int| 0 <= k < self.lines@.len() ==> #[trigger] self.lines@[k].text@ == other.lines@[k].text@
                        && self.lines@[k].wrapped == other.lines@[k].wrapped);
        assert(same_screen_spec(*self, *other));
        true
    }
}

} // verus!
