//! The text a copy puts on the clipboard: the selected part of the visible
//! lines and of the scrollback.
//!
//! Selection rows count from the top of the visible screen; row -1 is the
//! newest scrollback line, -2 the one before it, and so on.

use vstd::prelude::*;

use crate::grid::Grid;
use crate::line::{cells_text, LineModel};
use crate::scrollback::Scrollback;
use crate::selection::{point_le, spec_normalized, Selection, SelectionPoint};
use crate::text::{string_from_chars, trim_end, trim_end_chars};

verus! {

/// The text a line shows, without trailing whitespace.
pub open spec fn shown_text(l: LineModel) -> Seq<char> {
    trim_end(cells_text(l.cells))
}

/// The text of selection row `row`: a visible line, a scrollback line, or
/// nothing for a row that is neither.
pub open spec fn row_chars(row: int, lines: Seq<LineModel>, history: Seq<LineModel>) -> Option<
    Seq<char>,
> {
    if row < 0 {
        let back = -row - 1;
        if back < history.len() {
            Some(shown_text(history[history.len() - 1 - back]))
        } else {
            None
        }
    } else if row < lines.len() {
        Some(shown_text(lines[row]))
    } else {
        None
    }
}

/// The characters of `chars` from `from` up to `to` (excluded), as far as
/// there are any.
pub open spec fn columns(chars: Seq<char>, from: int, to: int) -> Seq<char> {
    let stop = if to < chars.len() { to } else { chars.len() as int };
    if from < stop {
        chars.subrange(from, stop)
    } else {
        Seq::empty()
    }
}

/// The selected part of row `row`: from the start column on the first row,
/// up to the end column (excluded) on the last, the whole width between.
pub open spec fn row_piece(
    row: int,
    start: SelectionPoint,
    end: SelectionPoint,
    cols: nat,
    lines: Seq<LineModel>,
    history: Seq<LineModel>,
) -> Seq<char> {
    let from = if row == start.row { start.col as int } else { 0 };
    let to = if row == end.row { end.col as int } else { cols as int };
    match row_chars(row, lines, history) {
        Some(t) => columns(t, from, to),
        None => Seq::empty(),
    }
}

/// `s` without its trailing spaces.
pub open spec fn trim_spaces(s: Seq<char>) -> Seq<char>
    decreases s.len(),
{
    if s.len() > 0 && s.last() == ' ' {
        trim_spaces(s.drop_last())
    } else {
        s
    }
}

/// The text of the selected rows before `upto`: each row's piece, and after
/// every row but the last one its trailing spaces dropped and a newline.
pub open spec fn copied_rows(
    start: SelectionPoint,
    end: SelectionPoint,
    upto: int,
    cols: nat,
    lines: Seq<LineModel>,
    history: Seq<LineModel>,
) -> Seq<char>
    decreases upto - start.row,
{
    if upto <= start.row {
        Seq::empty()
    } else {
        let row = upto - 1;
        let t = copied_rows(start, end, row, cols, lines, history) + row_piece(
            row,
            start,
            end,
            cols,
            lines,
            history,
        );
        if row < end.row {
            trim_spaces(t).push('\n')
        } else {
            t
        }
    }
}

/// The text a copy of `sel` gives: nothing for an empty selection, else the
/// selected rows without trailing whitespace.
pub open spec fn selection_text(
    sel: Selection,
    cols: nat,
    lines: Seq<LineModel>,
    history: Seq<LineModel>,
) -> Seq<char> {
    if !sel.active && sel.start == sel.end {
        Seq::empty()
    } else {
        let (start, end) = spec_normalized(sel);
        trim_end(copied_rows(start, end, end.row + 1, cols, lines, history))
    }
}

fn drop_trailing_spaces(v: &mut Vec<char>)
    ensures
        final(v)@ == trim_spaces(old(v)@),
{
    while v.len() > 0 && v[v.len() - 1] == ' '
        invariant
            trim_spaces(v@) == trim_spaces(old(v)@),
        decreases v.len(),
    {
        proof {
            assert(v@.drop_last() =~= v@.subrange(0, v@.len() - 1));
        }
        v.pop();
    }
}

fn push_columns(out: &mut Vec<char>, chars: &Vec<char>, from: usize, to: usize)
    ensures
        final(out)@ == old(out)@ + columns(chars@, from as int, to as int),
{
    let stop = if to < chars.len() {
        to
    } else {
        chars.len()
    };
    if from >= stop {
        proof {
            assert(old(out)@ + columns(chars@, from as int, to as int) =~= old(out)@);
        }
        return;
    }
    let mut i = from;
    while i < stop
        invariant
            from <= i <= stop,
            stop <= chars@.len(),
            out@ == old(out)@ + chars@.subrange(from as int, i as int),
        decreases stop - i,
    {
        out.push(chars[i]);
        proof {
            assert(out@ =~= old(out)@ + chars@.subrange(from as int, i + 1));
        }
        i = i + 1;
    }
}

/// The text a copy of `selection` gives, from the visible lines of `grid`
/// and the lines of `scrollback`.
pub fn selected_text(selection: &Selection, grid: &Grid, scrollback: &Scrollback) -> (res: String)
    requires
        grid.wf(),
        selection.active || selection.start != selection.end ==> selection.start.row > i64::MIN
            && selection.end.row > i64::MIN,
    ensures
        res@ == selection_text(*selection, grid.spec_cols(), grid@, scrollback@),
{
    if selection.is_empty() {
        let empty: Vec<char> = Vec::new();
        return string_from_chars(&empty);
    }
    let (start, end) = selection.normalized();
    let cols = grid.cols();
    let mut text: Vec<char> = Vec::new();
    let mut r: i128 = start.row as i128;
    let last: i128 = end.row as i128;
    while r <= last
        invariant
            grid.wf(),
            start.row <= r <= last + 1,
            last == end.row,
            point_le(start, end),
            start.row > i64::MIN,
            cols == grid.spec_cols(),
            text@ == copied_rows(start, end, r as int, cols as nat, grid@, scrollback@),
        decreases last + 1 - r,
    {
        let row: i64 = r as i64;
        let from: usize = if row == start.row {
            start.col
        } else {
            0
        };
        let to: usize = if row == end.row {
            end.col
        } else {
            cols
        };
        let ghost before = text@;
        if row < 0 {
            let back: i64 = -row - 1;
            if (back as u64) < (scrollback.len() as u64) {
                let line = scrollback.get_from_end(back as usize);
                match line {
                    Some(l) => {
                        let chars = l.text_chars();
                        push_columns(&mut text, &chars, from, to);
                    },
                    None => {},
                }
            }
        } else if (row as u64) < (grid.rows() as u64) {
            let l = grid.line(row as usize);
            let chars = l.text_chars();
            push_columns(&mut text, &chars, from, to);
        }
        proof {
            assert(text@ == before + row_piece(row as int, start, end, cols as nat, grid@, scrollback@));
        }
        if row < end.row {
            drop_trailing_spaces(&mut text);
            text.push('\n');
        }
        r = r + 1;
    }
    trim_end_chars(&mut text);
    string_from_chars(&text)
}

} // verus!
