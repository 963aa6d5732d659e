//! Screen state management.
//!
//! A screen is the visible terminal area plus its state: the grid, the
//! cursor, the scroll region, the mode flags and the tab stops.

use vstd::prelude::*;
use vstd::string::*;

use crate::cell::{
    blank_cell, char_to_string, display_width, str_display_width, CellAttributes, CellFlags, CellModel,
};
use crate::cursor::{last_index, min_int, Cursor, SavedCursor};
use crate::grid::{
    region_amount, region_bottom, resized_lines, scroll_applies, scrolled_down, scrolled_up, Grid,
};
use crate::line::{blank_cells, blank_line, fill_range, texts_replaced, Line, LineModel};
use crate::views::{group_views, views};

verus! {

/// Mouse tracking mode.
#[derive(Debug, Clone, Copy, PartialEq, Eq, Structural)]
pub enum MouseMode {
    /// No mouse tracking
    Off,
    /// X10 compatibility mode (button press only)
    X10,
    /// VT200 mode (button press and release)
    VT200,
    /// VT200 highlight mode
    VT200Highlight,
    /// Button event tracking
    ButtonEvent,
    /// Any event tracking (motion while button pressed)
    AnyEvent,
}

impl Default for MouseMode {
    fn default() -> (res: Self)
        ensures
            res == MouseMode::Off,
    {
        MouseMode::Off
    }
}

/// Mouse encoding format.
#[derive(Debug, Clone, Copy, PartialEq, Eq, Structural)]
pub enum MouseEncoding {
    X10,
    /// UTF-8 encoding
    Utf8,
    /// SGR encoding (CSI < ...)
    Sgr,
    /// URXVT encoding
    Urxvt,
}

impl Default for MouseEncoding {
    fn default() -> (res: Self)
        ensures
            res == MouseEncoding::X10,
    {
        MouseEncoding::X10
    }
}

/// Screen mode flags.
#[derive(Debug, Clone, Copy, PartialEq, Eq, Structural)]
pub struct ScreenMode {
    /// Origin mode (DECOM): cursor positioning relative to scroll region
    pub origin_mode: bool,
    /// Auto-wrap mode (DECAWM): wrap at end of line
    pub auto_wrap: bool,
    /// Insert mode (IRM): insert characters instead of overwriting
    pub insert_mode: bool,
    /// Line feed/new line mode (LNM): LF also does CR
    pub linefeed_mode: bool,
    /// Cursor visible (DECTCEM)
    pub cursor_visible: bool,
    /// Reverse video mode (DECSCNM)
    pub reverse_video: bool,
    /// Bracketed paste mode
    pub bracketed_paste: bool,
    /// Focus reporting mode
    pub focus_reporting: bool,
    /// Mouse tracking mode
    pub mouse_mode: MouseMode,
    /// Mouse encoding format
    pub mouse_encoding: MouseEncoding,
}

impl ScreenMode {
    /// The initial modes: auto-wrap on, cursor visible, everything else off.
    pub open spec fn spec_new() -> Self {
        ScreenMode {
            origin_mode: false,
            auto_wrap: true,
            insert_mode: false,
            linefeed_mode: false,
            cursor_visible: true,
            reverse_video: false,
            bracketed_paste: false,
            focus_reporting: false,
            mouse_mode: MouseMode::Off,
            mouse_encoding: MouseEncoding::X10,
        }
    }

    pub fn new() -> (res: Self)
        ensures
            res == Self::spec_new(),
    {
        ScreenMode {
            origin_mode: false,
            auto_wrap: true,
            insert_mode: false,
            linefeed_mode: false,
            cursor_visible: true,
            reverse_video: false,
            bracketed_paste: false,
            focus_reporting: false,
            mouse_mode: MouseMode::Off,
            mouse_encoding: MouseEncoding::X10,
        }
    }
}

/// Whether column `i` holds a tab stop by default (every 8 columns).
pub open spec fn default_stop(i: int) -> bool {
    i >= 8 && i % 8 == 0
}

/// The default tab stops of a line of `cols` columns.
pub open spec fn default_stops(cols: nat) -> Seq<bool> {
    Seq::new(cols, |i: int| default_stop(i))
}

/// The first tab stop after `col`, or the last column when there is none.
pub open spec fn next_stop(stops: Seq<bool>, col: int) -> int
    decreases stops.len() - col,
{
    if col + 1 >= stops.len() {
        last_index(stops.len() as int)
    } else if stops[col + 1] {
        col + 1
    } else {
        next_stop(stops, col + 1)
    }
}

/// The last tab stop before `col`, or 0 when there is none.
pub open spec fn prev_stop(stops: Seq<bool>, col: int) -> int
    decreases col,
{
    if col <= 0 {
        0
    } else if stops[col - 1] {
        col - 1
    } else {
        prev_stop(stops, col - 1)
    }
}

/// The tab stops after `TabStops::resize(cols)`: existing columns keep
/// their stops; new columns get the default stops (every 8 columns).
pub open spec fn resized_stops(stops: Seq<bool>, cols: nat) -> Seq<bool> {
    Seq::new(cols, |i: int| if i < stops.len() { stops[i] } else { default_stops(cols)[i] })
}

/// Tab stops.
#[derive(Debug)]
pub struct TabStops {
    /// Tab stop flag of each column
    stops: Vec<bool>,
}

impl View for TabStops {
    type V = Seq<bool>;

    closed spec fn view(&self) -> Seq<bool> {
        self.stops@
    }
}

impl TabStops {
    fn default_vec(cols: usize) -> (res: Vec<bool>)
        ensures
            res@ == default_stops(cols as nat),
    {
        let mut stops: Vec<bool> = Vec::new();
        let mut i: usize = 0;
        while i < cols
            invariant
                i <= cols,
                stops@ =~= default_stops(i as nat),
            decreases cols - i,
        {
            stops.push(i >= 8 && i % 8 == 0);
            i = i + 1;
        }
        stops
    }

    /// Create default tab stops (every 8 columns).
    pub fn new(cols: usize) -> (res: Self)
        ensures
            res@ == default_stops(cols as nat),
    {
        TabStops { stops: Self::default_vec(cols) }
    }

    /// Set a tab stop at the given column.
    pub fn set(&mut self, col: usize)
        ensures
            col < old(self)@.len() ==> final(self)@ == old(self)@.update(col as int, true),
            col >= old(self)@.len() ==> final(self)@ == old(self)@,
    {
        if col < self.stops.len() {
            self.stops[col] = true;
        }
    }

    /// Clear the tab stop at the given column.
    pub fn clear(&mut self, col: usize)
        ensures
            col < old(self)@.len() ==> final(self)@ == old(self)@.update(col as int, false),
            col >= old(self)@.len() ==> final(self)@ == old(self)@,
    {
        if col < self.stops.len() {
            self.stops[col] = false;
        }
    }

    /// Clear all tab stops.
    pub fn clear_all(&mut self)
        ensures
            final(self)@ == Seq::new(old(self)@.len(), |i: int| false),
    {
        let mut i: usize = 0;
        while i < self.stops.len()
            invariant
                i <= self.stops@.len(),
                self.stops@.len() == old(self)@.len(),
                forall|k: int| 0 <= k < i ==> !#[trigger] self.stops@[k],
            decreases self.stops@.len() - i,
        {
            self.stops[i] = false;
            i = i + 1;
        }
        assert(self@ =~= Seq::new(old(self)@.len(), |i: int| false));
    }

    /// Reset to the default tab stops for `cols` columns.
    pub fn reset(&mut self, cols: usize)
        ensures
            final(self)@ == default_stops(cols as nat),
    {
        self.stops = Self::default_vec(cols);
    }

    /// The next tab stop after `col`, or the last column when there is none.
    pub fn next(&self, col: usize) -> (res: usize)
        requires
            col < usize::MAX,
        ensures
            res == next_stop(self@, col as int),
    {
        let mut i = col + 1;
        while i < self.stops.len()
            invariant
                col < i,
                forall|k: int| col < k < i ==> !#[trigger] self@[k],
                next_stop(self@, col as int) == next_stop(self@, i - 1),
            decreases self.stops@.len() - i,
        {
            if self.stops[i] {
                return i;
            }
            i = i + 1;
        }
        self.stops.len().saturating_sub(1)
    }

    /// The previous tab stop before `col`, or 0 when there is none.
    pub fn prev(&self, col: usize) -> (res: usize)
        requires
            col <= self@.len(),
        ensures
            res == prev_stop(self@, col as int),
    {
        let mut i = col;
        while i > 0
            invariant
                i <= col <= self@.len(),
                prev_stop(self@, col as int) == prev_stop(self@, i as int),
            decreases i,
        {
            if self.stops[i - 1] {
                return i - 1;
            }
            i = i - 1;
        }
        0
    }

    /// Resize to `cols` columns; new columns get the default stops.
    pub fn resize(&mut self, cols: usize)
        ensures
            final(self)@ == resized_stops(old(self)@, cols as nat),
    {
        let old_len = self.stops.len();
        if cols > old_len {
            while self.stops.len() < cols
                invariant
                    old_len == old(self)@.len(),
                    old_len <= self.stops@.len() <= cols,
                    self.stops@.subrange(0, old_len as int) =~= old(self)@,
                    forall|k: int|
                        old_len <= k < self.stops@.len() ==> #[trigger] self.stops@[k] == (k >= 8 && k % 8
                            == 0),
                decreases cols - self.stops.len(),
            {
                let i = self.stops.len();
                self.stops.push(i >= 8 && i % 8 == 0);
            }
        } else {
            self.stops.truncate(cols);
        }
        proof {
            assert forall|k: int| 0 <= k < cols implies #[trigger] self.stops@[k] == (if k < old_len {
                old(self)@[k]
            } else {
                default_stops(cols as nat)[k]
            }) by {
                if k < old_len && cols > old_len {
                    assert(self.stops@.subrange(0, old_len as int)[k] == self.stops@[k]);
                }
            }
            assert(self@ =~= resized_stops(old(self)@, cols as nat));
        }
    }
}

/// The abstract state of a screen.
#[verifier::ext_equal]
pub struct ScreenView {
    pub lines: Seq<LineModel>,
    pub rows: nat,
    pub cols: nat,
    pub cursor: Cursor,
    pub saved_cursor: SavedCursor,
    pub scroll_top: int,
    pub scroll_bottom: int,
    pub mode: ScreenMode,
    pub tabs: Seq<bool>,
}

/// Well-formed screen state: `rows` lines of `cols` cells, the cursor and
/// the scroll region inside the screen, one tab stop flag per column.
pub open spec fn sv_wf(v: ScreenView) -> bool {
    &&& v.lines.len() == v.rows
    &&& forall|r: int| 0 <= r < v.lines.len() ==> #[trigger] v.lines[r].cells.len() == v.cols
    &&& v.cursor.row <= last_index(v.rows as int)
    &&& v.cursor.col <= last_index(v.cols as int)
    &&& 0 <= v.scroll_top <= v.scroll_bottom <= last_index(v.rows as int)
    &&& v.tabs.len() == v.cols
}

/// Whether the screen has at least one row and one column.
pub open spec fn sv_nonempty(v: ScreenView) -> bool {
    v.rows > 0 && v.cols > 0
}

/// The state of a new screen.
pub open spec fn sv_new(rows: nat, cols: nat) -> ScreenView {
    ScreenView {
        lines: Seq::new(rows, |i: int| blank_line(cols)),
        rows,
        cols,
        cursor: Cursor::spec_default(),
        saved_cursor: SavedCursor::spec_default(),
        scroll_top: 0,
        scroll_bottom: last_index(rows as int),
        mode: ScreenMode::spec_new(),
        tabs: default_stops(cols),
    }
}

/// `v` with line `row` replaced by `l`.
pub open spec fn with_line(v: ScreenView, row: int, l: LineModel) -> ScreenView {
    ScreenView { lines: v.lines.update(row, l), ..v }
}

/// `v` with the cursor replaced by `c`.
pub open spec fn with_cursor(v: ScreenView, c: Cursor) -> ScreenView {
    ScreenView { cursor: c, ..v }
}

/// `v` with the cell at (`row`, `col`) replaced by `cell`.
pub open spec fn with_cell(v: ScreenView, row: int, col: int, cell: CellModel) -> ScreenView {
    with_line(v, row, LineModel { cells: v.lines[row].cells.update(col, cell), ..v.lines[row] })
}

/// The line under the cursor.
pub open spec fn cursor_line(v: ScreenView) -> LineModel {
    v.lines[v.cursor.row as int]
}

/// Scroll the scroll region up by `n`: the new state and the lines that
/// left the top of the region.
pub open spec fn sv_scroll_up(v: ScreenView, n: int) -> (ScreenView, Seq<LineModel>) {
    if scroll_applies(v.scroll_top, v.scroll_bottom, n, v.rows as int) {
        let b = region_bottom(v.scroll_bottom, v.rows as int);
        let k = region_amount(v.scroll_top, v.scroll_bottom, n, v.rows as int);
        (
            ScreenView { lines: scrolled_up(v.lines, v.scroll_top, b, k, v.cols), ..v },
            v.lines.subrange(v.scroll_top, v.scroll_top + k),
        )
    } else {
        (v, Seq::empty())
    }
}

/// Scroll the scroll region down by `n`.
pub open spec fn sv_scroll_down(v: ScreenView, n: int) -> ScreenView {
    if scroll_applies(v.scroll_top, v.scroll_bottom, n, v.rows as int) {
        let b = region_bottom(v.scroll_bottom, v.rows as int);
        let k = region_amount(v.scroll_top, v.scroll_bottom, n, v.rows as int);
        ScreenView { lines: scrolled_down(v.lines, v.scroll_top, b, k, v.cols), ..v }
    } else {
        v
    }
}

/// Line feed: at the bottom of the scroll region the region scrolls up by
/// one (the line that leaves it is returned); otherwise the cursor moves
/// down unless it is on the last row. The pending wrap is cancelled.
pub open spec fn sv_linefeed(v: ScreenView) -> (ScreenView, Option<LineModel>) {
    if v.cursor.row == v.scroll_bottom {
        let (w, out) = sv_scroll_up(v, 1);
        (
            with_cursor(w, Cursor { pending_wrap: false, ..w.cursor }),
            if out.len() > 0 { Some(out[0]) } else { None },
        )
    } else if v.cursor.row < v.rows - 1 {
        (with_cursor(v, Cursor { row: (v.cursor.row + 1) as usize, pending_wrap: false, ..v.cursor }), None)
    } else {
        (with_cursor(v, Cursor { pending_wrap: false, ..v.cursor }), None)
    }
}

/// Reverse index: at the top of the scroll region the region scrolls down
/// by one; otherwise the cursor moves up unless it is on the first row.
pub open spec fn sv_reverse_index(v: ScreenView) -> ScreenView {
    if v.cursor.row == v.scroll_top {
        let w = sv_scroll_down(v, 1);
        with_cursor(w, Cursor { pending_wrap: false, ..w.cursor })
    } else if v.cursor.row > 0 {
        with_cursor(v, Cursor { row: (v.cursor.row - 1) as usize, pending_wrap: false, ..v.cursor })
    } else {
        with_cursor(v, Cursor { pending_wrap: false, ..v.cursor })
    }
}

pub open spec fn sv_carriage_return(v: ScreenView) -> ScreenView {
    with_cursor(v, Cursor { col: 0, pending_wrap: false, ..v.cursor })
}

pub open spec fn sv_backspace(v: ScreenView) -> ScreenView {
    with_cursor(
        v,
        Cursor {
            col: if v.cursor.col > 0 { (v.cursor.col - 1) as usize } else { 0 },
            pending_wrap: false,
            ..v.cursor
        },
    )
}

/// Tab: move to the next tab stop, at most to the last column.
pub open spec fn sv_tab(v: ScreenView) -> ScreenView {
    with_cursor(
        v,
        Cursor {
            col: min_int(next_stop(v.tabs, v.cursor.col as int), last_index(v.cols as int)) as usize,
            pending_wrap: false,
            ..v.cursor
        },
    )
}

/// Back tab: move to the previous tab stop, or to the first column when
/// there is none.
pub open spec fn sv_backtab(v: ScreenView) -> ScreenView {
    with_cursor(v, Cursor { col: prev_stop(v.tabs, v.cursor.col as int) as usize, pending_wrap: false, ..v.cursor })
}

/// The previous tab stop is a column at or before `col`.
pub proof fn lemma_prev_stop_before(stops: Seq<bool>, col: int)
    requires
        col >= 0,
    ensures
        0 <= prev_stop(stops, col) <= col,
    decreases col,
{
    if col > 0 && !stops[col - 1] {
        lemma_prev_stop_before(stops, col - 1);
    }
}

/// Move the cursor to (`row`, `col`); in origin mode `row` counts from the
/// top of the scroll region and stays inside it.
pub open spec fn sv_goto(v: ScreenView, row: int, col: int) -> ScreenView {
    let r = if v.mode.origin_mode {
        let a = min_int(v.scroll_top + row, v.scroll_bottom);
        if a >= v.scroll_top { a } else { v.scroll_top }
    } else {
        min_int(row, last_index(v.rows as int))
    };
    with_cursor(
        v,
        Cursor {
            row: r as usize,
            col: min_int(col, last_index(v.cols as int)) as usize,
            pending_wrap: false,
            ..v.cursor
        },
    )
}

/// Set the scroll region (when `top < bottom` after clamping both to the
/// last row) and move the cursor home.
pub open spec fn sv_set_scroll_region(v: ScreenView, top: int, bottom: int) -> ScreenView {
    let t = min_int(top, last_index(v.rows as int));
    let b = min_int(bottom, last_index(v.rows as int));
    let w = if t < b { ScreenView { scroll_top: t, scroll_bottom: b, ..v } } else { v };
    with_cursor(
        w,
        Cursor {
            row: if v.mode.origin_mode { w.scroll_top as usize } else { 0 },
            col: 0,
            pending_wrap: false,
            ..v.cursor
        },
    )
}

/// Save the cursor (DECSC).
pub open spec fn sv_save_cursor(v: ScreenView) -> ScreenView {
    ScreenView {
        saved_cursor: SavedCursor {
            row: v.cursor.row,
            col: v.cursor.col,
            attrs: v.cursor.attrs,
            fg: v.cursor.attrs.fg,
            bg: v.cursor.attrs.bg,
            origin_mode: v.cursor.origin_mode,
            autowrap: v.mode.auto_wrap,
        },
        ..v
    }
}

/// Restore the saved cursor (DECRC), clamped to the screen.
pub open spec fn sv_restore_cursor(v: ScreenView) -> ScreenView {
    sv_restore_from(v, v.saved_cursor)
}

/// Put the saved state `s` back into the cursor, clamped to the screen.
pub open spec fn sv_restore_from(v: ScreenView, s: SavedCursor) -> ScreenView {
    with_cursor(
        v,
        Cursor {
            row: min_int(s.row as int, last_index(v.rows as int)) as usize,
            col: min_int(s.col as int, last_index(v.cols as int)) as usize,
            attrs: CellAttributes { fg: s.fg, bg: s.bg, ..s.attrs },
            origin_mode: s.origin_mode,
            pending_wrap: false,
            ..v.cursor
        },
    )
}

/// Erase from the cursor to the end of its line.
pub open spec fn sv_erase_to_eol(v: ScreenView) -> ScreenView {
    let l = cursor_line(v);
    with_line(
        v,
        v.cursor.row as int,
        LineModel { cells: fill_range(l.cells, v.cursor.col as int, l.cells.len() as int, blank_cell()), ..l },
    )
}

/// Erase from the start of the cursor's line to the cursor, inclusive.
pub open spec fn sv_erase_to_bol(v: ScreenView) -> ScreenView {
    let l = cursor_line(v);
    with_line(
        v,
        v.cursor.row as int,
        LineModel { cells: fill_range(l.cells, 0, v.cursor.col + 1, blank_cell()), ..l },
    )
}

pub open spec fn sv_erase_line(v: ScreenView) -> ScreenView {
    with_line(v, v.cursor.row as int, blank_line(cursor_line(v).cells.len()))
}

/// Erase `n` cells from the cursor (ECH).
pub open spec fn sv_erase_chars(v: ScreenView, n: int) -> ScreenView {
    let l = cursor_line(v);
    with_line(
        v,
        v.cursor.row as int,
        LineModel { cells: fill_range(l.cells, v.cursor.col as int, v.cursor.col + n, blank_cell()), ..l },
    )
}

/// Erase from the cursor to the end of the screen.
pub open spec fn sv_erase_below(v: ScreenView) -> ScreenView {
    let row = v.cursor.row as int;
    ScreenView {
        lines: Seq::new(
            v.lines.len(),
            |r: int|
                if r < row {
                    v.lines[r]
                } else if r == row {
                    LineModel {
                        cells: fill_range(v.lines[r].cells, v.cursor.col as int, v.cols as int, blank_cell()),
                        ..v.lines[r]
                    }
                } else {
                    blank_line(v.cols)
                },
        ),
        ..v
    }
}

/// Erase from the start of the screen to the cursor, inclusive.
pub open spec fn sv_erase_above(v: ScreenView) -> ScreenView {
    let row = v.cursor.row as int;
    ScreenView {
        lines: Seq::new(
            v.lines.len(),
            |r: int|
                if r < row {
                    blank_line(v.cols)
                } else if r == row {
                    LineModel { cells: fill_range(v.lines[r].cells, 0, v.cursor.col + 1, blank_cell()), ..v.lines[r] }
                } else {
                    v.lines[r]
                },
        ),
        ..v
    }
}

pub open spec fn sv_erase_screen(v: ScreenView) -> ScreenView {
    ScreenView { lines: Seq::new(v.rows, |i: int| blank_line(v.cols)), ..v }
}

/// `cells` after inserting `count` blank cells at `col` (the line keeps its
/// length).
pub open spec fn inserted_cells(cells: Seq<CellModel>, col: int, count: int) -> Seq<CellModel> {
    if col >= cells.len() {
        cells
    } else {
        let k = min_int(count, cells.len() - col);
        cells.subrange(0, col) + blank_cells(k as nat) + cells.subrange(col, cells.len() - k)
    }
}

/// `cells` after deleting `count` cells at `col` (blank cells fill the end).
pub open spec fn deleted_cells(cells: Seq<CellModel>, col: int, count: int) -> Seq<CellModel> {
    if col >= cells.len() {
        cells
    } else {
        let k = min_int(count, cells.len() - col);
        cells.subrange(0, col) + cells.subrange(col + k, cells.len() as int) + blank_cells(k as nat)
    }
}

pub open spec fn sv_insert_chars(v: ScreenView, n: int) -> ScreenView {
    let l = cursor_line(v);
    with_line(v, v.cursor.row as int, LineModel { cells: inserted_cells(l.cells, v.cursor.col as int, n), ..l })
}

pub open spec fn sv_delete_chars(v: ScreenView, n: int) -> ScreenView {
    let l = cursor_line(v);
    with_line(v, v.cursor.row as int, LineModel { cells: deleted_cells(l.cells, v.cursor.col as int, n), ..l })
}

/// Insert `n` blank lines at the cursor row (when it is in the scroll
/// region), shifting the region's lines below it down.
pub open spec fn sv_insert_lines(v: ScreenView, n: int) -> ScreenView {
    let row = v.cursor.row as int;
    if row >= v.scroll_top && row <= v.scroll_bottom && scroll_applies(row, v.scroll_bottom, n, v.rows as int) {
        ScreenView {
            lines: scrolled_down(
                v.lines,
                row,
                region_bottom(v.scroll_bottom, v.rows as int),
                region_amount(row, v.scroll_bottom, n, v.rows as int),
                v.cols,
            ),
            ..v
        }
    } else {
        v
    }
}

/// Delete `n` lines at the cursor row (when it is in the scroll region),
/// shifting the region's lines below it up.
pub open spec fn sv_delete_lines(v: ScreenView, n: int) -> ScreenView {
    let row = v.cursor.row as int;
    if row >= v.scroll_top && row <= v.scroll_bottom && scroll_applies(row, v.scroll_bottom, n, v.rows as int) {
        ScreenView {
            lines: scrolled_up(
                v.lines,
                row,
                region_bottom(v.scroll_bottom, v.rows as int),
                region_amount(row, v.scroll_bottom, n, v.rows as int),
                v.cols,
            ),
            ..v
        }
    } else {
        v
    }
}

/// Handle a pending wrap before printing: with auto-wrap the current line
/// is marked wrapped and the cursor goes to the start of the next line
/// (scrolling if needed). The pending wrap is cancelled either way.
pub open spec fn sv_resolve_wrap(v: ScreenView) -> (ScreenView, Option<LineModel>) {
    if v.cursor.pending_wrap {
        if v.mode.auto_wrap {
            let w = with_line(v, v.cursor.row as int, LineModel { wrapped: true, ..cursor_line(v) });
            sv_linefeed(sv_carriage_return(w))
        } else {
            (with_cursor(v, Cursor { pending_wrap: false, ..v.cursor }), None)
        }
    } else {
        (v, None)
    }
}

/// The cell written for `text` with the cursor's attributes.
pub open spec fn written_cell(attrs: CellAttributes, text: Seq<char>, wide: bool) -> CellModel {
    CellModel {
        text,
        fg: attrs.fg,
        bg: attrs.bg,
        flags: if wide { attrs.flags.bits | CellFlags::WIDE_CHAR } else { attrs.flags.bits },
        hyperlink_id: attrs.hyperlink_id,
    }
}

/// A zero-width text joins the cell left of the cursor (nothing happens in
/// the first column).
pub open spec fn sv_append_to_previous(v: ScreenView, text: Seq<char>) -> ScreenView {
    if v.cursor.col > 0 {
        let row = v.cursor.row as int;
        let col = v.cursor.col - 1;
        let old_cell = v.lines[row].cells[col];
        with_cell(v, row, col, CellModel { text: old_cell.text + text, ..old_cell })
    } else {
        v
    }
}

/// `v` after making room for `width` cells at the cursor in insert mode.
#[verifier::opaque]
pub open spec fn sv_make_room(v: ScreenView, width: int) -> ScreenView {
    let row = v.cursor.row as int;
    if v.mode.insert_mode {
        with_line(
            v,
            row,
            LineModel { cells: inserted_cells(v.lines[row].cells, v.cursor.col as int, width), ..v.lines[row] },
        )
    } else {
        v
    }
}

/// The attributes `attrs` with the wide-character spacer flag added.
pub open spec fn spacer_attrs(attrs: CellAttributes) -> CellAttributes {
    CellAttributes { flags: CellFlags { bits: attrs.flags.bits | CellFlags::WIDE_CHAR_SPACER }, ..attrs }
}

/// `v` with the printed cells for `text` written at the cursor: the cell
/// itself (flagged wide when `width` is 2) and, for a wide character, a
/// space flagged as the wide character's spacer in the next cell when there
/// is one.
#[verifier::opaque]
pub open spec fn sv_put_cells(v: ScreenView, text: Seq<char>, width: int) -> ScreenView {
    let row = v.cursor.row as int;
    let col = v.cursor.col as int;
    let attrs = v.cursor.attrs;
    let v3 = with_cell(v, row, col, written_cell(attrs, text, width == 2));
    if width == 2 && col + 1 < v.cols {
        with_cell(v3, row, col + 1, written_cell(spacer_attrs(attrs), seq![' '], false))
    } else {
        v3
    }
}

/// The cursor after printing `width` columns from column `col`: it stops on
/// the last column with a pending wrap.
pub open spec fn advanced_cursor(c: Cursor, col: int, width: int, cols: int) -> Cursor {
    if col + width >= cols {
        Cursor { col: (cols - 1) as usize, pending_wrap: true, ..c }
    } else {
        Cursor { col: (col + width) as usize, ..c }
    }
}

/// Print `text` of display width `width` (at least 1) once any pending
/// wrap is resolved.
pub open spec fn sv_place(v: ScreenView, text: Seq<char>, width: int) -> ScreenView {
    let v2 = sv_make_room(v, width);
    let v4 = sv_put_cells(v2, text, width);
    with_cursor(v4, advanced_cursor(v4.cursor, v.cursor.col as int, width, v.cols as int))
}

/// Print `text`, whose display width is `width`, at the cursor.
/// A zero-width text joins the cell left of the cursor. Otherwise a pending
/// wrap is resolved, room is made in insert mode, the cell is written with
/// the cursor's attributes (a wide character also overwrites the next cell
/// with a space marked as its spacer) and the cursor advances, stopping on
/// the last column with a pending wrap. Returns the line that scrolled off,
/// if any.
pub open spec fn sv_write(v: ScreenView, text: Seq<char>, width: int) -> (ScreenView, Option<LineModel>) {
    if width == 0 {
        (sv_append_to_previous(v, text), None)
    } else {
        let (v1, scrolled) = sv_resolve_wrap(v);
        (sv_place(v1, text, width), scrolled)
    }
}

/// Every cell showing `c` (the attributes are kept), as DECALN fills the
/// screen with `E`.
pub open spec fn sv_filled(v: ScreenView, c: char) -> ScreenView {
    ScreenView {
        lines: Seq::new(v.lines.len(), |r: int| LineModel { cells: texts_replaced(v.lines[r].cells, c), ..v.lines[r] }),
        ..v
    }
}

/// Resize to `rows` x `cols`: lines are cut or padded, the scroll region
/// becomes the whole screen height (keeping its top when it still fits) and
/// the cursor is clamped.
#[verifier::opaque]
pub open spec fn sv_resize(v: ScreenView, rows: nat, cols: nat) -> ScreenView {
    ScreenView {
        lines: resized_lines(v.lines, rows, cols),
        rows,
        cols,
        tabs: resized_stops(v.tabs, cols),
        scroll_bottom: last_index(rows as int),
        scroll_top: if v.scroll_top >= rows { 0 } else { v.scroll_top },
        cursor: Cursor {
            row: min_int(v.cursor.row as int, last_index(rows as int)) as usize,
            col: min_int(v.cursor.col as int, last_index(cols as int)) as usize,
            pending_wrap: false,
            ..v.cursor
        },
        ..v
    }
}

/// Printing keeps the size of the screen.
pub proof fn lemma_write_keeps_size(v: ScreenView, text: Seq<char>, width: int)
    ensures
        sv_write(v, text, width).0.rows == v.rows,
        sv_write(v, text, width).0.cols == v.cols,
{
    reveal(sv_make_room);
    reveal(sv_put_cells);
}

/// Printing in insert mode (IRM) shifts the cursor's line right to make
/// room: writing text of width `width` (1 or 2) at column `c` with no wrap
/// pending leaves the cells left of `c` as they were, writes the text at
/// `c`, and moves each old cell `i` (from `c` on) to `i + width`, dropping
/// those pushed past the end; the other lines stay and nothing scrolls off.
pub proof fn lemma_insert_mode_write(v: ScreenView, text: Seq<char>, width: int)
    requires
        sv_wf(v),
        sv_nonempty(v),
        v.mode.insert_mode,
        !v.cursor.pending_wrap,
        width == 1 || width == 2,
    ensures
        ({
            let (w, out) = sv_write(v, text, width);
            let row = v.cursor.row as int;
            let c = v.cursor.col as int;
            let old_cells = v.lines[row].cells;
            let new_cells = w.lines[row].cells;
            &&& out is None
            &&& w.lines.len() == v.lines.len()
            &&& forall|r: int| 0 <= r < v.lines.len() && r != row ==> #[trigger] w.lines[r] == v.lines[r]
            &&& new_cells.len() == old_cells.len()
            &&& forall|i: int| 0 <= i < c ==> #[trigger] new_cells[i] == old_cells[i]
            &&& new_cells[c].text == text
            &&& forall|i: int| c <= i && i + width < old_cells.len() ==> #[trigger] new_cells[i + width] == old_cells[i]
        }),
{
    reveal(sv_make_room);
    reveal(sv_put_cells);
    let row = v.cursor.row as int;
    let c = v.cursor.col as int;
    let old_cells = v.lines[row].cells;
    let n = old_cells.len() as int;
    let v2 = sv_make_room(v, width);
    let ins = inserted_cells(old_cells, c, width);
    assert(v2.lines[row].cells == ins);
    assert(ins.len() == n);
    assert forall|i: int| c <= i && i + width < n implies #[trigger] ins[i + width] == old_cells[i] by {
        assert(min_int(width, n - c) == width);
    }
    assert forall|i: int| 0 <= i < c implies #[trigger] ins[i] == old_cells[i] by {}
    let w = sv_write(v, text, width).0;
    assert forall|i: int| c <= i && i + width < n implies #[trigger] w.lines[row].cells[i + width] == old_cells[i] by {
        assert(ins[i + width] == old_cells[i]);
    }
}

/// Printing without insert mode overwrites: writing text of width 1 at
/// column `c` with no wrap pending puts the text (with the cursor's colors)
/// in cell `c`, leaves every other cell and line as it was, and moves the
/// cursor one column right, or, on the last column, keeps it there with a
/// wrap pending.
pub proof fn lemma_overwrite_write(v: ScreenView, text: Seq<char>)
    requires
        sv_wf(v),
        sv_nonempty(v),
        v.cols <= usize::MAX,
        !v.mode.insert_mode,
        !v.cursor.pending_wrap,
    ensures
        ({
            let (w, out) = sv_write(v, text, 1);
            let row = v.cursor.row as int;
            let c = v.cursor.col as int;
            let old_cells = v.lines[row].cells;
            let new_cells = w.lines[row].cells;
            &&& out is None
            &&& w.lines.len() == v.lines.len()
            &&& forall|r: int| 0 <= r < v.lines.len() && r != row ==> #[trigger] w.lines[r] == v.lines[r]
            &&& new_cells.len() == old_cells.len()
            &&& forall|i: int| 0 <= i < old_cells.len() && i != c ==> #[trigger] new_cells[i] == old_cells[i]
            &&& new_cells[c].text == text
            &&& new_cells[c].fg == v.cursor.attrs.fg
            &&& new_cells[c].bg == v.cursor.attrs.bg
            &&& w.cursor.row == v.cursor.row
            &&& c + 1 < v.cols ==> w.cursor.col == c + 1 && !w.cursor.pending_wrap
            &&& c + 1 >= v.cols ==> w.cursor.col == c && w.cursor.pending_wrap
        }),
{
    reveal(sv_make_room);
    reveal(sv_put_cells);
    let row = v.cursor.row as int;
    let c = v.cursor.col as int;
    let v4 = sv_put_cells(v, text, 1);
    assert(v4 == with_cell(v, row, c, written_cell(v.cursor.attrs, text, false)));
    assert(sv_write(v, text, 1).0.lines == v4.lines);
}

/// With a wrap pending and auto-wrap on, printing first moves to the start
/// of the next line (the line left behind is marked as wrapped) and writes
/// there.
pub proof fn lemma_auto_wrap_write(v: ScreenView, text: Seq<char>)
    requires
        sv_wf(v),
        sv_nonempty(v),
        v.rows <= usize::MAX,
        v.cursor.pending_wrap,
        v.mode.auto_wrap,
        !v.mode.insert_mode,
        v.cursor.row != v.scroll_bottom,
        v.cursor.row + 1 < v.rows,
    ensures
        ({
            let w = sv_write(v, text, 1).0;
            let row = v.cursor.row as int;
            &&& w.lines[row].wrapped
            &&& w.lines[row].cells == v.lines[row].cells
            &&& w.lines[row + 1].cells[0].text == text
            &&& w.cursor.row == row + 1
        }),
{
    reveal(sv_make_room);
    reveal(sv_put_cells);
}

/// Two screen states with equal fields are equal.
pub proof fn lemma_sv_ext(a: ScreenView, b: ScreenView)
    requires
        a.lines == b.lines,
        a.rows == b.rows,
        a.cols == b.cols,
        a.cursor == b.cursor,
        a.saved_cursor == b.saved_cursor,
        a.scroll_top == b.scroll_top,
        a.scroll_bottom == b.scroll_bottom,
        a.mode == b.mode,
        a.tabs == b.tabs,
    ensures
        a == b,
{
}

/// The state after `place` from the intermediate states it goes through.
proof fn lemma_place(pre: ScreenView, v2: ScreenView, v4: ScreenView, post: ScreenView, text: Seq<char>, width: int)
    requires
        v2 == sv_make_room(pre, width),
        v4 == sv_put_cells(v2, text, width),
        v4.cursor == pre.cursor,
        v4.cols == pre.cols,
        post.cursor == advanced_cursor(v4.cursor, pre.cursor.col as int, width, pre.cols as int),
        post.lines == v4.lines,
        post.rows == v4.rows,
        post.cols == v4.cols,
        post.saved_cursor == v4.saved_cursor,
        post.scroll_top == v4.scroll_top,
        post.scroll_bottom == v4.scroll_bottom,
        post.mode == v4.mode,
        post.tabs == v4.tabs,
    ensures
        post == sv_place(pre, text, width),
{
    lemma_sv_ext(post, sv_place(pre, text, width));
}

/// A terminal screen (primary or alternate).
#[derive(Debug)]
pub struct Screen {
    /// The grid of cells
    pub grid: Grid,
    /// Cursor state
    pub cursor: Cursor,
    /// Saved cursor state (for DECSC/DECRC)
    pub saved_cursor: SavedCursor,
    /// Scroll region top (inclusive, 0-indexed)
    pub scroll_top: usize,
    /// Scroll region bottom (inclusive, 0-indexed)
    pub scroll_bottom: usize,
    /// Mode flags
    pub mode: ScreenMode,
    /// Tab stops
    pub tabs: TabStops,
}

impl View for Screen {
    type V = ScreenView;

    open spec fn view(&self) -> ScreenView {
        ScreenView {
            lines: self.grid@,
            rows: self.grid.spec_rows(),
            cols: self.grid.spec_cols(),
            cursor: self.cursor,
            saved_cursor: self.saved_cursor,
            scroll_top: self.scroll_top as int,
            scroll_bottom: self.scroll_bottom as int,
            mode: self.mode,
            tabs: self.tabs@,
        }
    }
}

impl Screen {
    pub open spec fn wf(&self) -> bool {
        &&& self.grid.wf()
        &&& sv_wf(self@)
    }

    /// Create a new screen with the given dimensions.
    pub fn new(rows: usize, cols: usize) -> (res: Self)
        ensures
            res.wf(),
            res@ == sv_new(rows as nat, cols as nat),
    {
        Screen {
            grid: Grid::new(rows, cols),
            cursor: Cursor::new(),
            saved_cursor: SavedCursor::new(),
            scroll_top: 0,
            scroll_bottom: rows.saturating_sub(1),
            mode: ScreenMode::new(),
            tabs: TabStops::new(cols),
        }
    }

    /// Get the number of rows.
    pub fn rows(&self) -> (res: usize)
        ensures
            res == self@.rows,
    {
        self.grid.rows()
    }

    /// Get the number of columns.
    pub fn cols(&self) -> (res: usize)
        ensures
            res == self@.cols,
    {
        self.grid.cols()
    }

    /// The cursor clamped to a `rows` x `cols` screen, with no pending wrap.
    fn clamped_cursor(cursor: Cursor, rows: usize, cols: usize) -> (res: Cursor)
        ensures
            res == (Cursor {
                row: min_int(cursor.row as int, last_index(rows as int)) as usize,
                col: min_int(cursor.col as int, last_index(cols as int)) as usize,
                pending_wrap: false,
                ..cursor
            }),
    {
        let max_row = rows.saturating_sub(1);
        let max_col = cols.saturating_sub(1);
        let mut c = cursor;
        c.row = if c.row < max_row {
            c.row
        } else {
            max_row
        };
        c.col = if c.col < max_col {
            c.col
        } else {
            max_col
        };
        c.pending_wrap = false;
        c
    }

    /// Resize the screen.
    #[verifier::spinoff_prover]
    pub fn resize(&mut self, rows: usize, cols: usize)
        requires
            old(self).wf(),
        ensures
            final(self).wf(),
            final(self)@ == sv_resize(old(self)@, rows as nat, cols as nat),
    {
        let ghost pre = self@;
        self.grid.resize(rows, cols);
        self.tabs.resize(cols);
        self.scroll_bottom = rows.saturating_sub(1);
        if self.scroll_top >= rows {
            self.scroll_top = 0;
        }
        self.cursor = Self::clamped_cursor(self.cursor, rows, cols);
        proof {
            let post = sv_resize(pre, rows as nat, cols as nat);
            assert(self@.lines == post.lines && self@.rows == post.rows && self@.cols == post.cols
                && self@.tabs == post.tabs) by {
                reveal(sv_resize);
            }
            assert(self@.cursor == post.cursor && self@.saved_cursor == post.saved_cursor
                && self@.scroll_top == post.scroll_top && self@.scroll_bottom == post.scroll_bottom
                && self@.mode == post.mode) by {
                reveal(sv_resize);
            }
            lemma_sv_ext(self@, post);
        }
    }

    /// Reset the screen to its initial state (the size is kept).
    pub fn reset(&mut self)
        requires
            old(self).wf(),
        ensures
            final(self).wf(),
            final(self)@ == sv_new(old(self)@.rows, old(self)@.cols),
    {
        let rows = self.rows();
        let cols = self.cols();
        self.grid.clear();
        self.cursor = Cursor::new();
        self.saved_cursor = SavedCursor::new();
        self.scroll_top = 0;
        self.scroll_bottom = rows.saturating_sub(1);
        self.mode = ScreenMode::new();
        self.tabs = TabStops::new(cols);
        proof {
            assert(self@.lines =~= sv_new(old(self)@.rows, old(self)@.cols).lines);
        }
    }

    /// Set the scroll region and move the cursor home.
    #[verifier::spinoff_prover]
    pub fn set_scroll_region(&mut self, top: usize, bottom: usize)
        requires
            old(self).wf(),
        ensures
            final(self).wf(),
            final(self)@ == sv_set_scroll_region(old(self)@, top as int, bottom as int),
    {
        let rows = self.rows();
        let max_row = rows.saturating_sub(1);
        let top = if top < max_row {
            top
        } else {
            max_row
        };
        let bottom = if bottom < max_row {
            bottom
        } else {
            max_row
        };
        if top < bottom {
            self.scroll_top = top;
            self.scroll_bottom = bottom;
        }
        if self.mode.origin_mode {
            self.cursor.row = self.scroll_top;
        } else {
            self.cursor.row = 0;
        }
        self.cursor.col = 0;
        self.cursor.pending_wrap = false;
        proof {
            lemma_sv_ext(self@, sv_set_scroll_region(old(self)@, top as int, bottom as int));
        }
    }

    /// Scroll the scroll region up by n lines, returning the lines that
    /// left it (for the scrollback).
    pub fn scroll_up(&mut self, n: usize) -> (res: Vec<Line>)
        requires
            old(self).wf(),
        ensures
            final(self).wf(),
            final(self)@ == sv_scroll_up(old(self)@, n as int).0,
            views(res@) == sv_scroll_up(old(self)@, n as int).1,
    {
        let res = self.grid.scroll_up(self.scroll_top, self.scroll_bottom, n);
        res
    }

    /// Scroll the scroll region down by n lines.
    pub fn scroll_down(&mut self, n: usize)
        requires
            old(self).wf(),
        ensures
            final(self).wf(),
            final(self)@ == sv_scroll_down(old(self)@, n as int),
    {
        self.grid.scroll_down(self.scroll_top, self.scroll_bottom, n);
    }

    /// Move the cursor to a position, respecting origin mode and bounds.
    pub fn goto(&mut self, row: usize, col: usize)
        requires
            old(self).wf(),
        ensures
            final(self).wf(),
            final(self)@ == sv_goto(old(self)@, row as int, col as int),
    {
        let rows = self.rows();
        let cols = self.cols();
        let max_row = rows.saturating_sub(1);
        let actual_row = if self.mode.origin_mode {
            let a = crate::cursor::clamped_advance(self.scroll_top, row, self.scroll_bottom);
            if a >= self.scroll_top {
                a
            } else {
                self.scroll_top
            }
        } else if row < max_row {
            row
        } else {
            max_row
        };
        let max_col = cols.saturating_sub(1);
        self.cursor.row = actual_row;
        self.cursor.col = if col < max_col {
            col
        } else {
            max_col
        };
        self.cursor.pending_wrap = false;
    }

    /// Line feed: move down, scrolling the region at its bottom. Returns
    /// the line that scrolled off, if any.
    pub fn linefeed(&mut self) -> (res: Option<Line>)
        requires
            old(self).wf(),
        ensures
            final(self).wf(),
            final(self)@ == sv_linefeed(old(self)@).0,
            res matches Some(l) ==> sv_linefeed(old(self)@).1 == Some(l@),
            res is None ==> sv_linefeed(old(self)@).1 is None,
    {
        let ghost pre = self@;
        let mut scrolled = None;
        if self.cursor.row == self.scroll_bottom {
            let mut lines = self.scroll_up(1);
            let ghost mid = self@;
            assert(mid == sv_scroll_up(pre, 1).0);
            assert(views(lines@) == sv_scroll_up(pre, 1).1);
            if lines.len() > 0 {
                assert(lines@[0]@ == views(lines@)[0]);
                scrolled = Some(lines.remove(0));
            }
            self.cursor.pending_wrap = false;
            proof {
                lemma_sv_ext(self@, with_cursor(mid, Cursor { pending_wrap: false, ..mid.cursor }));
            }
        } else if self.cursor.row < self.rows() - 1 {
            self.cursor.row = self.cursor.row + 1;
            self.cursor.pending_wrap = false;
            proof {
                lemma_sv_ext(
                    self@,
                    with_cursor(pre, Cursor { row: (pre.cursor.row + 1) as usize, pending_wrap: false, ..pre.cursor }),
                );
            }
        } else {
            self.cursor.pending_wrap = false;
            proof {
                lemma_sv_ext(self@, with_cursor(pre, Cursor { pending_wrap: false, ..pre.cursor }));
            }
        }
        scrolled
    }

    /// Reverse index: move up, scrolling the region down at its top.
    pub fn reverse_index(&mut self)
        requires
            old(self).wf(),
        ensures
            final(self).wf(),
            final(self)@ == sv_reverse_index(old(self)@),
    {
        let ghost pre = self@;
        if self.cursor.row == self.scroll_top {
            self.scroll_down(1);
            let ghost mid = self@;
            self.cursor.pending_wrap = false;
            proof {
                lemma_sv_ext(self@, with_cursor(mid, Cursor { pending_wrap: false, ..mid.cursor }));
            }
        } else if self.cursor.row > 0 {
            self.cursor.row = self.cursor.row - 1;
            self.cursor.pending_wrap = false;
            proof {
                lemma_sv_ext(
                    self@,
                    with_cursor(pre, Cursor { row: (pre.cursor.row - 1) as usize, pending_wrap: false, ..pre.cursor }),
                );
            }
        } else {
            self.cursor.pending_wrap = false;
            proof {
                lemma_sv_ext(self@, with_cursor(pre, Cursor { pending_wrap: false, ..pre.cursor }));
            }
        }
    }

    /// Carriage return.
    pub fn carriage_return(&mut self)
        requires
            old(self).wf(),
        ensures
            final(self).wf(),
            final(self)@ == sv_carriage_return(old(self)@),
    {
        self.cursor.col = 0;
        self.cursor.pending_wrap = false;
    }

    /// Move to the next tab stop.
    pub fn tab(&mut self)
        requires
            old(self).wf(),
        ensures
            final(self).wf(),
            final(self)@ == sv_tab(old(self)@),
    {
        let max_col = self.cols().saturating_sub(1);
        assert(self.cursor.col <= last_index(self@.cols as int));
        let next = self.tabs.next(self.cursor.col);
        self.cursor.col = if next < max_col {
            next
        } else {
            max_col
        };
        self.cursor.pending_wrap = false;
    }

    /// Move to the previous tab stop.
    pub fn backtab(&mut self)
        requires
            old(self).wf(),
        ensures
            final(self).wf(),
            final(self)@ == sv_backtab(old(self)@),
    {
        proof {
            lemma_prev_stop_before(self@.tabs, self.cursor.col as int);
        }
        let prev = self.tabs.prev(self.cursor.col);
        self.cursor.col = prev;
        self.cursor.pending_wrap = false;
    }

    /// Backspace.
    pub fn backspace(&mut self)
        requires
            old(self).wf(),
        ensures
            final(self).wf(),
            final(self)@ == sv_backspace(old(self)@),
    {
        if self.cursor.col > 0 {
            self.cursor.col = self.cursor.col - 1;
        }
        self.cursor.pending_wrap = false;
    }

    /// Save the cursor state.
    pub fn save_cursor(&mut self)
        requires
            old(self).wf(),
        ensures
            final(self).wf(),
            final(self)@ == sv_save_cursor(old(self)@),
    {
        self.saved_cursor = SavedCursor::save(&self.cursor, self.mode.auto_wrap);
    }

    /// Restore the saved cursor state, clamped to the screen.
    pub fn restore_cursor(&mut self)
        requires
            old(self).wf(),
        ensures
            final(self).wf(),
            final(self)@ == sv_restore_cursor(old(self)@),
    {
        let saved = self.saved_cursor;
        saved.restore_to(&mut self.cursor);
        let max_row = self.rows().saturating_sub(1);
        let max_col = self.cols().saturating_sub(1);
        if self.cursor.row > max_row {
            self.cursor.row = max_row;
        }
        if self.cursor.col > max_col {
            self.cursor.col = max_col;
        }
    }

    /// Erase from the cursor to the end of its line.
    #[verifier::spinoff_prover]
    pub fn erase_to_eol(&mut self)
        requires
            old(self).wf(),
            sv_nonempty(old(self)@),
        ensures
            final(self).wf(),
            final(self)@ == sv_erase_to_eol(old(self)@),
    {
        let ghost pre = self@;
        self.grid.line_mut(self.cursor.row).clear_from(self.cursor.col);
        proof {
            lemma_sv_ext(self@, sv_erase_to_eol(pre));
        }
    }

    /// Erase from the start of the cursor's line to the cursor.
    #[verifier::spinoff_prover]
    pub fn erase_to_bol(&mut self)
        requires
            old(self).wf(),
            sv_nonempty(old(self)@),
        ensures
            final(self).wf(),
            final(self)@ == sv_erase_to_bol(old(self)@),
    {
        let ghost pre = self@;
        self.grid.line_mut(self.cursor.row).clear_to(self.cursor.col);
        proof {
            lemma_sv_ext(self@, sv_erase_to_bol(pre));
        }
    }

    /// Erase the cursor's line.
    #[verifier::spinoff_prover]
    pub fn erase_line(&mut self)
        requires
            old(self).wf(),
            sv_nonempty(old(self)@),
        ensures
            final(self).wf(),
            final(self)@ == sv_erase_line(old(self)@),
    {
        let ghost pre = self@;
        self.grid.line_mut(self.cursor.row).clear();
        proof {
            lemma_sv_ext(self@, sv_erase_line(pre));
        }
    }

    /// Erase from the cursor to the end of the screen.
    pub fn erase_below(&mut self)
        requires
            old(self).wf(),
            sv_nonempty(old(self)@),
        ensures
            final(self).wf(),
            final(self)@ == sv_erase_below(old(self)@),
    {
        let ghost pre = self@;
        self.grid.clear_below(self.cursor.row, self.cursor.col);
        proof {
            assert(self@.lines =~= sv_erase_below(pre).lines);
            lemma_sv_ext(self@, sv_erase_below(pre));
        }
    }

    /// Erase from the start of the screen to the cursor.
    pub fn erase_above(&mut self)
        requires
            old(self).wf(),
            sv_nonempty(old(self)@),
        ensures
            final(self).wf(),
            final(self)@ == sv_erase_above(old(self)@),
    {
        let ghost pre = self@;
        self.grid.clear_above(self.cursor.row, self.cursor.col);
        proof {
            assert(self@.lines =~= sv_erase_above(pre).lines);
            lemma_sv_ext(self@, sv_erase_above(pre));
        }
    }

    /// Erase the whole screen.
    pub fn erase_screen(&mut self)
        requires
            old(self).wf(),
        ensures
            final(self).wf(),
            final(self)@ == sv_erase_screen(old(self)@),
    {
        let ghost pre = self@;
        self.grid.clear();
        proof {
            assert(self@.lines =~= sv_erase_screen(pre).lines);
            lemma_sv_ext(self@, sv_erase_screen(pre));
        }
    }

    /// Erase `n` characters at the cursor (ECH).
    #[verifier::spinoff_prover]
    pub fn erase_chars(&mut self, n: usize)
        requires
            old(self).wf(),
            sv_nonempty(old(self)@),
        ensures
            final(self).wf(),
            final(self)@ == sv_erase_chars(old(self)@, n as int),
    {
        let ghost pre = self@;
        self.grid.line_mut(self.cursor.row).erase_cells(self.cursor.col, n);
        proof {
            lemma_sv_ext(self@, sv_erase_chars(pre, n as int));
        }
    }

    /// Insert `n` blank lines at the cursor row.
    pub fn insert_lines(&mut self, n: usize)
        requires
            old(self).wf(),
        ensures
            final(self).wf(),
            final(self)@ == sv_insert_lines(old(self)@, n as int),
    {
        let ghost pre = self@;
        if self.cursor.row >= self.scroll_top && self.cursor.row <= self.scroll_bottom {
            self.grid.insert_lines(self.cursor.row, self.scroll_bottom, n);
        }
        proof {
            lemma_sv_ext(self@, sv_insert_lines(pre, n as int));
        }
    }

    /// Delete `n` lines at the cursor row.
    pub fn delete_lines(&mut self, n: usize)
        requires
            old(self).wf(),
        ensures
            final(self).wf(),
            final(self)@ == sv_delete_lines(old(self)@, n as int),
    {
        let ghost pre = self@;
        if self.cursor.row >= self.scroll_top && self.cursor.row <= self.scroll_bottom {
            self.grid.delete_lines(self.cursor.row, self.scroll_bottom, n);
        }
        proof {
            lemma_sv_ext(self@, sv_delete_lines(pre, n as int));
        }
    }

    /// Insert `n` blank characters at the cursor.
    #[verifier::spinoff_prover]
    pub fn insert_chars(&mut self, n: usize)
        requires
            old(self).wf(),
            sv_nonempty(old(self)@),
        ensures
            final(self).wf(),
            final(self)@ == sv_insert_chars(old(self)@, n as int),
    {
        let ghost pre = self@;
        self.grid.line_mut(self.cursor.row).insert_cells(self.cursor.col, n);
        proof {
            lemma_sv_ext(self@, sv_insert_chars(pre, n as int));
        }
    }

    /// Delete `n` characters at the cursor.
    #[verifier::spinoff_prover]
    pub fn delete_chars(&mut self, n: usize)
        requires
            old(self).wf(),
            sv_nonempty(old(self)@),
        ensures
            final(self).wf(),
            final(self)@ == sv_delete_chars(old(self)@, n as int),
    {
        let ghost pre = self@;
        self.grid.line_mut(self.cursor.row).delete_cells(self.cursor.col, n);
        proof {
            lemma_sv_ext(self@, sv_delete_chars(pre, n as int));
        }
    }

    /// Resolve a pending wrap before printing (see `sv_resolve_wrap`).
    #[verifier::spinoff_prover]
    fn resolve_wrap(&mut self) -> (res: Option<Line>)
        requires
            old(self).wf(),
            sv_nonempty(old(self)@),
        ensures
            final(self).wf(),
            final(self)@ == sv_resolve_wrap(old(self)@).0,
            res matches Some(l) ==> sv_resolve_wrap(old(self)@).1 == Some(l@),
            res is None ==> sv_resolve_wrap(old(self)@).1 is None,
    {
        let ghost pre = self@;
        if self.cursor.pending_wrap {
            if self.mode.auto_wrap {
                self.grid.line_mut(self.cursor.row).set_wrapped(true);
                proof {
                    lemma_sv_ext(
                        self@,
                        with_line(pre, pre.cursor.row as int, LineModel { wrapped: true, ..cursor_line(pre) }),
                    );
                }
                self.carriage_return();
                self.linefeed()
            } else {
                self.cursor.pending_wrap = false;
                proof {
                    lemma_sv_ext(self@, with_cursor(pre, Cursor { pending_wrap: false, ..pre.cursor }));
                }
                None
            }
        } else {
            None
        }
    }

    /// Write the cell at (`row`, `col`) as printed text with `attrs`.
    #[verifier::spinoff_prover]
    fn put_cell(&mut self, row: usize, col: usize, s: &str, attrs: CellAttributes, wide: bool)
        requires
            old(self).wf(),
            row < old(self)@.rows,
            col < old(self)@.cols,
        ensures
            final(self).wf(),
            final(self)@ == with_cell(old(self)@, row as int, col as int, written_cell(attrs, s@, wide)),
    {
        let ghost pre = self@;
        let cell = self.grid.cell_mut(row, col);
        cell.c = s.to_owned();
        attrs.apply_to(cell);
        if wide {
            cell.flags.insert(CellFlags::WIDE_CHAR);
        }
        proof {
            lemma_sv_ext(self@, with_cell(pre, row as int, col as int, written_cell(attrs, s@, wide)));
        }
    }

    /// Append `s` to the cell left of the cursor.
    #[verifier::spinoff_prover]
    fn append_to_previous(&mut self, s: &str)
        requires
            old(self).wf(),
            sv_nonempty(old(self)@),
        ensures
            final(self).wf(),
            final(self)@ == sv_append_to_previous(old(self)@, s@),
    {
        let ghost pre = self@;
        if self.cursor.col > 0 {
            let cell = self.grid.cell_mut(self.cursor.row, self.cursor.col - 1);
            cell.c.append(s);
            proof {
                lemma_sv_ext(self@, sv_append_to_previous(pre, s@));
            }
        }
    }

    /// Make room for `width` cells at the cursor in insert mode.
    #[verifier::spinoff_prover]
    fn make_room(&mut self, width: usize)
        requires
            old(self).wf(),
            sv_nonempty(old(self)@),
        ensures
            final(self).wf(),
            final(self)@ == sv_make_room(old(self)@, width as int),
            final(self)@.rows == old(self)@.rows,
            final(self)@.cols == old(self)@.cols,
            final(self)@.cursor == old(self)@.cursor,
    {
        let ghost pre = self@;
        proof {
            reveal(sv_make_room);
        }
        if self.mode.insert_mode {
            self.grid.line_mut(self.cursor.row).insert_cells(self.cursor.col, width);
            proof {
                lemma_sv_ext(self@, sv_make_room(pre, width as int));
            }
        }
    }

    /// Write the printed cells for `s` at the cursor.
    #[verifier::spinoff_prover]
    fn put_cells(&mut self, s: &str, width: usize)
        requires
            old(self).wf(),
            sv_nonempty(old(self)@),
        ensures
            final(self).wf(),
            final(self)@ == sv_put_cells(old(self)@, s@, width as int),
            final(self)@.rows == old(self)@.rows,
            final(self)@.cols == old(self)@.cols,
            final(self)@.cursor == old(self)@.cursor,
    {
        let ghost pre = self@;
        let cols = self.cols();
        let row = self.cursor.row;
        let col = self.cursor.col;
        let attrs = self.cursor.attrs;
        self.put_cell(row, col, s, attrs, width == 2);
        let ghost v3 = self@;
        let space = " ";
        proof {
            reveal_strlit(" ");
            assert(space@ =~= seq![' ']);
        }
        if width == 2 && col < cols - 1 {
            let mut spacer = attrs;
            spacer.flags.insert(CellFlags::WIDE_CHAR_SPACER);
            assert(spacer == spacer_attrs(attrs));
            self.put_cell(row, col + 1, space, spacer, false);
        }
        proof {
            reveal(sv_put_cells);
            assert(v3 == with_cell(pre, row as int, col as int, written_cell(attrs, s@, width == 2)));
        }
    }

    /// `c` moved past `width` printed columns from `col` on a screen of
    /// `cols` columns.
    fn advanced(c: Cursor, col: usize, width: usize, cols: usize) -> (res: Cursor)
        requires
            col < cols,
        ensures
            res == advanced_cursor(c, col as int, width as int, cols as int),
    {
        let mut r = c;
        if width >= cols - col {
            r.col = cols - 1;
            r.pending_wrap = true;
        } else {
            r.col = col + width;
        }
        r
    }

    /// Print `s` of display width `width` (at least 1), a pending wrap being
    /// resolved already.
    fn place(&mut self, s: &str, width: usize)
        requires
            old(self).wf(),
            sv_nonempty(old(self)@),
            width > 0,
        ensures
            final(self).wf(),
            final(self)@ == sv_place(old(self)@, s@, width as int),
            final(self)@.rows == old(self)@.rows,
            final(self)@.cols == old(self)@.cols,
    {
        let ghost pre = self@;
        let cols = self.cols();
        let col = self.cursor.col;
        self.make_room(width);
        let ghost v2 = self@;
        self.put_cells(s, width);
        let ghost v4 = self@;
        self.cursor = Self::advanced(self.cursor, col, width, cols);
        proof {
            lemma_place(pre, v2, v4, self@, s@, width as int);
        }
    }

    /// Print `s`, whose display width is `width`, at the cursor. Returns the
    /// line that scrolled off the top, if any.
    pub fn write_with_width(&mut self, s: &str, width: usize) -> (res: Option<Line>)
        requires
            old(self).wf(),
            sv_nonempty(old(self)@),
        ensures
            final(self).wf(),
            final(self)@ == sv_write(old(self)@, s@, width as int).0,
            final(self)@.rows == old(self)@.rows,
            final(self)@.cols == old(self)@.cols,
            res matches Some(l) ==> sv_write(old(self)@, s@, width as int).1 == Some(l@),
            res is None ==> sv_write(old(self)@, s@, width as int).1 is None,
    {
        if width == 0 {
            self.append_to_previous(s);
            return None;
        }
        let scrolled = self.resolve_wrap();
        self.place(s, width);
        scrolled
    }

    /// Write a grapheme cluster at the cursor position.
    pub fn write_grapheme(&mut self, s: &str) -> (res: Option<Line>)
        requires
            old(self).wf(),
            sv_nonempty(old(self)@),
        ensures
            final(self).wf(),
            final(self)@ == sv_write(old(self)@, s@, display_width(s@) as int).0,
            final(self)@.rows == old(self)@.rows,
            final(self)@.cols == old(self)@.cols,
            res matches Some(l) ==> sv_write(old(self)@, s@, display_width(s@) as int).1 == Some(l@),
            res is None ==> sv_write(old(self)@, s@, display_width(s@) as int).1 is None,
    {
        let width = str_display_width(s);
        self.write_with_width(s, width)
    }

    /// Write a character at the cursor position.
    pub fn write_char(&mut self, c: char) -> (res: Option<Line>)
        requires
            old(self).wf(),
            sv_nonempty(old(self)@),
        ensures
            final(self).wf(),
            final(self)@ == sv_write(old(self)@, seq![c], display_width(seq![c]) as int).0,
            final(self)@.rows == old(self)@.rows,
            final(self)@.cols == old(self)@.cols,
            res matches Some(l) ==> sv_write(old(self)@, seq![c], display_width(seq![c]) as int).1 == Some(l@),
            res is None ==> sv_write(old(self)@, seq![c], display_width(seq![c]) as int).1 is None,
    {
        let s = char_to_string(c);
        self.write_grapheme(s.as_str())
    }

    /// Restore the cursor from the saved state `saved`, clamped to the
    /// screen.
    pub fn restore_from(&mut self, saved: SavedCursor)
        requires
            old(self).wf(),
        ensures
            final(self).wf(),
            final(self)@ == sv_restore_from(old(self)@, saved),
    {
        let rows = self.rows();
        let cols = self.cols();
        let mut c = self.cursor;
        saved.restore_to(&mut c);
        self.cursor = Self::clamped_to(c, rows, cols);
    }

    /// `c` with its position clamped to a `rows` x `cols` screen.
    fn clamped_to(c: Cursor, rows: usize, cols: usize) -> (res: Cursor)
        ensures
            res == (Cursor {
                row: min_int(c.row as int, last_index(rows as int)) as usize,
                col: min_int(c.col as int, last_index(cols as int)) as usize,
                ..c
            }),
    {
        let max_row = rows.saturating_sub(1);
        let max_col = cols.saturating_sub(1);
        let mut r = c;
        if r.row > max_row {
            r.row = max_row;
        }
        if r.col > max_col {
            r.col = max_col;
        }
        r
    }

    /// Replace the cursor; it must lie on the screen.
    pub fn set_cursor(&mut self, cursor: Cursor)
        requires
            old(self).wf(),
            cursor.row <= last_index(old(self)@.rows as int),
            cursor.col <= last_index(old(self)@.cols as int),
        ensures
            final(self).wf(),
            final(self)@ == with_cursor(old(self)@, cursor),
    {
        self.cursor = cursor;
    }

    /// Replace the mode flags.
    pub fn set_mode(&mut self, mode: ScreenMode)
        requires
            old(self).wf(),
        ensures
            final(self).wf(),
            final(self)@ == (ScreenView { mode, ..old(self)@ }),
    {
        self.mode = mode;
    }

    /// Set (`on`) or clear the tab stop at `col`.
    pub fn set_tab_stop(&mut self, col: usize, on: bool)
        requires
            old(self).wf(),
        ensures
            final(self).wf(),
            final(self)@ == (ScreenView {
                tabs: if col < old(self)@.tabs.len() { old(self)@.tabs.update(col as int, on) } else { old(self)@.tabs },
                ..old(self)@
            }),
    {
        let ghost pre = self@;
        if on {
            self.tabs.set(col);
        } else {
            self.tabs.clear(col);
        }
        proof {
            lemma_sv_ext(
                self@,
                ScreenView {
                    tabs: if col < pre.tabs.len() { pre.tabs.update(col as int, on) } else { pre.tabs },
                    ..pre
                },
            );
        }
    }

    /// Clear every tab stop.
    pub fn clear_all_tab_stops(&mut self)
        requires
            old(self).wf(),
        ensures
            final(self).wf(),
            final(self)@ == (ScreenView { tabs: Seq::new(old(self)@.tabs.len(), |i: int| false), ..old(self)@ }),
    {
        let ghost pre = self@;
        self.tabs.clear_all();
        proof {
            lemma_sv_ext(self@, ScreenView { tabs: Seq::new(pre.tabs.len(), |i: int| false), ..pre });
        }
    }

    /// Show `c` in every cell, keeping the attributes.
    pub fn fill_with(&mut self, c: char)
        requires
            old(self).wf(),
        ensures
            final(self).wf(),
            final(self)@ == sv_filled(old(self)@, c),
    {
        let ghost pre = self@;
        let rows = self.rows();
        let mut r: usize = 0;
        while r < rows
            invariant
                self.wf(),
                rows == self@.rows,
                r <= rows,
                self@.rows == pre.rows,
                self@.cols == pre.cols,
                self@.cursor == pre.cursor,
                self@.saved_cursor == pre.saved_cursor,
                self@.scroll_top == pre.scroll_top,
                self@.scroll_bottom == pre.scroll_bottom,
                self@.mode == pre.mode,
                self@.tabs == pre.tabs,
                self@.lines.len() == pre.lines.len(),
                forall|k: int| 0 <= k < r ==> #[trigger] self@.lines[k] == (LineModel {
                    cells: texts_replaced(pre.lines[k].cells, c),
                    ..pre.lines[k]
                }),
                forall|k: int| r <= k < rows ==> #[trigger] self@.lines[k] == pre.lines[k],
            decreases rows - r,
        {
            self.grid.line_mut(r).fill_text(c);
            r = r + 1;
        }
        proof {
            assert(self@.lines =~= sv_filled(pre, c).lines);
            lemma_sv_ext(self@, sv_filled(pre, c));
        }
    }
}

} // verus!
