//! Terminal state.
//!
//! `Term` is the entry point of the terminal core. It holds the primary and
//! alternate screens, the scrollback, the selection, the title, hyperlinks
//! and character sets, and applies each terminal operation to the active
//! screen. Lines that scroll off the primary screen go to the scrollback.

use vstd::array::*;
use vstd::prelude::*;
use vstd::string::*;

use crate::cell::{char_to_string, display_width, CellAttributes, CellFlags};
use crate::color::Color;
use crate::cursor::{last_index, min_int, Cursor, CursorStyle, SavedCursor};
use crate::line::LineModel;
use crate::screen::{
    sv_backspace, sv_carriage_return, sv_delete_chars, sv_delete_lines, sv_erase_above, sv_erase_below,
    sv_erase_chars, sv_erase_line, sv_filled, sv_erase_screen, sv_erase_to_bol, sv_erase_to_eol, sv_goto, sv_insert_chars,
    sv_insert_lines, sv_linefeed, sv_new, sv_nonempty, sv_resize, sv_restore_from, sv_reverse_index,
    sv_scroll_down, sv_scroll_up, sv_set_scroll_region, sv_tab, sv_backtab, sv_wf, sv_write, with_cursor, MouseEncoding,
    MouseMode, Screen, ScreenMode, ScreenView,
};
use crate::scrollback::{capacity, pushed, pushed_all, Scrollback};
use crate::selection::Selection;
use crate::snapshot::Snapshot;

verus! {

/// Terminal mode flags (global, not per screen).
#[derive(Debug, Clone, Copy, PartialEq, Eq, Structural)]
pub struct TermMode {
    /// Using the alternate screen buffer
    pub alt_screen: bool,
    /// Application cursor keys mode (DECCKM)
    pub app_cursor: bool,
    /// Application keypad mode (DECNKM)
    pub app_keypad: bool,
}

impl TermMode {
    pub open spec fn spec_default() -> Self {
        TermMode { alt_screen: false, app_cursor: false, app_keypad: false }
    }
}

impl Default for TermMode {
    fn default() -> (res: Self)
        ensures
            res == Self::spec_default(),
    {
        TermMode { alt_screen: false, app_cursor: false, app_keypad: false }
    }
}

/// The abstract value of a hyperlink.
pub struct HyperlinkView {
    pub id: u32,
    pub uri: Seq<char>,
    pub params: Seq<char>,
}

/// A hyperlink registered by OSC 8.
#[derive(Debug, Clone)]
pub struct Hyperlink {
    pub id: u32,
    pub uri: String,
    pub params: String,
}

impl View for Hyperlink {
    type V = HyperlinkView;

    open spec fn view(&self) -> HyperlinkView {
        HyperlinkView { id: self.id, uri: self.uri@, params: self.params@ }
    }
}

/// Character set of a G0-G3 designation.
#[derive(Debug, Clone, Copy, PartialEq, Eq, Structural)]
pub enum Charset {
    Ascii,
    /// DEC Special Graphics (line drawing)
    DecSpecialGraphics,
    /// UK charset
    Uk,
}

impl Default for Charset {
    fn default() -> (res: Self)
        ensures
            res == Charset::Ascii,
    {
        Charset::Ascii
    }
}

/// The DEC Special Graphics (line drawing) glyph for `c`.
pub open spec fn dec_special_graphics(c: char) -> char {
    if c == 'j' {
        '\u{2518}'
    } else if c == 'k' {
        '\u{2510}'
    } else if c == 'l' {
        '\u{250c}'
    } else if c == 'm' {
        '\u{2514}'
    } else if c == 'n' {
        '\u{253c}'
    } else if c == 'q' {
        '\u{2500}'
    } else if c == 't' {
        '\u{251c}'
    } else if c == 'u' {
        '\u{2524}'
    } else if c == 'v' {
        '\u{2534}'
    } else if c == 'w' {
        '\u{252c}'
    } else if c == 'x' {
        '\u{2502}'
    } else if c == 'a' {
        '\u{2592}'
    } else if c == '`' {
        '\u{25c6}'
    } else if c == 'f' {
        '\u{b0}'
    } else if c == 'g' {
        '\u{b1}'
    } else if c == 'o' {
        '\u{23ba}'
    } else if c == 'p' {
        '\u{23bb}'
    } else if c == 'r' {
        '\u{23bc}'
    } else if c == 's' {
        '\u{23bd}'
    } else if c == '~' {
        '\u{b7}'
    } else {
        c
    }
}

/// `c` as shown through the character set `cs`.
pub open spec fn translated(cs: Charset, c: char) -> char {
    match cs {
        Charset::Ascii => c,
        Charset::DecSpecialGraphics => dec_special_graphics(c),
        Charset::Uk => if c == '#' {
            '\u{a3}'
        } else {
            c
        },
    }
}

/// The history after an operation that may have scrolled line `out` off
/// the active screen: only the primary screen feeds the scrollback.
pub open spec fn fed(history: Seq<LineModel>, max: nat, alt: bool, out: Option<LineModel>) -> Seq<LineModel> {
    if alt {
        history
    } else {
        match out {
            Some(l) => pushed(history, max, l),
            None => history,
        }
    }
}

/// `c` with the attribute flag `flag` set (`on`) or cleared.
pub open spec fn with_flag(c: Cursor, flag: u16, on: bool) -> Cursor {
    Cursor {
        attrs: CellAttributes {
            flags: CellFlags { bits: if on { c.attrs.flags.bits | flag } else { c.attrs.flags.bits & !flag } },
            ..c.attrs
        },
        ..c
    }
}

/// `v` with its mode replaced by `m`.
pub open spec fn with_mode(v: ScreenView, m: ScreenMode) -> ScreenView {
    ScreenView { mode: m, ..v }
}

/// The active screen and the rest after switching to the alternate screen:
/// a blank one, with the primary screen kept aside; nothing changes when the
/// alternate screen is already shown.
pub open spec fn alt_entered(v: ScreenView, r: TermRest) -> (ScreenView, TermRest) {
    if r.mode.alt_screen {
        (v, r)
    } else {
        (
            sv_new(v.rows, v.cols),
            TermRest { other: v, mode: TermMode { alt_screen: true, ..r.mode }, ..r },
        )
    }
}

/// The active screen and the rest after switching back to the primary
/// screen: the screen kept aside comes back; nothing changes when the
/// primary screen is already shown.
pub open spec fn alt_left(v: ScreenView, r: TermRest) -> (ScreenView, TermRest) {
    if !r.mode.alt_screen {
        (v, r)
    } else {
        (r.other, TermRest { other: v, mode: TermMode { alt_screen: false, ..r.mode }, ..r })
    }
}

/// The saved state DECSC records for `v`.
pub open spec fn saved_of(v: ScreenView) -> SavedCursor {
    SavedCursor {
        row: v.cursor.row,
        col: v.cursor.col,
        attrs: v.cursor.attrs,
        fg: v.cursor.attrs.fg,
        bg: v.cursor.attrs.bg,
        origin_mode: v.cursor.origin_mode,
        autowrap: v.mode.auto_wrap,
    }
}

/// Everything in a terminal besides the active screen and the scrollback.
pub struct TermRest {
    /// The inactive screen
    pub other: ScreenView,
    pub mode: TermMode,
    pub selection: Selection,
    pub title: Seq<char>,
    pub icon_name: Seq<char>,
    pub links: Seq<HyperlinkView>,
    pub saved_primary: Option<SavedCursor>,
    pub saved_alternate: Option<SavedCursor>,
    pub charsets: Seq<Charset>,
    pub active_charset: int,
    pub max_history: nat,
}

/// The abstract state of a terminal: the active screen, everything else,
/// and the scrollback.
pub struct TermView {
    pub screen: ScreenView,
    pub rest: TermRest,
    pub history: Seq<LineModel>,
}

/// The main terminal state.
#[derive(Debug)]
pub struct Term {
    /// Primary screen
    primary: Screen,
    /// Alternate screen (for full-screen applications)
    alternate: Screen,
    /// Which screen is active, and the global modes
    pub mode: TermMode,
    /// Scrollback buffer (fed by the primary screen only)
    scrollback: Scrollback,
    /// Current selection
    pub selection: Selection,
    /// Window title
    pub title: String,
    /// Icon name
    pub icon_name: String,
    /// Registered hyperlinks, by increasing id
    hyperlinks: Vec<Hyperlink>,
    /// Id of the next hyperlink
    next_hyperlink_id: u32,
    /// Cursor saved on the primary screen
    saved_cursor_primary: Option<SavedCursor>,
    /// Cursor saved on the alternate screen
    saved_cursor_alternate: Option<SavedCursor>,
    /// Character set designations (G0-G3)
    charsets: [Charset; 4],
    /// Active character set (index into `charsets`)
    active_charset: usize,
}

impl View for Term {
    type V = TermView;

    open spec fn view(&self) -> TermView {
        TermView { screen: self.screen_view(), rest: self.rest(), history: self.history() }
    }
}

impl Term {
    /// The active screen.
    pub closed spec fn screen_view(&self) -> ScreenView {
        if self.mode.alt_screen {
            self.alternate@
        } else {
            self.primary@
        }
    }

    /// The scrollback, oldest line first.
    pub closed spec fn history(&self) -> Seq<LineModel> {
        self.scrollback@
    }

    /// The id the next registered hyperlink gets.
    pub closed spec fn spec_next_hyperlink_id(&self) -> u32 {
        self.next_hyperlink_id
    }

    pub closed spec fn rest(&self) -> TermRest {
        TermRest {
            other: if self.mode.alt_screen {
                self.primary@
            } else {
                self.alternate@
            },
            mode: self.mode,
            selection: self.selection,
            title: self.title@,
            icon_name: self.icon_name@,
            links: Seq::new(self.hyperlinks@.len(), |i: int| self.hyperlinks@[i]@),
            saved_primary: self.saved_cursor_primary,
            saved_alternate: self.saved_cursor_alternate,
            charsets: self.charsets@,
            active_charset: self.active_charset as int,
            max_history: self.scrollback.spec_max_lines(),
        }
    }

    /// Both screens well formed and of the same size, the scrollback within
    /// its limit, a valid active character set, and hyperlink ids `1, 2, ...`
    /// in order with the next id following the last.
    pub closed spec fn wf(&self) -> bool {
        &&& self.primary.wf()
        &&& self.alternate.wf()
        &&& self.primary@.rows == self.alternate@.rows
        &&& self.primary@.cols == self.alternate@.cols
        &&& self.scrollback.wf()
        &&& self.active_charset < 4
        &&& self.next_hyperlink_id == self.hyperlinks@.len() + 1
        &&& forall|i: int| 0 <= i < self.hyperlinks@.len() ==> #[trigger] self.hyperlinks@[i].id == i + 1
    }

    /// The active screen has at least one row and one column.
    pub open spec fn nonempty(&self) -> bool {
        sv_nonempty(self.screen_view())
    }

    /// The character set printed characters go through.
    pub open spec fn active_set(&self) -> Charset {
        self.rest().charsets[self.rest().active_charset]
    }

    /// What a well-formed terminal guarantees of its two screens.
    pub proof fn lemma_wf_screens(&self)
        requires
            self.wf(),
        ensures
            sv_wf(self.screen_view()),
            sv_wf(self.rest().other),
            self.screen_view().rows == self.rest().other.rows,
            self.screen_view().cols == self.rest().other.cols,
            self.history().len() <= capacity(self.rest().max_history),
            0 <= self.rest().active_charset < 4,
            self.rest().charsets.len() == 4,
    {
    }

    /// The active screen.
    pub fn screen(&self) -> (res: &Screen)
        ensures
            res@ == self.screen_view(),
            self.wf() ==> res.wf(),
    {
        if self.mode.alt_screen {
            &self.alternate
        } else {
            &self.primary
        }
    }

    /// The active screen, for changes made directly to it.
    pub fn screen_mut(&mut self) -> (res: &mut Screen)
        ensures
            res@ == old(self).screen_view(),
            final(self).screen_view() == final(res)@,
            final(self).rest() == old(self).rest(),
            final(self).history() == old(self).history(),
    {
        if self.mode.alt_screen {
            &mut self.alternate
        } else {
            &mut self.primary
        }
    }

    /// Replace the active screen's cursor; it must lie on the screen.
    fn put_cursor(&mut self, c: Cursor)
        requires
            old(self).wf(),
            c.row <= last_index(old(self).screen_view().rows as int),
            c.col <= last_index(old(self).screen_view().cols as int),
        ensures
            final(self).wf(),
            final(self).screen_view() == with_cursor(old(self).screen_view(), c),
            final(self).rest() == old(self).rest(),
            final(self).history() == old(self).history(),
    {
        if self.mode.alt_screen {
            self.alternate.set_cursor(c);
        } else {
            self.primary.set_cursor(c);
        }
    }

    /// Replace the active screen's mode flags.
    fn put_mode(&mut self, m: ScreenMode)
        requires
            old(self).wf(),
        ensures
            final(self).wf(),
            final(self).screen_view() == with_mode(old(self).screen_view(), m),
            final(self).rest() == old(self).rest(),
            final(self).history() == old(self).history(),
    {
        if self.mode.alt_screen {
            self.alternate.set_mode(m);
        } else {
            self.primary.set_mode(m);
        }
    }

    /// The active cursor.
    fn cursor(&self) -> (res: Cursor)
        requires
            self.wf(),
        ensures
            res == self.screen_view().cursor,
            sv_wf(self.screen_view()),
    {
        if self.mode.alt_screen {
            self.alternate.cursor
        } else {
            self.primary.cursor
        }
    }

    /// Process a carriage return.
    pub fn carriage_return(&mut self)
        requires
            old(self).wf(),
        ensures
            final(self).wf(),
            final(self).screen_view() == sv_carriage_return(old(self).screen_view()),
            final(self).rest() == old(self).rest(),
            final(self).history() == old(self).history(),
    {
        if self.mode.alt_screen {
            self.alternate.carriage_return();
        } else {
            self.primary.carriage_return();
        }
    }

    /// Process a backspace.
    pub fn backspace(&mut self)
        requires
            old(self).wf(),
        ensures
            final(self).wf(),
            final(self).screen_view() == sv_backspace(old(self).screen_view()),
            final(self).rest() == old(self).rest(),
            final(self).history() == old(self).history(),
    {
        if self.mode.alt_screen {
            self.alternate.backspace();
        } else {
            self.primary.backspace();
        }
    }

    /// Move to the previous tab stop.
    pub fn backtab(&mut self)
        requires
            old(self).wf(),
        ensures
            final(self).wf(),
            final(self).screen_view() == sv_backtab(old(self).screen_view()),
            final(self).rest() == old(self).rest(),
            final(self).history() == old(self).history(),
    {
        if self.mode.alt_screen {
            self.alternate.backtab();
        } else {
            self.primary.backtab();
        }
    }

    /// Move to the next tab stop.
    pub fn tab(&mut self)
        requires
            old(self).wf(),
        ensures
            final(self).wf(),
            final(self).screen_view() == sv_tab(old(self).screen_view()),
            final(self).rest() == old(self).rest(),
            final(self).history() == old(self).history(),
    {
        if self.mode.alt_screen {
            self.alternate.tab();
        } else {
            self.primary.tab();
        }
    }

    /// Move the cursor to (`row`, `col`).
    pub fn goto(&mut self, row: usize, col: usize)
        requires
            old(self).wf(),
        ensures
            final(self).wf(),
            final(self).screen_view() == sv_goto(old(self).screen_view(), row as int, col as int),
            final(self).rest() == old(self).rest(),
            final(self).history() == old(self).history(),
    {
        if self.mode.alt_screen {
            self.alternate.goto(row, col);
        } else {
            self.primary.goto(row, col);
        }
    }

    /// Reverse index: move up, scrolling down at the top of the region.
    pub fn reverse_index(&mut self)
        requires
            old(self).wf(),
        ensures
            final(self).wf(),
            final(self).screen_view() == sv_reverse_index(old(self).screen_view()),
            final(self).rest() == old(self).rest(),
            final(self).history() == old(self).history(),
    {
        if self.mode.alt_screen {
            self.alternate.reverse_index();
        } else {
            self.primary.reverse_index();
        }
    }

    /// Set the scroll region and move the cursor home.
    pub fn set_scroll_region(&mut self, top: usize, bottom: usize)
        requires
            old(self).wf(),
        ensures
            final(self).wf(),
            final(self).screen_view() == sv_set_scroll_region(old(self).screen_view(), top as int, bottom as int),
            final(self).rest() == old(self).rest(),
            final(self).history() == old(self).history(),
    {
        if self.mode.alt_screen {
            self.alternate.set_scroll_region(top, bottom);
        } else {
            self.primary.set_scroll_region(top, bottom);
        }
    }

    /// Scroll the region down by `n` lines.
    pub fn scroll_down(&mut self, n: usize)
        requires
            old(self).wf(),
        ensures
            final(self).wf(),
            final(self).screen_view() == sv_scroll_down(old(self).screen_view(), n as int),
            final(self).rest() == old(self).rest(),
            final(self).history() == old(self).history(),
    {
        if self.mode.alt_screen {
            self.alternate.scroll_down(n);
        } else {
            self.primary.scroll_down(n);
        }
    }

    /// Erase from the cursor to the end of the line.
    pub fn erase_to_eol(&mut self)
        requires
            old(self).wf(),
            old(self).nonempty(),
        ensures
            final(self).wf(),
            final(self).screen_view() == sv_erase_to_eol(old(self).screen_view()),
            final(self).rest() == old(self).rest(),
            final(self).history() == old(self).history(),
    {
        if self.mode.alt_screen {
            self.alternate.erase_to_eol();
        } else {
            self.primary.erase_to_eol();
        }
    }

    /// Erase from the start of the line to the cursor.
    pub fn erase_to_bol(&mut self)
        requires
            old(self).wf(),
            old(self).nonempty(),
        ensures
            final(self).wf(),
            final(self).screen_view() == sv_erase_to_bol(old(self).screen_view()),
            final(self).rest() == old(self).rest(),
            final(self).history() == old(self).history(),
    {
        if self.mode.alt_screen {
            self.alternate.erase_to_bol();
        } else {
            self.primary.erase_to_bol();
        }
    }

    /// Erase the entire line.
    pub fn erase_line(&mut self)
        requires
            old(self).wf(),
            old(self).nonempty(),
        ensures
            final(self).wf(),
            final(self).screen_view() == sv_erase_line(old(self).screen_view()),
            final(self).rest() == old(self).rest(),
            final(self).history() == old(self).history(),
    {
        if self.mode.alt_screen {
            self.alternate.erase_line();
        } else {
            self.primary.erase_line();
        }
    }

    /// Erase from the cursor to the end of the screen.
    pub fn erase_below(&mut self)
        requires
            old(self).wf(),
            old(self).nonempty(),
        ensures
            final(self).wf(),
            final(self).screen_view() == sv_erase_below(old(self).screen_view()),
            final(self).rest() == old(self).rest(),
            final(self).history() == old(self).history(),
    {
        if self.mode.alt_screen {
            self.alternate.erase_below();
        } else {
            self.primary.erase_below();
        }
    }

    /// Erase from the start of the screen to the cursor.
    pub fn erase_above(&mut self)
        requires
            old(self).wf(),
            old(self).nonempty(),
        ensures
            final(self).wf(),
            final(self).screen_view() == sv_erase_above(old(self).screen_view()),
            final(self).rest() == old(self).rest(),
            final(self).history() == old(self).history(),
    {
        if self.mode.alt_screen {
            self.alternate.erase_above();
        } else {
            self.primary.erase_above();
        }
    }

    /// Erase the entire screen.
    pub fn erase_screen(&mut self)
        requires
            old(self).wf(),
        ensures
            final(self).wf(),
            final(self).screen_view() == sv_erase_screen(old(self).screen_view()),
            final(self).rest() == old(self).rest(),
            final(self).history() == old(self).history(),
    {
        if self.mode.alt_screen {
            self.alternate.erase_screen();
        } else {
            self.primary.erase_screen();
        }
    }

    /// Erase `n` characters at the cursor.
    pub fn erase_chars(&mut self, n: usize)
        requires
            old(self).wf(),
            old(self).nonempty(),
        ensures
            final(self).wf(),
            final(self).screen_view() == sv_erase_chars(old(self).screen_view(), n as int),
            final(self).rest() == old(self).rest(),
            final(self).history() == old(self).history(),
    {
        if self.mode.alt_screen {
            self.alternate.erase_chars(n);
        } else {
            self.primary.erase_chars(n);
        }
    }

    /// Insert `n` blank lines at the cursor row.
    pub fn insert_lines(&mut self, n: usize)
        requires
            old(self).wf(),
        ensures
            final(self).wf(),
            final(self).screen_view() == sv_insert_lines(old(self).screen_view(), n as int),
            final(self).rest() == old(self).rest(),
            final(self).history() == old(self).history(),
    {
        if self.mode.alt_screen {
            self.alternate.insert_lines(n);
        } else {
            self.primary.insert_lines(n);
        }
    }

    /// Delete `n` lines at the cursor row.
    pub fn delete_lines(&mut self, n: usize)
        requires
            old(self).wf(),
        ensures
            final(self).wf(),
            final(self).screen_view() == sv_delete_lines(old(self).screen_view(), n as int),
            final(self).rest() == old(self).rest(),
            final(self).history() == old(self).history(),
    {
        if self.mode.alt_screen {
            self.alternate.delete_lines(n);
        } else {
            self.primary.delete_lines(n);
        }
    }

    /// Insert `n` blank characters at the cursor.
    pub fn insert_chars(&mut self, n: usize)
        requires
            old(self).wf(),
            old(self).nonempty(),
        ensures
            final(self).wf(),
            final(self).screen_view() == sv_insert_chars(old(self).screen_view(), n as int),
            final(self).rest() == old(self).rest(),
            final(self).history() == old(self).history(),
    {
        if self.mode.alt_screen {
            self.alternate.insert_chars(n);
        } else {
            self.primary.insert_chars(n);
        }
    }

    /// Delete `n` characters at the cursor.
    pub fn delete_chars(&mut self, n: usize)
        requires
            old(self).wf(),
            old(self).nonempty(),
        ensures
            final(self).wf(),
            final(self).screen_view() == sv_delete_chars(old(self).screen_view(), n as int),
            final(self).rest() == old(self).rest(),
            final(self).history() == old(self).history(),
    {
        if self.mode.alt_screen {
            self.alternate.delete_chars(n);
        } else {
            self.primary.delete_chars(n);
        }
    }

    /// Move the cursor up by `n` rows, stopping at the top.
    pub fn move_up(&mut self, n: usize)
        requires
            old(self).wf(),
        ensures
            final(self).wf(),
            final(self).screen_view() == with_cursor(
                old(self).screen_view(),
                Cursor { row: (if old(self).screen_view().cursor.row >= n { old(self).screen_view().cursor.row - n } else { 0 }) as usize, ..old(self).screen_view().cursor },
            ),
            final(self).rest() == old(self).rest(),
            final(self).history() == old(self).history(),
    {
        let rows = self.rows();
        let cols = self.cols();
        let mut c = self.cursor();
        c.move_up(n);
        self.put_cursor(c);
    }

    /// Move the cursor down by `n` rows, stopping at the last row.
    pub fn move_down(&mut self, n: usize)
        requires
            old(self).wf(),
        ensures
            final(self).wf(),
            final(self).screen_view() == with_cursor(
                old(self).screen_view(),
                Cursor { row: min_int(old(self).screen_view().cursor.row + n, last_index(old(self).screen_view().rows as int)) as usize, ..old(self).screen_view().cursor },
            ),
            final(self).rest() == old(self).rest(),
            final(self).history() == old(self).history(),
    {
        let rows = self.rows();
        let cols = self.cols();
        let mut c = self.cursor();
        c.move_down(n, rows);
        self.put_cursor(c);
    }

    /// Move the cursor left by `n` columns, stopping at the first.
    pub fn move_left(&mut self, n: usize)
        requires
            old(self).wf(),
        ensures
            final(self).wf(),
            final(self).screen_view() == with_cursor(
                old(self).screen_view(),
                Cursor { col: (if old(self).screen_view().cursor.col >= n { old(self).screen_view().cursor.col - n } else { 0 }) as usize, ..old(self).screen_view().cursor },
            ),
            final(self).rest() == old(self).rest(),
            final(self).history() == old(self).history(),
    {
        let rows = self.rows();
        let cols = self.cols();
        let mut c = self.cursor();
        c.move_left(n);
        self.put_cursor(c);
    }

    /// Move the cursor right by `n` columns, stopping at the last column.
    pub fn move_right(&mut self, n: usize)
        requires
            old(self).wf(),
        ensures
            final(self).wf(),
            final(self).screen_view() == with_cursor(
                old(self).screen_view(),
                Cursor { col: min_int(old(self).screen_view().cursor.col + n, last_index(old(self).screen_view().cols as int)) as usize, ..old(self).screen_view().cursor },
            ),
            final(self).rest() == old(self).rest(),
            final(self).history() == old(self).history(),
    {
        let rows = self.rows();
        let cols = self.cols();
        let mut c = self.cursor();
        c.move_right(n, cols);
        self.put_cursor(c);
    }

    /// Move the cursor to column `col` (at most the last one).
    pub fn goto_col(&mut self, col: usize)
        requires
            old(self).wf(),
        ensures
            final(self).wf(),
            final(self).screen_view() == with_cursor(
                old(self).screen_view(),
                Cursor { col: min_int(col as int, last_index(old(self).screen_view().cols as int)) as usize, ..old(self).screen_view().cursor },
            ),
            final(self).rest() == old(self).rest(),
            final(self).history() == old(self).history(),
    {
        let rows = self.rows();
        let cols = self.cols();
        let mut c = self.cursor();
        c.move_to_col(col, cols);
        self.put_cursor(c);
    }

    /// Move the cursor to row `row` (at most the last one).
    pub fn goto_row(&mut self, row: usize)
        requires
            old(self).wf(),
        ensures
            final(self).wf(),
            final(self).screen_view() == with_cursor(
                old(self).screen_view(),
                Cursor { row: min_int(row as int, last_index(old(self).screen_view().rows as int)) as usize, ..old(self).screen_view().cursor },
            ),
            final(self).rest() == old(self).rest(),
            final(self).history() == old(self).history(),
    {
        let rows = self.rows();
        let cols = self.cols();
        let mut c = self.cursor();
        c.move_to_row(row, rows);
        self.put_cursor(c);
    }

    /// Set auto-wrap mode.
    pub fn set_auto_wrap(&mut self, enabled: bool)
        requires
            old(self).wf(),
        ensures
            final(self).wf(),
            final(self).screen_view() == with_mode(
                old(self).screen_view(),
                ScreenMode { auto_wrap: enabled, ..old(self).screen_view().mode },
            ),
            final(self).rest() == old(self).rest(),
            final(self).history() == old(self).history(),
    {
        let m = ScreenMode { auto_wrap: enabled, ..self.screen().mode };
        self.put_mode(m);
    }

    /// Set insert mode.
    pub fn set_insert_mode(&mut self, enabled: bool)
        requires
            old(self).wf(),
        ensures
            final(self).wf(),
            final(self).screen_view() == with_mode(
                old(self).screen_view(),
                ScreenMode { insert_mode: enabled, ..old(self).screen_view().mode },
            ),
            final(self).rest() == old(self).rest(),
            final(self).history() == old(self).history(),
    {
        let m = ScreenMode { insert_mode: enabled, ..self.screen().mode };
        self.put_mode(m);
    }

    /// Set linefeed mode.
    pub fn set_linefeed_mode(&mut self, enabled: bool)
        requires
            old(self).wf(),
        ensures
            final(self).wf(),
            final(self).screen_view() == with_mode(
                old(self).screen_view(),
                ScreenMode { linefeed_mode: enabled, ..old(self).screen_view().mode },
            ),
            final(self).rest() == old(self).rest(),
            final(self).history() == old(self).history(),
    {
        let m = ScreenMode { linefeed_mode: enabled, ..self.screen().mode };
        self.put_mode(m);
    }

    /// Set reverse video mode.
    pub fn set_reverse_video(&mut self, enabled: bool)
        requires
            old(self).wf(),
        ensures
            final(self).wf(),
            final(self).screen_view() == with_mode(
                old(self).screen_view(),
                ScreenMode { reverse_video: enabled, ..old(self).screen_view().mode },
            ),
            final(self).rest() == old(self).rest(),
            final(self).history() == old(self).history(),
    {
        let m = ScreenMode { reverse_video: enabled, ..self.screen().mode };
        self.put_mode(m);
    }

    /// Set bracketed paste mode.
    pub fn set_bracketed_paste(&mut self, enabled: bool)
        requires
            old(self).wf(),
        ensures
            final(self).wf(),
            final(self).screen_view() == with_mode(
                old(self).screen_view(),
                ScreenMode { bracketed_paste: enabled, ..old(self).screen_view().mode },
            ),
            final(self).rest() == old(self).rest(),
            final(self).history() == old(self).history(),
    {
        let m = ScreenMode { bracketed_paste: enabled, ..self.screen().mode };
        self.put_mode(m);
    }

    /// Set focus reporting mode.
    pub fn set_focus_reporting(&mut self, enabled: bool)
        requires
            old(self).wf(),
        ensures
            final(self).wf(),
            final(self).screen_view() == with_mode(
                old(self).screen_view(),
                ScreenMode { focus_reporting: enabled, ..old(self).screen_view().mode },
            ),
            final(self).rest() == old(self).rest(),
            final(self).history() == old(self).history(),
    {
        let m = ScreenMode { focus_reporting: enabled, ..self.screen().mode };
        self.put_mode(m);
    }

    /// Set the mouse tracking mode.
    pub fn set_mouse_mode(&mut self, mode: MouseMode)
        requires
            old(self).wf(),
        ensures
            final(self).wf(),
            final(self).screen_view() == with_mode(
                old(self).screen_view(),
                ScreenMode { mouse_mode: mode, ..old(self).screen_view().mode },
            ),
            final(self).rest() == old(self).rest(),
            final(self).history() == old(self).history(),
    {
        let m = ScreenMode { mouse_mode: mode, ..self.screen().mode };
        self.put_mode(m);
    }

    /// Set the mouse encoding.
    pub fn set_mouse_encoding(&mut self, encoding: MouseEncoding)
        requires
            old(self).wf(),
        ensures
            final(self).wf(),
            final(self).screen_view() == with_mode(
                old(self).screen_view(),
                ScreenMode { mouse_encoding: encoding, ..old(self).screen_view().mode },
            ),
            final(self).rest() == old(self).rest(),
            final(self).history() == old(self).history(),
    {
        let m = ScreenMode { mouse_encoding: encoding, ..self.screen().mode };
        self.put_mode(m);
    }

    /// Set the cursor style.
    pub fn set_cursor_style(&mut self, style: CursorStyle)
        requires
            old(self).wf(),
        ensures
            final(self).wf(),
            final(self).screen_view() == with_cursor(
                old(self).screen_view(),
                Cursor { style: style, ..old(self).screen_view().cursor },
            ),
            final(self).rest() == old(self).rest(),
            final(self).history() == old(self).history(),
    {
        let c = Cursor { style: style, ..self.cursor() };
        self.put_cursor(c);
    }

    /// Set cursor blinking.
    pub fn set_cursor_blinking(&mut self, blinking: bool)
        requires
            old(self).wf(),
        ensures
            final(self).wf(),
            final(self).screen_view() == with_cursor(
                old(self).screen_view(),
                Cursor { blinking: blinking, ..old(self).screen_view().cursor },
            ),
            final(self).rest() == old(self).rest(),
            final(self).history() == old(self).history(),
    {
        let c = Cursor { blinking: blinking, ..self.cursor() };
        self.put_cursor(c);
    }

    /// Reset the SGR attributes.
    pub fn reset_attrs(&mut self)
        requires
            old(self).wf(),
        ensures
            final(self).wf(),
            final(self).screen_view() == with_cursor(
                old(self).screen_view(),
                Cursor { attrs: CellAttributes::spec_default(), ..old(self).screen_view().cursor },
            ),
            final(self).rest() == old(self).rest(),
            final(self).history() == old(self).history(),
    {
        let c = self.cursor();
        let a = CellAttributes::new();
        self.put_cursor(Cursor { attrs: a, ..c });
    }

    /// Set the foreground color.
    pub fn set_fg(&mut self, color: Color)
        requires
            old(self).wf(),
        ensures
            final(self).wf(),
            final(self).screen_view() == with_cursor(
                old(self).screen_view(),
                Cursor { attrs: CellAttributes { fg: color, ..old(self).screen_view().cursor.attrs }, ..old(self).screen_view().cursor },
            ),
            final(self).rest() == old(self).rest(),
            final(self).history() == old(self).history(),
    {
        let c = self.cursor();
        let a = CellAttributes { fg: color, ..c.attrs };
        self.put_cursor(Cursor { attrs: a, ..c });
    }

    /// Set the background color.
    pub fn set_bg(&mut self, color: Color)
        requires
            old(self).wf(),
        ensures
            final(self).wf(),
            final(self).screen_view() == with_cursor(
                old(self).screen_view(),
                Cursor { attrs: CellAttributes { bg: color, ..old(self).screen_view().cursor.attrs }, ..old(self).screen_view().cursor },
            ),
            final(self).rest() == old(self).rest(),
            final(self).history() == old(self).history(),
    {
        let c = self.cursor();
        let a = CellAttributes { bg: color, ..c.attrs };
        self.put_cursor(Cursor { attrs: a, ..c });
    }

    /// Make `id` the hyperlink of the cells written next.
    pub fn set_hyperlink(&mut self, id: u32)
        requires
            old(self).wf(),
        ensures
            final(self).wf(),
            final(self).screen_view() == with_cursor(
                old(self).screen_view(),
                Cursor { attrs: CellAttributes { hyperlink_id: id, ..old(self).screen_view().cursor.attrs }, ..old(self).screen_view().cursor },
            ),
            final(self).rest() == old(self).rest(),
            final(self).history() == old(self).history(),
    {
        let c = self.cursor();
        let a = CellAttributes { hyperlink_id: id, ..c.attrs };
        self.put_cursor(Cursor { attrs: a, ..c });
    }

    /// Stop linking the cells written next.
    pub fn clear_hyperlink(&mut self)
        requires
            old(self).wf(),
        ensures
            final(self).wf(),
            final(self).screen_view() == with_cursor(
                old(self).screen_view(),
                Cursor { attrs: CellAttributes { hyperlink_id: 0, ..old(self).screen_view().cursor.attrs }, ..old(self).screen_view().cursor },
            ),
            final(self).rest() == old(self).rest(),
            final(self).history() == old(self).history(),
    {
        let c = self.cursor();
        let a = CellAttributes { hyperlink_id: 0, ..c.attrs };
        self.put_cursor(Cursor { attrs: a, ..c });
    }

    /// Set or clear the bold attribute.
    pub fn set_bold(&mut self, enabled: bool)
        requires
            old(self).wf(),
        ensures
            final(self).wf(),
            final(self).screen_view() == with_cursor(
                old(self).screen_view(),
                with_flag(old(self).screen_view().cursor, CellFlags::BOLD, enabled),
            ),
            final(self).rest() == old(self).rest(),
            final(self).history() == old(self).history(),
    {
        self.set_attr_flag(CellFlags::BOLD, enabled);
    }

    /// Set or clear the faint attribute.
    pub fn set_faint(&mut self, enabled: bool)
        requires
            old(self).wf(),
        ensures
            final(self).wf(),
            final(self).screen_view() == with_cursor(
                old(self).screen_view(),
                with_flag(old(self).screen_view().cursor, CellFlags::FAINT, enabled),
            ),
            final(self).rest() == old(self).rest(),
            final(self).history() == old(self).history(),
    {
        self.set_attr_flag(CellFlags::FAINT, enabled);
    }

    /// Set or clear the italic attribute.
    pub fn set_italic(&mut self, enabled: bool)
        requires
            old(self).wf(),
        ensures
            final(self).wf(),
            final(self).screen_view() == with_cursor(
                old(self).screen_view(),
                with_flag(old(self).screen_view().cursor, CellFlags::ITALIC, enabled),
            ),
            final(self).rest() == old(self).rest(),
            final(self).history() == old(self).history(),
    {
        self.set_attr_flag(CellFlags::ITALIC, enabled);
    }

    /// Set or clear the underline attribute.
    pub fn set_underline(&mut self, enabled: bool)
        requires
            old(self).wf(),
        ensures
            final(self).wf(),
            final(self).screen_view() == with_cursor(
                old(self).screen_view(),
                with_flag(old(self).screen_view().cursor, CellFlags::UNDERLINE, enabled),
            ),
            final(self).rest() == old(self).rest(),
            final(self).history() == old(self).history(),
    {
        self.set_attr_flag(CellFlags::UNDERLINE, enabled);
    }

    /// Set or clear the blink attribute.
    pub fn set_blink(&mut self, enabled: bool)
        requires
            old(self).wf(),
        ensures
            final(self).wf(),
            final(self).screen_view() == with_cursor(
                old(self).screen_view(),
                with_flag(old(self).screen_view().cursor, CellFlags::BLINK, enabled),
            ),
            final(self).rest() == old(self).rest(),
            final(self).history() == old(self).history(),
    {
        self.set_attr_flag(CellFlags::BLINK, enabled);
    }

    /// Set or clear the inverse attribute.
    pub fn set_inverse(&mut self, enabled: bool)
        requires
            old(self).wf(),
        ensures
            final(self).wf(),
            final(self).screen_view() == with_cursor(
                old(self).screen_view(),
                with_flag(old(self).screen_view().cursor, CellFlags::INVERSE, enabled),
            ),
            final(self).rest() == old(self).rest(),
            final(self).history() == old(self).history(),
    {
        self.set_attr_flag(CellFlags::INVERSE, enabled);
    }

    /// Set or clear the hidden attribute.
    pub fn set_hidden(&mut self, enabled: bool)
        requires
            old(self).wf(),
        ensures
            final(self).wf(),
            final(self).screen_view() == with_cursor(
                old(self).screen_view(),
                with_flag(old(self).screen_view().cursor, CellFlags::HIDDEN, enabled),
            ),
            final(self).rest() == old(self).rest(),
            final(self).history() == old(self).history(),
    {
        self.set_attr_flag(CellFlags::HIDDEN, enabled);
    }

    /// Set or clear the strikethrough attribute.
    pub fn set_strikethrough(&mut self, enabled: bool)
        requires
            old(self).wf(),
        ensures
            final(self).wf(),
            final(self).screen_view() == with_cursor(
                old(self).screen_view(),
                with_flag(old(self).screen_view().cursor, CellFlags::STRIKETHROUGH, enabled),
            ),
            final(self).rest() == old(self).rest(),
            final(self).history() == old(self).history(),
    {
        self.set_attr_flag(CellFlags::STRIKETHROUGH, enabled);
    }

    /// Set or clear an attribute flag of the cells written next.
    fn set_attr_flag(&mut self, flag: u16, enabled: bool)
        requires
            old(self).wf(),
        ensures
            final(self).wf(),
            final(self).screen_view() == with_cursor(
                old(self).screen_view(),
                with_flag(old(self).screen_view().cursor, flag, enabled),
            ),
            final(self).rest() == old(self).rest(),
            final(self).history() == old(self).history(),
    {
        let mut flags = self.cursor().attrs.flags;
        flags.set(flag, enabled);
        let c = self.cursor();
        self.put_cursor(Cursor { attrs: CellAttributes { flags, ..c.attrs }, ..c });
    }

    /// Create a terminal with the given dimensions.
    pub fn new(rows: usize, cols: usize) -> (res: Self)
        ensures
            res.wf(),
            res.screen_view() == sv_new(rows as nat, cols as nat),
            res.history() == Seq::<LineModel>::empty(),
            res.spec_next_hyperlink_id() == 1,
            res.rest() == (TermRest {
                other: sv_new(rows as nat, cols as nat),
                mode: TermMode::spec_default(),
                selection: Selection::spec_new(),
                title: Seq::empty(),
                icon_name: Seq::empty(),
                links: Seq::empty(),
                saved_primary: None,
                saved_alternate: None,
                charsets: seq![Charset::Ascii, Charset::Ascii, Charset::Ascii, Charset::Ascii],
                active_charset: 0,
                max_history: crate::scrollback::DEFAULT_SCROLLBACK_LINES as nat,
            }),
    {
        let res = Term {
            primary: Screen::new(rows, cols),
            alternate: Screen::new(rows, cols),
            mode: TermMode::default(),
            scrollback: Scrollback::default(),
            selection: Selection::new(),
            title: String::new(),
            icon_name: String::new(),
            hyperlinks: Vec::new(),
            next_hyperlink_id: 1,
            saved_cursor_primary: None,
            saved_cursor_alternate: None,
            charsets: [Charset::Ascii, Charset::Ascii, Charset::Ascii, Charset::Ascii],
            active_charset: 0,
        };
        proof {
            assert(res.rest().links =~= Seq::<HyperlinkView>::empty());
            assert(res.charsets@ =~= seq![Charset::Ascii, Charset::Ascii, Charset::Ascii, Charset::Ascii]);
        }
        res
    }

    /// The number of rows.
    pub fn rows(&self) -> (res: usize)
        ensures
            res == self.screen_view().rows,
    {
        self.screen().rows()
    }

    /// The number of columns.
    pub fn cols(&self) -> (res: usize)
        ensures
            res == self.screen_view().cols,
    {
        self.screen().cols()
    }

    /// The scrollback buffer.
    pub fn scrollback(&self) -> (res: &Scrollback)
        ensures
            res@ == self.history(),
            res.spec_max_lines() == self.rest().max_history,
    {
        &self.scrollback
    }

    /// Resize both screens; the selection is cleared.
    pub fn resize(&mut self, rows: usize, cols: usize)
        requires
            old(self).wf(),
        ensures
            final(self).wf(),
            final(self).screen_view() == sv_resize(old(self).screen_view(), rows as nat, cols as nat),
            final(self).rest() == (TermRest {
                other: sv_resize(old(self).rest().other, rows as nat, cols as nat),
                selection: Selection {
                    active: false,
                    start: crate::selection::SelectionPoint { row: 0, col: 0 },
                    end: crate::selection::SelectionPoint { row: 0, col: 0 },
                    ..old(self).rest().selection
                },
                ..old(self).rest()
            }),
            final(self).history() == old(self).history(),
    {
        self.primary.resize(rows, cols);
        self.alternate.resize(rows, cols);
        self.selection.clear();
        proof {
            reveal(sv_resize);
        }
    }

    /// Reset the terminal to its initial state (the size and the scrollback
    /// limit are kept).
    pub fn reset(&mut self)
        requires
            old(self).wf(),
        ensures
            final(self).wf(),
            final(self).screen_view() == sv_new(old(self).screen_view().rows, old(self).screen_view().cols),
            final(self).history() == Seq::<LineModel>::empty(),
            final(self).spec_next_hyperlink_id() == 1,
            final(self).rest() == (TermRest {
                other: sv_new(old(self).screen_view().rows, old(self).screen_view().cols),
                mode: TermMode::spec_default(),
                selection: Selection {
                    active: false,
                    start: crate::selection::SelectionPoint { row: 0, col: 0 },
                    end: crate::selection::SelectionPoint { row: 0, col: 0 },
                    ..old(self).rest().selection
                },
                title: Seq::empty(),
                icon_name: Seq::empty(),
                links: Seq::empty(),
                saved_primary: None,
                saved_alternate: None,
                charsets: seq![Charset::Ascii, Charset::Ascii, Charset::Ascii, Charset::Ascii],
                active_charset: 0,
                max_history: old(self).rest().max_history,
            }),
    {
        self.primary.reset();
        self.alternate.reset();
        self.mode = TermMode::default();
        self.scrollback.clear();
        self.selection.clear();
        self.title = String::new();
        self.icon_name = String::new();
        self.hyperlinks = Vec::new();
        self.next_hyperlink_id = 1;
        self.saved_cursor_primary = None;
        self.saved_cursor_alternate = None;
        self.charsets = [Charset::Ascii, Charset::Ascii, Charset::Ascii, Charset::Ascii];
        self.active_charset = 0;
        proof {
            assert(self.rest().links =~= Seq::<HyperlinkView>::empty());
            assert(self.charsets@ =~= seq![Charset::Ascii, Charset::Ascii, Charset::Ascii, Charset::Ascii]);
        }
    }

    /// Switch to the alternate screen, which starts blank.
    pub fn enter_alt_screen(&mut self)
        requires
            old(self).wf(),
        ensures
            final(self).wf(),
            final(self).rest().mode.alt_screen,
            final(self).history() == old(self).history(),
            old(self).rest().mode.alt_screen ==> final(self).screen_view() == old(self).screen_view() && final(self).rest()
                == old(self).rest(),
            !old(self).rest().mode.alt_screen ==> final(self).screen_view() == sv_new(
                old(self).screen_view().rows,
                old(self).screen_view().cols,
            ) && final(self).rest() == (TermRest {
                other: old(self).screen_view(),
                mode: TermMode { alt_screen: true, ..old(self).rest().mode },
                ..old(self).rest()
            }),
            (final(self).screen_view(), final(self).rest()) == alt_entered(old(self).screen_view(), old(self).rest()),
    {
        if !self.mode.alt_screen {
            self.mode = TermMode { alt_screen: true, ..self.mode };
            self.alternate.reset();
        }
    }

    /// Switch back to the primary screen.
    pub fn leave_alt_screen(&mut self)
        requires
            old(self).wf(),
        ensures
            final(self).wf(),
            !final(self).rest().mode.alt_screen,
            final(self).history() == old(self).history(),
            !old(self).rest().mode.alt_screen ==> final(self).screen_view() == old(self).screen_view() && final(self).rest()
                == old(self).rest(),
            old(self).rest().mode.alt_screen ==> final(self).screen_view() == old(self).rest().other && final(self).rest()
                == (TermRest {
                other: old(self).screen_view(),
                mode: TermMode { alt_screen: false, ..old(self).rest().mode },
                ..old(self).rest()
            }),
            (final(self).screen_view(), final(self).rest()) == alt_left(old(self).screen_view(), old(self).rest()),
    {
        if self.mode.alt_screen {
            self.mode = TermMode { alt_screen: false, ..self.mode };
        }
    }

    /// Save the cursor of the active screen (DECSC or CSI s).
    pub fn save_cursor(&mut self)
        requires
            old(self).wf(),
        ensures
            final(self).wf(),
            final(self).screen_view() == old(self).screen_view(),
            final(self).history() == old(self).history(),
            final(self).rest() == (if old(self).rest().mode.alt_screen {
                TermRest { saved_alternate: Some(saved_of(old(self).screen_view())), ..old(self).rest() }
            } else {
                TermRest { saved_primary: Some(saved_of(old(self).screen_view())), ..old(self).rest() }
            }),
    {
        let screen = self.screen();
        let saved = SavedCursor::save(&screen.cursor, screen.mode.auto_wrap);
        if self.mode.alt_screen {
            self.saved_cursor_alternate = Some(saved);
        } else {
            self.saved_cursor_primary = Some(saved);
        }
    }

    /// Restore the cursor saved on the active screen (DECRC or CSI u),
    /// clamped to the screen; nothing happens when none was saved.
    pub fn restore_cursor(&mut self)
        requires
            old(self).wf(),
        ensures
            final(self).wf(),
            final(self).rest() == old(self).rest(),
            final(self).history() == old(self).history(),
            final(self).screen_view() == (match (if old(self).rest().mode.alt_screen {
                old(self).rest().saved_alternate
            } else {
                old(self).rest().saved_primary
            }) {
                Some(s) => sv_restore_from(old(self).screen_view(), s),
                None => old(self).screen_view(),
            }),
    {
        if self.mode.alt_screen {
            if let Some(saved) = self.saved_cursor_alternate {
                self.alternate.restore_from(saved);
            }
        } else {
            if let Some(saved) = self.saved_cursor_primary {
                self.primary.restore_from(saved);
            }
        }
    }

    /// Write a character through the active character set. A line that
    /// scrolls off the primary screen goes to the scrollback.
    pub fn write_char(&mut self, c: char)
        requires
            old(self).wf(),
            old(self).nonempty(),
        ensures
            final(self).wf(),
            final(self).screen_view() == sv_write(
                old(self).screen_view(),
                seq![translated(old(self).active_set(), c)],
                display_width(seq![translated(old(self).active_set(), c)]) as int,
            ).0,
            final(self).rest() == old(self).rest(),
            final(self).history() == fed(
                old(self).history(),
                old(self).rest().max_history,
                old(self).rest().mode.alt_screen,
                sv_write(
                    old(self).screen_view(),
                    seq![translated(old(self).active_set(), c)],
                    display_width(seq![translated(old(self).active_set(), c)]) as int,
                ).1,
            ),
    {
        let t = self.translate_char(c);
        if self.mode.alt_screen {
            let _ = self.alternate.write_char(t);
        } else {
            let out = self.primary.write_char(t);
            if let Some(line) = out {
                self.scrollback.push(line);
            }
        }
    }

    /// `c` translated through the active character set.
    fn translate_char(&self, c: char) -> (res: char)
        requires
            self.wf(),
        ensures
            res == translated(self.active_set(), c),
    {
        let cs = self.charsets[self.active_charset];
        match cs {
            Charset::Ascii => c,
            Charset::DecSpecialGraphics => dec_special_graphics_char(c),
            Charset::Uk => if c == '#' {
                '\u{a3}'
            } else {
                c
            },
        }
    }

    /// Designate `charset` as G`index` (for `index` below 4).
    pub fn set_charset(&mut self, index: usize, charset: Charset)
        requires
            old(self).wf(),
        ensures
            final(self).wf(),
            final(self).screen_view() == old(self).screen_view(),
            final(self).history() == old(self).history(),
            final(self).rest() == (TermRest {
                charsets: if index < 4 {
                    old(self).rest().charsets.update(index as int, charset)
                } else {
                    old(self).rest().charsets
                },
                ..old(self).rest()
            }),
    {
        if index < 4 {
            self.charsets.set(index, charset);
        }
    }

    /// Make G`index` the active character set (for `index` below 4).
    pub fn set_active_charset(&mut self, index: usize)
        requires
            old(self).wf(),
        ensures
            final(self).wf(),
            final(self).screen_view() == old(self).screen_view(),
            final(self).history() == old(self).history(),
            final(self).rest() == (TermRest {
                active_charset: if index < 4 { index as int } else { old(self).rest().active_charset },
                ..old(self).rest()
            }),
    {
        if index < 4 {
            self.active_charset = index;
        }
    }

    /// Process a line feed. A line that scrolls off the primary screen goes
    /// to the scrollback.
    pub fn linefeed(&mut self)
        requires
            old(self).wf(),
        ensures
            final(self).wf(),
            final(self).screen_view() == sv_linefeed(old(self).screen_view()).0,
            final(self).rest() == old(self).rest(),
            final(self).history() == fed(
                old(self).history(),
                old(self).rest().max_history,
                old(self).rest().mode.alt_screen,
                sv_linefeed(old(self).screen_view()).1,
            ),
    {
        if self.mode.alt_screen {
            let _ = self.alternate.linefeed();
        } else {
            let out = self.primary.linefeed();
            if let Some(line) = out {
                self.scrollback.push(line);
            }
        }
    }

    /// Process a bell: it is the front end's business, the state does not
    /// change.
    pub fn bell(&mut self)
        requires
            old(self).wf(),
        ensures
            final(self).wf(),
            final(self).screen_view() == old(self).screen_view(),
            final(self).rest() == old(self).rest(),
            final(self).history() == old(self).history(),
    {
    }

    /// Index: the same as a line feed.
    pub fn index(&mut self)
        requires
            old(self).wf(),
        ensures
            final(self).wf(),
            final(self).screen_view() == sv_linefeed(old(self).screen_view()).0,
            final(self).rest() == old(self).rest(),
            final(self).history() == fed(
                old(self).history(),
                old(self).rest().max_history,
                old(self).rest().mode.alt_screen,
                sv_linefeed(old(self).screen_view()).1,
            ),
    {
        self.linefeed();
    }

    /// Next line: carriage return, then line feed.
    pub fn next_line(&mut self)
        requires
            old(self).wf(),
        ensures
            final(self).wf(),
            final(self).screen_view() == sv_linefeed(sv_carriage_return(old(self).screen_view())).0,
            final(self).rest() == old(self).rest(),
            final(self).history() == fed(
                old(self).history(),
                old(self).rest().max_history,
                old(self).rest().mode.alt_screen,
                sv_linefeed(sv_carriage_return(old(self).screen_view())).1,
            ),
    {
        self.carriage_return();
        self.linefeed();
    }

    /// Scroll the region up by `n` lines; on the primary screen the lines
    /// that leave go to the scrollback.
    pub fn scroll_up(&mut self, n: usize)
        requires
            old(self).wf(),
        ensures
            final(self).wf(),
            final(self).screen_view() == sv_scroll_up(old(self).screen_view(), n as int).0,
            final(self).rest() == old(self).rest(),
            final(self).history() == (if old(self).rest().mode.alt_screen {
                old(self).history()
            } else {
                pushed_all(old(self).history(), old(self).rest().max_history, sv_scroll_up(old(self).screen_view(), n as int).1)
            }),
    {
        if self.mode.alt_screen {
            let _ = self.alternate.scroll_up(n);
        } else {
            let lines = self.primary.scroll_up(n);
            self.scrollback.push_lines(lines);
        }
    }

    /// Show or hide the cursor.
    pub fn set_cursor_visible(&mut self, visible: bool)
        requires
            old(self).wf(),
        ensures
            final(self).wf(),
            final(self).screen_view() == with_mode(
                with_cursor(old(self).screen_view(), Cursor { visible, ..old(self).screen_view().cursor }),
                ScreenMode { cursor_visible: visible, ..old(self).screen_view().mode },
            ),
            final(self).rest() == old(self).rest(),
            final(self).history() == old(self).history(),
    {
        let c = Cursor { visible, ..self.cursor() };
        self.put_cursor(c);
        let m = ScreenMode { cursor_visible: visible, ..self.screen().mode };
        self.put_mode(m);
    }

    /// Set origin mode; the cursor goes home (the top of the scroll region
    /// when enabled).
    pub fn set_origin_mode(&mut self, enabled: bool)
        requires
            old(self).wf(),
        ensures
            final(self).wf(),
            final(self).screen_view() == with_cursor(
                with_mode(old(self).screen_view(), ScreenMode { origin_mode: enabled, ..old(self).screen_view().mode }),
                Cursor {
                    origin_mode: enabled,
                    row: (if enabled { old(self).screen_view().scroll_top } else { 0 }) as usize,
                    col: 0,
                    ..old(self).screen_view().cursor
                },
            ),
            final(self).rest() == old(self).rest(),
            final(self).history() == old(self).history(),
    {
        let m = ScreenMode { origin_mode: enabled, ..self.screen().mode };
        self.put_mode(m);
        let top = self.screen().scroll_top;
        let c = self.cursor();
        let c = Cursor {
            origin_mode: enabled,
            row: if enabled {
                top
            } else {
                0
            },
            col: 0,
            ..c
        };
        self.put_cursor(c);
    }

    /// Show `c` in every cell of the active screen (the screen alignment
    /// test fills it with `E`).
    pub fn fill_with(&mut self, c: char)
        requires
            old(self).wf(),
        ensures
            final(self).wf(),
            final(self).screen_view() == sv_filled(old(self).screen_view(), c),
            final(self).rest() == old(self).rest(),
            final(self).history() == old(self).history(),
    {
        if self.mode.alt_screen {
            self.alternate.fill_with(c);
        } else {
            self.primary.fill_with(c);
        }
    }

    /// Set application cursor keys mode.
    pub fn set_app_cursor(&mut self, enabled: bool)
        requires
            old(self).wf(),
        ensures
            final(self).wf(),
            final(self).screen_view() == old(self).screen_view(),
            final(self).history() == old(self).history(),
            final(self).rest() == (TermRest {
                mode: TermMode { app_cursor: enabled, ..old(self).rest().mode },
                ..old(self).rest()
            }),
    {
        self.mode = TermMode { app_cursor: enabled, ..self.mode };
    }

    /// Set application keypad mode.
    pub fn set_app_keypad(&mut self, enabled: bool)
        requires
            old(self).wf(),
        ensures
            final(self).wf(),
            final(self).screen_view() == old(self).screen_view(),
            final(self).history() == old(self).history(),
            final(self).rest() == (TermRest {
                mode: TermMode { app_keypad: enabled, ..old(self).rest().mode },
                ..old(self).rest()
            }),
    {
        self.mode = TermMode { app_keypad: enabled, ..self.mode };
    }

    /// Set or clear the tab stop at the cursor column.
    fn put_tab_stop(&mut self, on: bool)
        requires
            old(self).wf(),
            old(self).nonempty(),
        ensures
            final(self).wf(),
            final(self).screen_view() == (ScreenView {
                tabs: old(self).screen_view().tabs.update(old(self).screen_view().cursor.col as int, on),
                ..old(self).screen_view()
            }),
            final(self).rest() == old(self).rest(),
            final(self).history() == old(self).history(),
    {
        let col = self.cursor().col;
        proof {
            self.lemma_wf_screens();
        }
        if self.mode.alt_screen {
            self.alternate.set_tab_stop(col, on);
        } else {
            self.primary.set_tab_stop(col, on);
        }
    }

    /// Set a tab stop at the cursor column.
    pub fn set_tab_stop(&mut self)
        requires
            old(self).wf(),
            old(self).nonempty(),
        ensures
            final(self).wf(),
            final(self).screen_view() == (ScreenView {
                tabs: old(self).screen_view().tabs.update(old(self).screen_view().cursor.col as int, true),
                ..old(self).screen_view()
            }),
            final(self).rest() == old(self).rest(),
            final(self).history() == old(self).history(),
    {
        self.put_tab_stop(true);
    }

    /// Clear the tab stop at the cursor column.
    pub fn clear_tab_stop(&mut self)
        requires
            old(self).wf(),
            old(self).nonempty(),
        ensures
            final(self).wf(),
            final(self).screen_view() == (ScreenView {
                tabs: old(self).screen_view().tabs.update(old(self).screen_view().cursor.col as int, false),
                ..old(self).screen_view()
            }),
            final(self).rest() == old(self).rest(),
            final(self).history() == old(self).history(),
    {
        self.put_tab_stop(false);
    }

    /// Clear all tab stops.
    pub fn clear_all_tab_stops(&mut self)
        requires
            old(self).wf(),
        ensures
            final(self).wf(),
            final(self).screen_view() == (ScreenView {
                tabs: Seq::new(old(self).screen_view().tabs.len(), |i: int| false),
                ..old(self).screen_view()
            }),
            final(self).rest() == old(self).rest(),
            final(self).history() == old(self).history(),
    {
        if self.mode.alt_screen {
            self.alternate.clear_all_tab_stops();
        } else {
            self.primary.clear_all_tab_stops();
        }
    }

    /// Set the window title.
    pub fn set_title(&mut self, title: String)
        requires
            old(self).wf(),
        ensures
            final(self).wf(),
            final(self).screen_view() == old(self).screen_view(),
            final(self).history() == old(self).history(),
            final(self).rest() == (TermRest { title: title@, ..old(self).rest() }),
    {
        self.title = title;
    }

    /// Set the icon name.
    pub fn set_icon_name(&mut self, name: String)
        requires
            old(self).wf(),
        ensures
            final(self).wf(),
            final(self).screen_view() == old(self).screen_view(),
            final(self).history() == old(self).history(),
            final(self).rest() == (TermRest { icon_name: name@, ..old(self).rest() }),
    {
        self.icon_name = name;
    }

    /// The id the next registered hyperlink gets.
    pub fn next_hyperlink_id(&self) -> (res: u32)
        ensures
            res == self.spec_next_hyperlink_id(),
    {
        self.next_hyperlink_id
    }

    /// Register a hyperlink and return its id.
    pub fn register_hyperlink(&mut self, uri: String, params: String) -> (res: u32)
        requires
            old(self).wf(),
            old(self).spec_next_hyperlink_id() < u32::MAX,
        ensures
            final(self).wf(),
            res == old(self).spec_next_hyperlink_id(),
            final(self).spec_next_hyperlink_id() == res + 1,
            final(self).screen_view() == old(self).screen_view(),
            final(self).history() == old(self).history(),
            final(self).rest() == (TermRest {
                links: old(self).rest().links.push(HyperlinkView { id: res, uri: uri@, params: params@ }),
                ..old(self).rest()
            }),
    {
        let id = self.next_hyperlink_id;
        self.next_hyperlink_id = id + 1;
        self.hyperlinks.push(Hyperlink { id, uri, params });
        proof {
            assert(self.rest().links =~= old(self).rest().links.push(
                HyperlinkView { id, uri: self.hyperlinks@.last().uri@, params: self.hyperlinks@.last().params@ },
            ));
        }
        id
    }

    /// The hyperlink with id `id`, if one was registered.
    pub fn get_hyperlink(&self, id: u32) -> (res: Option<&Hyperlink>)
        requires
            self.wf(),
        ensures
            res is Some <==> exists|i: int| 0 <= i < self.rest().links.len() && #[trigger] self.rest().links[i].id == id,
            res is Some ==> res.unwrap()@ == self.rest().links[id - 1] && res.unwrap().id == id,
    {
        if id >= 1 && (id as usize) <= self.hyperlinks.len() {
            let h = &self.hyperlinks[(id - 1) as usize];
            assert(self.rest().links[id - 1].id == id);
            Some(h)
        } else {
            assert forall|i: int| 0 <= i < self.rest().links.len() implies #[trigger] self.rest().links[i].id != id by {
                assert(self.hyperlinks@[i].id == i + 1);
            }
            None
        }
    }

    /// A snapshot of the active screen.
    pub fn snapshot(&self) -> (res: Snapshot)
        requires
            self.wf(),
        ensures
            res.rows == self.screen_view().rows,
            res.cols == self.screen_view().cols,
            res.cursor_row == self.screen_view().cursor.row,
            res.cursor_col == self.screen_view().cursor.col,
            res.cursor_visible == self.screen_view().mode.cursor_visible,
            res.using_alternate == self.rest().mode.alt_screen,
            res.title@ == self.rest().title,
            res.lines@.len() == self.screen_view().rows,
            forall|r: int|
                0 <= r < self.screen_view().rows ==> crate::snapshot::records_line(
                    #[trigger] res.lines@[r],
                    self.screen_view().lines[r],
                ),
    {
        Snapshot::from_screen(self.screen(), self.mode.alt_screen, self.title.clone())
    }

    /// The active screen's mode flags.
    pub fn screen_mode(&self) -> (res: &ScreenMode)
        ensures
            *res == self.screen_view().mode,
    {
        &self.screen().mode
    }

    /// Whether bracketed paste is enabled.
    pub fn bracketed_paste_enabled(&self) -> (res: bool)
        ensures
            res == self.screen_view().mode.bracketed_paste,
    {
        self.screen().mode.bracketed_paste
    }

    /// The mouse tracking mode.
    pub fn mouse_mode(&self) -> (res: MouseMode)
        ensures
            res == self.screen_view().mode.mouse_mode,
    {
        self.screen().mode.mouse_mode
    }

    /// The mouse encoding.
    pub fn mouse_encoding(&self) -> (res: MouseEncoding)
        ensures
            res == self.screen_view().mode.mouse_encoding,
    {
        self.screen().mode.mouse_encoding
    }
}

/// The DEC Special Graphics glyph for `c`.
fn dec_special_graphics_char(c: char) -> (res: char)
    ensures
        res == dec_special_graphics(c),
{
    if c == 'j' {
        '\u{2518}'
    } else if c == 'k' {
        '\u{2510}'
    } else if c == 'l' {
        '\u{250c}'
    } else if c == 'm' {
        '\u{2514}'
    } else if c == 'n' {
        '\u{253c}'
    } else if c == 'q' {
        '\u{2500}'
    } else if c == 't' {
        '\u{251c}'
    } else if c == 'u' {
        '\u{2524}'
    } else if c == 'v' {
        '\u{2534}'
    } else if c == 'w' {
        '\u{252c}'
    } else if c == 'x' {
        '\u{2502}'
    } else if c == 'a' {
        '\u{2592}'
    } else if c == '`' {
        '\u{25c6}'
    } else if c == 'f' {
        '\u{b0}'
    } else if c == 'g' {
        '\u{b1}'
    } else if c == 'o' {
        '\u{23ba}'
    } else if c == 'p' {
        '\u{23bb}'
    } else if c == 'r' {
        '\u{23bc}'
    } else if c == 's' {
        '\u{23bd}'
    } else if c == '~' {
        '\u{b7}'
    } else {
        c
    }
}

/// Restoring what DECSC saved on a screen of the same size gives back the
/// cursor position, attributes and origin mode, whatever happened between.
pub proof fn lemma_save_restore(v: ScreenView, w: ScreenView)
    requires
        sv_wf(v),
        w.rows == v.rows,
        w.cols == v.cols,
    ensures
        sv_restore_from(w, saved_of(v)).cursor.row == v.cursor.row,
        sv_restore_from(w, saved_of(v)).cursor.col == v.cursor.col,
        sv_restore_from(w, saved_of(v)).cursor.attrs == v.cursor.attrs,
        sv_restore_from(w, saved_of(v)).cursor.origin_mode == v.cursor.origin_mode,
        sv_restore_from(w, saved_of(v)).lines == w.lines,
{
}

/// Hyperlink ids are `1, 2, ...` in registration order, so the id that
/// `register_hyperlink` returns finds that link again.
pub proof fn lemma_hyperlink_ids(t: &Term)
    requires
        t.wf(),
    ensures
        t.spec_next_hyperlink_id() == t.rest().links.len() + 1,
        forall|i: int| 0 <= i < t.rest().links.len() ==> #[trigger] t.rest().links[i].id == i + 1,
{
}

/// A line feed on the primary screen never lets the scrollback grow past
/// its limit, and on the alternate screen it leaves the scrollback alone.
pub proof fn lemma_history_bounded(history: Seq<LineModel>, max: nat, alt: bool, out: Option<LineModel>)
    requires
        history.len() <= capacity(max),
    ensures
        fed(history, max, alt, out).len() <= capacity(max),
        alt ==> fed(history, max, alt, out) == history,
{
    if let Some(l) = out {
        crate::scrollback::lemma_push_bounded(history, max, l);
    }
}

/// Leaving the alternate screen shows the primary screen exactly as it was
/// when the alternate screen was entered, whatever the alternate screen
/// shows by then, as long as the rest of the terminal was left alone (as
/// every drawing operation does).
pub proof fn lemma_alt_screen_round_trip(v: ScreenView, r: TermRest, w: ScreenView)
    requires
        !r.mode.alt_screen,
    ensures
        alt_left(w, alt_entered(v, r).1).0 == v,
        alt_left(w, alt_entered(v, r).1).1 == (TermRest { other: w, ..r }),
{
}

} // verus!
