//! Applies parsed actions to a terminal.
//!
//! The performer is the bridge between the parser and the terminal: each
//! action becomes the terminal operations it stands for (printing, control
//! characters, CSI, ESC and OSC sequences).

use vstd::prelude::*;
use vstd::string::*;

use crate::action::{Action, ActionView};
use crate::cell::{display_width, CellAttributes, CellFlags};
use crate::color::{Color, Rgb};
use crate::cursor::{last_index, min_int, Cursor, CursorStyle};
use crate::line::LineModel;
use crate::params::{ParamView, Params};
use crate::screen::{
    sv_backspace, sv_carriage_return, sv_delete_chars, sv_delete_lines, sv_erase_above, sv_erase_below,
    sv_erase_chars, sv_erase_line, sv_erase_screen, sv_erase_to_bol, sv_erase_to_eol, sv_filled, sv_goto,
    sv_insert_chars, sv_insert_lines, sv_linefeed, sv_new, sv_restore_from, sv_reverse_index, sv_scroll_down,
    sv_scroll_up, sv_set_scroll_region, sv_tab, sv_backtab, sv_write, with_cursor, MouseEncoding, MouseMode,
    ScreenMode, ScreenView,
};
use crate::scrollback::pushed_all;
use crate::selection::{Selection, SelectionPoint};
use crate::term::{fed, saved_of, translated, with_flag, with_mode, Term, TermMode, TermRest, TermView};

verus! {

// ---------------------------------------------------------------------
// What each terminal operation does to the abstract terminal.
// ---------------------------------------------------------------------

pub open spec fn on_screen(t: TermView, s: ScreenView) -> TermView {
    TermView { screen: s, ..t }
}

pub open spec fn t_cursor(t: TermView, c: Cursor) -> TermView {
    on_screen(t, with_cursor(t.screen, c))
}

pub open spec fn t_mode(t: TermView, m: ScreenMode) -> TermView {
    on_screen(t, with_mode(t.screen, m))
}

/// An operation that may scroll a line off the active screen.
pub open spec fn t_fed(t: TermView, r: (ScreenView, Option<LineModel>)) -> TermView {
    TermView { screen: r.0, history: fed(t.history, t.rest.max_history, t.rest.mode.alt_screen, r.1), ..t }
}

pub open spec fn t_linefeed(t: TermView) -> TermView {
    t_fed(t, sv_linefeed(t.screen))
}

/// The character `c` printed through the active character set.
pub open spec fn t_write(t: TermView, c: char) -> TermView {
    let ch = translated(t.rest.charsets[t.rest.active_charset], c);
    t_fed(t, sv_write(t.screen, seq![ch], display_width(seq![ch]) as int))
}

pub open spec fn t_scroll_up(t: TermView, n: int) -> TermView {
    let r = sv_scroll_up(t.screen, n);
    TermView {
        screen: r.0,
        history: if t.rest.mode.alt_screen {
            t.history
        } else {
            pushed_all(t.history, t.rest.max_history, r.1)
        },
        ..t
    }
}

pub open spec fn t_save(t: TermView) -> TermView {
    TermView {
        rest: if t.rest.mode.alt_screen {
            TermRest { saved_alternate: Some(saved_of(t.screen)), ..t.rest }
        } else {
            TermRest { saved_primary: Some(saved_of(t.screen)), ..t.rest }
        },
        ..t
    }
}

pub open spec fn t_restore(t: TermView) -> TermView {
    on_screen(
        t,
        match (if t.rest.mode.alt_screen {
            t.rest.saved_alternate
        } else {
            t.rest.saved_primary
        }) {
            Some(s) => sv_restore_from(t.screen, s),
            None => t.screen,
        },
    )
}

pub open spec fn t_enter_alt(t: TermView) -> TermView {
    if t.rest.mode.alt_screen {
        t
    } else {
        TermView {
            screen: sv_new(t.screen.rows, t.screen.cols),
            rest: TermRest { other: t.screen, mode: TermMode { alt_screen: true, ..t.rest.mode }, ..t.rest },
            ..t
        }
    }
}

pub open spec fn t_leave_alt(t: TermView) -> TermView {
    if !t.rest.mode.alt_screen {
        t
    } else {
        TermView {
            screen: t.rest.other,
            rest: TermRest { other: t.screen, mode: TermMode { alt_screen: false, ..t.rest.mode }, ..t.rest },
            ..t
        }
    }
}

pub open spec fn t_reset(t: TermView) -> TermView {
    TermView {
        screen: sv_new(t.screen.rows, t.screen.cols),
        history: Seq::empty(),
        rest: TermRest {
            other: sv_new(t.screen.rows, t.screen.cols),
            mode: TermMode::spec_default(),
            selection: Selection {
                active: false,
                start: SelectionPoint { row: 0, col: 0 },
                end: SelectionPoint { row: 0, col: 0 },
                ..t.rest.selection
            },
            title: Seq::empty(),
            icon_name: Seq::empty(),
            links: Seq::empty(),
            saved_primary: None,
            saved_alternate: None,
            charsets: seq![
                crate::term::Charset::Ascii,
                crate::term::Charset::Ascii,
                crate::term::Charset::Ascii,
                crate::term::Charset::Ascii,
            ],
            active_charset: 0,
            max_history: t.rest.max_history,
        },
    }
}

pub open spec fn t_attrs(t: TermView, a: CellAttributes) -> TermView {
    t_cursor(t, Cursor { attrs: a, ..t.screen.cursor })
}

pub open spec fn t_flag(t: TermView, flag: u16, on: bool) -> TermView {
    t_cursor(t, with_flag(t.screen.cursor, flag, on))
}

pub open spec fn t_fg(t: TermView, c: Color) -> TermView {
    t_attrs(t, CellAttributes { fg: c, ..t.screen.cursor.attrs })
}

pub open spec fn t_bg(t: TermView, c: Color) -> TermView {
    t_attrs(t, CellAttributes { bg: c, ..t.screen.cursor.attrs })
}

pub open spec fn t_visible(t: TermView, v: bool) -> TermView {
    on_screen(
        t,
        with_mode(
            with_cursor(t.screen, Cursor { visible: v, ..t.screen.cursor }),
            ScreenMode { cursor_visible: v, ..t.screen.mode },
        ),
    )
}

pub open spec fn t_origin(t: TermView, e: bool) -> TermView {
    on_screen(
        t,
        with_cursor(
            with_mode(t.screen, ScreenMode { origin_mode: e, ..t.screen.mode }),
            Cursor {
                origin_mode: e,
                row: (if e { t.screen.scroll_top } else { 0 }) as usize,
                col: 0,
                ..t.screen.cursor
            },
        ),
    )
}

pub open spec fn t_tab_stop(t: TermView, on: bool) -> TermView {
    on_screen(t, ScreenView { tabs: t.screen.tabs.update(t.screen.cursor.col as int, on), ..t.screen })
}

pub open spec fn t_clear_all_tabs(t: TermView) -> TermView {
    on_screen(t, ScreenView { tabs: Seq::new(t.screen.tabs.len(), |i: int| false), ..t.screen })
}

pub open spec fn moved_up(c: Cursor, n: int) -> Cursor {
    Cursor { row: (if c.row >= n { c.row - n } else { 0 }) as usize, ..c }
}

pub open spec fn moved_down(c: Cursor, n: int, rows: nat) -> Cursor {
    Cursor { row: min_int(c.row + n, last_index(rows as int)) as usize, ..c }
}

pub open spec fn moved_left(c: Cursor, n: int) -> Cursor {
    Cursor { col: (if c.col >= n { c.col - n } else { 0 }) as usize, ..c }
}

pub open spec fn moved_right(c: Cursor, n: int, cols: nat) -> Cursor {
    Cursor { col: min_int(c.col + n, last_index(cols as int)) as usize, ..c }
}

pub open spec fn to_col(c: Cursor, col: int, cols: nat) -> Cursor {
    Cursor { col: min_int(col, last_index(cols as int)) as usize, ..c }
}

pub open spec fn to_row(c: Cursor, row: int, rows: nat) -> Cursor {
    Cursor { row: min_int(row, last_index(rows as int)) as usize, ..c }
}

// ---------------------------------------------------------------------
// What each action does.
// ---------------------------------------------------------------------

/// The abstract state of a performer: the hyperlink being written, the
/// id the next one gets, and the last character printed (which REP
/// repeats).
pub struct PerformerView {
    pub current_hyperlink_id: Option<u32>,
    pub next_hyperlink_id: u32,
    pub last_printed: Option<char>,
}

/// The value of parameter `i`, or `d`.
pub open spec fn pget(p: Seq<ParamView>, i: int, d: u16) -> u16 {
    if 0 <= i < p.len() {
        p[i].value
    } else {
        d
    }
}

/// The value of parameter `i`, or `d` when it is missing or 0.
pub open spec fn pnz(p: Seq<ParamView>, i: int, d: u16) -> u16 {
    if 0 <= i < p.len() && p[i].value != 0 {
        p[i].value
    } else {
        d
    }
}

/// A C0 control character.
#[verifier::opaque]
pub open spec fn executed(t: TermView, b: u8) -> TermView {
    if b == 0x08 {
        on_screen(t, sv_backspace(t.screen))
    } else if b == 0x09 {
        on_screen(t, sv_tab(t.screen))
    } else if b == 0x0A || b == 0x0B || b == 0x0C {
        t_linefeed(t)
    } else if b == 0x0D {
        on_screen(t, sv_carriage_return(t.screen))
    } else {
        t
    }
}

/// DECSCUSR: the cursor style and blinking for parameter `s`.
#[verifier::opaque]
pub open spec fn styled(t: TermView, s: u16) -> TermView {
    let (st, blink) = if s <= 1 {
        (CursorStyle::Block, true)
    } else if s == 2 {
        (CursorStyle::Block, false)
    } else if s == 3 {
        (CursorStyle::Underline, true)
    } else if s == 4 {
        (CursorStyle::Underline, false)
    } else if s == 5 {
        (CursorStyle::Bar, true)
    } else {
        (CursorStyle::Bar, false)
    };
    if s <= 6 {
        let t1 = t_cursor(t, Cursor { style: st, ..t.screen.cursor });
        t_cursor(t1, Cursor { blinking: blink, ..t1.screen.cursor })
    } else {
        t
    }
}

/// The DEC private modes that switch screens or save the cursor: 47 and
/// 1047 (alternate screen), 1048 (save / restore cursor), 1049 (both, and
/// the alternate screen starts erased).
pub open spec fn is_screen_switch(m: u16) -> bool {
    m == 47 || m == 1047 || m == 1048 || m == 1049
}

#[verifier::opaque]
pub open spec fn screen_switch(t: TermView, m: u16, e: bool) -> TermView {
    if m == 47 || m == 1047 {
        if e {
            t_enter_alt(t)
        } else {
            t_leave_alt(t)
        }
    } else if m == 1048 {
        if e {
            t_save(t)
        } else {
            t_restore(t)
        }
    } else {
        if e {
            let t1 = t_enter_alt(t_save(t));
            on_screen(t1, sv_erase_screen(t1.screen))
        } else {
            t_restore(t_leave_alt(t))
        }
    }
}

/// The other DEC private modes: origin (6), auto-wrap (7), cursor blinking
/// (12) and visibility (25), mouse tracking (1000, 1002, 1003), focus
/// reporting (1004), mouse encodings (1005, 1006, 1015) and bracketed paste
/// (2004); unknown modes do nothing.
#[verifier::opaque]
pub open spec fn screen_setting(t: TermView, m: u16, e: bool) -> TermView {
    if m == 6 {
        t_origin(t, e)
    } else if m == 7 {
        t_mode(t, ScreenMode { auto_wrap: e, ..t.screen.mode })
    } else if m == 12 {
        t_cursor(t, Cursor { blinking: e, ..t.screen.cursor })
    } else if m == 25 {
        t_visible(t, e)
    } else if m == 1000 {
        t_mode(t, ScreenMode { mouse_mode: if e { MouseMode::VT200 } else { MouseMode::Off }, ..t.screen.mode })
    } else if m == 1002 {
        t_mode(t, ScreenMode { mouse_mode: if e { MouseMode::ButtonEvent } else { MouseMode::Off }, ..t.screen.mode })
    } else if m == 1003 {
        t_mode(t, ScreenMode { mouse_mode: if e { MouseMode::AnyEvent } else { MouseMode::Off }, ..t.screen.mode })
    } else if m == 1004 {
        t_mode(t, ScreenMode { focus_reporting: e, ..t.screen.mode })
    } else if m == 1005 {
        t_mode(t, ScreenMode { mouse_encoding: if e { MouseEncoding::Utf8 } else { MouseEncoding::X10 }, ..t.screen.mode })
    } else if m == 1006 {
        t_mode(t, ScreenMode { mouse_encoding: if e { MouseEncoding::Sgr } else { MouseEncoding::X10 }, ..t.screen.mode })
    } else if m == 1015 {
        t_mode(t, ScreenMode { mouse_encoding: if e { MouseEncoding::Urxvt } else { MouseEncoding::X10 }, ..t.screen.mode })
    } else if m == 2004 {
        t_mode(t, ScreenMode { bracketed_paste: e, ..t.screen.mode })
    } else {
        t
    }
}

/// A DEC private mode (CSI ? Pm h / l) set (`e`) or reset.
pub open spec fn private_mode(t: TermView, m: u16, e: bool) -> TermView {
    if is_screen_switch(m) {
        screen_switch(t, m, e)
    } else {
        screen_setting(t, m, e)
    }
}

/// The private modes of parameters `i..` applied in order.
pub open spec fn private_modes(t: TermView, p: Seq<ParamView>, i: int, e: bool) -> TermView
    decreases p.len() - i,
{
    if i >= p.len() || i < 0 {
        t
    } else {
        private_modes(private_mode(t, p[i].value, e), p, i + 1, e)
    }
}

/// An ANSI mode (CSI Pm h / l): insert (4) and line feed/new line (20).
#[verifier::opaque]
pub open spec fn ansi_mode(t: TermView, m: u16, e: bool) -> TermView {
    if m == 4 {
        t_mode(t, ScreenMode { insert_mode: e, ..t.screen.mode })
    } else if m == 20 {
        t_mode(t, ScreenMode { linefeed_mode: e, ..t.screen.mode })
    } else {
        t
    }
}

pub open spec fn ansi_modes(t: TermView, p: Seq<ParamView>, i: int, e: bool) -> TermView
    decreases p.len() - i,
{
    if i >= p.len() || i < 0 {
        t
    } else {
        ansi_modes(ansi_mode(t, p[i].value, e), p, i + 1, e)
    }
}

/// An extended color (SGR 38 / 48) starting at parameter `i`: the color
/// and how many more parameters it takes (`5;n` or `2;r;g;b`).
#[verifier::opaque]
pub open spec fn extended_color(p: Seq<ParamView>, i: int) -> Option<(Color, int)> {
    if 0 <= i && i + 1 < p.len() {
        let kind = p[i + 1].value;
        if kind == 2 {
            if i + 4 < p.len() {
                Some(
                    (
                        Color::Rgb(
                            Rgb {
                                r: (p[i + 2].value % 256) as u8,
                                g: (p[i + 3].value % 256) as u8,
                                b: (p[i + 4].value % 256) as u8,
                            },
                        ),
                        4,
                    ),
                )
            } else {
                None
            }
        } else if kind == 5 {
            if i + 2 < p.len() {
                Some((Color::Indexed((p[i + 2].value % 256) as u8), 2))
            } else {
                None
            }
        } else {
            None
        }
    } else {
        None
    }
}

/// One SGR parameter (the one at `i`): the new terminal and how many more
/// parameters it used.
#[verifier::opaque]
pub open spec fn sgr_one(t: TermView, p: Seq<ParamView>, i: int) -> (TermView, int) {
    let v = p[i].value;
    if v == 0 {
        (t_attrs(t, CellAttributes::spec_default()), 0)
    } else if v == 1 {
        (t_flag(t, CellFlags::BOLD, true), 0)
    } else if v == 2 {
        (t_flag(t, CellFlags::FAINT, true), 0)
    } else if v == 3 {
        (t_flag(t, CellFlags::ITALIC, true), 0)
    } else if v == 4 {
        (t_flag(t, CellFlags::UNDERLINE, true), 0)
    } else if v == 5 || v == 6 {
        (t_flag(t, CellFlags::BLINK, true), 0)
    } else if v == 7 {
        (t_flag(t, CellFlags::INVERSE, true), 0)
    } else if v == 8 {
        (t_flag(t, CellFlags::HIDDEN, true), 0)
    } else if v == 9 {
        (t_flag(t, CellFlags::STRIKETHROUGH, true), 0)
    } else if v == 21 {
        (t_flag(t, CellFlags::BOLD, false), 0)
    } else if v == 22 {
        (t_flag(t_flag(t, CellFlags::BOLD, false), CellFlags::FAINT, false), 0)
    } else if v == 23 {
        (t_flag(t, CellFlags::ITALIC, false), 0)
    } else if v == 24 {
        (t_flag(t, CellFlags::UNDERLINE, false), 0)
    } else if v == 25 {
        (t_flag(t, CellFlags::BLINK, false), 0)
    } else if v == 27 {
        (t_flag(t, CellFlags::INVERSE, false), 0)
    } else if v == 28 {
        (t_flag(t, CellFlags::HIDDEN, false), 0)
    } else if v == 29 {
        (t_flag(t, CellFlags::STRIKETHROUGH, false), 0)
    } else if 30 <= v <= 37 {
        (t_fg(t, Color::Indexed((v - 30) as u8)), 0)
    } else if v == 38 {
        match extended_color(p, i) {
            Some((c, k)) => (t_fg(t, c), k),
            None => (t, 0),
        }
    } else if v == 39 {
        (t_fg(t, Color::Default), 0)
    } else if 40 <= v <= 47 {
        (t_bg(t, Color::Indexed((v - 40) as u8)), 0)
    } else if v == 48 {
        match extended_color(p, i) {
            Some((c, k)) => (t_bg(t, c), k),
            None => (t, 0),
        }
    } else if v == 49 {
        (t_bg(t, Color::Default), 0)
    } else if 90 <= v <= 97 {
        (t_fg(t, Color::Indexed((v - 90 + 8) as u8)), 0)
    } else if 100 <= v <= 107 {
        (t_bg(t, Color::Indexed((v - 100 + 8) as u8)), 0)
    } else {
        (t, 0)
    }
}

/// The SGR parameters from `i` on applied in order.
pub open spec fn sgr_from(t: TermView, p: Seq<ParamView>, i: int) -> TermView
    decreases p.len() - i,
{
    if i >= p.len() || i < 0 {
        t
    } else {
        let (u, k) = sgr_one(t, p, i);
        if k >= 0 && i + 1 + k <= p.len() {
            sgr_from(u, p, i + 1 + k)
        } else {
            u
        }
    }
}

/// SGR: no parameter resets the attributes.
pub open spec fn sgr_performed(t: TermView, p: Seq<ParamView>) -> TermView {
    if p.len() == 0 {
        t_attrs(t, CellAttributes::spec_default())
    } else {
        sgr_from(t, p, 0)
    }
}

/// Erase in display (ED).
#[verifier::opaque]
pub open spec fn erased_display(t: TermView, mode: u16) -> TermView {
    if mode == 0 {
        on_screen(t, sv_erase_below(t.screen))
    } else if mode == 1 {
        on_screen(t, sv_erase_above(t.screen))
    } else if mode == 2 || mode == 3 {
        on_screen(t, sv_erase_screen(t.screen))
    } else {
        t
    }
}

/// Erase in line (EL).
#[verifier::opaque]
pub open spec fn erased_line(t: TermView, mode: u16) -> TermView {
    if mode == 0 {
        on_screen(t, sv_erase_to_eol(t.screen))
    } else if mode == 1 {
        on_screen(t, sv_erase_to_bol(t.screen))
    } else if mode == 2 {
        on_screen(t, sv_erase_line(t.screen))
    } else {
        t
    }
}

/// CSI cursor motion: CUU, CUD, CUF, CUB, CNL, CPL, CHA, CUP, HVP, VPA, HPA
/// (`n` is the first parameter, 1 when missing or 0).
#[verifier::opaque]
pub open spec fn csi_motion(t: TermView, p: Seq<ParamView>, fb: u8, n: int) -> TermView {
    if fb == 0x41 {
        t_cursor(t, moved_up(t.screen.cursor, n))
    } else if fb == 0x42 {
        t_cursor(t, moved_down(t.screen.cursor, n, t.screen.rows))
    } else if fb == 0x43 {
        t_cursor(t, moved_right(t.screen.cursor, n, t.screen.cols))
    } else if fb == 0x44 {
        t_cursor(t, moved_left(t.screen.cursor, n))
    } else if fb == 0x45 {
        let t1 = t_cursor(t, moved_down(t.screen.cursor, n, t.screen.rows));
        on_screen(t1, sv_carriage_return(t1.screen))
    } else if fb == 0x46 {
        let t1 = t_cursor(t, moved_up(t.screen.cursor, n));
        on_screen(t1, sv_carriage_return(t1.screen))
    } else if fb == 0x47 || fb == 0x60 {
        t_cursor(t, to_col(t.screen.cursor, n - 1, t.screen.cols))
    } else if fb == 0x48 || fb == 0x66 {
        on_screen(t, sv_goto(t.screen, n - 1, pnz(p, 1, 1) - 1))
    } else {
        t_cursor(t, to_row(t.screen.cursor, n - 1, t.screen.rows))
    }
}

pub open spec fn is_motion(fb: u8) -> bool {
    (0x41 <= fb && fb <= 0x48) || fb == 0x60 || fb == 0x66 || fb == 0x64
}

/// CSI editing: ED, EL, IL, DL, DCH, SU, SD, ECH, ICH.
#[verifier::opaque]
pub open spec fn csi_edit(t: TermView, p: Seq<ParamView>, fb: u8, n: int) -> TermView {
    if fb == 0x4A {
        erased_display(t, pget(p, 0, 0))
    } else if fb == 0x4B {
        erased_line(t, pget(p, 0, 0))
    } else if fb == 0x4C {
        on_screen(t, sv_insert_lines(t.screen, n))
    } else if fb == 0x4D {
        on_screen(t, sv_delete_lines(t.screen, n))
    } else if fb == 0x50 {
        on_screen(t, sv_delete_chars(t.screen, n))
    } else if fb == 0x53 {
        t_scroll_up(t, n)
    } else if fb == 0x54 {
        on_screen(t, sv_scroll_down(t.screen, n))
    } else if fb == 0x58 {
        on_screen(t, sv_erase_chars(t.screen, n))
    } else {
        on_screen(t, sv_insert_chars(t.screen, n))
    }
}

pub open spec fn is_edit(fb: u8) -> bool {
    fb == 0x4A || fb == 0x4B || fb == 0x4C || fb == 0x4D || fb == 0x50 || fb == 0x53 || fb == 0x54 || fb == 0x58
        || fb == 0x40
}

/// CSI settings: TBC, SM, RM, SGR, DECSTBM, save and restore cursor; other
/// final bytes do nothing.
#[verifier::opaque]
pub open spec fn csi_settings(t: TermView, p: Seq<ParamView>, fb: u8, n: int) -> TermView {
    if fb == 0x67 {
        let mode = pget(p, 0, 0);
        if mode == 0 {
            t_tab_stop(t, false)
        } else if mode == 3 {
            t_clear_all_tabs(t)
        } else {
            t
        }
    } else if fb == 0x68 {
        ansi_modes(t, p, 0, true)
    } else if fb == 0x6C {
        ansi_modes(t, p, 0, false)
    } else if fb == 0x6D {
        sgr_performed(t, p)
    } else if fb == 0x72 {
        let bottom = pget(p, 1, (t.screen.rows % 65536) as u16);
        if n < bottom {
            on_screen(t, sv_set_scroll_region(t.screen, n - 1, bottom - 1))
        } else {
            t
        }
    } else if fb == 0x73 {
        t_save(t)
    } else if fb == 0x75 {
        t_restore(t)
    } else {
        t
    }
}

/// `k` back tabs (CBT).
pub open spec fn backtabbed(v: ScreenView, k: nat) -> ScreenView
    decreases k,
{
    if k == 0 {
        v
    } else {
        sv_backtab(backtabbed(v, (k - 1) as nat))
    }
}

/// The character `c` printed `k` times.
pub open spec fn written_times(t: TermView, c: char, k: nat) -> TermView
    decreases k,
{
    if k == 0 {
        t
    } else {
        t_write(written_times(t, c, (k - 1) as nat), c)
    }
}

/// REP: the last printed character printed again `k` times; nothing when
/// no character was printed yet.
pub open spec fn repeated(t: TermView, last: Option<char>, k: nat) -> TermView {
    match last {
        Some(c) => written_times(t, c, k),
        None => t,
    }
}

/// Whether a CSI sequence is REP (final byte `b`, no private marker, no
/// intermediates).
pub open spec fn is_repeat(inter: Seq<u8>, fb: u8, marker: Option<u8>) -> bool {
    fb == 0x62 && marker is None && inter.len() == 0
}

/// A CSI sequence.
pub open spec fn csi_performed(
    t: TermView,
    p: Seq<ParamView>,
    inter: Seq<u8>,
    fb: u8,
    marker: Option<u8>,
) -> TermView {
    let n = pnz(p, 0, 1) as int;
    if marker == Some(0x3Fu8) {
        private_modes(t, p, 0, fb == 0x68)
    } else if inter.len() > 0 {
        if inter[0] == 0x20 && fb == 0x71 {
            styled(t, pget(p, 0, 0))
        } else {
            t
        }
    } else if fb == 0x5A && marker is None {
        on_screen(t, backtabbed(t.screen, pget(p, 0, 1) as nat))
    } else if is_motion(fb) {
        csi_motion(t, p, fb, n)
    } else if is_edit(fb) {
        csi_edit(t, p, fb, n)
    } else {
        csi_settings(t, p, fb, n)
    }
}

/// An ESC sequence.
#[verifier::opaque]
pub open spec fn esc_performed(t: TermView, inter: Seq<u8>, fb: u8) -> TermView {
    if inter.len() == 0 {
        if fb == 0x37 {
            t_save(t)
        } else if fb == 0x38 {
            t_restore(t)
        } else if fb == 0x44 {
            t_linefeed(t)
        } else if fb == 0x45 {
            t_linefeed(on_screen(t, sv_carriage_return(t.screen)))
        } else if fb == 0x48 {
            t_tab_stop(t, true)
        } else if fb == 0x4D {
            on_screen(t, sv_reverse_index(t.screen))
        } else if fb == 0x63 {
            t_reset(t)
        } else {
            t
        }
    } else if inter[0] == 0x23 && fb == 0x38 {
        on_screen(t, sv_filled(t.screen, 'E'))
    } else {
        t
    }
}

/// The text after the first `;` of `p`, when there is one.
pub open spec fn after_semicolon(p: Seq<char>) -> Option<Seq<char>>
    decreases p.len(),
{
    if p.len() == 0 {
        None
    } else if p[0] == ';' {
        Some(p.drop_first())
    } else {
        after_semicolon(p.drop_first())
    }
}

/// Whether an OSC 8 payload (`params;uri`) ends the current hyperlink: its
/// URI, what follows the first `;` (the whole payload when there is none),
/// is empty.
pub open spec fn ends_link(p: Seq<char>) -> bool {
    match after_semicolon(p) {
        Some(uri) => uri.len() == 0,
        None => p.len() == 0,
    }
}

/// An OSC sequence: titles, and the performer's hyperlink bookkeeping.
#[verifier::opaque]
pub open spec fn osc_performed(pv: PerformerView, t: TermView, cmd: u16, payload: Seq<char>) -> (
    PerformerView,
    TermView,
) {
    if cmd == 0 {
        (pv, TermView { rest: TermRest { title: payload, icon_name: payload, ..t.rest }, ..t })
    } else if cmd == 1 {
        (pv, TermView { rest: TermRest { icon_name: payload, ..t.rest }, ..t })
    } else if cmd == 2 {
        (pv, TermView { rest: TermRest { title: payload, ..t.rest }, ..t })
    } else if cmd == 8 {
        if ends_link(payload) {
            (PerformerView { current_hyperlink_id: None, ..pv }, t)
        } else {
            (
                PerformerView {
                    current_hyperlink_id: Some(pv.next_hyperlink_id),
                    next_hyperlink_id: (pv.next_hyperlink_id + 1) as u32,
                    ..pv
                },
                t,
            )
        }
    } else {
        (pv, t)
    }
}

/// What an action does to the performer and the terminal.
pub open spec fn performed(pv: PerformerView, t: TermView, a: ActionView) -> (PerformerView, TermView) {
    match a {
        ActionView::Print(c) => (PerformerView { last_printed: Some(c), ..pv }, t_write(t, c)),
        ActionView::Execute(b) => (pv, executed(t, b)),
        ActionView::CsiDispatch { params, intermediates, final_byte, private_marker } => (
            pv,
            if is_repeat(intermediates, final_byte, private_marker) {
                repeated(t, pv.last_printed, pget(params, 0, 1) as nat)
            } else {
                csi_performed(t, params, intermediates, final_byte, private_marker)
            },
        ),
        ActionView::EscDispatch { intermediates, final_byte } => (pv, esc_performed(t, intermediates, final_byte)),
        ActionView::OscDispatch { command, payload } => osc_performed(pv, t, command, payload),
        _ => (pv, t),
    }
}

/// Whether performing `a` needs a fresh hyperlink id.
pub open spec fn takes_hyperlink_id(a: ActionView) -> bool {
    match a {
        ActionView::OscDispatch { command, payload } => command == 8 && !ends_link(payload),
        _ => false,
    }
}

/// The CSI action with parameters `p`, no intermediates, final byte `fb`
/// and no private marker.
pub open spec fn plain_csi(p: Seq<ParamView>, fb: u8) -> ActionView {
    ActionView::CsiDispatch { params: p, intermediates: Seq::empty(), final_byte: fb, private_marker: None }
}

/// Erase in line (`CSI K`, `CSI 1 K`, `CSI 2 K`) blanks, on the cursor's
/// line only, the cells from the cursor to the end of the line (mode 0),
/// from the start of the line to the cursor inclusive (mode 1), or all of
/// them (mode 2); every other cell, every other line, the cursor and the
/// rest of the terminal are unchanged.
pub proof fn lemma_erase_in_line(pv: PerformerView, t: TermView, p: Seq<ParamView>)
    requires
        crate::screen::sv_wf(t.screen),
        crate::screen::sv_nonempty(t.screen),
        pget(p, 0, 0) <= 2,
    ensures
        ({
            let (pv2, u) = performed(pv, t, plain_csi(p, 0x4B));
            let mode = pget(p, 0, 0);
            let row = t.screen.cursor.row as int;
            let col = t.screen.cursor.col as int;
            &&& pv2 == pv
            &&& u.rest == t.rest
            &&& u.history == t.history
            &&& u.screen == (ScreenView { lines: u.screen.lines, ..t.screen })
            &&& u.screen.lines.len() == t.screen.lines.len()
            &&& forall|r: int|
                0 <= r < t.screen.lines.len() && r != row ==> #[trigger] u.screen.lines[r] == t.screen.lines[r]
            &&& u.screen.lines[row].cells.len() == t.screen.lines[row].cells.len()
            &&& forall|i: int|
                0 <= i < t.screen.lines[row].cells.len() ==> #[trigger] u.screen.lines[row].cells[i] == (if (
                mode == 0 && col <= i) || (mode == 1 && i <= col) || mode == 2 {
                    crate::cell::blank_cell()
                } else {
                    t.screen.lines[row].cells[i]
                })
        }),
{
    reveal(csi_edit);
    reveal(erased_line);
    let mode = pget(p, 0, 0);
    let v = t.screen;
    let row = v.cursor.row as int;
    let col = v.cursor.col as int;
    let u = performed(pv, t, plain_csi(p, 0x4B)).1;
    assert(u == erased_line(t, mode));
    let old_cells = v.lines[row].cells;
    if mode == 0 {
        assert(erased_line(t, mode).screen == crate::screen::sv_erase_to_eol(v));
    } else if mode == 1 {
        assert(erased_line(t, mode).screen == crate::screen::sv_erase_to_bol(v));
    } else {
        assert(u.screen == crate::screen::sv_erase_line(v));
        assert(u.screen.lines[row] == crate::line::blank_line(old_cells.len()));
    }
    assert(u.screen.lines[row].cells.len() == old_cells.len());
    assert forall|i: int| 0 <= i < old_cells.len() implies #[trigger] u.screen.lines[row].cells[i] == (if (mode
        == 0 && col <= i) || (mode == 1 && i <= col) || mode == 2 {
        crate::cell::blank_cell()
    } else {
        old_cells[i]
    }) by {}
}

/// The screen after performing the CSI action with parameters `p` and
/// final byte `fb` (no intermediates, no private marker).
pub open spec fn csi_screen(pv: PerformerView, t: TermView, p: Seq<ParamView>, fb: u8) -> ScreenView {
    performed(pv, t, plain_csi(p, fb)).1.screen
}

/// Cursor motion with count `n` (the first parameter, 1 when missing or
/// 0): CUU moves up `n` rows and CUD down `n` rows, CUF right `n` columns
/// and CUB left `n` columns, each stopping at the screen's edge; CHA goes
/// to column `n`, VPA to row `n`, and CUP to row `n` and the column given by
/// the second parameter (1-based, clamped to the screen; CUP outside origin
/// mode). None of them changes a line.
#[verifier::spinoff_prover]
pub proof fn lemma_cursor_motion(pv: PerformerView, t: TermView, p: Seq<ParamView>)
    requires
        crate::screen::sv_wf(t.screen),
        crate::screen::sv_nonempty(t.screen),
        t.screen.rows <= usize::MAX,
        t.screen.cols <= usize::MAX,
    ensures
        ({
            let n = pnz(p, 0, 1) as int;
            let row = t.screen.cursor.row as int;
            let col = t.screen.cursor.col as int;
            let rows = t.screen.rows as int;
            let cols = t.screen.cols as int;
            &&& csi_screen(pv, t, p, 0x41).lines == t.screen.lines
            &&& csi_screen(pv, t, p, 0x41).cursor.row == (if row >= n { row - n } else { 0 })
            &&& csi_screen(pv, t, p, 0x41).cursor.col == col
            &&& csi_screen(pv, t, p, 0x42).lines == t.screen.lines
            &&& csi_screen(pv, t, p, 0x42).cursor.row == (if row + n < rows { row + n } else { rows - 1 })
            &&& csi_screen(pv, t, p, 0x42).cursor.col == col
            &&& csi_screen(pv, t, p, 0x43).lines == t.screen.lines
            &&& csi_screen(pv, t, p, 0x43).cursor.row == row
            &&& csi_screen(pv, t, p, 0x43).cursor.col == (if col + n < cols { col + n } else { cols - 1 })
            &&& csi_screen(pv, t, p, 0x44).lines == t.screen.lines
            &&& csi_screen(pv, t, p, 0x44).cursor.row == row
            &&& csi_screen(pv, t, p, 0x44).cursor.col == (if col >= n { col - n } else { 0 })
            &&& csi_screen(pv, t, p, 0x47).lines == t.screen.lines
            &&& csi_screen(pv, t, p, 0x47).cursor.row == row
            &&& csi_screen(pv, t, p, 0x47).cursor.col == (if n - 1 < cols { n - 1 } else { cols - 1 })
            &&& csi_screen(pv, t, p, 0x64).lines == t.screen.lines
            &&& csi_screen(pv, t, p, 0x64).cursor.row == (if n - 1 < rows { n - 1 } else { rows - 1 })
            &&& csi_screen(pv, t, p, 0x64).cursor.col == col
            &&& csi_screen(pv, t, p, 0x48).lines == t.screen.lines
            &&& !t.screen.mode.origin_mode ==> csi_screen(pv, t, p, 0x48).cursor.row == (if n - 1 < rows {
                n - 1
            } else {
                rows - 1
            })
            &&& csi_screen(pv, t, p, 0x48).cursor.col == (if pnz(p, 1, 1) - 1 < cols {
                pnz(p, 1, 1) - 1
            } else {
                cols - 1
            })
        }),
{
    reveal(csi_motion);
    let n = pnz(p, 0, 1) as int;
    assert(csi_screen(pv, t, p, 0x41) == csi_motion(t, p, 0x41, n).screen);
    assert(csi_screen(pv, t, p, 0x42) == csi_motion(t, p, 0x42, n).screen);
    assert(csi_screen(pv, t, p, 0x42).cursor.row == min_int(t.screen.cursor.row + n, t.screen.rows - 1));
    assert(csi_screen(pv, t, p, 0x43) == csi_motion(t, p, 0x43, n).screen);
    assert(csi_screen(pv, t, p, 0x43).cursor.col == min_int(t.screen.cursor.col + n, t.screen.cols - 1));
    assert(csi_screen(pv, t, p, 0x44) == csi_motion(t, p, 0x44, n).screen);
    assert(csi_screen(pv, t, p, 0x47) == csi_motion(t, p, 0x47, n).screen);
    assert(csi_screen(pv, t, p, 0x64) == csi_motion(t, p, 0x64, n).screen);
    assert(csi_screen(pv, t, p, 0x48) == csi_motion(t, p, 0x48, n).screen);
}

/// Erase in display: `CSI J` (mode 0) blanks the cells from the cursor to
/// the end of its line and every line below it, keeping the lines above
/// and the cells left of the cursor; `CSI 2 J` blanks every line. The
/// cursor does not move.
pub proof fn lemma_erase_in_display(pv: PerformerView, t: TermView, p: Seq<ParamView>)
    requires
        crate::screen::sv_wf(t.screen),
        crate::screen::sv_nonempty(t.screen),
    ensures
        ({
            let u = csi_screen(pv, t, p, 0x4A);
            let v = t.screen;
            let row = v.cursor.row as int;
            let col = v.cursor.col as int;
            &&& u.cursor == v.cursor
            &&& u.lines.len() == v.lines.len()
            &&& pget(p, 0, 0) == 0 ==> {
                &&& forall|r: int| 0 <= r < row ==> #[trigger] u.lines[r] == v.lines[r]
                &&& forall|r: int| row < r < v.lines.len() ==> #[trigger] u.lines[r] == crate::line::blank_line(v.cols)
                &&& u.lines[row].cells.len() == v.lines[row].cells.len()
                &&& forall|i: int|
                    0 <= i < v.lines[row].cells.len() ==> #[trigger] u.lines[row].cells[i] == (if i < col {
                        v.lines[row].cells[i]
                    } else {
                        crate::cell::blank_cell()
                    })
            }
            &&& pget(p, 0, 0) == 2 ==> forall|r: int|
                0 <= r < v.lines.len() ==> #[trigger] u.lines[r] == crate::line::blank_line(v.cols)
        }),
{
    reveal(csi_edit);
    reveal(erased_display);
    let v = t.screen;
    let row = v.cursor.row as int;
    let u = csi_screen(pv, t, p, 0x4A);
    if pget(p, 0, 0) == 0 {
        assert(u == crate::screen::sv_erase_below(v));
        assert(u.lines[row].cells.len() == v.lines[row].cells.len());
    } else if pget(p, 0, 0) == 2 {
        assert(u == crate::screen::sv_erase_screen(v));
    }
}

/// Line feed with the cursor on the bottom row of the scroll region
/// scrolls the region up by one: each of its lines holds the line that was
/// below it, a blank line appears at its bottom, and the lines outside it
/// and the cursor stay. Elsewhere the cursor moves down one row (not past
/// the last row) and no line changes.
pub proof fn lemma_linefeed(pv: PerformerView, t: TermView)
    requires
        crate::screen::sv_wf(t.screen),
        crate::screen::sv_nonempty(t.screen),
        t.screen.rows <= usize::MAX,
        t.screen.cols <= usize::MAX,
    ensures
        ({
            let (pv2, u) = performed(pv, t, ActionView::Execute(0x0A));
            let v = t.screen;
            let top = v.scroll_top;
            let bottom = v.scroll_bottom;
            &&& pv2 == pv
            &&& u.screen.lines.len() == v.lines.len()
            &&& u.screen.cursor.col == v.cursor.col
            &&& v.cursor.row == bottom ==> {
                &&& u.screen.cursor.row == v.cursor.row
                &&& forall|r: int| top <= r < bottom ==> #[trigger] u.screen.lines[r] == v.lines[r + 1]
                &&& u.screen.lines[bottom as int] == crate::line::blank_line(v.cols)
                &&& forall|r: int|
                    0 <= r < v.lines.len() && (r < top || r > bottom) ==> #[trigger] u.screen.lines[r] == v.lines[r]
            }
            &&& v.cursor.row != bottom ==> {
                &&& u.screen.lines == v.lines
                &&& u.screen.cursor.row == (if v.cursor.row + 1 < v.rows { v.cursor.row + 1 } else { v.cursor.row as int })
            }
        }),
{
    reveal(executed);
    let v = t.screen;
    let u = performed(pv, t, ActionView::Execute(0x0A)).1;
    assert(u == t_linefeed(t));
    if v.cursor.row == v.scroll_bottom {
        let top = v.scroll_top;
        let bottom = v.scroll_bottom;
        assert(crate::grid::region_bottom(bottom as int, v.rows as int) == bottom);
        assert(crate::grid::region_amount(top as int, bottom as int, 1, v.rows as int) == 1);
        assert(u.screen.lines == crate::grid::scrolled_up(v.lines, top as int, bottom as int, 1, v.cols));
        assert forall|r: int| top <= r < bottom implies #[trigger] u.screen.lines[r] == v.lines[r + 1] by {}
    } else {
        assert(u.screen == crate::screen::sv_linefeed(v).0);
        if v.cursor.row + 1 < v.rows {
            assert(u.screen.cursor.row == v.cursor.row + 1);
        } else {
            assert(u.screen.cursor.row == v.cursor.row);
        }
    }
}

/// The pen after performing SGR (`CSI ... m`) with parameters `p`.
pub open spec fn sgr_pen(pv: PerformerView, t: TermView, p: Seq<ParamView>) -> CellAttributes {
    csi_screen(pv, t, p, 0x6D).cursor.attrs
}

/// SGR with one color parameter `v`: 30-37 set the foreground to palette
/// entry `v - 30` and 90-97 to entry `v - 82`, 40-47 set the background to
/// entry `v - 40` and 100-107 to entry `v - 92`, 39 and 49 restore the
/// default foreground and background; the other half of the pen, its flags
/// and the screen's lines stay.
pub proof fn lemma_sgr_basic_colors(pv: PerformerView, t: TermView, v: u16)
    ensures
        ({
            let p = seq![crate::params::plain(v)];
            let a = t.screen.cursor.attrs;
            let b = sgr_pen(pv, t, p);
            &&& csi_screen(pv, t, p, 0x6D).lines == t.screen.lines
            &&& 30 <= v <= 37 ==> b == CellAttributes { fg: Color::Indexed((v - 30) as u8), ..a }
            &&& 90 <= v <= 97 ==> b == CellAttributes { fg: Color::Indexed((v - 82) as u8), ..a }
            &&& 40 <= v <= 47 ==> b == CellAttributes { bg: Color::Indexed((v - 40) as u8), ..a }
            &&& 100 <= v <= 107 ==> b == CellAttributes { bg: Color::Indexed((v - 92) as u8), ..a }
            &&& v == 39 ==> b == CellAttributes { fg: Color::Default, ..a }
            &&& v == 49 ==> b == CellAttributes { bg: Color::Default, ..a }
        }),
{
    reveal(csi_settings);
    reveal(sgr_one);
    let p = seq![crate::params::plain(v)];
    let (u, k) = sgr_one(t, p, 0);
    if (30 <= v <= 37) || (90 <= v <= 97) || (40 <= v <= 47) || (100 <= v <= 107) || v == 39 || v == 49 {
        assert(k == 0);
        assert(sgr_from(u, p, 1) == u);
        assert(sgr_performed(t, p) == u);
    }
}

/// The pen `a` with foreground `c`.
pub open spec fn with_fg(a: CellAttributes, c: Color) -> CellAttributes {
    CellAttributes { fg: c, ..a }
}

/// The pen `a` with background `c`.
pub open spec fn with_bg(a: CellAttributes, c: Color) -> CellAttributes {
    CellAttributes { bg: c, ..a }
}

/// The RGB color (`r`, `g`, `b`).
pub open spec fn rgb_color(r: u8, g: u8, b: u8) -> Color {
    Color::Rgb(Rgb { r, g, b })
}

/// One SGR extended color (38 or 48 followed by its parameters `rest`):
/// the pen it gives when it uses all of `rest`.
proof fn lemma_sgr_one_extended(pv: PerformerView, t: TermView, p: Seq<ParamView>)
    requires
        p.len() >= 3,
        p[0].value == 38 || p[0].value == 48,
        extended_color(p, 0) is Some,
        extended_color(p, 0).unwrap().1 == p.len() - 1,
    ensures
        sgr_pen(pv, t, p) == (if p[0].value == 38 {
            with_fg(t.screen.cursor.attrs, extended_color(p, 0).unwrap().0)
        } else {
            with_bg(t.screen.cursor.attrs, extended_color(p, 0).unwrap().0)
        }),
{
    reveal(csi_settings);
    reveal(sgr_one);
    let (u, k) = sgr_one(t, p, 0);
    assert(k == p.len() - 1);
    assert(sgr_from(u, p, p.len() as int) == u);
    assert(sgr_performed(t, p) == u);
}

/// SGR 38;5;n and 48;5;n set the foreground or background to palette entry
/// `n` (taken modulo 256); the other half of the pen and its flags stay.
pub proof fn lemma_sgr_indexed_color(pv: PerformerView, t: TermView, n: u16)
    ensures
        sgr_pen(pv, t, seq![crate::params::plain(38), crate::params::plain(5), crate::params::plain(n)])
            == with_fg(t.screen.cursor.attrs, Color::Indexed((n % 256) as u8)),
        sgr_pen(pv, t, seq![crate::params::plain(48), crate::params::plain(5), crate::params::plain(n)])
            == with_bg(t.screen.cursor.attrs, Color::Indexed((n % 256) as u8)),
{
    reveal(extended_color);
    lemma_sgr_one_extended(pv, t, seq![crate::params::plain(38), crate::params::plain(5), crate::params::plain(n)]);
    lemma_sgr_one_extended(pv, t, seq![crate::params::plain(48), crate::params::plain(5), crate::params::plain(n)]);
}

/// SGR 38;2;r;g;b and 48;2;r;g;b set the foreground or background to that
/// RGB color (each component modulo 256); the other half of the pen and
/// its flags stay.
pub proof fn lemma_sgr_rgb_color(pv: PerformerView, t: TermView, r: u16, g: u16, b: u16)
    ensures
        sgr_pen(
            pv,
            t,
            seq![
                crate::params::plain(38),
                crate::params::plain(2),
                crate::params::plain(r),
                crate::params::plain(g),
                crate::params::plain(b),
            ],
        ) == with_fg(t.screen.cursor.attrs, rgb_color((r % 256) as u8, (g % 256) as u8, (b % 256) as u8)),
        sgr_pen(
            pv,
            t,
            seq![
                crate::params::plain(48),
                crate::params::plain(2),
                crate::params::plain(r),
                crate::params::plain(g),
                crate::params::plain(b),
            ],
        ) == with_bg(t.screen.cursor.attrs, rgb_color((r % 256) as u8, (g % 256) as u8, (b % 256) as u8)),
{
    reveal(extended_color);
    lemma_sgr_one_extended(
        pv,
        t,
        seq![
            crate::params::plain(38),
            crate::params::plain(2),
            crate::params::plain(r),
            crate::params::plain(g),
            crate::params::plain(b),
        ],
    );
    lemma_sgr_one_extended(
        pv,
        t,
        seq![
            crate::params::plain(48),
            crate::params::plain(2),
            crate::params::plain(r),
            crate::params::plain(g),
            crate::params::plain(b),
        ],
    );
}

/// OSC 0 sets the window title and the icon name to its text, OSC 1 the
/// icon name only and OSC 2 the title only; the screen does not change.
pub proof fn lemma_osc_titles(pv: PerformerView, t: TermView, text: Seq<char>)
    ensures
        ({
            let u0 = performed(pv, t, ActionView::OscDispatch { command: 0, payload: text }).1;
            let u1 = performed(pv, t, ActionView::OscDispatch { command: 1, payload: text }).1;
            let u2 = performed(pv, t, ActionView::OscDispatch { command: 2, payload: text }).1;
            &&& u0.rest.title == text && u0.rest.icon_name == text && u0.screen == t.screen
            &&& u1.rest.title == t.rest.title && u1.rest.icon_name == text && u1.screen == t.screen
            &&& u2.rest.title == text && u2.rest.icon_name == t.rest.icon_name && u2.screen == t.screen
        }),
{
    reveal(osc_performed);
}

/// ICH (`CSI n @`) inserts `n` blank cells at the cursor: the cells left of
/// the cursor stay, `n` blanks follow (fewer at the end of the line), and
/// each old cell `i` from the cursor on moves to `i + n`, dropping those
/// pushed past the end. DCH (`CSI n P`) deletes `n` cells at the cursor:
/// each cell `i + n` moves to `i` and blanks fill the end. Other lines and
/// the cursor stay.
pub proof fn lemma_insert_delete_chars(pv: PerformerView, t: TermView, p: Seq<ParamView>)
    requires
        crate::screen::sv_wf(t.screen),
        crate::screen::sv_nonempty(t.screen),
    ensures
        ({
            let n = pnz(p, 0, 1) as int;
            let v = t.screen;
            let row = v.cursor.row as int;
            let c = v.cursor.col as int;
            let len = v.lines[row].cells.len() as int;
            let old_cells = v.lines[row].cells;
            let ins = csi_screen(pv, t, p, 0x40);
            let del = csi_screen(pv, t, p, 0x50);
            &&& ins.cursor == v.cursor
            &&& del.cursor == v.cursor
            &&& forall|r: int| 0 <= r < v.lines.len() && r != row ==> #[trigger] ins.lines[r] == v.lines[r]
            &&& forall|r: int| 0 <= r < v.lines.len() && r != row ==> #[trigger] del.lines[r] == v.lines[r]
            &&& ins.lines[row].cells.len() == len
            &&& del.lines[row].cells.len() == len
            &&& forall|i: int| 0 <= i < c ==> #[trigger] ins.lines[row].cells[i] == old_cells[i]
            &&& forall|i: int| c <= i < c + n && i < len ==> #[trigger] ins.lines[row].cells[i] == crate::cell::blank_cell()
            &&& forall|i: int| c <= i && i + n < len ==> #[trigger] ins.lines[row].cells[i + n] == old_cells[i]
            &&& forall|i: int| 0 <= i < c ==> #[trigger] del.lines[row].cells[i] == old_cells[i]
            &&& forall|i: int| c <= i && i + n < len ==> #[trigger] del.lines[row].cells[i] == old_cells[i + n]
            &&& forall|i: int| c <= i < len && len - n <= i ==> #[trigger] del.lines[row].cells[i] == crate::cell::blank_cell()
        }),
{
    reveal(csi_edit);
    let n = pnz(p, 0, 1) as int;
    let v = t.screen;
    let row = v.cursor.row as int;
    let c = v.cursor.col as int;
    let old_cells = v.lines[row].cells;
    let len = old_cells.len() as int;
    let ins = csi_screen(pv, t, p, 0x40);
    let del = csi_screen(pv, t, p, 0x50);
    assert(ins == crate::screen::sv_insert_chars(v, n));
    assert(del == crate::screen::sv_delete_chars(v, n));
    let k = min_int(n, len - c);
    let ic = crate::screen::inserted_cells(old_cells, c, n);
    let dc = crate::screen::deleted_cells(old_cells, c, n);
    assert(ins.lines[row].cells == ic);
    assert(del.lines[row].cells == dc);
    assert(ic.len() == len);
    assert(dc.len() == len);
    assert forall|i: int| c <= i && i + n < len implies #[trigger] ic[i + n] == old_cells[i] by {
        assert(k == n);
    }
    assert forall|i: int| c <= i < c + n && i < len implies #[trigger] ic[i] == crate::cell::blank_cell() by {}
    assert forall|i: int| c <= i && i + n < len implies #[trigger] dc[i] == old_cells[i + n] by {
        assert(k == n);
    }
    assert forall|i: int| c <= i < len && len - n <= i implies #[trigger] dc[i] == crate::cell::blank_cell() by {}
}

/// IL (`CSI n L`) with the cursor inside the scroll region inserts `n`
/// blank lines at the cursor row: the lines from the cursor row down move
/// `n` rows down inside the region (those pushed past its bottom are
/// dropped). DL (`CSI n M`) deletes `n` lines at the cursor row: the lines
/// below move up `n` rows and blank lines fill the region's bottom. Lines
/// outside the region, the lines above the cursor and the cursor stay.
pub proof fn lemma_insert_delete_lines(pv: PerformerView, t: TermView, p: Seq<ParamView>)
    requires
        crate::screen::sv_wf(t.screen),
        crate::screen::sv_nonempty(t.screen),
        t.screen.scroll_top <= t.screen.cursor.row <= t.screen.scroll_bottom,
    ensures
        ({
            let n = pnz(p, 0, 1) as int;
            let v = t.screen;
            let row = v.cursor.row as int;
            let bottom = v.scroll_bottom as int;
            let il = csi_screen(pv, t, p, 0x4C);
            let dl = csi_screen(pv, t, p, 0x4D);
            &&& il.cursor == v.cursor
            &&& dl.cursor == v.cursor
            &&& il.lines.len() == v.lines.len()
            &&& dl.lines.len() == v.lines.len()
            &&& forall|r: int| 0 <= r < v.lines.len() && (r < row || r > bottom) ==> #[trigger] il.lines[r] == v.lines[r]
            &&& forall|r: int| 0 <= r < v.lines.len() && (r < row || r > bottom) ==> #[trigger] dl.lines[r] == v.lines[r]
            &&& forall|r: int| row <= r < row + n && r <= bottom ==> #[trigger] il.lines[r] == crate::line::blank_line(v.cols)
            &&& forall|r: int| row <= r && r + n <= bottom ==> #[trigger] il.lines[r + n] == v.lines[r]
            &&& forall|r: int| row <= r && r + n <= bottom ==> #[trigger] dl.lines[r] == v.lines[r + n]
            &&& forall|r: int| row <= r <= bottom && bottom - n < r ==> #[trigger] dl.lines[r] == crate::line::blank_line(v.cols)
        }),
{
    reveal(csi_edit);
    let n = pnz(p, 0, 1) as int;
    let v = t.screen;
    let row = v.cursor.row as int;
    let bottom = v.scroll_bottom as int;
    let il = csi_screen(pv, t, p, 0x4C);
    let dl = csi_screen(pv, t, p, 0x4D);
    assert(il == crate::screen::sv_insert_lines(v, n));
    assert(dl == crate::screen::sv_delete_lines(v, n));
    assert(crate::grid::region_bottom(bottom, v.rows as int) == bottom);
    let k = crate::grid::region_amount(row, bottom, n, v.rows as int);
    assert(il.lines == crate::grid::scrolled_down(v.lines, row, bottom, k, v.cols));
    assert(dl.lines == crate::grid::scrolled_up(v.lines, row, bottom, k, v.cols));
    assert forall|r: int| row <= r && r + n <= bottom implies #[trigger] il.lines[r + n] == v.lines[r] by {
        assert(k == n);
    }
    assert forall|r: int| row <= r && r + n <= bottom implies #[trigger] dl.lines[r] == v.lines[r + n] by {
        assert(k == n);
    }
}

/// Reverse index (`ESC M`) with the cursor on the top row of the scroll
/// region scrolls the region down by one: a blank line appears at its top,
/// each of its other lines holds the line that was above it, the line at
/// its bottom is dropped, and the lines outside the region and the cursor
/// position stay.
pub proof fn lemma_reverse_index_at_top(pv: PerformerView, t: TermView)
    requires
        crate::screen::sv_wf(t.screen),
        crate::screen::sv_nonempty(t.screen),
        t.screen.cursor.row == t.screen.scroll_top,
    ensures
        ({
            let (pv2, u) = performed(
                pv,
                t,
                ActionView::EscDispatch { intermediates: Seq::empty(), final_byte: 0x4D },
            );
            let top = t.screen.scroll_top;
            let bottom = t.screen.scroll_bottom;
            &&& pv2 == pv
            &&& u.rest == t.rest
            &&& u.history == t.history
            &&& u.screen.lines.len() == t.screen.lines.len()
            &&& u.screen.lines[top] == crate::line::blank_line(t.screen.cols)
            &&& forall|r: int| top <= r < bottom ==> #[trigger] u.screen.lines[r + 1] == t.screen.lines[r]
            &&& forall|r: int|
                0 <= r < t.screen.lines.len() && (r < top || r > bottom) ==> #[trigger] u.screen.lines[r]
                    == t.screen.lines[r]
            &&& u.screen.cursor.row == t.screen.cursor.row
            &&& u.screen.cursor.col == t.screen.cursor.col
        }),
{
    reveal(esc_performed);
    let top = t.screen.scroll_top;
    let bottom = t.screen.scroll_bottom;
    let u = performed(pv, t, ActionView::EscDispatch { intermediates: Seq::empty(), final_byte: 0x4D }).1;
    assert forall|r: int| top <= r < bottom implies #[trigger] u.screen.lines[r + 1] == t.screen.lines[r] by {
        assert(r + 1 - 1 == r);
    }
}

/// Reverse index (`ESC M`) below the top of the scroll region moves the
/// cursor up one row (not past the first row) and changes no line.
pub proof fn lemma_reverse_index_elsewhere(pv: PerformerView, t: TermView)
    requires
        crate::screen::sv_wf(t.screen),
        t.screen.cursor.row != t.screen.scroll_top,
    ensures
        ({
            let (pv2, u) = performed(
                pv,
                t,
                ActionView::EscDispatch { intermediates: Seq::empty(), final_byte: 0x4D },
            );
            &&& pv2 == pv
            &&& u.screen.lines == t.screen.lines
            &&& u.screen.cursor.row == (if t.screen.cursor.row > 0 { t.screen.cursor.row - 1 } else { 0 })
            &&& u.screen.cursor.col == t.screen.cursor.col
        }),
{
    reveal(esc_performed);
}

} // verus!

verus! {

/// Applies parsed actions to a terminal.
#[derive(Debug)]
pub struct Performer {
    current_hyperlink_id: Option<u32>,
    next_hyperlink_id: u32,
    last_printed: Option<char>,
}

impl View for Performer {
    type V = PerformerView;

    closed spec fn view(&self) -> PerformerView {
        PerformerView {
            current_hyperlink_id: self.current_hyperlink_id,
            next_hyperlink_id: self.next_hyperlink_id,
            last_printed: self.last_printed,
        }
    }
}

impl Default for Performer {
    fn default() -> (res: Self)
        ensures
            res@ == (PerformerView { current_hyperlink_id: None, next_hyperlink_id: 1, last_printed: None }),
    {
        Self::new()
    }
}

impl Performer {
    pub fn new() -> (res: Self)
        ensures
            res@ == (PerformerView { current_hyperlink_id: None, next_hyperlink_id: 1, last_printed: None }),
    {
        Performer { current_hyperlink_id: None, next_hyperlink_id: 1, last_printed: None }
    }

    /// The id the next hyperlink gets.
    pub fn next_hyperlink_id(&self) -> (res: u32)
        ensures
            res == self@.next_hyperlink_id,
    {
        self.next_hyperlink_id
    }

    /// Apply `action` to `term`.
    #[verifier::spinoff_prover]
    pub fn perform(&mut self, term: &mut Term, action: Action)
        requires
            old(term).wf(),
            old(term).nonempty(),
            takes_hyperlink_id(action@) ==> old(self)@.next_hyperlink_id < u32::MAX,
        ensures
            final(term).wf(),
            final(term).nonempty(),
            (final(self)@, final(term)@) == performed(old(self)@, old(term)@, action@),
    {
        let ghost t0 = term@;
        match action {
            Action::Print(c) => {
                Self::print(term, c);
                self.last_printed = Some(c);
            },
            Action::Execute(byte) => {
                Self::execute(term, byte);
            },
            Action::CsiDispatch { params, intermediates, final_byte, private_marker } => {
                if final_byte == 0x62 && private_marker.is_none() && intermediates.len() == 0 {
                    if let Some(c) = self.last_printed {
                        Self::repeat(term, c, params.get_or(0, 1));
                    }
                } else {
                    Self::csi_dispatch(term, &params, &intermediates, final_byte, private_marker);
                }
            },
            Action::EscDispatch { intermediates, final_byte } => {
                Self::esc_dispatch(term, &intermediates, final_byte);
            },
            Action::OscDispatch { command, payload } => {
                self.osc_dispatch(term, command, payload);
            },
            _ => {},
        }
    }

    /// Print `c` through the active character set.
    fn print(term: &mut Term, c: char)
        requires
            old(term).wf(),
            old(term).nonempty(),
        ensures
            final(term).wf(),
            final(term).nonempty(),
            final(term)@ == t_write(old(term)@, c),
    {
        let ghost t0 = term@;
        term.write_char(c);
        proof {
            crate::screen::lemma_write_keeps_size(
                t0.screen,
                seq![translated(t0.rest.charsets[t0.rest.active_charset], c)],
                display_width(seq![translated(t0.rest.charsets[t0.rest.active_charset], c)]) as int,
            );
        }
    }

    /// REP: print `c` `count` times.
    fn repeat(term: &mut Term, c: char, count: u16)
        requires
            old(term).wf(),
            old(term).nonempty(),
        ensures
            final(term).wf(),
            final(term).nonempty(),
            final(term)@ == written_times(old(term)@, c, count as nat),
    {
        let ghost t0 = term@;
        let mut i: u16 = 0;
        while i < count
            invariant
                term.wf(),
                term.nonempty(),
                i <= count,
                term@ == written_times(t0, c, i as nat),
            decreases count - i,
        {
            Self::print(term, c);
            i = i + 1;
        }
    }

    /// CBT: move back `count` tab stops.
    fn back_tabs(term: &mut Term, count: u16)
        requires
            old(term).wf(),
            old(term).nonempty(),
        ensures
            final(term).wf(),
            final(term).nonempty(),
            final(term)@ == on_screen(old(term)@, backtabbed(old(term)@.screen, count as nat)),
    {
        let ghost t0 = term@;
        let mut i: u16 = 0;
        while i < count
            invariant
                term.wf(),
                term.nonempty(),
                i <= count,
                term@ == on_screen(t0, backtabbed(t0.screen, i as nat)),
            decreases count - i,
        {
            term.backtab();
            i = i + 1;
        }
    }

    /// A C0 control character.
    #[verifier::spinoff_prover]
    fn execute(term: &mut Term, byte: u8)
        requires
            old(term).wf(),
            old(term).nonempty(),
        ensures
            final(term).wf(),
            final(term).nonempty(),
            final(term)@ == executed(old(term)@, byte),
    {
        proof {
            reveal(executed);
        }
        if byte == 0x07 {
            term.bell();
        } else if byte == 0x08 {
            term.backspace();
        } else if byte == 0x09 {
            term.tab();
        } else if byte == 0x0A || byte == 0x0B || byte == 0x0C {
            term.linefeed();
        } else if byte == 0x0D {
            term.carriage_return();
        }
    }

    /// A CSI sequence.
    fn csi_dispatch(term: &mut Term, params: &Params, intermediates: &Vec<u8>, final_byte: u8, private_marker: Option<u8>)
        requires
            old(term).wf(),
            old(term).nonempty(),
        ensures
            final(term).wf(),
            final(term).nonempty(),
            final(term)@ == csi_performed(old(term)@, params@, intermediates@, final_byte, private_marker),
    {
        if private_marker == Some(0x3Fu8) {
            Self::private_modes(term, params, final_byte == 0x68);
            return;
        }
        if intermediates.len() > 0 {
            if intermediates[0] == 0x20 && final_byte == 0x71 {
                Self::set_cursor_style(term, params.get_or(0, 0));
            }
            return;
        }
        if final_byte == 0x5A && private_marker.is_none() {
            Self::back_tabs(term, params.get_or(0, 1));
            return;
        }
        let n = params.get_nonzero_or(0, 1) as usize;
        if (0x41 <= final_byte && final_byte <= 0x48) || final_byte == 0x60 || final_byte == 0x66 || final_byte == 0x64 {
            Self::csi_motion(term, params, final_byte, n);
        } else if final_byte == 0x4A || final_byte == 0x4B || final_byte == 0x4C || final_byte == 0x4D || final_byte
            == 0x50 || final_byte == 0x53 || final_byte == 0x54 || final_byte == 0x58 || final_byte == 0x40 {
            Self::csi_edit(term, params, final_byte, n);
        } else {
            Self::csi_settings(term, params, final_byte, n);
        }
    }

    /// CSI cursor motion.
    #[verifier::spinoff_prover]
    fn csi_motion(term: &mut Term, params: &Params, final_byte: u8, n: usize)
        requires
            old(term).wf(),
            old(term).nonempty(),
            n >= 1,
        ensures
            final(term).wf(),
            final(term).nonempty(),
            final(term)@ == csi_motion(old(term)@, params@, final_byte, n as int),
    {
        proof {
            reveal(csi_motion);
        }
        if final_byte == 0x41 {
            term.move_up(n);
        } else if final_byte == 0x42 {
            term.move_down(n);
        } else if final_byte == 0x43 {
            term.move_right(n);
        } else if final_byte == 0x44 {
            term.move_left(n);
        } else if final_byte == 0x45 {
            term.move_down(n);
            term.carriage_return();
        } else if final_byte == 0x46 {
            term.move_up(n);
            term.carriage_return();
        } else if final_byte == 0x47 || final_byte == 0x60 {
            term.goto_col(n - 1);
        } else if final_byte == 0x48 || final_byte == 0x66 {
            let col = params.get_nonzero_or(1, 1) as usize;
            term.goto(n - 1, col - 1);
        } else {
            term.goto_row(n - 1);
        }
    }

    /// CSI editing.
    #[verifier::spinoff_prover]
    fn csi_edit(term: &mut Term, params: &Params, final_byte: u8, n: usize)
        requires
            old(term).wf(),
            old(term).nonempty(),
        ensures
            final(term).wf(),
            final(term).nonempty(),
            final(term)@ == csi_edit(old(term)@, params@, final_byte, n as int),
    {
        proof {
            reveal(csi_edit);
            reveal(erased_display);
            reveal(erased_line);
        }
        if final_byte == 0x4A {
            let mode = params.get_or(0, 0);
            if mode == 0 {
                term.erase_below();
            } else if mode == 1 {
                term.erase_above();
            } else if mode == 2 || mode == 3 {
                term.erase_screen();
            }
        } else if final_byte == 0x4B {
            let mode = params.get_or(0, 0);
            if mode == 0 {
                term.erase_to_eol();
            } else if mode == 1 {
                term.erase_to_bol();
            } else if mode == 2 {
                term.erase_line();
            }
        } else if final_byte == 0x4C {
            term.insert_lines(n);
        } else if final_byte == 0x4D {
            term.delete_lines(n);
        } else if final_byte == 0x50 {
            term.delete_chars(n);
        } else if final_byte == 0x53 {
            term.scroll_up(n);
        } else if final_byte == 0x54 {
            term.scroll_down(n);
        } else if final_byte == 0x58 {
            term.erase_chars(n);
        } else {
            term.insert_chars(n);
        }
    }

    /// CSI settings.
    #[verifier::spinoff_prover]
    fn csi_settings(term: &mut Term, params: &Params, final_byte: u8, n: usize)
        requires
            old(term).wf(),
            old(term).nonempty(),
            n >= 1,
        ensures
            final(term).wf(),
            final(term).nonempty(),
            final(term)@ == csi_settings(old(term)@, params@, final_byte, n as int),
    {
        proof {
            reveal(csi_settings);
        }
        if final_byte == 0x67 {
            let mode = params.get_or(0, 0);
            if mode == 0 {
                term.clear_tab_stop();
            } else if mode == 3 {
                term.clear_all_tab_stops();
            }
        } else if final_byte == 0x68 {
            Self::ansi_modes(term, params, true);
        } else if final_byte == 0x6C {
            Self::ansi_modes(term, params, false);
        } else if final_byte == 0x6D {
            Self::sgr(term, params);
        } else if final_byte == 0x72 {
            let rows = (term.rows() % 65536) as u16;
            let bottom = params.get_or(1, rows) as usize;
            if n < bottom {
                term.set_scroll_region(n - 1, bottom - 1);
            }
        } else if final_byte == 0x73 {
            term.save_cursor();
        } else if final_byte == 0x75 {
            term.restore_cursor();
        }
    }

    /// DECSCUSR: set the cursor style.
    fn set_cursor_style(term: &mut Term, style: u16)
        requires
            old(term).wf(),
            old(term).nonempty(),
        ensures
            final(term).wf(),
            final(term).nonempty(),
            final(term)@ == styled(old(term)@, style),
    {
        proof {
            reveal(styled);
        }
        if style > 6 {
            return;
        }
        let (st, blink) = if style <= 1 {
            (CursorStyle::Block, true)
        } else if style == 2 {
            (CursorStyle::Block, false)
        } else if style == 3 {
            (CursorStyle::Underline, true)
        } else if style == 4 {
            (CursorStyle::Underline, false)
        } else if style == 5 {
            (CursorStyle::Bar, true)
        } else {
            (CursorStyle::Bar, false)
        };
        term.set_cursor_style(st);
        term.set_cursor_blinking(blink);
    }

    /// The DEC private modes of `params`, in order.
    fn private_modes(term: &mut Term, params: &Params, enable: bool)
        requires
            old(term).wf(),
            old(term).nonempty(),
        ensures
            final(term).wf(),
            final(term).nonempty(),
            final(term)@ == private_modes(old(term)@, params@, 0, enable),
    {
        let n = params.len();
        let mut i: usize = 0;
        while i < n
            invariant
                term.wf(),
                term.nonempty(),
                n == params@.len(),
                i <= n,
                private_modes(term@, params@, i as int, enable) == private_modes(
                    old(term)@,
                    params@,
                    0,
                    enable,
                ),
            decreases n - i,
        {
            let m = params.get_or(i, 0);
            Self::private_mode(term, m, enable);
            i = i + 1;
        }
    }

    /// One DEC private mode.
    fn private_mode(term: &mut Term, mode: u16, enable: bool)
        requires
            old(term).wf(),
            old(term).nonempty(),
        ensures
            final(term).wf(),
            final(term).nonempty(),
            final(term)@ == private_mode(old(term)@, mode, enable),
    {
        if mode == 47 || mode == 1047 || mode == 1048 || mode == 1049 {
            Self::screen_switch(term, mode, enable);
        } else {
            Self::screen_setting(term, mode, enable);
        }
    }

    /// Private modes that switch screens or save the cursor.
    #[verifier::spinoff_prover]
    fn screen_switch(term: &mut Term, mode: u16, enable: bool)
        requires
            old(term).wf(),
            old(term).nonempty(),
            is_screen_switch(mode),
        ensures
            final(term).wf(),
            final(term).nonempty(),
            final(term)@ == screen_switch(old(term)@, mode, enable),
    {
        proof {
            reveal(screen_switch);
            term.lemma_wf_screens();
        }
        if mode == 47 || mode == 1047 {
            if enable {
                term.enter_alt_screen();
            } else {
                term.leave_alt_screen();
            }
        } else if mode == 1048 {
            if enable {
                term.save_cursor();
            } else {
                term.restore_cursor();
            }
        } else {
            if enable {
                term.save_cursor();
                term.enter_alt_screen();
                term.erase_screen();
            } else {
                term.leave_alt_screen();
                term.restore_cursor();
            }
        }
    }

    /// The other private modes.
    #[verifier::spinoff_prover]
    fn screen_setting(term: &mut Term, mode: u16, enable: bool)
        requires
            old(term).wf(),
            old(term).nonempty(),
        ensures
            final(term).wf(),
            final(term).nonempty(),
            final(term)@ == screen_setting(old(term)@, mode, enable),
    {
        proof {
            reveal(screen_setting);
        }
        if mode == 6 {
            term.set_origin_mode(enable);
        } else if mode == 7 {
            term.set_auto_wrap(enable);
        } else if mode == 12 {
            term.set_cursor_blinking(enable);
        } else if mode == 25 {
            term.set_cursor_visible(enable);
        } else if mode == 1000 {
            term.set_mouse_mode(if enable { MouseMode::VT200 } else { MouseMode::Off });
        } else if mode == 1002 {
            term.set_mouse_mode(if enable { MouseMode::ButtonEvent } else { MouseMode::Off });
        } else if mode == 1003 {
            term.set_mouse_mode(if enable { MouseMode::AnyEvent } else { MouseMode::Off });
        } else if mode == 1004 {
            term.set_focus_reporting(enable);
        } else if mode == 1005 {
            term.set_mouse_encoding(if enable { MouseEncoding::Utf8 } else { MouseEncoding::X10 });
        } else if mode == 1006 {
            term.set_mouse_encoding(if enable { MouseEncoding::Sgr } else { MouseEncoding::X10 });
        } else if mode == 1015 {
            term.set_mouse_encoding(if enable { MouseEncoding::Urxvt } else { MouseEncoding::X10 });
        } else if mode == 2004 {
            term.set_bracketed_paste(enable);
        }
    }

    /// The ANSI modes of `params`, in order.
    fn ansi_modes(term: &mut Term, params: &Params, enable: bool)
        requires
            old(term).wf(),
            old(term).nonempty(),
        ensures
            final(term).wf(),
            final(term).nonempty(),
            final(term)@ == ansi_modes(old(term)@, params@, 0, enable),
    {
        let n = params.len();
        let mut i: usize = 0;
        while i < n
            invariant
                term.wf(),
                term.nonempty(),
                n == params@.len(),
                i <= n,
                ansi_modes(term@, params@, i as int, enable) == ansi_modes(old(term)@, params@, 0, enable),
            decreases n - i,
        {
            let m = params.get_or(i, 0);
            proof {
                reveal(ansi_mode);
            }
            if m == 4 {
                term.set_insert_mode(enable);
            } else if m == 20 {
                term.set_linefeed_mode(enable);
            }
            i = i + 1;
        }
    }

    /// The extended color (SGR 38 / 48) starting at parameter `i`.
    fn extended_color(params: &Params, i: usize) -> (res: Option<(Color, usize)>)
        ensures
            match res {
                Some((c, k)) => extended_color(params@, i as int) == Some((c, k as int)),
                None => extended_color(params@, i as int) is None,
            },
    {
        proof {
            reveal(extended_color);
        }
        let n = params.len();
        if i >= n || n - i <= 1 {
            return None;
        }
        let kind = params.get_or(i + 1, 0);
        if kind == 2 {
            if n - i > 4 {
                let r = (params.get_or(i + 2, 0) % 256) as u8;
                let g = (params.get_or(i + 3, 0) % 256) as u8;
                let b = (params.get_or(i + 4, 0) % 256) as u8;
                Some((Color::Rgb(Rgb::new(r, g, b)), 4))
            } else {
                None
            }
        } else if kind == 5 {
            if n - i > 2 {
                let idx = (params.get_or(i + 2, 0) % 256) as u8;
                Some((Color::Indexed(idx), 2))
            } else {
                None
            }
        } else {
            None
        }
    }

    fn set_fg(term: &mut Term, color: Color)
        requires
            old(term).wf(),
        ensures
            final(term).wf(),
            final(term)@ == t_fg(old(term)@, color),
    {
        term.set_fg(color);
    }

    /// One SGR parameter, at index `i`; returns how many more parameters it
    /// used.
    #[verifier::spinoff_prover]
    fn sgr_one(term: &mut Term, params: &Params, i: usize) -> (skip: usize)
        requires
            old(term).wf(),
            old(term).nonempty(),
            i < params@.len(),
        ensures
            final(term).wf(),
            final(term).nonempty(),
            (final(term)@, skip as int) == sgr_one(old(term)@, params@, i as int),
    {
        proof {
            reveal(sgr_one);
        }
        let v = params.get_or(i, 0);
        if v == 0 {
            term.reset_attrs();
        } else if v == 1 {
            term.set_bold(true);
        } else if v == 2 {
            term.set_faint(true);
        } else if v == 3 {
            term.set_italic(true);
        } else if v == 4 {
            term.set_underline(true);
        } else if v == 5 || v == 6 {
            term.set_blink(true);
        } else if v == 7 {
            term.set_inverse(true);
        } else if v == 8 {
            term.set_hidden(true);
        } else if v == 9 {
            term.set_strikethrough(true);
        } else if v == 21 {
            term.set_bold(false);
        } else if v == 22 {
            term.set_bold(false);
            term.set_faint(false);
        } else if v == 23 {
            term.set_italic(false);
        } else if v == 24 {
            term.set_underline(false);
        } else if v == 25 {
            term.set_blink(false);
        } else if v == 27 {
            term.set_inverse(false);
        } else if v == 28 {
            term.set_hidden(false);
        } else if v == 29 {
            term.set_strikethrough(false);
        } else if 30 <= v && v <= 37 {
            term.set_fg(Color::Indexed((v - 30) as u8));
        } else if v == 38 {
            match Self::extended_color(params, i) {
                Some((c, k)) => {
                    term.set_fg(c);
                    return k;
                },
                None => {},
            }
        } else if v == 39 {
            term.set_fg(Color::Default);
        } else if 40 <= v && v <= 47 {
            term.set_bg(Color::Indexed((v - 40) as u8));
        } else if v == 48 {
            match Self::extended_color(params, i) {
                Some((c, k)) => {
                    term.set_bg(c);
                    return k;
                },
                None => {},
            }
        } else if v == 49 {
            term.set_bg(Color::Default);
        } else if 90 <= v && v <= 97 {
            term.set_fg(Color::Indexed((v - 90 + 8) as u8));
        } else if 100 <= v && v <= 107 {
            term.set_bg(Color::Indexed((v - 100 + 8) as u8));
        }
        0
    }

    /// SGR: set the attributes of the cells written next.
    #[verifier::spinoff_prover]
    fn sgr(term: &mut Term, params: &Params)
        requires
            old(term).wf(),
            old(term).nonempty(),
        ensures
            final(term).wf(),
            final(term).nonempty(),
            final(term)@ == sgr_performed(old(term)@, params@),
    {
        let n = params.len();
        if n == 0 {
            term.reset_attrs();
            return;
        }
        let mut i: usize = 0;
        while i < n
            invariant
                term.wf(),
                term.nonempty(),
                n == params@.len(),
                n > 0,
                sgr_from(term@, params@, i as int) == sgr_from(old(term)@, params@, 0),
            decreases n - i,
        {
            let skip = Self::sgr_one(term, params, i);
            if skip >= n - i {
                proof {
                    assert(sgr_from(term@, params@, (i + 1 + skip) as int) == term@);
                }
                i = n;
            } else {
                i = i + 1 + skip;
            }
        }
    }

    /// An ESC sequence.
    #[verifier::spinoff_prover]
    fn esc_dispatch(term: &mut Term, intermediates: &Vec<u8>, final_byte: u8)
        requires
            old(term).wf(),
            old(term).nonempty(),
        ensures
            final(term).wf(),
            final(term).nonempty(),
            final(term)@ == esc_performed(old(term)@, intermediates@, final_byte),
    {
        proof {
            reveal(esc_performed);
        }
        if intermediates.len() == 0 {
            if final_byte == 0x37 {
                term.save_cursor();
            } else if final_byte == 0x38 {
                term.restore_cursor();
            } else if final_byte == 0x44 {
                term.linefeed();
            } else if final_byte == 0x45 {
                term.carriage_return();
                term.linefeed();
            } else if final_byte == 0x48 {
                term.set_tab_stop();
            } else if final_byte == 0x4D {
                term.reverse_index();
            } else if final_byte == 0x63 {
                term.reset();
            }
        } else if intermediates[0] == 0x23 && final_byte == 0x38 {
            term.fill_with('E');
        }
    }

    /// An OSC sequence.
    fn osc_dispatch(&mut self, term: &mut Term, command: u16, payload: String)
        requires
            old(term).wf(),
            old(term).nonempty(),
            command == 8 && !ends_link(payload@) ==> old(self)@.next_hyperlink_id < u32::MAX,
        ensures
            final(term).wf(),
            final(term).nonempty(),
            (final(self)@, final(term)@) == osc_performed(old(self)@, old(term)@, command, payload@),
    {
        proof {
            reveal(osc_performed);
        }
        if command == 0 {
            term.set_title(payload.clone());
            term.set_icon_name(payload);
        } else if command == 1 {
            term.set_icon_name(payload);
        } else if command == 2 {
            term.set_title(payload);
        } else if command == 8 {
            if ends_hyperlink(payload.as_str()) {
                self.current_hyperlink_id = None;
            } else {
                self.current_hyperlink_id = Some(self.next_hyperlink_id);
                self.next_hyperlink_id = self.next_hyperlink_id + 1;
            }
        }
    }
}

/// Whether an OSC 8 payload (`params;uri`) ends the current hyperlink: its
/// URI is empty.
pub fn ends_hyperlink(payload: &str) -> (res: bool)
    ensures
        res == ends_link(payload@),
{
    let n = payload.unicode_len();
    let mut i: usize = 0;
    proof {
        assert(payload@.subrange(0, n as int) =~= payload@);
    }
    while i < n
        invariant
            i <= n,
            n == payload@.len(),
            after_semicolon(payload@) == after_semicolon(payload@.subrange(i as int, n as int)),
        decreases n - i,
    {
        let ghost rest = payload@.subrange(i as int, n as int);
        proof {
            assert(rest.drop_first() =~= payload@.subrange(i + 1, n as int));
            assert(rest[0] == payload@[i as int]);
        }
        if payload.get_char(i) == ';' {
            return i + 1 == n;
        }
        i = i + 1;
    }
    proof {
        assert(payload@.subrange(i as int, n as int).len() == 0);
    }
    n == 0
}

} // verus!
