//! What a key press asks of the application: one of its shortcuts (copy,
//! paste, tabs, split panes, font zoom) or bytes for the shell; and what a
//! turn of the mouse wheel asks: a report for the shell or a scroll through
//! the history.
//!
//! The shortcuts are those of the Linux build: Ctrl+Shift with a letter for
//! the application's own commands, Ctrl+Shift with `=`, `-` or `0` for the
//! font size.

use vstd::prelude::*;
use vstd::string::*;
use vstd::utf8::encode_utf8;

use crate::config::{lowercase, str_to_lowercase};
use crate::input::{
    bracketed_paste, encode_bracketed_paste, encode_key, encode_mouse, key_bytes, mouse_bytes, Key,
    KeyView, Modifiers, MouseButton, MouseEvent, NamedKey,
};
use crate::params::copy_of;
use crate::split_pane::{NavDirection, SplitDirection};

verus! {

/// What a key press asks the application to do.
#[derive(Debug, Clone, PartialEq, Eq)]
pub enum KeyCommand {
    /// Copy the selection (Ctrl+Shift+C)
    Copy,
    /// Paste the clipboard (Ctrl+Shift+V)
    Paste,
    /// Search (Ctrl+Shift+F)
    Find,
    /// Reload the configuration (Ctrl+Shift+R)
    ReloadConfig,
    /// Open a tab (Ctrl+Shift+T)
    NewTab,
    /// Close the current tab (Ctrl+Shift+W)
    CloseTab,
    /// Split the focused pane (Ctrl+Shift+D side by side, Ctrl+Shift+E stacked)
    SplitPane(SplitDirection),
    /// Close the focused pane (Ctrl+Shift+Q)
    ClosePane,
    /// Move the focus to a neighbouring pane (Ctrl+Shift+arrow)
    FocusPane(NavDirection),
    /// Make the font larger
    ZoomIn,
    /// Make the font smaller
    ZoomOut,
    /// Go back to the configured font size
    ZoomReset,
    /// Write these bytes to the shell
    Send(Vec<u8>),
    /// Nothing to do
    Ignore,
}

/// The abstract value of a key command.
pub enum KeyCommandView {
    Copy,
    Paste,
    Find,
    ReloadConfig,
    NewTab,
    CloseTab,
    SplitPane(SplitDirection),
    ClosePane,
    FocusPane(NavDirection),
    ZoomIn,
    ZoomOut,
    ZoomReset,
    Send(Seq<u8>),
    Ignore,
}

impl View for KeyCommand {
    type V = KeyCommandView;

    open spec fn view(&self) -> KeyCommandView {
        match self {
            KeyCommand::Copy => KeyCommandView::Copy,
            KeyCommand::Paste => KeyCommandView::Paste,
            KeyCommand::Find => KeyCommandView::Find,
            KeyCommand::ReloadConfig => KeyCommandView::ReloadConfig,
            KeyCommand::NewTab => KeyCommandView::NewTab,
            KeyCommand::CloseTab => KeyCommandView::CloseTab,
            KeyCommand::SplitPane(d) => KeyCommandView::SplitPane(*d),
            KeyCommand::ClosePane => KeyCommandView::ClosePane,
            KeyCommand::FocusPane(d) => KeyCommandView::FocusPane(*d),
            KeyCommand::ZoomIn => KeyCommandView::ZoomIn,
            KeyCommand::ZoomOut => KeyCommandView::ZoomOut,
            KeyCommand::ZoomReset => KeyCommandView::ZoomReset,
            KeyCommand::Send(v) => KeyCommandView::Send(v@),
            KeyCommand::Ignore => KeyCommandView::Ignore,
        }
    }
}

/// Whether a key with text, whose lowercase form is `lowered`, is the letter
/// `c` in either case.
pub open spec fn is_letter_key(key: KeyView, lowered: Seq<char>, c: char) -> bool {
    key is Character && lowered == seq![c]
}

/// Whether a key's text is exactly `c`.
pub open spec fn is_text_key(key: KeyView, c: char) -> bool {
    key matches KeyView::Character(s) && s == seq![c]
}

/// The byte to send for text whose first character is a control character
/// (Ctrl+A to Ctrl+Z, or DEL).
pub open spec fn control_byte(text: Seq<char>) -> Option<u8> {
    if text.len() > 0 && ((1 <= text[0] as int && text[0] as int <= 26) || text[0] as int == 0x7f) {
        Some(text[0] as u8)
    } else {
        None
    }
}

/// The lowercase form of a key's text; empty for keys without text.
pub open spec fn lowered_text(key: KeyView) -> Seq<char> {
    match key {
        KeyView::Character(s) => lowercase(s),
        _ => Seq::empty(),
    }
}

/// The command for a key event. `lowered` is the lowercase form of the key's
/// text, `typed` the text the key produces with every modifier applied, and
/// `logo` whether the logo key is held. Shortcuts come first, then control
/// characters, then font zoom, and last the key's own bytes.
pub open spec fn key_command(
    pressed: bool,
    key: KeyView,
    lowered: Seq<char>,
    mods: Modifiers,
    logo: bool,
    has_tabs: bool,
    typed: Option<Seq<char>>,
    app_cursor: bool,
) -> KeyCommandView {
    let ctrl_shift = mods.ctrl && mods.shift;
    if !pressed {
        KeyCommandView::Ignore
    } else if ctrl_shift && is_letter_key(key, lowered, 'c') {
        KeyCommandView::Copy
    } else if ctrl_shift && is_letter_key(key, lowered, 'v') {
        KeyCommandView::Paste
    } else if ctrl_shift && is_letter_key(key, lowered, 'f') {
        KeyCommandView::Find
    } else if ctrl_shift && is_letter_key(key, lowered, 'r') {
        KeyCommandView::ReloadConfig
    } else if ctrl_shift && is_letter_key(key, lowered, 't') && !logo {
        KeyCommandView::NewTab
    } else if ctrl_shift && is_letter_key(key, lowered, 'w') {
        KeyCommandView::CloseTab
    } else if !has_tabs {
        KeyCommandView::Ignore
    } else if ctrl_shift && is_letter_key(key, lowered, 'd') {
        KeyCommandView::SplitPane(SplitDirection::Horizontal)
    } else if ctrl_shift && is_letter_key(key, lowered, 'e') {
        KeyCommandView::SplitPane(SplitDirection::Vertical)
    } else if ctrl_shift && is_letter_key(key, lowered, 'q') {
        KeyCommandView::ClosePane
    } else if ctrl_shift && key == KeyView::Named(NamedKey::ArrowLeft) {
        KeyCommandView::FocusPane(NavDirection::Left)
    } else if ctrl_shift && key == KeyView::Named(NamedKey::ArrowRight) {
        KeyCommandView::FocusPane(NavDirection::Right)
    } else if ctrl_shift && key == KeyView::Named(NamedKey::ArrowUp) {
        KeyCommandView::FocusPane(NavDirection::Up)
    } else if ctrl_shift && key == KeyView::Named(NamedKey::ArrowDown) {
        KeyCommandView::FocusPane(NavDirection::Down)
    } else if typed is Some && control_byte(typed.unwrap()) is Some {
        KeyCommandView::Send(seq![control_byte(typed.unwrap()).unwrap()])
    } else if key is Character && control_byte(key->Character_0) is Some {
        KeyCommandView::Send(seq![control_byte(key->Character_0).unwrap()])
    } else if ctrl_shift && (is_text_key(key, '=') || is_text_key(key, '+')) {
        KeyCommandView::ZoomIn
    } else if ctrl_shift && is_text_key(key, '-') {
        KeyCommandView::ZoomOut
    } else if ctrl_shift && is_text_key(key, '0') {
        KeyCommandView::ZoomReset
    } else if ctrl_shift && key == KeyView::Named(NamedKey::ArrowUp) {
        KeyCommandView::ZoomIn
    } else if ctrl_shift && key == KeyView::Named(NamedKey::ArrowDown) {
        KeyCommandView::ZoomOut
    } else {
        match key_bytes(key, mods, app_cursor) {
            Some(b) => KeyCommandView::Send(b),
            None => KeyCommandView::Ignore,
        }
    }
}

/// Whether `s` is the single character `c`.
fn is_single(s: &str, c: char) -> (res: bool)
    ensures
        res == (s@ == seq![c]),
{
    if s.unicode_len() != 1 {
        return false;
    }
    let first = s.get_char(0);
    proof {
        if first == c {
            assert(s@ =~= seq![c]);
        }
    }
    first == c
}

/// The control byte for text starting with a control character.
fn text_control_byte(text: &str) -> (res: Option<u8>)
    ensures
        res == control_byte(text@),
{
    if text.unicode_len() == 0 {
        return None;
    }
    let first = text.get_char(0);
    let code = first as u32;
    if (1 <= code && code <= 26) || code == 0x7f {
        Some(code as u8)
    } else {
        None
    }
}

/// Whether `key` is the named key `named`.
fn is_named(key: &Key, named: NamedKey) -> (res: bool)
    ensures
        res == (key@ == KeyView::Named(named)),
{
    match key {
        Key::Named(k) => *k == named,
        _ => false,
    }
}

/// Whether `key` has text, and `lowered` is the letter `c`.
fn is_letter(key: &Key, lowered: &str, c: char) -> (res: bool)
    ensures
        res == is_letter_key(key@, lowered@, c),
{
    match key {
        Key::Character(_) => is_single(lowered, c),
        _ => false,
    }
}

/// Whether `key`'s text is exactly `c`.
fn is_text(key: &Key, c: char) -> (res: bool)
    ensures
        res == is_text_key(key@, c),
{
    match key {
        Key::Character(s) => is_single(s.as_str(), c),
        _ => false,
    }
}

/// The command for a key event, given the lowercase form `lowered` of the
/// key's text (empty for a key without text).
pub fn command_for_key(
    pressed: bool,
    key: &Key,
    lowered: &str,
    mods: Modifiers,
    logo: bool,
    has_tabs: bool,
    typed: Option<&str>,
    application_cursor_keys: bool,
) -> (res: KeyCommand)
    ensures
        res@ == key_command(
            pressed,
            key@,
            lowered@,
            mods,
            logo,
            has_tabs,
            match typed {
                Some(t) => Some(t@),
                None => None,
            },
            application_cursor_keys,
        ),
{
    let ctrl_shift = mods.ctrl && mods.shift;
    if !pressed {
        return KeyCommand::Ignore;
    }
    if ctrl_shift {
        if is_letter(key, lowered, 'c') {
            return KeyCommand::Copy;
        }
        if is_letter(key, lowered, 'v') {
            return KeyCommand::Paste;
        }
        if is_letter(key, lowered, 'f') {
            return KeyCommand::Find;
        }
        if is_letter(key, lowered, 'r') {
            return KeyCommand::ReloadConfig;
        }
        if is_letter(key, lowered, 't') && !logo {
            return KeyCommand::NewTab;
        }
        if is_letter(key, lowered, 'w') {
            return KeyCommand::CloseTab;
        }
    }
    if !has_tabs {
        return KeyCommand::Ignore;
    }
    if ctrl_shift {
        if is_letter(key, lowered, 'd') {
            return KeyCommand::SplitPane(SplitDirection::Horizontal);
        }
        if is_letter(key, lowered, 'e') {
            return KeyCommand::SplitPane(SplitDirection::Vertical);
        }
        if is_letter(key, lowered, 'q') {
            return KeyCommand::ClosePane;
        }
        if is_named(key, NamedKey::ArrowLeft) {
            return KeyCommand::FocusPane(NavDirection::Left);
        }
        if is_named(key, NamedKey::ArrowRight) {
            return KeyCommand::FocusPane(NavDirection::Right);
        }
        if is_named(key, NamedKey::ArrowUp) {
            return KeyCommand::FocusPane(NavDirection::Up);
        }
        if is_named(key, NamedKey::ArrowDown) {
            return KeyCommand::FocusPane(NavDirection::Down);
        }
    }
    if let Some(t) = typed {
        if let Some(b) = text_control_byte(t) {
            let v = vec![b];
            assert(v@ =~= seq![b]);
            return KeyCommand::Send(v);
        }
    }
    if let Key::Character(s) = key {
        if let Some(b) = text_control_byte(s.as_str()) {
            let v = vec![b];
            assert(v@ =~= seq![b]);
            return KeyCommand::Send(v);
        }
    }
    if ctrl_shift {
        if is_text(key, '=') || is_text(key, '+') {
            return KeyCommand::ZoomIn;
        }
        if is_text(key, '-') {
            return KeyCommand::ZoomOut;
        }
        if is_text(key, '0') {
            return KeyCommand::ZoomReset;
        }
        if is_named(key, NamedKey::ArrowUp) {
            return KeyCommand::ZoomIn;
        }
        if is_named(key, NamedKey::ArrowDown) {
            return KeyCommand::ZoomOut;
        }
    }
    match encode_key(key, mods, application_cursor_keys, false) {
        Some(data) => KeyCommand::Send(data),
        None => KeyCommand::Ignore,
    }
}

/// The command for a key event: `pressed` is false for a release, `logo`
/// whether the logo key is held, `has_tabs` whether any tab is open, `typed`
/// the text the key produces with every modifier applied, and
/// `application_cursor_keys` the cursor key mode of the focused pane.
pub fn key_input_command(
    pressed: bool,
    key: &Key,
    mods: Modifiers,
    logo: bool,
    has_tabs: bool,
    typed: Option<&str>,
    application_cursor_keys: bool,
) -> (res: KeyCommand)
    ensures
        res@ == key_command(
            pressed,
            key@,
            lowered_text(key@),
            mods,
            logo,
            has_tabs,
            match typed {
                Some(t) => Some(t@),
                None => None,
            },
            application_cursor_keys,
        ),
{
    let lowered = match key {
        Key::Character(s) => str_to_lowercase(s.as_str()),
        _ => String::new(),
    };
    proof {
        if !(key@ is Character) {
            assert(lowered@ =~= Seq::<char>::empty());
        }
    }
    command_for_key(pressed, key, lowered.as_str(), mods, logo, has_tabs, typed, application_cursor_keys)
}

/// What a turn of the mouse wheel asks the application to do.
#[derive(Debug, Clone, PartialEq, Eq)]
pub enum WheelAction {
    /// Nothing to do
    Ignore,
    /// Write this report to the shell
    Send(Vec<u8>),
    /// Show the history this many lines up from the live screen
    ScrollTo(usize),
}

/// The abstract value of a wheel action.
pub enum WheelActionView {
    Ignore,
    Send(Seq<u8>),
    ScrollTo(nat),
}

impl View for WheelAction {
    type V = WheelActionView;

    open spec fn view(&self) -> WheelActionView {
        match self {
            WheelAction::Ignore => WheelActionView::Ignore,
            WheelAction::Send(v) => WheelActionView::Send(v@),
            WheelAction::ScrollTo(n) => WheelActionView::ScrollTo(*n as nat),
        }
    }
}

/// The wheel action for `lines` lines up (negative: down) at cell (`x`,
/// `y`). While the shell tracks the mouse, or the alternate screen is shown,
/// the turn is reported (as a one-step scroll, up when `lines` taken as a
/// byte is positive); otherwise the view moves through the history, never
/// past its oldest line nor below the live screen.
pub open spec fn wheel(
    lines: i32,
    x: u16,
    y: u16,
    tracking: bool,
    alternate_screen: bool,
    sgr: bool,
    button_events: bool,
    any_events: bool,
    scroll_offset: nat,
    history_len: nat,
) -> WheelActionView {
    if lines == 0 {
        WheelActionView::Ignore
    } else if tracking || alternate_screen {
        match mouse_bytes(MouseEvent::Scroll { x, y, delta: lines as i8 }, sgr, button_events, any_events) {
            Some(b) => WheelActionView::Send(b),
            None => WheelActionView::Ignore,
        }
    } else if lines > 0 {
        WheelActionView::ScrollTo(
            if scroll_offset + lines <= history_len { (scroll_offset + lines) as nat } else { history_len },
        )
    } else {
        WheelActionView::ScrollTo(
            if scroll_offset >= -lines { (scroll_offset + lines) as nat } else { 0 },
        )
    }
}

/// The wheel action for `lines` lines up (negative: down) at cell (`x`,
/// `y`), given the pane's mouse modes, how far up it is scrolled and how
/// many lines of history it has.
pub fn wheel_action(
    lines: i32,
    x: u16,
    y: u16,
    tracking: bool,
    alternate_screen: bool,
    sgr: bool,
    button_events: bool,
    any_events: bool,
    scroll_offset: usize,
    history_len: usize,
) -> (res: WheelAction)
    requires
        lines > i32::MIN,
        lines > 0 ==> scroll_offset + lines <= usize::MAX,
    ensures
        res@ == wheel(
            lines,
            x,
            y,
            tracking,
            alternate_screen,
            sgr,
            button_events,
            any_events,
            scroll_offset as nat,
            history_len as nat,
        ),
{
    if lines == 0 {
        return WheelAction::Ignore;
    }
    if tracking || alternate_screen {
        #[verifier::truncate]
        let delta: i8 = lines as i8;
        let event = MouseEvent::Scroll { x, y, delta };
        return match encode_mouse(event, sgr, button_events, any_events) {
            Some(data) => WheelAction::Send(data),
            None => WheelAction::Ignore,
        };
    }
    if lines > 0 {
        let up = scroll_offset + lines as usize;
        WheelAction::ScrollTo(
            if up < history_len {
                up
            } else {
                history_len
            },
        )
    } else {
        WheelAction::ScrollTo(scroll_offset.saturating_sub((-lines) as usize))
    }
}

/// What a paste of `text` writes to the shell: nothing for empty text, the
/// text between the bracketed paste markers (without its ESC bytes) when
/// the shell asked for them, else the text itself.
pub open spec fn paste_data(text: Seq<char>, bracketed: bool) -> Option<Seq<u8>> {
    if text.len() == 0 {
        None
    } else if bracketed {
        Some(bracketed_paste(text))
    } else {
        Some(encode_utf8(text))
    }
}

/// The bytes a paste of `text` writes to the shell, when there are any.
pub fn paste_bytes(text: &str, bracketed_paste: bool) -> (res: Option<Vec<u8>>)
    ensures
        match res {
            Some(v) => paste_data(text@, bracketed_paste) == Some(v@),
            None => paste_data(text@, bracketed_paste) is None,
        },
{
    if text.unicode_len() == 0 {
        return None;
    }
    if bracketed_paste {
        Some(encode_bracketed_paste(text))
    } else {
        Some(copy_of(text.as_bytes()))
    }
}

/// What a mouse button or a mouse move over a pane asks of the application.
#[derive(Debug, Clone, PartialEq, Eq)]
pub enum MouseAction {
    /// Nothing to do
    Ignore,
    /// Write this report to the shell
    Send(Vec<u8>),
    /// Start a selection at this position (rows above the screen are in the
    /// history)
    StartSelection { row: i64, col: usize },
}

/// The abstract value of a mouse action.
pub enum MouseActionView {
    Ignore,
    Send(Seq<u8>),
    StartSelection { row: int, col: nat },
}

impl View for MouseAction {
    type V = MouseActionView;

    open spec fn view(&self) -> MouseActionView {
        match self {
            MouseAction::Ignore => MouseActionView::Ignore,
            MouseAction::Send(v) => MouseActionView::Send(v@),
            MouseAction::StartSelection { row, col } => MouseActionView::StartSelection {
                row: *row as int,
                col: *col as nat,
            },
        }
    }
}

/// The report for a mouse event, or nothing.
pub open spec fn report_or_ignore(b: Option<Seq<u8>>) -> MouseActionView {
    match b {
        Some(v) => MouseActionView::Send(v),
        None => MouseActionView::Ignore,
    }
}

/// What pressing (or releasing) `button` on cell (`x`, `y`) of a pane does:
/// while the shell tracks the mouse, a report; otherwise a press of the
/// left button starts a selection at that cell, counted from the top of the
/// history view that is `scroll_offset` lines up (the offset taken as a
/// signed 64-bit number).
pub open spec fn mouse_button(
    button: MouseButton,
    pressed: bool,
    x: u16,
    y: u16,
    tracking: bool,
    scroll_offset: usize,
    sgr: bool,
    button_events: bool,
    any_events: bool,
) -> MouseActionView {
    if !tracking {
        if button == MouseButton::Left && pressed {
            MouseActionView::StartSelection { row: y - (scroll_offset as i64), col: x as nat }
        } else {
            MouseActionView::Ignore
        }
    } else if pressed {
        report_or_ignore(mouse_bytes(MouseEvent::Press(button, x, y), sgr, button_events, any_events))
    } else {
        report_or_ignore(mouse_bytes(MouseEvent::Release(button, x, y), sgr, button_events, any_events))
    }
}

/// What pressing or releasing `button` on cell (`x`, `y`) of a pane does.
pub fn mouse_button_action(
    button: MouseButton,
    pressed: bool,
    x: u16,
    y: u16,
    tracking: bool,
    scroll_offset: usize,
    sgr: bool,
    button_events: bool,
    any_events: bool,
) -> (res: MouseAction)
    requires
        !tracking && button == MouseButton::Left && pressed ==> y - (scroll_offset as i64) <= i64::MAX,
    ensures
        res@ == mouse_button(
            button,
            pressed,
            x,
            y,
            tracking,
            scroll_offset,
            sgr,
            button_events,
            any_events,
        ),
{
    if !tracking {
        if button == MouseButton::Left && pressed {
            #[verifier::truncate]
            let offset: i64 = scroll_offset as i64;
            let row: i64 = y as i64 - offset;
            return MouseAction::StartSelection { row, col: x as usize };
        }
        return MouseAction::Ignore;
    }
    let event = if pressed {
        MouseEvent::Press(button, x, y)
    } else {
        MouseEvent::Release(button, x, y)
    };
    match encode_mouse(event, sgr, button_events, any_events) {
        Some(data) => MouseAction::Send(data),
        None => MouseAction::Ignore,
    }
}

/// What a mouse move to cell (`x`, `y`) of a pane reports: nothing unless
/// the shell tracks the mouse and asked for every move, or for moves with a
/// button held while one is.
pub open spec fn mouse_motion(
    x: u16,
    y: u16,
    tracking: bool,
    any_button_down: bool,
    sgr: bool,
    button_events: bool,
    any_events: bool,
) -> MouseActionView {
    if tracking && (any_events || (button_events && any_button_down)) {
        report_or_ignore(mouse_bytes(MouseEvent::Move(x, y), sgr, button_events, any_events))
    } else {
        MouseActionView::Ignore
    }
}

/// What a mouse move to cell (`x`, `y`) of a pane reports.
pub fn mouse_motion_action(
    x: u16,
    y: u16,
    tracking: bool,
    any_button_down: bool,
    sgr: bool,
    button_events: bool,
    any_events: bool,
) -> (res: MouseAction)
    ensures
        res@ == mouse_motion(x, y, tracking, any_button_down, sgr, button_events, any_events),
{
    if tracking && (any_events || (button_events && any_button_down)) {
        match encode_mouse(MouseEvent::Move(x, y), sgr, button_events, any_events) {
            Some(data) => MouseAction::Send(data),
            None => MouseAction::Ignore,
        }
    } else {
        MouseAction::Ignore
    }
}

} // verus!
