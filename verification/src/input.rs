//! Keyboard and mouse input encoding.
//!
//! Turns key presses, mouse events, focus changes and pastes into the byte
//! sequences a terminal application expects on its input.

use vstd::prelude::*;
use vstd::string::*;
use vstd::utf8::encode_utf8;

use crate::cell::char_to_string;
use crate::params::copy_of;
use crate::text::{decimal, push_bytes, push_decimal};

verus! {

/// Modifier keys held during a key press.
#[derive(Debug, Clone, Copy, PartialEq, Eq, Structural)]
pub struct Modifiers {
    pub ctrl: bool,
    pub alt: bool,
    pub shift: bool,
}

/// Keys without a character of their own.
#[derive(Debug, Clone, Copy, PartialEq, Eq, Structural)]
pub enum NamedKey {
    Enter,
    Tab,
    Backspace,
    Escape,
    Space,
    ArrowUp,
    ArrowDown,
    ArrowRight,
    ArrowLeft,
    Home,
    End,
    PageUp,
    PageDown,
    Insert,
    Delete,
    F1,
    F2,
    F3,
    F4,
    F5,
    F6,
    F7,
    F8,
    F9,
    F10,
    F11,
    F12,
    /// Any other named key
    Other,
}

/// A key press.
#[derive(Debug, Clone, PartialEq, Eq)]
pub enum Key {
    /// A key that produces text
    Character(String),
    /// A named key
    Named(NamedKey),
    /// A key that cannot be identified, or a dead key
    Unidentified,
}

/// The abstract value of a key press.
pub enum KeyView {
    Character(Seq<char>),
    Named(NamedKey),
    Unidentified,
}

impl View for Key {
    type V = KeyView;

    open spec fn view(&self) -> KeyView {
        match self {
            Key::Character(s) => KeyView::Character(s@),
            Key::Named(k) => KeyView::Named(*k),
            Key::Unidentified => KeyView::Unidentified,
        }
    }
}

/// Mouse buttons.
#[derive(Debug, Clone, Copy, PartialEq, Eq, Structural)]
pub enum MouseButton {
    Left,
    Middle,
    Right,
    /// Any other button
    Other,
}

/// A mouse event at a zero-based cell position.
#[derive(Debug, Clone, Copy, PartialEq, Eq, Structural)]
pub enum MouseEvent {
    Press(MouseButton, u16, u16),
    Release(MouseButton, u16, u16),
    Move(u16, u16),
    Scroll { x: u16, y: u16, delta: i8 },
}

/// The xterm modifier parameter: 1 plus 1 for shift, 2 for alt and 4 for
/// control, when any is held.
pub open spec fn modifier_code(m: Modifiers) -> Option<u8> {
    if m.ctrl || m.alt || m.shift {
        Some((1 + (if m.shift { 1int } else { 0 }) + (if m.alt { 2int } else { 0 }) + (if m.ctrl { 4int } else { 0 })) as u8)
    } else {
        None
    }
}

/// ESC [ 1 ; m `key`
pub open spec fn modified_key(key: u8, m: u8) -> Seq<u8> {
    seq![0x1bu8, 0x5b, 0x31, 0x3b] + decimal(m as nat) + seq![key]
}

/// ESC [ `code` ; m ~  (or ESC [ `code` ~ without modifiers)
pub open spec fn tilde_key(code: u8, modifier: Option<u8>) -> Seq<u8> {
    match modifier {
        Some(m) => seq![0x1bu8, 0x5b] + decimal(code as nat) + seq![0x3bu8] + decimal(m as nat) + seq![0x7eu8],
        None => seq![0x1bu8, 0x5b] + decimal(code as nat) + seq![0x7eu8],
    }
}

/// An arrow key: SS3 form in application cursor mode.
pub open spec fn cursor_key(key: u8, modifier: Option<u8>, application: bool) -> Seq<u8> {
    match modifier {
        Some(m) => modified_key(key, m),
        None => if application {
            seq![0x1bu8, 0x4f, key]
        } else {
            seq![0x1bu8, 0x5b, key]
        },
    }
}

/// Home and End.
pub open spec fn special_key(key: u8, modifier: Option<u8>) -> Seq<u8> {
    match modifier {
        Some(m) => modified_key(key, m),
        None => seq![0x1bu8, 0x5b, key],
    }
}

/// The code of function key `num` (1 to 12).
pub open spec fn function_code(num: u8) -> u8 {
    if num == 1 {
        0x50
    } else if num == 2 {
        0x51
    } else if num == 3 {
        0x52
    } else if num == 4 {
        0x53
    } else if num == 5 {
        15
    } else if num == 6 {
        17
    } else if num == 7 {
        18
    } else if num == 8 {
        19
    } else if num == 9 {
        20
    } else if num == 10 {
        21
    } else if num == 11 {
        23
    } else {
        24
    }
}

/// F1-F4 use the SS3 form, F5-F12 the tilde form.
pub open spec fn function_key(num: u8, modifier: Option<u8>) -> Seq<u8> {
    let code = function_code(num);
    if num <= 4 {
        match modifier {
            Some(m) => modified_key(code, m),
            None => seq![0x1bu8, 0x4f, code],
        }
    } else {
        tilde_key(code, modifier)
    }
}

/// The bytes for a named key.
pub open spec fn named_key_bytes(key: NamedKey, mods: Modifiers, app_cursor: bool) -> Option<Seq<u8>> {
    let m = modifier_code(mods);
    match key {
        NamedKey::Enter => Some(seq![0x0du8]),
        NamedKey::Tab => Some(if mods.shift { seq![0x1bu8, 0x5b, 0x5a] } else { seq![0x09u8] }),
        NamedKey::Backspace => Some(if mods.ctrl { seq![0x08u8] } else { seq![0x7fu8] }),
        NamedKey::Escape => Some(seq![0x1bu8]),
        NamedKey::Space => Some(if mods.ctrl { seq![0x00u8] } else { seq![0x20u8] }),
        NamedKey::ArrowUp => Some(cursor_key(0x41, m, app_cursor)),
        NamedKey::ArrowDown => Some(cursor_key(0x42, m, app_cursor)),
        NamedKey::ArrowRight => Some(cursor_key(0x43, m, app_cursor)),
        NamedKey::ArrowLeft => Some(cursor_key(0x44, m, app_cursor)),
        NamedKey::Home => Some(special_key(0x48, m)),
        NamedKey::End => Some(special_key(0x46, m)),
        NamedKey::PageUp => Some(tilde_key(5, m)),
        NamedKey::PageDown => Some(tilde_key(6, m)),
        NamedKey::Insert => Some(tilde_key(2, m)),
        NamedKey::Delete => Some(tilde_key(3, m)),
        NamedKey::F1 => Some(function_key(1, m)),
        NamedKey::F2 => Some(function_key(2, m)),
        NamedKey::F3 => Some(function_key(3, m)),
        NamedKey::F4 => Some(function_key(4, m)),
        NamedKey::F5 => Some(function_key(5, m)),
        NamedKey::F6 => Some(function_key(6, m)),
        NamedKey::F7 => Some(function_key(7, m)),
        NamedKey::F8 => Some(function_key(8, m)),
        NamedKey::F9 => Some(function_key(9, m)),
        NamedKey::F10 => Some(function_key(10, m)),
        NamedKey::F11 => Some(function_key(11, m)),
        NamedKey::F12 => Some(function_key(12, m)),
        NamedKey::Other => None,
    }
}

pub open spec fn is_ascii_letter(c: char) -> bool {
    ('a' <= c && c <= 'z') || ('A' <= c && c <= 'Z')
}

/// The control code of `c` with Ctrl held, for the characters that have one.
pub open spec fn ctrl_code(c: char) -> Option<u8> {
    if is_ascii_letter(c) {
        Some((if c <= 'Z' { c as int - 0x41 + 1 } else { c as int - 0x61 + 1 }) as u8)
    } else if c == '@' {
        Some(0)
    } else if c == '[' {
        Some(27)
    } else if c == '\\' {
        Some(28)
    } else if c == ']' {
        Some(29)
    } else if c == '^' {
        Some(30)
    } else if c == '_' {
        Some(31)
    } else if c == '?' {
        Some(127)
    } else {
        None
    }
}

/// The bytes for the first character `c` of a key's text.
pub open spec fn character_bytes(c: char, mods: Modifiers) -> Seq<u8> {
    if 1 <= c as int && c as int <= 26 {
        seq![c as u8]
    } else if mods.ctrl && ctrl_code(c) is Some {
        seq![ctrl_code(c).unwrap()]
    } else if mods.alt {
        seq![0x1bu8] + encode_utf8(seq![c])
    } else {
        encode_utf8(seq![c])
    }
}

/// The bytes for a key press, when it has any.
pub open spec fn key_bytes(key: KeyView, mods: Modifiers, app_cursor: bool) -> Option<Seq<u8>> {
    match key {
        KeyView::Character(s) => if s.len() == 0 {
            None
        } else {
            Some(character_bytes(s[0], mods))
        },
        KeyView::Named(k) => named_key_bytes(k, mods, app_cursor),
        KeyView::Unidentified => None,
    }
}

/// No modifier key is held.
pub open spec fn unmodified(m: Modifiers) -> bool {
    !m.ctrl && !m.alt && !m.shift
}

/// The ASCII digit of xterm's modifier parameter: 1, plus 1 for shift, 2
/// for alt and 4 for control.
pub open spec fn modifier_digit(m: Modifiers) -> u8 {
    (0x31 + (if m.shift { 1int } else { 0 }) + (if m.alt { 2int } else { 0 }) + (if m.ctrl { 4int } else { 0 })) as u8
}

/// Without modifiers PageUp, PageDown, Insert and Delete send xterm's codes
/// ESC [ 5 ~, ESC [ 6 ~, ESC [ 2 ~ and ESC [ 3 ~; with modifiers the
/// modifier parameter comes before the `~` (ESC [ 5 ; m ~). Application
/// cursor mode does not change them.
pub proof fn lemma_editing_keys(mods: Modifiers, app_cursor: bool)
    ensures
        unmodified(mods) ==> key_bytes(KeyView::Named(NamedKey::PageUp), mods, app_cursor) == Some(
            seq![0x1bu8, 0x5b, 0x35, 0x7e],
        ),
        unmodified(mods) ==> key_bytes(KeyView::Named(NamedKey::PageDown), mods, app_cursor) == Some(
            seq![0x1bu8, 0x5b, 0x36, 0x7e],
        ),
        unmodified(mods) ==> key_bytes(KeyView::Named(NamedKey::Insert), mods, app_cursor) == Some(
            seq![0x1bu8, 0x5b, 0x32, 0x7e],
        ),
        unmodified(mods) ==> key_bytes(KeyView::Named(NamedKey::Delete), mods, app_cursor) == Some(
            seq![0x1bu8, 0x5b, 0x33, 0x7e],
        ),
        !unmodified(mods) ==> key_bytes(KeyView::Named(NamedKey::PageUp), mods, app_cursor) == Some(
            seq![0x1bu8, 0x5b, 0x35, 0x3b, modifier_digit(mods), 0x7e],
        ),
        !unmodified(mods) ==> key_bytes(KeyView::Named(NamedKey::PageDown), mods, app_cursor) == Some(
            seq![0x1bu8, 0x5b, 0x36, 0x3b, modifier_digit(mods), 0x7e],
        ),
        !unmodified(mods) ==> key_bytes(KeyView::Named(NamedKey::Insert), mods, app_cursor) == Some(
            seq![0x1bu8, 0x5b, 0x32, 0x3b, modifier_digit(mods), 0x7e],
        ),
        !unmodified(mods) ==> key_bytes(KeyView::Named(NamedKey::Delete), mods, app_cursor) == Some(
            seq![0x1bu8, 0x5b, 0x33, 0x3b, modifier_digit(mods), 0x7e],
        ),
{
    if !unmodified(mods) {
        let m = modifier_code(mods).unwrap();
        assert(decimal(m as nat) =~= seq![modifier_digit(mods)]);
    }
    assert(decimal(5) =~= seq![0x35u8]);
    assert(decimal(6) =~= seq![0x36u8]);
    assert(decimal(2) =~= seq![0x32u8]);
    assert(decimal(3) =~= seq![0x33u8]);
}

/// Without modifiers the arrow keys send ESC [ A (up), B (down), C (right)
/// and D (left), and ESC O with the same letter in application cursor
/// mode; Home and End send ESC [ H and ESC [ F; with modifiers they send
/// ESC [ 1 ; m and the letter, in either mode.
pub proof fn lemma_cursor_keys(mods: Modifiers, app_cursor: bool)
    ensures
        unmodified(mods) ==> key_bytes(KeyView::Named(NamedKey::ArrowUp), mods, app_cursor) == Some(
            seq![0x1bu8, if app_cursor { 0x4fu8 } else { 0x5bu8 }, 0x41],
        ),
        unmodified(mods) ==> key_bytes(KeyView::Named(NamedKey::ArrowDown), mods, app_cursor) == Some(
            seq![0x1bu8, if app_cursor { 0x4fu8 } else { 0x5bu8 }, 0x42],
        ),
        unmodified(mods) ==> key_bytes(KeyView::Named(NamedKey::ArrowRight), mods, app_cursor) == Some(
            seq![0x1bu8, if app_cursor { 0x4fu8 } else { 0x5bu8 }, 0x43],
        ),
        unmodified(mods) ==> key_bytes(KeyView::Named(NamedKey::ArrowLeft), mods, app_cursor) == Some(
            seq![0x1bu8, if app_cursor { 0x4fu8 } else { 0x5bu8 }, 0x44],
        ),
        unmodified(mods) ==> key_bytes(KeyView::Named(NamedKey::Home), mods, app_cursor) == Some(
            seq![0x1bu8, 0x5b, 0x48],
        ),
        unmodified(mods) ==> key_bytes(KeyView::Named(NamedKey::End), mods, app_cursor) == Some(
            seq![0x1bu8, 0x5b, 0x46],
        ),
        !unmodified(mods) ==> key_bytes(KeyView::Named(NamedKey::ArrowUp), mods, app_cursor) == Some(
            seq![0x1bu8, 0x5b, 0x31, 0x3b, modifier_digit(mods), 0x41],
        ),
        !unmodified(mods) ==> key_bytes(KeyView::Named(NamedKey::ArrowDown), mods, app_cursor) == Some(
            seq![0x1bu8, 0x5b, 0x31, 0x3b, modifier_digit(mods), 0x42],
        ),
        !unmodified(mods) ==> key_bytes(KeyView::Named(NamedKey::ArrowRight), mods, app_cursor) == Some(
            seq![0x1bu8, 0x5b, 0x31, 0x3b, modifier_digit(mods), 0x43],
        ),
        !unmodified(mods) ==> key_bytes(KeyView::Named(NamedKey::ArrowLeft), mods, app_cursor) == Some(
            seq![0x1bu8, 0x5b, 0x31, 0x3b, modifier_digit(mods), 0x44],
        ),
        !unmodified(mods) ==> key_bytes(KeyView::Named(NamedKey::Home), mods, app_cursor) == Some(
            seq![0x1bu8, 0x5b, 0x31, 0x3b, modifier_digit(mods), 0x48],
        ),
        !unmodified(mods) ==> key_bytes(KeyView::Named(NamedKey::End), mods, app_cursor) == Some(
            seq![0x1bu8, 0x5b, 0x31, 0x3b, modifier_digit(mods), 0x46],
        ),
{
    if !unmodified(mods) {
        let m = modifier_code(mods).unwrap();
        assert(decimal(m as nat) =~= seq![modifier_digit(mods)]);
    }
}

/// Without modifiers F1 to F4 send ESC O P, Q, R and S, and F5 to F12 send
/// ESC [ 15 ~, 17 ~, 18 ~, 19 ~, 20 ~, 21 ~, 23 ~ and 24 ~.
pub proof fn lemma_function_keys(mods: Modifiers, app_cursor: bool)
    requires
        unmodified(mods),
    ensures
        key_bytes(KeyView::Named(NamedKey::F1), mods, app_cursor) == Some(seq![0x1bu8, 0x4f, 0x50]),
        key_bytes(KeyView::Named(NamedKey::F2), mods, app_cursor) == Some(seq![0x1bu8, 0x4f, 0x51]),
        key_bytes(KeyView::Named(NamedKey::F3), mods, app_cursor) == Some(seq![0x1bu8, 0x4f, 0x52]),
        key_bytes(KeyView::Named(NamedKey::F4), mods, app_cursor) == Some(seq![0x1bu8, 0x4f, 0x53]),
        key_bytes(KeyView::Named(NamedKey::F5), mods, app_cursor) == Some(seq![0x1bu8, 0x5b, 0x31, 0x35, 0x7e]),
        key_bytes(KeyView::Named(NamedKey::F6), mods, app_cursor) == Some(seq![0x1bu8, 0x5b, 0x31, 0x37, 0x7e]),
        key_bytes(KeyView::Named(NamedKey::F7), mods, app_cursor) == Some(seq![0x1bu8, 0x5b, 0x31, 0x38, 0x7e]),
        key_bytes(KeyView::Named(NamedKey::F8), mods, app_cursor) == Some(seq![0x1bu8, 0x5b, 0x31, 0x39, 0x7e]),
        key_bytes(KeyView::Named(NamedKey::F9), mods, app_cursor) == Some(seq![0x1bu8, 0x5b, 0x32, 0x30, 0x7e]),
        key_bytes(KeyView::Named(NamedKey::F10), mods, app_cursor) == Some(seq![0x1bu8, 0x5b, 0x32, 0x31, 0x7e]),
        key_bytes(KeyView::Named(NamedKey::F11), mods, app_cursor) == Some(seq![0x1bu8, 0x5b, 0x32, 0x33, 0x7e]),
        key_bytes(KeyView::Named(NamedKey::F12), mods, app_cursor) == Some(seq![0x1bu8, 0x5b, 0x32, 0x34, 0x7e]),
{
    reveal_with_fuel(decimal, 3);
    assert(decimal(15) =~= seq![0x31u8, 0x35]);
    assert(decimal(17) =~= seq![0x31u8, 0x37]);
    assert(decimal(18) =~= seq![0x31u8, 0x38]);
    assert(decimal(19) =~= seq![0x31u8, 0x39]);
    assert(decimal(20) =~= seq![0x32u8, 0x30]);
    assert(decimal(21) =~= seq![0x32u8, 0x31]);
    assert(decimal(23) =~= seq![0x32u8, 0x33]);
    assert(decimal(24) =~= seq![0x32u8, 0x34]);
}

/// Enter sends CR, Tab HT (Shift+Tab ESC [ Z), Backspace DEL (Ctrl+Backspace
/// BS) and Escape ESC.
pub proof fn lemma_plain_keys(mods: Modifiers, app_cursor: bool)
    ensures
        key_bytes(KeyView::Named(NamedKey::Enter), mods, app_cursor) == Some(seq![0x0du8]),
        key_bytes(KeyView::Named(NamedKey::Tab), mods, app_cursor) == Some(
            if mods.shift { seq![0x1bu8, 0x5b, 0x5a] } else { seq![0x09u8] },
        ),
        key_bytes(KeyView::Named(NamedKey::Backspace), mods, app_cursor) == Some(
            if mods.ctrl { seq![0x08u8] } else { seq![0x7fu8] },
        ),
        key_bytes(KeyView::Named(NamedKey::Escape), mods, app_cursor) == Some(seq![0x1bu8]),
{
}

/// A key whose text starts with an ASCII letter, pressed with Ctrl, sends
/// that letter's control code (Ctrl+A and Ctrl+a are 1, ..., Ctrl+Z is 26),
/// with or without other modifiers.
pub proof fn lemma_ctrl_letter(text: Seq<char>, mods: Modifiers, app_cursor: bool)
    requires
        text.len() > 0,
        mods.ctrl,
        ('a' <= text[0] <= 'z') || ('A' <= text[0] <= 'Z'),
    ensures
        key_bytes(KeyView::Character(text), mods, app_cursor) == Some(seq![(text[0] as int % 32) as u8]),
{
}

/// An ASCII character encodes as its own byte.
proof fn lemma_ascii_encoding(c: char)
    requires
        c as int <= 0x7F,
    ensures
        encode_utf8(seq![c]) == seq![c as u8],
{
    let v = c as u32;
    assert(v & 0x7F == v) by (bit_vector)
        requires
            v <= 0x7F,
    ;
    assert(seq![c].drop_first() =~= Seq::<char>::empty());
    assert(seq![c][0] == c);
    assert(encode_utf8(Seq::<char>::empty()) =~= Seq::<u8>::empty());
    assert(vstd::utf8::encode_scalar(v) == seq![(v & 0x7F) as u8]);
    assert((v & 0x7F) as u8 == c as u8);
    assert(encode_utf8(seq![c]) == vstd::utf8::encode_scalar(v) + encode_utf8(Seq::<char>::empty()));
    assert(encode_utf8(seq![c]) =~= seq![c as u8]);
}

/// A key whose text starts with a printable ASCII character (space to `~`)
/// sends that byte without modifiers, and ESC then that byte with Alt
/// alone.
pub proof fn lemma_printable_ascii(text: Seq<char>, mods: Modifiers, app_cursor: bool)
    requires
        text.len() > 0,
        0x20 <= text[0] as int <= 0x7E,
        !mods.ctrl,
    ensures
        !mods.alt ==> key_bytes(KeyView::Character(text), mods, app_cursor) == Some(seq![text[0] as u8]),
        mods.alt ==> key_bytes(KeyView::Character(text), mods, app_cursor) == Some(seq![0x1bu8, text[0] as u8]),
{
    lemma_ascii_encoding(text[0]);
}

/// `v + 1`, saturating.
pub open spec fn plus_one(v: u16) -> u16 {
    if v == 0xFFFF {
        0xFFFF
    } else {
        (v + 1) as u16
    }
}

/// A mouse report at zero-based (`x`, `y`): SGR form, or the classic form
/// whose coordinates stop at 223.
pub open spec fn mouse_report(button: u8, x: u16, y: u16, pressed: bool, sgr: bool) -> Seq<u8> {
    let x1 = plus_one(x);
    let y1 = plus_one(y);
    if sgr {
        seq![0x1bu8, 0x5b, 0x3c] + decimal(button as nat) + seq![0x3bu8] + decimal(x1 as nat) + seq![0x3bu8]
            + decimal(y1 as nat) + seq![if pressed { 0x4du8 } else { 0x6du8 }]
    } else {
        seq![
            0x1bu8,
            0x5b,
            0x4d,
            if pressed { (button + 32) as u8 } else { 35 },
            ((if x1 < 223 { x1 as int } else { 223 }) + 32) as u8,
            ((if y1 < 223 { y1 as int } else { 223 }) + 32) as u8,
        ]
    }
}

pub open spec fn button_code(b: MouseButton) -> Option<u8> {
    match b {
        MouseButton::Left => Some(0),
        MouseButton::Middle => Some(1),
        MouseButton::Right => Some(2),
        MouseButton::Other => None,
    }
}

/// The report for a mouse event, when there is one.
pub open spec fn mouse_bytes(e: MouseEvent, sgr: bool, button_events: bool, any_events: bool) -> Option<Seq<u8>> {
    match e {
        MouseEvent::Press(b, x, y) => match button_code(b) {
            Some(c) => Some(mouse_report(c, x, y, true, sgr)),
            None => None,
        },
        MouseEvent::Release(b, x, y) => match button_code(b) {
            Some(c) => Some(mouse_report(c, x, y, false, sgr)),
            None => None,
        },
        MouseEvent::Move(x, y) => if any_events || button_events {
            Some(mouse_report(35, x, y, true, sgr))
        } else {
            None
        },
        MouseEvent::Scroll { x, y, delta } => Some(mouse_report(if delta > 0 { 64 } else { 65 }, x, y, true, sgr)),
    }
}

fn modifier_code_of(mods: Modifiers) -> (res: Option<u8>)
    ensures
        res == modifier_code(mods),
{
    if mods.ctrl || mods.alt || mods.shift {
        let mut code: u8 = 1;
        if mods.shift {
            code = code + 1;
        }
        if mods.alt {
            code = code + 2;
        }
        if mods.ctrl {
            code = code + 4;
        }
        Some(code)
    } else {
        None
    }
}

/// ESC [ 1 ; m `key`
fn push_modified(out: &mut Vec<u8>, key: u8, m: u8)
    ensures
        final(out)@ == old(out)@ + modified_key(key, m),
{
    push_bytes(out, &[0x1bu8, 0x5b, 0x31, 0x3b]);
    push_decimal(out, m as u64);
    out.push(key);
    proof {
        assert(out@ =~= old(out)@ + modified_key(key, m));
    }
}

fn encode_tilde_key(code: u8, modifier: Option<u8>) -> (res: Vec<u8>)
    ensures
        res@ == tilde_key(code, modifier),
{
    let mut out: Vec<u8> = Vec::new();
    push_bytes(&mut out, &[0x1bu8, 0x5b]);
    push_decimal(&mut out, code as u64);
    if let Some(m) = modifier {
        out.push(0x3b);
        push_decimal(&mut out, m as u64);
    }
    out.push(0x7e);
    proof {
        assert(out@ =~= tilde_key(code, modifier));
    }
    out
}

fn encode_cursor_key(key: u8, modifier: Option<u8>, application: bool) -> (res: Vec<u8>)
    ensures
        res@ == cursor_key(key, modifier, application),
{
    let mut out: Vec<u8> = Vec::new();
    match modifier {
        Some(m) => push_modified(&mut out, key, m),
        None => {
            out.push(0x1b);
            out.push(if application { 0x4f } else { 0x5b });
            out.push(key);
        },
    }
    proof {
        assert(out@ =~= cursor_key(key, modifier, application));
    }
    out
}

fn encode_special_key(key: u8, modifier: Option<u8>) -> (res: Vec<u8>)
    ensures
        res@ == special_key(key, modifier),
{
    encode_cursor_key(key, modifier, false)
}

fn encode_function_key(num: u8, modifier: Option<u8>) -> (res: Vec<u8>)
    requires
        1 <= num <= 12,
    ensures
        res@ == function_key(num, modifier),
{
    let code: u8 = if num == 1 {
        0x50
    } else if num == 2 {
        0x51
    } else if num == 3 {
        0x52
    } else if num == 4 {
        0x53
    } else if num == 5 {
        15
    } else if num == 6 {
        17
    } else if num == 7 {
        18
    } else if num == 8 {
        19
    } else if num == 9 {
        20
    } else if num == 10 {
        21
    } else if num == 11 {
        23
    } else {
        24
    };
    if num <= 4 {
        match modifier {
            Some(m) => {
                let mut out: Vec<u8> = Vec::new();
                push_modified(&mut out, code, m);
                proof {
                    assert(out@ =~= function_key(num, modifier));
                }
                out
            },
            None => {
                let out = vec![0x1bu8, 0x4f, code];
                proof {
                    assert(out@ =~= function_key(num, modifier));
                }
                out
            },
        }
    } else {
        encode_tilde_key(code, modifier)
    }
}

/// Encode a named key.
fn encode_named_key(key: NamedKey, mods: Modifiers, application_cursor_keys: bool) -> (res: Option<Vec<u8>>)
    ensures
        match res {
            Some(v) => named_key_bytes(key, mods, application_cursor_keys) == Some(v@),
            None => named_key_bytes(key, mods, application_cursor_keys) is None,
        },
{
    let m = modifier_code_of(mods);
    let res = match key {
        NamedKey::Enter => Some(vec![0x0du8]),
        NamedKey::Tab => Some(if mods.shift { vec![0x1bu8, 0x5b, 0x5a] } else { vec![0x09u8] }),
        NamedKey::Backspace => Some(if mods.ctrl { vec![0x08u8] } else { vec![0x7fu8] }),
        NamedKey::Escape => Some(vec![0x1bu8]),
        NamedKey::Space => Some(if mods.ctrl { vec![0x00u8] } else { vec![0x20u8] }),
        NamedKey::ArrowUp => Some(encode_cursor_key(0x41, m, application_cursor_keys)),
        NamedKey::ArrowDown => Some(encode_cursor_key(0x42, m, application_cursor_keys)),
        NamedKey::ArrowRight => Some(encode_cursor_key(0x43, m, application_cursor_keys)),
        NamedKey::ArrowLeft => Some(encode_cursor_key(0x44, m, application_cursor_keys)),
        NamedKey::Home => Some(encode_special_key(0x48, m)),
        NamedKey::End => Some(encode_special_key(0x46, m)),
        NamedKey::PageUp => Some(encode_tilde_key(5, m)),
        NamedKey::PageDown => Some(encode_tilde_key(6, m)),
        NamedKey::Insert => Some(encode_tilde_key(2, m)),
        NamedKey::Delete => Some(encode_tilde_key(3, m)),
        NamedKey::F1 => Some(encode_function_key(1, m)),
        NamedKey::F2 => Some(encode_function_key(2, m)),
        NamedKey::F3 => Some(encode_function_key(3, m)),
        NamedKey::F4 => Some(encode_function_key(4, m)),
        NamedKey::F5 => Some(encode_function_key(5, m)),
        NamedKey::F6 => Some(encode_function_key(6, m)),
        NamedKey::F7 => Some(encode_function_key(7, m)),
        NamedKey::F8 => Some(encode_function_key(8, m)),
        NamedKey::F9 => Some(encode_function_key(9, m)),
        NamedKey::F10 => Some(encode_function_key(10, m)),
        NamedKey::F11 => Some(encode_function_key(11, m)),
        NamedKey::F12 => Some(encode_function_key(12, m)),
        NamedKey::Other => None,
    };
    res
}

/// The UTF-8 bytes of `c`.
fn char_bytes(c: char) -> (res: Vec<u8>)
    ensures
        res@ == encode_utf8(seq![c]),
{
    let s = char_to_string(c);
    copy_of(s.as_str().as_bytes())
}

/// Encode a key press; keys with nothing to send give `None`.
pub fn encode_key(key: &Key, mods: Modifiers, application_cursor_keys: bool, application_keypad: bool) -> (res:
    Option<Vec<u8>>)
    ensures
        match res {
            Some(v) => key_bytes(key@, mods, application_cursor_keys) == Some(v@),
            None => key_bytes(key@, mods, application_cursor_keys) is None,
        },
{
    match key {
        Key::Character(s) => {
            if s.as_str().unicode_len() == 0 {
                return None;
            }
            let c = s.as_str().get_char(0);
            let code = c as u32;
            if 1 <= code && code <= 26 {
                return Some(vec![code as u8]);
            }
            if mods.ctrl {
                if ('a' <= c && c <= 'z') || ('A' <= c && c <= 'Z') {
                    let v: u8 = if c <= 'Z' {
                        (code - 0x41 + 1) as u8
                    } else {
                        (code - 0x61 + 1) as u8
                    };
                    return Some(vec![v]);
                }
                let special: Option<u8> = if c == '@' {
                    Some(0)
                } else if c == '[' {
                    Some(27)
                } else if c == '\\' {
                    Some(28)
                } else if c == ']' {
                    Some(29)
                } else if c == '^' {
                    Some(30)
                } else if c == '_' {
                    Some(31)
                } else if c == '?' {
                    Some(127)
                } else {
                    None
                };
                if let Some(v) = special {
                    return Some(vec![v]);
                }
            }
            if mods.alt {
                let mut out = vec![0x1bu8];
                let bytes = char_bytes(c);
                push_bytes(&mut out, bytes.as_slice());
                proof {
                    assert(out@ =~= seq![0x1bu8] + encode_utf8(seq![c]));
                }
                return Some(out);
            }
            Some(char_bytes(c))
        },
        Key::Named(named) => encode_named_key(*named, mods, application_cursor_keys),
        Key::Unidentified => None,
    }
}

/// The report for one mouse event.
pub fn encode_mouse_event(button: u8, x: u16, y: u16, pressed: bool, sgr_mode: bool) -> (res: Vec<u8>)
    requires
        !sgr_mode && pressed ==> button <= 223,
    ensures
        res@ == mouse_report(button, x, y, pressed, sgr_mode),
{
    let x1: u16 = if x == 0xFFFF {
        0xFFFF
    } else {
        x + 1
    };
    let y1: u16 = if y == 0xFFFF {
        0xFFFF
    } else {
        y + 1
    };
    if sgr_mode {
        let mut out: Vec<u8> = Vec::new();
        push_bytes(&mut out, &[0x1bu8, 0x5b, 0x3c]);
        push_decimal(&mut out, button as u64);
        out.push(0x3b);
        push_decimal(&mut out, x1 as u64);
        out.push(0x3b);
        push_decimal(&mut out, y1 as u64);
        out.push(if pressed { 0x4du8 } else { 0x6du8 });
        proof {
            assert(out@ =~= mouse_report(button, x, y, pressed, sgr_mode));
        }
        out
    } else {
        let cx: u8 = ((if x1 < 223 { x1 } else { 223 }) + 32) as u8;
        let cy: u8 = ((if y1 < 223 { y1 } else { 223 }) + 32) as u8;
        let b: u8 = if pressed {
            button + 32
        } else {
            35
        };
        let out = vec![0x1bu8, 0x5b, 0x4d, b, cx, cy];
        proof {
            assert(out@ =~= mouse_report(button, x, y, pressed, sgr_mode));
        }
        out
    }
}

/// Encode a mouse event; events the modes do not report give `None`.
pub fn encode_mouse(event: MouseEvent, sgr_mode: bool, button_event_mode: bool, any_event_mode: bool) -> (res:
    Option<Vec<u8>>)
    ensures
        match res {
            Some(v) => mouse_bytes(event, sgr_mode, button_event_mode, any_event_mode) == Some(v@),
            None => mouse_bytes(event, sgr_mode, button_event_mode, any_event_mode) is None,
        },
{
    match event {
        MouseEvent::Press(b, x, y) => {
            let code: u8 = match b {
                MouseButton::Left => 0,
                MouseButton::Middle => 1,
                MouseButton::Right => 2,
                MouseButton::Other => {
                    return None;
                },
            };
            Some(encode_mouse_event(code, x, y, true, sgr_mode))
        },
        MouseEvent::Release(b, x, y) => {
            let code: u8 = match b {
                MouseButton::Left => 0,
                MouseButton::Middle => 1,
                MouseButton::Right => 2,
                MouseButton::Other => {
                    return None;
                },
            };
            Some(encode_mouse_event(code, x, y, false, sgr_mode))
        },
        MouseEvent::Move(x, y) => {
            if any_event_mode || button_event_mode {
                Some(encode_mouse_event(35, x, y, true, sgr_mode))
            } else {
                None
            }
        },
        MouseEvent::Scroll { x, y, delta } => {
            let code: u8 = if delta > 0 {
                64
            } else {
                65
            };
            Some(encode_mouse_event(code, x, y, true, sgr_mode))
        },
    }
}

/// The focus report: ESC [ I when focused, ESC [ O otherwise.
pub fn encode_focus(focused: bool) -> (res: Vec<u8>)
    ensures
        res@ == (if focused { seq![0x1bu8, 0x5b, 0x49] } else { seq![0x1bu8, 0x5b, 0x4f] }),
{
    if focused {
        vec![0x1bu8, 0x5b, 0x49]
    } else {
        vec![0x1bu8, 0x5b, 0x4f]
    }
}

/// The paste start marker, ESC [ 200 ~.
pub open spec fn paste_start() -> Seq<u8> {
    seq![0x1bu8, 0x5b, 0x32, 0x30, 0x30, 0x7e]
}

/// The paste end marker, ESC [ 201 ~.
pub open spec fn paste_end() -> Seq<u8> {
    seq![0x1bu8, 0x5b, 0x32, 0x30, 0x31, 0x7e]
}

/// `bytes` without its ESC bytes.
pub open spec fn without_escapes(bytes: Seq<u8>) -> Seq<u8>
    decreases bytes.len(),
{
    if bytes.len() == 0 {
        Seq::empty()
    } else if bytes.last() == 0x1b {
        without_escapes(bytes.drop_last())
    } else {
        without_escapes(bytes.drop_last()).push(bytes.last())
    }
}

/// What a bracketed paste of `text` sends: the start marker, the UTF-8
/// bytes of the text with every ESC taken out (so that the text cannot end
/// the paste or start another sequence), and the end marker.
pub open spec fn bracketed_paste(text: Seq<char>) -> Seq<u8> {
    paste_start() + without_escapes(encode_utf8(text)) + paste_end()
}

proof fn lemma_without_escapes_has_none(bytes: Seq<u8>)
    ensures
        forall|i: int| 0 <= i < without_escapes(bytes).len() ==> #[trigger] without_escapes(bytes)[i] != 0x1b,
        without_escapes(bytes).len() <= bytes.len(),
    decreases bytes.len(),
{
    if bytes.len() > 0 {
        lemma_without_escapes_has_none(bytes.drop_last());
    }
}

/// Text without ESC bytes is sent as it is.
pub proof fn lemma_without_escapes_keeps_plain(bytes: Seq<u8>)
    requires
        forall|i: int| 0 <= i < bytes.len() ==> #[trigger] bytes[i] != 0x1b,
    ensures
        without_escapes(bytes) == bytes,
    decreases bytes.len(),
{
    if bytes.len() > 0 {
        lemma_without_escapes_keeps_plain(bytes.drop_last());
        assert(bytes.drop_last().push(bytes.last()) =~= bytes);
    }
}

proof fn lemma_paste_escape_positions(mid: Seq<u8>, k: int)
    requires
        forall|j: int| 0 <= j < mid.len() ==> #[trigger] mid[j] != 0x1b,
        0 <= k < mid.len() + 12,
        (paste_start() + mid + paste_end())[k] == 0x1b,
    ensures
        k == 0 || k == mid.len() + 6,
{
    let r = paste_start() + mid + paste_end();
    if 0 < k < 6 {
        assert(r[k] == paste_start()[k]);
    } else if 6 <= k < 6 + mid.len() {
        assert(r[k] == mid[k - 6]);
    } else if k > 6 + mid.len() {
        assert(r[k] == paste_end()[k - 6 - mid.len()]);
    }
}

/// Pasted text cannot end a bracketed paste early: the end marker occurs in
/// what is sent only as its last six bytes.
pub proof fn lemma_paste_ends_once(text: Seq<char>)
    ensures
        forall|i: int|
            0 <= i && i + 6 <= bracketed_paste(text).len() && #[trigger] bracketed_paste(text).subrange(i, i + 6)
                == paste_end() ==> i == bracketed_paste(text).len() - 6,
{
    let mid = without_escapes(encode_utf8(text));
    let r = bracketed_paste(text);
    lemma_without_escapes_has_none(encode_utf8(text));
    assert(r.len() == mid.len() + 12);
    assert forall|i: int|
        0 <= i && i + 6 <= r.len() && #[trigger] r.subrange(i, i + 6) == paste_end() implies i == r.len() - 6 by {
        let sub = r.subrange(i, i + 6);
        assert(sub[0] == r[i]);
        assert(paste_end()[0] == 0x1b);
        lemma_paste_escape_positions(mid, i);
        if i == 0 {
            assert(sub[4] == r[4]);
            assert(r[4] == paste_start()[4]);
            assert(paste_end()[4] == 0x31);
        }
    }
}

fn push_without_escapes(out: &mut Vec<u8>, bytes: &[u8])
    ensures
        final(out)@ == old(out)@ + without_escapes(bytes@),
{
    let mut i: usize = 0;
    while i < bytes.len()
        invariant
            i <= bytes@.len(),
            out@ == old(out)@ + without_escapes(bytes@.subrange(0, i as int)),
        decreases bytes.len() - i,
    {
        proof {
            assert(bytes@.subrange(0, i + 1).drop_last() =~= bytes@.subrange(0, i as int));
        }
        if bytes[i] != 0x1b {
            out.push(bytes[i]);
        }
        i = i + 1;
    }
    proof {
        assert(bytes@.subrange(0, i as int) =~= bytes@);
    }
}

/// Wrap pasted text in the bracketed paste markers; ESC bytes of the text
/// are left out.
pub fn encode_bracketed_paste(text: &str) -> (res: Vec<u8>)
    ensures
        res@ == bracketed_paste(text@),
{
    let mut out: Vec<u8> = Vec::new();
    push_bytes(&mut out, &[0x1bu8, 0x5b, 0x32, 0x30, 0x30, 0x7e]);
    push_without_escapes(&mut out, text.as_bytes());
    push_bytes(&mut out, &[0x1bu8, 0x5b, 0x32, 0x30, 0x31, 0x7e]);
    proof {
        assert(out@ =~= bracketed_paste(text@));
    }
    out
}

} // verus!
