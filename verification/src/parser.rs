//! VT/xterm escape sequence parser.
//!
//! A state machine that turns a byte stream into terminal actions following
//! ECMA-48 and the xterm extensions. It handles arbitrary chunk boundaries
//! (its state carries over between calls), it is deterministic, it never
//! fails on malformed input, and it decodes UTF-8 text.

use vstd::prelude::*;
use vstd::utf8::{decode_utf8, valid_utf8};

use crate::action::{Action, ActionView};
use crate::params::{params_pushed, params_sub_pushed, plain, ParamView, Params, MAX_PARAMS};
use crate::text::string_from_chars;
use crate::views::{group_views, views};
use std::str::Utf8Error;
use vstd::string::*;

verus! {

broadcast use group_views;

/// The states of the parser.
#[derive(Debug, Clone, Copy, PartialEq, Eq, Structural)]
pub enum State {
    Ground,
    Escape,
    EscapeIntermediate,
    CsiEntry,
    CsiParam,
    CsiIntermediate,
    CsiIgnore,
    OscString,
    DcsEntry,
    DcsParam,
    DcsIntermediate,
    DcsPassthrough,
    DcsIgnore,
    SosPmApcString,
}

pub const MAX_INTERMEDIATES: usize = 4;

pub const MAX_OSC_PAYLOAD: usize = 65536;

pub const MAX_DCS_PAYLOAD: usize = 65536;

/// The replacement character printed for malformed UTF-8.
pub const REPLACEMENT: char = '\u{FFFD}';

/// The abstract state of a parser.
#[verifier::ext_equal]
pub struct ParserView {
    pub state: State,
    pub params: Seq<ParamView>,
    pub intermediates: Seq<u8>,
    pub private_marker: Option<u8>,
    pub osc_payload: Seq<char>,
    /// Length of the OSC payload in UTF-8 bytes
    pub osc_len: nat,
    pub osc_command: u16,
    /// Whether the OSC command number has ended (at the first `;`, or at
    /// the first other character) and what follows is payload
    pub osc_in_payload: bool,
    pub dcs_payload: Seq<u8>,
    pub sos_payload: Seq<u8>,
    pub utf8_buffer: Seq<u8>,
    pub utf8_remaining: nat,
    pub preceding_byte: Option<u8>,
}

/// C0 controls that are executed inside escape sequences.
pub open spec fn is_execute_byte(b: u8) -> bool {
    b <= 0x17 || b == 0x19 || (0x1C <= b && b <= 0x1F)
}

/// CAN and SUB abort a sequence.
pub open spec fn is_cancel(b: u8) -> bool {
    b == 0x18 || b == 0x1A
}

pub open spec fn with_state(s: ParserView, st: State) -> ParserView {
    ParserView { state: st, ..s }
}

/// The sequence state (parameters, intermediates, private marker) cleared.
pub open spec fn cleared(s: ParserView) -> ParserView {
    ParserView { params: Seq::empty(), intermediates: Seq::empty(), private_marker: None, ..s }
}

/// `b` collected as an intermediate byte (at most `MAX_INTERMEDIATES`).
pub open spec fn collected(s: ParserView, b: u8) -> ParserView {
    ParserView {
        intermediates: if s.intermediates.len() < MAX_INTERMEDIATES {
            s.intermediates.push(b)
        } else {
            s.intermediates
        },
        ..s
    }
}

/// `v * 10 + d`, saturating at `u16::MAX`.
pub open spec fn sat_digit(v: u16, d: u16) -> u16 {
    if v * 10 + d > 0xFFFF {
        0xFFFF
    } else {
        (v * 10 + d) as u16
    }
}

/// The parameters after the decimal digit `d`: the last parameter takes
/// the digit (a first parameter is created when there is none), and the
/// subparameters are dropped.
pub open spec fn param_digit(p: Seq<ParamView>, d: u16) -> Seq<ParamView> {
    if p.len() == 0 {
        seq![plain(d)]
    } else {
        Seq::new(
            p.len(),
            |i: int|
                if i == p.len() - 1 {
                    plain(sat_digit(p[i].value, d))
                } else {
                    plain(p[i].value)
                },
        )
    }
}

pub open spec fn digit_added(s: ParserView, b: u8) -> ParserView {
    ParserView { params: param_digit(s.params, (b - 0x30) as u16), ..s }
}

pub open spec fn value_added(s: ParserView) -> ParserView {
    ParserView { params: params_pushed(s.params, 0), ..s }
}

pub open spec fn sub_added(s: ParserView) -> ParserView {
    ParserView { params: params_sub_pushed(s.params, 0), ..s }
}

pub open spec fn osc_started(s: ParserView) -> ParserView {
    ParserView {
        state: State::OscString,
        osc_payload: Seq::empty(),
        osc_len: 0,
        osc_command: 0,
        osc_in_payload: false,
        ..s
    }
}

pub open spec fn dcs_started(s: ParserView) -> ParserView {
    ParserView { state: State::DcsEntry, dcs_payload: Seq::empty(), ..cleared(s) }
}

pub open spec fn string_started(s: ParserView) -> ParserView {
    ParserView { state: State::SosPmApcString, sos_payload: Seq::empty(), ..s }
}

pub open spec fn csi_action(s: ParserView, b: u8) -> ActionView {
    ActionView::CsiDispatch {
        params: s.params,
        intermediates: s.intermediates,
        final_byte: b,
        private_marker: s.private_marker,
    }
}

pub open spec fn esc_action(intermediates: Seq<u8>, b: u8) -> ActionView {
    ActionView::EscDispatch { intermediates, final_byte: b }
}

pub open spec fn osc_action(s: ParserView) -> ActionView {
    ActionView::OscDispatch { command: s.osc_command, payload: s.osc_payload }
}

pub open spec fn dcs_action(s: ParserView) -> ActionView {
    ActionView::DcsDispatch { params: s.params, intermediates: s.intermediates, final_byte: 0, payload: s.dcs_payload }
}

/// No action.
pub open spec fn quiet(s: ParserView) -> (ParserView, Seq<ActionView>) {
    (s, Seq::empty())
}

/// One action.
pub open spec fn emits(s: ParserView, a: ActionView) -> (ParserView, Seq<ActionView>) {
    (s, seq![a])
}

/// An 8-bit C1 control.
pub open spec fn c1_step(s: ParserView, b: u8) -> (ParserView, Seq<ActionView>) {
    if b == 0x9B {
        quiet(with_state(cleared(s), State::CsiEntry))
    } else if b == 0x9D {
        quiet(osc_started(cleared(s)))
    } else if b == 0x90 {
        quiet(dcs_started(s))
    } else if b == 0x98 || b == 0x9E || b == 0x9F {
        quiet(string_started(s))
    } else if b == 0x9C {
        quiet(with_state(s, State::Ground))
    } else if b == 0x84 {
        emits(s, esc_action(Seq::empty(), 0x44))
    } else if b == 0x85 {
        emits(s, esc_action(Seq::empty(), 0x45))
    } else if b == 0x88 {
        emits(s, esc_action(Seq::empty(), 0x48))
    } else if b == 0x8D {
        emits(s, esc_action(Seq::empty(), 0x4D))
    } else {
        quiet(s)
    }
}

pub open spec fn ground_step(s: ParserView, b: u8) -> (ParserView, Seq<ActionView>) {
    if b <= 0x1A || (0x1C <= b && b <= 0x1F) {
        emits(s, ActionView::Execute(b))
    } else if b == 0x1B {
        quiet(with_state(cleared(s), State::Escape))
    } else if 0x20 <= b && b <= 0x7E {
        emits(s, ActionView::Print(b as char))
    } else if b == 0x7F {
        quiet(s)
    } else if b <= 0x9F {
        c1_step(s, b)
    } else {
        emits(s, ActionView::Print(b as char))
    }
}

/// Final bytes that dispatch an escape sequence without intermediates.
pub open spec fn is_esc_final(b: u8) -> bool {
    (0x30 <= b && b <= 0x4F) || (0x51 <= b && b <= 0x57) || b == 0x59 || b == 0x5A || b == 0x5C || (0x60 <= b
        && b <= 0x7E)
}

pub open spec fn escape_step(s: ParserView, b: u8) -> (ParserView, Seq<ActionView>) {
    if is_execute_byte(b) {
        emits(s, ActionView::Execute(b))
    } else if is_cancel(b) {
        quiet(with_state(s, State::Ground))
    } else if b == 0x1B {
        quiet(cleared(s))
    } else if 0x20 <= b && b <= 0x2F {
        quiet(with_state(collected(s, b), State::EscapeIntermediate))
    } else if b == 0x5B {
        quiet(with_state(cleared(s), State::CsiEntry))
    } else if b == 0x5D {
        quiet(osc_started(s))
    } else if b == 0x50 {
        quiet(dcs_started(s))
    } else if b == 0x58 || b == 0x5E || b == 0x5F {
        quiet(string_started(s))
    } else if is_esc_final(b) {
        emits(with_state(s, State::Ground), esc_action(s.intermediates, b))
    } else if b == 0x7F {
        quiet(s)
    } else {
        quiet(with_state(s, State::Ground))
    }
}

pub open spec fn escape_intermediate_step(s: ParserView, b: u8) -> (ParserView, Seq<ActionView>) {
    if is_execute_byte(b) {
        emits(s, ActionView::Execute(b))
    } else if is_cancel(b) {
        quiet(with_state(s, State::Ground))
    } else if b == 0x1B {
        quiet(with_state(cleared(s), State::Escape))
    } else if 0x20 <= b && b <= 0x2F {
        quiet(collected(s, b))
    } else if 0x30 <= b && b <= 0x7E {
        emits(with_state(s, State::Ground), esc_action(s.intermediates, b))
    } else if b == 0x7F {
        quiet(s)
    } else {
        quiet(with_state(s, State::Ground))
    }
}

pub open spec fn csi_entry_step(s: ParserView, b: u8) -> (ParserView, Seq<ActionView>) {
    if is_execute_byte(b) {
        emits(s, ActionView::Execute(b))
    } else if is_cancel(b) {
        quiet(with_state(s, State::Ground))
    } else if b == 0x1B {
        quiet(with_state(cleared(s), State::Escape))
    } else if 0x3C <= b && b <= 0x3F {
        quiet(ParserView { private_marker: Some(b), state: State::CsiParam, ..s })
    } else if 0x30 <= b && b <= 0x39 {
        quiet(with_state(digit_added(s, b), State::CsiParam))
    } else if b == 0x3B || b == 0x3A {
        quiet(with_state(value_added(s), State::CsiParam))
    } else if 0x20 <= b && b <= 0x2F {
        quiet(with_state(collected(s, b), State::CsiIntermediate))
    } else if 0x40 <= b && b <= 0x7E {
        emits(with_state(s, State::Ground), csi_action(s, b))
    } else if b == 0x7F {
        quiet(s)
    } else {
        quiet(with_state(s, State::Ground))
    }
}

pub open spec fn csi_param_step(s: ParserView, b: u8) -> (ParserView, Seq<ActionView>) {
    if is_execute_byte(b) {
        emits(s, ActionView::Execute(b))
    } else if is_cancel(b) {
        quiet(with_state(s, State::Ground))
    } else if b == 0x1B {
        quiet(with_state(cleared(s), State::Escape))
    } else if 0x30 <= b && b <= 0x39 {
        quiet(digit_added(s, b))
    } else if b == 0x3B {
        quiet(value_added(s))
    } else if b == 0x3A {
        quiet(sub_added(s))
    } else if 0x3C <= b && b <= 0x3F {
        quiet(with_state(s, State::CsiIgnore))
    } else if 0x20 <= b && b <= 0x2F {
        quiet(with_state(collected(s, b), State::CsiIntermediate))
    } else if 0x40 <= b && b <= 0x7E {
        emits(with_state(s, State::Ground), csi_action(s, b))
    } else if b == 0x7F {
        quiet(s)
    } else {
        quiet(with_state(s, State::CsiIgnore))
    }
}

pub open spec fn csi_intermediate_step(s: ParserView, b: u8) -> (ParserView, Seq<ActionView>) {
    if is_execute_byte(b) {
        emits(s, ActionView::Execute(b))
    } else if is_cancel(b) {
        quiet(with_state(s, State::Ground))
    } else if b == 0x1B {
        quiet(with_state(cleared(s), State::Escape))
    } else if 0x20 <= b && b <= 0x2F {
        quiet(collected(s, b))
    } else if 0x30 <= b && b <= 0x3F {
        quiet(with_state(s, State::CsiIgnore))
    } else if 0x40 <= b && b <= 0x7E {
        emits(with_state(s, State::Ground), csi_action(s, b))
    } else if b == 0x7F {
        quiet(s)
    } else {
        quiet(with_state(s, State::CsiIgnore))
    }
}

pub open spec fn csi_ignore_step(s: ParserView, b: u8) -> (ParserView, Seq<ActionView>) {
    if is_execute_byte(b) {
        emits(s, ActionView::Execute(b))
    } else if is_cancel(b) {
        quiet(with_state(s, State::Ground))
    } else if b == 0x1B {
        quiet(with_state(cleared(s), State::Escape))
    } else if 0x40 <= b && b <= 0x7E {
        quiet(with_state(s, State::Ground))
    } else {
        quiet(s)
    }
}

/// The number of UTF-8 bytes of the character with code `b`.
pub open spec fn utf8_width_of_byte(b: u8) -> nat {
    if b < 0x80 {
        1
    } else {
        2
    }
}

pub open spec fn osc_string_step(s: ParserView, b: u8) -> (ParserView, Seq<ActionView>) {
    if b == 0x07 {
        emits(with_state(s, State::Ground), osc_action(s))
    } else if b == 0x1B {
        quiet(ParserView { preceding_byte: Some(b), ..s })
    } else if is_cancel(b) {
        quiet(with_state(s, State::Ground))
    } else if (0x20 <= b && b <= 0x7E) || 0xA0 <= b {
        if s.preceding_byte == Some(0x1Bu8) && b == 0x5C {
            emits(with_state(s, State::Ground), osc_action(s))
        } else if !s.osc_in_payload && 0x30 <= b && b <= 0x39 {
            quiet(ParserView { osc_command: ((s.osc_command * 10 + (b - 0x30)) % 65536) as u16, ..s })
        } else if !s.osc_in_payload && b == 0x3B {
            quiet(ParserView { osc_in_payload: true, ..s })
        } else if s.osc_len < MAX_OSC_PAYLOAD {
            quiet(
                ParserView {
                    osc_payload: s.osc_payload.push(b as char),
                    osc_len: s.osc_len + utf8_width_of_byte(b),
                    osc_in_payload: true,
                    ..s
                },
            )
        } else {
            quiet(s)
        }
    } else if b == 0x9C {
        emits(with_state(s, State::Ground), osc_action(s))
    } else {
        quiet(s)
    }
}

pub open spec fn dcs_entry_step(s: ParserView, b: u8) -> (ParserView, Seq<ActionView>) {
    if is_execute_byte(b) {
        quiet(s)
    } else if is_cancel(b) {
        quiet(with_state(s, State::Ground))
    } else if b == 0x1B {
        quiet(with_state(cleared(s), State::Escape))
    } else if 0x3C <= b && b <= 0x3F {
        quiet(ParserView { private_marker: Some(b), state: State::DcsParam, ..s })
    } else if 0x30 <= b && b <= 0x39 {
        quiet(with_state(digit_added(s, b), State::DcsParam))
    } else if b == 0x3B {
        quiet(with_state(value_added(s), State::DcsParam))
    } else if 0x20 <= b && b <= 0x2F {
        quiet(with_state(collected(s, b), State::DcsIntermediate))
    } else if 0x40 <= b && b <= 0x7E {
        quiet(with_state(s, State::DcsPassthrough))
    } else if b == 0x7F {
        quiet(s)
    } else {
        quiet(with_state(s, State::DcsIgnore))
    }
}

pub open spec fn dcs_param_step(s: ParserView, b: u8) -> (ParserView, Seq<ActionView>) {
    if is_execute_byte(b) {
        quiet(s)
    } else if is_cancel(b) {
        quiet(with_state(s, State::Ground))
    } else if b == 0x1B {
        quiet(with_state(cleared(s), State::Escape))
    } else if 0x30 <= b && b <= 0x39 {
        quiet(digit_added(s, b))
    } else if b == 0x3B {
        quiet(value_added(s))
    } else if 0x3C <= b && b <= 0x3F {
        quiet(with_state(s, State::DcsIgnore))
    } else if 0x20 <= b && b <= 0x2F {
        quiet(with_state(collected(s, b), State::DcsIntermediate))
    } else if 0x40 <= b && b <= 0x7E {
        quiet(with_state(s, State::DcsPassthrough))
    } else if b == 0x7F {
        quiet(s)
    } else {
        quiet(with_state(s, State::DcsIgnore))
    }
}

pub open spec fn dcs_intermediate_step(s: ParserView, b: u8) -> (ParserView, Seq<ActionView>) {
    if is_execute_byte(b) {
        quiet(s)
    } else if is_cancel(b) {
        quiet(with_state(s, State::Ground))
    } else if b == 0x1B {
        quiet(with_state(cleared(s), State::Escape))
    } else if 0x20 <= b && b <= 0x2F {
        quiet(collected(s, b))
    } else if 0x30 <= b && b <= 0x3F {
        quiet(with_state(s, State::DcsIgnore))
    } else if 0x40 <= b && b <= 0x7E {
        quiet(with_state(s, State::DcsPassthrough))
    } else if b == 0x7F {
        quiet(s)
    } else {
        quiet(with_state(s, State::DcsIgnore))
    }
}

/// `s` with `b` added to the DCS payload (at most `MAX_DCS_PAYLOAD` bytes).
pub open spec fn dcs_collected(s: ParserView, b: u8) -> ParserView {
    if s.dcs_payload.len() < MAX_DCS_PAYLOAD {
        ParserView { dcs_payload: s.dcs_payload.push(b), ..s }
    } else {
        s
    }
}

pub open spec fn dcs_passthrough_step(s: ParserView, b: u8) -> (ParserView, Seq<ActionView>) {
    if is_cancel(b) {
        quiet(with_state(s, State::Ground))
    } else if b == 0x1B {
        quiet(ParserView { preceding_byte: Some(b), ..s })
    } else if b == 0x9C {
        emits(with_state(s, State::Ground), dcs_action(s))
    } else if b <= 0x7E {
        if s.preceding_byte == Some(0x1Bu8) && b == 0x5C {
            emits(with_state(s, State::Ground), dcs_action(s))
        } else {
            quiet(dcs_collected(s, b))
        }
    } else if b == 0x7F {
        quiet(s)
    } else {
        quiet(dcs_collected(s, b))
    }
}

pub open spec fn dcs_ignore_step(s: ParserView, b: u8) -> (ParserView, Seq<ActionView>) {
    if is_cancel(b) {
        quiet(with_state(s, State::Ground))
    } else if b == 0x1B {
        quiet(ParserView { preceding_byte: Some(b), ..s })
    } else if b == 0x9C {
        quiet(with_state(s, State::Ground))
    } else if s.preceding_byte == Some(0x1Bu8) && b == 0x5C {
        quiet(with_state(s, State::Ground))
    } else {
        quiet(s)
    }
}

pub open spec fn sos_pm_apc_step(s: ParserView, b: u8) -> (ParserView, Seq<ActionView>) {
    if is_cancel(b) {
        quiet(with_state(s, State::Ground))
    } else if b == 0x1B {
        quiet(ParserView { preceding_byte: Some(b), ..s })
    } else if b == 0x9C {
        quiet(with_state(s, State::Ground))
    } else if s.preceding_byte == Some(0x1Bu8) && b == 0x5C {
        quiet(with_state(s, State::Ground))
    } else {
        quiet(ParserView { sos_payload: s.sos_payload.push(b), ..s })
    }
}

/// The byte `b` handled by the current state's rules.
pub open spec fn state_step(s: ParserView, b: u8) -> (ParserView, Seq<ActionView>) {
    match s.state {
        State::Ground => ground_step(s, b),
        State::Escape => escape_step(s, b),
        State::EscapeIntermediate => escape_intermediate_step(s, b),
        State::CsiEntry => csi_entry_step(s, b),
        State::CsiParam => csi_param_step(s, b),
        State::CsiIntermediate => csi_intermediate_step(s, b),
        State::CsiIgnore => csi_ignore_step(s, b),
        State::OscString => osc_string_step(s, b),
        State::DcsEntry => dcs_entry_step(s, b),
        State::DcsParam => dcs_param_step(s, b),
        State::DcsIntermediate => dcs_intermediate_step(s, b),
        State::DcsPassthrough => dcs_passthrough_step(s, b),
        State::DcsIgnore => dcs_ignore_step(s, b),
        State::SosPmApcString => sos_pm_apc_step(s, b),
    }
}

/// The number of continuation bytes a UTF-8 lead byte announces.
pub open spec fn utf8_continuations(b: u8) -> nat {
    if b <= 0xDF {
        1
    } else if b <= 0xEF {
        2
    } else {
        3
    }
}

/// A byte that does not continue a UTF-8 character: C1 controls and UTF-8
/// lead bytes in the ground state, then the state's rules (which record
/// the byte as the preceding one).
pub open spec fn byte_step(s: ParserView, b: u8) -> (ParserView, Seq<ActionView>) {
    if s.state == State::Ground && 0x80 <= b && b < 0xA0 {
        c1_step(s, b)
    } else if s.state == State::Ground && b >= 0xC0 {
        if 0xC2 <= b && b <= 0xF4 {
            quiet(ParserView { utf8_buffer: seq![b], utf8_remaining: utf8_continuations(b), ..s })
        } else {
            emits(s, ActionView::Print(REPLACEMENT))
        }
    } else {
        let (t, a) = state_step(s, b);
        (ParserView { preceding_byte: Some(b), ..t }, a)
    }
}

/// The pending UTF-8 bytes are a lead byte the parser accepts followed by
/// continuation bytes, with as many still to come as the lead byte
/// announces; with nothing to come, nothing is pending.
pub open spec fn utf8_pending_ok(s: ParserView) -> bool {
    if s.utf8_remaining == 0 {
        s.utf8_buffer.len() == 0
    } else {
        &&& s.utf8_buffer.len() >= 1
        &&& 0xC2 <= s.utf8_buffer[0] <= 0xF4
        &&& s.utf8_buffer.len() + s.utf8_remaining == 1 + utf8_continuations(s.utf8_buffer[0])
        &&& forall|i: int| 1 <= i < s.utf8_buffer.len() ==> 0x80 <= #[trigger] s.utf8_buffer[i] <= 0xBF
    }
}

/// Printing each of `cs` in order.
pub open spec fn prints(cs: Seq<char>) -> Seq<ActionView>
    decreases cs.len(),
{
    if cs.len() == 0 {
        Seq::empty()
    } else {
        prints(cs.drop_last()).push(ActionView::Print(cs.last()))
    }
}

/// The characters printed for a complete UTF-8 sequence: its decoding, or
/// the replacement character when it is malformed.
pub open spec fn decoded(bytes: Seq<u8>) -> Seq<ActionView> {
    if valid_utf8(bytes) {
        prints(decode_utf8(bytes))
    } else {
        seq![ActionView::Print(REPLACEMENT)]
    }
}

/// One byte of input: the new state and the actions it produces.
pub open spec fn step(s: ParserView, b: u8) -> (ParserView, Seq<ActionView>) {
    if s.utf8_remaining > 0 {
        if 0x80 <= b && b <= 0xBF {
            let buf = s.utf8_buffer.push(b);
            if s.utf8_remaining == 1 {
                (ParserView { utf8_buffer: Seq::empty(), utf8_remaining: 0, ..s }, decoded(buf))
            } else {
                quiet(ParserView { utf8_buffer: buf, utf8_remaining: (s.utf8_remaining - 1) as nat, ..s })
            }
        } else {
            let (t, a) = byte_step(ParserView { utf8_buffer: Seq::empty(), utf8_remaining: 0, ..s }, b);
            (t, seq![ActionView::Print(REPLACEMENT)] + a)
        }
    } else {
        byte_step(s, b)
    }
}

/// The input `bytes` fed one by one: the final state and all the actions.
pub open spec fn run(s: ParserView, bytes: Seq<u8>) -> (ParserView, Seq<ActionView>)
    decreases bytes.len(),
{
    if bytes.len() == 0 {
        (s, Seq::empty())
    } else {
        let (t, a) = run(s, bytes.drop_last());
        let (u, c) = step(t, bytes.last());
        (u, a + c)
    }
}

/// The state of a new (or reset) parser.
pub open spec fn initial() -> ParserView {
    ParserView {
        state: State::Ground,
        params: Seq::empty(),
        intermediates: Seq::empty(),
        private_marker: None,
        osc_payload: Seq::empty(),
        osc_len: 0,
        osc_command: 0,
        osc_in_payload: false,
        dcs_payload: Seq::empty(),
        sos_payload: Seq::empty(),
        utf8_buffer: Seq::empty(),
        utf8_remaining: 0,
        preceding_byte: None,
    }
}

/// Splitting the input anywhere changes nothing: feeding `a` then `b`
/// gives the state and the actions of feeding `a + b`.
pub proof fn lemma_run_split(s: ParserView, a: Seq<u8>, b: Seq<u8>)
    ensures
        run(s, a + b).0 == run(run(s, a).0, b).0,
        run(s, a + b).1 == run(s, a).1 + run(run(s, a).0, b).1,
    decreases b.len(),
{
    if b.len() == 0 {
        assert(a + b =~= a);
        assert(run(s, a).1 + Seq::<ActionView>::empty() =~= run(s, a).1);
    } else {
        lemma_run_split(s, a, b.drop_last());
        assert((a + b).drop_last() =~= a + b.drop_last());
        assert((a + b).last() == b.last());
        let m = run(s, a).0;
        let (t, x) = run(m, b.drop_last());
        let (u, c) = step(t, b.last());
        assert(run(s, a).1 + (x + c) =~= (run(s, a).1 + x) + c);
    }
}

/// CAN and SUB always bring the parser back to the ground state.
pub proof fn lemma_cancel_to_ground(s: ParserView, b: u8)
    requires
        is_cancel(b),
    ensures
        step(s, b).0.state == State::Ground,
{
}

/// In the ground state, with no UTF-8 character pending, a printable ASCII
/// byte prints itself and leaves the state unchanged but for the
/// preceding byte.
pub proof fn lemma_ground_prints_ascii(s: ParserView, b: u8)
    requires
        s.state == State::Ground,
        s.utf8_remaining == 0,
        0x20 <= b <= 0x7E,
    ensures
        step(s, b).1 == seq![ActionView::Print(b as char)],
        step(s, b).0 == (ParserView { preceding_byte: Some(b), ..s }),
{
}

proof fn lemma_state_step_small(s: ParserView, b: u8)
    ensures
        state_step(s, b).1.len() <= 1,
        state_step(s, b).0.utf8_remaining == s.utf8_remaining,
        state_step(s, b).0.utf8_buffer == s.utf8_buffer,
{
}

proof fn lemma_byte_step_small(s: ParserView, b: u8)
    requires
        s.utf8_remaining == 0,
        s.utf8_buffer.len() == 0,
    ensures
        byte_step(s, b).1.len() <= 1,
        utf8_pending_ok(byte_step(s, b).0),
{
    lemma_state_step_small(s, b);
}

proof fn lemma_prints_push(cs: Seq<char>, c: char)
    ensures
        prints(cs.push(c)) == prints(cs).push(ActionView::Print(c)),
{
    assert(cs.push(c).drop_last() =~= cs);
}

proof fn lemma_prints_one(c: char)
    ensures
        prints(seq![c]).len() == 1,
{
    let e = Seq::<char>::empty();
    assert(seq![c] =~= e.push(c));
    lemma_prints_push(e, c);
}

/// A complete pending UTF-8 character prints one character.
proof fn lemma_decoded_one(buf: Seq<u8>)
    requires
        buf.len() >= 2,
        0xC2 <= buf[0] <= 0xF4,
        buf.len() == 1 + utf8_continuations(buf[0]),
        forall|i: int| 1 <= i < buf.len() ==> 0x80 <= #[trigger] buf[i] <= 0xBF,
    ensures
        decoded(buf).len() == 1,
{
    if valid_utf8(buf) {
        assert(0x80 <= buf[1] <= 0xBF);
        if buf.len() >= 3 {
            assert(0x80 <= buf[2] <= 0xBF);
        }
        if buf.len() >= 4 {
            assert(0x80 <= buf[3] <= 0xBF);
        }
        assert(vstd::utf8::length_of_first_scalar(buf) == buf.len());
        assert(vstd::utf8::pop_first_scalar(buf) =~= Seq::<u8>::empty());
        let c: char = vstd::utf8::decode_first_scalar(buf) as char;
        let e = Seq::<u8>::empty();
        assert(valid_utf8(e));
        assert(decode_utf8(e) =~= Seq::<char>::empty());
        assert(decode_utf8(buf) =~= seq![c]);
        lemma_prints_one(c);
    }
}

/// One byte of input from a state with a well-formed pending UTF-8
/// character produces at most two actions and keeps the pending character
/// well-formed.
pub proof fn lemma_step_actions_bounded(s: ParserView, b: u8)
    requires
        utf8_pending_ok(s),
    ensures
        step(s, b).1.len() <= 2,
        utf8_pending_ok(step(s, b).0),
{
    if s.utf8_remaining > 0 {
        if 0x80 <= b <= 0xBF {
            let buf = s.utf8_buffer.push(b);
            assert(buf[0] == s.utf8_buffer[0]);
            assert forall|i: int| 1 <= i < buf.len() implies 0x80 <= #[trigger] buf[i] <= 0xBF by {
                if i < s.utf8_buffer.len() {
                    assert(buf[i] == s.utf8_buffer[i]);
                }
            }
            if s.utf8_remaining == 1 {
                lemma_decoded_one(buf);
            }
        } else {
            let t0 = ParserView { utf8_buffer: Seq::empty(), utf8_remaining: 0, ..s };
            lemma_byte_step_small(t0, b);
        }
    } else {
        lemma_byte_step_small(s, b);
    }
}

/// Parsing never produces more than two actions per input byte, from any
/// state with a well-formed pending UTF-8 character (every state a parser
/// reaches), and it keeps the pending character well-formed.
pub proof fn lemma_run_actions_bounded(s: ParserView, bytes: Seq<u8>)
    requires
        utf8_pending_ok(s),
    ensures
        run(s, bytes).1.len() <= 2 * bytes.len(),
        utf8_pending_ok(run(s, bytes).0),
    decreases bytes.len(),
{
    if bytes.len() > 0 {
        lemma_run_actions_bounded(s, bytes.drop_last());
        lemma_step_actions_bounded(run(s, bytes.drop_last()).0, bytes.last());
    }
}

/// Whether the parser is inside a CSI sequence, before its final byte.
pub open spec fn in_csi(s: ParserView) -> bool {
    s.state == State::CsiEntry || s.state == State::CsiParam || s.state == State::CsiIntermediate
}

/// Inside a CSI sequence an intermediate byte (0x20..0x2F) is kept, up to
/// `MAX_INTERMEDIATES` of them: it is added to the intermediates, the
/// parameters and the private marker stay, nothing is dispatched, and the
/// sequence goes on in the intermediate state.
pub proof fn lemma_csi_keeps_intermediate(s: ParserView, b: u8)
    requires
        s.utf8_remaining == 0,
        in_csi(s),
        0x20 <= b <= 0x2F,
    ensures
        step(s, b).1.len() == 0,
        step(s, b).0.state == State::CsiIntermediate,
        step(s, b).0.intermediates == (if s.intermediates.len() < MAX_INTERMEDIATES {
            s.intermediates.push(b)
        } else {
            s.intermediates
        }),
        step(s, b).0.params == s.params,
        step(s, b).0.private_marker == s.private_marker,
{
}

/// Inside a CSI sequence a final byte (0x40..0x7E) dispatches exactly one
/// CSI action carrying the parameters, intermediates and private marker
/// gathered so far, and returns to the ground state.
pub proof fn lemma_csi_final_dispatches(s: ParserView, b: u8)
    requires
        s.utf8_remaining == 0,
        in_csi(s),
        0x40 <= b <= 0x7E,
    ensures
        step(s, b).1 == seq![
            ActionView::CsiDispatch {
                params: s.params,
                intermediates: s.intermediates,
                final_byte: b,
                private_marker: s.private_marker,
            },
        ],
        step(s, b).0.state == State::Ground,
{
}

/// Inside a CSI sequence's entry or parameters a decimal digit extends the
/// current parameter: with no parameter yet it becomes the first one;
/// otherwise the last parameter's value becomes ten times itself plus the
/// digit (at most 65535) and the earlier parameters stay.
pub proof fn lemma_csi_digit_extends_parameter(s: ParserView, b: u8)
    requires
        s.utf8_remaining == 0,
        s.state == State::CsiEntry || s.state == State::CsiParam,
        0x30 <= b <= 0x39,
    ensures
        step(s, b).1.len() == 0,
        step(s, b).0.state == State::CsiParam,
        step(s, b).0.intermediates == s.intermediates,
        step(s, b).0.private_marker == s.private_marker,
        s.params.len() == 0 ==> step(s, b).0.params.len() == 1 && step(s, b).0.params[0].value == b - 0x30,
        s.params.len() > 0 ==> step(s, b).0.params.len() == s.params.len(),
        s.params.len() > 0 ==> step(s, b).0.params[s.params.len() - 1].value == (if s.params.last().value * 10 + (b
            - 0x30) > 65535 {
            65535
        } else {
            s.params.last().value * 10 + (b - 0x30)
        }),
        forall|i: int| 0 <= i < s.params.len() - 1 ==> #[trigger] step(s, b).0.params[i].value == s.params[i].value,
{
}

/// Inside a CSI sequence's parameters `;` starts a new parameter with value
/// 0 (while fewer than `MAX_PARAMS` are held), keeping the earlier ones.
pub proof fn lemma_csi_semicolon_starts_parameter(s: ParserView)
    requires
        s.utf8_remaining == 0,
        s.state == State::CsiParam,
        s.params.len() < MAX_PARAMS,
    ensures
        step(s, 0x3bu8).1.len() == 0,
        step(s, 0x3bu8).0.state == State::CsiParam,
        step(s, 0x3bu8).0.params.len() == s.params.len() + 1,
        step(s, 0x3bu8).0.params[s.params.len() as int].value == 0,
        forall|i: int| 0 <= i < s.params.len() ==> #[trigger] step(s, 0x3bu8).0.params[i] == s.params[i],
{
}

/// In an OSC string, before its first `;` the digits form the command
/// number (modulo 65536) and the first `;` ends it; after it each
/// printable ASCII byte is added to the payload (up to `MAX_OSC_PAYLOAD`
/// bytes); BEL dispatches the command with its payload and returns to the
/// ground state.
pub proof fn lemma_osc_string(s: ParserView, b: u8)
    requires
        s.utf8_remaining == 0,
        s.state == State::OscString,
        s.preceding_byte != Some(0x1bu8),
    ensures
        b == 0x07 ==> step(s, b).1 == seq![ActionView::OscDispatch { command: s.osc_command, payload: s.osc_payload }]
            && step(s, b).0.state == State::Ground,
        !s.osc_in_payload && 0x30 <= b <= 0x39 ==> step(s, b).1.len() == 0 && step(s, b).0.osc_command == (
        s.osc_command * 10 + (b - 0x30)) % 65536 && step(s, b).0.osc_payload == s.osc_payload,
        !s.osc_in_payload && b == 0x3b ==> step(s, b).1.len() == 0 && step(s, b).0.osc_in_payload
            && step(s, b).0.osc_payload == s.osc_payload && step(s, b).0.osc_command == s.osc_command,
        s.osc_in_payload && 0x20 <= b <= 0x7E && s.osc_len < MAX_OSC_PAYLOAD ==> step(s, b).1.len() == 0
            && step(s, b).0.osc_payload == s.osc_payload.push(b as char) && step(s, b).0.osc_command
            == s.osc_command && step(s, b).0.state == State::OscString,
{
}

/// ESC \ (string terminator) ends an OSC string: the command is dispatched
/// with its payload.
pub proof fn lemma_osc_string_terminator(s: ParserView)
    requires
        s.utf8_remaining == 0,
        s.state == State::OscString,
    ensures
        step(s, 0x1bu8).1.len() == 0,
        step(step(s, 0x1bu8).0, 0x5cu8).1 == seq![
            ActionView::OscDispatch { command: s.osc_command, payload: s.osc_payload },
        ],
        step(step(s, 0x1bu8).0, 0x5cu8).0.state == State::Ground,
{
}

/// Feeding one more byte: the state and actions of the input so far,
/// then that byte's step.
proof fn lemma_run_push(s: ParserView, bytes: Seq<u8>, b: u8)
    ensures
        run(s, bytes.push(b)).0 == step(run(s, bytes).0, b).0,
        run(s, bytes.push(b)).1 == run(s, bytes).1 + step(run(s, bytes).0, b).1,
{
    assert(bytes.push(b).drop_last() =~= bytes);
}

/// ESC in the ground state starts an escape sequence and emits nothing.
proof fn lemma_escape_from_ground(s: ParserView)
    requires
        s.state == State::Ground,
        s.utf8_remaining == 0,
    ensures
        step(s, 0x1bu8).1.len() == 0,
        step(s, 0x1bu8).0.state == State::Escape,
        step(s, 0x1bu8).0.utf8_remaining == 0,
{
}

/// `[` after ESC starts a CSI sequence with nothing gathered.
proof fn lemma_csi_from_escape(s: ParserView)
    requires
        s.state == State::Escape,
        s.utf8_remaining == 0,
    ensures
        step(s, 0x5bu8).1.len() == 0,
        step(s, 0x5bu8).0.state == State::CsiEntry,
        step(s, 0x5bu8).0.params.len() == 0,
        step(s, 0x5bu8).0.intermediates.len() == 0,
        step(s, 0x5bu8).0.private_marker is None,
        step(s, 0x5bu8).0.utf8_remaining == 0,
{
}

/// A first digit of a CSI sequence becomes its first parameter.
proof fn lemma_csi_first_digit(s: ParserView, d: u8)
    requires
        s.state == State::CsiEntry,
        s.utf8_remaining == 0,
        s.params.len() == 0,
        0x30 <= d <= 0x39,
    ensures
        step(s, d).1.len() == 0,
        step(s, d).0.state == State::CsiParam,
        step(s, d).0.params =~= seq![crate::params::plain((d - 0x30) as u16)],
        step(s, d).0.intermediates == s.intermediates,
        step(s, d).0.private_marker == s.private_marker,
        step(s, d).0.utf8_remaining == 0,
{
}

/// ESC [ from the ground state starts a CSI sequence with no parameters,
/// no intermediates and no private marker.
pub proof fn lemma_csi_introducer(s: ParserView)
    requires
        s.state == State::Ground,
        s.utf8_remaining == 0,
    ensures
        run(s, seq![0x1bu8, 0x5bu8]).1.len() == 0,
        run(s, seq![0x1bu8, 0x5bu8]).0.state == State::CsiEntry,
        run(s, seq![0x1bu8, 0x5bu8]).0.params.len() == 0,
        run(s, seq![0x1bu8, 0x5bu8]).0.intermediates.len() == 0,
        run(s, seq![0x1bu8, 0x5bu8]).0.private_marker is None,
        run(s, seq![0x1bu8, 0x5bu8]).0.utf8_remaining == 0,
{
    let e = Seq::<u8>::empty();
    lemma_run_push(s, e, 0x1bu8);
    assert(e.push(0x1bu8) =~= seq![0x1bu8]);
    assert(run(s, e).0 == s);
    assert(run(s, e).1 =~= Seq::<ActionView>::empty());
    lemma_escape_from_ground(s);
    let s1 = step(s, 0x1bu8).0;
    lemma_run_push(s, seq![0x1bu8], 0x5bu8);
    assert(seq![0x1bu8].push(0x5bu8) =~= seq![0x1bu8, 0x5bu8]);
    lemma_csi_from_escape(s1);
}

/// A CSI sequence made of `ESC [`, a decimal digit, one intermediate byte
/// and a final byte, read from the ground state, dispatches one action
/// whose single parameter is the digit's value and whose intermediates are
/// that byte (as in `ESC [ 2 SP q`, which sets a steady block cursor).
pub proof fn lemma_csi_digit_intermediate_final(s: ParserView, d: u8, i: u8, f: u8)
    requires
        s.state == State::Ground,
        s.utf8_remaining == 0,
        0x30 <= d <= 0x39,
        0x20 <= i <= 0x2F,
        0x40 <= f <= 0x7E,
    ensures
        run(s, seq![0x1bu8, 0x5bu8, d, i, f]).1 == seq![
            ActionView::CsiDispatch {
                params: seq![crate::params::plain((d - 0x30) as u16)],
                intermediates: seq![i],
                final_byte: f,
                private_marker: None,
            },
        ],
{
    let p2 = seq![0x1bu8, 0x5bu8];
    lemma_csi_introducer(s);
    let s2 = run(s, p2).0;
    lemma_run_push(s, p2, d);
    lemma_csi_first_digit(s2, d);
    let s3 = step(s2, d).0;
    lemma_run_push(s, p2.push(d), i);
    lemma_csi_keeps_intermediate(s3, i);
    let s4 = step(s3, i).0;
    assert(s4.intermediates =~= seq![i]);
    lemma_run_push(s, p2.push(d).push(i), f);
    lemma_csi_final_dispatches(s4, f);
    assert(p2.push(d).push(i).push(f) =~= seq![0x1bu8, 0x5bu8, d, i, f]);
    assert(run(s, p2.push(d).push(i)).1 =~= Seq::<ActionView>::empty());
}

/// Append `a` to `out`.
fn emit(out: &mut Vec<Action>, a: Action)
    ensures
        views(final(out)@) == views(old(out)@) + seq![a@],
{
    let ghost pre = out@;
    out.push(a);
    proof {
        assert(views(pre.push(a)) =~= views(pre) + seq![a@]);
    }
}

/// The character with code `b` (Latin-1).
fn byte_char(b: u8) -> (c: char)
    ensures
        c == b as char,
{
    b as char
}

/// `std::str::from_utf8`: the text the bytes encode when they are valid
/// UTF-8 (as the Unicode standard defines it, which is what
/// `vstd::utf8::valid_utf8` states), else an error.
#[verifier::external_body]
fn str_from_utf8(bytes: &[u8]) -> (res: Result<&str, Utf8Error>)
    ensures
        res is Ok <==> valid_utf8(bytes@),
        res is Ok ==> res.unwrap()@ == decode_utf8(bytes@),
{
    std::str::from_utf8(bytes)
}

#[verifier::external_type_specification]
#[verifier::external_body]
pub struct ExUtf8Error(std::str::Utf8Error);

/// An escape sequence parser.
#[derive(Debug)]
pub struct Parser {
    state: State,
    params: Params,
    intermediates: Vec<u8>,
    private_marker: Option<u8>,
    osc_payload: Vec<char>,
    osc_len: usize,
    osc_command: u16,
    osc_in_payload: bool,
    dcs_payload: Vec<u8>,
    sos_payload: Vec<u8>,
    utf8_buffer: Vec<u8>,
    utf8_remaining: usize,
    preceding_byte: Option<u8>,
}

impl View for Parser {
    type V = ParserView;

    closed spec fn view(&self) -> ParserView {
        ParserView {
            state: self.state,
            params: self.params@,
            intermediates: self.intermediates@,
            private_marker: self.private_marker,
            osc_payload: self.osc_payload@,
            osc_len: self.osc_len as nat,
            osc_command: self.osc_command,
            osc_in_payload: self.osc_in_payload,
            dcs_payload: self.dcs_payload@,
            sos_payload: self.sos_payload@,
            utf8_buffer: self.utf8_buffer@,
            utf8_remaining: self.utf8_remaining as nat,
            preceding_byte: self.preceding_byte,
        }
    }
}

/// Bounds the parser keeps: parameters and intermediates within their
/// limits, the OSC length within one character of its limit, at most three
/// pending UTF-8 continuation bytes.
pub open spec fn pv_wf(s: ParserView) -> bool {
    &&& s.params.len() <= MAX_PARAMS
    &&& forall|i: int| 0 <= i < s.params.len() ==> #[trigger] s.params[i].subs.len() <= crate::params::MAX_SUBPARAMS
    &&& s.intermediates.len() <= MAX_INTERMEDIATES
    &&& s.osc_len <= MAX_OSC_PAYLOAD + 1
    &&& s.utf8_remaining <= 3
    &&& s.utf8_buffer.len() + s.utf8_remaining <= 4
}

impl Parser {
    pub closed spec fn wf(&self) -> bool {
        &&& self.core_wf()
        &&& utf8_pending_ok(self@)
    }

    closed spec fn core_wf(&self) -> bool {
        &&& self.params.wf()
        &&& pv_wf(self@)
    }

    pub fn new() -> (res: Self)
        ensures
            res.wf(),
            res@ == initial(),
    {
        let res = Parser {
            state: State::Ground,
            params: Params::new(),
            intermediates: Vec::new(),
            private_marker: None,
            osc_payload: Vec::new(),
            osc_len: 0,
            osc_command: 0,
            osc_in_payload: false,
            dcs_payload: Vec::new(),
            sos_payload: Vec::new(),
            utf8_buffer: Vec::new(),
            utf8_remaining: 0,
            preceding_byte: None,
        };
        proof {
            assert(res@ =~= initial());
        }
        res
    }

    /// Parse `input`, continuing from where the previous input stopped, and
    /// return the actions it completes.
    pub fn parse(&mut self, input: &[u8]) -> (res: Vec<Action>)
        requires
            old(self).wf(),
        ensures
            final(self).wf(),
            final(self)@ == run(old(self)@, input@).0,
            views(res@) == run(old(self)@, input@).1,
            res@.len() <= 2 * input@.len(),
    {
        let mut out: Vec<Action> = Vec::new();
        let mut i: usize = 0;
        while i < input.len()
            invariant
                self.wf(),
                i <= input@.len(),
                self@ == run(old(self)@, input@.subrange(0, i as int)).0,
                views(out@) == run(old(self)@, input@.subrange(0, i as int)).1,
            decreases input.len() - i,
        {
            proof {
                assert(input@.subrange(0, i + 1).drop_last() =~= input@.subrange(0, i as int));
                assert(input@.subrange(0, i + 1).last() == input@[i as int]);
            }
            let ghost before = self@;
            self.advance(input[i], &mut out);
            proof {
                lemma_step_actions_bounded(before, input[i as int]);
            }
            i = i + 1;
        }
        proof {
            assert(input@.subrange(0, input@.len() as int) =~= input@);
            lemma_run_actions_bounded(old(self)@, input@);
        }
        out
    }

    /// Forget any partial sequence and return to the ground state.
    pub fn reset(&mut self)
        ensures
            final(self).wf(),
            final(self)@ == initial(),
    {
        self.state = State::Ground;
        self.params = Params::new();
        self.intermediates = Vec::new();
        self.private_marker = None;
        self.osc_payload = Vec::new();
        self.osc_len = 0;
        self.osc_command = 0;
        self.osc_in_payload = false;
        self.dcs_payload = Vec::new();
        self.sos_payload = Vec::new();
        self.utf8_buffer = Vec::new();
        self.utf8_remaining = 0;
        self.preceding_byte = None;
        proof {
            assert(self@ =~= initial());
        }
    }

    /// Feed one byte.
    fn advance(&mut self, byte: u8, out: &mut Vec<Action>)
        requires
            old(self).core_wf(),
        ensures
            final(self).core_wf(),
            final(self)@ == step(old(self)@, byte).0,
            views(final(out)@) == views(old(out)@) + step(old(self)@, byte).1,
    {
        let ghost pre = self@;
        let ghost out0 = views(out@);
        if self.utf8_remaining > 0 {
            if 0x80 <= byte && byte <= 0xBF {
                self.utf8_buffer.push(byte);
                self.utf8_remaining = self.utf8_remaining - 1;
                if self.utf8_remaining == 0 {
                    self.flush_utf8(out);
                }
                proof {
                    assert(self@ =~= step(pre, byte).0);
                }
                return;
            } else {
                emit(out, Action::Print(REPLACEMENT));
                self.utf8_buffer = Vec::new();
                self.utf8_remaining = 0;
                let ghost mid = self@;
                let ghost out1 = views(out@);
                proof {
                    assert(mid =~= ParserView { utf8_buffer: Seq::empty(), utf8_remaining: 0, ..pre });
                }
                self.byte(byte, out);
                proof {
                    assert(views(out@) =~= out0 + step(pre, byte).1);
                }
                return;
            }
        }
        self.byte(byte, out);
    }

    /// Print the decoded pending UTF-8 character and empty the buffer.
    fn flush_utf8(&mut self, out: &mut Vec<Action>)
        requires
            old(self).core_wf(),
            old(self).utf8_remaining == 0,
        ensures
            final(self).core_wf(),
            final(self)@ == (ParserView { utf8_buffer: Seq::empty(), ..old(self)@ }),
            views(final(out)@) == views(old(out)@) + decoded(old(self)@.utf8_buffer),
    {
        let ghost buf = self.utf8_buffer@;
        let ghost out0 = views(out@);
        match str_from_utf8(self.utf8_buffer.as_slice()) {
            Ok(s) => {
                let n = s.unicode_len();
                let mut i: usize = 0;
                proof {
                    assert(prints(s@.subrange(0, 0)) =~= Seq::<ActionView>::empty());
                    assert(out0 + prints(s@.subrange(0, 0)) =~= out0);
                }
                while i < n
                    invariant
                        n == s@.len(),
                        s@ == decode_utf8(buf),
                        valid_utf8(buf),
                        i <= n,
                        views(out@) == out0 + prints(s@.subrange(0, i as int)),
                    decreases n - i,
                {
                    let c = s.get_char(i);
                    assert(c == s@[i as int]);
                    emit(out, Action::Print(c));
                    proof {
                        assert(s@.subrange(0, i + 1).drop_last() =~= s@.subrange(0, i as int));
                        assert(prints(s@.subrange(0, i + 1)) == prints(s@.subrange(0, i as int)).push(
                            ActionView::Print(c),
                        ));
                        assert(out0 + prints(s@.subrange(0, i + 1)) =~= out0 + prints(s@.subrange(0, i as int))
                            + seq![ActionView::Print(c)]);
                    }
                    i = i + 1;
                }
                proof {
                    assert(s@.subrange(0, n as int) =~= s@);
                }
            },
            Err(_) => {
                emit(out, Action::Print(REPLACEMENT));
            },
        }
        self.utf8_buffer = Vec::new();
        proof {
            assert(self@ =~= ParserView { utf8_buffer: Seq::empty(), ..old(self)@ });
        }
    }

    /// A byte that does not continue a UTF-8 character.
    fn byte(&mut self, byte: u8, out: &mut Vec<Action>)
        requires
            old(self).core_wf(),
            old(self)@.utf8_remaining == 0,
        ensures
            final(self).core_wf(),
            final(self)@ == byte_step(old(self)@, byte).0,
            views(final(out)@) == views(old(out)@) + byte_step(old(self)@, byte).1,
    {
        if self.state == State::Ground && 0x80 <= byte && byte < 0xA0 {
            self.handle_c1(byte, out);
            return;
        }
        if self.state == State::Ground && byte >= 0xC0 {
            if 0xC2 <= byte && byte <= 0xF4 {
                self.utf8_buffer = Vec::new();
                self.utf8_buffer.push(byte);
                self.utf8_remaining = if byte <= 0xDF {
                    1
                } else if byte <= 0xEF {
                    2
                } else {
                    3
                };
                proof {
                    assert(self@ =~= byte_step(old(self)@, byte).0);
                    assert(views(out@) =~= views(old(out)@) + Seq::<ActionView>::empty());
                }
            } else {
                emit(out, Action::Print(REPLACEMENT));
            }
            return;
        }
        let ghost pre = self@;
        match self.state {
            State::Ground => self.ground(byte, out),
            State::Escape => self.escape(byte, out),
            State::EscapeIntermediate => self.escape_intermediate(byte, out),
            State::CsiEntry => self.csi_entry(byte, out),
            State::CsiParam => self.csi_param(byte, out),
            State::CsiIntermediate => self.csi_intermediate(byte, out),
            State::CsiIgnore => self.csi_ignore(byte, out),
            State::OscString => self.osc_string(byte, out),
            State::DcsEntry => self.dcs_entry(byte, out),
            State::DcsParam => self.dcs_param(byte, out),
            State::DcsIntermediate => self.dcs_intermediate(byte, out),
            State::DcsPassthrough => self.dcs_passthrough(byte, out),
            State::DcsIgnore => self.dcs_ignore(byte, out),
            State::SosPmApcString => self.sos_pm_apc_string(byte, out),
        }
        self.preceding_byte = Some(byte);
        proof {
            assert(self@ =~= byte_step(pre, byte).0);
        }
    }

    /// Clear the sequence state.
    fn clear(&mut self)
        requires
            old(self).core_wf(),
        ensures
            final(self).core_wf(),
            final(self)@ == cleared(old(self)@),
    {
        self.params.clear();
        self.intermediates = Vec::new();
        self.private_marker = None;
        proof {
            assert(self@ =~= cleared(old(self)@));
        }
    }

    /// Collect an intermediate byte.
    fn collect(&mut self, byte: u8)
        requires
            old(self).core_wf(),
        ensures
            final(self).core_wf(),
            final(self)@ == collected(old(self)@, byte),
    {
        if self.intermediates.len() < MAX_INTERMEDIATES {
            self.intermediates.push(byte);
        }
        proof {
            assert(self@ =~= collected(old(self)@, byte));
        }
    }

    /// Add a decimal digit to the last parameter.
    fn digit(&mut self, byte: u8)
        requires
            old(self).core_wf(),
            0x30 <= byte <= 0x39,
        ensures
            final(self).core_wf(),
            final(self)@ == digit_added(old(self)@, byte),
    {
        let d = (byte - 0x30) as u16;
        if self.params.is_empty() {
            self.params.push(d);
            proof {
                assert(self.params@ =~= seq![plain(d)]);
            }
        } else {
            let n = self.params.len();
            let values = self.params.iter();
            let current = values[n - 1];
            let t: u32 = current as u32 * 10 + d as u32;
            let new_val: u16 = if t > 0xFFFF {
                0xFFFF
            } else {
                t as u16
            };
            let mut p = Params::new();
            let mut i: usize = 0;
            while i < n - 1
                invariant
                    0 < n <= MAX_PARAMS,
                    values@ == Seq::new(n as nat, |k: int| old(self)@.params[k].value),
                    n == old(self)@.params.len(),
                    i <= n - 1,
                    p.wf(),
                    p@ == Seq::new(i as nat, |k: int| plain(old(self)@.params[k].value)),
                decreases n - 1 - i,
            {
                p.push(values[i]);
                proof {
                    assert(p@ =~= Seq::new((i + 1) as nat, |k: int| plain(old(self)@.params[k].value)));
                }
                i = i + 1;
            }
            p.push(new_val);
            proof {
                assert(new_val == sat_digit(current, d));
                assert(p@ =~= param_digit(old(self)@.params, d));
            }
            self.params = p;
        }
        proof {
            assert(self@ =~= digit_added(old(self)@, byte));
        }
    }

    /// Start a new parameter.
    fn next_value(&mut self)
        requires
            old(self).core_wf(),
        ensures
            final(self).core_wf(),
            final(self)@ == value_added(old(self)@),
    {
        self.params.push(0);
        proof {
            assert(self@ =~= value_added(old(self)@));
        }
    }

    /// Start a new subparameter.
    fn next_sub(&mut self)
        requires
            old(self).core_wf(),
        ensures
            final(self).core_wf(),
            final(self)@ == sub_added(old(self)@),
    {
        self.params.push_subparam(0);
        proof {
            assert(self@ =~= sub_added(old(self)@));
        }
    }

    fn set_state(&mut self, st: State)
        requires
            old(self).core_wf(),
        ensures
            final(self).core_wf(),
            final(self)@ == with_state(old(self)@, st),
    {
        self.state = st;
        proof {
            assert(self@ =~= with_state(old(self)@, st));
        }
    }

    fn start_osc(&mut self)
        requires
            old(self).core_wf(),
        ensures
            final(self).core_wf(),
            final(self)@ == osc_started(old(self)@),
    {
        self.osc_payload = Vec::new();
        self.osc_len = 0;
        self.osc_command = 0;
        self.osc_in_payload = false;
        self.state = State::OscString;
        proof {
            assert(self@ =~= osc_started(old(self)@));
        }
    }

    fn start_dcs(&mut self)
        requires
            old(self).core_wf(),
        ensures
            final(self).core_wf(),
            final(self)@ == dcs_started(old(self)@),
    {
        self.clear();
        self.dcs_payload = Vec::new();
        self.state = State::DcsEntry;
        proof {
            assert(self@ =~= dcs_started(old(self)@));
        }
    }

    fn start_string(&mut self)
        requires
            old(self).core_wf(),
        ensures
            final(self).core_wf(),
            final(self)@ == string_started(old(self)@),
    {
        self.sos_payload = Vec::new();
        self.state = State::SosPmApcString;
        proof {
            assert(self@ =~= string_started(old(self)@));
        }
    }

    fn csi_dispatch(&self, byte: u8, out: &mut Vec<Action>)
        ensures
            views(final(out)@) == views(old(out)@) + seq![csi_action(self@, byte)],
    {
        emit(
            out,
            Action::CsiDispatch {
                params: self.params.duplicate(),
                intermediates: crate::params::copy_of(self.intermediates.as_slice()),
                final_byte: byte,
                private_marker: self.private_marker,
            },
        );
    }

    fn esc_dispatch(&self, byte: u8, out: &mut Vec<Action>)
        ensures
            views(final(out)@) == views(old(out)@) + seq![esc_action(self@.intermediates, byte)],
    {
        emit(
            out,
            Action::EscDispatch {
                intermediates: crate::params::copy_of(self.intermediates.as_slice()),
                final_byte: byte,
            },
        );
    }

    fn osc_dispatch(&self, out: &mut Vec<Action>)
        ensures
            views(final(out)@) == views(old(out)@) + seq![osc_action(self@)],
    {
        emit(out, Action::OscDispatch { command: self.osc_command, payload: string_from_chars(&self.osc_payload) });
    }

    fn dcs_dispatch(&self, out: &mut Vec<Action>)
        ensures
            views(final(out)@) == views(old(out)@) + seq![dcs_action(self@)],
    {
        emit(
            out,
            Action::DcsDispatch {
                params: self.params.duplicate(),
                intermediates: crate::params::copy_of(self.intermediates.as_slice()),
                final_byte: 0,
                payload: crate::params::copy_of(self.dcs_payload.as_slice()),
            },
        );
    }

    /// An 8-bit C1 control in the ground state.
    fn handle_c1(&mut self, byte: u8, out: &mut Vec<Action>)
        requires
            old(self).core_wf(),
        ensures
            final(self).core_wf(),
            final(self)@ == c1_step(old(self)@, byte).0,
            views(final(out)@) == views(old(out)@) + c1_step(old(self)@, byte).1,
    {
        if byte == 0x9B {
            self.clear();
            self.set_state(State::CsiEntry);
        } else if byte == 0x9D {
            self.clear();
            self.start_osc();
        } else if byte == 0x90 {
            self.start_dcs();
        } else if byte == 0x98 || byte == 0x9E || byte == 0x9F {
            self.start_string();
        } else if byte == 0x9C {
            self.set_state(State::Ground);
        } else if byte == 0x84 {
            emit(out, Action::EscDispatch { intermediates: Vec::new(), final_byte: 0x44 });
        } else if byte == 0x85 {
            emit(out, Action::EscDispatch { intermediates: Vec::new(), final_byte: 0x45 });
        } else if byte == 0x88 {
            emit(out, Action::EscDispatch { intermediates: Vec::new(), final_byte: 0x48 });
        } else if byte == 0x8D {
            emit(out, Action::EscDispatch { intermediates: Vec::new(), final_byte: 0x4D });
        }
        proof {
            assert(views(out@) =~= views(old(out)@) + c1_step(old(self)@, byte).1);
        }
    }

    fn ground(&mut self, byte: u8, out: &mut Vec<Action>)
        requires
            old(self).core_wf(),
        ensures
            final(self).core_wf(),
            final(self)@ == ground_step(old(self)@, byte).0,
            views(final(out)@) == views(old(out)@) + ground_step(old(self)@, byte).1,
    {
        if byte <= 0x1A || (0x1C <= byte && byte <= 0x1F) {
            emit(out, Action::Execute(byte));
        } else if byte == 0x1B {
            self.clear();
            self.set_state(State::Escape);
        } else if 0x20 <= byte && byte <= 0x7E {
            emit(out, Action::Print(byte_char(byte)));
        } else if byte == 0x7F {
        } else if byte <= 0x9F {
            self.handle_c1(byte, out);
        } else {
            emit(out, Action::Print(byte_char(byte)));
        }
        proof {
            assert(views(out@) =~= views(old(out)@) + ground_step(old(self)@, byte).1);
        }
    }

    fn escape(&mut self, byte: u8, out: &mut Vec<Action>)
        requires
            old(self).core_wf(),
        ensures
            final(self).core_wf(),
            final(self)@ == escape_step(old(self)@, byte).0,
            views(final(out)@) == views(old(out)@) + escape_step(old(self)@, byte).1,
    {
        if byte <= 0x17 || byte == 0x19 || (0x1C <= byte && byte <= 0x1F) {
            emit(out, Action::Execute(byte));
        } else if byte == 0x18 || byte == 0x1A {
            self.set_state(State::Ground);
        } else if byte == 0x1B {
            self.clear();
        } else if 0x20 <= byte && byte <= 0x2F {
            self.collect(byte);
            self.set_state(State::EscapeIntermediate);
        } else if byte == 0x5B {
            self.clear();
            self.set_state(State::CsiEntry);
        } else if byte == 0x5D {
            self.start_osc();
        } else if byte == 0x50 {
            self.start_dcs();
        } else if byte == 0x58 || byte == 0x5E || byte == 0x5F {
            self.start_string();
        } else if (0x30 <= byte && byte <= 0x4F) || (0x51 <= byte && byte <= 0x57) || byte == 0x59 || byte == 0x5A
            || byte == 0x5C || (0x60 <= byte && byte <= 0x7E) {
            self.esc_dispatch(byte, out);
            self.set_state(State::Ground);
        } else if byte == 0x7F {
        } else {
            self.set_state(State::Ground);
        }
        proof {
            assert(views(out@) =~= views(old(out)@) + escape_step(old(self)@, byte).1);
        }
    }

    fn escape_intermediate(&mut self, byte: u8, out: &mut Vec<Action>)
        requires
            old(self).core_wf(),
        ensures
            final(self).core_wf(),
            final(self)@ == escape_intermediate_step(old(self)@, byte).0,
            views(final(out)@) == views(old(out)@) + escape_intermediate_step(old(self)@, byte).1,
    {
        if byte <= 0x17 || byte == 0x19 || (0x1C <= byte && byte <= 0x1F) {
            emit(out, Action::Execute(byte));
        } else if byte == 0x18 || byte == 0x1A {
            self.set_state(State::Ground);
        } else if byte == 0x1B {
            self.clear();
            self.set_state(State::Escape);
        } else if 0x20 <= byte && byte <= 0x2F {
            self.collect(byte);
        } else if 0x30 <= byte && byte <= 0x7E {
            self.esc_dispatch(byte, out);
            self.set_state(State::Ground);
        } else if byte == 0x7F {
        } else {
            self.set_state(State::Ground);
        }
        proof {
            assert(views(out@) =~= views(old(out)@) + escape_intermediate_step(old(self)@, byte).1);
        }
    }

    fn csi_entry(&mut self, byte: u8, out: &mut Vec<Action>)
        requires
            old(self).core_wf(),
        ensures
            final(self).core_wf(),
            final(self)@ == csi_entry_step(old(self)@, byte).0,
            views(final(out)@) == views(old(out)@) + csi_entry_step(old(self)@, byte).1,
    {
        if byte <= 0x17 || byte == 0x19 || (0x1C <= byte && byte <= 0x1F) {
            emit(out, Action::Execute(byte));
        } else if byte == 0x18 || byte == 0x1A {
            self.set_state(State::Ground);
        } else if byte == 0x1B {
            self.clear();
            self.set_state(State::Escape);
        } else if 0x3C <= byte && byte <= 0x3F {
            self.private_marker = Some(byte);
            self.set_state(State::CsiParam);
        } else if 0x30 <= byte && byte <= 0x39 {
            self.digit(byte);
            self.set_state(State::CsiParam);
        } else if byte == 0x3B || byte == 0x3A {
            self.next_value();
            self.set_state(State::CsiParam);
        } else if 0x20 <= byte && byte <= 0x2F {
            self.collect(byte);
            self.set_state(State::CsiIntermediate);
        } else if 0x40 <= byte && byte <= 0x7E {
            self.csi_dispatch(byte, out);
            self.set_state(State::Ground);
        } else if byte == 0x7F {
        } else {
            self.set_state(State::Ground);
        }
        proof {
            assert(views(out@) =~= views(old(out)@) + csi_entry_step(old(self)@, byte).1);
        }
    }

    fn csi_param(&mut self, byte: u8, out: &mut Vec<Action>)
        requires
            old(self).core_wf(),
        ensures
            final(self).core_wf(),
            final(self)@ == csi_param_step(old(self)@, byte).0,
            views(final(out)@) == views(old(out)@) + csi_param_step(old(self)@, byte).1,
    {
        if byte <= 0x17 || byte == 0x19 || (0x1C <= byte && byte <= 0x1F) {
            emit(out, Action::Execute(byte));
        } else if byte == 0x18 || byte == 0x1A {
            self.set_state(State::Ground);
        } else if byte == 0x1B {
            self.clear();
            self.set_state(State::Escape);
        } else if 0x30 <= byte && byte <= 0x39 {
            self.digit(byte);
        } else if byte == 0x3B {
            self.next_value();
        } else if byte == 0x3A {
            self.next_sub();
        } else if 0x3C <= byte && byte <= 0x3F {
            self.set_state(State::CsiIgnore);
        } else if 0x20 <= byte && byte <= 0x2F {
            self.collect(byte);
            self.set_state(State::CsiIntermediate);
        } else if 0x40 <= byte && byte <= 0x7E {
            self.csi_dispatch(byte, out);
            self.set_state(State::Ground);
        } else if byte == 0x7F {
        } else {
            self.set_state(State::CsiIgnore);
        }
        proof {
            assert(views(out@) =~= views(old(out)@) + csi_param_step(old(self)@, byte).1);
        }
    }

    fn csi_intermediate(&mut self, byte: u8, out: &mut Vec<Action>)
        requires
            old(self).core_wf(),
        ensures
            final(self).core_wf(),
            final(self)@ == csi_intermediate_step(old(self)@, byte).0,
            views(final(out)@) == views(old(out)@) + csi_intermediate_step(old(self)@, byte).1,
    {
        if byte <= 0x17 || byte == 0x19 || (0x1C <= byte && byte <= 0x1F) {
            emit(out, Action::Execute(byte));
        } else if byte == 0x18 || byte == 0x1A {
            self.set_state(State::Ground);
        } else if byte == 0x1B {
            self.clear();
            self.set_state(State::Escape);
        } else if 0x20 <= byte && byte <= 0x2F {
            self.collect(byte);
        } else if 0x30 <= byte && byte <= 0x3F {
            self.set_state(State::CsiIgnore);
        } else if 0x40 <= byte && byte <= 0x7E {
            self.csi_dispatch(byte, out);
            self.set_state(State::Ground);
        } else if byte == 0x7F {
        } else {
            self.set_state(State::CsiIgnore);
        }
        proof {
            assert(views(out@) =~= views(old(out)@) + csi_intermediate_step(old(self)@, byte).1);
        }
    }

    fn csi_ignore(&mut self, byte: u8, out: &mut Vec<Action>)
        requires
            old(self).core_wf(),
        ensures
            final(self).core_wf(),
            final(self)@ == csi_ignore_step(old(self)@, byte).0,
            views(final(out)@) == views(old(out)@) + csi_ignore_step(old(self)@, byte).1,
    {
        if byte <= 0x17 || byte == 0x19 || (0x1C <= byte && byte <= 0x1F) {
            emit(out, Action::Execute(byte));
        } else if byte == 0x18 || byte == 0x1A {
            self.set_state(State::Ground);
        } else if byte == 0x1B {
            self.clear();
            self.set_state(State::Escape);
        } else if 0x40 <= byte && byte <= 0x7E {
            self.set_state(State::Ground);
        }
        proof {
            assert(views(out@) =~= views(old(out)@) + csi_ignore_step(old(self)@, byte).1);
        }
    }

    fn osc_string(&mut self, byte: u8, out: &mut Vec<Action>)
        requires
            old(self).core_wf(),
        ensures
            final(self).core_wf(),
            final(self)@ == osc_string_step(old(self)@, byte).0,
            views(final(out)@) == views(old(out)@) + osc_string_step(old(self)@, byte).1,
    {
        if byte == 0x07 {
            self.osc_dispatch(out);
            self.set_state(State::Ground);
        } else if byte == 0x1B {
            self.preceding_byte = Some(byte);
        } else if byte == 0x18 || byte == 0x1A {
            self.set_state(State::Ground);
        } else if (0x20 <= byte && byte <= 0x7E) || 0xA0 <= byte {
            if self.preceding_byte == Some(0x1Bu8) && byte == 0x5C {
                self.osc_dispatch(out);
                self.set_state(State::Ground);
            } else if !self.osc_in_payload && 0x30 <= byte && byte <= 0x39 {
                let t: u32 = (self.osc_command as u32 * 10 + (byte - 0x30) as u32) % 65536;
                self.osc_command = t as u16;
            } else if !self.osc_in_payload && byte == 0x3B {
                self.osc_in_payload = true;
            } else if self.osc_len < MAX_OSC_PAYLOAD {
                self.osc_payload.push(byte_char(byte));
                self.osc_in_payload = true;
                self.osc_len = self.osc_len + if byte < 0x80 {
                    1
                } else {
                    2
                };
            }
        } else if byte == 0x9C {
            self.osc_dispatch(out);
            self.set_state(State::Ground);
        }
        proof {
            assert(self@ =~= osc_string_step(old(self)@, byte).0);
            assert(views(out@) =~= views(old(out)@) + osc_string_step(old(self)@, byte).1);
        }
    }

    fn dcs_entry(&mut self, byte: u8, out: &mut Vec<Action>)
        requires
            old(self).core_wf(),
        ensures
            final(self).core_wf(),
            final(self)@ == dcs_entry_step(old(self)@, byte).0,
            views(final(out)@) == views(old(out)@) + dcs_entry_step(old(self)@, byte).1,
    {
        if byte <= 0x17 || byte == 0x19 || (0x1C <= byte && byte <= 0x1F) {
        } else if byte == 0x18 || byte == 0x1A {
            self.set_state(State::Ground);
        } else if byte == 0x1B {
            self.clear();
            self.set_state(State::Escape);
        } else if 0x3C <= byte && byte <= 0x3F {
            self.private_marker = Some(byte);
            self.set_state(State::DcsParam);
        } else if 0x30 <= byte && byte <= 0x39 {
            self.digit(byte);
            self.set_state(State::DcsParam);
        } else if byte == 0x3B {
            self.next_value();
            self.set_state(State::DcsParam);
        } else if 0x20 <= byte && byte <= 0x2F {
            self.collect(byte);
            self.set_state(State::DcsIntermediate);
        } else if 0x40 <= byte && byte <= 0x7E {
            self.set_state(State::DcsPassthrough);
        } else if byte == 0x7F {
        } else {
            self.set_state(State::DcsIgnore);
        }
        proof {
            assert(views(out@) =~= views(old(out)@) + dcs_entry_step(old(self)@, byte).1);
        }
    }

    fn dcs_param(&mut self, byte: u8, out: &mut Vec<Action>)
        requires
            old(self).core_wf(),
        ensures
            final(self).core_wf(),
            final(self)@ == dcs_param_step(old(self)@, byte).0,
            views(final(out)@) == views(old(out)@) + dcs_param_step(old(self)@, byte).1,
    {
        if byte <= 0x17 || byte == 0x19 || (0x1C <= byte && byte <= 0x1F) {
        } else if byte == 0x18 || byte == 0x1A {
            self.set_state(State::Ground);
        } else if byte == 0x1B {
            self.clear();
            self.set_state(State::Escape);
        } else if 0x30 <= byte && byte <= 0x39 {
            self.digit(byte);
        } else if byte == 0x3B {
            self.next_value();
        } else if 0x3C <= byte && byte <= 0x3F {
            self.set_state(State::DcsIgnore);
        } else if 0x20 <= byte && byte <= 0x2F {
            self.collect(byte);
            self.set_state(State::DcsIntermediate);
        } else if 0x40 <= byte && byte <= 0x7E {
            self.set_state(State::DcsPassthrough);
        } else if byte == 0x7F {
        } else {
            self.set_state(State::DcsIgnore);
        }
        proof {
            assert(views(out@) =~= views(old(out)@) + dcs_param_step(old(self)@, byte).1);
        }
    }

    fn dcs_intermediate(&mut self, byte: u8, out: &mut Vec<Action>)
        requires
            old(self).core_wf(),
        ensures
            final(self).core_wf(),
            final(self)@ == dcs_intermediate_step(old(self)@, byte).0,
            views(final(out)@) == views(old(out)@) + dcs_intermediate_step(old(self)@, byte).1,
    {
        if byte <= 0x17 || byte == 0x19 || (0x1C <= byte && byte <= 0x1F) {
        } else if byte == 0x18 || byte == 0x1A {
            self.set_state(State::Ground);
        } else if byte == 0x1B {
            self.clear();
            self.set_state(State::Escape);
        } else if 0x20 <= byte && byte <= 0x2F {
            self.collect(byte);
        } else if 0x30 <= byte && byte <= 0x3F {
            self.set_state(State::DcsIgnore);
        } else if 0x40 <= byte && byte <= 0x7E {
            self.set_state(State::DcsPassthrough);
        } else if byte == 0x7F {
        } else {
            self.set_state(State::DcsIgnore);
        }
        proof {
            assert(views(out@) =~= views(old(out)@) + dcs_intermediate_step(old(self)@, byte).1);
        }
    }

    /// Add a byte to the DCS payload (while there is room).
    fn dcs_collect(&mut self, byte: u8)
        requires
            old(self).core_wf(),
        ensures
            final(self).core_wf(),
            final(self)@ == dcs_collected(old(self)@, byte),
    {
        if self.dcs_payload.len() < MAX_DCS_PAYLOAD {
            self.dcs_payload.push(byte);
        }
        proof {
            assert(self@ =~= dcs_collected(old(self)@, byte));
        }
    }

    fn dcs_passthrough(&mut self, byte: u8, out: &mut Vec<Action>)
        requires
            old(self).core_wf(),
        ensures
            final(self).core_wf(),
            final(self)@ == dcs_passthrough_step(old(self)@, byte).0,
            views(final(out)@) == views(old(out)@) + dcs_passthrough_step(old(self)@, byte).1,
    {
        if byte == 0x18 || byte == 0x1A {
            self.set_state(State::Ground);
        } else if byte == 0x1B {
            self.preceding_byte = Some(byte);
        } else if byte == 0x9C {
            self.dcs_dispatch(out);
            self.set_state(State::Ground);
        } else if byte <= 0x7E {
            if self.preceding_byte == Some(0x1Bu8) && byte == 0x5C {
                self.dcs_dispatch(out);
                self.set_state(State::Ground);
            } else {
                self.dcs_collect(byte);
            }
        } else if byte == 0x7F {
        } else {
            self.dcs_collect(byte);
        }
        proof {
            assert(self@ =~= dcs_passthrough_step(old(self)@, byte).0);
            assert(views(out@) =~= views(old(out)@) + dcs_passthrough_step(old(self)@, byte).1);
        }
    }

    fn dcs_ignore(&mut self, byte: u8, out: &mut Vec<Action>)
        requires
            old(self).core_wf(),
        ensures
            final(self).core_wf(),
            final(self)@ == dcs_ignore_step(old(self)@, byte).0,
            views(final(out)@) == views(old(out)@) + dcs_ignore_step(old(self)@, byte).1,
    {
        if byte == 0x18 || byte == 0x1A {
            self.set_state(State::Ground);
        } else if byte == 0x1B {
            self.preceding_byte = Some(byte);
        } else if byte == 0x9C {
            self.set_state(State::Ground);
        } else if self.preceding_byte == Some(0x1Bu8) && byte == 0x5C {
            self.set_state(State::Ground);
        }
        proof {
            assert(self@ =~= dcs_ignore_step(old(self)@, byte).0);
            assert(views(out@) =~= views(old(out)@) + dcs_ignore_step(old(self)@, byte).1);
        }
    }

    fn sos_pm_apc_string(&mut self, byte: u8, out: &mut Vec<Action>)
        requires
            old(self).core_wf(),
        ensures
            final(self).core_wf(),
            final(self)@ == sos_pm_apc_step(old(self)@, byte).0,
            views(final(out)@) == views(old(out)@) + sos_pm_apc_step(old(self)@, byte).1,
    {
        if byte == 0x18 || byte == 0x1A {
            self.set_state(State::Ground);
        } else if byte == 0x1B {
            self.preceding_byte = Some(byte);
        } else if byte == 0x9C {
            self.set_state(State::Ground);
        } else if self.preceding_byte == Some(0x1Bu8) && byte == 0x5C {
            self.set_state(State::Ground);
        } else {
            self.sos_payload.push(byte);
        }
        proof {
            assert(self@ =~= sos_pm_apc_step(old(self)@, byte).0);
            assert(views(out@) =~= views(old(out)@) + sos_pm_apc_step(old(self)@, byte).1);
        }
    }
}

} // verus!
