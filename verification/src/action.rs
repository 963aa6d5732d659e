//! Terminal actions produced by the parser.
//!
//! Actions are the semantic operations the terminal performs: printing,
//! executing a control character, or dispatching a complete escape
//! sequence with its parameters.

pub mod c0;
pub mod c1;

use vstd::prelude::*;

use crate::params::{ParamView, Params};

verus! {

/// The abstract value of an action.
pub enum ActionView {
    Print(char),
    Execute(u8),
    CsiDispatch { params: Seq<ParamView>, intermediates: Seq<u8>, final_byte: u8, private_marker: Option<u8> },
    EscDispatch { intermediates: Seq<u8>, final_byte: u8 },
    OscDispatch { command: u16, payload: Seq<char> },
    DcsDispatch { params: Seq<ParamView>, intermediates: Seq<u8>, final_byte: u8, payload: Seq<u8> },
    ApcDispatch(Seq<u8>),
    PmDispatch(Seq<u8>),
    SosDispatch(Seq<u8>),
}

/// A terminal action produced by the parser.
#[derive(Debug)]
pub enum Action {
    /// Print a character
    Print(char),
    /// Execute a C0 control character
    Execute(u8),
    /// CSI sequence dispatch
    CsiDispatch { params: Params, intermediates: Vec<u8>, final_byte: u8, private_marker: Option<u8> },
    /// ESC sequence dispatch
    EscDispatch { intermediates: Vec<u8>, final_byte: u8 },
    /// OSC sequence dispatch
    OscDispatch { command: u16, payload: String },
    /// DCS sequence (device control string)
    DcsDispatch { params: Params, intermediates: Vec<u8>, final_byte: u8, payload: Vec<u8> },
    /// APC sequence (application program command)
    ApcDispatch(Vec<u8>),
    /// PM sequence (privacy message)
    PmDispatch(Vec<u8>),
    /// SOS sequence (start of string)
    SosDispatch(Vec<u8>),
}

impl View for Action {
    type V = ActionView;

    open spec fn view(&self) -> ActionView {
        match self {
            Action::Print(c) => ActionView::Print(*c),
            Action::Execute(b) => ActionView::Execute(*b),
            Action::CsiDispatch { params, intermediates, final_byte, private_marker } => ActionView::CsiDispatch {
                params: params@,
                intermediates: intermediates@,
                final_byte: *final_byte,
                private_marker: *private_marker,
            },
            Action::EscDispatch { intermediates, final_byte } => ActionView::EscDispatch {
                intermediates: intermediates@,
                final_byte: *final_byte,
            },
            Action::OscDispatch { command, payload } => ActionView::OscDispatch {
                command: *command,
                payload: payload@,
            },
            Action::DcsDispatch { params, intermediates, final_byte, payload } => ActionView::DcsDispatch {
                params: params@,
                intermediates: intermediates@,
                final_byte: *final_byte,
                payload: payload@,
            },
            Action::ApcDispatch(d) => ActionView::ApcDispatch(d@),
            Action::PmDispatch(d) => ActionView::PmDispatch(d@),
            Action::SosDispatch(d) => ActionView::SosDispatch(d@),
        }
    }
}

/// The value of `params[index]`, or `default` when there is none.
pub open spec fn param_value(params: Seq<u16>, index: int, default: u16) -> u16 {
    if 0 <= index < params.len() {
        params[index]
    } else {
        default
    }
}

/// CSI (Control Sequence Introducer) action.
#[derive(Debug, Clone, PartialEq, Eq)]
pub struct CsiAction {
    /// Parameters (semicolon-separated numbers)
    pub params: Vec<u16>,
    /// Intermediate bytes (between CSI and final byte)
    pub intermediates: Vec<u8>,
    /// Final byte (determines the action)
    pub final_byte: u8,
    /// Whether this is a private sequence (starts with ?)
    pub private: bool,
}

impl CsiAction {
    /// The parameter at `index`, or `default`.
    pub fn param(&self, index: usize, default: u16) -> (res: u16)
        ensures
            res == param_value(self.params@, index as int, default),
    {
        if index < self.params.len() {
            self.params[index]
        } else {
            default
        }
    }

    /// The parameter at `index`, a missing or zero one counting as 1
    /// (as cursor movements read it).
    pub fn param_or_one(&self, index: usize) -> (res: u16)
        ensures
            res == (if param_value(self.params@, index as int, 0) == 0 {
                1
            } else {
                param_value(self.params@, index as int, 0)
            }),
    {
        let p = self.param(index, 0);
        if p == 0 {
            1
        } else {
            p
        }
    }
}

/// ESC sequence action.
#[derive(Debug, Clone, PartialEq, Eq)]
pub struct EscAction {
    /// Intermediate bytes
    pub intermediates: Vec<u8>,
    /// Final byte
    pub final_byte: u8,
}

/// OSC (Operating System Command) action.
#[derive(Debug, Clone, PartialEq, Eq)]
pub struct OscAction {
    /// OSC command number
    pub command: u16,
    /// Payload (after the semicolon)
    pub payload: String,
}

/// DCS (Device Control String) action.
#[derive(Debug, Clone, PartialEq, Eq)]
pub struct DcsAction {
    /// Parameters
    pub params: Vec<u16>,
    /// Intermediate bytes
    pub intermediates: Vec<u8>,
    /// Final byte
    pub final_byte: u8,
    /// Data payload
    pub data: Vec<u8>,
}

/// DCS hook (start of a DCS sequence).
#[derive(Debug, Clone, PartialEq, Eq)]
pub struct DcsHook {
    /// Parameters
    pub params: Vec<u16>,
    /// Intermediate bytes
    pub intermediates: Vec<u8>,
    /// Final byte
    pub final_byte: u8,
}

} // verus!
