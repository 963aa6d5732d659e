//! C1 control characters (8-bit).

use vstd::prelude::*;

verus! {

pub const PAD: u8 = 0x80;

pub const HOP: u8 = 0x81;

pub const BPH: u8 = 0x82;

pub const NBH: u8 = 0x83;

pub const IND: u8 = 0x84;

pub const NEL: u8 = 0x85;

pub const SSA: u8 = 0x86;

pub const ESA: u8 = 0x87;

pub const HTS: u8 = 0x88;

pub const HTJ: u8 = 0x89;

pub const VTS: u8 = 0x8A;

pub const PLD: u8 = 0x8B;

pub const PLU: u8 = 0x8C;

pub const RI: u8 = 0x8D;

pub const SS2: u8 = 0x8E;

pub const SS3: u8 = 0x8F;

pub const DCS: u8 = 0x90;

pub const PU1: u8 = 0x91;

pub const PU2: u8 = 0x92;

pub const STS: u8 = 0x93;

pub const CCH: u8 = 0x94;

pub const MW: u8 = 0x95;

pub const SPA: u8 = 0x96;

pub const EPA: u8 = 0x97;

pub const SOS: u8 = 0x98;

pub const SGCI: u8 = 0x99;

pub const SCI: u8 = 0x9A;

pub const CSI: u8 = 0x9B;

pub const ST: u8 = 0x9C;

pub const OSC: u8 = 0x9D;

pub const PM: u8 = 0x9E;

pub const APC: u8 = 0x9F;

} // verus!
