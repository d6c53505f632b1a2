//! ASCII bytes by name.

use vstd::prelude::*;

verus! {

pub const TAB: u8 = 0x09;

pub const LF: u8 = 0x0a;

pub const CR: u8 = 0x0d;

pub const SPACE: u8 = 0x20;

pub const DQUOTE: u8 = 0x22;

pub const PERCENT: u8 = 0x25;

pub const COMMA: u8 = 0x2c;

pub const ZERO: u8 = 0x30;

pub const NINE: u8 = 0x39;

pub const COLON: u8 = 0x3a;

pub const SEMICOLON: u8 = 0x3b;

pub const EQUALS: u8 = 0x3d;

pub const UPPER_A: u8 = 0x41;

pub const UPPER_F: u8 = 0x46;

pub const UPPER_Z: u8 = 0x5a;

pub const BACKSLASH: u8 = 0x5c;

pub const LOWER_A: u8 = 0x61;

pub const LOWER_Z: u8 = 0x7a;

} // verus!
