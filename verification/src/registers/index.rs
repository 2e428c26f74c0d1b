//! Numbering of the 8-bit registers used by the three-bit register fields of
//! instruction encodings. Index 6 names the byte addressed by HL.

use vstd::prelude::*;

verus! {

pub const A: u8 = 7;
pub const B: u8 = 0;
pub const C: u8 = 1;
pub const D: u8 = 2;
pub const E: u8 = 3;
pub const H: u8 = 4;
pub const L: u8 = 5;
pub const HL: u8 = 6;

} // verus!
