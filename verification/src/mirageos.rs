//! MirageOS shell vector addresses, in the page mapped into bank A.
#![allow(non_upper_case_globals)]

use vstd::prelude::*;

verus! {

pub const ionVersion: u16 = 0x4083;

pub const ionRandom: u16 = 0x4086;

pub const ionPutSprite: u16 = 0x4089;

pub const ionLargeSprite: u16 = 0x408C;

pub const ionGetPixel: u16 = 0x408F;

pub const ionFastCopy: u16 = 0x4092;

pub const ionDetect: u16 = 0x4095;

pub const ionDecompress: u16 = 0x4098;

} // verus!
