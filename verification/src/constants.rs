//! Fixed quantities of the hardware.

use vstd::prelude::*;

verus! {

pub const CPU_SPEED_HZ: u32 = 4_194_304;

pub const ROM_BANK_SIZE: u32 = 0x4000;

pub const RAM_BANK_SIZE: u32 = 0x2000;

pub const SCREEN_WIDTH: u32 = 160;

pub const SCREEN_HEIGHT: u32 = 144;

#[verifier::nonlinear]
pub const SCREEN_PIXELS: u32 = SCREEN_WIDTH * SCREEN_HEIGHT;

/// The bank that an address within the whole ROM lies in.
pub open spec fn bank_of(address: int) -> int {
    address / 0x4000
}

/// The address within its bank of an address within the whole ROM.
pub open spec fn in_bank(address: int) -> int {
    address % 0x4000
}

} // verus!
