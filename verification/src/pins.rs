//! The pin map of the board and the timing constants of the chip, plus the
//! vocabulary of pin operations that the rest of the crate reasons about.

use vstd::prelude::*;

verus! {

/// A logic level driven onto a pin.
#[derive(Clone, Copy, Debug, PartialEq, Eq, Structural)]
pub enum Level {
    Low,
    High,
}

/// The direction a pin is configured for.  Every signal this driver touches
/// is an output; the chip is never read back.
#[derive(Clone, Copy, Debug, PartialEq, Eq, Structural)]
pub enum PinMode {
    Output,
}

/// One operation on the pin set: drive a level onto a pin, configure a pin's
/// mode, or hold the current levels for a minimum duration.  A register write
/// is specified as the exact sequence of these operations it must perform.
#[derive(Clone, Copy, Debug, PartialEq, Eq, Structural)]
pub enum PinAction {
    Write(u8, Level),
    SetMode(u8, PinMode),
    SleepMicros(u64),
}

/// Serial input of the address-bus shift register.
pub const ADDR_DATA: u8 = 10;
/// Serial input of the data-bus shift register.
pub const DATA: u8 = 24;
/// Clock shared by both shift registers; one rising edge shifts one bit into each.
pub const SHIFT_CLOCK: u8 = 16;
/// Latch shared by both shift registers; a pulse moves the shifted bits to the
/// parallel outputs atomically.
pub const SHIFT_LATCH: u8 = 12;
/// Master-clear of both shift registers, active Low.
pub const SHIFT_MR: u8 = 9;
/// Master clock of the chip; driven by an external clock generator, configured
/// at startup and never toggled by this driver.
pub const SID_CLOCK: u8 = 18;
/// Chip select, active Low; the chip samples address and data while it is held Low.
pub const SID_CS: u8 = 4;
/// Chip reset, active Low.
pub const SID_RESET: u8 = 23;

/// Minimum width of the chip-select pulse, from the chip's datasheet.
pub const CS_PULSE_MICROS: u64 = 2;
/// Minimum width of the reset pulse, from the chip's datasheet (one millisecond).
pub const RESET_PULSE_MICROS: u64 = 1000;

} // verus!
