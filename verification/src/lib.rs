//! Driver logic for a serial-shift-register bridge to an 8-bit sound chip.
//!
//! The chip sits behind two serial-in/parallel-out shift registers that share
//! a clock and a latch line.  This crate computes, and proves correct, the
//! exact ordered sequences of pin operations that write a register of the
//! chip, and the framing protocol that turns a sentinel-delimited byte stream
//! into validated `(address, data)` register-write commands.  Performing the
//! pin operations on real hardware is left to an unverified front end.

pub mod driver;
pub mod frame;
pub mod gpio;
pub mod pins;
