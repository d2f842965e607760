//! School-level hardware API on top of Ariel OS, together with the pure
//! logic of the school IDE (code extraction from assistant replies, syntax
//! highlighting, build configuration) and of the sketch entry-point macros.
//!
//! Every interaction with the board is recorded as a [`hal::HalOp`] in a
//! [`hal::Hal`] trace; the hardware layer outside this crate performs the
//! recorded operations in order.
use vstd::prelude::*;

pub mod hal;
pub mod gpio;
pub mod pio;
pub mod sketch;
pub mod text;
pub mod assistant;
pub mod sketch_macro;
pub mod chat;
pub mod laze;
pub mod highlight;

verus! {

/// Logic level of a driven pin: on.
pub const HIGH: u8 = 1;

/// Logic level of a driven pin: off.
pub const LOW: u8 = 0;

/// Pin mode: digital input.
pub const INPUT: u8 = 0;

/// Pin mode: digital output.
pub const OUTPUT: u8 = 1;

/// Pin mode: digital input with the internal pull-up enabled.
pub const INPUT_PULLUP: u8 = 2;

/// The board's built-in LED (the board abstraction maps it to the right pin).
pub const LED_BUILTIN: u32 = 999;

/// Bit order for [`gpio::shift_out`]: least significant bit first.
pub const LSBFIRST: u8 = 0;

/// Bit order for [`gpio::shift_out`]: most significant bit first
/// (every value other than [`LSBFIRST`] selects it).
pub const MSBFIRST: u8 = 1;

} // verus!
