//! The default school project: blink the built-in LED once a second.
use vstd::prelude::*;
use crate::hal::{Hal, HalOp};
use crate::gpio::{delay, digital_write};
use crate::{HIGH, LOW, LED_BUILTIN};

verus! {

/// One-time set-up of the blink project: it configures nothing.
pub fn setup(hal: &mut Hal)
    ensures
        final(hal)@ == old(hal)@,
{
}

/// One pass of the blink loop: LED on for 500 ms, then off for 500 ms.
pub fn loop_tick(hal: &mut Hal)
    ensures
        final(hal)@ == old(hal)@ + seq![
            HalOp::BuiltinLed { state: HIGH },
            HalOp::Delay { ms: 500 },
            HalOp::BuiltinLed { state: LOW },
            HalOp::Delay { ms: 500 },
        ],
{
    digital_write(hal, LED_BUILTIN, HIGH);
    delay(hal, 500);
    digital_write(hal, LED_BUILTIN, LOW);
    delay(hal, 500);
}

} // verus!
