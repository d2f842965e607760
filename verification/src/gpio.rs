//! Digital and analog pin output, delays and software serial shifting.
use vstd::prelude::*;
use crate::hal::{Hal, HalOp};
use crate::{HIGH, LOW, LED_BUILTIN, LSBFIRST};

verus! {

/// The driver operation that writing `state` to `pin` issues: the built-in
/// LED goes through the board's LED driver, every other pin through GPIO.
pub open spec fn digital_write_op(pin: u32, state: u8) -> HalOp {
    if pin == LED_BUILTIN {
        HalOp::BuiltinLed { state }
    } else {
        HalOp::PinWrite { pin, state }
    }
}

/// Sets the level of a digital pin (`HIGH` or `LOW`).
pub fn digital_write(hal: &mut Hal, pin: u32, state: u8)
    ensures
        final(hal)@ == old(hal)@.push(digital_write_op(pin, state)),
{
    if pin == LED_BUILTIN {
        hal.record(HalOp::BuiltinLed { state });
    } else {
        hal.record(HalOp::PinWrite { pin, state });
    }
}

/// Sets the PWM duty cycle of `pin`; `value` runs from 0 to 255.
pub fn analog_write(hal: &mut Hal, pin: u32, value: u8)
    ensures
        final(hal)@ == old(hal)@.push(HalOp::PwmDuty { pin, value }),
{
    hal.record(HalOp::PwmDuty { pin, value });
}

/// Pauses the current OS thread for `ms` milliseconds.
pub fn delay(hal: &mut Hal, ms: u32)
    ensures
        final(hal)@ == old(hal)@.push(HalOp::Delay { ms }),
{
    hal.record(HalOp::Delay { ms });
}

/// The bit of `value` that [`shift_out`] sends at step `i` (0..8): bit `i`
/// for `LSBFIRST`, bit `7 - i` for any other order.
pub open spec fn shifted_bit(bit_order: u8, value: u8, i: int) -> u8 {
    if bit_order == LSBFIRST {
        (value >> (i as u8)) & 1
    } else {
        (value >> ((7 - i) as u8)) & 1
    }
}

/// The 24 operations of [`shift_out`]: for each of the 8 steps, the data
/// pin is set to the step's bit, then the clock pin pulses HIGH and LOW.
pub open spec fn shift_out_ops(data_pin: u32, clock_pin: u32, bit_order: u8, value: u8) -> Seq<HalOp> {
    Seq::new(24, |k: int|
        if k % 3 == 0 {
            digital_write_op(data_pin, shifted_bit(bit_order, value, k / 3))
        } else if k % 3 == 1 {
            digital_write_op(clock_pin, HIGH)
        } else {
            digital_write_op(clock_pin, LOW)
        })
}

/// Shifts the byte `value` out on `data_pin`, one bit per pulse of
/// `clock_pin`, least significant bit first when `bit_order` is `LSBFIRST`
/// and most significant bit first otherwise.
pub fn shift_out(hal: &mut Hal, data_pin: u32, clock_pin: u32, bit_order: u8, value: u8)
    ensures
        final(hal)@ == old(hal)@ + shift_out_ops(data_pin, clock_pin, bit_order, value),
{
    let ghost start = hal@;
    let ghost all = shift_out_ops(data_pin, clock_pin, bit_order, value);
    let mut i: u8 = 0;
    while i < 8
        invariant
            i <= 8,
            all == shift_out_ops(data_pin, clock_pin, bit_order, value),
            hal@ == start + all.take(3 * i as int),
        decreases 8 - i,
    {
        let bit: u8 = if bit_order == LSBFIRST {
            (value >> i) & 1
        } else {
            (value >> (7 - i)) & 1
        };
        digital_write(hal, data_pin, bit);
        digital_write(hal, clock_pin, HIGH);
        digital_write(hal, clock_pin, LOW);
        proof {
            let n = 3 * i as int;
            assert(all[n] == digital_write_op(data_pin, bit));
            assert(all[n + 1] == digital_write_op(clock_pin, HIGH));
            assert(all[n + 2] == digital_write_op(clock_pin, LOW));
            assert(all.take(n + 3) =~= all.take(n).push(all[n]).push(all[n + 1]).push(all[n + 2]));
        }
        i = i + 1;
    }
    proof {
        assert(all.take(24) =~= all);
    }
}

/// The level that a pin write sets; `None` for other operations.
pub open spec fn written_level(op: HalOp) -> Option<u8> {
    match op {
        HalOp::BuiltinLed { state } => Some(state),
        HalOp::PinWrite { state, .. } => Some(state),
        _ => None,
    }
}

/// The byte that a receiver assembles from the bits it clocked in, the
/// first bit being the least significant one.
pub open spec fn assemble_lsb_first(bits: Seq<u8>) -> int
    decreases bits.len(),
{
    if bits.len() == 0 {
        0
    } else {
        bits[0] + 2 * assemble_lsb_first(bits.drop_first())
    }
}

/// The byte that a receiver assembles from the bits it clocked in, the
/// first bit being the most significant one.
pub open spec fn assemble_msb_first(bits: Seq<u8>) -> int
    decreases bits.len(),
{
    if bits.len() == 0 {
        0
    } else {
        2 * assemble_msb_first(bits.drop_last()) + bits.last()
    }
}

/// The data levels that [`shift_out`] writes, one per clock pulse.
pub open spec fn shifted_levels(data_pin: u32, clock_pin: u32, bit_order: u8, value: u8) -> Seq<u8> {
    Seq::new(8, |i: int| written_level(shift_out_ops(data_pin, clock_pin, bit_order, value)[3 * i])->0)
}

/// A byte is the sum of its bits.
proof fn lemma_byte_is_sum_of_bits(value: u8)
    by (bit_vector)
    ensures
        value == (value & 1) + 2 * ((value >> 1u8) & 1) + 4 * ((value >> 2u8) & 1) + 8 * ((value >> 3u8) & 1)
            + 16 * ((value >> 4u8) & 1) + 32 * ((value >> 5u8) & 1) + 64 * ((value >> 6u8) & 1)
            + 128 * ((value >> 7u8) & 1),
        (value >> 0u8) & 1 == value & 1,
        (value & 1) <= 1,
{
}

/// `shift_out` transmits its byte: the 8 data levels, read in the order in
/// which they were clocked out and in the chosen bit order, give back
/// `value`; and every level written is `LOW` or `HIGH`.
pub proof fn lemma_shift_out_transmits_value(data_pin: u32, clock_pin: u32, bit_order: u8, value: u8)
    ensures
        forall|k: int| 0 <= k < 24 ==>
            (#[trigger] written_level(shift_out_ops(data_pin, clock_pin, bit_order, value)[k]) matches Some(level)
                && level <= HIGH),
        bit_order == LSBFIRST ==> assemble_lsb_first(shifted_levels(data_pin, clock_pin, bit_order, value)) == value,
        bit_order != LSBFIRST ==> assemble_msb_first(shifted_levels(data_pin, clock_pin, bit_order, value)) == value,
{
    let ops = shift_out_ops(data_pin, clock_pin, bit_order, value);
    let bits = shifted_levels(data_pin, clock_pin, bit_order, value);
    assert forall|k: int| 0 <= k < 24 implies
        (#[trigger] written_level(ops[k]) matches Some(level) && level <= HIGH) by {
        if k % 3 == 0 {
            let j = (k / 3) as u8;
            let jj = (7 - k / 3) as u8;
            assert((value >> j) & 1 <= 1) by (bit_vector);
            assert((value >> jj) & 1 <= 1) by (bit_vector);
        }
    }
    assert(bits.len() == 8);
    assert forall|i: int| 0 <= i < 8 implies #[trigger] bits[i] == shifted_bit(bit_order, value, i) by {
        assert((3 * i) % 3 == 0);
        assert((3 * i) / 3 == i);
    }
    lemma_byte_is_sum_of_bits(value);
    let b0 = bits[0];
    let b1 = bits[1];
    let b2 = bits[2];
    let b3 = bits[3];
    let b4 = bits[4];
    let b5 = bits[5];
    let b6 = bits[6];
    let b7 = bits[7];
    if bit_order == LSBFIRST {
        reveal_with_fuel(assemble_lsb_first, 9);
        let t1 = bits.drop_first();
        let t2 = t1.drop_first();
        let t3 = t2.drop_first();
        let t4 = t3.drop_first();
        let t5 = t4.drop_first();
        let t6 = t5.drop_first();
        let t7 = t6.drop_first();
        let t8 = t7.drop_first();
        assert(t1[0] == b1 && t2[0] == b2 && t3[0] == b3 && t4[0] == b4);
        assert(t5[0] == b5 && t6[0] == b6 && t7[0] == b7 && t8.len() == 0);
        assert(assemble_lsb_first(t7) == b7);
        assert(assemble_lsb_first(t6) == b6 + 2 * b7);
        assert(assemble_lsb_first(bits) == b0 + 2 * b1 + 4 * b2 + 8 * b3 + 16 * b4 + 32 * b5 + 64 * b6 + 128 * b7);
    } else {
        reveal_with_fuel(assemble_msb_first, 9);
        let t1 = bits.drop_last();
        let t2 = t1.drop_last();
        let t3 = t2.drop_last();
        let t4 = t3.drop_last();
        let t5 = t4.drop_last();
        let t6 = t5.drop_last();
        let t7 = t6.drop_last();
        let t8 = t7.drop_last();
        assert(t1.last() == b6 && t2.last() == b5 && t3.last() == b4 && t4.last() == b3);
        assert(t5.last() == b2 && t6.last() == b1 && t7.last() == b0 && t8.len() == 0);
        assert(assemble_msb_first(bits) == 128 * b0 + 64 * b1 + 32 * b2 + 16 * b3 + 8 * b4 + 4 * b5 + 2 * b6 + b7);
    }
}

} // verus!
