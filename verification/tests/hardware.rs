use ariel_school::gpio::{analog_write, delay, digital_write, shift_out};
use ariel_school::hal::{init, Hal, HalOp};
use ariel_school::pio::{init_school_pio, PioConfigType};
use ariel_school::sketch::{loop_tick, setup};
use ariel_school::{HIGH, LED_BUILTIN, LOW, LSBFIRST, MSBFIRST};

fn data_bits(ops: &[HalOp], data_pin: u32) -> Vec<u8> {
    ops.iter()
        .step_by(3)
        .map(|op| match op {
            HalOp::PinWrite { pin, state } if *pin == data_pin => *state,
            other => panic!("unexpected data operation {:?}", other),
        })
        .collect()
}

#[test]
fn constants_match_arduino() {
    assert_eq!(HIGH, 1);
    assert_eq!(LOW, 0);
    assert_eq!(LED_BUILTIN, 999);
    assert_eq!(ariel_school::INPUT, 0);
    assert_eq!(ariel_school::OUTPUT, 1);
    assert_eq!(ariel_school::INPUT_PULLUP, 2);
}

#[test]
fn init_starts_with_no_pending_operation() {
    let hal = init();
    assert!(hal.ops().is_empty());
}

#[test]
fn digital_write_routes_builtin_led_to_led_driver() {
    let mut hal = Hal::new();
    digital_write(&mut hal, LED_BUILTIN, HIGH);
    digital_write(&mut hal, 13, LOW);
    assert_eq!(hal.ops(), &vec![HalOp::BuiltinLed { state: 1 }, HalOp::PinWrite { pin: 13, state: 0 }]);
}

#[test]
fn analog_write_and_delay_are_recorded() {
    let mut hal = Hal::new();
    analog_write(&mut hal, 5, 128);
    delay(&mut hal, 20);
    assert_eq!(hal.ops(), &vec![HalOp::PwmDuty { pin: 5, value: 128 }, HalOp::Delay { ms: 20 }]);
}

#[test]
fn take_ops_hands_out_in_order_and_empties() {
    let mut hal = Hal::new();
    delay(&mut hal, 1);
    delay(&mut hal, 2);
    let ops = hal.take_ops();
    assert_eq!(ops, vec![HalOp::Delay { ms: 1 }, HalOp::Delay { ms: 2 }]);
    assert!(hal.ops().is_empty());
}

#[test]
fn shift_out_lsb_first_sends_bits_from_bit_zero() {
    let mut hal = Hal::new();
    shift_out(&mut hal, 2, 3, LSBFIRST, 0b1011_0010);
    let ops = hal.take_ops();
    assert_eq!(ops.len(), 24);
    assert_eq!(data_bits(&ops, 2), vec![0, 1, 0, 0, 1, 1, 0, 1]);
    for step in 0..8 {
        assert_eq!(ops[3 * step + 1], HalOp::PinWrite { pin: 3, state: HIGH });
        assert_eq!(ops[3 * step + 2], HalOp::PinWrite { pin: 3, state: LOW });
    }
}

#[test]
fn shift_out_msb_first_sends_bits_from_bit_seven() {
    let mut hal = Hal::new();
    shift_out(&mut hal, 2, 3, MSBFIRST, 0b1011_0010);
    let ops = hal.take_ops();
    assert_eq!(data_bits(&ops, 2), vec![1, 0, 1, 1, 0, 0, 1, 0]);
}

#[test]
fn shift_out_any_nonzero_order_is_msb_first() {
    let mut a = Hal::new();
    let mut b = Hal::new();
    shift_out(&mut a, 2, 3, 7, 0x5a);
    shift_out(&mut b, 2, 3, MSBFIRST, 0x5a);
    assert_eq!(a.ops(), b.ops());
}

#[test]
fn shift_out_round_trip_for_every_byte() {
    for value in 0..=255u8 {
        for order in [LSBFIRST, MSBFIRST] {
            let mut hal = Hal::new();
            shift_out(&mut hal, 4, 5, order, value);
            let bits = data_bits(hal.ops(), 4);
            assert!(bits.iter().all(|b| *b <= HIGH));
            let assembled: u32 = if order == LSBFIRST {
                bits.iter().rev().fold(0, |acc, b| acc * 2 + *b as u32)
            } else {
                bits.iter().fold(0, |acc, b| acc * 2 + *b as u32)
            };
            assert_eq!(assembled, value as u32);
        }
    }
}

#[test]
fn shift_out_on_builtin_led_uses_led_driver() {
    let mut hal = Hal::new();
    shift_out(&mut hal, LED_BUILTIN, 3, LSBFIRST, 1);
    assert_eq!(hal.ops()[0], HalOp::BuiltinLed { state: 1 });
    assert_eq!(hal.ops()[3], HalOp::BuiltinLed { state: 0 });
}

#[test]
fn set_pixel_packs_grb_into_top_bytes() {
    let mut hal = Hal::new();
    let mut strip = init_school_pio(PioConfigType::Ws2812SmartLed, 16, 2);
    strip.set_pixel(&mut hal, 0, 0x11, 0x22, 0x33);
    assert_eq!(hal.ops(), &vec![HalOp::PioPush { sm_id: 2, data: 0x2211_3300 }]);
}

#[test]
fn set_pixel_word_unpacks_to_colour() {
    let mut hal = Hal::new();
    let mut strip = init_school_pio(PioConfigType::Ws2812SmartLed, 16, 0);
    strip.set_pixel(&mut hal, 7, 200, 100, 50);
    match hal.ops()[0] {
        HalOp::PioPush { data, .. } => {
            assert_eq!(data >> 24, 100);
            assert_eq!((data >> 16) & 0xff, 200);
            assert_eq!((data >> 8) & 0xff, 50);
            assert_eq!(data & 0xff, 0);
        }
        other => panic!("unexpected {:?}", other),
    }
}

#[test]
fn set_pixel_ignored_by_other_programs() {
    let mut hal = Hal::new();
    let mut servos = init_school_pio(PioConfigType::ServoMatrix, 16, 1);
    let mut encoder = init_school_pio(PioConfigType::QuadratureEncoder, 20, 3);
    servos.set_pixel(&mut hal, 0, 1, 2, 3);
    encoder.set_pixel(&mut hal, 0, 1, 2, 3);
    assert!(hal.ops().is_empty());
}

#[test]
fn write_angle_only_for_servo_matrix() {
    let mut hal = Hal::new();
    let mut servos = init_school_pio(PioConfigType::ServoMatrix, 16, 1);
    let mut strip = init_school_pio(PioConfigType::Ws2812SmartLed, 10, 0);
    servos.write_angle(&mut hal, 3, 90);
    strip.write_angle(&mut hal, 3, 90);
    assert_eq!(hal.ops(), &vec![HalOp::ServoPulse { sm_id: 1, index: 3, angle: 90 }]);
}

#[test]
fn show_triggers_the_state_machine() {
    let mut hal = Hal::new();
    let mut encoder = init_school_pio(PioConfigType::QuadratureEncoder, 20, 3);
    encoder.show(&mut hal);
    assert_eq!(hal.ops(), &vec![HalOp::PioTrigger { sm_id: 3 }]);
}

#[test]
fn blink_sketch_loop() {
    let mut hal = init();
    setup(&mut hal);
    assert!(hal.ops().is_empty());
    loop_tick(&mut hal);
    assert_eq!(
        hal.take_ops(),
        vec![
            HalOp::BuiltinLed { state: HIGH },
            HalOp::Delay { ms: 500 },
            HalOp::BuiltinLed { state: LOW },
            HalOp::Delay { ms: 500 },
        ]
    );
}
