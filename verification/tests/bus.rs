use sid_shield::gpio::{SidGpio, TraceGpio, get_level_for_bit, init_gpio, output_to_gpio};
use sid_shield::pins::{Level, PinAction, PinMode};
use sid_shield::pins::{ADDR_DATA, DATA, SHIFT_CLOCK, SHIFT_LATCH, SHIFT_MR, SID_CS, SID_RESET};
use sid_shield::pins::{CS_PULSE_MICROS, RESET_PULSE_MICROS};

fn count_writes_to(log: &[PinAction], pin: u8) -> usize {
    log.iter()
        .filter(|a| matches!(a, PinAction::Write(p, _) if *p == pin))
        .count()
}

#[test]
fn bit_levels_match_shift_and_mask() {
    for v in 0..=255u8 {
        for i in 0..8u8 {
            let level = get_level_for_bit(v, i);
            let expected = if (v >> i) & 1 == 1 { Level::High } else { Level::Low };
            assert_eq!(level, expected);
        }
    }
}

#[test]
fn write_register_produces_full_protocol() {
    let addr = 0x15u8;
    let data = 0x9Au8;
    let mut gpio = TraceGpio::new();
    output_to_gpio(&mut gpio, addr, data);
    let log = &gpio.log;
    assert_eq!(log.len(), 37);

    // 8 bit pairs, most-significant bit first, each followed by one clock pulse.
    for k in 0..8usize {
        let bit = 7 - k as u8;
        assert_eq!(log[4 * k], PinAction::Write(ADDR_DATA, get_level_for_bit(addr, bit)));
        assert_eq!(log[4 * k + 1], PinAction::Write(DATA, get_level_for_bit(data, bit)));
        assert_eq!(log[4 * k + 2], PinAction::Write(SHIFT_CLOCK, Level::High));
        assert_eq!(log[4 * k + 3], PinAction::Write(SHIFT_CLOCK, Level::Low));
    }

    // One latch pulse, then one chip-select pulse held at least 2 microseconds.
    assert_eq!(log[32], PinAction::Write(SHIFT_LATCH, Level::High));
    assert_eq!(log[33], PinAction::Write(SHIFT_LATCH, Level::Low));
    assert_eq!(log[34], PinAction::Write(SID_CS, Level::Low));
    assert_eq!(log[35], PinAction::SleepMicros(CS_PULSE_MICROS));
    assert!(CS_PULSE_MICROS >= 2);
    assert_eq!(log[36], PinAction::Write(SID_CS, Level::High));

    // 16 clock writes (8 pulses), 2 latch writes, 2 select writes.
    assert_eq!(count_writes_to(log, SHIFT_CLOCK), 16);
    assert_eq!(count_writes_to(log, SHIFT_LATCH), 2);
    assert_eq!(count_writes_to(log, SID_CS), 2);
}

#[test]
fn init_performs_exact_startup_sequence() {
    let mut gpio = TraceGpio::new();
    init_gpio(&mut gpio);
    let expected = vec![
        PinAction::SetMode(ADDR_DATA, PinMode::Output),
        PinAction::SetMode(DATA, PinMode::Output),
        PinAction::SetMode(SHIFT_CLOCK, PinMode::Output),
        PinAction::SetMode(SHIFT_LATCH, PinMode::Output),
        PinAction::SetMode(SHIFT_MR, PinMode::Output),
        PinAction::SetMode(SID_CS, PinMode::Output),
        PinAction::SetMode(SID_RESET, PinMode::Output),
        PinAction::Write(SID_RESET, Level::Low),
        PinAction::SleepMicros(RESET_PULSE_MICROS),
        PinAction::Write(SID_RESET, Level::High),
        PinAction::Write(SID_CS, Level::High),
        PinAction::Write(SHIFT_MR, Level::Low),
        PinAction::Write(SHIFT_CLOCK, Level::Low),
        PinAction::Write(SHIFT_LATCH, Level::Low),
        PinAction::Write(SHIFT_MR, Level::High),
    ];
    assert_eq!(gpio.log, expected);
    assert!(RESET_PULSE_MICROS >= 1000);
}

#[test]
fn dummy_backend_accepts_all_calls() {
    let mut gpio = sid_shield::gpio::DummyGpio::new();
    gpio.set_mode(SID_CS, PinMode::Output);
    gpio.write(SID_CS, Level::High);
    gpio.sleep_micros(2);
    output_to_gpio(&mut gpio, 0, 0);
}
