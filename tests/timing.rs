use blocking_i2c::timing::{ConfigError, DutyCycle, Mode, Timing};

#[test]
fn standard_100k_from_36mhz() {
    let t = Timing::new(36_000_000, Mode::Standard { frequency: 100_000 }).unwrap();
    assert_eq!(t.freq_mhz, 36);
    assert_eq!(t.trise, 37);
    assert_eq!(t.ccr, 180);
    assert!(!t.fast);
    assert!(!t.duty);
    assert_eq!(t.scl_frequency(36_000_000), 100_000);
}

#[test]
fn fast_16to9_from_36mhz() {
    let mode = Mode::Fast { frequency: 400_000, duty_cycle: DutyCycle::Ratio16to9 };
    let t = Timing::new(36_000_000, mode).unwrap();
    assert_eq!(t.freq_mhz, 36);
    assert_eq!(t.trise, 11);
    assert_eq!(t.ccr, 3);
    assert!(t.fast);
    assert!(t.duty);
    // 36 MHz / (25 * 3) = 480 kHz: one divider step above the request.
    assert_eq!(t.scl_frequency(36_000_000), 480_000);
    assert!(25 * 3 * 400_000 <= 36_000_000u64);
    assert!(36_000_000u64 < 25 * 4 * 400_000);
}

#[test]
fn fast_2to1_from_8mhz() {
    let mode = Mode::Fast { frequency: 400_000, duty_cycle: DutyCycle::Ratio2to1 };
    let t = Timing::new(8_000_000, mode).unwrap();
    assert_eq!(t.freq_mhz, 8);
    assert_eq!(t.trise, 3);
    assert_eq!(t.ccr, 6);
    assert!(t.fast);
    assert!(!t.duty);
    assert_eq!(t.scl_frequency(8_000_000), 444_444);
}

#[test]
fn zero_or_excessive_frequency_is_invalid() {
    assert_eq!(
        Timing::new(36_000_000, Mode::Standard { frequency: 0 }),
        Err(ConfigError::InvalidFrequency)
    );
    assert_eq!(
        Timing::new(36_000_000, Mode::Standard { frequency: 200_000 }),
        Err(ConfigError::InvalidFrequency)
    );
    let fast = Mode::Fast { frequency: 500_000, duty_cycle: DutyCycle::Ratio2to1 };
    assert_eq!(Timing::new(36_000_000, fast), Err(ConfigError::InvalidFrequency));
}

#[test]
fn clock_limits() {
    assert_eq!(
        Timing::new(1_000_000, Mode::Standard { frequency: 100_000 }),
        Err(ConfigError::ClockTooSlow)
    );
    let fast = Mode::Fast { frequency: 400_000, duty_cycle: DutyCycle::Ratio2to1 };
    assert_eq!(Timing::new(3_000_000, fast), Err(ConfigError::ClockTooSlow));
    assert_eq!(
        Timing::new(72_000_000, Mode::Standard { frequency: 100_000 }),
        Err(ConfigError::ClockTooFast)
    );
}

#[test]
fn fast_16to9_needs_a_faster_clock() {
    let fast = Mode::Fast { frequency: 400_000, duty_cycle: DutyCycle::Ratio16to9 };
    assert_eq!(Timing::new(4_000_000, fast), Err(ConfigError::ClockTooSlow));
    assert!(Timing::new(10_000_000, fast).is_ok());
}

#[test]
fn slow_frequency_overflows_divider() {
    assert_eq!(
        Timing::new(36_000_000, Mode::Standard { frequency: 1_000 }),
        Err(ConfigError::DividerOverflow)
    );
    let t = Timing::new(36_000_000, Mode::Standard { frequency: 4_400 }).unwrap();
    assert_eq!(t.ccr, 4090);
}

#[test]
fn configuration_is_deterministic() {
    let mode = Mode::Fast { frequency: 300_000, duty_cycle: DutyCycle::Ratio2to1 };
    assert_eq!(Timing::new(24_000_000, mode), Timing::new(24_000_000, mode));
    assert_eq!(
        Timing::new(72_000_000, mode),
        Timing::new(72_000_000, mode)
    );
}

#[test]
fn mode_frequency() {
    assert_eq!(Mode::Standard { frequency: 50_000 }.frequency(), 50_000);
    let fast = Mode::Fast { frequency: 350_000, duty_cycle: DutyCycle::Ratio16to9 };
    assert_eq!(fast.frequency(), 350_000);
}
