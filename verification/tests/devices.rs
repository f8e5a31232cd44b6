use netsblox_vm_esp32::devices::{
    DigitalInController, DigitalOutController, HCSR04Controller, Level, MotorController, PulseMeter, SharedI2c,
    ECHO_TIMEOUT_US,
};
use std::cell::RefCell;

#[test]
fn motor_duty_is_scaled_and_rounded() {
    let motor = MotorController { positive: 0, negative: 1 };
    let (first, second) = motor.set_power(128, 1023);
    assert_eq!((first.channel, first.duty), (1, 0));
    assert_eq!((second.channel, second.duty), (0, 514));
    let (first, second) = motor.set_power(-64, 1023);
    assert_eq!((first.channel, first.duty), (0, 0));
    assert_eq!((second.channel, second.duty), (1, 257));
    assert_eq!(motor.set_power(255, 1023).1.duty, 1023);
    assert_eq!(motor.set_power(-255, 1023).1.duty, 1023);
    // less than half a step rounds down, more than half a step rounds up
    assert_eq!(motor.set_power(1, 100).1.duty, 0);
    assert_eq!(motor.set_power(1, 127).1.duty, 0);
    assert_eq!(motor.set_power(1, 128).1.duty, 1);
    assert_eq!(motor.set_power(127, 255).1.duty, 127);
    assert_eq!(motor.set_power(-3, 85).1.duty, 1);
    assert_eq!(motor.set_power(-4, 85).1.duty, 1);
    assert_eq!(motor.set_power(5, 85).1.duty, 2);
    assert_eq!(motor.set_power(254, 255).1.duty, 254);
    for p in 0..=255i64 {
        let expected = (p as f64 * 1023.0 / 255.0).round() as u32;
        assert_eq!(motor.set_power(p, 1023).1.duty, expected, "{}", p);
        assert_eq!(motor.set_power(-p, 1023).1.duty, expected, "{}", p);
    }
}

#[test]
fn motor_power_is_clamped_and_zero_drives_the_positive_side() {
    let motor = MotorController { positive: 4, negative: 5 };
    assert_eq!(motor.set_power(1000, 1024).1.duty, 1024);
    assert_eq!(motor.set_power(i64::MAX, 1024).1.duty, 1024);
    let (first, second) = motor.set_power(i64::MIN, 1024);
    assert_eq!((first.channel, first.duty, second.channel, second.duty), (4, 0, 5, 1024));
    let (first, second) = motor.set_power(0, 1024);
    assert_eq!((first.channel, first.duty, second.channel, second.duty), (5, 0, 4, 0));
    let (first, second) = motor.set_power(-1, 100);
    assert_eq!((first.channel, first.duty, second.channel, second.duty), (4, 0, 5, 0));
    assert_eq!(motor.set_power(255, u32::MAX).1.duty, u32::MAX);
    assert_eq!(motor.set_power(200, 0).1.duty, 0);
}

#[test]
fn digital_values_are_negated_where_asked() {
    for negated in [false, true] {
        let input = DigitalInController { pin: 3, negated };
        let output = DigitalOutController { pin: 4, negated };
        for value in [false, true] {
            assert_eq!(input.get_value(value), value ^ negated);
            assert_eq!(output.set_value(value) == Level::High, value ^ negated);
        }
    }
}

#[test]
fn distance_follows_the_echo() {
    let finder = HCSR04Controller { trigger: 1, echo: 2 };
    assert_eq!(finder.get_distance(None).echo_micros, 0);
    assert_eq!(finder.get_distance(None).hundred_thousandths(), 0);
    assert_eq!(finder.get_distance(Some(0)).hundred_thousandths(), 0);
    assert_eq!(finder.get_distance(Some(1000)).hundred_thousandths(), 1_715_000);
    assert_eq!(finder.get_distance(Some(583)).echo_micros as f64 * 0.01715, 583.0 * 0.01715);
    assert_eq!(finder.get_distance(Some(583)).hundred_thousandths(), 999_845);
    assert_eq!(finder.get_distance(Some(u64::MAX)).hundred_thousandths(), 1715 * (u64::MAX as u128));
}

#[test]
fn pulse_is_measured_from_rise_to_fall() {
    let mut meter = PulseMeter::new();
    for (level, at) in [(false, 3), (false, 40), (true, 100), (true, 101), (true, 700)] {
        meter.observe(level, at, ECHO_TIMEOUT_US);
        assert!(!matches!(meter, PulseMeter::Done { .. }));
    }
    meter.observe(false, 1100, ECHO_TIMEOUT_US);
    assert_eq!(meter, PulseMeter::Done { pulse: Some(1000) });
    meter.observe(true, 1200, ECHO_TIMEOUT_US);
    assert_eq!(meter, PulseMeter::Done { pulse: Some(1000) });
}

#[test]
fn pulse_measurement_times_out() {
    let mut meter = PulseMeter::new();
    meter.observe(false, 50_000, ECHO_TIMEOUT_US);
    assert_eq!(meter, PulseMeter::Waiting);
    meter.observe(false, 50_001, ECHO_TIMEOUT_US);
    assert_eq!(meter, PulseMeter::Done { pulse: None });

    let mut meter = PulseMeter::new();
    meter.observe(true, 49_000, ECHO_TIMEOUT_US);
    meter.observe(true, 50_000, ECHO_TIMEOUT_US);
    assert_eq!(meter, PulseMeter::Timing { since: 49_000 });
    meter.observe(true, 50_001, ECHO_TIMEOUT_US);
    assert_eq!(meter, PulseMeter::Done { pulse: None });

    // a fall that is seen late still ends the pulse
    let mut meter = PulseMeter::new();
    meter.observe(true, 49_000, ECHO_TIMEOUT_US);
    meter.observe(false, 60_000, ECHO_TIMEOUT_US);
    assert_eq!(meter, PulseMeter::Done { pulse: Some(11_000) });
}

#[test]
fn shared_bus_is_one_bus() {
    let shared = SharedI2c::new(RefCell::new(0u32));
    let other = shared.clone();
    *shared.bus().borrow_mut() += 5;
    *other.bus().borrow_mut() += 2;
    assert_eq!(*shared.bus().borrow(), 7);
    assert_eq!(*other.bus().borrow(), 7);
}
