use netsblox_vm_esp32::broker::{Binder, Device, Request};
use netsblox_vm_esp32::layout::{DigitalIO, Motor, MotorGroup, PeripheralsConfig};
use netsblox_vm_esp32::ledger::{Fault, PeripheralError};
use netsblox_vm_esp32::plan::PinUse;

fn run_all_ok(binder: &mut Binder) -> Vec<Request> {
    let mut seen = Vec::new();
    loop {
        let request = binder.request();
        if request == Request::Done {
            break;
        }
        seen.push(request);
        binder.respond(Ok(()));
        assert!(seen.len() < 1000);
    }
    seen
}

fn motor_layout() -> PeripheralsConfig {
    let mut layout = PeripheralsConfig::default();
    layout.motors.push(Motor { name: "L".into(), gpio_positive: 4, gpio_negative: 5 });
    layout.motors.push(Motor { name: "R".into(), gpio_positive: 6, gpio_negative: 7 });
    layout.motor_groups.push(MotorGroup { name: "drive".into(), members: vec!["L".into(), "R".into()] });
    layout
}

#[test]
fn empty_layout_binds_nothing() {
    let mut binder = Binder::new(PeripheralsConfig::default());
    assert_eq!(run_all_ok(&mut binder), vec![Request::OpenTimer]);
    let (peripherals, errors) = binder.finish();
    assert!(peripherals.devices().is_empty());
    assert!(errors.is_empty());
}

#[test]
fn motors_get_channels_in_order() {
    let mut binder = Binder::new(motor_layout());
    let seen = run_all_ok(&mut binder);
    assert_eq!(
        seen,
        vec![
            Request::OpenTimer,
            Request::Probe { pin: 4, usage: PinUse::Pwm },
            Request::OpenPwm { pin: 4, channel: 0 },
            Request::Probe { pin: 5, usage: PinUse::Pwm },
            Request::OpenPwm { pin: 5, channel: 1 },
            Request::Probe { pin: 6, usage: PinUse::Pwm },
            Request::OpenPwm { pin: 6, channel: 2 },
            Request::Probe { pin: 7, usage: PinUse::Pwm },
            Request::OpenPwm { pin: 7, channel: 3 },
        ]
    );
    let (peripherals, errors) = binder.finish();
    assert!(errors.is_empty());
    let devices = peripherals.devices();
    assert_eq!(devices.len(), 3);
    assert_eq!(devices[0].name, "L");
    assert_eq!(devices[0].pins, vec![4, 5]);
    assert_eq!(devices[2].name, "drive");
    match &devices[2].device {
        Device::MotorGroup(members) => {
            assert_eq!(members.len(), 2);
            assert_eq!((members[0].positive, members[0].negative), (0, 1));
            assert_eq!((members[1].positive, members[1].negative), (2, 3));
        }
        other => panic!("{:?}", other),
    }
}

#[test]
fn a_pin_given_twice_binds_once() {
    let mut layout = PeripheralsConfig::default();
    layout.digital_ins.push(DigitalIO { name: "a".into(), gpio: 9, negated: false });
    layout.digital_outs.push(DigitalIO { name: "b".into(), gpio: 9, negated: true });
    let mut binder = Binder::new(layout);
    let seen = run_all_ok(&mut binder);
    assert_eq!(
        seen,
        vec![
            Request::OpenTimer,
            Request::Probe { pin: 9, usage: PinUse::Input },
            Request::OpenInput { pin: 9 },
        ]
    );
    let (peripherals, errors) = binder.finish();
    assert_eq!(peripherals.devices().len(), 1);
    assert_eq!(peripherals.devices()[0].name, "a");
    assert_eq!(errors.len(), 1);
    assert_eq!(errors[0].context, "digital_outs b gpio");
    assert!(matches!(errors[0].error, PeripheralError::PinAlreadyTaken { pin: 9 }));
}

#[test]
fn failures_are_collected_and_the_rest_is_bound() {
    let mut layout = motor_layout();
    layout.digital_ins.push(DigitalIO { name: "L".into(), gpio: 60, negated: false });
    layout.digital_ins.push(DigitalIO { name: "in".into(), gpio: 10, negated: false });
    let mut binder = Binder::new(layout);
    // the timer does not start
    assert_eq!(binder.request(), Request::OpenTimer);
    binder.respond(Err(Fault::Probe { cause: "no timer".into() }));
    // pin 60 is unknown, so the next request is for pin 10
    assert_eq!(binder.request(), Request::Probe { pin: 10, usage: PinUse::Input });
    binder.respond(Err(Fault::Bus { code: 1 }));
    assert_eq!(binder.request(), Request::Done);
    let (peripherals, errors) = binder.finish();
    assert!(peripherals.devices().is_empty());
    let contexts: Vec<&str> = errors.iter().map(|e| e.context.as_str()).collect();
    assert_eq!(
        contexts,
        vec!["PWM", "digital_ins L gpio", "digital_ins in gpio", "motors L", "motors R", "motor_groups drive"]
    );
    assert!(matches!(&errors[0].error, PeripheralError::DriverProbe { cause } if cause == "no timer"));
    assert!(matches!(errors[1].error, PeripheralError::PinUnknown { pin: 60 }));
    assert!(matches!(errors[2].error, PeripheralError::PinInsufficientCapability { pin: 10 }));
    assert!(matches!(errors[3].error, PeripheralError::PwmOutOfChannels));
    assert!(matches!(&errors[5].error, PeripheralError::NameUnknown { name } if name == "L"));
}

fn answer_with(binder: &mut Binder, refuse: impl Fn(&Request) -> Option<Fault>) {
    let mut rounds = 0;
    loop {
        let request = binder.request();
        if request == Request::Done {
            break;
        }
        binder.respond(match refuse(&request) {
            Some(fault) => Err(fault),
            None => Ok(()),
        });
        rounds += 1;
        assert!(rounds < 1000);
    }
}

#[test]
fn a_name_is_bound_once_over_all_kinds() {
    let mut layout = PeripheralsConfig::default();
    layout.digital_ins.push(DigitalIO { name: "x".into(), gpio: 1, negated: false });
    layout.digital_ins.push(DigitalIO { name: "x".into(), gpio: 2, negated: false });
    layout.digital_outs.push(DigitalIO { name: "x".into(), gpio: 3, negated: false });
    layout.motors.push(Motor { name: "m".into(), gpio_positive: 4, gpio_negative: 5 });
    layout.motor_groups.push(MotorGroup { name: "m".into(), members: vec!["m".into()] });
    layout.motor_groups.push(MotorGroup { name: "g".into(), members: vec!["m".into(), "x".into()] });
    let mut binder = Binder::new(layout);
    run_all_ok(&mut binder);
    let (peripherals, errors) = binder.finish();
    let names: Vec<&str> = peripherals.devices().iter().map(|b| b.name.as_str()).collect();
    assert_eq!(names, vec!["x", "m"]);
    let told: Vec<(&str, &PeripheralError)> = errors.iter().map(|e| (e.context.as_str(), &e.error)).collect();
    assert_eq!(told.len(), 4);
    assert!(matches!(told[0], ("digital_ins x", PeripheralError::NameAlreadyTaken { name }) if name == "x"));
    assert!(matches!(told[1], ("digital_outs x", PeripheralError::NameAlreadyTaken { name }) if name == "x"));
    assert!(matches!(told[2], ("motor_groups m", PeripheralError::NameAlreadyTaken { name }) if name == "m"));
    assert!(matches!(told[3], ("motor_groups g", PeripheralError::NameUnknown { name }) if name == "x"));
    // the pins of the entries that were not bound stay taken
    assert_eq!(peripherals.devices()[0].pins, vec![1]);
}

#[test]
fn the_ninth_channel_does_not_exist() {
    let mut layout = PeripheralsConfig::default();
    for i in 0..5u8 {
        layout.motors.push(Motor { name: format!("m{}", i), gpio_positive: 2 * i, gpio_negative: 2 * i + 1 });
    }
    let mut binder = Binder::new(layout);
    let seen = run_all_ok(&mut binder);
    assert_eq!(seen.iter().filter(|r| matches!(r, Request::OpenPwm { .. })).count(), 8);
    assert_eq!(seen.last(), Some(&Request::Probe { pin: 8, usage: PinUse::Pwm }));
    let (peripherals, errors) = binder.finish();
    assert_eq!(peripherals.devices().len(), 4);
    assert_eq!(errors.len(), 1);
    assert_eq!(errors[0].context, "motors m4 gpio_positive");
    assert!(matches!(errors[0].error, PeripheralError::PwmOutOfChannels));
}

#[test]
fn the_bus_needs_both_pins_and_its_driver() {
    let with_bus = |sda: u8, scl: u8| {
        let mut layout = PeripheralsConfig::default();
        layout.i2c = Some(netsblox_vm_esp32::layout::I2cInfo { gpio_sda: sda, gpio_scl: scl });
        layout.bmp388s.push(netsblox_vm_esp32::layout::BasicI2c { name: "air".into(), i2c_addr: 119 });
        layout
    };
    // all is well
    let mut binder = Binder::new(with_bus(21, 22));
    let seen = run_all_ok(&mut binder);
    assert_eq!(
        seen,
        vec![
            Request::OpenTimer,
            Request::Probe { pin: 21, usage: PinUse::Bidirectional },
            Request::Probe { pin: 22, usage: PinUse::Bidirectional },
            Request::OpenBus { sda: 21, scl: 22 },
            Request::OpenSensor { family: netsblox_vm_esp32::plan::SensorFamily::Bmp388, address: 119, ticket: 0 },
        ]
    );
    assert!(binder.finish().1.is_empty());

    // the second pin is the first again
    let mut binder = Binder::new(with_bus(21, 21));
    run_all_ok(&mut binder);
    let (peripherals, errors) = binder.finish();
    assert!(peripherals.devices().is_empty());
    assert_eq!(errors.len(), 2);
    assert_eq!(errors[0].context, "I2C gpio_scl");
    assert!(matches!(errors[0].error, PeripheralError::PinAlreadyTaken { pin: 21 }));
    assert_eq!(errors[1].context, "bmp388s air");
    assert!(matches!(errors[1].error, PeripheralError::I2cNotConfigured));

    // the driver of the bus fails
    let mut binder = Binder::new(with_bus(21, 22));
    answer_with(&mut binder, |request| match request {
        Request::OpenBus { .. } => Some(Fault::Bus { code: 263 }),
        _ => None,
    });
    let (_, errors) = binder.finish();
    assert_eq!(errors[0].context, "I2C");
    assert!(matches!(errors[0].error, PeripheralError::BusError { code: 263 }));
    assert!(matches!(errors[1].error, PeripheralError::I2cNotConfigured));

    // the sensor does not answer
    let mut binder = Binder::new(with_bus(21, 22));
    answer_with(&mut binder, |request| match request {
        Request::OpenSensor { .. } => Some(Fault::Probe { cause: "no such chip".into() }),
        _ => None,
    });
    let (peripherals, errors) = binder.finish();
    assert!(peripherals.devices().is_empty());
    assert_eq!(errors.len(), 1);
    assert_eq!(errors[0].context, "bmp388s air");
    assert!(matches!(&errors[0].error, PeripheralError::DriverProbe { cause } if cause == "no such chip"));
}

#[test]
fn a_failed_pin_ends_its_entry_only() {
    let mut layout = PeripheralsConfig::default();
    layout.hcsr04s.push(netsblox_vm_esp32::layout::HCSR04 { name: "front".into(), gpio_trigger: 10, gpio_echo: 11 });
    layout.hcsr04s.push(netsblox_vm_esp32::layout::HCSR04 { name: "back".into(), gpio_trigger: 12, gpio_echo: 13 });
    let mut binder = Binder::new(layout);
    answer_with(&mut binder, |request| match request {
        Request::OpenInput { pin: 11 } => Some(Fault::Probe { cause: "stuck".into() }),
        _ => None,
    });
    let (peripherals, errors) = binder.finish();
    assert_eq!(peripherals.devices().len(), 1);
    assert_eq!(peripherals.devices()[0].name, "back");
    assert_eq!(peripherals.devices()[0].pins, vec![12, 13]);
    assert_eq!(errors.len(), 1);
    assert_eq!(errors[0].context, "hcsr04s front gpio_echo");
    assert!(matches!(&errors[0].error, PeripheralError::DriverProbe { cause } if cause == "stuck"));
}
