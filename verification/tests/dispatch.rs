use netsblox_vm_esp32::bind::bind_syscalls;
use netsblox_vm_esp32::broker::Request;
use netsblox_vm_esp32::devices::{DigitalInController, Level, MotorController};
use netsblox_vm_esp32::dispatch::{Dispatch, MotorDrive, Operation, Peripherals, Reading, Scalar, SyscallArg};
use netsblox_vm_esp32::layout::{BasicI2c, DigitalIO, I2cInfo, Motor, MotorGroup, PeripheralsConfig, HCSR04};
use netsblox_vm_esp32::ledger::Fault;
use netsblox_vm_esp32::menu::SyscallMenu;

fn willing(_request: Request) -> Result<(), Fault> {
    Ok(())
}

fn number(value: i64) -> SyscallArg {
    SyscallArg::Number(Scalar { whole: value, exact: true, shown: format!("{}", value) })
}

fn bind(layout: PeripheralsConfig) -> (Peripherals, Vec<SyscallMenu>) {
    let (peripherals, menu, errors) = bind_syscalls(willing, layout);
    assert!(errors.is_empty(), "{:?}", errors);
    (peripherals, menu)
}

fn motor_layout() -> PeripheralsConfig {
    let mut layout = PeripheralsConfig::default();
    layout.motors.push(Motor { name: "L".into(), gpio_positive: 4, gpio_negative: 5 });
    layout.motors.push(Motor { name: "R".into(), gpio_positive: 6, gpio_negative: 7 });
    layout.motor_groups.push(MotorGroup { name: "drive".into(), members: vec!["L".into(), "R".into()] });
    layout
}

fn full_layout() -> PeripheralsConfig {
    let mut layout = motor_layout();
    layout.i2c = Some(I2cInfo { gpio_sda: 21, gpio_scl: 22 });
    layout.digital_ins.push(DigitalIO { name: "button".into(), gpio: 1, negated: true });
    layout.digital_outs.push(DigitalIO { name: "led".into(), gpio: 2, negated: true });
    layout.hcsr04s.push(HCSR04 { name: "front".into(), gpio_trigger: 10, gpio_echo: 11 });
    layout.max30205s.push(BasicI2c { name: "skin".into(), i2c_addr: 72 });
    layout.is31fl3741s.push(BasicI2c { name: "matrix".into(), i2c_addr: 48 });
    layout.bmp388s.push(BasicI2c { name: "air".into(), i2c_addr: 119 });
    layout.lis3dhs.push(BasicI2c { name: "tilt".into(), i2c_addr: 24 });
    layout.veml7700s.push(BasicI2c { name: "sun".into(), i2c_addr: 16 });
    layout
}

fn fail(dispatch: Dispatch) -> String {
    match dispatch {
        Dispatch::Fail(message) => message,
        other => panic!("{:?}", other),
    }
}

fn run(dispatch: Dispatch) -> Operation {
    match dispatch {
        Dispatch::Run(operation) => operation,
        other => panic!("{:?}", other),
    }
}

#[test]
fn empty_layout_has_empty_menu_and_knows_no_device() {
    let (peripherals, menu, errors) = bind_syscalls(willing, PeripheralsConfig::default());
    assert!(menu.is_empty());
    assert!(errors.is_empty());
    assert_eq!(fail(peripherals.dispatch("DigitalIn.x.get", &vec![])), "unknown DigitalIn peripheral: \"x\"");
}

#[test]
fn motor_group_takes_one_power_per_member() {
    let (peripherals, _) = bind(motor_layout());
    let operation = run(peripherals.dispatch("Motor.drive.setPower", &vec![number(128), number(-64)]));
    match operation {
        Operation::SetPower(drives) => {
            assert_eq!(
                drives,
                vec![
                    MotorDrive { motor: MotorController { positive: 0, negative: 1 }, power: 128 },
                    MotorDrive { motor: MotorController { positive: 2, negative: 3 }, power: -64 },
                ]
            );
            let left = drives[0].motor.set_power(drives[0].power, 1023);
            assert_eq!((left.0.channel, left.0.duty), (1, 0));
            assert_eq!((left.1.channel, left.1.duty), (0, 514));
            let right = drives[1].motor.set_power(drives[1].power, 1023);
            assert_eq!((right.0.channel, right.0.duty), (2, 0));
            assert_eq!((right.1.channel, right.1.duty), (3, 257));
        }
        other => panic!("{:?}", other),
    }
    assert_eq!(fail(peripherals.dispatch("Motor.drive.setPower", &vec![number(128)])), "expected 2 args, got 1");
    assert_eq!(fail(peripherals.dispatch("Motor.L.setPower", &vec![])), "expected 1 args, got 0");
}

#[test]
fn names_have_three_segments_and_a_known_kind() {
    let (peripherals, _) = bind(full_layout());
    for name in ["", "DigitalIn", "DigitalIn.button", "DigitalIn.button.get.more", "...."] {
        assert!(matches!(peripherals.dispatch(name, &vec![]), Dispatch::UseDefault), "{}", name);
    }
    assert_eq!(fail(peripherals.dispatch("Servo.button.get", &vec![])), "unknown peripheral type: \"Servo\"");
    assert_eq!(fail(peripherals.dispatch("digitalin.button.get", &vec![])), "unknown peripheral type: \"digitalin\"");
    assert_eq!(fail(peripherals.dispatch("..", &vec![])), "unknown peripheral type: \"\"");
    assert_eq!(fail(peripherals.dispatch("DigitalIn..get", &vec![])), "unknown DigitalIn peripheral: \"\"");
    assert_eq!(fail(peripherals.dispatch("DigitalIn.led.get", &vec![])), "unknown DigitalIn peripheral: \"led\"");
    assert_eq!(fail(peripherals.dispatch("DigitalIn.button.", &vec![])), "unknown DigitalIn function: \"\"");
    assert_eq!(fail(peripherals.dispatch("DigitalIn.button.set", &vec![])), "unknown DigitalIn function: \"set\"");
    assert_eq!(fail(peripherals.dispatch("Motor.a\"b.setPower", &vec![])), "unknown Motor peripheral: \"a\\\"b\"");
}

#[test]
fn digital_devices_apply_their_negation() {
    let (peripherals, _) = bind(full_layout());
    match run(peripherals.dispatch("DigitalIn.button.get", &vec![])) {
        Operation::ReadLevel(input) => {
            assert_eq!(input, DigitalInController { pin: 1, negated: true });
            assert!(!input.get_value(true));
            assert!(input.get_value(false));
        }
        other => panic!("{:?}", other),
    }
    assert!(matches!(
        run(peripherals.dispatch("DigitalOut.led.set", &vec![SyscallArg::Bool(true)])),
        Operation::WriteLevel { pin: 2, level: Level::Low }
    ));
    assert!(matches!(
        run(peripherals.dispatch("DigitalOut.led.set", &vec![SyscallArg::Bool(false)])),
        Operation::WriteLevel { pin: 2, level: Level::High }
    ));
    assert_eq!(
        fail(peripherals.dispatch("DigitalOut.led.set", &vec![number(1)])),
        "DigitalOut.led.set expected a bool for arg 1, but got Number"
    );
    assert_eq!(fail(peripherals.dispatch("DigitalOut.led.set", &vec![])), "expected 1 args, got 0");
    assert_eq!(fail(peripherals.dispatch("DigitalIn.button.get", &vec![number(1)])), "expected 0 args, got 1");
}

#[test]
fn arguments_are_checked_in_order() {
    let (peripherals, _) = bind(full_layout());
    let text = SyscallArg::Text { number: Some(Scalar { whole: 7, exact: true, shown: "7".into() }) };
    match run(peripherals.dispatch("Motor.drive.setPower", &vec![text, number(300)])) {
        Operation::SetPower(drives) => {
            assert_eq!(drives[0].power, 7);
            assert_eq!(drives[1].power, 300);
            let write = drives[1].motor.set_power(drives[1].power, 1000);
            assert_eq!(write.1.duty, 1000);
        }
        other => panic!("{:?}", other),
    }
    assert_eq!(
        fail(peripherals.dispatch("Motor.drive.setPower", &vec![SyscallArg::List, SyscallArg::Bool(true)])),
        "Motor.drive.setPower expected a number for arg 1, but got List"
    );
    assert_eq!(
        fail(peripherals.dispatch("Motor.drive.setPower", &vec![number(1), SyscallArg::Text { number: None }])),
        "Motor.drive.setPower expected a number for arg 2, but got Text"
    );
}

#[test]
fn pixels_need_bytes_inside_the_matrix() {
    let (peripherals, _) = bind(full_layout());
    let place = peripherals.devices().iter().position(|b| b.name == "matrix").unwrap();
    let args = |x: i64, y: i64| vec![number(x), number(y), number(255), number(0), number(7)];
    match run(peripherals.dispatch("IS31FL3741.matrix.setPixel", &args(12, 8))) {
        Operation::SetPixel { device, x, y, r, g, b } => {
            assert_eq!((device, x, y, r, g, b), (place, 12, 8, 255, 0, 7));
        }
        other => panic!("{:?}", other),
    }
    assert_eq!(
        fail(peripherals.dispatch("IS31FL3741.matrix.setPixel", &args(13, 0))),
        "pixel position (13, 0) is out of bounds"
    );
    assert_eq!(
        fail(peripherals.dispatch("IS31FL3741.matrix.setPixel", &args(0, 9))),
        "pixel position (0, 9) is out of bounds"
    );
    assert_eq!(
        fail(peripherals.dispatch("IS31FL3741.matrix.setPixel", &args(256, 0))),
        "IS31FL3741.matrix.setPixel expected an integer in [0, 255] for arg 1, but got 256"
    );
    let mut half = args(1, 1);
    half[3] = SyscallArg::Number(Scalar { whole: 0, exact: false, shown: "0.5".into() });
    assert_eq!(
        fail(peripherals.dispatch("IS31FL3741.matrix.setPixel", &half)),
        "IS31FL3741.matrix.setPixel expected an integer in [0, 255] for arg 4, but got 0.5"
    );
    assert_eq!(fail(peripherals.dispatch("IS31FL3741.matrix.setPixel", &vec![])), "expected 5 args, got 0");
}

#[test]
fn sensors_are_read_by_their_place() {
    let (peripherals, _) = bind(full_layout());
    let place = |name: &str| peripherals.devices().iter().position(|b| b.name == name).unwrap();
    let cases = [
        ("MAX30205.skin.getTemperature", "skin", Reading::Temperature),
        ("BMP388.air.getPressure", "air", Reading::Pressure),
        ("BMP388.air.getTemperature", "air", Reading::Temperature),
        ("LIS3DH.tilt.getAcceleration", "tilt", Reading::Acceleration),
        ("VEML7700.sun.getLight", "sun", Reading::Light),
    ];
    for (name, device, reading) in cases {
        match run(peripherals.dispatch(name, &vec![])) {
            Operation::ReadSensor { device: at, reading: what } => {
                assert_eq!(at, place(device));
                assert_eq!(what, reading);
            }
            other => panic!("{:?}", other),
        }
    }
    assert!(matches!(run(peripherals.dispatch("HCSR04.front.getDistance", &vec![])), Operation::Measure(f) if f.trigger == 10 && f.echo == 11));
    assert_eq!(fail(peripherals.dispatch("VEML7700.sun.getPressure", &vec![])), "unknown VEML7700 function: \"getPressure\"");
}

#[test]
fn menu_lists_kinds_in_order_with_their_devices() {
    let (_, menu) = bind(full_layout());
    let labels: Vec<&str> = menu.iter().map(|m| m.label.as_str()).collect();
    assert_eq!(
        labels,
        vec!["DigitalIn", "DigitalOut", "Motor", "HCSR04", "MAX30205", "IS31FL3741", "BMP388", "LIS3DH", "VEML7700"]
    );
    let motors: Vec<&str> = menu[2].content.iter().map(|d| d.label.as_str()).collect();
    assert_eq!(motors, vec!["L", "R", "drive"]);
    assert_eq!(menu[2].content[2].entries.len(), 1);
    assert_eq!(menu[2].content[2].entries[0].label, "setPower");
    assert_eq!(menu[2].content[2].entries[0].value, "Motor.drive.setPower");
    let air: Vec<(&str, &str)> =
        menu[6].content[0].entries.iter().map(|e| (e.label.as_str(), e.value.as_str())).collect();
    assert_eq!(air, vec![("getPressure", "BMP388.air.getPressure"), ("getTemperature", "BMP388.air.getTemperature")]);
    let (_, small) = bind(motor_layout());
    assert_eq!(small.len(), 1);
    assert_eq!(small[0].label, "Motor");
}

#[test]
fn sensors_without_a_bus_are_not_configured() {
    let mut layout = PeripheralsConfig::default();
    layout.veml7700s.push(BasicI2c { name: "sun".into(), i2c_addr: 16 });
    let (peripherals, menu, errors) = bind_syscalls(willing, layout);
    assert!(peripherals.devices().is_empty());
    assert!(menu.is_empty());
    assert_eq!(errors.len(), 1);
    assert_eq!(errors[0].context, "veml7700s sun");
    assert!(matches!(errors[0].error, netsblox_vm_esp32::ledger::PeripheralError::I2cNotConfigured));
}

#[test]
fn an_entry_that_was_not_bound_has_no_handle() {
    let mut layout = PeripheralsConfig::default();
    layout.digital_ins.push(DigitalIO { name: "first".into(), gpio: 9, negated: false });
    layout.digital_ins.push(DigitalIO { name: "second".into(), gpio: 9, negated: false });
    layout.digital_outs.push(DigitalIO { name: "third".into(), gpio: 10, negated: false });
    let (peripherals, menu, errors) = bind_syscalls(willing, layout);
    assert_eq!(errors.len(), 1);
    assert_eq!(errors[0].context, "digital_ins second gpio");
    assert!(matches!(errors[0].error, netsblox_vm_esp32::ledger::PeripheralError::PinAlreadyTaken { pin: 9 }));
    let names: Vec<&str> = peripherals.devices().iter().map(|b| b.name.as_str()).collect();
    assert_eq!(names, vec!["first", "third"]);
    let listed: Vec<Vec<&str>> = menu.iter().map(|m| m.content.iter().map(|d| d.label.as_str()).collect()).collect();
    assert_eq!(listed, vec![vec!["first"], vec!["third"]]);
    assert_eq!(fail(peripherals.dispatch("DigitalIn.second.get", &vec![])), "unknown DigitalIn peripheral: \"second\"");
    assert!(matches!(run(peripherals.dispatch("DigitalIn.first.get", &vec![])), Operation::ReadLevel(input) if input.pin == 9));
    assert_eq!(peripherals.devices()[0].pins, vec![9]);
}
