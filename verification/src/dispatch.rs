//! The dispatcher: it reads a syscall addressed as `<kind>.<instance>.<op>`, finds the
//! device, checks the arguments and says which operation is to be run on the hardware,
//! or with which message the call fails.

use crate::broker::{Bound, BoundView, Device, DeviceView};
use crate::devices::{DigitalInController, HCSR04Controller, Level, MotorController};
use crate::ledger::PinNumber;
use crate::plan::SensorFamily;
use crate::text::{debug_text, decimal, decimal_text, quoted, same_text};
use vstd::prelude::*;
use vstd::string::*;

verus! {

/// The kinds of devices, as syscalls address them.
#[derive(Debug, Clone, Copy, PartialEq, Eq, Structural)]
pub enum Kind {
    DigitalIn,
    DigitalOut,
    Motor,
    Hcsr04,
    Max30205,
    Is31fl3741,
    Bmp388,
    Lis3dh,
    Veml7700,
}

/// The first segment of the syscalls of a kind.
pub open spec fn kind_label(kind: Kind) -> Seq<char> {
    match kind {
        Kind::DigitalIn => "DigitalIn"@,
        Kind::DigitalOut => "DigitalOut"@,
        Kind::Motor => "Motor"@,
        Kind::Hcsr04 => "HCSR04"@,
        Kind::Max30205 => "MAX30205"@,
        Kind::Is31fl3741 => "IS31FL3741"@,
        Kind::Bmp388 => "BMP388"@,
        Kind::Lis3dh => "LIS3DH"@,
        Kind::Veml7700 => "VEML7700"@,
    }
}

/// The kind whose syscalls start with `label`.
pub open spec fn kind_named(label: Seq<char>) -> Option<Kind> {
    if label == "DigitalIn"@ {
        Some(Kind::DigitalIn)
    } else if label == "DigitalOut"@ {
        Some(Kind::DigitalOut)
    } else if label == "Motor"@ {
        Some(Kind::Motor)
    } else if label == "HCSR04"@ {
        Some(Kind::Hcsr04)
    } else if label == "MAX30205"@ {
        Some(Kind::Max30205)
    } else if label == "IS31FL3741"@ {
        Some(Kind::Is31fl3741)
    } else if label == "BMP388"@ {
        Some(Kind::Bmp388)
    } else if label == "LIS3DH"@ {
        Some(Kind::Lis3dh)
    } else if label == "VEML7700"@ {
        Some(Kind::Veml7700)
    } else {
        None
    }
}

/// The kind under which a device is addressed. Motors and motor groups share one.
pub open spec fn kind_of(device: DeviceView) -> Kind {
    match device {
        DeviceView::DigitalIn(_) => Kind::DigitalIn,
        DeviceView::DigitalOut(_) => Kind::DigitalOut,
        DeviceView::Motor(_) => Kind::Motor,
        DeviceView::MotorGroup(_) => Kind::Motor,
        DeviceView::Hcsr04(_) => Kind::Hcsr04,
        DeviceView::Sensor { family, .. } => match family {
            SensorFamily::Max30205 => Kind::Max30205,
            SensorFamily::Is31fl3741 => Kind::Is31fl3741,
            SensorFamily::Bmp388 => Kind::Bmp388,
            SensorFamily::Lis3dh => Kind::Lis3dh,
            SensorFamily::Veml7700 => Kind::Veml7700,
        },
    }
}

/// The place of the first `.` of `s` at or after `from`, or the length of `s` where
/// there is none.
pub open spec fn dot_from(s: Seq<char>, from: int) -> int
    decreases s.len() - from,
{
    if from < 0 || from >= s.len() {
        s.len() as int
    } else if s[from] == '.' {
        from
    } else {
        dot_from(s, from + 1)
    }
}

/// The three segments of a syscall name: it must hold exactly two dots. The segments
/// are what stands before, between and after them; any of them may be empty.
pub open spec fn parse_name(s: Seq<char>) -> Option<(Seq<char>, Seq<char>, Seq<char>)> {
    let i = dot_from(s, 0);
    let j = dot_from(s, i + 1);
    let k = dot_from(s, j + 1);
    if i < s.len() && j < s.len() && k >= s.len() {
        Some((s.subrange(0, i), s.subrange(i + 1, j), s.subrange(j + 1, s.len() as int)))
    } else {
        None
    }
}

/// Whether a segment holds no dot.
pub open spec fn dotless(segment: Seq<char>) -> bool {
    forall|i: int| 0 <= i < segment.len() ==> segment[i] != '.'
}

proof fn lemma_dot_after_segment(segment: Seq<char>, rest: Seq<char>, from: int)
    requires
        dotless(segment),
        0 <= from <= segment.len(),
    ensures
        dot_from(segment + rest, from) == (if rest.len() > 0 && rest[0] == '.' {
            segment.len() as int
        } else {
            dot_from(segment + rest, segment.len() as int)
        }),
    decreases segment.len() - from,
{
    let s = segment + rest;
    if from < segment.len() {
        assert(s[from] == segment[from]);
        lemma_dot_after_segment(segment, rest, from + 1);
    } else if rest.len() > 0 {
        assert(s[from] == rest[0]);
    }
}

proof fn lemma_dot_shift(head: Seq<char>, tail: Seq<char>, from: int)
    requires
        0 <= from <= tail.len(),
    ensures
        dot_from(head + tail, head.len() + from) == head.len() + dot_from(tail, from),
    decreases tail.len() - from,
{
    let s = head + tail;
    if from < tail.len() {
        assert(s[head.len() + from] == tail[from]);
        if tail[from] != '.' {
            lemma_dot_shift(head, tail, from + 1);
        }
    }
}

/// The grammar of syscall names: three segments without dots, joined by two dots, are
/// read back as these three segments.
pub proof fn law_name_grammar(kind: Seq<char>, instance: Seq<char>, function: Seq<char>)
    requires
        dotless(kind),
        dotless(instance),
        dotless(function),
    ensures
        parse_name(kind + seq!['.'] + instance + seq!['.'] + function) == Some(
            (kind, instance, function),
        ),
{
    let dot = seq!['.'];
    let name = kind + dot + instance + dot + function;
    let tail1 = dot + instance + dot + function;
    let tail2 = instance + dot + function;
    let tail3 = dot + function;
    assert(name =~= kind + tail1);
    assert(tail1 =~= dot + tail2);
    assert(tail2 =~= instance + tail3);
    let i = kind.len() as int;
    let j = i + 1 + instance.len();
    lemma_dot_after_segment(kind, tail1, 0);
    assert(dot_from(name, 0) == i);
    // the second dot
    lemma_dot_shift(kind + dot, tail2, 0);
    assert(name =~= (kind + dot) + tail2);
    lemma_dot_after_segment(instance, tail3, 0);
    assert(dot_from(tail2, 0) == instance.len());
    assert(dot_from(name, i + 1) == j);
    // no third dot
    lemma_dot_shift(kind + dot + instance + dot, function, 0);
    assert(name =~= (kind + dot + instance + dot) + function);
    lemma_dot_after_segment(function, Seq::empty(), 0);
    assert(function + Seq::<char>::empty() =~= function);
    lemma_dot_from_bounds(function, function.len() as int);
    assert(dot_from(function, 0) == function.len());
    assert(dot_from(name, j + 1) == name.len());
    assert(name.subrange(0, i) =~= kind);
    assert(name.subrange(i + 1, j) =~= instance);
    assert(name.subrange(j + 1, name.len() as int) =~= function);
}

proof fn lemma_dot_from_bounds(s: Seq<char>, from: int)
    requires
        0 <= from <= s.len(),
    ensures
        from <= dot_from(s, from) <= s.len(),
    decreases s.len() - from,
{
    if from < s.len() && s[from] != '.' {
        lemma_dot_from_bounds(s, from + 1);
    }
}

fn find_dot(s: &str, from: usize, len: usize) -> (at: usize)
    requires
        len == s@.len(),
        from <= len,
    ensures
        at == dot_from(s@, from as int),
        from <= at <= len,
{
    let mut i: usize = from;
    while i < len
        invariant
            from <= i <= len,
            len == s@.len(),
            dot_from(s@, from as int) == dot_from(s@, i as int),
        decreases len - i,
    {
        if s.get_char(i) == '.' {
            return i;
        }
        i = i + 1;
    }
    i
}

/// A number among the arguments of a syscall, as the parts of it that the dispatcher
/// reads.
#[derive(Debug)]
pub struct Scalar {
    /// The number without its fraction, limited to what the type holds.
    pub whole: i64,
    /// Whether the number is `whole` exactly.
    pub exact: bool,
    /// The number as messages show it.
    pub shown: String,
}

/// Mathematical value of a [`Scalar`].
pub struct ScalarView {
    pub whole: i64,
    pub exact: bool,
    pub shown: Seq<char>,
}

impl DeepView for Scalar {
    type V = ScalarView;

    open spec fn deep_view(&self) -> ScalarView {
        ScalarView { whole: self.whole, exact: self.exact, shown: self.shown@ }
    }
}

/// An argument of a syscall.
#[derive(Debug)]
pub enum SyscallArg {
    Bool(bool),
    Number(Scalar),
    /// A text, with the number that it reads as where it does.
    Text { number: Option<Scalar> },
    Image,
    Audio,
    List,
    Closure,
    Entity,
}

/// Mathematical value of a [`SyscallArg`].
pub enum SyscallArgView {
    Bool(bool),
    Number(ScalarView),
    Text { number: Option<ScalarView> },
    Image,
    Audio,
    List,
    Closure,
    Entity,
}

impl DeepView for SyscallArg {
    type V = SyscallArgView;

    open spec fn deep_view(&self) -> SyscallArgView {
        match self {
            SyscallArg::Bool(b) => SyscallArgView::Bool(*b),
            SyscallArg::Number(n) => SyscallArgView::Number(n.deep_view()),
            SyscallArg::Text { number } => SyscallArgView::Text {
                number: match number {
                    Some(n) => Some(n.deep_view()),
                    None => None,
                },
            },
            SyscallArg::Image => SyscallArgView::Image,
            SyscallArg::Audio => SyscallArgView::Audio,
            SyscallArg::List => SyscallArgView::List,
            SyscallArg::Closure => SyscallArgView::Closure,
            SyscallArg::Entity => SyscallArgView::Entity,
        }
    }
}

/// The name of the type of an argument, as messages give it.
pub open spec fn kind_shown(arg: SyscallArgView) -> Seq<char> {
    match arg {
        SyscallArgView::Bool(_) => "Bool"@,
        SyscallArgView::Number(_) => "Number"@,
        SyscallArgView::Text { .. } => "Text"@,
        SyscallArgView::Image => "Image"@,
        SyscallArgView::Audio => "Audio"@,
        SyscallArgView::List => "List"@,
        SyscallArgView::Closure => "Closure"@,
        SyscallArgView::Entity => "Entity"@,
    }
}

/// The number that an argument reads as: a number itself, or a text that holds one.
pub open spec fn as_number(arg: SyscallArgView) -> Option<ScalarView> {
    match arg {
        SyscallArgView::Number(n) => Some(n),
        SyscallArgView::Text { number } => number,
        _ => None,
    }
}

/// Whether a number is a whole number from 0 to 255.
pub open spec fn is_byte(n: ScalarView) -> bool {
    n.exact && 0 <= n.whole <= 255
}

/// The message for a call with the wrong number of arguments.
pub open spec fn arity_message(expected: nat, got: nat) -> Seq<char> {
    "expected "@ + decimal_text(expected) + " args, got "@ + decimal_text(got)
}

/// The message for the argument at `index` of the syscall `name` that should be a
/// truth value and is a `got`.
pub open spec fn bool_message(name: Seq<char>, index: nat, got: Seq<char>) -> Seq<char> {
    name + " expected a bool for arg "@ + decimal_text(index + 1) + ", but got "@ + got
}

/// The message for the argument at `index` of the syscall `name` that should be a
/// number and is a `got`.
pub open spec fn number_message(name: Seq<char>, index: nat, got: Seq<char>) -> Seq<char> {
    name + " expected a number for arg "@ + decimal_text(index + 1) + ", but got "@ + got
}

/// The message for the argument at `index` of the syscall `name` that is a number,
/// shown as `shown`, and no whole number from 0 to 255.
pub open spec fn byte_message(name: Seq<char>, index: nat, shown: Seq<char>) -> Seq<char> {
    name + " expected an integer in [0, 255] for arg "@ + decimal_text(index + 1)
        + ", but got "@ + shown
}

/// The message for a pixel outside the matrix.
pub open spec fn pixel_message(x: u8, y: u8) -> Seq<char> {
    "pixel position ("@ + decimal_text(x as nat) + ", "@ + decimal_text(y as nat)
        + ") is out of bounds"@
}

/// The message for a syscall whose first segment names no kind.
pub open spec fn unknown_kind(kind: Seq<char>) -> Seq<char> {
    "unknown peripheral type: "@ + debug_text(kind)
}

/// The message for a syscall to a device that is not bound.
pub open spec fn unknown_peripheral(kind: Seq<char>, instance: Seq<char>) -> Seq<char> {
    "unknown "@ + kind + " peripheral: "@ + debug_text(instance)
}

/// The message for a syscall to an operation that the device has not.
pub open spec fn unknown_function(kind: Seq<char>, function: Seq<char>) -> Seq<char> {
    "unknown "@ + kind + " function: "@ + debug_text(function)
}

/// A power for one motor.
#[derive(Debug, Clone, Copy, PartialEq, Eq, Structural)]
pub struct MotorDrive {
    pub motor: MotorController,
    pub power: i64,
}

/// What a sensor is asked for.
#[derive(Debug, Clone, Copy, PartialEq, Eq, Structural)]
pub enum Reading {
    Temperature,
    Pressure,
    Acceleration,
    Light,
}

/// Width of the pixel matrix.
pub const MATRIX_WIDTH: u8 = 13;

/// Height of the pixel matrix.
pub const MATRIX_HEIGHT: u8 = 9;

/// An operation on the hardware that a syscall asks for.
#[derive(Debug)]
pub enum Operation {
    /// Read the pin of a digital input; the value of the call is what
    /// `DigitalInController::get_value` makes of the level.
    ReadLevel(DigitalInController),
    /// Drive `pin` to `level`.
    WriteLevel { pin: PinNumber, level: Level },
    /// Apply the powers to the motors, in this order.
    SetPower(Vec<MotorDrive>),
    /// Measure a distance.
    Measure(HCSR04Controller),
    /// Read from the sensor bound at place `device`.
    ReadSensor { device: usize, reading: Reading },
    /// Set one pixel of the matrix bound at place `device`.
    SetPixel { device: usize, x: u8, y: u8, r: u8, g: u8, b: u8 },
}

/// Mathematical value of an [`Operation`].
pub enum OperationView {
    ReadLevel(DigitalInController),
    WriteLevel { pin: PinNumber, level: Level },
    SetPower(Seq<MotorDrive>),
    Measure(HCSR04Controller),
    ReadSensor { device: usize, reading: Reading },
    SetPixel { device: usize, x: u8, y: u8, r: u8, g: u8, b: u8 },
}

impl View for Operation {
    type V = OperationView;

    open spec fn view(&self) -> OperationView {
        match self {
            Operation::ReadLevel(c) => OperationView::ReadLevel(*c),
            Operation::WriteLevel { pin, level } => OperationView::WriteLevel {
                pin: *pin,
                level: *level,
            },
            Operation::SetPower(drives) => OperationView::SetPower(drives@),
            Operation::Measure(c) => OperationView::Measure(*c),
            Operation::ReadSensor { device, reading } => OperationView::ReadSensor {
                device: *device,
                reading: *reading,
            },
            Operation::SetPixel { device, x, y, r, g, b } => OperationView::SetPixel {
                device: *device,
                x: *x,
                y: *y,
                r: *r,
                g: *g,
                b: *b,
            },
        }
    }
}

/// What the dispatcher makes of a syscall.
#[derive(Debug)]
pub enum Dispatch {
    /// The syscall is none of the broker's: its name has not three segments.
    UseDefault,
    /// The syscall fails with this message.
    Fail(String),
    /// The syscall is to be run on the hardware.
    Run(Operation),
}

/// Mathematical value of a [`Dispatch`].
pub enum DispatchView {
    UseDefault,
    Fail(Seq<char>),
    Run(OperationView),
}

impl View for Dispatch {
    type V = DispatchView;

    open spec fn view(&self) -> DispatchView {
        match self {
            Dispatch::UseDefault => DispatchView::UseDefault,
            Dispatch::Fail(message) => DispatchView::Fail(message@),
            Dispatch::Run(operation) => DispatchView::Run(operation@),
        }
    }
}

/// The place of the first device of `kind` named `name` among `bound[from..]`.
pub open spec fn find_device(bound: Seq<BoundView>, kind: Kind, name: Seq<char>, from: int)
    -> Option<int>
    decreases bound.len() - from,
{
    if from < 0 || from >= bound.len() {
        None
    } else if kind_of(bound[from].device) == kind && bound[from].name == name {
        Some(from)
    } else {
        find_device(bound, kind, name, from + 1)
    }
}

/// The motors that a device of kind `Motor` drives: itself, or the members of the group.
pub open spec fn motors_of(device: DeviceView) -> Seq<MotorController> {
    match device {
        DeviceView::Motor(motor) => seq![motor],
        DeviceView::MotorGroup(members) => members,
        _ => Seq::empty(),
    }
}

/// The powers for the first `n` of `motors`, read from the arguments in order, or the
/// message for the first argument that is no number.
pub open spec fn drives(
    name: Seq<char>,
    motors: Seq<MotorController>,
    args: Seq<SyscallArgView>,
    n: int,
) -> Result<Seq<MotorDrive>, Seq<char>>
    decreases n,
{
    if n <= 0 {
        Ok(Seq::empty())
    } else {
        match drives(name, motors, args, n - 1) {
            Err(message) => Err(message),
            Ok(list) => match as_number(args[n - 1]) {
                None => Err(number_message(name, (n - 1) as nat, kind_shown(args[n - 1]))),
                Some(number) => Ok(
                    list.push(MotorDrive { motor: motors[n - 1], power: number.whole }),
                ),
            },
        }
    }
}

/// The first `n` arguments as bytes, or the message for the first that is no number or
/// no whole number from 0 to 255.
pub open spec fn bytes(name: Seq<char>, args: Seq<SyscallArgView>, n: int) -> Result<
    Seq<u8>,
    Seq<char>,
>
    decreases n,
{
    if n <= 0 {
        Ok(Seq::empty())
    } else {
        match bytes(name, args, n - 1) {
            Err(message) => Err(message),
            Ok(list) => match as_number(args[n - 1]) {
                None => Err(number_message(name, (n - 1) as nat, kind_shown(args[n - 1]))),
                Some(number) => if is_byte(number) {
                    Ok(list.push(number.whole as u8))
                } else {
                    Err(byte_message(name, (n - 1) as nat, number.shown))
                },
            },
        }
    }
}

/// What a call without arguments gives: the operation, or the message for a wrong count.
pub open spec fn without_args(args: Seq<SyscallArgView>, operation: OperationView)
    -> DispatchView {
    if args.len() != 0 {
        DispatchView::Fail(arity_message(0, args.len()))
    } else {
        DispatchView::Run(operation)
    }
}

/// What the function `function` of the device bound at place `at` gives on `args`.
/// `name` is the whole name of the syscall and `label` its first segment.
pub open spec fn invoked(
    device: DeviceView,
    at: int,
    name: Seq<char>,
    label: Seq<char>,
    function: Seq<char>,
    args: Seq<SyscallArgView>,
) -> DispatchView {
    match device {
        DeviceView::DigitalIn(input) => if function == "get"@ {
            without_args(args, OperationView::ReadLevel(input))
        } else {
            DispatchView::Fail(unknown_function(label, function))
        },
        DeviceView::DigitalOut(output) => if function == "set"@ {
            if args.len() != 1 {
                DispatchView::Fail(arity_message(1, args.len()))
            } else {
                match args[0] {
                    SyscallArgView::Bool(value) => DispatchView::Run(
                        OperationView::WriteLevel {
                            pin: output.pin,
                            level: if value != output.negated {
                                Level::High
                            } else {
                                Level::Low
                            },
                        },
                    ),
                    other => DispatchView::Fail(bool_message(name, 0, kind_shown(other))),
                }
            }
        } else {
            DispatchView::Fail(unknown_function(label, function))
        },
        DeviceView::Hcsr04(finder) => if function == "getDistance"@ {
            without_args(args, OperationView::Measure(finder))
        } else {
            DispatchView::Fail(unknown_function(label, function))
        },
        DeviceView::Sensor { family, .. } => match family {
            SensorFamily::Max30205 => if function == "getTemperature"@ {
                without_args(
                    args,
                    OperationView::ReadSensor {
                        device: at as usize,
                        reading: Reading::Temperature,
                    },
                )
            } else {
                DispatchView::Fail(unknown_function(label, function))
            },
            SensorFamily::Bmp388 => if function == "getPressure"@ {
                without_args(
                    args,
                    OperationView::ReadSensor { device: at as usize, reading: Reading::Pressure },
                )
            } else if function == "getTemperature"@ {
                without_args(
                    args,
                    OperationView::ReadSensor {
                        device: at as usize,
                        reading: Reading::Temperature,
                    },
                )
            } else {
                DispatchView::Fail(unknown_function(label, function))
            },
            SensorFamily::Lis3dh => if function == "getAcceleration"@ {
                without_args(
                    args,
                    OperationView::ReadSensor {
                        device: at as usize,
                        reading: Reading::Acceleration,
                    },
                )
            } else {
                DispatchView::Fail(unknown_function(label, function))
            },
            SensorFamily::Veml7700 => if function == "getLight"@ {
                without_args(
                    args,
                    OperationView::ReadSensor { device: at as usize, reading: Reading::Light },
                )
            } else {
                DispatchView::Fail(unknown_function(label, function))
            },
            SensorFamily::Is31fl3741 => if function == "setPixel"@ {
                if args.len() != 5 {
                    DispatchView::Fail(arity_message(5, args.len()))
                } else {
                    match bytes(name, args, 5) {
                        Err(message) => DispatchView::Fail(message),
                        Ok(list) => if list[0] >= MATRIX_WIDTH || list[1] >= MATRIX_HEIGHT {
                            DispatchView::Fail(pixel_message(list[0], list[1]))
                        } else {
                            DispatchView::Run(
                                OperationView::SetPixel {
                                    device: at as usize,
                                    x: list[0],
                                    y: list[1],
                                    r: list[2],
                                    g: list[3],
                                    b: list[4],
                                },
                            )
                        },
                    }
                }
            } else {
                DispatchView::Fail(unknown_function(label, function))
            },
        },
        motor => if function == "setPower"@ {
            if args.len() != motors_of(motor).len() {
                DispatchView::Fail(arity_message(motors_of(motor).len(), args.len()))
            } else {
                match drives(name, motors_of(motor), args, args.len() as int) {
                    Err(message) => DispatchView::Fail(message),
                    Ok(list) => DispatchView::Run(OperationView::SetPower(list)),
                }
            }
        } else {
            DispatchView::Fail(unknown_function(label, function))
        },
    }
}

/// What the dispatcher makes of the syscall `name` with `args` on the devices `bound`.
pub open spec fn dispatched(bound: Seq<BoundView>, name: Seq<char>, args: Seq<SyscallArgView>)
    -> DispatchView {
    match parse_name(name) {
        None => DispatchView::UseDefault,
        Some((label, instance, function)) => match kind_named(label) {
            None => DispatchView::Fail(unknown_kind(label)),
            Some(kind) => match find_device(bound, kind, instance, 0) {
                None => DispatchView::Fail(unknown_peripheral(label, instance)),
                Some(at) => invoked(bound[at].device, at, name, label, function, args),
            },
        },
    }
}


fn kind_from(label: &str) -> (kind: Option<Kind>)
    ensures
        kind == kind_named(label@),
{
    if same_text(label, "DigitalIn") {
        Some(Kind::DigitalIn)
    } else if same_text(label, "DigitalOut") {
        Some(Kind::DigitalOut)
    } else if same_text(label, "Motor") {
        Some(Kind::Motor)
    } else if same_text(label, "HCSR04") {
        Some(Kind::Hcsr04)
    } else if same_text(label, "MAX30205") {
        Some(Kind::Max30205)
    } else if same_text(label, "IS31FL3741") {
        Some(Kind::Is31fl3741)
    } else if same_text(label, "BMP388") {
        Some(Kind::Bmp388)
    } else if same_text(label, "LIS3DH") {
        Some(Kind::Lis3dh)
    } else if same_text(label, "VEML7700") {
        Some(Kind::Veml7700)
    } else {
        None
    }
}

impl Device {
    /// The kind under which the device is addressed.
    pub fn kind(&self) -> (kind: Kind)
        ensures
            kind == kind_of(self@),
    {
        match self {
            Device::DigitalIn(_) => Kind::DigitalIn,
            Device::DigitalOut(_) => Kind::DigitalOut,
            Device::Motor(_) => Kind::Motor,
            Device::MotorGroup(_) => Kind::Motor,
            Device::Hcsr04(_) => Kind::Hcsr04,
            Device::Sensor { family, .. } => match family {
                SensorFamily::Max30205 => Kind::Max30205,
                SensorFamily::Is31fl3741 => Kind::Is31fl3741,
                SensorFamily::Bmp388 => Kind::Bmp388,
                SensorFamily::Lis3dh => Kind::Lis3dh,
                SensorFamily::Veml7700 => Kind::Veml7700,
            },
        }
    }
}

fn same_kind(a: Kind, b: Kind) -> (same: bool)
    ensures
        same == (a == b),
{
    a == b
}

fn locate(bound: &Vec<Bound>, kind: Kind, name: &str) -> (at: Option<usize>)
    ensures
        match at {
            Some(i) => find_device(bound.deep_view(), kind, name@, 0) == Some(i as int) && i
                < bound@.len(),
            None => find_device(bound.deep_view(), kind, name@, 0) is None,
        },
{
    let mut i: usize = 0;
    while i < bound.len()
        invariant
            i <= bound.len(),
            find_device(bound.deep_view(), kind, name@, 0) == find_device(
                bound.deep_view(),
                kind,
                name@,
                i as int,
            ),
        decreases bound.len() - i,
    {
        if same_kind(bound[i].device.kind(), kind) && same_text(bound[i].name.as_str(), name) {
            return Some(i);
        }
        i = i + 1;
    }
    None
}

fn say_arity(expected: usize, got: usize) -> (message: String)
    ensures
        message@ == arity_message(expected as nat, got as nat),
{
    let mut message = String::from_str("expected ");
    message.append(decimal(expected as u64).as_str());
    message.append(" args, got ");
    message.append(decimal(got as u64).as_str());
    message
}

fn say_mismatch(name: &str, wanted: &str, index: usize, got: &str) -> (message: String)
    requires
        index < usize::MAX,
    ensures
        message@ == name@ + wanted@ + decimal_text((index + 1) as nat) + ", but got "@ + got@,
{
    let mut message = String::from_str(name);
    message.append(wanted);
    message.append(decimal((index + 1) as u64).as_str());
    message.append(", but got ");
    message.append(got);
    message
}

fn say_unknown(label: &str, what: &str, which: &str) -> (message: String)
    ensures
        message@ == "unknown "@ + label@ + what@ + debug_text(which@),
{
    let mut message = String::from_str("unknown ");
    message.append(label);
    message.append(what);
    message.append(quoted(which).as_str());
    message
}

fn say_pixel(x: u8, y: u8) -> (message: String)
    ensures
        message@ == pixel_message(x, y),
{
    let mut message = String::from_str("pixel position (");
    message.append(decimal(x as u64).as_str());
    message.append(", ");
    message.append(decimal(y as u64).as_str());
    message.append(") is out of bounds");
    message
}

impl SyscallArg {
    /// The name of the type of the argument.
    pub fn kind_shown(&self) -> (name: &'static str)
        ensures
            name@ == kind_shown(self.deep_view()),
    {
        match self {
            SyscallArg::Bool(_) => "Bool",
            SyscallArg::Number(_) => "Number",
            SyscallArg::Text { .. } => "Text",
            SyscallArg::Image => "Image",
            SyscallArg::Audio => "Audio",
            SyscallArg::List => "List",
            SyscallArg::Closure => "Closure",
            SyscallArg::Entity => "Entity",
        }
    }

    /// The number that the argument reads as.
    pub fn as_number(&self) -> (number: Option<&Scalar>)
        ensures
            match number {
                Some(n) => as_number(self.deep_view()) == Some(n.deep_view()),
                None => as_number(self.deep_view()) is None,
            },
    {
        match self {
            SyscallArg::Number(n) => Some(n),
            SyscallArg::Text { number } => match number {
                Some(n) => Some(n),
                None => None,
            },
            _ => None,
        }
    }
}

proof fn lemma_drives_failure_stays(
    name: Seq<char>,
    motors: Seq<MotorController>,
    args: Seq<SyscallArgView>,
    n: int,
    m: int,
)
    requires
        0 <= n <= m,
        drives(name, motors, args, n) is Err,
    ensures
        drives(name, motors, args, m) == drives(name, motors, args, n),
    decreases m - n,
{
    if n < m {
        lemma_drives_failure_stays(name, motors, args, n, m - 1);
    }
}

proof fn lemma_bytes_failure_stays(name: Seq<char>, args: Seq<SyscallArgView>, n: int, m: int)
    requires
        0 <= n <= m,
        bytes(name, args, n) is Err,
    ensures
        bytes(name, args, m) == bytes(name, args, n),
    decreases m - n,
{
    if n < m {
        lemma_bytes_failure_stays(name, args, n, m - 1);
    }
}

fn read_drives(name: &str, motors: &Vec<MotorController>, args: &Vec<SyscallArg>) -> (read: Result<
    Vec<MotorDrive>,
    String,
>)
    requires
        motors@.len() == args@.len(),
    ensures
        match read {
            Ok(list) => drives(name@, motors@, args.deep_view(), args@.len() as int) == Ok::<
                Seq<MotorDrive>,
                Seq<char>,
            >(list@),
            Err(message) => drives(name@, motors@, args.deep_view(), args@.len() as int) == Err::<
                Seq<MotorDrive>,
                Seq<char>,
            >(message@),
        },
{
    let mut list: Vec<MotorDrive> = Vec::new();
    let mut i: usize = 0;
    while i < args.len()
        invariant
            i <= args.len(),
            motors@.len() == args@.len(),
            drives(name@, motors@, args.deep_view(), i as int) == Ok::<
                Seq<MotorDrive>,
                Seq<char>,
            >(list@),
        decreases args.len() - i,
    {
        assert(args.deep_view()[i as int] == args[i as int].deep_view());
        match args[i].as_number() {
            Some(number) => {
                list.push(MotorDrive { motor: motors[i], power: number.whole });
            },
            None => {
                let message = say_mismatch(
                    name,
                    " expected a number for arg ",
                    i,
                    args[i].kind_shown(),
                );
                proof {
                    lemma_drives_failure_stays(
                        name@,
                        motors@,
                        args.deep_view(),
                        i as int + 1,
                        args@.len() as int,
                    );
                }
                return Err(message);
            },
        }
        i = i + 1;
    }
    Ok(list)
}

fn read_bytes(name: &str, args: &Vec<SyscallArg>) -> (read: Result<Vec<u8>, String>)
    ensures
        match read {
            Ok(list) => bytes(name@, args.deep_view(), args@.len() as int) == Ok::<
                Seq<u8>,
                Seq<char>,
            >(list@),
            Err(message) => bytes(name@, args.deep_view(), args@.len() as int) == Err::<
                Seq<u8>,
                Seq<char>,
            >(message@),
        },
{
    let mut list: Vec<u8> = Vec::new();
    let mut i: usize = 0;
    while i < args.len()
        invariant
            i <= args.len(),
            bytes(name@, args.deep_view(), i as int) == Ok::<Seq<u8>, Seq<char>>(list@),
        decreases args.len() - i,
    {
        assert(args.deep_view()[i as int] == args[i as int].deep_view());
        match args[i].as_number() {
            Some(number) => {
                if number.exact && 0 <= number.whole && number.whole <= 255 {
                    list.push(number.whole as u8);
                } else {
                    let message = say_mismatch(
                        name,
                        " expected an integer in [0, 255] for arg ",
                        i,
                        number.shown.as_str(),
                    );
                    proof {
                        lemma_bytes_failure_stays(
                            name@,
                            args.deep_view(),
                            i as int + 1,
                            args@.len() as int,
                        );
                    }
                    return Err(message);
                }
            },
            None => {
                let message = say_mismatch(
                    name,
                    " expected a number for arg ",
                    i,
                    args[i].kind_shown(),
                );
                proof {
                    lemma_bytes_failure_stays(
                        name@,
                        args.deep_view(),
                        i as int + 1,
                        args@.len() as int,
                    );
                }
                return Err(message);
            },
        }
        i = i + 1;
    }
    Ok(list)
}

fn run_without_args(args: &Vec<SyscallArg>, operation: Operation) -> (dispatch: Dispatch)
    ensures
        dispatch@ == without_args(args.deep_view(), operation@),
{
    if args.len() != 0 {
        Dispatch::Fail(say_arity(0, args.len()))
    } else {
        Dispatch::Run(operation)
    }
}

fn set_power(name: &str, motors: &Vec<MotorController>, args: &Vec<SyscallArg>) -> (dispatch:
    Dispatch)
    ensures
        dispatch@ == (if args.deep_view().len() != motors@.len() {
            DispatchView::Fail(arity_message(motors@.len(), args.deep_view().len()))
        } else {
            match drives(name@, motors@, args.deep_view(), args.deep_view().len() as int) {
                Err(message) => DispatchView::Fail(message),
                Ok(list) => DispatchView::Run(OperationView::SetPower(list)),
            }
        }),
{
    if args.len() != motors.len() {
        Dispatch::Fail(say_arity(motors.len(), args.len()))
    } else {
        match read_drives(name, motors, args) {
            Err(message) => Dispatch::Fail(message),
            Ok(list) => Dispatch::Run(Operation::SetPower(list)),
        }
    }
}

fn invoke(
    device: &Device,
    at: usize,
    name: &str,
    label: &str,
    function: &str,
    args: &Vec<SyscallArg>,
) -> (dispatch: Dispatch)
    ensures
        dispatch@ == invoked(device@, at as int, name@, label@, function@, args.deep_view()),
{
    match device {
        Device::DigitalIn(input) => {
            if same_text(function, "get") {
                run_without_args(args, Operation::ReadLevel(*input))
            } else {
                Dispatch::Fail(say_unknown(label, " function: ", function))
            }
        },
        Device::DigitalOut(output) => {
            if same_text(function, "set") {
                if args.len() != 1 {
                    Dispatch::Fail(say_arity(1, args.len()))
                } else {
                    assert(args.deep_view()[0] == args[0].deep_view());
                    match &args[0] {
                        SyscallArg::Bool(value) => Dispatch::Run(
                            Operation::WriteLevel {
                                pin: output.pin,
                                level: output.set_value(*value),
                            },
                        ),
                        other => Dispatch::Fail(
                            say_mismatch(name, " expected a bool for arg ", 0, other.kind_shown()),
                        ),
                    }
                }
            } else {
                Dispatch::Fail(say_unknown(label, " function: ", function))
            }
        },
        Device::Motor(motor) => {
            if same_text(function, "setPower") {
                let mut motors: Vec<MotorController> = Vec::new();
                motors.push(*motor);
                assert(motors@ =~= seq![*motor]);
                set_power(name, &motors, args)
            } else {
                Dispatch::Fail(say_unknown(label, " function: ", function))
            }
        },
        Device::MotorGroup(members) => {
            if same_text(function, "setPower") {
                set_power(name, members, args)
            } else {
                Dispatch::Fail(say_unknown(label, " function: ", function))
            }
        },
        Device::Hcsr04(finder) => {
            if same_text(function, "getDistance") {
                run_without_args(args, Operation::Measure(*finder))
            } else {
                Dispatch::Fail(say_unknown(label, " function: ", function))
            }
        },
        Device::Sensor { family, .. } => match family {
            SensorFamily::Max30205 => {
                if same_text(function, "getTemperature") {
                    run_without_args(
                        args,
                        Operation::ReadSensor { device: at, reading: Reading::Temperature },
                    )
                } else {
                    Dispatch::Fail(say_unknown(label, " function: ", function))
                }
            },
            SensorFamily::Bmp388 => {
                if same_text(function, "getPressure") {
                    run_without_args(
                        args,
                        Operation::ReadSensor { device: at, reading: Reading::Pressure },
                    )
                } else if same_text(function, "getTemperature") {
                    run_without_args(
                        args,
                        Operation::ReadSensor { device: at, reading: Reading::Temperature },
                    )
                } else {
                    Dispatch::Fail(say_unknown(label, " function: ", function))
                }
            },
            SensorFamily::Lis3dh => {
                if same_text(function, "getAcceleration") {
                    run_without_args(
                        args,
                        Operation::ReadSensor { device: at, reading: Reading::Acceleration },
                    )
                } else {
                    Dispatch::Fail(say_unknown(label, " function: ", function))
                }
            },
            SensorFamily::Veml7700 => {
                if same_text(function, "getLight") {
                    run_without_args(
                        args,
                        Operation::ReadSensor { device: at, reading: Reading::Light },
                    )
                } else {
                    Dispatch::Fail(say_unknown(label, " function: ", function))
                }
            },
            SensorFamily::Is31fl3741 => {
                if same_text(function, "setPixel") {
                    if args.len() != 5 {
                        Dispatch::Fail(say_arity(5, args.len()))
                    } else {
                        match read_bytes(name, args) {
                            Err(message) => Dispatch::Fail(message),
                            Ok(list) => {
                                proof {
                                    lemma_bytes_len(name@, args.deep_view(), 5);
                                }
                                if list[0] >= MATRIX_WIDTH || list[1] >= MATRIX_HEIGHT {
                                    Dispatch::Fail(say_pixel(list[0], list[1]))
                                } else {
                                    Dispatch::Run(
                                        Operation::SetPixel {
                                            device: at,
                                            x: list[0],
                                            y: list[1],
                                            r: list[2],
                                            g: list[3],
                                            b: list[4],
                                        },
                                    )
                                }
                            },
                        }
                    }
                } else {
                    Dispatch::Fail(say_unknown(label, " function: ", function))
                }
            },
        },
    }
}

proof fn lemma_bytes_len(name: Seq<char>, args: Seq<SyscallArgView>, n: int)
    requires
        0 <= n,
    ensures
        bytes(name, args, n) is Ok ==> bytes(name, args, n)->Ok_0.len() == n,
    decreases n,
{
    if n > 0 {
        lemma_bytes_len(name, args, n - 1);
    }
}

/// The devices that were bound, in the order in which they were bound. All kinds lie in
/// the one sequence that the menu follows; a device is found by its kind and its name.
pub struct Peripherals {
    bound: Vec<Bound>,
}

impl View for Peripherals {
    type V = Seq<BoundView>;

    closed spec fn view(&self) -> Seq<BoundView> {
        self.bound.deep_view()
    }
}

impl Peripherals {
    pub(crate) fn from_bound(bound: Vec<Bound>) -> (peripherals: Peripherals)
        ensures
            peripherals@ == bound.deep_view(),
    {
        Peripherals { bound }
    }

    /// The bound devices.
    pub fn devices(&self) -> (devices: &Vec<Bound>)
        ensures
            devices.deep_view() == self@,
    {
        &self.bound
    }
}

impl Peripherals {
    /// Reads the syscall `name` with `args` and says what is to be done: nothing of the
    /// broker's, a failure with its message, or an operation on the hardware.
    pub fn dispatch(&self, name: &str, args: &Vec<SyscallArg>) -> (dispatch: Dispatch)
        ensures
            dispatch@ == dispatched(self@, name@, args.deep_view()),
    {
        let len = name.unicode_len();
        let i = find_dot(name, 0, len);
        if i >= len {
            proof {
                lemma_dot_from_bounds(name@, len as int);
            }
            return Dispatch::UseDefault;
        }
        let j = find_dot(name, i + 1, len);
        if j >= len {
            return Dispatch::UseDefault;
        }
        let k = find_dot(name, j + 1, len);
        if k < len {
            return Dispatch::UseDefault;
        }
        let label = name.substring_char(0, i);
        let instance = name.substring_char(i + 1, j);
        let function = name.substring_char(j + 1, len);
        match kind_from(label) {
            None => {
                let mut message = String::from_str("unknown peripheral type: ");
                message.append(quoted(label).as_str());
                Dispatch::Fail(message)
            },
            Some(kind) => match locate(&self.bound, kind, instance) {
                None => Dispatch::Fail(say_unknown(label, " peripheral: ", instance)),
                Some(at) => {
                    assert(self.bound.deep_view()[at as int].device == self.bound[at as int].device@);
                    invoke(&self.bound[at].device, at, name, label, function, args)
                },
            },
        }
    }
}

proof fn lemma_labels(kind: Kind)
    ensures
        kind_named(kind_label(kind)) == Some(kind),
        dotless(kind_label(kind)),
{
    reveal_strlit("DigitalIn");
    reveal_strlit("DigitalOut");
    reveal_strlit("Motor");
    reveal_strlit("HCSR04");
    reveal_strlit("MAX30205");
    reveal_strlit("IS31FL3741");
    reveal_strlit("BMP388");
    reveal_strlit("LIS3DH");
    reveal_strlit("VEML7700");
    assert("HCSR04"@[0] == 'H' && "BMP388"@[0] == 'B' && "LIS3DH"@[0] == 'L');
    assert("MAX30205"@[0] == 'M' && "VEML7700"@[0] == 'V');
    assert("DigitalOut"@[0] == 'D' && "IS31FL3741"@[0] == 'I');
    assert("DigitalIn"@.len() == 9 && "DigitalOut"@.len() == 10 && "Motor"@.len() == 5);
    assert("HCSR04"@.len() == 6 && "MAX30205"@.len() == 8 && "IS31FL3741"@.len() == 10);
    assert("BMP388"@.len() == 6 && "LIS3DH"@.len() == 6 && "VEML7700"@.len() == 8);
    let label = kind_label(kind);
    assert forall|i: int| 0 <= i < label.len() implies label[i] != '.' by {
        match kind {
            Kind::DigitalIn => {
                assert(label =~= seq!['D', 'i', 'g', 'i', 't', 'a', 'l', 'I', 'n']);
            },
            Kind::DigitalOut => {
                assert(label =~= seq!['D', 'i', 'g', 'i', 't', 'a', 'l', 'O', 'u', 't']);
            },
            Kind::Motor => {
                assert(label =~= seq!['M', 'o', 't', 'o', 'r']);
            },
            Kind::Hcsr04 => {
                assert(label =~= seq!['H', 'C', 'S', 'R', '0', '4']);
            },
            Kind::Max30205 => {
                assert(label =~= seq!['M', 'A', 'X', '3', '0', '2', '0', '5']);
            },
            Kind::Is31fl3741 => {
                assert(label =~= seq!['I', 'S', '3', '1', 'F', 'L', '3', '7', '4', '1']);
            },
            Kind::Bmp388 => {
                assert(label =~= seq!['B', 'M', 'P', '3', '8', '8']);
            },
            Kind::Lis3dh => {
                assert(label =~= seq!['L', 'I', 'S', '3', 'D', 'H']);
            },
            Kind::Veml7700 => {
                assert(label =~= seq!['V', 'E', 'M', 'L', '7', '7', '0', '0']);
            },
        }
    }
}

proof fn lemma_not_found(bound: Seq<BoundView>, kind: Kind, name: Seq<char>, from: int)
    requires
        0 <= from,
        forall|a: int|
            0 <= a < bound.len() ==> !(kind_of((#[trigger] bound[a]).device) == kind && bound[a].name
                == name),
    ensures
        find_device(bound, kind, name, from) is None,
    decreases bound.len() - from,
{
    if from < bound.len() {
        assert(!(kind_of(bound[from].device) == kind && bound[from].name == name));
        lemma_not_found(bound, kind, name, from + 1);
    }
}

/// What is not bound has no handle: a syscall to a device of a kind under a name under
/// which no device of that kind is bound fails as unknown, whatever the operation and
/// the arguments. So an entry of the layout that could not be bound cannot be reached.
pub proof fn law_unbound_is_unknown(
    bound: Seq<BoundView>,
    kind: Kind,
    instance: Seq<char>,
    function: Seq<char>,
    args: Seq<SyscallArgView>,
)
    requires
        dotless(instance),
        dotless(function),
        forall|a: int|
            0 <= a < bound.len() ==> !(kind_of((#[trigger] bound[a]).device) == kind && bound[a].name
                == instance),
    ensures
        dispatched(
            bound,
            kind_label(kind) + seq!['.'] + instance + seq!['.'] + function,
            args,
        ) == DispatchView::Fail(unknown_peripheral(kind_label(kind), instance)),
{
    lemma_labels(kind);
    law_name_grammar(kind_label(kind), instance, function);
    lemma_not_found(bound, kind, instance, 0);
}

} // verus!
