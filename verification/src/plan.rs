//! The binding plan: the declarations of a layout in the order in which they are bound,
//! and what each of them asks of the hardware.

use crate::layout::{BasicI2c, DigitalIO, I2cInfo, Motor, MotorGroup, PeripheralsConfig, HCSR04};
use crate::ledger::PinNumber;
use crate::text::join;
use vstd::prelude::*;

verus! {

/// What a pin must be able to do for the device that claims it.
#[derive(Debug, Clone, Copy, PartialEq, Eq, Structural)]
pub enum PinUse {
    Input,
    Output,
    /// An output that is driven through a PWM channel.
    Pwm,
    /// A pin that both reads and writes, as the lines of the shared bus do.
    Bidirectional,
}

/// The families of sensors on the shared bus.
#[derive(Debug, Clone, Copy, PartialEq, Eq, Structural)]
pub enum SensorFamily {
    Max30205,
    Is31fl3741,
    Bmp388,
    Lis3dh,
    Veml7700,
}

/// One step of the plan, as a mathematical value.
pub enum DeclarationView {
    /// The timer that all PWM channels share.
    PwmTimer,
    /// The shared bus.
    Bus { sda: PinNumber, scl: PinNumber },
    DigitalIn { name: Seq<char>, gpio: PinNumber, negated: bool },
    DigitalOut { name: Seq<char>, gpio: PinNumber, negated: bool },
    Motor { name: Seq<char>, gpio_positive: PinNumber, gpio_negative: PinNumber },
    MotorGroup { name: Seq<char>, members: Seq<Seq<char>> },
    Hcsr04 { name: Seq<char>, gpio_trigger: PinNumber, gpio_echo: PinNumber },
    Sensor { family: SensorFamily, name: Seq<char>, address: u8 },
}

/// The step that binds the digital input `entry`.
pub open spec fn digital_in_view(entry: DigitalIO) -> DeclarationView {
    DeclarationView::DigitalIn { name: entry.name@, gpio: entry.gpio, negated: entry.negated }
}

/// The step that binds the digital output `entry`.
pub open spec fn digital_out_view(entry: DigitalIO) -> DeclarationView {
    DeclarationView::DigitalOut { name: entry.name@, gpio: entry.gpio, negated: entry.negated }
}

/// The step that binds the motor `entry`.
pub open spec fn motor_view(entry: Motor) -> DeclarationView {
    DeclarationView::Motor {
        name: entry.name@,
        gpio_positive: entry.gpio_positive,
        gpio_negative: entry.gpio_negative,
    }
}

/// The step that binds the motor group `entry`.
pub open spec fn motor_group_view(entry: MotorGroup) -> DeclarationView {
    DeclarationView::MotorGroup { name: entry.name@, members: entry.members.deep_view() }
}

/// The step that binds the rangefinder `entry`.
pub open spec fn hcsr04_view(entry: HCSR04) -> DeclarationView {
    DeclarationView::Hcsr04 {
        name: entry.name@,
        gpio_trigger: entry.gpio_trigger,
        gpio_echo: entry.gpio_echo,
    }
}

/// The step that binds the sensor `entry` of the family `family`.
pub open spec fn sensor_view(family: SensorFamily, entry: BasicI2c) -> DeclarationView {
    DeclarationView::Sensor { family, name: entry.name@, address: entry.i2c_addr }
}

/// How many steps the bus contributes to the plan: one where the layout declares it.
pub open spec fn bus_steps(layout: &PeripheralsConfig) -> int {
    if layout.i2c is Some {
        1
    } else {
        0
    }
}

/// The `i`-th step of the plan of `layout`, counted from zero, or `None` past its end.
/// The plan starts with the PWM timer and the bus (where one is declared); then come the
/// kinds in their fixed order, each with its entries as the layout lists them.
pub open spec fn declaration(layout: &PeripheralsConfig, i: int) -> Option<DeclarationView> {
    let a = i - 1 - bus_steps(layout);
    let b = a - layout.digital_ins@.len();
    let c = b - layout.digital_outs@.len();
    let d = c - layout.motors@.len();
    let e = d - layout.motor_groups@.len();
    let f = e - layout.hcsr04s@.len();
    let g = f - layout.max30205s@.len();
    let h = g - layout.is31fl3741s@.len();
    let j = h - layout.bmp388s@.len();
    let k = j - layout.lis3dhs@.len();
    if i < 0 {
        None
    } else if i == 0 {
        Some(DeclarationView::PwmTimer)
    } else if a < 0 {
        Some(DeclarationView::Bus { sda: layout.i2c->0.gpio_sda, scl: layout.i2c->0.gpio_scl })
    } else if b < 0 {
        Some(digital_in_view(layout.digital_ins@[a]))
    } else if c < 0 {
        Some(digital_out_view(layout.digital_outs@[b]))
    } else if d < 0 {
        Some(motor_view(layout.motors@[c]))
    } else if e < 0 {
        Some(motor_group_view(layout.motor_groups@[d]))
    } else if f < 0 {
        Some(hcsr04_view(layout.hcsr04s@[e]))
    } else if g < 0 {
        Some(sensor_view(SensorFamily::Max30205, layout.max30205s@[f]))
    } else if h < 0 {
        Some(sensor_view(SensorFamily::Is31fl3741, layout.is31fl3741s@[g]))
    } else if j < 0 {
        Some(sensor_view(SensorFamily::Bmp388, layout.bmp388s@[h]))
    } else if k < 0 {
        Some(sensor_view(SensorFamily::Lis3dh, layout.lis3dhs@[j]))
    } else if k < layout.veml7700s@.len() {
        Some(sensor_view(SensorFamily::Veml7700, layout.veml7700s@[k]))
    } else {
        None
    }
}

/// The number of steps of the plan of `layout`.
pub open spec fn plan_len(layout: &PeripheralsConfig) -> int {
    1 + bus_steps(layout) + layout.digital_ins@.len() + layout.digital_outs@.len()
        + layout.motors@.len() + layout.motor_groups@.len() + layout.hcsr04s@.len()
        + layout.max30205s@.len() + layout.is31fl3741s@.len() + layout.bmp388s@.len()
        + layout.lis3dhs@.len() + layout.veml7700s@.len()
}

/// The plan has exactly `plan_len` steps.
pub proof fn lemma_plan_extent(layout: &PeripheralsConfig, i: int)
    ensures
        declaration(layout, i) is Some <==> 0 <= i < plan_len(layout),
{
}

/// A plan is never longer than a dozen collections of the machine can be.
pub proof fn lemma_plan_bounded(layout: &PeripheralsConfig)
    ensures
        plan_len(layout) <= 2 + 10 * usize::MAX,
{
    assert(layout.digital_ins.len() == layout.digital_ins@.len());
    assert(layout.digital_outs.len() == layout.digital_outs@.len());
    assert(layout.motors.len() == layout.motors@.len());
    assert(layout.motor_groups.len() == layout.motor_groups@.len());
    assert(layout.hcsr04s.len() == layout.hcsr04s@.len());
    assert(layout.max30205s.len() == layout.max30205s@.len());
    assert(layout.is31fl3741s.len() == layout.is31fl3741s@.len());
    assert(layout.bmp388s.len() == layout.bmp388s@.len());
    assert(layout.lis3dhs.len() == layout.lis3dhs@.len());
    assert(layout.veml7700s.len() == layout.veml7700s@.len());
}

/// The pins that a declaration claims, in the order in which it claims them, each with
/// what it is used for.
pub open spec fn pin_plan(d: DeclarationView) -> Seq<(PinNumber, PinUse)> {
    match d {
        DeclarationView::Bus { sda, scl } => seq![
            (sda, PinUse::Bidirectional),
            (scl, PinUse::Bidirectional),
        ],
        DeclarationView::DigitalIn { gpio, .. } => seq![(gpio, PinUse::Input)],
        DeclarationView::DigitalOut { gpio, .. } => seq![(gpio, PinUse::Output)],
        DeclarationView::Motor { gpio_positive, gpio_negative, .. } => seq![
            (gpio_positive, PinUse::Pwm),
            (gpio_negative, PinUse::Pwm),
        ],
        DeclarationView::Hcsr04 { gpio_trigger, gpio_echo, .. } => seq![
            (gpio_trigger, PinUse::Output),
            (gpio_echo, PinUse::Input),
        ],
        _ => Seq::empty(),
    }
}

/// Whether a declaration ends with a hardware request of its own, after its pins.
pub open spec fn finishes_on_hardware(d: DeclarationView) -> bool {
    d is PwmTimer || d is Bus || d is Sensor
}

/// The name under which a declaration is bound, where it has one.
pub open spec fn declared_name(d: DeclarationView) -> Option<Seq<char>> {
    match d {
        DeclarationView::PwmTimer => None,
        DeclarationView::Bus { .. } => None,
        DeclarationView::DigitalIn { name, .. } => Some(name),
        DeclarationView::DigitalOut { name, .. } => Some(name),
        DeclarationView::Motor { name, .. } => Some(name),
        DeclarationView::MotorGroup { name, .. } => Some(name),
        DeclarationView::Hcsr04 { name, .. } => Some(name),
        DeclarationView::Sensor { name, .. } => Some(name),
    }
}

/// The key under which a layout lists the sensors of a family.
pub open spec fn family_key(family: SensorFamily) -> Seq<char> {
    match family {
        SensorFamily::Max30205 => "max30205s"@,
        SensorFamily::Is31fl3741 => "is31fl3741s"@,
        SensorFamily::Bmp388 => "bmp388s"@,
        SensorFamily::Lis3dh => "lis3dhs"@,
        SensorFamily::Veml7700 => "veml7700s"@,
    }
}

/// How an error names the declaration that it is about: the key of its kind and its
/// name, or `PWM` and `I2C` for the two that have no name.
pub open spec fn subject(d: DeclarationView) -> Seq<char> {
    match d {
        DeclarationView::PwmTimer => "PWM"@,
        DeclarationView::Bus { .. } => "I2C"@,
        DeclarationView::DigitalIn { name, .. } => "digital_ins "@ + name,
        DeclarationView::DigitalOut { name, .. } => "digital_outs "@ + name,
        DeclarationView::Motor { name, .. } => "motors "@ + name,
        DeclarationView::MotorGroup { name, .. } => "motor_groups "@ + name,
        DeclarationView::Hcsr04 { name, .. } => "hcsr04s "@ + name,
        DeclarationView::Sensor { family, name, .. } => family_key(family) + " "@ + name,
    }
}

/// The field of the layout that names the `slot`-th pin of a declaration.
pub open spec fn pin_field(d: DeclarationView, slot: int) -> Seq<char> {
    match d {
        DeclarationView::Bus { .. } => if slot == 0 {
            " gpio_sda"@
        } else {
            " gpio_scl"@
        },
        DeclarationView::Motor { .. } => if slot == 0 {
            " gpio_positive"@
        } else {
            " gpio_negative"@
        },
        DeclarationView::Hcsr04 { .. } => if slot == 0 {
            " gpio_trigger"@
        } else {
            " gpio_echo"@
        },
        _ => " gpio"@,
    }
}

/// How an error names the `slot`-th pin of a declaration.
pub open spec fn pin_context(d: DeclarationView, slot: int) -> Seq<char> {
    subject(d) + pin_field(d, slot)
}

/// One step of the plan, borrowed from the layout.
pub enum Declaration<'a> {
    PwmTimer,
    Bus(&'a I2cInfo),
    DigitalIn(&'a DigitalIO),
    DigitalOut(&'a DigitalIO),
    Motor(&'a Motor),
    MotorGroup(&'a MotorGroup),
    Hcsr04(&'a HCSR04),
    Sensor(SensorFamily, &'a BasicI2c),
}

impl<'a> View for Declaration<'a> {
    type V = DeclarationView;

    open spec fn view(&self) -> DeclarationView {
        match self {
            Declaration::PwmTimer => DeclarationView::PwmTimer,
            Declaration::Bus(bus) => DeclarationView::Bus { sda: bus.gpio_sda, scl: bus.gpio_scl },
            Declaration::DigitalIn(entry) => digital_in_view(**entry),
            Declaration::DigitalOut(entry) => digital_out_view(**entry),
            Declaration::Motor(entry) => motor_view(**entry),
            Declaration::MotorGroup(entry) => motor_group_view(**entry),
            Declaration::Hcsr04(entry) => hcsr04_view(**entry),
            Declaration::Sensor(family, entry) => sensor_view(*family, **entry),
        }
    }
}

/// Looks up the `i`-th step of the plan of `layout`.
pub fn nth_declaration<'a>(layout: &'a PeripheralsConfig, i: u128) -> (found: Option<
    Declaration<'a>,
>)
    ensures
        match found {
            Some(d) => declaration(layout, i as int) == Some(d@),
            None => declaration(layout, i as int) is None,
        },
{
    if i == 0 {
        return Some(Declaration::PwmTimer);
    }
    let mut rest: u128 = i - 1;
    match &layout.i2c {
        Some(bus) => {
            if rest == 0 {
                return Some(Declaration::Bus(bus));
            }
            rest = rest - 1;
        },
        None => {},
    }
    if rest < layout.digital_ins.len() as u128 {
        return Some(Declaration::DigitalIn(&layout.digital_ins[rest as usize]));
    }
    rest = rest - layout.digital_ins.len() as u128;
    if rest < layout.digital_outs.len() as u128 {
        return Some(Declaration::DigitalOut(&layout.digital_outs[rest as usize]));
    }
    rest = rest - layout.digital_outs.len() as u128;
    if rest < layout.motors.len() as u128 {
        return Some(Declaration::Motor(&layout.motors[rest as usize]));
    }
    rest = rest - layout.motors.len() as u128;
    if rest < layout.motor_groups.len() as u128 {
        return Some(Declaration::MotorGroup(&layout.motor_groups[rest as usize]));
    }
    rest = rest - layout.motor_groups.len() as u128;
    if rest < layout.hcsr04s.len() as u128 {
        return Some(Declaration::Hcsr04(&layout.hcsr04s[rest as usize]));
    }
    rest = rest - layout.hcsr04s.len() as u128;
    if rest < layout.max30205s.len() as u128 {
        return Some(Declaration::Sensor(SensorFamily::Max30205, &layout.max30205s[rest as usize]));
    }
    rest = rest - layout.max30205s.len() as u128;
    if rest < layout.is31fl3741s.len() as u128 {
        return Some(
            Declaration::Sensor(SensorFamily::Is31fl3741, &layout.is31fl3741s[rest as usize]),
        );
    }
    rest = rest - layout.is31fl3741s.len() as u128;
    if rest < layout.bmp388s.len() as u128 {
        return Some(Declaration::Sensor(SensorFamily::Bmp388, &layout.bmp388s[rest as usize]));
    }
    rest = rest - layout.bmp388s.len() as u128;
    if rest < layout.lis3dhs.len() as u128 {
        return Some(Declaration::Sensor(SensorFamily::Lis3dh, &layout.lis3dhs[rest as usize]));
    }
    rest = rest - layout.lis3dhs.len() as u128;
    if rest < layout.veml7700s.len() as u128 {
        return Some(Declaration::Sensor(SensorFamily::Veml7700, &layout.veml7700s[rest as usize]));
    }
    None
}

impl<'a> Declaration<'a> {
    /// The `slot`-th pin that the declaration claims, with its use.
    pub fn pin(&self, slot: usize) -> (pin: Option<(PinNumber, PinUse)>)
        ensures
            match pin {
                Some(p) => slot < pin_plan(self@).len() && pin_plan(self@)[slot as int] == p,
                None => slot >= pin_plan(self@).len(),
            },
    {
        match self {
            Declaration::Bus(bus) => if slot == 0 {
                Some((bus.gpio_sda, PinUse::Bidirectional))
            } else if slot == 1 {
                Some((bus.gpio_scl, PinUse::Bidirectional))
            } else {
                None
            },
            Declaration::DigitalIn(entry) => if slot == 0 {
                Some((entry.gpio, PinUse::Input))
            } else {
                None
            },
            Declaration::DigitalOut(entry) => if slot == 0 {
                Some((entry.gpio, PinUse::Output))
            } else {
                None
            },
            Declaration::Motor(entry) => if slot == 0 {
                Some((entry.gpio_positive, PinUse::Pwm))
            } else if slot == 1 {
                Some((entry.gpio_negative, PinUse::Pwm))
            } else {
                None
            },
            Declaration::Hcsr04(entry) => if slot == 0 {
                Some((entry.gpio_trigger, PinUse::Output))
            } else if slot == 1 {
                Some((entry.gpio_echo, PinUse::Input))
            } else {
                None
            },
            _ => None,
        }
    }

    /// The name of the declaration as errors give it.
    pub fn subject(&self) -> (text: String)
        ensures
            text@ == subject(self@),
    {
        match self {
            Declaration::PwmTimer => String::from_str("PWM"),
            Declaration::Bus(_) => String::from_str("I2C"),
            Declaration::DigitalIn(entry) => join("digital_ins ", entry.name.as_str()),
            Declaration::DigitalOut(entry) => join("digital_outs ", entry.name.as_str()),
            Declaration::Motor(entry) => join("motors ", entry.name.as_str()),
            Declaration::MotorGroup(entry) => join("motor_groups ", entry.name.as_str()),
            Declaration::Hcsr04(entry) => join("hcsr04s ", entry.name.as_str()),
            Declaration::Sensor(family, entry) => {
                let key = match family {
                    SensorFamily::Max30205 => "max30205s",
                    SensorFamily::Is31fl3741 => "is31fl3741s",
                    SensorFamily::Bmp388 => "bmp388s",
                    SensorFamily::Lis3dh => "lis3dhs",
                    SensorFamily::Veml7700 => "veml7700s",
                };
                let mut text = join(key, " ");
                text.append(entry.name.as_str());
                text
            },
        }
    }

    /// The name of the `slot`-th pin of the declaration as errors give it.
    pub fn pin_context(&self, slot: usize) -> (text: String)
        ensures
            text@ == pin_context(self@, slot as int),
    {
        let field = match self {
            Declaration::Bus(_) => if slot == 0 {
                " gpio_sda"
            } else {
                " gpio_scl"
            },
            Declaration::Motor(_) => if slot == 0 {
                " gpio_positive"
            } else {
                " gpio_negative"
            },
            Declaration::Hcsr04(_) => if slot == 0 {
                " gpio_trigger"
            } else {
                " gpio_echo"
            },
            _ => " gpio",
        };
        let mut text = self.subject();
        text.append(field);
        text
    }
}

} // verus!
