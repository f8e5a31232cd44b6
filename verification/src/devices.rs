//! What each kind of device does with the values it is given: the arithmetic and the
//! order of the hardware writes, without the hardware.

use crate::ledger::PinNumber;
use std::rc::Rc;
use vstd::prelude::*;

verus! {

/// Electrical level of a digital pin.
#[derive(Debug, Clone, Copy, PartialEq, Eq, Structural)]
pub enum Level {
    Low,
    High,
}

/// A digital input, optionally inverted.
#[derive(Debug, Clone, Copy, PartialEq, Eq, Structural)]
pub struct DigitalInController {
    pub pin: PinNumber,
    pub negated: bool,
}

impl DigitalInController {
    /// The logical value of the input when the pin reads high (`pin_high`) or low.
    pub fn get_value(&self, pin_high: bool) -> (value: bool)
        ensures
            value == (pin_high != self.negated),
    {
        pin_high != self.negated
    }
}

/// A digital output, optionally inverted.
#[derive(Debug, Clone, Copy, PartialEq, Eq, Structural)]
pub struct DigitalOutController {
    pub pin: PinNumber,
    pub negated: bool,
}

impl DigitalOutController {
    /// The level to drive so that the output shows the logical `value`.
    pub fn set_value(&self, value: bool) -> (level: Level)
        ensures
            level == Level::High <==> (value != self.negated),
    {
        if value != self.negated {
            Level::High
        } else {
            Level::Low
        }
    }
}

/// Largest magnitude of a motor power.
pub const MAX_POWER: i64 = 255;

/// `power` limited to `-MAX_POWER..=MAX_POWER`.
pub open spec fn clamped_power(power: int) -> int {
    if power < -MAX_POWER {
        -(MAX_POWER as int)
    } else if power > MAX_POWER {
        MAX_POWER as int
    } else {
        power
    }
}

/// The duty of the active side for `power` on a PWM output whose full duty is `max_duty`:
/// the magnitude of the clamped power, scaled to the duty range and rounded to the
/// nearest whole step.
pub open spec fn motor_duty(power: int, max_duty: nat) -> nat {
    let p = clamped_power(power);
    let magnitude = if p < 0 {
        -p
    } else {
        p
    };
    ((2 * magnitude * max_duty + MAX_POWER) / (2 * MAX_POWER)) as nat
}

/// One write of a duty to a PWM channel.
#[derive(Debug, Clone, Copy, PartialEq, Eq, Structural)]
pub struct DutyWrite {
    pub channel: u8,
    pub duty: u32,
}

/// A motor on two PWM channels, one per direction.
#[derive(Debug, Clone, Copy, PartialEq, Eq, Structural)]
pub struct MotorController {
    pub positive: u8,
    pub negative: u8,
}

impl MotorController {
    /// The two writes that apply `power`, in the order in which they must be made: first
    /// the side that is to rest is set to zero, then the active side gets its duty. A
    /// power of zero or more drives the positive side, a negative one the negative side.
    pub fn set_power(&self, power: i64, max_duty: u32) -> (writes: (DutyWrite, DutyWrite))
        ensures
            writes.0.duty == 0,
            writes.1.duty == motor_duty(power as int, max_duty as nat),
            writes.1.duty <= max_duty,
            power >= 0 ==> writes.0.channel == self.negative && writes.1.channel == self.positive,
            power < 0 ==> writes.0.channel == self.positive && writes.1.channel == self.negative,
    {
        let clamped: i64 = if power < -MAX_POWER {
            -MAX_POWER
        } else if power > MAX_POWER {
            MAX_POWER
        } else {
            power
        };
        let magnitude: u64 = if clamped < 0 {
            (-clamped) as u64
        } else {
            clamped as u64
        };
        assert(magnitude * max_duty <= 255 * max_duty) by (nonlinear_arith)
            requires
                magnitude <= 255,
        ;
        let product: u64 = magnitude * (max_duty as u64);
        assert(2 * magnitude * max_duty == 2 * product) by (nonlinear_arith)
            requires
                product == magnitude * max_duty,
        ;
        let duty: u64 = (2 * product + 255) / 510;
        if power >= 0 {
            (
                DutyWrite { channel: self.negative, duty: 0 },
                DutyWrite { channel: self.positive, duty: duty as u32 },
            )
        } else {
            (
                DutyWrite { channel: self.positive, duty: 0 },
                DutyWrite { channel: self.negative, duty: duty as u32 },
            )
        }
    }
}

/// How long the trigger of a rangefinder is held high, in microseconds.
pub const TRIGGER_PULSE_US: u32 = 10;

/// After how many microseconds a measurement of the echo is given up.
pub const ECHO_TIMEOUT_US: u64 = 50_000;

/// Hundred-thousandths of a centimetre that sound travels to an obstacle and back per
/// microsecond of echo, halved for the round trip.
pub const ECHO_SCALE: u64 = 1715;

/// An ultrasonic rangefinder on a trigger pin and an echo pin.
#[derive(Debug, Clone, Copy, PartialEq, Eq, Structural)]
pub struct HCSR04Controller {
    pub trigger: PinNumber,
    pub echo: PinNumber,
}

/// A measured distance, held as the time that the echo took.
#[derive(Debug, Clone, Copy, PartialEq, Eq, Structural)]
pub struct Distance {
    /// The length of the echo in microseconds; zero where none was measured.
    pub echo_micros: u64,
}

impl Distance {
    /// The distance in hundred-thousandths of a centimetre: `ECHO_SCALE` for every
    /// microsecond of echo.
    pub fn hundred_thousandths(&self) -> (distance: u128)
        ensures
            distance == ECHO_SCALE * self.echo_micros,
    {
        (ECHO_SCALE as u128) * (self.echo_micros as u128)
    }
}

impl HCSR04Controller {
    /// The distance for a measured echo of `pulse` microseconds; zero where the
    /// measurement timed out.
    pub fn get_distance(&self, pulse: Option<u64>) -> (distance: Distance)
        ensures
            distance.echo_micros == (match pulse {
                Some(micros) => micros,
                None => 0,
            }),
    {
        match pulse {
            Some(micros) => Distance { echo_micros: micros },
            None => Distance { echo_micros: 0 },
        }
    }
}

/// Progress of one pulse measurement on an input pin.
#[derive(Debug, Clone, Copy, PartialEq, Eq, Structural)]
pub enum PulseMeter {
    /// The pin has not shown the awaited level yet.
    Waiting,
    /// The pin shows the awaited level since `since` microseconds after the start.
    Timing { since: u64 },
    /// The measurement is over: the pulse's length, or nothing on a timeout.
    Done { pulse: Option<u64> },
}

impl PulseMeter {
    /// The meter after it has seen one more sample: whether the pin was at the awaited
    /// level, read `now` microseconds after the start of the measurement.
    pub open spec fn after(self, at_level: bool, now: u64, timeout: u64) -> PulseMeter {
        match self {
            PulseMeter::Waiting => if at_level {
                PulseMeter::Timing { since: now }
            } else if now > timeout {
                PulseMeter::Done { pulse: None }
            } else {
                PulseMeter::Waiting
            },
            PulseMeter::Timing { since } => if !at_level {
                PulseMeter::Done {
                    pulse: Some(
                        if now >= since {
                            (now - since) as u64
                        } else {
                            0
                        },
                    ),
                }
            } else if now > timeout {
                PulseMeter::Done { pulse: None }
            } else {
                self
            },
            PulseMeter::Done { .. } => self,
        }
    }

    /// The meter after a whole run of samples, oldest first.
    pub open spec fn after_all(self, samples: Seq<(bool, u64)>, timeout: u64) -> PulseMeter
        decreases samples.len(),
    {
        if samples.len() == 0 {
            self
        } else {
            self.after(samples[0].0, samples[0].1, timeout).after_all(samples.skip(1), timeout)
        }
    }

    /// A meter at the start of a measurement.
    pub fn new() -> (meter: PulseMeter)
        ensures
            meter == PulseMeter::Waiting,
    {
        PulseMeter::Waiting
    }

    /// Feeds one sample to the meter. While the result is not `Done` the caller samples
    /// again.
    pub fn observe(&mut self, at_level: bool, now: u64, timeout: u64)
        ensures
            *final(self) == old(self).after(at_level, now, timeout),
    {
        let next = match *self {
            PulseMeter::Waiting => if at_level {
                PulseMeter::Timing { since: now }
            } else if now > timeout {
                PulseMeter::Done { pulse: None }
            } else {
                PulseMeter::Waiting
            },
            PulseMeter::Timing { since } => if !at_level {
                PulseMeter::Done {
                    pulse: Some(
                        if now >= since {
                            now - since
                        } else {
                            0
                        },
                    ),
                }
            } else if now > timeout {
                PulseMeter::Done { pulse: None }
            } else {
                PulseMeter::Timing { since }
            },
            PulseMeter::Done { pulse } => PulseMeter::Done { pulse },
        };
        *self = next;
    }
}

/// Samples that all show the pin at the level `at_level` (or all away from it), none of
/// them read after the timeout.
pub open spec fn steady(samples: Seq<(bool, u64)>, at_level: bool, timeout: u64) -> bool {
    forall|i: int|
        0 <= i < samples.len() ==> (#[trigger] samples[i]).0 == at_level && samples[i].1 <= timeout
}

proof fn lemma_waiting_stays(samples: Seq<(bool, u64)>, timeout: u64)
    requires
        steady(samples, false, timeout),
    ensures
        PulseMeter::Waiting.after_all(samples, timeout) == PulseMeter::Waiting,
    decreases samples.len(),
{
    if samples.len() > 0 {
        assert(samples[0].0 == false);
        assert forall|i: int| 0 <= i < samples.skip(1).len() implies (#[trigger] samples.skip(
            1,
        )[i]).0 == false && samples.skip(1)[i].1 <= timeout by {
            assert(samples.skip(1)[i] == samples[i + 1]);
        }
        lemma_waiting_stays(samples.skip(1), timeout);
    }
}

proof fn lemma_timing_stays(since: u64, samples: Seq<(bool, u64)>, timeout: u64)
    requires
        steady(samples, true, timeout),
    ensures
        (PulseMeter::Timing { since }).after_all(samples, timeout) == (PulseMeter::Timing {
            since,
        }),
    decreases samples.len(),
{
    if samples.len() > 0 {
        assert(samples[0].0 == true);
        assert forall|i: int| 0 <= i < samples.skip(1).len() implies (#[trigger] samples.skip(
            1,
        )[i]).0 == true && samples.skip(1)[i].1 <= timeout by {
            assert(samples.skip(1)[i] == samples[i + 1]);
        }
        lemma_timing_stays(since, samples.skip(1), timeout);
    }
}

proof fn lemma_after_all_concat(
    meter: PulseMeter,
    first: Seq<(bool, u64)>,
    second: Seq<(bool, u64)>,
    timeout: u64,
)
    ensures
        meter.after_all(first + second, timeout) == meter.after_all(first, timeout).after_all(
            second,
            timeout,
        ),
    decreases first.len(),
{
    if first.len() == 0 {
        assert(first + second =~= second);
    } else {
        assert((first + second)[0] == first[0]);
        assert((first + second).skip(1) =~= first.skip(1) + second);
        lemma_after_all_concat(
            meter.after(first[0].0, first[0].1, timeout),
            first.skip(1),
            second,
            timeout,
        );
    }
}

/// A clean echo is measured exactly: where the pin rests until it rises at `rise`, stays
/// up, and falls at `fall`, with no sample before the fall read after the timeout, the
/// meter ends with the pulse `fall - rise`, and the distance is `ECHO_SCALE` times that.
pub proof fn law_clean_pulse_is_measured(
    resting: Seq<(bool, u64)>,
    rise: u64,
    held: Seq<(bool, u64)>,
    fall: u64,
    timeout: u64,
)
    requires
        steady(resting, false, timeout),
        steady(held, true, timeout),
        rise <= fall,
    ensures
        PulseMeter::Waiting.after_all(
            resting + seq![(true, rise)] + held + seq![(false, fall)],
            timeout,
        ) == (PulseMeter::Done { pulse: Some((fall - rise) as u64) }),
{
    let up = seq![(true, rise)];
    let down = seq![(false, fall)];
    let timing = PulseMeter::Timing { since: rise };
    lemma_after_all_concat(PulseMeter::Waiting, resting + up + held, down, timeout);
    lemma_after_all_concat(PulseMeter::Waiting, resting + up, held, timeout);
    lemma_after_all_concat(PulseMeter::Waiting, resting, up, timeout);
    lemma_waiting_stays(resting, timeout);
    assert(up.skip(1) =~= Seq::<(bool, u64)>::empty());
    assert(PulseMeter::Waiting.after_all(up, timeout) == timing) by {
        assert(up[0] == (true, rise));
        assert(timing.after_all(up.skip(1), timeout) == timing);
    }
    lemma_timing_stays(rise, held, timeout);
    assert(down.skip(1) =~= Seq::<(bool, u64)>::empty());
    assert(timing.after_all(down, timeout) == (PulseMeter::Done {
        pulse: Some((fall - rise) as u64),
    })) by {
        assert(down[0] == (false, fall));
        let done = timing.after(false, fall, timeout);
        assert(done.after_all(down.skip(1), timeout) == done);
    }
}

/// A measurement that sees no echo gives up: once a sample away from the awaited level
/// is read after the timeout, a waiting meter ends without a pulse, and so does a timing
/// one on a sample at the level read after the timeout.
pub proof fn law_timeout_gives_no_pulse(since: u64, now: u64, timeout: u64)
    requires
        now > timeout,
    ensures
        PulseMeter::Waiting.after(false, now, timeout) == (PulseMeter::Done { pulse: None }),
        (PulseMeter::Timing { since }).after(true, now, timeout) == (PulseMeter::Done {
            pulse: None,
        }),
{
}

/// A bus handle that several drivers hold at once: every clone refers to the same bus.
pub struct SharedI2c<T>(Rc<T>);

impl<T> View for SharedI2c<T> {
    type V = T;

    /// The bus that the handle refers to.
    closed spec fn view(&self) -> T {
        *self.0
    }
}

/// Clones a reference-counted pointer with `Rc::clone`, which yields another pointer to
/// the same value.
#[verifier::external_body]
fn another_pointer<T>(pointer: &Rc<T>) -> (copy: Rc<T>)
    ensures
        *copy == **pointer,
{
    Rc::clone(pointer)
}

impl<T> SharedI2c<T> {
    /// Wraps a bus so that it can be shared.
    pub fn new(i2c: T) -> (shared: SharedI2c<T>)
        ensures
            shared@ == i2c,
    {
        SharedI2c(Rc::new(i2c))
    }

    /// The bus behind the handle.
    pub fn bus(&self) -> (bus: &T)
        ensures
            *bus == self@,
    {
        &*self.0
    }
}

impl<T> Clone for SharedI2c<T> {
    fn clone(&self) -> (shared: SharedI2c<T>)
        ensures
            shared@ == self@,
    {
        SharedI2c(another_pointer(&self.0))
    }
}

} // verus!
