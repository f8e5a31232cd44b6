//! The peripheral broker: it walks the binding plan of a layout, asks for hardware work
//! one request at a time, and turns the answers into bound devices and collected errors.
//!
//! The broker never touches hardware. Its caller performs each [`Request`] and hands the
//! outcome to [`Binder::respond`]; the broker decides what that outcome means.

use crate::devices::{DigitalInController, DigitalOutController, HCSR04Controller, MotorController};
use crate::dispatch::Peripherals;
use crate::layout::PeripheralsConfig;
use crate::ledger::{
    fault_error, Fault, FaultView, GpioManager, PeripheralError, PeripheralErrorView, PinNumber,
    PwmManager, PWM_CHANNELS,
};
use crate::plan::{
    declaration, declared_name, finishes_on_hardware, lemma_plan_bounded, lemma_plan_extent,
    nth_declaration,
    pin_context, pin_plan, plan_len, subject, Declaration, DeclarationView, PinUse, SensorFamily,
};
use vstd::prelude::*;

verus! {

/// A bound device: what it is made of, as the dispatcher needs it.
#[derive(Debug)]
pub enum Device {
    DigitalIn(DigitalInController),
    DigitalOut(DigitalOutController),
    Motor(MotorController),
    /// The motors of a group, in the order in which the group names them.
    MotorGroup(Vec<MotorController>),
    Hcsr04(HCSR04Controller),
    Sensor { family: SensorFamily, address: u8 },
}

/// Mathematical value of a [`Device`].
pub enum DeviceView {
    DigitalIn(DigitalInController),
    DigitalOut(DigitalOutController),
    Motor(MotorController),
    MotorGroup(Seq<MotorController>),
    Hcsr04(HCSR04Controller),
    Sensor { family: SensorFamily, address: u8 },
}

impl View for Device {
    type V = DeviceView;

    open spec fn view(&self) -> DeviceView {
        match self {
            Device::DigitalIn(c) => DeviceView::DigitalIn(*c),
            Device::DigitalOut(c) => DeviceView::DigitalOut(*c),
            Device::Motor(c) => DeviceView::Motor(*c),
            Device::MotorGroup(members) => DeviceView::MotorGroup(members@),
            Device::Hcsr04(c) => DeviceView::Hcsr04(*c),
            Device::Sensor { family, address } => DeviceView::Sensor {
                family: *family,
                address: *address,
            },
        }
    }
}

/// A device under its name, with the pins that it owns.
#[derive(Debug)]
pub struct Bound {
    pub name: String,
    pub device: Device,
    pub pins: Vec<PinNumber>,
}

/// Mathematical value of a [`Bound`].
pub struct BoundView {
    pub name: Seq<char>,
    pub device: DeviceView,
    pub pins: Seq<PinNumber>,
}

impl DeepView for Bound {
    type V = BoundView;

    open spec fn deep_view(&self) -> BoundView {
        BoundView { name: self.name@, device: self.device@, pins: self.pins@ }
    }
}

/// An error met while binding, with the declaration or pin that it is about.
#[derive(Debug)]
pub struct InitError {
    pub context: String,
    pub error: PeripheralError,
}

/// Mathematical value of an [`InitError`].
pub struct InitErrorView {
    pub context: Seq<char>,
    pub error: PeripheralErrorView,
}

impl DeepView for InitError {
    type V = InitErrorView;

    open spec fn deep_view(&self) -> InitErrorView {
        InitErrorView { context: self.context@, error: self.error.deep_view() }
    }
}

/// Hardware work that the broker asks for.
#[derive(Debug, Clone, Copy, PartialEq, Eq, Structural)]
pub enum Request {
    /// Nothing is left to do.
    Done,
    /// Start the timer that the PWM channels share.
    OpenTimer,
    /// Find out whether `pin` can serve as `usage`, without keeping it configured.
    Probe { pin: PinNumber, usage: PinUse },
    /// Configure `pin` as a digital input.
    OpenInput { pin: PinNumber },
    /// Configure `pin` as a digital output.
    OpenOutput { pin: PinNumber },
    /// Attach `pin` to the PWM channel `channel`.
    OpenPwm { pin: PinNumber, channel: u8 },
    /// Start the shared bus on its two pins.
    OpenBus { sda: PinNumber, scl: PinNumber },
    /// Set up a sensor on the shared bus. `ticket` is the place that the device gets in
    /// the list of bound devices if it is bound.
    OpenSensor { family: SensorFamily, address: u8, ticket: usize },
}

/// Which kind of answer the broker waits for.
#[derive(Debug, Clone, Copy, PartialEq, Eq, Structural)]
pub enum Awaiting {
    /// None: the plan is finished.
    Nothing,
    /// The answer to a `Probe` of the current pin.
    Probe,
    /// The answer to an `OpenInput`, `OpenOutput` or `OpenPwm` of the current pin.
    Open,
    /// The answer to the request that ends the current declaration.
    Finish,
}

/// The first motor named `name` among `bound[from..]`.
pub open spec fn find_motor(bound: Seq<BoundView>, name: Seq<char>, from: int) -> Option<
    MotorController,
>
    decreases bound.len() - from,
{
    if from < 0 || from >= bound.len() {
        None
    } else if bound[from].name == name && bound[from].device is Motor {
        Some(bound[from].device->Motor_0)
    } else {
        find_motor(bound, name, from + 1)
    }
}

/// The motors that the first `n` of `members` name, in order, or the first of those names
/// that names no bound motor.
pub open spec fn resolved(bound: Seq<BoundView>, members: Seq<Seq<char>>, n: int) -> Result<
    Seq<MotorController>,
    Seq<char>,
>
    decreases n,
{
    if n <= 0 {
        Ok(Seq::empty())
    } else {
        match resolved(bound, members, n - 1) {
            Err(unknown) => Err(unknown),
            Ok(motors) => match find_motor(bound, members[n - 1], 0) {
                None => Err(members[n - 1]),
                Some(motor) => Ok(motors.push(motor)),
            },
        }
    }
}

/// Whether some bound device has the name `name`.
pub open spec fn name_bound(bound: Seq<BoundView>, name: Seq<char>) -> bool {
    exists|i: int| 0 <= i < bound.len() && (#[trigger] bound[i]).name == name
}

/// The `i`-th of the channels claimed for a motor, or channel 0 where fewer were claimed.
pub open spec fn channel_at(channels: Seq<u8>, i: int) -> u8 {
    if 0 <= i < channels.len() {
        channels[i]
    } else {
        0
    }
}

/// The device that a declaration becomes once all its hardware is set up. `channels` are
/// the PWM channels claimed for it and `bound` the devices bound before it.
pub open spec fn device_of(d: DeclarationView, channels: Seq<u8>, bound: Seq<BoundView>) -> Result<
    DeviceView,
    Seq<char>,
> {
    match d {
        DeclarationView::DigitalIn { gpio, negated, .. } => Ok(
            DeviceView::DigitalIn(DigitalInController { pin: gpio, negated }),
        ),
        DeclarationView::DigitalOut { gpio, negated, .. } => Ok(
            DeviceView::DigitalOut(DigitalOutController { pin: gpio, negated }),
        ),
        DeclarationView::Motor { .. } => Ok(
            DeviceView::Motor(
                MotorController {
                    positive: channel_at(channels, 0),
                    negative: channel_at(channels, 1),
                },
            ),
        ),
        DeclarationView::MotorGroup { members, .. } => match resolved(
            bound,
            members,
            members.len() as int,
        ) {
            Ok(motors) => Ok(DeviceView::MotorGroup(motors)),
            Err(unknown) => Err(unknown),
        },
        DeclarationView::Hcsr04 { gpio_trigger, gpio_echo, .. } => Ok(
            DeviceView::Hcsr04(HCSR04Controller { trigger: gpio_trigger, echo: gpio_echo }),
        ),
        DeclarationView::Sensor { family, address, .. } => Ok(
            DeviceView::Sensor { family, address },
        ),
        _ => Err(Seq::empty()),
    }
}

/// The state of the broker as a mathematical value.
pub struct BinderView {
    /// Which step of the plan is being worked on.
    pub index: int,
    /// How many pins of that step are fully set up.
    pub slot: int,
    pub awaiting: Awaiting,
    /// The pins claimed for that step so far.
    pub held: Seq<PinNumber>,
    /// The PWM channels claimed for that step so far.
    pub channels: Seq<u8>,
    /// The pin ledger: each known pin with `true` while it is available.
    pub pins: Map<PinNumber, bool>,
    /// How many PWM channels are handed out, once the timer runs.
    pub pwm: Option<nat>,
    /// Whether the shared bus runs.
    pub bus: bool,
    pub bound: Seq<BoundView>,
    pub errors: Seq<InitErrorView>,
}

impl BinderView {
    /// The state before anything is bound: all pins available, no timer, no bus.
    pub open spec fn initial() -> BinderView {
        BinderView {
            index: 0,
            slot: 0,
            awaiting: Awaiting::Nothing,
            held: Seq::empty(),
            channels: Seq::empty(),
            pins: GpioManager::fresh(),
            pwm: None,
            bus: false,
            bound: Seq::empty(),
            errors: Seq::empty(),
        }
    }

    /// Adds an error to the collection.
    pub open spec fn report(self, context: Seq<char>, error: PeripheralErrorView) -> BinderView {
        BinderView { errors: self.errors.push(InitErrorView { context, error }), ..self }
    }

    /// Leaves the current step of the plan. What was claimed for it stays taken.
    pub open spec fn skip(self) -> BinderView {
        BinderView {
            index: self.index + 1,
            slot: 0,
            awaiting: Awaiting::Nothing,
            held: Seq::empty(),
            channels: Seq::empty(),
            ..self
        }
    }

    /// Claims the next pin of `d` in the ledger. A pin that the ledger refuses ends the
    /// step with the ledger's error; a granted one is to be probed.
    pub open spec fn claim(self, d: DeclarationView) -> BinderView {
        let pin = pin_plan(d)[self.slot].0;
        match GpioManager::verdict(self.pins, pin) {
            Some(refusal) => self.report(pin_context(d, self.slot), refusal).skip(),
            None => BinderView {
                pins: GpioManager::after_take(self.pins, pin),
                held: self.held.push(pin),
                awaiting: Awaiting::Probe,
                ..self
            },
        }
    }

    /// Binds `device` under `name`, unless a device of that name is bound already, and
    /// leaves the step.
    pub open spec fn bind(self, d: DeclarationView, name: Seq<char>, device: DeviceView)
        -> BinderView {
        if name_bound(self.bound, name) {
            self.report(subject(d), PeripheralErrorView::NameAlreadyTaken { name }).skip()
        } else {
            BinderView {
                bound: self.bound.push(BoundView { name, device, pins: self.held }),
                ..self
            }.skip()
        }
    }

    /// Ends the step `d` after all its hardware answered well.
    pub open spec fn conclude(self, d: DeclarationView) -> BinderView {
        match d {
            DeclarationView::PwmTimer => BinderView { pwm: Some(0nat), ..self }.skip(),
            DeclarationView::Bus { .. } => BinderView { bus: true, ..self }.skip(),
            _ => match device_of(d, self.channels, self.bound) {
                Err(unknown) => self.report(
                    subject(d),
                    PeripheralErrorView::NameUnknown { name: unknown },
                ).skip(),
                Ok(device) => self.bind(d, declared_name(d)->0, device),
            },
        }
    }

    /// Goes on with `d` after `slot` of its pins are set up: the next pin, or the request
    /// that ends the step, or its end.
    pub open spec fn proceed(self, d: DeclarationView) -> BinderView {
        if self.slot < pin_plan(d).len() {
            self.claim(d)
        } else if finishes_on_hardware(d) {
            BinderView { awaiting: Awaiting::Finish, ..self }
        } else {
            self.conclude(d)
        }
    }

    /// Starts on the step `d`. A motor without a running timer and a sensor without a
    /// running bus end at once with an error.
    pub open spec fn begin(self, d: DeclarationView) -> BinderView {
        if d is Motor && self.pwm is None {
            self.report(subject(d), PeripheralErrorView::PwmOutOfChannels).skip()
        } else if d is Sensor && !self.bus {
            self.report(subject(d), PeripheralErrorView::I2cNotConfigured).skip()
        } else {
            self.proceed(d)
        }
    }

    /// What the answer `outcome` to the pending request means for the step `d`.
    pub open spec fn react(self, d: DeclarationView, outcome: Result<(), FaultView>) -> BinderView {
        match self.awaiting {
            Awaiting::Nothing => self,
            Awaiting::Probe => match outcome {
                Err(_) => self.report(
                    pin_context(d, self.slot),
                    PeripheralErrorView::PinInsufficientCapability { pin: pin_plan(d)[self.slot].0 },
                ).skip(),
                Ok(_) => match pin_plan(d)[self.slot].1 {
                    PinUse::Bidirectional => BinderView { slot: self.slot + 1, ..self }.proceed(d),
                    PinUse::Pwm => if self.pwm is Some && self.pwm->0 < PWM_CHANNELS {
                        BinderView {
                            channels: self.channels.push(self.pwm->0 as u8),
                            pwm: Some((self.pwm->0 + 1) as nat),
                            awaiting: Awaiting::Open,
                            ..self
                        }
                    } else {
                        self.report(
                            pin_context(d, self.slot),
                            PeripheralErrorView::PwmOutOfChannels,
                        ).skip()
                    },
                    _ => BinderView { awaiting: Awaiting::Open, ..self },
                },
            },
            Awaiting::Open => match outcome {
                Err(fault) => self.report(pin_context(d, self.slot), fault_error(fault)).skip(),
                Ok(_) => BinderView { slot: self.slot + 1, ..self }.proceed(d),
            },
            Awaiting::Finish => match outcome {
                Err(fault) => self.report(subject(d), fault_error(fault)).skip(),
                Ok(_) => self.conclude(d),
            },
        }
    }

    /// Works through the plan until a step needs the hardware or the plan ends.
    pub open spec fn settle(self, layout: &PeripheralsConfig) -> BinderView
        decreases plan_len(layout) - self.index,
    {
        if self.awaiting != Awaiting::Nothing {
            self
        } else {
            match declaration(layout, self.index) {
                None => self,
                Some(d) => {
                    let next = self.begin(d);
                    if next.index == self.index + 1 && self.index < plan_len(layout) {
                        next.settle(layout)
                    } else {
                        next
                    }
                },
            }
        }
    }

    /// The state in which binding starts.
    pub open spec fn start(layout: &PeripheralsConfig) -> BinderView {
        Self::initial().settle(layout)
    }

    /// The state after the answer `outcome` to the pending request.
    pub open spec fn respond(self, layout: &PeripheralsConfig, outcome: Result<(), FaultView>)
        -> BinderView {
        match declaration(layout, self.index) {
            Some(d) => self.react(d, outcome).settle(layout),
            None => self,
        }
    }

    /// The request that is pending in this state.
    pub open spec fn request(self, layout: &PeripheralsConfig) -> Request {
        match declaration(layout, self.index) {
            None => Request::Done,
            Some(d) => match self.awaiting {
                Awaiting::Nothing => Request::Done,
                Awaiting::Probe => Request::Probe {
                    pin: pin_plan(d)[self.slot].0,
                    usage: pin_plan(d)[self.slot].1,
                },
                Awaiting::Open => match pin_plan(d)[self.slot].1 {
                    PinUse::Input => Request::OpenInput { pin: pin_plan(d)[self.slot].0 },
                    PinUse::Pwm => Request::OpenPwm {
                        pin: pin_plan(d)[self.slot].0,
                        channel: channel_at(self.channels, self.slot),
                    },
                    _ => Request::OpenOutput { pin: pin_plan(d)[self.slot].0 },
                },
                Awaiting::Finish => match d {
                    DeclarationView::Bus { sda, scl } => Request::OpenBus { sda, scl },
                    DeclarationView::Sensor { family, address, .. } => Request::OpenSensor {
                        family,
                        address,
                        ticket: self.bound.len() as usize,
                    },
                    _ => Request::OpenTimer,
                },
            },
        }
    }

    /// Whether the state fits the plan of `layout`: the broker waits only for answers that
    /// the current step can give.
    pub open spec fn fits(self, layout: &PeripheralsConfig) -> bool {
        &&& 0 <= self.index <= plan_len(layout)
        &&& 0 <= self.slot
        &&& self.bound.len() <= self.index
        &&& self.pwm is Some ==> self.pwm->0 <= PWM_CHANNELS
        &&& match self.awaiting {
            Awaiting::Nothing => self.index == plan_len(layout) && self.slot == 0
                && self.held.len() == 0 && self.channels.len() == 0,
            Awaiting::Probe => declaration(layout, self.index) is Some && self.slot < pin_plan(
                declaration(layout, self.index)->0,
            ).len(),
            Awaiting::Open => declaration(layout, self.index) is Some && self.slot < pin_plan(
                declaration(layout, self.index)->0,
            ).len(),
            Awaiting::Finish => declaration(layout, self.index) is Some && finishes_on_hardware(
                declaration(layout, self.index)->0,
            ),
        }
    }
}


/// The answer of the hardware as a mathematical value.
pub open spec fn outcome_view(outcome: Result<(), Fault>) -> Result<(), FaultView> {
    match outcome {
        Ok(_) => Ok(()),
        Err(fault) => Err(fault.deep_view()),
    }
}

struct BinderState {
    index: u128,
    slot: usize,
    awaiting: Awaiting,
    held: Vec<PinNumber>,
    channels: Vec<u8>,
    pins: GpioManager,
    pwms: Option<PwmManager>,
    bus: bool,
    bound: Vec<Bound>,
    errors: Vec<InitError>,
}

impl View for BinderState {
    type V = BinderView;

    closed spec fn view(&self) -> BinderView {
        BinderView {
            index: self.index as int,
            slot: self.slot as int,
            awaiting: self.awaiting,
            held: self.held@,
            channels: self.channels@,
            pins: self.pins@,
            pwm: match self.pwms {
                Some(pool) => Some(pool@),
                None => None,
            },
            bus: self.bus,
            bound: self.bound.deep_view(),
            errors: self.errors.deep_view(),
        }
    }
}

fn push_error(errors: &mut Vec<InitError>, context: String, error: PeripheralError)
    ensures
        final(errors).deep_view() == old(errors).deep_view().push(
            InitErrorView { context: context@, error: error.deep_view() },
        ),
{
    errors.push(InitError { context, error });
    assert(errors.deep_view() =~= old(errors).deep_view().push(
        InitErrorView { context: context@, error: error.deep_view() },
    ));
}

fn push_bound(bound: &mut Vec<Bound>, entry: Bound)
    ensures
        final(bound).deep_view() == old(bound).deep_view().push(entry.deep_view()),
        final(bound)@.len() == old(bound)@.len() + 1,
{
    bound.push(entry);
    assert(bound.deep_view() =~= old(bound).deep_view().push(entry.deep_view()));
}

/// Looks for the motor named `name` among the bound devices.
fn lookup_motor(bound: &Vec<Bound>, name: &String) -> (found: Option<MotorController>)
    ensures
        found == find_motor(bound.deep_view(), name@, 0),
{
    let mut i: usize = 0;
    while i < bound.len()
        invariant
            i <= bound.len(),
            find_motor(bound.deep_view(), name@, 0) == find_motor(bound.deep_view(), name@, i as int),
        decreases bound.len() - i,
    {
        if bound[i].name == *name {
            match &bound[i].device {
                Device::Motor(motor) => {
                    return Some(*motor);
                },
                _ => {},
            }
        }
        i = i + 1;
    }
    None
}

/// Whether a device named `name` is bound.
fn lookup_name(bound: &Vec<Bound>, name: &String) -> (found: bool)
    ensures
        found == name_bound(bound.deep_view(), name@),
{
    let mut i: usize = 0;
    while i < bound.len()
        invariant
            i <= bound.len(),
            forall|j: int| 0 <= j < i ==> (#[trigger] bound.deep_view()[j]).name != name@,
        decreases bound.len() - i,
    {
        if bound[i].name == *name {
            assert(bound.deep_view()[i as int].name == name@);
            return true;
        }
        i = i + 1;
    }
    false
}

/// Resolves the members of a motor group to the motors bound under their names.
fn resolve_members(bound: &Vec<Bound>, members: &Vec<String>) -> (motors: Result<
    Vec<MotorController>,
    String,
>)
    ensures
        match motors {
            Ok(list) => resolved(bound.deep_view(), members.deep_view(), members@.len() as int)
                == Ok::<Seq<MotorController>, Seq<char>>(list@),
            Err(unknown) => resolved(bound.deep_view(), members.deep_view(), members@.len() as int)
                == Err::<Seq<MotorController>, Seq<char>>(unknown@),
        },
{
    let mut list: Vec<MotorController> = Vec::new();
    let mut i: usize = 0;
    while i < members.len()
        invariant
            i <= members.len(),
            resolved(bound.deep_view(), members.deep_view(), i as int) == Ok::<
                Seq<MotorController>,
                Seq<char>,
            >(list@),
        decreases members.len() - i,
    {
        assert(members.deep_view()[i as int] == members[i as int]@);
        match lookup_motor(bound, &members[i]) {
            Some(motor) => {
                list.push(motor);
            },
            None => {
                proof {
                    lemma_resolved_failure_stays(
                        bound.deep_view(),
                        members.deep_view(),
                        i as int + 1,
                        members@.len() as int,
                    );
                }
                return Err(members[i].clone());
            },
        }
        i = i + 1;
    }
    Ok(list)
}

/// Once a member is unknown, resolving more members reports the same one.
proof fn lemma_resolved_failure_stays(
    bound: Seq<BoundView>,
    members: Seq<Seq<char>>,
    n: int,
    m: int,
)
    requires
        0 <= n <= m,
        resolved(bound, members, n) is Err,
    ensures
        resolved(bound, members, m) == resolved(bound, members, n),
    decreases m - n,
{
    if n < m {
        lemma_resolved_failure_stays(bound, members, n, m - 1);
    }
}

impl BinderState {
    fn report(&mut self, context: String, error: PeripheralError)
        ensures
            final(self)@ == old(self)@.report(context@, error.deep_view()),
    {
        push_error(&mut self.errors, context, error);
    }

    fn skip(&mut self)
        requires
            old(self).index < u128::MAX,
        ensures
            final(self)@ == old(self)@.skip(),
    {
        self.index = self.index + 1;
        self.slot = 0;
        self.awaiting = Awaiting::Nothing;
        self.held = Vec::new();
        self.channels = Vec::new();
    }

    fn claim(&mut self, d: &Declaration)
        requires
            old(self).index < u128::MAX,
            old(self)@.slot < pin_plan(d@).len(),
        ensures
            final(self)@ == old(self)@.claim(d@),
    {
        match d.pin(self.slot) {
            Some((pin, _)) => match self.pins.take(pin) {
                Ok(_) => {
                    self.held.push(pin);
                    self.awaiting = Awaiting::Probe;
                },
                Err(refusal) => {
                    let context = d.pin_context(self.slot);
                    self.report(context, refusal);
                    self.skip();
                },
            },
            None => {},
        }
    }

    fn bind(&mut self, d: &Declaration, name: String, device: Device)
        requires
            old(self).index < u128::MAX,
        ensures
            final(self)@ == old(self)@.bind(d@, name@, device@),
    {
        if lookup_name(&self.bound, &name) {
            let context = d.subject();
            self.report(context, PeripheralError::NameAlreadyTaken { name });
            self.skip();
        } else {
            let mut pins: Vec<PinNumber> = Vec::new();
            std::mem::swap(&mut self.held, &mut pins);
            push_bound(&mut self.bound, Bound { name, device, pins });
            self.skip();
        }
    }

    fn channel(&self, i: usize) -> (channel: u8)
        ensures
            channel == channel_at(self@.channels, i as int),
    {
        if i < self.channels.len() {
            self.channels[i]
        } else {
            0
        }
    }

    fn conclude(&mut self, d: &Declaration)
        requires
            old(self).index < u128::MAX,
        ensures
            final(self)@ == old(self)@.conclude(d@),
    {
        match d {
            Declaration::PwmTimer => {
                self.pwms = Some(PwmManager::new());
                self.skip();
            },
            Declaration::Bus(_) => {
                self.bus = true;
                self.skip();
            },
            Declaration::DigitalIn(entry) => {
                let device = Device::DigitalIn(
                    DigitalInController { pin: entry.gpio, negated: entry.negated },
                );
                self.bind(d, entry.name.clone(), device);
            },
            Declaration::DigitalOut(entry) => {
                let device = Device::DigitalOut(
                    DigitalOutController { pin: entry.gpio, negated: entry.negated },
                );
                self.bind(d, entry.name.clone(), device);
            },
            Declaration::Motor(entry) => {
                let device = Device::Motor(
                    MotorController { positive: self.channel(0), negative: self.channel(1) },
                );
                self.bind(d, entry.name.clone(), device);
            },
            Declaration::MotorGroup(entry) => match resolve_members(&self.bound, &entry.members) {
                Ok(motors) => {
                    self.bind(d, entry.name.clone(), Device::MotorGroup(motors));
                },
                Err(unknown) => {
                    let context = d.subject();
                    self.report(context, PeripheralError::NameUnknown { name: unknown });
                    self.skip();
                },
            },
            Declaration::Hcsr04(entry) => {
                let device = Device::Hcsr04(
                    HCSR04Controller { trigger: entry.gpio_trigger, echo: entry.gpio_echo },
                );
                self.bind(d, entry.name.clone(), device);
            },
            Declaration::Sensor(family, entry) => {
                let device = Device::Sensor { family: *family, address: entry.i2c_addr };
                self.bind(d, entry.name.clone(), device);
            },
        }
    }

    fn proceed(&mut self, d: &Declaration)
        requires
            old(self).index < u128::MAX,
        ensures
            final(self)@ == old(self)@.proceed(d@),
    {
        match d.pin(self.slot) {
            Some(_) => {
                self.claim(d);
            },
            None => {
                let on_hardware = match d {
                    Declaration::PwmTimer => true,
                    Declaration::Bus(_) => true,
                    Declaration::Sensor(_, _) => true,
                    _ => false,
                };
                if on_hardware {
                    self.awaiting = Awaiting::Finish;
                } else {
                    self.conclude(d);
                }
            },
        }
    }

    fn begin(&mut self, d: &Declaration)
        requires
            old(self).index < u128::MAX,
        ensures
            final(self)@ == old(self)@.begin(d@),
    {
        let is_motor = match d {
            Declaration::Motor(_) => true,
            _ => false,
        };
        let is_sensor = match d {
            Declaration::Sensor(_, _) => true,
            _ => false,
        };
        if is_motor && self.pwms.is_none() {
            let context = d.subject();
            self.report(context, PeripheralError::PwmOutOfChannels);
            self.skip();
        } else if is_sensor && !self.bus {
            let context = d.subject();
            self.report(context, PeripheralError::I2cNotConfigured);
            self.skip();
        } else {
            self.proceed(d);
        }
    }

    fn take_channel(&mut self) -> (channel: Option<u8>)
        ensures
            match channel {
                Some(c) => old(self)@.pwm is Some && old(self)@.pwm->0 < PWM_CHANNELS && c == old(self)@.pwm->0 && final(self)@ == (BinderView {
                    pwm: Some((old(self)@.pwm->0 + 1) as nat),
                    ..old(self)@
                }),
                None => !(old(self)@.pwm is Some && old(self)@.pwm->0 < PWM_CHANNELS) && final(self)@ == old(self)@,
            },
    {
        match &mut self.pwms {
            Some(pool) => match pool.take() {
                Ok(c) => Some(c),
                Err(_) => None,
            },
            None => None,
        }
    }

    fn react(&mut self, d: &Declaration, outcome: Result<(), Fault>)
        requires
            old(self).index < u128::MAX,
            old(self)@.awaiting is Probe || old(self)@.awaiting is Open ==> old(self)@.slot
                < pin_plan(d@).len(),
        ensures
            final(self)@ == old(self)@.react(d@, outcome_view(outcome)),
    {
        match self.awaiting {
            Awaiting::Nothing => {},
            Awaiting::Probe => match d.pin(self.slot) {
                Some((pin, usage)) => match outcome {
                    Err(_) => {
                        let context = d.pin_context(self.slot);
                        self.report(context, PeripheralError::PinInsufficientCapability { pin });
                        self.skip();
                    },
                    Ok(_) => match usage {
                        PinUse::Bidirectional => {
                            self.slot = self.slot + 1;
                            self.proceed(d);
                        },
                        PinUse::Pwm => match self.take_channel() {
                            Some(c) => {
                                self.channels.push(c);
                                self.awaiting = Awaiting::Open;
                            },
                            None => {
                                let context = d.pin_context(self.slot);
                                self.report(context, PeripheralError::PwmOutOfChannels);
                                self.skip();
                            },
                        },
                        _ => {
                            self.awaiting = Awaiting::Open;
                        },
                    },
                },
                None => {},
            },
            Awaiting::Open => match outcome {
                Err(fault) => {
                    let context = d.pin_context(self.slot);
                    self.report(context, PeripheralError::from(fault));
                    self.skip();
                },
                Ok(_) => {
                    self.slot = self.slot + 1;
                    self.proceed(d);
                },
            },
            Awaiting::Finish => match outcome {
                Err(fault) => {
                    let context = d.subject();
                    self.report(context, PeripheralError::from(fault));
                    self.skip();
                },
                Ok(_) => {
                    self.conclude(d);
                },
            },
        }
    }

    fn settle(&mut self, layout: &PeripheralsConfig)
        ensures
            final(self)@ == old(self)@.settle(layout),
    {
        loop
            invariant
                self@.settle(layout) == old(self)@.settle(layout),
            ensures
                self@ == old(self)@.settle(layout),
            decreases plan_len(layout) - self.index,
        {
            if self.awaiting != Awaiting::Nothing {
                break ;
            }
            match nth_declaration(layout, self.index) {
                None => {
                    break ;
                },
                Some(d) => {
                    proof {
                        lemma_plan_extent(layout, self.index as int);
                        lemma_plan_bounded(layout);
                    }
                    let ghost before = self@;
                    self.begin(&d);
                    if self.awaiting != Awaiting::Nothing {
                        assert(before.begin(d@).settle(layout) == before.begin(d@));
                        break ;
                    }
                    proof {
                        lemma_begin_moves_on(before, d@);
                    }
                },
            }
        }
    }
}

impl BinderState {
    fn advance(&mut self, layout: &PeripheralsConfig, outcome: Result<(), Fault>)
        requires
            old(self)@.fits(layout),
        ensures
            final(self)@ == old(self)@.respond(layout, outcome_view(outcome)),
    {
        match nth_declaration(layout, self.index) {
            Some(d) => {
                proof {
                    lemma_plan_extent(layout, self.index as int);
                    lemma_plan_bounded(layout);
                }
                self.react(&d, outcome);
                self.settle(layout);
            },
            None => {},
        }
    }

    fn pending(&self, layout: &PeripheralsConfig) -> (request: Request)
        requires
            self@.fits(layout),
        ensures
            request == self@.request(layout),
    {
        match nth_declaration(layout, self.index) {
            None => Request::Done,
            Some(d) => match self.awaiting {
                Awaiting::Nothing => Request::Done,
                Awaiting::Probe => match d.pin(self.slot) {
                    Some((pin, usage)) => Request::Probe { pin, usage },
                    None => Request::Done,
                },
                Awaiting::Open => match d.pin(self.slot) {
                    Some((pin, usage)) => match usage {
                        PinUse::Input => Request::OpenInput { pin },
                        PinUse::Pwm => Request::OpenPwm { pin, channel: self.channel(self.slot) },
                        _ => Request::OpenOutput { pin },
                    },
                    None => Request::Done,
                },
                Awaiting::Finish => match d {
                    Declaration::Bus(bus) => Request::OpenBus {
                        sda: bus.gpio_sda,
                        scl: bus.gpio_scl,
                    },
                    Declaration::Sensor(family, entry) => {
                        assert(self.bound.deep_view().len() == self.bound@.len());
                        Request::OpenSensor {
                            family,
                            address: entry.i2c_addr,
                            ticket: self.bound.len(),
                        }
                    },
                    _ => Request::OpenTimer,
                },
            },
        }
    }
}

/// A step that does not stop at the hardware is left behind.
proof fn lemma_begin_moves_on(s: BinderView, d: DeclarationView)
    requires
        s.awaiting is Nothing,
    ensures
        s.begin(d).awaiting is Nothing ==> s.begin(d).index == s.index + 1,
{
}


impl BinderView {
    /// Like [`BinderView::fits`], but for a state that may still have steps of the plan
    /// before it although it waits for nothing.
    pub open spec fn steady(self, layout: &PeripheralsConfig) -> bool {
        &&& 0 <= self.index <= plan_len(layout)
        &&& 0 <= self.slot
        &&& self.bound.len() <= self.index
        &&& self.pwm is Some ==> self.pwm->0 <= PWM_CHANNELS
        &&& match self.awaiting {
            Awaiting::Nothing => self.slot == 0 && self.held.len() == 0 && self.channels.len()
                == 0,
            Awaiting::Probe => declaration(layout, self.index) is Some && self.slot < pin_plan(
                declaration(layout, self.index)->0,
            ).len(),
            Awaiting::Open => declaration(layout, self.index) is Some && self.slot < pin_plan(
                declaration(layout, self.index)->0,
            ).len(),
            Awaiting::Finish => declaration(layout, self.index) is Some && finishes_on_hardware(
                declaration(layout, self.index)->0,
            ),
        }
    }

    /// Whether the device at `i` owns the pin `pin`.
    pub open spec fn owns(self, i: int, pin: PinNumber) -> bool {
        0 <= i < self.bound.len() && self.bound[i].pins.contains(pin)
    }

    /// Whether no two bound devices have the same name.
    pub open spec fn distinct_names(self) -> bool {
        forall|i: int, j: int|
            0 <= i < j < self.bound.len() ==> (#[trigger] self.bound[i]).name != (
            #[trigger] self.bound[j]).name
    }

    /// Ledger exclusivity: every pin that a device owns, or that is claimed for the step
    /// in progress, is taken in the ledger; no pin is owned by two devices, owned twice by
    /// one, or both owned and claimed. And no name is bound twice.
    pub open spec fn exclusive(self) -> bool {
        &&& self.distinct_names()
        &&& forall|i: int, pin: PinNumber| #[trigger]
            self.owns(i, pin) ==> self.pins.contains_key(pin) && !self.pins[pin]
        &&& forall|i: int, j: int, pin: PinNumber|
            #![trigger self.owns(i, pin), self.owns(j, pin)]
            self.owns(i, pin) && self.owns(j, pin) ==> i == j
        &&& forall|i: int| 0 <= i < self.bound.len() ==> (#[trigger] self.bound[i]).pins.no_duplicates()
        &&& self.held.no_duplicates()
        &&& forall|pin: PinNumber| #[trigger]
            self.held.contains(pin) ==> self.pins.contains_key(pin) && !self.pins[pin]
        &&& forall|i: int, pin: PinNumber| #[trigger]
            self.owns(i, pin) ==> !self.held.contains(pin)
    }
}

proof fn lemma_report_keeps(s: BinderView, context: Seq<char>, error: PeripheralErrorView)
    requires
        s.exclusive(),
    ensures
        s.report(context, error).exclusive(),
{
    let t = s.report(context, error);
    assert forall|i: int, pin: PinNumber| #[trigger] t.owns(i, pin) implies s.owns(i, pin) by {}
}

proof fn lemma_skip_keeps(s: BinderView)
    requires
        s.exclusive(),
    ensures
        s.skip().exclusive(),
{
    let t = s.skip();
    assert forall|i: int, pin: PinNumber| #[trigger] t.owns(i, pin) implies s.owns(i, pin) by {}
}

proof fn lemma_claim_keeps(s: BinderView, d: DeclarationView)
    requires
        s.exclusive(),
    ensures
        s.claim(d).exclusive(),
{
    let pin = pin_plan(d)[s.slot].0;
    let t = s.claim(d);
    match GpioManager::verdict(s.pins, pin) {
        Some(refusal) => {
            lemma_report_keeps(s, pin_context(d, s.slot), refusal);
            lemma_skip_keeps(s.report(pin_context(d, s.slot), refusal));
        },
        None => {
            assert forall|i: int, p: PinNumber| #[trigger] t.owns(i, p) implies s.owns(i, p) by {}
            assert(!s.held.contains(pin));
            assert forall|p: PinNumber| #[trigger] t.held.contains(p) implies t.pins.contains_key(p)
                && !t.pins[p] by {
                let k = choose|k: int| 0 <= k < t.held.len() && t.held[k] == p;
                if k < s.held.len() {
                    assert(s.held[k] == p);
                    assert(s.held.contains(p));
                }
            }
            assert(t.held.no_duplicates()) by {
                assert forall|a: int, b: int|
                    0 <= a < t.held.len() && 0 <= b < t.held.len() && a != b implies t.held[a]
                    != t.held[b] by {
                    if a < s.held.len() {
                        assert(s.held.contains(s.held[a]));
                    }
                    if b < s.held.len() {
                        assert(s.held.contains(s.held[b]));
                    }
                }
            }
            assert forall|i: int, p: PinNumber| #[trigger] t.owns(i, p) implies !t.held.contains(
                p,
            ) by {
                assert(s.owns(i, p));
                if t.held.contains(p) {
                    let k = choose|k: int| 0 <= k < t.held.len() && t.held[k] == p;
                    if k < s.held.len() {
                        assert(s.held[k] == p);
                        assert(s.held.contains(p));
                    }
                }
            }
        },
    }
}

proof fn lemma_bind_keeps(s: BinderView, d: DeclarationView, name: Seq<char>, device: DeviceView)
    requires
        s.exclusive(),
    ensures
        s.bind(d, name, device).exclusive(),
{
    if name_bound(s.bound, name) {
        let error = PeripheralErrorView::NameAlreadyTaken { name };
        lemma_report_keeps(s, subject(d), error);
        lemma_skip_keeps(s.report(subject(d), error));
    } else {
        let t = s.bind(d, name, device);
        let last = s.bound.len() as int;
        assert(t.bound[last].pins == s.held);
        assert forall|i: int, j: int| 0 <= i < j < t.bound.len() implies (#[trigger] t.bound[i]).name
            != (#[trigger] t.bound[j]).name by {
            assert(t.bound[i] == s.bound[i]);
            if j == last {
                assert(s.bound[i].name != name);
            } else {
                assert(t.bound[j] == s.bound[j]);
            }
        }
        assert forall|i: int, p: PinNumber| #[trigger] t.owns(i, p) implies (if i == last {
            s.held.contains(p)
        } else {
            s.owns(i, p)
        }) by {
            if i != last {
                assert(t.bound[i] == s.bound[i]);
            }
        }
        assert forall|i: int| 0 <= i < t.bound.len() implies (#[trigger] t.bound[i]).pins.no_duplicates() by {
            if i != last {
                assert(t.bound[i] == s.bound[i]);
            }
        }
        assert forall|i: int, j: int, p: PinNumber|
            #![trigger t.owns(i, p), t.owns(j, p)]
            t.owns(i, p) && t.owns(j, p) implies i == j by {
            if i != last && j != last {
                assert(s.owns(i, p) && s.owns(j, p));
            } else if i != last {
                assert(s.owns(i, p));
            } else if j != last {
                assert(s.owns(j, p));
            }
        }
    }
}

proof fn lemma_conclude_keeps(s: BinderView, d: DeclarationView)
    requires
        s.exclusive(),
    ensures
        s.conclude(d).exclusive(),
{
    match d {
        DeclarationView::PwmTimer => {
            let t = BinderView { pwm: Some(0nat), ..s };
            assert forall|i: int, p: PinNumber| #[trigger] t.owns(i, p) implies s.owns(i, p) by {}
            lemma_skip_keeps(t);
        },
        DeclarationView::Bus { .. } => {
            let t = BinderView { bus: true, ..s };
            assert forall|i: int, p: PinNumber| #[trigger] t.owns(i, p) implies s.owns(i, p) by {}
            lemma_skip_keeps(t);
        },
        _ => match device_of(d, s.channels, s.bound) {
            Err(unknown) => {
                let error = PeripheralErrorView::NameUnknown { name: unknown };
                lemma_report_keeps(s, subject(d), error);
                lemma_skip_keeps(s.report(subject(d), error));
            },
            Ok(device) => {
                lemma_bind_keeps(s, d, declared_name(d)->0, device);
            },
        },
    }
}

proof fn lemma_proceed_keeps(s: BinderView, d: DeclarationView)
    requires
        s.exclusive(),
    ensures
        s.proceed(d).exclusive(),
{
    if s.slot < pin_plan(d).len() {
        lemma_claim_keeps(s, d);
    } else if finishes_on_hardware(d) {
        let t = BinderView { awaiting: Awaiting::Finish, ..s };
        assert forall|i: int, p: PinNumber| #[trigger] t.owns(i, p) implies s.owns(i, p) by {}
    } else {
        lemma_conclude_keeps(s, d);
    }
}

proof fn lemma_begin_keeps(s: BinderView, d: DeclarationView)
    requires
        s.exclusive(),
    ensures
        s.begin(d).exclusive(),
{
    if d is Motor && s.pwm is None {
        lemma_report_keeps(s, subject(d), PeripheralErrorView::PwmOutOfChannels);
        lemma_skip_keeps(s.report(subject(d), PeripheralErrorView::PwmOutOfChannels));
    } else if d is Sensor && !s.bus {
        lemma_report_keeps(s, subject(d), PeripheralErrorView::I2cNotConfigured);
        lemma_skip_keeps(s.report(subject(d), PeripheralErrorView::I2cNotConfigured));
    } else {
        lemma_proceed_keeps(s, d);
    }
}

proof fn lemma_react_keeps(s: BinderView, d: DeclarationView, outcome: Result<(), FaultView>)
    requires
        s.exclusive(),
    ensures
        s.react(d, outcome).exclusive(),
{
    let pin_error = PeripheralErrorView::PinInsufficientCapability { pin: pin_plan(d)[s.slot].0 };
    let next = BinderView { slot: s.slot + 1, ..s };
    assert forall|i: int, p: PinNumber| #[trigger] next.owns(i, p) implies s.owns(i, p) by {}
    match s.awaiting {
        Awaiting::Nothing => {},
        Awaiting::Probe => match outcome {
            Err(_) => {
                lemma_report_keeps(s, pin_context(d, s.slot), pin_error);
                lemma_skip_keeps(s.report(pin_context(d, s.slot), pin_error));
            },
            Ok(_) => match pin_plan(d)[s.slot].1 {
                PinUse::Bidirectional => {
                    lemma_proceed_keeps(next, d);
                },
                PinUse::Pwm => {
                    if s.pwm is Some && s.pwm->0 < PWM_CHANNELS {
                        let t = s.react(d, outcome);
                        assert forall|i: int, p: PinNumber| #[trigger] t.owns(i, p) implies s.owns(
                            i,
                            p,
                        ) by {}
                    } else {
                        lemma_report_keeps(
                            s,
                            pin_context(d, s.slot),
                            PeripheralErrorView::PwmOutOfChannels,
                        );
                        lemma_skip_keeps(
                            s.report(pin_context(d, s.slot), PeripheralErrorView::PwmOutOfChannels),
                        );
                    }
                },
                _ => {
                    let t = s.react(d, outcome);
                    assert forall|i: int, p: PinNumber| #[trigger] t.owns(i, p) implies s.owns(
                        i,
                        p,
                    ) by {}
                },
            },
        },
        Awaiting::Open => match outcome {
            Err(fault) => {
                lemma_report_keeps(s, pin_context(d, s.slot), fault_error(fault));
                lemma_skip_keeps(s.report(pin_context(d, s.slot), fault_error(fault)));
            },
            Ok(_) => {
                lemma_proceed_keeps(next, d);
            },
        },
        Awaiting::Finish => match outcome {
            Err(fault) => {
                lemma_report_keeps(s, subject(d), fault_error(fault));
                lemma_skip_keeps(s.report(subject(d), fault_error(fault)));
            },
            Ok(_) => {
                lemma_conclude_keeps(s, d);
            },
        },
    }
}

pub(crate) proof fn lemma_begin_steady(s: BinderView, layout: &PeripheralsConfig, d: DeclarationView)
    requires
        s.steady(layout),
        s.awaiting is Nothing,
        declaration(layout, s.index) == Some(d),
    ensures
        s.begin(d).steady(layout),
        s.begin(d).awaiting is Nothing ==> s.begin(d).index == s.index + 1,
        !(s.begin(d).awaiting is Nothing) ==> s.begin(d).index == s.index,
{
    lemma_plan_extent(layout, s.index);
}

pub(crate) proof fn lemma_react_steady(
    s: BinderView,
    layout: &PeripheralsConfig,
    d: DeclarationView,
    outcome: Result<(), FaultView>,
)
    requires
        s.steady(layout),
        !(s.awaiting is Nothing),
        declaration(layout, s.index) == Some(d),
    ensures
        s.react(d, outcome).steady(layout),
{
    lemma_plan_extent(layout, s.index);
}

proof fn lemma_settle_keeps(s: BinderView, layout: &PeripheralsConfig)
    requires
        s.steady(layout),
        s.exclusive(),
    ensures
        s.settle(layout).fits(layout),
        s.settle(layout).exclusive(),
    decreases plan_len(layout) - s.index,
{
    lemma_plan_extent(layout, s.index);
    if s.awaiting is Nothing {
        match declaration(layout, s.index) {
            None => {},
            Some(d) => {
                lemma_begin_steady(s, layout, d);
                lemma_begin_keeps(s, d);
                let next = s.begin(d);
                if next.index == s.index + 1 && s.index < plan_len(layout) {
                    lemma_settle_keeps(next, layout);
                }
            },
        }
    }
}

/// Ledger exclusivity holds when binding starts: nothing is owned, and the state fits
/// the plan.
pub proof fn law_start_exclusive(layout: &PeripheralsConfig)
    ensures
        BinderView::start(layout).fits(layout),
        BinderView::start(layout).exclusive(),
{
    let s = BinderView::initial();
    assert(s.exclusive());
    lemma_settle_keeps(s, layout);
}

/// Ledger exclusivity is kept by every answer of the hardware: whatever the outcome of
/// the pending request, afterwards still no pin is owned twice and every owned pin is
/// taken in the ledger.
pub proof fn law_respond_exclusive(
    s: BinderView,
    layout: &PeripheralsConfig,
    outcome: Result<(), FaultView>,
)
    requires
        s.fits(layout),
        s.exclusive(),
    ensures
        s.respond(layout, outcome).fits(layout),
        s.respond(layout, outcome).exclusive(),
{
    lemma_plan_extent(layout, s.index);
    match declaration(layout, s.index) {
        Some(d) => {
            lemma_react_steady(s, layout, d, outcome);
            lemma_react_keeps(s, d, outcome);
            lemma_settle_keeps(s.react(d, outcome), layout);
        },
        None => {},
    }
}

/// A declaration whose next pin is already taken binds nothing: the step ends with one
/// `PinAlreadyTaken` error for that pin, and ledger and devices stay as they were.
pub proof fn law_taken_pin_ends_step(s: BinderView, d: DeclarationView)
    requires
        0 <= s.slot < pin_plan(d).len(),
        s.pins.contains_key(pin_plan(d)[s.slot].0),
        !s.pins[pin_plan(d)[s.slot].0],
    ensures
        s.claim(d) == s.report(
            pin_context(d, s.slot),
            PeripheralErrorView::PinAlreadyTaken { pin: pin_plan(d)[s.slot].0 },
        ).skip(),
        s.claim(d).bound == s.bound,
        s.claim(d).pins == s.pins,
        s.claim(d).errors.len() == s.errors.len() + 1,
{
}


/// The broker at work on one layout.
pub struct Binder {
    layout: PeripheralsConfig,
    state: BinderState,
}

impl View for Binder {
    type V = BinderView;

    closed spec fn view(&self) -> BinderView {
        self.state@
    }
}

impl Binder {
    /// The layout that is being bound.
    pub closed spec fn layout(&self) -> &PeripheralsConfig {
        &self.layout
    }

    /// The invariant of the broker: its state fits the plan of its layout, and ledger
    /// exclusivity holds. Every broker made by `new` and changed by `respond` is sound.
    pub open spec fn sound(&self) -> bool {
        self@.fits(self.layout()) && self@.exclusive()
    }

    /// Starts binding `layout`: works through the plan up to its first hardware request.
    pub fn new(layout: PeripheralsConfig) -> (binder: Binder)
        ensures
            *binder.layout() == layout,
            binder@ == BinderView::start(&layout),
            binder.sound(),
    {
        let mut state = BinderState {
            index: 0,
            slot: 0,
            awaiting: Awaiting::Nothing,
            held: Vec::new(),
            channels: Vec::new(),
            pins: GpioManager::new(),
            pwms: None,
            bus: false,
            bound: Vec::new(),
            errors: Vec::new(),
        };
        assert(state@.bound =~= Seq::empty());
        assert(state@.errors =~= Seq::empty());
        assert(state@ == BinderView::initial());
        state.settle(&layout);
        proof {
            law_start_exclusive(&layout);
        }
        Binder { layout, state }
    }

    /// The hardware work that the broker waits for, or `Done`.
    pub fn request(&self) -> (request: Request)
        requires
            self.sound(),
        ensures
            request == self@.request(self.layout()),
    {
        self.state.pending(&self.layout)
    }

    /// Takes the outcome of the pending request and works on to the next one. An answer
    /// given while nothing is pending changes nothing.
    pub fn respond(&mut self, outcome: Result<(), Fault>)
        requires
            old(self).sound(),
        ensures
            final(self).layout() == old(self).layout(),
            final(self)@ == old(self)@.respond(old(self).layout(), outcome_view(outcome)),
            final(self).sound(),
    {
        proof {
            law_respond_exclusive(self.state@, &self.layout, outcome_view(outcome));
        }
        self.state.advance(&self.layout, outcome);
    }

    /// Ends binding: the devices bound and the errors collected so far.
    pub fn finish(self) -> (done: (Peripherals, Vec<InitError>))
        ensures
            done.0@ == self@.bound,
            done.1.deep_view() == self@.errors,
    {
        let Binder { layout: _, state } = self;
        (Peripherals::from_bound(state.bound), state.errors)
    }
}


/// A state that fits the plan still fits it after any answer.
pub proof fn law_respond_fits(
    s: BinderView,
    layout: &PeripheralsConfig,
    outcome: Result<(), FaultView>,
)
    requires
        s.fits(layout),
    ensures
        s.respond(layout, outcome).fits(layout),
{
    lemma_plan_extent(layout, s.index);
    match declaration(layout, s.index) {
        Some(d) => {
            lemma_react_steady(s, layout, d, outcome);
            lemma_settle_fits(s.react(d, outcome), layout);
        },
        None => {},
    }
}

proof fn lemma_settle_fits(s: BinderView, layout: &PeripheralsConfig)
    requires
        s.steady(layout),
    ensures
        s.settle(layout).fits(layout),
    decreases plan_len(layout) - s.index,
{
    lemma_plan_extent(layout, s.index);
    if s.awaiting is Nothing {
        match declaration(layout, s.index) {
            None => {},
            Some(d) => {
                lemma_begin_steady(s, layout, d);
                let next = s.begin(d);
                if next.index == s.index + 1 && s.index < plan_len(layout) {
                    lemma_settle_fits(next, layout);
                }
            },
        }
    }
}

} // verus!
