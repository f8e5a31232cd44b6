//! The boot-time record of which pins and PWM channels are still free.

use std::collections::BTreeMap;
use vstd::prelude::*;
use vstd::std_specs::btree::*;

verus! {

broadcast use group_btree_axioms;

/// Number of a GPIO pin.
pub type PinNumber = u8;

/// The highest pin number of the platform; its pin domain is `0..=LAST_PIN`.
pub const LAST_PIN: PinNumber = 48;

/// How many PWM channels the platform has.
pub const PWM_CHANNELS: u8 = 8;

/// A pin that has been taken from the ledger and not yet configured.
#[derive(Debug, Clone, Copy, PartialEq, Eq, Structural)]
pub struct AnyPin(pub PinNumber);

/// A failure reported by the hardware while a driver was being set up.
#[derive(Debug)]
pub enum Fault {
    /// A transaction on the shared bus failed; `code` is the platform's error code.
    Bus { code: i32 },
    /// The driver's own initialisation failed for the given reason.
    Probe { cause: String },
}

/// Mathematical value of a [`Fault`].
pub enum FaultView {
    Bus { code: i32 },
    Probe { cause: Seq<char> },
}

impl DeepView for Fault {
    type V = FaultView;

    open spec fn deep_view(&self) -> FaultView {
        match self {
            Fault::Bus { code } => FaultView::Bus { code: *code },
            Fault::Probe { cause } => FaultView::Probe { cause: cause@ },
        }
    }
}

/// Why a peripheral could not be set up.
#[derive(Debug)]
pub enum PeripheralError {
    PinUnknown { pin: PinNumber },
    PinAlreadyTaken { pin: PinNumber },
    PinInsufficientCapability { pin: PinNumber },
    NameUnknown { name: String },
    NameAlreadyTaken { name: String },
    PwmOutOfChannels,
    I2cNotConfigured,
    BusError { code: i32 },
    DriverProbe { cause: String },
}

/// Mathematical value of a [`PeripheralError`].
pub enum PeripheralErrorView {
    PinUnknown { pin: PinNumber },
    PinAlreadyTaken { pin: PinNumber },
    PinInsufficientCapability { pin: PinNumber },
    NameUnknown { name: Seq<char> },
    NameAlreadyTaken { name: Seq<char> },
    PwmOutOfChannels,
    I2cNotConfigured,
    BusError { code: i32 },
    DriverProbe { cause: Seq<char> },
}

impl DeepView for PeripheralError {
    type V = PeripheralErrorView;

    open spec fn deep_view(&self) -> PeripheralErrorView {
        match self {
            PeripheralError::PinUnknown { pin } => PeripheralErrorView::PinUnknown { pin: *pin },
            PeripheralError::PinAlreadyTaken { pin } => PeripheralErrorView::PinAlreadyTaken {
                pin: *pin,
            },
            PeripheralError::PinInsufficientCapability {
                pin,
            } => PeripheralErrorView::PinInsufficientCapability { pin: *pin },
            PeripheralError::NameUnknown { name } => PeripheralErrorView::NameUnknown {
                name: name@,
            },
            PeripheralError::NameAlreadyTaken { name } => PeripheralErrorView::NameAlreadyTaken {
                name: name@,
            },
            PeripheralError::PwmOutOfChannels => PeripheralErrorView::PwmOutOfChannels,
            PeripheralError::I2cNotConfigured => PeripheralErrorView::I2cNotConfigured,
            PeripheralError::BusError { code } => PeripheralErrorView::BusError { code: *code },
            PeripheralError::DriverProbe { cause } => PeripheralErrorView::DriverProbe {
                cause: cause@,
            },
        }
    }
}

/// The error that a hardware fault turns into.
pub open spec fn fault_error(fault: FaultView) -> PeripheralErrorView {
    match fault {
        FaultView::Bus { code } => PeripheralErrorView::BusError { code },
        FaultView::Probe { cause } => PeripheralErrorView::DriverProbe { cause },
    }
}

impl From<Fault> for PeripheralError {
    fn from(value: Fault) -> (error: PeripheralError) {
        match value {
            Fault::Bus { code } => PeripheralError::BusError { code },
            Fault::Probe { cause } => PeripheralError::DriverProbe { cause },
        }
    }
}

impl vstd::std_specs::convert::FromSpecImpl<Fault> for PeripheralError {
    open spec fn obeys_from_spec() -> bool {
        true
    }

    open spec fn from_spec(value: Fault) -> PeripheralError {
        match value {
            Fault::Bus { code } => PeripheralError::BusError { code },
            Fault::Probe { cause } => PeripheralError::DriverProbe { cause },
        }
    }
}

/// The pin ledger: every pin of the platform with its occupancy.
pub struct GpioManager {
    pins: BTreeMap<PinNumber, bool>,
}

impl View for GpioManager {
    type V = Map<PinNumber, bool>;

    /// Each known pin with `true` while it is still available.
    closed spec fn view(&self) -> Map<PinNumber, bool> {
        self.pins@
    }
}

impl GpioManager {
    /// What a take of `pin` answers on the ledger `m`, before any conversion.
    pub open spec fn verdict(m: Map<PinNumber, bool>, pin: PinNumber) -> Option<
        PeripheralErrorView,
    > {
        if !m.contains_key(pin) {
            Some(PeripheralErrorView::PinUnknown { pin })
        } else if !m[pin] {
            Some(PeripheralErrorView::PinAlreadyTaken { pin })
        } else {
            None
        }
    }

    /// The ledger `m` after a take of `pin`: an available pin becomes taken, nothing else
    /// changes.
    pub open spec fn after_take(m: Map<PinNumber, bool>, pin: PinNumber) -> Map<PinNumber, bool> {
        if m.contains_key(pin) && m[pin] {
            m.insert(pin, false)
        } else {
            m
        }
    }

    /// The ledger over the whole pin domain with every pin available.
    pub open spec fn fresh() -> Map<PinNumber, bool> {
        Map::new(|pin: PinNumber| pin <= LAST_PIN, |pin: PinNumber| true)
    }

    /// A ledger over the whole pin domain, every pin available.
    pub fn new() -> (ledger: GpioManager)
        ensures
            ledger@ == Self::fresh(),
    {
        let mut pins: BTreeMap<PinNumber, bool> = BTreeMap::new();
        let mut next: PinNumber = 0;
        while next <= LAST_PIN
            invariant
                next <= LAST_PIN + 1,
                forall|pin: PinNumber| pins@.contains_key(pin) <==> pin < next,
                forall|pin: PinNumber| pin < next ==> pins@[pin],
            decreases LAST_PIN + 1 - next,
        {
            pins.insert(next, true);
            next = next + 1;
        }
        assert(pins@ =~= Self::fresh());
        GpioManager { pins }
    }

    /// Takes `id` out of the ledger. Fails with `PinUnknown` outside the pin domain and
    /// with `PinAlreadyTaken` on a second take; the ledger changes only on success.
    pub fn take(&mut self, id: PinNumber) -> (taken: Result<AnyPin, PeripheralError>)
        ensures
            final(self)@ == Self::after_take(old(self)@, id),
            match taken {
                Ok(pin) => Self::verdict(old(self)@, id) is None && pin == AnyPin(id),
                Err(e) => Self::verdict(old(self)@, id) == Some(e.deep_view()),
            },
    {
        match self.pins.get(&id) {
            Some(free) => {
                if *free {
                    self.pins.insert(id, false);
                    Ok(AnyPin(id))
                } else {
                    Err(PeripheralError::PinAlreadyTaken { pin: id })
                }
            },
            None => Err(PeripheralError::PinUnknown { pin: id }),
        }
    }

    /// Takes `id` out of the ledger and hands it to `f` for conversion into a driver
    /// handle. A pin that `f` refuses stays taken and is reported as
    /// `PinInsufficientCapability`; `f` is not called unless the take succeeded.
    pub fn take_convert<T, F: FnOnce(AnyPin) -> Option<T>>(&mut self, id: PinNumber, f: F) -> (converted:
        Result<T, PeripheralError>)
        requires
            call_requires(f, (AnyPin(id),)),
        ensures
            final(self)@ == Self::after_take(old(self)@, id),
            match converted {
                Ok(handle) => Self::verdict(old(self)@, id) is None && call_ensures(
                    f,
                    (AnyPin(id),),
                    Some(handle),
                ),
                Err(e) => match Self::verdict(old(self)@, id) {
                    Some(refusal) => e.deep_view() == refusal,
                    None => e.deep_view() == (PeripheralErrorView::PinInsufficientCapability {
                        pin: id,
                    }) && call_ensures(f, (AnyPin(id),), None::<T>),
                },
            },
    {
        match self.take(id) {
            Ok(pin) => match f(pin) {
                Some(handle) => Ok(handle),
                None => Err(PeripheralError::PinInsufficientCapability { pin: id }),
            },
            Err(e) => Err(e),
        }
    }
}

/// The pool of PWM channels, handed out in ascending order and never returned.
pub struct PwmManager {
    used: u8,
}

impl View for PwmManager {
    type V = nat;

    /// How many channels have been handed out.
    closed spec fn view(&self) -> nat {
        self.used as nat
    }
}

impl PwmManager {
    #[verifier::type_invariant]
    spec fn bounded(&self) -> bool {
        self.used <= PWM_CHANNELS
    }

    /// A pool with every channel still free.
    pub fn new() -> (pool: PwmManager)
        ensures
            pool@ == 0,
    {
        PwmManager { used: 0 }
    }

    /// Hands out the lowest channel not handed out before, or fails with
    /// `PwmOutOfChannels` once all have been.
    pub fn take(&mut self) -> (channel: Result<u8, PeripheralError>)
        ensures
            old(self)@ <= PWM_CHANNELS,
            match channel {
                Ok(c) => old(self)@ < PWM_CHANNELS && c == old(self)@ && final(self)@ == old(
                    self,
                )@ + 1,
                Err(e) => old(self)@ == PWM_CHANNELS && final(self)@ == old(self)@ && e.deep_view()
                    == PeripheralErrorView::PwmOutOfChannels,
            },
    {
        proof {
            use_type_invariant(&*self);
        }
        if self.used < PWM_CHANNELS {
            let channel: u8 = self.used;
            self.used = channel + 1;
            Ok(channel)
        } else {
            Err(PeripheralError::PwmOutOfChannels)
        }
    }
}

/// Ledger exclusivity on one pin: of two takes of the same pin, with any other takes in
/// between, the second is refused with `PinAlreadyTaken` whenever the first succeeded.
pub proof fn law_second_take_refused(
    before: Map<PinNumber, bool>,
    pin: PinNumber,
    between: Seq<PinNumber>,
)
    requires
        GpioManager::verdict(before, pin) is None,
    ensures
        GpioManager::verdict(after_takes(GpioManager::after_take(before, pin), between), pin)
            == Some(PeripheralErrorView::PinAlreadyTaken { pin }),
{
    lemma_takes_keep_taken(GpioManager::after_take(before, pin), between, pin);
}

/// The ledger after the takes of `pins`, in order.
pub open spec fn after_takes(m: Map<PinNumber, bool>, pins: Seq<PinNumber>) -> Map<PinNumber, bool>
    decreases pins.len(),
{
    if pins.len() == 0 {
        m
    } else {
        after_takes(GpioManager::after_take(m, pins[0]), pins.skip(1))
    }
}

/// A pin once taken stays taken, and the pin domain never changes.
proof fn lemma_takes_keep_taken(m: Map<PinNumber, bool>, pins: Seq<PinNumber>, pin: PinNumber)
    ensures
        after_takes(m, pins).dom() == m.dom(),
        m.contains_key(pin) && !m[pin] ==> !after_takes(m, pins)[pin],
    decreases pins.len(),
{
    if pins.len() > 0 {
        let step = GpioManager::after_take(m, pins[0]);
        assert(step.dom() =~= m.dom());
        lemma_takes_keep_taken(step, pins.skip(1), pin);
    }
}

} // verus!
