//! Where the bound devices and the collected errors come from: in every state that
//! binding reaches, each step of the plan that is left behind has ended in exactly one
//! way, and each bound device holds the name and the pins of the step that made it.

use crate::bind::law_answered_exclusive;
use crate::broker::{
    device_of, lemma_begin_steady, lemma_react_steady, name_bound, outcome_view, Awaiting,
    BinderView, BoundView, DeviceView,
};
use crate::layout::PeripheralsConfig;
use crate::ledger::{fault_error, Fault, FaultView, PeripheralErrorView, PinNumber, PWM_CHANNELS};
use crate::plan::{
    declaration, declared_name, finishes_on_hardware, lemma_plan_extent, pin_context, pin_plan,
    plan_len, subject, DeclarationView, PinUse,
};
use vstd::prelude::*;

verus! {

/// The first `n` pins that the step `d` claims.
pub open spec fn claimed(d: DeclarationView, n: int) -> Seq<PinNumber> {
    Seq::new(n as nat, |k: int| pin_plan(d)[k].0)
}

/// Whether the device `b` is what the `k`-th step of the plan of `layout` makes: it has
/// the name that the step declares and owns exactly the pins that the step claims.
pub open spec fn made_at(layout: &PeripheralsConfig, b: BoundView, k: int) -> bool {
    match declaration(layout, k) {
        Some(d) => declared_name(d) == Some(b.name) && b.pins == claimed(
            d,
            pin_plan(d).len() as int,
        ),
        None => false,
    }
}

impl BinderView {
    /// How many of the two steps without a name have ended well: the timer and the bus.
    pub open spec fn started(self) -> int {
        (if self.pwm is Some {
            1int
        } else {
            0int
        }) + (if self.bus {
            1int
        } else {
            0int
        })
    }

    /// Whether every step that is left behind has ended in exactly one way: with a
    /// device bound, with one error, or, for the timer and the bus, running.
    pub open spec fn accounted(self) -> bool {
        self.index == self.bound.len() + self.errors.len() + self.started()
    }

    /// Whether the device bound at `a` was made by a step of the plan that is left behind.
    pub open spec fn comes_from_plan(self, layout: &PeripheralsConfig, a: int) -> bool {
        exists|k: int| 0 <= k < self.index && #[trigger] made_at(layout, self.bound[a], k)
    }

    /// Whether every bound device was made by a step of the plan that is left behind.
    pub open spec fn from_plan(self, layout: &PeripheralsConfig) -> bool {
        forall|a: int| 0 <= a < self.bound.len() ==> #[trigger] self.comes_from_plan(layout, a)
    }

    /// Whether the pins claimed for the step in progress are the first of its pins.
    pub open spec fn holding(self, layout: &PeripheralsConfig) -> bool {
        match declaration(layout, self.index) {
            Some(d) => match self.awaiting {
                Awaiting::Nothing => self.held.len() == 0,
                Awaiting::Finish => self.held == claimed(d, pin_plan(d).len() as int),
                _ => self.held == claimed(d, self.slot + 1),
            },
            None => self.held.len() == 0,
        }
    }

    /// The three together, with what is known of the timer and the bus while their
    /// steps are not left behind.
    pub open spec fn traced(self, layout: &PeripheralsConfig) -> bool {
        &&& self.accounted()
        &&& self.from_plan(layout)
        &&& self.holding(layout)
        &&& self.index == 0 ==> self.pwm is None
        &&& self.index <= 1 ==> !self.bus
    }

    /// What of `traced` does not speak of the step in progress.
    pub open spec fn traced_so_far(self, layout: &PeripheralsConfig) -> bool {
        &&& self.accounted()
        &&& self.from_plan(layout)
        &&& self.index == 0 ==> self.pwm is None
        &&& self.index <= 1 ==> !self.bus
    }
}

proof fn lemma_failed_traced(
    s: BinderView,
    layout: &PeripheralsConfig,
    context: Seq<char>,
    error: PeripheralErrorView,
)
    requires
        s.traced_so_far(layout),
        0 <= s.index < plan_len(layout),
    ensures
        s.report(context, error).skip().traced(layout),
{
    let t = s.report(context, error).skip();
    assert forall|a: int| 0 <= a < t.bound.len() implies #[trigger] t.comes_from_plan(
        layout,
        a,
    ) by {
        assert(s.comes_from_plan(layout, a) || a >= s.bound.len());
        let k = choose|k: int| 0 <= k < s.index && #[trigger] made_at(layout, s.bound[a], k);
        assert(made_at(layout, t.bound[a], k));
    }
}

proof fn lemma_bound_traced(
    s: BinderView,
    layout: &PeripheralsConfig,
    d: DeclarationView,
    device: DeviceView,
)
    requires
        s.traced_so_far(layout),
        declaration(layout, s.index) == Some(d),
        declared_name(d) is Some,
        s.held == claimed(d, pin_plan(d).len() as int),
    ensures
        s.bind(d, declared_name(d)->0, device).traced(layout),
{
    lemma_plan_extent(layout, s.index);
    let name = declared_name(d)->0;
    let t = s.bind(d, name, device);
    if name_bound(s.bound, name) {
        lemma_failed_traced(
            s,
            layout,
            subject(d),
            PeripheralErrorView::NameAlreadyTaken { name },
        );
    } else {
        let last = s.bound.len() as int;
        assert forall|a: int| 0 <= a < t.bound.len() implies #[trigger] t.comes_from_plan(
        layout,
        a,
    ) by {
        assert(s.comes_from_plan(layout, a) || a >= s.bound.len());
            if a == last {
                assert(made_at(layout, t.bound[a], s.index));
            } else {
                assert(t.bound[a] == s.bound[a]);
                let k = choose|k: int|
                    0 <= k < s.index && #[trigger] made_at(layout, s.bound[a], k);
                assert(made_at(layout, t.bound[a], k));
            }
        }
    }
}

proof fn lemma_conclude_traced(s: BinderView, layout: &PeripheralsConfig, d: DeclarationView)
    requires
        s.traced_so_far(layout),
        declaration(layout, s.index) == Some(d),
        s.held == claimed(d, pin_plan(d).len() as int),
    ensures
        s.conclude(d).traced(layout),
{
    lemma_plan_extent(layout, s.index);
    let t = s.conclude(d);
    match d {
        DeclarationView::PwmTimer => {
            assert(s.index == 0);
            assert forall|a: int| 0 <= a < t.bound.len() implies #[trigger] t.comes_from_plan(
        layout,
        a,
    ) by {
        assert(s.comes_from_plan(layout, a) || a >= s.bound.len());
                let k = choose|k: int|
                    0 <= k < s.index && #[trigger] made_at(layout, s.bound[a], k);
            }
        },
        DeclarationView::Bus { .. } => {
            assert(s.index == 1);
            assert forall|a: int| 0 <= a < t.bound.len() implies #[trigger] t.comes_from_plan(
        layout,
        a,
    ) by {
        assert(s.comes_from_plan(layout, a) || a >= s.bound.len());
                let k = choose|k: int|
                    0 <= k < s.index && #[trigger] made_at(layout, s.bound[a], k);
                assert(made_at(layout, t.bound[a], k));
            }
        },
        _ => match device_of(d, s.channels, s.bound) {
            Err(unknown) => {
                lemma_failed_traced(
                    s,
                    layout,
                    subject(d),
                    PeripheralErrorView::NameUnknown { name: unknown },
                );
            },
            Ok(device) => {
                lemma_bound_traced(s, layout, d, device);
            },
        },
    }
}

proof fn lemma_proceed_traced(s: BinderView, layout: &PeripheralsConfig, d: DeclarationView)
    requires
        s.traced_so_far(layout),
        declaration(layout, s.index) == Some(d),
        0 <= s.slot <= pin_plan(d).len(),
        s.held == claimed(d, s.slot),
    ensures
        s.proceed(d).traced(layout),
{
    lemma_plan_extent(layout, s.index);
    let t = s.proceed(d);
    if s.slot < pin_plan(d).len() {
        let pin = pin_plan(d)[s.slot].0;
        match crate::ledger::GpioManager::verdict(s.pins, pin) {
            Some(refusal) => {
                lemma_failed_traced(s, layout, pin_context(d, s.slot), refusal);
            },
            None => {
                assert(t.held =~= claimed(d, s.slot + 1));
                lemma_same_devices(s, t, layout);
            },
        }
    } else if finishes_on_hardware(d) {
        lemma_same_devices(s, t, layout);
    } else {
        lemma_conclude_traced(s, layout, d);
    }
}

proof fn lemma_same_devices(s: BinderView, t: BinderView, layout: &PeripheralsConfig)
    requires
        s.from_plan(layout),
        t.bound == s.bound,
        t.index == s.index,
    ensures
        t.from_plan(layout),
{
    assert forall|a: int| 0 <= a < t.bound.len() implies #[trigger] t.comes_from_plan(
        layout,
        a,
    ) by {
        assert(s.comes_from_plan(layout, a) || a >= s.bound.len());
        let k = choose|k: int| 0 <= k < s.index && #[trigger] made_at(layout, s.bound[a], k);
        assert(made_at(layout, t.bound[a], k));
    }
}

proof fn lemma_begin_traced(s: BinderView, layout: &PeripheralsConfig, d: DeclarationView)
    requires
        s.steady(layout),
        s.traced(layout),
        s.awaiting is Nothing,
        declaration(layout, s.index) == Some(d),
    ensures
        s.begin(d).traced(layout),
{
    lemma_plan_extent(layout, s.index);
    if d is Motor && s.pwm is None {
        lemma_failed_traced(s, layout, subject(d), PeripheralErrorView::PwmOutOfChannels);
    } else if d is Sensor && !s.bus {
        lemma_failed_traced(s, layout, subject(d), PeripheralErrorView::I2cNotConfigured);
    } else {
        assert(s.held =~= claimed(d, 0));
        lemma_proceed_traced(s, layout, d);
    }
}

proof fn lemma_react_traced(
    s: BinderView,
    layout: &PeripheralsConfig,
    d: DeclarationView,
    outcome: Result<(), FaultView>,
)
    requires
        s.steady(layout),
        s.traced(layout),
        !(s.awaiting is Nothing),
        declaration(layout, s.index) == Some(d),
    ensures
        s.react(d, outcome).traced(layout),
{
    lemma_plan_extent(layout, s.index);
    let t = s.react(d, outcome);
    let next = BinderView { slot: s.slot + 1, ..s };
    match s.awaiting {
        Awaiting::Nothing => {},
        Awaiting::Probe => match outcome {
            Err(_) => {
                lemma_failed_traced(
                    s,
                    layout,
                    pin_context(d, s.slot),
                    PeripheralErrorView::PinInsufficientCapability { pin: pin_plan(d)[s.slot].0 },
                );
            },
            Ok(_) => match pin_plan(d)[s.slot].1 {
                PinUse::Bidirectional => {
                    lemma_same_devices(s, next, layout);
                    lemma_proceed_traced(next, layout, d);
                },
                PinUse::Pwm => {
                    if s.pwm is Some && s.pwm->0 < PWM_CHANNELS {
                        lemma_same_devices(s, t, layout);
                    } else {
                        lemma_failed_traced(
                            s,
                            layout,
                            pin_context(d, s.slot),
                            PeripheralErrorView::PwmOutOfChannels,
                        );
                    }
                },
                _ => {
                    lemma_same_devices(s, t, layout);
                },
            },
        },
        Awaiting::Open => match outcome {
            Err(fault) => {
                lemma_failed_traced(s, layout, pin_context(d, s.slot), fault_error(fault));
            },
            Ok(_) => {
                lemma_same_devices(s, next, layout);
                lemma_proceed_traced(next, layout, d);
            },
        },
        Awaiting::Finish => match outcome {
            Err(fault) => {
                lemma_failed_traced(s, layout, subject(d), fault_error(fault));
            },
            Ok(_) => {
                lemma_conclude_traced(s, layout, d);
            },
        },
    }
}

proof fn lemma_settle_traced(s: BinderView, layout: &PeripheralsConfig)
    requires
        s.steady(layout),
        s.traced(layout),
    ensures
        s.settle(layout).traced(layout),
    decreases plan_len(layout) - s.index,
{
    lemma_plan_extent(layout, s.index);
    if s.awaiting is Nothing {
        match declaration(layout, s.index) {
            None => {},
            Some(d) => {
                lemma_begin_steady(s, layout, d);
                lemma_begin_traced(s, layout, d);
                let next = s.begin(d);
                if next.index == s.index + 1 && s.index < plan_len(layout) {
                    lemma_settle_traced(next, layout);
                }
            },
        }
    }
}

/// Every step ends in exactly one way, and every device comes from the plan: in every
/// state that binding reaches, whatever the hardware answers, the steps left behind are
/// as many as the devices bound, the errors collected and the timer and bus that run,
/// taken together. So a step that binds leaves no error, and a step that fails leaves
/// exactly one and binds nothing. And each bound device has the name and exactly the
/// pins of a step that is left behind.
pub proof fn law_answered_traced(
    layout: &PeripheralsConfig,
    answers: Seq<Result<(), Fault>>,
    n: int,
)
    ensures
        BinderView::answered(layout, answers, n).accounted(),
        BinderView::answered(layout, answers, n).from_plan(layout),
        BinderView::answered(layout, answers, n).traced(layout),
    decreases n,
{
    if n <= 0 {
        let s = BinderView::initial();
        assert(s.traced(layout));
        lemma_settle_traced(s, layout);
    } else {
        law_answered_traced(layout, answers, n - 1);
        law_answered_exclusive(layout, answers, n - 1);
        let s = BinderView::answered(layout, answers, n - 1);
        let outcome = outcome_view(answers[n - 1]);
        lemma_plan_extent(layout, s.index);
        match declaration(layout, s.index) {
            Some(d) => {
                if !(s.awaiting is Nothing) {
                    lemma_react_steady(s, layout, d, outcome);
                    lemma_react_traced(s, layout, d, outcome);
                }
                lemma_settle_traced(s.react(d, outcome), layout);
            },
            None => {},
        }
    }
}

/// Ledger exclusivity over every layout: of two steps of a plan that name the same pin
/// and declare different names, at most one is bound, whatever the hardware answers.
/// The devices of both would own the pin, and no pin is owned twice.
pub proof fn law_shared_pin_binds_once(
    layout: &PeripheralsConfig,
    answers: Seq<Result<(), Fault>>,
    n: int,
    i: int,
    j: int,
    pin: PinNumber,
    a: int,
    b: int,
)
    requires
        declaration(layout, i) is Some,
        declaration(layout, j) is Some,
        declared_name(declaration(layout, i)->0) != declared_name(declaration(layout, j)->0),
        claimed(
            declaration(layout, i)->0,
            pin_plan(declaration(layout, i)->0).len() as int,
        ).contains(pin),
        claimed(
            declaration(layout, j)->0,
            pin_plan(declaration(layout, j)->0).len() as int,
        ).contains(pin),
        0 <= a < BinderView::answered(layout, answers, n).bound.len(),
        0 <= b < BinderView::answered(layout, answers, n).bound.len(),
    ensures
        !(made_at(layout, BinderView::answered(layout, answers, n).bound[a], i) && made_at(
            layout,
            BinderView::answered(layout, answers, n).bound[b],
            j,
        )),
{
    law_answered_exclusive(layout, answers, n);
    let s = BinderView::answered(layout, answers, n);
    if made_at(layout, s.bound[a], i) && made_at(layout, s.bound[b], j) {
        assert(s.owns(a, pin));
        assert(s.owns(b, pin));
        assert(a == b);
    }
}

/// A pin that a bound device owns is refused to every later step: where the next pin of
/// the step `d` is owned by a device, claiming it ends the step with one
/// `PinAlreadyTaken` error for that pin; nothing is bound, and the ledger stays as it is.
pub proof fn law_owned_pin_is_refused(s: BinderView, d: DeclarationView, owner: int)
    requires
        s.exclusive(),
        0 <= s.slot < pin_plan(d).len(),
        s.owns(owner, pin_plan(d)[s.slot].0),
    ensures
        s.claim(d) == s.report(
            pin_context(d, s.slot),
            PeripheralErrorView::PinAlreadyTaken { pin: pin_plan(d)[s.slot].0 },
        ).skip(),
        s.claim(d).bound == s.bound,
        s.claim(d).pins == s.pins,
        s.claim(d).errors == s.errors.push(
            crate::broker::InitErrorView {
                context: pin_context(d, s.slot),
                error: PeripheralErrorView::PinAlreadyTaken { pin: pin_plan(d)[s.slot].0 },
            },
        ),
{
}

} // verus!
