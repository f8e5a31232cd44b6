//! Channel exclusivity: in every state that binding reaches, each PWM channel that was
//! handed out drives at most one side of one motor.

use crate::bind::law_answered_exclusive;
use crate::broker::{outcome_view, Awaiting, BinderView, DeviceView};
use crate::layout::PeripheralsConfig;
use crate::ledger::{Fault, FaultView, PWM_CHANNELS};
use crate::plan::{
    declaration, declared_name, finishes_on_hardware, lemma_plan_extent, pin_plan, plan_len,
    DeclarationView, PinUse,
};
use vstd::prelude::*;

verus! {

impl BinderView {
    /// Whether the motor bound at `i` drives the channel `channel`.
    pub open spec fn drives(self, i: int, channel: u8) -> bool {
        0 <= i < self.bound.len() && self.bound[i].device is Motor && (
        self.bound[i].device->Motor_0.positive == channel
            || self.bound[i].device->Motor_0.negative == channel)
    }

    /// Whether the channels claimed for the step `d` are as many as its pins that were
    /// given one.
    pub open spec fn counted(self, d: DeclarationView) -> bool {
        if d is Motor {
            self.channels.len() == self.slot + (if self.awaiting is Open {
                1int
            } else {
                0int
            })
        } else {
            self.channels.len() == 0
        }
    }

    /// Channel exclusivity: every channel that a motor drives, or that is claimed for
    /// the step in progress, was handed out by the pool; no channel is driven by two
    /// motors or by both sides of one, or is both driven and claimed.
    pub open spec fn channels_exclusive(self) -> bool {
        &&& forall|i: int, c: u8| #[trigger]
            self.drives(i, c) ==> self.pwm is Some && c < self.pwm->0
        &&& forall|i: int, j: int, c: u8|
            #![trigger self.drives(i, c), self.drives(j, c)]
            self.drives(i, c) && self.drives(j, c) ==> i == j
        &&& forall|i: int|
            0 <= i < self.bound.len() && (#[trigger] self.bound[i]).device is Motor
                ==> self.bound[i].device->Motor_0.positive != self.bound[i].device->Motor_0.negative
        &&& self.channels.no_duplicates()
        &&& forall|c: u8| #[trigger]
            self.channels.contains(c) ==> self.pwm is Some && c < self.pwm->0
        &&& forall|i: int, c: u8| #[trigger] self.drives(i, c) ==> !self.channels.contains(c)
    }

    /// Channel exclusivity together with the count of the claimed channels, for a state
    /// that may still have steps of the plan before it.
    pub open spec fn channels_sound(self, layout: &PeripheralsConfig) -> bool {
        &&& self.channels_exclusive()
        &&& self.pwm is Some ==> self.pwm->0 <= PWM_CHANNELS
        &&& match declaration(layout, self.index) {
            Some(d) => self.awaiting is Nothing || self.counted(d),
            None => true,
        }
        &&& self.awaiting is Nothing ==> self.channels.len() == 0
        &&& self.index == 0 ==> self.pwm is None
    }
}

proof fn lemma_same_motors(s: BinderView, t: BinderView)
    requires
        s.channels_exclusive(),
        t.bound == s.bound,
        t.pwm == s.pwm,
        t.channels == s.channels || t.channels.len() == 0,
    ensures
        t.channels_exclusive(),
{
    assert forall|i: int, c: u8| #[trigger] t.drives(i, c) implies s.drives(i, c) by {}
    if t.channels.len() == 0 {
        assert forall|c: u8| !t.channels.contains(c) by {}
    }
}

proof fn lemma_bind_channels(s: BinderView, d: DeclarationView, name: Seq<char>, device: DeviceView)
    requires
        s.channels_exclusive(),
        device is Motor ==> s.channels.len() == 2 && device->Motor_0.positive == s.channels[0]
            && device->Motor_0.negative == s.channels[1],
    ensures
        s.bind(d, name, device).channels_exclusive(),
        s.bind(d, name, device).channels.len() == 0,
{
    let t = s.bind(d, name, device);
    if crate::broker::name_bound(s.bound, name) {
        lemma_same_motors(s, t);
    } else {
        let last = s.bound.len() as int;
        assert forall|c: u8| !t.channels.contains(c) by {}
        assert forall|i: int, c: u8| #[trigger] t.drives(i, c) implies (if i == last {
            device is Motor && s.channels.contains(c)
        } else {
            s.drives(i, c)
        }) by {
            if i != last {
                assert(t.bound[i] == s.bound[i]);
            } else {
                assert(s.channels[0] == device->Motor_0.positive);
                assert(s.channels[1] == device->Motor_0.negative);
            }
        }
        assert forall|i: int|
            0 <= i < t.bound.len() && (#[trigger] t.bound[i]).device is Motor implies
            t.bound[i].device->Motor_0.positive != t.bound[i].device->Motor_0.negative by {
            if i != last {
                assert(t.bound[i] == s.bound[i]);
            }
        }
        assert forall|i: int, j: int, c: u8|
            #![trigger t.drives(i, c), t.drives(j, c)]
            t.drives(i, c) && t.drives(j, c) implies i == j by {
            if i != last && j != last {
                assert(s.drives(i, c) && s.drives(j, c));
            } else if i != last {
                assert(s.drives(i, c));
            } else if j != last {
                assert(s.drives(j, c));
            }
        }
    }
}

proof fn lemma_conclude_channels(s: BinderView, d: DeclarationView)
    requires
        s.channels_exclusive(),
        d is Motor ==> s.channels.len() == 2,
        d is PwmTimer ==> s.pwm is None,
    ensures
        s.conclude(d).channels_exclusive(),
        s.conclude(d).channels.len() == 0,
        s.conclude(d).pwm == (if d is PwmTimer {
            Some(0nat)
        } else {
            s.pwm
        }),
{
    match d {
        DeclarationView::PwmTimer => {
            let t = s.conclude(d);
            assert forall|c: u8| !t.channels.contains(c) by {}
            assert forall|i: int, c: u8| #[trigger] t.drives(i, c) implies s.drives(i, c) by {}
            // before the timer runs no channel can have been handed out
            assert forall|i: int, c: u8| #[trigger] t.drives(i, c) implies false by {
                assert(s.drives(i, c));
            }
        },
        DeclarationView::Bus { .. } => {
            lemma_same_motors(s, s.conclude(d));
        },
        _ => match crate::broker::device_of(d, s.channels, s.bound) {
            Err(unknown) => {
                lemma_same_motors(s, s.conclude(d));
            },
            Ok(device) => {
                lemma_bind_channels(s, d, declared_name(d)->0, device);
            },
        },
    }
}

proof fn lemma_proceed_channels(s: BinderView, layout: &PeripheralsConfig, d: DeclarationView)
    requires
        s.channels_exclusive(),
        declaration(layout, s.index) == Some(d),
        0 <= s.slot <= pin_plan(d).len(),
        d is Motor ==> s.channels.len() == s.slot,
        !(d is Motor) ==> s.channels.len() == 0,
        d is PwmTimer ==> s.pwm is None,
        s.pwm is Some ==> s.pwm->0 <= PWM_CHANNELS,
    ensures
        s.proceed(d).channels_sound(layout),
{
    lemma_plan_extent(layout, s.index);
    let t = s.proceed(d);
    if s.slot < pin_plan(d).len() {
        lemma_same_motors(s, t);
    } else if finishes_on_hardware(d) {
        lemma_same_motors(s, t);
    } else {
        lemma_conclude_channels(s, d);
    }
}

proof fn lemma_begin_channels(s: BinderView, layout: &PeripheralsConfig, d: DeclarationView)
    requires
        s.steady(layout),
        s.channels_sound(layout),
        s.awaiting is Nothing,
        declaration(layout, s.index) == Some(d),
    ensures
        s.begin(d).channels_sound(layout),
{
    lemma_plan_extent(layout, s.index);
    if d is Motor && s.pwm is None {
        lemma_same_motors(s, s.begin(d));
    } else if d is Sensor && !s.bus {
        lemma_same_motors(s, s.begin(d));
    } else {
        lemma_proceed_channels(s, layout, d);
    }
}

proof fn lemma_react_channels(
    s: BinderView,
    layout: &PeripheralsConfig,
    d: DeclarationView,
    outcome: Result<(), FaultView>,
)
    requires
        s.steady(layout),
        s.channels_sound(layout),
        !(s.awaiting is Nothing),
        declaration(layout, s.index) == Some(d),
    ensures
        s.react(d, outcome).channels_sound(layout),
{
    lemma_plan_extent(layout, s.index);
    let t = s.react(d, outcome);
    let next = BinderView { slot: s.slot + 1, ..s };
    match s.awaiting {
        Awaiting::Nothing => {},
        Awaiting::Probe => match outcome {
            Err(_) => {
                lemma_same_motors(s, t);
            },
            Ok(_) => match pin_plan(d)[s.slot].1 {
                PinUse::Bidirectional => {
                    lemma_same_motors(s, next);
                    lemma_proceed_channels(next, layout, d);
                },
                PinUse::Pwm => {
                    if s.pwm is Some && s.pwm->0 < PWM_CHANNELS {
                        let fresh = s.pwm->0 as u8;
                        assert forall|i: int, c: u8| #[trigger] t.drives(i, c) implies s.drives(
                            i,
                            c,
                        ) by {}
                        assert(!s.channels.contains(fresh));
                        assert forall|c: u8| #[trigger] t.channels.contains(c) implies t.pwm is Some
                            && c < t.pwm->0 by {
                            let k = choose|k: int| 0 <= k < t.channels.len() && t.channels[k] == c;
                            if k < s.channels.len() {
                                assert(s.channels[k] == c);
                                assert(s.channels.contains(c));
                            }
                        }
                        assert(t.channels.no_duplicates()) by {
                            assert forall|a: int, b: int|
                                0 <= a < t.channels.len() && 0 <= b < t.channels.len() && a
                                    != b implies t.channels[a] != t.channels[b] by {
                                if a < s.channels.len() {
                                    assert(s.channels.contains(s.channels[a]));
                                }
                                if b < s.channels.len() {
                                    assert(s.channels.contains(s.channels[b]));
                                }
                            }
                        }
                        assert forall|i: int, c: u8| #[trigger] t.drives(i, c) implies
                            !t.channels.contains(c) by {
                            assert(s.drives(i, c));
                            if t.channels.contains(c) {
                                let k = choose|k: int|
                                    0 <= k < t.channels.len() && t.channels[k] == c;
                                if k < s.channels.len() {
                                    assert(s.channels[k] == c);
                                    assert(s.channels.contains(c));
                                }
                            }
                        }
                    } else {
                        lemma_same_motors(s, t);
                    }
                },
                _ => {
                    lemma_same_motors(s, t);
                },
            },
        },
        Awaiting::Open => match outcome {
            Err(_) => {
                lemma_same_motors(s, t);
            },
            Ok(_) => {
                lemma_same_motors(s, next);
                lemma_proceed_channels(next, layout, d);
            },
        },
        Awaiting::Finish => match outcome {
            Err(_) => {
                lemma_same_motors(s, t);
            },
            Ok(_) => {
                lemma_conclude_channels(s, d);
            },
        },
    }
}

proof fn lemma_settle_channels(s: BinderView, layout: &PeripheralsConfig)
    requires
        s.steady(layout),
        s.channels_sound(layout),
    ensures
        s.settle(layout).channels_sound(layout),
    decreases plan_len(layout) - s.index,
{
    lemma_plan_extent(layout, s.index);
    if s.awaiting is Nothing {
        match declaration(layout, s.index) {
            None => {},
            Some(d) => {
                crate::broker::lemma_begin_steady(s, layout, d);
                lemma_begin_channels(s, layout, d);
                let next = s.begin(d);
                if next.index == s.index + 1 && s.index < plan_len(layout) {
                    lemma_settle_channels(next, layout);
                }
            },
        }
    }
}

/// Channel exclusivity holds in every state that binding reaches, whatever the hardware
/// answers.
pub proof fn law_answered_channels_exclusive(
    layout: &PeripheralsConfig,
    answers: Seq<Result<(), Fault>>,
    n: int,
)
    ensures
        BinderView::answered(layout, answers, n).channels_exclusive(),
        BinderView::answered(layout, answers, n).channels_sound(layout),
    decreases n,
{
    if n <= 0 {
        let s = BinderView::initial();
        assert forall|c: u8| !s.channels.contains(c) by {}
        lemma_settle_channels(s, layout);
    } else {
        law_answered_channels_exclusive(layout, answers, n - 1);
        law_answered_exclusive(layout, answers, n - 1);
        let s = BinderView::answered(layout, answers, n - 1);
        let outcome = outcome_view(answers[n - 1]);
        lemma_plan_extent(layout, s.index);
        match declaration(layout, s.index) {
            Some(d) => {
                if !(s.awaiting is Nothing) {
                    crate::broker::lemma_react_steady(s, layout, d, outcome);
                    lemma_react_channels(s, layout, d, outcome);
                }
                lemma_settle_channels(s.react(d, outcome), layout);
            },
            None => {},
        }
    }
}

} // verus!
