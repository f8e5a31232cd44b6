//! Binding as one call: the broker is run to its end against hardware that answers
//! each request.

use crate::broker::{
    outcome_view, Awaiting, Binder, BinderView, InitError, InitErrorView, Request,
};
use crate::dispatch::Peripherals;
use crate::layout::PeripheralsConfig;
use crate::ledger::{Fault, FaultView};
use crate::menu::{menu_of, SyscallMenu, SyscallMenuView};
use crate::plan::{declaration, lemma_plan_extent, pin_plan, plan_len, DeclarationView};
use vstd::prelude::*;

verus! {

impl BinderView {
    /// How far binding has come: six for every step of the plan that is left behind,
    /// and within a step two for every pin set up, one more once a pin is probed, five
    /// once only the request that ends the step is open.
    pub open spec fn progress(self) -> int {
        6 * self.index + match self.awaiting {
            Awaiting::Nothing => 0,
            Awaiting::Probe => 2 * self.slot,
            Awaiting::Open => 2 * self.slot + 1,
            Awaiting::Finish => 5,
        }
    }

    /// The state after the first `n` of `answers` were given, each to the request that
    /// was pending then.
    pub open spec fn answered(layout: &PeripheralsConfig, answers: Seq<Result<(), Fault>>, n: int)
        -> BinderView
        decreases n,
    {
        if n <= 0 {
            Self::start(layout)
        } else {
            Self::answered(layout, answers, n - 1).respond(layout, outcome_view(answers[n - 1]))
        }
    }
}

proof fn lemma_settle_progress(s: BinderView, layout: &PeripheralsConfig)
    requires
        s.steady(layout),
    ensures
        s.settle(layout).progress() >= s.progress(),
    decreases plan_len(layout) - s.index,
{
    lemma_plan_extent(layout, s.index);
    if s.awaiting is Nothing {
        match declaration(layout, s.index) {
            None => {},
            Some(d) => {
                crate::broker::lemma_begin_steady(s, layout, d);
                let next = s.begin(d);
                if next.index == s.index + 1 && s.index < plan_len(layout) {
                    lemma_settle_progress(next, layout);
                }
            },
        }
    }
}

proof fn lemma_react_progress(
    s: BinderView,
    layout: &PeripheralsConfig,
    d: DeclarationView,
    outcome: Result<(), FaultView>,
)
    requires
        s.steady(layout),
        !(s.awaiting is Nothing),
        declaration(layout, s.index) == Some(d),
    ensures
        s.react(d, outcome).progress() > s.progress(),
{
    assert(pin_plan(d).len() <= 2);
}

/// Every answer brings binding forward, and binding that is brought forward ends: the
/// progress of a state grows with each answer and never passes six times the length of
/// the plan.
pub proof fn law_respond_progress(
    s: BinderView,
    layout: &PeripheralsConfig,
    outcome: Result<(), FaultView>,
)
    requires
        s.fits(layout),
        !(s.awaiting is Nothing),
    ensures
        s.respond(layout, outcome).progress() > s.progress(),
        s.respond(layout, outcome).progress() <= 6 * plan_len(layout),
{
    lemma_plan_extent(layout, s.index);
    let d = declaration(layout, s.index)->0;
    lemma_react_progress(s, layout, d, outcome);
    crate::broker::lemma_react_steady(s, layout, d, outcome);
    lemma_settle_progress(s.react(d, outcome), layout);
    crate::broker::law_respond_fits(s, layout, outcome);
    assert(pin_plan(declaration(layout, s.respond(layout, outcome).index)->0).len() <= 2);
}

/// Every state that binding reaches is sound, whatever the hardware answers: it fits the
/// plan, no pin is owned twice or left untaken in the ledger, and no name is bound twice.
pub proof fn law_answered_exclusive(layout: &PeripheralsConfig, answers: Seq<Result<(), Fault>>, n: int)
    ensures
        BinderView::answered(layout, answers, n).fits(layout),
        BinderView::answered(layout, answers, n).exclusive(),
    decreases n,
{
    if n <= 0 {
        crate::broker::law_start_exclusive(layout);
    } else {
        law_answered_exclusive(layout, answers, n - 1);
        crate::broker::law_respond_exclusive(
            BinderView::answered(layout, answers, n - 1),
            layout,
            outcome_view(answers[n - 1]),
        );
    }
}

/// Whether `done` is what binding `layout` gives when the hardware answers the
/// requests, in order, with `answers`: each answer is one that `hardware` can give to
/// the request pending then, after the last no request is pending, and `done` holds
/// the devices bound, their menu and the errors collected.
pub open spec fn bound_by<H: Fn(Request) -> Result<(), Fault>>(
    hardware: H,
    layout: &PeripheralsConfig,
    answers: Seq<Result<(), Fault>>,
    done: (Seq<crate::broker::BoundView>, Seq<SyscallMenuView>, Seq<InitErrorView>),
) -> bool {
    let end = BinderView::answered(layout, answers, answers.len() as int);
    &&& forall|i: int|
        0 <= i < answers.len() ==> call_ensures(
            hardware,
            (#[trigger] BinderView::answered(layout, answers, i).request(layout),),
            answers[i],
        )
    &&& end.awaiting is Nothing
    &&& done.0 == end.bound
    &&& done.1 == menu_of(end.bound)
    &&& done.2 == end.errors
}

proof fn lemma_run_extend(
    layout: &PeripheralsConfig,
    answers: Seq<Result<(), Fault>>,
    answer: Result<(), Fault>,
    n: int,
)
    requires
        0 <= n <= answers.len(),
    ensures
        BinderView::answered(layout, answers.push(answer), n) == BinderView::answered(layout, answers, n),
    decreases n,
{
    if n > 0 {
        lemma_run_extend(layout, answers, answer, n - 1);
        assert(answers.push(answer)[n - 1] == answers[n - 1]);
    }
}

/// Binds the layout `peripherals_config` on the hardware that `hardware` stands for:
/// every request of the broker is handed to it, and its answer back to the broker,
/// until nothing is left to ask. Errors are collected, not raised: what could be bound
/// is bound.
pub fn bind_syscalls<H: Fn(Request) -> Result<(), Fault>>(
    hardware: H,
    peripherals_config: PeripheralsConfig,
) -> (done: (Peripherals, Vec<SyscallMenu>, Vec<InitError>))
    requires
        forall|request: Request| call_requires(hardware, (request,)),
    ensures
        exists|answers: Seq<Result<(), Fault>>|
            bound_by(
                hardware,
                &peripherals_config,
                answers,
                (done.0@, done.1.deep_view(), done.2.deep_view()),
            ),
{
    let mut binder = Binder::new(peripherals_config);
    let ghost layout = &peripherals_config;
    let ghost mut answers: Seq<Result<(), Fault>> = Seq::empty();
    loop
        invariant
            binder.sound(),
            binder.layout() == layout,
            binder@ == BinderView::answered(layout, answers, answers.len() as int),
            forall|request: Request| call_requires(hardware, (request,)),
            forall|i: int|
                0 <= i < answers.len() ==> call_ensures(
                    hardware,
                    (#[trigger] BinderView::answered(layout, answers, i).request(layout),),
                    answers[i],
                ),
        ensures
            binder@.awaiting is Nothing,
        decreases 6 * plan_len(layout) - binder@.progress(),
    {
        let request = binder.request();
        if request == Request::Done {
            proof {
                lemma_plan_extent(layout, binder@.index);
            }
            break ;
        }
        let answer = hardware(request);
        proof {
            law_respond_progress(binder@, layout, outcome_view(answer));
            let longer = answers.push(answer);
            assert forall|i: int| 0 <= i < longer.len() implies call_ensures(
                hardware,
                (#[trigger] BinderView::answered(layout, longer, i).request(layout),),
                longer[i],
            ) by {
                lemma_run_extend(layout, answers, answer, i);
                if i < answers.len() {
                    assert(longer[i] == answers[i]);
                }
            }
            lemma_run_extend(layout, answers, answer, answers.len() as int);
            answers = longer;
        }
        binder.respond(answer);
    }
    let (peripherals, errors) = binder.finish();
    let menu = peripherals.menu();
    let done = (peripherals, menu, errors);
    assert(bound_by(
        hardware,
        &peripherals_config,
        answers,
        (done.0@, done.1.deep_view(), done.2.deep_view()),
    ));
    done
}

} // verus!
