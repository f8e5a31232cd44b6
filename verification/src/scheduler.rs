//! The decisions of the scheduler loop: when to sleep, when to collect, what a command
//! of the operator means, and what is said of a project that was or was not loaded.

use crate::ring::keeps;
use crate::runtime::{
    law_commands_in_order, queued, taken_after, Input, RuntimeContext, ServerCommand,
    OUTPUT_BUFFER_SIZE,
};
use netsblox_vm::ast::Role;
use vstd::prelude::*;
use vstd::string::*;

verus! {

/// After how many steps in a row without work the loop sleeps.
pub const YIELDS_BEFORE_IDLE_SLEEP: usize = 256;

/// How long the loop sleeps then, in milliseconds: the shortest sleep that is one.
pub const IDLE_SLEEP_TIME: u64 = 1;

/// How many steps the project is given between two looks at the commands.
pub const STEP_BATCH_SIZE: usize = 128;

/// After more than this many steps a collection is due.
pub const STEPS_BETWEEN_GC: usize = 1024;

/// What a step of the project came to.
#[derive(Debug, Clone, Copy, PartialEq, Eq, Structural)]
pub enum StepKind {
    /// No process was there to run.
    Idle,
    /// The process that ran yielded.
    Yield,
    Normal,
    ProcessTerminated,
    Error,
    Watcher,
    /// The process that ran asked for a pause of the project.
    Pause,
}

impl StepKind {
    /// Whether the step did no work.
    pub open spec fn idle(self) -> bool {
        self == StepKind::Idle || self == StepKind::Yield || self == StepKind::Pause
    }

    /// Whether the step did no work.
    pub fn is_idle(&self) -> (idle: bool)
        ensures
            idle == self.idle(),
    {
        match self {
            StepKind::Idle => true,
            StepKind::Yield => true,
            StepKind::Pause => true,
            _ => false,
        }
    }
}

/// The count of idle steps in a row after one more step, and whether the loop sleeps
/// on that step: it does when the count reaches `thresh`, and the count starts anew.
pub open spec fn consumed(count: nat, thresh: nat, step: StepKind) -> (nat, bool) {
    if !step.idle() {
        (0, false)
    } else if count + 1 >= thresh {
        (0, true)
    } else {
        (count + 1, false)
    }
}

/// The count after a run of steps, oldest first.
pub open spec fn consumed_all(count: nat, thresh: nat, steps: Seq<StepKind>) -> nat
    decreases steps.len(),
{
    if steps.len() == 0 {
        count
    } else {
        consumed_all(consumed(count, thresh, steps[0]).0, thresh, steps.skip(1))
    }
}

/// The hysteresis around idleness: it lets the loop sleep only after enough steps in
/// a row that did no work.
#[derive(Debug)]
pub struct IdleSleeper {
    count: usize,
    thresh: usize,
}

impl IdleSleeper {
    /// How many idle steps in a row were seen since the last sleep or the last work.
    pub closed spec fn count(&self) -> nat {
        self.count as nat
    }

    /// The number of idle steps in a row at which the loop sleeps.
    pub closed spec fn thresh(&self) -> nat {
        self.thresh as nat
    }

    #[verifier::type_invariant]
    spec fn bounded(&self) -> bool {
        self.count == 0 || self.count < self.thresh
    }

    /// A sleeper that has seen no step yet.
    pub fn new(thresh: usize) -> (sleeper: IdleSleeper)
        ensures
            sleeper.count() == 0,
            sleeper.thresh() == thresh,
    {
        IdleSleeper { count: 0, thresh }
    }

    /// Takes note of a step and says whether the loop is to sleep now.
    pub fn consume(&mut self, step: StepKind) -> (sleep: bool)
        ensures
            final(self).thresh() == old(self).thresh(),
            (final(self).count(), sleep) == consumed(old(self).count(), old(self).thresh(), step),
    {
        proof {
            use_type_invariant(&*self);
        }
        if !step.is_idle() {
            self.count = 0;
            false
        } else if self.count + 1 >= self.thresh {
            self.count = 0;
            true
        } else {
            self.count = self.count + 1;
            false
        }
    }
}

/// Runs of idle steps that are all idle.
pub open spec fn all_idle(steps: Seq<StepKind>) -> bool {
    forall|i: int| 0 <= i < steps.len() ==> (#[trigger] steps[i]).idle()
}

/// The hysteresis: from a fresh count, fewer idle steps in a row than the threshold
/// never let the loop sleep, and are counted; the step that makes the threshold full
/// lets it sleep and starts the count anew; a step that did work starts it anew without
/// a sleep.
pub proof fn law_idle_hysteresis(thresh: nat, steps: Seq<StepKind>, next: StepKind)
    requires
        all_idle(steps),
        steps.len() < thresh,
    ensures
        consumed_all(0, thresh, steps) == steps.len(),
        next.idle() ==> consumed(steps.len(), thresh, next) == (if steps.len() + 1 == thresh {
            (0nat, true)
        } else {
            ((steps.len() + 1) as nat, false)
        }),
        !next.idle() ==> consumed(steps.len(), thresh, next) == (0nat, false),
{
    lemma_idle_counts(0, thresh, steps);
}

proof fn lemma_idle_counts(count: nat, thresh: nat, steps: Seq<StepKind>)
    requires
        all_idle(steps),
        count + steps.len() < thresh,
    ensures
        consumed_all(count, thresh, steps) == count + steps.len(),
    decreases steps.len(),
{
    if steps.len() > 0 {
        assert(steps[0].idle());
        assert forall|i: int| 0 <= i < steps.skip(1).len() implies (#[trigger] steps.skip(
            1,
        )[i]).idle() by {
            assert(steps.skip(1)[i] == steps[i + 1]);
        }
        lemma_idle_counts(count + 1, thresh, steps.skip(1));
    }
}

/// The steps counted since the last collection, after one more step. The count stops
/// at the largest number that the machine holds.
pub open spec fn counted(steps: usize) -> usize {
    if steps < usize::MAX {
        (steps + 1) as usize
    } else {
        steps
    }
}

/// The bookkeeping of the loop between two collections.
#[derive(Debug)]
pub struct Scheduler {
    steps_since_gc: usize,
    idle: IdleSleeper,
}

impl Scheduler {
    /// The steps made since the last collection.
    pub closed spec fn steps_since_gc(&self) -> usize {
        self.steps_since_gc
    }

    /// The idle steps in a row since the last sleep or the last work.
    pub closed spec fn idle_count(&self) -> nat {
        self.idle.count()
    }

    /// The invariant of the scheduler: it sleeps at the fixed threshold.
    pub closed spec fn sound(&self) -> bool {
        self.idle.thresh() == YIELDS_BEFORE_IDLE_SLEEP
    }

    /// The bookkeeping at the start of the loop.
    pub fn new() -> (scheduler: Scheduler)
        ensures
            scheduler.sound(),
            scheduler.steps_since_gc() == 0,
            scheduler.idle_count() == 0,
    {
        Scheduler { steps_since_gc: 0, idle: IdleSleeper::new(YIELDS_BEFORE_IDLE_SLEEP) }
    }

    /// Takes note of a step of the project and says whether the loop is to sleep now.
    pub fn note_step(&mut self, step: StepKind) -> (sleep: bool)
        requires
            old(self).sound(),
        ensures
            final(self).sound(),
            final(self).steps_since_gc() == counted(old(self).steps_since_gc()),
            (final(self).idle_count(), sleep) == consumed(
                old(self).idle_count(),
                YIELDS_BEFORE_IDLE_SLEEP as nat,
                step,
            ),
    {
        if self.steps_since_gc < usize::MAX {
            self.steps_since_gc = self.steps_since_gc + 1;
        }
        self.idle.consume(step)
    }

    /// Says at the end of a batch whether a collection is due, and if so starts to count
    /// anew.
    pub fn end_batch(&mut self) -> (collect: bool)
        ensures
            collect == (old(self).steps_since_gc() > STEPS_BETWEEN_GC),
            final(self).steps_since_gc() == (if collect {
                0
            } else {
                old(self).steps_since_gc()
            }),
            final(self).idle_count() == old(self).idle_count(),
            old(self).sound() ==> final(self).sound(),
    {
        if self.steps_since_gc > STEPS_BETWEEN_GC {
            self.steps_since_gc = 0;
            true
        } else {
            false
        }
    }
}

/// What the loop does with a command.
#[derive(Debug)]
pub enum Action {
    /// Nothing: no command waited.
    Nothing,
    /// Load the project that this XML describes and report how that went.
    Load(String),
    /// Hand the input to the running project.
    Inject(Input),
}

/// The action that a command asks for.
pub open spec fn action_for(command: Option<ServerCommand>) -> Action {
    match command {
        None => Action::Nothing,
        Some(ServerCommand::SetProject(xml)) => Action::Load(xml),
        Some(ServerCommand::Input(input)) => Action::Inject(input),
    }
}

/// Takes the oldest command, if one waits, and says what is to be done. An input of
/// `Start` ends a pause at once.
pub fn next_action(context: &mut RuntimeContext) -> (action: Action)
    ensures
        action == action_for(
            if old(context).commands().len() > 0 {
                Some(old(context).commands()[0])
            } else {
                None
            },
        ),
        final(context).commands() == (if old(context).commands().len() > 0 {
            old(context).commands().skip(1)
        } else {
            old(context).commands()
        }),
        final(context).is_running() == (old(context).is_running() || action == Action::Inject(
            Input::Start,
        )),
        final(context).output() == old(context).output(),
        final(context).errors() == old(context).errors(),
        old(context).sound() ==> final(context).sound(),
{
    match context.take_command() {
        None => Action::Nothing,
        Some(ServerCommand::SetProject(xml)) => Action::Load(xml),
        Some(ServerCommand::Input(input)) => {
            context.apply_input(input);
            Action::Inject(input)
        },
    }
}

/// Why a project could not be opened.
#[derive(Debug)]
pub enum OpenProjectError {
    /// The XML could not be read; the text says why.
    ParseError(String),
    NoRoles,
    MultipleRoles,
}

/// An error of opening a project as the output shows it: its name, and for a text that
/// could not be read the reason between brackets.
pub open spec fn open_error_text(error: OpenProjectError) -> Seq<char> {
    match error {
        OpenProjectError::ParseError(reason) => "ParseError("@ + reason@ + ")"@,
        OpenProjectError::NoRoles => "NoRoles"@,
        OpenProjectError::MultipleRoles => "MultipleRoles"@,
    }
}

impl OpenProjectError {
    /// Writes the error as the output shows it.
    pub fn describe(&self) -> (text: String)
        ensures
            text@ == open_error_text(*self),
    {
        match self {
            OpenProjectError::ParseError(reason) => {
                let mut text = String::from_str("ParseError(");
                text.append(reason.as_str());
                text.append(")");
                text
            },
            OpenProjectError::NoRoles => String::from_str("NoRoles"),
            OpenProjectError::MultipleRoles => String::from_str("MultipleRoles"),
        }
    }
}

/// `netsblox_vm::ast::Role`, taken as it is: a role is handed on and never looked into.
#[verifier::external_type_specification]
#[verifier::external_body]
pub struct ExRole(Role);

/// Picks the one role of a project.
pub fn single_role(roles: Vec<Role>) -> (role: Result<Role, OpenProjectError>)
    ensures
        match role {
            Ok(role) => roles@.len() == 1 && role == roles@[0],
            Err(OpenProjectError::NoRoles) => roles@.len() == 0,
            Err(OpenProjectError::MultipleRoles) => roles@.len() > 1,
            Err(OpenProjectError::ParseError(_)) => false,
        },
{
    let mut roles = roles;
    if roles.len() == 0 {
        Err(OpenProjectError::NoRoles)
    } else if roles.len() == 1 {
        Ok(roles.remove(0))
    } else {
        Err(OpenProjectError::MultipleRoles)
    }
}

/// Opens a project from what reading its text gave: its roles, or the reason for which
/// it could not be read. A project that was read must have exactly one role.
pub fn open_project(parsed: Result<Vec<Role>, String>) -> (role: Result<Role, OpenProjectError>)
    ensures
        match role {
            Ok(role) => parsed is Ok && parsed->Ok_0@.len() == 1 && role == parsed->Ok_0@[0],
            Err(OpenProjectError::NoRoles) => parsed is Ok && parsed->Ok_0@.len() == 0,
            Err(OpenProjectError::MultipleRoles) => parsed is Ok && parsed->Ok_0@.len() > 1,
            Err(OpenProjectError::ParseError(reason)) => parsed == Err::<Vec<Role>, String>(
                reason,
            ),
        },
{
    match parsed {
        Ok(roles) => single_role(roles),
        Err(reason) => Err(OpenProjectError::ParseError(reason)),
    }
}

/// What the output says of a project that was loaded.
pub open spec fn updated_notice() -> Seq<char> {
    "\n>>> updated project\n"@
}

/// What the output says of a project that could not be loaded, for the reason `reason`.
pub open spec fn failed_notice(reason: Seq<char>) -> Seq<char> {
    "\n>>> failed to load project: "@ + reason + "\n>>> keeping old project\n"@
}

/// The notice for the outcome of loading a project.
pub open spec fn load_notice(outcome: Result<(), String>) -> Seq<char> {
    match outcome {
        Ok(_) => updated_notice(),
        Err(reason) => failed_notice(reason@),
    }
}

/// Reports how loading a project went: the notice goes to the output and is handed back
/// for the console. Says also whether the new project takes the place of the old one
/// and is to be stored: only a project that was loaded does.
pub fn project_loaded(context: &mut RuntimeContext, outcome: Result<(), String>) -> (told: (
    bool,
    String,
))
    requires
        old(context).sound(),
    ensures
        final(context).sound(),
        told.0 == outcome is Ok,
        told.1@ == load_notice(outcome),
        keeps(
            old(context).output() + load_notice(outcome) + seq!['\n'],
            OUTPUT_BUFFER_SIZE as nat,
            final(context).output(),
        ),
        final(context).errors() == old(context).errors(),
        final(context).commands() == old(context).commands(),
        final(context).is_running() == old(context).is_running(),
{
    match outcome {
        Ok(_) => {
            let notice = String::from_str("\n>>> updated project\n");
            context.print(notice.as_str());
            (true, notice)
        },
        Err(reason) => {
            let mut notice = String::from_str("\n>>> failed to load project: ");
            notice.append(reason.as_str());
            notice.append("\n>>> keeping old project\n");
            context.print(notice.as_str());
            (false, notice)
        },
    }
}

/// Command FIFO at the loop: the actions that the loop is told follow the order in which
/// the commands were queued. Of the commands `added` to a queue, the `i`-th gives the
/// action that is taken after all that waited before and after the `i` added before it.
pub proof fn law_actions_in_order(waiting: Seq<ServerCommand>, added: Seq<ServerCommand>, i: int)
    requires
        0 <= i < added.len(),
    ensures
        action_for(
            Some(taken_after(queued(waiting, added, added.len() as int), waiting.len() + i)),
        ) == action_for(Some(added[i])),
{
    law_commands_in_order(waiting, added, i);
}

} // verus!
