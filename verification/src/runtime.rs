//! The runtime context that the scheduler and the control plane share: the pause flag,
//! the rings of output and errors, and the queue of commands.

use crate::ring::{keeps, size, whole_lines, LineRing};
use crate::text::{debug_text, lines_of, quoted, split_lines};
use std::collections::VecDeque;
use vstd::prelude::*;
use vstd::string::*;

verus! {

/// The most bytes of output that are kept between two polls.
pub const OUTPUT_BUFFER_SIZE: usize = 32 * 1024;

/// The most bytes of errors that are kept between two polls.
pub const ERROR_BUFFER_SIZE: usize = 32 * 1024;

/// Input from the operator to the running project.
#[derive(Debug, Clone, Copy, PartialEq, Eq, Structural)]
pub enum Input {
    Start,
    Stop,
}

/// A command of the operator, to be applied by the scheduler.
#[derive(Debug)]
pub enum ServerCommand {
    /// Replace the project by the one that this XML describes.
    SetProject(String),
    Input(Input),
}

/// What a poll of the status returns.
#[derive(Debug)]
pub struct Status {
    pub running: bool,
    pub output: String,
    /// The errors, one per line of the ring of errors.
    pub errors: Vec<String>,
}

/// Whether a text lies on one line.
pub open spec fn one_line(text: Seq<char>) -> bool {
    forall|i: int| 0 <= i < text.len() ==> text[i] != '\n'
}

/// Says whether a text lies on one line.
pub fn one_line_text(text: &str) -> (single: bool)
    ensures
        single == one_line(text@),
{
    let mut single = true;
    for c in it: text.chars()
        invariant
            it.seq() == text@,
            single == (forall|i: int| 0 <= i < it.index() ==> text@[i] != '\n'),
    {
        if c == '\n' {
            single = false;
        }
    }
    single
}

/// The line with which a new context greets.
pub open spec fn greeting() -> Seq<char> {
    "\n>>> booting...\n"@
}

/// What the output shows when the entity `entity` prints `value`.
pub open spec fn spoken(entity: Seq<char>, value: Seq<char>) -> Seq<char> {
    entity + " > "@ + value
}

/// What the output shows for an error with the cause `cause`.
pub open spec fn error_notice(cause: Seq<char>) -> Seq<char> {
    "\n>>> error "@ + cause + "\n"@
}

/// What the scheduler and the handlers of the control plane share.
pub struct RuntimeContext {
    running: bool,
    output: LineRing,
    errors: LineRing,
    commands: VecDeque<ServerCommand>,
}

impl RuntimeContext {
    /// Whether the project is stepped.
    pub closed spec fn is_running(&self) -> bool {
        self.running
    }

    /// The output that waits for the next poll.
    pub closed spec fn output(&self) -> Seq<char> {
        self.output@
    }

    /// The errors that wait for the next poll, one per line.
    pub closed spec fn errors(&self) -> Seq<char> {
        self.errors@
    }

    /// The commands that wait for the scheduler, oldest first.
    pub closed spec fn commands(&self) -> Seq<ServerCommand> {
        self.commands@
    }

    /// The invariant of the context: both rings are sound and have their limits.
    pub closed spec fn sound(&self) -> bool {
        &&& self.output.sound()
        &&& self.errors.sound()
        &&& self.output.limit() == OUTPUT_BUFFER_SIZE
        &&& self.errors.limit() == ERROR_BUFFER_SIZE
    }

    /// Ring granularity at the context: whatever was printed and reported, the output
    /// and the errors of a sound context are whole lines, and neither is longer than its
    /// limit.
    pub proof fn law_rings_within_limit(&self)
        requires
            self.sound(),
        ensures
            whole_lines(self.output()),
            size(self.output()) <= OUTPUT_BUFFER_SIZE,
            whole_lines(self.errors()),
            size(self.errors()) <= ERROR_BUFFER_SIZE,
    {
        self.output.law_ring_within_limit();
        self.errors.law_ring_within_limit();
    }

    /// A context at boot: running, with the greeting in the output, no errors and no
    /// commands.
    pub fn new() -> (context: RuntimeContext)
        ensures
            context.sound(),
            context.is_running(),
            keeps(greeting() + seq!['\n'], OUTPUT_BUFFER_SIZE as nat, context.output()),
            context.errors() == Seq::<char>::empty(),
            context.commands() == Seq::<ServerCommand>::empty(),
    {
        let mut output = LineRing::new(OUTPUT_BUFFER_SIZE);
        let errors = LineRing::new(ERROR_BUFFER_SIZE);
        output.push_line("\n>>> booting...\n");
        assert(Seq::<char>::empty() + greeting() + seq!['\n'] =~= greeting() + seq!['\n']);
        RuntimeContext { running: true, output, errors, commands: VecDeque::new() }
    }

    /// Whether the project is stepped.
    pub fn running(&self) -> (running: bool)
        ensures
            running == self.is_running(),
    {
        self.running
    }

    /// Flips the pause flag.
    pub fn toggle_paused(&mut self)
        ensures
            final(self).is_running() == !old(self).is_running(),
            final(self).output() == old(self).output(),
            final(self).errors() == old(self).errors(),
            final(self).commands() == old(self).commands(),
            old(self).sound() ==> final(self).sound(),
    {
        self.running = !self.running;
    }

    /// Adds `text` and a line end to the output. Where the output then passes its
    /// limit, its oldest lines leave.
    pub fn print(&mut self, text: &str)
        requires
            old(self).sound(),
        ensures
            final(self).sound(),
            keeps(
                old(self).output() + text@ + seq!['\n'],
                OUTPUT_BUFFER_SIZE as nat,
                final(self).output(),
            ),
            final(self).errors() == old(self).errors(),
            final(self).commands() == old(self).commands(),
            final(self).is_running() == old(self).is_running(),
    {
        self.output.push_line(text);
    }

    /// Adds what the entity `entity` prints to the output, and hands back the line for
    /// the console.
    pub fn say(&mut self, entity: &str, value: &str) -> (line: String)
        requires
            old(self).sound(),
        ensures
            final(self).sound(),
            line@ == spoken(entity@, value@),
            keeps(
                old(self).output() + spoken(entity@, value@) + seq!['\n'],
                OUTPUT_BUFFER_SIZE as nat,
                final(self).output(),
            ),
            final(self).errors() == old(self).errors(),
            final(self).commands() == old(self).commands(),
            final(self).is_running() == old(self).is_running(),
    {
        let mut line = String::from_str(entity);
        line.append(" > ");
        line.append(value);
        self.output.push_line(line.as_str());
        line
    }

    /// Records an error of the running project: a notice with its cause goes to the
    /// output, and `summary`, which lies on one line, becomes a line of the errors.
    pub fn report_error(&mut self, cause: &str, summary: &str)
        requires
            old(self).sound(),
            one_line(summary@),
        ensures
            final(self).sound(),
            keeps(
                old(self).output() + error_notice(cause@) + seq!['\n'],
                OUTPUT_BUFFER_SIZE as nat,
                final(self).output(),
            ),
            keeps(
                old(self).errors() + summary@ + seq!['\n'],
                ERROR_BUFFER_SIZE as nat,
                final(self).errors(),
            ),
            final(self).commands() == old(self).commands(),
            final(self).is_running() == old(self).is_running(),
    {
        let mut notice = String::from_str("\n>>> error ");
        notice.append(cause);
        notice.append("\n");
        self.output.push_line(notice.as_str());
        self.errors.push_line(summary);
    }

    /// Puts a command at the end of the queue.
    pub fn enqueue(&mut self, command: ServerCommand)
        ensures
            final(self).commands() == old(self).commands().push(command),
            final(self).output() == old(self).output(),
            final(self).errors() == old(self).errors(),
            final(self).is_running() == old(self).is_running(),
            old(self).sound() ==> final(self).sound(),
    {
        self.commands.push_back(command);
    }

    /// Takes the oldest command from the queue, if there is one.
    pub fn take_command(&mut self) -> (command: Option<ServerCommand>)
        ensures
            match command {
                Some(c) => old(self).commands().len() > 0 && c == old(self).commands()[0]
                    && final(self).commands() == old(self).commands().skip(1),
                None => old(self).commands().len() == 0 && final(self).commands() == old(
                    self,
                ).commands(),
            },
            final(self).output() == old(self).output(),
            final(self).errors() == old(self).errors(),
            final(self).is_running() == old(self).is_running(),
            old(self).sound() ==> final(self).sound(),
    {
        let command = self.commands.pop_front();
        proof {
            if command is Some {
                assert(self.commands@ =~= old(self).commands@.skip(1));
            }
        }
        command
    }

    /// Applies an input of the operator to the context: a start also ends a pause.
    /// The input itself is for the project.
    pub fn apply_input(&mut self, input: Input)
        ensures
            final(self).is_running() == (old(self).is_running() || input == Input::Start),
            final(self).output() == old(self).output(),
            final(self).errors() == old(self).errors(),
            final(self).commands() == old(self).commands(),
            old(self).sound() ==> final(self).sound(),
    {
        match input {
            Input::Start => {
                self.running = true;
            },
            Input::Stop => {},
        }
    }

    /// Takes the status for a poll: the flag, all output and all errors. Both rings are
    /// empty afterwards.
    pub fn pull(&mut self) -> (status: Status)
        requires
            old(self).sound(),
        ensures
            final(self).sound(),
            status.running == old(self).is_running(),
            status.output@ == old(self).output(),
            status.errors.deep_view() == lines_of(old(self).errors()),
            final(self).output() == Seq::<char>::empty(),
            final(self).errors() == Seq::<char>::empty(),
            final(self).commands() == old(self).commands(),
            final(self).is_running() == old(self).is_running(),
    {
        let output = self.output.drain();
        let errors = self.errors.drain();
        Status { running: self.running, output, errors: split_lines(errors.as_str()) }
    }
}

/// The errors of a status between brackets, with commas between them, up to the `n`-th.
pub open spec fn joined(errors: Seq<Seq<char>>, n: int) -> Seq<char>
    decreases n,
{
    if n <= 0 {
        Seq::empty()
    } else if n == 1 {
        errors[0]
    } else {
        joined(errors, n - 1) + ","@ + errors[n - 1]
    }
}

/// The body that answers a poll: an object with the flag, the output as a quoted
/// string, and the errors as they are, each of them being an object already.
pub open spec fn status_body(running: bool, output: Seq<char>, errors: Seq<Seq<char>>) -> Seq<
    char,
> {
    "{\"running\":"@ + (if running {
        "true"@
    } else {
        "false"@
    }) + ",\"output\":"@ + debug_text(output) + ",\"errors\":["@ + joined(
        errors,
        errors.len() as int,
    ) + "]}"@
}

impl Status {
    /// Writes the status as the body of the answer to a poll.
    pub fn render(&self) -> (body: String)
        ensures
            body@ == status_body(self.running, self.output@, self.errors.deep_view()),
    {
        let mut list = String::new();
        let mut i: usize = 0;
        while i < self.errors.len()
            invariant
                i <= self.errors.len(),
                list@ == joined(self.errors.deep_view(), i as int),
            decreases self.errors.len() - i,
        {
            assert(self.errors.deep_view()[i as int] == self.errors[i as int]@);
            if i > 0 {
                list.append(",");
            }
            list.append(self.errors[i].as_str());
            proof {
                if i == 0 {
                    assert(list@ =~= self.errors.deep_view()[0]);
                }
            }
            i = i + 1;
        }
        assert(self.errors.deep_view().len() == self.errors@.len());
        let mut body = String::from_str("{\"running\":");
        body.append(if self.running {
            "true"
        } else {
            "false"
        });
        body.append(",\"output\":");
        body.append(quoted(self.output.as_str()).as_str());
        body.append(",\"errors\":[");
        body.append(list.as_str());
        body.append("]}");
        body
    }
}

/// The queue after the first `n` of `added` were put on it, in order.
pub open spec fn queued(waiting: Seq<ServerCommand>, added: Seq<ServerCommand>, n: int) -> Seq<
    ServerCommand,
>
    decreases n,
{
    if n <= 0 {
        waiting
    } else {
        queued(waiting, added, n - 1).push(added[n - 1])
    }
}

/// The command that is taken from `queue` after `n` others were taken.
pub open spec fn taken_after(queue: Seq<ServerCommand>, n: int) -> ServerCommand {
    queue.skip(n)[0]
}

/// Command FIFO: commands are taken in the order in which they were queued. Of the
/// commands `added` to a queue, the `i`-th is taken after all that waited before and
/// after the `i` that were added before it.
pub proof fn law_commands_in_order(waiting: Seq<ServerCommand>, added: Seq<ServerCommand>, i: int)
    requires
        0 <= i < added.len(),
    ensures
        taken_after(queued(waiting, added, added.len() as int), waiting.len() + i) == added[i],
{
    lemma_queued(waiting, added, added.len() as int);
}

proof fn lemma_queued(waiting: Seq<ServerCommand>, added: Seq<ServerCommand>, n: int)
    requires
        0 <= n <= added.len(),
    ensures
        queued(waiting, added, n) == waiting + added.take(n),
    decreases n,
{
    if n > 0 {
        lemma_queued(waiting, added, n - 1);
        assert(queued(waiting, added, n) =~= waiting + added.take(n));
    } else {
        assert(waiting =~= waiting + added.take(0));
    }
}

} // verus!
