//! Invocations of the build tool and the ordered pipeline they form.

use crate::text::join;
use vstd::prelude::*;

verus! {

/// One invocation of the build tool: the program, the directory it runs in
/// and its ordered arguments.
#[derive(Debug)]
pub struct Command {
    program: String,
    current_dir: String,
    args: Vec<String>,
}

/// The mathematical value of a [`Command`].
pub struct CommandView {
    pub program: Seq<char>,
    pub current_dir: Seq<char>,
    pub args: Seq<Seq<char>>,
}

impl CommandView {
    /// The command line as one text: the program and each argument,
    /// separated by single spaces.
    pub open spec fn rendered(self) -> Seq<char> {
        join(seq![self.program] + self.args, seq![' '])
    }
}

impl View for Command {
    type V = CommandView;

    closed spec fn view(&self) -> CommandView {
        CommandView {
            program: self.program@,
            current_dir: self.current_dir@,
            args: self.args.deep_view(),
        }
    }
}

impl Command {
    /// A `cargo` invocation without arguments that runs in `current_dir`.
    pub fn new(current_dir: &str) -> (command: Command)
        ensures
            command@.program == "cargo"@,
            command@.current_dir == current_dir@,
            command@.args == Seq::<Seq<char>>::empty(),
    {
        let command = Command {
            program: String::from_str("cargo"),
            current_dir: String::from_str(current_dir),
            args: Vec::new(),
        };
        assert(command.args.deep_view() =~= Seq::<Seq<char>>::empty());
        command
    }

    /// Appends one argument.
    pub fn arg(&mut self, arg: &str)
        ensures
            final(self)@.program == old(self)@.program,
            final(self)@.current_dir == old(self)@.current_dir,
            final(self)@.args == old(self)@.args.push(arg@),
    {
        self.args.push(String::from_str(arg));
        assert(self.args.deep_view() =~= old(self).args.deep_view().push(arg@));
    }

    /// Appends the arguments of `args` in order.
    pub fn args(&mut self, args: &[&str])
        ensures
            final(self)@.program == old(self)@.program,
            final(self)@.current_dir == old(self)@.current_dir,
            final(self)@.args == old(self)@.args + args.deep_view(),
    {
        let mut i: usize = 0;
        assert(args.deep_view().take(0) =~= Seq::<Seq<char>>::empty());
        assert(self@.args + args.deep_view().take(0) =~= self@.args);
        while i < args.len()
            invariant
                i <= args.len(),
                self@.program == old(self)@.program,
                self@.current_dir == old(self)@.current_dir,
                self@.args == old(self)@.args + args.deep_view().take(i as int),
            decreases args.len() - i,
        {
            let ghost before = self@.args;
            self.arg(args[i]);
            proof {
                assert(args.deep_view().take(i + 1) =~= args.deep_view().take(i as int).push(
                    args[i as int]@,
                ));
                assert(before.push(args[i as int]@) =~= old(self)@.args + args.deep_view().take(
                    i + 1,
                ));
            }
            i += 1;
        }
        assert(args.deep_view().take(args.len() as int) =~= args.deep_view());
    }

    /// The command line as one text: the program and each argument,
    /// separated by single spaces.
    pub fn to_string(&self) -> (line: String)
        ensures
            line@ == self@.rendered(),
    {
        let mut line = String::from_str(self.program.as_str());
        let mut i: usize = 0;
        let ghost words = seq![self.program@] + self.args.deep_view();
        assert(words.take(1) =~= seq![self.program@]);
        while i < self.args.len()
            invariant
                i <= self.args.len(),
                words == seq![self.program@] + self.args.deep_view(),
                line@ == join(words.take(i + 1), seq![' ']),
            decreases self.args.len() - i,
        {
            proof {
                let grown = words.take(i + 2);
                assert(grown.drop_last() =~= words.take(i + 1));
                assert(grown.last() == self.args[i as int]@);
                reveal_strlit(" ");
                assert(" "@ =~= seq![' ']);
            }
            line.append(" ");
            line.append(self.args[i].as_str());
            i += 1;
        }
        assert(words.take(self.args.len() + 1) =~= words);
        line
    }

    /// The line that announces the invocation before it runs.
    pub fn announcement(&self) -> (line: String)
        ensures
            line@ == "Running "@ + self@.rendered(),
    {
        String::from_str("Running ").concat(self.to_string().as_str())
    }

    /// The program to run.
    pub fn program(&self) -> (program: &str)
        ensures
            program@ == self@.program,
    {
        self.program.as_str()
    }

    /// The directory the program runs in.
    pub fn current_dir(&self) -> (dir: &str)
        ensures
            dir@ == self@.current_dir,
    {
        self.current_dir.as_str()
    }

    /// The arguments, in order.
    pub fn arguments(&self) -> (args: &Vec<String>)
        ensures
            args.deep_view() == self@.args,
    {
        &self.args
    }
}

/// What the process executor reports of one invocation.
#[derive(Debug)]
pub enum Outcome {
    /// The program ran and returned zero.
    Success,
    /// The program ran and returned a non-zero result.
    Failure,
    /// The program could not be started; the text is the cause.
    SpawnError(String),
}

/// The mathematical value of an [`Outcome`].
pub enum OutcomeView {
    Success,
    Failure,
    SpawnError(Seq<char>),
}

impl View for Outcome {
    type V = OutcomeView;

    open spec fn view(&self) -> OutcomeView {
        match self {
            Outcome::Success => OutcomeView::Success,
            Outcome::Failure => OutcomeView::Failure,
            Outcome::SpawnError(cause) => OutcomeView::SpawnError(cause@),
        }
    }
}

/// What the caller of [`Commands::status`] does next.
#[derive(Debug)]
pub enum Action {
    /// Announce this invocation, run it, and report its outcome.
    Run(Command),
    /// Every invocation ran and succeeded: the pipeline is complete.
    Finish,
    /// An invocation failed: the pipeline stopped early. This is no error.
    Halt,
    /// An invocation could not be started: a fatal error with this message.
    Abort(String),
}

/// The mathematical value of an [`Action`].
pub enum ActionView {
    Run(CommandView),
    Finish,
    Halt,
    Abort(Seq<char>),
}

impl View for Action {
    type V = ActionView;

    open spec fn view(&self) -> ActionView {
        match self {
            Action::Run(command) => ActionView::Run(command@),
            Action::Finish => ActionView::Finish,
            Action::Halt => ActionView::Halt,
            Action::Abort(message) => ActionView::Abort(message@),
        }
    }
}

/// The message of the fatal error for an invocation that could not be
/// started for the reason `cause`.
pub open spec fn spawn_failure_message(cause: Seq<char>) -> Seq<char> {
    "failed to run command: "@ + cause
}

/// The action that follows when the invocations of `queue` are still to
/// run and the invocation handed out before reported `last` (`None` before
/// the first one).
pub open spec fn next_action(queue: Seq<CommandView>, last: Option<OutcomeView>) -> ActionView {
    match last {
        Some(OutcomeView::Failure) => ActionView::Halt,
        Some(OutcomeView::SpawnError(cause)) => ActionView::Abort(spawn_failure_message(cause)),
        _ => if queue.len() == 0 {
            ActionView::Finish
        } else {
            ActionView::Run(queue[0])
        },
    }
}

/// The invocations that remain to run after [`next_action`]: all but the
/// first while the pipeline goes on, none once it has stopped.
pub open spec fn remaining(queue: Seq<CommandView>, last: Option<OutcomeView>) -> Seq<
    CommandView,
> {
    match next_action(queue, last) {
        ActionView::Run(_) => queue.skip(1),
        _ => Seq::<CommandView>::empty(),
    }
}

/// How a run ended and how many invocations ran in it.
pub struct RunView {
    /// The number of invocations that were handed out to run.
    pub ran: nat,
    /// The action that ended the run.
    pub end: ActionView,
}

/// The whole run of `queue` after the outcome `last`, where the executor
/// answers the invocations, in the order they are handed out, with
/// `outcomes`: the decisions of [`next_action`] one after the other, until
/// one of them is not to run an invocation.
pub open spec fn run(queue: Seq<CommandView>, last: Option<OutcomeView>, outcomes: Seq<OutcomeView>)
    -> RunView
    decreases queue.len(),
{
    match next_action(queue, last) {
        ActionView::Run(_) => {
            let rest = run(queue.skip(1), Some(outcomes[0]), outcomes.skip(1));
            RunView { ran: rest.ran + 1, end: rest.end }
        },
        end => RunView { ran: 0, end },
    }
}

/// The action that ends a run after the outcome `outcome`, which is not a
/// success.
pub open spec fn end_after(outcome: OutcomeView) -> ActionView {
    next_action(Seq::empty(), Some(outcome))
}

/// Whether a run goes on after `last`: nothing has run yet, or what ran
/// last has succeeded.
pub open spec fn goes_on(last: Option<OutcomeView>) -> bool {
    last is None || last == Some(OutcomeView::Success)
}

/// Fail-fast: when the invocation at position `k` is the first that does
/// not succeed, exactly the invocations up to and including it run. The
/// run then halts if that invocation failed, which is no error, and aborts
/// with the cause if it could not be started.
pub proof fn lemma_fail_fast(
    queue: Seq<CommandView>,
    last: Option<OutcomeView>,
    outcomes: Seq<OutcomeView>,
    k: int,
)
    requires
        goes_on(last),
        0 <= k < queue.len() <= outcomes.len(),
        forall|i: int| 0 <= i < k ==> outcomes[i] == OutcomeView::Success,
        outcomes[k] != OutcomeView::Success,
    ensures
        run(queue, last, outcomes).ran == k + 1,
        run(queue, last, outcomes).end == end_after(outcomes[k]),
        outcomes[k] == OutcomeView::Failure ==> run(queue, last, outcomes).end
            == ActionView::Halt,
        outcomes[k] matches OutcomeView::SpawnError(cause) ==> run(queue, last, outcomes).end
            == ActionView::Abort(spawn_failure_message(cause)),
    decreases k,
{
    let first = Some(outcomes[0]);
    if k == 0 {
        assert(run(queue.skip(1), first, outcomes.skip(1)).ran == 0);
    } else {
        assert forall|i: int| 0 <= i < k - 1 implies outcomes.skip(1)[i]
            == OutcomeView::Success by {
            assert(outcomes.skip(1)[i] == outcomes[i + 1]);
        }
        lemma_fail_fast(queue.skip(1), first, outcomes.skip(1), k - 1);
    }
}

/// When every invocation succeeds, all of them run and the run finishes.
pub proof fn lemma_all_succeed(
    queue: Seq<CommandView>,
    last: Option<OutcomeView>,
    outcomes: Seq<OutcomeView>,
)
    requires
        goes_on(last),
        queue.len() <= outcomes.len(),
        forall|i: int| 0 <= i < queue.len() ==> outcomes[i] == OutcomeView::Success,
    ensures
        run(queue, last, outcomes).ran == queue.len(),
        run(queue, last, outcomes).end == ActionView::Finish,
    decreases queue.len(),
{
    if queue.len() > 0 {
        assert forall|i: int| 0 <= i < queue.len() - 1 implies outcomes.skip(1)[i]
            == OutcomeView::Success by {
            assert(outcomes.skip(1)[i] == outcomes[i + 1]);
        }
        lemma_all_succeed(queue.skip(1), Some(outcomes[0]), outcomes.skip(1));
    }
}

/// An ordered pipeline of invocations, run front to back and used up as it
/// runs.
#[derive(Debug)]
pub struct Commands(Vec<Command>);

impl View for Commands {
    type V = Seq<CommandView>;

    closed spec fn view(&self) -> Seq<CommandView> {
        self.0@.map_values(|command: Command| command@)
    }
}

impl Commands {
    /// The empty pipeline.
    pub fn new() -> (commands: Commands)
        ensures
            commands@ == Seq::<CommandView>::empty(),
    {
        let commands = Commands(Vec::new());
        assert(commands@ =~= Seq::<CommandView>::empty());
        commands
    }

    /// Appends `cmd` as the last invocation.
    pub fn push(&mut self, cmd: Command)
        ensures
            final(self)@ == old(self)@.push(cmd@),
    {
        self.0.push(cmd);
        assert(self@ =~= old(self)@.push(cmd@));
    }

    /// The number of invocations still to run.
    pub fn len(&self) -> (n: usize)
        ensures
            n == self@.len(),
    {
        self.0.len()
    }

    /// The invocation at position `i`.
    pub fn get(&self, i: usize) -> (command: &Command)
        requires
            i < self@.len(),
        ensures
            command@ == self@[i as int],
    {
        &self.0[i]
    }

    /// One decision of the fail-fast run. `last` is the outcome of the
    /// invocation that the previous call handed out, or `None` on the first
    /// call. While every outcome is a success the invocations are handed
    /// out one by one in order, then the run finishes. The first failure
    /// halts the run and the first spawn error aborts it; either way the
    /// invocations that were left are dropped, so none of them ever runs.
    pub fn status(&mut self, last: Option<Outcome>) -> (action: Action)
        ensures
            action@ == next_action(
                old(self)@,
                match last {
                    Some(outcome) => Some(outcome@),
                    None => None,
                },
            ),
            final(self)@ == remaining(
                old(self)@,
                match last {
                    Some(outcome) => Some(outcome@),
                    None => None,
                },
            ),
    {
        match last {
            Some(Outcome::Failure) => {
                self.0.clear();
                assert(self@ =~= Seq::<CommandView>::empty());
                Action::Halt
            },
            Some(Outcome::SpawnError(cause)) => {
                self.0.clear();
                assert(self@ =~= Seq::<CommandView>::empty());
                let mut message = String::from_str("failed to run command: ");
                message.append(cause.as_str());
                Action::Abort(message)
            },
            _ => {
                if self.0.len() == 0 {
                    assert(self@ =~= Seq::<CommandView>::empty());
                    Action::Finish
                } else {
                    let command = self.0.remove(0);
                    assert(self@ =~= old(self)@.skip(1));
                    Action::Run(command)
                }
            },
        }
    }
}

} // verus!
