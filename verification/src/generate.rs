//! The generation mode: building the workflow document of a project and
//! deciding what to do with the one already stored.

use crate::cargo::Cargo;
use crate::command::{Command, CommandView};
use crate::parse::{parsed, DocumentError, DocumentErrorView};
use crate::text::{split, split_on, text_opt};
use crate::workflow::{
    Branches, Checks, ChecksView, Jobs, On, OnView, Step, StepView, Task, TaskView, With,
    Workflow, WorkflowView,
};
use vstd::prelude::*;

verus! {

/// The options of the generation mode.
#[derive(Debug)]
pub struct Generate {
    /// The name of the workflow; `rust` when absent.
    pub name: Option<String>,
    /// Disables the workflow on push.
    pub no_push: bool,
    /// The branches, separated by single spaces, whose pushes start the
    /// workflow; `main` when absent.
    pub push: Option<String>,
    /// The branches, separated by single spaces, whose pull requests start
    /// the workflow; none when absent.
    pub pull_request: Option<String>,
    /// The platform the workflow runs on; `ubuntu-latest` when absent.
    pub runs_on: Option<String>,
    /// Leaves the dependency-cache step out.
    pub no_cache: bool,
    /// Writes the workflow file instead of only reporting.
    pub execute: bool,
}

/// The mathematical value of a [`Generate`].
pub struct GenerateView {
    pub name: Option<Seq<char>>,
    pub no_push: bool,
    pub push: Option<Seq<char>>,
    pub pull_request: Option<Seq<char>>,
    pub runs_on: Option<Seq<char>>,
    pub no_cache: bool,
    pub execute: bool,
}

impl View for Generate {
    type V = GenerateView;

    open spec fn view(&self) -> GenerateView {
        GenerateView {
            name: text_opt(self.name),
            no_push: self.no_push,
            push: text_opt(self.push),
            pull_request: text_opt(self.pull_request),
            runs_on: text_opt(self.runs_on),
            no_cache: self.no_cache,
            execute: self.execute,
        }
    }
}

/// The step that checks the sources out.
pub open spec fn checkout_step() -> StepView {
    StepView {
        name: Some("Checkout source"@),
        task: TaskView::Uses("Actions/checkout@v3"@),
        with: None,
    }
}

/// The step that restores the dependency cache.
pub open spec fn cache_step() -> StepView {
    StepView {
        name: None,
        task: TaskView::Uses("Swatinem/rust-cache@v2"@),
        with: Some(With { cache_on_failure: true }),
    }
}

/// The step that runs `command`: it is named after the stage, the first
/// argument, and runs the rendered command line.
pub open spec fn command_step(command: CommandView) -> StepView {
    StepView {
        name: if command.args.len() > 0 {
            Some(command.args[0])
        } else {
            None
        },
        task: TaskView::Run(command.rendered()),
        with: None,
    }
}

impl GenerateView {
    /// The name of the workflow.
    pub open spec fn workflow_name(self) -> Seq<char> {
        match self.name {
            Some(name) => name,
            None => "rust"@,
        }
    }

    /// Where the document of a project in `dir` is stored: below `dir`,
    /// with a slash after `dir` unless it is empty or ends in one.
    pub open spec fn path(self, dir: Seq<char>) -> Seq<char> {
        dir + (if dir.len() == 0 || dir.last() == '/' {
            Seq::empty()
        } else {
            "/"@
        }) + ".github/workflows/"@ + self.workflow_name() + ".yml"@
    }

    /// The branches whose pushes start the workflow: none when pushes are
    /// disabled, else those configured, else `main`.
    pub open spec fn push_branches(self) -> Seq<Seq<char>> {
        if self.no_push {
            Seq::empty()
        } else {
            match self.push {
                Some(branches) => split(branches, ' '),
                None => seq!["main"@],
            }
        }
    }

    /// The branches whose pull requests start the workflow: those
    /// configured, whatever is configured for pushes.
    pub open spec fn pull_request_branches(self) -> Seq<Seq<char>> {
        match self.pull_request {
            Some(branches) => split(branches, ' '),
            None => Seq::empty(),
        }
    }

    /// Whether the configured platform is a single one. A text with a
    /// space in it names several, which is not supported.
    pub open spec fn single_platform(self) -> bool {
        self.runs_on matches Some(platforms) ==> split(platforms, ' ').len() == 1
    }

    /// The label of the runner, where the platform is a single one.
    pub open spec fn platform(self) -> Seq<char> {
        match self.runs_on {
            Some(platforms) => split(platforms, ' ')[0],
            None => "ubuntu-latest"@,
        }
    }

    /// The steps that come before those of the pipeline: the checkout and,
    /// unless disabled, the cache.
    pub open spec fn preamble(self) -> Seq<StepView> {
        if self.no_cache {
            seq![checkout_step()]
        } else {
            seq![checkout_step(), cache_step()]
        }
    }

    /// The document for a project in `dir` with the pipeline `pipeline`:
    /// the preamble, then one step for each invocation, in order.
    pub open spec fn workflow(self, dir: Seq<char>, pipeline: Seq<CommandView>) -> WorkflowView {
        WorkflowView {
            path: self.path(dir),
            name: self.workflow_name(),
            on: OnView { push: self.push_branches(), pull_request: self.pull_request_branches() },
            jobs: ChecksView {
                runs_on: self.platform(),
                steps: self.preamble() + pipeline.map_values(
                    |command: CommandView| command_step(command),
                ),
            },
        }
    }
}

/// Why no document could be built, compared or written.
#[derive(Debug, PartialEq, Eq)]
pub enum GenerateError {
    /// More than one platform is configured.
    MultiplePlatforms,
    /// A string of the document has no YAML form of one line that reads
    /// back as the string, so the document has no text to store.
    NotSerializable,
    /// The stored document cannot be used.
    Document(DocumentError),
}

/// The mathematical value of a [`GenerateError`].
pub enum GenerateErrorView {
    MultiplePlatforms,
    NotSerializable,
    Document(DocumentErrorView),
}

impl View for GenerateError {
    type V = GenerateErrorView;

    open spec fn view(&self) -> GenerateErrorView {
        match self {
            GenerateError::MultiplePlatforms => GenerateErrorView::MultiplePlatforms,
            GenerateError::NotSerializable => GenerateErrorView::NotSerializable,
            GenerateError::Document(error) => GenerateErrorView::Document(error@),
        }
    }
}

impl GenerateErrorView {
    /// The message of the error.
    pub open spec fn message(self) -> Seq<char> {
        match self {
            GenerateErrorView::MultiplePlatforms => "multiple platforms are not supported"@,
            GenerateErrorView::NotSerializable => "failed to serialize workflow"@,
            GenerateErrorView::Document(error) => error.message(),
        }
    }
}

impl GenerateError {
    /// The message of the error.
    pub fn to_string(&self) -> (message: String)
        ensures
            message@ == self@.message(),
    {
        match self {
            GenerateError::MultiplePlatforms => String::from_str(
                "multiple platforms are not supported",
            ),
            GenerateError::NotSerializable => String::from_str("failed to serialize workflow"),
            GenerateError::Document(error) => error.to_string(),
        }
    }
}

/// What the document store answers when asked for the document at a path.
#[derive(Debug)]
pub enum Stored {
    /// Nothing is stored at the path.
    Missing,
    /// Something is stored but cannot be read; the string is the cause.
    Unreadable(String),
    /// The text that is stored.
    Text(String),
}

/// The mathematical value of a [`Stored`].
pub enum StoredView {
    Missing,
    Unreadable(Seq<char>),
    Text(Seq<char>),
}

impl View for Stored {
    type V = StoredView;

    open spec fn view(&self) -> StoredView {
        match self {
            Stored::Missing => StoredView::Missing,
            Stored::Unreadable(cause) => StoredView::Unreadable(cause@),
            Stored::Text(text) => StoredView::Text(text@),
        }
    }
}

/// What the caller does with the stored document, and what it reports.
#[derive(Debug)]
pub enum Plan {
    /// The stored document equals the fresh one. Nothing is written.
    UpToDate,
    /// The stored document differs from the fresh one. Nothing is written.
    CanBeUpdated,
    /// The stored document differs from the fresh one: the file is
    /// replaced as a whole by this text.
    Update(String),
    /// No document is stored: the file is created with this text, and the
    /// directories above it as needed.
    Create(String),
    /// No document is stored. Nothing is written.
    Missing,
}

/// The mathematical value of a [`Plan`].
pub enum PlanView {
    UpToDate,
    CanBeUpdated,
    Update(Seq<char>),
    Create(Seq<char>),
    Missing,
}

impl View for Plan {
    type V = PlanView;

    open spec fn view(&self) -> PlanView {
        match self {
            Plan::UpToDate => PlanView::UpToDate,
            Plan::CanBeUpdated => PlanView::CanBeUpdated,
            Plan::Update(text) => PlanView::Update(text@),
            Plan::Create(text) => PlanView::Create(text@),
            Plan::Missing => PlanView::Missing,
        }
    }
}

impl PlanView {
    /// The line that reports the plan for the document stored at `path`.
    pub open spec fn message(self, path: Seq<char>) -> Seq<char> {
        match self {
            PlanView::UpToDate => "Workflow is up to date"@,
            PlanView::CanBeUpdated => "Workflow can be updated"@,
            PlanView::Update(_) => "Workflow updated at "@ + path,
            PlanView::Create(_) => "Workflow created at "@ + path,
            PlanView::Missing => "Workflow file doesn't exist"@,
        }
    }
}

/// The text to write for the fresh document `fresh`: the text that the
/// pretty serializer gives for it, or the error of a document for which
/// it gives none.
pub open spec fn text_to_write(fresh: WorkflowView) -> Result<Seq<char>, GenerateErrorView> {
    match fresh.serialized() {
        Some(text) => Ok(text),
        None => Err(GenerateErrorView::NotSerializable),
    }
}

/// The plan for the fresh document `fresh` where `stored` is the document
/// found at its path, if there is one, and `execute` tells whether files
/// may be written. The stored document is up to date exactly when it
/// equals the fresh one field by field. A text is written only with
/// `execute`; it is the pretty text of the fresh document and replaces
/// what is stored as a whole.
pub open spec fn plan_for(fresh: WorkflowView, stored: Option<WorkflowView>, execute: bool)
    -> Result<PlanView, GenerateErrorView> {
    match stored {
        Some(stored) => if stored == fresh {
            Ok(PlanView::UpToDate)
        } else if execute {
            match text_to_write(fresh) {
                Ok(text) => Ok(PlanView::Update(text)),
                Err(error) => Err(error),
            }
        } else {
            Ok(PlanView::CanBeUpdated)
        },
        None => if execute {
            match text_to_write(fresh) {
                Ok(text) => Ok(PlanView::Create(text)),
                Err(error) => Err(error),
            }
        } else {
            Ok(PlanView::Missing)
        },
    }
}

/// The plan for the fresh document `fresh` and the answer `stored` of the
/// document store for its path. A stored text is read as a document at
/// that path; a text that cannot be had or read as a document is an
/// error, whatever `execute` says.
pub open spec fn generated(fresh: WorkflowView, stored: StoredView, execute: bool) -> Result<
    PlanView,
    GenerateErrorView,
> {
    match stored {
        StoredView::Missing => plan_for(fresh, None, execute),
        StoredView::Unreadable(cause) => Err(
            GenerateErrorView::Document(DocumentErrorView::Unreadable(cause)),
        ),
        StoredView::Text(text) => match parsed(text, fresh.path) {
            Ok(document) => plan_for(fresh, Some(document), execute),
            Err(error) => Err(GenerateErrorView::Document(error)),
        },
    }
}

/// The value of a plan or the error in its place.
pub open spec fn outcome_view(plan: Result<Plan, GenerateError>) -> Result<
    PlanView,
    GenerateErrorView,
> {
    match plan {
        Ok(plan) => Ok(plan@),
        Err(error) => Err(error@),
    }
}

impl Plan {
    /// The line that reports the plan for the document stored at `path`.
    pub fn message(&self, path: &str) -> (line: String)
        ensures
            line@ == self@.message(path@),
    {
        match self {
            Plan::UpToDate => String::from_str("Workflow is up to date"),
            Plan::CanBeUpdated => String::from_str("Workflow can be updated"),
            Plan::Update(_) => String::from_str("Workflow updated at ").concat(path),
            Plan::Create(_) => String::from_str("Workflow created at ").concat(path),
            Plan::Missing => String::from_str("Workflow file doesn't exist"),
        }
    }
}

/// The step that runs `command`.
fn step_for(command: &Command) -> (step: Step)
    ensures
        step@ == command_step(command@),
{
    let args = command.arguments();
    let name = if args.len() > 0 {
        assert(args.deep_view()[0] == args[0]@);
        Some(args[0].clone())
    } else {
        None
    };
    Step { name, task: Task::Run(command.to_string()), with: None }
}

impl Generate {
    /// The name of the workflow.
    pub fn workflow_name(&self) -> (name: String)
        ensures
            name@ == self@.workflow_name(),
    {
        match &self.name {
            Some(name) => name.clone(),
            None => String::from_str("rust"),
        }
    }

    /// Where the document of a project in `working_dir` is stored.
    pub fn workflow_path(&self, working_dir: &str) -> (path: String)
        ensures
            path@ == self@.path(working_dir@),
    {
        let mut path = String::from_str(working_dir);
        let n = working_dir.unicode_len();
        if n > 0 && working_dir.get_char(n - 1) != '/' {
            path.append("/");
        }
        assert(path@ =~= working_dir@ + (if working_dir@.len() == 0 || working_dir@.last() == '/' {
            Seq::<char>::empty()
        } else {
            "/"@
        }));
        path.append(".github/workflows/");
        path.append(self.workflow_name().as_str());
        path.append(".yml");
        path
    }

    /// The fresh document for the project in `working_dir` whose pipeline
    /// `cargo` composes. Several platforms are not supported: a platform
    /// text with a space in it is refused, and nothing else is.
    pub fn to_workflow(&self, working_dir: &str, cargo: &Cargo) -> (workflow: Result<
        Workflow,
        GenerateError,
    >)
        ensures
            match workflow {
                Ok(w) => self@.single_platform() && w@ == self@.workflow(
                    working_dir@,
                    cargo@.pipeline(),
                ),
                Err(e) => !self@.single_platform() && e@
                    == GenerateErrorView::MultiplePlatforms,
            },
    {
        let push = if !self.no_push {
            match &self.push {
                Some(branches) => split_on(branches.as_str(), ' '),
                None => {
                    let mut branches: Vec<String> = Vec::new();
                    branches.push(String::from_str("main"));
                    assert(branches.deep_view() =~= seq!["main"@]);
                    branches
                },
            }
        } else {
            let branches: Vec<String> = Vec::new();
            assert(branches.deep_view() =~= Seq::<Seq<char>>::empty());
            branches
        };
        let pull_request = match &self.pull_request {
            Some(branches) => split_on(branches.as_str(), ' '),
            None => {
                let branches: Vec<String> = Vec::new();
                assert(branches.deep_view() =~= Seq::<Seq<char>>::empty());
                branches
            },
        };
        let runs_on = match &self.runs_on {
            Some(platforms) => {
                let mut platforms = split_on(platforms.as_str(), ' ');
                if platforms.len() != 1 {
                    return Err(GenerateError::MultiplePlatforms);
                }
                assert(platforms.deep_view()[0] == platforms[0]@);
                platforms[0].clone()
            },
            None => String::from_str("ubuntu-latest"),
        };
        let mut steps: Vec<Step> = Vec::new();
        steps.push(
            Step {
                name: Some(String::from_str("Checkout source")),
                task: Task::Uses(String::from_str("Actions/checkout@v3")),
                with: None,
            },
        );
        if !self.no_cache {
            steps.push(
                Step {
                    name: None,
                    task: Task::Uses(String::from_str("Swatinem/rust-cache@v2")),
                    with: Some(With { cache_on_failure: true }),
                },
            );
        }
        let commands = cargo.commands();
        let ghost pipeline = cargo@.pipeline();
        let ghost preamble = self@.preamble();
        let ghost to_step = |command: CommandView| command_step(command);
        assert(steps@.map_values(|step: Step| step@) =~= preamble + pipeline.take(0).map_values(
            to_step,
        ));
        let mut i: usize = 0;
        while i < commands.len()
            invariant
                i <= commands@.len(),
                commands@ == pipeline,
                to_step == |command: CommandView| command_step(command),
                steps@.map_values(|step: Step| step@) == preamble + pipeline.take(
                    i as int,
                ).map_values(to_step),
            decreases commands@.len() - i,
        {
            let ghost before = steps@.map_values(|step: Step| step@);
            let step = step_for(commands.get(i));
            steps.push(step);
            proof {
                assert(steps@.map_values(|step: Step| step@) =~= before.push(
                    command_step(pipeline[i as int]),
                ));
                assert(pipeline.take(i + 1).map_values(to_step) =~= pipeline.take(
                    i as int,
                ).map_values(to_step).push(command_step(pipeline[i as int])));
            }
            i += 1;
        }
        proof {
            assert(pipeline.take(commands@.len() as int) =~= pipeline);
        }
        let workflow = Workflow {
            path: self.workflow_path(working_dir),
            name: self.workflow_name(),
            on: On {
                push: Branches { branches: push },
                pull_request: Branches { branches: pull_request },
            },
            jobs: Jobs { checks: Checks { runs_on, steps } },
        };
        Ok(workflow)
    }

    /// The text to write for `fresh`.
    fn text_for(fresh: &Workflow) -> (text: Result<String, GenerateError>)
        ensures
            match text_to_write(fresh@) {
                Ok(t) => text matches Ok(s) && s@ == t,
                Err(e) => text matches Err(error) && error@ == e,
            },
    {
        match fresh.serialize_pretty() {
            Some(text) => Ok(text),
            None => Err(GenerateError::NotSerializable),
        }
    }

    /// The plan for the fresh document `fresh` and the document `stored`
    /// found at its path, if there is one.
    fn plan(&self, fresh: &Workflow, stored: Option<&Workflow>) -> (plan: Result<
        Plan,
        GenerateError,
    >)
        ensures
            outcome_view(plan) == plan_for(
                fresh@,
                match stored {
                    Some(stored) => Some(stored@),
                    None => None,
                },
                self.execute,
            ),
    {
        match stored {
            Some(stored) => {
                if stored.same_as(fresh) {
                    Ok(Plan::UpToDate)
                } else if self.execute {
                    match Self::text_for(fresh) {
                        Ok(text) => Ok(Plan::Update(text)),
                        Err(error) => Err(error),
                    }
                } else {
                    Ok(Plan::CanBeUpdated)
                }
            },
            None => {
                if self.execute {
                    match Self::text_for(fresh) {
                        Ok(text) => Ok(Plan::Create(text)),
                        Err(error) => Err(error),
                    }
                } else {
                    Ok(Plan::Missing)
                }
            },
        }
    }

    /// The plan for the fresh document `fresh`, where `stored` is what
    /// the document store answers for its path. An existing file is
    /// replaced as a whole: the plan never merges.
    pub fn generate(&self, fresh: &Workflow, stored: &Stored) -> (plan: Result<
        Plan,
        GenerateError,
    >)
        ensures
            outcome_view(plan) == generated(fresh@, stored@, self.execute),
    {
        match stored {
            Stored::Missing => self.plan(fresh, None),
            Stored::Unreadable(cause) => Err(
                GenerateError::Document(DocumentError::Unreadable(cause.clone())),
            ),
            Stored::Text(text) => match Workflow::parse(text.as_str(), fresh.path.as_str()) {
                Ok(document) => self.plan(fresh, Some(&document)),
                Err(error) => Err(GenerateError::Document(error)),
            },
        }
    }
}

/// Persisting and rebuilding agree. For the document built from a
/// configuration, the plan on an empty store with leave to write is either
/// to create a text or the error that the document has no text, in which
/// case nothing is stored. Once the text of the plan is stored, the plan
/// for the document built again from the same configuration is that all is
/// up to date, so nothing is written.
pub proof fn lemma_persisted_document_is_up_to_date(
    options: GenerateView,
    dir: Seq<char>,
    pipeline: Seq<CommandView>,
)
    ensures
        match generated(options.workflow(dir, pipeline), StoredView::Missing, true) {
            Ok(plan) => plan matches PlanView::Create(text) && generated(
                options.workflow(dir, pipeline),
                StoredView::Text(text),
                options.execute,
            ) == Ok::<PlanView, GenerateErrorView>(PlanView::UpToDate),
            Err(error) => error == GenerateErrorView::NotSerializable,
        },
{
    let fresh = options.workflow(dir, pipeline);
    if fresh.round_trips() {
        fresh.lemma_text_reads_back();
    }
}

} // verus!
