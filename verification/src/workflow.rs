//! The workflow document: the job definition that a continuous-integration
//! service reads, and its plain YAML text.

use crate::parse::{parsed, taken_document};
use crate::pretty::{prettify, pretty};
use crate::text::text_opt;
use crate::yaml::{encode, indent, indented, yaml_scalar};
use vstd::prelude::*;

verus! {

/// The parameters of a step.
#[derive(Debug, Clone, Copy, PartialEq, Eq)]
pub struct With {
    /// Keep the cache of a run that failed. Left out of the text when
    /// false.
    pub cache_on_failure: bool,
}

/// What a step does: either of the two, never both.
#[derive(Debug, PartialEq, Eq)]
pub enum Task {
    /// Use the reusable action of this name.
    Uses(String),
    /// Run this command line.
    Run(String),
}

/// The mathematical value of a [`Task`].
pub enum TaskView {
    Uses(Seq<char>),
    Run(Seq<char>),
}

impl View for Task {
    type V = TaskView;

    open spec fn view(&self) -> TaskView {
        match self {
            Task::Uses(action) => TaskView::Uses(action@),
            Task::Run(line) => TaskView::Run(line@),
        }
    }
}

/// One step of the job.
#[derive(Debug, PartialEq, Eq)]
pub struct Step {
    /// The name shown for the step.
    pub name: Option<String>,
    /// What the step does.
    pub task: Task,
    /// The parameters of the step.
    pub with: Option<With>,
}

/// The mathematical value of a [`Step`].
pub struct StepView {
    pub name: Option<Seq<char>>,
    pub task: TaskView,
    pub with: Option<With>,
}

impl View for Step {
    type V = StepView;

    open spec fn view(&self) -> StepView {
        StepView {
            name: text_opt(self.name),
            task: self.task@,
            with: self.with,
        }
    }
}

/// The job that runs the checks.
#[derive(Debug, PartialEq, Eq)]
pub struct Checks {
    /// The label of the runner.
    pub runs_on: String,
    /// The steps, in the order they run.
    pub steps: Vec<Step>,
}

/// The mathematical value of a [`Checks`].
pub struct ChecksView {
    pub runs_on: Seq<char>,
    pub steps: Seq<StepView>,
}

impl View for Checks {
    type V = ChecksView;

    open spec fn view(&self) -> ChecksView {
        ChecksView { runs_on: self.runs_on@, steps: self.steps@.map_values(|step: Step| step@) }
    }
}

/// The jobs of the workflow.
#[derive(Debug, PartialEq, Eq)]
pub struct Jobs {
    pub checks: Checks,
}

impl View for Jobs {
    type V = ChecksView;

    open spec fn view(&self) -> ChecksView {
        self.checks@
    }
}

/// The branches that one kind of event is watched on.
#[derive(Debug, PartialEq, Eq)]
pub struct Branches {
    pub branches: Vec<String>,
}

impl View for Branches {
    type V = Seq<Seq<char>>;

    open spec fn view(&self) -> Seq<Seq<char>> {
        self.branches.deep_view()
    }
}

/// The events that start the workflow.
#[derive(Debug, PartialEq, Eq)]
pub struct On {
    pub push: Branches,
    pub pull_request: Branches,
}

/// The mathematical value of an [`On`].
pub struct OnView {
    pub push: Seq<Seq<char>>,
    pub pull_request: Seq<Seq<char>>,
}

impl View for On {
    type V = OnView;

    open spec fn view(&self) -> OnView {
        OnView { push: self.push@, pull_request: self.pull_request@ }
    }
}

/// A workflow document.
#[derive(Debug, PartialEq, Eq)]
pub struct Workflow {
    /// Where the document is stored. Not part of its text.
    pub path: String,
    pub name: String,
    pub on: On,
    pub jobs: Jobs,
}

/// The mathematical value of a [`Workflow`].
pub struct WorkflowView {
    pub path: Seq<char>,
    pub name: Seq<char>,
    pub on: OnView,
    pub jobs: ChecksView,
}

impl View for Workflow {
    type V = WorkflowView;

    open spec fn view(&self) -> WorkflowView {
        WorkflowView { path: self.path@, name: self.name@, on: self.on@, jobs: self.jobs@ }
    }
}

/// Whether the string `s` has a YAML form.
pub open spec fn encodable(s: Seq<char>) -> bool {
    yaml_scalar(s) is Some
}

/// The YAML form of the string `s`, line end included.
pub open spec fn encoded(s: Seq<char>) -> Seq<char> {
    yaml_scalar(s)->0
}

/// `block` as one item of a list: it is indented, and a dash stands in
/// place of its first indentation.
pub open spec fn as_item(block: Seq<char>) -> Seq<char> {
    let deeper = indented(block);
    "- "@ + (if deeper.len() >= 2 {
        deeper.skip(2)
    } else {
        deeper
    })
}

/// Whether each string of `strings` has a YAML form.
pub open spec fn all_encodable(strings: Seq<Seq<char>>) -> bool {
    forall|i: int| 0 <= i < strings.len() ==> encodable(#[trigger] strings[i])
}

/// The strings of `strings` as the items of a list, one after the other.
pub open spec fn list_text(strings: Seq<Seq<char>>) -> Seq<char>
    decreases strings.len(),
{
    if strings.len() == 0 {
        Seq::empty()
    } else {
        list_text(strings.drop_last()) + as_item(encoded(strings.last()))
    }
}

/// The text of a branch list that is not empty: the key, then the
/// branches as the items of a list.
pub open spec fn branches_text(branches: Seq<Seq<char>>) -> Seq<char> {
    "branches:\n"@ + list_text(branches)
}

/// The text of one kind of event under the key `key`: the key and, one
/// level deeper, its branches; nothing at all for an empty branch list.
pub open spec fn event_text(key: Seq<char>, branches: Seq<Seq<char>>) -> Seq<char> {
    if branches.len() == 0 {
        Seq::empty()
    } else {
        key + indented(branches_text(branches))
    }
}

impl With {
    /// The text of the parameters under their key. The flag is left out
    /// when false, which leaves an empty map.
    pub open spec fn yaml(self) -> Seq<char> {
        if self.cache_on_failure {
            "with:\n  cache_on_failure: true\n"@
        } else {
            "with: {}\n"@
        }
    }
}

impl StepView {
    /// Whether each string of the step has a YAML form.
    pub open spec fn encodable(self) -> bool {
        &&& self.name matches Some(name) ==> encodable(name)
        &&& match self.task {
            TaskView::Uses(action) => encodable(action),
            TaskView::Run(line) => encodable(line),
        }
    }

    /// The fields of the step, one after the other: the name if there is
    /// one, then what the step does, then the parameters if there are any.
    pub open spec fn fields(self) -> Seq<char> {
        (match self.name {
            Some(name) => "name: "@ + encoded(name),
            None => Seq::empty(),
        }) + (match self.task {
            TaskView::Uses(action) => "uses: "@ + encoded(action),
            TaskView::Run(line) => "run: "@ + encoded(line),
        }) + (match self.with {
            Some(with) => with.yaml(),
            None => Seq::empty(),
        })
    }

    /// The step as one item of the list of steps.
    pub open spec fn yaml(self) -> Seq<char> {
        as_item(self.fields())
    }
}

/// Whether each step of `steps` can be written.
pub open spec fn steps_encodable(steps: Seq<StepView>) -> bool {
    forall|i: int| 0 <= i < steps.len() ==> (#[trigger] steps[i]).encodable()
}

/// The steps of `steps` as the items of a list, one after the other.
pub open spec fn steps_text(steps: Seq<StepView>) -> Seq<char>
    decreases steps.len(),
{
    if steps.len() == 0 {
        Seq::empty()
    } else {
        steps_text(steps.drop_last()) + steps.last().yaml()
    }
}

impl ChecksView {
    /// Whether each string of the job has a YAML form.
    pub open spec fn encodable(self) -> bool {
        encodable(self.runs_on) && steps_encodable(self.steps)
    }

    /// The text of the job: the runner, then the steps as a list, which
    /// is written `[]` when there is no step.
    pub open spec fn yaml(self) -> Seq<char> {
        "runs-on: "@ + encoded(self.runs_on) + (if self.steps.len() == 0 {
            "steps: []\n"@
        } else {
            "steps:\n"@ + steps_text(self.steps)
        })
    }

    /// The text of the jobs: the one job under its key, one level deeper.
    pub open spec fn jobs_yaml(self) -> Seq<char> {
        "checks:\n"@ + indented(self.yaml())
    }
}

impl OnView {
    /// Whether each branch name has a YAML form.
    pub open spec fn encodable(self) -> bool {
        all_encodable(self.push) && all_encodable(self.pull_request)
    }

    /// The text of the events: pushes, then pull requests; each is left
    /// out when it has no branch.
    pub open spec fn yaml(self) -> Seq<char> {
        event_text("push:\n"@, self.push) + event_text("pull_request:\n"@, self.pull_request)
    }
}

impl WorkflowView {
    /// Whether each string of the document has a YAML form.
    pub open spec fn encodable(self) -> bool {
        encodable(self.name) && self.on.encodable() && self.jobs.encodable()
    }

    /// The plain text of the document: the name, the events and the jobs,
    /// each block one level deeper than its key. Without any event the
    /// events are written as the empty map `{}`. The path is not written.
    pub open spec fn yaml(self) -> Seq<char> {
        "name: "@ + encoded(self.name) + (if self.on.yaml().len() == 0 {
            "on: {}\n"@
        } else {
            "on:\n"@ + indented(self.on.yaml())
        }) + "jobs:\n"@ + indented(self.jobs.jobs_yaml())
    }

    /// The text of the document as it is stored and reviewed: the plain
    /// text with the blank-line rule applied.
    pub open spec fn pretty(self) -> Seq<char> {
        pretty(self.yaml())
    }
}

/// Whether `a` and `b` are the same text, or both absent.
fn same_text(a: &Option<String>, b: &Option<String>) -> (same: bool)
    ensures
        same == (match (*a, *b) {
            (Some(x), Some(y)) => x@ == y@,
            (None, None) => true,
            _ => false,
        }),
{
    match (a, b) {
        (Some(x), Some(y)) => *x == *y,
        (None, None) => true,
        _ => false,
    }
}

/// Whether `a` and `b` hold the same texts in the same order.
fn same_texts(a: &Vec<String>, b: &Vec<String>) -> (same: bool)
    ensures
        same == (a.deep_view() == b.deep_view()),
{
    if a.len() != b.len() {
        assert(a.deep_view().len() != b.deep_view().len());
        return false;
    }
    let mut i: usize = 0;
    while i < a.len()
        invariant
            i <= a.len(),
            a.len() == b.len(),
            forall|j: int| 0 <= j < i ==> a[j]@ == b[j]@,
        decreases a.len() - i,
    {
        if a[i] != b[i] {
            assert(a.deep_view()[i as int] != b.deep_view()[i as int]);
            return false;
        }
        i += 1;
    }
    assert(a.deep_view() =~= b.deep_view());
    true
}

impl Step {
    /// Whether this step and `other` are equal field by field.
    pub fn same_as(&self, other: &Step) -> (same: bool)
        ensures
            same == (self@ == other@),
    {
        let tasks = match (&self.task, &other.task) {
            (Task::Uses(a), Task::Uses(b)) => *a == *b,
            (Task::Run(a), Task::Run(b)) => *a == *b,
            _ => false,
        };
        let params = match (&self.with, &other.with) {
            (Some(a), Some(b)) => a.cache_on_failure == b.cache_on_failure,
            (None, None) => true,
            _ => false,
        };
        same_text(&self.name, &other.name) && tasks && params
    }
}

impl Checks {
    /// Whether this job and `other` are equal field by field.
    pub fn same_as(&self, other: &Checks) -> (same: bool)
        ensures
            same == (self@ == other@),
    {
        if self.runs_on != other.runs_on || self.steps.len() != other.steps.len() {
            assert(self@.runs_on != other@.runs_on || self@.steps.len() != other@.steps.len());
            return false;
        }
        let mut i: usize = 0;
        while i < self.steps.len()
            invariant
                i <= self.steps.len(),
                self.steps.len() == other.steps.len(),
                forall|j: int| 0 <= j < i ==> self.steps[j]@ == other.steps[j]@,
            decreases self.steps.len() - i,
        {
            if !self.steps[i].same_as(&other.steps[i]) {
                assert(self@.steps[i as int] != other@.steps[i as int]);
                return false;
            }
            i += 1;
        }
        assert(self@.steps =~= other@.steps);
        true
    }
}

impl Workflow {
    /// Whether this document and `other` are equal field by field, path
    /// included.
    pub fn same_as(&self, other: &Workflow) -> (same: bool)
        ensures
            same == (self@ == other@),
    {
        self.path == other.path && self.name == other.name && same_texts(
            &self.on.push.branches,
            &other.on.push.branches,
        ) && same_texts(&self.on.pull_request.branches, &other.on.pull_request.branches)
            && self.jobs.checks.same_as(&other.jobs.checks)
    }
}

/// `block` as one item of a list.
fn item(block: &str) -> (text: String)
    ensures
        text@ == as_item(block@),
{
    let deeper = indent(block);
    let n = deeper.as_str().unicode_len();
    let mut text = String::from_str("- ");
    if n >= 2 {
        text.append(deeper.as_str().substring_char(2, n));
    } else {
        text.append(deeper.as_str());
    }
    text
}

/// The strings of `strings` as the items of a list, or `None` if one of
/// them has no YAML form.
fn list_to_yaml(strings: &Vec<String>) -> (text: Option<String>)
    ensures
        text is Some <==> all_encodable(strings.deep_view()),
        text matches Some(t) ==> t@ == list_text(strings.deep_view()),
{
    let mut text = String::new();
    let mut i: usize = 0;
    let ghost all = strings.deep_view();
    while i < strings.len()
        invariant
            i <= strings.len(),
            all == strings.deep_view(),
            all_encodable(all.take(i as int)),
            text@ == list_text(all.take(i as int)),
        decreases strings.len() - i,
    {
        proof {
            assert(all.take(i + 1).drop_last() =~= all.take(i as int));
            assert(all.take(i + 1).last() == all[i as int]);
            assert(all[i as int] == strings[i as int]@);
        }
        match encode(strings[i].as_str()) {
            Some(scalar) => {
                let entry = item(scalar.as_str());
                text.append(entry.as_str());
            },
            None => {
                assert(!encodable(all[i as int]));
                return None;
            },
        }
        proof {
            assert forall|j: int| 0 <= j < i + 1 implies encodable(
                #[trigger] all.take(i + 1)[j],
            ) by {
                if j < i {
                    assert(all.take(i + 1)[j] == all.take(i as int)[j]);
                }
            }
        }
        i += 1;
    }
    proof {
        assert(all.take(strings.len() as int) =~= all);
    }
    Some(text)
}

/// Appends `key` and the YAML form of `value` to `text`, or reports that
/// `value` has none.
fn append_field(text: &mut String, key: &str, value: &str) -> (done: bool)
    ensures
        done == encodable(value@),
        done ==> final(text)@ == old(text)@ + key@ + encoded(value@),
{
    match encode(value) {
        Some(scalar) => {
            text.append(key);
            text.append(scalar.as_str());
            true
        },
        None => false,
    }
}

impl Branches {
    /// Whether there is no branch.
    pub fn is_empty(&self) -> (empty: bool)
        ensures
            empty == (self@.len() == 0),
    {
        self.branches.len() == 0
    }

    /// The text of the branch list under its key, or `None` if a branch
    /// name has no YAML form. The text of an empty list is empty.
    pub fn to_yaml(&self) -> (text: Option<String>)
        ensures
            text is Some <==> all_encodable(self@),
            text matches Some(t) ==> t@ == (if self@.len() == 0 {
                Seq::<char>::empty()
            } else {
                branches_text(self@)
            }),
    {
        if self.is_empty() {
            return Some(String::new());
        }
        match list_to_yaml(&self.branches) {
            Some(list) => {
                let mut text = String::from_str("branches:\n");
                text.append(list.as_str());
                Some(text)
            },
            None => None,
        }
    }
}

/// Appends the text of one kind of event to `text`, or reports that a
/// branch name has no YAML form.
fn append_event(text: &mut String, key: &str, branches: &Branches) -> (done: bool)
    ensures
        done == all_encodable(branches@),
        done ==> final(text)@ == old(text)@ + event_text(key@, branches@),
{
    match branches.to_yaml() {
        Some(list) => {
            if !branches.is_empty() {
                let deeper = indent(list.as_str());
                text.append(key);
                text.append(deeper.as_str());
                assert(text@ =~= old(text)@ + event_text(key@, branches@));
            } else {
                assert(text@ =~= old(text)@ + event_text(key@, branches@));
            }
            true
        },
        None => false,
    }
}

impl On {
    /// The text of the events, or `None` if a branch name has no YAML
    /// form.
    pub fn to_yaml(&self) -> (text: Option<String>)
        ensures
            text is Some <==> self@.encodable(),
            text matches Some(t) ==> t@ == self@.yaml(),
    {
        let mut text = String::new();
        if !append_event(&mut text, "push:\n", &self.push) {
            return None;
        }
        if !append_event(&mut text, "pull_request:\n", &self.pull_request) {
            return None;
        }
        assert(text@ =~= self@.yaml());
        Some(text)
    }
}

impl Step {
    /// The step as one item of the list of steps, or `None` if one of its
    /// strings has no YAML form.
    pub fn to_yaml(&self) -> (text: Option<String>)
        ensures
            text is Some <==> self@.encodable(),
            text matches Some(t) ==> t@ == self@.yaml(),
    {
        let mut fields = String::new();
        if let Some(name) = &self.name {
            if !append_field(&mut fields, "name: ", name.as_str()) {
                return None;
            }
        }
        let done = match &self.task {
            Task::Uses(action) => append_field(&mut fields, "uses: ", action.as_str()),
            Task::Run(line) => append_field(&mut fields, "run: ", line.as_str()),
        };
        if !done {
            return None;
        }
        if let Some(with) = &self.with {
            if with.cache_on_failure {
                fields.append("with:\n  cache_on_failure: true\n");
            } else {
                fields.append("with: {}\n");
            }
        }
        assert(fields@ =~= self@.fields());
        Some(item(fields.as_str()))
    }
}

impl Checks {
    /// The text of the job, or `None` if one of its strings has no YAML
    /// form.
    pub fn to_yaml(&self) -> (text: Option<String>)
        ensures
            text is Some <==> self@.encodable(),
            text matches Some(t) ==> t@ == self@.yaml(),
    {
        let mut text = String::new();
        if !append_field(&mut text, "runs-on: ", self.runs_on.as_str()) {
            return None;
        }
        let ghost all = self@.steps;
        if self.steps.len() == 0 {
            text.append("steps: []\n");
            assert(text@ =~= self@.yaml());
            return Some(text);
        }
        text.append("steps:\n");
        let ghost start = text@;
        let mut i: usize = 0;
        while i < self.steps.len()
            invariant
                i <= self.steps.len(),
                all == self@.steps,
                steps_encodable(all.take(i as int)),
                text@ == start + steps_text(all.take(i as int)),
            decreases self.steps.len() - i,
        {
            proof {
                assert(all.take(i + 1).drop_last() =~= all.take(i as int));
                assert(all.take(i + 1).last() == all[i as int]);
                assert(all[i as int] == self.steps[i as int]@);
            }
            match self.steps[i].to_yaml() {
                Some(entry) => {
                    text.append(entry.as_str());
                },
                None => {
                    assert(!all[i as int].encodable());
                    return None;
                },
            }
            proof {
                assert forall|j: int| 0 <= j < i + 1 implies (#[trigger] all.take(
                    i + 1,
                )[j]).encodable() by {
                    if j < i {
                        assert(all.take(i + 1)[j] == all.take(i as int)[j]);
                    }
                }
                assert(text@ =~= start + steps_text(all.take(i + 1)));
            }
            i += 1;
        }
        proof {
            assert(all.take(self.steps.len() as int) =~= all);
            assert(text@ =~= self@.yaml());
        }
        Some(text)
    }
}

impl Jobs {
    /// The text of the jobs, or `None` if one of their strings has no
    /// YAML form.
    pub fn to_yaml(&self) -> (text: Option<String>)
        ensures
            text is Some <==> self@.encodable(),
            text matches Some(t) ==> t@ == self@.jobs_yaml(),
    {
        match self.checks.to_yaml() {
            Some(checks) => {
                let mut text = String::from_str("checks:\n");
                text.append(indent(checks.as_str()).as_str());
                Some(text)
            },
            None => None,
        }
    }
}

impl Workflow {
    /// The plain text of the document, or `None` if one of its strings
    /// has no YAML form.
    pub fn to_yaml(&self) -> (text: Option<String>)
        ensures
            text is Some <==> self@.encodable(),
            text matches Some(t) ==> t@ == self@.yaml(),
    {
        let mut text = String::new();
        if !append_field(&mut text, "name: ", self.name.as_str()) {
            return None;
        }
        let on = match self.on.to_yaml() {
            Some(on) => on,
            None => {
                return None;
            },
        };
        if on.as_str().unicode_len() == 0 {
            text.append("on: {}\n");
        } else {
            text.append("on:\n");
            text.append(indent(on.as_str()).as_str());
        }
        let jobs = match self.jobs.to_yaml() {
            Some(jobs) => jobs,
            None => {
                return None;
            },
        };
        text.append("jobs:\n");
        text.append(indent(jobs.as_str()).as_str());
        assert(text@ =~= self@.yaml());
        Some(text)
    }

    /// The text of the document as it is stored and reviewed: the plain
    /// text with the blank-line rule applied. There is a text exactly
    /// where each string of the document has a YAML form of one line that
    /// reads back as the string; the text then reads back as the document.
    /// A string of several lines has no such form: the blank lines of the
    /// rule could fall inside it.
    pub fn serialize_pretty(&self) -> (text: Option<String>)
        ensures
            text_opt(text) == self@.serialized(),
            text matches Some(t) ==> parsed(t@, self@.path) == taken_document(self@),
    {
        if !self.round_trips() {
            return None;
        }
        match self.to_yaml() {
            Some(plain) => Some(prettify(plain.as_str())),
            None => None,
        }
    }
}

} // verus!
