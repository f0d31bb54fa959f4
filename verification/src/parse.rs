//! Reading a workflow document back from its text. The reader takes the
//! layout that the serializer writes, with or without the blank lines of
//! the pretty form, and nothing else. Of any other text it says what is
//! wrong and where.

use crate::pretty::{lines, lines_of};
use crate::text::{
    decimal, has_prefix, same, starts_with, text_opt, to_decimal, without_start,
};
use crate::workflow::{
    Branches, Checks, ChecksView, Jobs, On, OnView, Step, StepView, Task, TaskView, With,
    Workflow, WorkflowView,
};
use crate::yaml::{decode, yaml_string};
use vstd::prelude::*;

verus! {

/// What is wrong with the lines handed to a reader, and where.
pub struct FaultView {
    /// The position of the first line that the reader cannot take, counted
    /// from 0; the number of lines where they end too early.
    pub line: nat,
    /// What is wrong there.
    pub cause: Seq<char>,
}

/// What is wrong with the lines handed to a reader, and where.
pub struct Fault {
    pub line: usize,
    pub cause: String,
}

impl View for Fault {
    type V = FaultView;

    open spec fn view(&self) -> FaultView {
        FaultView { line: self.line as nat, cause: self.cause@ }
    }
}

/// The cause of a line that does not begin with, or is not, `what`.
pub open spec fn expected(what: Seq<char>) -> Seq<char> {
    "expected `"@ + what + "`"@
}

/// The cause of a line where none should follow.
pub open spec fn unexpected() -> Seq<char> {
    "unexpected line"@
}

/// The cause of a line that should say what a step does and does not.
pub open spec fn task_expected() -> Seq<char> {
    "expected `uses: ` or `run: `"@
}

/// The success of a reader with the value `value`.
pub open spec fn taken<T>(value: T) -> Result<T, FaultView> {
    Ok(value)
}

/// The success of reading one line with the value `value`.
pub open spec fn taken_line<T>(value: T) -> Result<T, Seq<char>> {
    Ok(value)
}

/// The success of reading a text with the document `document`.
pub open spec fn taken_document(document: WorkflowView) -> Result<
    WorkflowView,
    DocumentErrorView,
> {
    Ok(document)
}

/// The failure with the cause `cause` at the position `line`.
pub open spec fn fault_at<T>(line: int, cause: Seq<char>) -> Result<T, FaultView> {
    Err(FaultView { line: line as nat, cause })
}

/// `found`, with the position of its fault counted from `by` lines
/// further up.
pub open spec fn shifted<T>(found: Result<T, FaultView>, by: int) -> Result<T, FaultView> {
    match found {
        Ok(value) => Ok(value),
        Err(fault) => fault_at(fault.line as int + by, fault.cause),
    }
}

/// The lines of `lines` that are not empty, in order.
pub open spec fn nonblank(lines: Seq<Seq<char>>) -> Seq<Seq<char>>
    decreases lines.len(),
{
    if lines.len() == 0 {
        Seq::empty()
    } else if lines.last().len() == 0 {
        nonblank(lines.drop_last())
    } else {
        nonblank(lines.drop_last()).push(lines.last())
    }
}

/// The positions in `lines` of the lines that are not empty, in order and
/// counted from 0.
pub open spec fn nonblank_positions(lines: Seq<Seq<char>>) -> Seq<int>
    decreases lines.len(),
{
    if lines.len() == 0 {
        Seq::empty()
    } else if lines.last().len() == 0 {
        nonblank_positions(lines.drop_last())
    } else {
        nonblank_positions(lines.drop_last()).push(lines.len() - 1)
    }
}

/// How many lines at the start of `lines` begin with two spaces: the
/// length of the block that stands one level deeper than the line before
/// it.
pub open spec fn deeper_run(lines: Seq<Seq<char>>) -> nat
    decreases lines.len(),
{
    if lines.len() > 0 && starts_with(lines[0], "  "@) {
        1 + deeper_run(lines.skip(1))
    } else {
        0
    }
}

/// A run of lines is no longer than the lines it is a run of.
pub proof fn lemma_deeper_run_is_bounded(lines: Seq<Seq<char>>)
    ensures
        deeper_run(lines) <= lines.len(),
    decreases lines.len(),
{
    if lines.len() > 0 && starts_with(lines[0], "  "@) {
        lemma_deeper_run_is_bounded(lines.skip(1));
    }
}

/// `lines` one level up: each line without its first two characters.
pub open spec fn dedent(lines: Seq<Seq<char>>) -> Seq<Seq<char>> {
    Seq::new(lines.len(), |i: int| lines[i].skip(2))
}

/// The block under the first line of `lines`, one level up.
pub open spec fn block_under(lines: Seq<Seq<char>>) -> Seq<Seq<char>> {
    dedent(lines.subrange(1, 1 + deeper_run(lines.skip(1)) as int))
}

/// The lines that follow the first line of `lines` and the block under it.
pub open spec fn block_after(lines: Seq<Seq<char>>) -> Seq<Seq<char>> {
    lines.skip(1 + deeper_run(lines.skip(1)) as int)
}

/// The string of a line that consists of `key` and the YAML form of a
/// string; the cause for any other line.
pub open spec fn keyed_string(line: Seq<char>, key: Seq<char>) -> Result<Seq<char>, Seq<char>> {
    if starts_with(line, key) {
        yaml_string(line.skip(key.len() as int))
    } else {
        Err(expected(key))
    }
}

/// The strings of a list whose items are the lines `lines`, or the fault
/// of the first line that is no item with a string.
pub open spec fn read_items(lines: Seq<Seq<char>>) -> Result<Seq<Seq<char>>, FaultView>
    decreases lines.len(),
{
    if lines.len() == 0 {
        Ok(Seq::empty())
    } else {
        match read_items(lines.drop_last()) {
            Ok(before) => match keyed_string(lines.last(), "- "@) {
                Ok(item) => Ok(before.push(item)),
                Err(cause) => fault_at(lines.len() - 1, cause),
            },
            Err(fault) => Err(fault),
        }
    }
}

/// The branches of a block that consists of the key `branches:` and a
/// list.
pub open spec fn read_branches(lines: Seq<Seq<char>>) -> Result<Seq<Seq<char>>, FaultView> {
    if lines.len() > 0 && lines[0] == "branches:"@ {
        shifted(read_items(lines.skip(1)), 1)
    } else {
        fault_at(0, expected("branches:"@))
    }
}

/// The branches of the event `key` if `lines` begins with it, and the
/// lines after the event. An event that is not there has no branches and
/// takes no line.
pub open spec fn read_event(lines: Seq<Seq<char>>, key: Seq<char>) -> Result<
    (Seq<Seq<char>>, Seq<Seq<char>>),
    FaultView,
> {
    if lines.len() > 0 && lines[0] == key {
        match read_branches(block_under(lines)) {
            Ok(branches) => Ok((branches, block_after(lines))),
            Err(fault) => fault_at(fault.line as int + 1, fault.cause),
        }
    } else {
        Ok((Seq::empty(), lines))
    }
}

/// The events of the block `lines`: pushes, then pull requests, each
/// optional, and nothing after them.
pub open spec fn read_on(lines: Seq<Seq<char>>) -> Result<OnView, FaultView> {
    match read_event(lines, "push:"@) {
        Ok((push, rest)) => match read_event(rest, "pull_request:"@) {
            Ok((pull_request, left)) => if left.len() == 0 {
                Ok(OnView { push, pull_request })
            } else {
                fault_at(lines.len() - left.len(), unexpected())
            },
            Err(fault) => fault_at(fault.line as int + lines.len() - rest.len(), fault.cause),
        },
        Err(fault) => Err(fault),
    }
}

/// The parameters that the lines `lines` hold, if these are all the lines
/// of a step after what it does: no line, the empty map, or the flag set.
pub open spec fn read_with(lines: Seq<Seq<char>>) -> Result<Option<With>, FaultView> {
    if lines.len() == 0 {
        Ok(None)
    } else if lines[0] == "with: {}"@ {
        if lines.len() == 1 {
            Ok(Some(With { cache_on_failure: false }))
        } else {
            fault_at(1, unexpected())
        }
    } else if lines[0] == "with:"@ {
        if lines.len() >= 2 && lines[1] == "  cache_on_failure: true"@ {
            if lines.len() == 2 {
                Ok(Some(With { cache_on_failure: true }))
            } else {
                fault_at(2, unexpected())
            }
        } else {
            fault_at(1, expected("  cache_on_failure: true"@))
        }
    } else {
        fault_at(0, expected("with:"@))
    }
}

/// What the step does, from the line that says it.
pub open spec fn read_task(line: Seq<char>) -> Result<TaskView, Seq<char>> {
    if starts_with(line, "uses: "@) {
        match yaml_string(line.skip(6)) {
            Ok(action) => Ok(TaskView::Uses(action)),
            Err(cause) => Err(cause),
        }
    } else if starts_with(line, "run: "@) {
        match yaml_string(line.skip(5)) {
            Ok(command) => Ok(TaskView::Run(command)),
            Err(cause) => Err(cause),
        }
    } else {
        Err(task_expected())
    }
}

/// The step with the name `name` and the further fields `lines`: what
/// the step does, then the parameters.
pub open spec fn read_body(lines: Seq<Seq<char>>, name: Option<Seq<char>>) -> Result<
    StepView,
    FaultView,
> {
    if lines.len() == 0 {
        fault_at(0, task_expected())
    } else {
        match read_task(lines[0]) {
            Ok(task) => match read_with(lines.skip(1)) {
                Ok(with) => Ok(StepView { name, task, with }),
                Err(fault) => fault_at(fault.line as int + 1, fault.cause),
            },
            Err(cause) => fault_at(0, cause),
        }
    }
}

/// The step with the fields `lines`: the name if the first line gives
/// one, then what the step does, then the parameters.
pub open spec fn read_fields(lines: Seq<Seq<char>>) -> Result<StepView, FaultView> {
    if lines.len() > 0 && starts_with(lines[0], "name: "@) {
        match yaml_string(lines[0].skip(6)) {
            Ok(name) => shifted(read_body(lines.skip(1), Some(name)), 1),
            Err(cause) => fault_at(0, cause),
        }
    } else {
        read_body(lines, None)
    }
}

/// The fields of the step that `lines` begins with: its first line
/// without the dash, and the block under it one level up.
pub open spec fn first_step_fields(lines: Seq<Seq<char>>) -> Seq<Seq<char>> {
    seq![lines[0].skip(2)] + block_under(lines)
}

/// The steps of a list whose lines are `lines`: each step begins with a
/// dash and goes on one level deeper.
pub open spec fn read_steps(lines: Seq<Seq<char>>) -> Result<Seq<StepView>, FaultView>
    decreases lines.len(),
{
    if lines.len() == 0 {
        Ok(Seq::empty())
    } else if !starts_with(lines[0], "- "@) {
        fault_at(0, expected("- "@))
    } else {
        proof {
            lemma_deeper_run_is_bounded(lines.skip(1));
        }
        match read_fields(first_step_fields(lines)) {
            Ok(step) => match read_steps(block_after(lines)) {
                Ok(steps) => Ok(seq![step] + steps),
                Err(fault) => fault_at(
                    fault.line as int + 1 + deeper_run(lines.skip(1)),
                    fault.cause,
                ),
            },
            Err(fault) => Err(fault),
        }
    }
}

/// The steps of a job from the lines `lines` after its runner: written
/// either as `[]` or as a list.
pub open spec fn read_steps_part(lines: Seq<Seq<char>>) -> Result<Seq<StepView>, FaultView> {
    if lines.len() == 0 {
        fault_at(0, expected("steps:"@))
    } else if lines[0] == "steps: []"@ {
        if lines.len() == 1 {
            Ok(Seq::empty())
        } else {
            fault_at(1, unexpected())
        }
    } else if lines[0] == "steps:"@ {
        shifted(read_steps(lines.skip(1)), 1)
    } else {
        fault_at(0, expected("steps:"@))
    }
}

/// The job of the block `lines`: the runner, then the steps.
pub open spec fn read_checks(lines: Seq<Seq<char>>) -> Result<ChecksView, FaultView> {
    if lines.len() == 0 {
        fault_at(0, expected("runs-on: "@))
    } else {
        match keyed_string(lines[0], "runs-on: "@) {
            Ok(runs_on) => match read_steps_part(lines.skip(1)) {
                Ok(steps) => Ok(ChecksView { runs_on, steps }),
                Err(fault) => fault_at(fault.line as int + 1, fault.cause),
            },
            Err(cause) => fault_at(0, cause),
        }
    }
}

/// The block under the key `key`, one level up, where `lines` is that key
/// followed by nothing but lines one level deeper.
pub open spec fn read_keyed_block(lines: Seq<Seq<char>>, key: Seq<char>) -> Result<
    Seq<Seq<char>>,
    FaultView,
> {
    if lines.len() > 0 && lines[0] == key {
        if deeper_run(lines.skip(1)) == lines.len() - 1 {
            Ok(dedent(lines.skip(1)))
        } else {
            fault_at(1 + deeper_run(lines.skip(1)) as int, unexpected())
        }
    } else {
        fault_at(0, expected(key))
    }
}

/// The jobs of the lines `lines`: the key `jobs:` and under it the key
/// `checks:` with the job, and nothing after them.
pub open spec fn read_jobs(lines: Seq<Seq<char>>) -> Result<ChecksView, FaultView> {
    match read_keyed_block(lines, "jobs:"@) {
        Ok(jobs) => match read_keyed_block(jobs, "checks:"@) {
            Ok(checks) => shifted(read_checks(checks), 2),
            Err(fault) => fault_at(fault.line as int + 1, fault.cause),
        },
        Err(fault) => Err(fault),
    }
}

/// The events of a document and the lines after them, where `lines`
/// follows the name: either the empty map on one line, or the key and the
/// block under it.
pub open spec fn read_on_part(lines: Seq<Seq<char>>) -> Result<
    (OnView, Seq<Seq<char>>),
    FaultView,
> {
    if lines.len() == 0 {
        fault_at(0, expected("on:"@))
    } else if lines[0] == "on: {}"@ {
        Ok((OnView { push: Seq::empty(), pull_request: Seq::empty() }, lines.skip(1)))
    } else if lines[0] == "on:"@ {
        match read_on(block_under(lines)) {
            Ok(on) => Ok((on, block_after(lines))),
            Err(fault) => fault_at(fault.line as int + 1, fault.cause),
        }
    } else {
        fault_at(0, expected("on:"@))
    }
}

/// The document with the lines `lines`, stored at `path`: the name, the
/// events and the jobs, in this order.
pub open spec fn read_document(lines: Seq<Seq<char>>, path: Seq<char>) -> Result<
    WorkflowView,
    FaultView,
> {
    if lines.len() == 0 {
        fault_at(0, expected("name: "@))
    } else {
        match keyed_string(lines[0], "name: "@) {
            Ok(name) => match read_on_part(lines.skip(1)) {
                Ok((on, rest)) => match read_jobs(rest) {
                    Ok(jobs) => Ok(WorkflowView { path, name, on, jobs }),
                    Err(fault) => fault_at(fault.line as int + lines.len() - rest.len(), fault.cause),
                },
                Err(fault) => fault_at(fault.line as int + 1, fault.cause),
            },
            Err(cause) => fault_at(0, cause),
        }
    }
}

/// Why a stored document cannot be used.
#[derive(Debug, PartialEq, Eq)]
pub enum DocumentError {
    /// The store could not hand the text out; the string is the cause.
    Unreadable(String),
    /// The text does not have the layout of a workflow document. `line`
    /// is the number, counted from 1, of the first line that the reader
    /// could not take, or `None` where the text ends too early; `cause`
    /// says what is wrong there.
    Malformed { line: Option<usize>, cause: String },
}

/// The mathematical value of a [`DocumentError`].
pub enum DocumentErrorView {
    Unreadable(Seq<char>),
    Malformed { line: Option<nat>, cause: Seq<char> },
}

impl View for DocumentError {
    type V = DocumentErrorView;

    open spec fn view(&self) -> DocumentErrorView {
        match self {
            DocumentError::Unreadable(cause) => DocumentErrorView::Unreadable(cause@),
            DocumentError::Malformed { line, cause } => DocumentErrorView::Malformed {
                line: match line {
                    Some(n) => Some(*n as nat),
                    None => None,
                },
                cause: cause@,
            },
        }
    }
}

impl DocumentErrorView {
    /// The message of the error. That of a malformed text names the line,
    /// or the end of the text, and ends with the cause.
    pub open spec fn message(self) -> Seq<char> {
        match self {
            DocumentErrorView::Unreadable(cause) => "failed to read workflow file: "@ + cause,
            DocumentErrorView::Malformed { line, cause } => {
                "failed to deserialize workflow file: "@ + (match line {
                    Some(n) => "line "@ + decimal(n),
                    None => "end of text"@,
                }) + ": "@ + cause
            },
        }
    }
}

impl DocumentError {
    /// The message of the error.
    pub fn to_string(&self) -> (message: String)
        ensures
            message@ == self@.message(),
    {
        match self {
            DocumentError::Unreadable(cause) => String::from_str(
                "failed to read workflow file: ",
            ).concat(cause.as_str()),
            DocumentError::Malformed { line, cause } => {
                let mut message = String::from_str("failed to deserialize workflow file: ");
                match line {
                    Some(n) => {
                        message.append("line ");
                        message.append(to_decimal(*n).as_str());
                    },
                    None => {
                        message.append("end of text");
                    },
                }
                message.append(": ");
                message.append(cause.as_str());
                message
            },
        }
    }
}

/// The number, counted from 1, of the line of `lines` that stands at the
/// position `at` among those that are not empty; `None` where there is no
/// such line.
pub open spec fn line_number(lines: Seq<Seq<char>>, at: nat) -> Option<nat> {
    let positions = nonblank_positions(lines);
    if at < positions.len() {
        Some((positions[at as int] + 1) as nat)
    } else {
        None
    }
}

/// The document that the text `text` describes, stored at `path`, or what
/// is wrong with the text and where. Empty lines count for nothing.
pub open spec fn parsed(text: Seq<char>, path: Seq<char>) -> Result<
    WorkflowView,
    DocumentErrorView,
> {
    match read_document(nonblank(lines_of(text)), path) {
        Ok(document) => Ok(document),
        Err(fault) => Err(
            DocumentErrorView::Malformed {
                line: line_number(lines_of(text), fault.line),
                cause: fault.cause,
            },
        ),
    }
}

/// The failure with the cause `cause` at the position `line`.
fn fail<T>(line: usize, cause: String) -> (found: Result<T, Fault>)
    ensures
        found matches Err(fault) && fault@ == (FaultView { line: line as nat, cause: cause@ }),
{
    Err(Fault { line, cause })
}

/// The cause of a line that does not begin with, or is not, `what`.
fn expected_text(what: &str) -> (cause: String)
    ensures
        cause@ == expected(what@),
{
    String::from_str("expected `").concat(what).concat("`")
}

/// The lines of `lines` that are not empty, and their positions.
fn drop_blank(lines: Vec<String>) -> (kept: (Vec<String>, Vec<usize>))
    ensures
        kept.0.deep_view() == nonblank(lines.deep_view()),
        kept.1@.map_values(|n: usize| n as int) == nonblank_positions(lines.deep_view()),
        forall|i: int| 0 <= i < kept.1.len() ==> kept.1[i] < lines.len(),
{
    let ghost all = lines.deep_view();
    let mut kept: Vec<String> = Vec::new();
    let mut positions: Vec<usize> = Vec::new();
    let mut i: usize = 0;
    assert(all.take(0) =~= Seq::<Seq<char>>::empty());
    assert(kept.deep_view() =~= nonblank(all.take(0)));
    assert(positions@.map_values(|n: usize| n as int) =~= nonblank_positions(all.take(0)));
    while i < lines.len()
        invariant
            i <= lines.len(),
            all == lines.deep_view(),
            kept.deep_view() == nonblank(all.take(i as int)),
            positions@.map_values(|n: usize| n as int) == nonblank_positions(all.take(i as int)),
            forall|j: int| 0 <= j < positions.len() ==> positions[j] < lines.len(),
        decreases lines.len() - i,
    {
        let ghost before = kept.deep_view();
        let ghost places = positions@.map_values(|n: usize| n as int);
        proof {
            assert(all.take(i + 1).drop_last() =~= all.take(i as int));
            assert(all.take(i + 1).last() == lines[i as int]@);
        }
        if lines[i].as_str().unicode_len() > 0 {
            kept.push(lines[i].clone());
            positions.push(i);
            assert(kept.deep_view() =~= before.push(lines[i as int]@));
            assert(positions@.map_values(|n: usize| n as int) =~= places.push(i as int));
        }
        i += 1;
    }
    assert(all.take(lines.len() as int) =~= all);
    (kept, positions)
}

/// The length of the run of lines from `from` on that begin with two
/// spaces.
fn run_length(lines: &Vec<String>, from: usize) -> (n: usize)
    requires
        from <= lines.len(),
    ensures
        n == deeper_run(lines.deep_view().skip(from as int)),
        from + n <= lines.len(),
        forall|j: int| from <= j < from + n ==> starts_with(#[trigger] lines[j]@, "  "@),
{
    let ghost all = lines.deep_view();
    let mut n: usize = 0;
    while from + n < lines.len() && has_prefix(lines[from + n].as_str(), "  ")
        invariant
            from + n <= lines.len(),
            all == lines.deep_view(),
            deeper_run(all.skip(from as int)) == n + deeper_run(all.skip(from + n)),
            forall|j: int| from <= j < from + n ==> starts_with(#[trigger] lines[j]@, "  "@),
        decreases lines.len() - from - n,
    {
        proof {
            assert(all.skip(from + n)[0] == lines[from + n]@);
            assert(all.skip(from + n).skip(1) =~= all.skip(from + n + 1));
        }
        n += 1;
    }
    proof {
        if from + n < lines.len() {
            assert(all.skip(from + n)[0] == lines[from + n]@);
        }
    }
    n
}

/// The lines `from..to` of `lines`, each of which begins with two spaces,
/// one level up.
fn part_up(lines: &Vec<String>, from: usize, to: usize) -> (out: Vec<String>)
    requires
        from <= to <= lines.len(),
        forall|j: int| from <= j < to ==> starts_with(#[trigger] lines[j]@, "  "@),
    ensures
        out.deep_view() == dedent(lines.deep_view().subrange(from as int, to as int)),
        out.len() == to - from,
{
    let mut out: Vec<String> = Vec::new();
    let mut i: usize = from;
    proof {
        reveal_strlit("  ");
    }
    while i < to
        invariant
            from <= i <= to <= lines.len(),
            "  "@.len() == 2,
            out.len() == i - from,
            forall|j: int| from <= j < to ==> starts_with(#[trigger] lines[j]@, "  "@),
            out.deep_view() == dedent(lines.deep_view().subrange(from as int, i as int)),
        decreases to - i,
    {
        let ghost before = out.deep_view();
        assert(starts_with(lines[i as int]@, "  "@));
        out.push(without_start(lines[i].as_str(), 2));
        proof {
            assert(out.deep_view() =~= before.push(lines[i as int]@.skip(2)));
            assert(dedent(lines.deep_view().subrange(from as int, i + 1)) =~= before.push(
                lines[i as int]@.skip(2),
            ));
        }
        i += 1;
    }
    out
}

/// The value of a text or of the cause in its place.
pub open spec fn text_or_cause(found: Result<String, String>) -> Result<Seq<char>, Seq<char>> {
    match found {
        Ok(text) => Ok(text@),
        Err(cause) => Err(cause@),
    }
}

/// The value of a list of texts or of the fault in its place.
pub open spec fn texts_or_fault(found: Result<Vec<String>, Fault>) -> Result<
    Seq<Seq<char>>,
    FaultView,
> {
    match found {
        Ok(list) => Ok(list.deep_view()),
        Err(fault) => Err(fault@),
    }
}

/// The string of a line that consists of `key` and the YAML form of a
/// string.
fn string_after(line: &str, key: &str) -> (s: Result<String, String>)
    ensures
        text_or_cause(s) == keyed_string(line@, key@),
{
    if has_prefix(line, key) {
        decode(without_start(line, key.unicode_len()).as_str())
    } else {
        Err(expected_text(key))
    }
}

/// The strings of a list whose items are the lines from `from` on.
fn items(lines: &Vec<String>, from: usize) -> (list: Result<Vec<String>, Fault>)
    requires
        from <= lines.len(),
    ensures
        texts_or_fault(list) == read_items(lines.deep_view().skip(from as int)),
        list matches Err(fault) ==> fault.line <= lines.len() - from,
{
    let ghost all = lines.deep_view().skip(from as int);
    let mut list: Vec<String> = Vec::new();
    let mut i: usize = from;
    assert(all.take(0) =~= Seq::<Seq<char>>::empty());
    assert(list.deep_view() =~= Seq::<Seq<char>>::empty());
    while i < lines.len()
        invariant
            from <= i <= lines.len(),
            all == lines.deep_view().skip(from as int),
            read_items(all.take(i - from)) == Ok::<Seq<Seq<char>>, FaultView>(list.deep_view()),
        decreases lines.len() - i,
    {
        let ghost before = list.deep_view();
        proof {
            assert(all.take(i - from + 1).drop_last() =~= all.take(i - from));
            assert(all.take(i - from + 1).last() == lines[i as int]@);
        }
        match string_after(lines[i].as_str(), "- ") {
            Ok(entry) => {
                list.push(entry);
                assert(list.deep_view() =~= before.push(entry@));
            },
            Err(cause) => {
                proof {
                    lemma_read_items_fails_for_good(all, i - from + 1);
                }
                return fail(i - from, cause);
            },
        }
        i += 1;
    }
    assert(all.take(lines.len() - from) =~= all);
    Ok(list)
}

/// Once the items of a prefix cannot be read, those of the whole cannot,
/// for the same fault.
proof fn lemma_read_items_fails_for_good(lines: Seq<Seq<char>>, k: int)
    requires
        0 <= k <= lines.len(),
        read_items(lines.take(k)) is Err,
    ensures
        read_items(lines) == read_items(lines.take(k)),
    decreases lines.len(),
{
    if k < lines.len() {
        assert(lines.drop_last().take(k) =~= lines.take(k));
        lemma_read_items_fails_for_good(lines.drop_last(), k);
    } else {
        assert(lines.take(k) =~= lines);
    }
}

/// The branches of a block that consists of the key and a list.
fn branches(lines: &Vec<String>) -> (list: Result<Vec<String>, Fault>)
    ensures
        texts_or_fault(list) == read_branches(lines.deep_view()),
        list matches Err(fault) ==> fault.line <= lines.len(),
{
    if lines.len() > 0 && same(lines[0].as_str(), "branches:") {
        match items(lines, 1) {
            Ok(list) => Ok(list),
            Err(fault) => fail(fault.line + 1, fault.cause),
        }
    } else {
        fail(0, expected_text("branches:"))
    }
}

/// The branches of the event `key` if the lines from `from` on begin with
/// it, and the position after the event.
fn event(lines: &Vec<String>, from: usize, key: &str) -> (found: Result<
    (Vec<String>, usize),
    Fault,
>)
    requires
        from <= lines.len(),
    ensures
        match read_event(lines.deep_view().skip(from as int), key@) {
            Ok((list, rest)) => found matches Ok((l, next)) && l.deep_view() == list && from
                <= next <= lines.len() && lines.deep_view().skip(next as int) == rest,
            Err(fault) => found matches Err(f) && f@ == fault && f.line <= lines.len() - from,
        },
{
    let ghost tail = lines.deep_view().skip(from as int);
    if from < lines.len() && same(lines[from].as_str(), key) {
        assert(tail[0] == lines[from as int]@);
        assert(tail.skip(1) =~= lines.deep_view().skip(from + 1));
        let n = run_length(lines, from + 1);
        let under = part_up(lines, from + 1, from + 1 + n);
        proof {
            assert(tail.subrange(1, 1 + n) =~= lines.deep_view().subrange(from + 1, from + 1 + n));
            assert(tail.skip(1 + n) =~= lines.deep_view().skip(from + 1 + n));
        }
        match branches(&under) {
            Ok(list) => Ok((list, from + 1 + n)),
            Err(fault) => fail(fault.line + 1, fault.cause),
        }
    } else {
        if from < lines.len() {
            assert(tail[0] == lines[from as int]@);
        }
        let list: Vec<String> = Vec::new();
        assert(list.deep_view() =~= Seq::<Seq<char>>::empty());
        Ok((list, from))
    }
}

/// The events of the block `lines`.
fn on(lines: &Vec<String>) -> (found: Result<On, Fault>)
    ensures
        match read_on(lines.deep_view()) {
            Ok(on) => found matches Ok(o) && o@ == on,
            Err(fault) => found matches Err(f) && f@ == fault && f.line <= lines.len(),
        },
{
    assert(lines.deep_view().skip(0) =~= lines.deep_view());
    match event(lines, 0, "push:") {
        Ok((push, next)) => match event(lines, next, "pull_request:") {
            Ok((pull_request, end)) => {
                if end == lines.len() {
                    Ok(
                        On {
                            push: Branches { branches: push },
                            pull_request: Branches { branches: pull_request },
                        },
                    )
                } else {
                    fail(end, String::from_str("unexpected line"))
                }
            },
            Err(fault) => fail(fault.line + next, fault.cause),
        },
        Err(fault) => Err(fault),
    }
}

/// The parameters that the lines from `from` on hold.
fn with(lines: &Vec<String>, from: usize) -> (found: Result<Option<With>, Fault>)
    requires
        from <= lines.len(),
    ensures
        match read_with(lines.deep_view().skip(from as int)) {
            Ok(with) => found matches Ok(w) && w == with,
            Err(fault) => found matches Err(f) && f@ == fault && f.line <= lines.len() - from,
        },
{
    let ghost tail = lines.deep_view().skip(from as int);
    let left = lines.len() - from;
    if left == 0 {
        return Ok(None);
    }
    assert(tail[0] == lines[from as int]@);
    if same(lines[from].as_str(), "with: {}") {
        if left == 1 {
            Ok(Some(With { cache_on_failure: false }))
        } else {
            fail(1, String::from_str("unexpected line"))
        }
    } else if same(lines[from].as_str(), "with:") {
        if left >= 2 {
            assert(tail[1] == lines[from + 1]@);
        }
        if left >= 2 && same(lines[from + 1].as_str(), "  cache_on_failure: true") {
            if left == 2 {
                Ok(Some(With { cache_on_failure: true }))
            } else {
                fail(2, String::from_str("unexpected line"))
            }
        } else {
            fail(1, expected_text("  cache_on_failure: true"))
        }
    } else {
        fail(0, expected_text("with:"))
    }
}

/// What the step does, from the line that says it.
fn task(line: &str) -> (found: Result<Task, String>)
    ensures
        match read_task(line@) {
            Ok(task) => found matches Ok(t) && t@ == task,
            Err(cause) => found matches Err(c) && c@ == cause,
        },
{
    proof {
        reveal_strlit("uses: ");
        reveal_strlit("run: ");
    }
    if has_prefix(line, "uses: ") {
        match decode(without_start(line, 6).as_str()) {
            Ok(action) => Ok(Task::Uses(action)),
            Err(cause) => Err(cause),
        }
    } else if has_prefix(line, "run: ") {
        match decode(without_start(line, 5).as_str()) {
            Ok(command) => Ok(Task::Run(command)),
            Err(cause) => Err(cause),
        }
    } else {
        Err(String::from_str("expected `uses: ` or `run: `"))
    }
}

/// The step with the name `name` and the further fields from `from` on.
fn body(lines: &Vec<String>, from: usize, name: Option<String>) -> (found: Result<Step, Fault>)
    requires
        from <= lines.len(),
    ensures
        match read_body(lines.deep_view().skip(from as int), text_opt(name)) {
            Ok(step) => found matches Ok(s) && s@ == step,
            Err(fault) => found matches Err(f) && f@ == fault && f.line <= lines.len() - from,
        },
{
    let ghost tail = lines.deep_view().skip(from as int);
    if from == lines.len() {
        return fail(0, String::from_str("expected `uses: ` or `run: `"));
    }
    assert(tail[0] == lines[from as int]@);
    assert(tail.skip(1) =~= lines.deep_view().skip(from + 1));
    match task(lines[from].as_str()) {
        Ok(task) => match with(lines, from + 1) {
            Ok(with) => Ok(Step { name, task, with }),
            Err(fault) => fail(fault.line + 1, fault.cause),
        },
        Err(cause) => fail(0, cause),
    }
}

/// The step with the fields `lines`.
fn fields(lines: &Vec<String>) -> (found: Result<Step, Fault>)
    ensures
        match read_fields(lines.deep_view()) {
            Ok(step) => found matches Ok(s) && s@ == step,
            Err(fault) => found matches Err(f) && f@ == fault && f.line <= lines.len(),
        },
{
    proof {
        reveal_strlit("name: ");
    }
    assert(lines.deep_view().skip(0) =~= lines.deep_view());
    if lines.len() > 0 && has_prefix(lines[0].as_str(), "name: ") {
        match decode(without_start(lines[0].as_str(), 6).as_str()) {
            Ok(name) => match body(lines, 1, Some(name)) {
                Ok(step) => Ok(step),
                Err(fault) => fail(fault.line + 1, fault.cause),
            },
            Err(cause) => fail(0, cause),
        }
    } else {
        body(lines, 0, None)
    }
}

/// The value of a list of steps or of the fault in its place.
pub open spec fn steps_or_fault(found: Result<Vec<Step>, Fault>) -> Result<
    Seq<StepView>,
    FaultView,
> {
    match found {
        Ok(steps) => Ok(steps@.map_values(|step: Step| step@)),
        Err(fault) => Err(fault@),
    }
}

/// What reading the steps of a list gives where the steps `steps` stand
/// in `by` lines and `rest` is what the lines after them give.
pub open spec fn steps_then(steps: Seq<StepView>, by: int, rest: Result<Seq<StepView>, FaultView>)
    -> Result<Seq<StepView>, FaultView> {
    match rest {
        Ok(rest) => Ok(steps + rest),
        Err(fault) => fault_at(fault.line as int + by, fault.cause),
    }
}

/// The steps of a list whose lines are the lines from `from` on.
fn steps(lines: &Vec<String>, from: usize) -> (found: Result<Vec<Step>, Fault>)
    requires
        from <= lines.len(),
    ensures
        steps_or_fault(found) == read_steps(lines.deep_view().skip(from as int)),
        found matches Err(fault) ==> fault.line <= lines.len() - from,
{
    let ghost all = lines.deep_view();
    let mut found: Vec<Step> = Vec::new();
    let mut at: usize = from;
    proof {
        reveal_strlit("- ");
        let rest = read_steps(all.skip(from as int));
        if rest is Ok {
            assert(Seq::<StepView>::empty() + rest->Ok_0 =~= rest->Ok_0);
        }
    }
    while at < lines.len()
        invariant
            from <= at <= lines.len(),
            all == lines.deep_view(),
            "- "@.len() == 2,
            read_steps(all.skip(from as int)) == steps_then(
                found@.map_values(|step: Step| step@),
                at - from,
                read_steps(all.skip(at as int)),
            ),
        decreases lines.len() - at,
    {
        let ghost tail = all.skip(at as int);
        let ghost done = found@.map_values(|step: Step| step@);
        proof {
            assert(tail[0] == lines[at as int]@);
            assert(tail.skip(1) =~= all.skip(at + 1));
        }
        if !has_prefix(lines[at].as_str(), "- ") {
            return fail(at - from, expected_text("- "));
        }
        let n = run_length(lines, at + 1);
        let mut step_lines: Vec<String> = Vec::new();
        step_lines.push(without_start(lines[at].as_str(), 2));
        let mut under = part_up(lines, at + 1, at + 1 + n);
        let ghost head = step_lines.deep_view();
        let ghost below = under.deep_view();
        step_lines.append(&mut under);
        proof {
            assert(head =~= seq![tail[0].skip(2)]);
            assert(tail.subrange(1, 1 + n) =~= all.subrange(at + 1, at + 1 + n));
            assert(tail.skip(1 + n) =~= all.skip(at + 1 + n));
            assert(step_lines.deep_view() =~= head + below);
            assert(step_lines.deep_view() == first_step_fields(tail));
        }
        match fields(&step_lines) {
            Ok(step) => {
                found.push(step);
                proof {
                    let now = found@.map_values(|step: Step| step@);
                    assert(now =~= done.push(step@));
                    let rest = read_steps(all.skip(at + 1 + n));
                    if rest is Ok {
                        assert(done + (seq![step@] + rest->Ok_0) =~= now + rest->Ok_0);
                    }
                }
            },
            Err(fault) => {
                return fail(fault.line + (at - from), fault.cause);
            },
        }
        at = at + 1 + n;
    }
    proof {
        assert(all.skip(at as int) =~= Seq::<Seq<char>>::empty());
        assert(found@.map_values(|step: Step| step@) + Seq::<StepView>::empty()
            =~= found@.map_values(|step: Step| step@));
    }
    Ok(found)
}

/// The steps of a job from the lines from position 1 on.
fn steps_part(lines: &Vec<String>) -> (found: Result<Vec<Step>, Fault>)
    requires
        lines.len() >= 1,
    ensures
        steps_or_fault(found) == read_steps_part(lines.deep_view().skip(1)),
        found matches Err(fault) ==> fault.line <= lines.len() - 1,
{
    let ghost tail = lines.deep_view().skip(1);
    if lines.len() == 1 {
        return fail(0, expected_text("steps:"));
    }
    assert(tail[0] == lines[1]@);
    assert(tail.skip(1) =~= lines.deep_view().skip(2));
    if same(lines[1].as_str(), "steps: []") {
        if lines.len() == 2 {
            let none: Vec<Step> = Vec::new();
            assert(none@.map_values(|step: Step| step@) =~= Seq::<StepView>::empty());
            Ok(none)
        } else {
            fail(1, String::from_str("unexpected line"))
        }
    } else if same(lines[1].as_str(), "steps:") {
        match steps(lines, 2) {
            Ok(found) => Ok(found),
            Err(fault) => fail(fault.line + 1, fault.cause),
        }
    } else {
        fail(0, expected_text("steps:"))
    }
}

/// The job of the block `lines`.
fn checks(lines: &Vec<String>) -> (found: Result<Checks, Fault>)
    ensures
        match read_checks(lines.deep_view()) {
            Ok(checks) => found matches Ok(c) && c@ == checks,
            Err(fault) => found matches Err(f) && f@ == fault && f.line <= lines.len(),
        },
{
    if lines.len() == 0 {
        return fail(0, expected_text("runs-on: "));
    }
    match string_after(lines[0].as_str(), "runs-on: ") {
        Ok(runs_on) => match steps_part(lines) {
            Ok(steps) => Ok(Checks { runs_on, steps }),
            Err(fault) => fail(fault.line + 1, fault.cause),
        },
        Err(cause) => fail(0, cause),
    }
}

/// The block under the key `key`, one level up, where the lines from
/// `from` on are the key and that block.
fn keyed_block(lines: &Vec<String>, from: usize, key: &str) -> (found: Result<
    Vec<String>,
    Fault,
>)
    requires
        from <= lines.len(),
    ensures
        texts_or_fault(found) == read_keyed_block(lines.deep_view().skip(from as int), key@),
        found matches Err(fault) ==> fault.line <= lines.len() - from,
        found matches Ok(block) ==> block.len() + 1 == lines.len() - from,
{
    let ghost tail = lines.deep_view().skip(from as int);
    if from < lines.len() && same(lines[from].as_str(), key) {
        assert(tail[0] == lines[from as int]@);
        assert(tail.skip(1) =~= lines.deep_view().skip(from + 1));
        let n = run_length(lines, from + 1);
        if from + 1 + n == lines.len() {
            let under = part_up(lines, from + 1, from + 1 + n);
            assert(tail.skip(1) =~= lines.deep_view().subrange(from + 1, from + 1 + n));
            Ok(under)
        } else {
            fail(1 + n, String::from_str("unexpected line"))
        }
    } else {
        if from < lines.len() {
            assert(tail[0] == lines[from as int]@);
        }
        fail(0, expected_text(key))
    }
}

/// The jobs of the lines from `from` on.
fn jobs(lines: &Vec<String>, from: usize) -> (found: Result<Jobs, Fault>)
    requires
        from <= lines.len(),
    ensures
        match read_jobs(lines.deep_view().skip(from as int)) {
            Ok(checks) => found matches Ok(j) && j@ == checks,
            Err(fault) => found matches Err(f) && f@ == fault && f.line <= lines.len() - from,
        },
{
    match keyed_block(lines, from, "jobs:") {
        Ok(under) => {
            assert(under.deep_view().skip(0) =~= under.deep_view());
            match keyed_block(&under, 0, "checks:") {
                Ok(job) => match checks(&job) {
                    Ok(checks) => Ok(Jobs { checks }),
                    Err(fault) => fail(fault.line + 2, fault.cause),
                },
                Err(fault) => fail(fault.line + 1, fault.cause),
            }
        },
        Err(fault) => Err(fault),
    }
}

/// The events of a document and the position after them, where the lines
/// from position 1 on follow the name.
fn on_part(lines: &Vec<String>) -> (found: Result<(On, usize), Fault>)
    requires
        lines.len() >= 1,
    ensures
        match read_on_part(lines.deep_view().skip(1)) {
            Ok((on, rest)) => found matches Ok((o, next)) && o@ == on && 1 <= next
                <= lines.len() && lines.deep_view().skip(next as int) == rest,
            Err(fault) => found matches Err(f) && f@ == fault && f.line <= lines.len() - 1,
        },
{
    let ghost tail = lines.deep_view().skip(1);
    if lines.len() == 1 {
        return fail(0, expected_text("on:"));
    }
    assert(tail[0] == lines[1]@);
    if same(lines[1].as_str(), "on: {}") {
        let push: Vec<String> = Vec::new();
        let pull_request: Vec<String> = Vec::new();
        assert(push.deep_view() =~= Seq::<Seq<char>>::empty());
        assert(pull_request.deep_view() =~= Seq::<Seq<char>>::empty());
        assert(tail.skip(1) =~= lines.deep_view().skip(2));
        Ok(
            (
                On {
                    push: Branches { branches: push },
                    pull_request: Branches { branches: pull_request },
                },
                2,
            ),
        )
    } else if same(lines[1].as_str(), "on:") {
        assert(tail.skip(1) =~= lines.deep_view().skip(2));
        let n = run_length(lines, 2);
        let under = part_up(lines, 2, 2 + n);
        proof {
            assert(tail.subrange(1, 1 + n) =~= lines.deep_view().subrange(2, 2 + n));
            assert(tail.skip(1 + n) =~= lines.deep_view().skip(2 + n));
        }
        match on(&under) {
            Ok(events) => Ok((events, 2 + n)),
            Err(fault) => fail(fault.line + 1, fault.cause),
        }
    } else {
        fail(0, expected_text("on:"))
    }
}

/// The document with the lines `lines`, stored at `path`.
fn document(lines: &Vec<String>, path: &str) -> (found: Result<Workflow, Fault>)
    ensures
        match read_document(lines.deep_view(), path@) {
            Ok(document) => found matches Ok(w) && w@ == document,
            Err(fault) => found matches Err(f) && f@ == fault,
        },
{
    if lines.len() == 0 {
        return fail(0, expected_text("name: "));
    }
    match string_after(lines[0].as_str(), "name: ") {
        Ok(name) => match on_part(lines) {
            Ok((on, next)) => match jobs(lines, next) {
                Ok(jobs) => Ok(Workflow { path: String::from_str(path), name, on, jobs }),
                Err(fault) => fail(fault.line + next, fault.cause),
            },
            Err(fault) => fail(fault.line + 1, fault.cause),
        },
        Err(cause) => fail(0, cause),
    }
}

impl Workflow {
    /// Reads the document stored at `path` from its text `text`. The
    /// reader takes the layout that [`Workflow::to_yaml`] writes, and
    /// empty lines anywhere in it, so also what
    /// [`Workflow::serialize_pretty`] writes. Any other text is malformed:
    /// the error names the first line that the reader could not take and
    /// says what is wrong there.
    pub fn parse(text: &str, path: &str) -> (workflow: Result<Workflow, DocumentError>)
        ensures
            match parsed(text@, path@) {
                Ok(document) => workflow matches Ok(w) && w@ == document,
                Err(error) => workflow matches Err(e) && e@ == error,
            },
    {
        let (kept, positions) = drop_blank(lines(text));
        match document(&kept, path) {
            Ok(workflow) => Ok(workflow),
            Err(fault) => {
                let line = if fault.line < positions.len() {
                    Some(positions[fault.line] + 1)
                } else {
                    None
                };
                Err(DocumentError::Malformed { line, cause: fault.cause })
            },
        }
    }
}

} // verus!
