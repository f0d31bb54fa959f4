//! The lines of a workflow document: what its plain text is, line by line,
//! where each of its strings has a YAML form of one line that reads back
//! as the string.

use crate::layout::{
    are_lines, block, is_line, lemma_block_of_both, lemma_block_of_one,
    lemma_indent_lines_are_lines, lemma_indented_block, none_empty,
};
use crate::workflow::{
    all_encodable, as_item, branches_text, encodable, encoded, event_text, list_text,
    steps_encodable, steps_text, ChecksView, OnView, StepView, TaskView, With, WorkflowView,
};
use crate::yaml::{indent_lines, indented, yaml_scalar, yaml_string};
use vstd::prelude::*;

verus! {

/// Whether the string `s` survives being written and read: its YAML form
/// is one line that is not empty, with its line end, and that line reads
/// back as `s`.
pub open spec fn round_trips(s: Seq<char>) -> bool {
    &&& yaml_scalar(s) matches Some(text)
    &&& text.len() > 1
    &&& text.last() == '\n'
    &&& is_line(text.drop_last())
    &&& yaml_string(text.drop_last()) == Ok::<Seq<char>, Seq<char>>(s)
}

/// Whether each string of `strings` survives being written and read.
pub open spec fn all_round_trip(strings: Seq<Seq<char>>) -> bool {
    forall|i: int| 0 <= i < strings.len() ==> round_trips(#[trigger] strings[i])
}

/// The YAML form of the string `s` without its line end.
pub open spec fn scalar_line(s: Seq<char>) -> Seq<char> {
    encoded(s).drop_last()
}

/// Whether `lines` are lines of a text and none of them is empty.
pub open spec fn proper(lines: Seq<Seq<char>>) -> bool {
    are_lines(lines) && none_empty(lines)
}

/// The lines of `lines` as one item of a list: a dash in front of the
/// first, the others one level deeper.
pub open spec fn item_lines(lines: Seq<Seq<char>>) -> Seq<Seq<char>> {
    seq!["- "@ + lines[0]] + indent_lines(lines.skip(1))
}

/// The strings of `strings` as the items of a list, one line each.
pub open spec fn list_lines(strings: Seq<Seq<char>>) -> Seq<Seq<char>> {
    Seq::new(strings.len(), |i: int| "- "@ + scalar_line(strings[i]))
}

/// The lines of a branch list that is not empty.
pub open spec fn branches_lines(branches: Seq<Seq<char>>) -> Seq<Seq<char>> {
    seq!["branches:"@] + list_lines(branches)
}

/// The lines of one kind of event under the key `key`.
pub open spec fn event_lines(key: Seq<char>, branches: Seq<Seq<char>>) -> Seq<Seq<char>> {
    if branches.len() == 0 {
        Seq::empty()
    } else {
        seq![key] + indent_lines(branches_lines(branches))
    }
}

impl With {
    /// The lines of the parameters.
    pub open spec fn lines(self) -> Seq<Seq<char>> {
        if self.cache_on_failure {
            seq!["with:"@, "  cache_on_failure: true"@]
        } else {
            seq!["with: {}"@]
        }
    }
}

impl TaskView {
    /// The line that says what the step does.
    pub open spec fn line(self) -> Seq<char> {
        match self {
            TaskView::Uses(action) => "uses: "@ + scalar_line(action),
            TaskView::Run(command) => "run: "@ + scalar_line(command),
        }
    }
}

impl StepView {
    /// Whether each string of the step survives being written and read.
    pub open spec fn round_trips(self) -> bool {
        &&& self.name matches Some(name) ==> round_trips(name)
        &&& match self.task {
            TaskView::Uses(action) => round_trips(action),
            TaskView::Run(command) => round_trips(command),
        }
    }

    /// The lines of the name, if there is one.
    pub open spec fn name_lines(self) -> Seq<Seq<char>> {
        match self.name {
            Some(name) => seq!["name: "@ + scalar_line(name)],
            None => Seq::empty(),
        }
    }

    /// The lines of the parameters, if there are any.
    pub open spec fn with_lines(self) -> Seq<Seq<char>> {
        match self.with {
            Some(with) => with.lines(),
            None => Seq::empty(),
        }
    }

    /// The lines of the fields of the step.
    pub open spec fn field_lines(self) -> Seq<Seq<char>> {
        self.name_lines() + seq![self.task.line()] + self.with_lines()
    }

    /// The lines of the step as one item of the list of steps.
    pub open spec fn lines(self) -> Seq<Seq<char>> {
        item_lines(self.field_lines())
    }
}

/// Whether each step of `steps` survives being written and read.
pub open spec fn steps_round_trip(steps: Seq<StepView>) -> bool {
    forall|i: int| 0 <= i < steps.len() ==> (#[trigger] steps[i]).round_trips()
}

/// The lines of the steps `steps`, one step after the other.
pub open spec fn steps_lines(steps: Seq<StepView>) -> Seq<Seq<char>>
    decreases steps.len(),
{
    if steps.len() == 0 {
        Seq::empty()
    } else {
        steps_lines(steps.drop_last()) + steps.last().lines()
    }
}

impl ChecksView {
    /// Whether each string of the job survives being written and read.
    pub open spec fn round_trips(self) -> bool {
        round_trips(self.runs_on) && steps_round_trip(self.steps)
    }

    /// The lines of the steps under their key.
    pub open spec fn steps_part(self) -> Seq<Seq<char>> {
        if self.steps.len() == 0 {
            seq!["steps: []"@]
        } else {
            seq!["steps:"@] + steps_lines(self.steps)
        }
    }

    /// The lines of the job.
    pub open spec fn lines(self) -> Seq<Seq<char>> {
        seq!["runs-on: "@ + scalar_line(self.runs_on)] + self.steps_part()
    }

    /// The lines of the jobs: the one job under its key.
    pub open spec fn jobs_lines(self) -> Seq<Seq<char>> {
        seq!["checks:"@] + indent_lines(self.lines())
    }
}

impl OnView {
    /// Whether each branch name survives being written and read.
    pub open spec fn round_trips(self) -> bool {
        all_round_trip(self.push) && all_round_trip(self.pull_request)
    }

    /// The lines of the events.
    pub open spec fn lines(self) -> Seq<Seq<char>> {
        event_lines("push:"@, self.push) + event_lines("pull_request:"@, self.pull_request)
    }

    /// The lines of the events under their key.
    pub open spec fn part(self) -> Seq<Seq<char>> {
        if self.lines().len() == 0 {
            seq!["on: {}"@]
        } else {
            seq!["on:"@] + indent_lines(self.lines())
        }
    }
}

impl WorkflowView {
    /// Whether each string of the document survives being written and
    /// read.
    pub open spec fn round_trips(self) -> bool {
        round_trips(self.name) && self.on.round_trips() && self.jobs.round_trips()
    }

    /// The text that the pretty serializer gives for the document: its
    /// pretty text where each of its strings survives being written and
    /// read, and none otherwise, so that no text is given that would not
    /// read back as the document.
    pub open spec fn serialized(self) -> Option<Seq<char>> {
        if self.round_trips() {
            Some(self.pretty())
        } else {
            None
        }
    }

    /// The lines of the jobs under their key.
    pub open spec fn jobs_part(self) -> Seq<Seq<char>> {
        seq!["jobs:"@] + indent_lines(self.jobs.jobs_lines())
    }

    /// The lines of the plain text of the document.
    pub open spec fn lines(self) -> Seq<Seq<char>> {
        seq!["name: "@ + scalar_line(self.name)] + self.on.part() + self.jobs_part()
    }
}

/// The fixed texts of the layout: each key is a line that is not empty,
/// and each text with line ends is made of its lines.
pub(crate) proof fn lemma_keys()
    ensures
        "- "@ == seq!['-', ' '],
        "  "@ == seq![' ', ' '],
        is_line("name: "@) && "name: "@.len() == 6 && "name: "@[0] == 'n',
        is_line("uses: "@) && "uses: "@.len() == 6 && "uses: "@[0] == 'u',
        is_line("run: "@) && "run: "@.len() == 5 && "run: "@[0] == 'r',
        is_line("runs-on: "@) && "runs-on: "@.len() == 9 && "runs-on: "@[0] == 'r',
        is_line("branches:"@) && "branches:"@.len() == 9 && "branches:"@[0] == 'b',
        is_line("push:"@) && "push:"@.len() == 5 && "push:"@[0] == 'p',
        is_line("pull_request:"@) && "pull_request:"@.len() == 13 && "pull_request:"@[0] == 'p',
        is_line("with:"@) && "with:"@.len() == 5 && "with:"@[0] == 'w',
        is_line("with: {}"@) && "with: {}"@.len() == 8 && "with: {}"@[0] == 'w',
        is_line("  cache_on_failure: true"@) && "  cache_on_failure: true"@.len() == 24,
        is_line("steps:"@) && "steps:"@.len() == 6 && "steps:"@[0] == 's',
        is_line("steps: []"@) && "steps: []"@.len() == 9 && "steps: []"@[0] == 's',
        is_line("checks:"@) && "checks:"@.len() == 7 && "checks:"@[0] == 'c',
        is_line("on:"@) && "on:"@.len() == 3 && "on:"@[0] == 'o',
        is_line("on: {}"@) && "on: {}"@.len() == 6 && "on: {}"@[0] == 'o',
        is_line("jobs:"@) && "jobs:"@.len() == 5 && "jobs:"@[0] == 'j',
        "branches:\n"@ == "branches:"@.push('\n'),
        "push:\n"@ == "push:"@.push('\n'),
        "pull_request:\n"@ == "pull_request:"@.push('\n'),
        "with: {}\n"@ == "with: {}"@.push('\n'),
        "with:\n  cache_on_failure: true\n"@ == "with:"@.push('\n')
            + "  cache_on_failure: true"@.push('\n'),
        "steps:\n"@ == "steps:"@.push('\n'),
        "steps: []\n"@ == "steps: []"@.push('\n'),
        "checks:\n"@ == "checks:"@.push('\n'),
        "on:\n"@ == "on:"@.push('\n'),
        "on: {}\n"@ == "on: {}"@.push('\n'),
        "jobs:\n"@ == "jobs:"@.push('\n'),
{
    reveal_strlit("- ");
    reveal_strlit("  ");
    reveal_strlit("name: ");
    reveal_strlit("uses: ");
    reveal_strlit("run: ");
    reveal_strlit("runs-on: ");
    reveal_strlit("branches:");
    reveal_strlit("push:");
    reveal_strlit("pull_request:");
    reveal_strlit("with:");
    reveal_strlit("with: {}");
    reveal_strlit("  cache_on_failure: true");
    reveal_strlit("steps:");
    reveal_strlit("steps: []");
    reveal_strlit("checks:");
    reveal_strlit("on:");
    reveal_strlit("on: {}");
    reveal_strlit("jobs:");
    reveal_strlit("branches:\n");
    reveal_strlit("push:\n");
    reveal_strlit("pull_request:\n");
    reveal_strlit("with: {}\n");
    reveal_strlit("with:\n  cache_on_failure: true\n");
    reveal_strlit("steps:\n");
    reveal_strlit("steps: []\n");
    reveal_strlit("checks:\n");
    reveal_strlit("on:\n");
    reveal_strlit("on: {}\n");
    reveal_strlit("jobs:\n");
    assert("- "@ =~= seq!['-', ' ']);
    assert("  "@ =~= seq![' ', ' ']);
    assert("branches:\n"@ =~= "branches:"@.push('\n'));
    assert("push:\n"@ =~= "push:"@.push('\n'));
    assert("pull_request:\n"@ =~= "pull_request:"@.push('\n'));
    assert("with: {}\n"@ =~= "with: {}"@.push('\n'));
    assert("with:\n  cache_on_failure: true\n"@ =~= "with:"@.push('\n')
        + "  cache_on_failure: true"@.push('\n'));
    assert("steps:\n"@ =~= "steps:"@.push('\n'));
    assert("steps: []\n"@ =~= "steps: []"@.push('\n'));
    assert("checks:\n"@ =~= "checks:"@.push('\n'));
    assert("on:\n"@ =~= "on:"@.push('\n'));
    assert("on: {}\n"@ =~= "on: {}"@.push('\n'));
    assert("jobs:\n"@ =~= "jobs:"@.push('\n'));
}

/// The dash of an item and the indentation of one level are two
/// characters each.
pub(crate) proof fn lemma_marks()
    ensures
        "- "@ == seq!['-', ' '],
        "  "@ == seq![' ', ' '],
{
    reveal_strlit("- ");
    reveal_strlit("  ");
    assert("- "@ =~= seq!['-', ' ']);
    assert("  "@ =~= seq![' ', ' ']);
}

/// Two groups of proper lines are proper together.
pub(crate) proof fn lemma_proper_both(a: Seq<Seq<char>>, b: Seq<Seq<char>>)
    requires
        proper(a),
        proper(b),
    ensures
        proper(a + b),
{
    assert forall|i: int| 0 <= i < (a + b).len() implies is_line(#[trigger] (a + b)[i]) && (a
        + b)[i].len() > 0 by {
        if i < a.len() {
            assert((a + b)[i] == a[i]);
        } else {
            assert((a + b)[i] == b[i - a.len()]);
        }
    }
}

/// Proper lines stay proper one level deeper.
pub(crate) proof fn lemma_proper_indented(lines: Seq<Seq<char>>)
    requires
        proper(lines),
    ensures
        proper(indent_lines(lines)),
        indent_lines(lines).len() == lines.len(),
{
    lemma_indent_lines_are_lines(lines);
}

/// A key and the YAML form of a string that survives are one proper line
/// with its line end.
pub(crate) proof fn lemma_keyed_line(key: Seq<char>, s: Seq<char>)
    requires
        round_trips(s),
        is_line(key),
    ensures
        key + encoded(s) == block(seq![key + scalar_line(s)]),
        proper(seq![key + scalar_line(s)]),
        encoded(s) == block(seq![scalar_line(s)]),
        proper(seq![scalar_line(s)]),
{
    assert(encoded(s) =~= scalar_line(s).push('\n'));
    lemma_block_of_one(key + scalar_line(s));
    lemma_block_of_one(scalar_line(s));
    assert(key + encoded(s) =~= (key + scalar_line(s)).push('\n'));
    assert(is_line(scalar_line(s)));
    assert(is_line(key + scalar_line(s)));
}

/// The lines after the first of proper lines are proper.
pub(crate) proof fn lemma_proper_rest(lines: Seq<Seq<char>>)
    requires
        lines.len() >= 1,
        proper(lines),
    ensures
        proper(lines.skip(1)),
        is_line(lines[0]),
        lines[0].len() > 0,
{
    assert forall|i: int| 0 <= i < lines.skip(1).len() implies is_line(
        #[trigger] lines.skip(1)[i],
    ) && lines.skip(1)[i].len() > 0 by {
        assert(lines.skip(1)[i] == lines[i + 1]);
    }
}

/// The item made of a block of proper lines is the block of the lines as
/// an item.
pub(crate) proof fn lemma_as_item(lines: Seq<Seq<char>>)
    requires
        lines.len() >= 1,
        proper(lines),
    ensures
        as_item(block(lines)) == block(item_lines(lines)),
        proper(item_lines(lines)),
        item_lines(lines).len() == lines.len(),
{
    lemma_marks();
    lemma_indented_block(lines);
    lemma_proper_rest(lines);
    let first = lines[0];
    let rest = indent_lines(lines.skip(1));
    let tail = block(rest);
    let deeper = indented(block(lines));
    assert(deeper == ("  "@ + first).push('\n') + tail) by {
        assert(indent_lines(lines) =~= seq!["  "@ + first] + rest);
        lemma_block_of_both(seq!["  "@ + first], rest);
        lemma_block_of_one("  "@ + first);
    }
    assert(block(item_lines(lines)) == ("- "@ + first).push('\n') + tail) by {
        lemma_block_of_both(seq!["- "@ + first], rest);
        lemma_block_of_one("- "@ + first);
    }
    assert(deeper.len() >= 2);
    assert("- "@ + deeper.skip(2) =~= ("- "@ + first).push('\n') + tail);
    lemma_proper_indented(lines.skip(1));
    assert(proper(seq!["- "@ + first])) by {
        assert(is_line("- "@ + first));
    }
    lemma_proper_both(seq!["- "@ + first], rest);
}

/// The text of a list of strings that survive is the block of its lines.
pub(crate) proof fn lemma_list_text(strings: Seq<Seq<char>>)
    requires
        all_round_trip(strings),
    ensures
        list_text(strings) == block(list_lines(strings)),
        proper(list_lines(strings)),
        all_encodable(strings),
    decreases strings.len(),
{
    lemma_keys();
    if strings.len() == 0 {
        assert(list_lines(strings) =~= Seq::<Seq<char>>::empty());
    } else {
        let before = strings.drop_last();
        let last = strings.last();
        assert(all_round_trip(before)) by {
            assert forall|i: int| 0 <= i < before.len() implies round_trips(
                #[trigger] before[i],
            ) by {
                assert(before[i] == strings[i]);
            }
        }
        lemma_list_text(before);
        assert(round_trips(last));
        lemma_keyed_line("- "@, last);
        let one = seq![scalar_line(last)];
        lemma_as_item(one);
        assert(indent_lines(one.skip(1)) =~= Seq::<Seq<char>>::empty());
        assert(item_lines(one) =~= seq!["- "@ + scalar_line(last)]);
        assert(list_lines(strings) =~= list_lines(before) + seq!["- "@ + scalar_line(last)]);
        lemma_block_of_both(list_lines(before), seq!["- "@ + scalar_line(last)]);
        lemma_proper_both(list_lines(before), seq!["- "@ + scalar_line(last)]);
        assert forall|i: int| 0 <= i < strings.len() implies encodable(#[trigger] strings[i]) by {
            assert(round_trips(strings[i]));
        }
    }
}

/// The text of one kind of event is the block of its lines.
pub(crate) proof fn lemma_event_text(key: Seq<char>, branches: Seq<Seq<char>>)
    requires
        all_round_trip(branches),
        is_line(key),
        key.len() > 0,
    ensures
        event_text(key.push('\n'), branches) == block(event_lines(key, branches)),
        proper(event_lines(key, branches)),
        branches.len() > 0 ==> proper(branches_lines(branches)),
{
    lemma_keys();
    if branches.len() > 0 {
        lemma_list_text(branches);
        let inner = branches_lines(branches);
        lemma_block_of_both(seq!["branches:"@], list_lines(branches));
        lemma_block_of_one("branches:"@);
        assert(branches_text(branches) == block(inner));
        assert(proper(seq!["branches:"@]));
        lemma_proper_both(seq!["branches:"@], list_lines(branches));
        lemma_indented_block(inner);
        lemma_proper_indented(inner);
        lemma_block_of_both(seq![key], indent_lines(inner));
        lemma_block_of_one(key);
        assert(proper(seq![key]));
        lemma_proper_both(seq![key], indent_lines(inner));
    } else {
        assert(block(Seq::<Seq<char>>::empty()) =~= Seq::<char>::empty());
    }
}

impl OnView {
    /// The text of the events is the block of their lines.
    pub(crate) proof fn lemma_text(self)
        requires
            self.round_trips(),
        ensures
            self.yaml() == block(self.lines()),
            proper(self.lines()),
            self.encodable(),
    {
        lemma_keys();
        lemma_event_text("push:"@, self.push);
        lemma_event_text("pull_request:"@, self.pull_request);
        lemma_block_of_both(
            event_lines("push:"@, self.push),
            event_lines("pull_request:"@, self.pull_request),
        );
        lemma_proper_both(
            event_lines("push:"@, self.push),
            event_lines("pull_request:"@, self.pull_request),
        );
        lemma_list_text(self.push);
        lemma_list_text(self.pull_request);
    }
}

impl StepView {
    /// The fields of the step are proper lines, at least one.
    pub(crate) proof fn lemma_fields(self)
        requires
            self.round_trips(),
        ensures
            self.fields() == block(self.field_lines()),
            proper(self.field_lines()),
            self.field_lines().len() >= 1,
            self.encodable(),
    {
        lemma_keys();
        let name = self.name_lines();
        let task = seq![self.task.line()];
        let with = self.with_lines();
        match self.name {
            Some(text) => {
                lemma_keyed_line("name: "@, text);
            },
            None => {
                assert(block(name) =~= Seq::<char>::empty());
            },
        }
        match self.task {
            TaskView::Uses(action) => {
                lemma_keyed_line("uses: "@, action);
            },
            TaskView::Run(command) => {
                lemma_keyed_line("run: "@, command);
            },
        }
        match self.with {
            Some(params) => {
                if params.cache_on_failure {
                    lemma_block_of_both(seq!["with:"@], seq!["  cache_on_failure: true"@]);
                    lemma_block_of_one("with:"@);
                    lemma_block_of_one("  cache_on_failure: true"@);
                    assert(with =~= seq!["with:"@] + seq!["  cache_on_failure: true"@]);
                } else {
                    lemma_block_of_one("with: {}"@);
                }
            },
            None => {
                assert(block(with) =~= Seq::<char>::empty());
            },
        }
        assert(proper(name));
        assert(proper(task));
        assert(proper(with));
        lemma_proper_both(name, task);
        lemma_proper_both(name + task, with);
        lemma_block_of_both(name, task);
        lemma_block_of_both(name + task, with);
    }

    /// The text of the step is the block of its lines.
    pub(crate) proof fn lemma_text(self)
        requires
            self.round_trips(),
        ensures
            self.yaml() == block(self.lines()),
            proper(self.lines()),
            self.lines().len() >= 1,
            self.encodable(),
    {
        self.lemma_fields();
        lemma_as_item(self.field_lines());
    }
}

/// The text of steps that survive is the block of their lines.
pub(crate) proof fn lemma_steps_text(steps: Seq<StepView>)
    requires
        steps_round_trip(steps),
    ensures
        steps_text(steps) == block(steps_lines(steps)),
        proper(steps_lines(steps)),
        steps_encodable(steps),
        steps.len() > 0 ==> steps_lines(steps).len() > 0,
    decreases steps.len(),
{
    if steps.len() > 0 {
        let before = steps.drop_last();
        assert(steps_round_trip(before)) by {
            assert forall|i: int| 0 <= i < before.len() implies (#[trigger] before[i]).round_trips() by {
                assert(before[i] == steps[i]);
            }
        }
        lemma_steps_text(before);
        assert(steps.last().round_trips());
        steps.last().lemma_text();
        lemma_block_of_both(steps_lines(before), steps.last().lines());
        lemma_proper_both(steps_lines(before), steps.last().lines());
        assert forall|i: int| 0 <= i < steps.len() implies (#[trigger] steps[i]).encodable() by {
            if i < before.len() {
                assert(before[i] == steps[i]);
            }
        }
    }
}

impl ChecksView {
    /// The text of the job is the block of its lines, and so is the text
    /// of the jobs.
    pub(crate) proof fn lemma_text(self)
        requires
            self.round_trips(),
        ensures
            self.yaml() == block(self.lines()),
            proper(self.lines()),
            self.jobs_yaml() == block(self.jobs_lines()),
            proper(self.jobs_lines()),
            proper(self.steps_part()),
            self.encodable(),
    {
        lemma_keys();
        lemma_keyed_line("runs-on: "@, self.runs_on);
        lemma_steps_text(self.steps);
        let head = seq!["runs-on: "@ + scalar_line(self.runs_on)];
        if self.steps.len() == 0 {
            lemma_block_of_one("steps: []"@);
        } else {
            lemma_block_of_one("steps:"@);
            lemma_block_of_both(seq!["steps:"@], steps_lines(self.steps));
            assert(proper(seq!["steps:"@]));
            lemma_proper_both(seq!["steps:"@], steps_lines(self.steps));
        }
        assert(proper(self.steps_part()));
        lemma_block_of_both(head, self.steps_part());
        lemma_proper_both(head, self.steps_part());
        assert(self.yaml() =~= block(head) + block(self.steps_part()));
        lemma_indented_block(self.lines());
        lemma_proper_indented(self.lines());
        lemma_block_of_one("checks:"@);
        lemma_block_of_both(seq!["checks:"@], indent_lines(self.lines()));
        assert(proper(seq!["checks:"@]));
        lemma_proper_both(seq!["checks:"@], indent_lines(self.lines()));
    }
}

/// A block is empty exactly when it has no line.
pub(crate) proof fn lemma_block_is_empty(lines: Seq<Seq<char>>)
    ensures
        block(lines).len() == 0 <==> lines.len() == 0,
{
}

impl WorkflowView {
    /// The plain text of a document whose strings survive is the block of
    /// its lines.
    pub proof fn lemma_text(self)
        requires
            self.round_trips(),
        ensures
            self.yaml() == block(self.lines()),
            proper(self.lines()),
            proper(self.on.part()),
            proper(self.jobs_part()),
            self.encodable(),
    {
        lemma_keys();
        lemma_keyed_line("name: "@, self.name);
        self.on.lemma_text();
        self.jobs.lemma_text();
        lemma_block_is_empty(self.on.lines());
        let head = seq!["name: "@ + scalar_line(self.name)];
        if self.on.lines().len() == 0 {
            lemma_block_of_one("on: {}"@);
        } else {
            lemma_block_of_one("on:"@);
            lemma_indented_block(self.on.lines());
            lemma_proper_indented(self.on.lines());
            lemma_block_of_both(seq!["on:"@], indent_lines(self.on.lines()));
            assert(proper(seq!["on:"@]));
            lemma_proper_both(seq!["on:"@], indent_lines(self.on.lines()));
        }
        assert(proper(self.on.part()));
        lemma_block_of_one("jobs:"@);
        lemma_indented_block(self.jobs.jobs_lines());
        lemma_proper_indented(self.jobs.jobs_lines());
        lemma_block_of_both(seq!["jobs:"@], indent_lines(self.jobs.jobs_lines()));
        assert(proper(seq!["jobs:"@]));
        lemma_proper_both(seq!["jobs:"@], indent_lines(self.jobs.jobs_lines()));
        lemma_block_of_both(head, self.on.part());
        lemma_proper_both(head, self.on.part());
        lemma_block_of_both(head + self.on.part(), self.jobs_part());
        lemma_proper_both(head + self.on.part(), self.jobs_part());
        assert(self.yaml() =~= block(head) + block(self.on.part()) + block(self.jobs_part()));
    }
}

} // verus!
