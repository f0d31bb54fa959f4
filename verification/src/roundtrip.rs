//! The reader undoes the serializer: a document whose strings survive
//! being written and read is read back from its text as it was.

use crate::layout::{
    are_lines, block, is_line, lemma_lines_of_block, lemma_split_join, none_empty,
};
use crate::outline::{
    all_round_trip, branches_lines, event_lines, lemma_event_text, lemma_keys, lemma_marks,
    lemma_proper_rest, list_lines, proper, round_trips, scalar_line, steps_lines,
    steps_round_trip,
};
use crate::parse::{
    block_after, block_under, dedent, deeper_run, first_step_fields, keyed_string, nonblank,
    parsed, read_branches, read_checks, read_document, read_event, read_fields, read_items,
    read_jobs, read_keyed_block, read_on, read_on_part, read_steps, read_task, read_with, taken,
    taken_document, taken_line,
};
use crate::pretty::{gap, lines_of, pretty, spaced};
use crate::text::{chars_of, join, same, starts_with};
use crate::workflow::{ChecksView, OnView, Step, StepView, Task, TaskView, Workflow, WorkflowView};
use crate::yaml::{decode, encode, indent_lines};
use vstd::prelude::*;

verus! {

/// A text begins with what it was made to begin with, and the rest of it
/// is what was put after.
pub(crate) proof fn lemma_prefix(prefix: Seq<char>, rest: Seq<char>)
    ensures
        starts_with(prefix + rest, prefix),
        (prefix + rest).skip(prefix.len() as int) == rest,
{
    assert((prefix + rest).take(prefix.len() as int) =~= prefix);
    assert((prefix + rest).skip(prefix.len() as int) =~= rest);
}

/// A line that begins with the indentation of one level begins with a
/// space.
pub(crate) proof fn lemma_deeper_line(line: Seq<char>)
    ensures
        starts_with(line, "  "@) ==> line.len() >= 2 && line[0] == ' ',
{
    lemma_marks();
    if starts_with(line, "  "@) {
        assert(line.take(2)[0] == ' ');
    }
}

/// The line of a key and a string that survives reads back as the string.
pub(crate) proof fn lemma_keyed_string(key: Seq<char>, s: Seq<char>)
    requires
        round_trips(s),
    ensures
        keyed_string(key + scalar_line(s), key) == taken_line(s),
{
    lemma_prefix(key, scalar_line(s));
}

/// A block of lines one level deeper, followed by a line that is not,
/// is a run of exactly its length.
pub(crate) proof fn lemma_run_of_block(lines: Seq<Seq<char>>, rest: Seq<Seq<char>>)
    requires
        none_empty(lines),
        rest.len() == 0 || !starts_with(rest[0], "  "@),
    ensures
        deeper_run(indent_lines(lines) + rest) == lines.len(),
    decreases lines.len(),
{
    let all = indent_lines(lines) + rest;
    if lines.len() == 0 {
        assert(all =~= rest);
    } else {
        assert(all[0] == "  "@ + lines[0]);
        lemma_prefix("  "@, lines[0]);
        assert(none_empty(lines.skip(1))) by {
            assert forall|i: int| 0 <= i < lines.skip(1).len() implies (#[trigger] lines.skip(
                1,
            )[i]).len() > 0 by {
                assert(lines.skip(1)[i] == lines[i + 1]);
            }
        }
        lemma_run_of_block(lines.skip(1), rest);
        assert(all.skip(1) =~= indent_lines(lines.skip(1)) + rest);
    }
}

/// Lines one level deeper and then one level up are the lines.
pub(crate) proof fn lemma_dedent(lines: Seq<Seq<char>>)
    requires
        none_empty(lines),
    ensures
        dedent(indent_lines(lines)) == lines,
{
    lemma_marks();
    assert forall|i: int| 0 <= i < lines.len() implies dedent(indent_lines(lines))[i]
        == lines[i] by {
        lemma_prefix("  "@, lines[i]);
    }
    assert(dedent(indent_lines(lines)) =~= lines);
}

/// Under a key stands the block that was put there, and after it what was
/// put after.
pub(crate) proof fn lemma_block_under(key: Seq<char>, lines: Seq<Seq<char>>, rest: Seq<Seq<char>>)
    requires
        none_empty(lines),
        rest.len() == 0 || !starts_with(rest[0], "  "@),
    ensures
        block_under(seq![key] + indent_lines(lines) + rest) == lines,
        block_after(seq![key] + indent_lines(lines) + rest) == rest,
        deeper_run((seq![key] + indent_lines(lines) + rest).skip(1)) == lines.len(),
{
    let all = seq![key] + indent_lines(lines) + rest;
    assert(all.skip(1) =~= indent_lines(lines) + rest);
    lemma_run_of_block(lines, rest);
    lemma_dedent(lines);
    assert(all.subrange(1, 1 + lines.len() as int) =~= indent_lines(lines));
    assert(all.skip(1 + lines.len() as int) =~= rest);
}

/// The items of a list of strings that survive read back as the strings.
pub(crate) proof fn lemma_read_items(strings: Seq<Seq<char>>)
    requires
        all_round_trip(strings),
    ensures
        read_items(list_lines(strings)) == taken(strings),
    decreases strings.len(),
{
    if strings.len() == 0 {
        assert(strings =~= Seq::<Seq<char>>::empty());
    } else {
        let before = strings.drop_last();
        assert(all_round_trip(before)) by {
            assert forall|i: int| 0 <= i < before.len() implies round_trips(
                #[trigger] before[i],
            ) by {
                assert(before[i] == strings[i]);
            }
        }
        lemma_read_items(before);
        assert(list_lines(strings).drop_last() =~= list_lines(before));
        assert(round_trips(strings.last()));
        lemma_keyed_string("- "@, strings.last());
        assert(before.push(strings.last()) =~= strings);
    }
}

/// The lines of an event, followed by lines that belong to something
/// else, read back as its branches.
pub(crate) proof fn lemma_read_event(key: Seq<char>, branches: Seq<Seq<char>>, rest: Seq<Seq<char>>)
    requires
        all_round_trip(branches),
        proper(branches_lines(branches)),
        rest.len() == 0 || (!starts_with(rest[0], "  "@) && rest[0] != key),
    ensures
        read_event(event_lines(key, branches) + rest, key) == taken((branches, rest)),
{
    let all = event_lines(key, branches) + rest;
    if branches.len() == 0 {
        assert(all =~= rest);
        assert(branches =~= Seq::<Seq<char>>::empty());
    } else {
        let inner = branches_lines(branches);
        assert(all =~= seq![key] + indent_lines(inner) + rest);
        lemma_block_under(key, inner, rest);
        assert(inner.skip(1) =~= list_lines(branches));
        lemma_read_items(branches);
        assert(read_branches(inner) == taken(branches));
    }
}

impl OnView {
    /// The lines of the events read back as the events.
    pub(crate) proof fn lemma_read(self)
        requires
            self.round_trips(),
            proper(branches_lines(self.push)),
            proper(branches_lines(self.pull_request)),
        ensures
            read_on(self.lines()) == taken(self),
    {
        let first = event_lines("push:"@, self.push);
        let second = event_lines("pull_request:"@, self.pull_request);
        assert(second.len() == 0 || (!starts_with(second[0], "  "@) && second[0] != "push:"@))
            by {
            lemma_keys();
            if second.len() > 0 {
                assert(second[0] == "pull_request:"@);
                lemma_deeper_line(second[0]);
            }
        }
        lemma_read_event("push:"@, self.push, second);
        lemma_read_event("pull_request:"@, self.pull_request, Seq::empty());
        assert(second + Seq::<Seq<char>>::empty() =~= second);
    }
}

impl StepView {
    /// The line that says what the step does reads back as that.
    pub(crate) proof fn lemma_read_task(self)
        requires
            self.round_trips(),
        ensures
            read_task(self.task.line()) == taken_line(self.task),
            !starts_with(self.task.line(), "name: "@),
    {
        lemma_keys();
        match self.task {
            TaskView::Uses(action) => {
                lemma_prefix("uses: "@, scalar_line(action));
                let line = "uses: "@ + scalar_line(action);
                assert(line[0] == 'u');
                if starts_with(line, "name: "@) {
                    assert(line.take(6)[0] == 'n');
                }
            },
            TaskView::Run(command) => {
                lemma_prefix("run: "@, scalar_line(command));
                let line = "run: "@ + scalar_line(command);
                assert(line[0] == 'r');
                if starts_with(line, "name: "@) {
                    assert(line.take(6)[0] == 'n');
                }
                if starts_with(line, "uses: "@) {
                    assert(line.take(6)[0] == 'u');
                }
            },
        }
    }

    /// The lines of the parameters read back as the parameters.
    pub(crate) proof fn lemma_read_with(self)
        ensures
            read_with(self.with_lines()) == taken(self.with),
    {
        lemma_keys();
    }

    /// The lines of the fields read back as the step.
    pub(crate) proof fn lemma_read_fields(self)
        requires
            self.round_trips(),
        ensures
            read_fields(self.field_lines()) == taken(self),
    {
        let lines = self.field_lines();
        let task = seq![self.task.line()];
        self.lemma_read_task();
        self.lemma_read_with();
        assert("name: "@.len() == 6) by {
            lemma_keys();
        }
        match self.name {
            Some(name) => {
                lemma_prefix("name: "@, scalar_line(name));
                assert(lines[0] == "name: "@ + scalar_line(name));
                assert(lines.skip(1) =~= task + self.with_lines());
                assert(lines.skip(1)[0] == self.task.line());
                assert(lines.skip(1).skip(1) =~= self.with_lines());
            },
            None => {
                assert(lines =~= task + self.with_lines());
                assert(lines[0] == self.task.line());
                assert(lines.skip(1) =~= self.with_lines());
            },
        }
    }

    /// The lines of the step, followed by the lines of further steps,
    /// read back as the step in front of those steps.
    pub(crate) proof fn lemma_read_first(self, tail: Seq<Seq<char>>, rest: Seq<StepView>)
        requires
            self.round_trips(),
            proper(self.field_lines()),
            self.field_lines().len() >= 1,
            tail.len() == 0 || starts_with(tail[0], "- "@),
            read_steps(tail) == taken(rest),
        ensures
            read_steps(self.lines() + tail) == taken(seq![self] + rest),
            starts_with((self.lines() + tail)[0], "- "@),
    {
        let fields = self.field_lines();
        let all = self.lines() + tail;
        lemma_proper_rest(fields);
        assert(tail.len() == 0 || !starts_with(tail[0], "  "@)) by {
            lemma_marks();
            if tail.len() > 0 {
                lemma_deeper_line(tail[0]);
                assert(tail[0].take(2)[0] == '-');
            }
        }
        assert(all =~= seq!["- "@ + fields[0]] + indent_lines(fields.skip(1)) + tail);
        lemma_block_under("- "@ + fields[0], fields.skip(1), tail);
        lemma_prefix("- "@, fields[0]);
        assert("- "@.len() == 2) by {
            lemma_marks();
        }
        assert(all[0] == "- "@ + fields[0]);
        assert(first_step_fields(all) =~= fields);
        self.lemma_read_fields();
    }
}

/// The lines of steps that survive, followed by the lines of further
/// steps, read back as all the steps.
pub(crate) proof fn lemma_read_steps(steps: Seq<StepView>, tail: Seq<Seq<char>>, rest: Seq<StepView>)
    requires
        steps_round_trip(steps),
        tail.len() == 0 || starts_with(tail[0], "- "@),
        read_steps(tail) == taken(rest),
    ensures
        read_steps(steps_lines(steps) + tail) == taken(steps + rest),
        (steps_lines(steps) + tail).len() == 0 || starts_with(
            (steps_lines(steps) + tail)[0],
            "- "@,
        ),
    decreases steps.len(),
{
    if steps.len() == 0 {
        assert(steps_lines(steps) + tail =~= tail);
        assert(steps + rest =~= rest);
    } else {
        let before = steps.drop_last();
        let last = steps.last();
        assert(steps_round_trip(before)) by {
            assert forall|i: int| 0 <= i < before.len() implies (#[trigger] before[i]).round_trips() by {
                assert(before[i] == steps[i]);
            }
        }
        assert(last.round_trips());
        last.lemma_fields();
        last.lemma_read_first(tail, rest);
        lemma_read_steps(before, last.lines() + tail, seq![last] + rest);
        assert(steps_lines(steps) + tail =~= steps_lines(before) + (last.lines() + tail));
        assert(before + (seq![last] + rest) =~= steps + rest);
    }
}

impl ChecksView {
    /// The lines of the job read back as the job.
    pub(crate) proof fn lemma_read(self)
        requires
            self.round_trips(),
        ensures
            read_checks(self.lines()) == taken(self),
    {
        let lines = self.lines();
        lemma_keyed_string("runs-on: "@, self.runs_on);
        assert(lines[0] == "runs-on: "@ + scalar_line(self.runs_on));
        let rest = lines.skip(1);
        assert(rest =~= self.steps_part());
        if self.steps.len() == 0 {
            assert(rest[0] == "steps: []"@);
            assert(self.steps =~= Seq::<StepView>::empty());
        } else {
            assert(rest[0] == "steps:"@);
            assert("steps:"@ != "steps: []"@) by {
                lemma_keys();
            }
            assert(rest.skip(1) =~= steps_lines(self.steps));
            lemma_read_steps(self.steps, Seq::empty(), Seq::empty());
            assert(steps_lines(self.steps) + Seq::<Seq<char>>::empty() =~= steps_lines(
                self.steps,
            ));
            assert(self.steps + Seq::<StepView>::empty() =~= self.steps);
        }
    }
}

/// A key with nothing but a block under it reads back as the block.
pub(crate) proof fn lemma_read_keyed_block(key: Seq<char>, lines: Seq<Seq<char>>)
    requires
        none_empty(lines),
    ensures
        read_keyed_block(seq![key] + indent_lines(lines), key) == taken(lines),
{
    let all = seq![key] + indent_lines(lines);
    lemma_block_under(key, lines, Seq::empty());
    assert(all + Seq::<Seq<char>>::empty() =~= all);
    assert(all.skip(1) =~= indent_lines(lines));
    lemma_dedent(lines);
}

impl WorkflowView {
    /// The lines of the jobs read back as the job.
    pub(crate) proof fn lemma_read_jobs(self)
        requires
            self.round_trips(),
        ensures
            read_jobs(self.jobs_part()) == taken(self.jobs),
    {
        self.jobs.lemma_text();
        self.jobs.lemma_read();
        lemma_read_keyed_block("jobs:"@, self.jobs.jobs_lines());
        lemma_read_keyed_block("checks:"@, self.jobs.lines());
    }

    /// The lines of the events, followed by those of the jobs, read back
    /// as the events.
    pub(crate) proof fn lemma_read_on_part(self)
        requires
            self.round_trips(),
        ensures
            read_on_part(self.on.part() + self.jobs_part()) == taken((self.on, self.jobs_part())),
    {
        let rest = self.jobs_part();
        let all = self.on.part() + rest;
        lemma_keys();
        assert(rest[0] == "jobs:"@);
        lemma_deeper_line(rest[0]);
        lemma_event_text("push:"@, self.on.push);
        lemma_event_text("pull_request:"@, self.on.pull_request);
        if self.on.lines().len() == 0 {
            assert(all[0] == "on: {}"@);
            assert(all.skip(1) =~= rest);
            assert(self.on.push.len() == 0 && self.on.pull_request.len() == 0);
            assert(self.on.push =~= Seq::<Seq<char>>::empty());
            assert(self.on.pull_request =~= Seq::<Seq<char>>::empty());
        } else {
            assert(all[0] == "on:"@);
            self.on.lemma_text();
            if self.on.push.len() > 0 {
                assert(proper(branches_lines(self.on.push)));
            } else {
                assert(proper(branches_lines(self.on.push))) by {
                    assert(branches_lines(self.on.push) =~= seq!["branches:"@]);
                }
            }
            if self.on.pull_request.len() == 0 {
                assert(proper(branches_lines(self.on.pull_request))) by {
                    assert(branches_lines(self.on.pull_request) =~= seq!["branches:"@]);
                }
            }
            self.on.lemma_read();
            assert(all =~= seq!["on:"@] + indent_lines(self.on.lines()) + rest);
            lemma_block_under("on:"@, self.on.lines(), rest);
        }
    }

    /// The lines of the document read back as the document.
    pub(crate) proof fn lemma_read(self)
        requires
            self.round_trips(),
        ensures
            read_document(self.lines(), self.path) == taken(self),
    {
        let lines = self.lines();
        lemma_keyed_string("name: "@, self.name);
        self.lemma_read_on_part();
        self.lemma_read_jobs();
        assert(lines[0] == "name: "@ + scalar_line(self.name));
        assert(lines.skip(1) =~= self.on.part() + self.jobs_part());
    }
}

/// Lines of which none is empty are all kept.
pub(crate) proof fn lemma_nonblank_keeps(lines: Seq<Seq<char>>)
    requires
        none_empty(lines),
    ensures
        nonblank(lines) == lines,
    decreases lines.len(),
{
    if lines.len() > 0 {
        assert(none_empty(lines.drop_last())) by {
            assert forall|i: int| 0 <= i < lines.drop_last().len() implies (
            #[trigger] lines.drop_last()[i]).len() > 0 by {
                assert(lines.drop_last()[i] == lines[i]);
            }
        }
        lemma_nonblank_keeps(lines.drop_last());
        assert(lines.drop_last().push(lines.last()) =~= lines);
    } else {
        assert(lines =~= Seq::<Seq<char>>::empty());
    }
}

/// The blank lines of a gap count for nothing.
pub(crate) proof fn lemma_nonblank_gap(before: Seq<Seq<char>>, lines: Seq<Seq<char>>, i: int)
    ensures
        nonblank(before + gap(lines, i)) == nonblank(before),
        are_lines(gap(lines, i)),
{
    let blank = Seq::<char>::empty();
    let g = gap(lines, i);
    assert(is_line(blank));
    if g.len() == 0 {
        assert(before + g =~= before);
    } else if g.len() == 1 {
        assert(g[0] == blank);
        assert((before + g).drop_last() =~= before);
    } else {
        assert(g.len() == 2 && g[0] == blank && g[1] == blank);
        assert((before + g).drop_last() =~= before.push(blank));
        assert(before.push(blank).drop_last() =~= before);
        assert(nonblank(before.push(blank)) == nonblank(before));
    }
}

/// The pass adds blank lines and nothing else: without its blank lines
/// the result is the lines that went in, it ends as they end, and its
/// lines are lines.
pub proof fn lemma_spaced(lines: Seq<Seq<char>>)
    requires
        proper(lines),
    ensures
        nonblank(spaced(lines)) == lines,
        are_lines(spaced(lines)),
        spaced(lines).len() >= lines.len(),
        lines.len() > 0 ==> spaced(lines).last() == lines.last(),
    decreases lines.len(),
{
    if lines.len() <= 1 {
        lemma_nonblank_keeps(lines);
    } else {
        let before = lines.drop_last();
        let i = lines.len() - 1;
        assert(proper(before)) by {
            assert forall|j: int| 0 <= j < before.len() implies is_line(#[trigger] before[j])
                && before[j].len() > 0 by {
                assert(before[j] == lines[j]);
            }
        }
        lemma_spaced(before);
        lemma_nonblank_gap(spaced(before), lines, i);
        let middle = spaced(before) + gap(lines, i);
        assert(spaced(lines) =~= middle.push(lines.last()));
        assert(middle.push(lines.last()).drop_last() =~= middle);
        assert(before.push(lines.last()) =~= lines);
        assert(is_line(lines.last()));
        assert forall|j: int| 0 <= j < spaced(lines).len() implies is_line(
            #[trigger] spaced(lines)[j],
        ) by {
            if j < spaced(before).len() {
                assert(spaced(lines)[j] == spaced(before)[j]);
            } else if j < middle.len() {
                assert(spaced(lines)[j] == gap(lines, i)[j - spaced(before).len()]);
            }
        }
    }
}

/// The lines of the pretty form of a block of proper lines are the
/// spaced lines.
pub(crate) proof fn lemma_lines_of_pretty(lines: Seq<Seq<char>>)
    requires
        proper(lines),
        lines.len() > 0,
    ensures
        pretty(block(lines)) == join(spaced(lines), "\n"@),
        lines_of(pretty(block(lines))) == spaced(lines),
{
    lemma_lines_of_block(lines);
    lemma_spaced(lines);
    lemma_split_join(spaced(lines));
}

impl WorkflowView {
    /// A document whose strings survive being written and read is read
    /// back from its plain text and from its pretty text as it was.
    pub proof fn lemma_text_reads_back(self)
        requires
            self.round_trips(),
        ensures
            self.encodable(),
            parsed(self.yaml(), self.path) == taken_document(self),
            parsed(self.pretty(), self.path) == taken_document(self),
    {
        let lines = self.lines();
        self.lemma_text();
        self.lemma_read();
        lemma_lines_of_block(lines);
        lemma_nonblank_keeps(lines);
        lemma_lines_of_pretty(lines);
        lemma_spaced(lines);
    }
}

/// The pretty serializer is idempotent: whatever text it gives for a
/// document is read back as a document, and for that document it gives
/// the same text again.
pub proof fn lemma_serializer_is_idempotent(document: WorkflowView, path: Seq<char>)
    ensures
        document.serialized() matches Some(text) ==> (parsed(text, path) matches Ok(read)
            && read.serialized() == Some(text)),
{
    if document.round_trips() {
        let stored = WorkflowView { path, ..document };
        stored.lemma_text_reads_back();
        assert(stored.yaml() == document.yaml());
    }
}

/// Whether `text` has a line feed in it.
fn has_line_feed(text: &str) -> (found: bool)
    ensures
        found == !is_line(text@),
{
    let chars = chars_of(text);
    let mut i: usize = 0;
    while i < chars.len()
        invariant
            i <= chars.len(),
            chars@ == text@,
            forall|j: int| 0 <= j < i ==> text@[j] != '\n',
        decreases chars.len() - i,
    {
        if chars[i] == '\n' {
            return true;
        }
        i += 1;
    }
    false
}

/// Whether the string `s` survives being written and read: it is
/// written, and what was written is read.
pub fn survives(s: &str) -> (ok: bool)
    ensures
        ok == round_trips(s@),
{
    match encode(s) {
        Some(text) => {
            let n = text.as_str().unicode_len();
            if n <= 1 || text.as_str().get_char(n - 1) != '\n' {
                return false;
            }
            let line = text.as_str().substring_char(0, n - 1);
            assert(line@ =~= text@.drop_last());
            if has_line_feed(line) {
                return false;
            }
            match decode(line) {
                Ok(back) => same(back.as_str(), s),
                Err(_) => false,
            }
        },
        None => false,
    }
}

/// Whether each string of `strings` survives being written and read.
fn all_survive(strings: &Vec<String>) -> (ok: bool)
    ensures
        ok == all_round_trip(strings.deep_view()),
{
    let mut i: usize = 0;
    while i < strings.len()
        invariant
            i <= strings.len(),
            forall|j: int| 0 <= j < i ==> round_trips(#[trigger] strings.deep_view()[j]),
        decreases strings.len() - i,
    {
        assert(strings.deep_view()[i as int] == strings[i as int]@);
        if !survives(strings[i].as_str()) {
            return false;
        }
        i += 1;
    }
    true
}

impl Step {
    /// Whether each string of the step survives being written and read.
    pub fn round_trips(&self) -> (ok: bool)
        ensures
            ok == self@.round_trips(),
    {
        let named = match &self.name {
            Some(name) => survives(name.as_str()),
            None => true,
        };
        let task = match &self.task {
            Task::Uses(action) => survives(action.as_str()),
            Task::Run(command) => survives(command.as_str()),
        };
        named && task
    }
}

impl Workflow {
    /// Whether each string of the document survives being written and
    /// read. Where it does, the document has a text, and it is read back
    /// as it is from its plain text and from its pretty text.
    pub fn round_trips(&self) -> (ok: bool)
        ensures
            ok == self@.round_trips(),
            ok ==> self@.encodable(),
            ok ==> parsed(self@.yaml(), self@.path) == taken_document(self@),
            ok ==> parsed(self@.pretty(), self@.path) == taken_document(self@),
    {
        if !survives(self.name.as_str()) || !all_survive(&self.on.push.branches) || !all_survive(
            &self.on.pull_request.branches,
        ) || !survives(self.jobs.checks.runs_on.as_str()) {
            return false;
        }
        let mut i: usize = 0;
        while i < self.jobs.checks.steps.len()
            invariant
                i <= self.jobs.checks.steps.len(),
                forall|j: int| 0 <= j < i ==> (#[trigger] self@.jobs.steps[j]).round_trips(),
            decreases self.jobs.checks.steps.len() - i,
        {
            assert(self@.jobs.steps[i as int] == self.jobs.checks.steps[i as int]@);
            if !self.jobs.checks.steps[i].round_trips() {
                return false;
            }
            i += 1;
        }
        proof {
            self@.lemma_text_reads_back();
        }
        true
    }
}

} // verus!
