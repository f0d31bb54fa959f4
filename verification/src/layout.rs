//! Texts as blocks of lines: how splitting, joining and indenting act on a
//! text that is written line by line.

use crate::pretty::lines_of;
use crate::text::{join, split};
use crate::yaml::{indent_lines, indented};
use vstd::prelude::*;

verus! {

/// Whether `line` can stand as one line of a text: it has no line feed in
/// it.
pub open spec fn is_line(line: Seq<char>) -> bool {
    forall|i: int| 0 <= i < line.len() ==> line[i] != '\n'
}

/// Whether each of `lines` can stand as one line of a text.
pub open spec fn are_lines(lines: Seq<Seq<char>>) -> bool {
    forall|i: int| 0 <= i < lines.len() ==> is_line(#[trigger] lines[i])
}

/// Whether none of `lines` is empty.
pub open spec fn none_empty(lines: Seq<Seq<char>>) -> bool {
    forall|i: int| 0 <= i < lines.len() ==> (#[trigger] lines[i]).len() > 0
}

/// The text that consists of the lines `lines`, each with a line feed
/// after it.
pub open spec fn block(lines: Seq<Seq<char>>) -> Seq<char>
    decreases lines.len(),
{
    if lines.len() == 0 {
        Seq::empty()
    } else {
        block(lines.drop_last()) + lines.last().push('\n')
    }
}

/// The text of a line feed is the one character.
pub proof fn lemma_line_feed()
    ensures
        "\n"@ == seq!['\n'],
{
    reveal_strlit("\n");
    assert("\n"@ =~= seq!['\n']);
}

/// Text without a line feed, put after `a`, goes on the last piece of `a`.
pub proof fn lemma_split_append_line(a: Seq<char>, b: Seq<char>)
    requires
        is_line(b),
    ensures
        split(a + b, '\n') == split(a, '\n').drop_last().push(split(a, '\n').last() + b),
        split(a + b, '\n').len() == split(a, '\n').len(),
    decreases b.len(),
{
    lemma_split_is_not_empty(a, '\n');
    let pieces = split(a, '\n');
    if b.len() == 0 {
        assert(a + b =~= a);
        assert(pieces.last() + b =~= pieces.last());
        assert(pieces.drop_last().push(pieces.last()) =~= pieces);
    } else {
        let shorter = b.drop_last();
        lemma_split_append_line(a, shorter);
        assert((a + b).drop_last() =~= a + shorter);
        assert((a + b).last() == b.last());
        let before = split(a + shorter, '\n');
        assert(before.drop_last() =~= pieces.drop_last());
        assert((pieces.last() + shorter).push(b.last()) =~= pieces.last() + b);
    }
}

/// Splitting gives at least one piece.
pub proof fn lemma_split_is_not_empty(s: Seq<char>, sep: char)
    ensures
        split(s, sep).len() >= 1,
    decreases s.len(),
{
    if s.len() > 0 {
        lemma_split_is_not_empty(s.drop_last(), sep);
    }
}

/// A line feed after `a` opens a new, empty piece.
pub proof fn lemma_split_append_feed(a: Seq<char>)
    ensures
        split(a.push('\n'), '\n') == split(a, '\n').push(Seq::<char>::empty()),
{
    assert(a.push('\n').drop_last() =~= a);
}

/// The pieces of a block are its lines and one empty piece after them.
pub proof fn lemma_split_block(lines: Seq<Seq<char>>)
    requires
        are_lines(lines),
    ensures
        split(block(lines), '\n') == lines.push(Seq::<char>::empty()),
    decreases lines.len(),
{
    if lines.len() == 0 {
        assert(lines.push(Seq::<char>::empty()) =~= seq![Seq::<char>::empty()]);
    } else {
        let before = lines.drop_last();
        let last = lines.last();
        lemma_split_block(before);
        assert(is_line(last));
        lemma_split_append_line(block(before), last);
        lemma_split_append_feed(block(before) + last);
        assert(block(lines) =~= (block(before) + last).push('\n'));
        let pieces = before.push(Seq::<char>::empty());
        assert(pieces.drop_last() =~= before);
        assert(pieces.last() + last =~= last);
        assert(before.push(last) =~= lines);
    }
}

/// The lines of a block are the lines it was made of.
pub proof fn lemma_lines_of_block(lines: Seq<Seq<char>>)
    requires
        are_lines(lines),
    ensures
        lines_of(block(lines)) == lines,
{
    lemma_split_block(lines);
    assert(lines.push(Seq::<char>::empty()).drop_last() =~= lines);
}

/// Joining lines with line feeds gives their block without its last line
/// feed; with one more, empty line it gives the block.
pub proof fn lemma_join_is_block(lines: Seq<Seq<char>>)
    ensures
        join(lines.push(Seq::<char>::empty()), "\n"@) == block(lines),
        lines.len() > 0 ==> join(lines, "\n"@).push('\n') == block(lines),
    decreases lines.len(),
{
    lemma_line_feed();
    let more = lines.push(Seq::<char>::empty());
    assert(more.drop_last() =~= lines);
    if lines.len() == 0 {
    } else if lines.len() == 1 {
        assert(lines.drop_last() =~= Seq::<Seq<char>>::empty());
        assert(block(Seq::<Seq<char>>::empty()) =~= Seq::<char>::empty());
        assert(block(lines) =~= lines[0].push('\n'));
        assert(join(lines, "\n"@) == lines[0]);
        assert(join(more, "\n"@) =~= lines[0] + seq!['\n'] + Seq::<char>::empty());
        assert(join(more, "\n"@) =~= block(lines));
    } else {
        let before = lines.drop_last();
        lemma_join_is_block(before);
        assert(join(lines, "\n"@) =~= join(before, "\n"@) + seq!['\n'] + lines.last());
        assert(join(lines, "\n"@).push('\n') =~= join(before, "\n"@).push('\n')
            + lines.last().push('\n'));
        assert(join(more, "\n"@) =~= join(lines, "\n"@) + seq!['\n'] + Seq::<char>::empty());
        assert(join(more, "\n"@) =~= join(lines, "\n"@).push('\n'));
    }
}

/// The pieces of lines joined with line feeds are those lines.
pub proof fn lemma_split_join(lines: Seq<Seq<char>>)
    requires
        lines.len() > 0,
        are_lines(lines),
    ensures
        split(join(lines, "\n"@), '\n') == lines,
    decreases lines.len(),
{
    lemma_line_feed();
    if lines.len() == 1 {
        assert(is_line(lines[0]));
        lemma_split_append_line(Seq::<char>::empty(), lines[0]);
        assert(Seq::<char>::empty() + lines[0] =~= lines[0]);
        assert(split(Seq::<char>::empty(), '\n') =~= seq![Seq::<char>::empty()]);
        assert(seq![Seq::<char>::empty()].drop_last().push(
            seq![Seq::<char>::empty()].last() + lines[0],
        ) =~= lines);
    } else {
        let before = lines.drop_last();
        let last = lines.last();
        lemma_split_join(before);
        let text = join(before, "\n"@);
        lemma_split_append_feed(text);
        assert(is_line(last));
        lemma_split_append_line(text.push('\n'), last);
        assert(join(lines, "\n"@) =~= text.push('\n') + last);
        let pieces = before.push(Seq::<char>::empty());
        assert(pieces.drop_last() =~= before);
        assert(pieces.last() + last =~= last);
        assert(before.push(last) =~= lines);
    }
}

/// A block of two groups of lines is the block of the first followed by
/// the block of the second.
pub proof fn lemma_block_of_both(a: Seq<Seq<char>>, b: Seq<Seq<char>>)
    ensures
        block(a + b) == block(a) + block(b),
    decreases b.len(),
{
    if b.len() == 0 {
        assert(a + b =~= a);
        assert(block(a) + block(b) =~= block(a));
    } else {
        lemma_block_of_both(a, b.drop_last());
        assert((a + b).drop_last() =~= a + b.drop_last());
        assert((a + b).last() == b.last());
        assert(block(a + b) =~= block(a) + (block(b.drop_last()) + b.last().push('\n')));
    }
}

/// The block of one line is the line and a line feed.
pub proof fn lemma_block_of_one(line: Seq<char>)
    ensures
        block(seq![line]) == line.push('\n'),
{
    assert(seq![line].drop_last() =~= Seq::<Seq<char>>::empty());
    assert(block(Seq::<Seq<char>>::empty()) =~= Seq::<char>::empty());
    assert(block(seq![line]) =~= line.push('\n'));
}

/// Indenting keeps lines lines and leaves none of them empty that was
/// not.
pub proof fn lemma_indent_lines_are_lines(lines: Seq<Seq<char>>)
    requires
        are_lines(lines),
    ensures
        are_lines(indent_lines(lines)),
        none_empty(lines) ==> none_empty(indent_lines(lines)),
        indent_lines(lines).len() == lines.len(),
{
    reveal_strlit("  ");
    assert forall|i: int| 0 <= i < lines.len() implies is_line(
        #[trigger] indent_lines(lines)[i],
    ) by {
        assert(is_line(lines[i]));
    }
}

/// Indenting a block indents each of its lines.
pub proof fn lemma_indented_block(lines: Seq<Seq<char>>)
    requires
        are_lines(lines),
    ensures
        indented(block(lines)) == block(indent_lines(lines)),
{
    lemma_split_block(lines);
    let more = lines.push(Seq::<char>::empty());
    assert(indent_lines(more) =~= indent_lines(lines).push(Seq::<char>::empty()));
    lemma_join_is_block(indent_lines(lines));
}

} // verus!
