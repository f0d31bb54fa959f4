//! The blank-line rule of the pretty serializer: a pass over the lines of
//! a plain YAML text that sets top-level fields and list items apart.

use crate::layout::lemma_split_is_not_empty;
use crate::text::{chars_of, join, join_with, split, split_on};
use vstd::prelude::*;

verus! {

/// Whether `c` is white space: a character with the Unicode property
/// `White_Space`.
pub open spec fn is_whitespace(c: char) -> bool {
    let code = c as u32;
    ||| 0x09 <= code <= 0x0d
    ||| code == 0x20
    ||| code == 0x85
    ||| code == 0xa0
    ||| code == 0x1680
    ||| 0x2000 <= code <= 0x200a
    ||| code == 0x2028
    ||| code == 0x2029
    ||| code == 0x202f
    ||| code == 0x205f
    ||| code == 0x3000
}

/// `s` without the white space at its start.
pub open spec fn trim_start(s: Seq<char>) -> Seq<char>
    decreases s.len(),
{
    if s.len() > 0 && is_whitespace(s[0]) {
        trim_start(s.skip(1))
    } else {
        s
    }
}

/// `s` without the white space at its end.
pub open spec fn trim_end(s: Seq<char>) -> Seq<char>
    decreases s.len(),
{
    if s.len() > 0 && is_whitespace(s.last()) {
        trim_end(s.drop_last())
    } else {
        s
    }
}

/// `s` without the white space at both its ends.
pub open spec fn trimmed(s: Seq<char>) -> Seq<char> {
    trim_end(trim_start(s))
}

/// Whether `line` stands at zero indentation: it does not begin with a
/// space. The empty line does.
pub open spec fn is_top_level(line: Seq<char>) -> bool {
    line.len() == 0 || line[0] != ' '
}

/// Whether `line` is a list item: without the white space at its ends it
/// begins with a dash and a space.
pub open spec fn is_item(line: Seq<char>) -> bool {
    let text = trimmed(line);
    text.len() >= 2 && text[0] == '-' && text[1] == ' '
}

/// Whether the lines before line `i` have left the pass inside a list:
/// the last of the lines `1..i` that is an item or stands at zero
/// indentation is an item. The first line never opens a list.
pub open spec fn in_list(lines: Seq<Seq<char>>, i: int) -> bool
    decreases i,
{
    if i <= 1 {
        false
    } else if is_item(lines[i - 1]) {
        true
    } else if is_top_level(lines[i - 1]) {
        false
    } else {
        in_list(lines, i - 1)
    }
}

/// The blank lines that the pass puts in front of line `i`, for `i` at
/// least 1: one if the line stands at zero indentation and the line before
/// it is not empty, and one if the line is an item inside a list.
pub open spec fn gap(lines: Seq<Seq<char>>, i: int) -> Seq<Seq<char>> {
    (if is_top_level(lines[i]) && lines[i - 1].len() > 0 {
        seq![Seq::<char>::empty()]
    } else {
        Seq::empty()
    }) + (if is_item(lines[i]) && in_list(lines, i) {
        seq![Seq::<char>::empty()]
    } else {
        Seq::empty()
    })
}

/// The lines of `lines` in order, each from the second on with its
/// [`gap`] in front of it.
pub open spec fn spaced(lines: Seq<Seq<char>>) -> Seq<Seq<char>>
    decreases lines.len(),
{
    if lines.len() <= 1 {
        lines
    } else {
        spaced(lines.drop_last()) + gap(lines, lines.len() - 1) + seq![lines.last()]
    }
}

/// The lines of `text`: the pieces between its `\n`, without the last
/// piece if that is empty, so that a final line end opens no line.
pub open spec fn lines_of(text: Seq<char>) -> Seq<Seq<char>> {
    let pieces = split(text, '\n');
    if pieces.last().len() == 0 {
        pieces.drop_last()
    } else {
        pieces
    }
}

/// `text` with the blank-line rule applied to its lines. The result has
/// no line end after its last line.
pub open spec fn pretty(text: Seq<char>) -> Seq<char> {
    join(spaced(lines_of(text)), "\n"@)
}

/// The flag [`in_list`] at line `i` depends on the lines before `i` only.
proof fn lemma_in_list_of_prefix(lines: Seq<Seq<char>>, k: int, i: int)
    requires
        0 <= i <= k <= lines.len(),
    ensures
        in_list(lines.take(k), i) == in_list(lines, i),
    decreases i,
{
    if i > 1 {
        assert(lines.take(k)[i - 1] == lines[i - 1]);
        lemma_in_list_of_prefix(lines, k, i - 1);
    }
}

/// Whether `c` is white space.
fn whitespace(c: char) -> (yes: bool)
    ensures
        yes == is_whitespace(c),
{
    let code = c as u32;
    (0x09 <= code && code <= 0x0d) || code == 0x20 || code == 0x85 || code == 0xa0 || code
        == 0x1680 || (0x2000 <= code && code <= 0x200a) || code == 0x2028 || code == 0x2029
        || code == 0x202f || code == 0x205f || code == 0x3000
}

/// Whether the line with the characters `line` is a list item.
fn item_line(line: &Vec<char>) -> (yes: bool)
    ensures
        yes == is_item(line@),
{
    let n = line.len();
    let mut a: usize = 0;
    assert(line@.skip(0) =~= line@);
    while a < n && whitespace(line[a])
        invariant
            a <= n,
            n == line.len(),
            trim_start(line@) == trim_start(line@.skip(a as int)),
        decreases n - a,
    {
        assert(line@.skip(a as int).skip(1) =~= line@.skip(a + 1));
        a += 1;
    }
    assert(trim_start(line@) == line@.skip(a as int));
    let mut b: usize = n;
    assert(line@.skip(a as int) =~= line@.subrange(a as int, n as int));
    while b > a && whitespace(line[b - 1])
        invariant
            a <= b <= n,
            n == line.len(),
            trimmed(line@) == trim_end(line@.subrange(a as int, b as int)),
        decreases b,
    {
        assert(line@.subrange(a as int, b as int).drop_last() =~= line@.subrange(
            a as int,
            b - 1,
        ));
        b -= 1;
    }
    assert(trimmed(line@) == line@.subrange(a as int, b as int));
    b - a >= 2 && line[a] == '-' && line[a + 1] == ' '
}

/// The lines of `lines` with the blank-line rule applied.
pub fn space_out(lines: &Vec<String>) -> (out: Vec<String>)
    ensures
        out.deep_view() == spaced(lines.deep_view()),
{
    let ghost all = lines.deep_view();
    let mut out: Vec<String> = Vec::new();
    if lines.len() == 0 {
        assert(out.deep_view() =~= spaced(all));
        return out;
    }
    out.push(lines[0].clone());
    let mut listed = false;
    let mut i: usize = 1;
    proof {
        assert(all.take(1) =~= seq![all[0]]);
        assert(out.deep_view() =~= spaced(all.take(1)));
    }
    while i < lines.len()
        invariant
            1 <= i <= lines.len(),
            all == lines.deep_view(),
            listed == in_list(all, i as int),
            out.deep_view() == spaced(all.take(i as int)),
        decreases lines.len() - i,
    {
        let ghost before = out.deep_view();
        let ghost grown = all.take(i + 1);
        proof {
            assert(grown.drop_last() =~= all.take(i as int));
            assert(grown.last() == all[i as int]);
            assert(grown[i as int] == all[i as int]);
            assert(grown[i - 1] == all[i - 1]);
            lemma_in_list_of_prefix(all, i + 1, i as int);
            assert(all[i as int] == lines[i as int]@);
            assert(all[i - 1] == lines[i - 1]@);
        }
        let current = chars_of(lines[i].as_str());
        let top = current.len() == 0 || current[0] != ' ';
        let is_entry = item_line(&current);
        if top && lines[i - 1].as_str().unicode_len() > 0 {
            out.push(String::new());
        }
        if is_entry && listed {
            out.push(String::new());
        }
        out.push(lines[i].clone());
        proof {
            assert(out.deep_view() =~= before + gap(grown, i as int) + seq![all[i as int]]);
        }
        if is_entry {
            listed = true;
        } else if top {
            listed = false;
        }
        i += 1;
    }
    proof {
        assert(all.take(lines.len() as int) =~= all);
    }
    out
}

/// The lines of `text`.
pub fn lines(text: &str) -> (out: Vec<String>)
    ensures
        out.deep_view() == lines_of(text@),
{
    let mut out = split_on(text, '\n');
    let ghost pieces = out.deep_view();
    proof {
        lemma_split_is_not_empty(text@, '\n');
    }
    let last = out.len() - 1;
    if out[last].as_str().unicode_len() == 0 {
        out.pop();
        assert(out.deep_view() =~= pieces.drop_last());
    }
    out
}

/// `text` with the blank-line rule applied to its lines.
pub fn prettify(text: &str) -> (out: String)
    ensures
        out@ == pretty(text@),
{
    let spaced = space_out(&lines(text));
    join_with(&spaced, "\n")
}

} // verus!
