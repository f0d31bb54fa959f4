//! The two services that the document emitter takes from other crates: the
//! YAML form of one string, and the indentation of a block of text. Their
//! contracts are stated here and believed, not proved.

use crate::text::{join, split};
use std::fmt::Write;
use vstd::prelude::*;

verus! {

/// The YAML document that holds the string `s` and nothing else, line end
/// included, or `None` if the string cannot be serialized. Quoting, block
/// style and escapes are those of the serializer.
pub uninterp spec fn yaml_scalar(s: Seq<char>) -> Option<Seq<char>>;

/// Calls `serde_yaml::to_string` on a string. The contract claims only
/// that the outcome, failure included, depends on the characters of the
/// string alone; [`yaml_scalar`] is the name of that outcome.
#[verifier::external_body]
pub(crate) fn encode(s: &str) -> (text: Option<String>)
    ensures
        match text {
            Some(t) => yaml_scalar(s@) == Some(t@),
            None => yaml_scalar(s@) is None,
        },
{
    serde_yaml::to_string(s).ok()
}

/// The string that the YAML document `text` holds, or in its place what the
/// YAML reader says is wrong with `text`: it is no YAML document, or it
/// holds something other than one string.
pub uninterp spec fn yaml_string(text: Seq<char>) -> Result<Seq<char>, Seq<char>>;

/// Calls `serde_yaml::from_str` for a `String` and, where it fails, takes
/// the message of the error. The contract claims only that the outcome,
/// failure and message included, depends on the characters of the text
/// alone; [`yaml_string`] is the name of that outcome.
#[verifier::external_body]
pub(crate) fn decode(text: &str) -> (s: Result<String, String>)
    ensures
        match s {
            Ok(s) => yaml_string(text@) == Ok::<Seq<char>, Seq<char>>(s@),
            Err(cause) => yaml_string(text@) == Err::<Seq<char>, Seq<char>>(cause@),
        },
{
    match serde_yaml::from_str::<String>(text) {
        Ok(s) => Ok(s),
        Err(error) => Err(error.to_string()),
    }
}

/// `lines` with two spaces in front of each line that is not empty.
pub open spec fn indent_lines(lines: Seq<Seq<char>>) -> Seq<Seq<char>> {
    Seq::new(
        lines.len(),
        |i: int|
            if lines[i].len() == 0 {
                lines[i]
            } else {
                "  "@ + lines[i]
            },
    )
}

/// `text` one level deeper: two spaces in front of each line that is not
/// empty. Lines end at `\n`; the text after the last `\n` is a line too.
pub open spec fn indented(text: Seq<char>) -> Seq<char> {
    join(indent_lines(split(text, '\n')), "\n"@)
}

/// Writes `text` through `indenter::indented` with a two-space
/// indentation. The contract claims what the crate's `write_str` does with
/// one piece of text on a fresh indenter: the pieces between the `\n`
/// come out in order with `\n` between them, and each piece that is not
/// empty has the indentation in front of it.
#[verifier::external_body]
pub(crate) fn indent(text: &str) -> (out: String)
    ensures
        out@ == indented(text@),
{
    let mut out = String::new();
    let _ = indenter::indented(&mut out).with_str("  ").write_str(text);
    out
}

} // verus!
