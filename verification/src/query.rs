//! How the text of a query is taken from the lines of an input source: one
//! line, or a block of lines that the first line opens and a later one
//! closes.
use crate::text::{ends_with, has_suffix, same_text, trim, trim_end, trimmed, trimmed_end};
use vstd::prelude::*;

verus! {

/// The state of a query after a line.
#[derive(Debug, PartialEq)]
pub enum QueryInput {
    /// The query is complete; this is its text.
    Complete(String),
    /// The query goes on with the next line; this is what was captured.
    Pending(String),
}

/// The first line opens a block: without the whitespace around it, it ends
/// with `+++`.
pub open spec fn opens_block(first_line: Seq<char>) -> bool {
    ends_with(trimmed(first_line), "+++"@)
}

/// The line closes a block: without the whitespace at its end, it is `END`.
pub open spec fn closes_block(line: Seq<char>) -> bool {
    trimmed_end(line) == "END"@
}

/// Takes the first line of a query. Without the whitespace around it, it
/// is the whole query, or the beginning of a block where it opens one.
pub fn begin_query(first_line: &str) -> (input: QueryInput)
    ensures
        opens_block(first_line@) ==> (input matches QueryInput::Pending(text) && text@ == trimmed(
            first_line@,
        )),
        !opens_block(first_line@) ==> (input matches QueryInput::Complete(text) && text@
            == trimmed(first_line@)),
{
    let text = trim(first_line);
    if has_suffix(text.as_str(), "+++") {
        QueryInput::Pending(text)
    } else {
        QueryInput::Complete(text)
    }
}

/// Takes the next line of a block. The line that closes the block is not
/// part of the query; every other line is, as it stands.
pub fn continue_query(captured: String, line: &str) -> (input: QueryInput)
    ensures
        closes_block(line@) ==> (input matches QueryInput::Complete(text) && text@ == captured@),
        !closes_block(line@) ==> (input matches QueryInput::Pending(text) && text@ == captured@
            + line@),
{
    let end = trim_end(line);
    if same_text(end.as_str(), "END") {
        QueryInput::Complete(captured)
    } else {
        QueryInput::Pending(captured.concat(line))
    }
}

} // verus!
