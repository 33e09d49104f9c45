//! Line diffs, computed by the `similar` crate.

use similar::{ChangeTag, TextDiff};
use vstd::prelude::*;

use crate::ops::{ChangeKind, changes_view};

verus! {

/// The changes that turn `old` into `new`, line by line, as the `similar`
/// crate reports them (see `diff_lines`).
pub uninterp spec fn line_diff(old: Seq<char>, new: Seq<char>) -> Seq<(ChangeKind, Seq<char>)>;

/// Calls `similar::TextDiff::from_lines(old, new)` and walks
/// `iter_all_changes`: each change's tag and its text as its `Display`
/// writes it (the line, with a newline added where the line has none).
/// The diff has no deadline configured, so it depends on its arguments
/// alone; the contract names the result `line_diff` and says nothing more.
#[verifier::external_body]
pub(crate) fn diff_lines(old: &str, new: &str) -> (r: Vec<(ChangeKind, String)>)
    ensures
        changes_view(r@) == line_diff(old@, new@),
{
    let diff = TextDiff::from_lines(old, new);
    let mut out = Vec::new();
    for change in diff.iter_all_changes() {
        let kind = match change.tag() {
            ChangeTag::Equal => ChangeKind::Equal,
            ChangeTag::Delete => ChangeKind::Delete,
            ChangeTag::Insert => ChangeKind::Insert,
        };
        out.push((kind, change.to_string()));
    }
    out
}

} // verus!
