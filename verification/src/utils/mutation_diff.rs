use crate::raw_operations::error::debug_text;
use vstd::prelude::*;

verus! {

/// One cell of a table of differences: a description, or nothing.
#[derive(Debug, Default)]
pub struct MaybeDiffEntry(pub Option<String>);

/// One row of a table of differences: what was, what is to be, and whether
/// the two differ.
#[derive(Debug)]
pub struct MutationDiff {
    pub old: MaybeDiffEntry,
    pub new: MaybeDiffEntry,
    pub is_diff: MaybeDiffEntry,
}

impl MaybeDiffEntry {
    /// What the cell shows: its description, or `~` where it has none.
    pub open spec fn shown(&self) -> Seq<char> {
        match self.0 {
            Some(text) => text@,
            None => "~"@,
        }
    }

    /// A cell that describes `value` as its `Debug` implementation renders
    /// it, or an empty cell where there is no value.
    pub fn from_debug<T: std::fmt::Debug>(value: Option<T>) -> (entry: Self)
        ensures
            value is Some <==> entry.0 is Some,
    {
        match value {
            Some(value) => MaybeDiffEntry(Some(debug_text(&value))),
            None => MaybeDiffEntry(None),
        }
    }

    /// What the cell shows.
    pub fn text(&self) -> (text: String)
        ensures
            text@ == self.shown(),
    {
        match &self.0 {
            Some(text) => text.clone(),
            None => "~".to_owned(),
        }
    }
}

impl MutationDiff {
    /// The row for `old` and `new`, with the mark `differs` in its last cell
    /// where the two are not the same.
    pub fn new(old: MaybeDiffEntry, new: MaybeDiffEntry, differs: bool) -> (row: Self)
        ensures
            row.old == old,
            row.new == new,
            row.is_diff.0 is Some <==> differs,
    {
        let is_diff = if differs {
            MaybeDiffEntry(Some("*".to_owned()))
        } else {
            MaybeDiffEntry(None)
        };
        MutationDiff { old, new, is_diff }
    }
}

} // verus!
