//! Conditions over a text column.

use vstd::prelude::*;

verus! {

/// One condition over a text column.
#[derive(Debug, PartialEq, Eq)]
pub enum StringFilterKind {
    Contains(String),
    NotContains(String),
    StartsWith(String),
    EndsWith(String),
}

/// The mathematical value of a [`StringFilterKind`].
pub enum StringFilterKindModel {
    Contains(Seq<char>),
    NotContains(Seq<char>),
    StartsWith(Seq<char>),
    EndsWith(Seq<char>),
}

impl View for StringFilterKind {
    type V = StringFilterKindModel;

    open spec fn view(&self) -> StringFilterKindModel {
        match self {
            StringFilterKind::Contains(s) => StringFilterKindModel::Contains(s@),
            StringFilterKind::NotContains(s) => StringFilterKindModel::NotContains(s@),
            StringFilterKind::StartsWith(s) => StringFilterKindModel::StartsWith(s@),
            StringFilterKind::EndsWith(s) => StringFilterKindModel::EndsWith(s@),
        }
    }
}

/// An ordered set of text conditions, rendered in order and combined with
/// `AND`.
#[derive(Debug)]
pub struct StringFilter(pub Vec<StringFilterKind>);

impl StringFilter {
    /// The mathematical values of the conditions, in order.
    pub open spec fn models(self) -> Seq<StringFilterKindModel> {
        self.0@.map_values(|k: StringFilterKind| k@)
    }

    /// The conditions form a set: no condition is listed twice.
    pub open spec fn wf(self) -> bool {
        self.models().no_duplicates()
    }
}

} // verus!
