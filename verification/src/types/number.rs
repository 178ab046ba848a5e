//! Conditions over a numeric column.

use vstd::prelude::*;

verus! {

/// One condition over a numeric column.
#[derive(Clone, Copy, Debug, PartialEq, Eq, Structural)]
pub enum NumberFilterKind {
    Equals(i64),
    NotEquals(i64),
    LesserThan(i64),
    LesserThanEqual(i64),
    GreaterThan(i64),
    GreaterThanEqual(i64),
}

/// An ordered set of number conditions, rendered in order and combined
/// with `AND`.
#[derive(Debug)]
pub struct NumberFilter(pub Vec<NumberFilterKind>);

impl NumberFilter {
    /// The conditions form a set: no condition is listed twice.
    pub open spec fn wf(self) -> bool {
        self.0@.no_duplicates()
    }
}

} // verus!
