//! Conditions over a date column.

use vstd::prelude::*;

verus! {

/// A calendar date, as plain fields. The web layer converts between this
/// and its textual form.
#[derive(Clone, Copy, Debug, PartialEq, Eq, Structural)]
pub struct Date {
    pub year: i32,
    pub month: u8,
    pub day: u8,
}

/// One condition over a date column.
#[derive(Clone, Copy, Debug, PartialEq, Eq, Structural)]
pub enum DateFilterKind {
    Before(Date),
    Equals(Date),
    NotEquals(Date),
    After(Date),
}

/// An ordered set of date conditions, rendered in order and combined with
/// `AND`.
#[derive(Debug)]
pub struct DateFilter(pub Vec<DateFilterKind>);

impl DateFilter {
    /// The conditions form a set: no condition is listed twice.
    pub open spec fn wf(self) -> bool {
        self.0@.no_duplicates()
    }
}

} // verus!
