//! Conditions over a timestamp column.

use vstd::prelude::*;

use crate::types::date::Date;

verus! {

/// A calendar date with a time of day, as plain fields. The web layer
/// converts between this and its textual form.
#[derive(Clone, Copy, Debug, PartialEq, Eq, Structural)]
pub struct DateTime {
    pub date: Date,
    pub hour: u8,
    pub minute: u8,
    pub second: u8,
}

/// One condition over a timestamp column.
#[derive(Clone, Copy, Debug, PartialEq, Eq, Structural)]
pub enum DateTimeFilterKind {
    Before(DateTime),
    Equals(DateTime),
    NotEquals(DateTime),
    After(DateTime),
}

/// An ordered set of timestamp conditions, rendered in order and combined
/// with `AND`.
#[derive(Debug)]
pub struct DateTimeFilter(pub Vec<DateTimeFilterKind>);

impl DateTimeFilter {
    /// The conditions form a set: no condition is listed twice.
    pub open spec fn wf(self) -> bool {
        self.0@.no_duplicates()
    }
}

} // verus!
