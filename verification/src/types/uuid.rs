//! Conditions over an identifier column.

use vstd::prelude::*;

verus! {

/// A 128-bit identifier, as its two halves. The web layer converts
/// between this and its canonical textual form.
#[derive(Clone, Copy, Debug, PartialEq, Eq, Structural)]
pub struct Uuid {
    pub hi: u64,
    pub lo: u64,
}

/// One condition over an identifier column.
#[derive(Debug, PartialEq, Eq)]
pub enum UuidFilterKind {
    /// The column equals this identifier.
    Equals(Uuid),
    /// The column is one of these identifiers.
    In(Vec<Uuid>),
}

/// The mathematical value of a [`UuidFilterKind`].
pub enum UuidFilterKindModel {
    Equals(Uuid),
    In(Seq<Uuid>),
}

impl View for UuidFilterKind {
    type V = UuidFilterKindModel;

    open spec fn view(&self) -> UuidFilterKindModel {
        match self {
            UuidFilterKind::Equals(u) => UuidFilterKindModel::Equals(*u),
            UuidFilterKind::In(v) => UuidFilterKindModel::In(v@),
        }
    }
}

/// An ordered set of identifier conditions, rendered in order and
/// combined with `AND`.
#[derive(Debug)]
pub struct UuidFilter(pub Vec<UuidFilterKind>);

impl UuidFilter {
    /// The mathematical values of the conditions, in order.
    pub open spec fn models(self) -> Seq<UuidFilterKindModel> {
        self.0@.map_values(|k: UuidFilterKind| k@)
    }

    /// The conditions form a set: no condition is listed twice.
    pub open spec fn wf(self) -> bool {
        self.models().no_duplicates()
    }
}

} // verus!
