//! The per-field filter types: ordered sets of conditions over numbers,
//! strings, identifiers, dates and timestamps.
//!
//! Each filter holds its conditions in the order they are rendered. The
//! deserialization boundary is expected to hand them over deduplicated;
//! the well-formedness predicate of each filter states that.

pub mod date;
pub mod datetime;
pub mod number;
pub mod string;
pub mod uuid;

pub use self::uuid::{Uuid, UuidFilter, UuidFilterKind};
pub use date::{Date, DateFilter, DateFilterKind};
pub use datetime::{DateTime, DateTimeFilter, DateTimeFilterKind};
pub use number::{NumberFilter, NumberFilterKind};
pub use string::{StringFilter, StringFilterKind};
