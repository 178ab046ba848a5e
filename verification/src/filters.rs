//! Query filters: paging, sorting and per-field filtering for list
//! endpoints. A deserialized query carries an optional window
//! (`start`/`end`), an optional sort field with direction, and a
//! type-specific field filter.

use vstd::prelude::*;

use vstd::string::StrSliceExecFns;

use crate::auth::str_eq;
use crate::types::number::NumberFilter;
use crate::types::string::StringFilter;

verus! {

/// What a concrete filter type declares about itself: which fields may be
/// sorted by, and the largest page size it allows.
pub trait Filter {
    /// Whether `field` is one of the sortable fields.
    spec fn spec_sortable(field: Seq<char>) -> bool;

    /// The largest page size.
    spec fn spec_max_limit() -> u32;

    /// Decide `spec_sortable` on a concrete field name.
    fn validate_sortable_field(field: &str) -> (r: bool)
        ensures
            r == Self::spec_sortable(field@),
    ;

    /// The largest page size, as a value.
    fn get_max_limit() -> (r: u32)
        ensures
            r == Self::spec_max_limit(),
    ;
}

/// The empty filter: nothing is sortable, the page size cap is the
/// default of one hundred.
impl Filter for () {
    open spec fn spec_sortable(field: Seq<char>) -> bool {
        false
    }

    open spec fn spec_max_limit() -> u32 {
        100
    }

    fn validate_sortable_field(field: &str) -> (r: bool) {
        false
    }

    fn get_max_limit() -> (r: u32) {
        100
    }
}

/// A filter over user records: a ready-made implementation of
/// [`Filter`], with a text condition on the username and a numeric
/// condition on the age.
pub struct UserFilter {
    pub username: Option<StringFilter>,
    pub age: Option<NumberFilter>,
}

impl Filter for UserFilter {
    open spec fn spec_sortable(field: Seq<char>) -> bool {
        field == "username"@ || field == "age"@
    }

    open spec fn spec_max_limit() -> u32 {
        100
    }

    fn validate_sortable_field(field: &str) -> (r: bool) {
        str_eq(field, "username") || str_eq(field, "age")
    }

    fn get_max_limit() -> (r: u32) {
        100
    }
}

/// A sort direction as requested by the query.
#[derive(Clone, Copy, Debug, PartialEq, Eq, Structural)]
pub enum Order {
    Asc,
    Desc,
    Unordered,
}

/// Case-insensitive spelling of `ASC`.
pub open spec fn is_asc_ci(s: Seq<char>) -> bool {
    s.len() == 3 && (s[0] == 'A' || s[0] == 'a') && (s[1] == 'S' || s[1] == 's') && (s[2] == 'C'
        || s[2] == 'c')
}

/// Case-insensitive spelling of `DESC`.
pub open spec fn is_desc_ci(s: Seq<char>) -> bool {
    s.len() == 4 && (s[0] == 'D' || s[0] == 'd') && (s[1] == 'E' || s[1] == 'e') && (s[2] == 'S'
        || s[2] == 's') && (s[3] == 'C' || s[3] == 'c')
}

/// What parsing an order string yields.
pub open spec fn spec_parse_order(s: Seq<char>) -> Result<Order, ()> {
    if is_asc_ci(s) {
        Ok(Order::Asc)
    } else if is_desc_ci(s) {
        Ok(Order::Desc)
    } else {
        Err(())
    }
}

impl Order {
    /// The SQL keyword for this direction; an unordered query is rendered
    /// ascending.
    pub fn as_str(&self) -> (r: &str)
        ensures
            *self == Order::Desc ==> r@ == "DESC"@,
            *self != Order::Desc ==> r@ == "ASC"@,
    {
        match self {
            Order::Asc => "ASC",
            Order::Desc => "DESC",
            Order::Unordered => "ASC",
        }
    }

    /// Parse a direction, accepting any capitalization of `ASC` and
    /// `DESC`.
    pub fn from_str(s: &str) -> (r: Result<Order, ()>)
        ensures
            r == spec_parse_order(s@),
    {
        let n = s.unicode_len();
        if n == 3 {
            let c0 = s.get_char(0);
            let c1 = s.get_char(1);
            let c2 = s.get_char(2);
            if (c0 == 'A' || c0 == 'a') && (c1 == 'S' || c1 == 's') && (c2 == 'C' || c2 == 'c') {
                Ok(Order::Asc)
            } else {
                Err(())
            }
        } else if n == 4 {
            let c0 = s.get_char(0);
            let c1 = s.get_char(1);
            let c2 = s.get_char(2);
            let c3 = s.get_char(3);
            if (c0 == 'D' || c0 == 'd') && (c1 == 'E' || c1 == 'e') && (c2 == 'S' || c2 == 's') && (
            c3 == 'C' || c3 == 'c') {
                Ok(Order::Desc)
            } else {
                Err(())
            }
        } else {
            Err(())
        }
    }
}

/// A deserialized list query: an optional window, an optional sort, and
/// the type-specific field filter.
pub struct QueryFilter<T> {
    pub start: Option<u32>,
    pub end: Option<u32>,
    pub sort: Option<String>,
    pub order: Option<String>,
    pub filter: T,
}

impl<T: Filter> QueryFilter<T> {
    /// The first row to return.
    pub open spec fn spec_offset(self) -> u32 {
        match self.start {
            Some(o) => o,
            None => 0,
        }
    }

    /// The window is not inverted: an `end` below the offset would make
    /// the limit computation meaningless.
    pub open spec fn window_wf(self) -> bool {
        match self.end {
            Some(e) => self.spec_offset() <= e,
            None => true,
        }
    }

    /// How many rows to return: the window size clamped between one and
    /// the filter's cap; ten when no end is given.
    pub open spec fn spec_limit(self, offset: u32) -> int {
        match self.end {
            Some(e) => {
                let d = e - offset;
                let lo = if d > 1 {
                    d
                } else {
                    1
                };
                if lo < T::spec_max_limit() {
                    lo
                } else {
                    T::spec_max_limit() as int
                }
            },
            None => 10,
        }
    }

    /// The requested sort field, if it is one of the sortable fields.
    pub open spec fn spec_sort(self) -> Option<Seq<char>> {
        match self.sort {
            Some(s) => if T::spec_sortable(s@) {
                Some(s@)
            } else {
                None
            },
            None => None,
        }
    }

    /// The requested direction; anything unparsable counts as unordered.
    pub open spec fn spec_order(self) -> Order {
        match self.order {
            Some(s) => match spec_parse_order(s@) {
                Ok(o) => o,
                Err(_) => Order::Unordered,
            },
            None => Order::Unordered,
        }
    }

    /// The first row to return: `start`, or zero.
    pub fn get_offset(&self) -> (r: u32)
        ensures
            r == self.spec_offset(),
    {
        if let Some(offset) = self.start {
            offset
        } else {
            0
        }
    }

    /// The number of rows to return for the given offset.
    pub fn get_limit(&self, offset: u32) -> (r: u32)
        requires
            self.end matches Some(e) ==> offset <= e,
        ensures
            r == self.spec_limit(offset),
    {
        if let Some(value) = self.end {
            let d = value - offset;
            let lo = if d > 1 {
                d
            } else {
                1
            };
            let cap = T::get_max_limit();
            if lo < cap {
                lo
            } else {
                cap
            }
        } else {
            10
        }
    }

    /// The sort field, validated against the filter's sortable fields.
    pub fn get_sort(&self) -> (r: Option<&str>)
        ensures
            match r {
                Some(f) => self.spec_sort() == Some(f@),
                None => self.spec_sort() is None,
            },
    {
        if let Some(field) = &self.sort {
            if T::validate_sortable_field(field.as_str()) {
                Some(field.as_str())
            } else {
                None
            }
        } else {
            None
        }
    }

    /// The sort direction.
    pub fn get_order(&self) -> (r: Order)
        ensures
            r == self.spec_order(),
    {
        if let Some(val) = &self.order {
            match Order::from_str(val.as_str()) {
                Ok(o) => o,
                Err(_) => Order::Unordered,
            }
        } else {
            Order::Unordered
        }
    }

    /// The type-specific field filter.
    pub fn get_filter(&self) -> (r: &T)
        ensures
            *r == self.filter,
    {
        &self.filter
    }
}

} // verus!
