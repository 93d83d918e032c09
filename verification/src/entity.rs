//! The stored record: a user registration. Used both as input to a create
//! and as the decoded shape of a read row.

use crate::date::Date;
use vstd::prelude::*;

verus! {

/// A user registration record. The registration date is the sole
/// partitioning attribute; a stored record is never updated or deleted.
#[derive(Debug)]
pub struct User {
    pub id: i64,
    pub name: String,
    pub registered_date: Date,
}

impl User {
    /// A record carries a non-empty name and a real calendar date.
    pub open spec fn valid(self) -> bool {
        &&& self.name@.len() > 0
        &&& self.registered_date.valid()
    }

    /// Whether the record is well-formed; what a caller must check before
    /// asking for a create plan.
    pub fn is_valid(&self) -> (r: bool)
        ensures
            r == self.valid(),
    {
        !self.name.as_str().is_empty() && self.registered_date.is_valid()
    }
}

} // verus!
