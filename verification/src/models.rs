//! The input data model of the dashboard.

use vstd::prelude::*;

verus! {

/// One team member as known to the dashboard.
///
/// The position of a record inside the input sequence encodes recency:
/// the record at index 0 is the most-recently-joined member. The `title`
/// field is a grouping key compared by exact string equality, and
/// `compensation` is a signed monthly cost figure that may be zero or
/// negative.
pub struct Person {
    pub name: String,
    pub title: String,
    pub compensation: i32,
}

} // verus!
