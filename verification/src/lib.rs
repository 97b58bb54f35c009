//! Verified core of a team-metrics dashboard.
//!
//! The heart of the library is a single aggregation pass over an ordered
//! roster of person records, producing a headcount, a total monthly cost,
//! the most-recently-joined member, and a first-seen-ordered title
//! histogram. Around it stand the formatting of the dashboard values,
//! the error-message table, and the navigation-style rule.

pub mod aggregate;
pub mod formatting;
pub mod header;
pub mod models;
pub mod person_errors;
