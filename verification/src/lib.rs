//! Temporal precision and duration engine.
//!
//! The crate models a tiered hierarchy of timestamp precisions (weeks down
//! to nanoseconds), parses compound human-written duration strings such as
//! `"3w5d2h10m7s1ns"` into exact signed durations, converts between epoch
//! stamps and calendar instants, and floors an instant to the start of its
//! enclosing tier.

pub mod calc;
pub mod calendar;
pub mod convert;
pub mod errors;
pub mod format;
pub mod hduration;
pub mod instant;
pub mod order;
pub mod parse_laws;
pub mod precision;
pub mod truncate;
