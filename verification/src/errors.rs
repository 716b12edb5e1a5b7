//! The closed error taxonomy of the engine.

use vstd::prelude::*;

verus! {

/// Every failure of the engine is one of these values.  None of them is
/// recovered from internally: each is handed back to the caller.
#[derive(Debug, Clone, PartialEq, Eq)]
pub enum TemporalError {
    /// A unit token that names no known precision tier.
    UnknownUnit { text: String },
    /// A character that no position of a duration string allows.
    InvalidCharacter { ch: char, pos: usize },
    /// A sign that stands anywhere but at the very front.
    MisplacedSign,
    /// Digits that reach a flush with no unit letters after them.
    MissingUnit,
    /// An accumulation or conversion that would overflow its integer type.
    DurationTooLarge,
    /// A stamp whose instant is not representable in the calendar range.
    OutOfRange,
    /// An adjusted stamp that could not be rebuilt into an instant.
    TruncationFailed,
}

} // verus!
