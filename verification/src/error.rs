//! The ways in which a conversion is refused.

use vstd::prelude::*;

verus! {

/// Why an amount was not put into words.
#[derive(Clone, Copy, Debug, PartialEq, Eq, Structural)]
pub enum WordsError {
    /// The number handed to the three-digit converter is above 999.
    OutOfRange,
    /// The amount has more digit groups than the scale has names for.
    ScaleOverflow,
    /// The amount is below zero.
    NegativeAmount,
}

} // verus!
