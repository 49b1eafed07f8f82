//! Errors of reading indicator inputs.

use vstd::prelude::*;

verus! {

/// Why an indicator input was refused.
#[derive(Clone, Debug, PartialEq, Eq)]
pub enum IndicatorError {
    /// A text that must be a number is none; the text is what was given.
    InvalidNumericFormat(String),
}

} // verus!
