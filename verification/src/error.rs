//! The errors of the library, each standing for the Python exception that
//! the extension raises for it.
use vstd::prelude::*;

verus! {

/// An error, by the Python exception it becomes.
#[derive(Debug, Clone)]
pub enum XioError {
    /// `ValueError` with this message.
    Value(String),
    /// `RuntimeError` with this message.
    Runtime(String),
    /// `OverflowError` with this message: an integer did not fit.
    Overflow(String),
    /// `TypeError`: a value of type `found` where a `expected` was needed.
    Type { found: String, expected: String },
}

} // verus!
