//! The typed error every stage of the compiler reports: a human-readable
//! message together with the source location it concerns.
use vstd::prelude::*;

verus! {

/// An error with a message and an optional source position (`line` and `col`
/// are 1-based; 0 means "no position").
#[derive(Debug)]
pub struct LDPLError {
    pub details: String,
    pub line: usize,
    pub col: usize,
    pub len: usize,
}

impl LDPLError {
    /// Build an error from its parts.
    pub fn new(details: String, line: usize, col: usize, len: usize) -> (r: LDPLError)
        ensures
            r.details == details,
            r.line == line,
            r.col == col,
            r.len == len,
    {
        LDPLError { details, line, col, len }
    }

    /// An error with a message but no position.
    pub fn plain(details: String) -> (r: LDPLError)
        ensures
            r.details == details,
            r.line == 0,
            r.col == 0,
            r.len == 1,
    {
        LDPLError { details, line: 0, col: 0, len: 1 }
    }

    /// The message, prefixed as the compiler prints it.
    pub fn message(&self) -> (r: String)
        ensures
            r@ == "Error: "@ + self.details@,
    {
        let mut out = String::new();
        out.append("Error: ");
        out.append(self.details.as_str());
        out
    }
}

} // verus!
