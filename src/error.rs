//! The single failure type that every operation reports through.

use vstd::prelude::*;

verus! {

/// What kind of failure occurred.
#[derive(Clone, Debug, PartialEq, Eq)]
pub enum ErrorKind {
    /// A file read or write failed; holds the system's message.
    InternalIoError(String),
    /// Any other failure.
    GenericError,
}

/// A failure: its kind, a short description, and an optional detail.
#[derive(Clone, Debug)]
pub struct ThecaError {
    pub kind: ErrorKind,
    pub desc: String,
    pub detail: Option<String>,
}

impl ThecaError {
    /// Holds when the error is a generic one with description `d` and no detail.
    pub open spec fn is_generic(&self, d: Seq<char>) -> bool {
        &&& self.kind == ErrorKind::GenericError
        &&& self.desc@ == d
        &&& self.detail is None
    }

    /// A generic error with the given description and no detail.
    pub fn generic(desc: String) -> (r: ThecaError)
        ensures
            r.is_generic(desc@),
    {
        ThecaError { kind: ErrorKind::GenericError, desc, detail: None }
    }
}

} // verus!
