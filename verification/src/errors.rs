use vstd::prelude::*;
use vstd::string::StringExecFns;

verus! {

/// The error kinds a repository or domain operation can produce.
///
/// `Validation` is raised at construction time, before any storage access;
/// `NotFound` means no circle row exists for a requested id; `DataIntegrity`
/// means the member rows of a circle are inconsistent with its owner pointer
/// (a partially written aggregate); `Store` means the store itself could not
/// carry out an operation (here: the id space is exhausted).
#[derive(Clone, Copy, Debug, PartialEq, Eq, Structural)]
pub enum Error {
    Validation,
    NotFound,
    DataIntegrity,
    Store,
}

impl Error {
    /// The message shown to a caller for this error kind.
    pub open spec fn spec_message(self) -> Seq<char> {
        match self {
            Error::Validation => "Validation error"@,
            Error::NotFound => "Circle not found"@,
            Error::DataIntegrity => "Owner not found"@,
            Error::Store => "Store error"@,
        }
    }

    /// Renders the message a caller (for instance an HTTP layer) reports.
    pub fn message(&self) -> (r: String)
        ensures
            r@ == self.spec_message(),
    {
        match self {
            Error::Validation => String::from_str("Validation error"),
            Error::NotFound => String::from_str("Circle not found"),
            Error::DataIntegrity => String::from_str("Owner not found"),
            Error::Store => String::from_str("Store error"),
        }
    }
}

} // verus!
