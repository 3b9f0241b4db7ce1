//! The closed set of domain errors and their stable status codes.

use vstd::prelude::*;
use vstd::std_specs::convert::FromSpecImpl;

verus! {

/// Everything that can go wrong in the database front end.
///
/// The set of variants is closed: every consumer matches on all three and
/// has no fallback arm, so a new kind of error breaks each of them at
/// compile time.
pub enum ErrorTaxonomy {
    /// A mutating operation was attempted on a read-only resource.
    ReadOnlyViolation,
    /// An underlying I/O operation failed; the payload is the platform's
    /// message for the failure.
    IOFailure(String),
    /// The stored data is damaged; the payload describes what was found.
    CorruptionDetected(String),
}

impl ErrorTaxonomy {
    /// The status code that the foreign side sees for this error.
    ///
    /// The assignment is permanent: 1 for a read-only violation, 2 for an
    /// I/O failure, 3 for detected corruption.
    pub open spec fn code(self) -> int {
        match self {
            ErrorTaxonomy::ReadOnlyViolation => 1,
            ErrorTaxonomy::IOFailure(_) => 2,
            ErrorTaxonomy::CorruptionDetected(_) => 3,
        }
    }

    /// True when `self` and `other` are the same kind of error, whatever
    /// their payloads.
    pub open spec fn same_kind(self, other: ErrorTaxonomy) -> bool {
        match (self, other) {
            (ErrorTaxonomy::ReadOnlyViolation, ErrorTaxonomy::ReadOnlyViolation) => true,
            (ErrorTaxonomy::IOFailure(_), ErrorTaxonomy::IOFailure(_)) => true,
            (ErrorTaxonomy::CorruptionDetected(_), ErrorTaxonomy::CorruptionDetected(_)) => true,
            _ => false,
        }
    }

    /// Maps the error to its status code. Total and pure: the result
    /// depends on the variant alone.
    pub fn status_code(&self) -> (code: i32)
        ensures
            code == self.code(),
    {
        match self {
            ErrorTaxonomy::ReadOnlyViolation => 1,
            ErrorTaxonomy::IOFailure(_) => 2,
            ErrorTaxonomy::CorruptionDetected(_) => 3,
        }
    }
}

impl From<ErrorTaxonomy> for i32 {
    /// Gives up the error for its status code.
    fn from(error: ErrorTaxonomy) -> (code: i32) {
        error.status_code()
    }
}

impl FromSpecImpl<ErrorTaxonomy> for i32 {
    open spec fn obeys_from_spec() -> bool {
        true
    }

    open spec fn from_spec(error: ErrorTaxonomy) -> i32 {
        error.code() as i32
    }
}

/// The codes are fixed and tell the kinds apart: every error has one of the
/// three published codes, the payload has no part in it, and two errors
/// share a code exactly when they are of the same kind. Asking again for
/// the code of the same error therefore gives the same answer.
pub proof fn lemma_codes_are_fixed(a: ErrorTaxonomy, b: ErrorTaxonomy)
    ensures
        a is ReadOnlyViolation <==> a.code() == 1,
        a is IOFailure <==> a.code() == 2,
        a is CorruptionDetected <==> a.code() == 3,
        a.code() == b.code() <==> a.same_kind(b),
        a == b ==> a.code() == b.code(),
{
}

} // verus!
