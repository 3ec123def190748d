//! The error taxonomy: three fatal kinds that abort the whole run, and one
//! recoverable per-item kind that is recorded in the run report.

use vstd::prelude::*;

verus! {

/// A fatal error: each kind aborts the run before any (further) downloads.
#[derive(Debug)]
pub enum FatalError {
    /// The required credential is missing or empty; raised before any
    /// network activity.
    Configuration { cause: String },
    /// The listing call failed: transport error, non-success status, parse
    /// failure, or a listing that reported failure; raised before any
    /// downloads.
    CatalogFetch { cause: String },
    /// The output directory could not be created; raised before any
    /// downloads.
    Directory { cause: String },
}

/// A recoverable per-item failure: the entry's name and a human-readable
/// cause. Recorded in the run report; never aborts the run.
#[derive(Debug)]
pub struct ItemFailure {
    pub name: String,
    pub cause: String,
}

impl FatalError {
    /// The human-readable message for this error, naming the failing stage.
    pub open spec fn message_spec(self) -> Seq<char> {
        match self {
            FatalError::Configuration { cause } => "configuration error: "@ + cause@,
            FatalError::CatalogFetch { cause } => "catalog fetch error: "@ + cause@,
            FatalError::Directory { cause } => "directory error: "@ + cause@,
        }
    }

    /// Render the error as a message that identifies the failing stage.
    pub fn message(&self) -> (r: String)
        ensures
            r@ == self.message_spec(),
    {
        match self {
            FatalError::Configuration { cause } => {
                let mut r = String::from_str("configuration error: ");
                r.append(cause.as_str());
                r
            },
            FatalError::CatalogFetch { cause } => {
                let mut r = String::from_str("catalog fetch error: ");
                r.append(cause.as_str());
                r
            },
            FatalError::Directory { cause } => {
                let mut r = String::from_str("directory error: ");
                r.append(cause.as_str());
                r
            },
        }
    }
}

} // verus!
