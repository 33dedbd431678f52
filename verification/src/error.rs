//! The fatal failures of a conversion. Everything else is downgraded to a
//! per-action failure sentinel and never aborts the pipeline.

use vstd::prelude::*;

verus! {

/// A conversion aborts with one of these; no partial output is produced.
#[derive(Debug, Clone, Copy, PartialEq, Eq, Structural)]
pub enum ConvertError {
    /// The event sequence holds no full-snapshot event.
    MissingSnapshot,
    /// The raw input could not be materialized into an event sequence.
    MalformedInput,
}

/// The diagnostic text of each failure.
pub open spec fn spec_error_message(e: ConvertError) -> Seq<char> {
    match e {
        ConvertError::MissingSnapshot => "Error: No initial full snapshot (type 2) event found in recording."@,
        ConvertError::MalformedInput => "Error: Malformed recording input."@,
    }
}

impl ConvertError {
    /// The diagnostic text of this failure.
    pub fn message(&self) -> (r: &'static str)
        ensures
            r@ == spec_error_message(*self),
    {
        match self {
            ConvertError::MissingSnapshot => "Error: No initial full snapshot (type 2) event found in recording.",
            ConvertError::MalformedInput => "Error: Malformed recording input.",
        }
    }
}

} // verus!
