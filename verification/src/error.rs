//! Why a reading of a host source failed.

use vstd::prelude::*;

verus! {

/// The failures a reader of a host source can report.
#[derive(Debug, Clone, Copy, PartialEq, Eq, Structural)]
pub enum SourceError {
    /// The source is missing or could not be read.
    SourceUnavailable,
    /// The source was read, but its content does not have the expected shape.
    MalformedSource,
}

} // verus!
