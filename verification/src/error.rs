//! The error taxonomy of the archive engine.

use vstd::prelude::*;

verus! {

/// Why an archive operation failed.
///
/// Every fallible operation of this crate reports one of these conditions;
/// the caller maps them onto its own exit codes or messages.
#[derive(Clone, Copy, Debug, PartialEq, Eq)]
pub enum ArchiveError {
    /// A read or remove was requested on an archive that does not exist.
    NotFound,
    /// A read, write or rename on the underlying filesystem failed.
    Io,
    /// A path could not be represented in the expected text encoding, or
    /// lacked a usable final segment.
    DataEncoding,
    /// The scratch area for staging a rewrite could not be allocated.
    ScratchUnavailable,
    /// The caller-supplied archive path is not usable: it lacks an
    /// extension, or names an unsupported container type.
    Usage,
}

impl ArchiveError {
    /// A short human-readable description of the condition.
    pub fn message(&self) -> (r: &'static str)
        ensures
            r@ == self.message_spec(),
    {
        match self {
            ArchiveError::NotFound => "the archive does not exist",
            ArchiveError::Io => "an input / output operation failed",
            ArchiveError::DataEncoding => "a path could not be encoded",
            ArchiveError::ScratchUnavailable => "no scratch space is available",
            ArchiveError::Usage => "the archive path is not usable",
        }
    }

    /// What `message` returns for each condition.
    pub open spec fn message_spec(self) -> Seq<char> {
        match self {
            ArchiveError::NotFound => "the archive does not exist"@,
            ArchiveError::Io => "an input / output operation failed"@,
            ArchiveError::DataEncoding => "a path could not be encoded"@,
            ArchiveError::ScratchUnavailable => "no scratch space is available"@,
            ArchiveError::Usage => "the archive path is not usable"@,
        }
    }
}

} // verus!
