use vstd::prelude::*;

verus! {

/// The ways in which building an archive can fail.
#[derive(Debug, Clone, Copy, PartialEq, Eq, Structural)]
pub enum ArchiveError {
    /// An input path does not exist.
    NotFound,
    /// An input path exists but cannot be inspected.
    PermissionDenied,
    /// A directory could not be read while it was being traversed.
    WalkError,
    /// An entry path is empty, absolute, or holds a `.`/`..` or malformed segment.
    InvalidPath,
    /// An entry path was already used in this archive.
    DuplicateEntry,
    /// Streaming bytes into the container or finalizing it failed.
    WriteFailure,
    /// The writer was used after it was finished, or with no entry open.
    ClosedWriter,
}

} // verus!
