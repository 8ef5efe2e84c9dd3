//! The failures that reading an archive can report.

use vstd::prelude::*;

verus! {

/// What was being asked of the source when it failed.
#[derive(Clone, Copy, Debug, PartialEq, Eq, Structural)]
pub enum IoOperation {
    /// Asking for the total length of the source.
    Length,
    /// Moving to an absolute offset.
    Seek,
    /// Reading bytes at an offset.
    Read,
}

/// Why an archive, or one entry of it, could not be read.
#[derive(Clone, Copy, Debug, PartialEq, Eq, Structural)]
pub enum ZipError {
    /// The end-of-central-directory record or the central directory is
    /// missing, cut short or not what the format prescribes.
    MalformedArchive,
    /// The local header of an entry is missing or disagrees with the entry's
    /// record in the central directory.
    HeaderMismatch,
    /// The bytes that came out of an entry do not have the checksum that the
    /// central directory records for it.
    IntegrityError,
    /// There is no entry with the index that was asked for.
    IndexOutOfBounds,
    /// The source failed; `offset` is where `operation` was attempted.
    Io { operation: IoOperation, offset: u64 },
}

} // verus!
