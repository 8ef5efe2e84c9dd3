//! The index of an archive: what its central directory lists, in order.

use vstd::prelude::*;
use crate::entry::EntryView;
use crate::entry::ZipEntry;
use crate::error::ZipError;

verus! {

/// Everything that was read from an archive's central directory when it was
/// opened.  The position of an entry in `entries` is its index.
#[derive(Clone, Debug)]
pub struct ZipFile {
    pub entries: Vec<ZipEntry>,
    pub comment: Vec<u8>,
    pub zip64: bool,
}

/// The mathematical content of a [`ZipFile`].
pub struct ArchiveView {
    pub entries: Seq<EntryView>,
    pub comment: Seq<u8>,
    pub zip64: bool,
}

/// The contents of the entries of `entries`, in the same order.
pub open spec fn entry_views(entries: Seq<ZipEntry>) -> Seq<EntryView> {
    Seq::new(entries.len(), |i: int| entries[i]@)
}

impl View for ZipFile {
    type V = ArchiveView;

    open spec fn view(&self) -> ArchiveView {
        ArchiveView {
            entries: entry_views(self.entries@),
            comment: self.comment@,
            zip64: self.zip64,
        }
    }
}

impl ZipFile {
    /// How many entries the archive has.
    pub fn entry_count(&self) -> (n: usize)
        ensures
            n == self@.entries.len(),
    {
        self.entries.len()
    }

    /// The entry at `index`, or `IndexOutOfBounds` if the archive has no such
    /// entry.
    pub fn entry(&self, index: usize) -> (r: Result<&ZipEntry, ZipError>)
        ensures
            match r {
                Ok(e) => index < self@.entries.len() && e@ == self@.entries[index as int],
                Err(e) => index >= self@.entries.len() && e == ZipError::IndexOutOfBounds,
            },
    {
        if index < self.entries.len() {
            Ok(&self.entries[index])
        } else {
            Err(ZipError::IndexOutOfBounds)
        }
    }

    /// The archive's entries, in the order of the central directory.
    pub fn entries(&self) -> (r: &[ZipEntry])
        ensures
            entry_views(r@) == self@.entries,
    {
        self.entries.as_slice()
    }

    /// The comment at the end of the archive.
    pub fn comment(&self) -> (r: &[u8])
        ensures
            r@ == self@.comment,
    {
        self.comment.as_slice()
    }

    /// Whether the central directory was found through the ZIP64 records.
    pub fn zip64(&self) -> (r: bool)
        ensures
            r == self@.zip64,
    {
        self.zip64
    }
}

} // verus!
