//! What an archive's bytes say: the index that opening it must produce.

use vstd::prelude::*;
use crate::entry::central_header;
use crate::entry::is_central_header;
use crate::entry::EntryView;
use crate::entry::CENTRAL_FIXED_LEN;
use crate::error::ZipError;
use crate::file::ArchiveView;
use crate::trailer::is_locator;
use crate::trailer::is_zip64_record;
use crate::trailer::locator;
use crate::trailer::trailer;
use crate::trailer::zip64_record;
use crate::trailer::TrailerView;
use crate::trailer::LOCATOR_LEN;
use crate::trailer::TAIL_LEN;
use crate::trailer::ZIP64_EOCD_LEN;
use crate::wire::window;

verus! {

/// Where the search for the end-of-central-directory record begins in a
/// source of `len` bytes: `TAIL_LEN` bytes before the end, or at the start
/// of a shorter source.
pub open spec fn tail_start(len: int) -> int {
    if len > TAIL_LEN {
        len - TAIL_LEN
    } else {
        0
    }
}

/// The `count` records of the central directory that start at `at`, each
/// directly after the one before.  There is no answer if one of them is cut
/// short, lacks the signature, or has a ZIP64 block too short for it.
pub open spec fn directory(data: Seq<u8>, at: int, count: nat) -> Option<Seq<EntryView>>
    decreases count,
{
    if count == 0 {
        Some(Seq::empty())
    } else {
        let fixed = window(data, at, CENTRAL_FIXED_LEN as int);
        if !is_central_header(fixed) {
            None
        } else {
            let header = central_header(fixed);
            let tail = window(data, at + CENTRAL_FIXED_LEN, header.spec_tail_len());
            match header.entry(tail) {
                None => None,
                Some(first) => match directory(
                    data,
                    at + CENTRAL_FIXED_LEN + header.spec_tail_len(),
                    (count - 1) as nat,
                ) {
                    None => None,
                    Some(rest) => Some(seq![first] + rest),
                },
            }
        }
    }
}

/// The index of an archive whose comment and kind are known, whose first
/// entries are `done`, and whose `left` other records start at `at`.
pub open spec fn from_records(
    data: Seq<u8>,
    comment: Seq<u8>,
    zip64: bool,
    at: int,
    left: nat,
    done: Seq<EntryView>,
) -> Result<ArchiveView, ZipError> {
    match directory(data, at, left) {
        None => Err(ZipError::MalformedArchive),
        Some(rest) => Ok(ArchiveView { entries: done + rest, comment, zip64 }),
    }
}

/// The index of an archive whose ZIP64 end-of-central-directory record
/// starts at `at`.
pub open spec fn from_zip64_record(data: Seq<u8>, comment: Seq<u8>, at: int) -> Result<
    ArchiveView,
    ZipError,
> {
    let bytes = window(data, at, ZIP64_EOCD_LEN as int);
    if !is_zip64_record(bytes) {
        Err(ZipError::MalformedArchive)
    } else {
        let record = zip64_record(bytes);
        from_records(
            data,
            comment,
            true,
            record.directory_offset as int,
            record.entries as nat,
            Seq::empty(),
        )
    }
}

/// The index of an archive whose ZIP64 locator starts at `at`.
pub open spec fn from_locator(data: Seq<u8>, comment: Seq<u8>, at: int) -> Result<
    ArchiveView,
    ZipError,
> {
    let bytes = window(data, at, LOCATOR_LEN as int);
    if !is_locator(bytes) {
        Err(ZipError::MalformedArchive)
    } else {
        from_zip64_record(data, comment, locator(bytes).record_offset as int)
    }
}

/// The index of an archive whose end-of-central-directory record was found
/// as `found` in its last bytes.  Where a field of the record holds the
/// value that stands for "too large", number and place of the entries come
/// from the ZIP64 records, the first of which stands directly before the
/// end-of-central-directory record.
pub open spec fn from_trailer(data: Seq<u8>, found: TrailerView) -> Result<ArchiveView, ZipError> {
    if !found.record.spec_needs_zip64() {
        from_records(
            data,
            found.comment,
            false,
            found.record.directory_offset as int,
            found.record.entries as nat,
            Seq::empty(),
        )
    } else {
        let eocd_at = tail_start(data.len() as int) + found.position;
        if eocd_at < LOCATOR_LEN {
            Err(ZipError::MalformedArchive)
        } else {
            from_locator(data, found.comment, eocd_at - LOCATOR_LEN)
        }
    }
}

/// The end-of-central-directory record that is found in the last bytes of
/// `data`, if there is one.
pub open spec fn found_trailer(data: Seq<u8>) -> Option<TrailerView> {
    trailer(window(data, tail_start(data.len() as int), TAIL_LEN as int))
}

/// Where in `data` the end-of-central-directory record `found` starts.
pub open spec fn eocd_at(data: Seq<u8>, found: TrailerView) -> int {
    tail_start(data.len() as int) + found.position
}

/// Where a central directory starts, how many records it has, and whether
/// this was learned from the ZIP64 records.
pub struct Place {
    pub offset: u64,
    pub count: u64,
    pub zip64: bool,
}

/// Where the central directory of `data` lies according to its
/// end-of-central-directory record `found`, or according to the ZIP64
/// records where `found` sends the reader there.  There is no answer if the
/// ZIP64 records are asked for and are not where they must be.
pub open spec fn directory_place(data: Seq<u8>, found: TrailerView) -> Option<Place> {
    if !found.record.spec_needs_zip64() {
        Some(
            Place {
                offset: found.record.directory_offset as u64,
                count: found.record.entries as u64,
                zip64: false,
            },
        )
    } else if eocd_at(data, found) < LOCATOR_LEN {
        None
    } else {
        let place = window(data, eocd_at(data, found) - LOCATOR_LEN, LOCATOR_LEN as int);
        if !is_locator(place) {
            None
        } else {
            let bytes = window(data, locator(place).record_offset as int, ZIP64_EOCD_LEN as int);
            if !is_zip64_record(bytes) {
                None
            } else {
                Some(
                    Place {
                        offset: zip64_record(bytes).directory_offset,
                        count: zip64_record(bytes).entries,
                        zip64: true,
                    },
                )
            }
        }
    }
}

/// The record of the central directory that starts at `at`: its entry, and
/// where the next record starts.
pub open spec fn record_at(data: Seq<u8>, at: int) -> Option<(EntryView, int)> {
    let fixed = window(data, at, CENTRAL_FIXED_LEN as int);
    if !is_central_header(fixed) {
        None
    } else {
        let header = central_header(fixed);
        let tail = window(data, at + CENTRAL_FIXED_LEN, header.spec_tail_len());
        match header.entry(tail) {
            None => None,
            Some(entry) => Some((entry, at + CENTRAL_FIXED_LEN + header.spec_tail_len())),
        }
    }
}

/// The entries of the first `count` records from `at`, and where the record
/// after them starts.
pub open spec fn walk(data: Seq<u8>, at: int, count: nat) -> Option<(Seq<EntryView>, int)>
    decreases count,
{
    if count == 0 {
        Some((Seq::empty(), at))
    } else {
        match walk(data, at, (count - 1) as nat) {
            None => None,
            Some((done, next)) => match record_at(data, next) {
                None => None,
                Some((entry, after)) => Some((done.push(entry), after)),
            },
        }
    }
}

/// Whether reading the central directory of `data` has come this far: `done`
/// are the entries of its first records, the record after them starts at
/// `at`, and `left` records are still to be read; `comment` and `zip64` are
/// what the end of `data` says.
pub open spec fn on_records(
    data: Seq<u8>,
    comment: Seq<u8>,
    zip64: bool,
    at: int,
    left: nat,
    done: Seq<EntryView>,
) -> bool {
    &&& data.len() <= u64::MAX
    &&& found_trailer(data) matches Some(found)
    &&& comment == found.comment
    &&& directory_place(data, found) matches Some(place)
    &&& zip64 == place.zip64
    &&& done.len() + left == place.count
    &&& walk(data, place.offset as int, done.len()) == Some((done, at))
    &&& archive(data) == from_records(data, comment, zip64, at, left, done)
}

/// The index of the archive `data`, or `MalformedArchive` where the bytes do
/// not hold one.
pub open spec fn archive(data: Seq<u8>) -> Result<ArchiveView, ZipError> {
    match trailer(window(data, tail_start(data.len() as int), TAIL_LEN as int)) {
        None => Err(ZipError::MalformedArchive),
        Some(found) => from_trailer(data, found),
    }
}

/// The index of an archive is that of the records at the place to which its
/// end leads: there is none if no end-of-central-directory record is found
/// or the place is not to be had, and else it holds the entries of the
/// records there, with the comment of the end-of-central-directory record.
pub proof fn lemma_archive_by_place(data: Seq<u8>)
    ensures
        archive(data) == match found_trailer(data) {
            None => Err::<ArchiveView, ZipError>(ZipError::MalformedArchive),
            Some(found) => match directory_place(data, found) {
                None => Err(ZipError::MalformedArchive),
                Some(place) => from_records(
                    data,
                    found.comment,
                    place.zip64,
                    place.offset as int,
                    place.count as nat,
                    Seq::empty(),
                ),
            },
        },
{
}

/// A central directory that can be read has as many entries as were asked
/// for.
pub proof fn lemma_directory_len(data: Seq<u8>, at: int, count: nat)
    ensures
        directory(data, at, count) matches Some(entries) ==> entries.len() == count,
    decreases count,
{
    if count > 0 {
        let fixed = window(data, at, CENTRAL_FIXED_LEN as int);
        if is_central_header(fixed) {
            let header = central_header(fixed);
            lemma_directory_len(
                data,
                at + CENTRAL_FIXED_LEN + header.spec_tail_len(),
                (count - 1) as nat,
            );
        }
    }
}

/// Where the records of a central directory can be read, the index has the
/// entries that were known before, then one entry for each record, and the
/// comment and kind that were known before.
pub proof fn lemma_from_records(
    data: Seq<u8>,
    comment: Seq<u8>,
    zip64: bool,
    at: int,
    left: nat,
    done: Seq<EntryView>,
)
    ensures
        from_records(data, comment, zip64, at, left, done) matches Ok(index) ==> {
            &&& index.entries.len() == done.len() + left
            &&& index.comment == comment
            &&& index.zip64 == zip64
        },
{
    lemma_directory_len(data, at, left);
}

/// The number of entries that the archive `data` announces: the count in
/// its end-of-central-directory record `found`, or the count in its ZIP64
/// end-of-central-directory record where `found` sends the reader there.
pub open spec fn announced_entries(data: Seq<u8>, found: TrailerView) -> nat {
    if !found.record.spec_needs_zip64() {
        found.record.entries as nat
    } else {
        let eocd_at = tail_start(data.len() as int) + found.position;
        let place = window(data, eocd_at - LOCATOR_LEN, LOCATOR_LEN as int);
        let record = window(data, locator(place).record_offset as int, ZIP64_EOCD_LEN as int);
        zip64_record(record).entries as nat
    }
}

/// An archive that can be opened has exactly as many entries as it
/// announces, and the comment of its end-of-central-directory record; its
/// index is marked as ZIP64 exactly where the count came from the ZIP64
/// records.
pub proof fn lemma_entry_count(data: Seq<u8>)
    ensures
        archive(data) matches Ok(index) ==> {
            &&& trailer(window(data, tail_start(data.len() as int), TAIL_LEN as int)) matches Some(
                found,
            )
            &&& index.entries.len() == announced_entries(data, found)
            &&& index.comment == found.comment
            &&& index.zip64 == found.record.spec_needs_zip64()
        },
{
    match trailer(window(data, tail_start(data.len() as int), TAIL_LEN as int)) {
        None => {},
        Some(found) => {
            if !found.record.spec_needs_zip64() {
                lemma_from_records(
                    data,
                    found.comment,
                    false,
                    found.record.directory_offset as int,
                    found.record.entries as nat,
                    Seq::empty(),
                );
            } else {
                let eocd_at = tail_start(data.len() as int) + found.position;
                let place = window(data, eocd_at - LOCATOR_LEN, LOCATOR_LEN as int);
                let bytes = window(
                    data,
                    locator(place).record_offset as int,
                    ZIP64_EOCD_LEN as int,
                );
                let record = zip64_record(bytes);
                lemma_from_records(
                    data,
                    found.comment,
                    true,
                    record.directory_offset as int,
                    record.entries as nat,
                    Seq::empty(),
                );
            }
        },
    }
}

/// An archive whose end-of-central-directory record announces no entries
/// opens, whatever else it holds, and its index is empty.
pub proof fn lemma_empty_archive(data: Seq<u8>)
    requires
        trailer(window(data, tail_start(data.len() as int), TAIL_LEN as int)) matches Some(found)
            && found.record.entries == 0 && !found.record.spec_needs_zip64(),
    ensures
        archive(data) matches Ok(index) && index.entries.len() == 0 && !index.zip64,
{
    assert(Seq::<EntryView>::empty() + Seq::<EntryView>::empty() =~= Seq::<EntryView>::empty());
}

} // verus!
