//! The records at the end of an archive that say where its central directory
//! lies: the end-of-central-directory record and its two ZIP64 companions.

use vstd::prelude::*;
use vstd::slice::slice_subrange;
use vstd::slice::slice_to_vec;
use crate::error::ZipError;
use crate::wire::get_u16;
use crate::wire::get_u32;
use crate::wire::get_u64;
use crate::wire::le_u16;
use crate::wire::le_u32;
use crate::wire::le_u64;

verus! {

/// The four bytes `PK\x05\x06` that open the end-of-central-directory record.
pub const EOCD_SIGNATURE: u32 = 0x0605_4b50u32;

/// Length of the end-of-central-directory record without its comment.
pub const EOCD_LEN: u64 = 22u64;

/// The longest comment that the record can announce.
pub const MAX_COMMENT_LEN: u64 = 65535u64;

/// How much of the end of the source is searched for the record: the record
/// itself and the longest comment.
pub const TAIL_LEN: u64 = 65557u64;

/// The four bytes `PK\x06\x07` that open the ZIP64 locator.
pub const LOCATOR_SIGNATURE: u32 = 0x0706_4b50u32;

/// Length of the ZIP64 locator, which stands directly before the
/// end-of-central-directory record.
pub const LOCATOR_LEN: u64 = 20u64;

/// The four bytes `PK\x06\x06` that open the ZIP64 end-of-central-directory
/// record.
pub const ZIP64_EOCD_SIGNATURE: u32 = 0x0606_4b50u32;

/// Length of the fixed part of the ZIP64 end-of-central-directory record.
pub const ZIP64_EOCD_LEN: u64 = 56u64;

/// Whether the bytes at `p` can be an end-of-central-directory record: the
/// signature stands there and 22 bytes are left.
pub open spec fn is_eocd_at(tail: Seq<u8>, p: int) -> bool {
    0 <= p && p + EOCD_LEN <= tail.len() && le_u32(tail, p) == EOCD_SIGNATURE
}

/// The first position at or before `p`, going backward, at which a record
/// can start.
pub open spec fn scan_back(tail: Seq<u8>, p: int) -> Option<int>
    decreases p + 1,
{
    if p < 0 {
        None
    } else if is_eocd_at(tail, p) {
        Some(p)
    } else {
        scan_back(tail, p - 1)
    }
}

/// Where the end-of-central-directory record starts in `tail`: the last
/// position that carries its signature.
pub open spec fn eocd_position(tail: Seq<u8>) -> Option<int> {
    scan_back(tail, tail.len() - EOCD_LEN)
}

/// The backward scan stops at the greatest candidate at or before `p`, and
/// finds nothing only where there is none.
proof fn lemma_scan_back(tail: Seq<u8>, p: int)
    ensures
        match scan_back(tail, p) {
            Some(found) => found <= p && is_eocd_at(tail, found) && forall|q: int|
                found < q <= p ==> !is_eocd_at(tail, q),
            None => forall|q: int| q <= p ==> !is_eocd_at(tail, q),
        },
    decreases p + 1,
{
    if p >= 0 && !is_eocd_at(tail, p) {
        lemma_scan_back(tail, p - 1);
    }
}

/// Searches `tail` backward for the end-of-central-directory record: the
/// result is the last position at which the record can start, and `None`
/// only if it can start nowhere.
pub fn find_eocd(tail: &[u8]) -> (r: Option<usize>)
    ensures
        match r {
            Some(p) => eocd_position(tail@) == Some(p as int) && is_eocd_at(tail@, p as int)
                && forall|q: int| p < q ==> !is_eocd_at(tail@, q),
            None => eocd_position(tail@) is None && forall|q: int| !is_eocd_at(tail@, q),
        },
        r matches Some(p) ==> p + 22 <= tail.len(),
{
    proof {
        lemma_scan_back(tail@, tail.len() - EOCD_LEN);
    }
    if tail.len() < 22 {
        return None;
    }
    let mut p: usize = tail.len() - 22;
    loop
        invariant
            p + 22 <= tail.len(),
            scan_back(tail@, p as int) == eocd_position(tail@),
        decreases p,
    {
        proof {
            lemma_scan_back(tail@, tail.len() - EOCD_LEN);
        }
        if get_u32(tail, p) == EOCD_SIGNATURE {
            return Some(p);
        }
        if p == 0 {
            assert(scan_back(tail@, -1) is None);
            return None;
        }
        p = p - 1;
    }
}

/// The end-of-central-directory record, field by field.
#[derive(Clone, Copy, Debug, PartialEq, Eq, Structural)]
pub struct EndOfCentralDirectory {
    pub disk_number: u16,
    pub directory_disk: u16,
    pub entries_on_disk: u16,
    pub entries: u16,
    pub directory_size: u32,
    pub directory_offset: u32,
    pub comment_len: u16,
}

/// The record that starts at `p` of `tail`.
pub open spec fn eocd_record(tail: Seq<u8>, p: int) -> EndOfCentralDirectory {
    EndOfCentralDirectory {
        disk_number: le_u16(tail, p + 4) as u16,
        directory_disk: le_u16(tail, p + 6) as u16,
        entries_on_disk: le_u16(tail, p + 8) as u16,
        entries: le_u16(tail, p + 10) as u16,
        directory_size: le_u32(tail, p + 12) as u32,
        directory_offset: le_u32(tail, p + 16) as u32,
        comment_len: le_u16(tail, p + 20) as u16,
    }
}

impl EndOfCentralDirectory {
    /// Whether a field holds the value that stands for "too large for this
    /// record", which sends the reader to the ZIP64 records.
    pub open spec fn spec_needs_zip64(&self) -> bool {
        self.entries == 0xFFFFu16 || self.directory_size == 0xFFFF_FFFFu32
            || self.directory_offset == 0xFFFF_FFFFu32
    }

    /// Whether a field holds the value that stands for "too large for this
    /// record", which sends the reader to the ZIP64 records.
    pub fn needs_zip64(&self) -> (r: bool)
        ensures
            r == self.spec_needs_zip64(),
    {
        self.entries == 0xFFFFu16 || self.directory_size == 0xFFFF_FFFFu32
            || self.directory_offset == 0xFFFF_FFFFu32
    }
}

/// What the end of an archive says: where in the searched bytes the
/// end-of-central-directory record starts, its fields, and the archive's
/// comment.
#[derive(Clone, Debug)]
pub struct Trailer {
    pub position: usize,
    pub record: EndOfCentralDirectory,
    pub comment: Vec<u8>,
}

/// The mathematical content of a [`Trailer`].
pub struct TrailerView {
    pub position: int,
    pub record: EndOfCentralDirectory,
    pub comment: Seq<u8>,
}

impl View for Trailer {
    type V = TrailerView;

    open spec fn view(&self) -> TrailerView {
        TrailerView { position: self.position as int, record: self.record, comment: self.comment@ }
    }
}

/// What the bytes `tail` from the end of an archive say.  There is no answer
/// if no end-of-central-directory record is found in them, or if the comment
/// that the record announces is longer than what follows the record.
pub open spec fn trailer(tail: Seq<u8>) -> Option<TrailerView> {
    match eocd_position(tail) {
        None => None,
        Some(p) => {
            let record = eocd_record(tail, p);
            if p + EOCD_LEN + record.comment_len > tail.len() {
                None
            } else {
                Some(
                    TrailerView {
                        position: p,
                        record,
                        comment: tail.subrange(
                            p + EOCD_LEN as int,
                            p + EOCD_LEN + record.comment_len,
                        ),
                    },
                )
            }
        },
    }
}

/// Finds and reads the end-of-central-directory record in the last bytes of
/// an archive.
pub fn read_trailer(tail: &[u8]) -> (r: Result<Trailer, ZipError>)
    ensures
        match r {
            Ok(t) => trailer(tail@) == Some(t@),
            Err(e) => trailer(tail@) is None && e == ZipError::MalformedArchive,
        },
{
    match find_eocd(tail) {
        None => Err(ZipError::MalformedArchive),
        Some(p) => {
            let record = EndOfCentralDirectory {
                disk_number: get_u16(tail, p + 4),
                directory_disk: get_u16(tail, p + 6),
                entries_on_disk: get_u16(tail, p + 8),
                entries: get_u16(tail, p + 10),
                directory_size: get_u32(tail, p + 12),
                directory_offset: get_u32(tail, p + 16),
                comment_len: get_u16(tail, p + 20),
            };
            let comment_len: usize = record.comment_len as usize;
            if comment_len > tail.len() - p - 22 {
                return Err(ZipError::MalformedArchive);
            }
            let comment = slice_to_vec(slice_subrange(tail, p + 22, p + 22 + comment_len));
            Ok(Trailer { position: p, record, comment })
        },
    }
}

/// The ZIP64 locator: it says where the ZIP64 end-of-central-directory record
/// starts.
#[derive(Clone, Copy, Debug, PartialEq, Eq, Structural)]
pub struct Zip64Locator {
    pub record_disk: u32,
    pub record_offset: u64,
    pub disks: u32,
}

/// Whether `bytes` is a ZIP64 locator: 20 bytes that open with its signature.
pub open spec fn is_locator(bytes: Seq<u8>) -> bool {
    bytes.len() == LOCATOR_LEN && le_u32(bytes, 0) == LOCATOR_SIGNATURE
}

/// The locator that `bytes` holds.
pub open spec fn locator(bytes: Seq<u8>) -> Zip64Locator {
    Zip64Locator {
        record_disk: le_u32(bytes, 4) as u32,
        record_offset: le_u64(bytes, 8) as u64,
        disks: le_u32(bytes, 16) as u32,
    }
}

impl Zip64Locator {
    /// Reads the ZIP64 locator.
    pub fn parse(bytes: &[u8]) -> (r: Result<Zip64Locator, ZipError>)
        ensures
            match r {
                Ok(l) => is_locator(bytes@) && l == locator(bytes@),
                Err(e) => !is_locator(bytes@) && e == ZipError::MalformedArchive,
            },
    {
        if bytes.len() != 20 {
            return Err(ZipError::MalformedArchive);
        }
        if get_u32(bytes, 0) != LOCATOR_SIGNATURE {
            return Err(ZipError::MalformedArchive);
        }
        Ok(
            Zip64Locator {
                record_disk: get_u32(bytes, 4),
                record_offset: get_u64(bytes, 8),
                disks: get_u32(bytes, 16),
            },
        )
    }
}

/// The fixed part of the ZIP64 end-of-central-directory record.
#[derive(Clone, Copy, Debug, PartialEq, Eq, Structural)]
pub struct Zip64Record {
    pub record_size: u64,
    pub version_made_by: u16,
    pub version_needed: u16,
    pub disk_number: u32,
    pub directory_disk: u32,
    pub entries_on_disk: u64,
    pub entries: u64,
    pub directory_size: u64,
    pub directory_offset: u64,
}

/// Whether `bytes` is the fixed part of a ZIP64 end-of-central-directory
/// record: 56 bytes that open with its signature.
pub open spec fn is_zip64_record(bytes: Seq<u8>) -> bool {
    bytes.len() == ZIP64_EOCD_LEN && le_u32(bytes, 0) == ZIP64_EOCD_SIGNATURE
}

/// The record that `bytes` holds.
pub open spec fn zip64_record(bytes: Seq<u8>) -> Zip64Record {
    Zip64Record {
        record_size: le_u64(bytes, 4) as u64,
        version_made_by: le_u16(bytes, 12) as u16,
        version_needed: le_u16(bytes, 14) as u16,
        disk_number: le_u32(bytes, 16) as u32,
        directory_disk: le_u32(bytes, 20) as u32,
        entries_on_disk: le_u64(bytes, 24) as u64,
        entries: le_u64(bytes, 32) as u64,
        directory_size: le_u64(bytes, 40) as u64,
        directory_offset: le_u64(bytes, 48) as u64,
    }
}

impl Zip64Record {
    /// Reads the fixed part of the ZIP64 end-of-central-directory record.
    pub fn parse(bytes: &[u8]) -> (r: Result<Zip64Record, ZipError>)
        ensures
            match r {
                Ok(z) => is_zip64_record(bytes@) && z == zip64_record(bytes@),
                Err(e) => !is_zip64_record(bytes@) && e == ZipError::MalformedArchive,
            },
    {
        if bytes.len() != 56 {
            return Err(ZipError::MalformedArchive);
        }
        if get_u32(bytes, 0) != ZIP64_EOCD_SIGNATURE {
            return Err(ZipError::MalformedArchive);
        }
        Ok(
            Zip64Record {
                record_size: get_u64(bytes, 4),
                version_made_by: get_u16(bytes, 12),
                version_needed: get_u16(bytes, 14),
                disk_number: get_u32(bytes, 16),
                directory_disk: get_u32(bytes, 20),
                entries_on_disk: get_u64(bytes, 24),
                entries: get_u64(bytes, 32),
                directory_size: get_u64(bytes, 40),
                directory_offset: get_u64(bytes, 48),
            },
        )
    }
}

} // verus!
