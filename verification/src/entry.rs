//! Records of the central directory, one per member of the archive.

use vstd::prelude::*;
use vstd::slice::slice_subrange;
use vstd::slice::slice_to_vec;
use crate::error::ZipError;
use crate::wire::get_u16;
use crate::wire::get_u32;
use crate::wire::get_u64;
use crate::wire::le_u16;
use crate::wire::le_u32;
use crate::wire::le_u64;

verus! {

/// The four bytes `PK\x01\x02` that open every record of the central directory.
pub const CENTRAL_SIGNATURE: u32 = 0x0201_4b50u32;

/// Length of the fixed part of a central directory record.
pub const CENTRAL_FIXED_LEN: u64 = 46u64;

/// The 32-bit value that stands for "look in the ZIP64 extra field".
pub const SENTINEL_32: u32 = 0xFFFF_FFFFu32;

/// Identifier of the ZIP64 block among the extra fields.
pub const ZIP64_FIELD: u16 = 1u16;

/// Bit of the general-purpose flags that says the sizes and the checksum
/// follow the data instead of standing in the local header.
pub const FLAG_DATA_DESCRIPTOR: u16 = 8u16;

/// The fixed part of a central directory record, field by field.
#[derive(Clone, Copy, Debug, PartialEq, Eq, Structural)]
pub struct CentralHeader {
    pub version_made_by: u16,
    pub version_needed: u16,
    pub flags: u16,
    pub method: u16,
    pub modified_time: u16,
    pub modified_date: u16,
    pub crc32: u32,
    pub compressed_size: u32,
    pub uncompressed_size: u32,
    pub name_len: u16,
    pub extra_len: u16,
    pub comment_len: u16,
    pub disk_start: u16,
    pub internal_attributes: u16,
    pub external_attributes: u32,
    pub header_offset: u32,
}

/// One member of the archive as its central directory record describes it,
/// with sizes and offset already widened to 64 bits.
#[derive(Clone, Debug)]
pub struct ZipEntry {
    pub name: Vec<u8>,
    pub extra: Vec<u8>,
    pub comment: Vec<u8>,
    pub version_made_by: u16,
    pub version_needed: u16,
    pub flags: u16,
    pub method: u16,
    pub modified_time: u16,
    pub modified_date: u16,
    pub crc32: u32,
    pub compressed_size: u64,
    pub uncompressed_size: u64,
    pub disk_start: u16,
    pub internal_attributes: u16,
    pub external_attributes: u32,
    pub header_offset: u64,
}

/// The mathematical content of a [`ZipEntry`].
pub struct EntryView {
    pub name: Seq<u8>,
    pub extra: Seq<u8>,
    pub comment: Seq<u8>,
    pub version_made_by: u16,
    pub version_needed: u16,
    pub flags: u16,
    pub method: u16,
    pub modified_time: u16,
    pub modified_date: u16,
    pub crc32: u32,
    pub compressed_size: u64,
    pub uncompressed_size: u64,
    pub disk_start: u16,
    pub internal_attributes: u16,
    pub external_attributes: u32,
    pub header_offset: u64,
}

impl View for ZipEntry {
    type V = EntryView;

    open spec fn view(&self) -> EntryView {
        EntryView {
            name: self.name@,
            extra: self.extra@,
            comment: self.comment@,
            version_made_by: self.version_made_by,
            version_needed: self.version_needed,
            flags: self.flags,
            method: self.method,
            modified_time: self.modified_time,
            modified_date: self.modified_date,
            crc32: self.crc32,
            compressed_size: self.compressed_size,
            uncompressed_size: self.uncompressed_size,
            disk_start: self.disk_start,
            internal_attributes: self.internal_attributes,
            external_attributes: self.external_attributes,
            header_offset: self.header_offset,
        }
    }
}

/// Sizes and offset of an entry after the ZIP64 extra field has been applied.
#[derive(Clone, Copy, Debug, PartialEq, Eq, Structural)]
pub struct Wide {
    pub uncompressed_size: u64,
    pub compressed_size: u64,
    pub header_offset: u64,
}

/// Where the data of the first extra-field block with identifier `id` starts,
/// and how long it is, scanning the blocks of `extra` from position `at`.
/// The scan ends, with nothing found, at the first block that does not fit.
pub open spec fn find_field(extra: Seq<u8>, id: int, at: int) -> Option<(int, int)>
    decreases extra.len() - at,
{
    if at < 0 || at + 4 > extra.len() {
        None
    } else {
        let size = le_u16(extra, at + 2);
        if at + 4 + size > extra.len() {
            None
        } else if le_u16(extra, at) == id {
            Some((at + 4, size))
        } else {
            find_field(extra, id, at + 4 + size)
        }
    }
}

/// How many bytes of the ZIP64 block a 32-bit field claims: eight where it
/// holds the sentinel, none otherwise.
pub open spec fn wide_len(narrow: u32) -> int {
    if narrow == SENTINEL_32 {
        8
    } else {
        0
    }
}

/// The 64-bit sizes and offset that the three 32-bit fields and the extra
/// field stand for.  Without a ZIP64 block the fields mean what they say.
/// With one, every field that holds the sentinel takes the next eight bytes
/// of the block, in the order uncompressed size, compressed size, offset;
/// there is no answer if the block is too short for them.
pub open spec fn widen(extra: Seq<u8>, uncompressed: u32, compressed: u32, offset: u32) -> Option<
    Wide,
> {
    match find_field(extra, ZIP64_FIELD as int, 0) {
        None => Some(
            Wide {
                uncompressed_size: uncompressed as u64,
                compressed_size: compressed as u64,
                header_offset: offset as u64,
            },
        ),
        Some((start, size)) => {
            let a = wide_len(uncompressed);
            let b = wide_len(compressed);
            let c = wide_len(offset);
            if a + b + c > size {
                None
            } else {
                Some(
                    Wide {
                        uncompressed_size: if uncompressed == SENTINEL_32 {
                            le_u64(extra, start) as u64
                        } else {
                            uncompressed as u64
                        },
                        compressed_size: if compressed == SENTINEL_32 {
                            le_u64(extra, start + a) as u64
                        } else {
                            compressed as u64
                        },
                        header_offset: if offset == SENTINEL_32 {
                            le_u64(extra, start + a + b) as u64
                        } else {
                            offset as u64
                        },
                    },
                )
            }
        },
    }
}

/// Finds the first extra-field block with identifier `id`.
pub fn locate_field(extra: &[u8], id: u16) -> (r: Option<(usize, usize)>)
    ensures
        match r {
            Some((start, size)) => find_field(extra@, id as int, 0) == Some(
                (start as int, size as int),
            ),
            None => find_field(extra@, id as int, 0) is None,
        },
        r matches Some((start, size)) ==> start + size <= extra.len(),
{
    let mut at: usize = 0;
    while at <= extra.len() && extra.len() - at >= 4
        invariant
            find_field(extra@, id as int, at as int) == find_field(extra@, id as int, 0),
        decreases extra.len() - at,
    {
        let size: usize = get_u16(extra, at + 2) as usize;
        if size > extra.len() - at - 4 {
            return None;
        }
        if get_u16(extra, at) == id {
            return Some((at + 4, size));
        }
        at = at + 4 + size;
    }
    None
}

/// Applies the ZIP64 extra field to the three 32-bit fields of a header.
pub fn widen_fields(extra: &[u8], uncompressed: u32, compressed: u32, offset: u32) -> (r: Option<
    Wide,
>)
    ensures
        r == widen(extra@, uncompressed, compressed, offset),
{
    match locate_field(extra, ZIP64_FIELD) {
        None => Some(
            Wide {
                uncompressed_size: uncompressed as u64,
                compressed_size: compressed as u64,
                header_offset: offset as u64,
            },
        ),
        Some((start, size)) => {
            let mut need: usize = 0;
            if uncompressed == SENTINEL_32 {
                need = need + 8;
            }
            if compressed == SENTINEL_32 {
                need = need + 8;
            }
            if offset == SENTINEL_32 {
                need = need + 8;
            }
            if need > size {
                return None;
            }
            let mut at: usize = start;
            let mut wide = Wide {
                uncompressed_size: uncompressed as u64,
                compressed_size: compressed as u64,
                header_offset: offset as u64,
            };
            if uncompressed == SENTINEL_32 {
                wide.uncompressed_size = get_u64(extra, at);
                at = at + 8;
            }
            if compressed == SENTINEL_32 {
                wide.compressed_size = get_u64(extra, at);
                at = at + 8;
            }
            if offset == SENTINEL_32 {
                wide.header_offset = get_u64(extra, at);
            }
            Some(wide)
        },
    }
}

/// The fixed part of a record, read field by field from its 46 bytes.
pub open spec fn central_header(fixed: Seq<u8>) -> CentralHeader {
    CentralHeader {
        version_made_by: le_u16(fixed, 4) as u16,
        version_needed: le_u16(fixed, 6) as u16,
        flags: le_u16(fixed, 8) as u16,
        method: le_u16(fixed, 10) as u16,
        modified_time: le_u16(fixed, 12) as u16,
        modified_date: le_u16(fixed, 14) as u16,
        crc32: le_u32(fixed, 16) as u32,
        compressed_size: le_u32(fixed, 20) as u32,
        uncompressed_size: le_u32(fixed, 24) as u32,
        name_len: le_u16(fixed, 28) as u16,
        extra_len: le_u16(fixed, 30) as u16,
        comment_len: le_u16(fixed, 32) as u16,
        disk_start: le_u16(fixed, 34) as u16,
        internal_attributes: le_u16(fixed, 36) as u16,
        external_attributes: le_u32(fixed, 38) as u32,
        header_offset: le_u32(fixed, 42) as u32,
    }
}

/// Whether `fixed` is the fixed part of a central directory record: 46 bytes
/// that open with the record's signature.
pub open spec fn is_central_header(fixed: Seq<u8>) -> bool {
    fixed.len() == CENTRAL_FIXED_LEN && le_u32(fixed, 0) == CENTRAL_SIGNATURE
}

impl CentralHeader {
    /// Length of what follows the fixed part: name, extra field and comment.
    pub open spec fn spec_tail_len(&self) -> int {
        self.name_len + self.extra_len + self.comment_len
    }

    /// Length of what follows the fixed part: name, extra field and comment.
    pub fn tail_len(&self) -> (r: u32)
        ensures
            r == self.spec_tail_len(),
    {
        self.name_len as u32 + self.extra_len as u32 + self.comment_len as u32
    }

    /// The entry that this fixed part and the variable part `tail` describe.
    /// There is none if `tail` has not the length that the fixed part
    /// announces, or if its ZIP64 block is too short.
    pub open spec fn entry(&self, tail: Seq<u8>) -> Option<EntryView> {
        if tail.len() != self.spec_tail_len() {
            None
        } else {
            let extra = tail.subrange(
                self.name_len as int,
                self.name_len + self.extra_len,
            );
            match widen(extra, self.uncompressed_size, self.compressed_size, self.header_offset) {
                None => None,
                Some(wide) => Some(
                    EntryView {
                        name: tail.subrange(0, self.name_len as int),
                        extra,
                        comment: tail.subrange(
                            self.name_len + self.extra_len,
                            self.spec_tail_len(),
                        ),
                        version_made_by: self.version_made_by,
                        version_needed: self.version_needed,
                        flags: self.flags,
                        method: self.method,
                        modified_time: self.modified_time,
                        modified_date: self.modified_date,
                        crc32: self.crc32,
                        compressed_size: wide.compressed_size,
                        uncompressed_size: wide.uncompressed_size,
                        disk_start: self.disk_start,
                        internal_attributes: self.internal_attributes,
                        external_attributes: self.external_attributes,
                        header_offset: wide.header_offset,
                    },
                ),
            }
        }
    }

    /// Reads the fixed part of a central directory record.
    pub fn parse(fixed: &[u8]) -> (r: Result<CentralHeader, ZipError>)
        ensures
            match r {
                Ok(h) => is_central_header(fixed@) && h == central_header(fixed@),
                Err(e) => !is_central_header(fixed@) && e == ZipError::MalformedArchive,
            },
    {
        if fixed.len() != 46 {
            return Err(ZipError::MalformedArchive);
        }
        if get_u32(fixed, 0) != CENTRAL_SIGNATURE {
            return Err(ZipError::MalformedArchive);
        }
        Ok(
            CentralHeader {
                version_made_by: get_u16(fixed, 4),
                version_needed: get_u16(fixed, 6),
                flags: get_u16(fixed, 8),
                method: get_u16(fixed, 10),
                modified_time: get_u16(fixed, 12),
                modified_date: get_u16(fixed, 14),
                crc32: get_u32(fixed, 16),
                compressed_size: get_u32(fixed, 20),
                uncompressed_size: get_u32(fixed, 24),
                name_len: get_u16(fixed, 28),
                extra_len: get_u16(fixed, 30),
                comment_len: get_u16(fixed, 32),
                disk_start: get_u16(fixed, 34),
                internal_attributes: get_u16(fixed, 36),
                external_attributes: get_u32(fixed, 38),
                header_offset: get_u32(fixed, 42),
            },
        )
    }

    /// Completes the record with its variable part.
    pub fn into_entry(self, tail: &[u8]) -> (r: Result<ZipEntry, ZipError>)
        ensures
            match r {
                Ok(entry) => self.entry(tail@) == Some(entry@),
                Err(e) => self.entry(tail@) is None && e == ZipError::MalformedArchive,
            },
    {
        let name_len: usize = self.name_len as usize;
        let extra_len: usize = self.extra_len as usize;
        let comment_len: usize = self.comment_len as usize;
        if tail.len() != name_len + extra_len + comment_len {
            return Err(ZipError::MalformedArchive);
        }
        let extra = slice_subrange(tail, name_len, name_len + extra_len);
        match widen_fields(extra, self.uncompressed_size, self.compressed_size, self.header_offset) {
            None => Err(ZipError::MalformedArchive),
            Some(wide) => Ok(
                ZipEntry {
                    name: slice_to_vec(slice_subrange(tail, 0, name_len)),
                    extra: slice_to_vec(extra),
                    comment: slice_to_vec(
                        slice_subrange(tail, name_len + extra_len, name_len + extra_len + comment_len),
                    ),
                    version_made_by: self.version_made_by,
                    version_needed: self.version_needed,
                    flags: self.flags,
                    method: self.method,
                    modified_time: self.modified_time,
                    modified_date: self.modified_date,
                    crc32: self.crc32,
                    compressed_size: wide.compressed_size,
                    uncompressed_size: wide.uncompressed_size,
                    disk_start: self.disk_start,
                    internal_attributes: self.internal_attributes,
                    external_attributes: self.external_attributes,
                    header_offset: wide.header_offset,
                },
            ),
        }
    }
}

} // verus!
