//! The local header that stands before an entry's data, and its comparison
//! with the entry's record in the central directory.

use vstd::prelude::*;
use vstd::slice::slice_subrange;
use crate::entry::widen;
use crate::entry::widen_fields;
use crate::entry::EntryView;
use crate::entry::ZipEntry;
use crate::entry::FLAG_DATA_DESCRIPTOR;
use crate::error::ZipError;
use crate::exchange::Reply;
use crate::exchange::Request;
use crate::stream::EntryStream;
use crate::wire::get_u16;
use crate::wire::get_u32;
use crate::wire::le_u16;
use crate::wire::le_u32;
use crate::wire::window;

verus! {

/// The four bytes `PK\x03\x04` that open every local header.
pub const LOCAL_SIGNATURE: u32 = 0x0403_4b50u32;

/// Length of the fixed part of a local header.
pub const LOCAL_FIXED_LEN: u64 = 30u64;

/// The fixed part of a local header, field by field.
#[derive(Clone, Copy, Debug, PartialEq, Eq, Structural)]
pub struct LocalHeader {
    pub version_needed: u16,
    pub flags: u16,
    pub method: u16,
    pub modified_time: u16,
    pub modified_date: u16,
    pub crc32: u32,
    pub compressed_size: u32,
    pub uncompressed_size: u32,
    pub name_len: u16,
    pub extra_len: u16,
}

/// Whether `fixed` is the fixed part of a local header: 30 bytes that open
/// with the header's signature.
pub open spec fn is_local_header(fixed: Seq<u8>) -> bool {
    fixed.len() == LOCAL_FIXED_LEN && le_u32(fixed, 0) == LOCAL_SIGNATURE
}

/// The header that `fixed` holds.
pub open spec fn local_header(fixed: Seq<u8>) -> LocalHeader {
    LocalHeader {
        version_needed: le_u16(fixed, 4) as u16,
        flags: le_u16(fixed, 6) as u16,
        method: le_u16(fixed, 8) as u16,
        modified_time: le_u16(fixed, 10) as u16,
        modified_date: le_u16(fixed, 12) as u16,
        crc32: le_u32(fixed, 14) as u32,
        compressed_size: le_u32(fixed, 18) as u32,
        uncompressed_size: le_u32(fixed, 22) as u32,
        name_len: le_u16(fixed, 26) as u16,
        extra_len: le_u16(fixed, 28) as u16,
    }
}

/// Whether two runs of bytes are the same.
pub fn same_bytes(a: &[u8], b: &[u8]) -> (r: bool)
    ensures
        r == (a@ == b@),
{
    if a.len() != b.len() {
        return false;
    }
    let mut i: usize = 0;
    while i < a.len()
        invariant
            i <= a.len(),
            a.len() == b.len(),
            forall|j: int| 0 <= j < i ==> a@[j] == b@[j],
        decreases a.len() - i,
    {
        if a[i] != b[i] {
            return false;
        }
        i = i + 1;
    }
    proof {
        assert(a@ =~= b@);
    }
    true
}

impl LocalHeader {
    /// Length of what follows the fixed part: name and extra field.
    pub open spec fn spec_tail_len(&self) -> int {
        self.name_len + self.extra_len
    }

    /// Length of what follows the fixed part: name and extra field.
    pub fn tail_len(&self) -> (r: u32)
        ensures
            r == self.spec_tail_len(),
    {
        self.name_len as u32 + self.extra_len as u32
    }

    /// Whether the header leaves sizes and checksum to a descriptor that
    /// follows the data.
    pub open spec fn spec_sizes_deferred(&self) -> bool {
        self.flags & FLAG_DATA_DESCRIPTOR != 0
    }

    /// Whether the header leaves sizes and checksum to a descriptor that
    /// follows the data.
    pub fn sizes_deferred(&self) -> (r: bool)
        ensures
            r == self.spec_sizes_deferred(),
    {
        self.flags & FLAG_DATA_DESCRIPTOR != 0
    }

    /// Whether this header, with the variable part `tail`, agrees with the
    /// central directory record `entry`: the variable part is complete, name
    /// and compression method are the same, and so are the two sizes, widened
    /// by the header's own ZIP64 block, unless the header leaves the sizes to
    /// a data descriptor.
    pub open spec fn agrees(&self, entry: EntryView, tail: Seq<u8>) -> bool {
        &&& tail.len() == self.spec_tail_len()
        &&& tail.subrange(0, self.name_len as int) == entry.name
        &&& self.method == entry.method
        &&& (self.spec_sizes_deferred() || (widen(
            tail.subrange(self.name_len as int, self.spec_tail_len()),
            self.uncompressed_size,
            self.compressed_size,
            0,
        ) matches Some(wide) && wide.compressed_size == entry.compressed_size
            && wide.uncompressed_size == entry.uncompressed_size))
    }

    /// Reads the fixed part of a local header.
    pub fn parse(fixed: &[u8]) -> (r: Result<LocalHeader, ZipError>)
        ensures
            match r {
                Ok(h) => is_local_header(fixed@) && h == local_header(fixed@),
                Err(e) => !is_local_header(fixed@) && e == ZipError::HeaderMismatch,
            },
    {
        if fixed.len() != 30 {
            return Err(ZipError::HeaderMismatch);
        }
        if get_u32(fixed, 0) != LOCAL_SIGNATURE {
            return Err(ZipError::HeaderMismatch);
        }
        Ok(
            LocalHeader {
                version_needed: get_u16(fixed, 4),
                flags: get_u16(fixed, 6),
                method: get_u16(fixed, 8),
                modified_time: get_u16(fixed, 10),
                modified_date: get_u16(fixed, 12),
                crc32: get_u32(fixed, 14),
                compressed_size: get_u32(fixed, 18),
                uncompressed_size: get_u32(fixed, 22),
                name_len: get_u16(fixed, 26),
                extra_len: get_u16(fixed, 28),
            },
        )
    }

    /// Holds the header against the entry's record in the central directory.
    pub fn check(&self, entry: &ZipEntry, tail: &[u8]) -> (r: Result<(), ZipError>)
        ensures
            r is Ok <==> self.agrees(entry@, tail@),
            r matches Err(e) ==> e == ZipError::HeaderMismatch,
    {
        let name_len: usize = self.name_len as usize;
        let extra_len: usize = self.extra_len as usize;
        if tail.len() != name_len + extra_len {
            return Err(ZipError::HeaderMismatch);
        }
        if !same_bytes(slice_subrange(tail, 0, name_len), entry.name.as_slice()) {
            return Err(ZipError::HeaderMismatch);
        }
        if self.method != entry.method {
            return Err(ZipError::HeaderMismatch);
        }
        if self.sizes_deferred() {
            return Ok(());
        }
        let extra = slice_subrange(tail, name_len, name_len + extra_len);
        match widen_fields(extra, self.uncompressed_size, self.compressed_size, 0) {
            None => Err(ZipError::HeaderMismatch),
            Some(wide) => {
                if wide.compressed_size == entry.compressed_size && wide.uncompressed_size
                    == entry.uncompressed_size {
                    Ok(())
                } else {
                    Err(ZipError::HeaderMismatch)
                }
            },
        }
    }
}

/// Where the compressed bytes of `entry` start in the archive `data`:
/// directly after the entry's local header.  It is a `HeaderMismatch` if no
/// complete local header stands where the central directory says, or if the
/// header does not agree with `entry`.
pub open spec fn payload_start(data: Seq<u8>, entry: EntryView) -> Result<u64, ZipError> {
    let fixed = window(data, entry.header_offset as int, LOCAL_FIXED_LEN as int);
    if !is_local_header(fixed) {
        Err(ZipError::HeaderMismatch)
    } else {
        let header = local_header(fixed);
        let tail = window(data, entry.header_offset + LOCAL_FIXED_LEN, header.spec_tail_len());
        if !header.agrees(entry, tail) {
            Err(ZipError::HeaderMismatch)
        } else {
            Ok((entry.header_offset + LOCAL_FIXED_LEN + header.spec_tail_len()) as u64)
        }
    }
}

/// The compressed bytes of an entry that start at `start`: as many as the
/// central directory says, or as many as the archive has from there.
pub open spec fn payload(data: Seq<u8>, start: u64, entry: EntryView) -> Seq<u8> {
    window(data, start as int, entry.compressed_size as int)
}

/// How far the opening of one entry has come.
pub enum EntryOpener<'a> {
    /// The local header's fixed part is to be read.
    Header { entry: &'a ZipEntry },
    /// The fixed part has been read as `header`; the variable part starts at
    /// `at`.
    Body { entry: &'a ZipEntry, header: LocalHeader, at: u64 },
    /// The local header agrees with the central directory; the entry's
    /// stream is ready.
    Ready(EntryStream),
    /// The entry cannot be opened, for the reason given.
    Failed(ZipError),
}

impl<'a> EntryOpener<'a> {
    /// Whether the opening has come to its end, well or badly.
    pub open spec fn finished(&self) -> bool {
        self is Ready || self is Failed
    }

    /// What the opener needs next from the source.
    pub open spec fn pending(&self) -> Request {
        match self {
            EntryOpener::Header { entry } => Request::Read {
                offset: entry.header_offset,
                len: 30,
            },
            EntryOpener::Body { header, at, .. } => Request::Read {
                offset: *at,
                len: header.spec_tail_len() as usize,
            },
            EntryOpener::Ready(_) => Request::Done,
            EntryOpener::Failed(_) => Request::Done,
        }
    }

    /// A bound on the number of requests that are still to come.
    pub open spec fn steps_left(&self) -> nat {
        match self {
            EntryOpener::Header { .. } => 2,
            EntryOpener::Body { .. } => 1,
            EntryOpener::Ready(_) => 0,
            EntryOpener::Failed(_) => 0,
        }
    }

    /// Whether this is a state that opening `entry` in the archive `data`
    /// passes through when every request is answered from `data`.
    pub closed spec fn follows(&self, data: Seq<u8>, entry: EntryView) -> bool {
        &&& data.len() <= u64::MAX
        &&& match self {
            EntryOpener::Header { entry: of } => of@ == entry,
            EntryOpener::Body { entry: of, header, at } => {
                let fixed = window(data, entry.header_offset as int, LOCAL_FIXED_LEN as int);
                &&& of@ == entry
                &&& is_local_header(fixed)
                &&& *header == local_header(fixed)
                &&& *at == entry.header_offset + LOCAL_FIXED_LEN
            },
            EntryOpener::Ready(stream) => {
                &&& payload_start(data, entry) == Ok::<u64, ZipError>(stream.spec_start())
                &&& stream.fresh(entry)
            },
            EntryOpener::Failed(e) => payload_start(data, entry) == Err::<u64, ZipError>(*e),
        }
    }

    /// An opener that has come to its end on the way through `data` holds a
    /// fresh stream that starts where the entry's compressed bytes do, or the
    /// reason why the entry cannot be opened.
    pub proof fn lemma_outcome(self, data: Seq<u8>, entry: EntryView)
        requires
            self.follows(data, entry),
        ensures
            self matches EntryOpener::Failed(e) ==> payload_start(data, entry) == Err::<
                u64,
                ZipError,
            >(e),
            self matches EntryOpener::Ready(stream) ==> {
                &&& payload_start(data, entry) == Ok::<u64, ZipError>(stream.spec_start())
                &&& stream.fresh(entry)
            },
    {
    }

    /// Starts the opening of `entry`.
    pub fn new(entry: &'a ZipEntry) -> (r: EntryOpener<'a>)
        ensures
            r == (EntryOpener::Header { entry }),
            forall|data: Seq<u8>| data.len() <= u64::MAX ==> #[trigger] r.follows(data, entry@),
    {
        EntryOpener::Header { entry }
    }

    /// Whether the opening has come to its end, well or badly.
    pub fn is_finished(&self) -> (r: bool)
        ensures
            r == self.finished(),
    {
        match self {
            EntryOpener::Ready(_) => true,
            EntryOpener::Failed(_) => true,
            _ => false,
        }
    }

    /// What the opener needs next from the source.
    pub fn request(&self) -> (r: Request)
        ensures
            r == self.pending(),
    {
        match self {
            EntryOpener::Header { entry } => Request::Read { offset: entry.header_offset, len: 30 },
            EntryOpener::Body { header, at, .. } => Request::Read {
                offset: *at,
                len: header.tail_len() as usize,
            },
            EntryOpener::Ready(_) => Request::Done,
            EntryOpener::Failed(_) => Request::Done,
        }
    }

    /// Takes the source's reply to the pending request and moves on.
    ///
    /// A reply that reports a failure of the source ends the opening with
    /// that failure.  Every other reply brings the opener closer to its end;
    /// and where the reply is what a source holding `data` gives, an opener
    /// on the way through `data` stays on that way.
    pub fn advance(self, reply: Reply) -> (r: EntryOpener<'a>)
        ensures
            self.finished() ==> r == self,
            !self.finished() ==> r.steps_left() < self.steps_left(),
            !self.finished() ==> (reply matches Reply::Failed(operation) ==> r
                == EntryOpener::<'a>::Failed(
                ZipError::Io { operation, offset: self.pending().spec_offset() },
            )),
            !self.finished() ==> (r matches EntryOpener::Ready(stream) ==> reply matches Reply::Data(
                bytes,
            ) && stream.spec_start() == self.pending().spec_offset() + bytes@.len()),
            !(r is Header),
            r matches EntryOpener::Body { entry, at, .. } ==> self matches EntryOpener::Header {
                entry: of,
            } && of == entry && at == entry.header_offset + 30,
            forall|data: Seq<u8>, entry: EntryView| #[trigger]
                self.follows(data, entry) && reply.answers(self.pending(), data) ==> r.follows(
                    data,
                    entry,
                ),
    {
        match self {
            EntryOpener::Ready(stream) => EntryOpener::Ready(stream),
            EntryOpener::Failed(e) => EntryOpener::Failed(e),
            other => match reply {
                Reply::Failed(operation) => EntryOpener::Failed(
                    ZipError::Io { operation, offset: other.request().offset() },
                ),
                Reply::Length(_) => EntryOpener::Failed(ZipError::HeaderMismatch),
                Reply::Data(bytes) => match other {
                    EntryOpener::Header { entry } => match LocalHeader::parse(bytes.as_slice()) {
                        Err(e) => EntryOpener::Failed(e),
                        Ok(header) => match entry.header_offset.checked_add(30) {
                            None => EntryOpener::Failed(ZipError::HeaderMismatch),
                            Some(at) => EntryOpener::Body { entry, header, at },
                        },
                    },
                    EntryOpener::Body { entry, header, at } => match header.check(
                        entry,
                        bytes.as_slice(),
                    ) {
                        Err(e) => EntryOpener::Failed(e),
                        Ok(()) => match at.checked_add(header.tail_len() as u64) {
                            None => EntryOpener::Failed(ZipError::HeaderMismatch),
                            Some(start) => EntryOpener::Ready(EntryStream::new(entry, start)),
                        },
                    },
                    _ => EntryOpener::Failed(ZipError::HeaderMismatch),
                },
            },
        }
    }

    /// The result of the opening, if it has come to its end.
    pub fn finish(self) -> (r: Option<Result<EntryStream, ZipError>>)
        ensures
            match self {
                EntryOpener::Ready(stream) => r == Some(Ok::<EntryStream, ZipError>(stream)),
                EntryOpener::Failed(e) => r == Some(Err::<EntryStream, ZipError>(e)),
                _ => r is None,
            },
    {
        match self {
            EntryOpener::Ready(stream) => Some(Ok(stream)),
            EntryOpener::Failed(e) => Some(Err(e)),
            _ => None,
        }
    }
}

} // verus!
