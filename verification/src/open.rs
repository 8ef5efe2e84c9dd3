//! Opening an archive, one request to the source at a time.
//!
//! An [`Opener`] names what it needs next from the source and takes what
//! came back; it never touches a source itself.  Whoever holds the source
//! serves the requests until the opener has the archive's index or the
//! reason why there is none.

use vstd::prelude::*;
use crate::archive::archive;
use crate::archive::directory;
use crate::archive::directory_place;
use crate::archive::eocd_at;
use crate::archive::found_trailer;
use crate::archive::on_records;
use crate::archive::record_at;
use crate::archive::walk;
use crate::archive::from_records;
use crate::archive::tail_start;
use crate::entry::central_header;
use crate::entry::is_central_header;
use crate::entry::CentralHeader;
use crate::entry::ZipEntry;
use crate::entry::CENTRAL_FIXED_LEN;
use crate::error::ZipError;
use crate::exchange::Reply;
use crate::exchange::Request;
use crate::file::entry_views;
use crate::file::ArchiveView;
use crate::file::ZipFile;
use crate::trailer::is_locator;
use crate::trailer::locator;
use crate::trailer::read_trailer;
use crate::trailer::Trailer;
use crate::trailer::Zip64Locator;
use crate::trailer::Zip64Record;
use crate::trailer::LOCATOR_LEN;
use crate::trailer::TAIL_LEN;
use crate::wire::window;

verus! {

/// How far the opening of an archive has come.
#[derive(Debug)]
pub enum Opener {
    /// Nothing is known yet; the length of the source comes first.
    Length,
    /// The source has `len` bytes; its last ones are searched for the
    /// end-of-central-directory record.
    Tail { len: u64 },
    /// The record pointed to the ZIP64 records; the locator starts at `at`.
    Locator { comment: Vec<u8>, at: u64 },
    /// The locator pointed to the ZIP64 end-of-central-directory record at
    /// `at`.
    Record { comment: Vec<u8>, at: u64 },
    /// `entries` have been read; `left` more records follow, the next one
    /// starting at `at`.
    Header { comment: Vec<u8>, zip64: bool, at: u64, left: u64, entries: Vec<ZipEntry> },
    /// The fixed part of a record has been read as `header`; the record's
    /// variable part starts at `at`.  `left` counts this record too.
    Body {
        comment: Vec<u8>,
        zip64: bool,
        at: u64,
        left: u64,
        entries: Vec<ZipEntry>,
        header: CentralHeader,
    },
    /// The archive's index is complete.
    Done(ZipFile),
    /// There is no index, for the reason given.
    Failed(ZipError),
}

impl Opener {
    /// Whether the opening has come to its end, well or badly.
    pub open spec fn finished(&self) -> bool {
        self is Done || self is Failed
    }

    /// What the opener needs next from the source.
    pub open spec fn pending(&self) -> Request {
        match self {
            Opener::Length => Request::Length,
            Opener::Tail { len } => Request::Read {
                offset: tail_start(*len as int) as u64,
                len: TAIL_LEN as usize,
            },
            Opener::Locator { at, .. } => Request::Read { offset: *at, len: 20 },
            Opener::Record { at, .. } => Request::Read { offset: *at, len: 56 },
            Opener::Header { at, .. } => Request::Read { offset: *at, len: 46 },
            Opener::Body { at, header, .. } => Request::Read {
                offset: *at,
                len: header.spec_tail_len() as usize,
            },
            Opener::Done(_) => Request::Done,
            Opener::Failed(_) => Request::Done,
        }
    }

    /// A bound on the number of requests that are still to come.
    pub open spec fn steps_left(&self) -> nat {
        match self {
            Opener::Length => 0x2_0000_0000_0000_0005,
            Opener::Tail { .. } => 0x2_0000_0000_0000_0004,
            Opener::Locator { .. } => 0x2_0000_0000_0000_0003,
            Opener::Record { .. } => 0x2_0000_0000_0000_0002,
            Opener::Header { left, .. } => (2 * *left + 2) as nat,
            Opener::Body { left, .. } => (2 * *left + 1) as nat,
            Opener::Done(_) => 0,
            Opener::Failed(_) => 0,
        }
    }

    /// Whether this is a state that opening the archive `data` passes
    /// through when every request is answered from `data`: what has been
    /// gathered so far is what `data` holds, the next request is at the place
    /// to which the bytes of `data` lead, and what is still to be read leads
    /// to the index of `data`, or to the reason why it has none.
    pub closed spec fn follows(&self, data: Seq<u8>) -> bool {
        match self {
            Opener::Length => true,
            Opener::Tail { len } => *len == data.len(),
            Opener::Locator { comment, at } => {
                &&& data.len() <= u64::MAX
                &&& found_trailer(data) matches Some(found)
                &&& found.record.spec_needs_zip64()
                &&& comment@ == found.comment
                &&& *at + LOCATOR_LEN == eocd_at(data, found)
            },
            Opener::Record { comment, at } => {
                &&& data.len() <= u64::MAX
                &&& found_trailer(data) matches Some(found)
                &&& found.record.spec_needs_zip64()
                &&& comment@ == found.comment
                &&& eocd_at(data, found) >= LOCATOR_LEN
                &&& is_locator(window(data, eocd_at(data, found) - LOCATOR_LEN, LOCATOR_LEN as int))
                &&& *at == locator(
                    window(data, eocd_at(data, found) - LOCATOR_LEN, LOCATOR_LEN as int),
                ).record_offset
            },
            Opener::Header { comment, zip64, at, left, entries } => {
                &&& *left >= 1
                &&& on_records(
                    data,
                    comment@,
                    *zip64,
                    *at as int,
                    *left as nat,
                    entry_views(entries@),
                )
            },
            Opener::Body { comment, zip64, at, left, entries, header } => {
                let fixed = window(data, *at - CENTRAL_FIXED_LEN, CENTRAL_FIXED_LEN as int);
                &&& *left >= 1
                &&& *at >= CENTRAL_FIXED_LEN
                &&& is_central_header(fixed)
                &&& *header == central_header(fixed)
                &&& on_records(
                    data,
                    comment@,
                    *zip64,
                    *at - CENTRAL_FIXED_LEN,
                    *left as nat,
                    entry_views(entries@),
                )
            },
            Opener::Done(file) => archive(data) == Ok::<ArchiveView, ZipError>(file@),
            Opener::Failed(e) => archive(data) == Err::<ArchiveView, ZipError>(*e),
        }
    }

    /// An opener that has come to its end on the way through `data` holds
    /// the index of `data`, or the reason why `data` has none.
    pub proof fn lemma_outcome(self, data: Seq<u8>)
        requires
            self.follows(data),
        ensures
            self matches Opener::Done(file) ==> archive(data) == Ok::<ArchiveView, ZipError>(
                file@,
            ),
            self matches Opener::Failed(e) ==> archive(data) == Err::<ArchiveView, ZipError>(e),
    {
    }

    /// Starts the opening of an archive.
    pub fn new() -> (r: Opener)
        ensures
            r == Opener::Length,
            forall|data: Seq<u8>| #[trigger] r.follows(data),
    {
        Opener::Length
    }

    /// Whether the opening has come to its end, well or badly.
    pub fn is_finished(&self) -> (r: bool)
        ensures
            r == self.finished(),
    {
        match self {
            Opener::Done(_) => true,
            Opener::Failed(_) => true,
            _ => false,
        }
    }

    /// What the opener needs next from the source.
    pub fn request(&self) -> (r: Request)
        ensures
            r == self.pending(),
    {
        match self {
            Opener::Length => Request::Length,
            Opener::Tail { len } => {
                let offset: u64 = if *len > TAIL_LEN {
                    *len - TAIL_LEN
                } else {
                    0
                };
                Request::Read { offset, len: TAIL_LEN as usize }
            },
            Opener::Locator { at, .. } => Request::Read { offset: *at, len: 20 },
            Opener::Record { at, .. } => Request::Read { offset: *at, len: 56 },
            Opener::Header { at, .. } => Request::Read { offset: *at, len: 46 },
            Opener::Body { at, header, .. } => Request::Read {
                offset: *at,
                len: header.tail_len() as usize,
            },
            Opener::Done(_) => Request::Done,
            Opener::Failed(_) => Request::Done,
        }
    }

    /// Takes the source's reply to the pending request and moves on.
    ///
    /// A reply that reports a failure of the source ends the opening with
    /// that failure.  Every other reply brings the opener closer to its end;
    /// and where the reply is what a source holding `data` gives, an opener
    /// on the way through `data` stays on that way.
    pub fn advance(self, reply: Reply) -> (r: Opener)
        ensures
            self.finished() ==> r == self,
            !self.finished() ==> r.steps_left() < self.steps_left(),
            !self.finished() ==> (reply matches Reply::Failed(operation) ==> r == Opener::Failed(
                ZipError::Io { operation, offset: self.pending().spec_offset() },
            )),
            forall|data: Seq<u8>| #[trigger]
                self.follows(data) && reply.answers(self.pending(), data) ==> r.follows(data),
    {
        match self {
            Opener::Done(file) => Opener::Done(file),
            Opener::Failed(e) => Opener::Failed(e),
            other => match reply {
                Reply::Failed(operation) => Opener::Failed(
                    ZipError::Io { operation, offset: other.request().offset() },
                ),
                Reply::Length(n) => match other {
                    Opener::Length => Opener::Tail { len: n },
                    _ => Opener::Failed(ZipError::MalformedArchive),
                },
                Reply::Data(bytes) => match other {
                    Opener::Tail { len } => after_tail(len, bytes),
                    Opener::Locator { comment, at } => after_locator(comment, at, bytes),
                    Opener::Record { comment, at } => after_record(comment, at, bytes),
                    Opener::Header { comment, zip64, at, left, entries } => after_header(
                        comment,
                        zip64,
                        at,
                        left,
                        entries,
                        bytes,
                    ),
                    Opener::Body { comment, zip64, at, left, entries, header } => after_body(
                        comment,
                        zip64,
                        at,
                        left,
                        entries,
                        header,
                        bytes,
                    ),
                    _ => Opener::Failed(ZipError::MalformedArchive),
                },
            },
        }
    }

    /// The result of the opening, if it has come to its end.
    pub fn finish(self) -> (r: Option<Result<ZipFile, ZipError>>)
        ensures
            match self {
                Opener::Done(file) => r == Some(Ok::<ZipFile, ZipError>(file)),
                Opener::Failed(e) => r == Some(Err::<ZipFile, ZipError>(e)),
                _ => r is None,
            },
    {
        match self {
            Opener::Done(file) => Some(Ok(file)),
            Opener::Failed(e) => Some(Err(e)),
            _ => None,
        }
    }
}

/// Whether `error` is a failure of the source at one of the requests that
/// opening the archive `data` makes.
pub open spec fn failed_on_the_way(error: ZipError, data: Seq<u8>) -> bool {
    exists|at: Opener| #[trigger] at.follows(data) && !at.finished() && at.pending().fails_as(error)
}

fn next_record(comment: Vec<u8>, zip64: bool, at: u64, left: u64, entries: Vec<ZipEntry>) -> (r:
    Opener)
    ensures
        r.steps_left() <= 2 * left + 2,
        forall|data: Seq<u8>|
            on_records(data, comment@, zip64, at as int, left as nat, entry_views(entries@))
                ==> #[trigger] r.follows(data),
{
    if left == 0 {
        let ghost done = entry_views(entries@);
        let file = ZipFile { entries, comment, zip64 };
        proof {
            assert(done + Seq::<crate::entry::EntryView>::empty() =~= done);
        }
        Opener::Done(file)
    } else {
        Opener::Header { comment, zip64, at, left, entries }
    }
}

fn after_tail(len: u64, tail: Vec<u8>) -> (r: Opener)
    ensures
        r.steps_left() <= 0x2_0000_0000_0000_0003,
        forall|data: Seq<u8>|
            data.len() == len && tail@ == window(data, tail_start(len as int), TAIL_LEN as int)
                ==> #[trigger] r.follows(data),
{
    match read_trailer(tail.as_slice()) {
        Err(_) => Opener::Failed(ZipError::MalformedArchive),
        Ok(found) => {
            let Trailer { position, record, comment } = found;
            if !record.needs_zip64() {
                let entries: Vec<ZipEntry> = Vec::new();
                proof {
                    assert(entry_views(entries@) =~= Seq::empty());
                }
                next_record(
                    comment,
                    false,
                    record.directory_offset as u64,
                    record.entries as u64,
                    entries,
                )
            } else {
                let start: u64 = if len > TAIL_LEN {
                    len - TAIL_LEN
                } else {
                    0
                };
                match start.checked_add(position as u64) {
                    None => Opener::Failed(ZipError::MalformedArchive),
                    Some(eocd_at) => {
                        if eocd_at < 20 {
                            Opener::Failed(ZipError::MalformedArchive)
                        } else {
                            Opener::Locator { comment, at: eocd_at - 20 }
                        }
                    },
                }
            }
        },
    }
}

fn after_locator(comment: Vec<u8>, at: u64, bytes: Vec<u8>) -> (r: Opener)
    ensures
        r.steps_left() <= 0x2_0000_0000_0000_0002,
        forall|data: Seq<u8>|
            (Opener::Locator { comment, at }).follows(data) && bytes@ == window(data, at as int, 20)
                ==> #[trigger] r.follows(data),
{
    match Zip64Locator::parse(bytes.as_slice()) {
        Err(_) => Opener::Failed(ZipError::MalformedArchive),
        Ok(found) => Opener::Record { comment, at: found.record_offset },
    }
}

fn after_record(comment: Vec<u8>, at: u64, bytes: Vec<u8>) -> (r: Opener)
    ensures
        r.steps_left() < 0x2_0000_0000_0000_0002,
        forall|data: Seq<u8>|
            (Opener::Record { comment, at }).follows(data) && bytes@ == window(data, at as int, 56)
                ==> #[trigger] r.follows(data),
{
    match Zip64Record::parse(bytes.as_slice()) {
        Err(_) => Opener::Failed(ZipError::MalformedArchive),
        Ok(record) => {
            let entries: Vec<ZipEntry> = Vec::new();
            proof {
                assert(entry_views(entries@) =~= Seq::empty());
            }
            next_record(comment, true, record.directory_offset, record.entries, entries)
        },
    }
}

fn after_header(
    comment: Vec<u8>,
    zip64: bool,
    at: u64,
    left: u64,
    entries: Vec<ZipEntry>,
    bytes: Vec<u8>,
) -> (r: Opener)
    ensures
        r.steps_left() < 2 * left + 2,
        forall|data: Seq<u8>|
            (Opener::Header { comment, zip64, at, left, entries }).follows(data) && bytes@
                == window(data, at as int, 46) ==> #[trigger] r.follows(data),
{
    match CentralHeader::parse(bytes.as_slice()) {
        Err(_) => Opener::Failed(ZipError::MalformedArchive),
        Ok(header) => match at.checked_add(46) {
            None => Opener::Failed(ZipError::MalformedArchive),
            Some(body_at) => Opener::Body { comment, zip64, at: body_at, left, entries, header },
        },
    }
}

fn after_body(
    comment: Vec<u8>,
    zip64: bool,
    at: u64,
    left: u64,
    entries: Vec<ZipEntry>,
    header: CentralHeader,
    bytes: Vec<u8>,
) -> (r: Opener)
    ensures
        r.steps_left() < 2 * left + 1,
        forall|data: Seq<u8>|
            (Opener::Body { comment, zip64, at, left, entries, header }).follows(data) && bytes@
                == window(data, at as int, header.spec_tail_len()) ==> #[trigger] r.follows(data),
{
    let ghost done = entry_views(entries@);
    let ghost note = comment@;
    let mut list = entries;
    match header.into_entry(bytes.as_slice()) {
        Err(_) => Opener::Failed(ZipError::MalformedArchive),
        Ok(entry) => {
            let ghost first = entry@;
            list.push(entry);
            proof {
                assert(entry_views(list@) =~= done.push(first));
            }
            match at.checked_add(header.tail_len() as u64) {
                None => Opener::Failed(ZipError::MalformedArchive),
                Some(next) => {
                    if left == 0 {
                        Opener::Failed(ZipError::MalformedArchive)
                    } else {
                        let r = next_record(comment, zip64, next, left - 1, list);
                        proof {
                            assert forall|data: Seq<u8>|
                                at >= CENTRAL_FIXED_LEN && is_central_header(
                                    window(data, at - CENTRAL_FIXED_LEN, CENTRAL_FIXED_LEN as int),
                                ) && header == central_header(
                                    window(data, at - CENTRAL_FIXED_LEN, CENTRAL_FIXED_LEN as int),
                                ) && bytes@ == window(data, at as int, header.spec_tail_len())
                                    && on_records(
                                    data,
                                    note,
                                    zip64,
                                    at - CENTRAL_FIXED_LEN,
                                    left as nat,
                                    done,
                                ) implies #[trigger] r.follows(data) by {
                                let rest = directory(data, next as int, (left - 1) as nat);
                                if rest is Some {
                                    assert(done + (seq![first] + rest.unwrap()) =~= done.push(first)
                                        + rest.unwrap());
                                }
                                assert(archive(data) == from_records(
                                    data,
                                    note,
                                    zip64,
                                    next as int,
                                    (left - 1) as nat,
                                    done.push(first),
                                ));
                                let place = directory_place(data, found_trailer(data)->0)->0;
                                assert(record_at(data, at - CENTRAL_FIXED_LEN) == Some(
                                    (first, next as int),
                                ));
                                assert(walk(data, place.offset as int, (done.len() + 1) as nat)
                                    == Some((done.push(first), next as int)));
                                assert(on_records(
                                    data,
                                    note,
                                    zip64,
                                    next as int,
                                    (left - 1) as nat,
                                    done.push(first),
                                ));
                            }
                        }
                        r
                    }
                },
            }
        },
    }
}

} // verus!
