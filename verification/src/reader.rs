//! A ZIP reader which acts over a seekable source.

use vstd::prelude::*;
use crate::archive::archive;
use crate::codec::decoded;
use crate::codec::decompress;
use crate::codec::Codec;
use crate::codec::DEFLATED;
use crate::codec::STORED;
use crate::crc32::crc32;
use crate::entry::ZipEntry;
use crate::error::IoOperation;
use crate::error::ZipError;
use crate::local::payload_start;
use crate::local::EntryOpener;
use crate::stream::EntryStream;
use crate::stream::Flow;
use crate::stream::CHUNK_LEN;
use crate::wire::window;
use crate::file::ArchiveView;
use crate::file::ZipFile;
use crate::open::failed_on_the_way;
use crate::open::Opener;
use crate::source::serve;
use crate::source::SeekableSource;

verus! {

/// A ZIP reader which acts over a seekable source.
///
/// It holds the source and the index that was read from it, or handed over
/// with it.  The index never changes; the source is lent to one entry reader
/// at a time.
#[derive(Clone)]
pub struct ZipFileReader<R> {
    reader: R,
    file: ZipFile,
}

impl<R> ZipFileReader<R> {
    /// The source that the reader holds.
    pub closed spec fn source(&self) -> R {
        self.reader
    }

    /// The index that the reader holds.
    pub closed spec fn index(&self) -> ArchiveView {
        self.file@
    }

    /// Constructs a ZIP reader from a seekable source and ZIP file
    /// information derived from that source.
    ///
    /// Providing a [`ZipFile`] that wasn't derived from that source may lead
    /// to inaccurate parsing.
    pub fn from_raw_parts(reader: R, file: ZipFile) -> (r: ZipFileReader<R>)
        ensures
            r.source() == reader,
            r.index() == file@,
    {
        ZipFileReader { reader, file }
    }

    /// Returns this ZIP file's information.
    pub fn file(&self) -> (r: &ZipFile)
        ensures
            r@ == self.index(),
    {
        &self.file
    }

    /// Returns a mutable reference to the inner seekable source.
    ///
    /// Swapping the source (eg. via std::mem operations) may lead to
    /// inaccurate parsing.
    pub fn inner_mut(&mut self) -> (r: &mut R)
        ensures
            *r == old(self).source(),
            final(self).source() == *final(r),
            final(self).index() == old(self).index(),
    {
        &mut self.reader
    }

    /// Returns the inner seekable source by consuming self.
    pub fn into_inner(self) -> (r: R)
        ensures
            r == self.source(),
    {
        self.reader
    }
}

impl<R: SeekableSource> ZipFileReader<R> {
    /// Constructs a new ZIP reader from a seekable source.
    ///
    /// The result is the index of the bytes that the source holds, or the
    /// reason why they have none; a failure of the source can come in between
    /// only if the source is not reliable, and is reported with the request
    /// at which it came.
    pub fn new(reader: R) -> (r: Result<ZipFileReader<R>, ZipError>)
        ensures
            match r {
                Ok(zip) => archive(reader.contents()) == Ok::<ArchiveView, ZipError>(zip.index())
                    && zip.source().contents() == reader.contents() && zip.source().reliable()
                    == reader.reliable(),
                Err(e) => if e is Io {
                    !reader.reliable() && failed_on_the_way(e, reader.contents())
                } else {
                    archive(reader.contents()) == Err::<ArchiveView, ZipError>(e)
                },
            },
    {
        let mut reader = reader;
        let ghost data = reader.contents();
        let ghost reliable = reader.reliable();
        let mut opener = Opener::new();
        let mut faulted: bool = false;
        while !faulted && !opener.is_finished()
            invariant
                reader.contents() == data,
                reader.reliable() == reliable,
                faulted ==> !reliable && opener is Failed && opener->Failed_0 is Io
                    && failed_on_the_way(opener->Failed_0, data),
                !faulted ==> opener.follows(data),
            decreases opener.steps_left(),
        {
            let ghost before = opener;
            let reply = serve(&mut reader, opener.request());
            let failed: bool = reply.is_failed();
            opener = opener.advance(reply);
            faulted = failed;
            proof {
                if failed {
                    assert(before.follows(data) && !before.finished() && before.pending().fails_as(
                        opener->Failed_0,
                    ));
                }
            }
        }
        proof {
            if !faulted {
                opener.lemma_outcome(data);
            }
        }
        match opener.finish() {
            Some(Ok(file)) => Ok(ZipFileReader { reader, file }),
            Some(Err(e)) => Err(e),
            None => Err(ZipError::MalformedArchive),
        }
    }

    /// What opening the entry at `index` comes to: the offset at which the
    /// entry's compressed bytes start, `IndexOutOfBounds` where the index
    /// names no entry, or `HeaderMismatch` where the entry's local header is
    /// not what the index says.  It depends on the index and on the bytes of
    /// the source, and on nothing that was read before.
    pub open spec fn opens(&self, index: int) -> Result<u64, ZipError> {
        if 0 <= index < self.index().entries.len() {
            payload_start(self.source().contents(), self.index().entries[index])
        } else {
            Err(ZipError::IndexOutOfBounds)
        }
    }

    /// Returns a new entry reader if the provided index is valid.
    ///
    /// The reader borrows the source, which stands at the start of the
    /// entry's compressed bytes.  An index that names no entry is refused
    /// before the source is touched.
    pub fn entry(&mut self, index: usize) -> (r: Result<ZipEntryReader<'_, R>, ZipError>)
        ensures
            final(self).index() == old(self).index(),
            match r {
                Ok(reader) => {
                    &&& old(self).opens(index as int) == Ok::<u64, ZipError>(
                        reader.stream.spec_start(),
                    )
                    &&& reader.stream.fresh(old(self).index().entries[index as int])
                    &&& reader.codec is Stored <==> reader.stream.spec_method() == STORED
                    &&& reader.codec is Deflate <==> reader.stream.spec_method() == DEFLATED
                    &&& reader.source matches Handle::Borrowed(lent)
                    &&& lent.contents() == old(self).source().contents()
                    &&& lent.reliable() == old(self).source().reliable()
                    &&& lent.position() == reader.stream.spec_start()
                    &&& final(self).source() == *final(lent)
                },
                Err(e) => {
                    &&& final(self).source().contents() == old(self).source().contents()
                    &&& final(self).source().reliable() == old(self).source().reliable()
                    &&& index >= old(self).index().entries.len() ==> final(self).source() == old(self).source()
                    &&& if e is Io {
                        &&& !old(self).source().reliable()
                        &&& index < old(self).index().entries.len()
                        &&& failed_at_header(
                            e,
                            old(self).index().entries[index as int].header_offset,
                        )
                    } else {
                        old(self).opens(index as int) == Err::<u64, ZipError>(e)
                    }
                },
            },
    {
        let entry = match self.file.entry(index) {
            Ok(entry) => entry,
            Err(e) => {
                return Err(e);
            },
        };
        match open_entry(&mut self.reader, entry) {
            Err(e) => Err(e),
            Ok(stream) => {
                let codec = Codec::for_method(stream.method());
                Ok(ZipEntryReader { source: Handle::Borrowed(&mut self.reader), stream, codec })
            },
        }
    }

    /// Returns a new entry reader if the provided index is valid.
    /// Consumes self
    pub fn into_entry<'a>(self, index: usize) -> (r: Result<ZipEntryReader<'a, R>, ZipError>)
        where
            R: 'a,
        ensures
            match r {
                Ok(reader) => {
                    &&& self.opens(index as int) == Ok::<u64, ZipError>(reader.stream.spec_start())
                    &&& reader.stream.fresh(self.index().entries[index as int])
                    &&& reader.codec is Stored <==> reader.stream.spec_method() == STORED
                    &&& reader.codec is Deflate <==> reader.stream.spec_method() == DEFLATED
                    &&& reader.source matches Handle::Owned(held)
                    &&& held.contents() == self.source().contents()
                    &&& held.reliable() == self.source().reliable()
                    &&& held.position() == reader.stream.spec_start()
                },
                Err(e) => if e is Io {
                    &&& !self.source().reliable()
                    &&& index < self.index().entries.len()
                    &&& failed_at_header(e, self.index().entries[index as int].header_offset)
                } else {
                    self.opens(index as int) == Err::<u64, ZipError>(e)
                },
            },
    {
        let ZipFileReader { reader, file } = self;
        let mut reader = reader;
        let entry = match file.entry(index) {
            Ok(entry) => entry,
            Err(e) => {
                return Err(e);
            },
        };
        match open_entry(&mut reader, entry) {
            Err(e) => Err(e),
            Ok(stream) => {
                let codec = Codec::for_method(stream.method());
                Ok(ZipEntryReader { source: Handle::Owned(reader), stream, codec })
            },
        }
    }

    /// What opening an entry comes to does not change with what was opened
    /// or read before: two readers with the same index over the same bytes
    /// open every entry alike, wherever their sources stand.
    pub proof fn lemma_opens_alike(self, other: Self, index: int)
        requires
            self.index() == other.index(),
            self.source().contents() == other.source().contents(),
        ensures
            self.opens(index) == other.opens(index),
    {
    }

    /// A reader has as many entries as its index, and no entry beyond them
    /// can be opened.
    pub proof fn lemma_opens_in_bounds(self, index: int)
        ensures
            self.opens(index) == Err::<u64, ZipError>(ZipError::IndexOutOfBounds) <==> !(0 <= index
                < self.index().entries.len()),
    {
    }
}

/// Whether `error` is a failure of the source on the way to the local header
/// at `header_offset`: in seeking or reading, at the header's fixed part or
/// at what follows it.
pub open spec fn failed_at_header(error: ZipError, header_offset: u64) -> bool {
    &&& error matches ZipError::Io { operation, offset }
    &&& operation == IoOperation::Seek || operation == IoOperation::Read
    &&& offset == header_offset || offset == header_offset + 30
}

/// Opens `entry` on `source`: reads the entry's local header, holds it
/// against `entry`, and leaves the source at the start of the entry's
/// compressed bytes.
pub fn open_entry<R: SeekableSource>(source: &mut R, entry: &ZipEntry) -> (r: Result<
    EntryStream,
    ZipError,
>)
    ensures
        final(source).contents() == old(source).contents(),
        final(source).reliable() == old(source).reliable(),
        match r {
            Ok(stream) => {
                &&& payload_start(old(source).contents(), entry@) == Ok::<u64, ZipError>(
                    stream.spec_start(),
                )
                &&& stream.fresh(entry@)
                &&& final(source).position() == stream.spec_start()
            },
            Err(e) => if e is Io {
                !old(source).reliable() && failed_at_header(e, entry.header_offset)
            } else {
                payload_start(old(source).contents(), entry@) == Err::<u64, ZipError>(e)
            },
        },
{
    let ghost data = source.contents();
    let ghost reliable = source.reliable();
    proof {
        source.lemma_bounded();
    }
    let mut opener = EntryOpener::new(entry);
    let mut faulted: bool = false;
    while !faulted && !opener.is_finished()
        invariant
            source.contents() == data,
            source.reliable() == reliable,
            faulted ==> !reliable && opener is Failed && opener->Failed_0 is Io
                && failed_at_header(opener->Failed_0, entry.header_offset),
            !faulted ==> opener.follows(data, entry@),
            !faulted ==> (opener matches EntryOpener::Ready(stream) ==> source.position()
                == stream.spec_start()),
            opener matches EntryOpener::Header { entry: of } ==> of.header_offset
                == entry.header_offset,
            opener matches EntryOpener::Body { at, .. } ==> at == entry.header_offset + 30,
        decreases opener.steps_left(),
    {
        let reply = serve(source, opener.request());
        let failed: bool = reply.is_failed();
        opener = opener.advance(reply);
        faulted = failed;
    }
    proof {
        if !faulted {
            opener.lemma_outcome(data, entry@);
        }
    }
    match opener.finish() {
        Some(Ok(stream)) => Ok(stream),
        Some(Err(e)) => Err(e),
        None => Err(ZipError::HeaderMismatch),
    }
}

/// The source as an entry reader holds it: its own, or lent by the reader
/// that the entry was opened on.
pub enum Handle<'a, R> {
    Owned(R),
    Borrowed(&'a mut R),
}

impl<'a, R: SeekableSource> Handle<'a, R> {
    /// The source as it is now.
    pub open spec fn current(&self) -> R {
        match self {
            Handle::Owned(source) => *source,
            Handle::Borrowed(source) => **source,
        }
    }

    /// Reads the next `max` bytes of the source, as [`SeekableSource::read`]
    /// does.  A lent source stays the same loan.
    pub fn read(&mut self, max: usize) -> (r: Option<Vec<u8>>)
        ensures
            final(self).current().contents() == old(self).current().contents(),
            final(self).current().reliable() == old(self).current().reliable(),
            old(self).current().reliable() ==> r is Some,
            r matches Some(bytes) ==> bytes@ == window(
                old(self).current().contents(),
                old(self).current().position() as int,
                max as int,
            ) && final(self).current().position() == old(self).current().position() + bytes@.len(),
            match (*final(self), *old(self)) {
                (Handle::Owned(_), Handle::Owned(_)) => true,
                (Handle::Borrowed(after), Handle::Borrowed(before)) => *final(after) == *final(before),
                _ => false,
            },
    {
        match self {
            Handle::Owned(source) => source.read(max),
            Handle::Borrowed(source) => source.read(max),
        }
    }
}

/// A reader of one entry of an archive.
///
/// It holds the source for as long as it lives, and reads the entry from
/// where the source stands: its contents piece by piece or all at once, or
/// its compressed bytes as they are.
pub struct ZipEntryReader<'a, R> {
    pub source: Handle<'a, R>,
    pub stream: EntryStream,
    pub codec: Codec,
}

/// What reading an entry piece by piece goes by: the codec, how far the
/// stream has come, and where the source stands.
pub struct Reading {
    pub codec: Codec,
    pub flow: Flow,
    pub position: int,
}

/// One round of decompression on the archive `data`, with room for `room`
/// bytes: where it leaves the reading, and what it gives out.
///
/// Nothing happens where the stream is finished or there is no room.  Else
/// the compressed bytes that the stream wants are read where the source
/// stands, the codec takes one step on the bytes that wait then, and the
/// stream takes note of what the step came to.
pub open spec fn after_pump(at: Reading, method: u16, data: Seq<u8>, room: usize) -> (
    Reading,
    Seq<u8>,
) {
    if at.flow.finished || room == 0 {
        (at, Seq::empty())
    } else {
        let asked = at.flow.wants();
        let fetched = window(data, at.position, asked as int);
        let fed = if asked > 0 {
            at.flow.supplied(asked, fetched)
        } else {
            at.flow
        };
        let step = at.codec.outcome(fed.pending, room);
        (
            Reading {
                codec: at.codec.after(fed.pending, room),
                flow: fed.absorbed(method, step, room),
                position: at.position + fetched.len(),
            },
            step.1,
        )
    }
}

/// What holding the output of a finished stream against the central
/// directory comes to: the end of the contents if the compressed bytes were
/// all there and the output has the checksum `expected`, an `IntegrityError`
/// if not.
pub open spec fn end_of(flow: Flow, expected: u32) -> Result<Seq<u8>, ZipError> {
    if !flow.cut_short && crc32(flow.output) == expected {
        Ok(Seq::empty())
    } else {
        Err(ZipError::IntegrityError)
    }
}

/// Reading at most `max` bytes of an entry's contents on the archive `data`:
/// where it leaves the reading, and what it comes to.
///
/// Rounds are taken until one gives bytes, which are the result, or the
/// stream is finished, and the result is the end of the contents or an
/// `IntegrityError`.  No round is taken where no bytes are asked for.
pub open spec fn after_read(at: Reading, method: u16, expected: u32, data: Seq<u8>, max: usize) -> (
    Reading,
    Result<Seq<u8>, ZipError>,
)
    decreases at.flow.rounds_left(),
{
    if max == 0 {
        (at, Ok(Seq::empty()))
    } else if at.flow.finished {
        (at, end_of(at.flow, expected))
    } else {
        let next = after_pump(at, method, data, max);
        if next.1.len() > 0 {
            (next.0, Ok(next.1))
        } else {
            after_read(next.0, method, expected, data, max)
        }
    }
}

/// An entry whose method cannot be undone gives no bytes: reading it is an
/// `IntegrityError`.
pub proof fn lemma_read_unsupported(
    at: Reading,
    method: u16,
    expected: u32,
    data: Seq<u8>,
    max: usize,
)
    requires
        at.codec is Unsupported,
        !at.flow.finished,
        max > 0,
    ensures
        after_read(at, method, expected, data, max).1 == Err::<Seq<u8>, ZipError>(
            ZipError::IntegrityError,
        ),
{
    let next = after_pump(at, method, data, max);
    assert(next.1.len() == 0);
    assert(next.0.flow.finished && next.0.flow.cut_short);
    assert(after_read(at, method, expected, data, max) == after_read(
        next.0,
        method,
        expected,
        data,
        max,
    ));
}

/// Of a stored entry a read gives the entry's next bytes in the source: of
/// those that wait, or come in one read where none wait, as many as `max`
/// allows.  Where none wait and none come, the read is the end of the
/// contents if the entry's bytes are used up and what came out has the
/// checksum `expected`, and an `IntegrityError` if not.
pub proof fn lemma_read_stored(at: Reading, method: u16, expected: u32, data: Seq<u8>, max: usize)
    requires
        at.codec is Stored,
        !at.flow.finished,
        max > 0,
    ensures
        ({
            let at_hand = at.flow.pending + window(data, at.position, at.flow.wants() as int);
            let r = after_read(at, method, expected, data, max).1;
            if at_hand.len() > 0 {
                r == Ok::<Seq<u8>, ZipError>(Codec::stored_step(at_hand, max))
            } else {
                r is Ok <==> !at.flow.cut_short && at.flow.remaining == 0 && method == STORED
                    && crc32(at.flow.output) == expected
            }
        }),
{
    let asked = at.flow.wants();
    let fetched = window(data, at.position, asked as int);
    let at_hand = at.flow.pending + fetched;
    let next = after_pump(at, method, data, max);
    if asked == 0 {
        assert(fetched =~= Seq::<u8>::empty());
        assert(at.flow.pending + Seq::<u8>::empty() =~= at.flow.pending);
    }
    assert(next.1 == Codec::stored_step(at_hand, max));
    if at_hand.len() == 0 {
        assert(next.0.flow.finished);
        assert(next.0.flow.output =~= at.flow.output);
        assert(after_read(at, method, expected, data, max) == after_read(
            next.0,
            method,
            expected,
            data,
            max,
        ));
    }
}

/// What came of a read, with the bytes as a sequence.
pub open spec fn seen(r: Result<Vec<u8>, ZipError>) -> Result<Seq<u8>, ZipError> {
    match r {
        Ok(out) => Ok(out@),
        Err(e) => Err(e),
    }
}

impl<'a, R: SeekableSource> ZipEntryReader<'a, R> {
    /// What reading this entry piece by piece goes by, as it is now.
    pub open spec fn reading(&self) -> Reading {
        Reading {
            codec: self.codec,
            flow: self.stream.flow(),
            position: self.source.current().position() as int,
        }
    }

    /// One round of decompression: compressed bytes are read from the
    /// source if none wait, the codec takes one step with room for `room`
    /// bytes, and what it gives is recorded and handed out.
    ///
    /// Nothing happens where the stream is finished or there is no room.
    /// A round that gives nothing and does not finish the stream has taken
    /// compressed bytes, so that rounds cannot go on for ever.  A failure of
    /// the source is reported as a failed read, with the offset at which the
    /// entry's compressed bytes start, and leaves the stream as it was.
    pub fn pump(&mut self, room: usize) -> (r: Result<Vec<u8>, ZipError>)
        ensures
            final(self).source.current().contents() == old(self).source.current().contents(),
            final(self).source.current().reliable() == old(self).source.current().reliable(),
            final(self).stream.same_entry(&old(self).stream),
            final(self).codec is Stored <==> old(self).codec is Stored,
            final(self).codec is Deflate <==> old(self).codec is Deflate,
            match (final(self).source, old(self).source) {
                (Handle::Owned(_), Handle::Owned(_)) => true,
                (Handle::Borrowed(after), Handle::Borrowed(before)) => *final(after) == *final(before),
                _ => false,
            },
            room == 0 || old(self).stream.spec_wants() == 0 ==> r is Ok,
            old(self).codec is Unsupported && !old(self).stream.spec_finished() && room > 0 ==> (
            r matches Ok(out) ==> out@.len() == 0 && final(self).stream.spec_finished() && final(self).stream.spec_cut_short()),
            match r {
                Err(e) => {
                    &&& e == ZipError::Io {
                        operation: IoOperation::Read,
                        offset: old(self).stream.spec_start(),
                    }
                    &&& !old(self).source.current().reliable()
                    &&& final(self).stream.same_state(&old(self).stream)
                    &&& final(self).codec == old(self).codec
                },
                Ok(out) => {
                    &&& (final(self).reading(), out@) == after_pump(
                        old(self).reading(),
                        old(self).stream.spec_method(),
                        old(self).source.current().contents(),
                        room,
                    )
                    &&& out@.len() <= room
                    &&& out@.len() == 0 && !final(self).stream.spec_finished() && !old(self).stream.spec_finished() && room > 0 ==> final(self).stream.flow().rounds_left()
                        < old(self).stream.flow().rounds_left()
                },
            },
    {
        if room == 0 || self.stream.finished() {
            return Ok(Vec::new());
        }
        let asked: usize = self.stream.wants();
        if asked > 0 {
            match self.source.read(asked) {
                None => {
                    return Err(
                        ZipError::Io { operation: IoOperation::Read, offset: self.stream.start() },
                    );
                },
                Some(bytes) => {
                    self.stream.supply(asked, bytes);
                },
            }
        }
        proof {
            let data = old(self).source.current().contents();
            let at = old(self).source.current().position() as int;
            if asked == 0 {
                assert(window(data, at, 0) =~= Seq::<u8>::empty());
            }
        }
        let progress = self.codec.step(self.stream.pending(), room);
        let out = self.stream.absorb(progress, room);
        Ok(out)
    }

    /// Reads the next bytes of the entry's contents, at most `max` of them.
    ///
    /// Bytes that come are the next of what the entry decompresses to.  No
    /// bytes, where some were asked for, means that the entry has come to
    /// its end and that all that came out of it has the checksum of the
    /// central directory.  An entry that comes to its end otherwise, or
    /// cannot be decompressed, is an `IntegrityError`.  A failure of the
    /// source can come in between only if the source is not reliable; but
    /// for that the result, and the reader after it, are those of
    /// [`after_read`].
    pub fn read(&mut self, max: usize) -> (r: Result<Vec<u8>, ZipError>)
        ensures
            final(self).source.current().contents() == old(self).source.current().contents(),
            final(self).source.current().reliable() == old(self).source.current().reliable(),
            final(self).stream.same_entry(&old(self).stream),
            final(self).codec is Stored <==> old(self).codec is Stored,
            final(self).codec is Deflate <==> old(self).codec is Deflate,
            match (final(self).source, old(self).source) {
                (Handle::Owned(_), Handle::Owned(_)) => true,
                (Handle::Borrowed(after), Handle::Borrowed(before)) => *final(after) == *final(before),
                _ => false,
            },
            r matches Err(e) && e is Io ==> !old(self).source.current().reliable(),
            !(r matches Err(e) && e is Io) ==> (final(self).reading(), seen(r)) == after_read(
                old(self).reading(),
                old(self).stream.spec_method(),
                old(self).stream.spec_expected(),
                old(self).source.current().contents(),
                max,
            ),
            max == 0 ==> (r matches Ok(out) && out@.len() == 0) && final(self).stream.same_state(
                &old(self).stream,
            ),
            old(self).codec is Unsupported && !old(self).stream.spec_finished() && max > 0 && !(
            r matches Err(e) && e is Io) ==> r == Err::<Vec<u8>, ZipError>(
                ZipError::IntegrityError,
            ),
            match r {
                Ok(out) => {
                    &&& out@.len() <= max
                    &&& final(self).stream.output() == old(self).stream.output() + out@
                    &&& out@.len() == 0 && max > 0 ==> {
                        &&& final(self).stream.spec_finished()
                        &&& !final(self).stream.spec_cut_short()
                        &&& crc32(final(self).stream.output()) == final(self).stream.spec_expected()
                    }
                },
                Err(e) => {
                    &&& final(self).stream.output() == old(self).stream.output()
                    &&& !(e is Io) ==> {
                        &&& e == ZipError::IntegrityError
                        &&& final(self).stream.spec_finished()
                        &&& final(self).stream.spec_cut_short() || crc32(
                            final(self).stream.output(),
                        ) != final(self).stream.spec_expected()
                    }
                },
            },
    {
        let ghost data = self.source.current().contents();
        let ghost method = self.stream.spec_method();
        let ghost expected = self.stream.spec_expected();
        if max == 0 {
            proof {
                assert(old(self).stream.output() + Seq::<u8>::empty() =~= old(self).stream.output());
            }
            return Ok(Vec::new());
        }
        loop
            invariant
                max > 0,
                data == old(self).source.current().contents(),
                method == old(self).stream.spec_method(),
                expected == old(self).stream.spec_expected(),
                self.source.current().contents() == data,
                self.source.current().reliable() == old(self).source.current().reliable(),
                self.stream.continues(&old(self).stream),
                self.codec is Stored <==> old(self).codec is Stored,
                self.codec is Deflate <==> old(self).codec is Deflate,
                match (self.source, old(self).source) {
                    (Handle::Owned(_), Handle::Owned(_)) => true,
                    (Handle::Borrowed(after), Handle::Borrowed(before)) => *final(after) == *final(before),
                    _ => false,
                },
                after_read(self.reading(), method, expected, data, max) == after_read(
                    old(self).reading(),
                    method,
                    expected,
                    data,
                    max,
                ),
            decreases self.stream.flow().rounds_left(),
        {
            proof {
                if old(self).codec is Unsupported && !old(self).stream.spec_finished() {
                    lemma_read_unsupported(old(self).reading(), method, expected, data, max);
                }
            }
            if self.stream.finished() {
                proof {
                    assert(old(self).stream.output() + Seq::<u8>::empty() =~= old(self).stream.output());
                }
                return match self.stream.finish() {
                    Ok(()) => Ok(Vec::new()),
                    Err(e) => Err(e),
                };
            }
            let out = match self.pump(max) {
                Ok(out) => out,
                Err(e) => {
                    return Err(e);
                },
            };
            if out.len() > 0 {
                return Ok(out);
            }
            proof {
                assert(self.stream.output() =~= old(self).stream.output());
            }
        }
    }

    /// Reads the next compressed bytes of the entry: `max` of them, or all
    /// that the entry has left if those are fewer.  Nothing comes once the
    /// entry's compressed bytes are used up, whatever the source holds after
    /// them; and if the source ends before they are, the stream is cut short.
    /// A failure of the source is reported as a failed read, with the offset
    /// at which the entry's compressed bytes start.
    pub fn read_compressed(&mut self, max: usize) -> (r: Result<Vec<u8>, ZipError>)
        ensures
            final(self).source.current().contents() == old(self).source.current().contents(),
            final(self).source.current().reliable() == old(self).source.current().reliable(),
            final(self).stream.continues(&old(self).stream),
            match (final(self).source, old(self).source) {
                (Handle::Owned(_), Handle::Owned(_)) => true,
                (Handle::Borrowed(after), Handle::Borrowed(before)) => *final(after) == *final(before),
                _ => false,
            },
            match r {
                Ok(bytes) => {
                    let asked = if max <= old(self).stream.spec_remaining() {
                        max as int
                    } else {
                        old(self).stream.spec_remaining() as int
                    };
                    &&& bytes@ == window(
                        old(self).source.current().contents(),
                        old(self).source.current().position() as int,
                        asked,
                    )
                    &&& final(self).source.current().position() == old(self).source.current().position() + bytes@.len()
                    &&& final(self).stream.spec_remaining() == if bytes@.len() == asked {
                        old(self).stream.spec_remaining() - asked
                    } else {
                        0
                    }
                    &&& final(self).stream.spec_cut_short() == (old(self).stream.spec_cut_short()
                        || bytes@.len() != asked)
                },
                Err(e) => {
                    &&& e == ZipError::Io {
                        operation: IoOperation::Read,
                        offset: old(self).stream.spec_start(),
                    }
                    &&& !old(self).source.current().reliable()
                    &&& final(self).stream.spec_remaining() == old(self).stream.spec_remaining()
                    &&& final(self).stream.spec_cut_short() == old(self).stream.spec_cut_short()
                },
            },
    {
        let asked: usize = self.stream.next_len(max);
        if asked == 0 {
            return Ok(Vec::new());
        }
        match self.source.read(asked) {
            None => Err(ZipError::Io { operation: IoOperation::Read, offset: self.stream.start() }),
            Some(bytes) => {
                self.stream.accept(asked, bytes.len());
                Ok(bytes)
            },
        }
    }

    /// Reads the rest of the entry and hands out its contents.
    ///
    /// The entry's remaining compressed bytes are read from where the source
    /// stands and decompressed at once by the entry's method, apart from the
    /// reader's codec: this is for a reader whose contents have not been
    /// read in pieces before.  The contents are
    /// handed out if the source held all the compressed bytes, they could be
    /// decompressed, and what came out has the checksum of the central
    /// directory; else the result is an `IntegrityError`.  A failure of the
    /// source can come in between only if the source is not reliable.
    pub fn read_to_end(&mut self) -> (r: Result<Vec<u8>, ZipError>)
        ensures
            final(self).source.current().contents() == old(self).source.current().contents(),
            final(self).source.current().reliable() == old(self).source.current().reliable(),
            match (final(self).source, old(self).source) {
                (Handle::Owned(_), Handle::Owned(_)) => true,
                (Handle::Borrowed(after), Handle::Borrowed(before)) => *final(after) == *final(before),
                _ => false,
            },
            ({
                let compressed = window(
                    old(self).source.current().contents(),
                    old(self).source.current().position() as int,
                    old(self).stream.spec_remaining() as int,
                );
                let complete = !old(self).stream.spec_cut_short() && compressed.len() == old(self).stream.spec_remaining();
                let contents = decoded(
                    old(self).stream.spec_method(),
                    compressed,
                    size_limit(old(self).stream.spec_size()),
                );
                match r {
                    Ok(out) => {
                        &&& complete
                        &&& contents == Some(out@)
                        &&& crc32(old(self).stream.output() + out@) == old(self).stream.spec_expected()
                        &&& final(self).stream.output() == old(self).stream.output() + out@
                    },
                    Err(e) => if e is Io {
                        !old(self).source.current().reliable()
                    } else {
                        &&& e == ZipError::IntegrityError
                        &&& !(complete && (contents matches Some(out) && crc32(
                            old(self).stream.output() + out,
                        ) == old(self).stream.spec_expected()))
                    },
                }
            }),
    {
        let ghost data = self.source.current().contents();
        let ghost first = self.source.current().position() as int;
        let ghost total = self.stream.spec_remaining() as int;
        let mut compressed: Vec<u8> = Vec::new();
        proof {
            assert(compressed@ + window(data, first, total) =~= window(data, first, total));
        }
        while self.stream.remaining() > 0
            invariant
                old(self).source.current().contents() == data,
                self.source.current().contents() == data,
                self.source.current().reliable() == old(self).source.current().reliable(),
                self.stream.continues(&old(self).stream),
                self.stream.spec_remaining() > 0 ==> compressed@.len()
                    + self.stream.spec_remaining() == total && self.stream.spec_cut_short() == old(self).stream.spec_cut_short(),
                match (self.source, old(self).source) {
                    (Handle::Owned(_), Handle::Owned(_)) => true,
                    (Handle::Borrowed(after), Handle::Borrowed(before)) => *final(after) == *final(before),
                    _ => false,
                },
                first == old(self).source.current().position(),
                total == old(self).stream.spec_remaining(),
                compressed@ + window(
                    data,
                    self.source.current().position() as int,
                    self.stream.spec_remaining() as int,
                ) == window(data, first, total),
                self.stream.spec_cut_short() == (old(self).stream.spec_cut_short()
                    || compressed@.len() + self.stream.spec_remaining() != total),
            decreases self.stream.spec_remaining(),
        {
            let ghost before = compressed@;
            let ghost at = self.source.current().position() as int;
            let ghost left = self.stream.spec_remaining() as int;
            let chunk = match self.read_compressed(CHUNK_LEN) {
                Ok(chunk) => chunk,
                Err(e) => {
                    return Err(e);
                },
            };
            compressed.extend_from_slice(chunk.as_slice());
            proof {
                let asked = if CHUNK_LEN <= left {
                    CHUNK_LEN as int
                } else {
                    left
                };
                assert(chunk@ == window(data, at, asked));
                if chunk@.len() == asked {
                    assert(window(data, at, asked) + window(data, at + asked, left - asked)
                        =~= window(data, at, left));
                } else {
                    assert(window(data, at, asked) =~= window(data, at, left));
                    assert(window(data, at + chunk@.len(), 0) =~= Seq::<u8>::empty());
                }
                assert(compressed@ =~= before + chunk@);
                assert((before + chunk@) + window(
                    data,
                    self.source.current().position() as int,
                    self.stream.spec_remaining() as int,
                ) =~= before + window(data, at, left));
            }
        }
        proof {
            assert(window(data, self.source.current().position() as int, 0) =~= Seq::<u8>::empty());
            assert(compressed@ =~= window(data, first, total));
        }
        let limit: usize = limit_of(self.stream.size());
        let contents = decompress(self.stream.method(), compressed, limit);
        self.stream.conclude(contents)
    }
}

/// The most bytes that an entry of `size` bytes may decompress to: `size`,
/// or as much as memory can address.
pub open spec fn size_limit(size: u64) -> usize {
    if size <= usize::MAX {
        size as usize
    } else {
        usize::MAX
    }
}

fn limit_of(size: u64) -> (r: usize)
    ensures
        r == size_limit(size),
{
    if size <= usize::MAX as u64 {
        size as usize
    } else {
        usize::MAX
    }
}

} // verus!
