//! The bookkeeping of one entry's stream: how much of its compressed bytes
//! is still to come, which of them wait to be decompressed, and the checksum
//! of what has come out.

use vstd::prelude::*;
use vstd::slice::slice_subrange;
use vstd::slice::slice_to_vec;
use crate::codec::Progress;
use crate::codec::Verdict;
use crate::codec::STORED;
use crate::crc32::crc32;
use crate::crc32::Crc32;
use crate::entry::EntryView;
use crate::entry::ZipEntry;
use crate::error::ZipError;

verus! {

/// How many compressed bytes are asked of the source at a time.
pub const CHUNK_LEN: usize = 65536usize;

/// The state of the stream of one entry.
///
/// The entry's compressed bytes start at `start` in the source, and the
/// stream gives out no more of them than the central directory says there
/// are, whatever follows them in the source.  What the bytes decompress to
/// is recorded here as it comes, and held against the checksum of the
/// central directory in the end.
pub struct EntryStream {
    start: u64,
    left: u64,
    cut: bool,
    method: u16,
    size: u64,
    expected: u32,
    checksum: Crc32,
    buffer: Buffer,
    finished: bool,
}

/// Compressed bytes that were read, the first `taken` of which the codec
/// has taken.
struct Buffer {
    bytes: Vec<u8>,
    taken: usize,
}

impl Buffer {
    #[verifier::type_invariant]
    spec fn in_order(&self) -> bool {
        self.taken <= self.bytes@.len()
    }

    closed spec fn waiting(&self) -> Seq<u8> {
        self.bytes@.subrange(self.taken as int, self.bytes@.len() as int)
    }

    fn new() -> (r: Buffer)
        ensures
            r.waiting() == Seq::<u8>::empty(),
    {
        Buffer { bytes: Vec::new(), taken: 0 }
    }

    fn pending(&self) -> (r: &[u8])
        ensures
            r@ == self.waiting(),
    {
        proof {
            use_type_invariant(self);
        }
        slice_subrange(self.bytes.as_slice(), self.taken, self.bytes.len())
    }

    fn len(&self) -> (n: usize)
        ensures
            n == self.waiting().len(),
    {
        proof {
            use_type_invariant(self);
        }
        self.bytes.len() - self.taken
    }

    fn skip(&mut self, used: usize)
        requires
            used <= old(self).waiting().len(),
        ensures
            final(self).waiting() == old(self).waiting().subrange(
                used as int,
                old(self).waiting().len() as int,
            ),
    {
        proof {
            use_type_invariant(&*self);
        }
        let ghost before = self.waiting();
        let total: usize = self.bytes.len();
        proof {
            assert(before.len() == total - self.taken);
        }
        self.taken = self.taken + used;
        proof {
            assert(self.waiting() =~= before.subrange(used as int, before.len() as int));
        }
    }

    fn push(&mut self, bytes: Vec<u8>)
        ensures
            final(self).waiting() == old(self).waiting() + bytes@,
    {
        proof {
            use_type_invariant(&*self);
        }
        let ghost before = self.waiting();
        if self.taken == self.bytes.len() {
            self.taken = 0;
            self.bytes = bytes;
            proof {
                assert(self.waiting() =~= before + bytes@);
            }
        } else {
            let mut joined = slice_to_vec(
                slice_subrange(self.bytes.as_slice(), self.taken, self.bytes.len()),
            );
            joined.extend_from_slice(bytes.as_slice());
            self.taken = 0;
            self.bytes = joined;
            proof {
                assert(self.waiting() =~= before + bytes@);
            }
        }
    }
}

/// Whether a step of the codec did nothing: it took no bytes and gave none.
pub open spec fn step_idle(used: int, given: int) -> bool {
    used == 0 && given == 0
}

/// Whether a step of the codec is the stream's last.  It is where the codec
/// failed or saw the end of the compressed stream, and where it did nothing
/// though it had room: with compressed bytes at hand it is stuck, and with
/// none at hand and none to come there is nothing more to do.
pub open spec fn step_ends(verdict: Verdict, idle: bool, room: usize, rest: int, left: u64) -> bool {
    verdict is Failed || verdict is End || (idle && room > 0 && (rest > 0 || left == 0))
}

/// Whether a step of the codec shows that the entry's compressed bytes are
/// not a whole compressed stream: the codec failed, or is stuck, or has
/// taken all the bytes there are without coming to the end of what it
/// reads.  Stored bytes have no end of their own to come to.
pub open spec fn step_breaks(
    verdict: Verdict,
    idle: bool,
    room: usize,
    rest: int,
    left: u64,
    method: u16,
) -> bool {
    verdict is Failed || (!(verdict is End) && idle && room > 0 && (rest > 0 || (left == 0
        && method != STORED)))
}

/// How far a stream has come: the compressed bytes that wait to be
/// decompressed, how many are still to be read, whether they have turned out
/// not to be all there, whether the stream has given out all it will, and
/// what has come out.
pub struct Flow {
    pub pending: Seq<u8>,
    pub remaining: u64,
    pub cut_short: bool,
    pub finished: bool,
    pub output: Seq<u8>,
}

impl Flow {
    /// How many compressed bytes the source is to be asked for before the
    /// next step of the codec: none while bytes wait to be decompressed or
    /// the stream is at its end, else a chunk, or what the entry has left.
    pub open spec fn wants(self) -> usize {
        if self.pending.len() > 0 || self.finished {
            0
        } else if CHUNK_LEN <= self.remaining {
            CHUNK_LEN
        } else {
            self.remaining as usize
        }
    }

    /// The flow after `bytes` came when `asked` bytes were asked of the
    /// source: they wait behind those that wait already, and fewer or more
    /// than were asked for cut the stream short.
    pub open spec fn supplied(self, asked: usize, bytes: Seq<u8>) -> Flow {
        let whole = bytes.len() == asked && bytes.len() <= self.remaining;
        Flow {
            pending: self.pending + bytes,
            remaining: if whole {
                (self.remaining - bytes.len()) as u64
            } else {
                0
            },
            cut_short: self.cut_short || !whole,
            finished: self.finished,
            output: self.output,
        }
    }

    /// The flow after a step of the codec that was given the waiting bytes
    /// and room for `room` bytes, and came to `step`: what it took, what it
    /// gave, and how it ended.  `method` is the entry's compression method.
    pub open spec fn absorbed(self, method: u16, step: (usize, Seq<u8>, Verdict), room: usize) -> Flow {
        let used = if step.0 <= self.pending.len() {
            step.0 as int
        } else {
            self.pending.len() as int
        };
        let rest = self.pending.len() - used;
        let idle = step_idle(used, step.1.len() as int);
        Flow {
            pending: self.pending.subrange(used, self.pending.len() as int),
            remaining: self.remaining,
            cut_short: self.cut_short || step_breaks(
                step.2,
                idle,
                room,
                rest,
                self.remaining,
                method,
            ),
            finished: self.finished || step_ends(step.2, idle, room, rest, self.remaining),
            output: self.output + step.1,
        }
    }

    /// A bound on the rounds that are still to come: none once the stream is
    /// finished, else one more than the compressed bytes that wait or are to
    /// be read.
    pub open spec fn rounds_left(self) -> nat {
        if self.finished {
            0
        } else {
            (1 + self.pending.len() + self.remaining) as nat
        }
    }
}

impl EntryStream {
    /// Where in the source the entry's compressed bytes start.
    pub closed spec fn spec_start(&self) -> u64 {
        self.start
    }

    /// How many compressed bytes are still to be read from the source.
    pub closed spec fn spec_remaining(&self) -> u64 {
        self.left
    }

    /// Whether the entry's compressed bytes have turned out not to be all
    /// there: the source ended before them, or they are not a whole stream
    /// of the entry's method.
    pub closed spec fn spec_cut_short(&self) -> bool {
        self.cut
    }

    /// The entry's compression method.
    pub closed spec fn spec_method(&self) -> u16 {
        self.method
    }

    /// The length of the entry's contents according to the central directory.
    pub closed spec fn spec_size(&self) -> u64 {
        self.size
    }

    /// The checksum that the central directory records for the entry.
    pub closed spec fn spec_expected(&self) -> u32 {
        self.expected
    }

    /// All decompressed bytes recorded so far, in order.
    pub closed spec fn output(&self) -> Seq<u8> {
        self.checksum.bytes()
    }

    /// The compressed bytes that were read and wait to be decompressed.
    pub closed spec fn spec_pending(&self) -> Seq<u8> {
        self.buffer.waiting()
    }

    /// Whether the stream has given out all it will.
    pub closed spec fn spec_finished(&self) -> bool {
        self.finished
    }

    /// How far the stream has come.
    pub open spec fn flow(&self) -> Flow {
        Flow {
            pending: self.spec_pending(),
            remaining: self.spec_remaining(),
            cut_short: self.spec_cut_short(),
            finished: self.spec_finished(),
            output: self.output(),
        }
    }

    /// Whether this is the stream of `entry` before anything was read from
    /// it.
    pub open spec fn fresh(&self, entry: EntryView) -> bool {
        &&& self.spec_remaining() == entry.compressed_size
        &&& !self.spec_cut_short()
        &&& self.spec_method() == entry.method
        &&& self.spec_size() == entry.uncompressed_size
        &&& self.spec_expected() == entry.crc32
        &&& self.output() == Seq::<u8>::empty()
        &&& self.spec_pending() == Seq::<u8>::empty()
        &&& !self.spec_finished()
    }

    /// Whether this stream and `before` are streams of the same entry.
    pub open spec fn same_entry(&self, before: &EntryStream) -> bool {
        &&& self.spec_start() == before.spec_start()
        &&& self.spec_method() == before.spec_method()
        &&& self.spec_size() == before.spec_size()
        &&& self.spec_expected() == before.spec_expected()
    }

    /// Whether this stream is the stream `before` of the same entry, with
    /// the same output.
    pub open spec fn continues(&self, before: &EntryStream) -> bool {
        &&& self.same_entry(before)
        &&& self.output() == before.output()
    }

    /// Whether this stream is as far as `before` in every respect.
    pub open spec fn same_state(&self, before: &EntryStream) -> bool {
        &&& self.continues(before)
        &&& self.spec_remaining() == before.spec_remaining()
        &&& self.spec_cut_short() == before.spec_cut_short()
        &&& self.spec_pending() == before.spec_pending()
        &&& self.spec_finished() == before.spec_finished()
    }

    /// How many compressed bytes the source is to be asked for before the
    /// next step of the codec: none while bytes wait to be decompressed or
    /// the stream is at its end, else a chunk, or what the entry has left.
    pub open spec fn spec_wants(&self) -> usize {
        if self.spec_pending().len() > 0 || self.spec_finished() {
            0
        } else if CHUNK_LEN <= self.spec_remaining() {
            CHUNK_LEN
        } else {
            self.spec_remaining() as usize
        }
    }

    /// The stream of `entry`, whose compressed bytes start at `start`.
    pub fn new(entry: &ZipEntry, start: u64) -> (r: EntryStream)
        ensures
            r.spec_start() == start,
            r.fresh(entry@),
    {
        EntryStream {
            start,
            left: entry.compressed_size,
            cut: false,
            method: entry.method,
            size: entry.uncompressed_size,
            expected: entry.crc32,
            checksum: Crc32::new(),
            buffer: Buffer::new(),
            finished: false,
        }
    }

    /// Where in the source the entry's compressed bytes start.
    #[verifier::when_used_as_spec(spec_start)]
    pub fn start(&self) -> (r: u64)
        ensures
            r == self.spec_start(),
    {
        self.start
    }

    /// How many compressed bytes are still to be read from the source.
    #[verifier::when_used_as_spec(spec_remaining)]
    pub fn remaining(&self) -> (r: u64)
        ensures
            r == self.spec_remaining(),
    {
        self.left
    }

    /// Whether the entry's compressed bytes have turned out not to be all
    /// there.
    #[verifier::when_used_as_spec(spec_cut_short)]
    pub fn cut_short(&self) -> (r: bool)
        ensures
            r == self.spec_cut_short(),
    {
        self.cut
    }

    /// The entry's compression method.
    #[verifier::when_used_as_spec(spec_method)]
    pub fn method(&self) -> (r: u16)
        ensures
            r == self.spec_method(),
    {
        self.method
    }

    /// The length of the entry's contents according to the central directory.
    #[verifier::when_used_as_spec(spec_size)]
    pub fn size(&self) -> (r: u64)
        ensures
            r == self.spec_size(),
    {
        self.size
    }

    /// The checksum that the central directory records for the entry.
    #[verifier::when_used_as_spec(spec_expected)]
    pub fn expected(&self) -> (r: u32)
        ensures
            r == self.spec_expected(),
    {
        self.expected
    }

    /// Whether the stream has given out all it will.
    #[verifier::when_used_as_spec(spec_finished)]
    pub fn finished(&self) -> (r: bool)
        ensures
            r == self.spec_finished(),
    {
        self.finished
    }

    /// The compressed bytes that were read and wait to be decompressed.
    pub fn pending(&self) -> (r: &[u8])
        ensures
            r@ == self.spec_pending(),
    {
        self.buffer.pending()
    }

    /// How many compressed bytes the source is to be asked for before the
    /// next step of the codec.
    #[verifier::when_used_as_spec(spec_wants)]
    pub fn wants(&self) -> (n: usize)
        ensures
            n == self.spec_wants(),
    {
        if self.buffer.len() > 0 || self.finished {
            0
        } else {
            self.next_len(CHUNK_LEN)
        }
    }

    /// How many bytes to ask the source for when the caller has room for
    /// `max`: never more than the entry has left.
    pub fn next_len(&self, max: usize) -> (n: usize)
        ensures
            n == if max <= self.remaining() {
                max as int
            } else {
                self.remaining() as int
            },
    {
        if max as u64 <= self.left {
            max
        } else {
            self.left as usize
        }
    }

    /// Takes note that `asked` bytes were asked of the source and `got`
    /// came.  Fewer than were asked for means that the source has ended:
    /// the stream is then cut short and nothing more is to be read.
    pub fn accept(&mut self, asked: usize, got: usize)
        ensures
            final(self).continues(old(self)),
            final(self).spec_pending() == old(self).spec_pending(),
            final(self).spec_finished() == old(self).spec_finished(),
            final(self).spec_remaining() == if got == asked && got <= old(self).spec_remaining() {
                old(self).spec_remaining() - got
            } else {
                0
            },
            final(self).spec_cut_short() == (old(self).spec_cut_short() || got != asked || got
                > old(self).spec_remaining()),
    {
        if got == asked && got as u64 <= self.left {
            self.left = self.left - got as u64;
        } else {
            self.left = 0;
            self.cut = true;
        }
    }

    /// Takes the bytes that came when `asked` bytes were asked of the
    /// source: they wait to be decompressed, after those that wait already.
    pub fn supply(&mut self, asked: usize, bytes: Vec<u8>)
        ensures
            final(self).flow() == old(self).flow().supplied(asked, bytes@),
            final(self).continues(old(self)),
            final(self).spec_pending() == old(self).spec_pending() + bytes@,
            final(self).spec_finished() == old(self).spec_finished(),
            final(self).spec_remaining() == if bytes@.len() == asked && bytes@.len() <= old(
                self,
            ).spec_remaining() {
                old(self).spec_remaining() - bytes@.len()
            } else {
                0
            },
            final(self).spec_cut_short() == (old(self).spec_cut_short() || bytes@.len() != asked
                || bytes@.len() > old(self).spec_remaining()),
    {
        let got: usize = bytes.len();
        self.buffer.push(bytes);
        self.accept(asked, got);
    }

    /// Records `decoded` as the next bytes that came out of the entry.
    pub fn record(&mut self, decoded: &[u8])
        ensures
            final(self).output() == old(self).output() + decoded@,
            final(self).spec_start() == old(self).spec_start(),
            final(self).spec_remaining() == old(self).spec_remaining(),
            final(self).spec_cut_short() == old(self).spec_cut_short(),
            final(self).spec_method() == old(self).spec_method(),
            final(self).spec_size() == old(self).spec_size(),
            final(self).spec_expected() == old(self).spec_expected(),
            final(self).spec_pending() == old(self).spec_pending(),
            final(self).spec_finished() == old(self).spec_finished(),
    {
        self.checksum.update(decoded);
    }

    /// Takes what a step of the codec came to, the step having been given
    /// the waiting bytes and room for `room` bytes of output.
    ///
    /// The bytes that the codec took wait no longer, and what it gave is
    /// recorded and handed on.  The stream is finished where the step is its
    /// last, and cut short where the step shows that the compressed bytes
    /// are not a whole stream.
    pub fn absorb(&mut self, progress: Progress, room: usize) -> (out: Vec<u8>)
        ensures
            out == progress.output,
            final(self).flow() == old(self).flow().absorbed(
                old(self).spec_method(),
                (progress.consumed, progress.output@, progress.verdict),
                room,
            ),
            final(self).output() == old(self).output() + progress.output@,
            final(self).spec_start() == old(self).spec_start(),
            final(self).spec_remaining() == old(self).spec_remaining(),
            final(self).spec_method() == old(self).spec_method(),
            final(self).spec_size() == old(self).spec_size(),
            final(self).spec_expected() == old(self).spec_expected(),
            ({
                let waiting = old(self).spec_pending();
                let used = if progress.consumed <= waiting.len() {
                    progress.consumed as int
                } else {
                    waiting.len() as int
                };
                let rest = waiting.len() - used;
                let idle = step_idle(used, progress.output@.len() as int);
                &&& final(self).spec_pending() == waiting.subrange(used, waiting.len() as int)
                &&& final(self).spec_finished() == (old(self).spec_finished() || step_ends(
                    progress.verdict,
                    idle,
                    room,
                    rest,
                    old(self).spec_remaining(),
                ))
                &&& final(self).spec_cut_short() == (old(self).spec_cut_short() || step_breaks(
                    progress.verdict,
                    idle,
                    room,
                    rest,
                    old(self).spec_remaining(),
                    old(self).spec_method(),
                ))
            }),
    {
        let Progress { consumed, output, verdict } = progress;
        let at_hand: usize = self.buffer.len();
        let used: usize = if consumed <= at_hand {
            consumed
        } else {
            at_hand
        };
        let rest: usize = at_hand - used;
        let idle: bool = used == 0 && output.len() == 0;
        let failed: bool = match verdict {
            Verdict::Failed => true,
            _ => false,
        };
        let end: bool = match verdict {
            Verdict::End => true,
            _ => false,
        };
        let last: bool = idle && room > 0 && (rest > 0 || self.left == 0);
        let broken: bool = failed || (!end && idle && room > 0 && (rest > 0 || (self.left == 0
            && self.method != STORED)));
        self.buffer.skip(used);
        if failed || end || last {
            self.finished = true;
        }
        if broken {
            self.cut = true;
        }
        self.checksum.update(output.as_slice());
        output
    }

    /// Holds what came out of the entry against the central directory: it is
    /// accepted if the compressed bytes were not cut short and the output has
    /// the recorded checksum, and is an `IntegrityError` otherwise.
    pub fn finish(&self) -> (r: Result<(), ZipError>)
        ensures
            r is Ok <==> !self.spec_cut_short() && crc32(self.output()) == self.spec_expected(),
            r matches Err(e) ==> e == ZipError::IntegrityError,
    {
        if !self.cut && self.checksum.value() == self.expected {
            Ok(())
        } else {
            Err(ZipError::IntegrityError)
        }
    }

    /// Ends the stream with what the entry's compressed bytes decompressed
    /// to, `None` standing for bytes that could not be decompressed.  The
    /// contents are handed on if they pass [`EntryStream::finish`]; bytes
    /// that could not be decompressed are an `IntegrityError`.
    pub fn conclude(&mut self, decoded: Option<Vec<u8>>) -> (r: Result<Vec<u8>, ZipError>)
        ensures
            final(self).spec_start() == old(self).spec_start(),
            final(self).spec_remaining() == old(self).spec_remaining(),
            final(self).spec_cut_short() == old(self).spec_cut_short(),
            final(self).spec_method() == old(self).spec_method(),
            final(self).spec_size() == old(self).spec_size(),
            final(self).spec_expected() == old(self).spec_expected(),
            final(self).spec_pending() == old(self).spec_pending(),
            final(self).spec_finished(),
            r matches Err(e) ==> e == ZipError::IntegrityError,
            match decoded {
                None => r is Err && final(self).output() == old(self).output(),
                Some(contents) => {
                    &&& final(self).output() == old(self).output() + contents@
                    &&& r is Ok <==> !old(self).spec_cut_short() && crc32(
                        old(self).output() + contents@,
                    ) == old(self).spec_expected()
                    &&& r matches Ok(out) ==> out == contents
                },
            },
    {
        self.finished = true;
        match decoded {
            None => Err(ZipError::IntegrityError),
            Some(contents) => {
                self.record(contents.as_slice());
                match self.finish() {
                    Ok(()) => Ok(contents),
                    Err(e) => Err(e),
                }
            },
        }
    }
}

} // verus!
