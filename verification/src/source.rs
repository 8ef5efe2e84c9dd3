//! The source that an archive is read from: bytes that can be read in
//! sequence, a position that can be set, and a length that can be asked for.

use vstd::prelude::*;
use vstd::slice::slice_subrange;
use vstd::slice::slice_to_vec;
use crate::error::IoOperation;
use crate::exchange::Reply;
use crate::exchange::Request;
use crate::wire::window;

verus! {

/// A seekable source of bytes.
///
/// The bytes that the source holds do not change while it is read.  Every
/// operation may fail, unless the source is `reliable`.
pub trait SeekableSource {
    /// The bytes that the source holds.
    spec fn contents(&self) -> Seq<u8>;

    /// Where the next read starts.
    spec fn position(&self) -> u64;

    /// Whether no operation on this source ever fails.
    spec fn reliable(&self) -> bool;

    /// Offsets into the source fit in 64 bits.
    proof fn lemma_bounded(&self)
        ensures
            self.contents().len() <= u64::MAX,
    ;

    /// The total length of the source, or `None` if the source failed.
    fn length(&mut self) -> (r: Option<u64>)
        ensures
            final(self).contents() == old(self).contents(),
            final(self).reliable() == old(self).reliable(),
            old(self).reliable() ==> r is Some,
            r matches Some(n) ==> n == old(self).contents().len(),
    ;

    /// Moves to `offset`, which may lie past the end; `false` if the source
    /// failed.
    fn seek(&mut self, offset: u64) -> (ok: bool)
        ensures
            final(self).contents() == old(self).contents(),
            final(self).reliable() == old(self).reliable(),
            old(self).reliable() ==> ok,
            ok ==> final(self).position() == offset,
    ;

    /// Reads the next `max` bytes, or all that are left if the source ends
    /// before, and moves past them; `None` if the source failed.
    fn read(&mut self, max: usize) -> (r: Option<Vec<u8>>)
        ensures
            final(self).contents() == old(self).contents(),
            final(self).reliable() == old(self).reliable(),
            old(self).reliable() ==> r is Some,
            r matches Some(bytes) ==> bytes@ == window(
                old(self).contents(),
                old(self).position() as int,
                max as int,
            ) && final(self).position() == old(self).position() + bytes@.len(),
    ;
}

/// A source that holds its bytes in memory.  It never fails.
#[derive(Clone, Debug)]
pub struct MemorySource {
    pub data: Vec<u8>,
    pub position: u64,
}

impl MemorySource {
    /// A source over `data`, positioned at its start.
    pub fn new(data: Vec<u8>) -> (r: MemorySource)
        ensures
            r.data == data,
            r.position == 0,
    {
        MemorySource { data, position: 0 }
    }

    /// Gives the bytes back.
    pub fn into_bytes(self) -> (r: Vec<u8>)
        ensures
            r == self.data,
    {
        self.data
    }
}

impl SeekableSource for MemorySource {
    open spec fn contents(&self) -> Seq<u8> {
        self.data@
    }

    open spec fn position(&self) -> u64 {
        self.position
    }

    open spec fn reliable(&self) -> bool {
        true
    }

    proof fn lemma_bounded(&self) {
        assert(self.data@.len() == self.data.len());
    }

    fn length(&mut self) -> (r: Option<u64>) {
        Some(self.data.len() as u64)
    }

    fn seek(&mut self, offset: u64) -> (ok: bool) {
        self.position = offset;
        true
    }

    fn read(&mut self, max: usize) -> (r: Option<Vec<u8>>) {
        let len: usize = self.data.len();
        if self.position >= len as u64 {
            return Some(Vec::new());
        }
        let from: usize = self.position as usize;
        let to: usize = if max < len - from {
            from + max
        } else {
            len
        };
        let bytes = slice_to_vec(slice_subrange(self.data.as_slice(), from, to));
        self.position = to as u64;
        Some(bytes)
    }
}

/// Serves one request: does to the source what the request asks for and
/// reports what came of it.  Where nothing is asked, the source is left alone
/// and the reply holds no bytes.
pub fn serve<R: SeekableSource>(source: &mut R, request: Request) -> (reply: Reply)
    ensures
        final(source).contents() == old(source).contents(),
        final(source).reliable() == old(source).reliable(),
        request is Done ==> *final(source) == *old(source) && (reply matches Reply::Data(bytes)
            && bytes@.len() == 0),
        old(source).reliable() ==> !(reply is Failed),
        reply matches Reply::Failed(operation) ==> match request {
            Request::Length => operation == IoOperation::Length,
            Request::Read { .. } => operation == IoOperation::Seek || operation
                == IoOperation::Read,
            Request::Done => false,
        },
        !(request is Done) && !(reply is Failed) ==> reply.answers(
            request,
            old(source).contents(),
        ),
        request matches Request::Read { offset, .. } ==> (reply matches Reply::Data(bytes)
            ==> final(source).position() == offset + bytes@.len()),
{
    match request {
        Request::Length => match source.length() {
            Some(n) => Reply::Length(n),
            None => Reply::Failed(IoOperation::Length),
        },
        Request::Read { offset, len } => {
            if !source.seek(offset) {
                Reply::Failed(IoOperation::Seek)
            } else {
                match source.read(len) {
                    Some(bytes) => Reply::Data(bytes),
                    None => Reply::Failed(IoOperation::Read),
                }
            }
        },
        Request::Done => Reply::Data(Vec::new()),
    }
}

} // verus!
