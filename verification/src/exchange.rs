//! What passes between the reading logic and whoever drives the source: the
//! logic asks for one thing at a time, and is told what came back.

use vstd::prelude::*;
use crate::error::IoOperation;
use crate::error::ZipError;
use crate::wire::window;

verus! {

/// What the logic needs next from the source.
#[derive(Clone, Copy, Debug, PartialEq, Eq, Structural)]
pub enum Request {
    /// The total length of the source.
    Length,
    /// The bytes at `offset`: `len` of them, or as many as the source has
    /// from there if it ends before.
    Read { offset: u64, len: usize },
    /// Nothing: the work has come to its end.
    Done,
}

/// What the source gave for a request.
#[derive(Clone, Debug)]
pub enum Reply {
    /// The total length of the source.
    Length(u64),
    /// The bytes that were read.
    Data(Vec<u8>),
    /// The source failed in the named operation.
    Failed(IoOperation),
}

impl Reply {
    /// Whether the reply reports a failure of the source.
    pub fn is_failed(&self) -> (r: bool)
        ensures
            r == (self is Failed),
    {
        match self {
            Reply::Failed(_) => true,
            _ => false,
        }
    }

    /// Whether this reply is what a source that holds `data` gives for
    /// `request`.
    pub open spec fn answers(&self, request: Request, data: Seq<u8>) -> bool {
        match request {
            Request::Length => match self {
                Reply::Length(n) => *n == data.len(),
                _ => false,
            },
            Request::Read { offset, len } => match self {
                Reply::Data(bytes) => bytes@ == window(data, offset as int, len as int),
                _ => false,
            },
            Request::Done => false,
        }
    }
}

impl Request {
    /// Whether `error` is what a failure of the source at this request is
    /// reported as: the request's offset, and the operation that the request
    /// needs, which for a read may be the seek before it.
    pub open spec fn fails_as(&self, error: ZipError) -> bool {
        &&& error matches ZipError::Io { operation, offset }
        &&& offset == self.spec_offset()
        &&& match self {
            Request::Length => operation == IoOperation::Length,
            Request::Read { .. } => operation == IoOperation::Seek || operation
                == IoOperation::Read,
            Request::Done => false,
        }
    }

    /// The offset that the request speaks of; zero where it names none.
    pub open spec fn spec_offset(&self) -> u64 {
        match self {
            Request::Read { offset, .. } => *offset,
            _ => 0,
        }
    }

    /// The offset that the request speaks of; zero where it names none.
    pub fn offset(&self) -> (r: u64)
        ensures
            r == self.spec_offset(),
    {
        match self {
            Request::Read { offset, .. } => *offset,
            _ => 0,
        }
    }
}

} // verus!
