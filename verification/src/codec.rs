//! Turning an entry's compressed bytes into its contents.

use vstd::prelude::*;

verus! {

/// Method tag of an entry whose bytes are stored as they are.
pub const STORED: u16 = 0u16;

/// Method tag of an entry compressed with DEFLATE.
pub const DEFLATED: u16 = 8u16;

/// What the DEFLATE stream `compressed` decompresses to when the output may
/// have at most `limit` bytes.  There is no output where the bytes are not
/// one complete DEFLATE stream, or where it would be longer than `limit`.
pub uninterp spec fn inflated(compressed: Seq<u8>, limit: usize) -> Option<Seq<u8>>;

/// Calls `miniz_oxide::inflate::decompress_to_vec_with_limit`.  The result
/// is the decompressed data where that function reports success, and never
/// longer than `limit`; every failure it reports is `None` here.
#[verifier::external_body]
fn inflate(compressed: &[u8], limit: usize) -> (r: Option<Vec<u8>>)
    ensures
        match r {
            Some(out) => inflated(compressed@, limit) == Some(out@) && out@.len() <= limit,
            None => inflated(compressed@, limit) is None,
        },
{
    miniz_oxide::inflate::decompress_to_vec_with_limit(compressed, limit).ok()
}

/// What `compressed` stands for under the compression method `method`:
/// itself where the bytes are stored, the inflated stream where they are
/// deflated, and nothing under any other method.
pub open spec fn decoded(method: u16, compressed: Seq<u8>, limit: usize) -> Option<Seq<u8>> {
    if method == STORED {
        Some(compressed)
    } else if method == DEFLATED {
        inflated(compressed, limit)
    } else {
        None
    }
}

/// Decompresses the complete compressed bytes of an entry.  `limit` bounds
/// the output of a deflated entry.
pub fn decompress(method: u16, compressed: Vec<u8>, limit: usize) -> (r: Option<Vec<u8>>)
    ensures
        match r {
            Some(out) => decoded(method, compressed@, limit) == Some(out@),
            None => decoded(method, compressed@, limit) is None,
        },
{
    if method == STORED {
        Some(compressed)
    } else if method == DEFLATED {
        inflate(compressed.as_slice(), limit)
    } else {
        None
    }
}

/// How one step of a codec ended.
#[derive(Clone, Copy, Debug, PartialEq, Eq, Structural)]
pub enum Verdict {
    /// The codec can go on.
    More,
    /// The codec has seen the end of the compressed stream.
    End,
    /// The codec could do nothing with what it was given.
    Stalled,
    /// The compressed bytes are not what the codec can read.
    Failed,
}

/// What one step of a codec came to: how many of the compressed bytes it
/// took, what came out, and how it ended.
#[derive(Clone, Debug)]
pub struct Progress {
    pub consumed: usize,
    pub output: Vec<u8>,
    pub verdict: Verdict,
}

/// The state of a DEFLATE stream that is decompressed piece by piece.
#[verifier::external_type_specification]
#[verifier::external_body]
pub struct ExInflateState(miniz_oxide::inflate::stream::InflateState);

/// Calls `miniz_oxide::inflate::stream::InflateState::new_boxed` for a raw
/// DEFLATE stream.  Nothing is claimed of the state.
#[verifier::external_body]
fn inflate_state() -> Box<miniz_oxide::inflate::stream::InflateState> {
    miniz_oxide::inflate::stream::InflateState::new_boxed(miniz_oxide::DataFormat::Raw)
}

/// What one step of `miniz_oxide::inflate::stream::inflate` comes to on a
/// stream in the state `state`, given `input` and room for `room` bytes of
/// output: how many bytes of `input` it takes, what it gives out, and how it
/// ends.
pub uninterp spec fn stepped(
    state: miniz_oxide::inflate::stream::InflateState,
    input: Seq<u8>,
    room: usize,
) -> (usize, Seq<u8>, Verdict);

/// The state in which such a step leaves the stream.
pub uninterp spec fn stepped_state(
    state: miniz_oxide::inflate::stream::InflateState,
    input: Seq<u8>,
    room: usize,
) -> miniz_oxide::inflate::stream::InflateState;

/// Calls `miniz_oxide::inflate::stream::inflate` with room for `room` bytes
/// of output.  What it takes, gives and reports, and the state it leaves,
/// are a matter of the state, the input and the room alone; it takes no more
/// bytes than `input` has and gives no more than `room`.
#[verifier::external_body]
fn inflate_step(
    state: &mut Box<miniz_oxide::inflate::stream::InflateState>,
    input: &[u8],
    room: usize,
) -> (r: Progress)
    ensures
        (r.consumed, r.output@, r.verdict) == stepped(**old(state), input@, room),
        **final(state) == stepped_state(**old(state), input@, room),
        r.consumed <= input@.len(),
        r.output@.len() <= room,
{
    let mut output = vec![0u8; room];
    let result = miniz_oxide::inflate::stream::inflate(state, input, &mut output, miniz_oxide::MZFlush::None);
    output.truncate(result.bytes_written);
    let verdict = match result.status {
        Ok(miniz_oxide::MZStatus::Ok) => Verdict::More,
        Ok(miniz_oxide::MZStatus::StreamEnd) => Verdict::End,
        Ok(miniz_oxide::MZStatus::NeedDict) => Verdict::Failed,
        Err(miniz_oxide::MZError::Buf) => Verdict::Stalled,
        Err(_) => Verdict::Failed,
    };
    Progress { consumed: result.bytes_consumed, output, verdict }
}

/// The most bytes that one step of the DEFLATE codec gives out.
pub const STEP_LEN: usize = 65536usize;

/// What decompresses an entry piece by piece.
pub enum Codec {
    /// The bytes are stored as they are.
    Stored,
    /// The bytes are a DEFLATE stream.
    Deflate(Box<miniz_oxide::inflate::stream::InflateState>),
    /// The bytes are compressed by a method that cannot be undone here.
    Unsupported,
}

impl Codec {
    /// The codec for the compression method `method`.
    pub fn for_method(method: u16) -> (r: Codec)
        ensures
            r is Stored <==> method == STORED,
            r is Deflate <==> method == DEFLATED,
    {
        if method == STORED {
            Codec::Stored
        } else if method == DEFLATED {
            Codec::Deflate(inflate_state())
        } else {
            Codec::Unsupported
        }
    }

    /// What one step of a stored entry comes to: as many bytes of `input`
    /// as there is room for, as they are.
    pub open spec fn stored_step(input: Seq<u8>, room: usize) -> Seq<u8> {
        if input.len() <= room {
            input
        } else {
            input.subrange(0, room as int)
        }
    }

    /// The room that a step is given when the caller has room for `room`
    /// bytes: no more than `STEP_LEN`.
    pub open spec fn bounded(room: usize) -> usize {
        if room <= STEP_LEN {
            room
        } else {
            STEP_LEN
        }
    }

    /// What one step of this codec comes to, given `input` and room for
    /// `room` bytes: how many bytes of `input` it takes, what it gives out,
    /// and how it ends.  Stored bytes are handed on as they are, a DEFLATE
    /// stream takes one step of inflation, and an unsupported method fails
    /// without taking anything.
    pub open spec fn outcome(self, input: Seq<u8>, room: usize) -> (usize, Seq<u8>, Verdict) {
        match self {
            Codec::Stored => (
                Self::stored_step(input, room).len() as usize,
                Self::stored_step(input, room),
                Verdict::More,
            ),
            Codec::Deflate(state) => stepped(*state, input, Self::bounded(room)),
            Codec::Unsupported => (0, Seq::empty(), Verdict::Failed),
        }
    }

    /// The codec after such a step.
    pub open spec fn after(self, input: Seq<u8>, room: usize) -> Codec {
        match self {
            Codec::Stored => Codec::Stored,
            Codec::Deflate(state) => Codec::Deflate(
                Box::new(stepped_state(*state, input, Self::bounded(room))),
            ),
            Codec::Unsupported => Codec::Unsupported,
        }
    }

    /// Decompresses the next of `input` into at most `room` bytes.
    ///
    /// The step takes no more than `input` has and gives no more than `room`
    /// bytes, nor more than `STEP_LEN` from a DEFLATE stream.  Stored bytes
    /// are handed on as they are; an unsupported method fails without taking
    /// anything.
    pub fn step(&mut self, input: &[u8], room: usize) -> (r: Progress)
        ensures
            (r.consumed, r.output@, r.verdict) == old(self).outcome(input@, room),
            *final(self) == old(self).after(input@, room),
            r.consumed <= input@.len(),
            r.output@.len() <= room,
            *final(self) is Stored <==> *old(self) is Stored,
            *final(self) is Deflate <==> *old(self) is Deflate,
            *old(self) is Stored ==> r.output@ == Self::stored_step(input@, room) && r.consumed
                == r.output@.len() && r.verdict == Verdict::More,
            *old(self) is Deflate ==> r.output@.len() <= STEP_LEN,
            *old(self) is Unsupported ==> r.output@.len() == 0 && r.consumed == 0 && r.verdict
                == Verdict::Failed,
    {
        match self {
            Codec::Stored => {
                let moved: usize = if input.len() <= room {
                    input.len()
                } else {
                    room
                };
                let output = vstd::slice::slice_to_vec(
                    vstd::slice::slice_subrange(input, 0, moved),
                );
                proof {
                    assert(input@.subrange(0, input@.len() as int) =~= input@);
                }
                Progress { consumed: moved, output, verdict: Verdict::More }
            },
            Codec::Deflate(state) => {
                let bounded: usize = if room <= STEP_LEN {
                    room
                } else {
                    STEP_LEN
                };
                inflate_step(state, input, bounded)
            },
            Codec::Unsupported => Progress {
                consumed: 0,
                output: Vec::new(),
                verdict: Verdict::Failed,
            },
        }
    }
}

} // verus!
