//! Length-prefixed frames: every message on the wire is a four-byte
//! big-endian length followed by exactly that many payload bytes.

use vstd::prelude::*;
use vstd::slice::{slice_subrange, slice_to_vec};

verus! {

/// Number of bytes of the length prefix.
pub const PREFIX_LEN: usize = 4;

/// Largest payload that a frame can carry.
pub const MAX_PAYLOAD_LEN: u32 = 0xffff_ffff;

/// Why a frame could not be written or read.
#[derive(Clone, Copy, Debug, PartialEq, Eq, Structural)]
pub enum FramingError {
    /// The payload is longer than a length prefix can express.
    PayloadTooLarge,
    /// The stream ended before the prefix or the announced payload was
    /// complete.
    ShortRead,
}

/// The four big-endian bytes of `n`.
pub open spec fn prefix_of(n: nat) -> Seq<u8> {
    seq![
        ((n / 0x100_0000) % 0x100) as u8,
        ((n / 0x1_0000) % 0x100) as u8,
        ((n / 0x100) % 0x100) as u8,
        (n % 0x100) as u8,
    ]
}

/// The unsigned integer that four big-endian bytes denote.
pub open spec fn prefix_value(prefix: Seq<u8>) -> nat {
    (prefix[0] as nat) * 0x100_0000 + (prefix[1] as nat) * 0x1_0000 + (prefix[2] as nat) * 0x100 + (
    prefix[3] as nat)
}

/// The bytes of the frame that carries `payload`.
pub open spec fn frame_of(payload: Seq<u8>) -> Seq<u8> {
    prefix_of(payload.len()) + payload
}

/// A frame taken off the front of a stream.
pub struct ParsedFrame {
    /// The payload of the frame.
    pub payload: Seq<u8>,
    /// Number of bytes of the stream that the frame occupies.
    pub consumed: nat,
}

/// The first frame of a stream, if the stream holds a complete one.
pub open spec fn parse_frame(stream: Seq<u8>) -> Option<ParsedFrame> {
    if stream.len() < PREFIX_LEN {
        None
    } else {
        let announced = prefix_value(stream.subrange(0, PREFIX_LEN as int));
        if stream.len() < PREFIX_LEN + announced {
            None
        } else {
            Some(
                ParsedFrame {
                    payload: stream.subrange(PREFIX_LEN as int, PREFIX_LEN + announced),
                    consumed: (PREFIX_LEN + announced) as nat,
                },
            )
        }
    }
}

/// Decoding a length prefix gives back the length that was encoded.
pub proof fn lemma_prefix_round_trip(n: nat)
    requires
        n <= MAX_PAYLOAD_LEN,
    ensures
        prefix_of(n).len() == PREFIX_LEN,
        prefix_value(prefix_of(n)) == n,
{
}

/// Framing round trip: the frame of a payload, followed by anything, parses
/// back into exactly that payload and leaves what followed.
pub proof fn lemma_frame_round_trip(payload: Seq<u8>, rest: Seq<u8>)
    requires
        payload.len() <= MAX_PAYLOAD_LEN,
    ensures
        parse_frame(frame_of(payload) + rest) == Some(
            ParsedFrame { payload, consumed: (PREFIX_LEN + payload.len()) as nat },
        ),
        (frame_of(payload) + rest).subrange(
            PREFIX_LEN + payload.len(),
            (frame_of(payload) + rest).len() as int,
        ) == rest,
{
    let stream = frame_of(payload) + rest;
    lemma_prefix_round_trip(payload.len());
    assert(stream.subrange(0, PREFIX_LEN as int) =~= prefix_of(payload.len()));
    assert(stream.subrange(PREFIX_LEN as int, PREFIX_LEN + payload.len()) =~= payload);
    assert(stream.subrange(PREFIX_LEN + payload.len(), stream.len() as int) =~= rest);
}

/// The length prefix of a payload of `len` bytes.
pub fn length_prefix(len: usize) -> (r: Result<[u8; 4], FramingError>)
    ensures
        match r {
            Ok(prefix) => len <= MAX_PAYLOAD_LEN && prefix@ == prefix_of(len as nat),
            Err(e) => len > MAX_PAYLOAD_LEN && e == FramingError::PayloadTooLarge,
        },
{
    if len > MAX_PAYLOAD_LEN as usize {
        return Err(FramingError::PayloadTooLarge);
    }
    let n: u32 = len as u32;
    let prefix: [u8; 4] = [
        (n / 0x100_0000) as u8,
        ((n / 0x1_0000) % 0x100) as u8,
        ((n / 0x100) % 0x100) as u8,
        (n % 0x100) as u8,
    ];
    assert(prefix@ =~= prefix_of(len as nat));
    Ok(prefix)
}

/// The payload length that a prefix announces.
pub fn payload_length(prefix: &[u8; 4]) -> (len: usize)
    ensures
        len == prefix_value(prefix@),
        len <= MAX_PAYLOAD_LEN,
{
    let n: u32 = (prefix[0] as u32) * 0x100_0000 + (prefix[1] as u32) * 0x1_0000 + (
    prefix[2] as u32) * 0x100 + (prefix[3] as u32);
    n as usize
}

/// The bytes that send one frame: the length prefix and the payload, to be
/// written as a single logical write.
pub fn encode_frame(payload: &[u8]) -> (r: Result<Vec<u8>, FramingError>)
    ensures
        match r {
            Ok(frame) => payload@.len() <= MAX_PAYLOAD_LEN && frame@ == frame_of(payload@),
            Err(e) => payload@.len() > MAX_PAYLOAD_LEN && e == FramingError::PayloadTooLarge,
        },
{
    let prefix = match length_prefix(payload.len()) {
        Ok(p) => p,
        Err(e) => {
            return Err(e);
        },
    };
    let mut frame: Vec<u8> = Vec::new();
    frame.push(prefix[0]);
    frame.push(prefix[1]);
    frame.push(prefix[2]);
    frame.push(prefix[3]);
    assert(frame@ =~= prefix_of(payload@.len()));
    frame.extend_from_slice(payload);
    assert(frame@ =~= frame_of(payload@));
    Ok(frame)
}

/// Reads one frame off the front of `stream`.
///
/// Succeeds exactly when the stream holds the four prefix bytes and the
/// payload they announce; the result is the payload and the number of bytes
/// consumed. Anything shorter is a [`FramingError::ShortRead`].
pub fn read_frame(stream: &[u8]) -> (r: Result<(Vec<u8>, usize), FramingError>)
    ensures
        match r {
            Ok((payload, consumed)) => parse_frame(stream@) == Some(
                ParsedFrame { payload: payload@, consumed: consumed as nat },
            ),
            Err(e) => parse_frame(stream@) is None && e == FramingError::ShortRead,
        },
{
    if stream.len() < PREFIX_LEN {
        return Err(FramingError::ShortRead);
    }
    let prefix: [u8; 4] = [stream[0], stream[1], stream[2], stream[3]];
    assert(prefix@ =~= stream@.subrange(0, PREFIX_LEN as int));
    let announced = payload_length(&prefix);
    if stream.len() - PREFIX_LEN < announced {
        return Err(FramingError::ShortRead);
    }
    let payload = slice_to_vec(slice_subrange(stream, PREFIX_LEN, PREFIX_LEN + announced));
    Ok((payload, PREFIX_LEN + announced))
}

} // verus!
