//! One length-prefixed protocol frame: a 4-byte header — 3-byte little-endian
//! payload length and a 1-byte sequence id — followed by the payload.

use crate::bytes::{append_bytes, copy_range, le3_bytes, le3_value};
use crate::error::AuthError;
use vstd::prelude::*;

verus! {

/// One protocol message, header fields split out.
pub struct Frame {
    pub sequence_id: u8,
    pub payload: Vec<u8>,
}

impl Frame {
    /// The payload must fit the 3-byte length field.
    pub open spec fn wf(self) -> bool {
        self.payload@.len() < 16777216
    }
}

/// The serialized form of a frame: length, sequence id, payload.
pub open spec fn frame_bytes(sequence_id: u8, payload: Seq<u8>) -> Seq<u8> {
    le3_bytes(payload.len() as int) + seq![sequence_id] + payload
}

/// The payload length a buffer's header declares.
pub open spec fn declared_len(buf: Seq<u8>) -> int
    recommends
        buf.len() >= 4,
{
    le3_value(buf[0], buf[1], buf[2])
}

/// Whether `buf` begins with one complete frame: a 4-byte header and at least
/// as many payload bytes as the header declares.
pub open spec fn holds_frame(buf: Seq<u8>) -> bool {
    buf.len() >= 4 && 4 + declared_len(buf) <= buf.len()
}

/// The payload of the frame at the head of `buf`.
pub open spec fn frame_payload(buf: Seq<u8>) -> Seq<u8>
    recommends
        holds_frame(buf),
{
    buf.subrange(4, 4 + declared_len(buf))
}

/// Splits the frame at the head of `buf` into its header fields and payload.
/// Bytes past the declared frame end are ignored, as when a single read
/// returned the frame inside a larger buffer.
pub fn decode_frame(buf: &[u8]) -> (r: Result<Frame, AuthError>)
    ensures
        match r {
            Ok(f) => holds_frame(buf@) && f.sequence_id == buf@[3] && f.payload@ == frame_payload(
                buf@,
            ) && f.wf(),
            Err(e) => e == AuthError::ParseError && !holds_frame(buf@),
        },
{
    if buf.len() < 4 {
        return Err(AuthError::ParseError);
    }
    let len: usize = buf[0] as usize + 256 * (buf[1] as usize) + 65536 * (buf[2] as usize);
    if buf.len() - 4 < len {
        return Err(AuthError::ParseError);
    }
    let payload = copy_range(buf, 4, 4 + len);
    Ok(Frame { sequence_id: buf[3], payload })
}

/// Serializes a frame: writes the payload length into the 3-byte header,
/// then the sequence id, then the payload.
pub fn encode_frame(f: &Frame) -> (r: Vec<u8>)
    requires
        f.wf(),
    ensures
        r@ == frame_bytes(f.sequence_id, f.payload@),
        r@.len() == 4 + f.payload@.len(),
{
    let len: usize = f.payload.len();
    let mut v: Vec<u8> = Vec::new();
    v.push((len % 256) as u8);
    v.push(((len / 256) % 256) as u8);
    v.push(((len / 65536) % 256) as u8);
    v.push(f.sequence_id);
    proof {
        assert(v@ =~= le3_bytes(len as int) + seq![f.sequence_id]);
    }
    append_bytes(&mut v, f.payload.as_slice());
    proof {
        assert(v@ =~= frame_bytes(f.sequence_id, f.payload@));
    }
    v
}

/// Decoding what `encode_frame` wrote recovers the frame: the header declares
/// exactly the payload length, and the payload follows unchanged.
pub proof fn lemma_frame_round_trip(sequence_id: u8, payload: Seq<u8>)
    requires
        payload.len() < 16777216,
    ensures
        holds_frame(frame_bytes(sequence_id, payload)),
        frame_bytes(sequence_id, payload)[3] == sequence_id,
        frame_payload(frame_bytes(sequence_id, payload)) == payload,
{
    let b = frame_bytes(sequence_id, payload);
    crate::bytes::lemma_le3_round_trip(payload.len() as int);
    assert(declared_len(b) == payload.len());
    assert(frame_payload(b) =~= payload);
}

} // verus!
