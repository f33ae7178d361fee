//! Length-delimited framing on the control stream.
//!
//! A frame is an unsigned 64-bit little-endian length followed by that
//! many payload bytes.  Frames whose stated length is above the size
//! ceiling are rejected before any allocation for the body is made.

use vstd::prelude::*;
use vstd::bytes::{
    lemma_auto_spec_u64_to_from_le_bytes, spec_u64_from_le_bytes, spec_u64_to_le_bytes,
    u64_from_le_bytes, u64_to_le_bytes,
};
use vstd::slice::{slice_subrange, slice_to_vec};

use crate::codec::{serialize_message, spec_encode_message, Message};

verus! {

/// The hard ceiling on a frame body, in bytes: 16 MiB.
pub const MAX_FRAME_SIZE: u64 = 16 * 1024 * 1024;

/// The canonical frame for a body: 8 little-endian length bytes, then
/// the body itself.
pub open spec fn spec_frame(b: Seq<u8>) -> Seq<u8> {
    spec_u64_to_le_bytes(b.len() as u64) + b
}

/// The body a byte sequence frames, if it is exactly one well-formed
/// frame: a correct length prefix, a body under the ceiling, nothing
/// trailing.
pub open spec fn spec_unframe(b: Seq<u8>) -> Option<Seq<u8>> {
    if b.len() >= 8 {
        let len = spec_u64_from_le_bytes(b.subrange(0, 8));
        if len <= MAX_FRAME_SIZE && b.len() - 8 == len {
            Some(b.subrange(8, b.len() as int))
        } else {
            None
        }
    } else {
        None
    }
}

/// Unframing inverts framing: every body under the size ceiling comes
/// back unchanged from its own frame.
pub proof fn lemma_frame_round_trip(b: Seq<u8>)
    requires
        b.len() <= MAX_FRAME_SIZE,
    ensures
        spec_unframe(spec_frame(b)) == Some(b),
{
    lemma_auto_spec_u64_to_from_le_bytes();
    let f = spec_frame(b);
    assert(f.subrange(0, 8) =~= spec_u64_to_le_bytes(b.len() as u64));
    assert(f.subrange(8, f.len() as int) =~= b);
}

/// Prefixes a body with its 64-bit little-endian length.  The whole
/// frame is produced at once; a writer hands it to the transport in one
/// piece, so the prefix and the body never part ways.
pub fn frame(body: &Vec<u8>) -> (r: Vec<u8>)
    requires
        body@.len() <= MAX_FRAME_SIZE,
    ensures
        r@ == spec_frame(body@),
{
    let mut out: Vec<u8> = u64_to_le_bytes(body.len() as u64);
    out.extend_from_slice(body.as_slice());
    assert(out@ =~= spec_frame(body@));
    out
}

/// Recovers the body from exactly one frame; the inverse of [`frame`].
/// Returns `None` on a short buffer, a body over the ceiling, or a
/// length prefix that does not match the bytes present.
pub fn unframe(buf: &Vec<u8>) -> (r: Option<Vec<u8>>)
    ensures
        match r {
            Some(body) => spec_unframe(buf@) == Some(body@),
            None => spec_unframe(buf@) is None,
        },
{
    if buf.len() < 8 {
        return None;
    }
    let len = u64_from_le_bytes(slice_subrange(buf.as_slice(), 0, 8));
    let body_len: usize = buf.len() - 8;
    if len <= MAX_FRAME_SIZE && len == body_len as u64 {
        Some(slice_to_vec(slice_subrange(buf.as_slice(), 8, buf.len())))
    } else {
        None
    }
}

/// Reads the length prefix of a frame from its first 8 bytes.
pub fn frame_len(prefix: &[u8]) -> (len: u64)
    requires
        prefix@.len() == 8,
    ensures
        len == spec_u64_from_le_bytes(prefix@),
{
    u64_from_le_bytes(prefix)
}

/// Whether a stated frame length is under the ceiling, so that a reader
/// may allocate for the body.  A reader checks this before allocating;
/// a frame that fails it is a fatal decode error.
pub fn frame_len_admissible(len: u64) -> (r: bool)
    ensures
        r == (len <= MAX_FRAME_SIZE),
{
    len <= MAX_FRAME_SIZE
}

/// Serializes a message and frames it: the exact bytes a writer puts on
/// the control stream for this message.  Returns `None` if and only if
/// the encoded message is over the frame ceiling.
pub fn frame_message(message: &Message) -> (r: Option<Vec<u8>>)
    ensures
        match r {
            Some(bytes) => spec_encode_message(message@).len() <= MAX_FRAME_SIZE
                && bytes@ == spec_frame(spec_encode_message(message@)),
            None => spec_encode_message(message@).len() > MAX_FRAME_SIZE,
        },
{
    let body = serialize_message(message);
    if body.len() as u64 <= MAX_FRAME_SIZE {
        Some(frame(&body))
    } else {
        None
    }
}


/// The whole wire round trip: a well-formed message that fits in one
/// frame comes back unchanged from unframing and decoding its own
/// framed encoding — exactly what a reader does with a writer's bytes.
pub proof fn lemma_wire_round_trip(m: crate::codec::MessageView)
    requires
        m.wf(),
        crate::codec::spec_encode_message(m).len() <= MAX_FRAME_SIZE,
    ensures
        ({
            let body = crate::codec::spec_encode_message(m);
            &&& spec_unframe(spec_frame(body)) == Some(body)
            &&& crate::codec::spec_decode_message(body) == Some(m)
        }),
{
    lemma_frame_round_trip(crate::codec::spec_encode_message(m));
    crate::codec::lemma_message_round_trip(m);
}

} // verus!
