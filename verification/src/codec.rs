//! The message codec: the typed payloads carried on a connection and
//! their canonical byte encoding.
//!
//! The encoding is a tagged, length-delimited layout: a message is the
//! context identifier as 8 little-endian bytes followed by one payload
//! tag byte and the variant's fields.  Variable-length fields carry a
//! 64-bit little-endian length prefix.  Decoding accepts exactly the
//! encodings this module produces; anything else — an unknown tag, a
//! wrong field length, trailing bytes — is rejected, never dropped
//! silently.

use vstd::prelude::*;
use vstd::bytes::{
    lemma_auto_spec_u32_to_from_le_bytes, lemma_auto_spec_u64_to_from_le_bytes,
    spec_u32_from_le_bytes, spec_u32_to_le_bytes, spec_u64_from_le_bytes, spec_u64_to_le_bytes,
    u32_from_le_bytes, u32_to_le_bytes, u64_from_le_bytes, u64_to_le_bytes,
};
use vstd::slice::{slice_index_get, slice_subrange, slice_to_vec};

verus! {

/// A context identifier: unique within one connection until released.
pub type ContextId = u64;

/// A transport-level stream identifier.
pub type StreamId = u64;

/// A protocol version triple.
#[derive(Debug, Clone, Copy, PartialEq, Eq, Structural)]
pub struct Version {
    pub major: u32,
    pub minor: u32,
    pub patch: u32,
}

/// The reliability class of a sub-stream.
#[derive(Debug, Clone, Copy, PartialEq, Eq, Structural)]
pub enum IntegrityType {
    /// Ordered, lossless byte stream.
    Reliable,
    /// Best-effort datagram with bounded size.
    Unreliable,
}

/// An application-level payload carried by one context.
///
/// `Close` and `Data` carry raw bytes; what they mean is the
/// application's business (for `Close`, a human-readable reason).
#[derive(Debug, Clone, PartialEq, Eq)]
pub enum Payload {
    Okay,
    Keepalive,
    HandshakeHello(Version),
    HandshakeAck,
    OpenSubStream(StreamId, IntegrityType),
    Data(Vec<u8>),
    Close(Vec<u8>),
}

/// The atomic unit on the wire: a payload addressed to one context.
#[derive(Debug, Clone, PartialEq, Eq)]
pub struct Message {
    pub context_id: ContextId,
    pub payload: Payload,
}

/// The mathematical value of a [`Payload`]: byte fields become sequences.
pub enum PayloadView {
    Okay,
    Keepalive,
    HandshakeHello(Version),
    HandshakeAck,
    OpenSubStream(StreamId, IntegrityType),
    Data(Seq<u8>),
    Close(Seq<u8>),
}

/// The mathematical value of a [`Message`].
pub struct MessageView {
    pub context_id: ContextId,
    pub payload: PayloadView,
}

impl View for Payload {
    type V = PayloadView;

    open spec fn view(&self) -> PayloadView {
        match self {
            Payload::Okay => PayloadView::Okay,
            Payload::Keepalive => PayloadView::Keepalive,
            Payload::HandshakeHello(v) => PayloadView::HandshakeHello(*v),
            Payload::HandshakeAck => PayloadView::HandshakeAck,
            Payload::OpenSubStream(id, it) => PayloadView::OpenSubStream(*id, *it),
            Payload::Data(d) => PayloadView::Data(d@),
            Payload::Close(r) => PayloadView::Close(r@),
        }
    }
}

impl View for Message {
    type V = MessageView;

    open spec fn view(&self) -> MessageView {
        MessageView { context_id: self.context_id, payload: self.payload@ }
    }
}

impl PayloadView {
    /// Every byte field is short enough for its 64-bit length prefix.
    /// Every payload held in a `Vec` satisfies this.
    pub open spec fn wf(self) -> bool {
        match self {
            PayloadView::Data(d) => d.len() <= u64::MAX,
            PayloadView::Close(r) => r.len() <= u64::MAX,
            _ => true,
        }
    }
}

impl MessageView {
    pub open spec fn wf(self) -> bool {
        self.payload.wf()
    }
}

/// The wire byte for a reliability class.
pub open spec fn spec_integrity_byte(t: IntegrityType) -> u8 {
    match t {
        IntegrityType::Reliable => 1u8,
        IntegrityType::Unreliable => 2u8,
    }
}

/// The reliability class a wire byte stands for, if any.
pub open spec fn spec_byte_integrity(b: u8) -> Option<IntegrityType> {
    if b == 1u8 {
        Some(IntegrityType::Reliable)
    } else if b == 2u8 {
        Some(IntegrityType::Unreliable)
    } else {
        None
    }
}

/// The canonical encoding of a payload: one tag byte, then the fields.
pub open spec fn spec_encode_payload(p: PayloadView) -> Seq<u8> {
    match p {
        PayloadView::Okay => seq![1u8],
        PayloadView::Keepalive => seq![2u8],
        PayloadView::HandshakeHello(v) => seq![3u8] + spec_u32_to_le_bytes(v.major)
            + spec_u32_to_le_bytes(v.minor) + spec_u32_to_le_bytes(v.patch),
        PayloadView::HandshakeAck => seq![4u8],
        PayloadView::OpenSubStream(id, it) => seq![5u8] + spec_u64_to_le_bytes(id)
            + seq![spec_integrity_byte(it)],
        PayloadView::Data(d) => seq![6u8] + spec_u64_to_le_bytes(d.len() as u64) + d,
        PayloadView::Close(r) => seq![7u8] + spec_u64_to_le_bytes(r.len() as u64) + r,
    }
}

/// The canonical encoding of a message: the context identifier as 8
/// little-endian bytes, then the encoded payload.
pub open spec fn spec_encode_message(m: MessageView) -> Seq<u8> {
    spec_u64_to_le_bytes(m.context_id) + spec_encode_payload(m.payload)
}

/// The payload a byte sequence encodes, if it is exactly a canonical
/// payload encoding.
pub open spec fn spec_decode_payload(b: Seq<u8>) -> Option<PayloadView> {
    if b.len() < 1 {
        None
    } else if b[0] == 1u8 {
        if b.len() == 1 { Some(PayloadView::Okay) } else { None }
    } else if b[0] == 2u8 {
        if b.len() == 1 { Some(PayloadView::Keepalive) } else { None }
    } else if b[0] == 3u8 {
        if b.len() == 13 {
            Some(PayloadView::HandshakeHello(Version {
                major: spec_u32_from_le_bytes(b.subrange(1, 5)),
                minor: spec_u32_from_le_bytes(b.subrange(5, 9)),
                patch: spec_u32_from_le_bytes(b.subrange(9, 13)),
            }))
        } else {
            None
        }
    } else if b[0] == 4u8 {
        if b.len() == 1 { Some(PayloadView::HandshakeAck) } else { None }
    } else if b[0] == 5u8 {
        if b.len() == 10 {
            match spec_byte_integrity(b[9]) {
                Some(it) => Some(PayloadView::OpenSubStream(
                    spec_u64_from_le_bytes(b.subrange(1, 9)),
                    it,
                )),
                None => None,
            }
        } else {
            None
        }
    } else if b[0] == 6u8 {
        if b.len() >= 9 && spec_u64_from_le_bytes(b.subrange(1, 9)) == b.len() - 9 {
            Some(PayloadView::Data(b.subrange(9, b.len() as int)))
        } else {
            None
        }
    } else if b[0] == 7u8 {
        if b.len() >= 9 && spec_u64_from_le_bytes(b.subrange(1, 9)) == b.len() - 9 {
            Some(PayloadView::Close(b.subrange(9, b.len() as int)))
        } else {
            None
        }
    } else {
        None
    }
}

/// The message a byte sequence encodes, if it is exactly a canonical
/// message encoding.
pub open spec fn spec_decode_message(b: Seq<u8>) -> Option<MessageView> {
    if b.len() < 9 {
        None
    } else {
        match spec_decode_payload(b.subrange(8, b.len() as int)) {
            Some(p) => Some(MessageView {
                context_id: spec_u64_from_le_bytes(b.subrange(0, 8)),
                payload: p,
            }),
            None => None,
        }
    }
}

/// Decoding inverts encoding: every well-formed payload comes back
/// unchanged from its own encoding.
pub proof fn lemma_payload_round_trip(p: PayloadView)
    requires
        p.wf(),
    ensures
        spec_decode_payload(spec_encode_payload(p)) == Some(p),
{
    lemma_auto_spec_u32_to_from_le_bytes();
    lemma_auto_spec_u64_to_from_le_bytes();
    let e = spec_encode_payload(p);
    match p {
        PayloadView::Okay => {}
        PayloadView::Keepalive => {}
        PayloadView::HandshakeHello(v) => {
            assert(e.subrange(1, 5) =~= spec_u32_to_le_bytes(v.major));
            assert(e.subrange(5, 9) =~= spec_u32_to_le_bytes(v.minor));
            assert(e.subrange(9, 13) =~= spec_u32_to_le_bytes(v.patch));
        }
        PayloadView::HandshakeAck => {}
        PayloadView::OpenSubStream(id, it) => {
            assert(e.subrange(1, 9) =~= spec_u64_to_le_bytes(id));
            assert(e[9] == spec_integrity_byte(it));
        }
        PayloadView::Data(d) => {
            assert(e.subrange(1, 9) =~= spec_u64_to_le_bytes(d.len() as u64));
            assert(e.subrange(9, e.len() as int) =~= d);
        }
        PayloadView::Close(r) => {
            assert(e.subrange(1, 9) =~= spec_u64_to_le_bytes(r.len() as u64));
            assert(e.subrange(9, e.len() as int) =~= r);
        }
    }
}

/// Decoding inverts encoding for whole messages: `decode(encode(m))`
/// yields `m` for every well-formed message.
pub proof fn lemma_message_round_trip(m: MessageView)
    requires
        m.wf(),
    ensures
        spec_decode_message(spec_encode_message(m)) == Some(m),
{
    lemma_auto_spec_u64_to_from_le_bytes();
    let e = spec_encode_message(m);
    assert(spec_encode_payload(m.payload).len() >= 1) by {
        lemma_payload_round_trip(m.payload);
    }
    assert(e.subrange(0, 8) =~= spec_u64_to_le_bytes(m.context_id));
    assert(e.subrange(8, e.len() as int) =~= spec_encode_payload(m.payload));
    lemma_payload_round_trip(m.payload);
}

/// The wire byte for a reliability class (see [`spec_integrity_byte`]).
pub fn integrity_byte(t: IntegrityType) -> (b: u8)
    ensures
        b == spec_integrity_byte(t),
{
    match t {
        IntegrityType::Reliable => 1,
        IntegrityType::Unreliable => 2,
    }
}

/// Produces the canonical serialization of a message.
///
/// Two calls on equal messages give byte-identical output, since the
/// result is fixed by [`spec_encode_message`].
pub fn serialize_message(message: &Message) -> (r: Vec<u8>)
    ensures
        r@ == spec_encode_message(message@),
{
    let mut out: Vec<u8> = u64_to_le_bytes(message.context_id);
    match &message.payload {
        Payload::Okay => {
            out.push(1);
        }
        Payload::Keepalive => {
            out.push(2);
        }
        Payload::HandshakeHello(v) => {
            out.push(3);
            let mut field = u32_to_le_bytes(v.major);
            out.append(&mut field);
            let mut field = u32_to_le_bytes(v.minor);
            out.append(&mut field);
            let mut field = u32_to_le_bytes(v.patch);
            out.append(&mut field);
        }
        Payload::HandshakeAck => {
            out.push(4);
        }
        Payload::OpenSubStream(id, it) => {
            out.push(5);
            let mut field = u64_to_le_bytes(*id);
            out.append(&mut field);
            out.push(integrity_byte(*it));
        }
        Payload::Data(d) => {
            out.push(6);
            let mut field = u64_to_le_bytes(d.len() as u64);
            out.append(&mut field);
            out.extend_from_slice(d.as_slice());
        }
        Payload::Close(r) => {
            out.push(7);
            let mut field = u64_to_le_bytes(r.len() as u64);
            out.append(&mut field);
            out.extend_from_slice(r.as_slice());
        }
    }
    assert(out@ =~= spec_encode_message(message@));
    out
}

/// Parses a payload from exactly the given bytes.
fn deserialize_payload(buf: &[u8]) -> (r: Option<Payload>)
    ensures
        match r {
            Some(p) => spec_decode_payload(buf@) == Some(p@),
            None => spec_decode_payload(buf@) is None,
        },
{
    if buf.len() < 1 {
        return None;
    }
    let tag = *slice_index_get(buf, 0);
    if tag == 1 {
        if buf.len() == 1 { Some(Payload::Okay) } else { None }
    } else if tag == 2 {
        if buf.len() == 1 { Some(Payload::Keepalive) } else { None }
    } else if tag == 3 {
        if buf.len() == 13 {
            let major = u32_from_le_bytes(slice_subrange(buf, 1, 5));
            let minor = u32_from_le_bytes(slice_subrange(buf, 5, 9));
            let patch = u32_from_le_bytes(slice_subrange(buf, 9, 13));
            Some(Payload::HandshakeHello(Version { major, minor, patch }))
        } else {
            None
        }
    } else if tag == 4 {
        if buf.len() == 1 { Some(Payload::HandshakeAck) } else { None }
    } else if tag == 5 {
        if buf.len() == 10 {
            let id = u64_from_le_bytes(slice_subrange(buf, 1, 9));
            let ib = *slice_index_get(buf, 9);
            if ib == 1 {
                Some(Payload::OpenSubStream(id, IntegrityType::Reliable))
            } else if ib == 2 {
                Some(Payload::OpenSubStream(id, IntegrityType::Unreliable))
            } else {
                None
            }
        } else {
            None
        }
    } else if tag == 6 || tag == 7 {
        if buf.len() >= 9 {
            let len = u64_from_le_bytes(slice_subrange(buf, 1, 9));
            let body_len: usize = buf.len() - 9;
            if len == body_len as u64 {
                let body = slice_to_vec(slice_subrange(buf, 9, buf.len()));
                if tag == 6 {
                    Some(Payload::Data(body))
                } else {
                    Some(Payload::Close(body))
                }
            } else {
                None
            }
        } else {
            None
        }
    } else {
        None
    }
}

/// Parses a message from exactly the given bytes; the inverse of
/// [`serialize_message`].  Returns `None` on anything that is not a
/// canonical encoding, which callers treat as malformed.
pub fn deserialize_message(buf: &[u8]) -> (r: Option<Message>)
    ensures
        match r {
            Some(m) => spec_decode_message(buf@) == Some(m@),
            None => spec_decode_message(buf@) is None,
        },
{
    if buf.len() < 9 {
        return None;
    }
    let context_id = u64_from_le_bytes(slice_subrange(buf, 0, 8));
    match deserialize_payload(slice_subrange(buf, 8, buf.len())) {
        Some(payload) => Some(Message { context_id, payload }),
        None => None,
    }
}

} // verus!
