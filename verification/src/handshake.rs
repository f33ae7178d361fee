//! The connection handshake and the sub-stream control verbs.
//!
//! A connection opens with a short exchange on the reserved context 0:
//! the client sends its version, the server answers with an
//! acknowledgement when the major version matches and with a `Close`
//! carrying a reason otherwise.  Once open, an arbitrary context
//! spawns sub-streams by announcing them with `OpenSubStream`.

use vstd::prelude::*;

use crate::codec::{
    ContextId, IntegrityType, Message, MessageView, Payload, PayloadView, StreamId, Version,
};
use crate::error::ConnectionError;

verus! {

/// The protocol version this crate speaks.
pub const VERSION_MAJOR: u32 = 1;

pub const VERSION_MINOR: u32 = 0;

pub const VERSION_PATCH: u32 = 0;

/// The context identifier reserved for the handshake: the server's
/// initial context, never allocated by the counter.
pub const HANDSHAKE_CONTEXT_ID: ContextId = 0;

/// The current protocol version, 1.0.0.
pub fn protocol_version() -> (v: Version)
    ensures
        v == (Version { major: VERSION_MAJOR, minor: VERSION_MINOR, patch: VERSION_PATCH }),
{
    Version { major: VERSION_MAJOR, minor: VERSION_MINOR, patch: VERSION_PATCH }
}

/// Whether a peer's version can talk to this one: the major version
/// decides.
pub open spec fn spec_version_compatible(v: Version) -> bool {
    v.major == VERSION_MAJOR
}

/// The reason bytes a server sends when it refuses a major version:
/// the ASCII text "unsupported major".
pub open spec fn spec_unsupported_major_reason() -> Seq<u8> {
    seq![
        117u8, 110u8, 115u8, 117u8, 112u8, 112u8, 111u8, 114u8, 116u8, 101u8, 100u8, 32u8,
        109u8, 97u8, 106u8, 111u8, 114u8,
    ]
}

/// The refusal reason as bytes (see [`spec_unsupported_major_reason`]).
pub fn unsupported_major_reason() -> (r: Vec<u8>)
    ensures
        r@ == spec_unsupported_major_reason(),
{
    let r: Vec<u8> = vec![
        117u8, 110u8, 115u8, 117u8, 112u8, 112u8, 111u8, 114u8, 116u8, 101u8, 100u8, 32u8,
        109u8, 97u8, 106u8, 111u8, 114u8,
    ];
    assert(r@ =~= spec_unsupported_major_reason());
    r
}

/// The message a connecting client sends first: its version, on the
/// handshake context.
pub fn client_hello() -> (m: Message)
    ensures
        m@.context_id == HANDSHAKE_CONTEXT_ID,
        m@.payload == PayloadView::HandshakeHello(
            (Version { major: VERSION_MAJOR, minor: VERSION_MINOR, patch: VERSION_PATCH }),
        ),
{
    Message { context_id: HANDSHAKE_CONTEXT_ID, payload: Payload::HandshakeHello(protocol_version()) }
}

/// The server's answer to the first message of a connection.
///
/// A version greeting with a matching major version is accepted: the
/// reply is `HandshakeAck` and the connection proceeds.  A greeting
/// with any other major version is answered with `Close` carrying the
/// refusal reason, and the connection is torn down.  Anything that is
/// not a version greeting on the handshake context is malformed.
pub fn server_handle_hello(m: &Message) -> (r: Result<(Message, bool), ConnectionError>)
    ensures
        match r {
            Ok(reply) => {
                &&& m@.context_id == HANDSHAKE_CONTEXT_ID
                &&& m@.payload matches PayloadView::HandshakeHello(v)
                &&& reply.0@.context_id == HANDSHAKE_CONTEXT_ID
                &&& if spec_version_compatible(v) {
                    reply.1 && reply.0@.payload == PayloadView::HandshakeAck
                } else {
                    !reply.1 && reply.0@.payload == PayloadView::Close(
                        spec_unsupported_major_reason(),
                    )
                }
            },
            Err(e) => {
                &&& e == ConnectionError::MalformedMessage
                &&& !(m@.context_id == HANDSHAKE_CONTEXT_ID
                    && m@.payload is HandshakeHello)
            },
        },
{
    if m.context_id != HANDSHAKE_CONTEXT_ID {
        return Err(ConnectionError::MalformedMessage);
    }
    match &m.payload {
        Payload::HandshakeHello(v) => {
            if v.major == VERSION_MAJOR {
                Ok((
                    Message { context_id: HANDSHAKE_CONTEXT_ID, payload: Payload::HandshakeAck },
                    true,
                ))
            } else {
                Ok((
                    Message {
                        context_id: HANDSHAKE_CONTEXT_ID,
                        payload: Payload::Close(unsupported_major_reason()),
                    },
                    false,
                ))
            }
        }
        _ => Err(ConnectionError::MalformedMessage),
    }
}

/// The client's reading of the server's handshake answer.
///
/// `HandshakeAck` on the handshake context opens the connection.  A
/// `Close` there is the server refusing: the connection fails with
/// `HandshakeReject` carrying the server's reason.  Anything else is
/// malformed.
pub fn client_handle_response(m: Message) -> (r: Result<(), ConnectionError>)
    ensures
        match r {
            Ok(u) => m@.context_id == HANDSHAKE_CONTEXT_ID && m@.payload
                == PayloadView::HandshakeAck,
            Err(e) => match e {
                ConnectionError::HandshakeReject(reason) => m@.context_id
                    == HANDSHAKE_CONTEXT_ID && m@.payload == PayloadView::Close(reason@),
                ConnectionError::MalformedMessage => !(m@.context_id == HANDSHAKE_CONTEXT_ID
                    && (m@.payload is HandshakeAck || m@.payload is Close)),
                _ => false,
            },
        },
{
    if m.context_id != HANDSHAKE_CONTEXT_ID {
        return Err(ConnectionError::MalformedMessage);
    }
    match m.payload {
        Payload::HandshakeAck => Ok(()),
        Payload::Close(reason) => Err(ConnectionError::HandshakeReject(reason)),
        _ => Err(ConnectionError::MalformedMessage),
    }
}

/// The control message an arbitrary context sends to announce a fresh
/// sub-stream of the chosen reliability class.
pub fn open_sub_stream_message(
    context_id: ContextId,
    stream_id: StreamId,
    integrity: IntegrityType,
) -> (m: Message)
    ensures
        m@.context_id == context_id,
        m@.payload == PayloadView::OpenSubStream(stream_id, integrity),
{
    Message { context_id, payload: Payload::OpenSubStream(stream_id, integrity) }
}

/// Reads a sub-stream announcement out of a payload, if it is one.
pub fn parse_open_sub_stream(payload: &Payload) -> (r: Option<(StreamId, IntegrityType)>)
    ensures
        match r {
            Some(p) => payload@ == PayloadView::OpenSubStream(p.0, p.1),
            None => !(payload@ is OpenSubStream),
        },
{
    match payload {
        Payload::OpenSubStream(stream_id, integrity) => Some((*stream_id, *integrity)),
        _ => None,
    }
}

} // verus!
