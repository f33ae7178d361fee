//! Error taxonomy of the protocol core, and transport-level events.

use vstd::prelude::*;

use crate::codec::StreamId;

verus! {

/// A transport error: either a transient hiccup the pump logs and
/// survives, or a fatal failure that ends the connection.
#[derive(Debug, Clone, PartialEq, Eq)]
pub enum UTPError {
    /// Recoverable; the pump continues.
    Warn(String),
    /// The transport is gone; the pump stops and all contexts close.
    Fatal(String),
}

/// An event surfaced by the transport.
#[derive(Debug, Clone, PartialEq, Eq)]
pub enum UTPEvent {
    UnexpectedClose,
    NewStream(StreamId),
}

/// An error returned by a context's read or write half.
#[derive(Debug, Clone, PartialEq, Eq)]
pub enum StreamError {
    /// The inbound queue is closed: the pump has terminated.
    ClosedStream,
    /// A write failed in the transport; no retry is attempted.
    UTP(UTPError),
}

/// A connection-scope error.
#[derive(Debug, Clone, PartialEq, Eq)]
pub enum ConnectionError {
    UTP(UTPError),
    ClosedStream,
    /// The peer refused the handshake; carries the reason bytes from
    /// its `Close` payload.
    HandshakeReject(Vec<u8>),
    /// An inbound frame did not decode; fatal at connection scope.
    MalformedMessage,
}

/// The top-level error type of the crate.
#[derive(Debug, Clone, PartialEq, Eq)]
pub enum ProtofishError {
    UTP(UTPError),
    Connection(ConnectionError),
    /// A message could not be encoded within the frame ceiling.
    Encode,
}

} // verus!
