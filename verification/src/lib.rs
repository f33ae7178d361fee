//! A connection-oriented multiplexing protocol layer.
//!
//! The crate provides the framing, codec, demultiplexing and lifecycle
//! rules that turn one bidirectional transport stream plus an unreliable
//! datagram path into a multi-context message bus.  The transport itself
//! (sockets, tasks, timers) lives outside this crate; everything here is
//! plain state and bytes, with contracts checked by Verus.

pub mod codec;
pub mod context;
pub mod counter;
pub mod datagram;
pub mod error;
pub mod frame;
pub mod handshake;
pub mod pmc;
