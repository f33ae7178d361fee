//! The per-connection demultiplexer: routing state and pump logic.
//!
//! One pump per connection reads frames off the control stream and
//! routes each message by its context identifier: to the subscribed
//! context's inbound queue if there is one, else to the shared
//! "unclaimed" queue from which new remote-initiated contexts are
//! discovered.  The state here is the whole routing truth; the
//! surrounding tasks and channels only carry its decisions.

use vstd::prelude::*;
use std::collections::HashMap;

use crate::codec::{ContextId, Message, MessageView, Payload, PayloadView, spec_decode_message, spec_encode_message};
use crate::context::{ContextReader, ContextWriter};
use crate::counter::ContextCounter;

verus! {

broadcast use vstd::std_specs::hash::group_hash_axioms;

/// Capacity of each context's inbound delivery queue in the
/// asynchronous embedding.  The routing model itself does not bound
/// queues; backpressure is the channel layer's business.
pub const CHANNEL_BUFFER: usize = 1024;

/// The mathematical value of the routing state: per-context queues of
/// payload values, the unclaimed messages in arrival order, and
/// whether the pump is still running.
#[verifier::ext_equal]
pub struct PMCView {
    pub queues: Map<ContextId, Seq<PayloadView>>,
    pub unclaimed: Seq<MessageView>,
    pub open: bool,
}

impl PMCView {
    /// Whether a context has an installed inbound queue.
    pub open spec fn subscribed(self, id: ContextId) -> bool {
        self.queues.contains_key(id)
    }

    /// The pending payloads of a subscribed context, oldest first.
    pub open spec fn queue(self, id: ContextId) -> Seq<PayloadView> {
        self.queues[id]
    }

    /// The state a fresh pump starts in: no subscriptions, nothing
    /// unclaimed, open.
    pub open spec fn initial() -> PMCView {
        PMCView { queues: Map::empty(), unclaimed: Seq::empty(), open: true }
    }
}

/// Installing a fresh, empty inbound queue for a context.
pub open spec fn spec_subscribe(s: PMCView, id: ContextId) -> PMCView {
    PMCView { queues: s.queues.insert(id, Seq::empty()), unclaimed: s.unclaimed, open: s.open }
}

/// Routing one inbound message: to its context's queue if subscribed,
/// else onto the unclaimed queue.  Nothing else changes; in
/// particular no other context's queue does.
pub open spec fn spec_route(s: PMCView, m: MessageView) -> PMCView {
    if s.subscribed(m.context_id) {
        PMCView {
            queues: s.queues.insert(m.context_id, s.queues[m.context_id].push(m.payload)),
            unclaimed: s.unclaimed,
            open: s.open,
        }
    } else {
        PMCView { queues: s.queues, unclaimed: s.unclaimed.push(m), open: s.open }
    }
}

/// Routing a whole arrival sequence, oldest first.
pub open spec fn spec_route_all(s: PMCView, ms: Seq<MessageView>) -> PMCView
    decreases ms.len(),
{
    if ms.len() == 0 {
        s
    } else {
        spec_route_all(spec_route(s, ms[0]), ms.drop_first())
    }
}

/// The pump stopping: the state closes; queued payloads remain
/// readable, and drained readers then observe the closure.
pub open spec fn spec_close(s: PMCView) -> PMCView {
    PMCView { queues: s.queues, unclaimed: s.unclaimed, open: false }
}

/// What one read on a context's queue yields.
pub enum ReadOutcome {
    /// The oldest pending payload.
    Item(Payload),
    /// Nothing pending, pump still running: the caller waits.
    Empty,
    /// Nothing pending and the pump has stopped, or no queue exists:
    /// the stream is closed.
    Closed,
}

/// What the pump sees in one iteration.
pub enum PumpEvent {
    /// A whole frame body arrived on the control stream.
    Frame(Vec<u8>),
    /// A transient transport error: logged and survived.
    Warn,
    /// A fatal transport error: the pump stops.
    Fatal,
    /// Clean end of the control stream: the pump stops.
    Eof,
}

/// The routing state of one connection's demultiplexer.
pub struct PMCFrame {
    /// Inbound queue of each subscribed context.
    pub queues: HashMap<ContextId, Vec<Payload>>,
    /// Messages for contexts nobody has subscribed, in arrival order.
    pub unclaimed: Vec<Message>,
    /// Whether the pump is still running.
    pub open: bool,
}

impl View for PMCFrame {
    type V = PMCView;

    open spec fn view(&self) -> PMCView {
        PMCView {
            queues: self.queues@.map_values(|q: Vec<Payload>| q@.map_values(|p: Payload| p@)),
            unclaimed: self.unclaimed@.map_values(|m: Message| m@),
            open: self.open,
        }
    }
}

impl PMCFrame {
    pub fn new() -> (r: Self)
        ensures
            r@ == PMCView::initial(),
    {
        let r = PMCFrame { queues: HashMap::new(), unclaimed: Vec::new(), open: true };
        proof {
            assert(r@ =~~= PMCView::initial());
        }
        r
    }

    /// Installs a fresh bounded queue for a context and routes all
    /// later inbound frames for it there.  A message for this context
    /// already sitting unclaimed is not retroactively routed; consuming
    /// it is the discovering caller's business.
    pub fn subscribe_context(&mut self, context_id: ContextId)
        ensures
            final(self)@ == spec_subscribe(old(self)@, context_id),
    {
        self.queues.insert(context_id, Vec::new());
        proof {
            assert(self@ =~~= spec_subscribe(old(self)@, context_id));
        }
    }

    /// Routes one decoded inbound message (the pump's dispatch step).
    pub fn route(&mut self, message: Message)
        ensures
            final(self)@ == spec_route(old(self)@, message@),
    {
        let context_id = message.context_id;
        match self.queues.remove(&context_id) {
            Some(mut q) => {
                q.push(message.payload);
                self.queues.insert(context_id, q);
                proof {
                    assert(old(self)@.subscribed(context_id));
                    assert(self@ =~~= spec_route(old(self)@, message@));
                }
            }
            None => {
                self.unclaimed.push(message);
                proof {
                    assert(!old(self)@.subscribed(context_id));
                    assert(self@ =~~= spec_route(old(self)@, message@));
                }
            }
        }
    }

    /// Takes the oldest unclaimed message, if any.
    pub fn next_context_message(&mut self) -> (r: Option<Message>)
        ensures
            match r {
                None => old(self)@.unclaimed.len() == 0 && final(self)@ == old(self)@,
                Some(m) => {
                    &&& old(self)@.unclaimed.len() > 0
                    &&& m@ == old(self)@.unclaimed[0]
                    &&& final(self)@ == (PMCView {
                        queues: old(self)@.queues,
                        unclaimed: old(self)@.unclaimed.drop_first(),
                        open: old(self)@.open,
                    })
                },
            },
    {
        if self.unclaimed.len() == 0 {
            proof {
                assert(self@ =~~= old(self)@);
            }
            None
        } else {
            let m = self.unclaimed.remove(0);
            proof {
                assert(self@.unclaimed =~= old(self)@.unclaimed.drop_first());
                assert(self@ =~~= (PMCView {
                    queues: old(self)@.queues,
                    unclaimed: old(self)@.unclaimed.drop_first(),
                    open: old(self)@.open,
                }));
            }
            Some(m)
        }
    }

    /// One read on a context's queue: the oldest payload if one is
    /// pending; otherwise whether to wait (pump running) or report the
    /// stream closed (pump stopped, or no queue at all).  Once the
    /// state is closed, reads drain the queue and then always report
    /// closure — never a wait.
    pub fn read_from(&mut self, context_id: ContextId) -> (r: ReadOutcome)
        ensures
            match r {
                ReadOutcome::Item(p) => {
                    &&& old(self)@.subscribed(context_id)
                    &&& old(self)@.queue(context_id).len() > 0
                    &&& p@ == old(self)@.queue(context_id)[0]
                    &&& final(self)@ == (PMCView {
                        queues: old(self)@.queues.insert(
                            context_id,
                            old(self)@.queue(context_id).drop_first(),
                        ),
                        unclaimed: old(self)@.unclaimed,
                        open: old(self)@.open,
                    })
                },
                ReadOutcome::Empty => {
                    &&& old(self)@.subscribed(context_id)
                    &&& old(self)@.queue(context_id).len() == 0
                    &&& old(self)@.open
                    &&& final(self)@ == old(self)@
                },
                ReadOutcome::Closed => {
                    &&& (!old(self)@.subscribed(context_id) || (old(self)@.queue(
                        context_id,
                    ).len() == 0 && !old(self)@.open))
                    &&& final(self)@ == old(self)@
                },
            },
    {
        match self.queues.remove(&context_id) {
            Some(mut q) => {
                if q.len() > 0 {
                    let p = q.remove(0);
                    self.queues.insert(context_id, q);
                    proof {
                        assert(self@.queue(context_id) =~= old(self)@.queue(
                            context_id,
                        ).drop_first());
                        assert(self@ =~~= (PMCView {
                            queues: old(self)@.queues.insert(
                                context_id,
                                old(self)@.queue(context_id).drop_first(),
                            ),
                            unclaimed: old(self)@.unclaimed,
                            open: old(self)@.open,
                        }));
                    }
                    ReadOutcome::Item(p)
                } else {
                    let was_open = self.open;
                    self.queues.insert(context_id, q);
                    proof {
                        assert(self@ =~~= old(self)@);
                    }
                    if was_open {
                        ReadOutcome::Empty
                    } else {
                        ReadOutcome::Closed
                    }
                }
            }
            None => {
                proof {
                    assert(self@ =~~= old(self)@);
                }
                ReadOutcome::Closed
            }
        }
    }

    /// Marks the pump stopped.
    pub fn close(&mut self)
        ensures
            final(self)@ == spec_close(old(self)@),
    {
        self.open = false;
        proof {
            assert(self@ =~~= spec_close(old(self)@));
        }
    }

    pub fn is_open(&self) -> (r: bool)
        ensures
            r == self@.open,
    {
        self.open
    }

    /// The exact bytes the send path puts on the control stream for a
    /// message: its serialization, framed.  Returns `None` if and only
    /// if the encoded message is over the frame ceiling.
    pub fn send(&self, message: &Message) -> (r: Option<Vec<u8>>)
        ensures
            match r {
                Some(bytes) => spec_encode_message(message@).len()
                    <= crate::frame::MAX_FRAME_SIZE && bytes@ == crate::frame::spec_frame(
                    spec_encode_message(message@),
                ),
                None => spec_encode_message(message@).len() > crate::frame::MAX_FRAME_SIZE,
            },
    {
        crate::frame::frame_message(message)
    }

    /// One iteration of the pump: decode and route an arrived frame
    /// body, survive a warning, stop on a fatal error or end of
    /// stream.  A body that does not decode is malformed, which is
    /// fatal at connection scope: the pump stops.  Returns whether
    /// the pump continues.
    pub fn pump_step(&mut self, event: PumpEvent) -> (cont: bool)
        ensures
            match event {
                PumpEvent::Frame(body) => match spec_decode_message(body@) {
                    Some(mv) => cont && final(self)@ == spec_route(old(self)@, mv),
                    None => !cont && final(self)@ == spec_close(old(self)@),
                },
                PumpEvent::Warn => cont && final(self)@ == old(self)@,
                PumpEvent::Fatal => !cont && final(self)@ == spec_close(old(self)@),
                PumpEvent::Eof => !cont && final(self)@ == spec_close(old(self)@),
            },
    {
        match event {
            PumpEvent::Frame(body) => {
                match crate::codec::deserialize_message(body.as_slice()) {
                    Some(message) => {
                        self.route(message);
                        true
                    }
                    None => {
                        self.close();
                        false
                    }
                }
            }
            PumpEvent::Warn => true,
            PumpEvent::Fatal => {
                self.close();
                false
            }
            PumpEvent::Eof => {
                self.close();
                false
            }
        }
    }

    /// Moves every unclaimed message of one subscribed context into
    /// its queue, oldest first, and keeps the rest.  The discoverer
    /// calls this right after subscribing, so a message that arrived
    /// for the context before the subscription is not stranded.
    pub fn claim_unclaimed(&mut self, context_id: ContextId)
        requires
            old(self)@.subscribed(context_id),
        ensures
            final(self)@ == (PMCView {
                queues: old(self)@.queues.insert(
                    context_id,
                    old(self)@.queue(context_id) + old(self)@.unclaimed.filter(
                        |m: MessageView| m.context_id == context_id,
                    ).map_values(|m: MessageView| m.payload),
                ),
                unclaimed: old(self)@.unclaimed.filter(
                    |m: MessageView| m.context_id != context_id,
                ),
                open: old(self)@.open,
            }),
    {
        let ghost u0 = old(self)@.unclaimed;
        let ghost pred = |m: MessageView| m.context_id == context_id;
        let ghost npred = |m: MessageView| m.context_id != context_id;
        let ghost pv = |p: Payload| p@;
        let ghost pay = |m: MessageView| m.payload;
        let ghost mv = |m: Message| m@;
        let mut claimed: Vec<Payload> = Vec::new();
        let mut rest: Vec<Message> = Vec::new();
        let ghost mut k: int = 0;
        proof {
            reveal(Seq::filter);
            assert(u0.take(0) =~= Seq::<MessageView>::empty());
        }
        #[verifier::loop_isolation(false)]
        while self.unclaimed.len() > 0
            invariant
                0 <= k <= u0.len(),
                self.queues == old(self).queues,
                self.open == old(self).open,
                self.unclaimed@.map_values(mv) =~= u0.skip(k),
                claimed@.map_values(pv) =~= u0.take(k).filter(pred).map_values(pay),
                rest@.map_values(mv) =~= u0.take(k).filter(npred),
            decreases self.unclaimed@.len(),
        {
            let ghost upre = self.unclaimed@;
            let ghost cpre = claimed@;
            let ghost rpre = rest@;
            let m = self.unclaimed.remove(0);
            proof {
                reveal(Seq::filter);
                assert(upre.map_values(mv)[0] == u0.skip(k)[0]);
                assert(u0.skip(k)[0] == u0[k]);
                assert(m@ == u0[k]);
                assert(self.unclaimed@ =~= upre.drop_first());
                assert forall|i: int| 0 <= i < upre.drop_first().len() implies upre.drop_first(
                ).map_values(mv)[i] == u0.skip(k + 1)[i] by {
                    assert(upre.drop_first()[i] == upre[i + 1]);
                    assert(upre.map_values(mv)[i + 1] == u0.skip(k)[i + 1]);
                    assert(u0.skip(k)[i + 1] == u0[k + 1 + i]);
                }
                assert(self.unclaimed@.map_values(mv) =~= u0.skip(k + 1));
                assert(u0.take(k + 1).drop_last() =~= u0.take(k));
                assert(u0.take(k + 1).last() == u0[k]);
            }
            if m.context_id == context_id {
                claimed.push(m.payload);
                proof {
                    reveal(Seq::filter);
                    assert(pred(u0[k]));
                    assert(u0.take(k + 1).filter(pred) == u0.take(k).filter(pred).push(u0[k]));
                    assert(u0.take(k + 1).filter(npred) == u0.take(k).filter(npred));
                    assert(claimed@ =~= cpre.push(m.payload));
                    assert(claimed@.map_values(pv) =~= cpre.map_values(pv).push(m.payload@));
                    assert(u0.take(k + 1).filter(pred).map_values(pay) =~= u0.take(k).filter(
                        pred,
                    ).map_values(pay).push(u0[k].payload));
                    assert(claimed@.map_values(pv) =~= u0.take(k + 1).filter(pred).map_values(
                        pay,
                    ));
                    assert(rest@.map_values(mv) =~= u0.take(k + 1).filter(npred));
                }
            } else {
                rest.push(m);
                proof {
                    reveal(Seq::filter);
                    assert(npred(u0[k]));
                    assert(u0.take(k + 1).filter(npred) == u0.take(k).filter(npred).push(u0[k]));
                    assert(u0.take(k + 1).filter(pred) == u0.take(k).filter(pred));
                    assert(rest@ =~= rpre.push(m));
                    assert(rest@.map_values(mv) =~= rpre.map_values(mv).push(m@));
                    assert(u0.take(k + 1).filter(npred) =~= u0.take(k).filter(npred).push(
                        u0[k],
                    ));
                    assert(rest@.map_values(mv) =~= u0.take(k + 1).filter(npred));
                    assert(claimed@.map_values(pv) =~= u0.take(k + 1).filter(pred).map_values(
                        pay,
                    ));
                }
            }
            proof {
                k = k + 1;
            }
        }
        proof {
            assert(u0.take(k) =~= u0);
        }
        self.unclaimed = rest;
        match self.queues.remove(&context_id) {
            Some(mut q) => {
                let ghost q0 = q@.map_values(pv);
                q.append(&mut claimed);
                self.queues.insert(context_id, q);
                proof {
                    assert(q0 == old(self)@.queue(context_id));
                    assert(self@ =~~= (PMCView {
                        queues: old(self)@.queues.insert(
                            context_id,
                            old(self)@.queue(context_id) + u0.filter(pred).map_values(pay),
                        ),
                        unclaimed: u0.filter(npred),
                        open: old(self)@.open,
                    }));
                }
            }
            None => {
                proof {
                    assert(false);
                }
            }
        }
    }
}

/// Appending one arrival to a routed sequence is one more routing
/// step.
proof fn lemma_route_all_push(s: PMCView, ms: Seq<MessageView>, m: MessageView)
    ensures
        spec_route_all(s, ms.push(m)) == spec_route(spec_route_all(s, ms), m),
    decreases ms.len(),
{
    let e = ms.push(m);
    if ms.len() == 0 {
        assert(e[0] == m);
        assert(e.drop_first() =~= Seq::<MessageView>::empty());
        assert(spec_route_all(s, e) == spec_route_all(spec_route(s, m), e.drop_first()));
    } else {
        assert(e[0] == ms[0]);
        assert(e.drop_first() =~= ms.drop_first().push(m));
        lemma_route_all_push(spec_route(s, ms[0]), ms.drop_first(), m);
        assert(spec_route_all(s, e) == spec_route_all(spec_route(s, ms[0]), e.drop_first()));
        assert(spec_route_all(s, ms) == spec_route_all(spec_route(s, ms[0]), ms.drop_first()));
    }
}

/// Per-context FIFO, no gaps, no duplicates: after any arrival
/// sequence, a subscribed context's queue is exactly what it held
/// before followed by the payloads of precisely the messages addressed
/// to it, in arrival order.  The queue of one context is therefore a
/// function of its own traffic alone: nothing another context does —
/// however full its queue — adds to, drops from, or reorders it.
pub proof fn lemma_per_context_fifo(s: PMCView, ms: Seq<MessageView>, c: ContextId)
    requires
        s.subscribed(c),
    ensures
        spec_route_all(s, ms).subscribed(c),
        spec_route_all(s, ms).queue(c) == s.queue(c) + ms.filter(
            |m: MessageView| m.context_id == c,
        ).map_values(|m: MessageView| m.payload),
    decreases ms.len(),
{
    reveal(Seq::filter);
    let pred = |m: MessageView| m.context_id == c;
    let pay = |m: MessageView| m.payload;
    if ms.len() == 0 {
        assert(ms.filter(pred) =~= ms);
        assert(s.queue(c) + ms.map_values(pay) =~= s.queue(c));
    } else {
        let ms0 = ms.drop_last();
        let m = ms.last();
        lemma_per_context_fifo(s, ms0, c);
        assert(ms0.push(m) =~= ms);
        lemma_route_all_push(s, ms0, m);
        let r0 = spec_route_all(s, ms0);
        if m.context_id == c {
            assert(ms.filter(pred) == ms0.filter(pred).push(m));
            assert(ms.filter(pred).map_values(pay) =~= ms0.filter(pred).map_values(pay).push(
                m.payload,
            ));
            assert(spec_route(r0, m).queue(c) =~= s.queue(c) + ms.filter(pred).map_values(pay));
        } else {
            assert(ms.filter(pred) == ms0.filter(pred));
            assert(spec_route(r0, m).queue(c) == r0.queue(c));
        }
    }
}

/// Cross-context independence: replace one context's queue by
/// anything at all — say, a queue that is permanently full — and every
/// other subscribed context still receives exactly the same payloads
/// from the same arrivals.
pub proof fn lemma_cross_context_independence(
    s: PMCView,
    stuffed: Seq<PayloadView>,
    ms: Seq<MessageView>,
    c: ContextId,
    d: ContextId,
)
    requires
        s.subscribed(c),
        s.subscribed(d),
        c != d,
    ensures
        spec_route_all(
            PMCView { queues: s.queues.insert(c, stuffed), unclaimed: s.unclaimed, open: s.open },
            ms,
        ).queue(d) == spec_route_all(s, ms).queue(d),
{
    let s2 = PMCView {
        queues: s.queues.insert(c, stuffed),
        unclaimed: s.unclaimed,
        open: s.open,
    };
    lemma_per_context_fifo(s, ms, d);
    lemma_per_context_fifo(s2, ms, d);
    assert(s2.queue(d) == s.queue(d));
}

/// Closure is permanent and routing cannot hide it: once the pump has
/// stopped, no arrival sequence reopens the state, so every read
/// either drains a pending payload or reports the closed stream —
/// [`PMCFrame::read_from`] never asks a caller on a closed state to
/// wait.
pub proof fn lemma_close_propagation(s: PMCView, ms: Seq<MessageView>)
    requires
        !s.open,
    ensures
        !spec_route_all(s, ms).open,
    decreases ms.len(),
{
    if ms.len() > 0 {
        lemma_close_propagation(spec_route(s, ms[0]), ms.drop_first());
    }
}

/// A sequence whose every element satisfies the predicate filters to
/// itself.
proof fn lemma_filter_all(ms: Seq<MessageView>, pred: spec_fn(MessageView) -> bool)
    requires
        forall|i: int| 0 <= i < ms.len() ==> #[trigger] pred(ms[i]),
    ensures
        ms.filter(pred) == ms,
    decreases ms.len(),
{
    reveal(Seq::filter);
    if ms.len() > 0 {
        lemma_filter_all(ms.drop_last(), pred);
        assert(ms.drop_last().push(ms.last()) =~= ms);
    }
}

/// One writer, one reader: the payloads written to a single context
/// arrive on that context's queue complete and in writing order.
pub proof fn lemma_writer_reader_fifo(s: PMCView, ps: Seq<PayloadView>, c: ContextId)
    requires
        s.subscribed(c),
    ensures
        spec_route_all(
            s,
            ps.map_values(|p: PayloadView| MessageView { context_id: c, payload: p }),
        ).queue(c) == s.queue(c) + ps,
{
    let ms = ps.map_values(|p: PayloadView| MessageView { context_id: c, payload: p });
    let pred = |m: MessageView| m.context_id == c;
    lemma_per_context_fifo(s, ms, c);
    lemma_filter_all(ms, pred);
    assert(ms.filter(pred).map_values(|m: MessageView| m.payload) =~= ps);
}

/// Discovery is exactly-once: from the moment a context is
/// subscribed — as the discoverer does before handing the context
/// out — no later arrival for it ever lands on the unclaimed queue,
/// so the context cannot be discovered a second time.
pub proof fn lemma_discovery_exactly_once(s: PMCView, ms: Seq<MessageView>, c: ContextId)
    requires
        s.subscribed(c),
    ensures
        spec_route_all(s, ms).unclaimed.filter(|m: MessageView| m.context_id == c)
            == s.unclaimed.filter(|m: MessageView| m.context_id == c),
    decreases ms.len(),
{
    reveal(Seq::filter);
    let pred = |m: MessageView| m.context_id == c;
    if ms.len() > 0 {
        let ms0 = ms.drop_last();
        let m = ms.last();
        lemma_discovery_exactly_once(s, ms0, c);
        lemma_per_context_fifo(s, ms0, c);
        assert(ms0.push(m) =~= ms);
        lemma_route_all_push(s, ms0, m);
        let r0 = spec_route_all(s, ms0);
        if !r0.subscribed(m.context_id) {
            assert(m.context_id != c);
            assert(r0.unclaimed.push(m).drop_last() =~= r0.unclaimed);
            assert(spec_route(r0, m).unclaimed.filter(pred) == r0.unclaimed.filter(pred));
        }
    }
}

/// A context pair: the writer and reader halves bound to one
/// identifier.
pub type Context = (ContextWriter, ContextReader);

/// The protocol multiplexing core of one connection: the identifier
/// counter and the routing state, with the factories for local and
/// remote-initiated contexts.
pub struct PMC {
    pub counter: ContextCounter,
    pub frame: PMCFrame,
}

impl PMC {
    /// The counter is well formed: its parity matches the role.
    pub open spec fn wf(self) -> bool {
        self.counter.wf()
    }

    pub fn new(is_server: bool) -> (r: Self)
        ensures
            r.counter.is_server == is_server,
            r.counter.counter == (if is_server { 1u64 } else { 0u64 }),
            r.frame@ == PMCView::initial(),
            r.wf(),
    {
        PMC { counter: ContextCounter::new(is_server), frame: PMCFrame::new() }
    }

    /// Builds the pair of halves for a context and subscribes its
    /// inbound queue.
    fn make_context(&mut self, context_id: ContextId) -> (r: Context)
        ensures
            r.0.context_id == context_id,
            r.1.context_id == context_id,
            final(self).counter == old(self).counter,
            final(self).frame@ == spec_subscribe(old(self).frame@, context_id),
    {
        self.frame.subscribe_context(context_id);
        (ContextWriter { context_id }, ContextReader { context_id })
    }

    /// Allocates a fresh local context identifier, subscribes it, and
    /// returns the writer/reader pair.  The identifier has this side's
    /// parity, so it cannot collide with one the peer allocates.
    pub fn create_context(&mut self) -> (r: Context)
        requires
            old(self).wf(),
        ensures
            final(self).wf(),
            final(self).counter.is_server == old(self).counter.is_server,
            r.0.context_id == r.1.context_id,
            r.0.context_id % 2 == (if old(self).counter.is_server { 1u64 } else { 0u64 }),
            (if u64::MAX - old(self).counter.counter <= 2 {
                &&& r.0.context_id == (if old(self).counter.is_server { 1u64 } else { 2u64 })
                &&& final(self).counter.counter == r.0.context_id
            } else {
                &&& r.0.context_id == old(self).counter.counter
                &&& final(self).counter.counter == old(self).counter.counter + 2
            }),
            final(self).frame@ == spec_subscribe(old(self).frame@, r.0.context_id),
    {
        let context_id = self.counter.next_context_id();
        self.make_context(context_id)
    }

    /// Accepts the next remote-initiated context: takes the oldest
    /// unclaimed message, subscribes its context identifier, moves any
    /// further unclaimed messages of that context into the fresh queue
    /// in arrival order, and returns the first payload with the pair
    /// of halves.  The first payload is surfaced here, exactly once;
    /// everything later flows through the reader.  Returns `None`
    /// when nothing is unclaimed — the caller waits while the pump
    /// runs, and gives up once it has stopped.
    pub fn next_context(&mut self) -> (r: Option<(Payload, Context)>)
        ensures
            final(self).counter == old(self).counter,
            match r {
                None => old(self).frame@.unclaimed.len() == 0 && final(self).frame@ == old(
                    self,
                ).frame@,
                Some((p, pair)) => {
                    let u0 = old(self).frame@.unclaimed;
                    let c = u0[0].context_id;
                    &&& u0.len() > 0
                    &&& p@ == u0[0].payload
                    &&& pair.0.context_id == c
                    &&& pair.1.context_id == c
                    &&& final(self).frame@ == (PMCView {
                        queues: old(self).frame@.queues.insert(
                            c,
                            u0.drop_first().filter(|x: MessageView| x.context_id == c).map_values(
                                |x: MessageView| x.payload,
                            ),
                        ),
                        unclaimed: u0.drop_first().filter(|x: MessageView| x.context_id != c),
                        open: old(self).frame@.open,
                    })
                },
            },
    {
        match self.frame.next_context_message() {
            None => None,
            Some(message) => {
                let context_id = message.context_id;
                let pair = self.make_context(context_id);
                self.frame.claim_unclaimed(context_id);
                proof {
                    let u0 = old(self).frame@.unclaimed;
                    let c = u0[0].context_id;
                    assert(Seq::<PayloadView>::empty() + u0.drop_first().filter(
                        |x: MessageView| x.context_id == c,
                    ).map_values(|x: MessageView| x.payload) =~= u0.drop_first().filter(
                        |x: MessageView| x.context_id == c,
                    ).map_values(|x: MessageView| x.payload));
                    assert(self.frame@ =~~= (PMCView {
                        queues: old(self).frame@.queues.insert(
                            c,
                            u0.drop_first().filter(|x: MessageView| x.context_id == c).map_values(
                                |x: MessageView| x.payload,
                            ),
                        ),
                        unclaimed: u0.drop_first().filter(|x: MessageView| x.context_id != c),
                        open: old(self).frame@.open,
                    }));
                }
                Some((message.payload, pair))
            }
        }
    }
}

} // verus!
