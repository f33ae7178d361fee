//! The application-facing halves of one context.
//!
//! A writer is an immutable snapshot of its context identifier: writing
//! means computing the exact frame bytes the control stream must carry.
//! A reader owns one context's inbound queue in the demultiplexer; the
//! surrounding runtime does the waiting, the routing state here decides
//! what each read yields.

use vstd::prelude::*;

use crate::codec::{ContextId, Message, MessageView, Payload, spec_encode_message};
use crate::frame::{frame_message, spec_frame, MAX_FRAME_SIZE};
use crate::pmc::{PMCFrame, ReadOutcome};

verus! {

/// The sending half of a context.
pub struct ContextWriter {
    pub context_id: ContextId,
}

/// The receiving half of a context: the exclusive claim on one inbound
/// queue.
pub struct ContextReader {
    pub context_id: ContextId,
}

impl ContextWriter {
    /// Wraps a payload into a message for this context and produces
    /// the frame that carries it: the exact bytes to hand to the
    /// transport in one piece.  Returns `None` if and only if the
    /// encoded message is over the frame ceiling.
    pub fn write(&self, payload: Payload) -> (r: Option<Vec<u8>>)
        ensures
            ({
                let m = (MessageView { context_id: self.context_id, payload: payload@ });
                match r {
                    Some(bytes) => spec_encode_message(m).len() <= MAX_FRAME_SIZE && bytes@
                        == spec_frame(spec_encode_message(m)),
                    None => spec_encode_message(m).len() > MAX_FRAME_SIZE,
                }
            }),
    {
        frame_message(&Message { context_id: self.context_id, payload })
    }
}

impl ContextReader {
    /// One read on this context's queue: the oldest pending payload,
    /// or whether to wait or report the stream closed.  See
    /// [`PMCFrame::read_from`] for the exact outcome in each state.
    pub fn read(&self, frame: &mut PMCFrame) -> (r: ReadOutcome)
        ensures
            match r {
                ReadOutcome::Item(p) => {
                    &&& old(frame)@.subscribed(self.context_id)
                    &&& old(frame)@.queue(self.context_id).len() > 0
                    &&& p@ == old(frame)@.queue(self.context_id)[0]
                    &&& final(frame)@ == (crate::pmc::PMCView {
                        queues: old(frame)@.queues.insert(
                            self.context_id,
                            old(frame)@.queue(self.context_id).drop_first(),
                        ),
                        unclaimed: old(frame)@.unclaimed,
                        open: old(frame)@.open,
                    })
                },
                ReadOutcome::Empty => {
                    &&& old(frame)@.subscribed(self.context_id)
                    &&& old(frame)@.queue(self.context_id).len() == 0
                    &&& old(frame)@.open
                    &&& final(frame)@ == old(frame)@
                },
                ReadOutcome::Closed => {
                    &&& (!old(frame)@.subscribed(self.context_id) || (old(frame)@.queue(
                        self.context_id,
                    ).len() == 0 && !old(frame)@.open))
                    &&& final(frame)@ == old(frame)@
                },
            },
    {
        frame.read_from(self.context_id)
    }
}

} // verus!
