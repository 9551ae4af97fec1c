//! The signal queue: a mailbox of wake tokens and payload ids, drained
//! once per cycle before and after drawing.  A drain dispatches from a
//! snapshot taken up front, so a send that happens during dispatch waits
//! for the next drain.

use vstd::prelude::*;
use crate::cx::Cx;
use crate::cx::vec_copy;
use crate::dispatch::EventHandler;
use crate::events::Event;
use crate::events::Signal;
use crate::events::SignalEvent;

verus! {

/// What a drain delivers: the queue exactly as it stood when the drain
/// began.
pub open spec fn drained_batch(queue: Seq<(Signal, u64)>) -> Seq<(Signal, u64)> {
    queue
}

/// What a drain leaves in the live queue: nothing.
pub open spec fn drained_rest(queue: Seq<(Signal, u64)>) -> Seq<(Signal, u64)> {
    Seq::empty()
}

/// What a send leaves in the live queue: the pair appended in order.
pub open spec fn sent(queue: Seq<(Signal, u64)>, signal: Signal, message: u64) -> Seq<
    (Signal, u64),
> {
    queue.push((signal, message))
}

/// Signal deferral: the batch a drain delivers was fixed when the drain
/// began, so a pair sent while that batch is being dispatched lands in
/// the emptied live queue instead, and the next drain delivers it.
pub proof fn lemma_signal_deferral(queue: Seq<(Signal, u64)>, signal: Signal, message: u64)
    ensures
        drained_batch(queue) == queue,
        sent(drained_rest(queue), signal, message) == seq![(signal, message)],
        drained_batch(sent(drained_rest(queue), signal, message)) == seq![(signal, message)],
{
    assert(Seq::<(Signal, u64)>::empty().push((signal, message)) =~= seq![(signal, message)]);
}

impl Cx {
    /// Allocate a fresh wake token from the monotonically increasing
    /// counter; ids are never reused.
    pub fn new_signal(&mut self) -> (r: Signal)
        requires
            old(self).signal_id < u64::MAX,
        ensures
            final(self).signal_id == old(self).signal_id + 1,
            r == (Signal { signal_id: final(self).signal_id }),
            *final(self) == (Cx { signal_id: final(self).signal_id, ..*old(self) }),
    {
        self.signal_id = self.signal_id + 1;
        Signal { signal_id: self.signal_id }
    }

    /// Queue a signal for the drain that runs before drawing.
    pub fn send_signal_before_draw(&mut self, signal: Signal, message: u64)
        ensures
            final(self).signals_before_draw@ == sent(
                old(self).signals_before_draw@,
                signal,
                message,
            ),
            *final(self) == (Cx {
                signals_before_draw: final(self).signals_before_draw,
                ..*old(self)
            }),
    {
        self.signals_before_draw.push((signal, message));
    }

    /// Queue a signal for the drain that runs after drawing.
    pub fn send_signal_after_draw(&mut self, signal: Signal, message: u64)
        ensures
            final(self).signals_after_draw@ == sent(
                old(self).signals_after_draw@,
                signal,
                message,
            ),
            *final(self) == (Cx {
                signals_after_draw: final(self).signals_after_draw,
                ..*old(self)
            }),
    {
        self.signals_after_draw.push((signal, message));
    }

    /// Take the before-draw batch: return the queue as it stands and
    /// leave the live queue empty for sends made during dispatch.
    pub fn drain_signals_before_draw(&mut self) -> (batch: Vec<(Signal, u64)>)
        ensures
            batch@ == drained_batch(old(self).signals_before_draw@),
            final(self).signals_before_draw@ == drained_rest(old(self).signals_before_draw@),
            *final(self) == (Cx {
                signals_before_draw: final(self).signals_before_draw,
                ..*old(self)
            }),
    {
        let batch = vec_copy(&self.signals_before_draw);
        self.signals_before_draw.truncate(0);
        batch
    }

    /// Take the after-draw batch, the same way.
    pub fn drain_signals_after_draw(&mut self) -> (batch: Vec<(Signal, u64)>)
        ensures
            batch@ == drained_batch(old(self).signals_after_draw@),
            final(self).signals_after_draw@ == drained_rest(old(self).signals_after_draw@),
            *final(self) == (Cx {
                signals_after_draw: final(self).signals_after_draw,
                ..*old(self)
            }),
    {
        let batch = vec_copy(&self.signals_after_draw);
        self.signals_after_draw.truncate(0);
        batch
    }

    /// Drain the before-draw queue: snapshot it, empty it, and dispatch
    /// one event per queued pair, in insertion order.  Sends that happen
    /// during these dispatches wait for the next drain.
    #[verifier::loop_isolation(false)]
    pub fn call_signals_before_draw<H: EventHandler>(&mut self, event_handler: &mut H)
        requires
            old(self).wf(),
            old(self).event_id + old(self).signals_before_draw@.len() <= u64::MAX,
        ensures
            final(self).wf(),
            final(self).event_id == old(self).event_id + old(self).signals_before_draw@.len(),
            final(self).redraw_id == old(self).redraw_id,
            old(self).signals_before_draw@.len() == 0 ==> *final(self) == *old(self),
    {
        if self.signals_before_draw.len() == 0 {
            return ;
        }
        let batch = self.drain_signals_before_draw();
        let mut i: usize = 0;
        while i < batch.len()
            invariant
                self.wf(),
                i <= batch@.len(),
                self.event_id == old(self).event_id + i,
                self.redraw_id == old(self).redraw_id,
            decreases batch@.len() - i,
        {
            let (signal, value) = batch[i];
            let mut event = Event::Signal(
                SignalEvent { signal_id: signal.signal_id, value },
            );
            self.call_event_handler(event_handler, &mut event);
            i += 1;
        }
    }

    /// Drain the after-draw queue, the same way.
    #[verifier::loop_isolation(false)]
    pub fn call_signals_after_draw<H: EventHandler>(&mut self, event_handler: &mut H)
        requires
            old(self).wf(),
            old(self).event_id + old(self).signals_after_draw@.len() <= u64::MAX,
        ensures
            final(self).wf(),
            final(self).event_id == old(self).event_id + old(self).signals_after_draw@.len(),
            final(self).redraw_id == old(self).redraw_id,
            old(self).signals_after_draw@.len() == 0 ==> *final(self) == *old(self),
    {
        if self.signals_after_draw.len() == 0 {
            return ;
        }
        let batch = self.drain_signals_after_draw();
        let mut i: usize = 0;
        while i < batch.len()
            invariant
                self.wf(),
                i <= batch@.len(),
                self.event_id == old(self).event_id + i,
                self.redraw_id == old(self).redraw_id,
            decreases batch@.len() - i,
        {
            let (signal, value) = batch[i];
            let mut event = Event::Signal(
                SignalEvent { signal_id: signal.signal_id, value },
            );
            self.call_event_handler(event_handler, &mut event);
            i += 1;
        }
    }
}

} // verus!
