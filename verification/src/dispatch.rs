//! The event dispatch core: wraps every invocation of the application
//! callback, synthesizes focus-change events, and owns the double-buffer
//! swaps that begin a draw cycle and a frame.

use vstd::prelude::*;
use crate::area::Area;
use crate::cx::Cx;
use crate::cx::vec_copy;
use crate::events::AnimateEvent;
use crate::events::Event;
use crate::events::FrameEvent;
use crate::events::KeyEvent;
use crate::events::KeyFocusEvent;

verus! {

/// The single callback application code supplies; every event reaches it
/// through the dispatch functions below.
///
/// A handler may mutate the engine freely, but it must keep the engine
/// well-formed, and it leaves the event and cycle counters to the
/// dispatch core, which owns them.
pub trait EventHandler {
    fn handle(&mut self, cx: &mut Cx, event: &mut Event)
        requires
            old(cx).wf(),
        ensures
            final(cx).wf(),
            final(cx).event_id == old(cx).event_id,
            final(cx).redraw_id == old(cx).redraw_id,
    ;
}

impl Cx {
    /// Dispatch one event: advance the event counter, invoke the
    /// handler, and if the key focus moved during the invocation,
    /// synthesize and dispatch a focus-change event carrying the old and
    /// new focus.
    ///
    /// The handler owns every other change to the engine state, so
    /// nothing more than well-formedness can be promised about it here.
    pub fn call_event_handler<H: EventHandler>(
        &mut self,
        event_handler: &mut H,
        event: &mut Event,
    )
        requires
            old(self).wf(),
            old(self).event_id < u64::MAX,
        ensures
            final(self).wf(),
            final(self).event_id == old(self).event_id + 1,
            final(self).redraw_id == old(self).redraw_id,
    {
        self.event_id = self.event_id + 1;
        event_handler.handle(self, event);
        if self.last_key_focus != self.key_focus {
            let last_key_focus = self.last_key_focus;
            self.last_key_focus = self.key_focus;
            let mut focus_event = Event::KeyFocus(
                KeyFocusEvent { last: last_key_focus, focus: self.key_focus },
            );
            event_handler.handle(self, &mut focus_event);
        }
    }

    /// Take the held-key batch: return the held-down set as it stands
    /// and leave it empty, the same way the signal queues are drained.
    pub fn drain_keys_down(&mut self) -> (batch: Vec<KeyEvent>)
        ensures
            batch@ == old(self).keys_down@,
            final(self).keys_down@ == Seq::<KeyEvent>::empty(),
            *final(self) == (Cx { keys_down: final(self).keys_down, ..*old(self) }),
    {
        let batch = vec_copy(&self.keys_down);
        self.keys_down.truncate(0);
        batch
    }

    /// Empty the held-down set, then dispatch a key-up event for each
    /// entry it held, in order, so that no release is lost when focus
    /// leaves the window.
    #[verifier::loop_isolation(false)]
    pub fn call_all_keys_up<H: EventHandler>(&mut self, event_handler: &mut H)
        requires
            old(self).wf(),
            old(self).event_id + old(self).keys_down@.len() <= u64::MAX,
        ensures
            final(self).wf(),
            final(self).event_id == old(self).event_id + old(self).keys_down@.len(),
            final(self).redraw_id == old(self).redraw_id,
    {
        let keys_down = self.drain_keys_down();
        let mut i: usize = 0;
        while i < keys_down.len()
            invariant
                self.wf(),
                i <= keys_down@.len(),
                self.event_id == old(self).event_id + i,
                self.redraw_id == old(self).redraw_id,
            decreases keys_down@.len() - i,
        {
            let mut event = Event::KeyUp(keys_down[i]);
            self.call_event_handler(event_handler, &mut event);
            i += 1;
        }
    }

    /// Begin a draw dispatch: set the reentrancy flag, perform the
    /// redraw tracker's cycle swap, dispatch a single draw event, then
    /// clear the flag.  One draw dispatch advances the cycle counter by
    /// exactly one.
    pub fn call_draw_event<H: EventHandler>(&mut self, event_handler: &mut H)
        requires
            old(self).wf(),
            old(self).event_id < u64::MAX,
            old(self).redraw_id < u64::MAX,
        ensures
            final(self).wf(),
            !final(self).is_in_redraw_cycle,
            final(self).event_id == old(self).event_id + 1,
            final(self).redraw_id == old(self).redraw_id + 1,
    {
        self.is_in_redraw_cycle = true;
        self.begin_cycle();
        let mut event = Event::Draw;
        self.call_event_handler(event_handler, &mut event);
        self.is_in_redraw_cycle = false;
    }

    /// Dispatch an animate event, retire finished animations, and if any
    /// ended this tick, dispatch a second event reporting exactly those.
    pub fn call_animation_event<H: EventHandler>(&mut self, event_handler: &mut H, time: i64)
        requires
            old(self).wf(),
            old(self).event_id + 2 <= u64::MAX,
        ensures
            final(self).wf(),
            final(self).event_id == old(self).event_id + 1 || final(self).event_id == old(
                self,
            ).event_id + 2,
            final(self).redraw_id == old(self).redraw_id,
    {
        let frame = self.repaint_id;
        let mut event = Event::Animate(AnimateEvent { time, frame });
        self.call_event_handler(event_handler, &mut event);
        self.check_ended_anim_areas(time);
        if self.ended_anim_areas.len() > 0 {
            let frame = self.repaint_id;
            let mut ended = Event::AnimateEnded(AnimateEvent { time, frame });
            self.call_event_handler(event_handler, &mut ended);
        }
    }

    /// Move the pending frame callbacks into the frozen snapshot and
    /// clear the live list, exactly as `begin_cycle` swaps the dirty
    /// lists: requests made during the frame dispatch land in the live
    /// list and wait for the next frame.
    pub fn swap_frame_callbacks(&mut self)
        requires
            old(self).wf(),
        ensures
            final(self).wf(),
            final(self)._frame_callbacks@ == old(self).frame_callbacks@,
            final(self).frame_callbacks@ == Seq::<Area>::empty(),
            *final(self) == (Cx {
                frame_callbacks: final(self).frame_callbacks,
                _frame_callbacks: final(self)._frame_callbacks,
                ..*old(self)
            }),
    {
        let snapshot = vec_copy(&self.frame_callbacks);
        self._frame_callbacks = snapshot;
        self.frame_callbacks.truncate(0);
    }

    /// Swap the frame-callback list, then dispatch a single frame event
    /// carrying the time and the frame counter.
    pub fn call_frame_event<H: EventHandler>(&mut self, event_handler: &mut H, time: i64)
        requires
            old(self).wf(),
            old(self).event_id < u64::MAX,
        ensures
            final(self).wf(),
            final(self).event_id == old(self).event_id + 1,
            final(self).redraw_id == old(self).redraw_id,
    {
        self.swap_frame_callbacks();
        let frame = self.repaint_id;
        let mut event = Event::Frame(FrameEvent { time, frame });
        self.call_event_handler(event_handler, &mut event);
    }

    /// Ask for a callback on the next frame, once per area.
    #[verifier::loop_isolation(false)]
    pub fn next_frame(&mut self, area: Area)
        ensures
            old(self).frame_callbacks@.contains(area) ==> *final(self) == *old(self),
            !old(self).frame_callbacks@.contains(area) ==> final(self).frame_callbacks@ == old(
                self,
            ).frame_callbacks@.push(area) && *final(self) == (Cx {
                frame_callbacks: final(self).frame_callbacks,
                ..*old(self)
            }),
    {
        let mut i: usize = 0;
        while i < self.frame_callbacks.len()
            invariant
                *self == *old(self),
                i <= self.frame_callbacks@.len(),
                forall|j: int| 0 <= j < i ==> self.frame_callbacks@[j] != area,
            decreases self.frame_callbacks@.len() - i,
        {
            if self.frame_callbacks[i] == area {
                proof {
                    assert(old(self).frame_callbacks@.contains(area));
                }
                return ;
            }
            i += 1;
        }
        proof {
            if old(self).frame_callbacks@.contains(area) {
                let k = choose|k: int|
                    0 <= k < old(self).frame_callbacks@.len() && old(self).frame_callbacks@[k]
                        == area;
                assert(false);
            }
        }
        self.frame_callbacks.push(area);
    }
}

} // verus!
