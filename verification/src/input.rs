//! Pointer and keyboard input state: consecutive-tap disambiguation per
//! pointer slot, key focus, and the set of keys currently held down.

use vstd::prelude::*;
use crate::area::Area;
use crate::cx::Cx;
use crate::cx::NUM_FINGERS;
use crate::events::KeyEvent;
use crate::events::Vec2;

verus! {

/// Two taps closer than this many milliseconds apart may chain.
pub const TAP_COUNT_TIME: i64 = 500;

/// Two taps closer than this many position units apart may chain.
pub const TAP_COUNT_DIST: i64 = 10;

/// Whether a tap at `pos`/`time` continues the chain recorded as
/// `last_pos`/`last_time`: close enough in time and in Euclidean
/// distance.
pub open spec fn tap_close(last_pos: Vec2, last_time: i64, pos: Vec2, time: i64) -> bool {
    let dx = pos.x - last_pos.x;
    let dy = pos.y - last_pos.y;
    &&& time - last_time < TAP_COUNT_TIME
    &&& dx * dx + dy * dy < TAP_COUNT_DIST * TAP_COUNT_DIST
}

impl Cx {
    /// Count consecutive taps in pointer slot `digit`: a tap close in
    /// time and space to the slot's last tap continues the chain,
    /// anything else restarts it at 1.  An out-of-range slot is silently
    /// neutral and returns 0.
    pub fn process_tap_count(&mut self, digit: usize, pos: Vec2, time: i64) -> (r: u32)
        requires
            old(self).wf(),
            digit < NUM_FINGERS ==> old(self).finger_tap_count@[digit as int].2 < u32::MAX,
        ensures
            final(self).wf(),
            digit >= NUM_FINGERS ==> r == 0 && *final(self) == *old(self),
            digit < NUM_FINGERS ==> {
                let slot = old(self).finger_tap_count@[digit as int];
                &&& r == if tap_close(slot.0, slot.1, pos, time) {
                    (slot.2 + 1) as u32
                } else {
                    1u32
                }
                &&& final(self).finger_tap_count@ == old(self).finger_tap_count@.update(
                    digit as int,
                    (pos, time, r),
                )
                &&& *final(self) == (Cx {
                    finger_tap_count: final(self).finger_tap_count,
                    ..*old(self)
                })
            },
    {
        if digit >= self.finger_tap_count.len() {
            return 0;
        }
        let slot = self.finger_tap_count[digit];
        let last_pos = slot.0;
        let last_time = slot.1;
        let count = slot.2;
        let dx = pos.x as i64 - last_pos.x as i64;
        let dy = pos.y as i64 - last_pos.y as i64;
        let in_time = (time as i128) - (last_time as i128) < TAP_COUNT_TIME as i128;
        proof {
            assert(0 <= (dx as i128) * (dx as i128) <= 0x1_0000_0000_0000_0000) by (nonlinear_arith)
                requires
                    -0x1_0000_0000 <= (dx as i128) <= 0x1_0000_0000,
            ;
            assert(0 <= (dy as i128) * (dy as i128) <= 0x1_0000_0000_0000_0000) by (nonlinear_arith)
                requires
                    -0x1_0000_0000 <= (dy as i128) <= 0x1_0000_0000,
            ;
        }
        let dx2 = (dx as i128) * (dx as i128);
        let dy2 = (dy as i128) * (dy as i128);
        let in_reach = dx2 + dy2 < 100;
        proof {
            assert(100 == TAP_COUNT_DIST * TAP_COUNT_DIST);
        }
        if in_time && in_reach {
            self.finger_tap_count[digit] = (pos, time, count + 1);
            count + 1
        } else {
            self.finger_tap_count[digit] = (pos, time, 1);
            1
        }
    }

    /// Move the key focus; the change is noticed, and a focus-change
    /// event synthesized, by the next dispatch.
    pub fn set_key_focus(&mut self, focus_area: Area)
        ensures
            final(self).key_focus == focus_area,
            *final(self) == (Cx { key_focus: final(self).key_focus, ..*old(self) }),
    {
        self.key_focus = focus_area;
    }

    /// Whether `focus_area` holds the key focus.
    pub fn has_key_focus(&self, focus_area: Area) -> (r: bool)
        ensures
            r == (self.key_focus == focus_area),
    {
        self.key_focus == focus_area
    }

    /// Record a key as held down, once per key code.
    #[verifier::loop_isolation(false)]
    pub fn process_key_down(&mut self, key_event: KeyEvent)
        ensures
            (exists|k: int|
                0 <= k < old(self).keys_down@.len() && old(self).keys_down@[k].key_code
                    == key_event.key_code) ==> *final(self) == *old(self),
            !(exists|k: int|
                0 <= k < old(self).keys_down@.len() && old(self).keys_down@[k].key_code
                    == key_event.key_code) ==> final(self).keys_down@ == old(
                self,
            ).keys_down@.push(key_event) && *final(self) == (Cx {
                keys_down: final(self).keys_down,
                ..*old(self)
            }),
    {
        let mut i: usize = 0;
        while i < self.keys_down.len()
            invariant
                *self == *old(self),
                i <= self.keys_down@.len(),
                forall|j: int| 0 <= j < i ==> self.keys_down@[j].key_code != key_event.key_code,
            decreases self.keys_down@.len() - i,
        {
            if self.keys_down[i].key_code == key_event.key_code {
                return ;
            }
            i += 1;
        }
        self.keys_down.push(key_event);
    }

    /// Forget the first held-down entry with this key code, if any.
    #[verifier::loop_isolation(false)]
    pub fn process_key_up(&mut self, key_event: &KeyEvent)
        ensures
            (forall|k: int|
                0 <= k < old(self).keys_down@.len() ==> old(self).keys_down@[k].key_code
                    != key_event.key_code) ==> *final(self) == *old(self),
            (exists|k: int|
                0 <= k < old(self).keys_down@.len() && old(self).keys_down@[k].key_code
                    == key_event.key_code) ==> (exists|k: int|
                0 <= k < old(self).keys_down@.len() && old(self).keys_down@[k].key_code
                    == key_event.key_code && (forall|j: int|
                    0 <= j < k ==> old(self).keys_down@[j].key_code != key_event.key_code)
                    && final(self).keys_down@ == old(self).keys_down@.remove(k)) && *final(self)
                == (Cx { keys_down: final(self).keys_down, ..*old(self) }),
    {
        let mut i: usize = 0;
        while i < self.keys_down.len()
            invariant
                *self == *old(self),
                i <= self.keys_down@.len(),
                forall|j: int| 0 <= j < i ==> self.keys_down@[j].key_code != key_event.key_code,
            decreases self.keys_down@.len() - i,
        {
            if self.keys_down[i].key_code == key_event.key_code {
                let ghost found: int = i as int;
                self.keys_down.remove(i);
                proof {
                    assert(0 <= found < old(self).keys_down@.len() && old(
                        self,
                    ).keys_down@[found].key_code == key_event.key_code && (forall|j: int|
                        0 <= j < found ==> old(self).keys_down@[j].key_code
                            != key_event.key_code) && self.keys_down@ == old(
                        self,
                    ).keys_down@.remove(found));
                }
                return ;
            }
            i += 1;
        }
    }
}

} // verus!
