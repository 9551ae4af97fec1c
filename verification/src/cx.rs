//! The engine state: entity arenas, dirty-area lists, focus, fingers,
//! animations, signal queues and the per-cycle counters, together with the
//! well-formedness invariant that every operation preserves.

use vstd::prelude::*;
use crate::area::Area;
use crate::entity::CxPass;
use crate::entity::CxPassDepOf;
use crate::entity::CxView;
use crate::entity::CxWindow;
use crate::entity::CxWindowState;
use crate::entity::passes_linked;
use crate::entity::views_linked;
use crate::events::AnimArea;
use crate::events::KeyEvent;
use crate::events::Signal;
use crate::events::Vec2;
use crate::redraw::area_list_wf;
use crate::style::StyleValue;
use crate::style::style_table_wf;

verus! {

/// Fixed arity of the captured-pointer and tap-count slot arrays: the
/// maximum number of simultaneous pointers tracked.
pub const NUM_FINGERS: usize = 10;

pub struct Cx {
    /// The view arena; slot 0 is the root of the nesting tree.
    pub views: Vec<CxView>,
    /// Free view slots, reused last-freed-first.
    pub views_free: Vec<usize>,
    /// Ghost witness that nesting edges form a tree rooted at slot 0:
    /// each view's parent carries a strictly smaller depth.
    pub view_depth: Ghost<Seq<nat>>,

    /// The pass arena.
    pub passes: Vec<CxPass>,
    /// Free pass slots, reused last-freed-first.
    pub passes_free: Vec<usize>,
    /// Ghost witness that `dep_of` edges form a forest: each pass a pass
    /// depends on carries a strictly smaller depth.
    pub pass_depth: Ghost<Seq<nat>>,

    /// The window arena.
    pub windows: Vec<CxWindow>,
    /// Free window slots, reused last-freed-first.
    pub windows_free: Vec<usize>,

    /// Areas whose content changed: every ancestor must re-record.
    pub redraw_child_areas: Vec<Area>,
    /// Areas whose container changed: every descendant must re-record.
    pub redraw_parent_areas: Vec<Area>,
    /// Frozen snapshot of `redraw_child_areas` from the last cycle start.
    pub _redraw_child_areas: Vec<Area>,
    /// Frozen snapshot of `redraw_parent_areas` from the last cycle start.
    pub _redraw_parent_areas: Vec<Area>,

    pub redraw_id: u64,
    pub repaint_id: u64,
    pub event_id: u64,
    pub timer_id: u64,
    /// Source of never-reused signal ids.
    pub signal_id: u64,
    /// Set for the duration of a draw dispatch.
    pub is_in_redraw_cycle: bool,

    /// The key focus as of the last dispatch, compared against `key_focus`
    /// to synthesize focus-change events.
    pub last_key_focus: Area,
    pub key_focus: Area,
    /// Keys currently held down, one entry per key code.
    pub keys_down: Vec<KeyEvent>,

    /// Per-cycle layout alignment state, cleared when a cycle begins.
    pub align_list: Vec<Area>,

    /// Which area owns each pointer slot while captured.
    pub captured_fingers: Vec<Area>,
    /// Per pointer slot: last position, last time and the running
    /// consecutive-tap count.
    pub finger_tap_count: Vec<(Vec2, i64, u32)>,

    /// Animations in flight.
    pub playing_anim_areas: Vec<AnimArea>,
    /// Animations that completed during the current tick only.
    pub ended_anim_areas: Vec<AnimArea>,

    /// Areas that asked to be called back on the next frame.
    pub frame_callbacks: Vec<Area>,
    /// Frozen snapshot of `frame_callbacks`, taken when a frame event goes
    /// out.
    pub _frame_callbacks: Vec<Area>,

    /// Signal sends to be drained before drawing, in insertion order.
    pub signals_before_draw: Vec<(Signal, u64)>,
    /// Signal sends to be drained after drawing, in insertion order.
    pub signals_after_draw: Vec<(Signal, u64)>,

    /// The ordered string-keyed style table.
    pub style_values: Vec<(String, StyleValue)>,

    pub panic_now: bool,
    /// Strict-mode guard: while set, any dirty-marking call is a fatal
    /// condition, used to catch illegal mutation patterns.
    pub panic_redraw: bool,
}

/// A by-value copy of a vector of plain values, used to take the frozen
/// snapshots the double-buffered lists need.
#[verifier::loop_isolation(false)]
pub(crate) fn vec_copy<T: Copy>(src: &Vec<T>) -> (r: Vec<T>)
    ensures
        r@ == src@,
{
    let mut out: Vec<T> = Vec::new();
    let mut i: usize = 0;
    while i < src.len()
        invariant
            i <= src@.len(),
            out@ == src@.subrange(0, i as int),
        decreases src@.len() - i,
    {
        proof {
            assert(src@.subrange(0, i as int).push(src@[i as int]) =~= src@.subrange(
                0,
                i as int + 1,
            ));
        }
        out.push(src[i]);
        i += 1;
    }
    proof {
        assert(src@.subrange(0, src@.len() as int) =~= src@);
    }
    out
}

impl Cx {
    /// Well-formedness: the nesting tree and the pass forest are acyclic
    /// (witnessed by the depth assignments), all stored indices are in
    /// bounds, the four dirty lists obey the all-collapse invariant, the
    /// pointer slot arrays have their fixed arity, and style keys are
    /// unique.
    pub open spec fn wf(self) -> bool {
        &&& views_linked(self.views@, self.view_depth@)
        &&& passes_linked(self.passes@, self.pass_depth@)
        &&& forall|p: int|
            0 <= p < self.passes@.len() ==> match #[trigger] self.passes@[p].main_view_id {
                Option::Some(v) => (v as int) < self.views@.len(),
                Option::None => true,
            }
        &&& forall|w: int|
            0 <= w < self.windows@.len() ==> match #[trigger] self.windows@[w].main_pass_id {
                Option::Some(p) => (p as int) < self.passes@.len(),
                Option::None => true,
            }
        &&& forall|i: int|
            0 <= i < self.views_free@.len() ==> 0 < #[trigger] self.views_free@[i]
                < self.views@.len()
        &&& forall|i: int|
            0 <= i < self.passes_free@.len() ==> (#[trigger] self.passes_free@[i] as int)
                < self.passes@.len()
        &&& forall|i: int|
            0 <= i < self.windows_free@.len() ==> (#[trigger] self.windows_free@[i] as int)
                < self.windows@.len()
        &&& area_list_wf(self.redraw_child_areas@, self.views@.len())
        &&& area_list_wf(self.redraw_parent_areas@, self.views@.len())
        &&& area_list_wf(self._redraw_child_areas@, self.views@.len())
        &&& area_list_wf(self._redraw_parent_areas@, self.views@.len())
        &&& self.captured_fingers@.len() == NUM_FINGERS
        &&& self.finger_tap_count@.len() == NUM_FINGERS
        &&& style_table_wf(self.style_values@)
    }
}

impl Cx {
    /// Allocate a view slot: reuse the most recently freed slot, or grow
    /// the arena.  Reusing a slot is only sound once nothing nests under
    /// it any more — freeing leaves that to the caller, as it does for
    /// areas.
    pub fn alloc_view(&mut self, nesting_view_id: usize, pass_id: usize) -> (id: usize)
        requires
            old(self).wf(),
            nesting_view_id < old(self).views@.len(),
            old(self).views_free@.len() > 0 ==> {
                let slot = old(self).views_free@.last();
                &&& slot != nesting_view_id
                &&& forall|w: int|
                    1 <= w < old(self).views@.len() ==> (#[trigger] old(self).views@[w]).nesting_view_id != slot
            },
        ensures
            final(self).wf(),
            id < final(self).views@.len(),
            final(self).views@[id as int] == (CxView { nesting_view_id, pass_id }),
            old(self).views_free@.len() > 0 ==> id == old(self).views_free@.last() && final(self).views@ == old(self).views@.update(
                id as int,
                CxView { nesting_view_id, pass_id },
            ) && final(self).views_free@ == old(self).views_free@.drop_last(),
            old(self).views_free@.len() == 0 ==> id == old(self).views@.len() && final(self).views@ == old(self).views@.push(CxView { nesting_view_id, pass_id }) && final(self).views_free@ == old(self).views_free@,
            *final(self) == (Cx {
                views: final(self).views,
                views_free: final(self).views_free,
                view_depth: final(self).view_depth,
                ..*old(self)
            }),
    {
        let new_view = CxView { nesting_view_id, pass_id };
        let ghost parent_depth = self.view_depth@[nesting_view_id as int];
        if let Option::Some(id) = self.views_free.pop() {
            self.views[id] = new_view;
            proof {
                self.view_depth@ = self.view_depth@.update(id as int, (parent_depth + 1) as nat);
            }
            id
        } else {
            let id = self.views.len();
            self.views.push(new_view);
            proof {
                self.view_depth@ = self.view_depth@.push((parent_depth + 1) as nat);
            }
            id
        }
    }

    /// Return a view slot to the free list; the root is never freed.
    /// The caller remains responsible for rebinding or dropping every
    /// area and nesting reference that still names the slot.
    pub fn free_view(&mut self, view_id: usize)
        requires
            old(self).wf(),
            0 < view_id < old(self).views@.len(),
        ensures
            final(self).wf(),
            final(self).views_free@ == old(self).views_free@.push(view_id),
            *final(self) == (Cx { views_free: final(self).views_free, ..*old(self) }),
    {
        self.views_free.push(view_id);
    }

    /// Allocate a pass slot: reuse the most recently freed slot, or grow
    /// the arena.  Reusing a slot is only sound once no pass depends on
    /// it any more.
    pub fn alloc_pass(&mut self, main_view_id: Option<usize>, dep_of: CxPassDepOf) -> (id: usize)
        requires
            old(self).wf(),
            match main_view_id {
                Option::Some(v) => (v as int) < old(self).views@.len(),
                Option::None => true,
            },
            match dep_of {
                CxPassDepOf::Pass(q) => (q as int) < old(self).passes@.len(),
                CxPassDepOf::Window(_) => true,
                CxPassDepOf::Detached => true,
            },
            old(self).passes_free@.len() > 0 ==> {
                let slot = old(self).passes_free@.last();
                &&& dep_of != CxPassDepOf::Pass(slot)
                &&& forall|p: int|
                    0 <= p < old(self).passes@.len() ==> (#[trigger] old(self).passes@[p]).dep_of
                        != CxPassDepOf::Pass(slot)
            },
        ensures
            final(self).wf(),
            id < final(self).passes@.len(),
            final(self).passes@[id as int] == (CxPass { main_view_id, dep_of }),
            old(self).passes_free@.len() > 0 ==> id == old(self).passes_free@.last() && final(self).passes@ == old(self).passes@.update(id as int, CxPass { main_view_id, dep_of })
                && final(self).passes_free@ == old(self).passes_free@.drop_last(),
            old(self).passes_free@.len() == 0 ==> id == old(self).passes@.len() && final(self).passes@ == old(self).passes@.push(CxPass { main_view_id, dep_of }) && final(self).passes_free@ == old(self).passes_free@,
            *final(self) == (Cx {
                passes: final(self).passes,
                passes_free: final(self).passes_free,
                pass_depth: final(self).pass_depth,
                ..*old(self)
            }),
    {
        let new_pass = CxPass { main_view_id, dep_of };
        let ghost new_depth: nat = match dep_of {
            CxPassDepOf::Pass(q) => (self.pass_depth@[q as int] + 1) as nat,
            CxPassDepOf::Window(_) => 0nat,
            CxPassDepOf::Detached => 0nat,
        };
        if let Option::Some(id) = self.passes_free.pop() {
            self.passes[id] = new_pass;
            proof {
                self.pass_depth@ = self.pass_depth@.update(id as int, new_depth);
            }
            id
        } else {
            let id = self.passes.len();
            self.passes.push(new_pass);
            proof {
                self.pass_depth@ = self.pass_depth@.push(new_depth);
            }
            id
        }
    }

    /// Return a pass slot to the free list.  The caller remains
    /// responsible for the passes, views and windows that still name it.
    pub fn free_pass(&mut self, pass_id: usize)
        requires
            old(self).wf(),
            pass_id < old(self).passes@.len(),
        ensures
            final(self).wf(),
            final(self).passes_free@ == old(self).passes_free@.push(pass_id),
            *final(self) == (Cx { passes_free: final(self).passes_free, ..*old(self) }),
    {
        self.passes_free.push(pass_id);
    }

    /// Allocate a window slot: reuse the most recently freed slot, or
    /// grow the arena.
    pub fn alloc_window(
        &mut self,
        window_state: CxWindowState,
        main_pass_id: Option<usize>,
    ) -> (id: usize)
        requires
            old(self).wf(),
            match main_pass_id {
                Option::Some(p) => (p as int) < old(self).passes@.len(),
                Option::None => true,
            },
        ensures
            final(self).wf(),
            id < final(self).windows@.len(),
            final(self).windows@[id as int] == (CxWindow { window_state, main_pass_id }),
            old(self).windows_free@.len() > 0 ==> id == old(self).windows_free@.last() && final(self).windows@ == old(self).windows@.update(
                id as int,
                CxWindow { window_state, main_pass_id },
            ) && final(self).windows_free@ == old(self).windows_free@.drop_last(),
            old(self).windows_free@.len() == 0 ==> id == old(self).windows@.len() && final(self).windows@ == old(self).windows@.push(CxWindow { window_state, main_pass_id })
                && final(self).windows_free@ == old(self).windows_free@,
            *final(self) == (Cx {
                windows: final(self).windows,
                windows_free: final(self).windows_free,
                ..*old(self)
            }),
    {
        let new_window = CxWindow { window_state, main_pass_id };
        if let Option::Some(id) = self.windows_free.pop() {
            self.windows[id] = new_window;
            id
        } else {
            let id = self.windows.len();
            self.windows.push(new_window);
            id
        }
    }

    /// Return a window slot to the free list.
    pub fn free_window(&mut self, window_id: usize)
        requires
            old(self).wf(),
            window_id < old(self).windows@.len(),
        ensures
            final(self).wf(),
            final(self).windows_free@ == old(self).windows_free@.push(window_id),
            *final(self) == (Cx { windows_free: final(self).windows_free, ..*old(self) }),
    {
        self.windows_free.push(window_id);
    }
}

impl Default for Cx {
    /// A fresh engine: one root view, empty arenas and lists, all cycle
    /// counters starting at 1, and the pointer slot arrays zeroed.
    fn default() -> (r: Self)
        ensures
            r.wf(),
            r.views@ == seq![CxView { nesting_view_id: 0, pass_id: 0 }],
            r.views_free@ == Seq::<usize>::empty(),
            r.passes@ == Seq::<CxPass>::empty(),
            r.passes_free@ == Seq::<usize>::empty(),
            r.windows@ == Seq::<CxWindow>::empty(),
            r.windows_free@ == Seq::<usize>::empty(),
            r.redraw_child_areas@ == Seq::<Area>::empty(),
            r.redraw_parent_areas@ == Seq::<Area>::empty(),
            r._redraw_child_areas@ == Seq::<Area>::empty(),
            r._redraw_parent_areas@ == Seq::<Area>::empty(),
            r.redraw_id == 1u64,
            r.repaint_id == 1u64,
            r.event_id == 1u64,
            r.timer_id == 1u64,
            r.signal_id == 1u64,
            !r.is_in_redraw_cycle,
            r.last_key_focus == Area::Empty,
            r.key_focus == Area::Empty,
            r.keys_down@ == Seq::<KeyEvent>::empty(),
            r.align_list@ == Seq::<Area>::empty(),
            r.captured_fingers@.len() == NUM_FINGERS,
            forall|i: int|
                0 <= i < NUM_FINGERS ==> r.captured_fingers@[i] == Area::Empty,
            r.finger_tap_count@.len() == NUM_FINGERS,
            forall|i: int|
                0 <= i < NUM_FINGERS ==> r.finger_tap_count@[i] == (
                (Vec2 { x: 0, y: 0 }, 0i64, 0u32)),
            r.playing_anim_areas@ == Seq::<AnimArea>::empty(),
            r.ended_anim_areas@ == Seq::<AnimArea>::empty(),
            r.frame_callbacks@ == Seq::<Area>::empty(),
            r._frame_callbacks@ == Seq::<Area>::empty(),
            r.signals_before_draw@ == Seq::<(Signal, u64)>::empty(),
            r.signals_after_draw@ == Seq::<(Signal, u64)>::empty(),
            r.style_values@ == Seq::<(String, StyleValue)>::empty(),
            !r.panic_now,
            !r.panic_redraw,
    {
        let mut captured_fingers: Vec<Area> = Vec::new();
        let mut finger_tap_count: Vec<(Vec2, i64, u32)> = Vec::new();
        let mut i: usize = 0;
        while i < NUM_FINGERS
            invariant
                i <= NUM_FINGERS,
                captured_fingers@.len() == i,
                forall|j: int| 0 <= j < i ==> captured_fingers@[j] == Area::Empty,
                finger_tap_count@.len() == i,
                forall|j: int|
                    0 <= j < i ==> finger_tap_count@[j] == ((Vec2 { x: 0, y: 0 }, 0i64, 0u32)),
            decreases NUM_FINGERS - i,
        {
            captured_fingers.push(Area::Empty);
            finger_tap_count.push((Vec2::zero(), 0i64, 0u32));
            i += 1;
        }

        let mut views: Vec<CxView> = Vec::new();
        views.push(CxView { nesting_view_id: 0, pass_id: 0 });
        let ghost root_depth: Seq<nat> = seq![0nat];
        let ghost no_depth: Seq<nat> = Seq::empty();

        let r = Cx {
            views,
            views_free: Vec::new(),
            view_depth: Ghost(root_depth),

            passes: Vec::new(),
            passes_free: Vec::new(),
            pass_depth: Ghost(no_depth),

            windows: Vec::new(),
            windows_free: Vec::new(),

            redraw_child_areas: Vec::new(),
            redraw_parent_areas: Vec::new(),
            _redraw_child_areas: Vec::new(),
            _redraw_parent_areas: Vec::new(),

            redraw_id: 1,
            repaint_id: 1,
            event_id: 1,
            timer_id: 1,
            signal_id: 1,
            is_in_redraw_cycle: false,

            last_key_focus: Area::Empty,
            key_focus: Area::Empty,
            keys_down: Vec::new(),

            align_list: Vec::new(),

            captured_fingers,
            finger_tap_count,

            playing_anim_areas: Vec::new(),
            ended_anim_areas: Vec::new(),

            frame_callbacks: Vec::new(),
            _frame_callbacks: Vec::new(),

            signals_before_draw: Vec::new(),
            signals_after_draw: Vec::new(),

            style_values: Vec::new(),

            panic_now: false,
            panic_redraw: false,
        };
        proof {
            assert(r.views@ =~= seq![CxView { nesting_view_id: 0, pass_id: 0 }]);
        }
        r
    }
}

} // verus!
