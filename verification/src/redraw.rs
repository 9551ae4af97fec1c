//! The redraw tracker: two live dirty-area lists (child-propagating and
//! parent-propagating), a frozen snapshot of both from the start of the
//! current cycle, and the query that answers "must view V redraw."

use vstd::prelude::*;
use crate::area::Area;
use crate::cx::Cx;
use crate::entity::view_chain_hits;

verus! {

/// Invariant of every dirty-area list: all areas stay inside the view
/// arena, no area occurs twice, and a list containing `All` contains
/// nothing else.
pub open spec fn area_list_wf(list: Seq<Area>, view_count: nat) -> bool {
    &&& forall|i: int| 0 <= i < list.len() ==> (#[trigger] list[i]).valid_in(view_count)
    &&& forall|i: int, j: int| 0 <= i < j < list.len() ==> list[i] != list[j]
    &&& list.contains(Area::All) ==> list.len() == 1
}

/// What marking `area` dirty does to a list: `All` collapses the list to
/// itself, marking anything onto `[All]` is a no-op, and otherwise the
/// area is appended unless already present.
pub open spec fn mark_area(list: Seq<Area>, area: Area) -> Seq<Area> {
    if area == Area::All {
        seq![Area::All]
    } else if list == seq![Area::All] {
        list
    } else if list.contains(area) {
        list
    } else {
        list.push(area)
    }
}

/// Marking the same area twice leaves exactly the list one mark leaves.
pub proof fn lemma_mark_area_idempotent(list: Seq<Area>, area: Area)
    ensures
        mark_area(mark_area(list, area), area) == mark_area(list, area),
{
    let once = mark_area(list, area);
    if area == Area::All {
        assert(once == seq![Area::All]);
    } else if once == list {
        if list != seq![Area::All] && !list.contains(area) {
            assert(false);
        }
    } else {
        assert(once == list.push(area));
        assert(once[once.len() - 1] == area);
        assert(once != seq![Area::All]);
        assert(once.contains(area));
    }
}

/// Once `All` is marked, marking any other area leaves the list `[All]`.
pub proof fn lemma_mark_area_all_absorbs(list: Seq<Area>, area: Area)
    requires
        area != Area::All,
    ensures
        mark_area(mark_area(list, Area::All), area) == seq![Area::All],
{
}

/// Marking preserves the list invariant, and never drops a view index
/// that was valid.
pub proof fn lemma_mark_area_wf(list: Seq<Area>, area: Area, view_count: nat)
    requires
        area_list_wf(list, view_count),
        area.valid_in(view_count),
    ensures
        area_list_wf(mark_area(list, area), view_count),
{
    let out = mark_area(list, area);
    if area == Area::All {
        assert(out[0] == Area::All);
        assert forall|i: int| 0 <= i < out.len() implies (#[trigger] out[i]).valid_in(view_count) by {}
    } else if list == seq![Area::All] || list.contains(area) {
    } else {
        assert forall|i: int, j: int| 0 <= i < j < out.len() implies out[i] != out[j] by {
            if j == out.len() - 1 {
                assert(out[i] == list[i]);
                assert(list.contains(area) == false);
                assert(list[i] != area) by {
                    if list[i] == area {
                        assert(list.contains(area));
                    }
                }
            }
        }
        if out.contains(Area::All) {
            let k = choose|k: int| 0 <= k < out.len() && out[k] == Area::All;
            if k < list.len() {
                assert(list.contains(Area::All));
                assert(list.len() == 1);
                assert(list =~= seq![Area::All]);
                assert(false);
            } else {
                assert(out[k] == area);
                assert(false);
            }
        }
    }
}

/// Marking a whole list of areas in order, oldest first.
pub open spec fn mark_all_areas(list: Seq<Area>, areas: Seq<Area>) -> Seq<Area>
    decreases areas.len(),
{
    if areas.len() == 0 {
        list
    } else {
        mark_all_areas(mark_area(list, areas[0]), areas.drop_first())
    }
}

/// Does an area in the child-propagating snapshot force `view_id` to
/// redraw?  It does when the walk upward from the area's own view passes
/// through `view_id`: the child's content changed, so every ancestor that
/// embeds its draw list must re-record.
pub open spec fn child_area_hits(
    views: Seq<crate::entity::CxView>,
    depth: Seq<nat>,
    area: Area,
    view_id: int,
) -> bool {
    match area {
        Area::All => true,
        Area::Empty => false,
        Area::Instance(ia) => view_chain_hits(views, depth, ia.view_id as int, view_id),
        Area::View(va) => view_chain_hits(views, depth, va.view_id as int, view_id),
    }
}

/// Does an area in the parent-propagating snapshot force `view_id` to
/// redraw?  It does when the walk upward from `view_id` passes through
/// the area's view: a container invalidation ripples down to all its
/// descendants.
pub open spec fn parent_area_hits(
    views: Seq<crate::entity::CxView>,
    depth: Seq<nat>,
    area: Area,
    view_id: int,
) -> bool {
    match area {
        Area::All => true,
        Area::Empty => false,
        Area::Instance(ia) => view_chain_hits(views, depth, view_id, ia.view_id as int),
        Area::View(va) => view_chain_hits(views, depth, view_id, va.view_id as int),
    }
}

impl Cx {
    /// What `view_will_redraw` answers: some area of the frozen child
    /// snapshot bubbles up through `view_id`, or some area of the frozen
    /// parent snapshot lies on the walk upward from `view_id`.
    pub open spec fn spec_view_will_redraw(self, view_id: int) -> bool {
        ||| exists|i: int|
            0 <= i < self._redraw_child_areas@.len() && child_area_hits(
                self.views@,
                self.view_depth@,
                self._redraw_child_areas@[i],
                view_id,
            )
        ||| exists|i: int|
            0 <= i < self._redraw_parent_areas@.len() && parent_area_hits(
                self.views@,
                self.view_depth@,
                self._redraw_parent_areas@[i],
                view_id,
            )
    }

    /// Walk the nesting chain upward from `from` (inclusive) and report
    /// whether it passes through `target`.  The walk ends at the root.
    #[verifier::loop_isolation(false)]
    fn nesting_chain_hits(&self, from: usize, target: usize) -> (r: bool)
        requires
            self.wf(),
            from < self.views@.len(),
        ensures
            r == view_chain_hits(self.views@, self.view_depth@, from as int, target as int),
    {
        let mut vw = from;
        if vw == target {
            return true;
        }
        while vw != 0
            invariant
                vw < self.views@.len(),
                vw != target,
                view_chain_hits(self.views@, self.view_depth@, from as int, target as int)
                    == view_chain_hits(self.views@, self.view_depth@, vw as int, target as int),
            decreases self.view_depth@[vw as int],
        {
            let parent = self.views[vw].nesting_view_id;
            proof {
                assert(view_chain_hits(self.views@, self.view_depth@, vw as int, target as int)
                    == view_chain_hits(
                    self.views@,
                    self.view_depth@,
                    parent as int,
                    target as int,
                ));
            }
            vw = parent;
            if vw == target {
                return true;
            }
        }
        false
    }

    /// Answer, against the frozen snapshot only, whether `view_id` must
    /// redraw this cycle.
    #[verifier::loop_isolation(false)]
    pub fn view_will_redraw(&self, view_id: usize) -> (r: bool)
        requires
            self.wf(),
            view_id < self.views@.len(),
        ensures
            r == self.spec_view_will_redraw(view_id as int),
    {
        let mut i: usize = 0;
        while i < self._redraw_child_areas.len()
            invariant
                i <= self._redraw_child_areas@.len(),
                forall|j: int|
                    0 <= j < i ==> !child_area_hits(
                        self.views@,
                        self.view_depth@,
                        self._redraw_child_areas@[j],
                        view_id as int,
                    ),
            decreases self._redraw_child_areas@.len() - i,
        {
            let area = self._redraw_child_areas[i];
            match area {
                Area::All => {
                    return true;
                },
                Area::Empty => {},
                Area::Instance(ia) => {
                    if self.nesting_chain_hits(ia.view_id, view_id) {
                        return true;
                    }
                },
                Area::View(va) => {
                    if self.nesting_chain_hits(va.view_id, view_id) {
                        return true;
                    }
                },
            }
            i += 1;
        }
        let mut i: usize = 0;
        while i < self._redraw_parent_areas.len()
            invariant
                i <= self._redraw_parent_areas@.len(),
                forall|j: int|
                    0 <= j < self._redraw_child_areas@.len() ==> !child_area_hits(
                        self.views@,
                        self.view_depth@,
                        self._redraw_child_areas@[j],
                        view_id as int,
                    ),
                forall|j: int|
                    0 <= j < i ==> !parent_area_hits(
                        self.views@,
                        self.view_depth@,
                        self._redraw_parent_areas@[j],
                        view_id as int,
                    ),
            decreases self._redraw_parent_areas@.len() - i,
        {
            let area = self._redraw_parent_areas[i];
            match area {
                Area::All => {
                    return true;
                },
                Area::Empty => {},
                Area::Instance(ia) => {
                    if self.nesting_chain_hits(view_id, ia.view_id) {
                        return true;
                    }
                },
                Area::View(va) => {
                    if self.nesting_chain_hits(view_id, va.view_id) {
                        return true;
                    }
                },
            }
            i += 1;
        }
        false
    }

    /// Begin a draw cycle: move the live dirty lists into the frozen
    /// snapshot slots, clear the live lists and the per-cycle alignment
    /// state, and advance the cycle counter.  `view_will_redraw` then
    /// reads a stable snapshot while new requests accumulate.
    pub fn begin_cycle(&mut self)
        requires
            old(self).wf(),
            old(self).redraw_id < u64::MAX,
        ensures
            final(self).wf(),
            final(self).redraw_id == old(self).redraw_id + 1,
            final(self)._redraw_child_areas@ == old(self).redraw_child_areas@,
            final(self)._redraw_parent_areas@ == old(self).redraw_parent_areas@,
            final(self).redraw_child_areas@ == Seq::<Area>::empty(),
            final(self).redraw_parent_areas@ == Seq::<Area>::empty(),
            final(self).align_list@ == Seq::<Area>::empty(),
            *final(self) == (Cx {
                redraw_id: final(self).redraw_id,
                redraw_child_areas: final(self).redraw_child_areas,
                redraw_parent_areas: final(self).redraw_parent_areas,
                _redraw_child_areas: final(self)._redraw_child_areas,
                _redraw_parent_areas: final(self)._redraw_parent_areas,
                align_list: final(self).align_list,
                ..*old(self)
            }),
    {
        self.redraw_id = self.redraw_id + 1;
        let child_snapshot = crate::cx::vec_copy(&self.redraw_child_areas);
        let parent_snapshot = crate::cx::vec_copy(&self.redraw_parent_areas);
        self._redraw_child_areas = child_snapshot;
        self._redraw_parent_areas = parent_snapshot;
        self.align_list.truncate(0);
        self.redraw_child_areas.truncate(0);
        self.redraw_parent_areas.truncate(0);
    }

    /// Re-request everything the previous cycle asked for: mark every
    /// area of both frozen snapshots dirty again, in snapshot order.
    #[verifier::loop_isolation(false)]
    pub fn redraw_previous_areas(&mut self)
        requires
            old(self).wf(),
            !old(self).panic_redraw,
        ensures
            final(self).wf(),
            final(self).redraw_child_areas@ == mark_all_areas(
                old(self).redraw_child_areas@,
                old(self)._redraw_child_areas@,
            ),
            final(self).redraw_parent_areas@ == mark_all_areas(
                old(self).redraw_parent_areas@,
                old(self)._redraw_parent_areas@,
            ),
            *final(self) == (Cx {
                redraw_child_areas: final(self).redraw_child_areas,
                redraw_parent_areas: final(self).redraw_parent_areas,
                ..*old(self)
            }),
    {
        let ghost child0 = self.redraw_child_areas@;
        let ghost child_snap = self._redraw_child_areas@;
        proof {
            assert(child_snap.skip(0) =~= child_snap);
        }
        let mut i: usize = 0;
        while i < self._redraw_child_areas.len()
            invariant
                i <= child_snap.len(),
                self.wf(),
                self._redraw_child_areas@ == child_snap,
                mark_all_areas(child0, child_snap) == mark_all_areas(
                    self.redraw_child_areas@,
                    child_snap.skip(i as int),
                ),
                *self == (Cx { redraw_child_areas: self.redraw_child_areas, ..*old(self) }),
            decreases child_snap.len() - i,
        {
            let area = self._redraw_child_areas[i];
            proof {
                assert(child_snap.skip(i as int).drop_first() =~= child_snap.skip(i as int + 1));
                assert(child_snap.skip(i as int)[0] == area);
            }
            self.redraw_child_area(area);
            i += 1;
        }
        proof {
            assert(child_snap.skip(child_snap.len() as int) =~= Seq::<Area>::empty());
        }
        let ghost parent0 = self.redraw_parent_areas@;
        let ghost parent_snap = self._redraw_parent_areas@;
        proof {
            assert(parent_snap.skip(0) =~= parent_snap);
        }
        let mut i: usize = 0;
        while i < self._redraw_parent_areas.len()
            invariant
                i <= parent_snap.len(),
                self.wf(),
                self._redraw_parent_areas@ == parent_snap,
                self.redraw_child_areas@ == mark_all_areas(child0, child_snap),
                mark_all_areas(parent0, parent_snap) == mark_all_areas(
                    self.redraw_parent_areas@,
                    parent_snap.skip(i as int),
                ),
                *self == (Cx {
                    redraw_child_areas: self.redraw_child_areas,
                    redraw_parent_areas: self.redraw_parent_areas,
                    ..*old(self)
                }),
            decreases parent_snap.len() - i,
        {
            let area = self._redraw_parent_areas[i];
            proof {
                assert(parent_snap.skip(i as int).drop_first() =~= parent_snap.skip(i as int + 1));
                assert(parent_snap.skip(i as int)[0] == area);
            }
            self.redraw_parent_area(area);
            i += 1;
        }
        proof {
            assert(parent_snap.skip(parent_snap.len() as int) =~= Seq::<Area>::empty());
        }
    }

    /// Mark an area child-dirty: its own content changed, so the view it
    /// names and every ancestor embedding that view must re-record next
    /// cycle.
    #[verifier::loop_isolation(false)]
    pub fn redraw_child_area(&mut self, area: Area)
        requires
            old(self).wf(),
            !old(self).panic_redraw,
            area.valid_in(old(self).views@.len()),
        ensures
            final(self).wf(),
            final(self).redraw_child_areas@ == mark_area(old(self).redraw_child_areas@, area),
            *final(self) == (Cx {
                redraw_child_areas: final(self).redraw_child_areas,
                ..*old(self)
            }),
    {
        proof {
            lemma_mark_area_wf(self.redraw_child_areas@, area, self.views@.len());
        }
        if area == Area::All {
            self.redraw_child_areas.truncate(0);
            self.redraw_child_areas.push(Area::All);
            proof {
                assert(self.redraw_child_areas@ =~= seq![Area::All]);
            }
            return ;
        }
        if self.redraw_child_areas.len() == 1 && self.redraw_child_areas[0] == Area::All {
            proof {
                assert(self.redraw_child_areas@ =~= seq![Area::All]);
            }
            return ;
        }
        let mut i: usize = 0;
        while i < self.redraw_child_areas.len()
            invariant
                i <= self.redraw_child_areas@.len(),
                forall|j: int| 0 <= j < i ==> self.redraw_child_areas@[j] != area,
            decreases self.redraw_child_areas@.len() - i,
        {
            if self.redraw_child_areas[i] == area {
                proof {
                    assert(self.redraw_child_areas@.contains(area));
                    assert(self.redraw_child_areas@ != seq![Area::All]) by {
                        if self.redraw_child_areas@ == seq![Area::All] {
                            assert(self.redraw_child_areas@[i as int] == Area::All);
                        }
                    }
                }
                return ;
            }
            i += 1;
        }
        proof {
            assert(!self.redraw_child_areas@.contains(area));
            assert(self.redraw_child_areas@ != seq![Area::All]) by {
                if self.redraw_child_areas@ == seq![Area::All] {
                    assert(self.redraw_child_areas@[0] == Area::All);
                    assert(self.redraw_child_areas@.contains(Area::All));
                    assert(self.redraw_child_areas@.len() == 1);
                }
            }
        }
        self.redraw_child_areas.push(area);
    }

    /// Mark an area parent-dirty: its container changed, so the view it
    /// names and every descendant must re-record next cycle.
    #[verifier::loop_isolation(false)]
    pub fn redraw_parent_area(&mut self, area: Area)
        requires
            old(self).wf(),
            !old(self).panic_redraw,
            area.valid_in(old(self).views@.len()),
        ensures
            final(self).wf(),
            final(self).redraw_parent_areas@ == mark_area(old(self).redraw_parent_areas@, area),
            *final(self) == (Cx {
                redraw_parent_areas: final(self).redraw_parent_areas,
                ..*old(self)
            }),
    {
        proof {
            lemma_mark_area_wf(self.redraw_parent_areas@, area, self.views@.len());
        }
        if area == Area::All {
            self.redraw_parent_areas.truncate(0);
            self.redraw_parent_areas.push(Area::All);
            proof {
                assert(self.redraw_parent_areas@ =~= seq![Area::All]);
            }
            return ;
        }
        if self.redraw_parent_areas.len() == 1 && self.redraw_parent_areas[0] == Area::All {
            proof {
                assert(self.redraw_parent_areas@ =~= seq![Area::All]);
            }
            return ;
        }
        let mut i: usize = 0;
        while i < self.redraw_parent_areas.len()
            invariant
                i <= self.redraw_parent_areas@.len(),
                forall|j: int| 0 <= j < i ==> self.redraw_parent_areas@[j] != area,
            decreases self.redraw_parent_areas@.len() - i,
        {
            if self.redraw_parent_areas[i] == area {
                proof {
                    assert(self.redraw_parent_areas@.contains(area));
                    assert(self.redraw_parent_areas@ != seq![Area::All]) by {
                        if self.redraw_parent_areas@ == seq![Area::All] {
                            assert(self.redraw_parent_areas@[i as int] == Area::All);
                        }
                    }
                }
                return ;
            }
            i += 1;
        }
        proof {
            assert(!self.redraw_parent_areas@.contains(area));
            assert(self.redraw_parent_areas@ != seq![Area::All]) by {
                if self.redraw_parent_areas@ == seq![Area::All] {
                    assert(self.redraw_parent_areas@[0] == Area::All);
                    assert(self.redraw_parent_areas@.contains(Area::All));
                    assert(self.redraw_parent_areas@.len() == 1);
                }
            }
        }
        self.redraw_parent_areas.push(area);
    }
}

} // verus!
