//! The area rebinder: when a structural change moves a logical area to a
//! different slot, every cross-cutting reference held by value is
//! repointed.  Pending dirty lists are deliberately left alone: they are
//! cycle-scoped and discarded at the next swap.

use vstd::prelude::*;
use crate::area::Area;
use crate::cx::Cx;
use crate::events::AnimArea;

verus! {

/// Every occurrence of `old_a` in `s0` was replaced by `new_a` to give
/// `s1`; everything else is untouched.
pub open spec fn area_seq_rebound(s0: Seq<Area>, s1: Seq<Area>, old_a: Area, new_a: Area) -> bool {
    &&& s1.len() == s0.len()
    &&& forall|k: int|
        0 <= k < s0.len() ==> s1[k] == (if s0[k] == old_a {
            new_a
        } else {
            s0[k]
        })
}

/// Every in-flight animation keyed by `old_a` in `s0` was rekeyed to
/// `new_a` to give `s1`; everything else is untouched.
pub open spec fn anim_seq_rebound(
    s0: Seq<AnimArea>,
    s1: Seq<AnimArea>,
    old_a: Area,
    new_a: Area,
) -> bool {
    &&& s1.len() == s0.len()
    &&& forall|k: int|
        0 <= k < s0.len() ==> s1[k] == (if s0[k].area == old_a {
            AnimArea { area: new_a, ..s0[k] }
        } else {
            s0[k]
        })
}

/// Replace every occurrence of `old_a` by `new_a`.
#[verifier::loop_isolation(false)]
fn rebind_areas(areas: &mut Vec<Area>, old_a: Area, new_a: Area)
    ensures
        area_seq_rebound(old(areas)@, final(areas)@, old_a, new_a),
{
    let mut i: usize = 0;
    while i < areas.len()
        invariant
            i <= areas@.len(),
            areas@.len() == old(areas)@.len(),
            forall|j: int|
                0 <= j < i ==> areas@[j] == (if old(areas)@[j] == old_a {
                    new_a
                } else {
                    old(areas)@[j]
                }),
            forall|j: int| i <= j < areas@.len() ==> areas@[j] == old(areas)@[j],
        decreases areas@.len() - i,
    {
        if areas[i] == old_a {
            areas[i] = new_a;
        }
        i += 1;
    }
}

/// Rekey every in-flight animation keyed by `old_a` to `new_a`.
#[verifier::loop_isolation(false)]
fn rebind_anims(anims: &mut Vec<AnimArea>, old_a: Area, new_a: Area)
    ensures
        anim_seq_rebound(old(anims)@, final(anims)@, old_a, new_a),
{
    let mut i: usize = 0;
    while i < anims.len()
        invariant
            i <= anims@.len(),
            anims@.len() == old(anims)@.len(),
            forall|j: int|
                0 <= j < i ==> anims@[j] == (if old(anims)@[j].area == old_a {
                    AnimArea { area: new_a, ..old(anims)@[j] }
                } else {
                    old(anims)@[j]
                }),
            forall|j: int| i <= j < anims@.len() ==> anims@[j] == old(anims)@[j],
        decreases anims@.len() - i,
    {
        if anims[i].area == old_a {
            let rekeyed = AnimArea { area: new_a, ..anims[i] };
            anims[i] = rekeyed;
        }
        i += 1;
    }
}

impl Cx {
    /// Repoint every place `old_area` is held by value — the animations
    /// it keys, the pointer slots it captured, the key focus, the pending
    /// frame callbacks — to `new_area`.  `Empty` and `All` are not
    /// migratable identities, so they are left alone.
    pub fn update_area_refs(&mut self, old_area: Area, new_area: Area)
        requires
            old(self).wf(),
        ensures
            final(self).wf(),
            (old_area == Area::Empty || old_area == Area::All) ==> *final(self) == *old(self),
            (old_area != Area::Empty && old_area != Area::All) ==> {
                &&& anim_seq_rebound(
                    old(self).playing_anim_areas@,
                    final(self).playing_anim_areas@,
                    old_area,
                    new_area,
                )
                &&& area_seq_rebound(
                    old(self).captured_fingers@,
                    final(self).captured_fingers@,
                    old_area,
                    new_area,
                )
                &&& final(self).key_focus == if old(self).key_focus == old_area {
                    new_area
                } else {
                    old(self).key_focus
                }
                &&& area_seq_rebound(
                    old(self).frame_callbacks@,
                    final(self).frame_callbacks@,
                    old_area,
                    new_area,
                )
                &&& *final(self) == (Cx {
                    playing_anim_areas: final(self).playing_anim_areas,
                    captured_fingers: final(self).captured_fingers,
                    key_focus: final(self).key_focus,
                    frame_callbacks: final(self).frame_callbacks,
                    ..*old(self)
                })
            },
    {
        if old_area == Area::Empty || old_area == Area::All {
            return ;
        }
        rebind_anims(&mut self.playing_anim_areas, old_area, new_area);
        rebind_areas(&mut self.captured_fingers, old_area, new_area);
        if self.key_focus == old_area {
            self.key_focus = new_area;
        }
        rebind_areas(&mut self.frame_callbacks, old_area, new_area);
    }
}

} // verus!
