//! The animation scheduler: retires in-flight animations whose time is up
//! and reports, for each tick, exactly that tick's completions.

use vstd::prelude::*;
use crate::cx::Cx;
use crate::events::AnimArea;
use crate::events::AnimStart;

verus! {

broadcast use vstd::seq_lib::lemma_seq_contains_after_push;

/// Whether an animation is over at `time`: its start is the
/// already-elapsed sentinel, or its duration has run out.
pub open spec fn anim_ended(a: AnimArea, time: i64) -> bool {
    match a.start_time {
        AnimStart::Elapsed => true,
        AnimStart::At(s) => time - s >= a.total_time,
    }
}

/// The animations still in flight after a scan at `time`, in order.
pub open spec fn anim_keep_filter(playing: Seq<AnimArea>, time: i64) -> Seq<AnimArea>
    decreases playing.len(),
{
    if playing.len() == 0 {
        Seq::empty()
    } else {
        let rest = anim_keep_filter(playing.drop_last(), time);
        if !anim_ended(playing.last(), time) {
            rest.push(playing.last())
        } else {
            rest
        }
    }
}

/// The animations a scan at `time` retires, in order.
pub open spec fn anim_ended_filter(playing: Seq<AnimArea>, time: i64) -> Seq<AnimArea>
    decreases playing.len(),
{
    if playing.len() == 0 {
        Seq::empty()
    } else {
        let rest = anim_ended_filter(playing.drop_last(), time);
        if anim_ended(playing.last(), time) {
            rest.push(playing.last())
        } else {
            rest
        }
    }
}

/// Everything the scan keeps was in flight and is not over.
pub proof fn lemma_keep_filter_members(playing: Seq<AnimArea>, time: i64)
    ensures
        forall|x: AnimArea|
            #[trigger] anim_keep_filter(playing, time).contains(x) ==> !anim_ended(x, time)
                && playing.contains(x),
    decreases playing.len(),
{
    if playing.len() > 0 {
        lemma_keep_filter_members(playing.drop_last(), time);
        assert forall|x: AnimArea|
            #[trigger] anim_keep_filter(playing, time).contains(x) implies !anim_ended(x, time)
            && playing.contains(x) by {
            let fr = anim_keep_filter(playing.drop_last(), time);
            if fr.contains(x) {
                assert(playing.drop_last().contains(x));
                let k = choose|k: int| 0 <= k < playing.drop_last().len() && playing.drop_last()[k]
                    == x;
                assert(playing[k] == x);
            } else {
                assert(x == playing.last());
                assert(playing[playing.len() - 1] == x);
            }
        }
    }
}

/// Every in-flight animation that is over at `time` is retired by the
/// scan at `time`.
pub proof fn lemma_ended_filter_contains(playing: Seq<AnimArea>, time: i64, i: int)
    requires
        0 <= i < playing.len(),
        anim_ended(playing[i], time),
    ensures
        anim_ended_filter(playing, time).contains(playing[i]),
    decreases playing.len(),
{
    let fr = anim_ended_filter(playing.drop_last(), time);
    if i == playing.len() - 1 {
        assert(anim_ended_filter(playing, time) == fr.push(playing.last()));
    } else {
        assert(playing.drop_last()[i] == playing[i]);
        lemma_ended_filter_contains(playing.drop_last(), time, i);
    }
}

/// An animation whose start is the already-elapsed sentinel is retired on
/// the very next scan, whatever its duration.
pub proof fn lemma_elapsed_anim_retires(playing: Seq<AnimArea>, time: i64, i: int)
    requires
        0 <= i < playing.len(),
        playing[i].start_time == AnimStart::Elapsed,
    ensures
        anim_ended_filter(playing, time).contains(playing[i]),
        !anim_keep_filter(playing, time).contains(playing[i]),
{
    lemma_ended_filter_contains(playing, time, i);
    lemma_keep_filter_members(playing, time);
}

impl Cx {
    /// Scan the in-flight animations once at `time`: every ended one
    /// moves, in order, to the ended list, which holds exactly this
    /// tick's completions; the rest stay in order.
    #[verifier::loop_isolation(false)]
    pub fn check_ended_anim_areas(&mut self, time: i64)
        requires
            old(self).wf(),
        ensures
            final(self).wf(),
            final(self).playing_anim_areas@ == anim_keep_filter(
                old(self).playing_anim_areas@,
                time,
            ),
            final(self).ended_anim_areas@ == anim_ended_filter(
                old(self).playing_anim_areas@,
                time,
            ),
            *final(self) == (Cx {
                playing_anim_areas: final(self).playing_anim_areas,
                ended_anim_areas: final(self).ended_anim_areas,
                ..*old(self)
            }),
    {
        let ghost play0 = self.playing_anim_areas@;
        let mut i: usize = 0;
        let ghost mut j: int = 0;
        self.ended_anim_areas.truncate(0);
        proof {
            assert(play0.subrange(0, 0) =~= Seq::<AnimArea>::empty());
            assert(play0.subrange(0, play0.len() as int) =~= play0);
            assert(self.playing_anim_areas@ =~= anim_keep_filter(play0.subrange(0, 0), time)
                + play0.subrange(0, play0.len() as int));
            assert(self.ended_anim_areas@ =~= anim_ended_filter(play0.subrange(0, 0), time));
        }
        loop
            invariant
                self.wf(),
                0 <= j <= play0.len(),
                i == anim_keep_filter(play0.subrange(0, j), time).len(),
                self.playing_anim_areas@ == anim_keep_filter(play0.subrange(0, j), time)
                    + play0.subrange(j, play0.len() as int),
                self.ended_anim_areas@ == anim_ended_filter(play0.subrange(0, j), time),
                *self == (Cx {
                    playing_anim_areas: self.playing_anim_areas,
                    ended_anim_areas: self.ended_anim_areas,
                    ..*old(self)
                }),
            decreases play0.len() - j,
        {
            let ghost kept = anim_keep_filter(play0.subrange(0, j), time);
            let ghost rest = play0.subrange(j, play0.len() as int);
            if i >= self.playing_anim_areas.len() {
                proof {
                    assert(rest.len() == 0);
                    assert(j == play0.len());
                    assert(play0.subrange(0, j) =~= play0);
                }
                break ;
            }
            proof {
                assert(rest.len() > 0);
                assert(self.playing_anim_areas@[i as int] == rest[0]);
                assert(rest[0] == play0[j]);
                assert(play0.subrange(0, j + 1).drop_last() =~= play0.subrange(0, j));
                assert(play0.subrange(0, j + 1).last() == play0[j]);
            }
            let anim = self.playing_anim_areas[i];
            let over = match anim.start_time {
                AnimStart::Elapsed => true,
                AnimStart::At(start) => (time as i128) - (start as i128) >= (
                anim.total_time as i128),
            };
            proof {
                assert(over == anim_ended(play0[j], time));
            }
            if over {
                let retired = self.playing_anim_areas.remove(i);
                self.ended_anim_areas.push(retired);
                proof {
                    j = j + 1;
                    assert(anim_keep_filter(play0.subrange(0, j), time) == kept);
                    assert(self.playing_anim_areas@ =~= kept + play0.subrange(
                        j,
                        play0.len() as int,
                    ));
                }
            } else {
                i += 1;
                proof {
                    j = j + 1;
                    assert(anim_keep_filter(play0.subrange(0, j), time) == kept.push(
                        play0[j - 1],
                    ));
                    assert(self.playing_anim_areas@ =~= anim_keep_filter(
                        play0.subrange(0, j),
                        time,
                    ) + play0.subrange(j, play0.len() as int));
                }
            }
        }
    }
}

} // verus!
