//! The pass/window dependency walker: propagates "this render target must
//! repaint" upward through the chain of passes that composite it, and
//! downward over all passes that feed into a target.

use vstd::prelude::*;
use crate::area::Area;
use crate::area::ViewArea;
use crate::cx::Cx;
use crate::entity::CxPass;
use crate::entity::CxPassDepOf;
use crate::entity::CxWindowState;
use crate::entity::dep_chain_hits;
use crate::entity::passes_linked;
use crate::entity::lemma_dep_chain_antisym;
use crate::entity::lemma_dep_chain_depth;
use crate::entity::lemma_dep_chain_linear;
use crate::entity::lemma_dep_chain_through_child;
use crate::entity::lemma_dep_chain_trans;
use crate::redraw::mark_area;

verus! {

broadcast use vstd::seq_lib::lemma_seq_contains_after_push;

/// The parent-dirty area a pass contributes: its main view, when it has
/// one.
pub open spec fn marks_view(pass: CxPass, a: Area) -> bool {
    match pass.main_view_id {
        Option::Some(v) => a == Area::View(ViewArea { view_id: v, redraw_id: 0 }),
        Option::None => false,
    }
}

/// Areas the upward walk starting at `start` marks: the main views of
/// every pass on the dependency chain from `start` (inclusive).
pub open spec fn dep_marked(passes: Seq<CxPass>, depth: Seq<nat>, start: int, a: Area) -> bool {
    exists|p: int|
        0 <= p < passes.len() && #[trigger] dep_chain_hits(passes, depth, start, p) && marks_view(
            passes[p],
            a,
        )
}

/// Areas the downward walk starting at `root` marks: the main views of
/// every pass whose dependency chain passes through `root`.
pub open spec fn sub_marked(passes: Seq<CxPass>, depth: Seq<nat>, root: int, a: Area) -> bool {
    exists|p: int|
        0 <= p < passes.len() && #[trigger] dep_chain_hits(passes, depth, p, root) && marks_view(
            passes[p],
            a,
        )
}

/// Areas marked so far by the upward walk: passes on the chain from
/// `start` that lie strictly before the walk's current position.
spec fn walked_marked(
    passes: Seq<CxPass>,
    depth: Seq<nat>,
    start: int,
    walk: int,
    a: Area,
) -> bool {
    exists|p: int|
        0 <= p < passes.len() && #[trigger] dep_chain_hits(passes, depth, start, p)
            && dep_chain_hits(passes, depth, p, walk) && p != walk && marks_view(passes[p], a)
}

/// Passes strictly deeper than `p` in the witness depth assignment: the
/// recursion measure for the downward walk.
pub open spec fn deeper_passes(depth: Seq<nat>, p: int) -> Set<int> {
    Set::new(|q: int| 0 <= q < depth.len() && depth[p] < depth[q])
}

/// Descending to a deeper pass strictly shrinks the measure.
proof fn lemma_deeper_passes_decreases(depth: Seq<nat>, p: int, c: int)
    requires
        0 <= p < depth.len(),
        0 <= c < depth.len(),
        depth[p] < depth[c],
    ensures
        deeper_passes(depth, c).len() < deeper_passes(depth, p).len(),
{
    let sp = deeper_passes(depth, p);
    let sc = deeper_passes(depth, c);
    let range = vstd::set_lib::set_int_range(0, depth.len() as int);
    vstd::set_lib::lemma_int_range(0, depth.len() as int);
    vstd::set_lib::lemma_len_subset(sp, range);
    assert(sc.subset_of(sp));
    assert(sp.contains(c));
    assert(!sc.contains(c));
    sc.lemma_subset_not_in_lt(sp, c);
}

/// Areas marked so far by the downward walk at `root`: the root's own
/// main view, plus the subtrees of the direct dependents already visited
/// (those with index below `upto`).
spec fn sub_walked(passes: Seq<CxPass>, depth: Seq<nat>, root: int, upto: int, a: Area) -> bool {
    ||| marks_view(passes[root], a)
    ||| exists|p: int, c: int|
        0 <= p < passes.len() && 0 <= c < upto && passes[c].dep_of == CxPassDepOf::Pass(
            root as usize,
        ) && #[trigger] dep_chain_hits(passes, depth, p, c) && marks_view(passes[p], a)
}

/// After marking the walk pass's main view, the list holds what it held,
/// plus that view's area.
proof fn lemma_membership_after_mark(
    pre: Seq<Area>,
    cur: Seq<Area>,
    list0: Seq<Area>,
    passes: Seq<CxPass>,
    depth: Seq<nat>,
    start: int,
    walk: int,
)
    requires
        0 <= walk < passes.len(),
        pre != seq![Area::All],
        forall|a: Area|
            pre.contains(a) <==> (list0.contains(a) || walked_marked(
                passes,
                depth,
                start,
                walk,
                a,
            )),
        match passes[walk].main_view_id {
            Option::Some(v) => cur == mark_area(
                pre,
                Area::View(ViewArea { view_id: v, redraw_id: 0 }),
            ),
            Option::None => cur == pre,
        },
    ensures
        cur != seq![Area::All],
        forall|a: Area|
            cur.contains(a) <==> (list0.contains(a) || walked_marked(passes, depth, start, walk, a)
                || marks_view(passes[walk], a)),
{
    match passes[walk].main_view_id {
        Option::Some(v) => {
            let area = Area::View(ViewArea { view_id: v, redraw_id: 0 });
            if !pre.contains(area) {
                assert(cur == pre.push(area));
                assert(cur != seq![Area::All]) by {
                    if cur == seq![Area::All] {
                        assert(cur[cur.len() - 1] == area);
                        assert(seq![Area::All][cur.len() - 1] == Area::All);
                    }
                }
            }
            assert forall|a: Area|
                cur.contains(a) <==> (list0.contains(a) || walked_marked(
                    passes,
                    depth,
                    start,
                    walk,
                    a,
                ) || marks_view(passes[walk], a)) by {
                if pre.contains(area) {
                    assert(cur == pre);
                } else {
                    assert(cur == pre.push(area));
                    assert(cur.contains(a) <==> (pre.contains(a) || a == area));
                }
            }
        },
        Option::None => {},
    }
}


/// What the downward walk leaves behind: the parent-dirty list grew by
/// exactly the main views of `pass_id`'s subtree, except that a list
/// already collapsed to `[All]` stays as it is.
pub open spec fn sub_walk_post(cx0: Cx, cx1: Cx, pass_id: int) -> bool {
    &&& cx0.redraw_parent_areas@ == seq![Area::All] ==> cx1.redraw_parent_areas@
        == cx0.redraw_parent_areas@
    &&& cx0.redraw_parent_areas@ != seq![Area::All] ==> cx1.redraw_parent_areas@ != seq![
        Area::All,
    ] && (forall|a: Area|
        cx1.redraw_parent_areas@.contains(a) <==> (cx0.redraw_parent_areas@.contains(a)
            || sub_marked(cx0.passes@, cx0.pass_depth@, pass_id, a)))
}

/// Windows in these lifecycle states repaint when everything is
/// invalidated.
pub open spec fn window_redraws(w: crate::entity::CxWindow) -> bool {
    w.window_state == CxWindowState::Create || w.window_state == CxWindowState::Created
}

/// What window `w` contributes when everything is invalidated: the
/// upward-walk marks of its main pass, if it is live and has one.
pub open spec fn window_mark(cx: Cx, w: int, a: Area) -> bool {
    window_redraws(cx.windows@[w]) && match cx.windows@[w].main_pass_id {
        Option::Some(p) => dep_marked(cx.passes@, cx.pass_depth@, p as int, a),
        Option::None => false,
    }
}

/// The contributions of the first `upto` windows.
pub open spec fn windows_walked(cx: Cx, upto: int, a: Area) -> bool {
    exists|w: int| 0 <= w < upto && #[trigger] window_mark(cx, w, a)
}

/// The areas `redraw_pass_of` marks for a given target area.
pub open spec fn pass_of_marked(cx: Cx, area: Area, a: Area) -> bool {
    match area {
        Area::Empty => false,
        Area::All => windows_walked(cx, cx.windows@.len() as int, a),
        Area::Instance(ia) => dep_marked(
            cx.passes@,
            cx.pass_depth@,
            cx.views@[ia.view_id as int].pass_id as int,
            a,
        ),
        Area::View(va) => dep_marked(
            cx.passes@,
            cx.pass_depth@,
            cx.views@[va.view_id as int].pass_id as int,
            a,
        ),
    }
}

/// What `redraw_pass_of` leaves behind: the parent-dirty list grew by
/// exactly the marks of the resolved target, except that a list already
/// collapsed to `[All]` stays as it is.
pub open spec fn redraw_pass_of_post(cx0: Cx, cx1: Cx, area: Area) -> bool {
    &&& cx0.redraw_parent_areas@ == seq![Area::All] ==> cx1.redraw_parent_areas@
        == cx0.redraw_parent_areas@
    &&& cx0.redraw_parent_areas@ != seq![Area::All] ==> cx1.redraw_parent_areas@ != seq![
        Area::All,
    ] && (forall|a: Area|
        cx1.redraw_parent_areas@.contains(a) <==> (cx0.redraw_parent_areas@.contains(a)
            || pass_of_marked(cx0, area, a)))
}

/// One step of the all-windows scan.
proof fn lemma_windows_walked_step(
    cx0: Cx,
    w: int,
    list0: Seq<Area>,
    pre: Seq<Area>,
    cur: Seq<Area>,
)
    requires
        0 <= w < cx0.windows@.len(),
        forall|a: Area|
            pre.contains(a) <==> (list0.contains(a) || windows_walked(cx0, w, a)),
        forall|a: Area| cur.contains(a) <==> (pre.contains(a) || window_mark(cx0, w, a)),
    ensures
        forall|a: Area|
            cur.contains(a) <==> (list0.contains(a) || windows_walked(cx0, w + 1, a)),
{
    assert forall|a: Area|
        cur.contains(a) <==> (list0.contains(a) || windows_walked(cx0, w + 1, a)) by {
        if windows_walked(cx0, w + 1, a) && !windows_walked(cx0, w, a) {
            let i = choose|i: int| 0 <= i < w + 1 && #[trigger] window_mark(cx0, i, a);
            assert(i == w);
        }
        if window_mark(cx0, w, a) {
            assert(windows_walked(cx0, w + 1, a));
        }
        if windows_walked(cx0, w, a) {
            let i = choose|i: int| 0 <= i < w && #[trigger] window_mark(cx0, i, a);
            assert(windows_walked(cx0, w + 1, a));
        }
    }
}

/// One step of the downward scan: after visiting dependent candidate
/// `sub`, the marked set grows by `sub`'s subtree exactly when `sub`
/// feeds into `root`.
proof fn lemma_sub_walked_step(
    passes: Seq<CxPass>,
    depth: Seq<nat>,
    root: int,
    sub: int,
    list0: Seq<Area>,
    pre: Seq<Area>,
    cur: Seq<Area>,
)
    requires
        passes_linked(passes, depth),
        passes.len() <= usize::MAX,
        0 <= root < passes.len(),
        0 <= sub < passes.len(),
        forall|a: Area|
            pre.contains(a) <==> (list0.contains(a) || sub_walked(passes, depth, root, sub, a)),
        passes[sub].dep_of == CxPassDepOf::Pass(root as usize) ==> (forall|a: Area|
            cur.contains(a) <==> (pre.contains(a) || sub_marked(passes, depth, sub, a))),
        passes[sub].dep_of != CxPassDepOf::Pass(root as usize) ==> cur == pre,
    ensures
        forall|a: Area|
            cur.contains(a) <==> (list0.contains(a) || sub_walked(
                passes,
                depth,
                root,
                sub + 1,
                a,
            )),
{
    assert forall|a: Area|
        cur.contains(a) <==> (list0.contains(a) || sub_walked(passes, depth, root, sub + 1, a)) by {
        if passes[sub].dep_of == CxPassDepOf::Pass(root as usize) {
            if sub_marked(passes, depth, sub, a) {
                let p = choose|p: int|
                    0 <= p < passes.len() && #[trigger] dep_chain_hits(passes, depth, p, sub)
                        && marks_view(passes[p], a);
                assert(sub_walked(passes, depth, root, sub + 1, a));
            }
            if sub_walked(passes, depth, root, sub + 1, a) && !sub_walked(
                passes,
                depth,
                root,
                sub,
                a,
            ) {
                let (p, c) = choose|p: int, c: int|
                    0 <= p < passes.len() && 0 <= c < sub + 1 && passes[c].dep_of
                        == CxPassDepOf::Pass(root as usize) && #[trigger] dep_chain_hits(
                        passes,
                        depth,
                        p,
                        c,
                    ) && marks_view(passes[p], a);
                assert(c == sub);
                assert(sub_marked(passes, depth, sub, a));
            }
        } else {
            if sub_walked(passes, depth, root, sub + 1, a) && !sub_walked(
                passes,
                depth,
                root,
                sub,
                a,
            ) {
                let (p, c) = choose|p: int, c: int|
                    0 <= p < passes.len() && 0 <= c < sub + 1 && passes[c].dep_of
                        == CxPassDepOf::Pass(root as usize) && #[trigger] dep_chain_hits(
                        passes,
                        depth,
                        p,
                        c,
                    ) && marks_view(passes[p], a);
                assert(c == sub);
                assert(false);
            }
        }
    }
}

/// Once every pass has been scanned, the walked set is exactly the
/// subtree of `root`.
proof fn lemma_sub_walked_complete(passes: Seq<CxPass>, depth: Seq<nat>, root: int)
    requires
        passes_linked(passes, depth),
        passes.len() <= usize::MAX,
        0 <= root < passes.len(),
    ensures
        forall|a: Area|
            sub_walked(passes, depth, root, passes.len() as int, a) <==> sub_marked(
                passes,
                depth,
                root,
                a,
            ),
{
    assert forall|a: Area|
        sub_walked(passes, depth, root, passes.len() as int, a) <==> sub_marked(
            passes,
            depth,
            root,
            a,
        ) by {
        assert(root == (root as usize) as int);
        if sub_walked(passes, depth, root, passes.len() as int, a) {
            if marks_view(passes[root], a) {
                assert(dep_chain_hits(passes, depth, root, root));
                assert(sub_marked(passes, depth, root, a));
            } else {
                let (p, c) = choose|p: int, c: int|
                    0 <= p < passes.len() && 0 <= c < passes.len() && passes[c].dep_of
                        == CxPassDepOf::Pass(root as usize) && #[trigger] dep_chain_hits(
                        passes,
                        depth,
                        p,
                        c,
                    ) && marks_view(passes[p], a);
                assert(dep_chain_hits(passes, depth, root, root));
                assert(dep_chain_hits(passes, depth, c, root));
                lemma_dep_chain_trans(passes, depth, p, c, root);
                assert(sub_marked(passes, depth, root, a));
            }
        }
        if sub_marked(passes, depth, root, a) {
            let p = choose|p: int|
                0 <= p < passes.len() && #[trigger] dep_chain_hits(passes, depth, p, root)
                    && marks_view(passes[p], a);
            if p == root {
                assert(marks_view(passes[root], a));
            } else {
                lemma_dep_chain_through_child(passes, depth, root, p);
                let c = choose|c: int|
                    0 <= c < passes.len() && passes[c].dep_of == CxPassDepOf::Pass(root as usize)
                        && #[trigger] dep_chain_hits(passes, depth, p, c);
                assert(sub_walked(passes, depth, root, passes.len() as int, a));
            }
        }
    }
}

impl Cx {
    /// Starting at `pass_id`, mark each pass's main view parent-dirty and
    /// follow `dep_of` while it names a pass; stop at a window or a
    /// detached pass.  A render target changed, so everything that
    /// composites it must repaint.
    #[verifier::loop_isolation(false)]
    #[verifier::rlimit(60)]
    pub fn redraw_pass_and_dep_of_passes(&mut self, pass_id: usize)
        requires
            old(self).wf(),
            !old(self).panic_redraw,
            pass_id < old(self).passes@.len(),
        ensures
            final(self).wf(),
            *final(self) == (Cx {
                redraw_parent_areas: final(self).redraw_parent_areas,
                ..*old(self)
            }),
            old(self).redraw_parent_areas@ == seq![Area::All]
                ==> final(self).redraw_parent_areas@ == old(self).redraw_parent_areas@,
            old(self).redraw_parent_areas@ != seq![Area::All]
                ==> final(self).redraw_parent_areas@ != seq![Area::All] && (forall|a: Area|
                final(self).redraw_parent_areas@.contains(a)
                    <==> (old(self).redraw_parent_areas@.contains(a) || dep_marked(
                    old(self).passes@,
                    old(self).pass_depth@,
                    pass_id as int,
                    a,
                ))),
    {
        let ghost passes0 = self.passes@;
        let ghost depth0 = self.pass_depth@;
        let ghost list0 = self.redraw_parent_areas@;
        let mut walk_pass_id = pass_id;
        proof {
            assert forall|a: Area| !walked_marked(
                passes0,
                depth0,
                pass_id as int,
                pass_id as int,
                a,
            ) by {
                if walked_marked(passes0, depth0, pass_id as int, pass_id as int, a) {
                    let p = choose|p: int|
                        0 <= p < passes0.len() && #[trigger] dep_chain_hits(
                            passes0,
                            depth0,
                            pass_id as int,
                            p,
                        ) && dep_chain_hits(passes0, depth0, p, pass_id as int) && p != pass_id
                            as int && marks_view(passes0[p], a);
                    lemma_dep_chain_antisym(passes0, depth0, pass_id as int, p);
                }
            }
        }
        loop
            invariant
                self.wf(),
                !self.panic_redraw,
                pass_id < passes0.len(),
                walk_pass_id < self.passes@.len(),
                self.passes@ == passes0,
                self.pass_depth@ == depth0,
                *self == (Cx { redraw_parent_areas: self.redraw_parent_areas, ..*old(self) }),
                dep_chain_hits(passes0, depth0, pass_id as int, walk_pass_id as int),
                list0 == seq![Area::All] ==> self.redraw_parent_areas@ == list0,
                list0 != seq![Area::All] ==> self.redraw_parent_areas@ != seq![Area::All],
                list0 != seq![Area::All] ==> (forall|a: Area|
                    self.redraw_parent_areas@.contains(a) <==> (list0.contains(a)
                        || walked_marked(
                        passes0,
                        depth0,
                        pass_id as int,
                        walk_pass_id as int,
                        a,
                    ))),
            decreases depth0[walk_pass_id as int],
        {
            let ghost walk = walk_pass_id as int;
            let ghost pre = self.redraw_parent_areas@;
            let main_view = self.passes[walk_pass_id].main_view_id;
            if let Option::Some(mv) = main_view {
                let area = Area::View(ViewArea { view_id: mv, redraw_id: 0 });
                self.redraw_parent_area(area);
            }
            // after the mark, membership is: list0, the strictly-walked
            // passes, or the current walk pass itself
            proof {
                if list0 != seq![Area::All] {
                    lemma_membership_after_mark(
                        pre,
                        self.redraw_parent_areas@,
                        list0,
                        passes0,
                        depth0,
                        pass_id as int,
                        walk,
                    );
                }
            }
            let dep = self.passes[walk_pass_id].dep_of;
            match dep {
                CxPassDepOf::Pass(next_pass_id) => {
                    proof {
                        let next = next_pass_id as int;
                        assert(0 <= next < passes0.len());
                        assert(dep_chain_hits(passes0, depth0, next, next));
                        assert(dep_chain_hits(passes0, depth0, walk, next));
                        lemma_dep_chain_trans(passes0, depth0, pass_id as int, walk, next);
                        assert forall|a: Area|
                            walked_marked(passes0, depth0, pass_id as int, next, a) <==> (
                            walked_marked(passes0, depth0, pass_id as int, walk, a) || marks_view(
                                passes0[walk],
                                a,
                            )) by {
                            if walked_marked(passes0, depth0, pass_id as int, next, a) {
                                let p = choose|p: int|
                                    0 <= p < passes0.len() && #[trigger] dep_chain_hits(
                                        passes0,
                                        depth0,
                                        pass_id as int,
                                        p,
                                    ) && dep_chain_hits(passes0, depth0, p, next) && p != next
                                        && marks_view(passes0[p], a);
                                lemma_dep_chain_linear(
                                    passes0,
                                    depth0,
                                    pass_id as int,
                                    p,
                                    walk,
                                );
                                if dep_chain_hits(passes0, depth0, walk, p) {
                                    if walk != p {
                                        assert(dep_chain_hits(passes0, depth0, next, p));
                                        lemma_dep_chain_antisym(passes0, depth0, p, next);
                                        assert(false);
                                    }
                                    assert(marks_view(passes0[walk], a));
                                } else {
                                    assert(dep_chain_hits(passes0, depth0, p, walk));
                                    if p == walk {
                                        assert(marks_view(passes0[walk], a));
                                    } else {
                                        assert(walked_marked(
                                            passes0,
                                            depth0,
                                            pass_id as int,
                                            walk,
                                            a,
                                        ));
                                    }
                                }
                            }
                            if walked_marked(passes0, depth0, pass_id as int, walk, a) {
                                let p = choose|p: int|
                                    0 <= p < passes0.len() && #[trigger] dep_chain_hits(
                                        passes0,
                                        depth0,
                                        pass_id as int,
                                        p,
                                    ) && dep_chain_hits(passes0, depth0, p, walk) && p != walk
                                        && marks_view(passes0[p], a);
                                lemma_dep_chain_trans(passes0, depth0, p, walk, next);
                                if p == next {
                                    lemma_dep_chain_depth(passes0, depth0, next, walk);
                                    assert(false);
                                }
                                assert(walked_marked(passes0, depth0, pass_id as int, next, a));
                            }
                            if marks_view(passes0[walk], a) {
                                assert(dep_chain_hits(passes0, depth0, walk, next));
                                if walk == next {
                                    lemma_dep_chain_depth(passes0, depth0, walk, next);
                                    assert(false);
                                }
                                assert(walked_marked(passes0, depth0, pass_id as int, next, a));
                            }
                        }
                    }
                    walk_pass_id = next_pass_id;
                },
                _ => {
                    proof {
                        if list0 != seq![Area::All] {
                            assert forall|a: Area|
                                (walked_marked(passes0, depth0, pass_id as int, walk, a)
                                    || marks_view(passes0[walk], a)) <==> dep_marked(
                                    passes0,
                                    depth0,
                                    pass_id as int,
                                    a,
                                ) by {
                                if marks_view(passes0[walk], a) {
                                    assert(dep_chain_hits(passes0, depth0, pass_id as int, walk));
                                    assert(dep_marked(passes0, depth0, pass_id as int, a));
                                }
                                if dep_marked(passes0, depth0, pass_id as int, a) {
                                    let p = choose|p: int|
                                        0 <= p < passes0.len() && #[trigger] dep_chain_hits(
                                            passes0,
                                            depth0,
                                            pass_id as int,
                                            p,
                                        ) && marks_view(passes0[p], a);
                                    lemma_dep_chain_linear(
                                        passes0,
                                        depth0,
                                        pass_id as int,
                                        p,
                                        walk,
                                    );
                                    if dep_chain_hits(passes0, depth0, walk, p) {
                                        assert(p == walk);
                                        assert(marks_view(passes0[walk], a));
                                    } else {
                                        assert(dep_chain_hits(passes0, depth0, p, walk));
                                        if p != walk {
                                            assert(walked_marked(
                                                passes0,
                                                depth0,
                                                pass_id as int,
                                                walk,
                                                a,
                                            ));
                                        }
                                    }
                                }
                            }
                            assert forall|a: Area| self.redraw_parent_areas@.contains(a) <==> (
                            list0.contains(a) || dep_marked(passes0, depth0, pass_id as int, a)) by {
                                assert(self.redraw_parent_areas@.contains(a) <==> (list0.contains(
                                    a,
                                ) || walked_marked(passes0, depth0, pass_id as int, walk, a)
                                    || marks_view(passes0[walk], a)));
                                assert((walked_marked(passes0, depth0, pass_id as int, walk, a)
                                    || marks_view(passes0[walk], a)) <==> dep_marked(
                                    passes0,
                                    depth0,
                                    pass_id as int,
                                    a,
                                ));
                            }
                        }
                    }
                    break ;
                },
            }
        }
    }

    /// Mark `pass_id`'s main view parent-dirty, then recurse into every
    /// pass that feeds into it: when a render target is forced to redraw,
    /// everything composited into it must be recomputed first.
    #[verifier::loop_isolation(false)]
    #[verifier::rlimit(100)]
    #[verifier::spinoff_prover]
    pub fn redraw_pass_and_sub_passes(&mut self, pass_id: usize)
        requires
            old(self).wf(),
            !old(self).panic_redraw,
            pass_id < old(self).passes@.len(),
        ensures
            final(self).wf(),
            *final(self) == (Cx {
                redraw_parent_areas: final(self).redraw_parent_areas,
                ..*old(self)
            }),
            sub_walk_post(*old(self), *final(self), pass_id as int),
        decreases deeper_passes(old(self).pass_depth@, pass_id as int).len(),
    {
        let ghost cx0 = *self;
        let ghost passes0 = self.passes@;
        let ghost depth0 = self.pass_depth@;
        let ghost list0 = self.redraw_parent_areas@;
        let ghost root = pass_id as int;
        let pass_count = self.passes.len();
        proof {
            assert(passes0.len() <= usize::MAX);
            assert(root as usize == pass_id);
            assert(dep_chain_hits(passes0, depth0, root, root));
        }
        let main_view = self.passes[pass_id].main_view_id;
        if let Option::Some(mv) = main_view {
            let area = Area::View(ViewArea { view_id: mv, redraw_id: 0 });
            self.redraw_parent_area(area);
        }
        proof {
            if list0 != seq![Area::All] {
                assert forall|a: Area| self.redraw_parent_areas@.contains(a) <==> (list0.contains(
                    a,
                ) || sub_walked(passes0, depth0, root, 0, a)) by {
                    match passes0[root].main_view_id {
                        Option::Some(v) => {
                            let area = Area::View(ViewArea { view_id: v, redraw_id: 0 });
                            assert(self.redraw_parent_areas@ == mark_area(list0, area));
                            if list0.contains(area) {
                                assert(self.redraw_parent_areas@ == list0);
                            } else {
                                assert(self.redraw_parent_areas@ == list0.push(area));
                                assert(self.redraw_parent_areas@.contains(a) <==> (list0.contains(
                                    a,
                                ) || a == area));
                            }
                        },
                        Option::None => {},
                    }
                }
                assert(self.redraw_parent_areas@ != seq![Area::All]) by {
                    match passes0[root].main_view_id {
                        Option::Some(v) => {
                            let area = Area::View(ViewArea { view_id: v, redraw_id: 0 });
                            if !list0.contains(area) && self.redraw_parent_areas@ == seq![
                                Area::All,
                            ] {
                                let cur = self.redraw_parent_areas@;
                                assert(cur[cur.len() - 1] == area);
                                assert(seq![Area::All][cur.len() - 1] == Area::All);
                            }
                        },
                        Option::None => {},
                    }
                }
            }
        }
        let mut sub_pass_id: usize = 0;
        while sub_pass_id < self.passes.len()
            invariant
                self.wf(),
                !self.panic_redraw,
                sub_pass_id <= passes0.len(),
                self.passes@ == passes0,
                self.pass_depth@ == depth0,
                *self == (Cx { redraw_parent_areas: self.redraw_parent_areas, ..*old(self) }),
                list0 == seq![Area::All] ==> self.redraw_parent_areas@ == list0,
                list0 != seq![Area::All] ==> self.redraw_parent_areas@ != seq![Area::All],
                list0 != seq![Area::All] ==> (forall|a: Area|
                    self.redraw_parent_areas@.contains(a) <==> (list0.contains(a) || sub_walked(
                        passes0,
                        depth0,
                        root,
                        sub_pass_id as int,
                        a,
                    ))),
            decreases passes0.len() - sub_pass_id,
        {
            let ghost pre = self.redraw_parent_areas@;
            let dep = self.passes[sub_pass_id].dep_of;
            if let CxPassDepOf::Pass(dep_pass_id) = dep {
                if dep_pass_id == pass_id {
                    proof {
                        lemma_deeper_passes_decreases(depth0, root, sub_pass_id as int);
                    }
                    self.redraw_pass_and_sub_passes(sub_pass_id);
                }
            }
            proof {
                let sub = sub_pass_id as int;
                if list0 != seq![Area::All] {
                    lemma_sub_walked_step(
                        passes0,
                        depth0,
                        root,
                        sub,
                        list0,
                        pre,
                        self.redraw_parent_areas@,
                    );
                }
            }
            sub_pass_id += 1;
        }
        proof {
            assert(sub_walk_post(cx0, *self, root)) by {
                if list0 != seq![Area::All] {
                    lemma_sub_walked_complete(passes0, depth0, root);
                    assert forall|a: Area| self.redraw_parent_areas@.contains(a) <==> (
                    list0.contains(a) || sub_marked(passes0, depth0, root, a)) by {
                        assert(self.redraw_parent_areas@.contains(a) <==> (list0.contains(a)
                            || sub_walked(passes0, depth0, root, sub_pass_id as int, a)));
                        assert(sub_walked(passes0, depth0, root, passes0.len() as int, a)
                            <==> sub_marked(passes0, depth0, root, a));
                    }
                }
            }
        }
    }

    /// Resolve `area` to its owning pass and propagate the repaint
    /// upward: `All` repaints every live window's main pass chain, a view
    /// or instance repaints the chain of the pass owning its view, and
    /// `Empty` does nothing.
    #[verifier::loop_isolation(false)]
    #[verifier::rlimit(100)]
    #[verifier::spinoff_prover]
    pub fn redraw_pass_of(&mut self, area: Area)
        requires
            old(self).wf(),
            !old(self).panic_redraw,
            area.valid_in(old(self).views@.len()),
            match area.spec_view_id() {
                Option::Some(v) => (old(self).views@[v as int].pass_id as int) < old(
                    self,
                ).passes@.len(),
                Option::None => true,
            },
        ensures
            final(self).wf(),
            *final(self) == (Cx {
                redraw_parent_areas: final(self).redraw_parent_areas,
                ..*old(self)
            }),
            area == Area::Empty ==> *final(self) == *old(self),
            redraw_pass_of_post(*old(self), *final(self), area),
    {
        let ghost cx0 = *self;
        let ghost list0 = self.redraw_parent_areas@;
        match area {
            Area::All => {
                let mut window_id: usize = 0;
                while window_id < self.windows.len()
                    invariant
                        self.wf(),
                        !self.panic_redraw,
                        window_id <= cx0.windows@.len(),
                        *self == (Cx {
                            redraw_parent_areas: self.redraw_parent_areas,
                            ..cx0
                        }),
                        list0 == seq![Area::All] ==> self.redraw_parent_areas@ == list0,
                        list0 != seq![Area::All] ==> self.redraw_parent_areas@ != seq![Area::All],
                        list0 != seq![Area::All] ==> (forall|a: Area|
                            self.redraw_parent_areas@.contains(a) <==> (list0.contains(a)
                                || windows_walked(cx0, window_id as int, a))),
                    decreases cx0.windows@.len() - window_id,
                {
                    let ghost pre = self.redraw_parent_areas@;
                    let window = self.windows[window_id];
                    let redraw = match window.window_state {
                        CxWindowState::Create => true,
                        CxWindowState::Created => true,
                        _ => false,
                    };
                    if redraw {
                        if let Option::Some(pass_id) = window.main_pass_id {
                            self.redraw_pass_and_dep_of_passes(pass_id);
                        }
                    }
                    proof {
                        if list0 != seq![Area::All] {
                            assert forall|a: Area|
                                self.redraw_parent_areas@.contains(a) <==> (pre.contains(a)
                                    || window_mark(cx0, window_id as int, a)) by {}
                            lemma_windows_walked_step(
                                cx0,
                                window_id as int,
                                list0,
                                pre,
                                self.redraw_parent_areas@,
                            );
                        }
                    }
                    window_id += 1;
                }
                proof {
                    assert(redraw_pass_of_post(cx0, *self, area));
                }
            },
            Area::Empty => {
                proof {
                    assert(redraw_pass_of_post(cx0, *self, area));
                }
            },
            Area::Instance(instance) => {
                let pass_id = self.views[instance.view_id].pass_id;
                self.redraw_pass_and_dep_of_passes(pass_id);
                proof {
                    assert(redraw_pass_of_post(cx0, *self, area));
                }
            },
            Area::View(viewarea) => {
                let pass_id = self.views[viewarea.view_id].pass_id;
                self.redraw_pass_and_dep_of_passes(pass_id);
                proof {
                    assert(redraw_pass_of_post(cx0, *self, area));
                }
            },
        }
    }
}

} // verus!
