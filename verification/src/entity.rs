//! The entities the hierarchy is built from: views, passes and windows,
//! stored in index-addressed arenas with free-lists for slot reuse.

use vstd::prelude::*;

verus! {

/// A node in the render hierarchy.  `nesting_view_id` is the parent slot;
/// the root lives in slot 0 and nests under itself, which terminates every
/// upward walk.  `pass_id` is the render pass that owns the view.
#[derive(Clone, Copy, PartialEq, Eq, Structural, Debug)]
pub struct CxView {
    pub nesting_view_id: usize,
    pub pass_id: usize,
}

/// What a render pass composites into: a window's surface, another pass,
/// or nothing yet.
#[derive(Clone, Copy, PartialEq, Eq, Structural, Debug)]
pub enum CxPassDepOf {
    Window(usize),
    Pass(usize),
    Detached,
}

/// A render target drawing one view subtree.
#[derive(Clone, Copy, PartialEq, Eq, Structural, Debug)]
pub struct CxPass {
    pub main_view_id: Option<usize>,
    pub dep_of: CxPassDepOf,
}

/// Lifecycle of a platform window.
#[derive(Clone, Copy, PartialEq, Eq, Structural, Debug)]
pub enum CxWindowState {
    Create,
    Created,
    CloseRequested,
    Closed,
}

/// A platform window and the pass that paints it.
#[derive(Clone, Copy, PartialEq, Eq, Structural, Debug)]
pub struct CxWindow {
    pub window_state: CxWindowState,
    pub main_pass_id: Option<usize>,
}

/// The nesting edges form a tree rooted at slot 0.  `depth` is a witness:
/// every view other than the root nests under a view of strictly smaller
/// depth, so every upward walk terminates at the root.
pub open spec fn views_linked(views: Seq<CxView>, depth: Seq<nat>) -> bool {
    &&& depth.len() == views.len()
    &&& views.len() >= 1
    &&& views[0].nesting_view_id == 0
    &&& forall|v: int|
        1 <= v < views.len() ==> (#[trigger] views[v].nesting_view_id as int) < views.len()
            && depth[views[v].nesting_view_id as int] < depth[v]
}

/// Whether the nesting chain upward from `from` (inclusive) passes through
/// `target`.  The walk stops at the root.
pub open spec fn view_chain_hits(
    views: Seq<CxView>,
    depth: Seq<nat>,
    from: int,
    target: int,
) -> bool
    decreases depth[from]
        when views_linked(views, depth) && 0 <= from < views.len()
{
    if from == target {
        true
    } else if from == 0 {
        false
    } else {
        view_chain_hits(views, depth, views[from].nesting_view_id as int, target)
    }
}

/// The `dep_of` edges form a forest rooted at windows: no pass is its own
/// transitive dependency.  `depth` is the witness, as for views.
pub open spec fn passes_linked(passes: Seq<CxPass>, depth: Seq<nat>) -> bool {
    &&& depth.len() == passes.len()
    &&& forall|p: int|
        0 <= p < passes.len() ==> match #[trigger] passes[p].dep_of {
            CxPassDepOf::Pass(q) => (q as int) < passes.len() && depth[q as int] < depth[p],
            CxPassDepOf::Window(_) => true,
            CxPassDepOf::Detached => true,
        }
}

/// Whether the dependency chain upward from `from` (inclusive), following
/// `dep_of` while it names a pass, passes through `target`.
pub open spec fn dep_chain_hits(
    passes: Seq<CxPass>,
    depth: Seq<nat>,
    from: int,
    target: int,
) -> bool
    decreases depth[from]
        when passes_linked(passes, depth) && 0 <= from < passes.len()
{
    if from == target {
        true
    } else {
        match passes[from].dep_of {
            CxPassDepOf::Pass(q) => dep_chain_hits(passes, depth, q as int, target),
            CxPassDepOf::Window(_) => false,
            CxPassDepOf::Detached => false,
        }
    }
}

/// Every pass a dependency chain passes through lies inside the arena.
pub proof fn lemma_dep_chain_in_bounds(
    passes: Seq<CxPass>,
    depth: Seq<nat>,
    from: int,
    target: int,
)
    requires
        passes_linked(passes, depth),
        0 <= from < passes.len(),
        dep_chain_hits(passes, depth, from, target),
    ensures
        0 <= target < passes.len(),
    decreases depth[from],
{
    if from != target {
        match passes[from].dep_of {
            CxPassDepOf::Pass(q) => {
                lemma_dep_chain_in_bounds(passes, depth, q as int, target);
            },
            _ => {},
        }
    }
}

/// Walking upward never increases the witness depth.
pub proof fn lemma_dep_chain_depth(passes: Seq<CxPass>, depth: Seq<nat>, from: int, target: int)
    requires
        passes_linked(passes, depth),
        0 <= from < passes.len(),
        dep_chain_hits(passes, depth, from, target),
    ensures
        depth[target] <= depth[from],
        from != target ==> depth[target] < depth[from],
    decreases depth[from],
{
    if from != target {
        match passes[from].dep_of {
            CxPassDepOf::Pass(q) => {
                lemma_dep_chain_depth(passes, depth, q as int, target);
            },
            _ => {},
        }
    }
}

/// Dependency chains compose.
pub proof fn lemma_dep_chain_trans(
    passes: Seq<CxPass>,
    depth: Seq<nat>,
    a: int,
    b: int,
    c: int,
)
    requires
        passes_linked(passes, depth),
        0 <= a < passes.len(),
        dep_chain_hits(passes, depth, a, b),
        dep_chain_hits(passes, depth, b, c),
    ensures
        dep_chain_hits(passes, depth, a, c),
    decreases depth[a],
{
    if a != b {
        match passes[a].dep_of {
            CxPassDepOf::Pass(q) => {
                lemma_dep_chain_trans(passes, depth, q as int, b, c);
            },
            _ => {},
        }
    }
}

/// Two passes on the same upward chain are comparable: one lies on the
/// chain of the other.
pub proof fn lemma_dep_chain_linear(
    passes: Seq<CxPass>,
    depth: Seq<nat>,
    s: int,
    p: int,
    w: int,
)
    requires
        passes_linked(passes, depth),
        0 <= s < passes.len(),
        dep_chain_hits(passes, depth, s, p),
        dep_chain_hits(passes, depth, s, w),
    ensures
        dep_chain_hits(passes, depth, p, w) || dep_chain_hits(passes, depth, w, p),
    decreases depth[s],
{
    if s == p || s == w {
    } else {
        match passes[s].dep_of {
            CxPassDepOf::Pass(q) => {
                lemma_dep_chain_linear(passes, depth, q as int, p, w);
            },
            _ => {},
        }
    }
}

/// A chain in both directions means the two passes are the same.
pub proof fn lemma_dep_chain_antisym(passes: Seq<CxPass>, depth: Seq<nat>, a: int, b: int)
    requires
        passes_linked(passes, depth),
        0 <= a < passes.len(),
        dep_chain_hits(passes, depth, a, b),
        dep_chain_hits(passes, depth, b, a),
    ensures
        a == b,
{
    lemma_dep_chain_in_bounds(passes, depth, a, b);
    lemma_dep_chain_depth(passes, depth, a, b);
    lemma_dep_chain_depth(passes, depth, b, a);
}

/// A pass other than `root` whose chain passes through `root` reaches it
/// through some direct dependent of `root`.
pub proof fn lemma_dep_chain_through_child(
    passes: Seq<CxPass>,
    depth: Seq<nat>,
    root: int,
    p: int,
)
    requires
        passes_linked(passes, depth),
        0 <= p < passes.len(),
        dep_chain_hits(passes, depth, p, root),
        p != root,
    ensures
        exists|c: int|
            0 <= c < passes.len() && passes[c].dep_of == CxPassDepOf::Pass(root as usize)
                && #[trigger] dep_chain_hits(passes, depth, p, c),
    decreases depth[p],
{
    match passes[p].dep_of {
        CxPassDepOf::Pass(q) => {
            if q as int == root {
                assert(dep_chain_hits(passes, depth, p, p));
            } else {
                lemma_dep_chain_through_child(passes, depth, root, q as int);
                let c = choose|c: int|
                    0 <= c < passes.len() && passes[c].dep_of == CxPassDepOf::Pass(root as usize)
                        && #[trigger] dep_chain_hits(passes, depth, q as int, c);
                assert(dep_chain_hits(passes, depth, p, c));
            }
        },
        _ => {
            assert(false);
        },
    }
}

} // verus!
