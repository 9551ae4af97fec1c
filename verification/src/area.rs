//! Area addressing: the universal handle into the render hierarchy.
//!
//! An `Area` names nothing, everything, a whole view, or one drawable
//! sub-range inside a view's draw list.  Areas are plain values; they are
//! resolved against the entity arena by index on every use.

use vstd::prelude::*;

verus! {

/// A whole view's render list.
#[derive(Clone, Copy, PartialEq, Eq, Structural, Debug)]
pub struct ViewArea {
    pub view_id: usize,
    pub redraw_id: u64,
}

/// One drawable sub-range inside a view's render list.
#[derive(Clone, Copy, PartialEq, Eq, Structural, Debug)]
pub struct InstanceArea {
    pub view_id: usize,
    pub draw_call_id: usize,
    pub instance_offset: usize,
    pub instance_count: usize,
    pub redraw_id: u64,
}

/// Tagged reference identifying nothing, everything, or a specific
/// location in the hierarchy.  Equality is structural.
#[derive(Clone, Copy, PartialEq, Eq, Structural, Debug)]
pub enum Area {
    Empty,
    All,
    Instance(InstanceArea),
    View(ViewArea),
}

impl Area {
    /// The view slot this area points into, if it points into one.
    pub open spec fn spec_view_id(self) -> Option<usize> {
        match self {
            Area::Empty => Option::None,
            Area::All => Option::None,
            Area::Instance(ia) => Option::Some(ia.view_id),
            Area::View(va) => Option::Some(va.view_id),
        }
    }

    /// Whether every view index the area carries lies below `view_count`,
    /// so that walking the nesting chain from it stays inside the arena.
    pub open spec fn valid_in(self, view_count: nat) -> bool {
        match self.spec_view_id() {
            Option::Some(v) => (v as nat) < view_count,
            Option::None => true,
        }
    }
}

} // verus!
