//! The button widget's state vocabulary, shared with the widget-level
//! collaborators that draw and animate buttons.

use vstd::prelude::*;

verus! {

/// The visual state a button animates toward.
#[derive(Clone, Copy, PartialEq, Eq, Structural, Debug)]
pub enum ButtonState {
    Default,
    Over,
    Down,
}

/// What a button reports after handling one event.
#[derive(Clone, Copy, PartialEq, Eq, Structural, Debug)]
pub enum ButtonEvent {
    Idle,
    Clicked,
}

} // verus!
