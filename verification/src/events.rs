//! The event vocabulary the dispatch core hands to the application
//! callback, and the small value types those events carry.
//!
//! Times are integer milliseconds; positions are integer units.

use vstd::prelude::*;
use crate::area::Area;

verus! {

/// A two-dimensional position in integer units.
#[derive(Clone, Copy, PartialEq, Eq, Structural, Debug)]
pub struct Vec2 {
    pub x: i32,
    pub y: i32,
}

impl Vec2 {
    pub fn zero() -> (r: Vec2)
        ensures
            r == (Vec2 { x: 0, y: 0 }),
    {
        Vec2 { x: 0, y: 0 }
    }
}

/// A cross-thread wake token: an opaque id allocated from a monotonically
/// increasing counter and never reused.
#[derive(Clone, Copy, PartialEq, Eq, Structural, Debug)]
pub struct Signal {
    pub signal_id: u64,
}

/// When an in-flight animation started.  `Elapsed` marks one whose start
/// already lies in the past; it is retired on the very next advance,
/// whatever its duration.
#[derive(Clone, Copy, PartialEq, Eq, Structural, Debug)]
pub enum AnimStart {
    Elapsed,
    At(i64),
}

/// A timed animation in flight, keyed by the area it animates.
#[derive(Clone, Copy, PartialEq, Eq, Structural, Debug)]
pub struct AnimArea {
    pub area: Area,
    pub start_time: AnimStart,
    pub total_time: i64,
}

/// A key press or release.
#[derive(Clone, Copy, PartialEq, Eq, Structural, Debug)]
pub struct KeyEvent {
    pub key_code: u32,
    pub is_repeat: bool,
    pub time: i64,
}

/// Synthesized when the key focus moved during a dispatch: carries the
/// focus before and after.
#[derive(Clone, Copy, PartialEq, Eq, Structural, Debug)]
pub struct KeyFocusEvent {
    pub last: Area,
    pub focus: Area,
}

/// Carried by `Animate` and `AnimateEnded`.
#[derive(Clone, Copy, PartialEq, Eq, Structural, Debug)]
pub struct AnimateEvent {
    pub time: i64,
    pub frame: u64,
}

/// Carried by `Frame`.
#[derive(Clone, Copy, PartialEq, Eq, Structural, Debug)]
pub struct FrameEvent {
    pub time: i64,
    pub frame: u64,
}

/// One drained signal delivery: the wake token and its payload id.
#[derive(Clone, Copy, PartialEq, Eq, Structural, Debug)]
pub struct SignalEvent {
    pub signal_id: u64,
    pub value: u64,
}

/// Everything the dispatch core can hand to the application callback.
#[derive(Clone, Copy, PartialEq, Eq, Structural, Debug)]
pub enum Event {
    Draw,
    Frame(FrameEvent),
    Animate(AnimateEvent),
    AnimateEnded(AnimateEvent),
    KeyDown(KeyEvent),
    KeyUp(KeyEvent),
    KeyFocus(KeyFocusEvent),
    Signal(SignalEvent),
}

} // verus!
