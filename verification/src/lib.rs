//! Invalidation-and-dispatch core of a retained/immediate hybrid rendering
//! engine.
//!
//! The crate tracks a hierarchy of render targets (windows, passes, views),
//! decides which parts of that hierarchy must be re-recorded on a given draw
//! cycle, and drives the single event-handler callback that application code
//! supplies.  Times are carried as integer milliseconds and positions as
//! integer units; the platform layer that produces them owns any conversion.

pub mod anim;
pub mod area;
pub mod button;
pub mod cx;
pub mod dispatch;
pub mod entity;
pub mod events;
pub mod input;
pub mod passes;
pub mod rebind;
pub mod redraw;
pub mod signal;
pub mod style;
pub mod text;

pub use area::Area;
pub use area::InstanceArea;
pub use area::ViewArea;
