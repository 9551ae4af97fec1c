//! The text-layout vocabulary shared with the drawing collaborators.

use vstd::prelude::*;

verus! {

/// How a text run breaks across the available width: per character, per
/// word, per line, or not at all.
#[derive(Clone, Copy, PartialEq, Eq, Structural, Debug)]
pub enum Wrapping {
    Char,
    Word,
    Line,
    Whole,
}

} // verus!
