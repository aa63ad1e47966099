//! Typed views of a loop's scratch state.
//!
//! A bounded repeat keeps a counter and its body length; an end marker
//! keeps the body length alone. These records give that state a typed form
//! with accessors that yield it only for the matching kind.

use vstd::prelude::*;

verus! {

/// A bounded repeat header's state: how often the body has run, and how
/// long it is.
#[derive(Clone, Copy, Debug, PartialEq, Eq, Structural)]
pub struct RepeatState {
    pub count: u32,
    pub length: usize,
}

/// An end marker's state: the body length it jumps back over.
#[derive(Clone, Copy, Debug, PartialEq, Eq, Structural)]
pub struct RepeatEndState {
    pub length: usize,
}

/// The scratch state a control instruction may hold.
#[derive(Clone, Copy, Debug, PartialEq, Eq, Structural)]
pub enum BlockState {
    RepeatBasic(RepeatState),
    RepeatBasicEnd(RepeatEndState),
    Inactive,
}

impl BlockState {
    /// The repeat header's state, when this is one.
    pub fn repeat_basic(&self) -> (r: Option<RepeatState>)
        ensures
            match r {
                Some(s) => *self == BlockState::RepeatBasic(s),
                None => !(*self is RepeatBasic),
            },
    {
        match self {
            BlockState::RepeatBasic(s) => Some(*s),
            _ => None,
        }
    }

    /// The end marker's state, when this is one.
    pub fn repeat_basic_end(&self) -> (r: Option<RepeatEndState>)
        ensures
            match r {
                Some(s) => *self == BlockState::RepeatBasicEnd(s),
                None => !(*self is RepeatBasicEnd),
            },
    {
        match self {
            BlockState::RepeatBasicEnd(s) => Some(*s),
            _ => None,
        }
    }
}

} // verus!
