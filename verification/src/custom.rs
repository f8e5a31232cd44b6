//! The types by which the interpreter is told what this platform adds to it: nothing.
//! Entities and processes carry no state of their own.

use vstd::prelude::*;

verus! {

/// The state that the platform keeps for an entity: none.
#[derive(Debug, Clone, Copy, PartialEq, Eq, Structural)]
pub struct EntityState;

/// The state that the platform keeps for a process: none.
#[derive(Debug, Clone, Copy, PartialEq, Eq, Structural)]
pub struct ProcessState;

impl ProcessState {
    /// The point to which the state can be unwound. With no state there is just one.
    pub fn get_unwind_point(&self) -> (point: ()) {
    }

    /// Unwinds to `point`, which changes nothing.
    pub fn unwind_to(&mut self, point: &())
        ensures
            *final(self) == *old(self),
    {
    }
}

/// The bundle of the types above, under the one name by which the interpreter asks.
#[derive(Debug, Clone, Copy, PartialEq, Eq, Structural)]
pub struct C;

} // verus!
