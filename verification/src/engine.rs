//! The protocol stack instance that runs on top of one runtime.

use crate::runtime::Runtime;
use vstd::prelude::*;

verus! {

/// A protocol stack bound to one runtime. The address-resolution and
/// transport layers that a stack is made of live outside this crate; what
/// is here is the stack's hold on its runtime.
pub struct Engine<RT: Runtime> {
    pub rt: RT,
}

impl<RT: Runtime> Engine<RT> {
    /// A stack on top of `rt`.
    pub fn new(rt: RT) -> (engine: Engine<RT>)
        ensures
            engine.rt == rt,
    {
        Engine { rt }
    }

    /// The runtime this stack runs on.
    pub fn rt(&self) -> (rt: &RT)
        ensures
            *rt == self.rt,
    {
        &self.rt
    }
}

} // verus!
