//! Rooted handles: values that native code keeps in a root slot while it
//! calls what may collect, so that the collector keeps their records and
//! moves their handles.

use crate::value::Value;
use vstd::prelude::*;

verus! {

/// A value in a root slot, named by the index of the slot.
#[derive(Clone, Copy, Debug, PartialEq, Eq, Structural)]
pub struct Scoped {
    pub index: usize,
}

impl Scoped {
    /// Puts `value` into a new root slot.
    pub fn scope(roots: &mut Vec<Value>, value: Value) -> (r: Self)
        ensures
            r.index == old(roots)@.len(),
            final(roots)@ == old(roots)@.push(value),
    {
        roots.push(value);
        Scoped { index: roots.len() - 1 }
    }

    /// The value in the root slot, as it is now: after a collection it
    /// names the new place of its record.
    pub fn get(&self, roots: &Vec<Value>) -> (r: Value)
        requires
            self.index < roots@.len(),
        ensures
            r == roots@[self.index as int],
    {
        roots[self.index]
    }

    /// Gives up the root slot and every slot that was taken after it:
    /// root slots are released in the reverse order of their taking.
    pub fn release(self, roots: &mut Vec<Value>)
        requires
            self.index <= old(roots)@.len(),
        ensures
            final(roots)@ == old(roots)@.take(self.index as int),
    {
        roots.truncate(self.index);
    }
}

} // verus!
