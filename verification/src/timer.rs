//! Scoped labels for the phases of a computation.

use vstd::prelude::*;

verus! {

/// Marks the scope in which it lives with a name, for instrumentation that
/// measures a phase from where the timer is made to where it is dropped.
/// Making and dropping a timer does nothing to the computation it marks.
pub struct Timer<'a> {
    name: &'a str,
}

impl<'a> Timer<'a> {
    /// The name of the phase that this timer marks.
    pub closed spec fn label(&self) -> Seq<char> {
        self.name@
    }

    /// A timer for the phase called `name`.
    pub fn new(name: &'a str) -> (timer: Timer<'a>)
        ensures
            timer.label() == name@,
    {
        Timer { name }
    }
}

impl<'a> Drop for Timer<'a> {
    fn drop(&mut self)
        opens_invariants none
        no_unwind
    {
    }
}

} // verus!
