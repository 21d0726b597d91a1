//! The capability interfaces that user code implements for leaf behaviors.

use vstd::prelude::*;
use crate::types::Status;

verus! {

/// The external capability interface a long-lived leaf must implement.
///
/// The engine calls `tick` whenever the leaf is reached by normal traversal
/// and `reset` whenever the restart protocol demands a fresh start. The
/// implementation owns all of its internal state; the engine promises
/// nothing about the statuses such a leaf reports.
pub trait StatefulAction<T> {
    /// Advance the leaf by one step against the shared context.
    fn tick(&mut self, data: &mut T) -> Status;

    /// Return the leaf to the state it had before its first tick.
    fn reset(&mut self);
}

/// A boolean test over the shared context, used by condition nodes and by
/// guarded loops. `holds` is the mathematical meaning of the predicate;
/// `eval` is its executable form and must agree with it.
pub trait Predicate<T> {
    /// What the predicate means on a given context value.
    spec fn holds(&self, data: &T) -> bool;

    /// Evaluate the predicate. Reads the context, never mutates it.
    fn eval(&self, data: &T) -> (r: bool)
        ensures
            r == self.holds(data),
    ;
}

} // verus!
