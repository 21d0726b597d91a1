//! The four-valued outcome type reported by every node on every tick.

use vstd::prelude::*;

verus! {

/// Outcome of ticking a node.
///
/// `Initialized` is the pre-first-tick state, distinct from the terminal
/// states; `Running` is non-terminal. Only `Success` and `Failure` are
/// terminal and trigger an automatic reset before the next tick.
#[derive(Clone, Copy, Debug, PartialEq, Eq, Structural)]
pub enum Status {
    Initialized,
    Success,
    Failure,
    Running,
}

/// Terminal statuses are the ones that make a node restart on its next tick.
pub open spec fn is_terminal(s: Status) -> bool {
    s == Status::Success || s == Status::Failure
}

impl Default for Status {
    /// A freshly built node has not been ticked yet.
    fn default() -> (r: Self)
        ensures
            r == Status::Initialized,
    {
        Status::Initialized
    }
}

} // verus!
