//! Leaf doubles for exercising trees: used by this library's own tests and
//! available to user code for testing custom trees.

use vstd::prelude::*;
use crate::types::Status;
use crate::traits::{Predicate, StatefulAction};
use crate::node::Node;
use crate::model::node_wf;

verus! {

/// Leaf that records whether it was ever ticked.
pub struct YesTick {
    pub ticked: bool,
}

impl Default for YesTick {
    fn default() -> (r: Self)
        ensures
            !r.ticked,
    {
        YesTick { ticked: false }
    }
}

impl YesTick {
    /// A fresh yes-tick leaf wrapped in a node.
    pub fn action<P>() -> (r: Node<YesTick, P>)
        ensures
            node_wf(r),
            r.status == Status::Initialized,
    {
        Node::stateful_action("yes", YesTick { ticked: false })
    }
}

impl<T> StatefulAction<T> for YesTick {
    fn tick(&mut self, _data: &mut T) -> (r: Status)
        ensures
            r == Status::Success,
            final(self).ticked,
    {
        self.ticked = true;
        Status::Success
    }

    fn reset(&mut self)
        ensures
            *final(self) == *old(self),
    {
    }
}

/// Leaf that always reports Running.
pub struct AlwaysRunning;

impl AlwaysRunning {
    /// An always-running leaf wrapped in a node.
    pub fn action<P>() -> (r: Node<AlwaysRunning, P>)
        ensures
            node_wf(r),
            r.status == Status::Initialized,
    {
        Node::stateful_action("running", AlwaysRunning)
    }
}

impl<T> StatefulAction<T> for AlwaysRunning {
    fn tick(&mut self, _data: &mut T) -> (r: Status)
        ensures
            r == Status::Running,
    {
        Status::Running
    }

    fn reset(&mut self) {
    }
}

/// Leaf that always reports a fixed status, held in a public field.
pub struct ConstAction {
    pub return_status: Status,
}

impl ConstAction {
    pub fn new(status: Status) -> (r: Self)
        ensures
            r.return_status == status,
    {
        ConstAction { return_status: status }
    }
}

impl<T> StatefulAction<T> for ConstAction {
    fn tick(&mut self, _data: &mut T) -> (r: Status)
        ensures
            r == old(self).return_status,
            *final(self) == *old(self),
    {
        self.return_status
    }

    fn reset(&mut self)
        ensures
            *final(self) == *old(self),
    {
    }
}

/// Leaf that counts its ticks, reporting Success on each; `resettable` says
/// whether the restart contract clears the count.
pub struct Counter {
    pub value: u64,
    pub resettable: bool,
}

impl Counter {
    /// A fresh counter leaf wrapped in a node.
    pub fn action<P>(resettable: bool) -> (r: Node<Counter, P>)
        ensures
            node_wf(r),
            r.status == Status::Initialized,
            (r.behavior matches crate::node::Behavior::StatefulAction(_, c) && c.value == 0
                && c.resettable == resettable),
    {
        Node::stateful_action("counter", Counter { value: 0, resettable })
    }
}

impl<T> StatefulAction<T> for Counter {
    fn tick(&mut self, _data: &mut T) -> (r: Status)
        ensures
            r == Status::Success,
            final(self).resettable == old(self).resettable,
            old(self).value < u64::MAX ==> final(self).value == old(self).value + 1,
    {
        if self.value < u64::MAX {
            self.value = self.value + 1;
        }
        Status::Success
    }

    fn reset(&mut self)
        ensures
            final(self).resettable == old(self).resettable,
            final(self).value == (if old(self).resettable {
                0u64
            } else {
                old(self).value
            }),
    {
        if self.resettable {
            self.value = 0;
        }
    }
}

/// Predicate that holds on every context.
pub struct TruePredicate;

impl<T> Predicate<T> for TruePredicate {
    open spec fn holds(&self, _data: &T) -> bool {
        true
    }

    fn eval(&self, _data: &T) -> (r: bool) {
        true
    }
}

} // verus!
