//! The node types: the tagged union of node kinds, the identity wrapper
//! around it, and the tree root.

use vstd::prelude::*;
use crate::types::Status;
use crate::repr::TreeRepr;
use crate::model::{node_wf, behavior_wf, rolled};

verus! {

/// The tagged union of node kinds.
///
/// `A` is the user's leaf-action type (implements
/// [`crate::traits::StatefulAction`]); `P` is the user's predicate type
/// (implements [`crate::traits::Predicate`]). A tree mixes leaf behaviors by
/// making `A` and `P` sum types.
pub enum Behavior<A, P> {
    /// Countdown timer; `curr` shrinks on every tick and the timer reports
    /// Success when it reaches zero.
    Wait { curr: u64, max: u64 },
    /// Like `Wait`, but the duration `curr_max` is re-rolled uniformly in
    /// `[0, max)` on every reset.
    RandomWait { curr: u64, curr_max: u64, max: u64 },
    /// Re-evaluates its predicate fresh on every tick and ticks the chosen
    /// branch: first the success branch, second the failure branch.
    Cond(String, P, Box<Node<A, P>>, Box<Node<A, P>>),
    /// Runs children in order until one fails or runs; keeps a persistent
    /// cursor across ticks.
    Sequence(usize, Vec<Node<A, P>>),
    /// Runs children in order until one succeeds or runs; keeps a persistent
    /// cursor across ticks.
    Select(usize, Vec<Node<A, P>>),
    /// Stateless leaf callback; reports the callback's status verbatim and is
    /// never reset.
    Action(String, A),
    /// Stateless leaf callback invoked for its side effect only; always
    /// reports Success and is never reset.
    ActionSuccess(String, A),
    /// Long-lived leaf behavior; tick and reset are delegated to the owned
    /// object.
    StatefulAction(String, A),
    /// Guarded loop: while the predicate holds, ticks the child and reports
    /// its status verbatim; otherwise reports Failure without touching the
    /// child.
    While(P, Box<Node<A, P>>),
}

/// Identity wrapper around a behavior: an optional name, the last observed
/// status, and an optional display-collapse label. The wrapper enforces the
/// restart contract: a node that reported a terminal status is reset before
/// its next tick.
pub struct Node<A, P> {
    pub name: Option<String>,
    pub behavior: Behavior<A, P>,
    pub status: Status,
    pub collapse_as: Option<String>,
}

impl<A, P> Node<A, P> {
    fn new(behavior: Behavior<A, P>) -> (r: Node<A, P>)
        ensures
            r.name is None,
            r.behavior == behavior,
            r.status == Status::Initialized,
            r.collapse_as is None,
    {
        Node { name: None, behavior, status: Status::Initialized, collapse_as: None }
    }

    pub fn new_named(name: String, behavior: Behavior<A, P>) -> (r: Node<A, P>)
        ensures
            r.name == Some(name),
            r.behavior == behavior,
            r.status == Status::Initialized,
            r.collapse_as is None,
    {
        Node { name: Some(name), behavior, status: Status::Initialized, collapse_as: None }
    }

    /// A stateless action leaf reporting the callback's status verbatim.
    pub fn action(name: &str, func: A) -> (r: Node<A, P>)
        ensures
            r.name matches Some(n) && n@ == name@,
            r.behavior matches Behavior::Action(n, a) && n@ == name@ && a == func,
            r.status == Status::Initialized,
            r.collapse_as is None,
            node_wf(r),
    {
        Node::new_named(name.to_owned(), Behavior::Action(name.to_owned(), func))
    }

    /// A stateless action leaf that always reports Success.
    pub fn action_success(name: &str, func: A) -> (r: Node<A, P>)
        ensures
            r.name matches Some(n) && n@ == name@,
            r.behavior matches Behavior::ActionSuccess(n, a) && n@ == name@ && a == func,
            r.status == Status::Initialized,
            r.collapse_as is None,
            node_wf(r),
    {
        Node::new_named(name.to_owned(), Behavior::ActionSuccess(name.to_owned(), func))
    }

    /// A long-lived leaf delegating tick and reset to `object`.
    pub fn stateful_action(name: &str, object: A) -> (r: Node<A, P>)
        ensures
            r.name matches Some(n) && n@ == name@,
            r.behavior matches Behavior::StatefulAction(n, a) && n@ == name@ && a == object,
            r.status == Status::Initialized,
            r.collapse_as is None,
            node_wf(r),
    {
        Node::new_named(name.to_owned(), Behavior::StatefulAction(name.to_owned(), object))
    }

    /// An anonymous sequence. An empty child list is a construction-time
    /// contract violation and is rejected here.
    pub fn sequence(nodes: Vec<Node<A, P>>) -> (r: Node<A, P>)
        requires
            nodes@.len() >= 1,
            forall|i: int| 0 <= i < nodes@.len() ==> node_wf(#[trigger] nodes@[i]),
        ensures
            r.name is None,
            r.behavior matches Behavior::Sequence(c, xs) && c == 0 && xs == nodes,
            r.status == Status::Initialized,
            r.collapse_as is None,
            node_wf(r),
    {
        Node::new(Behavior::Sequence(0, nodes))
    }

    /// A named sequence; same construction contract as [`Node::sequence`].
    pub fn named_sequence(name: &str, nodes: Vec<Node<A, P>>) -> (r: Node<A, P>)
        requires
            nodes@.len() >= 1,
            forall|i: int| 0 <= i < nodes@.len() ==> node_wf(#[trigger] nodes@[i]),
        ensures
            r.name matches Some(n) && n@ == name@,
            r.behavior matches Behavior::Sequence(c, xs) && c == 0 && xs == nodes,
            r.status == Status::Initialized,
            r.collapse_as is None,
            node_wf(r),
    {
        Node::new_named(name.to_owned(), Behavior::Sequence(0, nodes))
    }

    /// An anonymous selector. An empty child list is a construction-time
    /// contract violation and is rejected here.
    pub fn select(nodes: Vec<Node<A, P>>) -> (r: Node<A, P>)
        requires
            nodes@.len() >= 1,
            forall|i: int| 0 <= i < nodes@.len() ==> node_wf(#[trigger] nodes@[i]),
        ensures
            r.name is None,
            r.behavior matches Behavior::Select(c, xs) && c == 0 && xs == nodes,
            r.status == Status::Initialized,
            r.collapse_as is None,
            node_wf(r),
    {
        Node::new(Behavior::Select(0, nodes))
    }

    /// A named selector; same construction contract as [`Node::select`].
    pub fn named_select(name: &str, nodes: Vec<Node<A, P>>) -> (r: Node<A, P>)
        requires
            nodes@.len() >= 1,
            forall|i: int| 0 <= i < nodes@.len() ==> node_wf(#[trigger] nodes@[i]),
        ensures
            r.name matches Some(n) && n@ == name@,
            r.behavior matches Behavior::Select(c, xs) && c == 0 && xs == nodes,
            r.status == Status::Initialized,
            r.collapse_as is None,
            node_wf(r),
    {
        Node::new_named(name.to_owned(), Behavior::Select(0, nodes))
    }

    /// A condition node: `success` is ticked while `cond` holds, `failure`
    /// otherwise.
    pub fn cond(name: &str, cond: P, success: Node<A, P>, failure: Node<A, P>) -> (r: Node<A, P>)
        requires
            node_wf(success),
            node_wf(failure),
        ensures
            r.name matches Some(n) && n@ == name@,
            (r.behavior matches Behavior::Cond(n, p, s, f) && n@ == name@ && p == cond && *s
                == success && *f == failure),
            r.status == Status::Initialized,
            r.collapse_as is None,
            node_wf(r),
    {
        Node::new_named(
            name.to_owned(),
            Behavior::Cond(name.to_owned(), cond, Box::new(success), Box::new(failure)),
        )
    }

    /// A countdown timer that waits `time` units before reporting Success.
    pub fn wait(time: u64) -> (r: Node<A, P>)
        ensures
            r.name is None,
            r.behavior == (Behavior::<A, P>::Wait { curr: time, max: time }),
            r.status == Status::Initialized,
            r.collapse_as is None,
            node_wf(r),
    {
        Node::new(Behavior::Wait { curr: time, max: time })
    }

    /// A countdown timer whose duration is re-rolled in `[0, time)` on every
    /// reset, starting with a fresh roll.
    pub fn random_wait(time: u64) -> (r: Node<A, P>)
        ensures
            r.name is None,
            (r.behavior matches Behavior::RandomWait { curr, curr_max, max } && max == time && curr
                == curr_max && rolled(curr_max, time)),
            r.status == Status::Initialized,
            r.collapse_as is None,
            node_wf(r),
    {
        let curr_max: u64 = crate::rng::roll_duration(time);
        Node::new(Behavior::RandomWait { curr: curr_max, curr_max, max: time })
    }

    /// A guarded loop around `child`. The name is mandatory: tracing output
    /// identifies a guarded loop by it.
    pub fn named_while_single(name: &str, cond: P, child: Node<A, P>) -> (r: Node<A, P>)
        requires
            node_wf(child),
        ensures
            r.name matches Some(n) && n@ == name@,
            r.behavior matches Behavior::While(p, c) && p == cond && *c == child,
            r.status == Status::Initialized,
            r.collapse_as is None,
            node_wf(r),
    {
        Node::new_named(name.to_owned(), Behavior::While(cond, Box::new(child)))
    }

    /// Same as [`Node::named_while_single`] for a child that is already
    /// boxed.
    pub fn named_while_single_child(name: &str, cond: P, child: Box<Node<A, P>>) -> (r: Node<A, P>)
        requires
            node_wf(*child),
        ensures
            r.name matches Some(n) && n@ == name@,
            r.behavior matches Behavior::While(p, c) && p == cond && c == child,
            r.status == Status::Initialized,
            r.collapse_as is None,
            node_wf(r),
    {
        Node::new_named(name.to_owned(), Behavior::While(cond, child))
    }

    /// Mark the node to be displayed collapsed under `desc`.
    pub fn collapse(self, desc: &str) -> (r: Node<A, P>)
        ensures
            r.name == self.name,
            r.behavior == self.behavior,
            r.status == self.status,
            r.collapse_as matches Some(d) && d@ == desc@,
    {
        Node { collapse_as: Some(desc.to_owned()), ..self }
    }
}

/// Tree root: owns the root node and a shape snapshot taken at construction
/// time for tooling.
pub struct BehaviorTree<A, P> {
    pub tree: Node<A, P>,
    pub debug: TreeRepr,
}

} // verus!
