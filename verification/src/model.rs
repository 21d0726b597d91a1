//! The mathematical model of the tick/reset protocol.
//!
//! Every executable function of the engine is specified against the
//! relations in this module. Ticking is relational rather than functional
//! because leaf callbacks are arbitrary user code and the random-wait timer
//! re-rolls its duration: the relations pin down everything the engine
//! itself decides and leave open exactly what the outside world decides.
//!
//! The model has two layers. [`node_tick2_rel`] is context-free: where a
//! decision depends on the shared context (a condition's branch, a guard),
//! it allows either outcome. [`node_tick_exact`] adds, at the node a tick
//! call enters through, exactly how the entry context decides: which branch
//! a condition takes, when a guarded loop refuses to run its child, and
//! which guarded child interrupts a composite. Below that node the context
//! has already been mutated by earlier callbacks, so deeper nodes are
//! related by the context-free layer.

use vstd::prelude::*;
use crate::types::{Status, is_terminal};
use crate::traits::Predicate;
use crate::node::{Behavior, Node};

verus! {

/// The status that lets a composite advance past a child: Success for a
/// sequence, Failure for a selector.
pub open spec fn positive_status(is_sequence: bool) -> Status {
    if is_sequence {
        Status::Success
    } else {
        Status::Failure
    }
}

/// The status that stops a composite and becomes its own result: Failure for
/// a sequence, Success for a selector.
pub open spec fn negative_status(is_sequence: bool) -> Status {
    if is_sequence {
        Status::Failure
    } else {
        Status::Success
    }
}

/// Countdown arithmetic: overshoot past zero is discarded, never banked.
pub open spec fn sat_sub(curr: u64, delta: u64) -> u64 {
    if curr <= delta {
        0u64
    } else {
        (curr - delta) as u64
    }
}

/// What a freshly rolled random-wait duration looks like: uniform in
/// `[0, max)`, or zero when the range is empty.
pub open spec fn rolled(curr_max: u64, max: u64) -> bool {
    &&& max > 0 ==> curr_max < max
    &&& max == 0 ==> curr_max == 0
}

/// Number of nodes in a subtree; the termination measure of every walk.
pub open spec fn node_size<A, P>(n: Node<A, P>) -> nat
    decreases n,
{
    1 + behavior_size(n.behavior)
}

pub open spec fn behavior_size<A, P>(b: Behavior<A, P>) -> nat
    decreases b,
{
    match b {
        Behavior::Cond(_, _, s, f) => 1 + node_size(*s) + node_size(*f),
        Behavior::Sequence(_, xs) => 1 + seq_size(xs@),
        Behavior::Select(_, xs) => 1 + seq_size(xs@),
        Behavior::While(_, c) => 1 + node_size(*c),
        _ => 0,
    }
}

pub open spec fn seq_size<A, P>(s: Seq<Node<A, P>>) -> nat
    decreases s,
{
    if s.len() == 0 {
        0
    } else {
        node_size(s[0]) + seq_size(s.subrange(1, s.len() as int))
    }
}

/// Well-formedness: composites are non-empty with their cursor in range,
/// timers never exceed their bound, and a guarded loop carries a name.
pub open spec fn node_wf<A, P>(n: Node<A, P>) -> bool
    decreases n,
{
    &&& behavior_wf(n.behavior)
    &&& (n.behavior is While ==> n.name is Some)
}

pub open spec fn behavior_wf<A, P>(b: Behavior<A, P>) -> bool
    decreases b,
{
    match b {
        Behavior::Wait { curr, max } => curr <= max,
        Behavior::RandomWait { curr, curr_max, max } => curr <= curr_max && rolled(curr_max, max),
        Behavior::Cond(_, _, s, f) => node_wf(*s) && node_wf(*f),
        Behavior::Sequence(c, xs) => {
            &&& xs@.len() >= 1
            &&& c <= xs@.len()
            &&& forall|i: int| 0 <= i < xs@.len() ==> node_wf(#[trigger] xs@[i])
        },
        Behavior::Select(c, xs) => {
            &&& xs@.len() >= 1
            &&& c <= xs@.len()
            &&& forall|i: int| 0 <= i < xs@.len() ==> node_wf(#[trigger] xs@[i])
        },
        Behavior::While(_, c) => node_wf(*c),
        _ => true,
    }
}

/// Two nodes have the same static shape: same variants, names, bounds and
/// predicates everywhere; statuses, cursors, timers and leaf objects may
/// differ.
pub open spec fn same_shape<A, P>(a: Node<A, P>, b: Node<A, P>) -> bool
    decreases b,
{
    &&& b.name == a.name
    &&& b.collapse_as == a.collapse_as
    &&& same_behavior_shape(a.behavior, b.behavior)
}

pub open spec fn same_behavior_shape<A, P>(a: Behavior<A, P>, b: Behavior<A, P>) -> bool
    decreases b,
{
    match (a, b) {
        (Behavior::Wait { curr: _, max: m1 }, Behavior::Wait { curr: _, max: m2 }) => m2 == m1,
        (
            Behavior::RandomWait { curr: _, curr_max: _, max: m1 },
            Behavior::RandomWait { curr: _, curr_max: _, max: m2 },
        ) => m2 == m1,
        (Behavior::Cond(n1, p1, s1, f1), Behavior::Cond(n2, p2, s2, f2)) => {
            &&& n2 == n1
            &&& p2 == p1
            &&& same_shape(*s1, *s2)
            &&& same_shape(*f1, *f2)
        },
        (Behavior::Sequence(_, x1), Behavior::Sequence(_, x2)) => {
            &&& x2@.len() == x1@.len()
            &&& forall|i: int| 0 <= i < x1@.len() ==> same_shape(x1@[i], #[trigger] x2@[i])
        },
        (Behavior::Select(_, x1), Behavior::Select(_, x2)) => {
            &&& x2@.len() == x1@.len()
            &&& forall|i: int| 0 <= i < x1@.len() ==> same_shape(x1@[i], #[trigger] x2@[i])
        },
        (Behavior::Action(n1, _), Behavior::Action(n2, _)) => n2 == n1,
        (Behavior::ActionSuccess(n1, _), Behavior::ActionSuccess(n2, _)) => n2 == n1,
        (Behavior::StatefulAction(n1, _), Behavior::StatefulAction(n2, _)) => n2 == n1,
        (Behavior::While(p1, c1), Behavior::While(p2, c2)) => p2 == p1 && same_shape(*c1, *c2),
        _ => false,
    }
}

/// What a node looks like right after a reset: pre-first-tick status, timers
/// rewound, cursors zeroed. Condition branches are not touched by a reset,
/// so nothing is said of them.
pub open spec fn is_fresh<A, P>(n: Node<A, P>) -> bool
    decreases n,
{
    &&& n.status == Status::Initialized
    &&& behavior_fresh(n.behavior)
}

pub open spec fn behavior_fresh<A, P>(b: Behavior<A, P>) -> bool
    decreases b,
{
    match b {
        Behavior::Wait { curr, max } => curr == max,
        Behavior::RandomWait { curr, curr_max, max } => curr == curr_max && rolled(curr_max, max),
        Behavior::Sequence(c, xs) => {
            &&& c == 0
            &&& forall|i: int| 0 <= i < xs@.len() ==> is_fresh(#[trigger] xs@[i])
        },
        Behavior::Select(c, xs) => {
            &&& c == 0
            &&& forall|i: int| 0 <= i < xs@.len() ==> is_fresh(#[trigger] xs@[i])
        },
        Behavior::While(_, c) => is_fresh(*c),
        _ => true,
    }
}

/// How a reset transforms a node: the status becomes Initialized, a wait
/// timer rewinds to its bound, a random wait re-rolls its duration,
/// composites zero their cursor and reset every child, a guarded loop
/// resets its child, a stateful leaf delegates to user code (so only its
/// name is pinned), and everything else is untouched.
pub open spec fn reset_rel<A, P>(pre: Node<A, P>, post: Node<A, P>) -> bool
    decreases post,
{
    &&& post.name == pre.name
    &&& post.collapse_as == pre.collapse_as
    &&& post.status == Status::Initialized
    &&& behavior_reset_rel(pre.behavior, post.behavior)
}

pub open spec fn behavior_reset_rel<A, P>(pre: Behavior<A, P>, post: Behavior<A, P>) -> bool
    decreases post,
{
    match (pre, post) {
        (Behavior::Wait { curr: _, max: m1 }, Behavior::Wait { curr: c2, max: m2 }) => {
            m2 == m1 && c2 == m1
        },
        (
            Behavior::RandomWait { curr: _, curr_max: _, max: m1 },
            Behavior::RandomWait { curr: c2, curr_max: cm2, max: m2 },
        ) => {
            &&& m2 == m1
            &&& c2 == cm2
            &&& rolled(cm2, m1)
        },
        (Behavior::Cond(n1, p1, s1, f1), Behavior::Cond(n2, p2, s2, f2)) => {
            n2 == n1 && p2 == p1 && s2 == s1 && f2 == f1
        },
        (Behavior::Sequence(_, x1), Behavior::Sequence(c2, x2)) => {
            &&& c2 == 0
            &&& x2@.len() == x1@.len()
            &&& forall|i: int| 0 <= i < x1@.len() ==> reset_rel(x1@[i], #[trigger] x2@[i])
        },
        (Behavior::Select(_, x1), Behavior::Select(c2, x2)) => {
            &&& c2 == 0
            &&& x2@.len() == x1@.len()
            &&& forall|i: int| 0 <= i < x1@.len() ==> reset_rel(x1@[i], #[trigger] x2@[i])
        },
        (Behavior::Action(n1, a1), Behavior::Action(n2, a2)) => n2 == n1 && a2 == a1,
        (Behavior::ActionSuccess(n1, a1), Behavior::ActionSuccess(n2, a2)) => n2 == n1 && a2 == a1,
        (Behavior::StatefulAction(n1, _), Behavior::StatefulAction(n2, _)) => n2 == n1,
        (Behavior::While(p1, c1), Behavior::While(p2, c2)) => p2 == p1 && reset_rel(*c1, *c2),
        _ => false,
    }
}

/// Whether a child demands an interrupt of its composite: it is a guarded
/// loop whose guard, evaluated against the current context, disagrees with
/// the composite's polarity.
pub open spec fn interrupts<T, A, P: Predicate<T>>(
    n: Node<A, P>,
    x: T,
    is_sequence: bool,
) -> bool {
    match n.behavior {
        Behavior::While(p, _) => p.holds(&x) != is_sequence,
        _ => false,
    }
}

/// Index of the first child in `[from, upto)` that demands an interrupt;
/// `upto` when none does.
pub open spec fn first_interrupt_from<T, A, P: Predicate<T>>(
    is_sequence: bool,
    xs: Seq<Node<A, P>>,
    from: int,
    upto: int,
    x0: T,
) -> int
    decreases upto - from,
{
    if from < 0 || from >= upto || upto > xs.len() {
        upto
    } else if interrupts(xs[from], x0, is_sequence) {
        from
    } else {
        first_interrupt_from(is_sequence, xs, from + 1, upto, x0)
    }
}

/// Index of the first already passed child whose guard reclaims control;
/// `upto` (one past the scanned range) when none does.
pub open spec fn first_interrupt<T, A, P: Predicate<T>>(
    is_sequence: bool,
    xs: Seq<Node<A, P>>,
    upto: int,
    x0: T,
) -> int {
    first_interrupt_from(is_sequence, xs, 0, upto, x0)
}

/// The context-free evolutions a composite's child can undergo in one tick
/// of its parent: untouched, reset by an interrupt, ticked, or reset and
/// then ticked.
pub open spec fn child_evolves<A, P>(a: Node<A, P>, b: Node<A, P>, delta: u64) -> bool
    decreases b, 2int,
{
    ||| b == a
    ||| reset_rel(a, b)
    ||| node_tick2_rel(false, a, b, delta, b.status)
    ||| node_tick2_rel(true, a, b, delta, b.status)
}

/// Context-free model of one tick of a behavior. `reset_first` says whether
/// the restart contract rewound the behavior before it ticked.
///
/// Timer arithmetic is exact. Conditions and guarded loops may go either
/// way (the context that decides is not modeled at this layer; see
/// [`behavior_tick_exact`]). Composites promise their bookkeeping: the
/// cursor stays in range, the composite reports its positive status exactly
/// when the cursor completed the round, a stopping child's stored status
/// matches the reported one, and every child either is untouched, was
/// reset, or was ticked.
pub open spec fn behavior_tick2_rel<A, P>(
    reset_first: bool,
    pre: Behavior<A, P>,
    post: Behavior<A, P>,
    delta: u64,
    r: Status,
) -> bool
    decreases post, 0int,
{
    match (pre, post) {
        (Behavior::Wait { curr, max }, Behavior::Wait { curr: c2, max: m2 }) => {
            &&& m2 == max
            &&& c2 == sat_sub(if reset_first { max } else { curr }, delta)
            &&& r == (if c2 == 0 {
                Status::Success
            } else {
                Status::Running
            })
        },
        (
            Behavior::RandomWait { curr, curr_max, max },
            Behavior::RandomWait { curr: c2, curr_max: cm2, max: m2 },
        ) => {
            &&& m2 == max
            &&& if reset_first {
                rolled(cm2, max) && c2 == sat_sub(cm2, delta)
            } else {
                cm2 == curr_max && c2 == sat_sub(curr, delta)
            }
            &&& r == (if c2 == 0 {
                Status::Success
            } else {
                Status::Running
            })
        },
        (Behavior::Cond(n1, p1, s1, f1), Behavior::Cond(n2, p2, s2, f2)) => {
            &&& n2 == n1
            &&& p2 == p1
            &&& {
                ||| (node_tick2_rel(false, *s1, *s2, delta, r) && f2 == f1)
                ||| (node_tick2_rel(false, *f1, *f2, delta, r) && s2 == s1)
            }
        },
        (Behavior::Sequence(_, x1), Behavior::Sequence(c2, x2)) => {
            composite_loose(true, x1@, c2 as int, x2@, delta, r)
        },
        (Behavior::Select(_, x1), Behavior::Select(c2, x2)) => {
            composite_loose(false, x1@, c2 as int, x2@, delta, r)
        },
        (Behavior::Action(n1, _), Behavior::Action(n2, _)) => n2 == n1,
        (Behavior::ActionSuccess(n1, _), Behavior::ActionSuccess(n2, _)) => {
            n2 == n1 && r == Status::Success
        },
        (Behavior::StatefulAction(n1, _), Behavior::StatefulAction(n2, _)) => n2 == n1,
        (Behavior::While(p1, c1), Behavior::While(p2, c2)) => {
            &&& p2 == p1
            &&& {
                ||| (r == Status::Failure && (if reset_first {
                    reset_rel(*c1, *c2)
                } else {
                    c2 == c1
                }))
                ||| node_tick2_rel(reset_first, *c1, *c2, delta, r)
            }
        },
        _ => false,
    }
}

/// The context-free composite contract shared by sequences and selectors.
pub open spec fn composite_loose<A, P>(
    is_sequence: bool,
    xs: Seq<Node<A, P>>,
    c_post: int,
    ys: Seq<Node<A, P>>,
    delta: u64,
    r: Status,
) -> bool
    decreases ys, 3int,
{
    &&& ys.len() == xs.len()
    &&& 0 <= c_post <= ys.len()
    &&& forall|j: int| 0 <= j < ys.len() ==> child_evolves(xs[j], #[trigger] ys[j], delta)
    &&& (c_post == ys.len() <==> r == positive_status(is_sequence))
    &&& (c_post < ys.len() ==> {
        ||| (r == negative_status(is_sequence) && ys[c_post].status == negative_status(
            is_sequence,
        ))
        ||| (r == Status::Running && ys[c_post].status != positive_status(is_sequence)
            && ys[c_post].status != negative_status(is_sequence))
    })
}

/// Context-free model of one tick of a node: the restart contract fires if
/// the node finished last tick (or if `force_reset` says an enclosing
/// composite already rewound it), then the behavior ticks, and the reported
/// status is stored on the node.
pub open spec fn node_tick2_rel<A, P>(
    force_reset: bool,
    pre: Node<A, P>,
    post: Node<A, P>,
    delta: u64,
    r: Status,
) -> bool
    decreases post, 1int,
{
    &&& post.name == pre.name
    &&& post.collapse_as == pre.collapse_as
    &&& post.status == r
    &&& behavior_tick2_rel(
        force_reset || is_terminal(pre.status),
        pre.behavior,
        post.behavior,
        delta,
        r,
    )
}

/// Context-free model of one tick of a node reached by normal traversal.
pub open spec fn node_tick_rel<A, P>(
    pre: Node<A, P>,
    post: Node<A, P>,
    delta: u64,
    r: Status,
) -> bool {
    node_tick2_rel(false, pre, post, delta, r)
}

/// The advancement loop of a composite tick, from child list `s` and cursor
/// `c` to the final child list `ys`, final cursor `c_post` and composite
/// result `r`. Children are ticked strictly left to right from the cursor;
/// a positive child advances the cursor, any other outcome stops the loop.
/// Children at an index at or past `fresh_from` were rewound by the
/// interrupt recheck before the loop began: a ticked one ticks from its
/// reset state, an unreached one is left in its reset state.
pub open spec fn run_exact<A, P>(
    is_sequence: bool,
    s: Seq<Node<A, P>>,
    c: int,
    ys: Seq<Node<A, P>>,
    c_post: int,
    delta: u64,
    fresh_from: int,
    r: Status,
) -> bool
    decreases ys.len() - c,
{
    if !(0 <= c <= s.len() && ys.len() == s.len()) {
        false
    } else if c == s.len() {
        &&& ys == s
        &&& c_post == c
        &&& r == positive_status(is_sequence)
    } else {
        &&& node_tick2_rel(c >= fresh_from, s[c], ys[c], delta, ys[c].status)
        &&& if ys[c].status == positive_status(is_sequence) {
            run_exact(is_sequence, s.update(c, ys[c]), c + 1, ys, c_post, delta, fresh_from, r)
        } else {
            &&& c_post == c
            &&& (forall|j: int| 0 <= j < c ==> ys[j] == s[j])
            &&& (forall|j: int|
                c < j < s.len() ==> (if j >= fresh_from {
                    reset_rel(s[j], #[trigger] ys[j])
                } else {
                    ys[j] == s[j]
                }))
            &&& r == (if ys[c].status == negative_status(is_sequence) {
                negative_status(is_sequence)
            } else {
                Status::Running
            })
        }
    }
}

/// Where the advancement loop starts: at the first interrupting guard if
/// one fired, else at zero when the composite was rewound or had completed
/// its round, else at the stored cursor.
pub open spec fn composite_cursor_start<T, A, P: Predicate<T>>(
    is_sequence: bool,
    start_fresh: bool,
    c0: int,
    xs: Seq<Node<A, P>>,
    x0: T,
) -> int {
    let cur0 = if start_fresh {
        0
    } else {
        c0
    };
    let hit = first_interrupt(is_sequence, xs, cur0, x0);
    if hit < cur0 {
        hit
    } else if cur0 == xs.len() {
        0
    } else {
        cur0
    }
}

/// The first index whose child enters the advancement loop freshly rewound:
/// everything when the composite itself was rewound, the children after an
/// interrupting guard, or nothing at all.
pub open spec fn composite_fresh_from<T, A, P: Predicate<T>>(
    is_sequence: bool,
    start_fresh: bool,
    c0: int,
    xs: Seq<Node<A, P>>,
    x0: T,
) -> int {
    let cur0 = if start_fresh {
        0
    } else {
        c0
    };
    let hit = first_interrupt(is_sequence, xs, cur0, x0);
    if start_fresh {
        0
    } else if hit < cur0 {
        hit + 1
    } else {
        xs.len() as int + 1
    }
}

/// One whole composite tick against the context `x0` it was entered with:
/// the interrupt recheck (whose outcome `x0` decides), the wrap of a
/// completed cursor back to zero, then the advancement loop. `start_fresh`
/// says whether the restart contract rewound the whole composite first.
/// The first child the loop ticks still sees `x0` — no callback has run
/// before it — so its own context-decided branching is pinned here too.
pub open spec fn composite_exact<T, A, P: Predicate<T>>(
    is_sequence: bool,
    start_fresh: bool,
    c0: int,
    xs: Seq<Node<A, P>>,
    c_post: int,
    ys: Seq<Node<A, P>>,
    delta: u64,
    x0: T,
    r: Status,
) -> bool
    decreases ys, 1int,
{
    if !(0 <= c0 <= xs.len() && ys.len() == xs.len()) {
        false
    } else {
        let fresh_from = composite_fresh_from(is_sequence, start_fresh, c0, xs, x0);
        let cstart = composite_cursor_start(is_sequence, start_fresh, c0, xs, x0);
        &&& (forall|j: int| 0 <= j < cstart ==> ys[j] == xs[j])
        &&& run_exact(is_sequence, xs, cstart, ys, c_post, delta, fresh_from, r)
        &&& (if 0 <= cstart < ys.len() {
            behavior_tick_exact(
                cstart >= fresh_from || is_terminal(xs[cstart].status),
                xs[cstart].behavior,
                ys[cstart].behavior,
                delta,
                x0,
                ys[cstart].status,
            )
        } else {
            true
        })
    }
}

/// The advancement loop's first ticked child, seen through the
/// context-aware layer. Opaque so that carrying the fact across the loop
/// stays cheap; it is revealed once when the whole composite contract is
/// assembled.
#[verifier::opaque]
pub open spec fn first_child_exact<T, A, P: Predicate<T>>(
    flag: bool,
    pre: Node<A, P>,
    post: Node<A, P>,
    delta: u64,
    x0: T,
) -> bool {
    behavior_tick_exact(flag, pre.behavior, post.behavior, delta, x0, post.status)
}

/// Whether a guarded loop's guard holds on a context; false for every other
/// node kind.
pub open spec fn guard_holds<T, A, P: Predicate<T>>(b: Behavior<A, P>, x: T) -> bool {
    match b {
        Behavior::While(p, _) => p.holds(&x),
        _ => false,
    }
}

/// The context-aware model of one tick of a behavior: on top of the
/// context-free layer, the context `x0` the tick was entered with decides
/// this node's own branching — which branch a condition takes, whether a
/// guarded loop refuses to run its child, which guarded child interrupts a
/// composite, and how the composite's first ticked child branches in turn.
pub open spec fn behavior_tick_exact<T, A, P: Predicate<T>>(
    reset_first: bool,
    pre: Behavior<A, P>,
    post: Behavior<A, P>,
    delta: u64,
    x0: T,
    r: Status,
) -> bool
    decreases post, 0int,
{
    match (pre, post) {
        (Behavior::Cond(n1, p1, s1, f1), Behavior::Cond(n2, p2, s2, f2)) => {
            if p1.holds(&x0) {
                node_tick2_rel(false, *s1, *s2, delta, r) && f2 == f1
            } else {
                node_tick2_rel(false, *f1, *f2, delta, r) && s2 == s1
            }
        },
        (Behavior::Sequence(c1, x1), Behavior::Sequence(c2, x2)) => {
            composite_exact(true, reset_first, c1 as int, x1@, c2 as int, x2@, delta, x0, r)
        },
        (Behavior::Select(c1, x1), Behavior::Select(c2, x2)) => {
            composite_exact(false, reset_first, c1 as int, x1@, c2 as int, x2@, delta, x0, r)
        },
        (Behavior::While(p1, c1), Behavior::While(p2, c2)) => {
            if p1.holds(&x0) {
                node_tick2_rel(reset_first, *c1, *c2, delta, r)
            } else {
                &&& r == Status::Failure
                &&& if reset_first {
                    reset_rel(*c1, *c2)
                } else {
                    c2 == c1
                }
            }
        },
        _ => true,
    }
}

/// The `'+'`/`'-'`/`'.'` summary a composite writes into its trace: one
/// `'+'` per child passed this call, then `'-'` if it stopped on the
/// negative status, `'.'` if it stopped on a running child, and nothing
/// more if the round completed.
pub open spec fn trace_params(is_sequence: bool, cstart: int, c_post: int, r: Status) -> Seq<
    char,
> {
    let advanced = if c_post >= cstart {
        (c_post - cstart) as nat
    } else {
        0 as nat
    };
    Seq::new(advanced, |i: int| '+') + (if r == positive_status(is_sequence) {
        Seq::<char>::empty()
    } else if r == negative_status(is_sequence) {
        seq!['-']
    } else {
        seq!['.']
    })
}

/// What one tick writes into the diagnostic trace beyond its status: the
/// per-kind label, a composite's final cursor and `'+'`/`'-'`/`'.'`
/// summary, and a condition's branch index and boolean outcome.
pub open spec fn trace_ok<T, A, P: Predicate<T>>(
    reset_first: bool,
    pre: Behavior<A, P>,
    post: Behavior<A, P>,
    x0: T,
    r: Status,
    repr: crate::repr::DebugRepr,
) -> bool {
    match (pre, post) {
        (Behavior::Wait { .. }, _) => repr.name@ == "Wait"@ && repr.cursor is Leaf,
        (Behavior::RandomWait { .. }, _) => repr.name@ == "RandomWait"@ && repr.cursor is Leaf,
        (Behavior::Cond(name, p1, _, _), _) => {
            &&& repr.name@ == name@
            &&& repr.overridden == Some(p1.holds(&x0))
            &&& repr.cursor matches crate::repr::Cursor::Index(ci, _) && ci == (if p1.holds(&x0) {
                0usize
            } else {
                1usize
            })
        },
        (Behavior::Sequence(c1, x1), Behavior::Sequence(c2, _)) => {
            &&& repr.name@ == "Sequence"@
            &&& repr.cursor matches crate::repr::Cursor::Index(ci, _) && ci == c2
            &&& repr.params matches Some(p) && p@ == trace_params(
                true,
                composite_cursor_start(true, reset_first, c1 as int, x1@, x0),
                c2 as int,
                r,
            )
        },
        (Behavior::Select(c1, x1), Behavior::Select(c2, _)) => {
            &&& repr.name@ == "Select"@
            &&& repr.cursor matches crate::repr::Cursor::Index(ci, _) && ci == c2
            &&& repr.params matches Some(p) && p@ == trace_params(
                false,
                composite_cursor_start(false, reset_first, c1 as int, x1@, x0),
                c2 as int,
                r,
            )
        },
        (Behavior::Action(name, _), _) => repr.name@ == name@ && repr.cursor is Leaf,
        (Behavior::ActionSuccess(name, _), _) => repr.name@ == name@ && repr.cursor is Leaf,
        (Behavior::StatefulAction(name, _), _) => repr.name@ == name@ && repr.cursor is Leaf,
        (Behavior::While(p1, _), _) => {
            !p1.holds(&x0) ==> repr.name@ == "While"@ && repr.cursor is Leaf
        },
        _ => true,
    }
}

/// The decimal digit characters.
pub open spec fn digit_char(d: int) -> char {
    if d == 0 {
        '0'
    } else if d == 1 {
        '1'
    } else if d == 2 {
        '2'
    } else if d == 3 {
        '3'
    } else if d == 4 {
        '4'
    } else if d == 5 {
        '5'
    } else if d == 6 {
        '6'
    } else if d == 7 {
        '7'
    } else if d == 8 {
        '8'
    } else {
        '9'
    }
}

/// The decimal rendering of a number, most significant digit first.
pub open spec fn dec_str(n: nat) -> Seq<char>
    decreases n,
{
    if n < 10 {
        seq![digit_char(n as int)]
    } else {
        dec_str(n / 10) + seq![digit_char((n % 10) as int)]
    }
}

/// The children of a behavior, in traversal order: a condition's success
/// branch then failure branch, a composite's child list, a guarded loop's
/// single child.
pub open spec fn spec_children<A, P>(b: Behavior<A, P>) -> Seq<Node<A, P>> {
    match b {
        Behavior::Cond(_, _, s, f) => seq![*s, *f],
        Behavior::Sequence(_, xs) => xs@,
        Behavior::Select(_, xs) => xs@,
        Behavior::While(_, c) => seq![*c],
        _ => Seq::empty(),
    }
}

/// The display name of a node: its collapse label if set, else a label
/// derived from its kind, stored name, and timer readout.
pub open spec fn spec_name<A, P>(n: Node<A, P>) -> Seq<char> {
    match n.collapse_as {
        Some(text) => text@,
        None => match n.behavior {
            Behavior::Wait { curr, max } => "Wait "@ + dec_str(curr as nat) + "/"@ + dec_str(
                max as nat,
            ),
            Behavior::RandomWait { curr, curr_max, max } => "RandomWait "@ + dec_str(curr as nat)
                + "/"@ + dec_str(curr_max as nat) + " ("@ + dec_str(max as nat) + ")"@,
            Behavior::Cond(name, _, _, _) => "Cond "@ + name@,
            Behavior::Sequence(_, _) => "Sequence"@,
            Behavior::Select(_, _) => "Select"@,
            Behavior::Action(name, _) => "Action "@ + name@,
            Behavior::ActionSuccess(name, _) => "ActionSuccess "@ + name@,
            Behavior::StatefulAction(name, _) => "StatefulAction "@ + name@,
            Behavior::While(_, _) => "While "@ + (match n.name {
                Some(name) => name@,
                None => Seq::empty(),
            }),
        },
    }
}

/// What the shape snapshot of a behavior looks like: a label per kind, the
/// stored name as detail on named leaves and conditions, the timer readout
/// as detail on waits, and the children snapshotted recursively.
pub open spec fn repr_matches<A, P>(r: crate::repr::TreeRepr, b: Behavior<A, P>) -> bool
    decreases b,
{
    match b {
        Behavior::Wait { curr, max } => {
            &&& r.name@ == "Wait"@
            &&& r.detail matches Some(d) && d@ == "curr="@ + dec_str(curr as nat) + ", max="@
                + dec_str(max as nat)
            &&& r.children@.len() == 0
        },
        Behavior::RandomWait { curr, curr_max, max } => {
            &&& r.name@ == "RandomWait"@
            &&& r.detail matches Some(d) && d@ == "curr="@ + dec_str(curr as nat) + ", curr_max="@
                + dec_str(curr_max as nat) + ", max="@ + dec_str(max as nat)
            &&& r.children@.len() == 0
        },
        Behavior::Cond(name, _, s, f) => {
            &&& r.name@ == "Cond"@
            &&& r.detail matches Some(d) && d@ == name@
            &&& r.children@.len() == 2
            &&& repr_matches(r.children@[0], s.behavior)
            &&& repr_matches(r.children@[1], f.behavior)
        },
        Behavior::Sequence(_, xs) => {
            &&& r.name@ == "Sequence"@
            &&& r.children@.len() == xs@.len()
            &&& forall|i: int|
                0 <= i < xs@.len() ==> repr_matches(#[trigger] r.children@[i], xs@[i].behavior)
        },
        Behavior::Select(_, xs) => {
            &&& r.name@ == "Select"@
            &&& r.children@.len() == xs@.len()
            &&& forall|i: int|
                0 <= i < xs@.len() ==> repr_matches(#[trigger] r.children@[i], xs@[i].behavior)
        },
        Behavior::Action(name, _) => {
            &&& r.name@ == "Action"@
            &&& r.detail matches Some(d) && d@ == name@
            &&& r.children@.len() == 0
        },
        Behavior::ActionSuccess(name, _) => {
            &&& r.name@ == "ActionSuccess"@
            &&& r.detail matches Some(d) && d@ == name@
            &&& r.children@.len() == 0
        },
        Behavior::StatefulAction(name, _) => {
            &&& r.name@ == "StatefulAction"@
            &&& r.detail matches Some(d) && d@ == name@
            &&& r.children@.len() == 0
        },
        Behavior::While(_, c) => {
            &&& r.name@ == "While"@
            &&& r.children@.len() == 1
            &&& repr_matches(r.children@[0], c.behavior)
        },
    }
}

/// The verdict a composite reaches on a trace of child outcomes, starting
/// from cursor `c`: the resulting status and the final cursor. Positive
/// outcomes advance the cursor; the first non-positive outcome stops the
/// walk and decides the status.
pub open spec fn composite_verdict(is_sequence: bool, outcomes: Seq<Status>, c: int) -> (
    Status,
    int,
)
    decreases outcomes.len() - c,
{
    if !(0 <= c < outcomes.len()) {
        (positive_status(is_sequence), c)
    } else if outcomes[c] == positive_status(is_sequence) {
        composite_verdict(is_sequence, outcomes, c + 1)
    } else if outcomes[c] == negative_status(is_sequence) {
        (negative_status(is_sequence), c)
    } else {
        (Status::Running, c)
    }
}

/// The context-aware model of one tick of a node: everything in
/// [`node_tick_rel`], plus how the entry context decides this node's own
/// branching.
pub open spec fn node_tick_exact<T, A, P: Predicate<T>>(
    pre: Node<A, P>,
    post: Node<A, P>,
    delta: u64,
    x0: T,
    r: Status,
) -> bool {
    &&& node_tick_rel(pre, post, delta, r)
    &&& behavior_tick_exact(
        is_terminal(pre.status),
        pre.behavior,
        post.behavior,
        delta,
        x0,
        r,
    )
}

} // verus!
