//! The library's laws: facts about the tick/reset protocol that hold for
//! every tree, proved once here rather than tested case by case.

use vstd::prelude::*;
use crate::types::{Status, is_terminal};
use crate::traits::Predicate;
use crate::node::{Behavior, Node};
use crate::model::{
    composite_exact, composite_verdict, first_interrupt, interrupts, is_fresh, negative_status,
    node_tick_rel, node_wf, positive_status, reset_rel, run_exact, same_shape, sat_sub,
    trace_params,
};
use crate::lemmas::{lemma_first_interrupt_char, lemma_reset_fresh, lemma_run_exact_prefix};

verus! {

/// Restart idempotence: after a node reports Success or Failure, its next
/// tick begins from a freshly reset state equivalent to a brand-new node of
/// the same shape — timers rewound, cursors zeroed, statuses cleared.
pub proof fn law_restart_idempotence<A, P>(pre: Node<A, P>, mid: Node<A, P>)
    requires
        is_terminal(pre.status),
        reset_rel(pre, mid),
    ensures
        is_fresh(mid),
        same_shape(pre, mid),
{
    lemma_reset_fresh(pre, mid);
}

/// Restart idempotence at a wait timer: a wait that just finished, ticked
/// again with a delta below its bound, reports Running with exactly
/// `max - delta` left — as a brand-new timer would.
pub proof fn law_restart_wait<A, P>(
    pre: Node<A, P>,
    post: Node<A, P>,
    delta: u64,
    max: u64,
    r: Status,
)
    requires
        pre.behavior matches Behavior::Wait { curr: _, max: m } && m == max,
        is_terminal(pre.status),
        node_tick_rel(pre, post, delta, r),
        delta < max,
    ensures
        r == Status::Running,
        post.behavior == (Behavior::<A, P>::Wait { curr: (max - delta) as u64, max }),
{
    assert(sat_sub(max, delta) == max - delta);
}

/// Sequence monotonicity: within a round (the cursor has not completed the
/// child list) and with no guard demanding an interrupt, the cursor never
/// moves backwards across a tick, and no child the cursor already passed is
/// ticked again — they are left exactly as they were.
pub proof fn law_cursor_monotonic<T, A, P: Predicate<T>>(
    is_sequence: bool,
    c0: int,
    xs: Seq<Node<A, P>>,
    c_post: int,
    ys: Seq<Node<A, P>>,
    delta: u64,
    x0: T,
    r: Status,
)
    requires
        composite_exact(is_sequence, false, c0, xs, c_post, ys, delta, x0, r),
        forall|j: int| 0 <= j < c0 ==> !interrupts(#[trigger] xs[j], x0, is_sequence),
        c0 < xs.len(),
    ensures
        c0 <= c_post <= xs.len(),
        forall|j: int| 0 <= j < c0 ==> ys[j] == xs[j],
{
    lemma_first_interrupt_char(is_sequence, xs, 0, c0, x0, c0);
    assert(first_interrupt(is_sequence, xs, c0, x0) == c0);
    lemma_run_exact_prefix(is_sequence, xs, c0, ys, c_post, delta, xs.len() as int + 1, r);
}

/// Wait clamp law: a tick whose delta meets or exceeds the remaining time
/// yields Success with the timer pinned at zero — the overshoot is
/// discarded, never exposed as a negative residual on the next cycle.
pub proof fn law_wait_clamp<A, P>(
    pre: Node<A, P>,
    post: Node<A, P>,
    delta: u64,
    curr: u64,
    max: u64,
    r: Status,
)
    requires
        pre.behavior == (Behavior::<A, P>::Wait { curr, max }),
        !is_terminal(pre.status),
        node_tick_rel(pre, post, delta, r),
        delta >= curr,
    ensures
        r == Status::Success,
        post.behavior == (Behavior::<A, P>::Wait { curr: 0u64, max }),
{
}

/// The exception to cursor monotonicity: when the first interrupting guard
/// among the already passed children sits at index `k`, the tick resumes
/// from `k` — children before the guard keep their state, and the final
/// cursor never falls below it.
pub proof fn law_interrupt_reclaims_control<T, A, P: Predicate<T>>(
    is_sequence: bool,
    c0: int,
    xs: Seq<Node<A, P>>,
    c_post: int,
    ys: Seq<Node<A, P>>,
    delta: u64,
    x0: T,
    r: Status,
    k: int,
)
    requires
        composite_exact(is_sequence, false, c0, xs, c_post, ys, delta, x0, r),
        0 <= k < c0,
        interrupts(xs[k], x0, is_sequence),
        forall|j: int| 0 <= j < k ==> !interrupts(#[trigger] xs[j], x0, is_sequence),
    ensures
        k <= c_post <= xs.len(),
        forall|j: int| 0 <= j < k ==> ys[j] == xs[j],
{
    lemma_first_interrupt_char(is_sequence, xs, 0, c0, x0, k);
    assert(first_interrupt(is_sequence, xs, c0, x0) == k);
    lemma_run_exact_prefix(is_sequence, xs, k, ys, c_post, delta, k + 1, r);
}

/// A guard's interrupt demand flips with the polarity of the composite that
/// contains it: a guard that would interrupt a sequence would let the dual
/// selector proceed, and the other way round.
pub proof fn law_interrupt_polarity<T, A, P: Predicate<T>>(n: Node<A, P>, x: T)
    requires
        n.behavior is While,
    ensures
        interrupts(n, x, true) == !interrupts(n, x, false),
{
}

/// Selector polarity duality, over traces of child outcomes: on any trace,
/// from any cursor, a selector reaches exactly the dual verdict, at the same
/// cursor, that a sequence reaches on the outcome-dualized trace.
pub proof fn law_polarity_duality(outcomes: Seq<Status>, c: int)
    ensures
        composite_verdict(false, outcomes, c) == {
            let (r, cp) = composite_verdict(true, dual_trace(outcomes), c);
            (dual_status(r), cp)
        },
    decreases outcomes.len() - c,
{
    let dual = dual_trace(outcomes);
    if 0 <= c < outcomes.len() {
        assert(dual[c] == dual_status(outcomes[c]));
        if outcomes[c] == positive_status(false) {
            law_polarity_duality(outcomes, c + 1);
        }
    }
}

/// Dual runs also write identical `'+'`/`'-'`/`'.'` trace summaries: the
/// symbols depend only on how each outcome relates to the polarity, which
/// the status dual preserves.
pub proof fn law_trace_params_duality(cstart: int, c_post: int, r: Status)
    ensures
        trace_params(false, cstart, c_post, r) == trace_params(
            true,
            cstart,
            c_post,
            dual_status(r),
        ),
{
    assert(trace_params(false, cstart, c_post, r) =~= trace_params(
        true,
        cstart,
        c_post,
        dual_status(r),
    ));
}

/// The advancement loop reaches exactly the verdict that
/// [`composite_verdict`] computes on the trace of statuses its children
/// ended with: the laws above and the duality law therefore speak about the
/// verified engine, not about a shadow definition.
pub proof fn law_run_matches_verdict<A, P>(
    is_sequence: bool,
    s: Seq<Node<A, P>>,
    c: int,
    ys: Seq<Node<A, P>>,
    c_post: int,
    delta: u64,
    fresh_from: int,
    r: Status,
)
    requires
        run_exact(is_sequence, s, c, ys, c_post, delta, fresh_from, r),
    ensures
        composite_verdict(is_sequence, status_trace(ys), c) == (r, c_post),
    decreases s.len() - c,
{
    if c == s.len() {
    } else if ys[c].status == positive_status(is_sequence) {
        law_run_matches_verdict(
            is_sequence,
            s.update(c, ys[c]),
            c + 1,
            ys,
            c_post,
            delta,
            fresh_from,
            r,
        );
    }
}

/// The outcome trace with Success and Failure swapped.
pub open spec fn dual_trace(outcomes: Seq<Status>) -> Seq<Status> {
    Seq::new(outcomes.len(), |i: int| dual_status(outcomes[i]))
}

/// Success and Failure swapped; the non-terminal statuses are self-dual.
pub open spec fn dual_status(s: Status) -> Status {
    match s {
        Status::Success => Status::Failure,
        Status::Failure => Status::Success,
        other => other,
    }
}

/// The trace of statuses a child list ended with.
pub open spec fn status_trace<A, P>(ys: Seq<Node<A, P>>) -> Seq<Status> {
    Seq::new(ys.len(), |i: int| ys[i].status)
}

} // verus!
