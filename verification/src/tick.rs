//! The tick/reset protocol: the restart contract, the variant-specific tick
//! algorithms, and the composite advancement loop with interrupt rechecking.

use vstd::prelude::*;
use vstd::string::StringExecFns;
use crate::types::{Status, is_terminal};
use crate::traits::{Predicate, StatefulAction};
use crate::repr::{Cursor, DebugRepr};
use crate::node::{Behavior, Node};
use crate::model::{
    behavior_reset_rel, behavior_size, behavior_tick2_rel, behavior_tick_exact, behavior_wf,
    child_evolves, composite_cursor_start, composite_exact, composite_fresh_from, composite_loose,
    guard_holds, interrupts, negative_status, node_size, node_tick2_rel, node_tick_exact,
    node_tick_rel, node_wf, positive_status, reset_rel, run_exact, same_behavior_shape,
    first_child_exact, same_shape, seq_size, trace_ok, trace_params,
};
use crate::lemmas::{
    lemma_behavior_reset_fresh, lemma_first_interrupt_char, lemma_fuse_behavior, lemma_fuse_exact,
    lemma_fuse_node, lemma_fuse_trace_ok, lemma_reset_fresh, lemma_run_exact_evolves,
    lemma_run_exact_prefix, lemma_run_exact_step, lemma_same_behavior_shape_trans,
    lemma_same_shape_behavior_size, lemma_same_shape_node_size, lemma_same_shape_refl,
    lemma_same_shape_trans, lemma_seq_size_element, lemma_seq_size_pointwise,
};

verus! {

/// Reset every node of a child list, in order.
#[verifier::loop_isolation(false)]
fn reset_children<T, A: StatefulAction<T>, P>(nodes: &mut Vec<Node<A, P>>)
    requires
        forall|i: int| 0 <= i < old(nodes)@.len() ==> node_wf(#[trigger] old(nodes)@[i]),
    ensures
        final(nodes)@.len() == old(nodes)@.len(),
        forall|i: int|
            0 <= i < old(nodes)@.len() ==> reset_rel(old(nodes)@[i], #[trigger] final(nodes)@[i]),
        forall|i: int| 0 <= i < final(nodes)@.len() ==> node_wf(#[trigger] final(nodes)@[i]),
    decreases seq_size(nodes@), 1int,
{
    let ghost s0 = nodes@;
    let n = nodes.len();
    let mut i: usize = 0;
    while i < n
        invariant
            i <= n,
            n == nodes@.len(),
            nodes@.len() == s0.len(),
            forall|j: int| 0 <= j < i ==> reset_rel(s0[j], #[trigger] nodes@[j]),
            forall|j: int| 0 <= j < i ==> node_wf(#[trigger] nodes@[j]),
            forall|j: int| i <= j < n ==> nodes@[j] == s0[j],
            forall|j: int| 0 <= j < s0.len() ==> node_wf(#[trigger] s0[j]),
            forall|j: int| 0 <= j < n ==> node_size(#[trigger] nodes@[j]) == node_size(s0[j]),
        decreases n - i,
    {
        let ghost cur = nodes@;
        proof {
            lemma_seq_size_element(s0, i as int);
            crate::lemmas::lemma_seq_size_pointwise(s0, cur);
        }
        let child = &mut nodes[i];
        proof {
            assert(*child == s0[i as int]);
            assert(node_size(*child) <= seq_size(cur));
        }
        child.reset();
        proof {
            lemma_reset_fresh(s0[i as int], nodes@[i as int]);
            lemma_same_shape_node_size(s0[i as int], nodes@[i as int]);
        }
        i += 1;
    }
}

impl<A, P> Behavior<A, P> {
    /// Rewind the behavior: timers back to their bound, a random wait
    /// re-rolled, composite cursors zeroed and all their children reset, a
    /// stateful leaf's reset delegated to user code, a guarded loop's child
    /// reset. Plain actions and condition branches hold no state of their
    /// own and are untouched.
    pub fn reset<T>(&mut self)
        where A: StatefulAction<T>
        requires
            behavior_wf(*old(self)),
        ensures
            behavior_reset_rel(*old(self), *final(self)),
            behavior_wf(*final(self)),
        decreases behavior_size(*self), 2int,
    {
        match self {
            Behavior::Wait { curr, max } => {
                *curr = *max;
            },
            Behavior::RandomWait { curr, curr_max, max } => {
                let fresh_max = crate::rng::roll_duration(*max);
                *curr_max = fresh_max;
                *curr = fresh_max;
            },
            Behavior::Sequence(idx, nodes) => {
                *idx = 0;
                reset_children(nodes);
            },
            Behavior::Select(idx, nodes) => {
                *idx = 0;
                reset_children(nodes);
            },
            Behavior::StatefulAction(_, state) => {
                state.reset();
            },
            Behavior::While(_, node) => {
                node.reset();
            },
            _ => {},
        }
    }
}

impl<A, P> Node<A, P> {
    /// Return the node to its pre-first-tick state: the status becomes
    /// Initialized and the behavior rewinds per [`Behavior::reset`].
    pub fn reset<T>(&mut self)
        where A: StatefulAction<T>
        requires
            node_wf(*old(self)),
        ensures
            reset_rel(*old(self), *final(self)),
            node_wf(*final(self)),
        decreases node_size(*self), 0int,
    {
        self.status = Status::Initialized;
        self.behavior.reset();
    }

    /// Whether this node demands an interrupt of the composite it sits in:
    /// it is a guarded loop whose guard, evaluated against the current
    /// context, disagrees with the composite's polarity.
    pub fn recheck_condition<T>(&self, context: &T, is_sequence: bool) -> (r: bool)
        where P: Predicate<T>
        ensures
            r == interrupts(*self, *context, is_sequence),
    {
        match &self.behavior {
            Behavior::While(cond, _) => cond.eval(context) != is_sequence,
            _ => false,
        }
    }

    /// Tick the node once: if it finished last tick it restarts from a fresh
    /// state first, then its behavior ticks against the context, and the
    /// reported status is stored as the node's last observed status.
    pub fn tick<T>(&mut self, delta: u64, context: &mut T) -> (r: (Status, DebugRepr))
        where A: StatefulAction<T>, P: Predicate<T>
        requires
            node_wf(*old(self)),
        ensures
            node_wf(*final(self)),
            same_shape(*old(self), *final(self)),
            final(self).status == r.0,
            r.1.status == r.0,
            node_tick_rel(*old(self), *final(self), delta, r.0),
            node_tick_exact(*old(self), *final(self), delta, *old(context), r.0),
            trace_ok(
                is_terminal(old(self).status),
                old(self).behavior,
                final(self).behavior,
                *old(context),
                r.0,
                r.1,
            ),
            (old(self).behavior is Wait || old(self).behavior is RandomWait) ==> *final(context)
                == *old(context),
            (old(self).behavior is While && !guard_holds(old(self).behavior, *old(context)))
                ==> *final(context) == *old(context),
        decreases node_size(*self), 0int,
    {
        if self.status == Status::Success || self.status == Status::Failure {
            self.reset();
        }
        let ghost mid_b = self.behavior;
        proof {
            if is_terminal(old(self).status) {
                lemma_behavior_reset_fresh(old(self).behavior, mid_b);
                lemma_same_shape_behavior_size(old(self).behavior, mid_b);
            }
        }
        let (status, repr) = self.behavior.tick(delta, context);
        self.status = status;
        proof {
            if is_terminal(old(self).status) {
                lemma_fuse_behavior(
                    old(self).behavior,
                    mid_b,
                    self.behavior,
                    false,
                    delta,
                    status,
                );
                lemma_fuse_exact(
                    old(self).behavior,
                    mid_b,
                    self.behavior,
                    delta,
                    *old(context),
                    status,
                );
                lemma_fuse_trace_ok(
                    old(self).behavior,
                    mid_b,
                    self.behavior,
                    *old(context),
                    status,
                    repr,
                );
                lemma_same_behavior_shape_trans(old(self).behavior, mid_b, self.behavior);
            }
        }
        (status, repr)
    }
}

impl<A, P> Behavior<A, P> {
    /// Tick the behavior once against the context. The caller (the node
    /// wrapper) has already applied the restart contract.
    pub fn tick<T>(&mut self, delta: u64, context: &mut T) -> (r: (Status, DebugRepr))
        where A: StatefulAction<T>, P: Predicate<T>
        requires
            behavior_wf(*old(self)),
        ensures
            behavior_wf(*final(self)),
            same_behavior_shape(*old(self), *final(self)),
            behavior_tick2_rel(false, *old(self), *final(self), delta, r.0),
            behavior_tick_exact(false, *old(self), *final(self), delta, *old(context), r.0),
            r.1.status == r.0,
            trace_ok(false, *old(self), *final(self), *old(context), r.0, r.1),
            (*old(self) is Wait || *old(self) is RandomWait) ==> *final(context) == *old(
                context,
            ),
            (*old(self) is While && !guard_holds(*old(self), *old(context))) ==> *final(context)
                == *old(context),
        decreases behavior_size(*self), 2int,
    {
        match self {
            Behavior::Wait { curr, max } => {
                if *curr <= delta {
                    *curr = 0;
                } else {
                    *curr = *curr - delta;
                }
                let status = if *curr == 0 {
                    Status::Success
                } else {
                    Status::Running
                };
                (status, DebugRepr::new("Wait", Cursor::Leaf, status))
            },
            Behavior::RandomWait { curr, curr_max: _, max: _ } => {
                if *curr <= delta {
                    *curr = 0;
                } else {
                    *curr = *curr - delta;
                }
                let status = if *curr == 0 {
                    Status::Success
                } else {
                    Status::Running
                };
                (status, DebugRepr::new("RandomWait", Cursor::Leaf, status))
            },
            Behavior::Cond(name, cond, a, b) => {
                let c = cond.eval(context);
                let (status, child_repr) = if c {
                    a.tick(delta, context)
                } else {
                    b.tick(delta, context)
                };
                proof {
                    if c {
                        lemma_same_shape_refl(**b);
                    } else {
                        lemma_same_shape_refl(**a);
                    }
                }
                let idx: usize = if c {
                    0
                } else {
                    1
                };
                let repr = DebugRepr::new(
                    name.as_str(),
                    Cursor::Index(idx, Box::new(child_repr)),
                    status,
                ).with_override(c);
                (status, repr)
            },
            Behavior::Sequence(cur, nodes) => {
                let (status, repr) = sequence(delta, context, true, cur, nodes);
                (status, repr)
            },
            Behavior::Select(cur, nodes) => {
                let (status, repr) = sequence(delta, context, false, cur, nodes);
                (status, repr)
            },
            Behavior::Action(name, act) => {
                let status = act.tick(context);
                (status, DebugRepr::new(name.as_str(), Cursor::Leaf, status))
            },
            Behavior::ActionSuccess(name, act) => {
                let _ = act.tick(context);
                (Status::Success, DebugRepr::new(name.as_str(), Cursor::Leaf, Status::Success))
            },
            Behavior::StatefulAction(name, act) => {
                let status = act.tick(context);
                (status, DebugRepr::new(name.as_str(), Cursor::Leaf, status))
            },
            Behavior::While(cond, child) => {
                if cond.eval(context) {
                    child.tick(delta, context)
                } else {
                    proof {
                        lemma_same_shape_refl(**child);
                    }
                    (Status::Failure, DebugRepr::new("While", Cursor::Leaf, Status::Failure))
                }
            },
        }
    }
}

/// The composite evaluation algorithm, shared by sequences (`is_sequence`)
/// and selectors (`!is_sequence`): the interrupt recheck over already passed
/// children, the wrap of a completed cursor, then the advancement loop that
/// ticks children strictly left to right from the cursor.
#[verifier::loop_isolation(false)]
#[verifier::rlimit(100)]
fn sequence<T, A: StatefulAction<T>, P: Predicate<T>>(
    delta: u64,
    context: &mut T,
    is_sequence: bool,
    current: &mut usize,
    xs: &mut Vec<Node<A, P>>,
) -> (r: (Status, DebugRepr))
    requires
        old(xs)@.len() >= 1,
        *old(current) <= old(xs)@.len(),
        forall|i: int| 0 <= i < old(xs)@.len() ==> node_wf(#[trigger] old(xs)@[i]),
    ensures
        final(xs)@.len() == old(xs)@.len(),
        *final(current) <= final(xs)@.len(),
        forall|i: int| 0 <= i < final(xs)@.len() ==> node_wf(#[trigger] final(xs)@[i]),
        forall|i: int|
            0 <= i < final(xs)@.len() ==> same_shape(old(xs)@[i], #[trigger] final(xs)@[i]),
        composite_exact(
            is_sequence,
            false,
            *old(current) as int,
            old(xs)@,
            *final(current) as int,
            final(xs)@,
            delta,
            *old(context),
            r.0,
        ),
        composite_loose(
            is_sequence,
            old(xs)@,
            *final(current) as int,
            final(xs)@,
            delta,
            r.0,
        ),
        r.1.status == r.0,
        r.1.cursor matches Cursor::Index(ci, _) && ci == *final(current),
        r.1.params matches Some(p) && p@ == trace_params(
            is_sequence,
            composite_cursor_start(
                is_sequence,
                false,
                *old(current) as int,
                old(xs)@,
                *old(context),
            ),
            *final(current) as int,
            r.0,
        ),
        is_sequence ==> r.1.name@ == "Sequence"@,
        !is_sequence ==> r.1.name@ == "Select"@,
    decreases seq_size(xs@), 1int,
{
    let ghost s0 = xs@;
    let ghost c0 = *current as int;
    let ghost x0 = *context;

    let status_positive = if is_sequence {
        Status::Success
    } else {
        Status::Failure
    };
    let status_negative = if is_sequence {
        Status::Failure
    } else {
        Status::Success
    };

    let len = xs.len();

    // Interrupt recheck: scan the already passed children left to right and
    // stop at the first whose guard reclaims control.
    let cur0 = *current;
    let mut hit = cur0;
    let mut i: usize = 0;
    while i < cur0
        invariant
            i <= cur0,
            hit <= cur0,
            hit == cur0 ==> forall|j: int|
                0 <= j < i ==> !interrupts(#[trigger] s0[j], x0, is_sequence),
            hit < cur0 ==> interrupts(s0[hit as int], x0, is_sequence) && (forall|j: int|
                0 <= j < hit ==> !interrupts(#[trigger] s0[j], x0, is_sequence)),
        decreases cur0 - i,
    {
        if hit == cur0 {
            let node_ref = &xs[i];
            if node_ref.recheck_condition(context, is_sequence) {
                hit = i;
            }
        }
        i += 1;
    }
    proof {
        lemma_first_interrupt_char(is_sequence, s0, 0, c0, x0, hit as int);
    }
    let ghost fresh_from: int = if (hit as int) < c0 {
        hit as int + 1
    } else {
        s0.len() as int + 1
    };

    // On a hit: pull the cursor back to the interrupting guard and reset
    // every child after it.
    if hit < cur0 {
        *current = hit;
        let mut j = hit + 1;
        while j < len
            invariant
                hit + 1 <= j <= len,
                xs@.len() == len,
                forall|k: int| 0 <= k <= hit ==> #[trigger] xs@[k] == s0[k],
                forall|k: int|
                    hit < k < j ==> reset_rel(s0[k], #[trigger] xs@[k]) && node_wf(xs@[k]),
                forall|k: int| j <= k < len ==> #[trigger] xs@[k] == s0[k],
                forall|k: int|
                    0 <= k < len ==> node_size(#[trigger] xs@[k]) == node_size(s0[k]),
            decreases len - j,
        {
            let ghost cur_view = xs@;
            proof {
                lemma_seq_size_element(s0, j as int);
                lemma_seq_size_pointwise(s0, cur_view);
            }
            let child = &mut xs[j];
            child.reset();
            proof {
                lemma_reset_fresh(s0[j as int], xs@[j as int]);
                lemma_same_shape_node_size(s0[j as int], xs@[j as int]);
            }
            j += 1;
        }
    }

    // Wrap a completed round.
    if *current == len {
        *current = 0;
    }
    let ghost cstart = *current as int;
    proof {
        assert(cstart < len);
        assert(cstart == composite_cursor_start(is_sequence, false, c0, s0, x0));
        assert(fresh_from == composite_fresh_from(is_sequence, false, c0, s0, x0));
        assert forall|k: int| 0 <= k < len implies same_shape(s0[k], #[trigger] xs@[k]) by {
            if (hit as int) < c0 && k > hit {
                lemma_reset_fresh(s0[k], xs@[k]);
            } else {
                lemma_same_shape_refl(s0[k]);
            }
        };
    }

    // Advancement loop.
    let mut status = status_positive;
    let mut repr_string = String::new();
    let mut child_repr: Option<DebugRepr> = None;
    let mut stopped = false;
    let ghost mut s_run = s0;

    while *current < len && !stopped
        invariant
            cstart <= *current as int <= len,
            xs@.len() == len,
            s_run.len() == len,
            status_positive == positive_status(is_sequence),
            status_negative == negative_status(is_sequence),
            forall|k: int| 0 <= k < len ==> node_wf(#[trigger] xs@[k]),
            forall|k: int| 0 <= k < len ==> same_shape(s0[k], #[trigger] xs@[k]),
            forall|k: int| 0 <= k < len ==> node_size(#[trigger] xs@[k]) == node_size(s0[k]),
            forall|k: int| *current as int <= k < len ==> #[trigger] s_run[k] == s0[k],
            forall|k: int| 0 <= k < *current as int ==> #[trigger] s_run[k] == xs@[k],
            forall|k: int| 0 <= k < cstart ==> #[trigger] xs@[k] == s0[k],
            !stopped ==> forall|k: int|
                *current as int <= k < len ==> (if k >= fresh_from {
                    reset_rel(s0[k], #[trigger] xs@[k])
                } else {
                    #[trigger] xs@[k] == s0[k]
                }),
            !stopped ==> status == status_positive,
            !stopped ==> forall|ys: Seq<Node<A, P>>, cp: int, rr: Status|
                run_exact(
                    is_sequence,
                    s_run,
                    *current as int,
                    ys,
                    cp,
                    delta,
                    fresh_from,
                    rr,
                ) ==> run_exact(is_sequence, s0, cstart, ys, cp, delta, fresh_from, rr),
            stopped ==> run_exact(
                is_sequence,
                s0,
                cstart,
                xs@,
                *current as int,
                delta,
                fresh_from,
                status,
            ),
            stopped ==> child_repr is Some,
            (*current as int > cstart) ==> child_repr is Some,
            (!stopped && *current as int == cstart) ==> *context == x0,
            !stopped ==> repr_string@ == Seq::new(
                (*current as int - cstart) as nat,
                |i: int| '+',
            ),
            stopped ==> repr_string@ == trace_params(
                is_sequence,
                cstart,
                *current as int,
                status,
            ),
            (*current as int > cstart || stopped) ==> first_child_exact(
                cstart >= fresh_from || is_terminal(s0[cstart].status),
                s0[cstart],
                xs@[cstart],
                delta,
                x0,
            ),
        decreases len - *current, (if stopped {
            0int
        } else {
            1int
        }),
    {
        let idx = *current;
        let ghost xs_pre = xs@;
        let ghost s_run_pre = s_run;

        proof {
            lemma_seq_size_pointwise(s0, xs_pre);
            lemma_seq_size_element(xs_pre, idx as int);
        }
        let child = &mut xs[idx];
        let was_terminal = child.status == Status::Success || child.status == Status::Failure;
        if was_terminal {
            child.reset();
        }
        let ghost child_mid = *child;
        proof {
            if was_terminal {
                lemma_reset_fresh(xs_pre[idx as int], child_mid);
                lemma_same_shape_node_size(xs_pre[idx as int], child_mid);
            }
            assert(node_size(*child) <= seq_size(xs_pre));
        }
        let (res, cr) = child.tick(delta, context);
        let ghost child_post = xs@[idx as int];
        proof {
            // The child satisfies the run relation's per-child clause from
            // its state at the start of this parent tick.
            if was_terminal {
                lemma_fuse_node(xs_pre[idx as int], child_mid, child_post, false, delta, res);
            }
            if idx as int >= fresh_from {
                // The child had been reset by the interrupt recheck; fold
                // that reset into one forced tick of the original child.
                assert(reset_rel(s0[idx as int], xs_pre[idx as int]));
                // A child the recheck just reset reports Initialized, so the
                // defensive re-arm above cannot have fired for it.
                if was_terminal {
                    assert(is_terminal(xs_pre[idx as int].status) == false);
                    assert(false);
                }
                lemma_fuse_node(s0[idx as int], xs_pre[idx as int], child_post, false, delta, res);
                assert(node_tick2_rel(true, s0[idx as int], child_post, delta, res));
            } else {
                assert(xs_pre[idx as int] == s0[idx as int]);
                assert(node_tick2_rel(false, s0[idx as int], child_post, delta, res));
            }
            assert(s_run_pre[idx as int] == s0[idx as int]);
            assert(child_post.status == res);
            assert(node_tick2_rel(
                idx as int >= fresh_from,
                s_run_pre[idx as int],
                child_post,
                delta,
                child_post.status,
            ));
            // Shape and size bookkeeping.
            if was_terminal {
                lemma_same_shape_trans(s0[idx as int], xs_pre[idx as int], child_mid);
                lemma_same_shape_trans(s0[idx as int], child_mid, child_post);
            } else {
                lemma_same_shape_trans(s0[idx as int], xs_pre[idx as int], child_post);
            }
            lemma_same_shape_node_size(s0[idx as int], child_post);
            if idx as int == cstart {
                // The loop's first child is ticked against the entry
                // context.
                assert(cstart < fresh_from);
                crate::lemmas::lemma_first_child_exact(
                    s0[idx as int],
                    child_mid,
                    child_post,
                    was_terminal,
                    delta,
                    x0,
                    res,
                );
                reveal(first_child_exact);
                assert(first_child_exact(
                    cstart >= fresh_from || is_terminal(s0[cstart].status),
                    s0[cstart],
                    child_post,
                    delta,
                    x0,
                ));
            }
        }
        if res == status_positive {
            *current = idx + 1;
            repr_string.append("+");
            child_repr = Some(cr);
            proof {
                reveal_strlit("+");
                assert(repr_string@ =~= Seq::new(
                    (*current as int - cstart) as nat,
                    |i: int| '+',
                ));
                lemma_run_exact_step(
                    is_sequence,
                    s_run_pre,
                    idx as int,
                    child_post,
                    delta,
                    fresh_from,
                );
                s_run = s_run_pre.update(idx as int, child_post);
                assert forall|ys: Seq<Node<A, P>>, cp: int, rr: Status|
                    run_exact(
                        is_sequence,
                        s_run,
                        *current as int,
                        ys,
                        cp,
                        delta,
                        fresh_from,
                        rr,
                    ) implies run_exact(
                    is_sequence,
                    s0,
                    cstart,
                    ys,
                    cp,
                    delta,
                    fresh_from,
                    rr,
                ) by {
                    assert(run_exact(
                        is_sequence,
                        s_run_pre,
                        idx as int,
                        ys,
                        cp,
                        delta,
                        fresh_from,
                        rr,
                    ));
                };
            }
        } else {
            status = if res == status_negative {
                status_negative
            } else {
                Status::Running
            };
            if res == status_negative {
                repr_string.append("-");
            } else {
                repr_string.append(".");
            }
            child_repr = Some(cr);
            stopped = true;
            proof {
                reveal_strlit("-");
                reveal_strlit(".");
                assert(repr_string@ =~= trace_params(
                    is_sequence,
                    cstart,
                    idx as int,
                    status,
                ));
                assert(run_exact(
                    is_sequence,
                    s_run_pre,
                    idx as int,
                    xs@,
                    idx as int,
                    delta,
                    fresh_from,
                    status,
                ));
                assert(run_exact(
                    is_sequence,
                    s0,
                    cstart,
                    xs@,
                    idx as int,
                    delta,
                    fresh_from,
                    status,
                ));
            }
        }
    }

    proof {
        if !stopped {
            assert(xs@ =~= s_run);
            assert(run_exact(
                is_sequence,
                s_run,
                len as int,
                xs@,
                len as int,
                delta,
                fresh_from,
                status,
            ));
            assert(repr_string@ =~= trace_params(is_sequence, cstart, len as int, status));
        }
        assert(run_exact(
            is_sequence,
            s0,
            cstart,
            xs@,
            *current as int,
            delta,
            fresh_from,
            status,
        ));
        crate::lemmas::lemma_sequence_finish(
            is_sequence,
            c0,
            s0,
            x0,
            cstart,
            fresh_from,
            xs@,
            *current as int,
            delta,
            status,
        );
    }

    let crep = match child_repr {
        Some(c) => c,
        None => vstd::pervasive::unreached(),
    };
    let mut repr = DebugRepr::new(
        if is_sequence {
            "Sequence"
        } else {
            "Select"
        },
        Cursor::Index(*current, Box::new(crep)),
        status,
    );
    repr.params = Some(repr_string);
    (status, repr)
}

} // verus!
