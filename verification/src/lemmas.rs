//! Structural facts about the model: sizes, shapes, and how resets compose
//! with ticking.

use vstd::prelude::*;
use crate::node::{Behavior, Node};
use crate::types::{Status, is_terminal};
use crate::traits::Predicate;
use crate::model::{
    behavior_fresh, behavior_reset_rel, behavior_size, behavior_tick2_rel, behavior_wf,
    child_evolves, first_interrupt_from, interrupts, is_fresh, negative_status, node_size,
    node_tick2_rel, node_wf, positive_status, reset_rel, run_exact, same_behavior_shape,
    same_shape, seq_size,
};

verus! {

/// Every element of a child list is at most as large as the whole list.
pub proof fn lemma_seq_size_element<A, P>(s: Seq<Node<A, P>>, i: int)
    requires
        0 <= i < s.len(),
    ensures
        node_size(s[i]) <= seq_size(s),
    decreases s.len(),
{
    if i > 0 {
        let tail = s.subrange(1, s.len() as int);
        lemma_seq_size_element(tail, i - 1);
        assert(tail[i - 1] == s[i]);
    }
}

/// A list's size depends only on its elements' sizes.
pub proof fn lemma_seq_size_pointwise<A, P>(s1: Seq<Node<A, P>>, s2: Seq<Node<A, P>>)
    requires
        s2.len() == s1.len(),
        forall|i: int| 0 <= i < s1.len() ==> node_size(#[trigger] s2[i]) == node_size(s1[i]),
    ensures
        seq_size(s2) == seq_size(s1),
    decreases s1.len(),
{
    if s1.len() > 0 {
        let t1 = s1.subrange(1, s1.len() as int);
        let t2 = s2.subrange(1, s2.len() as int);
        assert(forall|i: int| 0 <= i < t1.len() ==> #[trigger] t2[i] == s2[i + 1]);
        lemma_seq_size_pointwise(t1, t2);
    }
}

/// Nodes of the same shape have the same size.
pub proof fn lemma_same_shape_node_size<A, P>(a: Node<A, P>, b: Node<A, P>)
    requires
        same_shape(a, b),
    ensures
        node_size(b) == node_size(a),
    decreases a,
{
    lemma_same_shape_behavior_size(a.behavior, b.behavior);
}

pub proof fn lemma_same_shape_behavior_size<A, P>(a: Behavior<A, P>, b: Behavior<A, P>)
    requires
        same_behavior_shape(a, b),
    ensures
        behavior_size(b) == behavior_size(a),
    decreases a,
{
    match (a, b) {
        (Behavior::Cond(_, _, s1, f1), Behavior::Cond(_, _, s2, f2)) => {
            lemma_same_shape_node_size(*s1, *s2);
            lemma_same_shape_node_size(*f1, *f2);
        },
        (Behavior::Sequence(_, x1), Behavior::Sequence(_, x2)) => {
            assert forall|i: int| 0 <= i < x1@.len() implies node_size(#[trigger] x2@[i])
                == node_size(x1@[i]) by {
                lemma_same_shape_node_size(x1@[i], x2@[i]);
            };
            lemma_seq_size_pointwise(x1@, x2@);
        },
        (Behavior::Select(_, x1), Behavior::Select(_, x2)) => {
            assert forall|i: int| 0 <= i < x1@.len() implies node_size(#[trigger] x2@[i])
                == node_size(x1@[i]) by {
                lemma_same_shape_node_size(x1@[i], x2@[i]);
            };
            lemma_seq_size_pointwise(x1@, x2@);
        },
        (Behavior::While(_, c1), Behavior::While(_, c2)) => {
            lemma_same_shape_node_size(*c1, *c2);
        },
        _ => {},
    }
}

/// Shape agreement is reflexive.
pub proof fn lemma_same_shape_refl<A, P>(a: Node<A, P>)
    ensures
        same_shape(a, a),
    decreases a,
{
    lemma_same_behavior_shape_refl(a.behavior);
}

pub proof fn lemma_same_behavior_shape_refl<A, P>(a: Behavior<A, P>)
    ensures
        same_behavior_shape(a, a),
    decreases a,
{
    match a {
        Behavior::Cond(_, _, s1, f1) => {
            lemma_same_shape_refl(*s1);
            lemma_same_shape_refl(*f1);
        },
        Behavior::Sequence(_, x1) => {
            assert forall|i: int| 0 <= i < x1@.len() implies same_shape(
                x1@[i],
                #[trigger] x1@[i],
            ) by {
                lemma_same_shape_refl(x1@[i]);
            };
        },
        Behavior::Select(_, x1) => {
            assert forall|i: int| 0 <= i < x1@.len() implies same_shape(
                x1@[i],
                #[trigger] x1@[i],
            ) by {
                lemma_same_shape_refl(x1@[i]);
            };
        },
        Behavior::While(_, c1) => {
            lemma_same_shape_refl(*c1);
        },
        _ => {},
    }
}

/// Shape agreement is transitive.
pub proof fn lemma_same_shape_trans<A, P>(a: Node<A, P>, b: Node<A, P>, c: Node<A, P>)
    requires
        same_shape(a, b),
        same_shape(b, c),
    ensures
        same_shape(a, c),
    decreases a,
{
    lemma_same_behavior_shape_trans(a.behavior, b.behavior, c.behavior);
}

pub proof fn lemma_same_behavior_shape_trans<A, P>(
    a: Behavior<A, P>,
    b: Behavior<A, P>,
    c: Behavior<A, P>,
)
    requires
        same_behavior_shape(a, b),
        same_behavior_shape(b, c),
    ensures
        same_behavior_shape(a, c),
    decreases a,
{
    match (a, b, c) {
        (Behavior::Cond(_, _, s1, f1), Behavior::Cond(_, _, s2, f2), Behavior::Cond(_, _, s3, f3)) => {
            lemma_same_shape_trans(*s1, *s2, *s3);
            lemma_same_shape_trans(*f1, *f2, *f3);
        },
        (Behavior::Sequence(_, x1), Behavior::Sequence(_, x2), Behavior::Sequence(_, x3)) => {
            assert forall|i: int| 0 <= i < x1@.len() implies same_shape(
                x1@[i],
                #[trigger] x3@[i],
            ) by {
                lemma_same_shape_trans(x1@[i], x2@[i], x3@[i]);
            };
        },
        (Behavior::Select(_, x1), Behavior::Select(_, x2), Behavior::Select(_, x3)) => {
            assert forall|i: int| 0 <= i < x1@.len() implies same_shape(
                x1@[i],
                #[trigger] x3@[i],
            ) by {
                lemma_same_shape_trans(x1@[i], x2@[i], x3@[i]);
            };
        },
        (Behavior::While(_, c1), Behavior::While(_, c2), Behavior::While(_, c3)) => {
            lemma_same_shape_trans(*c1, *c2, *c3);
        },
        _ => {},
    }
}

/// A reset leaves the node in a fresh state of the same shape.
pub proof fn lemma_reset_fresh<A, P>(pre: Node<A, P>, post: Node<A, P>)
    requires
        reset_rel(pre, post),
    ensures
        is_fresh(post),
        same_shape(pre, post),
    decreases post,
{
    lemma_behavior_reset_fresh(pre.behavior, post.behavior);
}

pub proof fn lemma_behavior_reset_fresh<A, P>(pre: Behavior<A, P>, post: Behavior<A, P>)
    requires
        behavior_reset_rel(pre, post),
    ensures
        behavior_fresh(post),
        same_behavior_shape(pre, post),
    decreases post,
{
    match (pre, post) {
        (Behavior::Sequence(_, x1), Behavior::Sequence(_, x2)) => {
            assert forall|i: int| 0 <= i < x2@.len() implies is_fresh(#[trigger] x2@[i])
                && same_shape(x1@[i], x2@[i]) by {
                lemma_reset_fresh(x1@[i], x2@[i]);
            };
        },
        (Behavior::Select(_, x1), Behavior::Select(_, x2)) => {
            assert forall|i: int| 0 <= i < x2@.len() implies is_fresh(#[trigger] x2@[i])
                && same_shape(x1@[i], x2@[i]) by {
                lemma_reset_fresh(x1@[i], x2@[i]);
            };
        },
        (Behavior::While(_, c1), Behavior::While(_, c2)) => {
            lemma_reset_fresh(*c1, *c2);
        },
        (Behavior::Cond(_, _, s1, f1), Behavior::Cond(_, _, s2, f2)) => {
            lemma_same_shape_refl(*s2);
            lemma_same_shape_refl(*f2);
        },
        _ => {},
    }
}

/// Two resets in a row amount to one.
pub proof fn lemma_reset_reset<A, P>(a: Node<A, P>, b: Node<A, P>, c: Node<A, P>)
    requires
        reset_rel(a, b),
        reset_rel(b, c),
    ensures
        reset_rel(a, c),
    decreases c,
{
    lemma_behavior_reset_reset(a.behavior, b.behavior, c.behavior);
}

pub proof fn lemma_behavior_reset_reset<A, P>(
    a: Behavior<A, P>,
    b: Behavior<A, P>,
    c: Behavior<A, P>,
)
    requires
        behavior_reset_rel(a, b),
        behavior_reset_rel(b, c),
    ensures
        behavior_reset_rel(a, c),
    decreases c,
{
    match (a, b, c) {
        (Behavior::Sequence(_, x1), Behavior::Sequence(_, x2), Behavior::Sequence(_, x3)) => {
            assert forall|i: int| 0 <= i < x1@.len() implies reset_rel(
                x1@[i],
                #[trigger] x3@[i],
            ) by {
                lemma_reset_reset(x1@[i], x2@[i], x3@[i]);
            };
        },
        (Behavior::Select(_, x1), Behavior::Select(_, x2), Behavior::Select(_, x3)) => {
            assert forall|i: int| 0 <= i < x1@.len() implies reset_rel(
                x1@[i],
                #[trigger] x3@[i],
            ) by {
                lemma_reset_reset(x1@[i], x2@[i], x3@[i]);
            };
        },
        (Behavior::While(_, c1), Behavior::While(_, c2), Behavior::While(_, c3)) => {
            lemma_reset_reset(*c1, *c2, *c3);
        },
        _ => {},
    }
}

/// Resetting a node and then ticking the reset state is one tick of the
/// original node under the restart contract.
pub proof fn lemma_fuse_node<A, P>(
    a: Node<A, P>,
    m: Node<A, P>,
    b: Node<A, P>,
    flag: bool,
    delta: u64,
    r: Status,
)
    requires
        reset_rel(a, m),
        node_tick2_rel(flag, m, b, delta, r),
    ensures
        node_tick2_rel(true, a, b, delta, r),
    decreases b, 1int,
{
    lemma_fuse_behavior(
        a.behavior,
        m.behavior,
        b.behavior,
        flag || is_terminal(m.status),
        delta,
        r,
    );
}

pub proof fn lemma_fuse_behavior<A, P>(
    a: Behavior<A, P>,
    m: Behavior<A, P>,
    b: Behavior<A, P>,
    flag: bool,
    delta: u64,
    r: Status,
)
    requires
        behavior_reset_rel(a, m),
        behavior_tick2_rel(flag, m, b, delta, r),
    ensures
        behavior_tick2_rel(true, a, b, delta, r),
    decreases b, 0int,
{
    match (a, m, b) {
        (Behavior::Cond(_, _, s1, f1), Behavior::Cond(_, _, s2, f2), Behavior::Cond(_, _, s3, f3)) => {
        },
        (
            Behavior::Sequence(_, x1),
            Behavior::Sequence(_, x2),
            Behavior::Sequence(_, x3),
        ) => {
            assert forall|j: int| 0 <= j < x3@.len() implies child_evolves(
                x1@[j],
                #[trigger] x3@[j],
                delta,
            ) by {
                lemma_fuse_child(x1@[j], x2@[j], x3@[j], delta);
            };
        },
        (Behavior::Select(_, x1), Behavior::Select(_, x2), Behavior::Select(_, x3)) => {
            assert forall|j: int| 0 <= j < x3@.len() implies child_evolves(
                x1@[j],
                #[trigger] x3@[j],
                delta,
            ) by {
                lemma_fuse_child(x1@[j], x2@[j], x3@[j], delta);
            };
        },
        (Behavior::While(_, c1), Behavior::While(_, c2), Behavior::While(_, c3)) => {
            if r == Status::Failure && (if flag {
                reset_rel(*c2, *c3)
            } else {
                c3 == c2
            }) {
                if flag {
                    lemma_reset_reset(*c1, *c2, *c3);
                }
            } else {
                lemma_fuse_node(*c1, *c2, *c3, flag, delta, r);
            }
        },
        _ => {},
    }
}

/// One composite child, reset by its parent's restart and then evolved by
/// the parent's next tick, evolves from its original state too.
pub proof fn lemma_fuse_child<A, P>(a: Node<A, P>, m: Node<A, P>, b: Node<A, P>, delta: u64)
    requires
        reset_rel(a, m),
        child_evolves(m, b, delta),
    ensures
        child_evolves(a, b, delta),
    decreases b, 2int,
{
    if b == m {
        assert(reset_rel(a, b));
    } else if reset_rel(m, b) {
        lemma_reset_reset(a, m, b);
    } else if node_tick2_rel(false, m, b, delta, b.status) {
        lemma_fuse_node(a, m, b, false, delta, b.status);
    } else {
        lemma_fuse_node(a, m, b, true, delta, b.status);
    }
}

/// Bookkeeping facts of the advancement loop: the final cursor lies between
/// the starting one and the child count, children left of the start are
/// untouched, the composite completes exactly when the cursor reaches the
/// end, and a stopping child's stored status explains the result.
pub proof fn lemma_run_exact_prefix<A, P>(
    is_sequence: bool,
    s: Seq<Node<A, P>>,
    c: int,
    ys: Seq<Node<A, P>>,
    c_post: int,
    delta: u64,
    fresh_from: int,
    r: Status,
)
    requires
        run_exact(is_sequence, s, c, ys, c_post, delta, fresh_from, r),
    ensures
        ys.len() == s.len(),
        c <= c_post <= s.len(),
        forall|j: int| 0 <= j < c ==> ys[j] == s[j],
        (c_post == s.len() <==> r == positive_status(is_sequence)),
        c_post < s.len() ==> ((r == negative_status(is_sequence) && ys[c_post].status
            == negative_status(is_sequence)) || (r == Status::Running && ys[c_post].status
            != positive_status(is_sequence) && ys[c_post].status != negative_status(is_sequence))),
    decreases s.len() - c,
{
    if c == s.len() {
    } else {
        if ys[c].status == positive_status(is_sequence) {
            lemma_run_exact_prefix(
                is_sequence,
                s.update(c, ys[c]),
                c + 1,
                ys,
                c_post,
                delta,
                fresh_from,
                r,
            );
        }
    }
}

/// Extending the advancement loop by one positive child on the left: any
/// completion of the loop from the updated list and the next cursor is also
/// a completion from the original list and cursor.
pub proof fn lemma_run_exact_step<A, P>(
    is_sequence: bool,
    s: Seq<Node<A, P>>,
    c: int,
    child_post: Node<A, P>,
    delta: u64,
    fresh_from: int,
)
    requires
        0 <= c < s.len(),
        node_tick2_rel(c >= fresh_from, s[c], child_post, delta, child_post.status),
        child_post.status == positive_status(is_sequence),
    ensures
        forall|ys: Seq<Node<A, P>>, c_post: int, r: Status|
            run_exact(
                is_sequence,
                s.update(c, child_post),
                c + 1,
                ys,
                c_post,
                delta,
                fresh_from,
                r,
            ) ==> run_exact(is_sequence, s, c, ys, c_post, delta, fresh_from, r),
{
    let s2 = s.update(c, child_post);
    assert forall|ys: Seq<Node<A, P>>, c_post: int, r: Status|
        run_exact(is_sequence, s2, c + 1, ys, c_post, delta, fresh_from, r) implies run_exact(
        is_sequence,
        s,
        c,
        ys,
        c_post,
        delta,
        fresh_from,
        r,
    ) by {
        lemma_run_exact_prefix(is_sequence, s2, c + 1, ys, c_post, delta, fresh_from, r);
        assert(ys[c] == child_post);
        assert(s.update(c, ys[c]) =~= s2);
    };
}

/// Every child a run touches evolves per [`child_evolves`].
pub proof fn lemma_run_exact_evolves<A, P>(
    is_sequence: bool,
    s: Seq<Node<A, P>>,
    c: int,
    ys: Seq<Node<A, P>>,
    c_post: int,
    delta: u64,
    fresh_from: int,
    r: Status,
)
    requires
        run_exact(is_sequence, s, c, ys, c_post, delta, fresh_from, r),
    ensures
        forall|j: int| c <= j < s.len() ==> child_evolves(s[j], #[trigger] ys[j], delta),
    decreases s.len() - c,
{
    if c == s.len() {
    } else if ys[c].status == positive_status(is_sequence) {
        lemma_run_exact_evolves(
            is_sequence,
            s.update(c, ys[c]),
            c + 1,
            ys,
            c_post,
            delta,
            fresh_from,
            r,
        );
        assert forall|j: int| c <= j < s.len() implies child_evolves(
            s[j],
            #[trigger] ys[j],
            delta,
        ) by {
            if j == c {
                assert(node_tick2_rel(c >= fresh_from, s[c], ys[c], delta, ys[c].status));
            } else {
                assert(s.update(c, ys[c])[j] == s[j]);
            }
        };
    } else {
        assert forall|j: int| c <= j < s.len() implies child_evolves(
            s[j],
            #[trigger] ys[j],
            delta,
        ) by {
            if j == c {
                assert(node_tick2_rel(c >= fresh_from, s[c], ys[c], delta, ys[c].status));
            } else if j >= fresh_from {
                assert(reset_rel(s[j], ys[j]));
            } else {
                assert(ys[j] == s[j]);
            }
        };
    }
}

/// A run whose children were all freshly reset is a forced run of the
/// original children.
pub proof fn lemma_fuse_run<A, P>(
    is_sequence: bool,
    s_a: Seq<Node<A, P>>,
    s_m: Seq<Node<A, P>>,
    c: int,
    ys: Seq<Node<A, P>>,
    c_post: int,
    delta: u64,
    r: Status,
)
    requires
        s_m.len() == s_a.len(),
        forall|j: int| 0 <= j < c ==> s_m[j] == #[trigger] s_a[j],
        forall|j: int| c <= j < s_a.len() ==> reset_rel(s_a[j], #[trigger] s_m[j]),
        run_exact(is_sequence, s_m, c, ys, c_post, delta, s_m.len() as int + 1, r),
    ensures
        run_exact(is_sequence, s_a, c, ys, c_post, delta, 0, r),
    decreases s_a.len() - c,
{
    if c == s_m.len() {
        assert(ys =~= s_a);
    } else if ys[c].status == positive_status(is_sequence) {
        lemma_fuse_node(s_a[c], s_m[c], ys[c], false, delta, ys[c].status);
        lemma_fuse_run(
            is_sequence,
            s_a.update(c, ys[c]),
            s_m.update(c, ys[c]),
            c + 1,
            ys,
            c_post,
            delta,
            r,
        );
        assert(s_m.update(c, ys[c]).len() as int + 1 == s_m.len() as int + 1);
    } else {
        lemma_fuse_node(s_a[c], s_m[c], ys[c], false, delta, ys[c].status);
        assert forall|j: int| c < j < s_a.len() implies reset_rel(s_a[j], #[trigger] ys[j]) by {
            assert(ys[j] == s_m[j]);
        };
    }
}

/// Resetting a behavior and then ticking the reset state, seen through the
/// context-aware layer, is one forced tick of the original behavior.
pub proof fn lemma_fuse_exact<T, A, P: Predicate<T>>(
    a: Behavior<A, P>,
    m: Behavior<A, P>,
    b: Behavior<A, P>,
    delta: u64,
    x0: T,
    r: Status,
)
    requires
        behavior_wf(a),
        behavior_reset_rel(a, m),
        crate::model::behavior_tick_exact(false, m, b, delta, x0, r),
    ensures
        crate::model::behavior_tick_exact(true, a, b, delta, x0, r),
    decreases b, 1int,
{
    match (a, m, b) {
        (
            Behavior::Sequence(ca, xa),
            Behavior::Sequence(cm, xm),
            Behavior::Sequence(cb, xb),
        ) => {
            lemma_fuse_exact_composite(
                true,
                ca as int,
                xa@,
                cm as int,
                xm@,
                cb as int,
                xb@,
                delta,
                x0,
                r,
            );
        },
        (Behavior::Select(ca, xa), Behavior::Select(cm, xm), Behavior::Select(cb, xb)) => {
            lemma_fuse_exact_composite(
                false,
                ca as int,
                xa@,
                cm as int,
                xm@,
                cb as int,
                xb@,
                delta,
                x0,
                r,
            );
        },
        (Behavior::While(_, c1), Behavior::While(pm, c2), Behavior::While(_, c3)) => {
            if pm.holds(&x0) {
                lemma_fuse_node(*c1, *c2, *c3, false, delta, r);
            } else {
                assert(reset_rel(*c1, *c3));
            }
        },
        _ => {},
    }
}

/// The composite case of [`lemma_fuse_exact`]: a freshly reset composite
/// runs from cursor zero over freshly reset children, and its first ticked
/// child is the reset of the original first child.
pub proof fn lemma_fuse_exact_composite<T, A, P: Predicate<T>>(
    is_sequence: bool,
    ca: int,
    xa: Seq<Node<A, P>>,
    cm: int,
    xm: Seq<Node<A, P>>,
    cb: int,
    xb: Seq<Node<A, P>>,
    delta: u64,
    x0: T,
    r: Status,
)
    requires
        0 <= ca <= xa.len(),
        forall|j: int| 0 <= j < xa.len() ==> node_wf(#[trigger] xa[j]),
        cm == 0,
        xm.len() == xa.len(),
        forall|j: int| 0 <= j < xa.len() ==> reset_rel(xa[j], #[trigger] xm[j]),
        crate::model::composite_exact(is_sequence, false, cm, xm, cb, xb, delta, x0, r),
    ensures
        crate::model::composite_exact(is_sequence, true, ca, xa, cb, xb, delta, x0, r),
    decreases xb, 3int,
{
    assert(first_interrupt_from(is_sequence, xm, 0, 0, x0) == 0);
    assert(first_interrupt_from(is_sequence, xa, 0, 0, x0) == 0);
    assert(run_exact(is_sequence, xm, 0, xb, cb, delta, xm.len() as int + 1, r));
    lemma_fuse_run(is_sequence, xa, xm, 0, xb, cb, delta, r);
    if 0 < xb.len() {
        // Both runs start at child zero; fold the reset of the original
        // first child into one forced exact tick.
        assert(!is_terminal(xm[0].status));
        assert(crate::model::behavior_tick_exact(
            false,
            xm[0].behavior,
            xb[0].behavior,
            delta,
            x0,
            xb[0].status,
        ));
        lemma_fuse_exact(xa[0].behavior, xm[0].behavior, xb[0].behavior, delta, x0, xb[0].status);
    }
}

/// Resetting a behavior and then ticking the reset state writes the same
/// diagnostic trace as one forced tick of the original behavior.
pub proof fn lemma_fuse_trace_ok<T, A, P: Predicate<T>>(
    a: Behavior<A, P>,
    m: Behavior<A, P>,
    b: Behavior<A, P>,
    x0: T,
    r: Status,
    repr: crate::repr::DebugRepr,
)
    requires
        behavior_reset_rel(a, m),
        crate::model::trace_ok(false, m, b, x0, r, repr),
    ensures
        crate::model::trace_ok(true, a, b, x0, r, repr),
{
    match (a, m, b) {
        (Behavior::Sequence(_, xa), Behavior::Sequence(_, xm), Behavior::Sequence(_, _)) => {
            assert(first_interrupt_from(true, xm@, 0, 0, x0) == 0);
            assert(first_interrupt_from(true, xa@, 0, 0, x0) == 0);
        },
        (Behavior::Select(_, xa), Behavior::Select(_, xm), Behavior::Select(_, _)) => {
            assert(first_interrupt_from(false, xm@, 0, 0, x0) == 0);
            assert(first_interrupt_from(false, xa@, 0, 0, x0) == 0);
        },
        _ => {},
    }
}

/// Characterize the first-interrupt scan: if nothing before `k` interrupts
/// and `k` either interrupts or is the end of the scanned range, the scan
/// returns `k`.
pub proof fn lemma_first_interrupt_char<T, A, P: Predicate<T>>(
    is_sequence: bool,
    xs: Seq<Node<A, P>>,
    from: int,
    upto: int,
    x0: T,
    k: int,
)
    requires
        0 <= from <= k <= upto <= xs.len(),
        forall|j: int| from <= j < k ==> !interrupts(#[trigger] xs[j], x0, is_sequence),
        k < upto ==> interrupts(xs[k], x0, is_sequence),
    ensures
        first_interrupt_from(is_sequence, xs, from, upto, x0) == k,
    decreases k - from,
{
    if from < k {
        lemma_first_interrupt_char(is_sequence, xs, from + 1, upto, x0, k);
    } else {
        if k == upto && from == upto {
        }
    }
}

/// A composite's first ticked child still sees the composite's entry
/// context; folding the defensive re-arm (an explicit reset of a finished
/// child) into the restart contract, the child's context-decided branching
/// is one exact tick from its state at the start of the parent's call.
pub proof fn lemma_first_child_exact<T, A, P: Predicate<T>>(
    pre: Node<A, P>,
    mid: Node<A, P>,
    post: Node<A, P>,
    was_terminal: bool,
    delta: u64,
    x0: T,
    r: Status,
)
    requires
        behavior_wf(pre.behavior),
        if was_terminal {
            is_terminal(pre.status) && reset_rel(pre, mid)
        } else {
            mid == pre
        },
        crate::model::behavior_tick_exact(
            is_terminal(mid.status),
            mid.behavior,
            post.behavior,
            delta,
            x0,
            r,
        ),
    ensures
        crate::model::behavior_tick_exact(
            is_terminal(pre.status),
            pre.behavior,
            post.behavior,
            delta,
            x0,
            r,
        ),
{
    if was_terminal {
        lemma_fuse_exact(pre.behavior, mid.behavior, post.behavior, delta, x0, r);
    }
}

/// Assemble a whole composite tick from the pieces the advancement loop
/// establishes: the exact contract, the context-free contract, and the
/// cursor bounds.
pub proof fn lemma_sequence_finish<T, A, P: Predicate<T>>(
    is_sequence: bool,
    c0: int,
    s0: Seq<Node<A, P>>,
    x0: T,
    cstart: int,
    fresh_from: int,
    ys: Seq<Node<A, P>>,
    c_post: int,
    delta: u64,
    r: Status,
)
    requires
        0 <= c0 <= s0.len(),
        s0.len() >= 1,
        cstart == crate::model::composite_cursor_start(is_sequence, false, c0, s0, x0),
        fresh_from == crate::model::composite_fresh_from(is_sequence, false, c0, s0, x0),
        forall|j: int| 0 <= j < cstart ==> ys[j] == #[trigger] s0[j],
        run_exact(is_sequence, s0, cstart, ys, c_post, delta, fresh_from, r),
        0 <= cstart < ys.len() ==> crate::model::first_child_exact(
            cstart >= fresh_from || is_terminal(s0[cstart].status),
            s0[cstart],
            ys[cstart],
            delta,
            x0,
        ),
    ensures
        crate::model::composite_exact(is_sequence, false, c0, s0, c_post, ys, delta, x0, r),
        crate::model::composite_loose(is_sequence, s0, c_post, ys, delta, r),
        cstart <= c_post <= s0.len(),
{
    reveal(crate::model::first_child_exact);
    lemma_run_exact_prefix(is_sequence, s0, cstart, ys, c_post, delta, fresh_from, r);
    lemma_run_exact_evolves(is_sequence, s0, cstart, ys, c_post, delta, fresh_from, r);
    assert forall|j: int| 0 <= j < s0.len() implies child_evolves(
        s0[j],
        #[trigger] ys[j],
        delta,
    ) by {
        if j < cstart {
            assert(ys[j] == s0[j]);
        }
    };
}

} // verus!
