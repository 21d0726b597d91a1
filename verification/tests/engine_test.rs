use behavior_tree::AlwaysRunning;
use behavior_tree::Behavior;
use behavior_tree::BehaviorTree;
use behavior_tree::ConstAction;
use behavior_tree::Counter;
use behavior_tree::Cursor;
use behavior_tree::Node;
use behavior_tree::Status;
use behavior_tree::TruePredicate;
use behavior_tree::YesTick;

#[test]
fn test_status_default_is_initialized() {
    let s: Status = Default::default();
    assert_eq!(s, Status::Initialized);
}

#[test]
fn test_wait_zero_succeeds_immediately() {
    let mut tree: Node<YesTick, TruePredicate> = Node::wait(0);
    let (status, _) = tree.tick(0, &mut ());
    assert_eq!(status, Status::Success);
}

#[test]
fn test_wait_overshoot_is_discarded() {
    // A single oversized tick completes the timer and pins it at zero; the
    // next cycle starts from the full bound again.
    let mut tree: Node<YesTick, TruePredicate> = Node::wait(500);
    let (status, _) = tree.tick(1500, &mut ());
    assert_eq!(status, Status::Success);
    match tree.behavior {
        Behavior::Wait { curr, max } => {
            assert_eq!(curr, 0);
            assert_eq!(max, 500);
        }
        _ => panic!("expected a wait timer"),
    }
    let (status, _) = tree.tick(100, &mut ());
    assert_eq!(status, Status::Running);
    match tree.behavior {
        Behavior::Wait { curr, max: _ } => assert_eq!(curr, 400),
        _ => panic!("expected a wait timer"),
    }
}

#[test]
fn test_random_wait_rolls_below_bound() {
    // The rolled duration must come from [0, bound): a roll that handed the
    // bound back unchanged would fail this.
    for _ in 0..32 {
        let tree: Node<YesTick, TruePredicate> = Node::random_wait(5);
        match tree.behavior {
            Behavior::RandomWait { curr, curr_max, max } => {
                assert_eq!(max, 5);
                assert_eq!(curr, curr_max);
                assert!(curr_max < 5);
            }
            _ => panic!("expected a random wait timer"),
        }
    }
    let tree: Node<YesTick, TruePredicate> = Node::random_wait(0);
    match tree.behavior {
        Behavior::RandomWait { curr, curr_max, max } => {
            assert_eq!(max, 0);
            assert_eq!(curr, 0);
            assert_eq!(curr_max, 0);
        }
        _ => panic!("expected a random wait timer"),
    }
}

#[test]
fn test_sequence_trace_params() {
    // Two successes then a running child leave the "+/-/." summary "++.".
    let mut bt: Node<ConstAction, TruePredicate> = Node::sequence(vec![
        Node::stateful_action("a", ConstAction::new(Status::Success)),
        Node::stateful_action("b", ConstAction::new(Status::Success)),
        Node::stateful_action("c", ConstAction::new(Status::Running)),
    ]);
    let (status, debug) = bt.tick(1, &mut ());
    assert_eq!(status, Status::Running);
    assert_eq!(debug.params, Some("++.".to_string()));
    assert_eq!(debug.cursor.index(), 2);
    assert_eq!(debug.status, Status::Running);

    let mut bt: Node<ConstAction, TruePredicate> = Node::sequence(vec![
        Node::stateful_action("a", ConstAction::new(Status::Success)),
        Node::stateful_action("b", ConstAction::new(Status::Failure)),
    ]);
    let (status, debug) = bt.tick(1, &mut ());
    assert_eq!(status, Status::Failure);
    assert_eq!(debug.params, Some("+-".to_string()));
    assert_eq!(debug.cursor.index(), 1);
}

#[test]
fn test_wait_largest_bound() {
    let mut tree: Node<YesTick, TruePredicate> = Node::wait(u64::MAX);
    let (status, _) = tree.tick(u64::MAX - 1, &mut ());
    assert_eq!(status, Status::Running);
    let (status, _) = tree.tick(u64::MAX, &mut ());
    assert_eq!(status, Status::Success);
}

#[test]
fn test_cursor_leaf_index_is_zero() {
    assert_eq!(Cursor::Leaf.index(), 0);
}

#[test]
fn test_counter_leaf_counts_and_resets() {
    let mut bt: Node<Counter, TruePredicate> = Counter::action(true);
    let (status, _) = bt.tick(1, &mut ());
    assert_eq!(status, Status::Success);
    match &bt.behavior {
        Behavior::StatefulAction(_, c) => assert_eq!(c.value, 1),
        _ => panic!("expected a stateful leaf"),
    }
    // Terminal status: the next tick restarts the leaf first, and a
    // resettable counter goes back to zero before counting this tick.
    let (status, _) = bt.tick(1, &mut ());
    assert_eq!(status, Status::Success);
    match &bt.behavior {
        Behavior::StatefulAction(_, c) => assert_eq!(c.value, 1),
        _ => panic!("expected a stateful leaf"),
    }

    let mut keep: Node<Counter, TruePredicate> = Counter::action(false);
    keep.tick(1, &mut ());
    keep.tick(1, &mut ());
    match &keep.behavior {
        Behavior::StatefulAction(_, c) => assert_eq!(c.value, 2),
        _ => panic!("expected a stateful leaf"),
    }
}

#[test]
fn test_always_running_never_finishes() {
    let mut bt: Node<AlwaysRunning, TruePredicate> = AlwaysRunning::action();
    for _ in 0..3 {
        let (status, _) = bt.tick(1, &mut ());
        assert_eq!(status, Status::Running);
    }
}

#[test]
fn test_yes_tick_records_tick() {
    let mut bt: Node<YesTick, TruePredicate> = YesTick::action();
    bt.tick(0, &mut ());
    match &bt.behavior {
        Behavior::StatefulAction(_, y) => assert!(y.ticked),
        _ => panic!("expected a stateful leaf"),
    }
}

#[test]
fn test_node_names() {
    let wait: Node<YesTick, TruePredicate> = Node::wait(5);
    assert_eq!(wait.name(), "Wait 5/5".to_string());

    let mut ticking: Node<YesTick, TruePredicate> = Node::wait(500);
    ticking.tick(120, &mut ());
    assert_eq!(ticking.name(), "Wait 380/500".to_string());

    let rolled: Node<YesTick, TruePredicate> = Node::new_named(
        "rw".to_string(),
        Behavior::RandomWait { curr: 3, curr_max: 7, max: 9 },
    );
    assert_eq!(rolled.name(), "RandomWait 3/7 (9)".to_string());

    let action: Node<YesTick, TruePredicate> = Node::action("go", YesTick { ticked: false });
    assert_eq!(action.name(), "Action go".to_string());

    let collapsed = action.collapse("shortcut");
    assert_eq!(collapsed.name(), "shortcut".to_string());

    let looped: Node<YesTick, TruePredicate> =
        Node::named_while_single("guard", TruePredicate, Node::wait(1));
    assert_eq!(looped.name(), "While guard".to_string());
}

#[test]
fn test_children_listing() {
    let seq: Node<YesTick, TruePredicate> =
        Node::sequence(vec![Node::wait(1), Node::wait(2), Node::wait(3)]);
    assert_eq!(seq.children().len(), 3);

    let cond: Node<YesTick, TruePredicate> =
        Node::cond("c", TruePredicate, Node::wait(1), Node::wait(2));
    assert_eq!(cond.children().len(), 2);

    let wait: Node<YesTick, TruePredicate> = Node::wait(1);
    assert_eq!(wait.children().len(), 0);
}

#[test]
fn test_tree_snapshot() {
    let root: Node<YesTick, TruePredicate> = Node::named_sequence(
        "all",
        vec![
            Node::wait(1),
            Node::action("go", YesTick { ticked: false }),
            Node::named_while_single("guard", TruePredicate, Node::wait(2)),
        ],
    );
    let tree = BehaviorTree::new(root);
    assert_eq!(tree.debug.name, "Sequence".to_string());
    assert_eq!(tree.debug.children.len(), 3);
    assert_eq!(tree.debug.children[0].name, "Wait".to_string());
    assert_eq!(
        tree.debug.children[0].detail,
        Some("curr=1, max=1".to_string())
    );
    assert_eq!(tree.debug.children[1].name, "Action".to_string());
    assert_eq!(tree.debug.children[1].detail, Some("go".to_string()));
    assert_eq!(tree.debug.children[2].name, "While".to_string());
    assert_eq!(tree.debug.children[2].children.len(), 1);
}

#[test]
fn test_selector_is_dual_of_sequence() {
    // The same outcome trace, with Success and Failure swapped, drives a
    // selector to the dual verdict at the same cursor.
    let mut seq: Node<ConstAction, TruePredicate> = Node::sequence(vec![
        Node::stateful_action("a", ConstAction::new(Status::Success)),
        Node::stateful_action("b", ConstAction::new(Status::Failure)),
        Node::stateful_action("c", ConstAction::new(Status::Success)),
    ]);
    let mut sel: Node<ConstAction, TruePredicate> = Node::select(vec![
        Node::stateful_action("a", ConstAction::new(Status::Failure)),
        Node::stateful_action("b", ConstAction::new(Status::Success)),
        Node::stateful_action("c", ConstAction::new(Status::Failure)),
    ]);
    let (seq_status, seq_debug) = seq.tick(1, &mut ());
    let (sel_status, sel_debug) = sel.tick(1, &mut ());
    assert_eq!(seq_status, Status::Failure);
    assert_eq!(sel_status, Status::Success);
    assert_eq!(seq_debug.cursor.index(), sel_debug.cursor.index());
    assert_eq!(seq_debug.cursor.index(), 1);
}
