use std::cell::RefCell;
use std::rc::Rc;

use behavior_tree::Behavior;
use behavior_tree::Node;
use behavior_tree::StatefulAction;
use behavior_tree::Status;
use behavior_tree::TruePredicate;

/// Leaves for selector tests: constant outcomes, a yes-leaf that records
/// being ticked, a no-leaf that panics when ticked, an always-running leaf,
/// a leaf reading a shared status cell, and a shared counter.
enum Leaf {
    Fail,
    Succeed,
    Yes(bool),
    No,
    Run,
    Shared(Rc<RefCell<Status>>),
    Count(Rc<RefCell<i32>>),
}

impl StatefulAction<()> for Leaf {
    fn tick(&mut self, _data: &mut ()) -> Status {
        match self {
            Leaf::Fail => Status::Failure,
            Leaf::Succeed => Status::Success,
            Leaf::Yes(ticked) => {
                *ticked = true;
                Status::Success
            }
            Leaf::No => panic!("no-tick leaf should never be ticked"),
            Leaf::Run => Status::Running,
            Leaf::Shared(status) => *status.borrow(),
            Leaf::Count(value) => {
                *value.borrow_mut() += 1;
                Status::Success
            }
        }
    }

    fn reset(&mut self) {}
}

fn leaf(name: &str, leaf: Leaf) -> Node<Leaf, TruePredicate> {
    Node::stateful_action(name, leaf)
}

#[test]
fn test_simple_select() {
    let mut bt: Node<Leaf, TruePredicate> = Node::select(vec![
        leaf("fail", Leaf::Fail),
        leaf("fail", Leaf::Fail),
        leaf("yes", Leaf::Yes(false)),
        leaf("no", Leaf::No),
        leaf("no", Leaf::No),
    ]);

    let (res, _) = bt.tick(1, &mut ());
    assert_eq!(res, Status::Success);

    assert_eq!(bt.status, Status::Success);
    if let Behavior::Select(_, ref nodes) = bt.behavior {
        assert_eq!(nodes[0].status, Status::Failure);
        assert_eq!(nodes[1].status, Status::Failure);
        assert_eq!(nodes[2].status, Status::Success);
        assert_eq!(nodes[3].status, Status::Initialized);
        assert_eq!(nodes[4].status, Status::Initialized);
    } else {
        panic!("Expected sequence")
    }

    bt.reset::<()>();
    assert_eq!(bt.status, Status::Initialized);

    if let Behavior::Select(_, ref nodes) = bt.behavior {
        for node in nodes.iter() {
            assert_eq!(node.status, Status::Initialized);
        }
    } else {
        panic!("Expected sequence")
    }
}

#[test]
fn test_simple_select_inv() {
    let mut bt: Node<Leaf, TruePredicate> = Node::select(vec![
        leaf("success", Leaf::Succeed),
        leaf("no", Leaf::No),
        leaf("no", Leaf::No),
        leaf("no", Leaf::No),
        leaf("no", Leaf::No),
    ]);

    let (res, _) = bt.tick(1, &mut ());
    assert_eq!(res, Status::Success);
}

#[test]
fn test_simple_select_running() {
    let mut bt: Node<Leaf, TruePredicate> = Node::select(vec![
        leaf("fail", Leaf::Fail),
        leaf("fail", Leaf::Fail),
        leaf("fail", Leaf::Fail),
        leaf("running", Leaf::Run),
        leaf("no", Leaf::No),
        leaf("no", Leaf::No),
        leaf("no", Leaf::No),
        leaf("no", Leaf::No),
    ]);

    let (res, _) = bt.tick(1, &mut ());
    assert_eq!(res, Status::Running);
}

#[test]
fn test_simple_select_fail() {
    let mut bt: Node<Leaf, TruePredicate> = Node::select(vec![
        leaf("fail", Leaf::Fail),
        leaf("fail", Leaf::Fail),
        leaf("fail", Leaf::Fail),
        leaf("fail", Leaf::Fail),
        leaf("fail", Leaf::Fail),
    ]);

    let (res, _) = bt.tick(1, &mut ());
    assert_eq!(res, Status::Failure);
}

#[test]
fn test_condition_recheck() {
    let const_status = Rc::new(RefCell::new(Status::Failure));

    let mut bt: Node<Leaf, TruePredicate> = Node::select(vec![
        leaf("const", Leaf::Shared(const_status.clone())),
        leaf("counter", Leaf::Count(Rc::new(RefCell::new(0)))),
        leaf("running", Leaf::Run),
    ]);

    let (status, _) = bt.tick(1, &mut ());
    assert_eq!(status, Status::Success);

    *const_status.borrow_mut() = Status::Success;

    let (status, _) = bt.tick(1, &mut ());
    assert_eq!(status, Status::Success);

    *const_status.borrow_mut() = Status::Running;

    let (status, _) = bt.tick(1, &mut ());
    assert_eq!(status, Status::Running);
}
