use behavior_tree::Behavior;
use behavior_tree::Node;
use behavior_tree::StatefulAction;
use behavior_tree::Status;
use behavior_tree::TruePredicate;

pub struct Counter {
    pub value: i32,
}

enum Leaf {
    Succeed,
    Fail,
    Yes(bool),
    No,
    Run,
}

impl<T> StatefulAction<T> for Leaf {
    fn tick(&mut self, _data: &mut T) -> Status {
        match self {
            Leaf::Succeed => Status::Success,
            Leaf::Fail => Status::Failure,
            Leaf::Yes(ticked) => {
                *ticked = true;
                Status::Success
            }
            Leaf::No => panic!("no-tick leaf should never be ticked"),
            Leaf::Run => Status::Running,
        }
    }

    fn reset(&mut self) {}
}

fn leaf(name: &str, leaf: Leaf) -> Node<Leaf, TruePredicate> {
    Node::stateful_action(name, leaf)
}

#[test]
fn sequence_test_test_simple_sequence() {
    let mut bt: Node<Leaf, TruePredicate> = Node::sequence(vec![
        leaf("success", Leaf::Succeed),
        leaf("yes", Leaf::Yes(false)),
        leaf("success", Leaf::Succeed),
        leaf("success", Leaf::Succeed),
        leaf("yes", Leaf::Yes(false)),
    ]);

    assert_eq!(bt.status, Status::Initialized);

    let (res, debug_repr) = bt.tick(1, &mut ());
    assert_eq!(res, Status::Success);
    assert_eq!(debug_repr.cursor.index(), 5);

    assert_eq!(bt.status, Status::Success);
    if let Behavior::Sequence(_, ref nodes) = bt.behavior {
        for node in nodes.iter() {
            assert_eq!(node.status, Status::Success);
        }
    } else {
        panic!("Expected sequence")
    }

    bt.reset::<()>();
    assert_eq!(bt.status, Status::Initialized);

    if let Behavior::Sequence(_, ref nodes) = bt.behavior {
        for node in nodes.iter() {
            assert_eq!(node.status, Status::Initialized);
        }
    } else {
        panic!("Expected sequence")
    }
}

#[test]
fn test_simple_sequence_inv() {
    let mut bt: Node<Leaf, TruePredicate> = Node::sequence(vec![
        leaf("failure", Leaf::Fail),
        leaf("no", Leaf::No),
        leaf("no", Leaf::No),
        leaf("no", Leaf::No),
        leaf("no", Leaf::No),
    ]);

    assert_eq!(bt.status, Status::Initialized);

    let (res, debug_repr) = bt.tick(1, &mut ());
    assert_eq!(res, Status::Failure);
    assert_eq!(debug_repr.cursor.index(), 0);

    assert_eq!(bt.status, Status::Failure);
}

// Sequence
// S S R ....... -> R
// S S S S F ... -> F
// S S S S S S S -> S

// Select
// F F R ....... -> R
// F F F F S ... -> S
// F F F F F F F -> F

#[test]
fn test_simple_running() {
    let mut bt: Node<Leaf, TruePredicate> = Node::sequence(vec![
        leaf("success", Leaf::Succeed),
        leaf("yes", Leaf::Yes(false)),
        leaf("running", Leaf::Run),
        leaf("no", Leaf::No),
    ]);

    // Check that sequence doesn't step over running tasks
    for _ in 0..10 {
        let (res, debug_repr) = bt.tick(1, &mut ());
        assert_eq!(res, Status::Running);
        assert_eq!(debug_repr.cursor.index(), 2);
    }
}

struct IncPingpong;

impl StatefulAction<Counter> for IncPingpong {
    fn tick(&mut self, data: &mut Counter) -> Status {
        if data.value % 2 == 0 {
            data.value += 1;
            Status::Running
        } else {
            data.value += 1;
            Status::Success
        }
    }

    fn reset(&mut self) {}
}

#[test]
fn test_simple_sequence_pingpong() {
    let mut bt: Node<IncPingpong, TruePredicate> =
        Node::sequence(vec![Node::action("inc_pingpong", IncPingpong)]);

    let mut data = Counter { value: 0 };

    let (status, debug_repr) = bt.tick(0, &mut data);
    assert_eq!(status, Status::Running);
    assert_eq!(data.value, 1);
    assert_eq!(debug_repr.cursor.index(), 0);

    let (status, debug_repr) = bt.tick(0, &mut data);
    assert_eq!(status, Status::Success);
    assert_eq!(data.value, 2);
    assert_eq!(debug_repr.cursor.index(), 1);

    let (status, debug_repr) = bt.tick(0, &mut data);
    assert_eq!(status, Status::Running);
    assert_eq!(data.value, 3);
    assert_eq!(debug_repr.cursor.index(), 0);
}

struct DoubleCounter {
    x: i32,
    y: i32,
}

enum IncLeaf {
    X,
    Y,
}

impl StatefulAction<DoubleCounter> for IncLeaf {
    fn tick(&mut self, data: &mut DoubleCounter) -> Status {
        match self {
            IncLeaf::X => {
                if data.x % 2 == 0 {
                    data.x += 1;
                    Status::Running
                } else {
                    data.x += 1;
                    Status::Success
                }
            }
            IncLeaf::Y => {
                if data.y % 2 == 0 {
                    data.y += 1;
                    Status::Running
                } else {
                    data.y += 1;
                    Status::Success
                }
            }
        }
    }

    fn reset(&mut self) {}
}

#[test]
fn sequence_test_test_nested_sequence() {
    let mut bt: Node<IncLeaf, TruePredicate> = Node::sequence(vec![
        Node::action("inc_once_1", IncLeaf::X),
        Node::action("inc_once_2", IncLeaf::Y),
    ]);

    let mut data = DoubleCounter { x: 0, y: 0 };

    let (status, debug_repr) = bt.tick(0, &mut data);
    assert_eq!(status, Status::Running);
    assert_eq!(data.x, 1);
    assert_eq!(data.y, 0);
    assert_eq!(debug_repr.cursor.index(), 0);

    let (status, debug_repr) = bt.tick(0, &mut data);
    assert_eq!(status, Status::Running);
    assert_eq!(data.x, 2);
    assert_eq!(data.y, 1);
    assert_eq!(debug_repr.cursor.index(), 1);

    let (status, debug_repr) = bt.tick(0, &mut data);
    assert_eq!(data.x, 2);
    assert_eq!(data.y, 2);
    assert_eq!(status, Status::Success);
    assert_eq!(debug_repr.cursor.index(), 2);

    let (status, debug_repr) = bt.tick(0, &mut data);
    assert_eq!(data.x, 3);
    assert_eq!(data.y, 2);
    assert_eq!(status, Status::Running);
    assert_eq!(debug_repr.cursor.index(), 0);

    let (status, debug_repr) = bt.tick(0, &mut data);
    assert_eq!(data.x, 4);
    assert_eq!(data.y, 3);
    assert_eq!(status, Status::Running);
    assert_eq!(debug_repr.cursor.index(), 1);

    let (status, debug_repr) = bt.tick(0, &mut data);
    assert_eq!(data.x, 4);
    assert_eq!(data.y, 4);
    assert_eq!(status, Status::Success);
    assert_eq!(debug_repr.cursor.index(), 2);
}
