use std::cell::RefCell;
use std::rc::Rc;

use behavior_tree::Behavior;
use behavior_tree::Node;
use behavior_tree::StatefulAction;
use behavior_tree::Status;
use behavior_tree::TruePredicate;

pub struct Counter {
    pub value: i32,
}

struct IncOnce;

impl StatefulAction<Counter> for IncOnce {
    fn tick(&mut self, data: &mut Counter) -> Status {
        if data.value % 2 == 0 {
            data.value += 1;
            Status::Running
        } else {
            data.value += 1;
            Status::Success
        }
    }

    fn reset(&mut self) {}
}

#[test]
fn sequence_test_simple_sequence() {
    let mut bt: Behavior<IncOnce, TruePredicate> =
        Behavior::Sequence(0, vec![Node::action("inc_once", IncOnce)]);

    // S
    // |
    // A

    let mut data = Counter { value: 0 };

    let (status, debug_repr) = bt.tick(0, &mut data);
    assert_eq!(status, Status::Running);
    assert_eq!(data.value, 1);
    assert_eq!(debug_repr.cursor.index(), 0);

    let (status, debug_repr) = bt.tick(0, &mut data);
    assert_eq!(status, Status::Success);
    assert_eq!(data.value, 2);
    assert_eq!(debug_repr.cursor.index(), 1);
}

struct CounterWrap {
    value: Rc<RefCell<i32>>,
}

impl StatefulAction<()> for CounterWrap {
    fn tick(&mut self, _data: &mut ()) -> Status {
        let mut value = self.value.borrow_mut();

        if *value == 0 {
            *value += 1;
            Status::Running
        } else {
            Status::Success
        }
    }

    fn reset(&mut self) {}
}

#[test]
fn sequence_test_stateful_action() {
    let v1 = Rc::new(RefCell::new(0));
    let v2 = Rc::new(RefCell::new(0));

    let c1 = CounterWrap { value: v1.clone() };
    let c2 = CounterWrap { value: v2.clone() };

    let mut bt: Behavior<CounterWrap, TruePredicate> = Behavior::Sequence(
        0,
        vec![
            Node::stateful_action("inc_x", c1),
            Node::stateful_action("inc_y", c2),
        ],
    );

    let mut data = ();
    assert_eq!(*v1.borrow(), 0);
    assert_eq!(*v2.borrow(), 0);

    let (status, debug_repr) = bt.tick(0, &mut data);
    assert_eq!(status, Status::Running);
    assert_eq!(debug_repr.cursor.index(), 0);
    assert_eq!(*v1.borrow(), 1);
    assert_eq!(*v2.borrow(), 0);

    let (status, debug_repr) = bt.tick(0, &mut data);
    assert_eq!(status, Status::Running);
    assert_eq!(debug_repr.cursor.index(), 1);
    assert_eq!(*v1.borrow(), 1);
    assert_eq!(*v2.borrow(), 1);

    let (status, debug_repr) = bt.tick(0, &mut data);
    assert_eq!(status, Status::Success);
    assert_eq!(debug_repr.cursor.index(), 2);
    assert_eq!(*v1.borrow(), 1);
    assert_eq!(*v2.borrow(), 1);
}

struct DoubleCounter {
    x: i32,
    y: i32,
}

enum IncLeaf {
    X,
    Y,
}

impl StatefulAction<DoubleCounter> for IncLeaf {
    fn tick(&mut self, data: &mut DoubleCounter) -> Status {
        match self {
            IncLeaf::X => {
                if data.x % 2 == 0 {
                    data.x += 1;
                    Status::Running
                } else {
                    Status::Success
                }
            }
            IncLeaf::Y => {
                if data.y % 2 == 0 {
                    data.y += 1;
                    Status::Running
                } else {
                    Status::Success
                }
            }
        }
    }

    fn reset(&mut self) {}
}

#[test]
fn sequence_test_nested_sequence() {
    let mut bt: Behavior<IncLeaf, TruePredicate> = Behavior::Sequence(
        0,
        vec![
            Node::action("inc_once_1", IncLeaf::X),
            Node::action("inc_once_2", IncLeaf::Y),
        ],
    );

    let mut data = DoubleCounter { x: 0, y: 0 };

    let (status, debug_repr) = bt.tick(0, &mut data);
    assert_eq!(status, Status::Running);
    assert_eq!(data.x, 1);
    assert_eq!(data.y, 0);
    assert_eq!(debug_repr.cursor.index(), 0);

    let (status, debug_repr) = bt.tick(0, &mut data);
    assert_eq!(status, Status::Running);
    assert_eq!(data.x, 1);
    assert_eq!(data.y, 1);
    assert_eq!(debug_repr.cursor.index(), 1);

    let (status, debug_repr) = bt.tick(0, &mut data);
    assert_eq!(data.x, 1);
    assert_eq!(data.y, 1);
    assert_eq!(status, Status::Success);
    assert_eq!(debug_repr.cursor.index(), 2);
}
