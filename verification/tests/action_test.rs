use behavior_tree::Node;
use behavior_tree::Status;
use behavior_tree::StatefulAction;
use behavior_tree::TruePredicate;

pub struct EvenCounter {
    pub value: i32,
}

struct IncPingpong;

impl StatefulAction<EvenCounter> for IncPingpong {
    fn tick(&mut self, data: &mut EvenCounter) -> Status {
        if data.value % 2 == 0 {
            data.value += 1;
            Status::Running
        } else {
            data.value += 1;
            Status::Success
        }
    }

    fn reset(&mut self) {}
}

#[test]
fn action_test_test_simple_action() {
    let mut bt: Node<IncPingpong, TruePredicate> = Node::action("inc_pingpong", IncPingpong);

    let mut data = EvenCounter { value: 0 };

    let (status, _) = bt.tick(0, &mut data);
    assert_eq!(status, Status::Running);
    assert_eq!(data.value, 1);

    let (status, _) = bt.tick(0, &mut data);
    assert_eq!(status, Status::Success);
    assert_eq!(data.value, 2);

    let (status, _) = bt.tick(0, &mut data);
    assert_eq!(status, Status::Running);
    assert_eq!(data.value, 3);

    let (status, _) = bt.tick(0, &mut data);
    assert_eq!(status, Status::Success);
    assert_eq!(data.value, 4);

    let (status, _) = bt.tick(0, &mut data);
    assert_eq!(status, Status::Running);
    assert_eq!(data.value, 5);

    let (status, _) = bt.tick(0, &mut data);
    assert_eq!(status, Status::Success);
    assert_eq!(data.value, 6);
}
