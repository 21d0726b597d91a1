use behavior_tree::Node;
use behavior_tree::StatefulAction;
use behavior_tree::Status;
use behavior_tree::TruePredicate;

/// Yes-leaf panics on drop if never ticked; no-leaf panics when ticked.
enum StrictLeaf {
    Yes(bool),
    No,
}

impl StatefulAction<()> for StrictLeaf {
    fn tick(&mut self, _data: &mut ()) -> Status {
        match self {
            StrictLeaf::Yes(ticked) => {
                *ticked = true;
                Status::Success
            }
            StrictLeaf::No => panic!("no-tick leaf should never be ticked"),
        }
    }

    fn reset(&mut self) {}
}

impl Drop for StrictLeaf {
    fn drop(&mut self) {
        if let StrictLeaf::Yes(ticked) = self {
            if !*ticked {
                panic!("yes-tick leaf dropped without being ticked");
            }
        }
    }
}

#[test]
#[should_panic]
fn test_yes_tick_panics_without_tick() {
    let _bt: Node<StrictLeaf, TruePredicate> =
        Node::stateful_action("yes", StrictLeaf::Yes(false));
}

#[test]
fn test_yes_tick_likes_being_ticked() {
    let mut bt: Node<StrictLeaf, TruePredicate> =
        Node::stateful_action("yes", StrictLeaf::Yes(false));

    bt.tick(0, &mut ());
}

#[test]
fn test_no_tick_without_tick() {
    let _bt: Node<StrictLeaf, TruePredicate> = Node::stateful_action("no", StrictLeaf::No);
}

#[test]
#[should_panic]
fn test_no_tick_crash_with_tick() {
    let mut bt: Node<StrictLeaf, TruePredicate> = Node::stateful_action("no", StrictLeaf::No);

    bt.tick(0, &mut ());
}
