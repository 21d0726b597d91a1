//! Introspection for tooling: child listing, display names, and the
//! build-time shape snapshot.

use vstd::prelude::*;
use vstd::string::StringExecFns;
use crate::node::{Behavior, BehaviorTree, Node};
use crate::repr::TreeRepr;
use crate::model::{
    behavior_size, dec_str, digit_char, node_size, node_wf, repr_matches, seq_size, spec_children,
    spec_name,
};
use crate::lemmas::lemma_seq_size_element;

verus! {

/// One decimal digit as a string.
fn digit_str(d: u64) -> (r: String)
    requires
        d < 10,
    ensures
        r@ == seq![digit_char(d as int)],
{
    if d == 0 {
        proof {
            reveal_strlit("0");
            assert("0"@ =~= seq![digit_char(0int)]);
        }
        "0".to_owned()
    } else if d == 1 {
        proof {
            reveal_strlit("1");
            assert("1"@ =~= seq![digit_char(1int)]);
        }
        "1".to_owned()
    } else if d == 2 {
        proof {
            reveal_strlit("2");
            assert("2"@ =~= seq![digit_char(2int)]);
        }
        "2".to_owned()
    } else if d == 3 {
        proof {
            reveal_strlit("3");
            assert("3"@ =~= seq![digit_char(3int)]);
        }
        "3".to_owned()
    } else if d == 4 {
        proof {
            reveal_strlit("4");
            assert("4"@ =~= seq![digit_char(4int)]);
        }
        "4".to_owned()
    } else if d == 5 {
        proof {
            reveal_strlit("5");
            assert("5"@ =~= seq![digit_char(5int)]);
        }
        "5".to_owned()
    } else if d == 6 {
        proof {
            reveal_strlit("6");
            assert("6"@ =~= seq![digit_char(6int)]);
        }
        "6".to_owned()
    } else if d == 7 {
        proof {
            reveal_strlit("7");
            assert("7"@ =~= seq![digit_char(7int)]);
        }
        "7".to_owned()
    } else if d == 8 {
        proof {
            reveal_strlit("8");
            assert("8"@ =~= seq![digit_char(8int)]);
        }
        "8".to_owned()
    } else {
        proof {
            reveal_strlit("9");
            assert("9"@ =~= seq![digit_char(9int)]);
        }
        "9".to_owned()
    }
}

/// The decimal rendering of a number, used by display labels and the shape
/// snapshot.
pub fn u64_to_string(n: u64) -> (r: String)
    ensures
        r@ == dec_str(n as nat),
    decreases n,
{
    if n < 10 {
        digit_str(n)
    } else {
        let prefix = u64_to_string(n / 10);
        let last = digit_str(n % 10);
        prefix.concat(last.as_str())
    }
}

impl<A, P> Node<A, P> {
    /// The node's children in traversal order, as borrows.
    pub fn children(&self) -> (r: Vec<&Node<A, P>>)
        ensures
            r@.len() == spec_children(self.behavior).len(),
            forall|i: int| 0 <= i < r@.len() ==> *r@[i] == spec_children(self.behavior)[i],
    {
        let mut out: Vec<&Node<A, P>> = Vec::new();
        match &self.behavior {
            Behavior::Cond(_, _, s, f) => {
                out.push(&**s);
                out.push(&**f);
            },
            Behavior::Sequence(_, xs) => {
                let mut i: usize = 0;
                while i < xs.len()
                    invariant
                        i <= xs@.len(),
                        out@.len() == i,
                        forall|j: int| 0 <= j < i ==> *out@[j] == xs@[j],
                    decreases xs@.len() - i,
                {
                    out.push(&xs[i]);
                    i += 1;
                }
            },
            Behavior::Select(_, xs) => {
                let mut i: usize = 0;
                while i < xs.len()
                    invariant
                        i <= xs@.len(),
                        out@.len() == i,
                        forall|j: int| 0 <= j < i ==> *out@[j] == xs@[j],
                    decreases xs@.len() - i,
                {
                    out.push(&xs[i]);
                    i += 1;
                }
            },
            Behavior::While(_, c) => {
                out.push(&**c);
            },
            _ => {},
        }
        out
    }

    /// The node's display name: its collapse label if set, else a label
    /// derived from its kind and stored name.
    pub fn name(&self) -> (r: String)
        requires
            node_wf(*self),
        ensures
            r@ == spec_name(*self),
    {
        match &self.collapse_as {
            Some(text) => text.clone(),
            None => match &self.behavior {
                Behavior::Wait { curr, max } => "Wait ".to_owned().concat(
                    u64_to_string(*curr).as_str(),
                ).concat("/").concat(u64_to_string(*max).as_str()),
                Behavior::RandomWait { curr, curr_max, max } => "RandomWait ".to_owned().concat(
                    u64_to_string(*curr).as_str(),
                ).concat("/").concat(u64_to_string(*curr_max).as_str()).concat(" (").concat(
                    u64_to_string(*max).as_str(),
                ).concat(")"),
                Behavior::Cond(name, _, _, _) => "Cond ".to_owned().concat(name.as_str()),
                Behavior::Sequence(_, _) => "Sequence".to_owned(),
                Behavior::Select(_, _) => "Select".to_owned(),
                Behavior::Action(name, _) => "Action ".to_owned().concat(name.as_str()),
                Behavior::ActionSuccess(name, _) => "ActionSuccess ".to_owned().concat(
                    name.as_str(),
                ),
                Behavior::StatefulAction(name, _) => "StatefulAction ".to_owned().concat(
                    name.as_str(),
                ),
                Behavior::While(_, _) => match &self.name {
                    Some(name) => "While ".to_owned().concat(name.as_str()),
                    None => vstd::pervasive::unreached(),
                },
            },
        }
    }
}

impl<A, P> Behavior<A, P> {
    /// Snapshot the static shape of the subtree for tooling: a label per
    /// node kind, leaf and condition names as detail, children in order.
    #[verifier::loop_isolation(false)]
    pub fn to_debug(&self) -> (r: TreeRepr)
        ensures
            repr_matches(r, *self),
        decreases behavior_size(*self), 1int,
    {
        match self {
            Behavior::Wait { curr, max } => TreeRepr::new("Wait", Vec::new()).with_detail(
                "curr=".to_owned().concat(u64_to_string(*curr).as_str()).concat(", max=").concat(
                    u64_to_string(*max).as_str(),
                ),
            ),
            Behavior::RandomWait { curr, curr_max, max } => TreeRepr::new(
                "RandomWait",
                Vec::new(),
            ).with_detail(
                "curr=".to_owned().concat(u64_to_string(*curr).as_str()).concat(
                    ", curr_max=",
                ).concat(u64_to_string(*curr_max).as_str()).concat(", max=").concat(
                    u64_to_string(*max).as_str(),
                ),
            ),
            Behavior::Cond(name, _, s, f) => {
                let mut children: Vec<TreeRepr> = Vec::new();
                children.push(s.behavior.to_debug());
                children.push(f.behavior.to_debug());
                TreeRepr::new("Cond", children).with_detail(name.clone())
            },
            Behavior::Sequence(_, xs) => {
                let mut children: Vec<TreeRepr> = Vec::new();
                let mut i: usize = 0;
                while i < xs.len()
                    invariant
                        i <= xs@.len(),
                        children@.len() == i,
                        forall|j: int|
                            0 <= j < i ==> repr_matches(
                                #[trigger] children@[j],
                                xs@[j].behavior,
                            ),
                    decreases xs@.len() - i,
                {
                    proof {
                        lemma_seq_size_element(xs@, i as int);
                    }
                    let child = &xs[i];
                    children.push(child.behavior.to_debug());
                    i += 1;
                }
                TreeRepr::new("Sequence", children)
            },
            Behavior::Select(_, xs) => {
                let mut children: Vec<TreeRepr> = Vec::new();
                let mut i: usize = 0;
                while i < xs.len()
                    invariant
                        i <= xs@.len(),
                        children@.len() == i,
                        forall|j: int|
                            0 <= j < i ==> repr_matches(
                                #[trigger] children@[j],
                                xs@[j].behavior,
                            ),
                    decreases xs@.len() - i,
                {
                    proof {
                        lemma_seq_size_element(xs@, i as int);
                    }
                    let child = &xs[i];
                    children.push(child.behavior.to_debug());
                    i += 1;
                }
                TreeRepr::new("Select", children)
            },
            Behavior::Action(name, _) => TreeRepr::new("Action", Vec::new()).with_detail(
                name.clone(),
            ),
            Behavior::ActionSuccess(name, _) => TreeRepr::new("ActionSuccess", Vec::new())
                .with_detail(name.clone()),
            Behavior::StatefulAction(name, _) => TreeRepr::new("StatefulAction", Vec::new())
                .with_detail(name.clone()),
            Behavior::While(_, c) => {
                let mut children: Vec<TreeRepr> = Vec::new();
                children.push(c.behavior.to_debug());
                TreeRepr::new("While", children)
            },
        }
    }
}

impl<A, P> BehaviorTree<A, P> {
    /// Build a tree around a root node, snapshotting its static shape once
    /// for tooling.
    pub fn new(root: Node<A, P>) -> (r: BehaviorTree<A, P>)
        ensures
            r.tree == root,
            repr_matches(r.debug, root.behavior),
    {
        let debug = root.behavior.to_debug();
        BehaviorTree { tree: root, debug }
    }
}

} // verus!
