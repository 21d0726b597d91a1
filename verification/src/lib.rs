//! A reactive decision-tree evaluator.
//!
//! A tree of composable behavior nodes is "ticked" once per simulation step.
//! Each node reports one of `Running`, `Success` or `Failure`; composite
//! nodes (sequence, selector, guarded loop) combine child outcomes into
//! control-flow decisions for an external agent.

pub mod inspect;
pub mod laws;
pub mod lemmas;
pub mod model;
pub mod node;
pub mod repr;
mod rng;
pub mod testing;
pub mod tick;
pub mod traits;
pub mod types;

pub use crate::node::Behavior;
pub use crate::node::BehaviorTree;
pub use crate::node::Node;
pub use crate::repr::Cursor;
pub use crate::repr::DebugRepr;
pub use crate::repr::TreeRepr;
pub use crate::testing::AlwaysRunning;
pub use crate::testing::ConstAction;
pub use crate::testing::Counter;
pub use crate::testing::TruePredicate;
pub use crate::testing::YesTick;
pub use crate::traits::Predicate;
pub use crate::traits::StatefulAction;
pub use crate::types::Status;
