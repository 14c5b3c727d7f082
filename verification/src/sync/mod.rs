//! Nodes and flows that run synchronously: actions, the state of a node, the
//! choice of the next node, and the retry policy.

pub mod action;
pub mod base_node;
pub mod flow;
pub mod retry;

pub use action::Action;
pub use base_node::{BaseNode, Params, Shared};
pub use flow::{Flow, FlowStep};
pub use retry::{Retry, RetryStep};
