//! The state of nodes and flows that run asynchronously.

use vstd::prelude::*;
use std::time::Duration;
use crate::json::JsonValue;
use crate::sync::base_node::{BaseNode, Params, duration_of_millis};
use crate::strmap::value_models;

verus! {

/// A node that runs asynchronously, with the state of any node.
pub struct AsyncNodeImpl<R> {
    pub base: BaseNode<R>,
}

impl<R> AsyncNodeImpl<R> {
    /// A node with the given name, one attempt and no wait.
    pub fn new(name: &str) -> (n: Self)
        ensures
            n.base.name@ == name@,
            n.base.params@ == Map::<Seq<char>, JsonValue>::empty(),
            n.base.successors@ == Map::<Seq<char>, R>::empty(),
            n.base.max_retries == 1,
            n.base.wait_duration == duration_of_millis(0),
    {
        AsyncNodeImpl { base: BaseNode::new(name) }
    }

    /// The node with the given maximum number of attempts.
    pub fn with_max_retries(self, max_retries: usize) -> (n: Self)
        ensures
            n.base == (BaseNode { max_retries, ..self.base }),
    {
        AsyncNodeImpl { base: self.base.with_max_retries(max_retries) }
    }

    /// The node with the given wait between attempts.
    pub fn with_wait_duration(self, wait_duration: Duration) -> (n: Self)
        ensures
            n.base == (BaseNode { wait_duration, ..self.base }),
    {
        AsyncNodeImpl { base: self.base.with_wait_duration(wait_duration) }
    }
}

/// A flow that runs its nodes asynchronously.
pub struct AsyncFlow<R> {
    pub base: AsyncNodeImpl<R>,
    pub start: R,
}

impl<R> AsyncFlow<R> {
    /// A flow with the given name that starts at `start`.
    pub fn new(name: &str, start: R) -> (f: Self)
        ensures
            f.start == start,
            f.base.base.name@ == name@,
            f.base.base.params@ == Map::<Seq<char>, JsonValue>::empty(),
            f.base.base.successors@ == Map::<Seq<char>, R>::empty(),
            f.base.base.max_retries == 1,
            f.base.base.wait_duration == duration_of_millis(0),
    {
        AsyncFlow { base: AsyncNodeImpl::new(name), start }
    }

    /// The parameters that every node of the flow is given: the override if
    /// there is one, else a copy of the flow's own.
    pub fn run_params(&self, params_override: Option<Params>) -> (p: Params)
        ensures
            params_override matches Some(o) ==> p == o,
            params_override is None ==> p@.dom() == self.base.base.params@.dom() && value_models(p@)
                == value_models(self.base.base.params@) && p.key_order()
                == self.base.base.params.key_order(),
    {
        match params_override {
            Some(o) => o,
            None => self.base.base.params.deep_clone(),
        }
    }
}

} // verus!
