//! The state that every node keeps: its name, parameters, successors and
//! retry policy.

use vstd::prelude::*;
use std::time::Duration;
use crate::json::JsonValue;
use crate::strmap::StrMap;

verus! {

/// Parameters handed to a node before it runs.
pub type Params = StrMap<JsonValue>;

/// The state that the nodes of a flow share.
pub type Shared = StrMap<JsonValue>;

/// The duration of `ms` milliseconds.
pub uninterp spec fn duration_of_millis(ms: u64) -> Duration;

/// `Duration::from_millis`: the duration of `ms` milliseconds.  Its contract
/// names the result by the argument and says nothing more.
#[verifier::external_body]
fn duration_from_millis(ms: u64) -> (d: Duration)
    ensures
        d == duration_of_millis(ms),
{
    Duration::from_millis(ms)
}

/// The part of a node that the library keeps for it.  `R` is how a successor
/// is referred to.
pub struct BaseNode<R> {
    /// Node name for debugging and logging.
    pub name: String,
    /// Node parameters.
    pub params: Params,
    /// Node successors, by action.
    pub successors: StrMap<R>,
    /// Maximum number of execution attempts.
    pub max_retries: usize,
    /// Wait between execution attempts.
    pub wait_duration: Duration,
}

impl<R> BaseNode<R> {
    /// A node with the given name, no parameters, no successors, one
    /// attempt and no wait.
    pub fn new(name: &str) -> (n: Self)
        ensures
            n.name@ == name@,
            n.params@ == Map::<Seq<char>, JsonValue>::empty(),
            n.successors@ == Map::<Seq<char>, R>::empty(),
            n.max_retries == 1,
            n.wait_duration == duration_of_millis(0),
    {
        BaseNode {
            name: name.to_owned(),
            params: StrMap::new(),
            successors: StrMap::new(),
            max_retries: 1,
            wait_duration: duration_from_millis(0),
        }
    }

    /// The node with the given maximum number of attempts.
    pub fn with_max_retries(self, max_retries: usize) -> (n: Self)
        ensures
            n == (BaseNode { max_retries, ..self }),
    {
        BaseNode { max_retries, ..self }
    }

    /// The node with the given wait between attempts.
    pub fn with_wait_duration(self, wait_duration: Duration) -> (n: Self)
        ensures
            n == (BaseNode { wait_duration, ..self }),
    {
        BaseNode { wait_duration, ..self }
    }

    /// The node with the given parameters.
    pub fn with_params(self, params: Params) -> (n: Self)
        ensures
            n == (BaseNode { params, ..self }),
    {
        BaseNode { params, ..self }
    }

    /// The node's parameters.
    pub fn get_params(&self) -> (p: &Params)
        ensures
            *p == self.params,
    {
        &self.params
    }

    /// Replaces the node's parameters.
    pub fn set_params(&mut self, params: Params)
        ensures
            *final(self) == (BaseNode { params, ..*old(self) }),
    {
        self.params = params;
    }

    /// Registers `successor` for `action`, in place of any successor that
    /// action had.  Tells whether one was replaced.
    pub fn add_successor(&mut self, action: String, successor: R) -> (replaced: bool)
        ensures
            final(self).successors@ == old(self).successors@.insert(action@, successor),
            replaced == old(self).successors@.contains_key(action@),
            final(self).name == old(self).name,
            final(self).params == old(self).params,
            final(self).max_retries == old(self).max_retries,
            final(self).wait_duration == old(self).wait_duration,
    {
        let prev = self.successors.insert(action, successor);
        prev.is_some()
    }

    /// The node's successors, by action.
    pub fn get_successors(&self) -> (s: &StrMap<R>)
        ensures
            *s == self.successors,
    {
        &self.successors
    }

    /// The node's name.
    pub fn get_name(&self) -> (s: &str)
        ensures
            s@ == self.name@,
    {
        self.name.as_str()
    }

    /// The maximum number of execution attempts.
    pub fn get_max_retries(&self) -> (n: usize)
        ensures
            n == self.max_retries,
    {
        self.max_retries
    }

    /// The wait between execution attempts.
    pub fn get_wait_duration(&self) -> (d: Duration)
        ensures
            d == self.wait_duration,
    {
        self.wait_duration
    }
}

} // verus!
