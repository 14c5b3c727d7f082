//! Flows: which node runs next, and when a flow ends.

use vstd::prelude::*;
use crate::sync::action::{Action, action_text};
use crate::errors::{FlowError, FlowResult, reads_as};
use crate::json::JsonValue;
use crate::sync::base_node::{BaseNode, Params, duration_of_millis};
use crate::strmap::{StrMap, value_models};

verus! {

/// The key of the successor that an action leads to: the action's own key if
/// it is registered, else "default" for any action but the default one.
pub open spec fn successor_key<R>(successors: Map<Seq<char>, R>, action: Action) -> Option<
    Seq<char>,
> {
    if successors.contains_key(action_text(action)) {
        Some(action_text(action))
    } else if !(action is Default) && successors.contains_key("default"@) {
        Some("default"@)
    } else {
        None
    }
}

/// The successor that an action leads to is registered, and is the one under
/// the action's own key when there is one; otherwise it is the one under
/// "default", for any action but the default one, and there is none when
/// neither applies.
pub proof fn lemma_successor_key<R>(successors: Map<Seq<char>, R>, action: Action)
    ensures
        successor_key(successors, action) matches Some(k) ==> successors.contains_key(k),
        successors.contains_key(action_text(action)) ==> successor_key(successors, action) == Some(
            action_text(action),
        ),
        !successors.contains_key(action_text(action)) && action is Default ==> successor_key(
            successors,
            action,
        ) is None,
        !successors.contains_key(action_text(action)) && !(action is Default) ==> successor_key(
            successors,
            action,
        ) == (if successors.contains_key("default"@) {
            Some("default"@)
        } else {
            None
        }),
{
}

/// What a flow does after one of its nodes has run.
pub enum FlowStep<'a, R> {
    /// Run this node next.
    Continue(&'a R),
    /// The flow is over, with this outcome.
    Finished(FlowResult<()>),
}

/// A flow: a start node and, for the flow as a node, its own state.
pub struct Flow<R> {
    pub base: BaseNode<R>,
    pub start: R,
}

impl<R> Flow<R> {
    /// A flow with the given name that starts at `start`.
    pub fn new(name: &str, start: R) -> (f: Self)
        ensures
            f.start == start,
            f.base.name@ == name@,
            f.base.params@ == Map::<Seq<char>, JsonValue>::empty(),
            f.base.successors@ == Map::<Seq<char>, R>::empty(),
            f.base.max_retries == 1,
            f.base.wait_duration == duration_of_millis(0),
    {
        Flow { base: BaseNode::new(name), start }
    }

    /// The successor that `action` leads to among `successors`.
    pub fn get_next_node<'a>(successors: &'a StrMap<R>, action: &Action) -> (r: Option<&'a R>)
        ensures
            r.is_some() == successor_key(successors@, *action).is_some(),
            r matches Some(n) ==> *n == successors@[successor_key(successors@, *action).unwrap()],
    {
        let key = action.to_string();
        match successors.get(key.as_str()) {
            Some(n) => Some(n),
            None => {
                if action.is_default() {
                    None
                } else {
                    successors.get("default")
                }
            },
        }
    }

    /// What the flow does once a node whose successors are `successors` has
    /// run with outcome `outcome`: a terminating action ends the flow, an
    /// action with a successor moves to it, an action without one ends the
    /// flow, and an error ends it with an orchestration error.
    pub fn step<'a>(successors: &'a StrMap<R>, outcome: FlowResult<Action>) -> (s: FlowStep<'a, R>)
        ensures
            match outcome {
                Ok(a) => if a is Terminate {
                    s matches FlowStep::Finished(Ok(_))
                } else {
                    match successor_key(successors@, a) {
                        Some(k) => s matches FlowStep::Continue(n) && *n == successors@[k],
                        None => s matches FlowStep::Finished(Ok(_)),
                    }
                },
                Err(e) => s matches FlowStep::Finished(Err(FlowError::FlowOrchestration(t)))
                    && exists|inner: Seq<char>| #[trigger] reads_as(e, inner) && t@ == "Flow error: "@ + inner,
            },
    {
        match outcome {
            Ok(action) => {
                if action.is_terminate() {
                    FlowStep::Finished(Ok(()))
                } else {
                    match Self::get_next_node(successors, &action) {
                        Some(n) => FlowStep::Continue(n),
                        None => FlowStep::Finished(Ok(())),
                    }
                }
            },
            Err(e) => {
                let mut t = String::from_str("Flow error: ");
                let inner = e.to_string();
                t.append(inner.as_str());
                assert(reads_as(e, inner@));
                FlowStep::Finished(Err(FlowError::FlowOrchestration(t)))
            },
        }
    }

    /// The parameters that every node of the flow is given: the override if
    /// there is one, else a copy of the flow's own.
    pub fn run_params(&self, params_override: Option<Params>) -> (p: Params)
        ensures
            params_override matches Some(o) ==> p == o,
            params_override is None ==> p@.dom() == self.base.params@.dom() && value_models(p@)
                == value_models(self.base.params@) && p.key_order() == self.base.params.key_order(),
    {
        match params_override {
            Some(o) => o,
            None => self.base.params.deep_clone(),
        }
    }
}

} // verus!
