//! Actions: what a node hands back to choose the flow's next step.

use vstd::prelude::*;
use crate::json::{JsonValue, json_str};

verus! {

/// What a node asks the flow to do next.
#[derive(Debug, PartialEq, Eq, Hash)]
pub enum Action {
    /// Follow the successor registered under "default".
    Default,
    /// Follow the successor registered under this name.
    Named(String),
    /// Stop the flow.
    Terminate,
}

/// Whether an action is the one that a text names: "default" and
/// "terminate" are reserved, any other text names a branch.
pub open spec fn is_action_named(a: Action, s: Seq<char>) -> bool {
    if s == "default"@ {
        a == Action::Default
    } else if s == "terminate"@ {
        a == Action::Terminate
    } else {
        a matches Action::Named(n) && n@ == s
    }
}

/// The text of an action: the key under which its successor is registered.
pub open spec fn action_text(a: Action) -> Seq<char> {
    match a {
        Action::Default => "default"@,
        Action::Named(n) => n@,
        Action::Terminate => "terminate"@,
    }
}

/// The action that a node's post-processing result asks for: a string names
/// an action, anything else means the default action.
pub open spec fn is_action_of_value(a: Action, v: JsonValue) -> bool {
    match json_str(v) {
        Some(s) => is_action_named(a, s),
        None => a == Action::Default,
    }
}

/// The text of the action that a text names is that text: parsing an action
/// and writing it back gives what was parsed.
pub proof fn lemma_action_text_round_trip(a: Action, s: Seq<char>)
    requires
        is_action_named(a, s),
    ensures
        action_text(a) == s,
{
}

/// Writing an action and parsing the text gives the action back, for every
/// action but a named one whose name is reserved.
pub proof fn lemma_action_parse_round_trip(a: Action)
    requires
        a matches Action::Named(n) ==> n@ != "default"@ && n@ != "terminate"@,
    ensures
        is_action_named(a, action_text(a)),
{
    reveal_strlit("default");
    reveal_strlit("terminate");
    assert("default"@[0] != "terminate"@[0]);
}

/// The default action is written "default", the terminating one
/// "terminate", and a named one by its name; reading "default" or
/// "terminate" gives those actions, and any other text names a branch.
pub proof fn lemma_action_texts(n: String, s: Seq<char>, a: Action)
    ensures
        action_text(Action::Default) == "default"@,
        action_text(Action::Terminate) == "terminate"@,
        action_text(Action::Named(n)) == n@,
        is_action_named(a, "default"@) <==> a == Action::Default,
        is_action_named(a, "terminate"@) <==> a == Action::Terminate,
        s != "default"@ && s != "terminate"@ ==> (is_action_named(a, s) <==> (a matches Action::Named(m)
            && m@ == s)),
{
    reveal_strlit("default");
    reveal_strlit("terminate");
    assert("default"@[0] != "terminate"@[0]);
}

/// A post-processing result that is a string names the action; any other
/// value, null included, asks for the default action.
pub proof fn lemma_action_of_value(a: Action, v: JsonValue)
    ensures
        v is String ==> (is_action_of_value(a, v) <==> is_action_named(a, json_str(v).unwrap())),
        !(v is String) ==> (is_action_of_value(a, v) <==> a == Action::Default),
{
}

impl Action {
    /// The action that `s` names.
    pub fn from_str(s: &str) -> (a: Action)
        ensures
            is_action_named(a, s@),
    {
        if crate::json::text_eq(s, "default") {
            Action::Default
        } else if crate::json::text_eq(s, "terminate") {
            Action::Terminate
        } else {
            Action::Named(s.to_owned())
        }
    }

    /// The action that a post-processing result asks for.
    pub fn from_json(value: &JsonValue) -> (a: Action)
        ensures
            is_action_of_value(a, *value),
    {
        if value.is_null() {
            return Action::Default;
        }
        match value.as_str() {
            Some(s) => Action::from_str(s),
            None => Action::Default,
        }
    }

    /// The action's text.
    pub fn to_string(&self) -> (r: String)
        ensures
            r@ == action_text(*self),
    {
        match self {
            Action::Default => String::from_str("default"),
            Action::Named(n) => n.clone(),
            Action::Terminate => String::from_str("terminate"),
        }
    }

    /// Whether the action stops the flow.
    pub fn is_terminate(&self) -> (b: bool)
        ensures
            b == (*self is Terminate),
    {
        match self {
            Action::Terminate => true,
            _ => false,
        }
    }

    /// Whether the action is the default one.
    pub fn is_default(&self) -> (b: bool)
        ensures
            b == (*self is Default),
    {
        match self {
            Action::Default => true,
            _ => false,
        }
    }
}

impl Clone for Action {
    fn clone(&self) -> (r: Action)
        ensures
            r == *self,
    {
        match self {
            Action::Default => Action::Default,
            Action::Named(n) => Action::Named(n.clone()),
            Action::Terminate => Action::Terminate,
        }
    }
}

} // verus!
