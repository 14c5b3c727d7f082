//! The history of a conversation with a model: its messages, a bound on how
//! many are kept, and its JSON form.

use vstd::prelude::*;
use std::collections::VecDeque;
use crate::json::{
    JsonModel, JsonNumber, JsonValue, entry_models_of, lemma_entry_models_of, lemma_models_of,
    model_get, model_get_str, models_of,
};

verus! {

/// Who sent a message.
#[derive(Clone, Copy, Debug, PartialEq, Eq, Structural)]
pub enum Role {
    User,
    Assistant,
}

/// The text that stands for a role in JSON.
pub open spec fn role_text(r: Role) -> Seq<char> {
    match r {
        Role::User => "user"@,
        Role::Assistant => "assistant"@,
    }
}

/// The role that a text stands for.
pub open spec fn role_named(s: Seq<char>) -> Option<Role> {
    if s == "user"@ {
        Some(Role::User)
    } else if s == "assistant"@ {
        Some(Role::Assistant)
    } else {
        None
    }
}

/// A call of a tool that a message records.
#[derive(Debug)]
pub struct ToolCallInfo {
    /// The name of the tool.
    pub tool_name: String,
    /// The arguments passed to the tool.
    pub arguments: JsonValue,
    /// The result of the call.
    pub result: Option<JsonValue>,
}

/// The model of a tool call.
pub struct ToolCallModel {
    pub tool_name: Seq<char>,
    pub arguments: JsonModel,
    pub result: Option<JsonModel>,
}

pub open spec fn opt_model(v: Option<JsonValue>) -> Option<JsonModel> {
    match v {
        Some(x) => Some(x@),
        None => None,
    }
}

impl View for ToolCallInfo {
    type V = ToolCallModel;

    open spec fn view(&self) -> ToolCallModel {
        ToolCallModel {
            tool_name: self.tool_name@,
            arguments: self.arguments@,
            result: opt_model(self.result),
        }
    }
}

pub open spec fn opt_tool_model(t: Option<ToolCallInfo>) -> Option<ToolCallModel> {
    match t {
        Some(x) => Some(x@),
        None => None,
    }
}

/// A message of a conversation.
#[derive(Debug)]
pub struct ConversationMessage {
    /// The sender.
    pub role: Role,
    /// The text of the message.
    pub content: String,
    /// When the message was created, in seconds since the Unix epoch.
    pub timestamp: u64,
    /// The tool call that the message records, if any.
    pub tool_call: Option<ToolCallInfo>,
}

/// The model of a message.
pub struct MessageModel {
    pub role: Role,
    pub content: Seq<char>,
    pub timestamp: u64,
    pub tool_call: Option<ToolCallModel>,
}

impl View for ConversationMessage {
    type V = MessageModel;

    open spec fn view(&self) -> MessageModel {
        MessageModel {
            role: self.role,
            content: self.content@,
            timestamp: self.timestamp,
            tool_call: opt_tool_model(self.tool_call),
        }
    }
}

/// A message from the user, without a tool call.
pub open spec fn user_message(content: Seq<char>, timestamp: u64) -> MessageModel {
    MessageModel { role: Role::User, content, timestamp, tool_call: None }
}

/// A message from the assistant.
pub open spec fn assistant_message(content: Seq<char>, timestamp: u64, tool_call: Option<ToolCallModel>) -> MessageModel {
    MessageModel { role: Role::Assistant, content, timestamp, tool_call }
}

/// The last `max` elements of `s`, or all of them when there is no bound.
pub open spec fn keep_last<A>(s: Seq<A>, max: Option<usize>) -> Seq<A> {
    match max {
        Some(m) => if s.len() > m {
            s.skip(s.len() - m)
        } else {
            s
        },
        None => s,
    }
}

/// A bounded history never holds more than its bound, and what it holds is
/// the newest part of the history, in order.
pub proof fn lemma_keep_last_bound<A>(s: Seq<A>, max: usize)
    ensures
        keep_last(s, Some(max)).len() <= max,
        keep_last(s, Some(max)).len() == (if s.len() > max { max as int } else { s.len() as int }),
        forall|i: int|
            0 <= i < keep_last(s, Some(max)).len() ==> #[trigger] keep_last(s, Some(max))[i] == s[s.len()
                - keep_last(s, Some(max)).len() + i],
{
}

/// The JSON form of a tool call.
pub open spec fn tool_call_json(t: ToolCallModel) -> JsonModel {
    JsonModel::Object(
        seq![
            ("tool_name"@, JsonModel::Str(t.tool_name)),
            ("arguments"@, t.arguments),
            ("result"@, match t.result {
                Some(r) => r,
                None => JsonModel::Null,
            }),
        ],
    )
}

/// The JSON form of a message.
pub open spec fn message_json(m: MessageModel) -> JsonModel {
    JsonModel::Object(
        seq![
            ("role"@, JsonModel::Str(role_text(m.role))),
            ("content"@, JsonModel::Str(m.content)),
            ("timestamp"@, JsonModel::Number(JsonNumber::PosInt(m.timestamp))),
            ("tool_call"@, match m.tool_call {
                Some(t) => tool_call_json(t),
                None => JsonModel::Null,
            }),
        ],
    )
}

/// The JSON form of a conversation: the array of its messages' forms.
pub open spec fn conversation_json(s: Seq<MessageModel>) -> JsonModel {
    JsonModel::Array(s.map_values(|m: MessageModel| message_json(m)))
}

/// The tool call that a message's "tool_call" member records: none when the
/// member is missing or null, or lacks a string "tool_name" or an
/// "arguments" member.
pub open spec fn parse_tool_call(m: Option<JsonModel>) -> Option<ToolCallModel> {
    match m {
        None => None,
        Some(JsonModel::Null) => None,
        Some(tc) => match (model_get_str(tc, "tool_name"@), model_get(tc, "arguments"@)) {
            (Some(n), Some(a)) => Some(
                ToolCallModel { tool_name: n, arguments: a, result: model_get(tc, "result"@) },
            ),
            _ => None,
        },
    }
}

/// The timestamp that a message's JSON form records, or `now` when it
/// records none.
pub open spec fn parse_timestamp(m: JsonModel, now: u64) -> u64 {
    match model_get(m, "timestamp"@) {
        Some(JsonModel::Number(JsonNumber::PosInt(t))) => t,
        _ => now,
    }
}

/// The message that a JSON value stands for: it needs a string "role" that
/// is "user" or "assistant" and a string "content".
pub open spec fn parse_message(m: JsonModel, now: u64) -> Option<MessageModel> {
    match (model_get_str(m, "role"@), model_get_str(m, "content"@)) {
        (Some(r), Some(c)) => match role_named(r) {
            Some(role) => Some(
                MessageModel {
                    role,
                    content: c,
                    timestamp: parse_timestamp(m, now),
                    tool_call: parse_tool_call(model_get(m, "tool_call"@)),
                },
            ),
            None => None,
        },
        _ => None,
    }
}

/// The messages that the elements of a JSON array stand for, in order; the
/// elements that stand for no message are skipped.
pub open spec fn parse_messages(s: Seq<JsonModel>, now: u64) -> Seq<MessageModel>
    decreases s.len(),
{
    if s.len() == 0 {
        Seq::empty()
    } else {
        let rest = parse_messages(s.drop_last(), now);
        match parse_message(s.last(), now) {
            Some(m) => rest.push(m),
            None => rest,
        }
    }
}

/// Whether a tool call that the message records has a result.
pub open spec fn result_recorded(m: MessageModel) -> bool {
    match m.tool_call {
        Some(t) => t.result is Some,
        None => true,
    }
}

/// Looking up the key of any entry of an object whose keys are distinct
/// finds that entry's value.
pub proof fn lemma_model_entries_get_distinct(s: Seq<(Seq<char>, JsonModel)>, i: int)
    requires
        0 <= i < s.len(),
        forall|a: int, b: int| 0 <= a < b < s.len() ==> s[a].0 != s[b].0,
    ensures
        crate::json::model_entries_get(s, s[i].0) == Some(s[i].1),
    decreases i,
{
    if i > 0 {
        let t = s.drop_first();
        assert(t[i - 1] == s[i]);
        lemma_model_entries_get_distinct(t, i - 1);
    }
}

/// A message's JSON form stands for the message itself, when a tool call
/// that it records has a result.
pub proof fn lemma_parse_message_json(m: MessageModel, now: u64)
    requires
        result_recorded(m),
    ensures
        parse_message(message_json(m), now) == Some(m),
{
    reveal_strlit("role");
    reveal_strlit("content");
    reveal_strlit("timestamp");
    reveal_strlit("tool_call");
    reveal_strlit("tool_name");
    reveal_strlit("arguments");
    reveal_strlit("result");
    reveal_strlit("user");
    reveal_strlit("assistant");
    let tc = match m.tool_call {
        Some(t) => tool_call_json(t),
        None => JsonModel::Null,
    };
    let e = seq![
        ("role"@, JsonModel::Str(role_text(m.role))),
        ("content"@, JsonModel::Str(m.content)),
        ("timestamp"@, JsonModel::Number(JsonNumber::PosInt(m.timestamp))),
        ("tool_call"@, tc),
    ];
    assert("role"@[0] != "content"@[0]);
    assert("role"@[0] != "timestamp"@[0]);
    assert(e[0].0 != e[1].0);
    assert(e[0].0 != e[2].0);
    assert(e[0].0 != e[3].0);
    assert(e[1].0 != e[2].0);
    assert(e[1].0 != e[3].0);
    assert("timestamp"@[1] != "tool_call"@[1]);
    assert(e[2].0 != e[3].0);
    let o = message_json(m)->Object_0;
    assert(o.len() == 4);
    assert(o[0] == e[0]);
    assert(o[1] == e[1]);
    assert(o[2] == e[2]);
    assert(o[3] == e[3]);
    assert(o =~= e);
    lemma_model_entries_get_distinct(e, 0);
    lemma_model_entries_get_distinct(e, 1);
    lemma_model_entries_get_distinct(e, 2);
    lemma_model_entries_get_distinct(e, 3);
    assert("user"@[0] != "assistant"@[0]);
    assert(role_named(role_text(m.role)) == Some(m.role));
    if let Some(t) = m.tool_call {
        let te = seq![
            ("tool_name"@, JsonModel::Str(t.tool_name)),
            ("arguments"@, t.arguments),
            ("result"@, t.result.unwrap()),
        ];
        assert("tool_name"@[0] != "arguments"@[0]);
        assert("tool_name"@[0] != "result"@[0]);
        assert("arguments"@[0] != "result"@[0]);
        assert(te[0].0 != te[1].0);
        assert(te[0].0 != te[2].0);
        assert(te[1].0 != te[2].0);
        lemma_model_entries_get_distinct(te, 0);
        lemma_model_entries_get_distinct(te, 1);
        lemma_model_entries_get_distinct(te, 2);
        let to = tool_call_json(t)->Object_0;
        assert(to.len() == 3);
        assert(to[0] == te[0]);
        assert(to[1] == te[1]);
        assert(to[2] == te[2]);
        assert(to =~= te);
        assert(parse_tool_call(Some(tc)) == Some(t));
    }
}

/// Reading back the JSON form of a conversation gives the conversation,
/// when every tool call that it records has a result.
pub proof fn lemma_conversation_json_round_trip(s: Seq<MessageModel>, now: u64)
    requires
        forall|i: int| 0 <= i < s.len() ==> result_recorded(#[trigger] s[i]),
    ensures
        conversation_json(s) matches JsonModel::Array(items) && parse_messages(items, now) == s,
    decreases s.len(),
{
    let items = s.map_values(|m: MessageModel| message_json(m));
    if s.len() > 0 {
        let p = s.drop_last();
        assert(items.drop_last() =~= p.map_values(|m: MessageModel| message_json(m)));
        lemma_conversation_json_round_trip(p, now);
        lemma_parse_message_json(s.last(), now);
        assert(parse_messages(items, now) =~= s);
    } else {
        assert(parse_messages(items, now) =~= s);
    }
}

/// A message from the user carries the user's role, the text and time it was
/// given and no tool call; a message from the assistant carries the
/// assistant's role, the text, time and tool call it was given.
pub proof fn lemma_message_senders(content: Seq<char>, timestamp: u64, tool_call: Option<ToolCallModel>)
    ensures
        user_message(content, timestamp).role == Role::User,
        user_message(content, timestamp).content == content,
        user_message(content, timestamp).timestamp == timestamp,
        user_message(content, timestamp).tool_call is None,
        assistant_message(content, timestamp, tool_call).role == Role::Assistant,
        assistant_message(content, timestamp, tool_call).content == content,
        assistant_message(content, timestamp, tool_call).timestamp == timestamp,
        assistant_message(content, timestamp, tool_call).tool_call == tool_call,
{
}

/// Without a bound, a history keeps everything.
pub proof fn lemma_keep_last_unbounded<A>(s: Seq<A>)
    ensures
        keep_last(s, None) == s,
{
}

/// Appending to a history: unless the bound is 0, what is appended is the
/// newest item kept; within the bound (or without one) nothing is dropped;
/// at the bound the oldest item goes and the others stay in order.
pub proof fn lemma_keep_last_push<A>(s: Seq<A>, x: A, max: Option<usize>)
    ensures
        max != Some(0usize) ==> keep_last(s.push(x), max).len() > 0 && keep_last(s.push(x), max).last()
            == x,
        (max is None || s.len() < max.unwrap()) ==> keep_last(s.push(x), max) == s.push(x),
        max matches Some(m) ==> keep_last(s.push(x), max).len() == (if s.len() + 1 > m {
            m as int
        } else {
            s.len() + 1int
        }),
{
    lemma_keep_last_bound(s.push(x), max.unwrap_or(0usize));
}

/// The roles are written "user" and "assistant", and read back from those
/// texts alone.
pub proof fn lemma_role_texts(r: Role, t: Seq<char>)
    ensures
        role_text(Role::User) == "user"@,
        role_text(Role::Assistant) == "assistant"@,
        role_named("user"@) == Some(Role::User),
        role_named("assistant"@) == Some(Role::Assistant),
        role_named(t) is Some ==> t == "user"@ || t == "assistant"@,
        role_named(role_text(r)) == Some(r),
{
    reveal_strlit("user");
    reveal_strlit("assistant");
    assert("user"@[0] != "assistant"@[0]);
}

/// A tool call's JSON form holds its name under "tool_name", its arguments
/// under "arguments" and its result under "result" (null when it has none).
pub proof fn lemma_tool_call_json_members(t: ToolCallModel)
    ensures
        tool_call_json(t) is Object,
        model_get(tool_call_json(t), "tool_name"@) == Some(JsonModel::Str(t.tool_name)),
        model_get(tool_call_json(t), "arguments"@) == Some(t.arguments),
        model_get(tool_call_json(t), "result"@) == Some(
            match t.result {
                Some(r) => r,
                None => JsonModel::Null,
            },
        ),
{
    reveal_strlit("tool_name");
    reveal_strlit("arguments");
    reveal_strlit("result");
    let te = tool_call_json(t)->Object_0;
    assert("tool_name"@[0] != "arguments"@[0]);
    assert("tool_name"@[0] != "result"@[0]);
    assert("arguments"@[0] != "result"@[0]);
    assert(te[0].0 != te[1].0);
    assert(te[0].0 != te[2].0);
    assert(te[1].0 != te[2].0);
    lemma_model_entries_get_distinct(te, 0);
    lemma_model_entries_get_distinct(te, 1);
    lemma_model_entries_get_distinct(te, 2);
}

/// Reading a "tool_call" member: there is a tool call exactly when the
/// member is present, not null, and has a string "tool_name" and an
/// "arguments" member; its name and arguments are those members, and its
/// result is the "result" member, if any.
pub proof fn lemma_parse_tool_call_members(tc: JsonModel)
    ensures
        parse_tool_call(None) is None,
        parse_tool_call(Some(tc)) is Some <==> (!(tc is Null) && model_get_str(tc, "tool_name"@) is Some
            && model_get(tc, "arguments"@) is Some),
        parse_tool_call(Some(tc)) matches Some(t) ==> Some(t.tool_name) == model_get_str(
            tc,
            "tool_name"@,
        ) && Some(t.arguments) == model_get(tc, "arguments"@) && t.result == model_get(tc, "result"@),
{
}

/// A message's JSON form holds its role's text under "role", its text under
/// "content", its time under "timestamp" and its tool call's form (null
/// when it has none) under "tool_call".
pub proof fn lemma_message_json_members(m: MessageModel)
    ensures
        message_json(m) is Object,
        model_get(message_json(m), "role"@) == Some(JsonModel::Str(role_text(m.role))),
        model_get(message_json(m), "content"@) == Some(JsonModel::Str(m.content)),
        model_get(message_json(m), "timestamp"@) == Some(
            JsonModel::Number(JsonNumber::PosInt(m.timestamp)),
        ),
        model_get(message_json(m), "tool_call"@) == Some(
            match m.tool_call {
                Some(t) => tool_call_json(t),
                None => JsonModel::Null,
            },
        ),
{
    reveal_strlit("role");
    reveal_strlit("content");
    reveal_strlit("timestamp");
    reveal_strlit("tool_call");
    let e = message_json(m)->Object_0;
    assert("role"@[0] != "content"@[0]);
    assert("role"@[0] != "timestamp"@[0]);
    assert("timestamp"@[1] != "tool_call"@[1]);
    assert(e[0].0 != e[1].0);
    assert(e[0].0 != e[2].0);
    assert(e[0].0 != e[3].0);
    assert(e[1].0 != e[2].0);
    assert(e[1].0 != e[3].0);
    assert(e[2].0 != e[3].0);
    lemma_model_entries_get_distinct(e, 0);
    lemma_model_entries_get_distinct(e, 1);
    lemma_model_entries_get_distinct(e, 2);
    lemma_model_entries_get_distinct(e, 3);
}

/// Reading a message: there is one exactly when the value has a string
/// "role" that is "user" or "assistant" and a string "content"; its role,
/// text and tool call come from those members, and its time from a
/// non-negative integer "timestamp", else `now`.
pub proof fn lemma_parse_message_members(v: JsonModel, now: u64)
    ensures
        parse_message(v, now) is Some <==> ((model_get_str(v, "role"@) == Some("user"@)
            || model_get_str(v, "role"@) == Some("assistant"@)) && model_get_str(v, "content"@) is Some),
        parse_message(v, now) matches Some(m) ==> {
            &&& model_get_str(v, "role"@) == Some(role_text(m.role))
            &&& Some(m.content) == model_get_str(v, "content"@)
            &&& m.timestamp == (match model_get(v, "timestamp"@) {
                Some(JsonModel::Number(JsonNumber::PosInt(t))) => t,
                _ => now,
            })
            &&& m.tool_call == parse_tool_call(model_get(v, "tool_call"@))
        },
{
    reveal_strlit("user");
    reveal_strlit("assistant");
    assert("user"@[0] != "assistant"@[0]);
}

/// Reading an array of messages keeps, in order, exactly the elements that
/// stand for a message: appending an element appends its message, if any.
pub proof fn lemma_parse_messages_push(s: Seq<JsonModel>, v: JsonModel, now: u64)
    ensures
        parse_messages(Seq::empty(), now) == Seq::<MessageModel>::empty(),
        parse_messages(s.push(v), now) == (match parse_message(v, now) {
            Some(m) => parse_messages(s, now).push(m),
            None => parse_messages(s, now),
        }),
{
    assert(s.push(v).drop_last() =~= s);
}

/// The JSON text of a role.
fn role_to_json(r: Role) -> (v: JsonValue)
    ensures
        v@ == JsonModel::Str(role_text(r)),
{
    match r {
        Role::User => JsonValue::from_text("user"),
        Role::Assistant => JsonValue::from_text("assistant"),
    }
}

/// An object value with the given members, in order.
fn object_of(entries: Vec<(String, JsonValue)>) -> (v: JsonValue)
    ensures
        v@ == JsonModel::Object(entry_models_of(entries@)),
{
    JsonValue::Object(entries)
}

impl ToolCallInfo {
    /// The JSON form of the tool call.
    pub fn to_json(&self) -> (v: JsonValue)
        ensures
            v@ == tool_call_json(self@),
    {
        let result = match &self.result {
            Some(r) => r.deep_clone(),
            None => JsonValue::Null,
        };
        let mut e: Vec<(String, JsonValue)> = Vec::new();
        e.push((String::from_str("tool_name"), JsonValue::String(self.tool_name.clone())));
        e.push((String::from_str("arguments"), self.arguments.deep_clone()));
        e.push((String::from_str("result"), result));
        proof {
            lemma_entry_models_of(e@);
            assert(entry_models_of(e@) =~= tool_call_json(self@)->Object_0);
        }
        object_of(e)
    }

    /// The tool call that a "tool_call" member stands for.
    pub fn from_json(tc: Option<&JsonValue>) -> (r: Option<ToolCallInfo>)
        ensures
            opt_tool_model(r) == parse_tool_call(
                match tc {
                    Some(x) => Some(x@),
                    None => None,
                },
            ),
    {
        match tc {
            None => None,
            Some(t) => {
                if t.is_null() {
                    return None;
                }
                match (t.get_str("tool_name"), t.get("arguments")) {
                    (Some(n), Some(a)) => {
                        let result = match t.get("result") {
                            Some(x) => Some(x.deep_clone()),
                            None => None,
                        };
                        Some(
                            ToolCallInfo {
                                tool_name: n.to_owned(),
                                arguments: a.deep_clone(),
                                result,
                            },
                        )
                    },
                    _ => None,
                }
            },
        }
    }
}

impl ConversationMessage {
    /// The JSON form of the message.
    pub fn to_json(&self) -> (v: JsonValue)
        ensures
            v@ == message_json(self@),
    {
        let tool_call = match &self.tool_call {
            Some(t) => t.to_json(),
            None => JsonValue::Null,
        };
        let mut e: Vec<(String, JsonValue)> = Vec::new();
        e.push((String::from_str("role"), role_to_json(self.role)));
        e.push((String::from_str("content"), JsonValue::String(self.content.clone())));
        e.push(
            (String::from_str("timestamp"), JsonValue::Number(JsonNumber::PosInt(self.timestamp))),
        );
        e.push((String::from_str("tool_call"), tool_call));
        proof {
            lemma_entry_models_of(e@);
            assert(entry_models_of(e@) =~= message_json(self@)->Object_0);
        }
        object_of(e)
    }

    /// The message that a JSON value stands for, stamped with `now` when the
    /// value records no timestamp.
    pub fn from_json(v: &JsonValue, now: u64) -> (r: Option<ConversationMessage>)
        ensures
            r.is_some() == parse_message(v@, now).is_some(),
            r matches Some(m) ==> m@ == parse_message(v@, now).unwrap(),
    {
        match (v.get_str("role"), v.get_str("content")) {
            (Some(role_text), Some(content)) => {
                let role = if crate::json::text_eq(role_text, "user") {
                    Role::User
                } else if crate::json::text_eq(role_text, "assistant") {
                    Role::Assistant
                } else {
                    return None;
                };
                let tool_call = ToolCallInfo::from_json(v.get("tool_call"));
                let timestamp = match v.get("timestamp") {
                    Some(t) => match t.as_u64() {
                        Some(n) => n,
                        None => now,
                    },
                    None => now,
                };
                Some(ConversationMessage { role, content: content.to_owned(), timestamp, tool_call })
            },
            _ => None,
        }
    }
}

/// The messages that a JSON array stands for, stamped with `now` where it
/// records no timestamp; nothing when the value is not an array.
pub open spec fn parsed_conversation(json: JsonModel, now: u64) -> Option<Seq<MessageModel>> {
    match json {
        JsonModel::Array(items) => Some(parse_messages(items, now)),
        _ => None,
    }
}

/// How many messages a JSON array stands for does not depend on the time
/// that stamps the messages without a timestamp.
pub proof fn lemma_parse_messages_len(items: Seq<JsonModel>, a: u64, b: u64)
    ensures
        parse_messages(items, a).len() == parse_messages(items, b).len(),
    decreases items.len(),
{
    if items.len() > 0 {
        lemma_parse_messages_len(items.drop_last(), a, b);
    }
}

/// The bounded history of a conversation.
#[derive(Debug)]
pub struct ConversationManager {
    messages: VecDeque<ConversationMessage>,
    max_messages: Option<usize>,
}

impl View for ConversationManager {
    type V = Seq<MessageModel>;

    closed spec fn view(&self) -> Seq<MessageModel> {
        self.messages@.map_values(|m: ConversationMessage| m@)
    }
}

impl Default for ConversationManager {
    /// An empty conversation without a bound.
    fn default() -> (c: Self)
        ensures
            c@ == Seq::<MessageModel>::empty(),
            c.max() is None,
    {
        ConversationManager::new()
    }
}

impl ConversationManager {
    /// The bound on the number of messages kept, if any.
    pub closed spec fn max(&self) -> Option<usize> {
        self.max_messages
    }

    /// An empty conversation without a bound.
    pub fn new() -> (c: Self)
        ensures
            c@ == Seq::<MessageModel>::empty(),
            c.max() is None,
    {
        let c = ConversationManager { messages: VecDeque::new(), max_messages: None };
        assert(c@ =~= Seq::<MessageModel>::empty());
        c
    }

    /// The conversation with at most `max` messages kept from now on; the
    /// messages it has stay as they are.
    pub fn with_max_messages(self, max: usize) -> (c: Self)
        ensures
            c@ == self@,
            c.max() == Some(max),
    {
        ConversationManager { messages: self.messages, max_messages: Some(max) }
    }

    /// Appends a message, then drops the oldest ones beyond the bound.
    pub fn add_message_at(
        &mut self,
        role: Role,
        content: String,
        tool_call: Option<ToolCallInfo>,
        timestamp: u64,
    )
        ensures
            final(self).max() == old(self).max(),
            final(self)@ == keep_last(
                old(self)@.push(
                    MessageModel {
                        role,
                        content: content@,
                        timestamp,
                        tool_call: opt_tool_model(tool_call),
                    },
                ),
                old(self).max(),
            ),
            old(self).max() is None ==> final(self)@ == old(self)@.push(
                MessageModel { role, content: content@, timestamp, tool_call: opt_tool_model(tool_call) },
            ),
            old(self).max() != Some(0usize) ==> final(self)@.len() > 0 && final(self)@.last() == (
            MessageModel { role, content: content@, timestamp, tool_call: opt_tool_model(tool_call) }),
    {
        let ghost pushed = self@.push(
            MessageModel {
                role,
                content: content@,
                timestamp,
                tool_call: opt_tool_model(tool_call),
            },
        );
        let message = ConversationMessage { role, content, timestamp, tool_call };
        self.messages.push_back(message);
        assert(self@ =~= pushed);
        if let Some(max) = self.max_messages {
            while self.messages.len() > max
                invariant
                    self.max_messages == Some(max),
                    pushed.len() >= self@.len(),
                    self@ == pushed.skip(pushed.len() - self@.len()),
                    pushed.len() > max ==> self@.len() >= max,
                    pushed.len() <= max ==> self@.len() == pushed.len(),
                decreases self.messages@.len(),
            {
                let ghost before = self@;
                self.messages.pop_front();
                assert(self@ =~= before.drop_first());
                assert(self@ =~= pushed.skip(pushed.len() - self@.len()));
            }
            assert(self@.len() == self.messages@.len());
            assert(self@ =~= keep_last(pushed, Some(max)));
        }
        proof {
            lemma_keep_last_push(old(self)@, pushed.last(), old(self).max());
            assert(old(self)@.push(pushed.last()) =~= pushed);
        }
    }

    /// Appends a message from the user, stamped with the current time.
    pub fn add_user_message(&mut self, content: &str)
        ensures
            final(self).max() == old(self).max(),
            old(self).max() != Some(0usize) ==> final(self)@.len() > 0 && final(self)@.last().role
                == Role::User && final(self)@.last().content == content@ && final(self)@.last().tool_call
                is None,
            old(self).max() is None ==> final(self)@.len() == old(self)@.len() + 1 && final(self)@.take(
                old(self)@.len() as int,
            ) == old(self)@,
            exists|t: u64|
                final(self)@ == keep_last(
                    old(self)@.push(#[trigger] user_message(content@, t)),
                    old(self).max(),
                ),
    {
        let t = crate::clock::unix_time_now();
        self.add_message_at(Role::User, content.to_owned(), None, t);
        assert(self@ == keep_last(old(self)@.push(user_message(content@, t)), old(self).max()));
    }

    /// Appends a message from the assistant, stamped with the current time.
    pub fn add_assistant_message(&mut self, content: &str)
        ensures
            final(self).max() == old(self).max(),
            old(self).max() != Some(0usize) ==> final(self)@.len() > 0 && final(self)@.last().role
                == Role::Assistant && final(self)@.last().content == content@
                && final(self)@.last().tool_call is None,
            old(self).max() is None ==> final(self)@.len() == old(self)@.len() + 1 && final(self)@.take(
                old(self)@.len() as int,
            ) == old(self)@,
            exists|t: u64|
                final(self)@ == keep_last(
                    old(self)@.push(#[trigger] assistant_message(content@, t, None)),
                    old(self).max(),
                ),
    {
        let t = crate::clock::unix_time_now();
        self.add_message_at(Role::Assistant, content.to_owned(), None, t);
        assert(self@ == keep_last(
            old(self)@.push(assistant_message(content@, t, None)),
            old(self).max(),
        ));
    }

    /// Appends a message from the assistant that records a tool call,
    /// stamped with the current time.
    pub fn add_tool_call(&mut self, content: &str, tool_info: ToolCallInfo)
        ensures
            final(self).max() == old(self).max(),
            old(self).max() != Some(0usize) ==> final(self)@.len() > 0 && final(self)@.last().role
                == Role::Assistant && final(self)@.last().content == content@
                && final(self)@.last().tool_call == Some(tool_info@),
            old(self).max() is None ==> final(self)@.len() == old(self)@.len() + 1 && final(self)@.take(
                old(self)@.len() as int,
            ) == old(self)@,
            exists|t: u64|
                final(self)@ == keep_last(
                    old(self)@.push(#[trigger] assistant_message(content@, t, Some(tool_info@))),
                    old(self).max(),
                ),
    {
        let t = crate::clock::unix_time_now();
        let ghost info = tool_info@;
        self.add_message_at(Role::Assistant, content.to_owned(), Some(tool_info), t);
        assert(self@ == keep_last(
            old(self)@.push(assistant_message(content@, t, Some(info))),
            old(self).max(),
        ));
    }

    /// All messages, oldest first.
    pub fn get_messages(&self) -> (r: Vec<&ConversationMessage>)
        ensures
            r@.len() == self@.len(),
            forall|i: int| 0 <= i < r@.len() ==> (#[trigger] r@[i])@ == self@[i],
    {
        let mut r: Vec<&ConversationMessage> = Vec::new();
        let mut i: usize = 0;
        while i < self.messages.len()
            invariant
                i <= self.messages@.len(),
                r@.len() == i,
                forall|j: int| 0 <= j < i ==> (#[trigger] r@[j])@ == self.messages@[j]@,
            decreases self.messages@.len() - i,
        {
            r.push(&self.messages[i]);
            i = i + 1;
        }
        r
    }

    /// The role and text of every message, oldest first.
    pub fn get_messages_as_tuples(&self) -> (r: Vec<(Role, String)>)
        ensures
            r@.len() == self@.len(),
            forall|i: int|
                0 <= i < r@.len() ==> (#[trigger] r@[i]).0 == self@[i].role && r@[i].1@
                    == self@[i].content,
    {
        let mut r: Vec<(Role, String)> = Vec::new();
        let mut i: usize = 0;
        while i < self.messages.len()
            invariant
                i <= self.messages@.len(),
                r@.len() == i,
                forall|j: int|
                    0 <= j < i ==> (#[trigger] r@[j]).0 == self.messages@[j].role && r@[j].1@
                        == self.messages@[j].content@,
            decreases self.messages@.len() - i,
        {
            let m = &self.messages[i];
            r.push((m.role, m.content.clone()));
            i = i + 1;
        }
        r
    }

    /// Removes every message.
    pub fn clear(&mut self)
        ensures
            final(self)@ == Seq::<MessageModel>::empty(),
            final(self).max() == old(self).max(),
    {
        self.messages.clear();
        assert(self@ =~= Seq::<MessageModel>::empty());
    }

    /// The last `n` messages, oldest first (all of them when there are
    /// fewer).
    pub fn get_last_messages(&self, n: usize) -> (r: Vec<&ConversationMessage>)
        ensures
            r@.len() == keep_last(self@, Some(n)).len(),
            forall|i: int|
                0 <= i < r@.len() ==> (#[trigger] r@[i])@ == keep_last(self@, Some(n))[i],
    {
        let len = self.messages.len();
        let start: usize = if len > n { len - n } else { 0 };
        let mut r: Vec<&ConversationMessage> = Vec::new();
        let mut i: usize = start;
        while i < len
            invariant
                len == self.messages@.len(),
                start <= i <= len,
                start == (if len > n { len - n } else { 0 }),
                r@.len() == i - start,
                forall|j: int| 0 <= j < r@.len() ==> (#[trigger] r@[j])@ == self.messages@[start + j]@,
            decreases len - i,
        {
            r.push(&self.messages[i]);
            i = i + 1;
        }
        r
    }

    /// Keeps only the last `n` messages.
    pub fn trim_to_last(&mut self, n: usize)
        ensures
            final(self)@ == keep_last(old(self)@, Some(n)),
            final(self).max() == old(self).max(),
    {
        let ghost orig = self@;
        while self.messages.len() > n
            invariant
                self.max_messages == old(self).max_messages,
                orig == old(self)@,
                orig.len() >= self@.len(),
                self@ == orig.skip(orig.len() - self@.len()),
                orig.len() > n ==> self@.len() >= n,
                orig.len() <= n ==> self@.len() == orig.len(),
            decreases self.messages@.len(),
        {
            let ghost before = self@;
            self.messages.pop_front();
            assert(self@ =~= before.drop_first());
            assert(self@ =~= orig.skip(orig.len() - self@.len()));
        }
        assert(self@.len() == self.messages@.len());
        assert(self@ =~= keep_last(orig, Some(n)));
    }

    /// The JSON form of the conversation: an array of its messages' forms.
    pub fn to_json(&self) -> (v: JsonValue)
        ensures
            v@ == conversation_json(self@),
    {
        let mut items: Vec<JsonValue> = Vec::new();
        let mut i: usize = 0;
        while i < self.messages.len()
            invariant
                i <= self.messages@.len(),
                items@.len() == i,
                forall|j: int| 0 <= j < i ==> (#[trigger] items@[j])@ == message_json(self.messages@[j]@),
            decreases self.messages@.len() - i,
        {
            items.push(self.messages[i].to_json());
            i = i + 1;
        }
        proof {
            lemma_models_of(items@);
            assert(models_of(items@) =~= self@.map_values(|m: MessageModel| message_json(m)));
        }
        JsonValue::Array(items)
    }

    /// The conversation that a JSON array stands for, without a bound;
    /// messages that record no timestamp are stamped with `now`.  Anything
    /// but an array is refused.
    pub fn from_json_at(json: &JsonValue, now: u64) -> (r: Result<Self, String>)
        ensures
            match json@ {
                JsonModel::Array(items) => r matches Ok(c) && c@ == parse_messages(items, now)
                    && c.max() is None,
                _ => r matches Err(e) && e@ == "Expected an array of messages"@,
            },
    {
        match json.as_array() {
            Some(arr) => {
                let mut c = ConversationManager::new();
                let ghost items = models_of(arr@);
                proof {
                    lemma_models_of(arr@);
                    assert(items.take(0) =~= Seq::<JsonModel>::empty());
                }
                let mut i: usize = 0;
                while i < arr.len()
                    invariant
                        items == models_of(arr@),
                        items.len() == arr@.len(),
                        forall|j: int| 0 <= j < arr@.len() ==> #[trigger] items[j] == arr@[j]@,
                        i <= arr@.len(),
                        c@ == parse_messages(items.take(i as int), now),
                        c.max() is None,
                    decreases arr@.len() - i,
                {
                    let m = ConversationMessage::from_json(&arr[i], now);
                    proof {
                        assert(items.take(i + 1).drop_last() =~= items.take(i as int));
                        assert(items.take(i + 1).last() == arr@[i as int]@);
                    }
                    match m {
                        Some(msg) => {
                            let ghost before = c@;
                            c.messages.push_back(msg);
                            assert(c@ =~= before.push(msg@));
                        },
                        None => {},
                    }
                    i = i + 1;
                }
                proof {
                    assert(items.take(arr@.len() as int) =~= items);
                }
                Ok(c)
            },
            None => Err(String::from_str("Expected an array of messages")),
        }
    }

    /// The conversation that a JSON array stands for; messages that record
    /// no timestamp are stamped with the current time.
    pub fn from_json(json: &JsonValue) -> (r: Result<Self, String>)
        ensures
            r.is_ok() == (json@ is Array),
            r matches Err(e) ==> e@ == "Expected an array of messages"@,
            r matches Ok(c) ==> c.max() is None && exists|now: u64|
                c@ == #[trigger] parsed_conversation(json@, now).unwrap(),
    {
        let now = crate::clock::unix_time_now();
        let r = Self::from_json_at(json, now);
        proof {
            if r.is_ok() {
                assert(r.unwrap()@ == parsed_conversation(json@, now).unwrap());
            }
        }
        r
    }

    /// The number of messages.
    pub fn len(&self) -> (n: usize)
        ensures
            n == self@.len(),
    {
        self.messages.len()
    }

    /// Whether there is no message.
    pub fn is_empty(&self) -> (b: bool)
        ensures
            b == (self@.len() == 0),
    {
        self.messages.len() == 0
    }
}

} // verus!
