//! The decisions of a node that converses with a model: what it takes from
//! the shared state before it asks the model, what it leaves there after,
//! and the text it reads from a reply.

use vstd::prelude::*;
use crate::mcp::conversation::{
    ConversationManager, MessageModel, conversation_json, keep_last, parse_messages, parsed_conversation,
    user_message,
};
use crate::errors::FlowError;
use crate::json::{JsonModel, JsonValue, entry_models_of, lemma_entry_models_of, model_get, model_str};
use crate::sync::base_node::Shared;

verus! {

/// A block of a model's reply, as far as the library reads it.
#[derive(Debug)]
pub enum ContentBlock {
    /// Text.
    Text(String),
    /// Anything else, such as an image.
    Other,
}

/// The texts of the text blocks, in order.
pub open spec fn block_texts(blocks: Seq<ContentBlock>) -> Seq<Seq<char>>
    decreases blocks.len(),
{
    if blocks.len() == 0 {
        Seq::empty()
    } else {
        let rest = block_texts(blocks.drop_last());
        match blocks.last() {
            ContentBlock::Text(t) => rest.push(t@),
            ContentBlock::Other => rest,
        }
    }
}

/// Texts joined by line breaks.
pub open spec fn join_lines(parts: Seq<Seq<char>>) -> Seq<char>
    decreases parts.len(),
{
    if parts.len() == 0 {
        Seq::empty()
    } else if parts.len() == 1 {
        parts[0]
    } else {
        join_lines(parts.drop_last()) + "\n"@ + parts.last()
    }
}

/// Joining texts by line breaks: no text gives the empty text, one text
/// gives that text, and one more text adds a line break and that text.
pub proof fn lemma_join_lines(parts: Seq<Seq<char>>, p: Seq<char>)
    ensures
        join_lines(Seq::<Seq<char>>::empty()) == Seq::<char>::empty(),
        join_lines(seq![p]) == p,
        parts.len() > 0 ==> join_lines(parts.push(p)) == join_lines(parts) + "\n"@ + p,
{
    assert(parts.push(p).drop_last() =~= parts);
}

/// The texts of a reply's blocks: none for no block, and each further block
/// adds its text when it is a text block and nothing otherwise.
pub proof fn lemma_block_texts(blocks: Seq<ContentBlock>, t: String)
    ensures
        block_texts(Seq::<ContentBlock>::empty()) == Seq::<Seq<char>>::empty(),
        block_texts(blocks.push(ContentBlock::Text(t))) == block_texts(blocks).push(t@),
        block_texts(blocks.push(ContentBlock::Other)) == block_texts(blocks),
{
    assert(blocks.push(ContentBlock::Text(t)).drop_last() =~= blocks);
    assert(blocks.push(ContentBlock::Other).drop_last() =~= blocks);
}

/// The text of a reply: its text blocks joined by line breaks.
pub fn extract_text(blocks: &Vec<ContentBlock>) -> (r: String)
    ensures
        r@ == join_lines(block_texts(blocks@)),
        blocks@.len() == 1 ==> (blocks@[0] matches ContentBlock::Text(t) ==> r@ == t@),
        (forall|i: int| 0 <= i < blocks@.len() ==> blocks@[i] is Other) ==> r@.len() == 0,
{
    let mut r = String::new();
    let mut any = false;
    let mut i: usize = 0;
    proof {
        assert(blocks@.take(0) =~= Seq::<ContentBlock>::empty());
    }
    while i < blocks.len()
        invariant
            i <= blocks@.len(),
            r@ == join_lines(block_texts(blocks@.take(i as int))),
            any == (block_texts(blocks@.take(i as int)).len() > 0),
            !any ==> r@.len() == 0,
            (forall|j: int| 0 <= j < i ==> blocks@[j] is Other) ==> !any,
        decreases blocks@.len() - i,
    {
        proof {
            assert(blocks@.take(i + 1).drop_last() =~= blocks@.take(i as int));
        }
        match &blocks[i] {
            ContentBlock::Text(t) => {
                if any {
                    r.append("\n");
                }
                r.append(t.as_str());
                any = true;
                proof {
                    let parts = block_texts(blocks@.take(i + 1));
                    assert(parts.drop_last() =~= block_texts(blocks@.take(i as int)));
                }
            },
            ContentBlock::Other => {},
        }
        i = i + 1;
    }
    proof {
        assert(blocks@.take(blocks@.len() as int) =~= blocks@);
    }
    r
}

/// The number of tokens to ask for: the configured number, else 1024.
pub fn max_tokens_or_default(max_tokens: Option<u32>) -> (n: usize)
    ensures
        n == (match max_tokens {
            Some(t) => t as usize,
            None => 1024,
        }),
{
    match max_tokens {
        Some(t) => t as usize,
        None => 1024,
    }
}

/// `{"prepared": true}`.
pub open spec fn prepared_json() -> JsonModel {
    JsonModel::Object(seq![("prepared"@, JsonModel::Bool(true))])
}

/// The text of the "mcp_input" member of the shared state, if it is a string.
pub open spec fn shared_input(shared: Map<Seq<char>, JsonValue>) -> Option<Seq<char>> {
    if shared.contains_key("mcp_input"@) {
        model_str(shared["mcp_input"@]@)
    } else {
        None
    }
}

/// Whether `after` is `before` with the user's input appended, when there
/// is input, at some time.
pub open spec fn input_taken(
    before: Seq<MessageModel>,
    max: Option<usize>,
    input: Option<Seq<char>>,
    after: Seq<MessageModel>,
) -> bool {
    match input {
        Some(s) => exists|t: u64| after == keep_last(before.push(#[trigger] user_message(s, t)), max),
        None => after == before,
    }
}

/// Whether the shared state holds a saved history with messages: an array
/// under "mcp_history" of which some message reads back.  How many messages
/// read back does not depend on the time that stamps them.
pub open spec fn has_saved_history(shared: Map<Seq<char>, JsonValue>) -> bool {
    shared.contains_key("mcp_history"@) && match shared["mcp_history"@]@ {
        JsonModel::Array(items) => exists|now: u64| #[trigger] parse_messages(items, now).len() > 0,
        _ => false,
    }
}

/// Takes the user's input and any saved history from the shared state
/// before the model is asked: the input is appended to the conversation,
/// then a saved history with messages replaces the conversation, without a
/// bound.  A saved history that is not an array is an error.
pub fn prepare_conversation(conversation: &mut ConversationManager, shared: &Shared) -> (r: Result<
    JsonValue,
    FlowError,
>)
    ensures
        r.is_err() == (shared@.contains_key("mcp_history"@) && !(shared@["mcp_history"@]@ is Array)),
        r matches Err(e) ==> e matches FlowError::Mcp(t) && t@
            == "Failed to parse conversation history: "@ + "Expected an array of messages"@,
        r matches Ok(v) ==> v@ == prepared_json(),
        has_saved_history(shared@) ==> final(conversation).max() is None && exists|now: u64|
            final(conversation)@ == #[trigger] parsed_conversation(shared@["mcp_history"@]@, now).unwrap(),
        !has_saved_history(shared@) ==> final(conversation).max() == old(conversation).max()
            && input_taken(
            old(conversation)@,
            old(conversation).max(),
            shared_input(shared@),
            final(conversation)@,
        ),
{
    match shared.get("mcp_input") {
        Some(input) => match input.as_str() {
            Some(s) => {
                conversation.add_user_message(s);
            },
            None => {},
        },
        None => {},
    }
    let ghost after_input = conversation@;
    assert(input_taken(old(conversation)@, old(conversation).max(), shared_input(shared@), after_input));
    match shared.get("mcp_history") {
        Some(history) => match ConversationManager::from_json(history) {
            Ok(manager) => {
                let ghost items = shared@["mcp_history"@]@->Array_0;
                let ghost n0 = choose|n: u64|
                    manager@ == #[trigger] parsed_conversation(shared@["mcp_history"@]@, n).unwrap();
                assert(manager@ == parse_messages(items, n0));
                if manager.len() > 0 {
                    *conversation = manager;
                    assert(parse_messages(items, n0).len() > 0);
                    assert(has_saved_history(shared@));
                } else {
                    proof {
                        assert forall|now: u64| #[trigger] parse_messages(items, now).len() == 0 by {
                            crate::mcp::conversation::lemma_parse_messages_len(items, now, n0);
                        }
                        assert(!has_saved_history(shared@));
                    }
                }
            },
            Err(e) => {
                let mut t = String::from_str("Failed to parse conversation history: ");
                t.append(e.as_str());
                return Err(FlowError::Mcp(t));
            },
        },
        None => {},
    }
    let mut e: Vec<(String, JsonValue)> = Vec::new();
    e.push((String::from_str("prepared"), JsonValue::Bool(true)));
    proof {
        lemma_entry_models_of(e@);
        assert(entry_models_of(e@) =~= prepared_json()->Object_0);
    }
    Ok(JsonValue::Object(e))
}

/// `{"text": text, "tool_results": [], "raw_message": raw}`.
pub open spec fn reply_json(text: Seq<char>, raw: JsonModel) -> JsonModel {
    JsonModel::Object(
        seq![
            ("text"@, JsonModel::Str(text)),
            ("tool_results"@, JsonModel::Array(Seq::empty())),
            ("raw_message"@, raw),
        ],
    )
}

/// The result of asking the model: the reply's text, no tool results, and
/// the raw reply.
pub fn reply_value(text: &str, raw_message: JsonValue) -> (r: JsonValue)
    ensures
        r@ == reply_json(text@, raw_message@),
{
    let mut e: Vec<(String, JsonValue)> = Vec::new();
    e.push((String::from_str("text"), JsonValue::from_text(text)));
    let empty: Vec<JsonValue> = Vec::new();
    proof {
        assert(crate::json::models_of(empty@) =~= Seq::<JsonModel>::empty());
    }
    e.push((String::from_str("tool_results"), JsonValue::Array(empty)));
    e.push((String::from_str("raw_message"), raw_message));
    proof {
        lemma_entry_models_of(e@);
        assert(entry_models_of(e@) =~= reply_json(text@, e@[2].1@)->Object_0);
    }
    JsonValue::Object(e)
}

/// Leaves the model's reply in the shared state after the model was asked:
/// its "text" under "mcp_output" and its "tool_results" under
/// "mcp_tool_results" when it has them, and the conversation's JSON form
/// under "mcp_history".  The next action is the default one.
pub fn store_response(conversation: &ConversationManager, shared: &mut Shared, exec_res: &JsonValue) -> (action: JsonValue)
    ensures
        action@ == JsonModel::Str("default"@),
        final(shared)@.contains_key("mcp_history"@),
        final(shared)@["mcp_history"@]@ == conversation_json(conversation@),
        model_get(exec_res@, "text"@) matches Some(t) ==> final(shared)@.contains_key("mcp_output"@)
            && final(shared)@["mcp_output"@]@ == t,
        model_get(exec_res@, "tool_results"@) matches Some(t) ==> final(shared)@.contains_key(
            "mcp_tool_results"@,
        ) && final(shared)@["mcp_tool_results"@]@ == t,
        forall|k: Seq<char>|
            #![trigger final(shared)@.contains_key(k)]
            final(shared)@.contains_key(k) <==> (old(shared)@.contains_key(k) || k == "mcp_history"@
                || (k == "mcp_output"@ && model_get(exec_res@, "text"@) is Some) || (k
                == "mcp_tool_results"@ && model_get(exec_res@, "tool_results"@) is Some)),
        forall|k: Seq<char>|
            old(shared)@.contains_key(k) && k != "mcp_history"@ && k != "mcp_output"@ && k
                != "mcp_tool_results"@ ==> final(shared)@[k] == old(shared)@[k],
{
    proof {
        reveal_strlit("mcp_output");
        reveal_strlit("mcp_tool_results");
        reveal_strlit("mcp_history");
        assert("mcp_output"@[4] != "mcp_tool_results"@[4]);
        assert("mcp_output"@[4] != "mcp_history"@[4]);
        assert("mcp_tool_results"@[4] != "mcp_history"@[4]);
    }
    match exec_res.get("text") {
        Some(t) => {
            shared.insert(String::from_str("mcp_output"), t.deep_clone());
        },
        None => {},
    }
    match exec_res.get("tool_results") {
        Some(t) => {
            shared.insert(String::from_str("mcp_tool_results"), t.deep_clone());
        },
        None => {},
    }
    shared.insert(String::from_str("mcp_history"), conversation.to_json());
    JsonValue::from_text("default")
}

/// The history that one run of the node leaves in the shared state is read
/// back by the next run: the messages come back as they were, whatever the
/// time, when every tool call that they record has a result.
pub proof fn lemma_history_round_trip(c: Seq<MessageModel>, now: u64)
    requires
        forall|i: int| 0 <= i < c.len() ==> crate::mcp::conversation::result_recorded(#[trigger] c[i]),
    ensures
        parsed_conversation(conversation_json(c), now) == Some(c),
{
    crate::mcp::conversation::lemma_conversation_json_round_trip(c, now);
}

/// The result of preparing holds true under "prepared".
pub proof fn lemma_prepared_members()
    ensures
        prepared_json() is Object,
        model_get(prepared_json(), "prepared"@) == Some(JsonModel::Bool(true)),
{
    reveal_strlit("prepared");
    let e = prepared_json()->Object_0;
    assert(e[0].0 == "prepared"@);
    crate::json::lemma_object_members(e);
    assert(model_get(prepared_json(), e[0].0) == Some(e[0].1));
}

/// The result of asking the model holds the reply's text under "text", an
/// empty array under "tool_results" and the raw reply under "raw_message".
pub proof fn lemma_reply_members(text: Seq<char>, raw: JsonModel)
    ensures
        reply_json(text, raw) is Object,
        model_get(reply_json(text, raw), "text"@) == Some(JsonModel::Str(text)),
        model_get(reply_json(text, raw), "tool_results"@) == Some(JsonModel::Array(Seq::empty())),
        model_get(reply_json(text, raw), "raw_message"@) == Some(raw),
{
    reveal_strlit("text");
    reveal_strlit("tool_results");
    reveal_strlit("raw_message");
    let e = reply_json(text, raw)->Object_0;
    assert(e[0].0 == "text"@);
    assert(e[1].0 == "tool_results"@);
    assert(e[2].0 == "raw_message"@);
    assert("text"@ != "tool_results"@);
    assert("text"@ != "raw_message"@);
    assert("tool_results"@ != "raw_message"@);
    crate::json::lemma_object_members(e);
    assert(model_get(reply_json(text, raw), e[0].0) == Some(e[0].1));
    assert(model_get(reply_json(text, raw), e[1].0) == Some(e[1].1));
    assert(model_get(reply_json(text, raw), e[2].0) == Some(e[2].1));
}

} // verus!
