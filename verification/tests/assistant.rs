use rpocketflow::mcp::assistant::{
    extract_text, max_tokens_or_default, prepare_conversation, reply_value, store_response, ContentBlock,
};
use rpocketflow::{ConversationManager, FlowError, JsonValue, Role, Shared};

fn obj(entries: Vec<(&str, JsonValue)>) -> JsonValue {
    JsonValue::Object(entries.into_iter().map(|(k, v)| (k.to_string(), v)).collect())
}

fn text(s: &str) -> JsonValue {
    JsonValue::String(s.to_string())
}

#[test]
fn reply_text_joins_text_blocks() {
    let blocks = vec![
        ContentBlock::Text("Hello".to_string()),
        ContentBlock::Other,
        ContentBlock::Text("world".to_string()),
    ];
    assert_eq!(extract_text(&blocks), "Hello\nworld");
    assert_eq!(extract_text(&vec![ContentBlock::Other]), "");
    assert_eq!(max_tokens_or_default(None), 1024);
    assert_eq!(max_tokens_or_default(Some(100)), 100);
}

#[test]
fn input_becomes_a_user_message() {
    let mut convo = ConversationManager::new();
    let mut shared = Shared::new();
    shared.insert("mcp_input".to_string(), text("What is Rust?"));
    let prepared = prepare_conversation(&mut convo, &shared).unwrap();
    assert_eq!(prepared, obj(vec![("prepared", JsonValue::Bool(true))]));
    let m = convo.get_messages();
    assert_eq!(m.len(), 1);
    assert_eq!(m[0].role, Role::User);
    assert_eq!(m[0].content, "What is Rust?");
}

#[test]
fn history_round_trips_through_shared_state() {
    let mut convo = ConversationManager::new();
    convo.add_message_at(Role::User, "q".to_string(), None, 1);
    convo.add_message_at(Role::Assistant, "a".to_string(), None, 2);
    let mut shared = Shared::new();
    let exec_res = reply_value("a", JsonValue::Null);
    let action = store_response(&convo, &mut shared, &exec_res);
    assert_eq!(action, text("default"));
    assert_eq!(shared.get("mcp_output"), Some(&text("a")));
    assert_eq!(shared.get("mcp_tool_results"), Some(&JsonValue::Array(vec![])));

    let mut fresh = ConversationManager::new();
    prepare_conversation(&mut fresh, &shared).unwrap();
    let m = fresh.get_messages();
    assert_eq!(m.len(), 2);
    assert_eq!(m[0].content, "q");
    assert_eq!(m[1].content, "a");
    assert_eq!(m[1].timestamp, 2);
}

#[test]
fn malformed_history_is_an_error() {
    let mut convo = ConversationManager::new();
    let mut shared = Shared::new();
    shared.insert("mcp_history".to_string(), text("not a list"));
    match prepare_conversation(&mut convo, &shared) {
        Err(FlowError::Mcp(m)) => {
            assert_eq!(m, "Failed to parse conversation history: Expected an array of messages")
        }
        _ => panic!("expected an error"),
    }
}

#[test]
fn empty_history_keeps_the_conversation() {
    let mut convo = ConversationManager::new();
    let mut shared = Shared::new();
    shared.insert("mcp_input".to_string(), text("hi"));
    shared.insert("mcp_history".to_string(), JsonValue::Array(vec![]));
    prepare_conversation(&mut convo, &shared).unwrap();
    assert_eq!(convo.len(), 1);
}

#[test]
fn saved_history_replaces_the_conversation_and_input() {
    let mut convo = ConversationManager::new().with_max_messages(5);
    convo.add_message_at(Role::User, "old".to_string(), None, 1);
    let mut shared = Shared::new();
    shared.insert("mcp_input".to_string(), text("new question"));
    let saved = obj(vec![
        ("role", text("assistant")),
        ("content", text("saved")),
        ("timestamp", JsonValue::Number(rpocketflow::JsonNumber::PosInt(9))),
    ]);
    shared.insert("mcp_history".to_string(), JsonValue::Array(vec![saved]));
    prepare_conversation(&mut convo, &shared).unwrap();
    let m = convo.get_messages();
    assert_eq!(m.len(), 1);
    assert_eq!(m[0].role, Role::Assistant);
    assert_eq!(m[0].content, "saved");
    assert_eq!(m[0].timestamp, 9);
}
