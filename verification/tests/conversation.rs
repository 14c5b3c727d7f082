use rpocketflow::{ConversationManager, JsonNumber, JsonValue, Role, ToolCallInfo};

#[test]
fn test_conversation_manager() {
    let mut convo = ConversationManager::new();

    convo.add_user_message("Hello");
    convo.add_assistant_message("Hi there!");
    convo.add_user_message("How are you?");

    assert_eq!(convo.len(), 3);
    let messages = convo.get_messages();
    assert_eq!(messages[0].content, "Hello");
    assert_eq!(messages[1].content, "Hi there!");
    assert_eq!(messages[2].content, "How are you?");

    let tuples = convo.get_messages_as_tuples();
    assert_eq!(tuples.len(), 3);
    assert_eq!(tuples[0].0, Role::User);
    assert_eq!(tuples[0].1, "Hello");

    convo.trim_to_last(2);
    assert_eq!(convo.len(), 2);
    let messages = convo.get_messages();
    assert_eq!(messages[0].content, "Hi there!");
    assert_eq!(messages[1].content, "How are you?");

    let json_val = convo.to_json();
    assert!(json_val.as_array().is_some());
    assert_eq!(json_val.as_array().unwrap().len(), 2);

    convo.clear();
    assert_eq!(convo.len(), 0);
    assert!(convo.is_empty());
}

#[test]
fn bounded_conversation_keeps_newest_messages() {
    let mut convo = ConversationManager::new().with_max_messages(2);
    convo.add_user_message("one");
    convo.add_assistant_message("two");
    convo.add_user_message("three");
    let messages = convo.get_messages();
    assert_eq!(messages.len(), 2);
    assert_eq!(messages[0].content, "two");
    assert_eq!(messages[1].content, "three");

    let mut none_kept = ConversationManager::new().with_max_messages(0);
    none_kept.add_user_message("dropped");
    assert!(none_kept.is_empty());
}

#[test]
fn last_messages_are_the_newest_in_order() {
    let mut convo = ConversationManager::new();
    convo.add_message_at(Role::User, "a".to_string(), None, 1);
    convo.add_message_at(Role::Assistant, "b".to_string(), None, 2);
    convo.add_message_at(Role::User, "c".to_string(), None, 3);
    let last = convo.get_last_messages(2);
    assert_eq!(last.len(), 2);
    assert_eq!(last[0].content, "b");
    assert_eq!(last[1].content, "c");
    assert_eq!(convo.get_last_messages(10).len(), 3);
}

#[test]
fn conversation_json_round_trip() {
    let mut convo = ConversationManager::new();
    convo.add_message_at(Role::User, "question".to_string(), None, 100);
    let call = ToolCallInfo {
        tool_name: "lookup".to_string(),
        arguments: JsonValue::Object(vec![("q".to_string(), JsonValue::String("x".to_string()))]),
        result: Some(JsonValue::Number(JsonNumber::PosInt(7))),
    };
    convo.add_message_at(Role::Assistant, "answer".to_string(), Some(call), 200);

    let json = convo.to_json();
    let back = ConversationManager::from_json_at(&json, 999).unwrap();
    let a = convo.get_messages();
    let b = back.get_messages();
    assert_eq!(b.len(), 2);
    for i in 0..2 {
        assert_eq!(a[i].role, b[i].role);
        assert_eq!(a[i].content, b[i].content);
        assert_eq!(a[i].timestamp, b[i].timestamp);
    }
    let tc = b[1].tool_call.as_ref().unwrap();
    assert_eq!(tc.tool_name, "lookup");
    assert_eq!(tc.result, Some(JsonValue::Number(JsonNumber::PosInt(7))));
    assert!(b[0].tool_call.is_none());
}

#[test]
fn from_json_skips_unknown_roles_and_stamps_missing_times() {
    let msg = |role: &str, content: &str| {
        JsonValue::Object(vec![
            ("role".to_string(), JsonValue::String(role.to_string())),
            ("content".to_string(), JsonValue::String(content.to_string())),
        ])
    };
    let json = JsonValue::Array(vec![msg("user", "hi"), msg("system", "ignored"), msg("assistant", "hello")]);
    let convo = ConversationManager::from_json_at(&json, 42).unwrap();
    let m = convo.get_messages();
    assert_eq!(m.len(), 2);
    assert_eq!(m[0].timestamp, 42);
    assert_eq!(m[1].role, Role::Assistant);
}

#[test]
fn from_json_refuses_non_arrays() {
    let err = ConversationManager::from_json(&JsonValue::Null).unwrap_err();
    assert_eq!(err, "Expected an array of messages");
}
