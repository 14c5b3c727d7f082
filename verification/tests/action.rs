use rpocketflow::{Action, JsonNumber, JsonValue};

#[test]
fn action_from_reserved_and_named_texts() {
    assert_eq!(Action::from_str("default"), Action::Default);
    assert_eq!(Action::from_str("terminate"), Action::Terminate);
    assert_eq!(Action::from_str("next_step"), Action::Named("next_step".to_string()));
}

#[test]
fn action_text_round_trip() {
    for s in ["default", "terminate", "branch", ""] {
        assert_eq!(Action::from_str(s).to_string(), s);
    }
}

#[test]
fn action_from_post_result() {
    assert_eq!(Action::from_json(&JsonValue::Null), Action::Default);
    assert_eq!(Action::from_json(&JsonValue::Bool(true)), Action::Default);
    assert_eq!(Action::from_json(&JsonValue::Number(JsonNumber::PosInt(3))), Action::Default);
    assert_eq!(Action::from_json(&JsonValue::String("done".to_string())), Action::Named("done".to_string()));
    assert_eq!(Action::from_json(&JsonValue::String("terminate".to_string())), Action::Terminate);
}

#[test]
fn action_clone_is_equal() {
    let a = Action::Named("x".to_string());
    assert_eq!(a.clone(), a);
    assert!(Action::Terminate.is_terminate());
    assert!(Action::Default.is_default());
}
