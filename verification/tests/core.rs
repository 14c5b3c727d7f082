use std::time::Duration;

use rpocketflow::{
    AsyncFlow, AsyncNodeImpl, BaseNode, FlowError, JsonNumber, JsonValue, Retry, RetryStep, StrMap,
};

#[test]
fn base_node_defaults_and_builders() {
    let node: BaseNode<u8> = BaseNode::new("N");
    assert_eq!(node.get_name(), "N");
    assert_eq!(node.get_max_retries(), 1);
    assert_eq!(node.get_wait_duration(), Duration::from_millis(0));
    assert!(node.get_params().is_empty());
    let mut params = StrMap::new();
    params.insert("k".to_string(), JsonValue::Bool(false));
    let node = node.with_max_retries(3).with_wait_duration(Duration::from_millis(10)).with_params(params);
    assert_eq!(node.get_max_retries(), 3);
    assert_eq!(node.get_wait_duration(), Duration::from_millis(10));
    assert_eq!(node.get_params().get("k"), Some(&JsonValue::Bool(false)));
}

#[test]
fn async_node_builders() {
    let node: AsyncNodeImpl<u8> = AsyncNodeImpl::new("A").with_max_retries(4).with_wait_duration(Duration::from_millis(5));
    assert_eq!(node.base.get_name(), "A");
    assert_eq!(node.base.max_retries, 4);
    assert_eq!(node.base.wait_duration, Duration::from_millis(5));
    let flow = AsyncFlow::new("F", 7u8);
    assert_eq!(flow.start, 7);
    assert_eq!(flow.base.base.get_name(), "F");
}

#[test]
fn retries_run_exec_max_times_then_fall_back_with_last_error() {
    let (mut retry, first) = Retry::start(3);
    assert!(matches!(first, RetryStep::Execute));
    assert!(matches!(retry.failed(FlowError::NodeExecution("1".to_string())), RetryStep::WaitAndExecute));
    assert!(matches!(retry.failed(FlowError::NodeExecution("2".to_string())), RetryStep::WaitAndExecute));
    match retry.failed(FlowError::NodeExecution("3".to_string())) {
        RetryStep::Fallback(FlowError::NodeExecution(m)) => assert_eq!(m, "3"),
        other => panic!("unexpected: {:?}", other),
    }
    assert_eq!(retry.failed_attempts(), 3);
}

#[test]
fn no_attempt_falls_back_with_unknown_error() {
    let (_, first) = Retry::start(0);
    match first {
        RetryStep::Fallback(FlowError::NodeExecution(m)) => assert_eq!(m, "Unknown error"),
        other => panic!("unexpected: {:?}", other),
    }
}

#[test]
fn error_texts() {
    assert_eq!(FlowError::NodeExecution("x".to_string()).to_string(), "Node execution error: x");
    assert_eq!(FlowError::FlowOrchestration("x".to_string()).to_string(), "Flow orchestration error: x");
    assert_eq!(FlowError::InvalidConfig("x".to_string()).to_string(), "Invalid configuration: x");
    assert_eq!(FlowError::Serialization("x".to_string()).to_string(), "Serialization error: x");
    assert_eq!(FlowError::Mcp("x".to_string()).to_string(), "MCP error: x");
    let io = FlowError::Io(std::io::Error::new(std::io::ErrorKind::Other, "disk"));
    assert_eq!(io.to_string(), "I/O error: disk");
}

#[test]
fn string_map_keeps_insertion_order() {
    let mut m = StrMap::new();
    assert_eq!(m.insert("b".to_string(), 1), None);
    assert_eq!(m.insert("a".to_string(), 2), None);
    assert_eq!(m.insert("b".to_string(), 3), Some(1));
    assert_eq!(m.keys(), vec!["b".to_string(), "a".to_string()]);
    assert_eq!(m.get("b"), Some(&3));
    assert_eq!(m.remove("b"), Some(3));
    assert_eq!(m.remove("b"), None);
    assert_eq!(m.len(), 1);
    assert!(m.contains_key("a"));
}

#[test]
fn json_accessors_and_copies() {
    let v = JsonValue::Object(vec![
        ("n".to_string(), JsonValue::Number(JsonNumber::PosInt(5))),
        ("s".to_string(), JsonValue::String("t".to_string())),
        ("a".to_string(), JsonValue::Array(vec![JsonValue::Null])),
    ]);
    assert_eq!(v.get("n").unwrap().as_u64(), Some(5));
    assert_eq!(v.get_str("s"), Some("t"));
    assert_eq!(v.get("a").unwrap().as_array().unwrap().len(), 1);
    assert!(v.get("missing").is_none());
    assert!(v.is_object());
    assert!(JsonValue::Null.is_null());
    assert_eq!(JsonValue::Number(JsonNumber::NegInt(-1)).as_u64(), None);
    assert_eq!(v.clone(), v);
    assert_eq!(JsonValue::single("k", JsonValue::Null).get("k"), Some(&JsonValue::Null));
}

#[test]
fn async_flow_run_params_prefer_the_override() {
    let mut flow = AsyncFlow::new("F", 0u8);
    flow.base.base.params.insert("a".to_string(), JsonValue::Bool(true));
    let own = flow.run_params(None);
    assert_eq!(own.get("a"), Some(&JsonValue::Bool(true)));
    let mut over = StrMap::new();
    over.insert("b".to_string(), JsonValue::Null);
    let chosen = flow.run_params(Some(over));
    assert!(chosen.contains_key("b"));
    assert!(!chosen.contains_key("a"));
}

fn member(k: &str, v: JsonValue) -> (String, JsonValue) {
    (k.to_string(), v)
}

#[test]
fn objects_compare_as_maps() {
    let a = JsonValue::Object(vec![member("x", JsonValue::Bool(true)), member("y", JsonValue::Null)]);
    let b = JsonValue::Object(vec![member("y", JsonValue::Null), member("x", JsonValue::Bool(true))]);
    assert_eq!(a, b);
    let c = JsonValue::Object(vec![member("x", JsonValue::Bool(true))]);
    assert_ne!(a, c);
    assert_ne!(c, a);
    let d = JsonValue::Object(vec![member("x", JsonValue::Bool(false)), member("y", JsonValue::Null)]);
    assert_ne!(a, d);
    let nested_a = JsonValue::Array(vec![a.clone(), JsonValue::Null]);
    let nested_b = JsonValue::Array(vec![b.clone(), JsonValue::Null]);
    assert_eq!(nested_a, nested_b);
    assert_ne!(nested_a, JsonValue::Array(vec![JsonValue::Null, b]));
}

#[test]
fn numbers_compare_by_value() {
    let zero = JsonNumber::Float(0.0f64.to_bits());
    let minus_zero = JsonNumber::Float((-0.0f64).to_bits());
    assert_eq!(zero, minus_zero);
    assert_eq!(JsonValue::Number(zero), JsonValue::Number(minus_zero));
    assert_ne!(JsonNumber::PosInt(1), JsonNumber::Float(1.0f64.to_bits()));
    assert_ne!(JsonNumber::PosInt(1), JsonNumber::PosInt(2));
    assert_eq!(JsonNumber::NegInt(-3), JsonNumber::NegInt(-3));
}

#[test]
fn removing_a_key_keeps_the_others_in_order() {
    let mut m: StrMap<u8> = StrMap::new();
    m.insert("a".to_string(), 1);
    m.insert("b".to_string(), 2);
    m.insert("c".to_string(), 3);
    assert_eq!(m.remove("b"), Some(2));
    assert_eq!(m.keys(), vec!["a".to_string(), "c".to_string()]);
    assert_eq!(m.remove("z"), None);
    assert_eq!(m.keys(), vec!["a".to_string(), "c".to_string()]);
}

#[test]
fn flows_start_with_no_wait() {
    let flow: rpocketflow::Flow<u8> = rpocketflow::Flow::new("F", 0);
    assert_eq!(flow.base.wait_duration, Duration::from_millis(0));
    let aflow = AsyncFlow::new("A", 0u8);
    assert_eq!(aflow.base.base.wait_duration, Duration::from_millis(0));
}
