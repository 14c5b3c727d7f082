use rpocketflow::{Action, BaseNode, Flow, FlowError, FlowResult, FlowStep, JsonValue, Shared};

/// What a test node does in its post-processing phase.
enum Behaviour {
    /// Puts a value into the shared state, and asks for the default action.
    AddToShared(String, JsonValue),
    /// Asks for the named action.
    ReturnAction(String),
    /// Fails.
    Fail(String),
}

/// A test node; successors refer to nodes by their position.
struct TestNode {
    base: BaseNode<usize>,
    behaviour: Behaviour,
}

impl TestNode {
    fn add_to_shared(name: &str, key: &str, value: JsonValue) -> TestNode {
        TestNode {
            base: BaseNode::new(name),
            behaviour: Behaviour::AddToShared(key.to_string(), value),
        }
    }

    fn action_node(name: &str, action: &str) -> TestNode {
        TestNode { base: BaseNode::new(name), behaviour: Behaviour::ReturnAction(action.to_string()) }
    }

    fn run(&mut self, shared: &mut Shared) -> FlowResult<Action> {
        let post = match &self.behaviour {
            Behaviour::AddToShared(k, v) => {
                shared.insert(k.clone(), v.clone());
                JsonValue::Null
            }
            Behaviour::ReturnAction(a) => JsonValue::String(a.clone()),
            Behaviour::Fail(m) => return Err(FlowError::NodeExecution(m.clone())),
        };
        Ok(Action::from_json(&post))
    }
}

/// Runs a flow over the nodes, following each node's successors.
fn orchestrate(nodes: &mut Vec<TestNode>, flow: &Flow<usize>, shared: &mut Shared) -> FlowResult<()> {
    let params = flow.run_params(None);
    let mut current = flow.start;
    loop {
        let node = &mut nodes[current];
        node.base.set_params(params.clone());
        let outcome = node.run(shared);
        match Flow::step(node.base.get_successors(), outcome) {
            FlowStep::Continue(next) => current = *next,
            FlowStep::Finished(result) => return result,
        }
    }
}

fn then(nodes: &mut Vec<TestNode>, from: usize, to: usize) {
    nodes[from].base.add_successor("default".to_string(), to);
}

fn when(nodes: &mut Vec<TestNode>, from: usize, action: &str, to: usize) {
    nodes[from].base.add_successor(action.to_string(), to);
}

fn text(s: &str) -> JsonValue {
    JsonValue::String(s.to_string())
}

#[test]
fn test_basic_flow() {
    let mut nodes = vec![
        TestNode::add_to_shared("Node1", "key1", text("value1")),
        TestNode::add_to_shared("Node2", "key2", text("value2")),
        TestNode::add_to_shared("Node3", "key3", text("value3")),
    ];
    then(&mut nodes, 0, 1);
    then(&mut nodes, 1, 2);

    let flow = Flow::new("TestFlow", 0);
    let mut shared = Shared::new();

    let result = orchestrate(&mut nodes, &flow, &mut shared);
    assert!(result.is_ok());

    assert_eq!(shared.len(), 3);
    assert_eq!(shared.get("key1").unwrap(), &text("value1"));
    assert_eq!(shared.get("key2").unwrap(), &text("value2"));
    assert_eq!(shared.get("key3").unwrap(), &text("value3"));
}

#[test]
fn test_branching_flow() {
    let mut nodes = vec![
        TestNode::action_node("Start", "branch1"),
        TestNode::add_to_shared("Branch1", "path", text("branch1")),
        TestNode::add_to_shared("Branch2", "path", text("branch2")),
    ];
    when(&mut nodes, 0, "branch1", 1);
    when(&mut nodes, 0, "branch2", 2);

    let flow = Flow::new("BranchingFlow", 0);
    let mut shared = Shared::new();

    let result = orchestrate(&mut nodes, &flow, &mut shared);
    assert!(result.is_ok());

    assert_eq!(shared.len(), 1);
    assert_eq!(shared.get("path").unwrap(), &text("branch1"));
}

#[test]
fn test_termination() {
    let mut nodes = vec![
        TestNode::add_to_shared("Node1", "key1", text("value1")),
        TestNode::action_node("Node2", "terminate"),
        TestNode::add_to_shared("Node3", "key3", text("value3")),
    ];
    then(&mut nodes, 0, 1);
    then(&mut nodes, 1, 2);

    let flow = Flow::new("TerminationFlow", 0);
    let mut shared = Shared::new();

    let result = orchestrate(&mut nodes, &flow, &mut shared);
    assert!(result.is_ok());

    assert_eq!(shared.len(), 1);
    assert_eq!(shared.get("key1").unwrap(), &text("value1"));
    assert!(!shared.contains_key("key3"));
}

#[test]
fn unknown_action_falls_back_to_default_successor() {
    let mut nodes = vec![
        TestNode::action_node("Start", "unregistered"),
        TestNode::add_to_shared("Fallback", "reached", JsonValue::Bool(true)),
    ];
    then(&mut nodes, 0, 1);
    let flow = Flow::new("FallbackFlow", 0);
    let mut shared = Shared::new();
    assert!(orchestrate(&mut nodes, &flow, &mut shared).is_ok());
    assert_eq!(shared.get("reached"), Some(&JsonValue::Bool(true)));
}

#[test]
fn node_error_ends_flow_with_orchestration_error() {
    let mut nodes = vec![
        TestNode::add_to_shared("Node1", "key1", text("value1")),
        TestNode { base: BaseNode::new("Broken"), behaviour: Behaviour::Fail("boom".to_string()) },
        TestNode::add_to_shared("Node3", "key3", text("value3")),
    ];
    then(&mut nodes, 0, 1);
    then(&mut nodes, 1, 2);
    let flow = Flow::new("FailingFlow", 0);
    let mut shared = Shared::new();
    match orchestrate(&mut nodes, &flow, &mut shared) {
        Err(FlowError::FlowOrchestration(m)) => {
            assert_eq!(m, "Flow error: Node execution error: boom");
        }
        other => panic!("unexpected outcome: {:?}", other),
    }
    assert!(!shared.contains_key("key3"));
}

#[test]
fn named_action_prefers_its_own_successor() {
    let mut successors: rpocketflow::StrMap<u32> = rpocketflow::StrMap::new();
    successors.insert("default".to_string(), 1);
    successors.insert("left".to_string(), 2);
    let left = Action::from_str("left");
    assert_eq!(Flow::get_next_node(&successors, &left), Some(&2));
    let right = Action::from_str("right");
    assert_eq!(Flow::get_next_node(&successors, &right), Some(&1));
    let mut only_named: rpocketflow::StrMap<u32> = rpocketflow::StrMap::new();
    only_named.insert("left".to_string(), 2);
    assert_eq!(Flow::get_next_node(&only_named, &Action::Default), None);
    assert_eq!(Flow::get_next_node(&only_named, &right), None);
}

#[test]
fn terminate_ends_flow_even_with_successors() {
    let mut successors: rpocketflow::StrMap<u32> = rpocketflow::StrMap::new();
    successors.insert("terminate".to_string(), 1);
    match Flow::step(&successors, Ok(Action::Terminate)) {
        FlowStep::Finished(Ok(())) => {}
        _ => panic!("terminate must end the flow"),
    }
}

#[test]
fn run_params_prefer_the_override() {
    let mut flow: Flow<usize> = Flow::new("P", 0);
    flow.base.params.insert("a".to_string(), JsonValue::Bool(true));
    let own = flow.run_params(None);
    assert_eq!(own.get("a"), Some(&JsonValue::Bool(true)));
    let mut over = Shared::new();
    over.insert("b".to_string(), JsonValue::Null);
    let chosen = flow.run_params(Some(over));
    assert!(chosen.contains_key("b"));
    assert!(!chosen.contains_key("a"));
}

#[test]
fn later_successor_replaces_earlier() {
    let mut base: BaseNode<u32> = BaseNode::new("N");
    assert!(!base.add_successor("default".to_string(), 1));
    assert!(base.add_successor("default".to_string(), 2));
    assert_eq!(base.get_successors().get("default"), Some(&2));
    assert_eq!(base.get_successors().len(), 1);
}

#[test]
fn io_error_ends_flow_with_its_text() {
    let successors: rpocketflow::StrMap<u32> = rpocketflow::StrMap::new();
    let e = FlowError::Io(std::io::Error::new(std::io::ErrorKind::Other, "disk gone"));
    match Flow::step(&successors, Err(e)) {
        FlowStep::Finished(Err(FlowError::FlowOrchestration(t))) => {
            assert_eq!(t, "Flow error: I/O error: disk gone")
        }
        _ => panic!("an error must end the flow"),
    }
}
