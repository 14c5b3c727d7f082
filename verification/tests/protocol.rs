use rpocketflow::mcp::protocol::{
    call_report, classify_reply, malformed_reply, protocol_failure, requested_call, select_tool_call,
    server_conn_error, store_call_report, store_initialization, tools_json, ProtocolState, RpcReply,
    initialization_result, tool_call_result,
};
use rpocketflow::{FlowError, JsonNumber, JsonValue, MCPClientConfig, Shared};

fn obj(entries: Vec<(&str, JsonValue)>) -> JsonValue {
    JsonValue::Object(entries.into_iter().map(|(k, v)| (k.to_string(), v)).collect())
}

fn text(s: &str) -> JsonValue {
    JsonValue::String(s.to_string())
}

#[test]
fn client_config_builders() {
    let config = MCPClientConfig::new("TestClient", "1.0.0");
    assert_eq!(config.client_name, "TestClient");
    assert_eq!(config.client_version, "1.0.0");
    assert!(config.server_name.is_none());
    assert!(config.server_command.is_none());
    let config = config.with_server_name("srv").with_server_command("run", vec!["--stdio".to_string()]);
    assert_eq!(config.server_name.as_deref(), Some("srv"));
    assert_eq!(config.server_command.as_deref(), Some("run"));
    assert_eq!(config.server_args, vec!["--stdio".to_string()]);
    let copy = config.clone();
    assert_eq!(copy.server_args, config.server_args);
    let d = MCPClientConfig::default();
    assert_eq!(d.client_name, "RPocketFlow MCP Client");
}

#[test]
fn requests_take_increasing_ids() {
    let mut state = ProtocolState::new(MCPClientConfig::new("C", "2"));
    let init = state.initialize_request();
    assert_eq!(init.get("id"), Some(&JsonValue::Number(JsonNumber::PosInt(1))));
    assert_eq!(init.get("method"), Some(&text("initialize")));
    assert_eq!(init.get("jsonrpc"), Some(&text("2.0")));
    let params = init.get("params").unwrap();
    assert_eq!(params.get("clientName"), Some(&text("C")));
    assert_eq!(params.get("clientVersion"), Some(&text("2")));
    assert_eq!(params.get("capabilities"), Some(&obj(vec![])));
    let call = state.request("tools/list", obj(vec![]));
    assert_eq!(call.get("id"), Some(&JsonValue::Number(JsonNumber::PosInt(2))));
    let shutdown = state.shutdown_request();
    assert_eq!(shutdown.get("id"), Some(&JsonValue::Number(JsonNumber::PosInt(3))));
    assert_eq!(shutdown.get("method"), Some(&text("shutdown")));
    assert_eq!(state.next_id, 4);
}

#[test]
fn server_launch_needs_a_command() {
    let state = ProtocolState::new(MCPClientConfig::new("C", "1"));
    match state.server_launch() {
        Err(FlowError::MCPServer(m)) => assert_eq!(m, "No server command specified"),
        _ => panic!("expected an error"),
    }
    let state = ProtocolState::new(MCPClientConfig::new("C", "1").with_server_command("srv", vec![]));
    let (cmd, args) = state.server_launch().unwrap();
    assert_eq!(cmd, "srv");
    assert!(args.is_empty());
}

#[test]
fn replies_are_read_result_first() {
    match classify_reply(&obj(vec![("result", text("r")), ("error", text("e"))])) {
        RpcReply::Success(v) => assert_eq!(v, text("r")),
        _ => panic!(),
    }
    match classify_reply(&obj(vec![("error", text("e"))])) {
        RpcReply::Failure(v) => assert_eq!(v, text("e")),
        _ => panic!(),
    }
    assert!(matches!(classify_reply(&obj(vec![])), RpcReply::Malformed));
    match protocol_failure("Tool call error", "\"e\"") {
        FlowError::Protocol(m) => assert_eq!(m, "Tool call error: \"e\""),
        _ => panic!(),
    }
    match malformed_reply() {
        FlowError::Protocol(m) => assert_eq!(m, "Invalid response format"),
        _ => panic!(),
    }
    match server_conn_error("No connection to MCP server") {
        FlowError::MCPServer(m) => assert_eq!(m, "No connection to MCP server"),
        _ => panic!(),
    }
}

#[test]
fn tool_listing_is_recorded() {
    let mut state = ProtocolState::new(MCPClientConfig::new("C", "1"));
    let listing = obj(vec![(
        "tools",
        JsonValue::Array(vec![
            obj(vec![("name", text("a")), ("description", text("first"))]),
            obj(vec![("name", text("nameless"))]),
            obj(vec![("name", text("b")), ("description", text("second"))]),
        ]),
    )]);
    let tools = state.record_tools(&listing);
    assert_eq!(tools.len(), 2);
    assert_eq!(tools.get("a").map(|s| s.as_str()), Some("first"));
    assert_eq!(state.available_tools.get("b").map(|s| s.as_str()), Some("second"));
    assert_eq!(tools_json(&tools), obj(vec![("a", text("first")), ("b", text("second"))]));
    let none = state.record_tools(&obj(vec![]));
    assert!(none.is_empty());
}

#[test]
fn protocol_node_chooses_its_call_from_shared_state() {
    let mut shared = Shared::new();
    let chosen = select_tool_call(&shared);
    assert_eq!(chosen, obj(vec![("tool_name", text("tools/list")), ("params", obj(vec![]))]));

    shared.insert("mcp_default_tool".to_string(), text("search"));
    assert_eq!(select_tool_call(&shared).get("tool_name"), Some(&text("search")));

    shared.insert(
        "mcp_tool_call".to_string(),
        obj(vec![("tool_name", text("fetch")), ("params", obj(vec![("url", text("u"))]))]),
    );
    let chosen = select_tool_call(&shared);
    assert_eq!(chosen.get("tool_name"), Some(&text("fetch")));
    assert_eq!(chosen.get("params"), Some(&obj(vec![("url", text("u"))])));

    let (name, params) = requested_call(&chosen).unwrap();
    assert_eq!(name, "fetch");
    assert_eq!(params, obj(vec![("url", text("u"))]));
    match requested_call(&obj(vec![])) {
        Err(FlowError::NodeExecution(m)) => assert_eq!(m, "No tool_name specified in prep_res"),
        _ => panic!(),
    }
}

#[test]
fn call_reports_and_next_action() {
    let ok = call_report("t", Ok(text("v")));
    assert_eq!(ok, obj(vec![("tool_name", text("t")), ("result", text("v")), ("status", text("success"))]));
    let failed = call_report("t", Err(FlowError::Protocol("x".to_string())));
    assert_eq!(
        failed,
        obj(vec![("tool_name", text("t")), ("error", text("Protocol error: x")), ("status", text("error"))])
    );
    let mut shared = Shared::new();
    assert_eq!(store_call_report(&mut shared, &ok), text("success"));
    assert_eq!(shared.get("mcp_exec_result"), Some(&ok));
    assert_eq!(store_call_report(&mut shared, &failed), text("error"));
    assert_eq!(shared.get("mcp_exec_result"), Some(&failed));
}

#[test]
fn initialization_is_left_in_shared_state() {
    let mut tools = rpocketflow::StrMap::new();
    tools.insert("echo".to_string(), "Echoes".to_string());
    let mut shared = Shared::new();
    shared.insert("keep".to_string(), JsonValue::Bool(true));
    let answer = obj(vec![("protocolVersion", text("1"))]);
    store_initialization(&mut shared, Ok(answer.clone()), Some(&tools)).unwrap();
    assert_eq!(shared.get("mcp_init_result"), Some(&answer));
    assert_eq!(shared.get("mcp_tools"), Some(&obj(vec![("echo", text("Echoes"))])));
    assert_eq!(shared.get("keep"), Some(&JsonValue::Bool(true)));
    assert_eq!(shared.len(), 3);

    let mut bare = Shared::new();
    store_initialization(&mut bare, Ok(JsonValue::Null), None).unwrap();
    assert_eq!(bare.get("mcp_init_result"), Some(&JsonValue::Null));
    assert!(!bare.contains_key("mcp_tools"));
}

#[test]
fn failed_initialization_is_a_client_error() {
    let mut shared = Shared::new();
    let r = store_initialization(&mut shared, Err(server_conn_error("No server command specified")), None);
    match r {
        Err(FlowError::MCPClient(t)) => assert_eq!(
            t,
            "Failed to initialize MCP client: MCP server error: No server command specified"
        ),
        _ => panic!("expected a client error"),
    }
    assert_eq!(shared.len(), 0);
}

#[test]
fn replies_give_results_or_protocol_errors() {
    let ok = obj(vec![("result", text("fine")), ("error", text("ignored"))]);
    assert_eq!(tool_call_result(&ok, "").unwrap(), text("fine"));
    let bad = obj(vec![("error", obj(vec![("code", JsonValue::Number(JsonNumber::PosInt(7)))]))]);
    match tool_call_result(&bad, "{\"code\":7}") {
        Err(FlowError::Protocol(t)) => assert_eq!(t, "Tool call error: {\"code\":7}"),
        _ => panic!("expected a protocol error"),
    }
    match initialization_result(&bad, "{\"code\":7}") {
        Err(FlowError::Protocol(t)) => assert_eq!(t, "Initialization error: {\"code\":7}"),
        _ => panic!("expected a protocol error"),
    }
    match initialization_result(&obj(vec![]), "") {
        Err(FlowError::Protocol(t)) => assert_eq!(t, "Invalid response format"),
        _ => panic!("expected a malformed reply"),
    }
}
