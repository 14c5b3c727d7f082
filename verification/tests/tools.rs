use rpocketflow::mcp::tools::{boolean_param, number_param, object_param, string_param};
use rpocketflow::{JsonValue, StrMap, Tool, ToolRegistry};

fn obj(entries: Vec<(&str, JsonValue)>) -> JsonValue {
    JsonValue::Object(entries.into_iter().map(|(k, v)| (k.to_string(), v)).collect())
}

fn text(s: &str) -> JsonValue {
    JsonValue::String(s.to_string())
}

fn query_schema() -> JsonValue {
    obj(vec![
        ("type", text("object")),
        (
            "properties",
            obj(vec![(
                "query",
                obj(vec![("type", text("string")), ("description", text("The query to process"))]),
            )]),
        ),
        ("required", JsonValue::Array(vec![text("query")])),
    ])
}

fn query_handler(args: JsonValue) -> Result<JsonValue, String> {
    let query = args.get("query").and_then(|v| v.as_str()).unwrap_or("");
    Ok(obj(vec![("result", JsonValue::String(format!("Processed: {}", query)))]))
}

#[test]
fn test_tool_handler_state() {
    let tool = Tool::new("test_tool", "A test tool", query_schema()).with_handler(query_handler);

    assert!(tool.handler_available());
    assert_eq!(tool.handler_state_description(), "available");

    let args = obj(vec![("query", text("test query"))]);
    let result = tool.execute(args);
    assert!(result.is_ok());
    let result_value = result.unwrap();
    assert_eq!(result_value.get("result").unwrap().as_str().unwrap(), "Processed: test query");

    let cloned_tool = tool.clone();

    assert!(!cloned_tool.handler_available());
    assert_eq!(cloned_tool.handler_state_description(), "removed during clone");

    let args = obj(vec![("query", text("test query"))]);
    let result = cloned_tool.execute(args);
    assert!(result.is_err());
    assert!(result.unwrap_err().contains("removed during cloning"));
}

#[test]
fn test_test_tool_registry() {
    let mut registry = ToolRegistry::new();

    let test_tool = Tool::new("test_tool", "A test tool", query_schema()).with_handler(query_handler);
    registry.register(test_tool);

    let args = obj(vec![("query", text("test query"))]);
    let result = registry.process_tool_call("test_tool", args);
    assert_eq!(result.get("result"), Some(&text("Processed: test query")));

    let result = registry.process_tool_call("nonexistent_tool", obj(vec![]));
    assert!(result.get("error").is_some());
    assert!(result.get("error").unwrap().as_str().unwrap().contains("Tool not found"));

    let declarations = registry.to_tool_declarations();
    assert_eq!(declarations.len(), 1);
    assert_eq!(declarations[0].get("name"), Some(&text("test_tool")));
    assert_eq!(declarations[0].get("description"), Some(&text("A test tool")));
}

fn input_handler(args: JsonValue) -> Result<JsonValue, String> {
    let input = args.get("input").and_then(|v| v.as_str()).unwrap_or("default");
    Ok(obj(vec![("output", JsonValue::String(format!("Processed: {}", input)))]))
}

#[test]
fn tests_test_tool_registry() {
    let mut registry = ToolRegistry::new();

    let test_tool = Tool::new(
        "test_tool",
        "A test tool",
        obj(vec![
            ("type", text("object")),
            ("properties", obj(vec![("input", string_param("Test input parameter"))])),
            ("required", JsonValue::Array(vec![text("input")])),
        ]),
    )
    .with_handler(input_handler);

    registry.register(test_tool);

    let retrieved_tool = registry.get("test_tool").expect("Tool should exist");
    assert_eq!(retrieved_tool.name, "test_tool");
    assert_eq!(retrieved_tool.description, "A test tool");

    let result = registry.process_tool_call("test_tool", obj(vec![("input", text("test_value"))]));
    assert_eq!(result.get("output").and_then(|v| v.as_str()), Some("Processed: test_value"));

    let error_result = registry.process_tool_call("nonexistent_tool", obj(vec![]));
    assert!(error_result.get("error").is_some());
}

#[test]
fn tool_without_handler_reports_why() {
    let tool: Tool<fn(JsonValue) -> Result<JsonValue, String>> = Tool::new("t", "d", JsonValue::Null);
    assert_eq!(tool.handler_state_description(), "not set");
    assert_eq!(tool.execute(JsonValue::Null).unwrap_err(), "No handler defined for tool t");
    let mut registry = ToolRegistry::new();
    registry.register(tool);
    let answer = registry.process_tool_call("t", JsonValue::Null);
    assert_eq!(answer.get("error"), Some(&text("Tool handler not available: t (not set)")));
}

#[test]
fn handler_error_becomes_error_object() {
    fn failing(_: JsonValue) -> Result<JsonValue, String> {
        Err("bad input".to_string())
    }
    let mut registry = ToolRegistry::new();
    registry.register(Tool::new("f", "fails", JsonValue::Null).with_handler(failing as fn(JsonValue) -> Result<JsonValue, String>));
    let answer = registry.process_tool_call("f", JsonValue::Null);
    assert_eq!(answer, obj(vec![("error", text("bad input"))]));
}

#[test]
fn later_registration_replaces_earlier() {
    let mut registry: ToolRegistry<fn(JsonValue) -> Result<JsonValue, String>> = ToolRegistry::new();
    registry.register(Tool::new("t", "first", JsonValue::Null));
    registry.register(Tool::new("t", "second", JsonValue::Null));
    assert_eq!(registry.get_all().len(), 1);
    assert_eq!(registry.get("t").unwrap().description, "second");
}

#[test]
fn parameter_schemas() {
    assert_eq!(string_param("s"), obj(vec![("type", text("string")), ("description", text("s"))]));
    assert_eq!(number_param("n"), obj(vec![("type", text("number")), ("description", text("n"))]));
    assert_eq!(boolean_param("b"), obj(vec![("type", text("boolean")), ("description", text("b"))]));
    let mut props = StrMap::new();
    props.insert("x".to_string(), string_param("an x"));
    assert_eq!(
        object_param("o", props),
        obj(vec![
            ("type", text("object")),
            ("description", text("o")),
            ("properties", obj(vec![("x", string_param("an x"))])),
        ])
    );
}

#[test]
fn declaration_lists_name_description_parameters() {
    let tool: Tool<fn(JsonValue) -> Result<JsonValue, String>> = Tool::new("n", "d", JsonValue::Bool(true));
    assert_eq!(
        tool.to_function_declaration(),
        obj(vec![("name", text("n")), ("description", text("d")), ("parameters", JsonValue::Bool(true))])
    );
}

#[test]
fn registration_order_keeps_first_place_of_a_name() {
    let mut registry: ToolRegistry<fn(JsonValue) -> Result<JsonValue, String>> = ToolRegistry::new();
    registry.register(Tool::new("a", "first a", JsonValue::Null));
    registry.register(Tool::new("b", "b", JsonValue::Null));
    registry.register(Tool::new("a", "second a", JsonValue::Null));
    let all = registry.get_all();
    assert_eq!(all.len(), 2);
    assert_eq!(all[0].description, "second a");
    assert_eq!(all[1].name, "b");
    assert_eq!(registry.to_tool_declarations().len(), 2);
}
