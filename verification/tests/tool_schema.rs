use mayhem_engine::error::EngineError;
use mayhem_engine::json::{to_json_text, JsonNumber, JsonValue};
use mayhem_engine::request::ToolSpec;
use mayhem_engine::tool_schema::{
    rebase_local_json_schema_refs, tool_arguments_outcome, tool_call_json_schema,
    validate_tool_call_arguments,
};

/// Reads JSON text into the library's value type.
fn parse(text: &str) -> JsonValue {
    let value: serde_json::Value = serde_json::from_str(text).expect("test JSON");
    convert(&value)
}

fn convert(value: &serde_json::Value) -> JsonValue {
    match value {
        serde_json::Value::Null => JsonValue::Null,
        serde_json::Value::Bool(b) => JsonValue::Bool(*b),
        serde_json::Value::Number(n) => {
            if let Some(u) = n.as_u64() {
                JsonValue::Number(JsonNumber::PosInt(u))
            } else if let Some(i) = n.as_i64() {
                JsonValue::Number(JsonNumber::NegInt(i))
            } else {
                JsonValue::Number(JsonNumber::Float(n.to_string()))
            }
        }
        serde_json::Value::String(s) => JsonValue::String(s.clone()),
        serde_json::Value::Array(items) => JsonValue::Array(items.iter().map(convert).collect()),
        serde_json::Value::Object(map) => JsonValue::Object(
            map.iter().map(|(k, v)| (k.clone(), convert(v))).collect(),
        ),
    }
}

fn same(a: &JsonValue, b: &JsonValue) -> bool {
    let a: serde_json::Value = serde_json::from_str(&to_json_text(a)).expect("json");
    let b: serde_json::Value = serde_json::from_str(&to_json_text(b)).expect("json");
    a == b
}

fn at<'a>(value: &'a JsonValue, path: &[&str]) -> &'a JsonValue {
    let mut current = value;
    for key in path {
        current = current.get(key).expect("member");
    }
    current
}

fn item(value: &JsonValue, index: usize) -> &JsonValue {
    match value {
        JsonValue::Array(items) => &items[index],
        other => panic!("not an array: {other:?}"),
    }
}

fn compiled(schema: &JsonValue) -> jsonschema::Validator {
    let value: serde_json::Value = serde_json::from_str(&to_json_text(schema)).expect("json");
    jsonschema::draft202012::options().build(&value).expect("generated schema compiles")
}

fn instance(text: &str) -> serde_json::Value {
    serde_json::from_str(text).expect("instance")
}

const LOOKUP: &str =
    r#"{"type":"object","properties":{"query":{"type":"string"}},"required":["query"],"additionalProperties":false}"#;
const QUOTE: &str =
    r#"{"type":"object","properties":{"symbol":{"type":"string"}},"required":["symbol"],"additionalProperties":false}"#;

#[test]
fn tool_call_schema_correlates_names_with_exact_parameter_schemas() {
    let schema = tool_call_json_schema(&[
        ToolSpec::new("lookup", parse(LOOKUP)),
        ToolSpec::new("quote", parse(QUOTE)),
    ])
    .expect("schema");

    let branches = at(&schema, &["oneOf"]);
    match branches {
        JsonValue::Array(items) => assert_eq!(items.len(), 2),
        other => panic!("oneOf is {other:?}"),
    }
    assert!(same(at(item(branches, 0), &["properties", "tool"]), &parse(r#"{"const":"lookup"}"#)));
    assert!(same(
        at(item(branches, 0), &["properties", "arguments"]),
        &parse(r##"{"$ref":"#/$defs/tool_0_parameters"}"##)
    ));
    assert!(same(at(item(branches, 1), &["properties", "tool"]), &parse(r#"{"const":"quote"}"#)));
    assert!(same(
        at(item(branches, 1), &["properties", "arguments"]),
        &parse(r##"{"$ref":"#/$defs/tool_1_parameters"}"##)
    ));
    assert!(same(at(&schema, &["$defs", "tool_0_parameters"]), &parse(LOOKUP)));
    assert!(same(at(&schema, &["$defs", "tool_1_parameters"]), &parse(QUOTE)));

    let validator = compiled(&schema);
    assert!(validator.is_valid(&instance(r#"{"tool":"lookup","arguments":{"query":"weather"}}"#)));
    assert!(!validator.is_valid(&instance(r#"{"tool":"lookup","arguments":{"symbol":"MAYHEM"}}"#)));
}

#[test]
fn tool_call_schema_preserves_local_parameter_references_when_wrapped() {
    let schema = tool_call_json_schema(&[ToolSpec::new(
        "write",
        parse(
            r##"{"$defs":{"path":{"type":"string","minLength":1}},"type":"object","properties":{"path":{"$ref":"#/$defs/path"}},"required":["path"],"additionalProperties":false}"##,
        ),
    )])
    .expect("schema");

    match at(&schema, &["$defs", "tool_0_parameters", "properties", "path", "$ref"]) {
        JsonValue::String(reference) => {
            assert_eq!(reference, "#/$defs/tool_0_parameters/$defs/path")
        }
        other => panic!("reference is {other:?}"),
    }
    let validator = compiled(&schema);
    assert!(validator.is_valid(&instance(r#"{"tool":"write","arguments":{"path":"index.html"}}"#)));
    assert!(!validator.is_valid(&instance(r#"{"tool":"write","arguments":{"path":""}}"#)));
}

fn write_tool() -> ToolSpec {
    ToolSpec::new(
        "write",
        parse(
            r#"{"type":"object","properties":{"path":{"type":"string"},"options":{"type":"object","properties":{"overwrite":{"type":"boolean"}},"required":["overwrite"],"additionalProperties":false}},"required":["path","options"],"additionalProperties":false}"#,
        ),
    )
}

#[test]
fn tool_call_argument_validation_is_fail_closed() {
    let tool = write_tool();
    validate_tool_call_arguments(&tool, &parse(r#"{"path":"README.md","options":{"overwrite":true}}"#))
        .expect("valid arguments");

    for invalid in [
        "[]",
        r#"{"options":{"overwrite":true}}"#,
        r#"{"path":7,"options":{"overwrite":true}}"#,
        r#"{"path":"README.md","options":{"overwrite":true},"extra":1}"#,
        r#"{"path":"README.md","options":{"overwrite":true,"extra":1}}"#,
    ] {
        assert!(matches!(
            validate_tool_call_arguments(&tool, &parse(invalid)),
            Err(EngineError::InvalidOutput(_))
        ));
    }
}

#[test]
fn tool_call_argument_validation_rejects_invalid_or_external_schemas() {
    for parameters in [
        r#"{"type":"not-a-json-schema-type"}"#,
        r#"{"$ref":"https://example.invalid/tool-schema.json"}"#,
        r#"{"$ref":"file:///tmp/tool-schema.json"}"#,
    ] {
        let tool = ToolSpec::new("lookup", parse(parameters));
        assert!(matches!(
            validate_tool_call_arguments(&tool, &parse("{}")),
            Err(EngineError::InvalidConfig(_))
        ));
    }
}

#[test]
fn tool_call_schema_refuses_bad_tool_lists() {
    assert_eq!(
        tool_call_json_schema(&[]).unwrap_err(),
        EngineError::InvalidConfig("tool-call grammar requires at least one tool".to_owned())
    );
    assert_eq!(
        tool_call_json_schema(&[ToolSpec::new("lookup", parse(LOOKUP)), ToolSpec::new("lookup", parse(QUOTE))])
            .unwrap_err(),
        EngineError::InvalidConfig("duplicate tool name \"lookup\"".to_owned())
    );
    assert_eq!(
        tool_call_json_schema(&[ToolSpec::new("bad name", parse(LOOKUP))]).unwrap_err(),
        EngineError::InvalidConfig("tool name \"bad name\" contains unsupported characters".to_owned())
    );
    match tool_call_json_schema(&[ToolSpec::new("lookup", parse(r#"{"type":7}"#))]) {
        Err(EngineError::InvalidConfig(message)) => {
            assert!(message.starts_with("tool \"lookup\" has invalid parameters JSON Schema: "))
        }
        other => panic!("unexpected {other:?}"),
    }
}

#[test]
fn argument_messages_name_the_tool() {
    let tool = write_tool();
    assert_eq!(
        validate_tool_call_arguments(&tool, &parse("[]")),
        Err(EngineError::InvalidOutput("tool \"write\" arguments must be a JSON object".to_owned()))
    );
    match validate_tool_call_arguments(&tool, &parse("{}")) {
        Err(EngineError::InvalidOutput(message)) => assert!(
            message.starts_with("tool \"write\" arguments violate its parameters JSON Schema: ")
        ),
        other => panic!("unexpected {other:?}"),
    }
    assert_eq!(tool_arguments_outcome("write", Ok(()), true, Ok(())), Ok(()));
    assert_eq!(
        tool_arguments_outcome("write", Err("boom".to_owned()), true, Ok(())),
        Err(EngineError::InvalidConfig(
            "tool \"write\" has invalid parameters JSON Schema: boom".to_owned()
        ))
    );
    assert_eq!(
        tool_arguments_outcome("write", Ok(()), true, Err("nope".to_owned())),
        Err(EngineError::InvalidOutput(
            "tool \"write\" arguments violate its parameters JSON Schema: nope".to_owned()
        ))
    );
}

#[test]
fn local_references_are_rebased_at_any_depth() {
    let rebased = rebase_local_json_schema_refs(
        &parse(r##"{"a":[{"$ref":"#"}],"$ref":"#/x","b":{"$ref":"other.json#/y"}}"##),
        "#/$defs/t",
    );
    assert!(same(
        &rebased,
        &parse(r##"{"a":[{"$ref":"#/$defs/t"}],"$ref":"#/$defs/t/x","b":{"$ref":"other.json#/y"}}"##)
    ));
}

use mayhem_engine::tools::tool_call_gbnf;

#[test]
fn tool_call_gbnf_restricts_names() {
    let grammar = tool_call_gbnf(&[
        ToolSpec::new("lookup", parse(r#"{"type": "object"}"#)),
        ToolSpec::new("quote", parse(r#"{"type": "object"}"#)),
    ])
    .expect("gbnf");

    assert!(grammar.contains("tool-name ::="));
    assert!(grammar.contains(r#""\"lookup\"""#));
    assert!(grammar.contains(r#""\"quote\"""#));
}
