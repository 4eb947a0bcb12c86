//! The JSON Schema of a tool call, and checking a call's arguments against
//! the tool's parameters schema. Schemas are compiled and applied by the
//! `jsonschema` crate (draft 2020-12); the library builds the documents and
//! decides what each outcome means.
use vstd::prelude::*;

use crate::config::concat_str;
use crate::error::{invalid_config, is_invalid_config, EngineError, Result};
use crate::json::{items_text, json_string, json_text, members_text, push_item, push_member, quoted, JsonNumber, JsonValue};
use crate::request::ToolSpec;
use crate::text::{
    chars_of, debug_quote, debug_quoted, decimal, starts_with_seq, starts_with_str, str_eq,
    string_from_chars, u64_to_decimal,
};
use crate::tools::{tool_name_error, validate_tool_name};

verus! {

/// What parsing the JSON text `schema` and compiling it as a draft 2020-12
/// JSON Schema (`jsonschema::draft202012::options().build`, no external
/// resource retrieval) gives: success, or the parser's or compiler's
/// message.
pub uninterp spec fn schema_compile_result(schema: Seq<char>) -> std::result::Result<(), Seq<char>>;

/// What validating the JSON text `instance` against the schema `schema`,
/// compiled as above, gives: success, or the first validation error's
/// message (or the parser's or compiler's message, or an empty text where
/// the instance is not JSON).
pub uninterp spec fn schema_validation_result(schema: Seq<char>, instance: Seq<char>) -> std::result::Result<
    (),
    Seq<char>,
>;

/// The outcome of a schema operation, with its message as a view.
pub open spec fn outcome_view(r: std::result::Result<(), String>) -> std::result::Result<(), Seq<char>> {
    match r {
        Ok(()) => Ok(()),
        Err(m) => Err(m@),
    }
}

/// The message of a failed schema operation; empty where it succeeded.
pub open spec fn failure_text(r: std::result::Result<(), Seq<char>>) -> Seq<char> {
    match r {
        Ok(()) => Seq::empty(),
        Err(m) => m,
    }
}

/// Parses the JSON text `schema` with `serde_json::from_str` and compiles it
/// with `jsonschema::draft202012::options().build`: succeeds exactly when
/// the schema compiles, else gives the parser's or compiler's message, as
/// `schema_compile_result` names them.
#[verifier::external_body]
fn compile_schema(schema: &str) -> (r: std::result::Result<(), String>)
    ensures
        outcome_view(r) == schema_compile_result(schema@),
{
    match serde_json::from_str::<serde_json::Value>(schema) {
        Ok(value) => match jsonschema::draft202012::options().build(&value) {
            Ok(_) => Ok(()),
            Err(e) => Err(e.to_string()),
        },
        Err(e) => Err(e.to_string()),
    }
}

/// Validates the JSON text `instance` with `Validator::validate` of
/// `jsonschema`, against the schema `schema` compiled as in
/// `compile_schema`: succeeds exactly when the instance is valid, else gives
/// the first validation error's message, as `schema_validation_result`
/// names it.
#[verifier::external_body]
fn validate_instance(schema: &str, instance: &str) -> (r: std::result::Result<(), String>)
    ensures
        outcome_view(r) == schema_validation_result(schema@, instance@),
{
    let parsed = (
        serde_json::from_str::<serde_json::Value>(schema),
        serde_json::from_str::<serde_json::Value>(instance),
    );
    match parsed {
        (Ok(schema), Ok(instance)) => match jsonschema::draft202012::options().build(&schema) {
            Ok(validator) => match validator.validate(&instance) {
                Ok(()) => Ok(()),
                Err(e) => Err(e.to_string()),
            },
            Err(e) => Err(e.to_string()),
        },
        _ => Err(String::new()),
    }
}

/// What a local `$ref` becomes when its document is placed at `root`: `#`
/// becomes `root`, `#/suffix` becomes `root/suffix`; other references stay.
pub open spec fn rebased_ref(r: Seq<char>, root: Seq<char>) -> Option<Seq<char>> {
    if r == "#"@ {
        Some(root)
    } else if starts_with_seq(r, "#/"@) {
        Some(root + "/"@ + r.skip(2))
    } else {
        None
    }
}

/// The JSON text of `v` with every local `$ref` string member rebased onto
/// `root`, at any depth.
pub open spec fn rebased_text(v: JsonValue, root: Seq<char>) -> Seq<char>
    decreases v, 1nat,
{
    match v {
        JsonValue::Array(items) => "["@ + rebased_items(items@, items@.len(), root) + "]"@,
        JsonValue::Object(entries) => "{"@ + rebased_members(entries@, entries@.len(), root) + "}"@,
        _ => json_text(v),
    }
}

pub open spec fn rebased_items(items: Seq<JsonValue>, n: nat, root: Seq<char>) -> Seq<char>
    decreases items, 0nat, n,
{
    if n == 0 || n > items.len() {
        Seq::empty()
    } else if n == 1 {
        rebased_text(items[0], root)
    } else {
        rebased_items(items, (n - 1) as nat, root) + ","@ + rebased_text(items[n - 1], root)
    }
}

pub open spec fn rebased_members(entries: Seq<(String, JsonValue)>, n: nat, root: Seq<char>) -> Seq<char>
    decreases entries, 0nat, n,
{
    if n == 0 || n > entries.len() {
        Seq::empty()
    } else {
        let k = entries[n - 1].0@;
        let v = entries[n - 1].1;
        let value = if k == "$ref"@ && v is String && rebased_ref(v->String_0@, root) is Some {
            quoted(rebased_ref(v->String_0@, root)->0)
        } else {
            rebased_text(v, root)
        };
        if n == 1 {
            quoted(k) + ":"@ + value
        } else {
            rebased_members(entries, (n - 1) as nat, root) + ","@ + quoted(k) + ":"@ + value
        }
    }
}

/// Rebases one `$ref` text onto `root`, if it is a local reference.
fn rebase_ref(r: &str, root: &str) -> (o: Option<String>)
    ensures
        match o {
            Some(t) => rebased_ref(r@, root@) == Some(t@),
            None => rebased_ref(r@, root@) is None,
        },
{
    if str_eq(r, "#") {
        return Some(root.to_owned());
    }
    if starts_with_str(r, "#/") {
        proof {
            reveal_strlit("#/");
        }
        let v = chars_of(r);
        let suffix = string_from_chars(v.as_slice(), 2, v.len());
        let head = concat_str(root, "/");
        let t = concat_str(head.as_str(), suffix.as_str());
        proof {
            assert(suffix@ =~= r@.skip(2));
        }
        return Some(t);
    }
    None
}

fn copy_number(n: &JsonNumber) -> (r: JsonNumber)
    ensures
        json_text(JsonValue::Number(r)) == json_text(JsonValue::Number(*n)),
{
    match n {
        JsonNumber::PosInt(u) => JsonNumber::PosInt(*u),
        JsonNumber::NegInt(i) => JsonNumber::NegInt(*i),
        JsonNumber::Float(t) => JsonNumber::Float(t.clone()),
    }
}

/// A copy of `v` with every local `$ref` (`#` or `#/...`) rebased onto
/// `root`, as when `v` is embedded in another document at `root`.
pub fn rebase_local_json_schema_refs(v: &JsonValue, root: &str) -> (r: JsonValue)
    ensures
        json_text(r) == rebased_text(*v, root@),
    decreases *v,
{
    match v {
        JsonValue::Null => JsonValue::Null,
        JsonValue::Bool(b) => JsonValue::Bool(*b),
        JsonValue::Number(n) => JsonValue::Number(copy_number(n)),
        JsonValue::String(s) => JsonValue::String(s.clone()),
        JsonValue::Array(items) => {
            let mut out: Vec<JsonValue> = Vec::new();
            let mut i: usize = 0;
            while i < items.len()
                invariant
                    i <= items@.len(),
                    *v == JsonValue::Array(*items),
                    out@.len() == i,
                    items_text(out@, i as nat) == rebased_items(items@, i as nat, root@),
                decreases items@.len() - i,
            {
                proof {
                    assert(decreases_to!(*v => (*v)->Array_0));
                    assert(decreases_to!(*items => items@));
                    assert(decreases_to!(items@ => items@[i as int]));
                }
                let item = rebase_local_json_schema_refs(&items[i], root);
                push_item(&mut out, item);
                i = i + 1;
            }
            JsonValue::Array(out)
        },
        JsonValue::Object(entries) => {
            let mut out: Vec<(String, JsonValue)> = Vec::new();
            let mut i: usize = 0;
            while i < entries.len()
                invariant
                    i <= entries@.len(),
                    *v == JsonValue::Object(*entries),
                    out@.len() == i,
                    members_text(out@, i as nat) == rebased_members(entries@, i as nat, root@),
                decreases entries@.len() - i,
            {
                let key = &entries[i].0;
                let value = &entries[i].1;
                proof {
                    reveal_strlit("$ref");
                    assert(decreases_to!(*v => (*v)->Object_0));
                    assert(decreases_to!(*entries => entries@));
                    assert(decreases_to!(entries@ => entries@[i as int]));
                    assert(decreases_to!(entries@[i as int] => entries@[i as int].1));
                }
                let mut replaced: Option<JsonValue> = None;
                if str_eq(key.as_str(), "$ref") {
                    if let JsonValue::String(s) = value {
                        if let Some(t) = rebase_ref(s.as_str(), root) {
                            replaced = Some(JsonValue::String(t));
                        }
                    }
                }
                let new_value = match replaced {
                    Some(x) => x,
                    None => rebase_local_json_schema_refs(value, root),
                };
                push_member(&mut out, key.as_str(), new_value);
                i = i + 1;
            }
            JsonValue::Object(out)
        },
    }
}

/// Name of the `$defs` entry that holds the parameters of tool `i`.
pub open spec fn definition_name(i: nat) -> Seq<char> {
    "tool_"@ + decimal(i) + "_parameters"@
}

/// Reference to the parameters of tool `i` inside the tool-call schema.
pub open spec fn definition_ref(i: nat) -> Seq<char> {
    "#/$defs/"@ + definition_name(i)
}

/// The JSON text of the branch of the tool-call schema that admits a call
/// of the tool `name` whose arguments match `reference`.
pub open spec fn branch_text(name: Seq<char>, reference: Seq<char>) -> Seq<char> {
    let tool = "{"@ + (quoted("const"@) + ":"@ + quoted(name)) + "}"@;
    let arguments = "{"@ + (quoted("$ref"@) + ":"@ + quoted(reference)) + "}"@;
    let properties = "{"@ + (quoted("tool"@) + ":"@ + tool + ","@ + quoted("arguments"@) + ":"@
        + arguments) + "}"@;
    let required = "["@ + (quoted("tool"@) + ","@ + quoted("arguments"@)) + "]"@;
    "{"@ + (quoted("type"@) + ":"@ + quoted("object"@) + ","@ + quoted("additionalProperties"@)
        + ":"@ + "false"@ + ","@ + quoted("required"@) + ":"@ + required + ","@ + quoted(
        "properties"@,
    ) + ":"@ + properties) + "}"@
}

fn tool_branch(name: &str, reference: &str) -> (r: JsonValue)
    ensures
        json_text(r) == branch_text(name@, reference@),
{
    let mut tool: Vec<(String, JsonValue)> = Vec::new();
    push_member(&mut tool, "const", json_string(name));
    let mut arguments: Vec<(String, JsonValue)> = Vec::new();
    push_member(&mut arguments, "$ref", json_string(reference));
    let mut properties: Vec<(String, JsonValue)> = Vec::new();
    push_member(&mut properties, "tool", JsonValue::Object(tool));
    push_member(&mut properties, "arguments", JsonValue::Object(arguments));
    let mut required: Vec<JsonValue> = Vec::new();
    push_item(&mut required, json_string("tool"));
    push_item(&mut required, json_string("arguments"));
    let mut branch: Vec<(String, JsonValue)> = Vec::new();
    push_member(&mut branch, "type", json_string("object"));
    push_member(&mut branch, "additionalProperties", JsonValue::Bool(false));
    push_member(&mut branch, "required", JsonValue::Array(required));
    push_member(&mut branch, "properties", JsonValue::Object(properties));
    JsonValue::Object(branch)
}

/// The `$defs` members of the tool-call schema for the first `n` tools.
pub open spec fn definitions_text(tools: Seq<ToolSpec>, n: nat) -> Seq<char>
    decreases n,
{
    if n == 0 {
        Seq::empty()
    } else {
        let name = quoted(definition_name((n - 1) as nat));
        let value = rebased_text(tools[n - 1].parameters, definition_ref((n - 1) as nat));
        if n == 1 {
            name + ":"@ + value
        } else {
            definitions_text(tools, (n - 1) as nat) + ","@ + name + ":"@ + value
        }
    }
}

/// The `oneOf` branches of the tool-call schema for the first `n` tools.
pub open spec fn branches_text(tools: Seq<ToolSpec>, n: nat) -> Seq<char>
    decreases n,
{
    if n == 0 {
        Seq::empty()
    } else {
        let b = branch_text(tools[n - 1].name@, definition_ref((n - 1) as nat));
        if n == 1 {
            b
        } else {
            branches_text(tools, (n - 1) as nat) + ","@ + b
        }
    }
}

/// The JSON Schema dialect the tool-call schema declares.
pub open spec fn schema_dialect() -> Seq<char> {
    "https://json-schema.org/draft/2020-12/schema"@
}

/// The JSON text of the tool-call schema for `tools`: one `oneOf` branch per
/// tool, pairing its name with a reference to its parameters, which are
/// kept under `$defs` with their local references rebased.
pub open spec fn tool_schema_text(tools: Seq<ToolSpec>) -> Seq<char> {
    let n = tools.len();
    let definitions = "{"@ + definitions_text(tools, n) + "}"@;
    let branches = "["@ + branches_text(tools, n) + "]"@;
    "{"@ + (quoted("$schema"@) + ":"@ + quoted(schema_dialect()) + ","@ + quoted("title"@) + ":"@
        + quoted("MayhemToolCall"@) + ","@ + quoted("$defs"@) + ":"@ + definitions + ","@
        + quoted("oneOf"@) + ":"@ + branches) + "}"@
}

/// The prefix of the message for a tool whose parameters do not compile.
pub open spec fn parameters_fault_prefix(name: Seq<char>) -> Seq<char> {
    "tool "@ + debug_quoted(name) + " has invalid parameters JSON Schema: "@
}

/// The message of what is wrong with tool `i` among `tools`, checked in order: its name,
/// a repeat of an earlier tool's name, its parameters schema.
pub open spec fn tool_fault(tools: Seq<ToolSpec>, i: int) -> Option<Seq<char>> {
    let name = tools[i].name@;
    match tool_name_error(name) {
        Some(m) => Some(m),
        None => if exists|j: int| 0 <= j < i && (#[trigger] tools[j]).name@ == name {
            Some("duplicate tool name "@ + debug_quoted(name))
        } else {
            match schema_compile_result(json_text(tools[i].parameters)) {
                Err(d) => Some(parameters_fault_prefix(name) + d),
                Ok(()) => None,
            }
        },
    }
}

/// The fault of the first faulty tool among the first `n`.
pub open spec fn first_fault(tools: Seq<ToolSpec>, n: nat) -> Option<Seq<char>>
    decreases n,
{
    if n == 0 {
        None
    } else {
        match first_fault(tools, (n - 1) as nat) {
            Some(f) => Some(f),
            None => tool_fault(tools, n - 1),
        }
    }
}

/// Once some tool among the first `n` is faulty, the first fault stays the
/// same however many more tools follow.
proof fn lemma_first_fault_stable(tools: Seq<ToolSpec>, n: nat, m: nat)
    requires
        n <= m,
        first_fault(tools, n) is Some,
    ensures
        first_fault(tools, m) == first_fault(tools, n),
    decreases m - n,
{
    if n < m {
        lemma_first_fault_stable(tools, n, (m - 1) as nat);
    }
}

fn prefixed_error(prefix: String, detail: String) -> (e: EngineError)
    ensures
        e matches EngineError::InvalidConfig(m) && m@ == prefix@ + detail@,
{
    EngineError::InvalidConfig(concat_str(prefix.as_str(), detail.as_str()))
}

fn definition_name_exec(i: usize) -> (r: String)
    ensures
        r@ == definition_name(i as nat),
{
    let n = u64_to_decimal(i as u64);
    let head = concat_str("tool_", n.as_str());
    concat_str(head.as_str(), "_parameters")
}

fn name_seen(tools: &[ToolSpec], i: usize) -> (r: bool)
    requires
        i < tools@.len(),
    ensures
        r == exists|j: int| 0 <= j < i && (#[trigger] tools@[j]).name@ == tools@[i as int].name@,
{
    let mut j: usize = 0;
    while j < i
        invariant
            i < tools@.len(),
            j <= i,
            forall|k: int| 0 <= k < j ==> (#[trigger] tools@[k]).name@ != tools@[i as int].name@,
        decreases i - j,
    {
        if str_eq(tools[j].name.as_str(), tools[i].name.as_str()) {
            return true;
        }
        j = j + 1;
    }
    false
}

/// The JSON Schema that a tool call `{"tool": NAME, "arguments": ARGS}` of one
/// of `tools` must satisfy: `oneOf` one branch per tool, whose arguments
/// must match that tool's parameters schema (kept under `$defs`). Each tool
/// needs a valid, unrepeated name and a parameters schema that compiles, and
/// the whole schema must compile.
pub fn tool_call_json_schema(tools: &[ToolSpec]) -> (r: Result<JsonValue>)
    ensures
        tools@.len() == 0 ==> is_invalid_config(r, "tool-call grammar requires at least one tool"@),
        tools@.len() > 0 ==> match first_fault(tools@, tools@.len()) {
            Some(m) => is_invalid_config(r, m),
            None => match schema_compile_result(tool_schema_text(tools@)) {
                Ok(()) => r matches Ok(s) && json_text(s) == tool_schema_text(tools@),
                Err(d) => is_invalid_config(r, "generated tool-call JSON Schema is invalid: "@ + d),
            },
        },
{
    if tools.len() == 0 {
        return Err(invalid_config("tool-call grammar requires at least one tool"));
    }
    let mut definitions: Vec<(String, JsonValue)> = Vec::new();
    let mut branches: Vec<JsonValue> = Vec::new();
    let mut i: usize = 0;
    while i < tools.len()
        invariant
            i <= tools@.len(),
            definitions@.len() == i,
            branches@.len() == i,
            first_fault(tools@, i as nat) is None,
            members_text(definitions@, i as nat) == definitions_text(tools@, i as nat),
            items_text(branches@, i as nat) == branches_text(tools@, i as nat),
        decreases tools@.len() - i,
    {
        let tool = &tools[i];
        proof {
            assert(first_fault(tools@, (i + 1) as nat) == tool_fault(tools@, i as int));
        }
        match validate_tool_name(tool.name.as_str()) {
            Err(e) => {
                proof {
                    lemma_first_fault_stable(tools@, (i + 1) as nat, tools@.len());
                }
                return Err(e);
            },
            Ok(()) => {},
        }
        if name_seen(tools, i) {
            proof {
                lemma_first_fault_stable(tools@, (i + 1) as nat, tools@.len());
            }
            let q = debug_quote(tool.name.as_str());
            return Err(EngineError::InvalidConfig(concat_str("duplicate tool name ", q.as_str())));
        }
        let parameters_text = crate::json::to_json_text(&tool.parameters);
        match compile_schema(parameters_text.as_str()) {
            Err(detail) => {
                proof {
                    lemma_first_fault_stable(tools@, (i + 1) as nat, tools@.len());
                }
                let q = debug_quote(tool.name.as_str());
                let head = concat_str("tool ", q.as_str());
                let prefix = concat_str(head.as_str(), " has invalid parameters JSON Schema: ");
                return Err(prefixed_error(prefix, detail));
            },
            Ok(()) => {},
        }
        let definition = definition_name_exec(i);
        let reference = concat_str("#/$defs/", definition.as_str());
        let parameters = rebase_local_json_schema_refs(&tool.parameters, reference.as_str());
        push_member(&mut definitions, definition.as_str(), parameters);
        push_item(&mut branches, tool_branch(tool.name.as_str(), reference.as_str()));
        i = i + 1;
    }
    let mut schema: Vec<(String, JsonValue)> = Vec::new();
    push_member(&mut schema, "$schema", json_string("https://json-schema.org/draft/2020-12/schema"));
    push_member(&mut schema, "title", json_string("MayhemToolCall"));
    push_member(&mut schema, "$defs", JsonValue::Object(definitions));
    push_member(&mut schema, "oneOf", JsonValue::Array(branches));
    let schema = JsonValue::Object(schema);
    let text = crate::json::to_json_text(&schema);
    match compile_schema(text.as_str()) {
        Err(detail) => Err(prefixed_error("generated tool-call JSON Schema is invalid: ".to_owned(), detail)),
        Ok(()) => Ok(schema),
    }
}

/// How a tool call's arguments fare: the tool's name check, whether its
/// parameters schema compiled, whether the arguments are an object, and
/// whether they satisfy the schema. `Ok` exactly when every step passes.
pub fn tool_arguments_outcome(
    name: &str,
    compiled: std::result::Result<(), String>,
    arguments_are_object: bool,
    validated: std::result::Result<(), String>,
) -> (r: Result<()>)
    ensures
        match tool_name_error(name@) {
            Some(m) => is_invalid_config(r, m),
            None => if compiled is Err {
                is_invalid_config(r, parameters_fault_prefix(name@) + failure_text(outcome_view(compiled)))
            } else if !arguments_are_object {
                r matches Err(EngineError::InvalidOutput(m)) && m@ == "tool "@ + debug_quoted(name@)
                    + " arguments must be a JSON object"@
            } else if validated is Err {
                r matches Err(EngineError::InvalidOutput(m)) && m@ == "tool "@ + debug_quoted(name@)
                    + " arguments violate its parameters JSON Schema: "@ + failure_text(
                    outcome_view(validated),
                )
            } else {
                r is Ok
            },
        },
{
    match validate_tool_name(name) {
        Err(e) => return Err(e),
        Ok(()) => {},
    }
    let q = debug_quote(name);
    let head = concat_str("tool ", q.as_str());
    if let Err(detail) = compiled {
        let prefix = concat_str(head.as_str(), " has invalid parameters JSON Schema: ");
        return Err(prefixed_error(prefix, detail));
    }
    if !arguments_are_object {
        return Err(EngineError::InvalidOutput(concat_str(head.as_str(), " arguments must be a JSON object")));
    }
    if let Err(detail) = validated {
        let prefix = concat_str(head.as_str(), " arguments violate its parameters JSON Schema: ");
        return Err(EngineError::InvalidOutput(concat_str(prefix.as_str(), detail.as_str())));
    }
    Ok(())
}

/// Checks a tool call's arguments: the tool's name must be valid, its
/// parameters schema must compile, and the arguments must be a JSON object
/// that the schema accepts.
pub fn validate_tool_call_arguments(tool: &ToolSpec, arguments: &JsonValue) -> (r: Result<()>)
    ensures
        match tool_name_error(tool.name@) {
            Some(m) => is_invalid_config(r, m),
            None => match schema_compile_result(json_text(tool.parameters)) {
                Err(d) => is_invalid_config(r, parameters_fault_prefix(tool.name@) + d),
                Ok(()) => if !(*arguments is Object) {
                    r matches Err(EngineError::InvalidOutput(m)) && m@ == "tool "@ + debug_quoted(
                        tool.name@,
                    ) + " arguments must be a JSON object"@
                } else {
                    match schema_validation_result(json_text(tool.parameters), json_text(*arguments)) {
                        Err(d) => r matches Err(EngineError::InvalidOutput(m)) && m@ == "tool "@
                            + debug_quoted(tool.name@) + " arguments violate its parameters JSON Schema: "@
                            + d,
                        Ok(()) => r is Ok,
                    }
                },
            },
        },
{
    match validate_tool_name(tool.name.as_str()) {
        Err(e) => return Err(e),
        Ok(()) => {},
    }
    let schema = crate::json::to_json_text(&tool.parameters);
    let compiled = compile_schema(schema.as_str());
    let is_object = arguments.is_object();
    let validated = if compiled.is_ok() && is_object {
        let instance = crate::json::to_json_text(arguments);
        validate_instance(schema.as_str(), instance.as_str())
    } else {
        Ok(())
    };
    tool_arguments_outcome(tool.name.as_str(), compiled, is_object, validated)
}

/// A `$ref` text that points into its own document.
pub open spec fn is_local_ref(r: Seq<char>) -> bool {
    r == "#"@ || starts_with_seq(r, "#/"@)
}

/// `v` holds no `$ref` member whose text is a local reference, at any depth.
pub open spec fn free_of_local_refs(v: JsonValue) -> bool
    decreases v, 1nat,
{
    match v {
        JsonValue::Array(items) => items_free_of_local_refs(items@, items@.len()),
        JsonValue::Object(entries) => members_free_of_local_refs(entries@, entries@.len()),
        _ => true,
    }
}

pub open spec fn items_free_of_local_refs(items: Seq<JsonValue>, n: nat) -> bool
    decreases items, 0nat, n,
{
    if n == 0 || n > items.len() {
        true
    } else {
        items_free_of_local_refs(items, (n - 1) as nat) && free_of_local_refs(items[n - 1])
    }
}

pub open spec fn members_free_of_local_refs(entries: Seq<(String, JsonValue)>, n: nat) -> bool
    decreases entries, 0nat, n,
{
    if n == 0 || n > entries.len() {
        true
    } else {
        let k = entries[n - 1].0@;
        let v = entries[n - 1].1;
        &&& members_free_of_local_refs(entries, (n - 1) as nat)
        &&& !(k == "$ref"@ && v is String && is_local_ref(v->String_0@))
        &&& free_of_local_refs(v)
    }
}

/// A parameters schema without local references is embedded in the
/// tool-call schema exactly as given.
pub proof fn lemma_rebase_keeps_reference_free_schemas(v: JsonValue, root: Seq<char>)
    requires
        free_of_local_refs(v),
    ensures
        rebased_text(v, root) == json_text(v),
    decreases v, 1nat,
{
    match v {
        JsonValue::Array(items) => {
            assert(decreases_to!(v => v->Array_0));
            assert(decreases_to!(items => items@));
            lemma_items_keep(items@, items@.len(), root);
        },
        JsonValue::Object(entries) => {
            assert(decreases_to!(v => v->Object_0));
            assert(decreases_to!(entries => entries@));
            lemma_members_keep(entries@, entries@.len(), root);
        },
        _ => {},
    }
}

proof fn lemma_items_keep(items: Seq<JsonValue>, n: nat, root: Seq<char>)
    requires
        items_free_of_local_refs(items, n),
    ensures
        rebased_items(items, n, root) == items_text(items, n),
    decreases items, 0nat, n,
{
    if n > 0 && n <= items.len() {
        lemma_items_keep(items, (n - 1) as nat, root);
        assert(decreases_to!(items => items[n - 1]));
        lemma_rebase_keeps_reference_free_schemas(items[n - 1], root);
    }
}

proof fn lemma_members_keep(entries: Seq<(String, JsonValue)>, n: nat, root: Seq<char>)
    requires
        members_free_of_local_refs(entries, n),
    ensures
        rebased_members(entries, n, root) == members_text(entries, n),
    decreases entries, 0nat, n,
{
    if n > 0 && n <= entries.len() {
        lemma_members_keep(entries, (n - 1) as nat, root);
        assert(decreases_to!(entries => entries[n - 1]));
        assert(decreases_to!(entries[n - 1] => entries[n - 1].1));
        lemma_rebase_keeps_reference_free_schemas(entries[n - 1].1, root);
        let v = entries[n - 1].1;
        if v is String {
            let r = v->String_0@;
            assert(rebased_ref(r, root) is Some ==> is_local_ref(r));
        }
    }
}

} // verus!
