//! Tool names and the GBNF grammar that restricts a generation to one tool call.
use vstd::prelude::*;

use crate::config::concat_str;
use crate::error::{invalid_config, is_invalid_config, EngineError, Result};
use crate::request::ToolSpec;
use crate::text::{debug_quote, debug_quoted, is_ascii_alnum, is_blank, is_blank_seq};

verus! {

/// A character a tool name may hold.
pub open spec fn is_tool_name_char(c: char) -> bool {
    is_ascii_alnum(c) || c == '_' || c == '-' || c == '.' || c == ':' || c == '/'
}

/// Why a tool name is refused, if it is.
pub open spec fn tool_name_error(name: Seq<char>) -> Option<Seq<char>> {
    if is_blank_seq(name) {
        Some("tool names cannot be empty"@)
    } else if exists|i: int| 0 <= i < name.len() && !is_tool_name_char(#[trigger] name[i]) {
        Some("tool name "@ + debug_quoted(name) + " contains unsupported characters"@)
    } else {
        None
    }
}

/// Checks that a tool name is non-blank and of letters, digits, `_`, `-`,
/// `.`, `:` and `/` only.
pub fn validate_tool_name(name: &str) -> (r: Result<()>)
    ensures
        match tool_name_error(name@) {
            Some(text) => is_invalid_config(r, text),
            None => r is Ok,
        },
{
    if is_blank(name) {
        return Err(invalid_config("tool names cannot be empty"));
    }
    let mut ok = true;
    for c in it: name.chars()
        invariant
            it.seq() == name@,
            ok == (forall|i: int| 0 <= i < it.index() ==> is_tool_name_char(#[trigger] name@[i])),
    {
        let good = ('a' <= c && c <= 'z') || ('A' <= c && c <= 'Z') || ('0' <= c && c <= '9')
            || c == '_' || c == '-' || c == '.' || c == ':' || c == '/';
        ok = ok && good;
    }
    if !ok {
        let m = concat_str("tool name ", debug_quote(name).as_str());
        return Err(EngineError::InvalidConfig(concat_str(m.as_str(), " contains unsupported characters")));
    }
    Ok(())
}

/// The grammar literal that matches a quoted tool name.
pub open spec fn quoted_name(name: Seq<char>) -> Seq<char> {
    "\"\\\""@ + name + "\\\"\""@
}

/// The quoted names joined by ` | `.
pub open spec fn name_alternatives(names: Seq<Seq<char>>) -> Seq<char>
    decreases names.len(),
{
    if names.len() == 0 {
        Seq::empty()
    } else if names.len() == 1 {
        quoted_name(names[0])
    } else {
        name_alternatives(names.drop_last()) + " | "@ + quoted_name(names.last())
    }
}

/// The grammar text before the tool-name alternatives.
pub open spec fn gbnf_head() -> Seq<char> {
    "root ::= \"{\" ws \"\\\"tool\\\"\" ws \":\" ws tool-name ws \",\" ws \"\\\"arguments\\\"\" ws \":\" ws object ws \"}\" ws\ntool-name ::= "@
}

/// The grammar text after the tool-name alternatives.
pub open spec fn gbnf_tail() -> Seq<char> {
    "\nobject ::= \"{\" ws (member (ws \",\" ws member)*)? ws \"}\"\nmember ::= string ws \":\" ws value\narray ::= \"[\" ws (value (ws \",\" ws value)*)? ws \"]\"\nvalue ::= object | array | string | number | \"true\" | \"false\" | \"null\"\nstring ::= \"\\\"\" char* \"\\\"\"\nchar ::= [^\"\\\\] | \"\\\\\" ([\"\\\\/bfnrt] | \"u\" [0-9a-fA-F] [0-9a-fA-F] [0-9a-fA-F] [0-9a-fA-F])\nnumber ::= \"-\"? ([0-9] | [1-9] [0-9]*) (\".\" [0-9]+)? ([eE] [-+]? [0-9]+)?\nws ::= [ \\t\\n\\r]*"@
}

/// The error of the first tool whose name is refused.
pub open spec fn first_tool_name_error(tools: Seq<ToolSpec>) -> Option<Seq<char>>
    decreases tools.len(),
{
    if tools.len() == 0 {
        None
    } else {
        match tool_name_error(tools[0].name@) {
            Some(t) => Some(t),
            None => first_tool_name_error(tools.drop_first()),
        }
    }
}

pub open spec fn tool_names(tools: Seq<ToolSpec>) -> Seq<Seq<char>> {
    tools.map_values(|t: ToolSpec| t.name@)
}

/// A GBNF grammar for `{"tool": NAME, "arguments": {...}}` where NAME is one
/// of the tools' names.
pub fn tool_call_gbnf(tools: &[ToolSpec]) -> (r: Result<String>)
    ensures
        tools@.len() == 0 ==> is_invalid_config(r, "tool-call grammar requires at least one tool"@),
        tools@.len() > 0 ==> match first_tool_name_error(tools@) {
            Some(text) => is_invalid_config(r, text),
            None => r matches Ok(g) && g@ == gbnf_head() + name_alternatives(tool_names(tools@))
                + gbnf_tail(),
        },
{
    if tools.len() == 0 {
        return Err(invalid_config("tool-call grammar requires at least one tool"));
    }
    let ghost ts = tools@;
    let mut names = String::new();
    let mut i: usize = 0;
    assert(ts.skip(0) =~= ts);
    while i < tools.len()
        invariant
            i <= ts.len(),
            ts == tools@,
            ts.len() > 0,
            first_tool_name_error(ts) == first_tool_name_error(ts.skip(i as int)),
            forall|k: int| 0 <= k < i ==> tool_name_error(#[trigger] ts[k].name@) is None,
            names@ == name_alternatives(tool_names(ts).take(i as int)),
        decreases ts.len() - i,
    {
        proof {
            assert(ts.skip(i as int).drop_first() =~= ts.skip(i + 1));
            assert(ts.skip(i as int)[0] == ts[i as int]);
        }
        validate_tool_name(tools[i].name.as_str())?;
        if i > 0 {
            names.append(" | ");
        }
        names.append("\"\\\"");
        names.append(tools[i].name.as_str());
        names.append("\\\"\"");
        proof {
            let t = tool_names(ts).take(i + 1);
            assert(t.drop_last() =~= tool_names(ts).take(i as int));
            assert(t.last() == ts[i as int].name@);
            if i == 0 {
                assert(t.len() == 1);
            }
        }
        i = i + 1;
    }
    proof {
        assert(tool_names(ts).take(ts.len() as int) =~= tool_names(ts));
        assert(first_tool_name_error(ts.skip(i as int)) is None);
    }
    let mut g = "root ::= \"{\" ws \"\\\"tool\\\"\" ws \":\" ws tool-name ws \",\" ws \"\\\"arguments\\\"\" ws \":\" ws object ws \"}\" ws\ntool-name ::= ".to_owned();
    g.append(names.as_str());
    g.append("\nobject ::= \"{\" ws (member (ws \",\" ws member)*)? ws \"}\"\nmember ::= string ws \":\" ws value\narray ::= \"[\" ws (value (ws \",\" ws value)*)? ws \"]\"\nvalue ::= object | array | string | number | \"true\" | \"false\" | \"null\"\nstring ::= \"\\\"\" char* \"\\\"\"\nchar ::= [^\"\\\\] | \"\\\\\" ([\"\\\\/bfnrt] | \"u\" [0-9a-fA-F] [0-9a-fA-F] [0-9a-fA-F] [0-9a-fA-F])\nnumber ::= \"-\"? ([0-9] | [1-9] [0-9]*) (\".\" [0-9]+)? ([eE] [-+]? [0-9]+)?\nws ::= [ \\t\\n\\r]*");
    Ok(g)
}

} // verus!
