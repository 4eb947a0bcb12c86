//! JSON values as requests and tool schemas carry them.
use vstd::prelude::*;

use crate::text::{str_eq};

verus! {

/// A JSON number: an integer that fits `u64` or `i64`, or any other number
/// kept as the text that serializes it.
#[derive(Clone, Debug, PartialEq, Eq)]
pub enum JsonNumber {
    PosInt(u64),
    NegInt(i64),
    Float(String),
}

/// A JSON value. An object lists its members in order, each key once.
#[derive(Debug)]
pub enum JsonValue {
    Null,
    Bool(bool),
    Number(JsonNumber),
    String(String),
    Array(Vec<JsonValue>),
    Object(Vec<(String, JsonValue)>),
}

/// The value of the first member named `key`.
pub open spec fn member(entries: Seq<(String, JsonValue)>, key: Seq<char>) -> Option<JsonValue>
    decreases entries.len(),
{
    if entries.len() == 0 {
        None
    } else if entries[0].0@ == key {
        Some(entries[0].1)
    } else {
        member(entries.drop_first(), key)
    }
}

/// What `value[key]` looks up: a member of an object, nothing otherwise.
pub open spec fn json_get(v: JsonValue, key: Seq<char>) -> Option<JsonValue> {
    match v {
        JsonValue::Object(entries) => member(entries@, key),
        _ => None,
    }
}

/// The text of a string value.
pub open spec fn json_str(v: Option<JsonValue>) -> Option<Seq<char>> {
    match v {
        Some(JsonValue::String(s)) => Some(s@),
        _ => None,
    }
}

/// The integer of a number that fits `i64`.
pub open spec fn json_i64(v: JsonValue) -> Option<i64> {
    match v {
        JsonValue::Number(JsonNumber::PosInt(n)) => if n <= i64::MAX {
            Some(n as i64)
        } else {
            None
        },
        JsonValue::Number(JsonNumber::NegInt(n)) => Some(n),
        _ => None,
    }
}

/// The integer of a non-negative number that fits `u64`.
pub open spec fn json_u64(v: JsonValue) -> Option<u64> {
    match v {
        JsonValue::Number(JsonNumber::PosInt(n)) => Some(n),
        JsonValue::Number(JsonNumber::NegInt(n)) => if n >= 0 {
            Some(n as u64)
        } else {
            None
        },
        _ => None,
    }
}

proof fn lemma_member_index(entries: Seq<(String, JsonValue)>, key: Seq<char>, i: int)
    requires
        0 <= i <= entries.len(),
        forall|j: int| 0 <= j < i ==> entries[j].0@ != key,
    ensures
        i < entries.len() && entries[i].0@ == key ==> member(entries, key) == Some(entries[i].1),
        i == entries.len() ==> member(entries, key) is None,
    decreases i,
{
    if i > 0 {
        lemma_member_index(entries.drop_first(), key, i - 1);
    }
}

impl JsonValue {
    pub fn is_object(&self) -> (r: bool)
        ensures
            r == (*self is Object),
    {
        match self {
            JsonValue::Object(_) => true,
            _ => false,
        }
    }

    /// The member `key` of an object.
    pub fn get(&self, key: &str) -> (r: Option<&JsonValue>)
        ensures
            match r {
                Some(v) => json_get(*self, key@) == Some(*v),
                None => json_get(*self, key@) is None,
            },
    {
        match self {
            JsonValue::Object(entries) => {
                let mut i: usize = 0;
                while i < entries.len()
                    invariant
                        i <= entries@.len(),
                        *self == JsonValue::Object(*entries),
                        forall|j: int| 0 <= j < i ==> entries@[j].0@ != key@,
                    decreases entries@.len() - i,
                {
                    let entry = &entries[i];
                    if str_eq(entry.0.as_str(), key) {
                        proof {
                            assert(entry == entries@[i as int]);
                            assert(entries@[i as int].0@ == key@);
                            lemma_member_index(entries@, key@, i as int);
                            assert(member(entries@, key@) == Some(entry.1));
                        }
                        return Some(&entry.1);
                    }
                    i = i + 1;
                }
                proof {
                    lemma_member_index(entries@, key@, i as int);
                }
                None
            },
            _ => None,
        }
    }

    pub fn as_str(&self) -> (r: Option<&str>)
        ensures
            crate::config::opt_str_view(r) == json_str(Some(*self)),
    {
        match self {
            JsonValue::String(s) => Some(s.as_str()),
            _ => None,
        }
    }

    pub fn as_bool(&self) -> (r: Option<bool>)
        ensures
            r == match *self {
                JsonValue::Bool(b) => Some(b),
                _ => None,
            },
    {
        match self {
            JsonValue::Bool(b) => Some(*b),
            _ => None,
        }
    }

    pub fn as_i64(&self) -> (r: Option<i64>)
        ensures
            r == json_i64(*self),
    {
        match self {
            JsonValue::Number(JsonNumber::PosInt(n)) => if *n <= 0x7fff_ffff_ffff_ffff {
                Some(*n as i64)
            } else {
                None
            },
            JsonValue::Number(JsonNumber::NegInt(n)) => Some(*n),
            _ => None,
        }
    }

    pub fn as_u64(&self) -> (r: Option<u64>)
        ensures
            r == json_u64(*self),
    {
        match self {
            JsonValue::Number(JsonNumber::PosInt(n)) => Some(*n),
            JsonValue::Number(JsonNumber::NegInt(n)) => if *n >= 0 {
                Some(*n as u64)
            } else {
                None
            },
            _ => None,
        }
    }
}

/// The text of member `key` when it is a string.
pub fn get_str<'a>(v: &'a JsonValue, key: &str) -> (r: Option<&'a str>)
    ensures
        crate::config::opt_str_view(r) == json_str(json_get(*v, key@)),
{
    match v.get(key) {
        Some(m) => m.as_str(),
        None => None,
    }
}

} // verus!

verus! {

/// The hexadecimal digit for `d` in 0..16, in lowercase.
pub open spec fn hex_digit(d: nat) -> char {
    if d < 10 {
        (('0' as u32) + d) as char
    } else {
        (('a' as u32) + d - 10) as char
    }
}

/// How a string character is written inside JSON quotes.
pub open spec fn escaped_char(c: char) -> Seq<char> {
    if c == '"' {
        "\\\""@
    } else if c == '\\' {
        "\\\\"@
    } else if c == '\n' {
        "\\n"@
    } else if c == '\r' {
        "\\r"@
    } else if c == '\t' {
        "\\t"@
    } else if c == '\u{8}' {
        "\\b"@
    } else if c == '\u{c}' {
        "\\f"@
    } else if (c as u32) < 0x20 {
        "\\u00"@ + seq![hex_digit(((c as u32) / 16) as nat), hex_digit(((c as u32) % 16) as nat)]
    } else {
        seq![c]
    }
}

/// A string as a JSON string literal.
pub open spec fn quoted(s: Seq<char>) -> Seq<char> {
    "\""@ + escaped(s) + "\""@
}

pub open spec fn escaped(s: Seq<char>) -> Seq<char>
    decreases s.len(),
{
    if s.len() == 0 {
        Seq::empty()
    } else {
        escaped(s.drop_last()) + escaped_char(s.last())
    }
}

/// A number as JSON writes it.
pub open spec fn number_text(n: JsonNumber) -> Seq<char> {
    match n {
        JsonNumber::PosInt(u) => crate::text::decimal(u as nat),
        JsonNumber::NegInt(i) => if i < 0 {
            "-"@ + crate::text::decimal((-i) as nat)
        } else {
            crate::text::decimal(i as nat)
        },
        JsonNumber::Float(t) => t@,
    }
}

/// The compact JSON text of a value: no whitespace, members in order.
pub open spec fn json_text(v: JsonValue) -> Seq<char>
    decreases v, 1nat,
{
    match v {
        JsonValue::Null => "null"@,
        JsonValue::Bool(b) => if b {
            "true"@
        } else {
            "false"@
        },
        JsonValue::Number(n) => number_text(n),
        JsonValue::String(s) => quoted(s@),
        JsonValue::Array(items) => "["@ + items_text(items@, items@.len()) + "]"@,
        JsonValue::Object(entries) => "{"@ + members_text(entries@, entries@.len()) + "}"@,
    }
}

/// The first `n` items, written and separated by commas.
pub open spec fn items_text(items: Seq<JsonValue>, n: nat) -> Seq<char>
    decreases items, 0nat, n,
{
    if n == 0 || n > items.len() {
        Seq::empty()
    } else if n == 1 {
        json_text(items[0])
    } else {
        items_text(items, (n - 1) as nat) + ","@ + json_text(items[n - 1])
    }
}

/// The first `n` members, written as `"key":value` and separated by commas.
pub open spec fn members_text(entries: Seq<(String, JsonValue)>, n: nat) -> Seq<char>
    decreases entries, 0nat, n,
{
    if n == 0 || n > entries.len() {
        Seq::empty()
    } else if n == 1 {
        quoted(entries[0].0@) + ":"@ + json_text(entries[0].1)
    } else {
        members_text(entries, (n - 1) as nat) + ","@ + quoted(entries[n - 1].0@) + ":"@
            + json_text(entries[n - 1].1)
    }
}

fn push_escaped(out: &mut String, c: char)
    ensures
        final(out)@ == old(out)@ + escaped_char(c),
{
    if c == '"' {
        out.append("\\\"");
    } else if c == '\\' {
        out.append("\\\\");
    } else if c == '\n' {
        out.append("\\n");
    } else if c == '\r' {
        out.append("\\r");
    } else if c == '\t' {
        out.append("\\t");
    } else if c == '\u{8}' {
        out.append("\\b");
    } else if c == '\u{c}' {
        out.append("\\f");
    } else if (c as u32) < 0x20 {
        let code = c as u32;
        let hi = code / 16;
        let lo = code % 16;
        let h = if hi < 10 {
            char_from_digit('0' as u32 + hi)
        } else {
            char_from_digit('a' as u32 + hi - 10)
        };
        let l = if lo < 10 {
            char_from_digit('0' as u32 + lo)
        } else {
            char_from_digit('a' as u32 + lo - 10)
        };
        out.append("\\u00");
        crate::text::push_char(out, h);
        crate::text::push_char(out, l);
        proof {
            assert(escaped_char(c) =~= "\\u00"@ + seq![h, l]);
        }
    } else {
        crate::text::push_char(out, c);
    }
}

/// The character with an ASCII code.
fn char_from_digit(code: u32) -> (c: char)
    requires
        code < 0x80,
    ensures
        c == code as char,
{
    let b = code as u8;
    b as char
}

fn push_quoted(out: &mut String, s: &str)
    ensures
        final(out)@ == old(out)@ + quoted(s@),
{
    let ghost start = out@;
    out.append("\"");
    for c in it: s.chars()
        invariant
            it.seq() == s@,
            out@ == start + "\""@ + escaped(s@.take(it.index() as int)),
    {
        proof {
            assert(s@.take(it.index() + 1).drop_last() =~= s@.take(it.index() as int));
        }
        push_escaped(out, c);
    }
    assert(s@.take(s@.len() as int) =~= s@);
    out.append("\"");
}

/// Appends the compact JSON text of a value.
pub fn write_json(out: &mut String, v: &JsonValue)
    ensures
        final(out)@ == old(out)@ + json_text(*v),
    decreases *v,
{
    match v {
        JsonValue::Null => out.append("null"),
        JsonValue::Bool(b) => if *b {
            out.append("true")
        } else {
            out.append("false")
        },
        JsonValue::Number(JsonNumber::PosInt(u)) => out.append(
            crate::text::u64_to_decimal(*u).as_str(),
        ),
        JsonValue::Number(JsonNumber::NegInt(i)) => {
            if *i < 0 {
                let magnitude = ((-(*i + 1)) as u64) + 1;
                out.append("-");
                out.append(crate::text::u64_to_decimal(magnitude).as_str());
            } else {
                out.append(crate::text::u64_to_decimal(*i as u64).as_str());
            }
        },
        JsonValue::Number(JsonNumber::Float(t)) => out.append(t.as_str()),
        JsonValue::String(s) => push_quoted(out, s.as_str()),
        JsonValue::Array(items) => {
            let ghost start = out@;
            out.append("[");
            let mut i: usize = 0;
            while i < items.len()
                invariant
                    i <= items@.len(),
                    *v == JsonValue::Array(*items),
                    out@ == start + "["@ + items_text(items@, i as nat),
                decreases items@.len() - i,
            {
                if i > 0 {
                    out.append(",");
                }
                proof {
                    assert(decreases_to!(*v => (*v)->Array_0));
                    assert(decreases_to!(*items => items@));
                    assert(decreases_to!(items@ => items@[i as int]));
                }
                write_json(out, &items[i]);
                i = i + 1;
            }
            out.append("]");
        },
        JsonValue::Object(entries) => {
            let ghost start = out@;
            out.append("{");
            let mut i: usize = 0;
            while i < entries.len()
                invariant
                    i <= entries@.len(),
                    *v == JsonValue::Object(*entries),
                    out@ == start + "{"@ + members_text(entries@, i as nat),
                decreases entries@.len() - i,
            {
                if i > 0 {
                    out.append(",");
                }
                push_quoted(out, entries[i].0.as_str());
                out.append(":");
                proof {
                    assert(decreases_to!(*v => (*v)->Object_0));
                    assert(decreases_to!(*entries => entries@));
                    assert(decreases_to!(entries@ => entries@[i as int]));
                    assert(decreases_to!(entries@[i as int] => entries@[i as int].1));
                }
                write_json(out, &entries[i].1);
                i = i + 1;
            }
            out.append("}");
        },
    }
}

/// The compact JSON text of a value.
pub fn to_json_text(v: &JsonValue) -> (r: String)
    ensures
        r@ == json_text(*v),
{
    let mut out = String::new();
    write_json(&mut out, v);
    out
}

proof fn lemma_items_text_prefix(s: Seq<JsonValue>, x: JsonValue, n: nat)
    requires
        n <= s.len(),
    ensures
        items_text(s.push(x), n) == items_text(s, n),
    decreases n,
{
    if n > 1 {
        lemma_items_text_prefix(s, x, (n - 1) as nat);
        assert(s.push(x)[n - 1] == s[n - 1]);
    } else if n == 1 {
        assert(s.push(x)[0] == s[0]);
    }
}

proof fn lemma_members_text_prefix(s: Seq<(String, JsonValue)>, x: (String, JsonValue), n: nat)
    requires
        n <= s.len(),
    ensures
        members_text(s.push(x), n) == members_text(s, n),
    decreases n,
{
    if n > 1 {
        lemma_members_text_prefix(s, x, (n - 1) as nat);
        assert(s.push(x)[n - 1] == s[n - 1]);
    } else if n == 1 {
        assert(s.push(x)[0] == s[0]);
    }
}

/// Appends an item to an array under construction.
pub fn push_item(items: &mut Vec<JsonValue>, v: JsonValue)
    ensures
        final(items)@ == old(items)@.push(v),
        old(items)@.len() == 0 ==> items_text(final(items)@, final(items)@.len()) == json_text(v),
        old(items)@.len() > 0 ==> items_text(final(items)@, final(items)@.len()) == items_text(
            old(items)@,
            old(items)@.len(),
        ) + ","@ + json_text(v),
{
    let ghost before = items@;
    items.push(v);
    proof {
        if before.len() > 0 {
            lemma_items_text_prefix(before, v, before.len());
        }
    }
}

/// Appends a member to an object under construction.
pub fn push_member(entries: &mut Vec<(String, JsonValue)>, key: &str, v: JsonValue)
    ensures
        final(entries)@.len() == old(entries)@.len() + 1,
        old(entries)@.len() == 0 ==> members_text(final(entries)@, final(entries)@.len()) == quoted(key@)
            + ":"@ + json_text(v),
        old(entries)@.len() > 0 ==> members_text(final(entries)@, final(entries)@.len())
            == members_text(old(entries)@, old(entries)@.len()) + ","@ + quoted(key@) + ":"@
            + json_text(v),
{
    let ghost before = entries@;
    let k = key.to_owned();
    let ghost m = (k, v);
    entries.push((k, v));
    proof {
        assert(entries@ == before.push(m));
        if before.len() > 0 {
            lemma_members_text_prefix(before, m, before.len());
        }
    }
}

/// A JSON string holding `s`.
pub fn json_string(s: &str) -> (r: JsonValue)
    ensures
        json_text(r) == quoted(s@),
{
    JsonValue::String(s.to_owned())
}

} // verus!
