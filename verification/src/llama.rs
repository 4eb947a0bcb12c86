//! Prompt batching, thinking markers and stop-sequence streaming of the
//! llama.cpp backend.
use vstd::prelude::*;

use core::ops::Range;

use crate::config::concat_str;
use crate::error::{invalid_config, is_invalid_config, EngineError, Result};
use crate::json::{json_get, json_i64, json_str, json_u64, JsonValue};
use crate::request::{GenerateRequest, GenerateSpecialityParameter, GenerateSpecialityTarget};
use crate::text::{
    chars_of, contains_seq, contains_str, find_chars, lower_seq, occurs_at, to_ascii_lower, trim_seq, ends_with_seq, ends_with_str, is_unicode_whitespace,
    is_whitespace, starts_with_seq, starts_with_str, str_eq, string_from_chars, trim_end_len,
    trim_end_seq,
};

verus! {

/// The batches that cover `start..count`, each `batch` tokens long but the
/// last, which ends at `count`.
pub open spec fn batch_ranges_from(start: int, count: int, batch: int) -> Seq<Range<usize>>
    decreases count - start,
{
    if batch <= 0 || start >= count {
        Seq::empty()
    } else if start + batch < count {
        seq![Range { start: start as usize, end: (start + batch) as usize }] + batch_ranges_from(
            start + batch,
            count,
            batch,
        )
    } else {
        seq![Range { start: start as usize, end: count as usize }]
    }
}

/// The prompt's prefill batches: `0..n_batch`, `n_batch..2*n_batch`, and so on,
/// the last one ending at `token_count`.
pub fn llama_prompt_batch_ranges(token_count: usize, n_batch: u32) -> (r: Result<Vec<Range<usize>>>)
    ensures
        n_batch == 0 ==> is_invalid_config(r, "llama.cpp batch size must be greater than zero"@),
        n_batch > 0 && token_count == 0 ==> is_invalid_config(
            r,
            "llama.cpp prompt tokenization produced no tokens"@,
        ),
        n_batch > 0 && token_count > 0 ==> (r matches Ok(v) && v@ == batch_ranges_from(
            0,
            token_count as int,
            n_batch as int,
        )),
{
    let batch = n_batch as usize;
    if batch == 0 {
        return Err(invalid_config("llama.cpp batch size must be greater than zero"));
    }
    if token_count == 0 {
        return Err(invalid_config("llama.cpp prompt tokenization produced no tokens"));
    }
    let mut ranges: Vec<Range<usize>> = Vec::new();
    let mut start: usize = 0;
    while start < token_count
        invariant
            batch == n_batch,
            batch > 0,
            start <= token_count,
            batch_ranges_from(0, token_count as int, batch as int) == ranges@ + batch_ranges_from(
                start as int,
                token_count as int,
                batch as int,
            ),
        decreases token_count - start,
    {
        let end = if batch < token_count - start {
            start + batch
        } else {
            token_count
        };
        let range = Range { start, end };
        proof {
            if end == token_count {
                assert(batch_ranges_from(start + batch, token_count as int, batch as int)
                    =~= Seq::<Range<usize>>::empty());
                assert(batch_ranges_from(start as int, token_count as int, batch as int) =~= seq![
                    range,
                ] + batch_ranges_from(start + batch, token_count as int, batch as int));
            } else {
                assert(batch_ranges_from(start as int, token_count as int, batch as int) == seq![
                    range,
                ] + batch_ranges_from(start + batch, token_count as int, batch as int));
            }
            assert(ranges@ + (seq![range] + batch_ranges_from(
                start + batch,
                token_count as int,
                batch as int,
            )) =~= ranges@.push(range) + batch_ranges_from(
                start + batch,
                token_count as int,
                batch as int,
            ));
        }
        ranges.push(range);
        if end == token_count {
            start = token_count;
        } else {
            start = end;
        }
    }
    assert(ranges@ + batch_ranges_from(start as int, token_count as int, batch as int)
        =~= ranges@);
    Ok(ranges)
}

/// Law: the batches are non-empty, contiguous, at most `batch` long, and
/// cover `start..count` exactly.
pub proof fn lemma_batch_ranges_cover(start: int, count: int, batch: int)
    requires
        0 <= start < count <= usize::MAX,
        batch > 0,
    ensures
        ({
            let s = batch_ranges_from(start, count, batch);
            &&& s.len() > 0
            &&& s[0].start == start
            &&& s.last().end == count
            &&& forall|i: int| 0 <= i < s.len() ==> s[i].start < s[i].end && s[i].end - s[i].start <= batch
            &&& forall|i: int| 0 <= i < s.len() - 1 ==> #[trigger] s[i].end == s[i + 1].start
        }),
    decreases count - start,
{
    let s = batch_ranges_from(start, count, batch);
    if start + batch < count {
        lemma_batch_ranges_cover(start + batch, count, batch);
        let rest = batch_ranges_from(start + batch, count, batch);
        assert(s =~= seq![Range { start: start as usize, end: (start + batch) as usize }] + rest);
        assert forall|i: int| 0 <= i < s.len() - 1 implies #[trigger] s[i].end == s[i + 1].start by {
            if i > 0 {
                assert(s[i] == rest[i - 1]);
                assert(s[i + 1] == rest[i]);
            }
        }
        assert forall|i: int| 0 <= i < s.len() implies s[i].start < s[i].end && s[i].end
            - s[i].start <= batch by {
            if i > 0 {
                assert(s[i] == rest[i - 1]);
            }
        }
    } else {
        assert(s =~= seq![Range { start: start as usize, end: count as usize }]);
    }
}

/// The rendered prompt leaves the assistant inside an open thinking block:
/// it ends (before trailing whitespace) with `<think>` or `<|think|>`, or it
/// opens with the system turn that switches thinking on.
pub open spec fn prompt_enables_thinking(prompt: Seq<char>) -> bool {
    let t = trim_end_seq(prompt);
    ||| ends_with_seq(t, "<think>"@)
    ||| ends_with_seq(t, "<|think|>"@)
    ||| starts_with_seq(prompt, "<|turn>system\n<|think|>\n"@)
}

pub fn llama_prompt_enables_thinking(prompt: &str) -> (r: bool)
    ensures
        r == prompt_enables_thinking(prompt@),
{
    let v = chars_of(prompt);
    let ghost s = prompt@;
    let mut end = v.len();
    assert(s.take(end as int) =~= s);
    while end > 0 && is_whitespace(v[end - 1])
        invariant
            end <= v@.len(),
            s == v@,
            trim_end_len(s) == trim_end_len(s.take(end as int)),
        decreases end,
    {
        assert(s.take(end as int).drop_last() =~= s.take(end - 1));
        end = end - 1;
    }
    proof {
        if end == 0 {
            assert(s.take(0) =~= Seq::<char>::empty());
        }
        assert(s.take(end as int).len() == end);
    }
    let trimmed = string_from_chars(v.as_slice(), 0, end);
    proof {
        assert(v@.subrange(0, end as int) =~= trim_end_seq(s));
    }
    ends_with_str(trimmed.as_str(), "<think>") || ends_with_str(trimmed.as_str(), "<|think|>")
        || starts_with_str(prompt, "<|turn>system\n<|think|>\n")
}

/// The generated text has left its reasoning block.
pub open spec fn reasoning_has_closed(text: Seq<char>) -> bool {
    contains_seq(text, "</think>"@) || contains_seq(text, "<|channel|>"@)
}

pub fn llama_reasoning_has_closed(text: &str) -> (r: bool)
    ensures
        r == reasoning_has_closed(text@),
{
    contains_str(text, "</think>") || contains_str(text, "<|channel|>")
}

/// A byte that continues a UTF-8 sequence rather than starting one.
pub open spec fn is_continuation_byte(b: u8) -> bool {
    0x80 <= b && b < 0xc0
}

/// A position in UTF-8 text at which a character starts (or the text ends).
pub open spec fn is_char_boundary(bytes: Seq<u8>, i: int) -> bool {
    i == 0 || i == bytes.len() || (0 < i < bytes.len() && !is_continuation_byte(bytes[i]))
}

/// The largest character boundary at or below `index` (clamped to the text).
pub fn floor_char_boundary(bytes: &[u8], index: usize) -> (r: usize)
    ensures
        r <= bytes@.len(),
        r <= index,
        is_char_boundary(bytes@, r as int),
        forall|j: int|
            r < j <= index && j <= bytes@.len() ==> !is_char_boundary(bytes@, j),
{
    let mut i = if index < bytes.len() {
        index
    } else {
        bytes.len()
    };
    while i > 0 && i < bytes.len() && 0x80 <= bytes[i] && bytes[i] < 0xc0
        invariant
            i <= bytes@.len(),
            i <= index,
            forall|j: int| i < j <= index && j <= bytes@.len() ==> !is_char_boundary(bytes@, j),
        decreases i,
    {
        i = i - 1;
    }
    i
}

} // verus!

verus! {

/// Decimal text of a signed integer, with a leading `-` when negative.
pub open spec fn signed_decimal(v: int) -> Seq<char> {
    if v < 0 {
        "-"@ + crate::text::decimal((-v) as nat)
    } else {
        crate::text::decimal(v as nat)
    }
}

pub fn i64_to_decimal(v: i64) -> (r: String)
    ensures
        r@ == signed_decimal(v as int),
{
    if v < 0 {
        let magnitude: u64 = ((-(v + 1)) as u64) + 1;
        let mut r = "-".to_owned();
        r.append(crate::text::u64_to_decimal(magnitude).as_str());
        r
    } else {
        crate::text::u64_to_decimal(v as u64)
    }
}

/// An image-token budget that the llama.cpp vision encoder supports.
pub open spec fn is_supported_image_budget(v: int) -> bool {
    v == 70 || v == 140 || v == 280 || v == 560 || v == 1120
}

/// What one speciality does to the image-token budget found so far.
pub open spec fn image_budget_step(b: Option<i32>, sp: GenerateSpecialityParameter) -> std::result::Result<
    Option<i32>,
    Seq<char>,
> {
    if sp.target != GenerateSpecialityTarget::BackendParameter || sp.native_path@
        != "mtmd.image_token_budget"@ {
        Ok(b)
    } else {
        match json_i64(sp.value) {
            None => Err(
                "llama.cpp image-token budget speciality "@ + sp.name@ + " must map to an integer"@,
            ),
            Some(v) => if v < i32::MIN || v > i32::MAX {
                Err("llama.cpp image-token budget exceeds i32"@)
            } else if !is_supported_image_budget(v as int) {
                Err("unsupported llama.cpp image-token budget "@ + signed_decimal(v as int))
            } else if b is Some {
                Err("llama.cpp received duplicate image-token budget specialities"@)
            } else {
                Ok(Some(v as i32))
            },
        }
    }
}

/// The image-token budget that the specialities set, checked in order.
pub open spec fn image_budget(specs: Seq<GenerateSpecialityParameter>) -> std::result::Result<
    Option<i32>,
    Seq<char>,
>
    decreases specs.len(),
{
    if specs.len() == 0 {
        Ok(None)
    } else {
        match image_budget(specs.drop_last()) {
            Err(e) => Err(e),
            Ok(b) => image_budget_step(b, specs.last()),
        }
    }
}

/// `r` is `Ok(v)` for `Ok(v)`, and an `InvalidConfig` error with the text
/// for `Err(text)`.
pub open spec fn config_outcome<T>(r: Result<T>, s: std::result::Result<T, Seq<char>>) -> bool {
    match s {
        Ok(v) => r == Ok::<T, EngineError>(v),
        Err(t) => is_invalid_config(r, t),
    }
}

fn same_text(a: &String, b: &str) -> (r: bool)
    ensures
        r == (a@ == b@),
{
    str_eq(a.as_str(), b)
}

/// The image-token budget that a request's backend specialities ask for.
pub fn llama_mtmd_image_token_budget(request: &GenerateRequest) -> (r: Result<Option<i32>>)
    ensures
        config_outcome(r, image_budget(request.speciality_parameters@)),
{
    let specs = &request.speciality_parameters;
    let mut budget: Option<i32> = None;
    let mut i: usize = 0;
    while i < specs.len()
        invariant
            i <= specs@.len(),
            specs@ == request.speciality_parameters@,
            image_budget(specs@.take(i as int)) == std::result::Result::<Option<i32>, Seq<char>>::Ok(budget),
        decreases specs@.len() - i,
    {
        let sp = &specs[i];
        proof {
            assert(specs@.take(i + 1).drop_last() =~= specs@.take(i as int));
            assert(specs@.take(i + 1).last() == *sp);
        }
        if sp.target == GenerateSpecialityTarget::BackendParameter && same_text(
            &sp.native_path,
            "mtmd.image_token_budget",
        ) {
            let v = match sp.value.as_i64() {
                Some(v) => v,
                None => {
                    proof {
                        lemma_image_budget_error_sticks(specs@, i as int + 1);
                    }
                    let m = concat_str("llama.cpp image-token budget speciality ", sp.name.as_str());
                    return Err(
                        EngineError::InvalidConfig(concat_str(m.as_str(), " must map to an integer")),
                    );
                },
            };
            if v < -2147483648 || v > 2147483647 {
                proof {
                    lemma_image_budget_error_sticks(specs@, i as int + 1);
                }
                return Err(invalid_config("llama.cpp image-token budget exceeds i32"));
            }
            if !(v == 70 || v == 140 || v == 280 || v == 560 || v == 1120) {
                proof {
                    lemma_image_budget_error_sticks(specs@, i as int + 1);
                }
                return Err(
                    EngineError::InvalidConfig(
                        concat_str(
                            "unsupported llama.cpp image-token budget ",
                            i64_to_decimal(v).as_str(),
                        ),
                    ),
                );
            }
            if budget.is_some() {
                proof {
                    lemma_image_budget_error_sticks(specs@, i as int + 1);
                }
                return Err(
                    invalid_config("llama.cpp received duplicate image-token budget specialities"),
                );
            }
            budget = Some(v as i32);
        }
        i = i + 1;
    }
    assert(specs@.take(specs@.len() as int) =~= specs@);
    Ok(budget)
}

proof fn lemma_image_budget_error_sticks(specs: Seq<GenerateSpecialityParameter>, k: int)
    requires
        0 <= k <= specs.len(),
        image_budget(specs.take(k)) is Err,
    ensures
        image_budget(specs) == image_budget(specs.take(k)),
    decreases specs.len() - k,
{
    if k < specs.len() {
        assert(specs.take(k + 1).drop_last() =~= specs.take(k));
        lemma_image_budget_error_sticks(specs, k + 1);
    } else {
        assert(specs.take(k) =~= specs);
    }
}

} // verus!

verus! {

/// The name or native path (ASCII case aside) speaks of reasoning or thinking.
pub open spec fn mentions_reasoning(name: Seq<char>, path: Seq<char>) -> bool {
    let n = lower_seq(name);
    let p = lower_seq(path);
    ||| contains_seq(n, "reason"@)
    ||| contains_seq(n, "think"@)
    ||| contains_seq(p, "reason"@)
    ||| contains_seq(p, "think"@)
}

/// The name or native path (ASCII case aside) speaks of preserving,
/// retaining or the history of reasoning rather than its budget.
pub open spec fn mentions_history(name: Seq<char>, path: Seq<char>) -> bool {
    let n = lower_seq(name);
    let p = lower_seq(path);
    ||| contains_seq(n, "preserve"@)
    ||| contains_seq(p, "preserve"@)
    ||| contains_seq(n, "history"@)
    ||| contains_seq(p, "history"@)
    ||| contains_seq(n, "retain"@)
    ||| contains_seq(p, "retain"@)
}

/// The level (ASCII case aside) is `none`, `off` or `disabled`.
pub open spec fn level_disabled(level: Seq<char>) -> bool {
    let l = lower_seq(level);
    l == "none"@ || l == "off"@ || l == "disabled"@
}

/// What one speciality does to the reasoning budget found so far.
pub open spec fn reasoning_budget_step(b: Option<u32>, sp: GenerateSpecialityParameter) -> std::result::Result<
    Option<u32>,
    Seq<char>,
> {
    match sp.max_reasoning_tokens {
        None => Ok(b),
        Some(limit) => if !(mentions_reasoning(sp.name@, sp.native_path@) && !mentions_history(
            sp.name@,
            sp.native_path@,
        )) {
            Ok(b)
        } else if level_disabled(sp.level@) || sp.value == JsonValue::Bool(false) || json_u64(
            sp.value,
        ) == Some(0u64) {
            Ok(b)
        } else if b is Some {
            Err("llama.cpp received duplicate reasoning-budget specialities"@)
        } else {
            Ok(Some(limit))
        },
    }
}

/// The reasoning budget that the specialities set, checked in order.
pub open spec fn reasoning_budget(specs: Seq<GenerateSpecialityParameter>) -> std::result::Result<
    Option<u32>,
    Seq<char>,
>
    decreases specs.len(),
{
    if specs.len() == 0 {
        Ok(None)
    } else {
        match reasoning_budget(specs.drop_last()) {
            Err(e) => Err(e),
            Ok(b) => reasoning_budget_step(b, specs.last()),
        }
    }
}

proof fn lemma_reasoning_budget_error_sticks(specs: Seq<GenerateSpecialityParameter>, k: int)
    requires
        0 <= k <= specs.len(),
        reasoning_budget(specs.take(k)) is Err,
    ensures
        reasoning_budget(specs) == reasoning_budget(specs.take(k)),
    decreases specs.len() - k,
{
    if k < specs.len() {
        assert(specs.take(k + 1).drop_last() =~= specs.take(k));
        lemma_reasoning_budget_error_sticks(specs, k + 1);
    } else {
        assert(specs.take(k) =~= specs);
    }
}

fn speaks_of_reasoning(name: &str, path: &str) -> (r: bool)
    ensures
        r == (mentions_reasoning(name@, path@) && !mentions_history(name@, path@)),
{
    let n = to_ascii_lower(name);
    let p = to_ascii_lower(path);
    let n = n.as_str();
    let p = p.as_str();
    (contains_str(n, "reason") || contains_str(n, "think") || contains_str(p, "reason")
        || contains_str(p, "think")) && !(contains_str(n, "preserve") || contains_str(p, "preserve")
        || contains_str(n, "history") || contains_str(p, "history") || contains_str(n, "retain")
        || contains_str(p, "retain"))
}

fn is_disabled_level(level: &str) -> (r: bool)
    ensures
        r == level_disabled(level@),
{
    let l = to_ascii_lower(level);
    str_eq(l.as_str(), "none") || str_eq(l.as_str(), "off") || str_eq(l.as_str(), "disabled")
}

fn is_false_value(v: &JsonValue) -> (r: bool)
    ensures
        r == (*v == JsonValue::Bool(false)),
{
    match v {
        JsonValue::Bool(b) => !*b,
        _ => false,
    }
}

/// The reasoning-token budget that a request's thinking specialities set;
/// two enabled budgets are refused.
pub fn llama_reasoning_budget(request: &GenerateRequest) -> (r: Result<Option<u32>>)
    ensures
        config_outcome(r, reasoning_budget(request.speciality_parameters@)),
{
    let mut budget: Option<u32> = None;
    let mut i: usize = 0;
    while i < request.speciality_parameters.len()
        invariant
            i <= request.speciality_parameters@.len(),
            reasoning_budget(request.speciality_parameters@.take(i as int)) == std::result::Result::<
                Option<u32>,
                Seq<char>,
            >::Ok(budget),
        decreases request.speciality_parameters@.len() - i,
    {
        let sp = &request.speciality_parameters[i];
        proof {
            assert(request.speciality_parameters@.take(i + 1).drop_last()
                =~= request.speciality_parameters@.take(i as int));
            assert(request.speciality_parameters@.take(i + 1).last() == *sp);
        }
        if let Some(limit) = sp.max_reasoning_tokens {
            if speaks_of_reasoning(sp.name.as_str(), sp.native_path.as_str()) {
                let off = is_disabled_level(sp.level.as_str()) || is_false_value(&sp.value)
                    || sp.value.as_u64() == Some(0u64);
                if !off {
                    if budget.is_some() {
                        proof {
                            lemma_reasoning_budget_error_sticks(
                                request.speciality_parameters@,
                                i as int + 1,
                            );
                        }
                        return Err(
                            invalid_config(
                                "llama.cpp received duplicate reasoning-budget specialities",
                            ),
                        );
                    }
                    budget = Some(limit);
                }
            }
        }
        i = i + 1;
    }
    assert(request.speciality_parameters@.take(request.speciality_parameters@.len() as int)
        =~= request.speciality_parameters@);
    Ok(budget)
}

} // verus!

verus! {

/// The first position from `i` on where `pat` stands in `s`.
pub open spec fn find_from(s: Seq<char>, pat: Seq<char>, i: int) -> Option<int>
    decreases s.len() + 1 - i,
{
    if i < 0 || i > s.len() {
        None
    } else if occurs_at(s, pat, i) {
        Some(i)
    } else {
        find_from(s, pat, i + 1)
    }
}

proof fn lemma_find_from_is(s: Seq<char>, pat: Seq<char>, k: int, i: int)
    requires
        0 <= i <= k,
        occurs_at(s, pat, k),
        forall|j: int| 0 <= j < k ==> !occurs_at(s, pat, j),
    ensures
        find_from(s, pat, i) == Some(k),
    decreases k - i,
{
    if i < k {
        lemma_find_from_is(s, pat, k, i + 1);
    }
}

proof fn lemma_find_from_none(s: Seq<char>, pat: Seq<char>, i: int)
    requires
        0 <= i,
        !contains_seq(s, pat),
    ensures
        find_from(s, pat, i) is None,
    decreases s.len() + 1 - i,
{
    if i <= s.len() {
        assert(!occurs_at(s, pat, i));
        lemma_find_from_none(s, pat, i + 1);
    }
}

/// The trimmed, non-empty texts enclosed by `open` ... `close` pairs, read
/// front to back; scanning ends at an unclosed `open`.
pub open spec fn tagged(rest: Seq<char>, open: Seq<char>, close: Seq<char>) -> Seq<Seq<char>>
    decreases rest.len(),
{
    if open.len() == 0 {
        Seq::empty()
    } else {
        match find_from(rest, open, 0) {
            None => Seq::empty(),
            Some(start) => if start < 0 || start + open.len() > rest.len() {
                Seq::empty()
            } else {
                let after = rest.skip(start + open.len());
                match find_from(after, close, 0) {
                    None => Seq::empty(),
                    Some(end) => if end < 0 || end + close.len() > after.len() {
                        Seq::empty()
                    } else {
                        let v = trim_seq(after.take(end));
                        let tail = after.skip(end + close.len());
                        (if v.len() > 0 {
                            seq![v]
                        } else {
                            Seq::empty()
                        }) + tagged(tail, open, close)
                    },
                }
            },
        }
    }
}

/// The non-blank value of member `field`, trimmed.
pub open spec fn trimmed_field(m: JsonValue, field: Seq<char>) -> Seq<Seq<char>> {
    match json_str(json_get(m, field)) {
        Some(t) => if trim_seq(t).len() > 0 {
            seq![trim_seq(t)]
        } else {
            Seq::empty()
        },
        None => Seq::empty(),
    }
}

/// The reasoning that an assistant message carries: its `reasoning_content`
/// and `reasoning` fields, then the thinking blocks in its content.
pub open spec fn message_fragments(m: JsonValue) -> Seq<Seq<char>> {
    if json_str(json_get(m, "role"@)) != Some("assistant"@) {
        Seq::empty()
    } else {
        let fields = trimmed_field(m, "reasoning_content"@) + trimmed_field(m, "reasoning"@);
        match json_str(json_get(m, "content"@)) {
            None => fields,
            Some(c) => fields + tagged(c, "<think>"@, "</think>"@) + tagged(
                c,
                "<|think|>"@,
                "<|/think|>"@,
            ),
        }
    }
}

/// The reasoning of every earlier assistant turn, in order.
pub open spec fn prior_fragments(messages: Seq<JsonValue>) -> Seq<Seq<char>>
    decreases messages.len(),
{
    if messages.len() == 0 {
        Seq::empty()
    } else {
        prior_fragments(messages.drop_last()) + message_fragments(messages.last())
    }
}

fn push_trimmed_field(out: &mut Vec<String>, m: &JsonValue, field: &str)
    ensures
        final(out)@.map_values(|s: String| s@) == old(out)@.map_values(|s: String| s@)
            + trimmed_field(*m, field@),
{
    match crate::json::get_str(m, field) {
        Some(t) => {
            let v = crate::text::trimmed(t);
            if chars_of(v.as_str()).len() > 0 {
                proof {
                    assert(out@.push(v).map_values(|s: String| s@) =~= out@.map_values(
                        |s: String| s@,
                    ) + seq![v@]);
                }
                out.push(v);
            } else {
                assert(out@.map_values(|s: String| s@) + Seq::<Seq<char>>::empty()
                    =~= out@.map_values(|s: String| s@));
            }
        },
        None => {
            assert(out@.map_values(|s: String| s@) + Seq::<Seq<char>>::empty() =~= out@.map_values(
                |s: String| s@,
            ));
        },
    }
}

/// Appends the blocks enclosed by `open` and `close` in `content`.
fn push_tagged(out: &mut Vec<String>, content: &str, open: &str, close: &str)
    requires
        open@.len() > 0,
    ensures
        final(out)@.map_values(|s: String| s@) == old(out)@.map_values(|s: String| s@) + tagged(
            content@,
            open@,
            close@,
        ),
{
    let o = chars_of(open);
    let c = chars_of(close);
    let mut rest = chars_of(content);
    let ghost start_out = out@.map_values(|s: String| s@);
    loop
        invariant
            o@ == open@,
            c@ == close@,
            open@.len() > 0,
            start_out == old(out)@.map_values(|s: String| s@),
            start_out + tagged(content@, open@, close@) == out@.map_values(|s: String| s@)
                + tagged(rest@, open@, close@),
        decreases rest@.len(),
    {
        let ghost r = rest@;
        let start = match find_chars(rest.as_slice(), o.as_slice()) {
            Some(s) => s,
            None => {
                proof {
                    lemma_find_from_none(r, open@, 0);
                    assert(tagged(r, open@, close@) =~= Seq::<Seq<char>>::empty());
                    assert(out@.map_values(|s: String| s@) + Seq::<Seq<char>>::empty()
                        =~= out@.map_values(|s: String| s@));
                }
                return;
            },
        };
        proof {
            lemma_find_from_is(r, open@, start as int, 0);
            assert(occurs_at(r, o@, start as int));
        }
        let rest_len = rest.len();
        assert(start + o@.len() <= rest_len);
        let after = start + o.len();
        let ghost a = r.skip(after as int);
        let tail_chars = {
            let mut v: Vec<char> = Vec::new();
            let mut i = after;
            while i < rest.len()
                invariant
                    after <= i <= rest@.len(),
                    rest@ == r,
                    v@ == r.subrange(after as int, i as int),
                decreases rest@.len() - i,
            {
                v.push(rest[i]);
                proof {
                    assert(r.subrange(after as int, i + 1) =~= r.subrange(after as int, i as int).push(
                        r[i as int],
                    ));
                }
                i = i + 1;
            }
            v
        };
        assert(tail_chars@ =~= a);
        let end = match find_chars(tail_chars.as_slice(), c.as_slice()) {
            Some(e) => e,
            None => {
                proof {
                    lemma_find_from_none(a, close@, 0);
                    assert(tagged(r, open@, close@) =~= Seq::<Seq<char>>::empty());
                    assert(out@.map_values(|s: String| s@) + Seq::<Seq<char>>::empty()
                        =~= out@.map_values(|s: String| s@));
                }
                return;
            },
        };
        proof {
            lemma_find_from_is(a, close@, end as int, 0);
        }
        let inner = string_from_chars(tail_chars.as_slice(), 0, end);
        let inner_chars = chars_of(inner.as_str());
        let (lo, hi) = crate::text::trim_bounds(inner_chars.as_slice());
        let value = string_from_chars(inner_chars.as_slice(), lo, hi);
        proof {
            assert(tail_chars@.subrange(0, end as int) =~= a.take(end as int));
        }
        let ghost added = if value@.len() > 0 {
            seq![value@]
        } else {
            Seq::<Seq<char>>::empty()
        };
        if hi > lo {
            proof {
                assert(out@.push(value).map_values(|s: String| s@) =~= out@.map_values(
                    |s: String| s@,
                ) + seq![value@]);
            }
            out.push(value);
        } else {
            assert(out@.map_values(|s: String| s@) + Seq::<Seq<char>>::empty() =~= out@.map_values(
                |s: String| s@,
            ));
        }
        let mut next: Vec<char> = Vec::new();
        let mut i = end + c.len();
        while i < tail_chars.len()
            invariant
                end + c@.len() <= i <= tail_chars@.len(),
                next@ == tail_chars@.subrange(end + c@.len(), i as int),
            decreases tail_chars@.len() - i,
        {
            next.push(tail_chars[i]);
            proof {
                assert(tail_chars@.subrange(end + c@.len(), i + 1) =~= tail_chars@.subrange(
                    end + c@.len(),
                    i as int,
                ).push(tail_chars@[i as int]));
            }
            i = i + 1;
        }
        proof {
            assert(next@ =~= a.skip(end + close@.len()));
            assert(tagged(r, open@, close@) == added + tagged(next@, open@, close@));
            assert(start_out + tagged(content@, open@, close@) =~= out@.map_values(|s: String| s@)
                + tagged(next@, open@, close@));
        }
        rest = next;
    }
}

} // verus!

verus! {

pub open spec fn strings_view(v: Seq<String>) -> Seq<Seq<char>> {
    v.map_values(|s: String| s@)
}

/// The reasoning of a request's earlier assistant turns.
pub fn llama_prior_reasoning_fragments(request: &GenerateRequest) -> (r: Vec<String>)
    ensures
        strings_view(r@) == prior_fragments(request.messages@),
{
    let mut out: Vec<String> = Vec::new();
    let mut i: usize = 0;
    assert(strings_view(out@) =~= Seq::<Seq<char>>::empty());
    while i < request.messages.len()
        invariant
            i <= request.messages@.len(),
            strings_view(out@) == prior_fragments(request.messages@.take(i as int)),
        decreases request.messages@.len() - i,
    {
        let m = &request.messages[i];
        proof {
            assert(request.messages@.take(i + 1).drop_last() =~= request.messages@.take(i as int));
            assert(request.messages@.take(i + 1).last() == *m);
        }
        let assistant = match crate::json::get_str(m, "role") {
            Some(role) => str_eq(role, "assistant"),
            None => false,
        };
        if assistant {
            push_trimmed_field(&mut out, m, "reasoning_content");
            push_trimmed_field(&mut out, m, "reasoning");
            match crate::json::get_str(m, "content") {
                Some(content) => {
                    proof {
                        reveal_strlit("<think>");
                        reveal_strlit("<|think|>");
                    }
                    push_tagged(&mut out, content, "<think>", "</think>");
                    push_tagged(&mut out, content, "<|think|>", "<|/think|>");
                },
                None => {},
            }
        } else {
            assert(strings_view(out@) + Seq::<Seq<char>>::empty() =~= strings_view(out@));
        }
        i = i + 1;
    }
    assert(request.messages@.take(request.messages@.len() as int) =~= request.messages@);
    out
}

/// Why a prompt did not carry out `preserve_thinking`: with earlier
/// reasoning present, every fragment must stand in the prompt (preserve) or
/// none may (strip).
pub open spec fn history_error(
    prompt: Seq<char>,
    messages: Seq<JsonValue>,
    preserve: bool,
    name: Seq<char>,
) -> Option<Seq<char>> {
    let f = prior_fragments(messages);
    let preserves = forall|i: int| 0 <= i < f.len() ==> contains_seq(prompt, #[trigger] f[i]);
    let strips = forall|i: int| 0 <= i < f.len() ==> !contains_seq(prompt, #[trigger] f[i]);
    if f.len() > 0 && ((preserve && !preserves) || (!preserve && !strips)) {
        Some(
            "llama.cpp prompt did not apply preserve_thinking="@ + crate::text::bool_text(preserve)
                + " for speciality "@ + name,
        )
    } else {
        None
    }
}

/// Checks that the prompt kept, or stripped, the earlier reasoning as the
/// `preserve_thinking` speciality asks.
pub fn validate_llama_thinking_history(
    request: &GenerateRequest,
    preserve: bool,
    speciality_name: &str,
) -> (r: Result<()>)
    ensures
        match history_error(request.prompt@, request.messages@, preserve, speciality_name@) {
            Some(t) => is_invalid_config(r, t),
            None => r is Ok,
        },
{
    let fragments = llama_prior_reasoning_fragments(request);
    let ghost f = strings_view(fragments@);
    let mut all_in = true;
    let mut none_in = true;
    let mut i: usize = 0;
    while i < fragments.len()
        invariant
            i <= fragments@.len(),
            f == strings_view(fragments@),
            all_in == (forall|j: int| 0 <= j < i ==> contains_seq(request.prompt@, #[trigger] f[j])),
            none_in == (forall|j: int| 0 <= j < i ==> !contains_seq(request.prompt@, #[trigger] f[j])),
        decreases fragments@.len() - i,
    {
        let found = contains_str(request.prompt.as_str(), fragments[i].as_str());
        proof {
            assert(f[i as int] == fragments@[i as int]@);
            if !found {
                assert(!contains_seq(request.prompt@, f[i as int]));
            }
        }
        all_in = all_in && found;
        none_in = none_in && !found;
        i = i + 1;
    }
    if fragments.len() > 0 && ((preserve && !all_in) || (!preserve && !none_in)) {
        let m = concat_str(
            "llama.cpp prompt did not apply preserve_thinking=",
            crate::text::bool_to_text(preserve),
        );
        let m = concat_str(m.as_str(), " for speciality ");
        return Err(EngineError::InvalidConfig(concat_str(m.as_str(), speciality_name)));
    }
    Ok(())
}

} // verus!

verus! {

/// What applying one speciality does to the prompt: a suffix is appended;
/// a thinking switch must already be carried out by the prompt; an image
/// budget is checked; anything else is refused.
pub open spec fn apply_step(
    prompt: Seq<char>,
    messages: Seq<JsonValue>,
    sp: GenerateSpecialityParameter,
) -> std::result::Result<Seq<char>, Seq<char>> {
    let name = sp.name@;
    let path = sp.native_path@;
    match sp.target {
        GenerateSpecialityTarget::PromptSuffix => match sp.value {
            JsonValue::String(s) => Ok(prompt + s@),
            _ => Err("llama.cpp prompt-suffix speciality "@ + name + " must map to a string"@),
        },
        GenerateSpecialityTarget::ChatTemplateKwarg => match sp.value {
            JsonValue::Bool(enabled) => if path == "enable_thinking"@ {
                if enabled != prompt_enables_thinking(prompt) {
                    Err(
                        "llama.cpp prompt did not apply enable_thinking="@
                            + crate::text::bool_text(enabled) + " for speciality "@ + name,
                    )
                } else {
                    Ok(prompt)
                }
            } else if path == "preserve_thinking"@ {
                match history_error(prompt, messages, enabled, name) {
                    Some(e) => Err(e),
                    None => Ok(prompt),
                }
            } else {
                Err(
                    "llama.cpp artifact cannot apply chat-template speciality "@ + name + " ("@
                        + path + ") through this backend"@,
                )
            },
            _ => Err(
                "llama.cpp chat-template speciality "@ + name + " ("@ + path
                    + ") must map to a boolean"@,
            ),
        },
        GenerateSpecialityTarget::SamplingParameter => Err(
            "llama.cpp artifact does not support dynamic sampling speciality "@ + name + " ("@
                + path + ")"@,
        ),
        GenerateSpecialityTarget::BackendParameter => if path != "mtmd.image_token_budget"@ || !(
        json_i64(sp.value) matches Some(v) && is_supported_image_budget(v as int)) {
            Err(
                "llama.cpp artifact does not support backend speciality "@ + name + " ("@ + path
                    + ") at value "@ + crate::json::json_text(sp.value),
            )
        } else {
            Ok(prompt)
        },
    }
}

/// The prompt after applying the specialities in order, and the refusal
/// that stopped them, if one did.
pub open spec fn apply_all(
    prompt: Seq<char>,
    messages: Seq<JsonValue>,
    specs: Seq<GenerateSpecialityParameter>,
) -> (Seq<char>, Option<Seq<char>>)
    decreases specs.len(),
{
    if specs.len() == 0 {
        (prompt, None)
    } else {
        let (p, e) = apply_all(prompt, messages, specs.drop_last());
        if e is Some {
            (p, e)
        } else {
            match apply_step(p, messages, specs.last()) {
                Ok(p2) => (p2, None),
                Err(t) => (p, Some(t)),
            }
        }
    }
}

proof fn lemma_apply_error_sticks(
    prompt: Seq<char>,
    messages: Seq<JsonValue>,
    specs: Seq<GenerateSpecialityParameter>,
    k: int,
)
    requires
        0 <= k <= specs.len(),
        apply_all(prompt, messages, specs.take(k)).1 is Some,
    ensures
        apply_all(prompt, messages, specs) == apply_all(prompt, messages, specs.take(k)),
    decreases specs.len() - k,
{
    if k < specs.len() {
        assert(specs.take(k + 1).drop_last() =~= specs.take(k));
        lemma_apply_error_sticks(prompt, messages, specs, k + 1);
    } else {
        assert(specs.take(k) =~= specs);
    }
}

fn backend_speciality_error(name: &str, path: &str, value: &JsonValue) -> (e: EngineError)
    ensures
        e matches EngineError::InvalidConfig(m) && m@ == "llama.cpp artifact does not support backend speciality "@
            + name@ + " ("@ + path@ + ") at value "@ + crate::json::json_text(*value),
{
    let m = concat_str("llama.cpp artifact does not support backend speciality ", name);
    let m = concat_str(m.as_str(), " (");
    let m = concat_str(m.as_str(), path);
    let m = concat_str(m.as_str(), ") at value ");
    let v = crate::json::to_json_text(value);
    EngineError::InvalidConfig(concat_str(m.as_str(), v.as_str()))
}

fn named_path_error(head: &str, name: &str, path: &str, tail: &str) -> (e: EngineError)
    ensures
        e matches EngineError::InvalidConfig(m) && m@ == head@ + name@ + " ("@ + path@ + tail@,
{
    let m = concat_str(head, name);
    let m = concat_str(m.as_str(), " (");
    let m = concat_str(m.as_str(), path);
    EngineError::InvalidConfig(concat_str(m.as_str(), tail))
}

/// Applies a request's specialities to its llama.cpp prompt, in order: the
/// prompt gains each suffix, and the first speciality that cannot be
/// carried out is refused (the suffixes before it stay applied).
pub fn apply_llama_speciality_parameters(request: &mut GenerateRequest) -> (r: Result<()>)
    ensures
        ({
            let (p, e) = apply_all(
                old(request).prompt@,
                old(request).messages@,
                old(request).speciality_parameters@,
            );
            &&& final(request).prompt@ == p
            &&& *final(request) == (GenerateRequest { prompt: final(request).prompt, ..*old(request) })
            &&& match e {
                Some(t) => is_invalid_config(r, t),
                None => r is Ok,
            }
        }),
{
    let ghost p0 = request.prompt@;
    let ghost msgs = request.messages@;
    let ghost specs = request.speciality_parameters@;
    let mut i: usize = 0;
    while i < request.speciality_parameters.len()
        invariant
            i <= specs.len(),
            specs == request.speciality_parameters@,
            msgs == request.messages@,
            p0 == old(request).prompt@,
            msgs == old(request).messages@,
            specs == old(request).speciality_parameters@,
            *request == (GenerateRequest { prompt: request.prompt, ..*old(request) }),
            apply_all(p0, msgs, specs.take(i as int)) == (request.prompt@, None::<Seq<char>>),
        decreases specs.len() - i,
    {
        proof {
            assert(specs.take(i + 1).drop_last() =~= specs.take(i as int));
            assert(specs.take(i + 1).last() == specs[i as int]);
        }
        let ghost before = request.prompt@;
        let target = request.speciality_parameters[i].target;
        match target {
            GenerateSpecialityTarget::PromptSuffix => {
                let suffix = match &request.speciality_parameters[i].value {
                    JsonValue::String(s) => s.clone(),
                    _ => {
                        proof {
                            lemma_apply_error_sticks(p0, msgs, specs, i as int + 1);
                        }
                        let m = concat_str(
                            "llama.cpp prompt-suffix speciality ",
                            request.speciality_parameters[i].name.as_str(),
                        );
                        return Err(
                            EngineError::InvalidConfig(concat_str(m.as_str(), " must map to a string")),
                        );
                    },
                };
                request.prompt.append(suffix.as_str());
            },
            GenerateSpecialityTarget::ChatTemplateKwarg => {
                let enabled = match request.speciality_parameters[i].value {
                    JsonValue::Bool(b) => b,
                    _ => {
                        proof {
                            lemma_apply_error_sticks(p0, msgs, specs, i as int + 1);
                        }
                        return Err(
                            named_path_error(
                                "llama.cpp chat-template speciality ",
                                request.speciality_parameters[i].name.as_str(),
                                request.speciality_parameters[i].native_path.as_str(),
                                ") must map to a boolean",
                            ),
                        );
                    },
                };
                if str_eq(request.speciality_parameters[i].native_path.as_str(), "enable_thinking") {
                    if enabled != llama_prompt_enables_thinking(request.prompt.as_str()) {
                        proof {
                            lemma_apply_error_sticks(p0, msgs, specs, i as int + 1);
                        }
                        let m = concat_str(
                            "llama.cpp prompt did not apply enable_thinking=",
                            crate::text::bool_to_text(enabled),
                        );
                        let m = concat_str(m.as_str(), " for speciality ");
                        return Err(
                            EngineError::InvalidConfig(
                                concat_str(m.as_str(), request.speciality_parameters[i].name.as_str()),
                            ),
                        );
                    }
                } else if str_eq(
                    request.speciality_parameters[i].native_path.as_str(),
                    "preserve_thinking",
                ) {
                    let checked = validate_llama_thinking_history(
                        request,
                        enabled,
                        request.speciality_parameters[i].name.as_str(),
                    );
                    if checked.is_err() {
                        proof {
                            lemma_apply_error_sticks(p0, msgs, specs, i as int + 1);
                        }
                        return checked;
                    }
                } else {
                    proof {
                        lemma_apply_error_sticks(p0, msgs, specs, i as int + 1);
                    }
                    return Err(
                        named_path_error(
                            "llama.cpp artifact cannot apply chat-template speciality ",
                            request.speciality_parameters[i].name.as_str(),
                            request.speciality_parameters[i].native_path.as_str(),
                            ") through this backend",
                        ),
                    );
                }
            },
            GenerateSpecialityTarget::SamplingParameter => {
                proof {
                    lemma_apply_error_sticks(p0, msgs, specs, i as int + 1);
                }
                return Err(
                    named_path_error(
                        "llama.cpp artifact does not support dynamic sampling speciality ",
                        request.speciality_parameters[i].name.as_str(),
                        request.speciality_parameters[i].native_path.as_str(),
                        ")",
                    ),
                );
            },
            GenerateSpecialityTarget::BackendParameter => {
                let supported = match request.speciality_parameters[i].value.as_i64() {
                    Some(v) => v == 70 || v == 140 || v == 280 || v == 560 || v == 1120,
                    None => false,
                };
                if !str_eq(
                    request.speciality_parameters[i].native_path.as_str(),
                    "mtmd.image_token_budget",
                ) || !supported {
                    proof {
                        lemma_apply_error_sticks(p0, msgs, specs, i as int + 1);
                    }
                    return Err(
                        backend_speciality_error(
                            request.speciality_parameters[i].name.as_str(),
                            request.speciality_parameters[i].native_path.as_str(),
                            &request.speciality_parameters[i].value,
                        ),
                    );
                }
            },
        }
        i = i + 1;
    }
    assert(specs.take(specs.len() as int) =~= specs);
    Ok(())
}

} // verus!

verus! {

/// The value turns a speciality off: `false`, `0`, or a string that reads
/// `none`, `off`, `disabled` or `false` in any ASCII case.
pub open spec fn value_disables(v: JsonValue) -> bool {
    ||| v == JsonValue::Bool(false)
    ||| json_u64(v) == Some(0u64)
    ||| (v is String && (lower_seq(v->String_0@) == "none"@ || lower_seq(v->String_0@) == "off"@
        || lower_seq(v->String_0@) == "disabled"@ || lower_seq(v->String_0@) == "false"@))
}

/// A speciality that switches reasoning on: it speaks of reasoning or
/// thinking and neither its level nor its value turns it off.
pub open spec fn enables_reasoning(sp: GenerateSpecialityParameter) -> bool {
    mentions_reasoning(sp.name@, sp.native_path@) && !level_disabled(sp.level@) && !value_disables(sp.value)
}

fn value_turns_off(v: &JsonValue) -> (r: bool)
    ensures
        r == value_disables(*v),
{
    if is_false_value(v) || v.as_u64() == Some(0u64) {
        return true;
    }
    match v {
        JsonValue::String(s) => {
            let l = to_ascii_lower(s.as_str());
            let l = l.as_str();
            str_eq(l, "none") || str_eq(l, "off") || str_eq(l, "disabled") || str_eq(l, "false")
        },
        _ => false,
    }
}

fn mentions_reasoning_exec(name: &str, path: &str) -> (r: bool)
    ensures
        r == mentions_reasoning(name@, path@),
{
    let n = to_ascii_lower(name);
    let p = to_ascii_lower(path);
    let n = n.as_str();
    let p = p.as_str();
    contains_str(n, "reason") || contains_str(n, "think") || contains_str(p, "reason") || contains_str(p, "think")
}

/// Whether some speciality of the request switches reasoning on.
pub fn llama_reasoning_enabled(request: &GenerateRequest) -> (r: bool)
    ensures
        r == exists|i: int|
            0 <= i < request.speciality_parameters@.len() && enables_reasoning(
                #[trigger] request.speciality_parameters@[i],
            ),
{
    let specs = &request.speciality_parameters;
    let mut i: usize = 0;
    while i < specs.len()
        invariant
            specs == &request.speciality_parameters,
            i <= specs@.len(),
            forall|j: int| 0 <= j < i ==> !enables_reasoning(#[trigger] specs@[j]),
        decreases specs@.len() - i,
    {
        let sp = &specs[i];
        if mentions_reasoning_exec(sp.name.as_str(), sp.native_path.as_str()) && !is_disabled_level(
            sp.level.as_str(),
        ) && !value_turns_off(&sp.value) {
            return true;
        }
        i = i + 1;
    }
    false
}

/// The markers that close a reasoning span.
pub open spec fn think_close() -> Seq<char> {
    "</think>"@
}

pub open spec fn channel_close() -> Seq<char> {
    "<channel|>"@
}

/// Where the reasoning ends in generated text: the text up to and including
/// the earliest closing marker, if one occurs.
pub open spec fn reasoning_prefix(text: Seq<char>) -> Option<Seq<char>> {
    let a = find_from(text, think_close(), 0);
    let b = find_from(text, channel_close(), 0);
    match (a, b) {
        (None, None) => None,
        (Some(i), None) => Some(text.take(i) + think_close()),
        (None, Some(j)) => Some(text.take(j) + channel_close()),
        (Some(i), Some(j)) => if i <= j {
            Some(text.take(i) + think_close())
        } else {
            Some(text.take(j) + channel_close())
        },
    }
}

fn first_at(v: &Vec<char>, pat: &str) -> (r: Option<usize>)
    ensures
        match r {
            Some(i) => find_from(v@, pat@, 0) == Some(i as int) && i <= v@.len(),
            None => find_from(v@, pat@, 0) is None,
        },
{
    let p = chars_of(pat);
    let r = find_chars(v.as_slice(), p.as_slice());
    proof {
        match r {
            Some(i) => lemma_find_from_is(v@, pat@, i as int, 0),
            None => lemma_find_from_none(v@, pat@, 0),
        }
    }
    r
}

/// The generated text up to and including its first reasoning-closing
/// marker (`</think>` or `<channel|>`), if it has one.
pub fn reasoning_close_prefix(text: &str) -> (r: Option<String>)
    ensures
        match r {
            Some(p) => reasoning_prefix(text@) == Some(p@),
            None => reasoning_prefix(text@) is None,
        },
{
    let v = chars_of(text);
    let a = first_at(&v, "</think>");
    let b = first_at(&v, "<channel|>");
    let (index, marker) = match (a, b) {
        (None, None) => return None,
        (Some(i), None) => (i, "</think>"),
        (None, Some(j)) => (j, "<channel|>"),
        (Some(i), Some(j)) => if i <= j {
            (i, "</think>")
        } else {
            (j, "<channel|>")
        },
    };
    let head = string_from_chars(v.as_slice(), 0, index);
    proof {
        assert(head@ =~= text@.take(index as int));
    }
    Some(concat_str(head.as_str(), marker))
}

/// How many of `completion_tokens` generated tokens count as reasoning.
/// None without a speciality that switches reasoning on; all of them while
/// the reasoning is not closed; else the tokens of the text up to and
/// including the closing marker (`attributed`, as the model's tokenizer
/// counts them; `None` where it failed, which counts all), bounded by the
/// completion and by the reasoning budget where one is set.
pub open spec fn reasoning_tokens(
    specs: Seq<GenerateSpecialityParameter>,
    text: Seq<char>,
    completion_tokens: u32,
    attributed: Option<u32>,
) -> u32 {
    if !(exists|i: int| 0 <= i < specs.len() && enables_reasoning(#[trigger] specs[i])) {
        0
    } else if reasoning_prefix(text) is None {
        completion_tokens
    } else {
        let a = match attributed {
            Some(n) => if n < completion_tokens { n } else { completion_tokens },
            None => completion_tokens,
        };
        match reasoning_budget(specs) {
            Ok(Some(b)) => if b < a { b } else { a },
            _ => a,
        }
    }
}

/// The reasoning tokens of a generation, given what the tokenizer counted
/// for the text's reasoning prefix (see `reasoning_close_prefix`).
pub fn llama_reasoning_tokens(
    request: &GenerateRequest,
    text: &str,
    completion_tokens: u32,
    attributed: Option<u32>,
) -> (r: u32)
    ensures
        r == reasoning_tokens(request.speciality_parameters@, text@, completion_tokens, attributed),
{
    if !llama_reasoning_enabled(request) {
        return 0;
    }
    if reasoning_close_prefix(text).is_none() {
        return completion_tokens;
    }
    let a = match attributed {
        Some(n) => if n < completion_tokens { n } else { completion_tokens },
        None => completion_tokens,
    };
    match llama_reasoning_budget(request) {
        Ok(Some(b)) => if b < a { b } else { a },
        _ => a,
    }
}

/// The KV-cache element types llama.cpp accepts by name.
#[derive(Clone, Copy, Debug, PartialEq, Eq, Structural)]
pub enum KvCacheType {
    F32,
    F16,
    Q4_0,
    Q4_1,
    Q5_0,
    Q5_1,
    Q8_0,
    IQ4_NL,
}

/// The KV-cache type a configured name stands for.
pub open spec fn kv_cache_type_named(name: Seq<char>) -> Option<KvCacheType> {
    if name == "f32"@ {
        Some(KvCacheType::F32)
    } else if name == "f16"@ {
        Some(KvCacheType::F16)
    } else if name == "q4_0"@ {
        Some(KvCacheType::Q4_0)
    } else if name == "q4_1"@ {
        Some(KvCacheType::Q4_1)
    } else if name == "q5_0"@ {
        Some(KvCacheType::Q5_0)
    } else if name == "q5_1"@ {
        Some(KvCacheType::Q5_1)
    } else if name == "q8_0"@ {
        Some(KvCacheType::Q8_0)
    } else if name == "iq4_nl"@ {
        Some(KvCacheType::IQ4_NL)
    } else {
        None
    }
}

/// Reads a configured KV-cache dtype name; names are exact and lowercase.
pub fn llama_kv_cache_type(value: &str) -> (r: Result<KvCacheType>)
    ensures
        match kv_cache_type_named(value@) {
            Some(t) => r == Ok::<KvCacheType, EngineError>(t),
            None => is_invalid_config(r, "unsupported llama.cpp KV-cache dtype "@ + value@),
        },
{
    if str_eq(value, "f32") {
        Ok(KvCacheType::F32)
    } else if str_eq(value, "f16") {
        Ok(KvCacheType::F16)
    } else if str_eq(value, "q4_0") {
        Ok(KvCacheType::Q4_0)
    } else if str_eq(value, "q4_1") {
        Ok(KvCacheType::Q4_1)
    } else if str_eq(value, "q5_0") {
        Ok(KvCacheType::Q5_0)
    } else if str_eq(value, "q5_1") {
        Ok(KvCacheType::Q5_1)
    } else if str_eq(value, "q8_0") {
        Ok(KvCacheType::Q8_0)
    } else if str_eq(value, "iq4_nl") {
        Ok(KvCacheType::IQ4_NL)
    } else {
        Err(EngineError::InvalidConfig(concat_str("unsupported llama.cpp KV-cache dtype ", value)))
    }
}

} // verus!

verus! {

/// How generation goes on after a token was passed to the stop-sequence
/// stream.
#[derive(Clone, Copy, Debug, PartialEq, Eq, Structural)]
pub enum TokenStep {
    /// Sample the next token.
    Continue,
    /// A stop sequence (or the end-of-generation token) ended the text.
    Stop,
    /// The token budget or the context window is used up.
    Length,
}

/// A prompt must leave room in the context window for at least one
/// generated token.
pub fn check_prompt_fits(prompt_tokens: usize, n_ctx: u32) -> (r: Result<()>)
    ensures
        prompt_tokens < n_ctx ==> r is Ok,
        prompt_tokens >= n_ctx ==> r == Err::<(), EngineError>(
            EngineError::PromptTooLong { prompt_tokens, ctx_size: n_ctx },
        ),
{
    if prompt_tokens >= n_ctx as usize {
        return Err(EngineError::PromptTooLong { prompt_tokens, ctx_size: n_ctx });
    }
    Ok(())
}

/// Whether the closing reasoning marker must be forced in before the next
/// token: none is queued, a reasoning budget is set and used up, and the
/// reasoning has not closed by itself.
pub fn force_reasoning_close(
    queued: bool,
    budget: Option<u32>,
    completion_tokens: u32,
    reasoning_text: &str,
) -> (r: bool)
    ensures
        r == (!queued && (budget matches Some(b) && completion_tokens >= b) && !reasoning_has_closed(
            reasoning_text@,
        )),
{
    if queued {
        return false;
    }
    match budget {
        Some(b) => completion_tokens >= b && !llama_reasoning_has_closed(reasoning_text),
        None => false,
    }
}

/// The end-of-generation token ends the text unless the request ignores it.
pub fn ends_generation(is_end_of_generation: bool, ignore_eos: bool) -> (r: bool)
    ensures
        r == (is_end_of_generation && !ignore_eos),
{
    is_end_of_generation && !ignore_eos
}

/// After a token was passed on: a completed stop sequence stops; else the
/// completion budget, then the context window (positions up to `n_ctx`,
/// read as at most `i32::MAX`), end the generation by length.
pub open spec fn token_step(
    stopped: bool,
    completion_tokens: u32,
    max_new_tokens: u32,
    next_pos: i32,
    n_ctx: u32,
) -> TokenStep {
    if stopped {
        TokenStep::Stop
    } else if completion_tokens >= max_new_tokens {
        TokenStep::Length
    } else if next_pos >= (if n_ctx <= i32::MAX { n_ctx as int } else { i32::MAX as int }) {
        TokenStep::Length
    } else {
        TokenStep::Continue
    }
}

pub fn llama_token_step(
    stopped: bool,
    completion_tokens: u32,
    max_new_tokens: u32,
    next_pos: i32,
    n_ctx: u32,
) -> (r: TokenStep)
    ensures
        r == token_step(stopped, completion_tokens, max_new_tokens, next_pos, n_ctx),
{
    if stopped {
        return TokenStep::Stop;
    }
    if completion_tokens >= max_new_tokens {
        return TokenStep::Length;
    }
    let window: i32 = if n_ctx <= 2147483647 {
        n_ctx as i32
    } else {
        2147483647
    };
    if next_pos >= window {
        TokenStep::Length
    } else {
        TokenStep::Continue
    }
}

/// The checks of an embedding request before any input is encoded: at
/// least one input, and a positive dimension count where one is asked for.
pub fn check_embedding_request(input_count: usize, dimensions: Option<usize>) -> (r: Result<()>)
    ensures
        input_count == 0 ==> is_invalid_config(r, "embedding request must include at least one input"@),
        input_count > 0 && dimensions == Some(0usize) ==> is_invalid_config(
            r,
            "embedding dimensions must be greater than zero"@,
        ),
        input_count > 0 && dimensions != Some(0usize) ==> r is Ok,
{
    if input_count == 0 {
        return Err(invalid_config("embedding request must include at least one input"));
    }
    if dimensions == Some(0usize) {
        return Err(invalid_config("embedding dimensions must be greater than zero"));
    }
    Ok(())
}

/// How many leading values of a model's embedding are kept: the requested
/// count, which may not exceed the model's, or all of them.
pub fn embedding_length(dimensions: Option<usize>, model_dimensions: usize) -> (r: Result<usize>)
    ensures
        match dimensions {
            None => r == Ok::<usize, EngineError>(model_dimensions),
            Some(d) => if d > model_dimensions {
                is_invalid_config(
                    r,
                    "requested embedding dimensions "@ + crate::text::decimal(d as nat)
                        + " exceed model dimensions "@ + crate::text::decimal(model_dimensions as nat),
                )
            } else {
                r == Ok::<usize, EngineError>(d)
            },
        },
{
    match dimensions {
        None => Ok(model_dimensions),
        Some(d) => {
            if d > model_dimensions {
                let a = concat_str(
                    "requested embedding dimensions ",
                    crate::text::u64_to_decimal(d as u64).as_str(),
                );
                let b = concat_str(a.as_str(), " exceed model dimensions ");
                Err(EngineError::InvalidConfig(concat_str(
                    b.as_str(),
                    crate::text::u64_to_decimal(model_dimensions as u64).as_str(),
                )))
            } else {
                Ok(d)
            }
        },
    }
}

} // verus!

verus! {

/// The occurrences of `pat` in `s` from position `i` on, counted from the
/// left without overlap, as `str::matches` finds them.
pub open spec fn count_from(s: Seq<char>, pat: Seq<char>, i: int) -> nat
    decreases s.len() - i,
{
    if pat.len() == 0 || i < 0 || i + pat.len() > s.len() {
        0
    } else if crate::text::occurs_at(s, pat, i) {
        1 + count_from(s, pat, i + pat.len())
    } else {
        count_from(s, pat, i + 1)
    }
}

/// The number of non-overlapping occurrences of a non-empty `pat` in `s`.
pub fn count_matches(s: &str, pat: &str) -> (r: usize)
    requires
        pat@.len() > 0,
    ensures
        r == count_from(s@, pat@, 0),
{
    let v = crate::text::chars_of(s);
    let p = crate::text::chars_of(pat);
    let n = v.len();
    let m = p.len();
    let mut i: usize = 0;
    let mut count: usize = 0;
    while i <= n && n - i >= m
        invariant
            v@ == s@,
            p@ == pat@,
            n == v@.len(),
            m == p@.len(),
            m > 0,
            i <= n,
            count <= i,
            count + count_from(s@, pat@, i as int) == count_from(s@, pat@, 0),
        decreases n - i,
    {
        if crate::text::occurs_at_exec(v.as_slice(), p.as_slice(), i) {
            count = count + 1;
            i = i + m;
        } else {
            i = i + 1;
        }
    }
    count
}

/// A multimodal prompt holds one media marker per media input.
pub fn check_media_markers(prompt: &str, media_count: usize) -> (r: Result<()>)
    ensures
        count_from(prompt@, crate::MTMD_MEDIA_MARKER@, 0) == media_count ==> r is Ok,
        count_from(prompt@, crate::MTMD_MEDIA_MARKER@, 0) != media_count ==> is_invalid_config(
            r,
            "multimodal prompt must contain exactly "@ + crate::text::decimal(media_count as nat) + " "@
                + crate::MTMD_MEDIA_MARKER@ + " marker(s), found "@ + crate::text::decimal(
                count_from(prompt@, crate::MTMD_MEDIA_MARKER@, 0),
            ),
        ),
{
    proof {
        reveal_strlit("<__media__>");
    }
    let found = count_matches(prompt, crate::MTMD_MEDIA_MARKER);
    if found != media_count {
        let a = concat_str(
            "multimodal prompt must contain exactly ",
            crate::text::u64_to_decimal(media_count as u64).as_str(),
        );
        let b = concat_str(a.as_str(), " ");
        let c = concat_str(b.as_str(), crate::MTMD_MEDIA_MARKER);
        let d = concat_str(c.as_str(), " marker(s), found ");
        return Err(EngineError::InvalidConfig(
            concat_str(d.as_str(), crate::text::u64_to_decimal(found as u64).as_str()),
        ));
    }
    Ok(())
}

/// A multimodal prompt must leave room in the context window: its
/// positions stay below the window (read as at most `i32::MAX`).
pub fn check_multimodal_prompt_fits(prompt_tokens: usize, prompt_positions: i32, n_ctx: u32) -> (r:
    Result<()>)
    ensures
        prompt_positions < (if n_ctx <= i32::MAX { n_ctx as int } else { i32::MAX as int }) ==> r is Ok,
        prompt_positions >= (if n_ctx <= i32::MAX { n_ctx as int } else { i32::MAX as int }) ==> r
            == Err::<(), EngineError>(EngineError::PromptTooLong { prompt_tokens, ctx_size: n_ctx }),
{
    let window: i32 = if n_ctx <= 2147483647 {
        n_ctx as i32
    } else {
        2147483647
    };
    if prompt_positions >= window {
        return Err(EngineError::PromptTooLong { prompt_tokens, ctx_size: n_ctx });
    }
    Ok(())
}

} // verus!
