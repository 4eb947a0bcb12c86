//! The Needle tool-calling backend: device names, the runtime that its
//! worker must report, library roots, and the bounded line protocol that the
//! worker speaks.
use vstd::prelude::*;

use crate::artifact::opt_view;
use crate::error::{is_error_of, EngineError, MessageKind, Result};
use crate::json::{get_str, json_get, json_str, JsonValue};
use crate::request::{
    f32_key, key_one, sampling_error, GenerateRequest, GrammarSpec,
};
use crate::text::{is_blank, is_blank_seq, lower_seq, str_eq, to_ascii_lower, trim_seq, trimmed};

verus! {

/// Longest prompt, in tokens, that the pinned encoder accepts.
pub const MAX_ENCODER_TOKENS: u32 = 1024;

/// Longest completion, in tokens, that the pinned decoder produces.
pub const MAX_DECODER_TOKENS: u32 = 512;

/// Longest protocol line the worker may receive.
pub const MAX_WORKER_REQUEST_LINE_BYTES: usize = 2097152;

/// Longest protocol line the worker may send back.
pub const MAX_WORKER_RESPONSE_LINE_BYTES: usize = 4194304;

/// How much of the worker's stderr is kept for diagnostics.
pub const WORKER_STDERR_TAIL_BYTES: usize = 65536;

/// Commit of the Needle sources that the worker must run.
pub const NEEDLE_SOURCE_COMMIT: &'static str = "ffd0d081401257fee31150d30c494b2f98910fc0";

/// Revision of the Needle weights that the worker must load.
pub const NEEDLE_MODEL_REVISION: &'static str = "5f89b4307696d669c3df1d38ae057e6e1728b107";

/// The files of a Needle model directory, each pinned by its digest.
pub open spec fn required_model_files() -> Seq<Seq<char>> {
    seq![
        "config.json"@,
        "configuration_needle.py"@,
        "model.safetensors"@,
        "modeling_needle.py"@,
        "special_tokens_map.json"@,
        "tokenization_needle.py"@,
        "tokenizer.model"@,
        "tokenizer_config.json"@,
    ]
}

pub fn required_model_files_list() -> (r: Vec<&'static str>)
    ensures
        r@.map_values(|s: &str| s@) == required_model_files(),
{
    let mut r: Vec<&'static str> = Vec::new();
    r.push("config.json");
    r.push("configuration_needle.py");
    r.push("model.safetensors");
    r.push("modeling_needle.py");
    r.push("special_tokens_map.json");
    r.push("tokenization_needle.py");
    r.push("tokenizer.model");
    r.push("tokenizer_config.json");
    assert(r@.map_values(|s: &str| s@) =~= required_model_files());
    r
}

/// The runtime that a Needle worker reports once it has loaded.
/// `trusted_file_sha256` lists each file name with its digest, names unique.
#[derive(Clone, Debug, PartialEq, Eq)]
pub struct NeedleExecutionConfig {
    pub api_version: u32,
    pub greedy_decoding_only: bool,
    pub device: String,
    pub dtype: String,
    pub max_decoder_tokens: u32,
    pub max_encoder_tokens: u32,
    pub model_revision: String,
    pub source_commit: String,
    pub torch_version: String,
    pub transformers_version: String,
    pub trusted_file_sha256: Vec<(String, String)>,
}

/// The names that a digest list covers.
pub open spec fn digest_names(v: Seq<(String, String)>) -> Seq<Seq<char>> {
    v.map_values(|e: (String, String)| e.0@)
}

/// The worker runs the pinned API, greedy decoding, device, token limits,
/// sources and weights, and pins exactly the required model files.
pub open spec fn execution_config_ok(c: NeedleExecutionConfig, device: Seq<char>) -> bool {
    &&& c.api_version == 1
    &&& c.greedy_decoding_only
    &&& c.device@ == device
    &&& c.max_encoder_tokens == MAX_ENCODER_TOKENS
    &&& c.max_decoder_tokens == MAX_DECODER_TOKENS
    &&& c.source_commit@ == "ffd0d081401257fee31150d30c494b2f98910fc0"@
    &&& c.model_revision@ == "5f89b4307696d669c3df1d38ae057e6e1728b107"@
    &&& c.trusted_file_sha256@.len() == required_model_files().len()
    &&& forall|i: int|
        0 <= i < required_model_files().len() ==> digest_names(c.trusted_file_sha256@).contains(
            #[trigger] required_model_files()[i],
        )
}

fn has_digest_for(list: &Vec<(String, String)>, name: &str) -> (r: bool)
    ensures
        r == digest_names(list@).contains(name@),
{
    let mut i: usize = 0;
    while i < list.len()
        invariant
            i <= list@.len(),
            forall|j: int| 0 <= j < i ==> list@[j].0@ != name@,
        decreases list@.len() - i,
    {
        if str_eq(list[i].0.as_str(), name) {
            assert(digest_names(list@)[i as int] == name@);
            return true;
        }
        i = i + 1;
    }
    proof {
        if digest_names(list@).contains(name@) {
            let j = choose|j: int| 0 <= j < digest_names(list@).len() && digest_names(list@)[j]
                == name@;
            assert(list@[j].0@ == name@);
        }
    }
    false
}

/// Checks the runtime that a worker reports against the pinned one.
pub fn validate_execution_config(config: &NeedleExecutionConfig, expected_device: &str) -> (r:
    Result<()>)
    ensures
        if execution_config_ok(*config, expected_device@) {
            r is Ok
        } else {
            is_error_of(r, MessageKind::Needle, "worker reported an unsupported Needle runtime"@)
        },
{
    let required = required_model_files_list();
    let mut all = true;
    let mut i: usize = 0;
    while i < required.len()
        invariant
            i <= required@.len(),
            required@.map_values(|s: &str| s@) == required_model_files(),
            all == (forall|j: int|
                0 <= j < i ==> digest_names(config.trusted_file_sha256@).contains(
                    #[trigger] required_model_files()[j],
                )),
        decreases required@.len() - i,
    {
        let found = has_digest_for(&config.trusted_file_sha256, required[i]);
        proof {
            assert(required_model_files()[i as int] == required@[i as int]@);
        }
        all = all && found;
        i = i + 1;
    }
    if config.api_version != 1 || !config.greedy_decoding_only || !str_eq(
        config.device.as_str(),
        expected_device,
    ) || config.max_encoder_tokens != MAX_ENCODER_TOKENS || config.max_decoder_tokens
        != MAX_DECODER_TOKENS || !str_eq(
        config.source_commit.as_str(),
        "ffd0d081401257fee31150d30c494b2f98910fc0",
    ) || !str_eq(config.model_revision.as_str(), "5f89b4307696d669c3df1d38ae057e6e1728b107")
        || config.trusted_file_sha256.len() != required.len() || !all {
        return Err(EngineError::Needle("worker reported an unsupported Needle runtime".to_owned()));
    }
    Ok(())
}

/// A device name once trimmed and lowercased: `cpu` or `cuda`.
pub open spec fn normalized_device(device: Seq<char>) -> Seq<char> {
    lower_seq(trim_seq(device))
}

pub fn normalize_device(device: &str) -> (r: Result<String>)
    ensures
        normalized_device(device@) == "cpu"@ || normalized_device(device@) == "cuda"@ ==> (
        r matches Ok(d) && d@ == normalized_device(device@)),
        !(normalized_device(device@) == "cpu"@ || normalized_device(device@) == "cuda"@)
            ==> is_error_of(r, MessageKind::Config, "Needle device must be cpu or cuda"@),
{
    let t = trimmed(device);
    let d = to_ascii_lower(t.as_str());
    if str_eq(d.as_str(), "cpu") || str_eq(d.as_str(), "cuda") {
        Ok(d)
    } else {
        Err(EngineError::InvalidConfig("Needle device must be cpu or cuda".to_owned()))
    }
}

/// `base` is a leading run of `path`'s components.
pub open spec fn component_prefix(base: Seq<Seq<char>>, path: Seq<Seq<char>>) -> bool {
    base.len() <= path.len() && path.take(base.len() as int) == base
}

/// The component sequence of each root.
pub open spec fn roots_view(roots: Seq<Vec<String>>) -> Seq<Seq<Seq<char>>> {
    roots.map_values(|r: Vec<String>| r@.map_values(|c: String| c@))
}

pub open spec fn components_view(c: Vec<String>) -> Seq<Seq<char>> {
    c@.map_values(|s: String| s@)
}

/// No root lies inside another.
pub open spec fn roots_non_overlapping(roots: Seq<Seq<Seq<char>>>) -> bool {
    forall|i: int, j: int|
        0 <= i < roots.len() && 0 <= j < roots.len() && i != j ==> !component_prefix(
            #[trigger] roots[i],
            #[trigger] roots[j],
        )
}

fn components_prefix(base: &Vec<String>, path: &Vec<String>) -> (r: bool)
    ensures
        r == component_prefix(components_view(*base), components_view(*path)),
{
    let ghost b = components_view(*base);
    let ghost p = components_view(*path);
    if base.len() > path.len() {
        return false;
    }
    let mut i: usize = 0;
    while i < base.len()
        invariant
            base@.len() <= path@.len(),
            i <= base@.len(),
            b == components_view(*base),
            p == components_view(*path),
            forall|j: int| 0 <= j < i ==> b[j] == p[j],
        decreases base@.len() - i,
    {
        if !str_eq(base[i].as_str(), path[i].as_str()) {
            assert(p.take(b.len() as int)[i as int] != b[i as int]);
            return false;
        }
        i = i + 1;
    }
    assert(p.take(b.len() as int) =~= b);
    true
}

/// Some root already contains `cand`.
pub open spec fn covered(roots: Seq<Seq<Seq<char>>>, cand: Seq<Seq<char>>) -> bool {
    exists|i: int| 0 <= i < roots.len() && component_prefix(#[trigger] roots[i], cand)
}

/// The roots after adding `cand`: unchanged when a root contains it, else
/// without the roots inside it and with it last.
pub open spec fn inserted_roots(roots: Seq<Seq<Seq<char>>>, cand: Seq<Seq<char>>) -> Seq<Seq<Seq<char>>> {
    if covered(roots, cand) {
        roots
    } else {
        roots.filter(|r: Seq<Seq<char>>| !component_prefix(cand, r)).push(cand)
    }
}

proof fn lemma_filter_keeps_roots_apart(s: Seq<Seq<Seq<char>>>, p: spec_fn(Seq<Seq<char>>) -> bool)
    requires
        roots_non_overlapping(s),
    ensures
        roots_non_overlapping(s.filter(p)),
        forall|i: int| 0 <= i < s.filter(p).len() ==> s.contains(#[trigger] s.filter(p)[i]),
    decreases s.len(),
{
    reveal(Seq::filter);
    if s.len() > 0 {
        let t = s.drop_last();
        assert(roots_non_overlapping(t)) by {
            assert forall|i: int, j: int|
                0 <= i < t.len() && 0 <= j < t.len() && i != j implies !component_prefix(
                #[trigger] t[i],
                #[trigger] t[j],
            ) by {
                assert(t[i] == s[i] && t[j] == s[j]);
            }
        }
        lemma_filter_keeps_roots_apart(t, p);
        let ft = t.filter(p);
        assert forall|i: int| 0 <= i < ft.len() implies s.contains(#[trigger] ft[i]) by {
            assert(t.contains(ft[i]));
            let a = choose|a: int| 0 <= a < t.len() && t[a] == ft[i];
            assert(s[a] == ft[i]);
        }
        if p(s.last()) {
            let f = ft.push(s.last());
            assert(s.filter(p) == f);
            assert forall|i: int, j: int|
                0 <= i < f.len() && 0 <= j < f.len() && i != j implies !component_prefix(
                #[trigger] f[i],
                #[trigger] f[j],
            ) by {
                let last = s.len() - 1;
                if i < ft.len() && j < ft.len() {
                    assert(f[i] == ft[i] && f[j] == ft[j]);
                } else if i < ft.len() {
                    assert(t.contains(ft[i]));
                    let a = choose|a: int| 0 <= a < t.len() && t[a] == ft[i];
                    assert(s[a] == f[i] && s[last] == f[j] && a != last);
                } else {
                    assert(t.contains(ft[j]));
                    let b = choose|b: int| 0 <= b < t.len() && t[b] == ft[j];
                    assert(s[b] == f[j] && s[last] == f[i] && b != last);
                }
            }
            assert forall|i: int| 0 <= i < f.len() implies s.contains(#[trigger] f[i]) by {
                if i < ft.len() {
                    assert(f[i] == ft[i]);
                } else {
                    assert(s[s.len() - 1] == f[i]);
                }
            }
        } else {
            assert(s.filter(p) == ft);
        }
    }
}

/// Law: adding a library root keeps the roots apart: when no root lies
/// inside another before, none does after.
pub proof fn lemma_insert_keeps_roots_apart(roots: Seq<Seq<Seq<char>>>, cand: Seq<Seq<char>>)
    requires
        roots_non_overlapping(roots),
    ensures
        roots_non_overlapping(inserted_roots(roots, cand)),
{
    if !covered(roots, cand) {
        let keep = |r: Seq<Seq<char>>| !component_prefix(cand, r);
        let f = roots.filter(keep);
        lemma_filter_keeps_roots_apart(roots, keep);
        let g = f.push(cand);
        assert forall|i: int, j: int|
            0 <= i < g.len() && 0 <= j < g.len() && i != j implies !component_prefix(
            #[trigger] g[i],
            #[trigger] g[j],
        ) by {
            if i < f.len() && j < f.len() {
                assert(g[i] == f[i] && g[j] == f[j]);
            } else if i < f.len() {
                roots.lemma_filter_pred(keep, i);
                assert(g[i] == f[i] && g[j] == cand);
                assert(roots.contains(f[i]));
                let a = choose|a: int| 0 <= a < roots.len() && roots[a] == f[i];
                assert(!component_prefix(roots[a], cand));
            } else {
                roots.lemma_filter_pred(keep, j);
                assert(g[j] == f[j] && g[i] == cand);
            }
        }
    }
}

/// Adds a library root given by its path components, unless an existing root
/// already contains it; roots that lie inside the new one are dropped.
pub fn insert_non_overlapping_root(roots: &mut Vec<Vec<String>>, candidate: Vec<String>)
    ensures
        roots_view(final(roots)@) == inserted_roots(roots_view(old(roots)@), components_view(candidate)),
{
    let ghost old_view = roots_view(roots@);
    let ghost cand = components_view(candidate);
    let mut i: usize = 0;
    while i < roots.len()
        invariant
            i <= roots@.len(),
            old_view == roots_view(roots@),
            cand == components_view(candidate),
            forall|j: int| 0 <= j < i ==> !component_prefix(#[trigger] old_view[j], cand),
        decreases roots@.len() - i,
    {
        if components_prefix(&roots[i], &candidate) {
            assert(old_view[i as int] == components_view(roots@[i as int]));
            return;
        }
        i = i + 1;
    }
    let ghost keep = |r: Seq<Seq<char>>| !component_prefix(cand, r);
    let ghost orig = roots@;
    let ghost mut k: int = 0;
    let mut kept: Vec<Vec<String>> = Vec::new();
    assert(orig.skip(0) =~= orig);
    while roots.len() > 0
        invariant
            0 <= k <= orig.len(),
            roots@ == orig.skip(k),
            old_view == roots_view(orig),
            cand == components_view(candidate),
            keep == (|r: Seq<Seq<char>>| !component_prefix(cand, r)),
            roots_view(kept@) == old_view.take(k).filter(keep),
        decreases roots@.len(),
    {
        let r = roots.remove(0);
        let inside = components_prefix(&candidate, &r);
        proof {
            assert(r == orig[k]);
            assert(orig.skip(k).drop_first() =~= orig.skip(k + 1));
            assert(old_view.take(k + 1).drop_last() =~= old_view.take(k));
            assert(old_view[k] == components_view(r));
            old_view.take(k).lemma_filter_push(components_view(r), keep);
            assert(old_view.take(k).push(components_view(r)) =~= old_view.take(k + 1));
        }
        if !inside {
            proof {
                assert(roots_view(kept@.push(r)) =~= roots_view(kept@).push(components_view(r)));
            }
            kept.push(r);
        }
        proof {
            k = k + 1;
        }
    }
    proof {
        assert(k == orig.len());
        assert(old_view.take(k) =~= old_view);
        assert(roots_view(kept@.push(candidate)) =~= roots_view(kept@).push(cand));
    }
    kept.push(candidate);
    *roots = kept;
}

} // verus!

verus! {

/// The text that UTF-8 bytes decode to, or `None` where they are not UTF-8.
pub open spec fn utf8_text(bytes: Seq<u8>) -> Option<Seq<char>> {
    if vstd::utf8::valid_utf8(bytes) {
        Some(vstd::utf8::decode_utf8(bytes))
    } else {
        None
    }
}

/// `String::from_utf8`: the text the bytes encode where they are valid
/// UTF-8, `None` (the error dropped) where they are not.
#[verifier::external_body]
pub(crate) fn decode_utf8(bytes: Vec<u8>) -> (r: Option<String>)
    ensures
        opt_view(r) == utf8_text(bytes@),
{
    String::from_utf8(bytes).ok()
}

/// The text that bytes decode to when each invalid UTF-8 sequence becomes
/// U+FFFD.
pub uninterp spec fn utf8_lossy_text(bytes: Seq<u8>) -> Seq<char>;

/// `String::from_utf8_lossy`, as an owned text: the bytes decoded with each
/// invalid UTF-8 sequence replaced by U+FFFD, which `utf8_lossy_text` names.
#[verifier::external_body]
pub(crate) fn decode_utf8_lossy(bytes: &[u8]) -> (r: String)
    ensures
        r@ == utf8_lossy_text(bytes@),
{
    String::from_utf8_lossy(bytes).into_owned()
}

/// Why a protocol line could not be read.
#[derive(Clone, Copy, Debug, PartialEq, Eq, Structural)]
pub enum LineError {
    /// The input ended inside a line.
    UnexpectedEof,
    /// The line, newline included, is longer than the bound.
    TooLong,
    /// The line is not UTF-8.
    InvalidUtf8,
}

impl LineError {
    /// What the error says.
    pub fn message(&self) -> (r: &'static str)
        ensures
            *self == LineError::UnexpectedEof ==> r@ == "worker protocol line ended without a newline"@,
            *self == LineError::TooLong ==> r@ == "worker protocol line exceeded its bound"@,
            *self == LineError::InvalidUtf8 ==> r@ == "worker protocol line is not UTF-8"@,
    {
        match self {
            LineError::UnexpectedEof => "worker protocol line ended without a newline",
            LineError::TooLong => "worker protocol line exceeded its bound",
            LineError::InvalidUtf8 => "worker protocol line is not UTF-8",
        }
    }
}

/// Position just past the first newline of `s`, or its length when it has none.
pub open spec fn line_end(s: Seq<u8>) -> nat
    decreases s.len(),
{
    if s.len() == 0 {
        0
    } else if s[0] == 10 {
        1
    } else {
        1 + line_end(s.drop_first())
    }
}

/// What reading one bounded line from `s` gives: nothing at the end of the
/// input, the line (newline included) with the bytes it used, or an error.
pub open spec fn bounded_line(s: Seq<u8>, maximum: nat) -> std::result::Result<
    Option<(Seq<char>, nat)>,
    LineError,
> {
    let end = line_end(s);
    if end > maximum {
        Err(LineError::TooLong)
    } else if s.len() == 0 {
        Ok(None)
    } else if end == s.len() && s[end - 1] != 10 {
        Err(LineError::UnexpectedEof)
    } else {
        match utf8_text(s.take(end as int)) {
            Some(t) => Ok(Some((t, end))),
            None => Err(LineError::InvalidUtf8),
        }
    }
}

proof fn lemma_line_end(s: Seq<u8>, i: int)
    requires
        0 <= i <= s.len(),
        forall|j: int| 0 <= j < i ==> s[j] != 10,
        i == s.len() || s[i] == 10,
    ensures
        line_end(s) == if i == s.len() {
            i
        } else {
            i + 1
        },
    decreases i,
{
    if i > 0 {
        lemma_line_end(s.drop_first(), i - 1);
    }
}

/// Bytes read front to back.
#[derive(Clone, Debug, PartialEq, Eq)]
pub struct ByteCursor {
    pub bytes: Vec<u8>,
    pub position: usize,
}

impl ByteCursor {
    pub fn new(bytes: Vec<u8>) -> (r: Self)
        ensures
            r.bytes@ == bytes@,
            r.position == 0,
    {
        ByteCursor { bytes, position: 0 }
    }

    /// The bytes not yet read.
    pub open spec fn rest(&self) -> Seq<u8> {
        self.bytes@.skip(self.position as int)
    }
}

/// Reads one newline-terminated UTF-8 line of at most `maximum` bytes
/// (newline included). On success the cursor moves past the line; at the end
/// of the input the result is `None`.
pub fn read_bounded_line(reader: &mut ByteCursor, maximum: usize) -> (r: std::result::Result<
    Option<String>,
    LineError,
>)
    requires
        old(reader).position <= old(reader).bytes@.len(),
    ensures
        final(reader).bytes@ == old(reader).bytes@,
        final(reader).position <= final(reader).bytes@.len(),
        match bounded_line(old(reader).rest(), maximum as nat) {
            Err(e) => r == std::result::Result::<Option<String>, LineError>::Err(e),
            Ok(None) => r matches Ok(None) && final(reader).position == old(reader).position,
            Ok(Some((t, used))) => r matches Ok(Some(line)) && line@ == t && final(reader).position
                == old(reader).position + used,
        },
{
    let ghost s = reader.rest();
    let start = reader.position;
    let n = reader.bytes.len();
    let mut i = start;
    while i < n && reader.bytes[i] != 10
        invariant
            start <= i <= n,
            n == reader.bytes@.len(),
            s == reader.bytes@.skip(start as int),
            forall|j: int| 0 <= j < i - start ==> #[trigger] s[j] != 10,
        decreases n - i,
    {
        i = i + 1;
    }
    proof {
        lemma_line_end(s, i - start);
    }
    let end = if i < n {
        i + 1
    } else {
        n
    };
    if end - start > maximum {
        return Err(LineError::TooLong);
    }
    if start == n {
        return Ok(None);
    }
    if i == n {
        return Err(LineError::UnexpectedEof);
    }
    let mut line: Vec<u8> = Vec::new();
    let mut k = start;
    while k < end
        invariant
            start <= k <= end <= n,
            n == reader.bytes@.len(),
            line@ == reader.bytes@.subrange(start as int, k as int),
        decreases end - k,
    {
        line.push(reader.bytes[k]);
        proof {
            assert(reader.bytes@.subrange(start as int, k + 1) =~= reader.bytes@.subrange(
                start as int,
                k as int,
            ).push(reader.bytes@[k as int]));
        }
        k = k + 1;
    }
    assert(line@ =~= s.take(end - start));
    match decode_utf8(line) {
        Some(text) => {
            reader.position = end;
            Ok(Some(text))
        },
        None => Err(LineError::InvalidUtf8),
    }
}

/// The last `cap` bytes of `s` (all of it when shorter).
pub open spec fn tail_of(s: Seq<u8>, cap: nat) -> Seq<u8> {
    if s.len() <= cap {
        s
    } else {
        s.skip(s.len() - cap)
    }
}

/// Appends freshly read bytes to a diagnostic tail that keeps only the last
/// `cap` bytes.
pub fn append_to_tail(tail: &mut Vec<u8>, chunk: &[u8], cap: usize)
    requires
        old(tail)@.len() <= cap,
    ensures
        final(tail)@ == tail_of(old(tail)@ + chunk@, cap as nat),
        final(tail)@.len() <= cap,
{
    let ghost whole = tail@ + chunk@;
    if chunk.len() >= cap {
        tail.clear();
        let mut i = chunk.len() - cap;
        while i < chunk.len()
            invariant
                chunk.len() >= cap,
                chunk.len() - cap <= i <= chunk.len(),
                tail@ == chunk@.subrange(chunk.len() - cap, i as int),
            decreases chunk.len() - i,
        {
            tail.push(chunk[i]);
            proof {
                assert(chunk@.subrange(chunk.len() - cap, i + 1) =~= chunk@.subrange(
                    chunk.len() - cap,
                    i as int,
                ).push(chunk@[i as int]));
            }
            i = i + 1;
        }
        proof {
            if whole.len() > cap {
                assert(whole.skip(whole.len() - cap) =~= chunk@.subrange(
                    chunk.len() - cap,
                    chunk.len() as int,
                ));
            } else {
                assert(chunk.len() == cap && tail@.len() == cap);
                assert(whole =~= chunk@.subrange(0, cap as int));
            }
        }
        return;
    }
    let overflow = if tail.len() > cap - chunk.len() {
        tail.len() - (cap - chunk.len())
    } else {
        0
    };
    let ghost before = tail@;
    let mut kept: Vec<u8> = Vec::new();
    let mut i = overflow;
    while i < tail.len()
        invariant
            overflow <= i <= tail@.len(),
            tail@ == before,
            kept@ == before.subrange(overflow as int, i as int),
        decreases tail@.len() - i,
    {
        kept.push(tail[i]);
        proof {
            assert(before.subrange(overflow as int, i + 1) =~= before.subrange(
                overflow as int,
                i as int,
            ).push(before[i as int]));
        }
        i = i + 1;
    }
    let mut j: usize = 0;
    while j < chunk.len()
        invariant
            j <= chunk@.len(),
            kept@ == before.skip(overflow as int) + chunk@.take(j as int),
        decreases chunk@.len() - j,
    {
        kept.push(chunk[j]);
        proof {
            assert(chunk@.take(j + 1) =~= chunk@.take(j as int).push(chunk@[j as int]));
            assert(before.skip(overflow as int) + chunk@.take(j + 1) =~= (before.skip(
                overflow as int,
            ) + chunk@.take(j as int)).push(chunk@[j as int]));
        }
        j = j + 1;
    }
    proof {
        assert(chunk@.take(chunk.len() as int) =~= chunk@);
        if whole.len() > cap {
            assert(whole.skip(whole.len() - cap) =~= before.skip(overflow as int) + chunk@);
        } else {
            assert(before.skip(0) =~= before);
        }
    }
    *tail = kept;
}

/// The worker's captured stderr as text, trimmed.
pub fn worker_stderr_text(tail: &[u8]) -> (r: String)
    ensures
        r@ == trim_seq(utf8_lossy_text(tail@)),
{
    let text = decode_utf8_lossy(tail);
    trimmed(text.as_str())
}

} // verus!

verus! {

/// The text of a message's parts: each must be a `text` part with a string
/// `text`; the texts are joined by newlines. `Err` carries the refusal.
pub open spec fn parts_text(parts: Seq<JsonValue>) -> std::result::Result<Seq<char>, Seq<char>>
    decreases parts.len(),
{
    if parts.len() == 0 {
        Ok(Seq::empty())
    } else {
        match parts_text(parts.drop_last()) {
            Err(e) => Err(e),
            Ok(before) => {
                let part = parts.last();
                if json_str(json_get(part, "type"@)) != Some("text"@) {
                    Err("Needle accepts text message parts only"@)
                } else {
                    match json_str(json_get(part, "text"@)) {
                        None => Err("Needle text message part has no text"@),
                        Some(t) => Ok(
                            if parts.len() == 1 {
                                t
                            } else {
                                before + "\n"@ + t
                            },
                        ),
                    }
                }
            },
        }
    }
}

/// The single-shot query of a request: the prompt when there are no
/// messages, else the one user message's text. `Err` carries the refusal.
pub open spec fn needle_prompt(r: GenerateRequest) -> std::result::Result<Seq<char>, Seq<char>> {
    if r.messages@.len() == 0 {
        if is_blank_seq(r.prompt@) {
            Err("Needle requires a non-empty single-shot query"@)
        } else {
            Ok(r.prompt@)
        }
    } else if r.messages@.len() != 1 || json_str(json_get(r.messages@[0], "role"@)) != Some(
        "user"@,
    ) {
        Err("Needle supports one single-shot user turn and refuses conversational history"@)
    } else {
        match json_get(r.messages@[0], "content"@) {
            None => Err("Needle user message has no content"@),
            Some(content) => {
                let text = match content {
                    JsonValue::String(t) => Ok(t@),
                    JsonValue::Array(parts) => if parts@.len() > 0 {
                        parts_text(parts@)
                    } else {
                        Err("Needle user message content must be text"@)
                    },
                    _ => Err("Needle user message content must be text"@),
                };
                match text {
                    Err(e) => Err(e),
                    Ok(t) => if is_blank_seq(t) {
                        Err("Needle requires a non-empty single-shot query"@)
                    } else {
                        Ok(t)
                    },
                }
            },
        }
    }
}

fn is_user_turn(m: &JsonValue) -> (r: bool)
    ensures
        r == (json_str(json_get(*m, "role"@)) == Some("user"@)),
{
    match get_str(m, "role") {
        Some(role) => str_eq(role, "user"),
        None => false,
    }
}

fn text_of_parts(parts: &Vec<JsonValue>) -> (r: Result<String>)
    ensures
        match parts_text(parts@) {
            Ok(t) => r matches Ok(s) && s@ == t,
            Err(e) => is_error_of(r, MessageKind::Config, e),
        },
{
    let mut out = String::new();
    let mut i: usize = 0;
    while i < parts.len()
        invariant
            i <= parts@.len(),
            parts_text(parts@.take(i as int)) == Ok::<Seq<char>, Seq<char>>(out@),
        decreases parts@.len() - i,
    {
        let part = &parts[i];
        proof {
            assert(parts@.take(i + 1).drop_last() =~= parts@.take(i as int));
            assert(parts@.take(i + 1).last() == parts@[i as int]);
        }
        let is_text = match get_str(part, "type") {
            Some(t) => str_eq(t, "text"),
            None => false,
        };
        if !is_text {
            proof {
                lemma_parts_text_error_sticks(parts@, i + 1);
            }
            return Err(EngineError::InvalidConfig("Needle accepts text message parts only".to_owned()));
        }
        let t = match get_str(part, "text") {
            Some(t) => t,
            None => {
                proof {
                    lemma_parts_text_error_sticks(parts@, i + 1);
                }
                return Err(
                    EngineError::InvalidConfig("Needle text message part has no text".to_owned()),
                );
            },
        };
        if i > 0 {
            out.append("\n");
        }
        out.append(t);
        i = i + 1;
    }
    assert(parts@.take(parts@.len() as int) =~= parts@);
    Ok(out)
}

/// Once the parts up to `k` are refused, so are all of them.
proof fn lemma_parts_text_error_sticks(parts: Seq<JsonValue>, k: int)
    requires
        0 <= k <= parts.len(),
        parts_text(parts.take(k)) is Err,
    ensures
        parts_text(parts) == parts_text(parts.take(k)),
    decreases parts.len() - k,
{
    if k < parts.len() {
        assert(parts.take(k + 1).drop_last() =~= parts.take(k));
        lemma_parts_text_error_sticks(parts, k + 1);
    } else {
        assert(parts.take(k) =~= parts);
    }
}

/// The query that a Needle request asks.
pub fn needle_request_prompt(request: &GenerateRequest) -> (r: Result<String>)
    ensures
        match needle_prompt(*request) {
            Ok(t) => r matches Ok(s) && s@ == t,
            Err(e) => is_error_of(r, MessageKind::Config, e),
        },
{
    if request.messages.len() == 0 {
        if is_blank(request.prompt.as_str()) {
            return Err(
                EngineError::InvalidConfig(
                    "Needle requires a non-empty single-shot query".to_owned(),
                ),
            );
        }
        return Ok(request.prompt.clone());
    }
    if request.messages.len() != 1 || !is_user_turn(&request.messages[0]) {
        return Err(
            EngineError::InvalidConfig(
                "Needle supports one single-shot user turn and refuses conversational history".to_owned(),
            ),
        );
    }
    let content = match request.messages[0].get("content") {
        Some(c) => c,
        None => {
            return Err(
                EngineError::InvalidConfig("Needle user message has no content".to_owned()),
            );
        },
    };
    let prompt = match content {
        JsonValue::String(t) => t.clone(),
        JsonValue::Array(parts) => {
            if parts.len() == 0 {
                return Err(
                    EngineError::InvalidConfig(
                        "Needle user message content must be text".to_owned(),
                    ),
                );
            }
            text_of_parts(parts)?
        },
        _ => {
            return Err(
                EngineError::InvalidConfig("Needle user message content must be text".to_owned()),
            );
        },
    };
    if is_blank(prompt.as_str()) {
        return Err(
            EngineError::InvalidConfig("Needle requires a non-empty single-shot query".to_owned()),
        );
    }
    Ok(prompt)
}

/// Some sampling control asks for other than greedy decoding.
pub open spec fn not_greedy(r: GenerateRequest) -> bool {
    ||| r.temperature matches Some(t) && f32_key(t) != 0
    ||| r.top_p matches Some(t) && f32_key(t) != key_one()
    ||| r.top_k matches Some(k) && !(k == 0 || k == 1)
    ||| r.min_p matches Some(t) && f32_key(t) != 0
    ||| r.repeat_penalty matches Some(t) && f32_key(t) != key_one()
    ||| r.frequency_penalty matches Some(t) && f32_key(t) != 0
    ||| r.presence_penalty matches Some(t) && f32_key(t) != 0
}

/// The first reason a Needle request is refused.
pub open spec fn needle_request_error(r: GenerateRequest) -> Option<Seq<char>> {
    if let Some(t) = sampling_error(r) {
        Some(t)
    } else if needle_prompt(r) is Err {
        Some(needle_prompt(r)->Err_0)
    } else if r.tools@.len() == 0 {
        Some("Needle is tools-only and requires at least one tool"@)
    } else if r.media@.len() > 0 {
        Some("Needle does not accept media"@)
    } else if r.max_new_tokens == 0 || r.max_new_tokens > MAX_DECODER_TOKENS {
        Some("Needle max_new_tokens must be between 1 and 512"@)
    } else if not_greedy(r) {
        Some("Needle supports deterministic greedy decoding only"@)
    } else if r.stop@.len() > 0 || r.ignore_eos {
        Some("Needle uses its pinned EOS and does not support custom stop behavior"@)
    } else if (r.grammar matches Some(g) && !(g is ToolCall)) || r.speciality_parameters@.len() > 0 {
        Some("Needle does not accept external grammar or speciality controls"@)
    } else {
        None
    }
}

fn key_differs(v: Option<u32>, key: i64) -> (r: bool)
    ensures
        r == (v matches Some(t) && f32_key(t) != key),
{
    match v {
        Some(t) => {
            let k: i64 = if t >= 0x8000_0000 {
                -((t - 0x8000_0000) as i64)
            } else {
                t as i64
            };
            k != key
        },
        None => false,
    }
}

/// Checks that a request is a greedy, single-shot tool call that the pinned
/// Needle model can serve.
pub fn validate_needle_request(request: &GenerateRequest) -> (r: Result<()>)
    ensures
        match needle_request_error(*request) {
            Some(text) => is_error_of(r, MessageKind::Config, text),
            None => r is Ok,
        },
{
    request.validate_sampling()?;
    needle_request_prompt(request)?;
    if request.tools.len() == 0 {
        return Err(
            EngineError::InvalidConfig(
                "Needle is tools-only and requires at least one tool".to_owned(),
            ),
        );
    }
    if request.media.len() > 0 {
        return Err(EngineError::InvalidConfig("Needle does not accept media".to_owned()));
    }
    if request.max_new_tokens == 0 || request.max_new_tokens > MAX_DECODER_TOKENS {
        return Err(
            EngineError::InvalidConfig("Needle max_new_tokens must be between 1 and 512".to_owned()),
        );
    }
    let top_k_other = match request.top_k {
        Some(k) => !(k == 0 || k == 1),
        None => false,
    };
    if key_differs(request.temperature, 0) || key_differs(request.top_p, 0x3f80_0000)
        || top_k_other || key_differs(request.min_p, 0) || key_differs(
        request.repeat_penalty,
        0x3f80_0000,
    ) || key_differs(request.frequency_penalty, 0) || key_differs(request.presence_penalty, 0) {
        return Err(
            EngineError::InvalidConfig(
                "Needle supports deterministic greedy decoding only".to_owned(),
            ),
        );
    }
    if request.stop.len() > 0 || request.ignore_eos {
        return Err(
            EngineError::InvalidConfig(
                "Needle uses its pinned EOS and does not support custom stop behavior".to_owned(),
            ),
        );
    }
    let other_grammar = match &request.grammar {
        Some(GrammarSpec::ToolCall { .. }) => false,
        Some(_) => true,
        None => false,
    };
    if other_grammar || request.speciality_parameters.len() > 0 {
        return Err(
            EngineError::InvalidConfig(
                "Needle does not accept external grammar or speciality controls".to_owned(),
            ),
        );
    }
    Ok(())
}

/// What a Needle worker returns for one generation. The timings are
/// double-precision bit patterns.
#[derive(Clone, Debug, PartialEq, Eq)]
pub struct WorkerGenerationResult {
    pub completion_tokens: u32,
    pub finish_reason: String,
    pub generation_ms: u64,
    pub output_text: String,
    pub output_tokens_per_second: u64,
    pub prefill_tokens_per_second: u64,
    pub prompt_eval_ms: u64,
    pub prompt_tokens: u32,
    pub token_ids: Vec<i32>,
    pub time_to_first_token_ms: u64,
}

/// A double-precision pattern that encodes a finite number that is not below
/// zero (negative zero included).
pub open spec fn f64_finite_non_negative(bits: u64) -> bool {
    bits < 0x7ff0_0000_0000_0000 || bits == 0x8000_0000_0000_0000
}

/// The result stays inside the pinned model's bounds.
pub open spec fn generation_result_ok(r: WorkerGenerationResult) -> bool {
    &&& r.completion_tokens <= MAX_DECODER_TOKENS
    &&& r.token_ids@.len() == r.completion_tokens
    &&& forall|i: int| 0 <= i < r.token_ids@.len() ==> 0 <= #[trigger] r.token_ids@[i] < 8192
    &&& r.prompt_tokens <= MAX_ENCODER_TOKENS
    &&& crate::request::utf8_len(r.output_text@) <= MAX_WORKER_RESPONSE_LINE_BYTES
    &&& f64_finite_non_negative(r.generation_ms)
    &&& f64_finite_non_negative(r.output_tokens_per_second)
    &&& f64_finite_non_negative(r.prefill_tokens_per_second)
    &&& f64_finite_non_negative(r.prompt_eval_ms)
    &&& f64_finite_non_negative(r.time_to_first_token_ms)
}

impl WorkerGenerationResult {
    pub fn validate(&self) -> (r: Result<()>)
        ensures
            if generation_result_ok(*self) {
                r is Ok
            } else {
                is_error_of(
                    r,
                    MessageKind::Needle,
                    "worker returned invalid bounded generation metrics"@,
                )
            },
    {
        let mut ids_ok = true;
        let mut i: usize = 0;
        while i < self.token_ids.len()
            invariant
                i <= self.token_ids@.len(),
                ids_ok == (forall|j: int| 0 <= j < i ==> 0 <= #[trigger] self.token_ids@[j] < 8192),
            decreases self.token_ids@.len() - i,
        {
            let t = self.token_ids[i];
            ids_ok = ids_ok && 0 <= t && t < 8192;
            i = i + 1;
        }
        let finite = |b: u64| -> (r: bool)
            ensures
                r == f64_finite_non_negative(b),
            { b < 0x7ff0_0000_0000_0000 || b == 0x8000_0000_0000_0000 };
        if self.completion_tokens > MAX_DECODER_TOKENS || self.token_ids.len()
            != self.completion_tokens as usize || !ids_ok || self.prompt_tokens > MAX_ENCODER_TOKENS
            || crate::request::utf8_byte_len(self.output_text.as_str())
            > MAX_WORKER_RESPONSE_LINE_BYTES || !finite(self.generation_ms) || !finite(
            self.output_tokens_per_second,
        ) || !finite(self.prefill_tokens_per_second) || !finite(self.prompt_eval_ms) || !finite(
            self.time_to_first_token_ms,
        ) {
            return Err(
                EngineError::Needle("worker returned invalid bounded generation metrics".to_owned()),
            );
        }
        Ok(())
    }
}

} // verus!

verus! {

/// The checks of a Needle load that need no disk: the configuration's rules,
/// Transformers safetensors weights and the encoder's fixed context.
pub fn check_needle_load(config: &crate::config::LoadConfig) -> (r: Result<()>)
    ensures
        match crate::config::load_config_error(*config) {
            Some(m) => crate::error::is_invalid_config(r, m),
            None => if config.artifact.format != crate::artifact::ArtifactFormat::TransformersSafetensors {
                crate::error::is_invalid_config(
                    r,
                    "Needle requires Transformers safetensors, got "@
                        + crate::stable_diffusion::format_debug_name(config.artifact.format),
                )
            } else if config.ctx_size != MAX_ENCODER_TOKENS {
                crate::error::is_invalid_config(
                    r,
                    "Needle has a fixed native encoder ceiling of 1024 tokens"@,
                )
            } else {
                r is Ok
            },
        },
{
    match crate::config::check_backend_load(
        config,
        crate::artifact::ArtifactFormat::TransformersSafetensors,
        "Needle requires Transformers safetensors, got ",
    ) {
        Err(e) => return Err(e),
        Ok(()) => {},
    }
    if config.ctx_size != MAX_ENCODER_TOKENS {
        return Err(crate::error::invalid_config(
            "Needle has a fixed native encoder ceiling of 1024 tokens",
        ));
    }
    Ok(())
}

/// Each required model file (at `path`) must be a regular file, not a
/// symbolic link.
pub fn check_needle_required_file(path: &str, is_symlink: bool, is_file: bool) -> (r: Result<()>)
    ensures
        r is Ok <==> (!is_symlink && is_file),
        r is Err ==> is_error_of(
            r,
            MessageKind::Needle,
            "required Needle file "@ + path@ + " must be a regular non-symlink file"@,
        ),
{
    if is_symlink || !is_file {
        let a = crate::config::concat_str("required Needle file ", path);
        return Err(EngineError::Needle(crate::config::concat_str(
            a.as_str(),
            " must be a regular non-symlink file",
        )));
    }
    Ok(())
}

/// A JSON sidecar of the model directory (at `path`) must hold an object.
pub fn check_needle_sidecar(path: &str, value: &JsonValue) -> (r: Result<()>)
    ensures
        *value is Object ==> r is Ok,
        !(*value is Object) ==> crate::error::is_invalid_config(
            r,
            "Needle sidecar "@ + path@ + " must be a JSON object"@,
        ),
{
    if value.is_object() {
        return Ok(());
    }
    let a = crate::config::concat_str("Needle sidecar ", path);
    Err(EngineError::InvalidConfig(crate::config::concat_str(a.as_str(), " must be a JSON object")))
}

/// The model's `config.json` describes the pinned architecture: a `needle`
/// encoder-decoder with a vocabulary of 8192 tokens.
pub open spec fn is_pinned_architecture(config: JsonValue) -> bool {
    &&& json_str(json_get(config, "model_type"@)) == Some("needle"@)
    &&& (json_get(config, "vocab_size"@) matches Some(v) && crate::json::json_u64(v) == Some(8192u64))
    &&& (json_get(config, "is_encoder_decoder"@) matches Some(v) && v == JsonValue::Bool(true))
}

/// Refuses a `config.json` that does not describe the pinned architecture.
pub fn check_needle_architecture(config: &JsonValue) -> (r: Result<()>)
    ensures
        is_pinned_architecture(*config) ==> r is Ok,
        !is_pinned_architecture(*config) ==> crate::error::is_invalid_config(
            r,
            "Needle config.json does not describe the pinned architecture"@,
        ),
{
    proof {
        reveal_strlit("needle");
    }
    let model_type_ok = match get_str(config, "model_type") {
        Some(t) => str_eq(t, "needle"),
        None => false,
    };
    let vocab_ok = match config.get("vocab_size") {
        Some(v) => v.as_u64() == Some(8192u64),
        None => false,
    };
    let encoder_decoder_ok = match config.get("is_encoder_decoder") {
        Some(v) => v.as_bool() == Some(true),
        None => false,
    };
    if !model_type_ok || !vocab_ok || !encoder_decoder_ok {
        return Err(crate::error::invalid_config(
            "Needle config.json does not describe the pinned architecture",
        ));
    }
    Ok(())
}

/// A file artifact must be the model directory's `model.safetensors`.
pub fn check_needle_file_artifact(artifact_is_file: bool, artifact_is_weights: bool) -> (r: Result<()>)
    ensures
        r is Ok <==> (!artifact_is_file || artifact_is_weights),
        r is Err ==> crate::error::is_invalid_config(
            r,
            "Needle file artifacts must identify model.safetensors"@,
        ),
{
    if artifact_is_file && !artifact_is_weights {
        return Err(crate::error::invalid_config("Needle file artifacts must identify model.safetensors"));
    }
    Ok(())
}

/// The digest pins of Needle weights at `weights`: a pinned hash path must
/// be the weights file, and a pinned digest must equal (ignoring ASCII case)
/// the `actual` digest of the weights. `hash_path_is_weights` tells, for a
/// pinned hash path, whether it resolves to the weights file.
pub fn check_needle_weights_digest(
    weights: &str,
    hash_path_is_weights: Option<bool>,
    expected: Option<&str>,
    actual: &str,
) -> (r: Result<()>)
    ensures
        hash_path_is_weights == Some(false) ==> crate::error::is_invalid_config(
            r,
            "Needle artifact sha256_path must identify model.safetensors"@,
        ),
        hash_path_is_weights != Some(false) ==> match expected {
            None => r is Ok,
            Some(e) => if lower_seq(actual@) == lower_seq(e@) {
                r is Ok
            } else {
                r matches Err(EngineError::ArtifactHashMismatch { path, expected: x, actual: a })
                    && path@ == weights@ && x@ == e@ && a@ == actual@
            },
        },
{
    if hash_path_is_weights == Some(false) {
        return Err(crate::error::invalid_config(
            "Needle artifact sha256_path must identify model.safetensors",
        ));
    }
    match expected {
        None => Ok(()),
        Some(e) => {
            if crate::text::eq_ignore_ascii_case(actual, e) {
                Ok(())
            } else {
                Err(EngineError::ArtifactHashMismatch {
                    path: weights.to_owned(),
                    expected: e.to_owned(),
                    actual: actual.to_owned(),
                })
            }
        },
    }
}

/// Where Needle's worker caches live: the configured cache directory, else
/// `cache/needle` under the Mayhem home, else `.mayhem/cache/needle` under the
/// user's home, else `mayhem-needle-cache` in the temporary directory.
pub open spec fn needle_cache_root_for(
    configured: Option<Seq<char>>,
    mayhem_home: Option<Seq<char>>,
    home: Option<Seq<char>>,
    temp_dir: Seq<char>,
) -> Seq<char> {
    crate::worker_env::worker_cache_root_for("needle"@, None, configured, mayhem_home, home, temp_dir)
}

/// The worker cache of one model root and device: under `workers` of the
/// cache root, a directory named by the lowercase hex SHA-256 of the root's
/// text, a NUL byte and the device.
pub open spec fn needle_worker_dir(cache_root: Seq<char>, model_root: Seq<char>, device: Seq<char>) -> Seq<
    char,
> {
    crate::payload::joined(
        crate::payload::joined(cache_root, "workers"@),
        crate::digest::hex_lower(
            crate::digest::sha256_of(
                vstd::utf8::encode_utf8(model_root) + seq![0u8] + vstd::utf8::encode_utf8(device),
            ),
        ),
    )
}

/// The worker cache directory for a model root and device, given the places
/// that may name the cache root.
pub fn needle_worker_cache(
    configured: Option<&str>,
    mayhem_home: Option<&str>,
    home: Option<&str>,
    temp_dir: &str,
    model_root: &str,
    device: &str,
) -> (r: String)
    ensures
        r@ == needle_worker_dir(
            needle_cache_root_for(
                crate::config::opt_str_view(configured),
                crate::config::opt_str_view(mayhem_home),
                crate::config::opt_str_view(home),
                temp_dir@,
            ),
            model_root@,
            device@,
        ),
{
    let root = crate::worker_env::worker_cache_root(
        crate::worker_env::WorkerKind::Needle,
        None,
        configured,
        mayhem_home,
        home,
        temp_dir,
    );
    let mut hasher = crate::digest::Sha256Hasher::new();
    let root_bytes = model_root.as_bytes();
    hasher.absorb(root_bytes, root_bytes.len());
    let nul: [u8; 1] = [0u8];
    hasher.absorb(nul.as_slice(), 1);
    let device_bytes = device.as_bytes();
    hasher.absorb(device_bytes, device_bytes.len());
    assert(root_bytes@.take(root_bytes@.len() as int) =~= root_bytes@);
    assert(nul@.take(1) =~= seq![0u8]);
    assert(device_bytes@.take(device_bytes@.len() as int) =~= device_bytes@);
    let digest = hasher.finish_hex();
    let workers = crate::payload::join_path(root.as_str(), "workers");
    crate::payload::join_path(workers.as_str(), digest.as_str())
}

/// The reason a worker gives for ending a generation.
pub fn needle_finish_reason(reason: &str) -> (r: Result<crate::types::FinishReason>)
    ensures
        reason@ == "stop"@ ==> r == Ok::<crate::types::FinishReason, EngineError>(crate::types::FinishReason::Stop),
        reason@ == "length"@ ==> r == Ok::<crate::types::FinishReason, EngineError>(crate::types::FinishReason::Length),
        reason@ != "stop"@ && reason@ != "length"@ ==> (r matches Err(EngineError::Needle(m)) && m@
            == "worker returned unsupported finish reason "@ + crate::text::debug_quoted(reason@)),
{
    proof {
        reveal_strlit("stop");
        reveal_strlit("length");
        assert("stop"@.len() != "length"@.len());
    }
    if str_eq(reason, "stop") {
        return Ok(crate::types::FinishReason::Stop);
    }
    if str_eq(reason, "length") {
        return Ok(crate::types::FinishReason::Length);
    }
    Err(EngineError::Needle(crate::config::concat_str(
        "worker returned unsupported finish reason ",
        crate::text::debug_quote(reason).as_str(),
    )))
}

/// The tokens of a Needle generation as they are streamed: one chunk per
/// token id, numbered from zero, the last carrying the whole output text and
/// the others none.
pub fn needle_token_chunks(result: &WorkerGenerationResult) -> (r: Vec<crate::types::TokenChunk>)
    ensures
        r@.len() == result.token_ids@.len(),
        forall|i: int| 0 <= i < r@.len() ==> {
            let c = #[trigger] r@[i];
            &&& c.index == (if i <= u32::MAX { i as u32 } else { u32::MAX })
            &&& c.token_id == result.token_ids@[i]
            &&& c.text@ == (if i == result.token_ids@.len() - 1 { result.output_text@ } else { Seq::<char>::empty() })
        },
{
    let n = result.token_ids.len();
    let mut chunks: Vec<crate::types::TokenChunk> = Vec::new();
    let mut i: usize = 0;
    while i < n
        invariant
            n == result.token_ids@.len(),
            i <= n,
            chunks@.len() == i,
            forall|k: int| 0 <= k < i ==> {
                let c = #[trigger] chunks@[k];
                &&& c.index == (if k <= u32::MAX { k as u32 } else { u32::MAX })
                &&& c.token_id == result.token_ids@[k]
                &&& c.text@ == (if k == n - 1 { result.output_text@ } else { Seq::<char>::empty() })
            },
        decreases n - i,
    {
        let index: u32 = if i <= 4294967295 { i as u32 } else { 4294967295 };
        let text = if i == n - 1 {
            result.output_text.clone()
        } else {
            String::new()
        };
        chunks.push(crate::types::TokenChunk { index, token_id: result.token_ids[i], text });
        i = i + 1;
    }
    chunks
}

/// What a validated Needle generation returns: its text, its token counts
/// and its finish reason.
pub fn needle_generate_output(result: &WorkerGenerationResult) -> (r: Result<crate::types::GenerateOutput>)
    ensures
        match needle_finish_reason_spec(result.finish_reason@) {
            Some(f) => r matches Ok(o) && o.text@ == result.output_text@ && o.usage
                == (crate::types::UsageCounters {
                prompt_tokens: result.prompt_tokens,
                completion_tokens: result.completion_tokens,
                total_tokens: crate::types::saturating_sum(result.prompt_tokens, result.completion_tokens),
                reasoning_tokens: 0,
                vision_tokens: 0,
                audio_tokens: 0,
            })
                && o.finish_reason == f,
            None => r matches Err(EngineError::Needle(m)) && m@
                == "worker returned unsupported finish reason "@ + crate::text::debug_quoted(result.finish_reason@),
        },
{
    let finish_reason = match needle_finish_reason(result.finish_reason.as_str()) {
        Ok(f) => f,
        Err(e) => return Err(e),
    };
    Ok(crate::types::GenerateOutput {
        text: result.output_text.clone(),
        usage: crate::types::UsageCounters::new(result.prompt_tokens, result.completion_tokens),
        finish_reason,
    })
}

/// The finish reason that a worker's reason text names, if any.
pub open spec fn needle_finish_reason_spec(reason: Seq<char>) -> Option<crate::types::FinishReason> {
    if reason == "stop"@ {
        Some(crate::types::FinishReason::Stop)
    } else if reason == "length"@ {
        Some(crate::types::FinishReason::Length)
    } else {
        None
    }
}

} // verus!
