//! Finding the payload of a model artifact on disk: the artifact itself when
//! it is a file, else a file of its directory picked by a preferred name or,
//! failing that, the first name in order with a payload extension.
//!
//! Paths are texts with `/` as separator; what the engine sees of the disk
//! (whether a path is a file or a directory, a directory's entries, a
//! sidecar's bytes) is handed in.
use vstd::prelude::*;

use crate::config::concat_str;
use crate::error::{EngineError, Result};
use crate::header::{json_parse_kind, parse_json_kind, JsonKind};
use crate::text::{chars_of, str_eq, string_from_chars};

verus! {

/// What a path is on disk.
#[derive(Clone, Copy, Debug, PartialEq, Eq, Structural)]
pub enum PathKind {
    File,
    Directory,
    Missing,
}

/// An entry of a directory: its name, and whether it is (or leads to) a
/// regular file.
#[derive(Clone, Debug, PartialEq, Eq)]
pub struct DirEntryInfo {
    pub name: String,
    pub is_file: bool,
}

/// Position of the last `c` in `s`, or -1.
pub open spec fn last_index_of(s: Seq<char>, c: char) -> int
    decreases s.len(),
{
    if s.len() == 0 {
        -1
    } else if s.last() == c {
        s.len() - 1
    } else {
        last_index_of(s.drop_last(), c)
    }
}

/// `Path::extension` of a file name: what follows its last `.`, unless the
/// name has no `.` but a leading one.
pub open spec fn extension_of(name: Seq<char>) -> Option<Seq<char>> {
    let k = last_index_of(name, '.');
    if k <= 0 {
        None
    } else {
        Some(name.skip(k + 1))
    }
}

/// The last component of a path text.
pub open spec fn file_name_of(path: Seq<char>) -> Seq<char> {
    path.skip(last_index_of(path, '/') + 1)
}

proof fn lemma_last_index_bounds(s: Seq<char>, c: char)
    ensures
        -1 <= last_index_of(s, c) < s.len(),
        last_index_of(s, c) >= 0 ==> s[last_index_of(s, c)] == c,
        forall|j: int| last_index_of(s, c) < j < s.len() ==> s[j] != c,
    decreases s.len(),
{
    if s.len() > 0 && s.last() != c {
        lemma_last_index_bounds(s.drop_last(), c);
        assert forall|j: int| last_index_of(s, c) < j < s.len() implies s[j] != c by {
            if j < s.len() - 1 {
                assert(s.drop_last()[j] == s[j]);
            }
        }
    }
}

/// The last `c` in `s` is at `k` (-1: none) when no `c` follows `k`.
pub proof fn lemma_last_index_is(s: Seq<char>, c: char, k: int)
    requires
        -1 <= k < s.len(),
        k >= 0 ==> s[k] == c,
        forall|j: int| k < j < s.len() ==> s[j] != c,
    ensures
        last_index_of(s, c) == k,
    decreases s.len(),
{
    if s.len() > 0 && s.last() != c {
        lemma_last_index_is(s.drop_last(), c, k);
    }
}

fn last_index_exec(v: &[char], c: char) -> (r: Option<usize>)
    ensures
        match r {
            Some(k) => last_index_of(v@, c) == k as int && k < v@.len(),
            None => last_index_of(v@, c) == -1,
        },
{
    let mut i = v.len();
    while i > 0
        invariant
            i <= v@.len(),
            forall|j: int| i <= j < v@.len() ==> v@[j] != c,
        decreases i,
    {
        if v[i - 1] == c {
            proof {
                lemma_last_index_is(v@, c, i - 1);
            }
            return Some(i - 1);
        }
        i = i - 1;
    }
    proof {
        lemma_last_index_is(v@, c, -1);
    }
    None
}

/// `true` when `a` comes before `b` in code point order, as sorting the
/// paths of one directory orders them (UTF-8 byte order agrees with it).
pub open spec fn chars_less(a: Seq<char>, b: Seq<char>) -> bool
    decreases a.len(),
{
    if a.len() == 0 {
        b.len() > 0
    } else if b.len() == 0 {
        false
    } else if a[0] != b[0] {
        a[0] < b[0]
    } else {
        chars_less(a.drop_first(), b.drop_first())
    }
}

proof fn lemma_chars_less_asymmetric(a: Seq<char>, b: Seq<char>)
    ensures
        chars_less(a, b) ==> !chars_less(b, a),
    decreases a.len(),
{
    if a.len() > 0 && b.len() > 0 && a[0] == b[0] {
        lemma_chars_less_asymmetric(a.drop_first(), b.drop_first());
    }
}

proof fn lemma_chars_less_transitive(a: Seq<char>, b: Seq<char>, c: Seq<char>)
    requires
        chars_less(a, b),
        chars_less(b, c),
    ensures
        chars_less(a, c),
    decreases a.len(),
{
    if a.len() > 0 && b.len() > 0 && c.len() > 0 && a[0] == b[0] && b[0] == c[0] {
        lemma_chars_less_transitive(a.drop_first(), b.drop_first(), c.drop_first());
    }
}

fn chars_less_exec(a: &[char], b: &[char]) -> (r: bool)
    ensures
        r == chars_less(a@, b@),
{
    let mut i: usize = 0;
    assert(a@.skip(0) =~= a@);
    assert(b@.skip(0) =~= b@);
    while i < a.len() && i < b.len() && a[i] == b[i]
        invariant
            i <= a@.len(),
            i <= b@.len(),
            chars_less(a@.skip(i as int), b@.skip(i as int)) == chars_less(a@, b@),
        decreases a@.len() - i,
    {
        proof {
            assert(a@.skip(i as int).drop_first() =~= a@.skip(i + 1));
            assert(b@.skip(i as int).drop_first() =~= b@.skip(i + 1));
        }
        i = i + 1;
    }
    if i == a.len() {
        i < b.len()
    } else if i == b.len() {
        false
    } else {
        a[i] < b[i]
    }
}

/// The name carries one of the extensions `exts`.
pub open spec fn has_extension(name: Seq<char>, exts: Seq<Seq<char>>) -> bool {
    extension_of(name) matches Some(e) && exists|k: int| 0 <= k < exts.len() && exts[k] == e
}

/// The texts of a list of string slices.
pub open spec fn texts(s: Seq<&str>) -> Seq<Seq<char>> {
    s.map_values(|x: &str| x@)
}

fn extension_exec(name: &str) -> (r: Option<String>)
    ensures
        match r {
            Some(e) => extension_of(name@) == Some(e@),
            None => extension_of(name@) is None,
        },
{
    let v = chars_of(name);
    match last_index_exec(v.as_slice(), '.') {
        None => None,
        Some(k) => if k == 0 {
            None
        } else {
            assert(k < v.len());
            let e = string_from_chars(v.as_slice(), k + 1, v.len());
            assert(e@ =~= name@.skip(k + 1));
            Some(e)
        },
    }
}

fn has_extension_exec(name: &str, exts: &[&str]) -> (r: bool)
    ensures
        r == has_extension(name@, texts(exts@)),
{
    let e = match extension_exec(name) {
        None => return false,
        Some(e) => e,
    };
    let mut k: usize = 0;
    while k < exts.len()
        invariant
            k <= exts@.len(),
            extension_of(name@) == Some(e@),
            forall|j: int| 0 <= j < k ==> texts(exts@)[j] != e@,
        decreases exts@.len() - k,
    {
        if str_eq(exts[k], e.as_str()) {
            assert(texts(exts@)[k as int] == exts@[k as int]@);
            return true;
        }
        k = k + 1;
    }
    false
}

/// An entry named `name` that is a regular file.
pub open spec fn has_file(entries: Seq<DirEntryInfo>, name: Seq<char>) -> bool {
    exists|i: int| 0 <= i < entries.len() && (#[trigger] entries[i]).is_file && entries[i].name@ == name
}

/// The first preferred name, from position `p` on, that names a file.
pub open spec fn first_preferred(entries: Seq<DirEntryInfo>, preferred: Seq<Seq<char>>, p: int) -> Option<int>
    decreases preferred.len() - p,
{
    if p < 0 || p >= preferred.len() {
        None
    } else if has_file(entries, preferred[p]) {
        Some(p)
    } else {
        first_preferred(entries, preferred, p + 1)
    }
}

/// Entry `i` has a payload extension and no such entry comes before it.
pub open spec fn is_first_with_extension(entries: Seq<DirEntryInfo>, exts: Seq<Seq<char>>, i: int) -> bool {
    &&& 0 <= i < entries.len()
    &&& has_extension(entries[i].name@, exts)
    &&& forall|j: int|
        0 <= j < entries.len() && has_extension((#[trigger] entries[j]).name@, exts) ==> !chars_less(
            entries[j].name@,
            entries[i].name@,
        )
}

fn find_file(entries: &[DirEntryInfo], name: &str) -> (r: Option<usize>)
    ensures
        match r {
            Some(i) => i < entries@.len() && entries@[i as int].is_file && entries@[i as int].name@ == name@,
            None => !has_file(entries@, name@),
        },
{
    let mut i: usize = 0;
    while i < entries.len()
        invariant
            i <= entries@.len(),
            forall|j: int| 0 <= j < i ==> !((#[trigger] entries@[j]).is_file && entries@[j].name@ == name@),
        decreases entries@.len() - i,
    {
        if entries[i].is_file && str_eq(entries[i].name.as_str(), name) {
            return Some(i);
        }
        i = i + 1;
    }
    None
}

/// Picks the payload entry of a directory: the first of the `preferred`
/// names that is a file, else the first name in order whose extension is
/// one of `exts`.
pub fn choose_payload(entries: &[DirEntryInfo], preferred: &[&str], exts: &[&str]) -> (r: Option<usize>)
    ensures
        search_choice(entries@, texts(preferred@), texts(exts@), r),
{
    let mut p: usize = 0;
    while p < preferred.len()
        invariant
            p <= preferred@.len(),
            first_preferred(entries@, texts(preferred@), 0) == first_preferred(entries@, texts(preferred@), p as int),
        decreases preferred@.len() - p,
    {
        match find_file(entries, preferred[p]) {
            Some(i) => return Some(i),
            None => {},
        }
        p = p + 1;
    }
    let mut best: Option<usize> = None;
    let mut i: usize = 0;
    while i < entries.len()
        invariant
            i <= entries@.len(),
            first_preferred(entries@, texts(preferred@), 0) is None,
            match best {
                Some(b) => b < i && has_extension(entries@[b as int].name@, texts(exts@)) && forall|j: int|
                    0 <= j < i && has_extension((#[trigger] entries@[j]).name@, texts(exts@)) ==> !chars_less(
                        entries@[j].name@,
                        entries@[b as int].name@,
                    ),
                None => forall|j: int| 0 <= j < i ==> !has_extension((#[trigger] entries@[j]).name@, texts(exts@)),
            },
        decreases entries@.len() - i,
    {
        if has_extension_exec(entries[i].name.as_str(), exts) {
            match best {
                None => {
                    proof {
                        let ni = entries@[i as int].name@;
                        lemma_chars_less_asymmetric(ni, ni);
                    }
                    best = Some(i);
                },
                Some(b) => {
                    let a = chars_of(entries[i].name.as_str());
                    let c = chars_of(entries[b].name.as_str());
                    if chars_less_exec(a.as_slice(), c.as_slice()) {
                        proof {
                            let nb = entries@[b as int].name@;
                            let ni = entries@[i as int].name@;
                            lemma_chars_less_asymmetric(ni, nb);
                            assert forall|j: int|
                                0 <= j < i + 1 && has_extension((#[trigger] entries@[j]).name@, texts(exts@))
                                    implies !chars_less(entries@[j].name@, ni) by {
                                if j < i && chars_less(entries@[j].name@, ni) {
                                    lemma_chars_less_transitive(entries@[j].name@, ni, nb);
                                }
                                if j == i {
                                    lemma_chars_less_asymmetric(ni, ni);
                                }
                            }
                        }
                        best = Some(i);
                    }
                },
            }
        }
        i = i + 1;
    }
    best
}

/// `dir.join(name)` for a relative `name`: a `/` goes between them unless
/// `dir` is empty or ends with one.
pub open spec fn joined(dir: Seq<char>, name: Seq<char>) -> Seq<char> {
    if dir.len() == 0 || dir.last() == '/' {
        dir + name
    } else {
        dir + "/"@ + name
    }
}

/// Joins a relative name onto a directory path.
pub fn join_path(dir: &str, name: &str) -> (r: String)
    ensures
        r@ == joined(dir@, name@),
{
    let v = chars_of(dir);
    if v.len() == 0 || v[v.len() - 1] == '/' {
        concat_str(dir, name)
    } else {
        let head = concat_str(dir, "/");
        concat_str(head.as_str(), name)
    }
}

/// How a payload search came out: the payload's path text, or the message
/// of the configuration error when the directory holds none. A missing
/// artifact is `Missing`.
pub enum PayloadOutcome {
    Found(Seq<char>),
    Missing,
    NoPayload(Seq<char>),
}

/// The outcome of a search in the directory `path`, or of the artifact
/// itself when it is a file.
pub open spec fn payload_search(
    path: Seq<char>,
    kind: PathKind,
    entries: Seq<DirEntryInfo>,
    r: Option<usize>,
    none_message: Seq<char>,
) -> PayloadOutcome {
    match kind {
        PathKind::File => PayloadOutcome::Found(path),
        PathKind::Missing => PayloadOutcome::Missing,
        PathKind::Directory => match r {
            Some(i) => PayloadOutcome::Found(joined(path, entries[i as int].name@)),
            None => PayloadOutcome::NoPayload(none_message),
        },
    }
}

/// The engine result of a payload outcome.
pub open spec fn payload_result(r: Result<String>, path: Seq<char>, o: PayloadOutcome) -> bool {
    match o {
        PayloadOutcome::Found(p) => r matches Ok(s) && s@ == p,
        PayloadOutcome::Missing => r matches Err(EngineError::ModelPathMissing(m)) && m@ == path,
        PayloadOutcome::NoPayload(m) => r matches Err(EngineError::InvalidConfig(e)) && e@ == m,
    }
}

/// What a directory search is held to: a preferred file where there is
/// one, else the first payload by name, else none.
pub open spec fn search_choice(
    entries: Seq<DirEntryInfo>,
    preferred: Seq<Seq<char>>,
    exts: Seq<Seq<char>>,
    r: Option<usize>,
) -> bool {
    match first_preferred(entries, preferred, 0) {
        Some(p) => r matches Some(i) && i < entries.len() && entries[i as int].is_file
            && entries[i as int].name@ == preferred[p],
        None => match r {
            Some(i) => is_first_with_extension(entries, exts, i as int),
            None => forall|j: int| 0 <= j < entries.len() ==> !has_extension((#[trigger] entries[j]).name@, exts),
        },
    }
}

/// Searches an artifact path for its payload. Where the search finds
/// nothing, the message is `prefix`, the path, then `suffix`.
fn search_payload(
    path: &str,
    kind: PathKind,
    entries: &[DirEntryInfo],
    preferred: &[&str],
    exts: &[&str],
    prefix: &str,
    suffix: &str,
) -> (r: (Result<String>, Ghost<Option<usize>>))
    ensures
        search_choice(entries@, texts(preferred@), texts(exts@), r.1@),
        payload_result(r.0, path@, payload_search(path@, kind, entries@, r.1@, prefix@ + path@ + suffix@)),
{
    let choice = choose_payload(entries, preferred, exts);
    proof {
        if let Some(i) = choice {
            if first_preferred(entries@, texts(preferred@), 0) is None {
                assert(is_first_with_extension(entries@, texts(exts@), i as int));
            }
        }
    }
    let result = match kind {
        PathKind::File => Ok(path.to_owned()),
        PathKind::Missing => Err(EngineError::ModelPathMissing(path.to_owned())),
        PathKind::Directory => match choice {
            Some(i) => Ok(join_path(path, entries[i].name.as_str())),
            None => {
                let head = concat_str(prefix, path);
                Err(EngineError::InvalidConfig(concat_str(head.as_str(), suffix)))
            },
        },
    };
    (result, Ghost(choice))
}

/// What a checkpoint's `config.json` decides: nothing where it is absent or
/// an object; a JSON error where it does not parse; a configuration error
/// naming it where it is another value.
pub fn check_config_object(label: &str, config_path: &str, contents: Option<&[u8]>) -> (r: Result<()>)
    ensures
        match contents {
            None => r is Ok,
            Some(b) => match json_parse_kind(b@) {
                Err(e) => r matches Err(EngineError::Json(m)) && m@ == e,
                Ok(k) => if k == JsonKind::Object {
                    r is Ok
                } else {
                    r matches Err(EngineError::InvalidConfig(m)) && m@ == label@ + " "@ + config_path@
                        + " is not a JSON object"@
                },
            },
        },
{
    match contents {
        None => Ok(()),
        Some(b) => match parse_json_kind(b) {
            Err(e) => Err(EngineError::Json(e)),
            Ok(JsonKind::Object) => Ok(()),
            Ok(_) => {
                let a = concat_str(label, " ");
                let c = concat_str(a.as_str(), config_path);
                Err(EngineError::InvalidConfig(concat_str(c.as_str(), " is not a JSON object")))
            },
        },
    }
}

/// What a payload search in an artifact's directory is held to: `r` is the
/// result for the artifact at `path`, searched with `preferred` names and
/// payload `exts`, whose directory otherwise reports `none_message`.
pub open spec fn searched(
    r: Result<String>,
    path: Seq<char>,
    kind: PathKind,
    entries: Seq<DirEntryInfo>,
    preferred: Seq<Seq<char>>,
    exts: Seq<Seq<char>>,
    none_message: Seq<char>,
) -> bool {
    exists|c: Option<usize>|
        search_choice(entries, preferred, exts, c) && payload_result(
            r,
            path,
            payload_search(path, kind, entries, c, none_message),
        )
}

/// The weights of an MLX artifact: the file itself, or `model.safetensors`,
/// or the first `.safetensors` file of its directory.
pub fn mlx_weights_path(path: &str, kind: PathKind, entries: &[DirEntryInfo]) -> (r: Result<String>)
    ensures
        searched(
            r,
            path@,
            kind,
            entries@,
            seq!["model.safetensors"@],
            seq!["safetensors"@],
            "MLX artifact directory "@ + path@ + " contains no .safetensors weights"@,
        ),
{
    let preferred: [&str; 1] = ["model.safetensors"];
    let exts: [&str; 1] = ["safetensors"];
    proof {
        assert(texts(preferred@) =~= seq!["model.safetensors"@]);
        assert(texts(exts@) =~= seq!["safetensors"@]);
    }
    let (r, c) = search_payload(
        path,
        kind,
        entries,
        &preferred,
        &exts,
        "MLX artifact directory ",
        " contains no .safetensors weights",
    );
    r
}

/// The `config.json` of a checkpoint directory passes: it is absent or an
/// object.
pub open spec fn config_passes(contents: Option<Seq<u8>>) -> bool {
    match contents {
        None => true,
        Some(b) => json_parse_kind(b) == Ok::<JsonKind, Seq<char>>(JsonKind::Object),
    }
}

/// The error a failing `config.json` gives: its parser's, or a
/// configuration error naming it.
pub open spec fn config_failure<T>(r: Result<T>, label: Seq<char>, config_path: Seq<char>, contents: Option<Seq<u8>>) -> bool {
    match contents {
        None => false,
        Some(b) => match json_parse_kind(b) {
            Err(e) => r matches Err(EngineError::Json(m)) && m@ == e,
            Ok(_) => r matches Err(EngineError::InvalidConfig(m)) && m@ == label + " "@ + config_path
                + " is not a JSON object"@,
        },
    }
}

pub open spec fn opt_bytes(o: Option<&[u8]>) -> Option<Seq<u8>> {
    match o {
        Some(b) => Some(b@),
        None => None,
    }
}

/// A payload search in a checkpoint directory whose `config.json` (its
/// bytes, where it is a file) is checked first.
fn search_checked(
    path: &str,
    kind: PathKind,
    entries: &[DirEntryInfo],
    config_json: Option<&[u8]>,
    label: &str,
    preferred: &[&str],
    exts: &[&str],
    prefix: &str,
    suffix: &str,
) -> (r: Result<String>)
    ensures
        kind == PathKind::Directory && !config_passes(opt_bytes(config_json)) ==> config_failure(
            r,
            label@,
            joined(path@, "config.json"@),
            opt_bytes(config_json),
        ),
        kind != PathKind::Directory || config_passes(opt_bytes(config_json)) ==> searched(
            r,
            path@,
            kind,
            entries@,
            texts(preferred@),
            texts(exts@),
            prefix@ + path@ + suffix@,
        ),
{
    if kind == PathKind::Directory {
        let config_path = join_path(path, "config.json");
        match check_config_object(label, config_path.as_str(), config_json) {
            Err(e) => return Err(e),
            Ok(()) => {},
        }
    }
    let (r, Ghost(c)) = search_payload(path, kind, entries, preferred, exts, prefix, suffix);
    r
}

/// The payload of a vLLM checkpoint: the file itself, or `model.safetensors`
/// or `model-00001-of-00001.safetensors`, or the first `.safetensors` file
/// of its directory, whose `config.json` must be an object where present.
pub fn vllm_safetensors_payload_path(
    path: &str,
    kind: PathKind,
    entries: &[DirEntryInfo],
    config_json: Option<&[u8]>,
) -> (r: Result<String>)
    ensures
        kind == PathKind::Directory && !config_passes(opt_bytes(config_json)) ==> config_failure(
            r,
            "vLLM checkpoint config"@,
            joined(path@, "config.json"@),
            opt_bytes(config_json),
        ),
        kind != PathKind::Directory || config_passes(opt_bytes(config_json)) ==> searched(
            r,
            path@,
            kind,
            entries@,
            seq!["model.safetensors"@, "model-00001-of-00001.safetensors"@],
            seq!["safetensors"@],
            "vLLM artifact directory "@ + path@ + " contains no .safetensors payload"@,
        ),
{
    let preferred: [&str; 2] = ["model.safetensors", "model-00001-of-00001.safetensors"];
    let exts: [&str; 1] = ["safetensors"];
    proof {
        assert(texts(preferred@) =~= seq!["model.safetensors"@, "model-00001-of-00001.safetensors"@]);
        assert(texts(exts@) =~= seq!["safetensors"@]);
    }
    search_checked(
        path,
        kind,
        entries,
        config_json,
        "vLLM checkpoint config",
        &preferred,
        &exts,
        "vLLM artifact directory ",
        " contains no .safetensors payload",
    )
}

/// The payload of a TensorRT-LLM checkpoint: the file itself, or the first
/// `.safetensors`, `.engine` or `.plan` file of its directory, whose
/// `config.json` must be an object where present.
pub fn trt_llm_payload_path(
    path: &str,
    kind: PathKind,
    entries: &[DirEntryInfo],
    config_json: Option<&[u8]>,
) -> (r: Result<String>)
    ensures
        kind == PathKind::Directory && !config_passes(opt_bytes(config_json)) ==> config_failure(
            r,
            "TensorRT-LLM checkpoint config"@,
            joined(path@, "config.json"@),
            opt_bytes(config_json),
        ),
        kind != PathKind::Directory || config_passes(opt_bytes(config_json)) ==> searched(
            r,
            path@,
            kind,
            entries@,
            Seq::<Seq<char>>::empty(),
            seq!["safetensors"@, "engine"@, "plan"@],
            "TensorRT-LLM artifact directory "@ + path@
                + " contains no .safetensors, .engine, or .plan payload"@,
        ),
{
    let preferred: [&str; 0] = [];
    let exts: [&str; 3] = ["safetensors", "engine", "plan"];
    proof {
        assert(texts(preferred@) =~= Seq::<Seq<char>>::empty());
        assert(texts(exts@) =~= seq!["safetensors"@, "engine"@, "plan"@]);
    }
    search_checked(
        path,
        kind,
        entries,
        config_json,
        "TensorRT-LLM checkpoint config",
        &preferred,
        &exts,
        "TensorRT-LLM artifact directory ",
        " contains no .safetensors, .engine, or .plan payload",
    )
}

/// The payload of a stable-diffusion checkpoint: the file itself, or one of
/// its well-known names, or the first `.safetensors`, `.gguf` or `.ckpt`
/// file of its directory.
pub fn stable_diffusion_payload_path(path: &str, kind: PathKind, entries: &[DirEntryInfo]) -> (r: Result<String>)
    ensures
        searched(
            r,
            path@,
            kind,
            entries@,
            seq![
                "model.safetensors"@,
                "model.gguf"@,
                "sd-turbo.safetensors"@,
                "diffusion_pytorch_model.safetensors"@,
            ],
            seq!["safetensors"@, "gguf"@, "ckpt"@],
            "stable-diffusion artifact directory "@ + path@
                + " contains no .safetensors, .gguf, or .ckpt payload"@,
        ),
{
    let preferred: [&str; 4] = [
        "model.safetensors",
        "model.gguf",
        "sd-turbo.safetensors",
        "diffusion_pytorch_model.safetensors",
    ];
    let exts: [&str; 3] = ["safetensors", "gguf", "ckpt"];
    proof {
        assert(texts(preferred@) =~= seq![
            "model.safetensors"@,
            "model.gguf"@,
            "sd-turbo.safetensors"@,
            "diffusion_pytorch_model.safetensors"@,
        ]);
        assert(texts(exts@) =~= seq!["safetensors"@, "gguf"@, "ckpt"@]);
    }
    let (r, Ghost(c)) = search_payload(
        path,
        kind,
        entries,
        &preferred,
        &exts,
        "stable-diffusion artifact directory ",
        " contains no .safetensors, .gguf, or .ckpt payload",
    );
    r
}

/// The model of a whisper.cpp artifact: the file itself, or one of its
/// well-known names, or the first `.bin` file of its directory.
pub fn whisper_ggml_payload_path(path: &str, kind: PathKind, entries: &[DirEntryInfo]) -> (r: Result<String>)
    ensures
        searched(
            r,
            path@,
            kind,
            entries@,
            seq!["ggml-tiny.en.bin"@, "ggml-tiny.bin"@, "model.bin"@],
            seq!["bin"@],
            "whisper.cpp artifact directory "@ + path@ + " contains no .bin payload"@,
        ),
{
    let preferred: [&str; 3] = ["ggml-tiny.en.bin", "ggml-tiny.bin", "model.bin"];
    let exts: [&str; 1] = ["bin"];
    proof {
        assert(texts(preferred@) =~= seq!["ggml-tiny.en.bin"@, "ggml-tiny.bin"@, "model.bin"@]);
        assert(texts(exts@) =~= seq!["bin"@]);
    }
    let (r, Ghost(c)) = search_payload(
        path,
        kind,
        entries,
        &preferred,
        &exts,
        "whisper.cpp artifact directory ",
        " contains no .bin payload",
    );
    r
}

/// The model of a Piper voice: the file itself, or `model.onnx` or
/// `voice.onnx`, or the first `.onnx` file of its directory.
pub fn piper_voice_model_path(path: &str, kind: PathKind, entries: &[DirEntryInfo]) -> (r: Result<String>)
    ensures
        searched(
            r,
            path@,
            kind,
            entries@,
            seq!["model.onnx"@, "voice.onnx"@],
            seq!["onnx"@],
            "Piper voice directory "@ + path@ + " contains no .onnx model"@,
        ),
{
    let preferred: [&str; 2] = ["model.onnx", "voice.onnx"];
    let exts: [&str; 1] = ["onnx"];
    proof {
        assert(texts(preferred@) =~= seq!["model.onnx"@, "voice.onnx"@]);
        assert(texts(exts@) =~= seq!["onnx"@]);
    }
    let (r, Ghost(c)) = search_payload(
        path,
        kind,
        entries,
        &preferred,
        &exts,
        "Piper voice directory ",
        " contains no .onnx model",
    );
    r
}

/// The directory of a model held in one file or in a directory: the file's
/// parent, or the directory itself. `None` where the artifact is missing.
pub open spec fn model_root(path: Seq<char>, kind: PathKind, parent: Option<Seq<char>>) -> Option<Option<Seq<char>>> {
    match kind {
        PathKind::File => Some(parent),
        PathKind::Directory => Some(Some(path)),
        PathKind::Missing => None,
    }
}

pub open spec fn opt_text(o: Option<&str>) -> Option<Seq<char>> {
    match o {
        Some(s) => Some(s@),
        None => None,
    }
}

/// What the original Chatterbox layout decides: its weights are
/// `t3_cfg.safetensors` of the model root (the artifact's directory, or the
/// parent of the artifact file, which must then be that file). Messages
/// are of configuration errors; `None` stands for a missing artifact.
pub open spec fn chatterbox_payload(
    path: Seq<char>,
    kind: PathKind,
    parent: Option<Seq<char>>,
    root_entries: Seq<DirEntryInfo>,
) -> Option<std::result::Result<Seq<char>, Seq<char>>> {
    match model_root(path, kind, parent) {
        None => None,
        Some(None) => Some(Err("Chatterbox weights path "@ + path + " has no parent"@)),
        Some(Some(root)) => {
            let primary = joined(root, "t3_cfg.safetensors"@);
            if kind == PathKind::File && path != primary {
                Some(Err("original Chatterbox primary artifact must be "@ + primary + ", got "@ + path))
            } else if !has_file(root_entries, "t3_cfg.safetensors"@) {
                Some(Err("original Chatterbox artifact "@ + root + " is missing t3_cfg.safetensors"@))
            } else {
                Some(Ok(primary))
            }
        },
    }
}

/// The engine result that a payload decision stands for.
pub open spec fn decided(r: Result<String>, path: Seq<char>, d: Option<std::result::Result<Seq<char>, Seq<char>>>) -> bool {
    match d {
        None => r matches Err(EngineError::ModelPathMissing(m)) && m@ == path,
        Some(Ok(p)) => r matches Ok(s) && s@ == p,
        Some(Err(m)) => r matches Err(EngineError::InvalidConfig(e)) && e@ == m,
    }
}

/// The weights of an original Chatterbox artifact. `parent` is the parent
/// directory of the artifact where it is a file, and `root_entries` the
/// entries of the model root.
pub fn chatterbox_safetensors_payload_path(
    path: &str,
    kind: PathKind,
    parent: Option<&str>,
    root_entries: &[DirEntryInfo],
) -> (r: Result<String>)
    ensures
        decided(r, path@, chatterbox_payload(path@, kind, opt_text(parent), root_entries@)),
{
    let root: &str = match kind {
        PathKind::Missing => return Err(EngineError::ModelPathMissing(path.to_owned())),
        PathKind::Directory => path,
        PathKind::File => match parent {
            Some(p) => p,
            None => {
                let head = concat_str("Chatterbox weights path ", path);
                return Err(EngineError::InvalidConfig(concat_str(head.as_str(), " has no parent")));
            },
        },
    };
    let primary = join_path(root, "t3_cfg.safetensors");
    if kind == PathKind::File && !str_eq(path, primary.as_str()) {
        let a = concat_str("original Chatterbox primary artifact must be ", primary.as_str());
        let b = concat_str(a.as_str(), ", got ");
        return Err(EngineError::InvalidConfig(concat_str(b.as_str(), path)));
    }
    if find_file(root_entries, "t3_cfg.safetensors").is_none() {
        let a = concat_str("original Chatterbox artifact ", root);
        return Err(EngineError::InvalidConfig(concat_str(a.as_str(), " is missing t3_cfg.safetensors")));
    }
    Ok(primary)
}

/// The JSON sidecars a Transformers speech-recognition model needs, in the
/// order they are checked.
pub open spec fn transformers_sidecars() -> Seq<Seq<char>> {
    seq!["config.json"@, "processor_config.json"@, "tokenizer.json"@, "tokenizer_config.json"@]
}

pub open spec fn opt_vec_bytes(o: Option<Vec<u8>>) -> Option<Seq<u8>> {
    match o {
        Some(b) => Some(b@),
        None => None,
    }
}

/// The JSON sidecars a Transformers model directory needs, in the order they
/// are checked.
pub fn transformers_sidecar_names() -> (r: [&'static str; 4])
    ensures
        texts(r@) == transformers_sidecars(),
{
    let names: [&'static str; 4] = ["config.json", "processor_config.json", "tokenizer.json", "tokenizer_config.json"];
    assert(texts(names@) =~= transformers_sidecars());
    names
}

/// The first failing sidecar check from sidecar `k` on: a sidecar that is
/// not a file, one that does not parse (the parser's message), or one that
/// is not an object. `contents[k]` holds the bytes of sidecar `k` where it
/// is a file.
pub open spec fn sidecar_fault(dir: Seq<char>, contents: Seq<Option<Seq<u8>>>, k: int) -> Option<(bool, Seq<char>)>
    decreases 4 - k,
{
    if k < 0 || k >= 4 {
        None
    } else {
        let name = transformers_sidecars()[k];
        match contents[k] {
            None => Some((true, "Transformers ASR artifact "@ + dir + " is missing required sidecar "@ + name)),
            Some(b) => match json_parse_kind(b) {
                Err(e) => Some((false, e)),
                Ok(kind) => if kind == JsonKind::Object {
                    sidecar_fault(dir, contents, k + 1)
                } else {
                    Some((true, "Transformers ASR sidecar "@ + joined(dir, name) + " is not a JSON object"@))
                },
            },
        }
    }
}

/// Checks the JSON sidecars of a Transformers model directory, in order.
fn check_transformers_sidecars(dir: &str, contents: &[Option<Vec<u8>>]) -> (r: Result<()>)
    requires
        contents@.len() == 4,
    ensures
        match sidecar_fault(dir@, contents@.map_values(|o: Option<Vec<u8>>| opt_vec_bytes(o)), 0) {
            None => r is Ok,
            Some((true, m)) => r matches Err(EngineError::InvalidConfig(e)) && e@ == m,
            Some((false, m)) => r matches Err(EngineError::Json(e)) && e@ == m,
        },
{
    let names: [&str; 4] = ["config.json", "processor_config.json", "tokenizer.json", "tokenizer_config.json"];
    let ghost views = contents@.map_values(|o: Option<Vec<u8>>| opt_vec_bytes(o));
    proof {
        assert(texts(names@) =~= transformers_sidecars());
    }
    let mut k: usize = 0;
    while k < 4
        invariant
            contents@.len() == 4,
            views == contents@.map_values(|o: Option<Vec<u8>>| opt_vec_bytes(o)),
            texts(names@) == transformers_sidecars(),
            k <= 4,
            sidecar_fault(dir@, views, 0) == sidecar_fault(dir@, views, k as int),
        decreases 4 - k,
    {
        let name = names[k];
        assert(name@ == transformers_sidecars()[k as int]);
        match &contents[k] {
            None => {
                let a = concat_str("Transformers ASR artifact ", dir);
                let b = concat_str(a.as_str(), " is missing required sidecar ");
                return Err(EngineError::InvalidConfig(concat_str(b.as_str(), name)));
            },
            Some(bytes) => match parse_json_kind(bytes.as_slice()) {
                Err(e) => return Err(EngineError::Json(e)),
                Ok(JsonKind::Object) => {},
                Ok(_) => {
                    let p = join_path(dir, name);
                    let a = concat_str("Transformers ASR sidecar ", p.as_str());
                    return Err(EngineError::InvalidConfig(concat_str(a.as_str(), " is not a JSON object")));
                },
            },
        }
        k = k + 1;
    }
    Ok(())
}

/// The weights of a Transformers speech-recognition artifact. The model
/// directory is the artifact's directory, or the parent of the artifact
/// file; its JSON sidecars are checked first (`sidecars[k]` holds the bytes
/// of sidecar `k` where it is a file). An artifact file with the
/// `.safetensors` extension is its own weights; else the directory's
/// `model.safetensors` or `model-00001-of-00001.safetensors`, else its first
/// `.safetensors` file.
pub fn transformers_safetensors_payload_path(
    path: &str,
    kind: PathKind,
    parent: Option<&str>,
    entries: &[DirEntryInfo],
    sidecars: &[Option<Vec<u8>>],
) -> (r: Result<String>)
    requires
        sidecars@.len() == 4,
    ensures
        match model_root(path@, kind, opt_text(parent)) {
            None => r matches Err(EngineError::ModelPathMissing(m)) && m@ == path@,
            Some(None) => r matches Err(EngineError::InvalidConfig(m)) && m@ == "Transformers weights path "@ + path@
                + " has no parent"@,
            Some(Some(dir)) => match sidecar_fault(dir, sidecars@.map_values(|o: Option<Vec<u8>>| opt_vec_bytes(o)), 0) {
                Some((true, m)) => r matches Err(EngineError::InvalidConfig(e)) && e@ == m,
                Some((false, m)) => r matches Err(EngineError::Json(e)) && e@ == m,
                None => if kind == PathKind::File && extension_of(file_name_of(path@)) == Some("safetensors"@) {
                    r matches Ok(p) && p@ == path@
                } else {
                    searched(
                        r,
                        dir,
                        PathKind::Directory,
                        entries@,
                        seq!["model.safetensors"@, "model-00001-of-00001.safetensors"@],
                        seq!["safetensors"@],
                        "Transformers ASR artifact "@ + dir + " contains no .safetensors weights"@,
                    )
                },
            },
        },
{
    let dir: &str = match kind {
        PathKind::Missing => return Err(EngineError::ModelPathMissing(path.to_owned())),
        PathKind::Directory => path,
        PathKind::File => match parent {
            Some(p) => p,
            None => {
                let head = concat_str("Transformers weights path ", path);
                return Err(EngineError::InvalidConfig(concat_str(head.as_str(), " has no parent")));
            },
        },
    };
    match check_transformers_sidecars(dir, sidecars) {
        Err(e) => return Err(e),
        Ok(()) => {},
    }
    if kind == PathKind::File {
        let v = chars_of(path);
        let start: usize = match last_index_exec(v.as_slice(), '/') {
            Some(k) => k + 1,
            None => 0,
        };
        let name = string_from_chars(v.as_slice(), start, v.len());
        assert(name@ =~= file_name_of(path@));
        if let Some(e) = extension_exec(name.as_str()) {
            proof {
                reveal_strlit("safetensors");
            }
            if str_eq(e.as_str(), "safetensors") {
                return Ok(path.to_owned());
            }
        }
    }
    let preferred: [&str; 2] = ["model.safetensors", "model-00001-of-00001.safetensors"];
    let exts: [&str; 1] = ["safetensors"];
    proof {
        assert(texts(preferred@) =~= seq!["model.safetensors"@, "model-00001-of-00001.safetensors"@]);
        assert(texts(exts@) =~= seq!["safetensors"@]);
    }
    let (r, Ghost(c)) = search_payload(
        dir,
        PathKind::Directory,
        entries,
        &preferred,
        &exts,
        "Transformers ASR artifact ",
        " contains no .safetensors weights",
    );
    r
}

/// The stem of a file name: the name without its extension and the `.`
/// before it.
pub open spec fn stem_of(name: Seq<char>) -> Seq<char> {
    match extension_of(name) {
        Some(e) => name.take(name.len() - e.len() - 1),
        None => name,
    }
}

/// `Path::with_extension` on a file path: its last component's stem with
/// the extension `ext`.
pub open spec fn with_extension(path: Seq<char>, ext: Seq<char>) -> Seq<char> {
    let name = file_name_of(path);
    path.take(path.len() - name.len()) + stem_of(name) + "."@ + ext
}

fn with_extension_exec(path: &str, ext: &str) -> (r: String)
    ensures
        r@ == with_extension(path@, ext@),
{
    let v = chars_of(path);
    let start: usize = match last_index_exec(v.as_slice(), '/') {
        Some(k) => {
            assert(k < v.len());
            k + 1
        },
        None => 0,
    };
    let dir = string_from_chars(v.as_slice(), 0, start);
    let name = string_from_chars(v.as_slice(), start, v.len());
    let ghost n = name@;
    proof {
        assert(n =~= file_name_of(path@));
        assert(dir@ =~= path@.take(path@.len() - n.len()));
    }
    let w = chars_of(name.as_str());
    let stem_end: usize = match last_index_exec(w.as_slice(), '.') {
        Some(k) => if k == 0 { w.len() } else { k },
        None => w.len(),
    };
    let stem = string_from_chars(w.as_slice(), 0, stem_end);
    proof {
        match extension_of(n) {
            Some(e) => {
                assert(e =~= n.skip(stem_end + 1));
                assert(stem@ =~= n.take(n.len() - e.len() - 1));
            },
            None => {
                assert(stem@ =~= n);
            },
        }
    }
    let a = concat_str(dir.as_str(), stem.as_str());
    let b = concat_str(a.as_str(), ".");
    concat_str(b.as_str(), ext)
}

/// The two places a Piper voice's config may be: `<model>.onnx.json` and
/// `<model>.json`, each formed from the model path.
pub fn piper_config_candidates(model: &str) -> (r: (String, String))
    ensures
        r.0@ == with_extension(model@, "onnx.json"@),
        r.1@ == with_extension(model@, "json"@),
{
    (with_extension_exec(model, "onnx.json"), with_extension_exec(model, "json"))
}

/// The config of a Piper voice: the first of its two candidates that is a
/// file.
pub fn piper_voice_config(model: &str, onnx_json_is_file: bool, json_is_file: bool) -> (r: Result<String>)
    ensures
        onnx_json_is_file ==> (r matches Ok(c) && c@ == with_extension(model@, "onnx.json"@)),
        !onnx_json_is_file && json_is_file ==> (r matches Ok(c) && c@ == with_extension(model@, "json"@)),
        !onnx_json_is_file && !json_is_file ==> (r matches Err(EngineError::InvalidConfig(m)) && m@
            == "Piper voice "@ + model@ + " is missing config sidecar (expected "@ + with_extension(
            model@,
            "onnx.json"@,
        ) + " or "@ + with_extension(model@, "json"@) + ")"@),
{
    let (onnx_json, json) = piper_config_candidates(model);
    if onnx_json_is_file {
        return Ok(onnx_json);
    }
    if json_is_file {
        return Ok(json);
    }
    let a = concat_str("Piper voice ", model);
    let b = concat_str(a.as_str(), " is missing config sidecar (expected ");
    let c = concat_str(b.as_str(), onnx_json.as_str());
    let d = concat_str(c.as_str(), " or ");
    let e = concat_str(d.as_str(), json.as_str());
    Err(EngineError::InvalidConfig(concat_str(e.as_str(), ")")))
}

/// The extension of the last component of a path text.
pub fn file_extension(path: &str) -> (r: Option<String>)
    ensures
        match r {
            Some(e) => extension_of(file_name_of(path@)) == Some(e@),
            None => extension_of(file_name_of(path@)) is None,
        },
{
    let v = chars_of(path);
    let start: usize = match last_index_exec(v.as_slice(), '/') {
        Some(k) => {
            assert(k < v.len());
            k + 1
        },
        None => 0,
    };
    let name = string_from_chars(v.as_slice(), start, v.len());
    assert(name@ =~= file_name_of(path@));
    extension_exec(name.as_str())
}

/// The primary file of an ACE-Step artifact: the artifact, which must be a
/// file.
pub fn ace_step_primary_path(path: &str, kind: PathKind) -> (r: Result<String>)
    ensures
        kind == PathKind::File ==> (r matches Ok(p) && p@ == path@),
        kind == PathKind::Missing ==> (r matches Err(EngineError::ModelPathMissing(m)) && m@ == path@),
        kind == PathKind::Directory ==> (r matches Err(EngineError::InvalidConfig(m)) && m@
            == "ACE-Step primary artifact "@ + path@ + " must be a safetensors file"@),
{
    match kind {
        PathKind::File => Ok(path.to_owned()),
        PathKind::Missing => Err(EngineError::ModelPathMissing(path.to_owned())),
        PathKind::Directory => {
            let a = concat_str("ACE-Step primary artifact ", path);
            Err(EngineError::InvalidConfig(concat_str(a.as_str(), " must be a safetensors file")))
        },
    }
}

/// The entry point of a ComfyUI runtime: `main.py` of its directory, which
/// must be a file.
pub fn comfyui_main_path(path: &str, main_is_file: bool) -> (r: Result<String>)
    ensures
        main_is_file ==> (r matches Ok(p) && p@ == joined(path@, "main.py"@)),
        !main_is_file ==> (r matches Err(EngineError::InvalidConfig(m)) && m@ == "ComfyUI runtime "@ + path@
            + " must contain main.py"@),
{
    if !main_is_file {
        let a = concat_str("ComfyUI runtime ", path);
        return Err(EngineError::InvalidConfig(concat_str(a.as_str(), " must contain main.py")));
    }
    Ok(join_path(path, "main.py"))
}

/// A Piper config artifact: the artifact, which must be a file.
pub fn piper_config_path(path: &str, kind: PathKind) -> (r: Result<String>)
    ensures
        kind == PathKind::File ==> (r matches Ok(p) && p@ == path@),
        kind == PathKind::Missing ==> (r matches Err(EngineError::ModelPathMissing(m)) && m@ == path@),
        kind == PathKind::Directory ==> (r matches Err(EngineError::InvalidConfig(m)) && m@ == "Piper config "@
            + path@ + " is not a file"@),
{
    match kind {
        PathKind::File => Ok(path.to_owned()),
        PathKind::Missing => Err(EngineError::ModelPathMissing(path.to_owned())),
        PathKind::Directory => {
            let a = concat_str("Piper config ", path);
            Err(EngineError::InvalidConfig(concat_str(a.as_str(), " is not a file")))
        },
    }
}

/// What a TensorRT-LLM load needs of its prebuilt engine directory: one
/// configured, present, and holding a `.engine` or `.plan` entry.
pub fn require_trt_engine_payload(engine_dir: Option<&str>, kind: PathKind, entries: &[DirEntryInfo]) -> (r: Result<()>)
    ensures
        engine_dir is None ==> (r matches Err(EngineError::InvalidConfig(m)) && m@
            == "TensorRT-LLM loading requires a prebuilt engine directory; run the seal-time engine build first"@),
        engine_dir matches Some(d) ==> if kind != PathKind::Directory {
            r matches Err(EngineError::InvalidConfig(m)) && m@ == "TensorRT-LLM engine directory "@ + d@
                + " is missing; run the seal-time engine build first"@
        } else if exists|j: int|
            0 <= j < entries@.len() && has_extension((#[trigger] entries@[j]).name@, seq!["engine"@, "plan"@]) {
            r is Ok
        } else {
            r matches Err(EngineError::InvalidConfig(m)) && m@ == "TensorRT-LLM engine directory "@ + d@
                + " contains no .engine or .plan payload; run the seal-time engine build first"@
        },
{
    let dir = match engine_dir {
        None => {
            return Err(crate::error::invalid_config(
                "TensorRT-LLM loading requires a prebuilt engine directory; run the seal-time engine build first",
            ));
        },
        Some(d) => d,
    };
    if kind != PathKind::Directory {
        let a = concat_str("TensorRT-LLM engine directory ", dir);
        return Err(EngineError::InvalidConfig(concat_str(a.as_str(), " is missing; run the seal-time engine build first")));
    }
    let exts: [&str; 2] = ["engine", "plan"];
    proof {
        assert(texts(exts@) =~= seq!["engine"@, "plan"@]);
    }
    let mut i: usize = 0;
    while i < entries.len()
        invariant
            i <= entries@.len(),
            texts(exts@) == seq!["engine"@, "plan"@],
            engine_dir == Some(dir),
            kind == PathKind::Directory,
            forall|j: int| 0 <= j < i ==> !has_extension((#[trigger] entries@[j]).name@, seq!["engine"@, "plan"@]),
        decreases entries@.len() - i,
    {
        if has_extension_exec(entries[i].name.as_str(), &exts) {
            assert(has_extension(entries@[i as int].name@, seq!["engine"@, "plan"@]));
            return Ok(());
        }
        i = i + 1;
    }
    let a = concat_str("TensorRT-LLM engine directory ", dir);
    Err(EngineError::InvalidConfig(concat_str(
        a.as_str(),
        " contains no .engine or .plan payload; run the seal-time engine build first",
    )))
}

proof fn lemma_chars_less_total(a: Seq<char>, b: Seq<char>)
    requires
        a != b,
    ensures
        chars_less(a, b) || chars_less(b, a),
    decreases a.len(),
{
    if a.len() > 0 && b.len() > 0 && a[0] == b[0] {
        if a.drop_first() == b.drop_first() {
            assert(a =~= seq![a[0]] + a.drop_first());
            assert(b =~= seq![b[0]] + b.drop_first());
        }
        lemma_chars_less_total(a.drop_first(), b.drop_first());
    } else if a.len() == 0 && b.len() == 0 {
        assert(a =~= b);
    }
}

/// The payload picked by name does not depend on the order in which the
/// directory lists its entries: two entries that each come first by name
/// among the payload candidates carry the same name.
pub proof fn lemma_first_payload_unique(entries: Seq<DirEntryInfo>, exts: Seq<Seq<char>>, i: int, j: int)
    requires
        is_first_with_extension(entries, exts, i),
        is_first_with_extension(entries, exts, j),
    ensures
        entries[i].name@ == entries[j].name@,
{
    let a = entries[i].name@;
    let b = entries[j].name@;
    assert(!chars_less(b, a));
    assert(!chars_less(a, b));
    if a != b {
        lemma_chars_less_total(a, b);
    }
}

} // verus!
