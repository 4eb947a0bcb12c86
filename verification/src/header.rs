//! Checks on the leading bytes of artifact files: format magic and the
//! safetensors header (a little-endian length prefix and a JSON object).
use vstd::prelude::*;

use crate::artifact::{format_label, format_magic, ArtifactFormat};
use crate::error::{EngineError, Result};
use crate::payload::{extension_of, file_extension, file_name_of};
use crate::text::str_eq;

verus! {

/// An `UnsupportedArtifactHeader` error naming `path`, the expected format
/// label and the bytes found.
pub open spec fn is_header_error<T>(r: Result<T>, path: Seq<char>, expected: Seq<char>, actual: Seq<u8>) -> bool {
    r matches Err(EngineError::UnsupportedArtifactHeader { path: p, expected: e, actual: a })
        && p@ == path && e@ == expected && a@ == actual
}

/// Checks the first bytes read from the artifact at `path` against the magic
/// of `format`.
pub fn check_magic_header(path: &str, format: ArtifactFormat, actual: &[u8]) -> (r: Result<()>)
    ensures
        r is Ok <==> actual@ == format_magic(format),
        r is Err ==> is_header_error(r, path@, format_label(format), actual@),
{
    let magic = format.magic();
    let mut same = magic.len() == actual.len();
    let mut i: usize = 0;
    while same && i < magic.len()
        invariant
            magic@ == format_magic(format),
            same ==> magic@.len() == actual@.len(),
            i <= magic@.len(),
            same <==> (magic@.len() == actual@.len() && forall|j: int| 0 <= j < i ==> magic@[j] == actual@[j]),
        decreases magic@.len() - i,
    {
        if magic[i] != actual[i] {
            same = false;
        }
        i = i + 1;
    }
    if same {
        assert(magic@ =~= actual@);
        Ok(())
    } else {
        Err(EngineError::UnsupportedArtifactHeader {
            path: path.to_string(),
            expected: format.label().to_string(),
            actual: vstd::slice::slice_to_vec(actual),
        })
    }
}

/// Largest safetensors JSON header accepted, in bytes.
pub const SAFETENSORS_MAX_HEADER_BYTES: u64 = 268435456;

/// The unsigned little-endian integer of the first eight bytes of `b`.
pub open spec fn le_u64(b: Seq<u8>) -> int {
    b[0] + b[1] * 0x100 + b[2] * 0x10000 + b[3] * 0x1000000 + b[4] * 0x100000000
        + b[5] * 0x10000000000 + b[6] * 0x1000000000000 + b[7] * 0x100000000000000
}

/// What the length prefix of a safetensors file decides: the header length
/// to read, or the failure.
pub open spec fn header_len_accepted(prefix: Seq<u8>, file_len: u64) -> bool {
    &&& prefix.len() == 8
    &&& le_u64(prefix) != 0
    &&& le_u64(prefix) <= (if file_len < 8 { 0 } else { file_len - 8 })
    &&& le_u64(prefix) <= SAFETENSORS_MAX_HEADER_BYTES
}

/// Decides on the length prefix of a safetensors file of `file_len` bytes.
/// `prefix` holds the bytes read for the prefix: eight, or fewer where the
/// file ended first. A short prefix is reported with no bytes; a length of
/// zero, one past the end of the file or one over the header bound is
/// reported with the prefix.
pub fn safetensors_header_len(path: &str, expected: &str, prefix: &[u8], file_len: u64) -> (r: Result<u64>)
    ensures
        prefix@.len() != 8 ==> is_header_error(r, path@, expected@, Seq::<u8>::empty()),
        prefix@.len() == 8 && !header_len_accepted(prefix@, file_len) ==> is_header_error(r, path@, expected@, prefix@),
        header_len_accepted(prefix@, file_len) ==> r == Ok::<u64, EngineError>(le_u64(prefix@) as u64),
{
    if prefix.len() != 8 {
        return Err(EngineError::UnsupportedArtifactHeader {
            path: path.to_string(),
            expected: expected.to_string(),
            actual: Vec::new(),
        });
    }
    let n: u64 = prefix[0] as u64 + prefix[1] as u64 * 0x100 + prefix[2] as u64 * 0x10000
        + prefix[3] as u64 * 0x1000000 + prefix[4] as u64 * 0x100000000
        + prefix[5] as u64 * 0x10000000000 + prefix[6] as u64 * 0x1000000000000
        + prefix[7] as u64 * 0x100000000000000;
    let room: u64 = if file_len < 8 { 0 } else { file_len - 8 };
    if n == 0 || n > room || n > SAFETENSORS_MAX_HEADER_BYTES {
        return Err(EngineError::UnsupportedArtifactHeader {
            path: path.to_string(),
            expected: expected.to_string(),
            actual: vstd::slice::slice_to_vec(prefix),
        });
    }
    Ok(n)
}

/// The kind of a JSON document's top-level value.
#[derive(Clone, Copy, Debug, PartialEq, Eq, Structural)]
pub enum JsonKind {
    Null,
    Bool,
    Number,
    String,
    Array,
    Object,
}

/// What `serde_json::from_slice` gives for `bytes`: the kind of the parsed
/// value, or the parser's error message.
pub uninterp spec fn json_parse_kind(bytes: Seq<u8>) -> std::result::Result<JsonKind, Seq<char>>;

/// Parses `bytes` as a JSON document with `serde_json::from_slice` into a
/// `serde_json::Value`, keeping only its top-level kind, or the error text.
#[verifier::external_body]
pub(crate) fn parse_json_kind(bytes: &[u8]) -> (r: std::result::Result<JsonKind, String>)
    ensures
        json_parse_kind(bytes@) == match r {
            Ok(k) => Ok::<JsonKind, Seq<char>>(k),
            Err(e) => Err::<JsonKind, Seq<char>>(e@),
        },
{
    match serde_json::from_slice::<serde_json::Value>(bytes) {
        Ok(serde_json::Value::Null) => Ok(JsonKind::Null),
        Ok(serde_json::Value::Bool(_)) => Ok(JsonKind::Bool),
        Ok(serde_json::Value::Number(_)) => Ok(JsonKind::Number),
        Ok(serde_json::Value::String(_)) => Ok(JsonKind::String),
        Ok(serde_json::Value::Array(_)) => Ok(JsonKind::Array),
        Ok(serde_json::Value::Object(_)) => Ok(JsonKind::Object),
        Err(err) => Err(err.to_string()),
    }
}

/// What a safetensors header parse decides: a JSON error is reported as
/// such, a value other than an object as an unsupported header carrying the
/// length prefix.
pub open spec fn header_verdict_ok(parsed: std::result::Result<JsonKind, Seq<char>>) -> bool {
    parsed == Ok::<JsonKind, Seq<char>>(JsonKind::Object)
}

/// Decides on a parsed safetensors header: `parsed` is the outcome of parsing
/// the header bytes as JSON.
pub fn safetensors_header_verdict(
    path: &str,
    expected: &str,
    prefix: &[u8],
    parsed: std::result::Result<JsonKind, String>,
) -> (r: Result<()>)
    ensures
        r is Ok <==> parsed == Ok::<JsonKind, String>(JsonKind::Object),
        parsed matches Err(e) ==> (r matches Err(EngineError::Json(m)) && m@ == e@),
        parsed matches Ok(k) && k != JsonKind::Object ==> is_header_error(r, path@, expected@, prefix@),
{
    match parsed {
        Err(e) => Err(EngineError::Json(e)),
        Ok(JsonKind::Object) => Ok(()),
        Ok(_) => Err(EngineError::UnsupportedArtifactHeader {
            path: path.to_string(),
            expected: expected.to_string(),
            actual: vstd::slice::slice_to_vec(prefix),
        }),
    }
}

/// Checks the JSON header of a safetensors file: `header` holds the bytes
/// after the length prefix `prefix`, as many as the prefix gives.
pub fn check_safetensors_header(path: &str, expected: &str, prefix: &[u8], header: &[u8]) -> (r: Result<()>)
    ensures
        r is Ok <==> header_verdict_ok(json_parse_kind(header@)),
        json_parse_kind(header@) matches Err(e) ==> (r matches Err(EngineError::Json(m)) && m@ == e),
        json_parse_kind(header@) matches Ok(k) && k != JsonKind::Object ==> is_header_error(r, path@, expected@, prefix@),
{
    let parsed = parse_json_kind(header);
    safetensors_header_verdict(path, expected, prefix, parsed)
}

/// The check the payload file of an artifact gets before it is used.
#[derive(Clone, Copy, Debug, PartialEq, Eq, Structural)]
pub enum HeaderCheck {
    Nothing,
    GgufMagic,
    Safetensors,
}

/// Which check the payload `payload` of an artifact of `format` gets: GGUF
/// files their magic, safetensors formats their header; TensorRT-LLM and
/// stable-diffusion payloads by their extension; the rest none.
pub open spec fn header_check_for(format: ArtifactFormat, payload: Seq<char>) -> HeaderCheck {
    let ext = extension_of(file_name_of(payload));
    match format {
        ArtifactFormat::Gguf => HeaderCheck::GgufMagic,
        ArtifactFormat::MlxSafetensors | ArtifactFormat::VllmSafetensors
        | ArtifactFormat::TransformersSafetensors | ArtifactFormat::AceStepSafetensors
        | ArtifactFormat::ChatterboxSafetensors => HeaderCheck::Safetensors,
        ArtifactFormat::TensorRtLlmCheckpoint => if ext == Some("safetensors"@) {
            HeaderCheck::Safetensors
        } else {
            HeaderCheck::Nothing
        },
        ArtifactFormat::StableDiffusionCheckpoint => if ext == Some("safetensors"@) {
            HeaderCheck::Safetensors
        } else if ext == Some("gguf"@) {
            HeaderCheck::GgufMagic
        } else {
            HeaderCheck::Nothing
        },
        _ => HeaderCheck::Nothing,
    }
}

/// Which check the payload of an artifact of `format` gets.
pub fn artifact_header_check(format: ArtifactFormat, payload: &str) -> (r: HeaderCheck)
    ensures
        r == header_check_for(format, payload@),
{
    proof {
        reveal_strlit("safetensors");
        reveal_strlit("gguf");
    }
    match format {
        ArtifactFormat::Gguf => HeaderCheck::GgufMagic,
        ArtifactFormat::MlxSafetensors | ArtifactFormat::VllmSafetensors
        | ArtifactFormat::TransformersSafetensors | ArtifactFormat::AceStepSafetensors
        | ArtifactFormat::ChatterboxSafetensors => HeaderCheck::Safetensors,
        ArtifactFormat::TensorRtLlmCheckpoint | ArtifactFormat::StableDiffusionCheckpoint => {
            let ext = file_extension(payload);
            let is_safetensors = match &ext {
                Some(e) => str_eq(e.as_str(), "safetensors"),
                None => false,
            };
            let is_gguf = match &ext {
                Some(e) => str_eq(e.as_str(), "gguf"),
                None => false,
            };
            if is_safetensors {
                HeaderCheck::Safetensors
            } else if is_gguf && format == ArtifactFormat::StableDiffusionCheckpoint {
                HeaderCheck::GgufMagic
            } else {
                HeaderCheck::Nothing
            }
        },
        _ => HeaderCheck::Nothing,
    }
}

} // verus!
