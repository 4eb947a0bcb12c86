//! The engine's errors and the messages they read.
use vstd::prelude::*;

use crate::text::{decimal, u64_to_decimal};

verus! {

/// Every failure the engine reports.
#[derive(Debug, PartialEq, Eq)]
pub enum EngineError {
    ModelPathMissing(String),
    UnsupportedArtifactHeader { path: String, expected: String, actual: Vec<u8> },
    ArtifactHashMismatch { path: String, expected: String, actual: String },
    InvalidConfig(String),
    InvalidRequest(String),
    InvalidOutput(String),
    Cancelled,
    NotLoaded,
    PromptTooLong { prompt_tokens: usize, ctx_size: u32 },
    Mlx(String),
    TrtLlm(String),
    Vllm(String),
    TransformersAsr(String),
    AceStep(String),
    Chatterbox(String),
    ComfyUi(String),
    Needle(String),
    Sulphur(String),
    StableDiffusionCpp(String),
    WhisperCpp(String),
    Piper(String),
    Io(String),
    Json(String),
}

/// Result type of the engine's fallible operations.
pub type Result<T> = std::result::Result<T, EngineError>;

/// An `InvalidConfig` error whose message reads `text`.
pub open spec fn is_invalid_config<T>(r: Result<T>, text: Seq<char>) -> bool {
    r matches Err(EngineError::InvalidConfig(m)) && m@ == text
}

/// Builds an `InvalidConfig` error from a message.
pub fn invalid_config(text: &str) -> (e: EngineError)
    ensures
        e matches EngineError::InvalidConfig(m) && m@ == text@,
{
    EngineError::InvalidConfig(text.to_owned())
}

} // verus!

verus! {

/// A `Vllm` error whose message reads `text`.
pub open spec fn is_vllm_error<T>(r: Result<T>, text: Seq<char>) -> bool {
    r matches Err(EngineError::Vllm(m)) && m@ == text
}

/// Which variant carries a message: configuration errors or backend errors.
pub enum MessageKind {
    Config,
    Vllm,
    Request,
    Output,
    Needle,
    StableDiffusionCpp,
}

/// `r` is the error of kind `kind` whose message reads `text`.
pub open spec fn is_error_of<T>(r: Result<T>, kind: MessageKind, text: Seq<char>) -> bool {
    match kind {
        MessageKind::Config => r matches Err(EngineError::InvalidConfig(m)) && m@ == text,
        MessageKind::Vllm => r matches Err(EngineError::Vllm(m)) && m@ == text,
        MessageKind::Request => r matches Err(EngineError::InvalidRequest(m)) && m@ == text,
        MessageKind::Output => r matches Err(EngineError::InvalidOutput(m)) && m@ == text,
        MessageKind::Needle => r matches Err(EngineError::Needle(m)) && m@ == text,
        MessageKind::StableDiffusionCpp => r matches Err(EngineError::StableDiffusionCpp(m))
            && m@ == text,
    }
}

/// Builds a `Vllm` error from a message.
pub fn vllm_error(text: String) -> (e: EngineError)
    ensures
        e matches EngineError::Vllm(m) && m@ == text@,
{
    EngineError::Vllm(text)
}

} // verus!

verus! {

/// `Debug` form of a byte list: `[1, 2, 3]`.
pub open spec fn bytes_debug(b: Seq<u8>) -> Seq<char> {
    "["@ + bytes_joined(b) + "]"@
}

/// The decimal bytes joined by `, `.
pub open spec fn bytes_joined(b: Seq<u8>) -> Seq<char>
    decreases b.len(),
{
    if b.len() == 0 {
        Seq::empty()
    } else if b.len() == 1 {
        decimal(b[0] as nat)
    } else {
        bytes_joined(b.drop_last()) + ", "@ + decimal(b.last() as nat)
    }
}

/// What an error says when it is displayed.
pub open spec fn error_text(e: EngineError) -> Seq<char> {
    match e {
        EngineError::ModelPathMissing(p) => "model artifact does not exist: "@ + p@,
        EngineError::UnsupportedArtifactHeader { path, expected, actual } => "unsupported artifact format for "@
            + path@ + ": expected "@ + expected@ + ", got "@ + bytes_debug(actual@),
        EngineError::ArtifactHashMismatch { path, expected, actual } => "artifact hash mismatch for "@
            + path@ + ": expected "@ + expected@ + ", got "@ + actual@,
        EngineError::InvalidConfig(m) => "invalid engine config: "@ + m@,
        EngineError::InvalidRequest(m) => "invalid engine request: "@ + m@,
        EngineError::InvalidOutput(m) => "invalid model output: "@ + m@,
        EngineError::Cancelled => "engine request cancelled"@,
        EngineError::NotLoaded => "model has not been loaded"@,
        EngineError::PromptTooLong { prompt_tokens, ctx_size } => "prompt has "@ + decimal(
            prompt_tokens as nat,
        ) + " tokens, leaving no room in ctx_size="@ + decimal(ctx_size as nat),
        EngineError::Mlx(m) => "MLX backend error: "@ + m@,
        EngineError::TrtLlm(m) => "TensorRT-LLM backend error: "@ + m@,
        EngineError::Vllm(m) => "vLLM backend error: "@ + m@,
        EngineError::TransformersAsr(m) => "Transformers ASR backend error: "@ + m@,
        EngineError::AceStep(m) => "ACE-Step backend error: "@ + m@,
        EngineError::Chatterbox(m) => "Chatterbox backend error: "@ + m@,
        EngineError::ComfyUi(m) => "ComfyUI backend error: "@ + m@,
        EngineError::Needle(m) => "Needle backend error: "@ + m@,
        EngineError::Sulphur(m) => "Sulphur backend error: "@ + m@,
        EngineError::StableDiffusionCpp(m) => "stable-diffusion.cpp backend error: "@ + m@,
        EngineError::WhisperCpp(m) => "whisper.cpp backend error: "@ + m@,
        EngineError::Piper(m) => "piper backend error: "@ + m@,
        EngineError::Io(m) => "I/O error: "@ + m@,
        EngineError::Json(m) => "JSON error: "@ + m@,
    }
}

fn prefixed(prefix: &str, text: &str) -> (r: String)
    ensures
        r@ == prefix@ + text@,
{
    let mut r = prefix.to_owned();
    r.append(text);
    r
}

fn bytes_debug_text(b: &Vec<u8>) -> (r: String)
    ensures
        r@ == bytes_debug(b@),
{
    let mut r = "[".to_owned();
    let mut i: usize = 0;
    while i < b.len()
        invariant
            i <= b@.len(),
            r@ == "["@ + bytes_joined(b@.take(i as int)),
        decreases b@.len() - i,
    {
        proof {
            assert(b@.take(i + 1).drop_last() =~= b@.take(i as int));
            assert(b@.take(i + 1).last() == b@[i as int]);
        }
        if i > 0 {
            r.append(", ");
        }
        r.append(u64_to_decimal(b[i] as u64).as_str());
        i = i + 1;
    }
    assert(b@.take(b@.len() as int) =~= b@);
    r.append("]");
    r
}

impl EngineError {
    /// The error's message, as it is displayed.
    pub fn message(&self) -> (r: String)
        ensures
            r@ == error_text(*self),
    {
        match self {
            EngineError::ModelPathMissing(p) => prefixed("model artifact does not exist: ", p.as_str()),
            EngineError::UnsupportedArtifactHeader { path, expected, actual } => {
                let mut r = prefixed("unsupported artifact format for ", path.as_str());
                r.append(": expected ");
                r.append(expected.as_str());
                r.append(", got ");
                r.append(bytes_debug_text(actual).as_str());
                r
            },
            EngineError::ArtifactHashMismatch { path, expected, actual } => {
                let mut r = prefixed("artifact hash mismatch for ", path.as_str());
                r.append(": expected ");
                r.append(expected.as_str());
                r.append(", got ");
                r.append(actual.as_str());
                r
            },
            EngineError::InvalidConfig(m) => prefixed("invalid engine config: ", m.as_str()),
            EngineError::InvalidRequest(m) => prefixed("invalid engine request: ", m.as_str()),
            EngineError::InvalidOutput(m) => prefixed("invalid model output: ", m.as_str()),
            EngineError::Cancelled => "engine request cancelled".to_owned(),
            EngineError::NotLoaded => "model has not been loaded".to_owned(),
            EngineError::PromptTooLong { prompt_tokens, ctx_size } => {
                let mut r = prefixed("prompt has ", u64_to_decimal(*prompt_tokens as u64).as_str());
                r.append(" tokens, leaving no room in ctx_size=");
                r.append(u64_to_decimal(*ctx_size as u64).as_str());
                r
            },
            EngineError::Mlx(m) => prefixed("MLX backend error: ", m.as_str()),
            EngineError::TrtLlm(m) => prefixed("TensorRT-LLM backend error: ", m.as_str()),
            EngineError::Vllm(m) => prefixed("vLLM backend error: ", m.as_str()),
            EngineError::TransformersAsr(m) => prefixed(
                "Transformers ASR backend error: ",
                m.as_str(),
            ),
            EngineError::AceStep(m) => prefixed("ACE-Step backend error: ", m.as_str()),
            EngineError::Chatterbox(m) => prefixed("Chatterbox backend error: ", m.as_str()),
            EngineError::ComfyUi(m) => prefixed("ComfyUI backend error: ", m.as_str()),
            EngineError::Needle(m) => prefixed("Needle backend error: ", m.as_str()),
            EngineError::Sulphur(m) => prefixed("Sulphur backend error: ", m.as_str()),
            EngineError::StableDiffusionCpp(m) => prefixed(
                "stable-diffusion.cpp backend error: ",
                m.as_str(),
            ),
            EngineError::WhisperCpp(m) => prefixed("whisper.cpp backend error: ", m.as_str()),
            EngineError::Piper(m) => prefixed("piper backend error: ", m.as_str()),
            EngineError::Io(m) => prefixed("I/O error: ", m.as_str()),
            EngineError::Json(m) => prefixed("JSON error: ", m.as_str()),
        }
    }
}

} // verus!
