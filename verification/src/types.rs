//! Requests, outputs and sinks that the backends exchange with callers.
use vstd::prelude::*;

use crate::artifact::ModelArtifact;
use crate::config::concat_str;
use crate::error::{is_error_of, EngineError, MessageKind, Result};
use crate::text::{is_ascii_alnum, is_blank, is_blank_seq};

verus! {

/// What a backend reports once a model is loaded.
#[derive(Clone, Debug, PartialEq, Eq)]
pub struct LoadedModelInfo {
    pub backend: String,
    pub artifact: ModelArtifact,
    pub ctx_size: u32,
    pub n_ctx_train: u32,
    pub n_vocab: i32,
}

/// The token ids of a tokenized text.
#[derive(Clone, Debug, PartialEq, Eq)]
pub struct Tokenization {
    pub token_ids: Vec<i32>,
}

impl Tokenization {
    pub fn len(&self) -> (r: usize)
        ensures
            r == self.token_ids@.len(),
    {
        self.token_ids.len()
    }

    pub fn is_empty(&self) -> (r: bool)
        ensures
            r == (self.token_ids@.len() == 0),
    {
        self.token_ids.len() == 0
    }
}

/// One generated token and its text.
#[derive(Clone, Debug, PartialEq, Eq)]
pub struct TokenChunk {
    pub index: u32,
    pub token_id: i32,
    pub text: String,
}

/// One piece of a binary artifact that a backend streams out.
#[derive(Clone, Debug, PartialEq, Eq)]
pub struct ArtifactChunk {
    pub artifact_id: String,
    pub index: u32,
    pub content_type: String,
    pub bytes: Vec<u8>,
    pub final_chunk: bool,
}

/// Token counts of one request.
#[derive(Clone, Copy, Debug, Default, PartialEq, Eq, Structural)]
pub struct UsageCounters {
    pub prompt_tokens: u32,
    pub completion_tokens: u32,
    pub total_tokens: u32,
    pub reasoning_tokens: u32,
    pub vision_tokens: u32,
    pub audio_tokens: u32,
}

/// `a + b`, or `u32::MAX` where it does not fit.
pub open spec fn saturating_sum(a: u32, b: u32) -> u32 {
    if a + b > u32::MAX {
        u32::MAX
    } else {
        (a + b) as u32
    }
}

impl UsageCounters {
    /// Counters of a text request: the total saturates at `u32::MAX`.
    pub fn new(prompt_tokens: u32, completion_tokens: u32) -> (r: Self)
        ensures
            r == (UsageCounters {
                prompt_tokens,
                completion_tokens,
                total_tokens: saturating_sum(prompt_tokens, completion_tokens),
                reasoning_tokens: 0,
                vision_tokens: 0,
                audio_tokens: 0,
            }),
    {
        UsageCounters {
            prompt_tokens,
            completion_tokens,
            total_tokens: prompt_tokens.saturating_add(completion_tokens),
            reasoning_tokens: 0,
            vision_tokens: 0,
            audio_tokens: 0,
        }
    }
}

/// Why generation ended.
#[derive(Clone, Copy, Debug, PartialEq, Eq, Structural)]
pub enum FinishReason {
    Stop,
    Length,
}

pub open spec fn finish_reason_text(r: FinishReason) -> Seq<char> {
    match r {
        FinishReason::Stop => "stop"@,
        FinishReason::Length => "length"@,
    }
}

impl FinishReason {
    /// The reason as it is written out: `stop` or `length`.
    pub fn as_str(&self) -> (r: &'static str)
        ensures
            r@ == finish_reason_text(*self),
    {
        match self {
            FinishReason::Stop => "stop",
            FinishReason::Length => "length",
        }
    }
}

/// The text of a finished generation.
#[derive(Clone, Debug, PartialEq, Eq)]
pub struct GenerateOutput {
    pub text: String,
    pub usage: UsageCounters,
    pub finish_reason: FinishReason,
}

/// What an image request produced.
#[derive(Clone, Copy, Debug, PartialEq, Eq, Structural)]
pub struct ImageGenerationOutput {
    pub image_count: u32,
    pub steps: u32,
}

/// Texts to embed, and optionally the dimension to truncate to.
#[derive(Clone, Debug, PartialEq, Eq)]
pub struct EmbeddingRequest {
    pub inputs: Vec<String>,
    pub dimensions: Option<usize>,
}

impl EmbeddingRequest {
    /// A request for one text.
    pub fn new(input: &str) -> (r: Self)
        ensures
            r.inputs@.len() == 1,
            r.inputs@[0]@ == input@,
            r.dimensions is None,
    {
        let mut inputs = Vec::new();
        inputs.push(input.to_owned());
        EmbeddingRequest { inputs, dimensions: None }
    }

    /// A request for several texts, in order.
    pub fn many(inputs: Vec<String>) -> (r: Self)
        ensures
            r.inputs@ == inputs@,
            r.dimensions is None,
    {
        EmbeddingRequest { inputs, dimensions: None }
    }

    pub fn with_dimensions(self, dimensions: usize) -> (r: Self)
        ensures
            r.inputs@ == self.inputs@,
            r.dimensions == Some(dimensions),
    {
        EmbeddingRequest { inputs: self.inputs, dimensions: Some(dimensions) }
    }
}

/// What a speech request produced.
#[derive(Clone, Copy, Debug, PartialEq, Eq, Structural)]
pub struct SpeechOutput {
    pub audio_seconds: u64,
}

/// Reference audio that a voice-cloning speech request carries.
#[derive(Clone, Debug, PartialEq, Eq)]
pub struct SpeechReferenceAudio {
    pub content_type: Option<String>,
    pub data: Vec<u8>,
}

impl SpeechReferenceAudio {
    /// WAV reference audio.
    pub fn wav(data: Vec<u8>) -> (r: Self)
        ensures
            r.content_type matches Some(t) && t@ == "audio/wav"@,
            r.data@ == data@,
    {
        SpeechReferenceAudio { content_type: Some("audio/wav".to_owned()), data }
    }
}

/// Audio to transcribe.
#[derive(Clone, Debug, PartialEq, Eq)]
pub struct AudioTranscriptionRequest {
    pub audio: Vec<u8>,
    pub content_type: Option<String>,
    pub language: Option<String>,
    pub prompt: Option<String>,
}

/// What a video, audio or music request produced.
#[derive(Clone, Copy, Debug, Default, PartialEq, Eq, Structural)]
pub struct MediaGenerationOutput {
    pub duration_seconds: u64,
    pub frame_count: u64,
    pub step_count: u64,
}

/// Receives each generated token as it is produced.
pub trait TokenSink {
    fn on_token(&mut self, chunk: TokenChunk) -> Result<()>;
}

/// A sink that drops every token.
#[derive(Debug, Default)]
pub struct NoopTokenSink;

impl TokenSink for NoopTokenSink {
    fn on_token(&mut self, chunk: TokenChunk) -> Result<()> {
        Ok(())
    }
}

/// Receives each chunk of a generated artifact.
pub trait ArtifactSink {
    fn on_artifact_chunk(&mut self, chunk: ArtifactChunk) -> Result<()>;
}

/// A sink that drops every artifact chunk.
#[derive(Debug, Default)]
pub struct NoopArtifactSink;

impl ArtifactSink for NoopArtifactSink {
    fn on_artifact_chunk(&mut self, chunk: ArtifactChunk) -> Result<()> {
        Ok(())
    }
}

} // verus!
