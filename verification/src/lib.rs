//! Verified core of the mayhem inference engine: request and configuration
//! validation, artifact descriptions, and the bounded parsers and state
//! machines that the model backends share.

pub mod artifact;
pub mod cancel;
pub mod config;
pub mod cuda;
pub mod data_url;
pub mod digest;
pub mod error;
pub mod header;
pub mod http;
pub mod json;
pub mod llama;
pub mod media;
pub mod needle;
pub mod payload;
pub mod prefix_cache;
pub mod request;
pub mod speech;
pub mod stable_diffusion;
pub mod stop_stream;
pub mod stream_call;
pub mod text;
pub mod tool_schema;
pub mod tools;
pub mod types;
pub mod vllm;
pub mod worker;
pub mod worker_env;
pub mod workflow;

use vstd::prelude::*;

verus! {

/// Name under which this crate publishes itself.
pub const CRATE_NAME: &'static str = "mayhem-engine";

/// Default context window, in tokens.
pub const DEFAULT_CONTEXT_SIZE: u32 = 2048;

/// Default logical batch size, in tokens.
pub const DEFAULT_BATCH_SIZE: u32 = 512;

/// Default physical batch size, in tokens.
pub const DEFAULT_UBATCH_SIZE: u32 = 512;

/// Seed used when a request does not pin one.
pub const DEFAULT_SEED: u32 = 0x4d415948;

/// Marker that multimodal prompts use where a media item is spliced in.
pub const MTMD_MEDIA_MARKER: &'static str = "<__media__>";

} // verus!
