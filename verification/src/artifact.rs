//! Model artifacts: the formats a model may come in, their magic bytes and
//! labels, and the digest that may pin an artifact.
use vstd::prelude::*;

verus! {

/// On-disk layout that a model artifact is expected to have.
#[derive(Clone, Copy, Debug, PartialEq, Eq, Structural)]
pub enum ArtifactFormat {
    Gguf,
    MlxSafetensors,
    TensorRtLlmCheckpoint,
    VllmSafetensors,
    TransformersSafetensors,
    AceStepSafetensors,
    ChatterboxSafetensors,
    ComfyUiRuntime,
    StableDiffusionCheckpoint,
    WhisperGgml,
    PiperVoice,
    PiperConfig,
}

/// The leading bytes a file of this format must start with (empty: none checked).
pub open spec fn format_magic(format: ArtifactFormat) -> Seq<u8> {
    match format {
        ArtifactFormat::Gguf => seq![71u8, 71u8, 85u8, 70u8],
        _ => Seq::empty(),
    }
}

/// Human-readable name of a format.
pub open spec fn format_label(format: ArtifactFormat) -> Seq<char> {
    match format {
        ArtifactFormat::Gguf => "GGUF"@,
        ArtifactFormat::MlxSafetensors => "MLX safetensors"@,
        ArtifactFormat::TensorRtLlmCheckpoint => "TensorRT-LLM checkpoint"@,
        ArtifactFormat::VllmSafetensors => "vLLM safetensors"@,
        ArtifactFormat::TransformersSafetensors => "Transformers safetensors"@,
        ArtifactFormat::AceStepSafetensors => "ACE-Step safetensors"@,
        ArtifactFormat::ChatterboxSafetensors => "Chatterbox safetensors"@,
        ArtifactFormat::ComfyUiRuntime => "ComfyUI runtime"@,
        ArtifactFormat::StableDiffusionCheckpoint => "stable-diffusion checkpoint"@,
        ArtifactFormat::WhisperGgml => "whisper.cpp ggml model"@,
        ArtifactFormat::PiperVoice => "Piper voice"@,
        ArtifactFormat::PiperConfig => "Piper config"@,
    }
}

impl ArtifactFormat {
    /// Magic bytes a file of this format starts with ("GGUF" for GGUF, none otherwise).
    pub fn magic(&self) -> (m: &'static [u8])
        ensures
            m@ == format_magic(*self),
    {
        match self {
            ArtifactFormat::Gguf => {
                let m: &'static [u8] = &[71u8, 71u8, 85u8, 70u8];
                m
            },
            _ => {
                let m: &'static [u8] = &[];
                assert(m@ =~= Seq::<u8>::empty());
                m
            },
        }
    }

    /// Human-readable name of the format.
    pub fn label(&self) -> (l: &'static str)
        ensures
            l@ == format_label(*self),
    {
        match self {
            ArtifactFormat::Gguf => "GGUF",
            ArtifactFormat::MlxSafetensors => "MLX safetensors",
            ArtifactFormat::TensorRtLlmCheckpoint => "TensorRT-LLM checkpoint",
            ArtifactFormat::VllmSafetensors => "vLLM safetensors",
            ArtifactFormat::TransformersSafetensors => "Transformers safetensors",
            ArtifactFormat::AceStepSafetensors => "ACE-Step safetensors",
            ArtifactFormat::ChatterboxSafetensors => "Chatterbox safetensors",
            ArtifactFormat::ComfyUiRuntime => "ComfyUI runtime",
            ArtifactFormat::StableDiffusionCheckpoint => "stable-diffusion checkpoint",
            ArtifactFormat::WhisperGgml => "whisper.cpp ggml model",
            ArtifactFormat::PiperVoice => "Piper voice",
            ArtifactFormat::PiperConfig => "Piper config",
        }
    }
}

/// A model file or directory, its format, and optionally its expected digest.
///
/// Paths are held as their text.
#[derive(Debug, PartialEq, Eq)]
pub struct ModelArtifact {
    pub path: String,
    pub format: ArtifactFormat,
    pub sha256: Option<String>,
    pub sha256_path: Option<String>,
}

/// Views of an optional string.
pub open spec fn opt_view(o: Option<String>) -> Option<Seq<char>> {
    match o {
        Some(s) => Some(s@),
        None => None,
    }
}

/// Clones an optional string, keeping its view.
pub fn clone_opt_string(o: &Option<String>) -> (r: Option<String>)
    ensures
        opt_view(r) == opt_view(*o),
{
    match o {
        Some(s) => Some(s.clone()),
        None => None,
    }
}

impl ModelArtifact {
    /// The artifact at `path` in `format`, with no digest pinned.
    pub open spec fn is_plain(self, path: Seq<char>, format: ArtifactFormat) -> bool {
        &&& self.path@ == path
        &&& self.format == format
        &&& self.sha256 is None
        &&& self.sha256_path is None
    }

    /// Field-wise equality of views.
    pub open spec fn same_as(self, other: ModelArtifact) -> bool {
        &&& self.path@ == other.path@
        &&& self.format == other.format
        &&& opt_view(self.sha256) == opt_view(other.sha256)
        &&& opt_view(self.sha256_path) == opt_view(other.sha256_path)
    }

    fn plain(path: &str, format: ArtifactFormat) -> (a: Self)
        ensures
            a.is_plain(path@, format),
    {
        ModelArtifact { path: path.to_owned(), format, sha256: None, sha256_path: None }
    }

    pub fn gguf(path: &str) -> (a: Self)
        ensures
            a.is_plain(path@, ArtifactFormat::Gguf),
    {
        Self::plain(path, ArtifactFormat::Gguf)
    }

    pub fn mlx_safetensors(path: &str) -> (a: Self)
        ensures
            a.is_plain(path@, ArtifactFormat::MlxSafetensors),
    {
        Self::plain(path, ArtifactFormat::MlxSafetensors)
    }

    pub fn trt_llm_checkpoint(path: &str) -> (a: Self)
        ensures
            a.is_plain(path@, ArtifactFormat::TensorRtLlmCheckpoint),
    {
        Self::plain(path, ArtifactFormat::TensorRtLlmCheckpoint)
    }

    pub fn vllm_safetensors(path: &str) -> (a: Self)
        ensures
            a.is_plain(path@, ArtifactFormat::VllmSafetensors),
    {
        Self::plain(path, ArtifactFormat::VllmSafetensors)
    }

    pub fn transformers_safetensors(path: &str) -> (a: Self)
        ensures
            a.is_plain(path@, ArtifactFormat::TransformersSafetensors),
    {
        Self::plain(path, ArtifactFormat::TransformersSafetensors)
    }

    pub fn ace_step_safetensors(path: &str) -> (a: Self)
        ensures
            a.is_plain(path@, ArtifactFormat::AceStepSafetensors),
    {
        Self::plain(path, ArtifactFormat::AceStepSafetensors)
    }

    pub fn chatterbox_safetensors(path: &str) -> (a: Self)
        ensures
            a.is_plain(path@, ArtifactFormat::ChatterboxSafetensors),
    {
        Self::plain(path, ArtifactFormat::ChatterboxSafetensors)
    }

    pub fn comfyui_runtime(path: &str) -> (a: Self)
        ensures
            a.is_plain(path@, ArtifactFormat::ComfyUiRuntime),
    {
        Self::plain(path, ArtifactFormat::ComfyUiRuntime)
    }

    pub fn stable_diffusion_checkpoint(path: &str) -> (a: Self)
        ensures
            a.is_plain(path@, ArtifactFormat::StableDiffusionCheckpoint),
    {
        Self::plain(path, ArtifactFormat::StableDiffusionCheckpoint)
    }

    pub fn whisper_ggml(path: &str) -> (a: Self)
        ensures
            a.is_plain(path@, ArtifactFormat::WhisperGgml),
    {
        Self::plain(path, ArtifactFormat::WhisperGgml)
    }

    pub fn piper_voice(path: &str) -> (a: Self)
        ensures
            a.is_plain(path@, ArtifactFormat::PiperVoice),
    {
        Self::plain(path, ArtifactFormat::PiperVoice)
    }

    pub fn piper_config(path: &str) -> (a: Self)
        ensures
            a.is_plain(path@, ArtifactFormat::PiperConfig),
    {
        Self::plain(path, ArtifactFormat::PiperConfig)
    }

    /// Pins the expected SHA-256 digest; every other field is kept.
    pub fn with_sha256(self, sha256: &str) -> (a: Self)
        ensures
            a.path@ == self.path@,
            a.format == self.format,
            opt_view(a.sha256) == Some(sha256@),
            opt_view(a.sha256_path) == opt_view(self.sha256_path),
    {
        let mut a = self;
        a.sha256 = Some(sha256.to_owned());
        a
    }

    /// Names the file whose digest is checked; every other field is kept.
    pub fn with_sha256_path(self, path: &str) -> (a: Self)
        ensures
            a.path@ == self.path@,
            a.format == self.format,
            opt_view(a.sha256) == opt_view(self.sha256),
            opt_view(a.sha256_path) == Some(path@),
    {
        let mut a = self;
        a.sha256_path = Some(path.to_owned());
        a
    }
}

impl Clone for ModelArtifact {
    fn clone(&self) -> (r: Self)
        ensures
            r.same_as(*self),
    {
        ModelArtifact {
            path: self.path.clone(),
            format: self.format,
            sha256: clone_opt_string(&self.sha256),
            sha256_path: clone_opt_string(&self.sha256_path),
        }
    }
}

} // verus!
