//! Load-time configuration of a model and its validation.
use vstd::prelude::*;

use crate::artifact::{ArtifactFormat, ModelArtifact};
use crate::error::{invalid_config, is_invalid_config, EngineError, Result};
use crate::text::{is_ascii_digit, is_ascii_lower, str_eq};
use crate::{DEFAULT_BATCH_SIZE, DEFAULT_CONTEXT_SIZE, DEFAULT_UBATCH_SIZE};

verus! {

/// Offsets that the stable-diffusion.cpp backend applies to image requests.
#[derive(Clone, Copy, Debug, PartialEq, Eq, Structural)]
pub struct StableDiffusionCppConfig {
    pub separate_diffusion_model: bool,
    pub guidance_scale_offset: i32,
    pub steps_offset: i32,
}

/// Runtime semantics of an MLX model.
#[derive(Clone, Copy, Debug, PartialEq, Eq, Structural)]
pub struct MlxRuntimeConfig {
    pub multimodal: bool,
}

/// How vLLM generation is spread over worker processes.
#[derive(Clone, Copy, Debug, PartialEq, Eq, Structural)]
pub enum VllmGenerationTopology {
    SharedWorker,
    IsolatedWorkers,
}

impl Default for VllmGenerationTopology {
    fn default() -> (t: Self)
        ensures
            t == VllmGenerationTopology::SharedWorker,
    {
        VllmGenerationTopology::SharedWorker
    }
}

impl Default for StableDiffusionCppConfig {
    fn default() -> (c: Self)
        ensures
            c == (StableDiffusionCppConfig {
                separate_diffusion_model: false,
                guidance_scale_offset: 0,
                steps_offset: 0,
            }),
    {
        StableDiffusionCppConfig {
            separate_diffusion_model: false,
            guidance_scale_offset: 0,
            steps_offset: 0,
        }
    }
}

impl Default for MlxRuntimeConfig {
    fn default() -> (c: Self)
        ensures
            c == (MlxRuntimeConfig { multimodal: false }),
    {
        MlxRuntimeConfig { multimodal: false }
    }
}

impl MlxRuntimeConfig {
    /// Whether this is the default runtime configuration.
    pub fn is_default(&self) -> (b: bool)
        ensures
            b == !self.multimodal,
    {
        !self.multimodal
    }
}

/// The first error that stable-diffusion.cpp offsets `c` raise, if any.
pub open spec fn sd_config_error(c: StableDiffusionCppConfig) -> Option<Seq<char>> {
    if !(-16 <= c.guidance_scale_offset <= 16) {
        Some("stable-diffusion.cpp guidance_scale_offset must be between -16 and 16"@)
    } else if !(-16 <= c.steps_offset <= 16) {
        Some("stable-diffusion.cpp steps_offset must be between -16 and 16"@)
    } else {
        None
    }
}

impl StableDiffusionCppConfig {
    /// Whether this is the default configuration.
    pub fn is_default(&self) -> (b: bool)
        ensures
            b == (!self.separate_diffusion_model && self.guidance_scale_offset == 0
                && self.steps_offset == 0),
    {
        !self.separate_diffusion_model && self.guidance_scale_offset == 0 && self.steps_offset
            == 0
    }

    /// Both offsets must lie in -16..=16.
    pub fn validate(&self) -> (r: Result<()>)
        ensures
            match sd_config_error(*self) {
                None => r is Ok,
                Some(text) => is_invalid_config(r, text),
            },
    {
        if !(-16 <= self.guidance_scale_offset && self.guidance_scale_offset <= 16) {
            return Err(
                invalid_config(
                    "stable-diffusion.cpp guidance_scale_offset must be between -16 and 16",
                ),
            );
        }
        if !(-16 <= self.steps_offset && self.steps_offset <= 16) {
            return Err(
                invalid_config("stable-diffusion.cpp steps_offset must be between -16 and 16"),
            );
        }
        Ok(())
    }
}

/// A model file that a ComfyUI runtime links into its model tree.
#[derive(Clone, Debug, PartialEq, Eq)]
pub struct ComfyUiModelFile {
    pub source: String,
    pub model_subdir: String,
    pub model_path: String,
}

/// A custom node package that a ComfyUI runtime installs.
#[derive(Clone, Debug, PartialEq, Eq)]
pub struct ComfyUiCustomNodePackage {
    pub source: String,
    pub node_dir: String,
}

/// Everything a backend needs to load one model. Paths are held as their text.
#[derive(Clone, Debug, PartialEq, Eq)]
pub struct LoadConfig {
    pub artifact: ModelArtifact,
    pub comfyui_model_files: Vec<ComfyUiModelFile>,
    pub comfyui_custom_nodes: Vec<ComfyUiCustomNodePackage>,
    pub vision_projector: Option<ModelArtifact>,
    pub prompt_enhancer_model: Option<ModelArtifact>,
    pub prompt_enhancer_projector: Option<ModelArtifact>,
    pub piper_config: Option<ModelArtifact>,
    pub stable_diffusion_llm: Option<ModelArtifact>,
    pub stable_diffusion_vae: Option<ModelArtifact>,
    pub stable_diffusion_cpp: StableDiffusionCppConfig,
    pub mlx_runtime: MlxRuntimeConfig,
    pub ctx_size: u32,
    pub batch_size: u32,
    pub ubatch_size: u32,
    pub vllm_max_num_seqs: Option<u32>,
    pub vllm_concurrent_generation_capacity: Option<u32>,
    pub vllm_generation_topology: Option<VllmGenerationTopology>,
    pub vllm_worker_address_space_limit_bytes: Option<u64>,
    pub threads: Option<i32>,
    pub gpu_layers: Option<u32>,
    pub trt_engine_dir: Option<String>,
    pub trt_tensor_parallel: Option<u32>,
    pub trt_kv_cache_dtype: Option<String>,
    pub trt_require_engine_dir: bool,
    pub kv_cache_dtype: Option<String>,
    pub kv_cache_bits: Option<u8>,
    pub kv_cache_group_size: Option<u32>,
    pub kv_cache_quantized_start_tokens: Option<u32>,
    pub vllm_tensor_parallel: Option<u32>,
    pub vllm_dtype: Option<String>,
    pub vllm_kv_cache_dtype: Option<String>,
    pub vllm_enforce_eager: Option<bool>,
    pub vllm_compilation_mode: Option<u32>,
    pub vllm_cudagraph_mode: Option<String>,
    pub vllm_linear_backend: Option<String>,
    pub vllm_moe_backend: Option<String>,
    pub vllm_mtp_num_speculative_tokens: Option<u32>,
    pub vllm_gpu_memory_utilization_pct: Option<u32>,
    pub vllm_gpu_memory_utilization_floor_pct: Option<u32>,
    pub backend_cache_dir: Option<String>,
    pub stable_diffusion_backend: Option<String>,
    pub use_mmap: bool,
    pub use_mlock: bool,
    pub memory_limit_bytes: Option<u64>,
}

/// Every field but the artifact holds its default.
pub open spec fn has_default_settings(c: LoadConfig) -> bool {
    &&& c.comfyui_model_files@.len() == 0
    &&& c.comfyui_custom_nodes@.len() == 0
    &&& c.vision_projector is None
    &&& c.prompt_enhancer_model is None
    &&& c.prompt_enhancer_projector is None
    &&& c.piper_config is None
    &&& c.stable_diffusion_llm is None
    &&& c.stable_diffusion_vae is None
    &&& c.stable_diffusion_cpp == (StableDiffusionCppConfig {
        separate_diffusion_model: false,
        guidance_scale_offset: 0,
        steps_offset: 0,
    })
    &&& c.mlx_runtime == (MlxRuntimeConfig { multimodal: false })
    &&& c.ctx_size == DEFAULT_CONTEXT_SIZE
    &&& c.batch_size == DEFAULT_BATCH_SIZE
    &&& c.ubatch_size == DEFAULT_UBATCH_SIZE
    &&& c.vllm_max_num_seqs is None
    &&& c.vllm_concurrent_generation_capacity is None
    &&& c.vllm_generation_topology is None
    &&& c.vllm_worker_address_space_limit_bytes is None
    &&& c.threads is None
    &&& c.gpu_layers is None
    &&& c.trt_engine_dir is None
    &&& c.trt_tensor_parallel is None
    &&& c.trt_kv_cache_dtype is None
    &&& !c.trt_require_engine_dir
    &&& c.kv_cache_dtype is None
    &&& c.kv_cache_bits is None
    &&& c.kv_cache_group_size is None
    &&& c.kv_cache_quantized_start_tokens is None
    &&& c.vllm_tensor_parallel is None
    &&& c.vllm_dtype is None
    &&& c.vllm_kv_cache_dtype is None
    &&& c.vllm_enforce_eager is None
    &&& c.vllm_compilation_mode is None
    &&& c.vllm_cudagraph_mode is None
    &&& c.vllm_linear_backend is None
    &&& c.vllm_moe_backend is None
    &&& c.vllm_mtp_num_speculative_tokens is None
    &&& c.vllm_gpu_memory_utilization_pct is None
    &&& c.vllm_gpu_memory_utilization_floor_pct is None
    &&& c.backend_cache_dir is None
    &&& c.stable_diffusion_backend is None
    &&& c.use_mmap
    &&& !c.use_mlock
    &&& c.memory_limit_bytes is None
}

impl Default for LoadConfig {
    fn default() -> (c: Self)
        ensures
            has_default_settings(c),
            c.artifact.is_plain(Seq::empty(), ArtifactFormat::Gguf),
    {
        proof {
            reveal_strlit("");
            assert(""@ =~= Seq::<char>::empty());
        }
        LoadConfig {
            artifact: ModelArtifact::gguf(""),
            comfyui_model_files: Vec::new(),
            comfyui_custom_nodes: Vec::new(),
            vision_projector: None,
            prompt_enhancer_model: None,
            prompt_enhancer_projector: None,
            piper_config: None,
            stable_diffusion_llm: None,
            stable_diffusion_vae: None,
            stable_diffusion_cpp: StableDiffusionCppConfig::default(),
            mlx_runtime: MlxRuntimeConfig::default(),
            ctx_size: default_context_size(),
            batch_size: default_batch_size(),
            ubatch_size: default_ubatch_size(),
            vllm_max_num_seqs: None,
            vllm_concurrent_generation_capacity: None,
            vllm_generation_topology: None,
            vllm_worker_address_space_limit_bytes: None,
            threads: None,
            gpu_layers: None,
            trt_engine_dir: None,
            trt_tensor_parallel: None,
            trt_kv_cache_dtype: None,
            trt_require_engine_dir: false,
            kv_cache_dtype: None,
            kv_cache_bits: None,
            kv_cache_group_size: None,
            kv_cache_quantized_start_tokens: None,
            vllm_tensor_parallel: None,
            vllm_dtype: None,
            vllm_kv_cache_dtype: None,
            vllm_enforce_eager: None,
            vllm_compilation_mode: None,
            vllm_cudagraph_mode: None,
            vllm_linear_backend: None,
            vllm_moe_backend: None,
            vllm_mtp_num_speculative_tokens: None,
            vllm_gpu_memory_utilization_pct: None,
            vllm_gpu_memory_utilization_floor_pct: None,
            backend_cache_dir: None,
            stable_diffusion_backend: None,
            use_mmap: default_true(),
            use_mlock: false,
            memory_limit_bytes: None,
        }
    }
}

impl LoadConfig {
    fn with_artifact(artifact: ModelArtifact) -> (c: Self)
        ensures
            has_default_settings(c),
            c.artifact == artifact,
    {
        LoadConfig { artifact, ..Self::default() }
    }

    pub fn gguf(path: &str) -> (c: Self)
        ensures
            has_default_settings(c),
            c.artifact.is_plain(path@, ArtifactFormat::Gguf),
    {
        Self::with_artifact(ModelArtifact::gguf(path))
    }

    pub fn mlx_safetensors(path: &str) -> (c: Self)
        ensures
            has_default_settings(c),
            c.artifact.is_plain(path@, ArtifactFormat::MlxSafetensors),
    {
        Self::with_artifact(ModelArtifact::mlx_safetensors(path))
    }

    pub fn trt_llm_checkpoint(path: &str) -> (c: Self)
        ensures
            has_default_settings(c),
            c.artifact.is_plain(path@, ArtifactFormat::TensorRtLlmCheckpoint),
    {
        Self::with_artifact(ModelArtifact::trt_llm_checkpoint(path))
    }

    pub fn vllm_safetensors(path: &str) -> (c: Self)
        ensures
            has_default_settings(c),
            c.artifact.is_plain(path@, ArtifactFormat::VllmSafetensors),
    {
        Self::with_artifact(ModelArtifact::vllm_safetensors(path))
    }

    pub fn transformers_safetensors(path: &str) -> (c: Self)
        ensures
            has_default_settings(c),
            c.artifact.is_plain(path@, ArtifactFormat::TransformersSafetensors),
    {
        Self::with_artifact(ModelArtifact::transformers_safetensors(path))
    }

    pub fn ace_step_safetensors(path: &str) -> (c: Self)
        ensures
            has_default_settings(c),
            c.artifact.is_plain(path@, ArtifactFormat::AceStepSafetensors),
    {
        Self::with_artifact(ModelArtifact::ace_step_safetensors(path))
    }

    pub fn chatterbox_safetensors(path: &str) -> (c: Self)
        ensures
            has_default_settings(c),
            c.artifact.is_plain(path@, ArtifactFormat::ChatterboxSafetensors),
    {
        Self::with_artifact(ModelArtifact::chatterbox_safetensors(path))
    }

    pub fn comfyui_runtime(path: &str) -> (c: Self)
        ensures
            has_default_settings(c),
            c.artifact.is_plain(path@, ArtifactFormat::ComfyUiRuntime),
    {
        Self::with_artifact(ModelArtifact::comfyui_runtime(path))
    }

    pub fn stable_diffusion_checkpoint(path: &str) -> (c: Self)
        ensures
            has_default_settings(c),
            c.artifact.is_plain(path@, ArtifactFormat::StableDiffusionCheckpoint),
    {
        Self::with_artifact(ModelArtifact::stable_diffusion_checkpoint(path))
    }

    pub fn whisper_ggml(path: &str) -> (c: Self)
        ensures
            has_default_settings(c),
            c.artifact.is_plain(path@, ArtifactFormat::WhisperGgml),
    {
        Self::with_artifact(ModelArtifact::whisper_ggml(path))
    }

    pub fn piper_voice(path: &str) -> (c: Self)
        ensures
            has_default_settings(c),
            c.artifact.is_plain(path@, ArtifactFormat::PiperVoice),
    {
        Self::with_artifact(ModelArtifact::piper_voice(path))
    }
}

pub fn default_context_size() -> (n: u32)
    ensures
        n == DEFAULT_CONTEXT_SIZE,
{
    DEFAULT_CONTEXT_SIZE
}

pub fn default_batch_size() -> (n: u32)
    ensures
        n == DEFAULT_BATCH_SIZE,
{
    DEFAULT_BATCH_SIZE
}

pub fn default_ubatch_size() -> (n: u32)
    ensures
        n == DEFAULT_UBATCH_SIZE,
{
    DEFAULT_UBATCH_SIZE
}

pub fn default_true() -> (b: bool)
    ensures
        b,
{
    true
}

} // verus!

verus! {

/// Views of an optional text.
pub open spec fn opt_str_view(o: Option<&str>) -> Option<Seq<char>> {
    match o {
        Some(s) => Some(s@),
        None => None,
    }
}

/// Borrows the text of an optional string.
pub fn opt_as_str(o: &Option<String>) -> (r: Option<&str>)
    ensures
        opt_str_view(r) == crate::artifact::opt_view(*o),
{
    match o {
        Some(s) => Some(s.as_str()),
        None => None,
    }
}

/// Concatenation of two texts.
pub fn concat_str(a: &str, b: &str) -> (r: String)
    ensures
        r@ == a@ + b@,
{
    let mut r = a.to_owned();
    r.append(b);
    r
}

/// vLLM sequence capacity: the configured count, else 1 for isolated workers
/// and the batch size otherwise, never below 1.
pub open spec fn effective_max_num_seqs(c: LoadConfig) -> u32 {
    let fallback = if c.vllm_generation_topology == Some(VllmGenerationTopology::IsolatedWorkers) {
        1u32
    } else {
        c.batch_size
    };
    let n = match c.vllm_max_num_seqs {
        Some(n) => n,
        None => fallback,
    };
    if n < 1 { 1 } else { n }
}

pub fn effective_vllm_max_num_seqs(config: &LoadConfig) -> (n: u32)
    ensures
        n == effective_max_num_seqs(*config),
        n >= 1,
{
    let fallback = if config.vllm_generation_topology == Some(
        VllmGenerationTopology::IsolatedWorkers,
    ) {
        1
    } else {
        config.batch_size
    };
    let n = match config.vllm_max_num_seqs {
        Some(n) => n,
        None => fallback,
    };
    if n < 1 {
        1
    } else {
        n
    }
}

/// A vLLM kernel backend name: a lowercase ASCII letter followed by lowercase
/// ASCII letters, digits and underscores, at most 64 of them. Such a name is
/// ASCII, so its length in characters is its length in bytes.
pub open spec fn kernel_backend_ok(s: Seq<char>) -> bool {
    &&& s.len() <= 64
    &&& s.len() >= 1
    &&& is_ascii_lower(s[0])
    &&& forall|i: int|
        1 <= i < s.len() ==> is_ascii_lower(#[trigger] s[i]) || is_ascii_digit(s[i]) || s[i]
            == '_'
}

pub open spec fn kernel_backend_message(field: Seq<char>) -> Seq<char> {
    field + " must be a lowercase vLLM backend identifier of at most 64 bytes"@
}

/// The error, if any, that one optional kernel backend name raises.
pub open spec fn kernel_backend_error(field: Seq<char>, backend: Option<Seq<char>>) -> Option<
    Seq<char>,
> {
    match backend {
        Some(b) => if kernel_backend_ok(b) {
            None
        } else {
            Some(kernel_backend_message(field))
        },
        None => None,
    }
}

/// Checks one optional vLLM kernel backend name.
pub fn validate_vllm_kernel_backend(field: &str, backend: Option<&str>) -> (r: Result<()>)
    ensures
        match kernel_backend_error(field@, opt_str_view(backend)) {
            None => r is Ok,
            Some(text) => is_invalid_config(r, text),
        },
{
    let b = match backend {
        None => return Ok(()),
        Some(b) => b,
    };
    let mut ok = true;
    let mut count: usize = 0;
    for c in it: b.chars()
        invariant
            it.seq() == b@,
            count == if it.index() <= 65 { it.index() as int } else { 65 },
            ok == ((it.index() >= 1 ==> is_ascii_lower(b@[0])) && (forall|i: int|
                1 <= i < it.index() ==> is_ascii_lower(#[trigger] b@[i]) || is_ascii_digit(
                    b@[i],
                ) || b@[i] == '_')),
    {
        if count == 0 {
            ok = ok && ('a' <= c && c <= 'z');
        } else {
            ok = ok && (('a' <= c && c <= 'z') || ('0' <= c && c <= '9') || c == '_');
        }
        if count < 65 {
            count = count + 1;
        }
    }
    if ok && count >= 1 && count <= 64 {
        Ok(())
    } else {
        Err(
            EngineError::InvalidConfig(
                concat_str(field, " must be a lowercase vLLM backend identifier of at most 64 bytes"),
            ),
        )
    }
}

/// A CUDA graph mode that vLLM accepts.
pub open spec fn cudagraph_mode_ok(m: Seq<char>) -> bool {
    ||| m == "NONE"@
    ||| m == "FULL_DECODE_ONLY"@
    ||| m == "FULL"@
    ||| m == "PIECEWISE"@
    ||| m == "FULL_AND_PIECEWISE"@
}

/// The first error that a vLLM compilation profile raises, if any.
pub open spec fn compilation_config_error(
    enforce_eager: Option<bool>,
    compilation_mode: Option<u32>,
    cudagraph_mode: Option<Seq<char>>,
) -> Option<Seq<char>> {
    if compilation_mode matches Some(m) && m > 3 {
        Some("vllm_compilation_mode must be an integer between 0 and 3"@)
    } else if cudagraph_mode matches Some(g) && !cudagraph_mode_ok(g) {
        Some(
            "vllm_cudagraph_mode must be one of NONE, FULL_DECODE_ONLY, FULL, PIECEWISE, FULL_AND_PIECEWISE"@,
        )
    } else if (enforce_eager is None || enforce_eager == Some(true)) && ((compilation_mode matches Some(
        m,
    ) && m != 0) || (cudagraph_mode matches Some(g) && g != "NONE"@)) {
        Some(
            "enabled vLLM compilation or CUDA graphs require vllm_enforce_eager=false (default is true)"@,
        )
    } else {
        None
    }
}

fn cudagraph_mode_accepted(m: &str) -> (b: bool)
    ensures
        b == cudagraph_mode_ok(m@),
{
    str_eq(m, "NONE") || str_eq(m, "FULL_DECODE_ONLY") || str_eq(m, "FULL") || str_eq(
        m,
        "PIECEWISE",
    ) || str_eq(m, "FULL_AND_PIECEWISE")
}

/// Checks that a vLLM compilation profile is well formed and only enables
/// compilation or CUDA graphs when eager mode is off.
pub fn validate_vllm_compilation_config(
    enforce_eager: Option<bool>,
    compilation_mode: Option<u32>,
    cudagraph_mode: Option<&str>,
) -> (r: Result<()>)
    ensures
        match compilation_config_error(
            enforce_eager,
            compilation_mode,
            opt_str_view(cudagraph_mode),
        ) {
            None => r is Ok,
            Some(text) => is_invalid_config(r, text),
        },
{
    if let Some(m) = compilation_mode {
        if m > 3 {
            return Err(invalid_config("vllm_compilation_mode must be an integer between 0 and 3"));
        }
    }
    if let Some(g) = cudagraph_mode {
        if !cudagraph_mode_accepted(g) {
            return Err(
                invalid_config(
                    "vllm_cudagraph_mode must be one of NONE, FULL_DECODE_ONLY, FULL, PIECEWISE, FULL_AND_PIECEWISE",
                ),
            );
        }
    }
    let eager = match enforce_eager {
        Some(e) => e,
        None => true,
    };
    let compiles = match compilation_mode {
        Some(m) => m != 0,
        None => false,
    };
    let graphs = match cudagraph_mode {
        Some(g) => !str_eq(g, "NONE"),
        None => false,
    };
    if eager && (compiles || graphs) {
        return Err(
            invalid_config(
                "enabled vLLM compilation or CUDA graphs require vllm_enforce_eager=false (default is true)",
            ),
        );
    }
    Ok(())
}

} // verus!

verus! {

/// Largest value of `i64`.
/// Most MTP speculative tokens a vLLM engine may be asked for.
pub const VLLM_MAX_MTP_SPECULATIVE_TOKENS: u32 = 32;

pub const I64_MAX_AS_U64: u64 = 0x7fff_ffff_ffff_ffff;

/// Any vLLM execution property is set, topology included.
pub open spec fn has_vllm_execution_settings(c: LoadConfig) -> bool {
    ||| c.vllm_generation_topology is Some
    ||| c.vllm_enforce_eager is Some
    ||| c.vllm_compilation_mode is Some
    ||| c.vllm_cudagraph_mode is Some
    ||| c.vllm_linear_backend is Some
    ||| c.vllm_moe_backend is Some
    ||| c.vllm_mtp_num_speculative_tokens is Some
}

/// Some but not all of the KV-cache runtime fields are set.
pub open spec fn kv_fields_partial(c: LoadConfig) -> bool {
    let set = seq![
        c.kv_cache_dtype is Some,
        c.kv_cache_bits is Some,
        c.kv_cache_group_size is Some,
        c.kv_cache_quantized_start_tokens is Some,
    ];
    (exists|i: int| 0 <= i < 4 && set[i]) && !(forall|i: int| 0 <= i < 4 ==> set[i])
}

/// The checks that follow the worker-topology checks, in order.
pub open spec fn load_config_later_error(c: LoadConfig) -> Option<Seq<char>> {
    let isolated = c.vllm_generation_topology == Some(VllmGenerationTopology::IsolatedWorkers);
    if c.vllm_worker_address_space_limit_bytes is Some && !isolated {
        Some("vllm_worker_address_space_limit_bytes requires isolated vLLM workers"@)
    } else if has_vllm_execution_settings(c) && c.artifact.format
        != ArtifactFormat::VllmSafetensors {
        Some("vLLM execution properties require a vLLM safetensors artifact"@)
    } else if compilation_config_error(
        c.vllm_enforce_eager,
        c.vllm_compilation_mode,
        crate::artifact::opt_view(c.vllm_cudagraph_mode),
    ) is Some {
        compilation_config_error(
            c.vllm_enforce_eager,
            c.vllm_compilation_mode,
            crate::artifact::opt_view(c.vllm_cudagraph_mode),
        )
    } else if kernel_backend_error(
        "vllm_linear_backend"@,
        crate::artifact::opt_view(c.vllm_linear_backend),
    ) is Some {
        kernel_backend_error("vllm_linear_backend"@, crate::artifact::opt_view(c.vllm_linear_backend))
    } else if kernel_backend_error("vllm_moe_backend"@, crate::artifact::opt_view(c.vllm_moe_backend))
        is Some {
        kernel_backend_error("vllm_moe_backend"@, crate::artifact::opt_view(c.vllm_moe_backend))
    } else if c.vllm_mtp_num_speculative_tokens matches Some(t) && (t == 0 || t > 32) {
        Some("vllm_mtp_num_speculative_tokens must be between 1 and 32"@)
    } else if kv_fields_partial(c) {
        Some(
            "KV-cache runtime configuration must include dtype, bits, group size, and quantized start"@,
        )
    } else if c.kv_cache_bits matches Some(b) && (b == 0 || b > 32) {
        Some("KV-cache bits must be between 1 and 32"@)
    } else if c.kv_cache_group_size == Some(0u32) {
        Some("KV-cache group size must be greater than zero"@)
    } else if c.mlx_runtime.multimodal && c.artifact.format != ArtifactFormat::MlxSafetensors {
        Some("MLX multimodal runtime semantics require an MLX safetensors artifact"@)
    } else {
        None
    }
}

/// The first rule of a load configuration that `c` breaks, if any.
pub open spec fn load_config_error(c: LoadConfig) -> Option<Seq<char>> {
    let isolated = c.vllm_generation_topology == Some(VllmGenerationTopology::IsolatedWorkers);
    if c.artifact.path@.len() == 0 {
        Some("artifact path cannot be empty"@)
    } else if c.ctx_size == 0 {
        Some("ctx_size must be greater than zero"@)
    } else if c.batch_size == 0 {
        Some("batch_size must be greater than zero"@)
    } else if c.ubatch_size == 0 {
        Some("ubatch_size must be greater than zero"@)
    } else if c.vllm_max_num_seqs == Some(0u32) {
        Some("vllm_max_num_seqs must be greater than zero"@)
    } else if c.vllm_concurrent_generation_capacity == Some(0u32) {
        Some("vllm_concurrent_generation_capacity must be greater than zero"@)
    } else if isolated {
        if !(c.vllm_worker_address_space_limit_bytes matches Some(b) && 1024 <= b
            <= I64_MAX_AS_U64) {
            Some(
                "isolated vLLM workers require a finite vllm_worker_address_space_limit_bytes of at least 1024 bytes per process"@,
            )
        } else if c.vllm_concurrent_generation_capacity is None {
            Some("isolated vLLM workers require an admitted vllm_concurrent_generation_capacity"@)
        } else if effective_max_num_seqs(c) != 1 {
            Some("isolated vLLM workers require vllm_max_num_seqs=1 per worker"@)
        } else if c.memory_limit_bytes matches Some(total) && total
            / (c.vllm_concurrent_generation_capacity->0 as u64) < 1024 {
            Some("isolated vLLM memory_limit_bytes must allow at least 1024 bytes per worker"@)
        } else {
            load_config_later_error(c)
        }
    } else if c.vllm_concurrent_generation_capacity matches Some(k) && k > effective_max_num_seqs(
        c,
    ) {
        Some("vllm_concurrent_generation_capacity cannot exceed vllm_max_num_seqs"@)
    } else {
        load_config_later_error(c)
    }
}

fn later_checks(config: &LoadConfig) -> (r: Result<()>)
    ensures
        match load_config_later_error(*config) {
            None => r is Ok,
            Some(text) => is_invalid_config(r, text),
        },
{
    let isolated = config.vllm_generation_topology == Some(
        VllmGenerationTopology::IsolatedWorkers,
    );
    if config.vllm_worker_address_space_limit_bytes.is_some() && !isolated {
        return Err(
            invalid_config("vllm_worker_address_space_limit_bytes requires isolated vLLM workers"),
        );
    }
    let has_props = config.vllm_generation_topology.is_some() || config.vllm_enforce_eager.is_some()
        || config.vllm_compilation_mode.is_some() || config.vllm_cudagraph_mode.is_some()
        || config.vllm_linear_backend.is_some() || config.vllm_moe_backend.is_some()
        || config.vllm_mtp_num_speculative_tokens.is_some();
    if has_props && config.artifact.format != ArtifactFormat::VllmSafetensors {
        return Err(
            invalid_config("vLLM execution properties require a vLLM safetensors artifact"),
        );
    }
    validate_vllm_compilation_config(
        config.vllm_enforce_eager,
        config.vllm_compilation_mode,
        opt_as_str(&config.vllm_cudagraph_mode),
    )?;
    validate_vllm_kernel_backend("vllm_linear_backend", opt_as_str(&config.vllm_linear_backend))?;
    validate_vllm_kernel_backend("vllm_moe_backend", opt_as_str(&config.vllm_moe_backend))?;
    if let Some(t) = config.vllm_mtp_num_speculative_tokens {
        if t == 0 || t > 32 {
            return Err(
                invalid_config("vllm_mtp_num_speculative_tokens must be between 1 and 32"),
            );
        }
    }
    let d = config.kv_cache_dtype.is_some();
    let b = config.kv_cache_bits.is_some();
    let g = config.kv_cache_group_size.is_some();
    let q = config.kv_cache_quantized_start_tokens.is_some();
    proof {
        let set = seq![d, b, g, q];
        if d || b || g || q {
            if d { assert(set[0]); }
            if b { assert(set[1]); }
            if g { assert(set[2]); }
            if q { assert(set[3]); }
        }
        if !(d && b && g && q) {
            if !d { assert(!set[0]); }
            if !b { assert(!set[1]); }
            if !g { assert(!set[2]); }
            if !q { assert(!set[3]); }
        }
    }
    if (d || b || g || q) && !(d && b && g && q) {
        return Err(
            invalid_config(
                "KV-cache runtime configuration must include dtype, bits, group size, and quantized start",
            ),
        );
    }
    if let Some(bits) = config.kv_cache_bits {
        if bits == 0 || bits > 32 {
            return Err(invalid_config("KV-cache bits must be between 1 and 32"));
        }
    }
    if config.kv_cache_group_size == Some(0) {
        return Err(invalid_config("KV-cache group size must be greater than zero"));
    }
    if config.mlx_runtime.multimodal && config.artifact.format != ArtifactFormat::MlxSafetensors {
        return Err(
            invalid_config("MLX multimodal runtime semantics require an MLX safetensors artifact"),
        );
    }
    Ok(())
}

/// Checks every rule of a load configuration, reporting the first one broken.
pub fn validate_load_config(config: &LoadConfig) -> (r: Result<()>)
    ensures
        match load_config_error(*config) {
            None => r is Ok,
            Some(text) => is_invalid_config(r, text),
        },
{
    if config.artifact.path.as_str().is_empty() {
        return Err(invalid_config("artifact path cannot be empty"));
    }
    if config.ctx_size == 0 {
        return Err(invalid_config("ctx_size must be greater than zero"));
    }
    if config.batch_size == 0 {
        return Err(invalid_config("batch_size must be greater than zero"));
    }
    if config.ubatch_size == 0 {
        return Err(invalid_config("ubatch_size must be greater than zero"));
    }
    if config.vllm_max_num_seqs == Some(0) {
        return Err(invalid_config("vllm_max_num_seqs must be greater than zero"));
    }
    if config.vllm_concurrent_generation_capacity == Some(0) {
        return Err(invalid_config("vllm_concurrent_generation_capacity must be greater than zero"));
    }
    let effective = effective_vllm_max_num_seqs(config);
    if config.vllm_generation_topology == Some(VllmGenerationTopology::IsolatedWorkers) {
        let bounded = match config.vllm_worker_address_space_limit_bytes {
            Some(bytes) => 1024 <= bytes && bytes <= I64_MAX_AS_U64,
            None => false,
        };
        if !bounded {
            return Err(
                invalid_config(
                    "isolated vLLM workers require a finite vllm_worker_address_space_limit_bytes of at least 1024 bytes per process",
                ),
            );
        }
        let count = match config.vllm_concurrent_generation_capacity {
            Some(count) => count,
            None => {
                return Err(
                    invalid_config(
                        "isolated vLLM workers require an admitted vllm_concurrent_generation_capacity",
                    ),
                );
            },
        };
        if effective != 1 {
            return Err(
                invalid_config("isolated vLLM workers require vllm_max_num_seqs=1 per worker"),
            );
        }
        if let Some(total) = config.memory_limit_bytes {
            if total / (count as u64) < 1024 {
                return Err(
                    invalid_config(
                        "isolated vLLM memory_limit_bytes must allow at least 1024 bytes per worker",
                    ),
                );
            }
        }
    } else if let Some(capacity) = config.vllm_concurrent_generation_capacity {
        if capacity > effective {
            return Err(
                invalid_config("vllm_concurrent_generation_capacity cannot exceed vllm_max_num_seqs"),
            );
        }
    }
    later_checks(config)
}


/// Law: a load configuration is accepted exactly when its artifact path is
/// not empty; its context, batch and micro-batch sizes are positive; a
/// sequence limit or generation capacity it gives is positive; with
/// isolated vLLM workers, it bounds each worker's address space to 1024 bytes
/// up to `i64::MAX`, gives a generation capacity `k`, allows one sequence
/// per worker, and a memory limit it gives leaves each of the `k` workers
/// at least 1024 bytes; with shared workers, it sets no per-worker address
/// space and a capacity it gives is at most the sequence limit (else the
/// batch size); vLLM execution properties come with a vLLM safetensors
/// artifact; the compilation settings and kernel backends are accepted; an
/// MTP speculative token count lies in 1..=32; the KV-cache runtime fields
/// are all given or all absent, with bits in 1..=32 and a positive group
/// size; and MLX multimodal semantics come with an MLX safetensors artifact.
pub proof fn lemma_load_config_rules(c: LoadConfig)
    ensures
        load_config_error(c) is None <==> {
            &&& c.artifact.path@.len() > 0
            &&& c.ctx_size > 0
            &&& c.batch_size > 0
            &&& c.ubatch_size > 0
            &&& c.vllm_max_num_seqs != Some(0u32)
            &&& c.vllm_concurrent_generation_capacity != Some(0u32)
            &&& if c.vllm_generation_topology == Some(VllmGenerationTopology::IsolatedWorkers) {
                &&& (c.vllm_worker_address_space_limit_bytes matches Some(b) && 1024 <= b
                    <= 0x7fff_ffff_ffff_ffff)
                &&& (c.vllm_concurrent_generation_capacity matches Some(k) && (
                c.memory_limit_bytes matches Some(total) ==> total / (k as u64) >= 1024))
                &&& (c.vllm_max_num_seqs matches Some(n) ==> n == 1)
            } else {
                &&& c.vllm_worker_address_space_limit_bytes is None
                &&& (c.vllm_concurrent_generation_capacity matches Some(k) ==> k
                    <= shared_sequence_limit(c))
            }
            &&& has_vllm_execution_settings(c) ==> c.artifact.format
                == ArtifactFormat::VllmSafetensors
            &&& compilation_config_error(
                c.vllm_enforce_eager,
                c.vllm_compilation_mode,
                crate::artifact::opt_view(c.vllm_cudagraph_mode),
            ) is None
            &&& kernel_backend_error(
                "vllm_linear_backend"@,
                crate::artifact::opt_view(c.vllm_linear_backend),
            ) is None
            &&& kernel_backend_error("vllm_moe_backend"@, crate::artifact::opt_view(c.vllm_moe_backend))
                is None
            &&& (c.vllm_mtp_num_speculative_tokens matches Some(t) ==> 1 <= t <= 32)
            &&& (c.kv_cache_dtype is Some) == (c.kv_cache_bits is Some)
            &&& (c.kv_cache_bits is Some) == (c.kv_cache_group_size is Some)
            &&& (c.kv_cache_group_size is Some) == (c.kv_cache_quantized_start_tokens is Some)
            &&& (c.kv_cache_bits matches Some(b) ==> 1 <= b <= 32)
            &&& c.kv_cache_group_size != Some(0u32)
            &&& c.mlx_runtime.multimodal ==> c.artifact.format == ArtifactFormat::MlxSafetensors
        },
{
    let set = seq![
        c.kv_cache_dtype is Some,
        c.kv_cache_bits is Some,
        c.kv_cache_group_size is Some,
        c.kv_cache_quantized_start_tokens is Some,
    ];
    if kv_fields_partial(c) {
        let i = choose|i: int| 0 <= i < 4 && set[i];
        let j = choose|j: int| 0 <= j < 4 && !set[j];
    } else {
        if set[0] || set[1] || set[2] || set[3] {
            if set[0] { assert(set[0]); }
            if set[1] { assert(set[1]); }
            if set[2] { assert(set[2]); }
            if set[3] { assert(set[3]); }
        }
    }
}

/// The sequence limit that a shared-worker generation capacity may reach:
/// `vllm_max_num_seqs` where it is set, else the batch size.
pub open spec fn shared_sequence_limit(c: LoadConfig) -> int {
    match c.vllm_max_num_seqs {
        Some(n) => n as int,
        None => c.batch_size as int,
    }
}

/// Law: with shared vLLM workers, a generation capacity `k` of at least one
/// and at most the sequence limit is no reason to refuse a configuration:
/// it is judged exactly as the same configuration without a capacity. A
/// capacity above the limit is refused, with the message that says so,
/// wherever the path, the sizes and the sequence limit are themselves valid.
pub proof fn lemma_shared_capacity_up_to_the_sequence_limit(c: LoadConfig, k: u32)
    requires
        c.vllm_generation_topology != Some(VllmGenerationTopology::IsolatedWorkers),
    ensures
        1 <= k <= shared_sequence_limit(c) ==> load_config_error(
            (LoadConfig { vllm_concurrent_generation_capacity: Some(k), ..c }),
        ) == load_config_error((LoadConfig { vllm_concurrent_generation_capacity: None, ..c })),
        k > shared_sequence_limit(c) && c.artifact.path@.len() > 0 && c.ctx_size > 0
            && c.batch_size > 0 && c.ubatch_size > 0 && c.vllm_max_num_seqs != Some(0u32)
            ==> load_config_error((LoadConfig { vllm_concurrent_generation_capacity: Some(k), ..c }))
            == Some("vllm_concurrent_generation_capacity cannot exceed vllm_max_num_seqs"@),
{
    let with = LoadConfig { vllm_concurrent_generation_capacity: Some(k), ..c };
    let without = LoadConfig { vllm_concurrent_generation_capacity: None, ..c };
    assert(load_config_later_error(with) == load_config_later_error(without));
    assert(effective_max_num_seqs(with) == effective_max_num_seqs(c));
}

} // verus!

verus! {

/// What a backend's load refuses before it looks at the disk: the first
/// broken rule of the configuration, else an artifact of another format
/// than the backend serves (the message is `refusal` followed by the
/// format's `Debug` name).
pub open spec fn backend_load_error(config: LoadConfig, format: ArtifactFormat, refusal: Seq<char>) -> Option<
    Seq<char>,
> {
    match load_config_error(config) {
        Some(m) => Some(m),
        None => if config.artifact.format != format {
            Some(refusal + crate::stable_diffusion::format_debug_name(config.artifact.format))
        } else {
            None
        },
    }
}

/// The checks that begin a backend's load.
pub fn check_backend_load(config: &LoadConfig, format: ArtifactFormat, refusal: &str) -> (r: Result<()>)
    ensures
        match backend_load_error(*config, format, refusal@) {
            Some(m) => is_invalid_config(r, m),
            None => r is Ok,
        },
{
    match validate_load_config(config) {
        Err(e) => return Err(e),
        Ok(()) => {},
    }
    if config.artifact.format != format {
        return Err(EngineError::InvalidConfig(concat_str(
            refusal,
            crate::stable_diffusion::format_debug_text(config.artifact.format),
        )));
    }
    Ok(())
}

/// The checks that begin an MLX load: MLX safetensors weights.
pub fn check_mlx_load(config: &LoadConfig) -> (r: Result<()>)
    ensures
        match backend_load_error(
            *config,
            ArtifactFormat::MlxSafetensors,
            "MLX backend requires MLX safetensors artifacts, got "@,
        ) {
            Some(m) => is_invalid_config(r, m),
            None => r is Ok,
        },
{
    check_backend_load(config, ArtifactFormat::MlxSafetensors, "MLX backend requires MLX safetensors artifacts, got ")
}

/// The checks that begin a llama.cpp load: a GGUF model.
pub fn check_llama_load(config: &LoadConfig) -> (r: Result<()>)
    ensures
        match backend_load_error(*config, ArtifactFormat::Gguf, "llama.cpp backend requires GGUF artifacts, got "@) {
            Some(m) => is_invalid_config(r, m),
            None => r is Ok,
        },
{
    check_backend_load(config, ArtifactFormat::Gguf, "llama.cpp backend requires GGUF artifacts, got ")
}

/// The checks that begin a vLLM load: vLLM safetensors weights.
pub fn check_vllm_load(config: &LoadConfig) -> (r: Result<()>)
    ensures
        match backend_load_error(
            *config,
            ArtifactFormat::VllmSafetensors,
            "vLLM backend requires vLLM safetensors artifacts, got "@,
        ) {
            Some(m) => is_invalid_config(r, m),
            None => r is Ok,
        },
{
    check_backend_load(config, ArtifactFormat::VllmSafetensors, "vLLM backend requires vLLM safetensors artifacts, got ")
}

/// The checks that begin a TensorRT-LLM load: a TensorRT-LLM checkpoint.
pub fn check_trt_load(config: &LoadConfig) -> (r: Result<()>)
    ensures
        match backend_load_error(
            *config,
            ArtifactFormat::TensorRtLlmCheckpoint,
            "TensorRT-LLM backend requires TensorRT-LLM checkpoint artifacts, got "@,
        ) {
            Some(m) => is_invalid_config(r, m),
            None => r is Ok,
        },
{
    check_backend_load(
        config,
        ArtifactFormat::TensorRtLlmCheckpoint,
        "TensorRT-LLM backend requires TensorRT-LLM checkpoint artifacts, got ",
    )
}

/// The checks that begin a Transformers speech-recognition load:
/// Transformers safetensors weights.
pub fn check_transformers_asr_load(config: &LoadConfig) -> (r: Result<()>)
    ensures
        match backend_load_error(
            *config,
            ArtifactFormat::TransformersSafetensors,
            "Transformers ASR requires Transformers safetensors artifacts, got "@,
        ) {
            Some(m) => is_invalid_config(r, m),
            None => r is Ok,
        },
{
    check_backend_load(
        config,
        ArtifactFormat::TransformersSafetensors,
        "Transformers ASR requires Transformers safetensors artifacts, got ",
    )
}

} // verus!
