//! Decisions of the stable-diffusion.cpp server backend: which device
//! placement a restarted server uses, how large an image response may grow,
//! and when a failed request is run again.
use vstd::prelude::*;

use crate::artifact::opt_view;
use crate::config::opt_str_view;
use crate::error::{invalid_config, is_invalid_config, EngineError, Result};
use crate::text::{contains_seq, contains_str, eq_ignore_ascii_case, lower_seq, to_ascii_lower, trim_seq, trimmed};

verus! {

/// Backend string that keeps the text encoder on the CPU and the rest on Metal.
pub const APPLE_METAL_CPU_TEXT_ENCODER_BACKEND: &'static str = "te=cpu,diffusion=metal,vae=metal";

/// Where the server places its components.
#[derive(Clone, Copy, Debug, PartialEq, Eq, Structural)]
pub enum StableDiffusionDevicePlacement {
    /// The backend that the configuration asked for.
    Preferred,
    /// Metal for diffusion and VAE, the CPU for the text encoder.
    AppleMetalCpuTextEncoder,
}

impl Default for StableDiffusionDevicePlacement {
    fn default() -> (r: Self)
        ensures
            r == StableDiffusionDevicePlacement::Preferred,
    {
        StableDiffusionDevicePlacement::Preferred
    }
}

/// The backend string that a placement hands to the server.
pub open spec fn placement_backend(
    requested: Option<Seq<char>>,
    placement: StableDiffusionDevicePlacement,
) -> Option<Seq<char>> {
    match placement {
        StableDiffusionDevicePlacement::Preferred => requested,
        StableDiffusionDevicePlacement::AppleMetalCpuTextEncoder => Some(
            "te=cpu,diffusion=metal,vae=metal"@,
        ),
    }
}

/// The backend string for `placement`: the requested one, or the split
/// Metal/CPU placement.
pub fn stable_diffusion_backend_for_placement(
    requested: Option<String>,
    placement: StableDiffusionDevicePlacement,
) -> (r: Option<String>)
    ensures
        opt_view(r) == placement_backend(opt_view(requested), placement),
{
    match placement {
        StableDiffusionDevicePlacement::Preferred => requested,
        StableDiffusionDevicePlacement::AppleMetalCpuTextEncoder => Some(
            "te=cpu,diffusion=metal,vae=metal".to_owned(),
        ),
    }
}

/// The backend is plain `metal`, ignoring surrounding whitespace and ASCII case.
pub open spec fn is_plain_metal(backend: Seq<char>) -> bool {
    lower_seq(trim_seq(backend)) == lower_seq("metal"@)
}

pub fn is_plain_metal_backend(backend: &str) -> (r: bool)
    ensures
        r == is_plain_metal(backend@),
{
    let t = trimmed(backend);
    eq_ignore_ascii_case(t.as_str(), "metal")
}

/// The server output reports the Metal prompt-encoder assertion on an empty
/// hidden state (compared in ASCII lowercase).
pub open spec fn is_text_encoder_empty_state_failure(output: Seq<char>) -> bool {
    let o = lower_seq(output);
    &&& (contains_seq(o, "conditioner.hpp"@) || contains_seq(o, "conditioner.cpp"@))
    &&& contains_seq(o, "hidden_states.empty"@)
    &&& (contains_seq(o, "assert"@) || contains_seq(o, "ggml_abort"@))
}

pub fn is_metal_text_encoder_empty_state_failure(output: &str) -> (r: bool)
    ensures
        r == is_text_encoder_empty_state_failure(output@),
{
    let o = to_ascii_lower(output);
    let o = o.as_str();
    (contains_str(o, "conditioner.hpp") || contains_str(o, "conditioner.cpp")) && contains_str(
        o,
        "hidden_states.empty",
    ) && (contains_str(o, "assert") || contains_str(o, "ggml_abort"))
}

/// The placement after a server exit: the split placement exactly when the
/// preferred plain-Metal placement died of the prompt-encoder assertion.
pub open spec fn recovery_placement(
    current: StableDiffusionDevicePlacement,
    requested: Option<Seq<char>>,
    output: Seq<char>,
) -> StableDiffusionDevicePlacement {
    if current == StableDiffusionDevicePlacement::Preferred && (requested matches Some(b)
        && is_plain_metal(b)) && is_text_encoder_empty_state_failure(output) {
        StableDiffusionDevicePlacement::AppleMetalCpuTextEncoder
    } else {
        current
    }
}

pub fn recovery_device_placement(
    current: StableDiffusionDevicePlacement,
    requested_backend: Option<&str>,
    server_output: &str,
) -> (r: StableDiffusionDevicePlacement)
    ensures
        r == recovery_placement(current, opt_str_view(requested_backend), server_output@),
{
    let metal = match requested_backend {
        Some(b) => is_plain_metal_backend(b),
        None => false,
    };
    if current == StableDiffusionDevicePlacement::Preferred && metal
        && is_metal_text_encoder_empty_state_failure(server_output) {
        StableDiffusionDevicePlacement::AppleMetalCpuTextEncoder
    } else {
        current
    }
}

/// Law: the recovery never leaves the split placement and never moves a
/// server whose backend is not plain Metal.
pub proof fn lemma_recovery_is_sticky_and_metal_only(
    current: StableDiffusionDevicePlacement,
    requested: Option<Seq<char>>,
    output: Seq<char>,
)
    ensures
        current == StableDiffusionDevicePlacement::AppleMetalCpuTextEncoder ==> recovery_placement(
            current,
            requested,
            output,
        ) == current,
        !(requested matches Some(b) && is_plain_metal(b)) ==> recovery_placement(
            current,
            requested,
            output,
        ) == current,
        recovery_placement(recovery_placement(current, requested, output), requested, output)
            == recovery_placement(current, requested, output),
{
}

/// Upper bound of an image response: twice the raw RGBA bytes plus one MiB,
/// each step checked against the platform's `usize`; `None` on overflow.
pub open spec fn image_response_limit(image_count: u32, width: u32, height: u32) -> Option<int> {
    let a = image_count as int * width as int;
    let b = a * height as int;
    let raw = b * 4;
    let bound = raw * 2 + 1048576;
    if a > usize::MAX || b > usize::MAX || raw > usize::MAX || raw * 2 > usize::MAX || bound
        > usize::MAX {
        None
    } else {
        Some(bound)
    }
}

pub fn max_image_response_bytes(image_count: u32, width: u32, height: u32) -> (r: Result<usize>)
    ensures
        match image_response_limit(image_count, width, height) {
            Some(bound) => r matches Ok(n) && n == bound,
            None => is_invalid_config(r, "image response size exceeds platform limits"@),
        },
{
    let count = image_count as usize;
    let a = match count.checked_mul(width as usize) {
        Some(a) => a,
        None => {
            return Err(invalid_config("image response size exceeds platform limits"));
        },
    };
    let b = match a.checked_mul(height as usize) {
        Some(b) => b,
        None => {
            proof {
                assert(a as int * height as int > usize::MAX);
            }
            return Err(invalid_config("image response size exceeds platform limits"));
        },
    };
    let raw = match b.checked_mul(4) {
        Some(raw) => raw,
        None => {
            return Err(invalid_config("image response size exceeds platform limits"));
        },
    };
    let doubled = match raw.checked_mul(2) {
        Some(d) => d,
        None => {
            return Err(invalid_config("image response size exceeds platform limits"));
        },
    };
    match doubled.checked_add(1024 * 1024) {
        Some(bound) => Ok(bound),
        None => Err(invalid_config("image response size exceeds platform limits")),
    }
}

/// After a failed request and the restart hook's answer: `None` runs the
/// request once more (the server was restarted), `Some(e)` is the error that
/// the request returns without another attempt.
pub fn retry_after_restart(first_error: EngineError, restarted: Result<bool>) -> (r: Option<
    EngineError,
>)
    ensures
        r == retry_decision(first_error, restarted),
{
    match restarted {
        Err(e) => Some(e),
        Ok(true) => None,
        Ok(false) => Some(first_error),
    }
}

/// What a failed request comes to once the restart hook answered
/// `restarted`: `None` runs it once more, `Some(e)` returns `e` (the hook's
/// own error, or the request's first error where no restart took place).
pub open spec fn retry_decision(first_error: EngineError, restarted: Result<bool>) -> Option<
    EngineError,
> {
    match restarted {
        Err(e) => Some(e),
        Ok(true) => None,
        Ok(false) => Some(first_error),
    }
}

/// Runs `operation`; where it fails, lets `restart` bring the server back
/// and runs it once more if it did. Each call sees `state` as the one before
/// left it: the operation runs at most twice and the restart hook at most
/// once, and the result is the first success, the error that ends the
/// attempt, or the second run's result.
pub fn retry_once_after_worker_exit<S, T, Op, Re>(state: &mut S, operation: Op, restart: Re) -> (r:
    Result<T>)
    where
        Op: Fn(&mut S) -> Result<T>,
        Re: Fn(&mut S, &EngineError) -> Result<bool>,
    requires
        forall|s: &mut S| #[trigger] operation.requires((s,)),
        forall|s: &mut S, e: &EngineError| #[trigger] restart.requires((s, e)),
    ensures
        exists|s1: &mut S, x1: Result<T>|
            *s1 == *old(state) && #[trigger] operation.ensures((s1,), x1) && match x1 {
                Ok(_) => r == x1 && *final(state) == *final(s1),
                Err(e1) => exists|s2: &mut S, x2: Result<bool>|
                    *s2 == *final(s1) && #[trigger] restart.ensures((s2, &e1), x2)
                        && match retry_decision(e1, x2) {
                        Some(e) => r == Err::<T, EngineError>(e) && *final(state) == *final(s2),
                        None => exists|s3: &mut S|
                            *s3 == *final(s2) && *final(s3) == *final(state)
                                && #[trigger] operation.ensures((s3,), r),
                    },
            },
{
    let first_error = match operation(state) {
        Ok(value) => return Ok(value),
        Err(error) => error,
    };
    let restarted = restart(state, &first_error);
    match retry_after_restart(first_error, restarted) {
        Some(error) => Err(error),
        None => operation(state),
    }
}

/// An image prompt may not carry stable-diffusion.cpp's control tags.
pub fn check_image_prompt(prompt: &str) -> (r: Result<()>)
    ensures
        r is Ok <==> !contains_seq(prompt@, "sd_cpp_extra_args"@),
        r is Err ==> is_invalid_config(r, "image prompt may not contain stable-diffusion.cpp control tags"@),
{
    if contains_str(prompt, "sd_cpp_extra_args") {
        return Err(invalid_config("image prompt may not contain stable-diffusion.cpp control tags"));
    }
    Ok(())
}

/// The step count sent to sd-server: the requested steps plus the
/// backend's offset, which must land in 1..=150.
pub fn sd_engine_steps(steps: u32, steps_offset: i32) -> (r: Result<i64>)
    ensures
        1 <= steps + steps_offset <= 150 ==> r == Ok::<i64, EngineError>((steps + steps_offset) as i64),
        !(1 <= steps + steps_offset <= 150) ==> is_invalid_config(
            r,
            "image steps "@ + crate::text::decimal(steps as nat) + " with backend offset "@
                + crate::llama::signed_decimal(steps_offset as int) + " fall outside 1..=150"@,
        ),
{
    let total: i64 = steps as i64 + steps_offset as i64;
    if 1 <= total && total <= 150 {
        return Ok(total);
    }
    let a = crate::config::concat_str("image steps ", crate::text::u64_to_decimal(steps as u64).as_str());
    let b = crate::config::concat_str(a.as_str(), " with backend offset ");
    let c = crate::config::concat_str(b.as_str(), crate::llama::i64_to_decimal(steps_offset as i64).as_str());
    Err(EngineError::InvalidConfig(crate::config::concat_str(c.as_str(), " fall outside 1..=150")))
}

/// What `MAYHEM_STABLE_DIFFUSION_CPP_STARTUP_TIMEOUT_SECONDS` configures
/// (`None` where it is unset): no override, or a positive number of seconds.
pub fn startup_timeout_from(raw: Option<&str>) -> (r: Result<Option<u64>>)
    ensures
        match raw {
            None => r == Ok::<Option<u64>, EngineError>(None),
            Some(v) => match crate::text::parse_u64_spec(v@) {
                None => is_invalid_config(
                    r,
                    "MAYHEM_STABLE_DIFFUSION_CPP_STARTUP_TIMEOUT_SECONDS must be a positive integer"@,
                ),
                Some(n) => if n == 0 {
                    is_invalid_config(
                        r,
                        "MAYHEM_STABLE_DIFFUSION_CPP_STARTUP_TIMEOUT_SECONDS must be greater than zero"@,
                    )
                } else {
                    r == Ok::<Option<u64>, EngineError>(Some(n))
                },
            },
        },
{
    let v = match raw {
        None => return Ok(None),
        Some(v) => v,
    };
    match crate::text::parse_u64(v) {
        None => Err(invalid_config("MAYHEM_STABLE_DIFFUSION_CPP_STARTUP_TIMEOUT_SECONDS must be a positive integer")),
        Some(0) => Err(invalid_config("MAYHEM_STABLE_DIFFUSION_CPP_STARTUP_TIMEOUT_SECONDS must be greater than zero")),
        Some(n) => Ok(Some(n)),
    }
}

/// The sd-server binary next to an sd-cli binary: a last path component
/// `sd-cli` or `sd-cli.exe` (in any ASCII case) becomes `sd-server` or
/// `sd-server.exe`; any other path stays.
pub open spec fn server_binary_for(binary: Seq<char>) -> Seq<char> {
    let name = crate::payload::file_name_of(binary);
    let dir = binary.take(binary.len() - name.len());
    if lower_seq(name) == "sd-cli.exe"@ {
        dir + "sd-server.exe"@
    } else if lower_seq(name) == "sd-cli"@ {
        dir + "sd-server"@
    } else {
        binary
    }
}

/// The sd-server binary to run for a configured stable-diffusion binary.
pub fn derive_server_binary(binary: &str) -> (r: String)
    ensures
        r@ == server_binary_for(binary@),
{
    let v = crate::text::chars_of(binary);
    let mut start: usize = v.len();
    while start > 0 && v[start - 1] != '/'
        invariant
            start <= v@.len(),
            forall|j: int| start <= j < v@.len() ==> v@[j] != '/',
        decreases start,
    {
        start = start - 1;
    }
    proof {
        crate::payload::lemma_last_index_is(binary@, '/', start - 1);
    }
    let dir = crate::text::string_from_chars(v.as_slice(), 0, start);
    let name = crate::text::string_from_chars(v.as_slice(), start, v.len());
    assert(name@ =~= crate::payload::file_name_of(binary@));
    assert(dir@ =~= binary@.take(binary@.len() - name@.len()));
    proof {
        reveal_strlit("sd-cli.exe");
        reveal_strlit("sd-cli");
        assert(lower_seq("sd-cli.exe"@) =~= "sd-cli.exe"@);
        assert(lower_seq("sd-cli"@) =~= "sd-cli"@);
    }
    if eq_ignore_ascii_case(name.as_str(), "sd-cli.exe") {
        return crate::config::concat_str(dir.as_str(), "sd-server.exe");
    }
    if eq_ignore_ascii_case(name.as_str(), "sd-cli") {
        return crate::config::concat_str(dir.as_str(), "sd-server");
    }
    binary.to_owned()
}

/// The `Debug` name of an artifact format.
pub open spec fn format_debug_name(f: crate::artifact::ArtifactFormat) -> Seq<char> {
    match f {
        crate::artifact::ArtifactFormat::Gguf => "Gguf"@,
        crate::artifact::ArtifactFormat::MlxSafetensors => "MlxSafetensors"@,
        crate::artifact::ArtifactFormat::TensorRtLlmCheckpoint => "TensorRtLlmCheckpoint"@,
        crate::artifact::ArtifactFormat::VllmSafetensors => "VllmSafetensors"@,
        crate::artifact::ArtifactFormat::TransformersSafetensors => "TransformersSafetensors"@,
        crate::artifact::ArtifactFormat::AceStepSafetensors => "AceStepSafetensors"@,
        crate::artifact::ArtifactFormat::ChatterboxSafetensors => "ChatterboxSafetensors"@,
        crate::artifact::ArtifactFormat::ComfyUiRuntime => "ComfyUiRuntime"@,
        crate::artifact::ArtifactFormat::StableDiffusionCheckpoint => "StableDiffusionCheckpoint"@,
        crate::artifact::ArtifactFormat::WhisperGgml => "WhisperGgml"@,
        crate::artifact::ArtifactFormat::PiperVoice => "PiperVoice"@,
        crate::artifact::ArtifactFormat::PiperConfig => "PiperConfig"@,
    }
}

pub(crate) fn format_debug_text(f: crate::artifact::ArtifactFormat) -> (r: &'static str)
    ensures
        r@ == format_debug_name(f),
{
    match f {
        crate::artifact::ArtifactFormat::Gguf => "Gguf",
        crate::artifact::ArtifactFormat::MlxSafetensors => "MlxSafetensors",
        crate::artifact::ArtifactFormat::TensorRtLlmCheckpoint => "TensorRtLlmCheckpoint",
        crate::artifact::ArtifactFormat::VllmSafetensors => "VllmSafetensors",
        crate::artifact::ArtifactFormat::TransformersSafetensors => "TransformersSafetensors",
        crate::artifact::ArtifactFormat::AceStepSafetensors => "AceStepSafetensors",
        crate::artifact::ArtifactFormat::ChatterboxSafetensors => "ChatterboxSafetensors",
        crate::artifact::ArtifactFormat::ComfyUiRuntime => "ComfyUiRuntime",
        crate::artifact::ArtifactFormat::StableDiffusionCheckpoint => "StableDiffusionCheckpoint",
        crate::artifact::ArtifactFormat::WhisperGgml => "WhisperGgml",
        crate::artifact::ArtifactFormat::PiperVoice => "PiperVoice",
        crate::artifact::ArtifactFormat::PiperConfig => "PiperConfig",
    }
}

/// The checks of a stable-diffusion load that need no disk: the load
/// configuration's rules, the checkpoint format and the backend offsets.
pub fn validate_stable_diffusion_load(config: &crate::config::LoadConfig) -> (r: Result<()>)
    ensures
        match crate::config::load_config_error(*config) {
            Some(m) => is_invalid_config(r, m),
            None => if config.artifact.format != crate::artifact::ArtifactFormat::StableDiffusionCheckpoint {
                is_invalid_config(
                    r,
                    "stable-diffusion.cpp backend requires stable-diffusion checkpoints, got "@
                        + format_debug_name(config.artifact.format),
                )
            } else {
                match crate::config::sd_config_error(config.stable_diffusion_cpp) {
                    Some(m) => is_invalid_config(r, m),
                    None => r is Ok,
                }
            },
        },
{
    match crate::config::check_backend_load(
        config,
        crate::artifact::ArtifactFormat::StableDiffusionCheckpoint,
        "stable-diffusion.cpp backend requires stable-diffusion checkpoints, got ",
    ) {
        Err(e) => return Err(e),
        Ok(()) => {},
    }
    config.stable_diffusion_cpp.validate()
}

/// A stable-diffusion sidecar (`label` is `LLM` or `VAE`) must itself be a
/// stable-diffusion checkpoint.
pub fn check_sd_sidecar_format(label: &str, format: crate::artifact::ArtifactFormat) -> (r: Result<()>)
    ensures
        r is Ok <==> format == crate::artifact::ArtifactFormat::StableDiffusionCheckpoint,
        r is Err ==> is_invalid_config(
            r,
            "stable-diffusion.cpp "@ + label@ + " sidecar must use stable-diffusion checkpoint format"@,
        ),
{
    if format != crate::artifact::ArtifactFormat::StableDiffusionCheckpoint {
        let a = crate::config::concat_str("stable-diffusion.cpp ", label);
        return Err(EngineError::InvalidConfig(
            crate::config::concat_str(a.as_str(), " sidecar must use stable-diffusion checkpoint format"),
        ));
    }
    Ok(())
}

/// A separate diffusion model needs both the LLM and the VAE sidecars pinned.
pub fn check_sd_separate_models(config: &crate::config::LoadConfig) -> (r: Result<()>)
    ensures
        r is Ok <==> !(config.stable_diffusion_cpp.separate_diffusion_model && (
        config.stable_diffusion_llm is None || config.stable_diffusion_vae is None)),
        r is Err ==> is_invalid_config(
            r,
            "separate stable-diffusion.cpp diffusion models require pinned LLM and VAE sidecars"@,
        ),
{
    if config.stable_diffusion_cpp.separate_diffusion_model && (config.stable_diffusion_llm.is_none()
        || config.stable_diffusion_vae.is_none()) {
        return Err(invalid_config(
            "separate stable-diffusion.cpp diffusion models require pinned LLM and VAE sidecars",
        ));
    }
    Ok(())
}

/// The backend override in effect: the environment's value when it holds
/// more than whitespace, else the configured one.
pub open spec fn requested_backend(env_value: Option<Seq<char>>, configured: Option<Seq<char>>) -> Option<
    Seq<char>,
> {
    match env_value {
        Some(v) => if crate::text::is_blank_seq(v) {
            configured
        } else {
            Some(v)
        },
        None => configured,
    }
}

/// The requested stable-diffusion backend, given the value of the backend
/// environment override, if it is set.
pub fn requested_stable_diffusion_backend(
    env_value: Option<&str>,
    config: &crate::config::LoadConfig,
) -> (r: Option<String>)
    ensures
        opt_view(r) == requested_backend(opt_str_view(env_value), opt_view(config.stable_diffusion_backend)),
{
    if let Some(v) = env_value {
        if !crate::text::is_blank(v) {
            return Some(v.to_owned());
        }
    }
    crate::artifact::clone_opt_string(&config.stable_diffusion_backend)
}

/// What a loaded stable-diffusion server reports: the configured artifact
/// and context size, and no training context or vocabulary.
pub fn loaded_model_info(config: &crate::config::LoadConfig) -> (r: crate::types::LoadedModelInfo)
    ensures
        r.backend@ == "stable-diffusion.cpp"@,
        r.artifact.same_as(config.artifact),
        r.ctx_size == config.ctx_size,
        r.n_ctx_train == 0,
        r.n_vocab == 0,
{
    crate::types::LoadedModelInfo {
        backend: "stable-diffusion.cpp".to_owned(),
        artifact: config.artifact.clone(),
        ctx_size: config.ctx_size,
        n_ctx_train: 0,
        n_vocab: 0,
    }
}

/// A flag followed by its value, when there is a value.
pub open spec fn flag_pair(flag: Seq<char>, value: Option<Seq<char>>) -> Seq<Seq<char>> {
    match value {
        Some(v) => seq![flag, v],
        None => Seq::empty(),
    }
}

/// The arguments of the sd-server command line: the model (as a separate
/// diffusion model or a whole checkpoint), the optional LLM, VAE and backend,
/// the CPU random number generator and the address to listen on.
pub open spec fn server_args(
    model: Seq<char>,
    llm: Option<Seq<char>>,
    vae: Option<Seq<char>>,
    backend: Option<Seq<char>>,
    separate_diffusion_model: bool,
    listen_ip: Seq<char>,
    listen_port: u16,
) -> Seq<Seq<char>> {
    (if separate_diffusion_model {
        seq!["--diffusion-model"@, model]
    } else {
        seq!["-m"@, model]
    }) + flag_pair("--llm"@, llm) + flag_pair("--vae"@, vae) + flag_pair("--backend"@, backend) + seq![
        "--rng"@,
        "cpu"@,
        "--listen-ip"@,
        listen_ip,
        "--listen-port"@,
        crate::text::decimal(listen_port as nat),
    ]
}

pub open spec fn string_views(v: Seq<String>) -> Seq<Seq<char>> {
    v.map_values(|s: String| s@)
}

fn push_text(v: &mut Vec<String>, s: &str)
    ensures
        string_views(final(v)@) == string_views(old(v)@).push(s@),
{
    v.push(s.to_owned());
    assert(string_views(final(v)@) =~= string_views(old(v)@).push(s@));
}

fn push_flag(v: &mut Vec<String>, flag: &str, value: Option<&str>)
    ensures
        string_views(final(v)@) == string_views(old(v)@) + flag_pair(flag@, opt_str_view(value)),
{
    let ghost before = string_views(v@);
    if let Some(x) = value {
        push_text(v, flag);
        push_text(v, x);
        assert(string_views(v@) =~= before + flag_pair(flag@, opt_str_view(value)));
    } else {
        assert(string_views(v@) =~= before + flag_pair(flag@, opt_str_view(value)));
    }
}

/// The sd-server command line for the resolved model paths: the backend is
/// the requested one (the environment override first, then the
/// configuration) as the device placement adjusts it.
pub fn server_command_args(
    config: &crate::config::LoadConfig,
    model_path: &str,
    llm_path: Option<&str>,
    vae_path: Option<&str>,
    env_backend: Option<&str>,
    placement: StableDiffusionDevicePlacement,
    listen_ip: &str,
    listen_port: u16,
) -> (r: Vec<String>)
    ensures
        string_views(r@) == server_args(
            model_path@,
            opt_str_view(llm_path),
            opt_str_view(vae_path),
            placement_backend(
                requested_backend(opt_str_view(env_backend), opt_view(config.stable_diffusion_backend)),
                placement,
            ),
            config.stable_diffusion_cpp.separate_diffusion_model,
            listen_ip@,
            listen_port,
        ),
{
    let backend = stable_diffusion_backend_for_placement(
        requested_stable_diffusion_backend(env_backend, config),
        placement,
    );
    let mut v: Vec<String> = Vec::new();
    if config.stable_diffusion_cpp.separate_diffusion_model {
        push_text(&mut v, "--diffusion-model");
    } else {
        push_text(&mut v, "-m");
    }
    push_text(&mut v, model_path);
    push_flag(&mut v, "--llm", llm_path);
    push_flag(&mut v, "--vae", vae_path);
    match &backend {
        Some(b) => push_flag(&mut v, "--backend", Some(b.as_str())),
        None => push_flag(&mut v, "--backend", None),
    }
    push_text(&mut v, "--rng");
    push_text(&mut v, "cpu");
    push_text(&mut v, "--listen-ip");
    push_text(&mut v, listen_ip);
    push_text(&mut v, "--listen-port");
    let port = crate::text::u64_to_decimal(listen_port as u64);
    push_text(&mut v, port.as_str());
    assert(string_views(v@) =~= server_args(
        model_path@,
        opt_str_view(llm_path),
        opt_str_view(vae_path),
        opt_view(backend),
        config.stable_diffusion_cpp.separate_diffusion_model,
        listen_ip@,
        listen_port,
    ));
    v
}

} // verus!

verus! {

/// The control tag that hands sd-server a flow shift: its JSON text is
/// `flow` (the value as JSON writes it).
pub open spec fn flow_shift_tag(flow: Seq<char>) -> Seq<char> {
    " <sd_cpp_extra_args>"@ + "{\"sample_params\":{\"flow_shift\":"@ + flow + "}}"@
        + "</sd_cpp_extra_args>"@
}

/// The prompt sd-server gets: the request's, with the flow-shift tag
/// appended where a flow shift is asked for.
pub open spec fn txt2img_prompt(prompt: Seq<char>, flow: Option<Seq<char>>) -> Seq<char> {
    match flow {
        Some(f) => prompt + flow_shift_tag(f),
        None => prompt,
    }
}

/// A text member appended to an object's members, where the value is
/// present.
pub open spec fn opt_text_member(key: Seq<char>, value: Option<Seq<char>>) -> Seq<char> {
    match value {
        Some(v) => ","@ + crate::json::quoted(key) + ":"@ + crate::json::quoted(v),
        None => Seq::empty(),
    }
}

/// The JSON text of an sd-server txt2img request: the prompt, the size, the
/// engine's step count, the guidance scale (`cfg`, its JSON text), the seed
/// (the default seed where none is given), the image count, and the negative
/// prompt, sampler and scheduler where the request names them.
pub open spec fn txt2img_text(
    r: crate::request::ImageGenerationRequest,
    engine_steps: u64,
    cfg: Seq<char>,
    flow: Option<Seq<char>>,
) -> Seq<char> {
    "{"@ + txt2img_members(r, engine_steps, cfg, flow) + opt_text_member(
        "negative_prompt"@,
        opt_view(r.negative_prompt),
    ) + opt_text_member("sampler_name"@, opt_view(r.sampling_method)) + opt_text_member(
        "scheduler"@,
        opt_view(r.scheduler),
    ) + "}"@
}

/// The members that every txt2img request carries, written in order.
#[verifier::opaque]
pub open spec fn txt2img_members(
    r: crate::request::ImageGenerationRequest,
    engine_steps: u64,
    cfg: Seq<char>,
    flow: Option<Seq<char>>,
) -> Seq<char> {
    let q = |k: Seq<char>| crate::json::quoted(k);
    let seed: u32 = match r.seed {
        Some(s) => s,
        None => crate::DEFAULT_SEED,
    };
    q("prompt"@) + ":"@ + q(txt2img_prompt(r.prompt@, flow)) + ","@ + q("width"@) + ":"@
        + crate::text::decimal(r.width as nat) + ","@ + q("height"@) + ":"@ + crate::text::decimal(
        r.height as nat,
    ) + ","@ + q("steps"@) + ":"@ + crate::text::decimal(engine_steps as nat) + ","@ + q(
        "cfg_scale"@,
    ) + ":"@ + cfg + ","@ + q("seed"@) + ":"@ + crate::text::decimal(seed as nat) + ","@ + q(
        "batch_size"@,
    ) + ":"@ + crate::text::decimal(r.image_count as nat)
}

fn number_value(n: u64) -> (r: crate::json::JsonValue)
    ensures
        crate::json::json_text(r) == crate::text::decimal(n as nat),
{
    crate::json::JsonValue::Number(crate::json::JsonNumber::PosInt(n))
}

fn push_opt_text(
    m: &mut Vec<(String, crate::json::JsonValue)>,
    key: &str,
    value: &Option<String>,
)
    requires
        old(m)@.len() > 0,
    ensures
        final(m)@.len() > 0,
        crate::json::members_text(final(m)@, final(m)@.len()) == crate::json::members_text(
            old(m)@,
            old(m)@.len(),
        ) + opt_text_member(key@, opt_view(*value)),
{
    match value {
        Some(v) => {
            let ghost before = crate::json::members_text(m@, m@.len());
            crate::json::push_member(m, key, crate::json::json_string(v.as_str()));
            assert(crate::json::members_text(m@, m@.len()) =~= before + opt_text_member(
                key@,
                opt_view(*value),
            ));
        },
        None => {
            assert(crate::json::members_text(m@, m@.len()) =~= crate::json::members_text(m@, m@.len())
                + opt_text_member(key@, opt_view(*value)));
        },
    }
}

fn txt2img_prompt_text(prompt: &str, flow_shift: Option<&str>) -> (r: String)
    ensures
        r@ == txt2img_prompt(prompt@, opt_str_view(flow_shift)),
{
    match flow_shift {
        Some(f) => {
            let a = crate::config::concat_str(prompt, " <sd_cpp_extra_args>");
            let b = crate::config::concat_str(a.as_str(), "{\"sample_params\":{\"flow_shift\":");
            let c = crate::config::concat_str(b.as_str(), f);
            let d = crate::config::concat_str(c.as_str(), "}}");
            let e = crate::config::concat_str(d.as_str(), "</sd_cpp_extra_args>");
            assert(e@ =~= txt2img_prompt(prompt@, opt_str_view(flow_shift)));
            e
        },
        None => prompt.to_owned(),
    }
}

fn txt2img_head(
    request: &crate::request::ImageGenerationRequest,
    engine_steps: u64,
    cfg_scale: &str,
    flow_shift: Option<&str>,
) -> (m: Vec<(String, crate::json::JsonValue)>)
    ensures
        m@.len() > 0,
        crate::json::members_text(m@, m@.len()) == txt2img_members(
            *request,
            engine_steps,
            cfg_scale@,
            opt_str_view(flow_shift),
        ),
{
    reveal(txt2img_members);
    let prompt = txt2img_prompt_text(request.prompt.as_str(), flow_shift);
    let seed: u32 = match request.seed {
        Some(s) => s,
        None => crate::DEFAULT_SEED,
    };
    let mut m: Vec<(String, crate::json::JsonValue)> = Vec::new();
    crate::json::push_member(&mut m, "prompt", crate::json::json_string(prompt.as_str()));
    crate::json::push_member(&mut m, "width", number_value(request.width as u64));
    crate::json::push_member(&mut m, "height", number_value(request.height as u64));
    crate::json::push_member(&mut m, "steps", number_value(engine_steps));
    crate::json::push_member(
        &mut m,
        "cfg_scale",
        crate::json::JsonValue::Number(crate::json::JsonNumber::Float(cfg_scale.to_owned())),
    );
    crate::json::push_member(&mut m, "seed", number_value(seed as u64));
    crate::json::push_member(&mut m, "batch_size", number_value(request.image_count as u64));
    m
}

/// The body of an sd-server txt2img request. `engine_steps` is the step
/// count with the backend's offset (see `sd_engine_steps`); `cfg_scale` and
/// `flow_shift` are the JSON texts of the floating-point guidance scale with
/// its offset and of the requested flow shift.
pub fn txt2img_body(
    request: &crate::request::ImageGenerationRequest,
    engine_steps: u64,
    cfg_scale: &str,
    flow_shift: Option<&str>,
) -> (r: crate::json::JsonValue)
    ensures
        crate::json::json_text(r) == txt2img_text(*request, engine_steps, cfg_scale@, opt_str_view(flow_shift)),
{
    let mut m = txt2img_head(request, engine_steps, cfg_scale, flow_shift);
    let ghost head = txt2img_members(*request, engine_steps, cfg_scale@, opt_str_view(flow_shift));
    let ghost a = opt_text_member("negative_prompt"@, opt_view(request.negative_prompt));
    let ghost b = opt_text_member("sampler_name"@, opt_view(request.sampling_method));
    let ghost c = opt_text_member("scheduler"@, opt_view(request.scheduler));
    push_opt_text(&mut m, "negative_prompt", &request.negative_prompt);
    assert(crate::json::members_text(m@, m@.len()) == head + a);
    push_opt_text(&mut m, "sampler_name", &request.sampling_method);
    assert(crate::json::members_text(m@, m@.len()) == head + a + b);
    push_opt_text(&mut m, "scheduler", &request.scheduler);
    assert(crate::json::members_text(m@, m@.len()) == head + a + b + c);
    let r = crate::json::JsonValue::Object(m);
    assert(crate::json::json_text(r) == "{"@ + (head + a + b + c) + "}"@);
    assert(crate::json::json_text(r) =~= txt2img_text(
        *request,
        engine_steps,
        cfg_scale@,
        opt_str_view(flow_shift),
    ));
    r
}


proof fn lemma_brace_member(acc: Seq<char>, key: Seq<char>, value: Seq<char>)
    ensures
        "{"@ + (acc + ","@ + crate::json::quoted(key) + ":"@ + value) == ("{"@ + acc) + ","@
            + member_text(key, value),
{
    assert("{"@ + (acc + ","@ + crate::json::quoted(key) + ":"@ + value) =~= ("{"@ + acc) + ","@
        + member_text(key, value));
}

/// A member of a JSON object: the quoted key, a colon and the value's text.
pub open spec fn member_text(key: Seq<char>, value: Seq<char>) -> Seq<char> {
    crate::json::quoted(key) + ":"@ + value
}

/// Law: the body of a txt2img request carries each value under its own
/// key, in this order: "prompt" the request's prompt (with the flow-shift
/// tag where a flow shift is asked for), "width" the decimal text of the
/// request's width, "height" that of its height, "steps" the engine's step
/// count, "cfg_scale" the guidance text, "seed" the request's seed (the
/// default seed where it gives none), "batch_size" its image count; then
/// "negative_prompt", "sampler_name" and "scheduler" where the request
/// names them.
pub proof fn lemma_txt2img_body_names_each_field(
    r: crate::request::ImageGenerationRequest,
    engine_steps: u64,
    cfg: Seq<char>,
    flow: Option<Seq<char>>,
)
    ensures
        txt2img_text(r, engine_steps, cfg, flow) == "{"@ + member_text(
            "prompt"@,
            crate::json::quoted(txt2img_prompt(r.prompt@, flow)),
        ) + ","@ + member_text("width"@, crate::text::decimal(r.width as nat)) + ","@ + member_text(
            "height"@,
            crate::text::decimal(r.height as nat),
        ) + ","@ + member_text("steps"@, crate::text::decimal(engine_steps as nat)) + ","@
            + member_text("cfg_scale"@, cfg) + ","@ + member_text(
            "seed"@,
            crate::text::decimal(
                (match r.seed {
                    Some(s) => s,
                    None => crate::DEFAULT_SEED,
                }) as nat,
            ),
        ) + ","@ + member_text("batch_size"@, crate::text::decimal(r.image_count as nat))
            + opt_text_member("negative_prompt"@, opt_view(r.negative_prompt)) + opt_text_member(
            "sampler_name"@,
            opt_view(r.sampling_method),
        ) + opt_text_member("scheduler"@, opt_view(r.scheduler)) + "}"@,
{
    reveal(txt2img_members);
    let q = |k: Seq<char>| crate::json::quoted(k);
    let seed: u32 = match r.seed {
        Some(s) => s,
        None => crate::DEFAULT_SEED,
    };
    let dw = crate::text::decimal(r.width as nat);
    let dh = crate::text::decimal(r.height as nat);
    let ds = crate::text::decimal(engine_steps as nat);
    let dseed = crate::text::decimal(seed as nat);
    let dn = crate::text::decimal(r.image_count as nat);
    let s0 = q("prompt"@) + ":"@ + q(txt2img_prompt(r.prompt@, flow));
    let s1 = s0 + ","@ + q("width"@) + ":"@ + dw;
    let s2 = s1 + ","@ + q("height"@) + ":"@ + dh;
    let s3 = s2 + ","@ + q("steps"@) + ":"@ + ds;
    let s4 = s3 + ","@ + q("cfg_scale"@) + ":"@ + cfg;
    let s5 = s4 + ","@ + q("seed"@) + ":"@ + dseed;
    let s6 = s5 + ","@ + q("batch_size"@) + ":"@ + dn;
    assert(txt2img_members(r, engine_steps, cfg, flow) == s6);
    let l0 = "{"@ + member_text("prompt"@, q(txt2img_prompt(r.prompt@, flow)));
    assert(l0 == "{"@ + s0);
    lemma_brace_member(s0, "width"@, dw);
    let l1 = l0 + ","@ + member_text("width"@, dw);
    lemma_brace_member(s1, "height"@, dh);
    let l2 = l1 + ","@ + member_text("height"@, dh);
    lemma_brace_member(s2, "steps"@, ds);
    let l3 = l2 + ","@ + member_text("steps"@, ds);
    lemma_brace_member(s3, "cfg_scale"@, cfg);
    let l4 = l3 + ","@ + member_text("cfg_scale"@, cfg);
    lemma_brace_member(s4, "seed"@, dseed);
    let l5 = l4 + ","@ + member_text("seed"@, dseed);
    lemma_brace_member(s5, "batch_size"@, dn);
    let l6 = l5 + ","@ + member_text("batch_size"@, dn);
    assert(l6 == "{"@ + s6);
}

} // verus!
