use mayhem_engine::error::EngineError;
use mayhem_engine::stable_diffusion::{
    is_metal_text_encoder_empty_state_failure, is_plain_metal_backend, max_image_response_bytes,
    recovery_device_placement, retry_after_restart, retry_once_after_worker_exit,
    stable_diffusion_backend_for_placement,
    StableDiffusionDevicePlacement, APPLE_METAL_CPU_TEXT_ENCODER_BACKEND,
};

#[test]
fn healthy_apple_metal_path_remains_full_metal() {
    let placement = recovery_device_placement(
        StableDiffusionDevicePlacement::Preferred,
        Some("metal"),
        "generation completed normally",
    );

    assert_eq!(placement, StableDiffusionDevicePlacement::Preferred);
    assert_eq!(
        stable_diffusion_backend_for_placement(Some("metal".to_owned()), placement).as_deref(),
        Some("metal")
    );
}

#[test]
fn apple_metal_prompt_encoder_assertion_selects_cpu_text_encoder() {
    let placement = recovery_device_placement(
        StableDiffusionDevicePlacement::Preferred,
        Some("metal"),
        "GGML_ASSERT(!hidden_states.empty()) failed at src/conditioning/conditioner.hpp:1972",
    );

    assert_eq!(placement, StableDiffusionDevicePlacement::AppleMetalCpuTextEncoder);
    assert_eq!(
        stable_diffusion_backend_for_placement(Some("metal".to_owned()), placement).as_deref(),
        Some(APPLE_METAL_CPU_TEXT_ENCODER_BACKEND)
    );
}

#[test]
fn prompt_encoder_assertion_does_not_override_other_or_explicit_placements() {
    let failure = "assertion !hidden_states.empty() failed in src/conditioning/conditioner.cpp";
    for backend in ["cuda", "cpu", "te=metal,diffusion=metal,vae=metal"] {
        assert_eq!(
            recovery_device_placement(
                StableDiffusionDevicePlacement::Preferred,
                Some(backend),
                failure,
            ),
            StableDiffusionDevicePlacement::Preferred,
            "backend {backend} must remain authoritative"
        );
    }
}

#[test]
fn unrelated_apple_metal_worker_exit_does_not_select_split_placement() {
    let placement = recovery_device_placement(
        StableDiffusionDevicePlacement::Preferred,
        Some("metal"),
        "sd-server exited after receiving SIGTERM",
    );

    assert_eq!(placement, StableDiffusionDevicePlacement::Preferred);
}

#[test]
fn plain_metal_ignores_case_and_surrounding_whitespace() {
    assert!(is_plain_metal_backend("  METAL\n"));
    assert!(is_plain_metal_backend("Metal"));
    assert!(!is_plain_metal_backend("metal2"));
    assert!(!is_plain_metal_backend(""));
}

#[test]
fn empty_state_failure_needs_conditioner_hidden_state_and_abort() {
    assert!(is_metal_text_encoder_empty_state_failure(
        "GGML_ABORT in CONDITIONER.CPP: hidden_states.empty()"
    ));
    assert!(!is_metal_text_encoder_empty_state_failure(
        "assert hidden_states.empty() failed"
    ));
    assert!(!is_metal_text_encoder_empty_state_failure(
        "conditioner.hpp: hidden_states.empty()"
    ));
}

#[test]
fn split_placement_is_kept_after_further_failures() {
    let placement = recovery_device_placement(
        StableDiffusionDevicePlacement::AppleMetalCpuTextEncoder,
        Some("cuda"),
        "sd-server exited after receiving SIGTERM",
    );
    assert_eq!(placement, StableDiffusionDevicePlacement::AppleMetalCpuTextEncoder);
    assert_eq!(recovery_device_placement(
        StableDiffusionDevicePlacement::Preferred,
        None,
        "assert hidden_states.empty() in conditioner.hpp",
    ), StableDiffusionDevicePlacement::Preferred);
}

#[test]
fn image_response_bound_is_twice_the_raw_pixels_plus_one_mebibyte() {
    assert_eq!(max_image_response_bytes(1, 512, 512).unwrap(), 3 * 1024 * 1024);
    assert_eq!(max_image_response_bytes(4, 2048, 2048).unwrap(), 2 * 4 * 2048 * 2048 * 4 + 1024 * 1024);
    assert_eq!(max_image_response_bytes(0, 512, 512).unwrap(), 1024 * 1024);
    let error = max_image_response_bytes(u32::MAX, u32::MAX, u32::MAX).unwrap_err();
    assert_eq!(
        error,
        EngineError::InvalidConfig("image response size exceeds platform limits".to_owned())
    );
}

#[derive(Default)]
struct RecoveryProbe {
    operations: usize,
    restarts: usize,
}

#[test]
fn confirmed_worker_exit_retries_the_request_exactly_once() {
    let mut probe = RecoveryProbe::default();
    let value = retry_once_after_worker_exit(
        &mut probe,
        |probe: &mut RecoveryProbe| {
            probe.operations += 1;
            if probe.operations == 1 {
                Err(EngineError::StableDiffusionCpp(
                    "worker closed without a response".to_owned(),
                ))
            } else {
                Ok("ready")
            }
        },
        |probe: &mut RecoveryProbe, _: &EngineError| {
            probe.restarts += 1;
            Ok(true)
        },
    )
    .expect("confirmed exit restarts and reruns readiness request");

    assert_eq!(value, "ready");
    assert_eq!(probe.operations, 2);
    assert_eq!(probe.restarts, 1);
}

#[test]
fn live_worker_error_is_not_retried() {
    let mut probe = RecoveryProbe::default();
    let error = retry_once_after_worker_exit(
        &mut probe,
        |probe: &mut RecoveryProbe| {
            probe.operations += 1;
            Err::<(), _>(EngineError::StableDiffusionCpp(
                "sd-server returned HTTP 500".to_owned(),
            ))
        },
        |probe: &mut RecoveryProbe, _: &EngineError| {
            probe.restarts += 1;
            Ok(false)
        },
    )
    .expect_err("a live worker error must be returned");

    assert!(error.message().contains("HTTP 500"));
    assert_eq!(probe.operations, 1);
    assert_eq!(probe.restarts, 1);
}

#[test]
fn failed_retry_does_not_start_a_recovery_loop() {
    let mut probe = RecoveryProbe::default();
    let error = retry_once_after_worker_exit(
        &mut probe,
        |probe: &mut RecoveryProbe| {
            probe.operations += 1;
            Err::<(), _>(EngineError::StableDiffusionCpp(format!(
                "worker failure {}",
                probe.operations
            )))
        },
        |probe: &mut RecoveryProbe, _: &EngineError| {
            probe.restarts += 1;
            Ok(true)
        },
    )
    .expect_err("the single retry also fails");

    assert!(error.message().contains("worker failure 2"));
    assert_eq!(probe.operations, 2);
    assert_eq!(probe.restarts, 1);
}

#[test]
fn a_first_success_runs_the_request_once_and_never_restarts() {
    let mut probe = RecoveryProbe::default();
    let value = retry_once_after_worker_exit(
        &mut probe,
        |probe: &mut RecoveryProbe| {
            probe.operations += 1;
            Ok(probe.operations)
        },
        |probe: &mut RecoveryProbe, _: &EngineError| {
            probe.restarts += 1;
            Ok(true)
        },
    );
    assert_eq!(value, Ok(1));
    assert_eq!(probe.restarts, 0);
}

#[test]
fn a_failed_restart_returns_the_restart_error() {
    let mut probe = RecoveryProbe::default();
    let error = retry_once_after_worker_exit(
        &mut probe,
        |probe: &mut RecoveryProbe| {
            probe.operations += 1;
            Err::<(), _>(EngineError::StableDiffusionCpp("worker failure 1".to_owned()))
        },
        |probe: &mut RecoveryProbe, _: &EngineError| {
            probe.restarts += 1;
            Err(EngineError::StableDiffusionCpp("restarting failed".to_owned()))
        },
    );
    assert_eq!(
        error,
        Err(EngineError::StableDiffusionCpp("restarting failed".to_owned()))
    );
    assert_eq!(probe.operations, 1);
    assert_eq!(probe.restarts, 1);
}

#[test]
fn restart_decision_follows_the_restart_hook() {
    let first = || EngineError::StableDiffusionCpp("worker closed without a response".to_owned());
    let restart = || EngineError::StableDiffusionCpp("restarting failed".to_owned());
    assert_eq!(retry_after_restart(first(), Ok(true)), None);
    assert_eq!(retry_after_restart(first(), Ok(false)), Some(first()));
    assert_eq!(retry_after_restart(first(), Err(restart())), Some(restart()));
}

use mayhem_engine::artifact::ArtifactFormat;
use mayhem_engine::config::LoadConfig;
use mayhem_engine::stable_diffusion::{
    check_sd_separate_models, check_sd_sidecar_format, validate_stable_diffusion_load,
};

#[test]
fn stable_diffusion_loads_need_checkpoints_and_sidecars() {
    let config = LoadConfig::stable_diffusion_checkpoint("/sd/model.safetensors");
    assert_eq!(validate_stable_diffusion_load(&config), Ok(()));
    let gguf = LoadConfig::gguf("/m.gguf");
    assert_eq!(
        validate_stable_diffusion_load(&gguf),
        Err(EngineError::InvalidConfig(
            "stable-diffusion.cpp backend requires stable-diffusion checkpoints, got Gguf".to_owned()
        ))
    );
    assert_eq!(check_sd_sidecar_format("VAE", ArtifactFormat::StableDiffusionCheckpoint), Ok(()));
    assert_eq!(
        check_sd_sidecar_format("LLM", ArtifactFormat::Gguf),
        Err(EngineError::InvalidConfig(
            "stable-diffusion.cpp LLM sidecar must use stable-diffusion checkpoint format".to_owned()
        ))
    );
    let mut separate = LoadConfig::stable_diffusion_checkpoint("/sd/model.safetensors");
    separate.stable_diffusion_cpp.separate_diffusion_model = true;
    assert_eq!(
        check_sd_separate_models(&separate),
        Err(EngineError::InvalidConfig(
            "separate stable-diffusion.cpp diffusion models require pinned LLM and VAE sidecars".to_owned()
        ))
    );
    assert_eq!(check_sd_separate_models(&config), Ok(()));
}

use mayhem_engine::stable_diffusion::{
    loaded_model_info, requested_stable_diffusion_backend, server_command_args,
};

fn argument_value<'a>(args: &'a [String], flag: &str) -> Option<&'a str> {
    args.iter()
        .position(|arg| arg == flag)
        .and_then(|index| args.get(index + 1))
        .map(String::as_str)
}

#[test]
fn server_command_wires_split_components() {
    let mut config = LoadConfig::stable_diffusion_checkpoint("/sd/diffusion.gguf");
    config.stable_diffusion_cpp.separate_diffusion_model = true;
    let args = server_command_args(
        &config,
        "/sd/diffusion.gguf",
        Some("/sd/text-encoder.gguf"),
        Some("/sd/vae.safetensors"),
        None,
        StableDiffusionDevicePlacement::Preferred,
        "127.0.0.1",
        18371,
    );
    assert_eq!(argument_value(&args, "--diffusion-model"), Some("/sd/diffusion.gguf"));
    assert_eq!(argument_value(&args, "--llm"), Some("/sd/text-encoder.gguf"));
    assert_eq!(argument_value(&args, "--vae"), Some("/sd/vae.safetensors"));
    assert_eq!(argument_value(&args, "--rng"), Some("cpu"));
    assert_eq!(argument_value(&args, "--backend"), None);
    assert!(!args.iter().any(|arg| arg == "-m"));
}

#[test]
fn server_command_lists_every_argument_in_order() {
    let mut config = LoadConfig::stable_diffusion_checkpoint("/sd/model.safetensors");
    config.stable_diffusion_backend = Some("vulkan".to_owned());
    let args = server_command_args(
        &config,
        "/sd/model.safetensors",
        None,
        None,
        None,
        StableDiffusionDevicePlacement::Preferred,
        "127.0.0.1",
        8080,
    );
    assert_eq!(
        args,
        vec![
            "-m", "/sd/model.safetensors", "--backend", "vulkan", "--rng", "cpu", "--listen-ip",
            "127.0.0.1", "--listen-port", "8080",
        ]
    );
    let split = server_command_args(
        &config,
        "/sd/model.safetensors",
        None,
        None,
        Some("metal"),
        StableDiffusionDevicePlacement::AppleMetalCpuTextEncoder,
        "::1",
        0,
    );
    assert_eq!(argument_value(&split, "--backend"), Some(APPLE_METAL_CPU_TEXT_ENCODER_BACKEND));
    assert_eq!(argument_value(&split, "--listen-port"), Some("0"));
}

#[test]
fn backend_override_prefers_a_nonblank_environment_value() {
    let mut config = LoadConfig::stable_diffusion_checkpoint("/sd/model.safetensors");
    assert_eq!(requested_stable_diffusion_backend(None, &config), None);
    config.stable_diffusion_backend = Some("cuda".to_owned());
    assert_eq!(requested_stable_diffusion_backend(None, &config).as_deref(), Some("cuda"));
    assert_eq!(requested_stable_diffusion_backend(Some("  "), &config).as_deref(), Some("cuda"));
    assert_eq!(requested_stable_diffusion_backend(Some("metal"), &config).as_deref(), Some("metal"));
}

#[test]
fn loaded_server_reports_the_configured_artifact() {
    let mut config = LoadConfig::stable_diffusion_checkpoint("/sd/model.safetensors");
    config.ctx_size = 2048;
    let info = loaded_model_info(&config);
    assert_eq!(info.backend, "stable-diffusion.cpp");
    assert_eq!(info.artifact, config.artifact);
    assert_eq!(info.ctx_size, 2048);
    assert_eq!(info.n_ctx_train, 0);
    assert_eq!(info.n_vocab, 0);
}

use mayhem_engine::json::to_json_text;
use mayhem_engine::request::ImageGenerationRequest;
use mayhem_engine::stable_diffusion::txt2img_body;

fn parsed(text: &str) -> serde_json::Value {
    serde_json::from_str(text).unwrap()
}

#[test]
fn txt2img_body_carries_every_request_setting() {
    let mut request = ImageGenerationRequest::new("a red square");
    request.negative_prompt = Some("blur".to_owned());
    request.image_count = 2;
    request.width = 64;
    request.height = 64;
    request.steps = 2;
    request.seed = Some(7);
    request.sampling_method = Some("euler".to_owned());
    request.scheduler = Some("discrete".to_owned());
    let body = txt2img_body(&request, 2, "1.25", Some("3.0"));
    assert_eq!(
        parsed(&to_json_text(&body)),
        parsed(
            r#"{"prompt":"a red square <sd_cpp_extra_args>{\"sample_params\":{\"flow_shift\":3.0}}</sd_cpp_extra_args>",
                "negative_prompt":"blur","batch_size":2,"width":64,"height":64,"steps":2,
                "cfg_scale":1.25,"seed":7,"sampler_name":"euler","scheduler":"discrete"}"#
        )
    );
}

#[test]
fn txt2img_body_uses_the_default_seed_and_leaves_out_absent_names() {
    let request = ImageGenerationRequest::new("a brass compass");
    let text = to_json_text(&txt2img_body(&request, 8, "1.0", None));
    assert_eq!(
        text,
        format!(
            "{{\"prompt\":\"a brass compass\",\"width\":512,\"height\":512,\"steps\":8,\"cfg_scale\":1.0,\"seed\":{},\"batch_size\":1}}",
            mayhem_engine::DEFAULT_SEED
        )
    );
}
