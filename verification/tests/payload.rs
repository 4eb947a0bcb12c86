use mayhem_engine::artifact::ArtifactFormat;
use mayhem_engine::digest::{
    check_digest_pins, check_hash_path_bound, hash_path_is_bound, hash_path_needs_header_check,
};
use mayhem_engine::error::EngineError;
use mayhem_engine::header::{artifact_header_check, HeaderCheck};
use mayhem_engine::payload::{
    ace_step_primary_path, chatterbox_safetensors_payload_path, choose_payload, comfyui_main_path,
    file_extension, join_path, mlx_weights_path, piper_config_candidates, piper_config_path,
    piper_voice_config, piper_voice_model_path, stable_diffusion_payload_path,
    transformers_safetensors_payload_path, trt_llm_payload_path, vllm_safetensors_payload_path,
    whisper_ggml_payload_path, DirEntryInfo, PathKind,
};

fn file(name: &str) -> DirEntryInfo {
    DirEntryInfo { name: name.to_owned(), is_file: true }
}

fn dir(name: &str) -> DirEntryInfo {
    DirEntryInfo { name: name.to_owned(), is_file: false }
}

fn config(message: &str) -> EngineError {
    EngineError::InvalidConfig(message.to_owned())
}

#[test]
fn preferred_names_win_then_the_first_payload_by_name() {
    let entries = [file("b.safetensors"), file("a.safetensors"), file("model.safetensors")];
    assert_eq!(choose_payload(&entries, &["model.safetensors"], &["safetensors"]), Some(2));
    assert_eq!(choose_payload(&entries, &[], &["safetensors"]), Some(1));
    assert_eq!(choose_payload(&entries, &["missing.bin"], &["bin"]), None);
    // A preferred name must be a file; payload candidates need not be.
    let entries = [dir("model.safetensors"), dir("z.safetensors"), file("readme.md")];
    assert_eq!(choose_payload(&entries, &["model.safetensors"], &["safetensors"]), Some(0));
    // Names order by code point: upper case before lower case.
    let entries = [file("b.bin"), file("B.bin"), file(".bin"), file("a.BIN")];
    assert_eq!(choose_payload(&entries, &[], &["bin"]), Some(1));
}

#[test]
fn extensions_follow_path_rules() {
    assert_eq!(file_extension("/m/model.safetensors"), Some("safetensors".to_owned()));
    assert_eq!(file_extension("/m/archive.tar.gz"), Some("gz".to_owned()));
    assert_eq!(file_extension("/m/.hidden"), None);
    assert_eq!(file_extension("/m/noext"), None);
    assert_eq!(file_extension("/m/trailing."), Some(String::new()));
    assert_eq!(join_path("/m", "x"), "/m/x");
    assert_eq!(join_path("/m/", "x"), "/m/x");
    assert_eq!(join_path("", "x"), "x");
}

#[test]
fn payload_paths_of_each_format() {
    let entries = [file("b.safetensors"), file("a.safetensors")];
    assert_eq!(mlx_weights_path("/m", PathKind::File, &[]), Ok("/m".to_owned()));
    assert_eq!(
        mlx_weights_path("/m", PathKind::Missing, &[]),
        Err(EngineError::ModelPathMissing("/m".to_owned()))
    );
    assert_eq!(mlx_weights_path("/m", PathKind::Directory, &entries), Ok("/m/a.safetensors".to_owned()));
    assert_eq!(
        mlx_weights_path("/m", PathKind::Directory, &[file("x.bin")]),
        Err(config("MLX artifact directory /m contains no .safetensors weights"))
    );

    let entries = [file("model-00001-of-00001.safetensors"), file("a.safetensors"), file("config.json")];
    assert_eq!(
        vllm_safetensors_payload_path("/v", PathKind::Directory, &entries, Some(b"{}")),
        Ok("/v/model-00001-of-00001.safetensors".to_owned())
    );
    assert_eq!(
        vllm_safetensors_payload_path("/v", PathKind::Directory, &entries, Some(b"[]")),
        Err(config("vLLM checkpoint config /v/config.json is not a JSON object"))
    );
    assert!(matches!(
        vllm_safetensors_payload_path("/v", PathKind::Directory, &entries, Some(b"{")),
        Err(EngineError::Json(_))
    ));
    assert_eq!(
        vllm_safetensors_payload_path("/v", PathKind::Directory, &[], None),
        Err(config("vLLM artifact directory /v contains no .safetensors payload"))
    );

    let entries = [file("rank0.engine"), file("config.json")];
    assert_eq!(
        trt_llm_payload_path("/t", PathKind::Directory, &entries, Some(b"{}")),
        Ok("/t/rank0.engine".to_owned())
    );
    assert_eq!(
        trt_llm_payload_path("/t", PathKind::Directory, &[], None),
        Err(config("TensorRT-LLM artifact directory /t contains no .safetensors, .engine, or .plan payload"))
    );

    let entries = [file("z.ckpt"), file("sd-turbo.safetensors"), file("model.gguf")];
    assert_eq!(
        stable_diffusion_payload_path("/s", PathKind::Directory, &entries),
        Ok("/s/model.gguf".to_owned())
    );
    assert_eq!(
        whisper_ggml_payload_path("/w", PathKind::Directory, &[file("ggml-base.bin")]),
        Ok("/w/ggml-base.bin".to_owned())
    );
    assert_eq!(
        whisper_ggml_payload_path("/w", PathKind::Directory, &[]),
        Err(config("whisper.cpp artifact directory /w contains no .bin payload"))
    );
    assert_eq!(
        piper_voice_model_path("/p", PathKind::Directory, &[file("b.onnx"), file("voice.onnx")]),
        Ok("/p/voice.onnx".to_owned())
    );
    assert_eq!(
        piper_voice_model_path("/p", PathKind::Directory, &[]),
        Err(config("Piper voice directory /p contains no .onnx model"))
    );
}

#[test]
fn chatterbox_weights_are_the_t3_checkpoint() {
    let root = [file("t3_cfg.safetensors")];
    assert_eq!(
        chatterbox_safetensors_payload_path("/c", PathKind::Directory, None, &root),
        Ok("/c/t3_cfg.safetensors".to_owned())
    );
    assert_eq!(
        chatterbox_safetensors_payload_path("/c/t3_cfg.safetensors", PathKind::File, Some("/c"), &root),
        Ok("/c/t3_cfg.safetensors".to_owned())
    );
    assert_eq!(
        chatterbox_safetensors_payload_path("/c/other.safetensors", PathKind::File, Some("/c"), &root),
        Err(config(
            "original Chatterbox primary artifact must be /c/t3_cfg.safetensors, got /c/other.safetensors"
        ))
    );
    assert_eq!(
        chatterbox_safetensors_payload_path("/c", PathKind::Directory, None, &[]),
        Err(config("original Chatterbox artifact /c is missing t3_cfg.safetensors"))
    );
    assert_eq!(
        chatterbox_safetensors_payload_path("weights", PathKind::File, None, &[]),
        Err(config("Chatterbox weights path weights has no parent"))
    );
}

fn sidecars() -> Vec<Option<Vec<u8>>> {
    vec![Some(b"{}".to_vec()), Some(b"{}".to_vec()), Some(b"{}".to_vec()), Some(b"{}".to_vec())]
}

#[test]
fn transformers_weights_need_every_sidecar() {
    let entries = [file("a.safetensors"), file("model.safetensors")];
    assert_eq!(
        transformers_safetensors_payload_path("/asr", PathKind::Directory, None, &entries, &sidecars()),
        Ok("/asr/model.safetensors".to_owned())
    );
    assert_eq!(
        transformers_safetensors_payload_path("/asr/w.safetensors", PathKind::File, Some("/asr"), &entries, &sidecars()),
        Ok("/asr/w.safetensors".to_owned())
    );
    let mut missing = sidecars();
    missing[2] = None;
    assert_eq!(
        transformers_safetensors_payload_path("/asr", PathKind::Directory, None, &entries, &missing),
        Err(config("Transformers ASR artifact /asr is missing required sidecar tokenizer.json"))
    );
    let mut not_object = sidecars();
    not_object[1] = Some(b"3".to_vec());
    assert_eq!(
        transformers_safetensors_payload_path("/asr", PathKind::Directory, None, &entries, &not_object),
        Err(config("Transformers ASR sidecar /asr/processor_config.json is not a JSON object"))
    );
    assert_eq!(
        transformers_safetensors_payload_path("/asr", PathKind::Directory, None, &[], &sidecars()),
        Err(config("Transformers ASR artifact /asr contains no .safetensors weights"))
    );
    assert_eq!(
        transformers_safetensors_payload_path("/asr", PathKind::Missing, None, &[], &sidecars()),
        Err(EngineError::ModelPathMissing("/asr".to_owned()))
    );
}

#[test]
fn piper_configs_sit_next_to_the_model() {
    assert_eq!(
        piper_config_candidates("/p/voice.onnx"),
        ("/p/voice.onnx.json".to_owned(), "/p/voice.json".to_owned())
    );
    assert_eq!(piper_voice_config("/p/voice.onnx", true, true), Ok("/p/voice.onnx.json".to_owned()));
    assert_eq!(piper_voice_config("/p/voice.onnx", false, true), Ok("/p/voice.json".to_owned()));
    assert_eq!(
        piper_voice_config("/p/voice.onnx", false, false),
        Err(config(
            "Piper voice /p/voice.onnx is missing config sidecar (expected /p/voice.onnx.json or /p/voice.json)"
        ))
    );
}

#[test]
fn format_specific_artifact_checks() {
    assert_eq!(artifact_header_check(ArtifactFormat::Gguf, "/m.gguf"), HeaderCheck::GgufMagic);
    assert_eq!(artifact_header_check(ArtifactFormat::VllmSafetensors, "/v/x"), HeaderCheck::Safetensors);
    assert_eq!(
        artifact_header_check(ArtifactFormat::TensorRtLlmCheckpoint, "/t/rank0.engine"),
        HeaderCheck::Nothing
    );
    assert_eq!(
        artifact_header_check(ArtifactFormat::StableDiffusionCheckpoint, "/s/model.gguf"),
        HeaderCheck::GgufMagic
    );
    assert_eq!(artifact_header_check(ArtifactFormat::PiperVoice, "/p/v.onnx"), HeaderCheck::Nothing);

    assert_eq!(
        ace_step_primary_path("/a", PathKind::Directory),
        Err(config("ACE-Step primary artifact /a must be a safetensors file"))
    );
    assert_eq!(comfyui_main_path("/c", true), Ok("/c/main.py".to_owned()));
    assert_eq!(
        comfyui_main_path("/c", false),
        Err(config("ComfyUI runtime /c must contain main.py"))
    );
    assert_eq!(piper_config_path("/p", PathKind::Directory), Err(config("Piper config /p is not a file")));
}

#[test]
fn digest_pins_bind_the_hashed_file_to_the_artifact() {
    assert_eq!(check_digest_pins(None, None), Ok(()));
    assert_eq!(check_digest_pins(Some("ab"), Some("/m/w")), Ok(()));
    assert_eq!(
        check_digest_pins(None, Some("/m/w")),
        Err(config("artifact sha256_path requires an expected sha256"))
    );
    assert!(hash_path_is_bound(true, "/m", "/m/w.safetensors"));
    assert!(hash_path_is_bound(true, "/", "/m"));
    assert!(!hash_path_is_bound(true, "/m", "/mx/w"));
    assert!(!hash_path_is_bound(true, "/m", "/"));
    assert!(hash_path_is_bound(false, "/m.gguf", "/m.gguf"));
    assert!(!hash_path_is_bound(false, "/m.gguf", "/m.gguf/x"));
    assert_eq!(
        check_hash_path_bound(false, "/x", "/m"),
        Err(config("artifact sha256_path /x is outside load artifact /m"))
    );
    assert!(hash_path_needs_header_check(ArtifactFormat::MlxSafetensors, "/m/other", "/m/model.safetensors"));
    assert!(!hash_path_needs_header_check(ArtifactFormat::MlxSafetensors, "/m/model.safetensors", "/m/model.safetensors"));
    assert!(!hash_path_needs_header_check(ArtifactFormat::VllmSafetensors, "/m/other", "/m/model.safetensors"));
}

use mayhem_engine::payload::require_trt_engine_payload;

#[test]
fn trt_loads_need_a_prebuilt_engine() {
    assert_eq!(
        require_trt_engine_payload(None, PathKind::Missing, &[]),
        Err(config("TensorRT-LLM loading requires a prebuilt engine directory; run the seal-time engine build first"))
    );
    assert_eq!(
        require_trt_engine_payload(Some("/e"), PathKind::Missing, &[]),
        Err(config("TensorRT-LLM engine directory /e is missing; run the seal-time engine build first"))
    );
    assert_eq!(require_trt_engine_payload(Some("/e"), PathKind::Directory, &[dir("rank0.plan")]), Ok(()));
    assert_eq!(
        require_trt_engine_payload(Some("/e"), PathKind::Directory, &[file("config.json")]),
        Err(config(
            "TensorRT-LLM engine directory /e contains no .engine or .plan payload; run the seal-time engine build first"
        ))
    );
}
