use mayhem_engine::config::{validate_load_config, LoadConfig};
use mayhem_engine::error::EngineError;
use mayhem_engine::json::{JsonNumber, JsonValue};
use mayhem_engine::request::{
    valid_speciality_name, GenerateRequest, GenerateSpecialityParameter,
    GenerateSpecialityTarget, ImageGenerationRequest, MediaGenerationRequest,
};
use mayhem_engine::types::{EmbeddingRequest, FinishReason, SpeechReferenceAudio, Tokenization, UsageCounters};
use mayhem_engine::worker::{windows_worker_working_set_bounds, WINDOWS_MINIMUM_WORKING_SET_BYTES};
use mayhem_engine::workflow::{
    validate_workflow_input_file, workflow_input_filename_is_safe, WorkflowGenerationRequest,
    WorkflowInputFile,
};
use mayhem_engine::CRATE_NAME;

fn text(value: &str) -> JsonValue {
    JsonValue::String(value.to_owned())
}

fn object(members: Vec<(&str, JsonValue)>) -> JsonValue {
    JsonValue::Object(members.into_iter().map(|(k, v)| (k.to_owned(), v)).collect())
}

#[test]
fn exposes_crate_name() {
    assert_eq!(CRATE_NAME, "mayhem-engine");
}

#[test]
fn mlx_multimodal_runtime_is_bound_to_mlx_artifacts() {
    let mut mlx = LoadConfig::mlx_safetensors("/tmp/model.safetensors");
    mlx.mlx_runtime.multimodal = true;
    validate_load_config(&mlx).expect("MLX artifact accepts MLX multimodal semantics");

    let mut gguf = LoadConfig::gguf("/tmp/model.gguf");
    gguf.mlx_runtime.multimodal = true;
    let error = validate_load_config(&gguf).expect_err("GGUF must reject MLX semantics");
    assert!(error.message().contains("require an MLX safetensors artifact"));
}

#[test]
fn windows_worker_containment_uses_a_valid_minimum_working_set() {
    let maximum = 8 * 1024 * 1024;
    assert_eq!(
        windows_worker_working_set_bounds(maximum).unwrap(),
        (WINDOWS_MINIMUM_WORKING_SET_BYTES, maximum as usize)
    );
    assert!(windows_worker_working_set_bounds((WINDOWS_MINIMUM_WORKING_SET_BYTES - 1) as u64).is_err());
}

#[test]
fn working_set_refusal_names_the_limit() {
    assert_eq!(
        windows_worker_working_set_bounds(10).unwrap_err(),
        EngineError::InvalidConfig(
            "Windows worker memory limit 10 is below the minimum supported working set of 1048576 bytes"
                .to_owned()
        )
    );
}

#[test]
fn workflow_request_requires_graph_object_and_timeout() {
    WorkflowGenerationRequest::new(object(vec![(
        "1",
        object(vec![("class_type", text("EmptyImage"))]),
    )]))
    .validate()
    .expect("object workflow is valid");

    let non_object = WorkflowGenerationRequest::new(JsonValue::Array(vec![
        text("not"),
        text("a"),
        text("graph"),
    ]));
    assert!(non_object.validate().is_err());

    let mut zero_timeout = WorkflowGenerationRequest::new(object(vec![]));
    zero_timeout.timeout_ms = 0;
    assert!(zero_timeout.validate().is_err());
}

fn upload(name: &str) -> WorkflowInputFile {
    WorkflowInputFile {
        filename: name.to_owned(),
        content_type: "image/png".to_owned(),
        bytes: vec![1, 2, 3],
    }
}

#[test]
fn workflow_uploads_need_safe_relative_names() {
    for name in ["input.png", "inputs/a-b_c.1.png", "x"] {
        assert!(workflow_input_filename_is_safe(name), "{name}");
    }
    for name in [
        "", "/etc/passwd", "\\share", "a\\b", "../up.png", "a/./b", "a//b", "a/", "ünï.png",
        "sp ace.png",
    ] {
        assert!(!workflow_input_filename_is_safe(name), "{name}");
    }
    assert!(!workflow_input_filename_is_safe(&"a".repeat(241)));
    assert!(workflow_input_filename_is_safe(&"a".repeat(240)));
}

#[test]
fn workflow_upload_errors_name_the_file() {
    let mut empty = upload("in.png");
    empty.bytes.clear();
    assert_eq!(
        validate_workflow_input_file(&empty).unwrap_err(),
        EngineError::InvalidRequest("workflow input file in.png is empty".to_owned())
    );
    assert_eq!(
        validate_workflow_input_file(&upload("../x")).unwrap_err(),
        EngineError::InvalidRequest("workflow input file ../x is not a safe relative path".to_owned())
    );
    let mut untyped = upload("in.png");
    untyped.content_type = "  ".to_owned();
    assert_eq!(
        validate_workflow_input_file(&untyped).unwrap_err(),
        EngineError::InvalidRequest("workflow input file in.png is missing content_type".to_owned())
    );
    let mut request = WorkflowGenerationRequest::new(object(vec![]));
    request.input_files = vec![upload("ok.png"), untyped];
    assert!(request.validate().is_err());
}

fn media(endpoint_family: &str, request: JsonValue) -> MediaGenerationRequest {
    MediaGenerationRequest {
        endpoint_family: endpoint_family.to_owned(),
        prompt: String::new(),
        request,
        duration_seconds: None,
        frame_count: None,
        step_count: None,
        response_format: None,
    }
}

#[test]
fn media_validation_allows_only_task_complete_music_without_a_prompt() {
    media(
        "mayhem_music_generations",
        object(vec![("lyrics", text("[Verse]\nA lyrics-only song"))]),
    )
    .validate()
    .expect("music accepts lyrics-only text2music");
    media(
        "mayhem_music_generations",
        object(vec![("caption", text("A caption-only song"))]),
    )
    .validate()
    .expect("music accepts the caption prompt alias");
    media(
        "mayhem_music_generations",
        object(vec![
            ("task_type", text("cover")),
            (
                "source_audio",
                object(vec![
                    ("encoding", text("base64")),
                    ("data", text("UklGRg==")),
                    ("content_type", text("audio/wav")),
                ]),
            ),
        ]),
    )
    .validate()
    .expect("music accepts a source-driven cover");

    for invalid in [
        media("mayhem_audio_generations", object(vec![("lyrics", text("not music"))])),
        media("mayhem_music_generations", object(vec![])),
        media(
            "mayhem_music_generations",
            object(vec![("task_type", text("cover")), ("lyrics", text("missing source"))]),
        ),
        media(
            "mayhem_music_generations",
            object(vec![("task_type", text("extract")), ("source_audio", text("UklGRg=="))]),
        ),
    ] {
        assert!(invalid.validate().is_err());
    }
}

#[test]
fn media_counts_must_be_positive() {
    let mut request = media("mayhem_video_generations", object(vec![]));
    request.prompt = "a cat".to_owned();
    request.validate().unwrap();
    request.frame_count = Some(0);
    assert_eq!(
        request.validate().unwrap_err(),
        EngineError::InvalidConfig("media generation frame_count must be positive when supplied".to_owned())
    );
    request.frame_count = Some(3);
    request.request = text("body");
    assert!(request.validate().is_err());
}

fn speciality(name: &str) -> GenerateSpecialityParameter {
    GenerateSpecialityParameter {
        name: name.to_owned(),
        level: "low".to_owned(),
        target: GenerateSpecialityTarget::ChatTemplateKwarg,
        native_path: "enable_thinking".to_owned(),
        value: JsonValue::Bool(true),
        max_reasoning_tokens: None,
    }
}

#[test]
fn sampling_ranges_follow_the_request_contract() {
    let mut request = GenerateRequest::new("hi");
    request.validate_sampling().unwrap();
    request.temperature = Some(2.0f32.to_bits());
    request.validate_sampling().unwrap();
    request.temperature = Some(2.5f32.to_bits());
    assert!(request.validate_sampling().is_err());
    request.temperature = Some(f32::NAN.to_bits());
    assert!(request.validate_sampling().is_err());
    request.temperature = Some((-0.0f32).to_bits());
    request.validate_sampling().unwrap();
    request.temperature = None;
    request.top_p = Some(0.0f32.to_bits());
    assert_eq!(
        request.validate_sampling().unwrap_err(),
        EngineError::InvalidConfig("top_p must be finite and in (0, 1]".to_owned())
    );
    request.top_p = Some(1.0f32.to_bits());
    request.frequency_penalty = Some((-2.0f32).to_bits());
    request.validate_sampling().unwrap();
    request.frequency_penalty = Some(f32::NEG_INFINITY.to_bits());
    assert!(request.validate_sampling().is_err());
    request.frequency_penalty = None;
    request.top_k = Some(1_000_001);
    assert!(request.validate_sampling().is_err());
    request.top_k = Some(40);
    request.stop = vec!["a".to_owned(); 5];
    assert!(request.validate_sampling().is_err());
    request.stop = vec![String::new()];
    assert!(request.validate_sampling().is_err());
    request.stop = vec!["</s>".to_owned()];
    request.validate_sampling().unwrap();
    request.speciality_parameters = vec![speciality("reasoning_effort"), speciality("reasoning_effort")];
    assert!(request.validate_sampling().is_err());
    request.speciality_parameters = vec![speciality("reasoning_effort"), speciality("other")];
    request.validate_sampling().unwrap();
}

#[test]
fn speciality_names_are_short_and_safe() {
    assert!(valid_speciality_name("reasoning.effort-v2_x"));
    assert!(!valid_speciality_name(""));
    assert!(!valid_speciality_name("has space"));
    assert!(!valid_speciality_name(&"a".repeat(129)));
}

#[test]
fn image_requests_are_bounded() {
    let request = ImageGenerationRequest::new("a lighthouse");
    request.validate().unwrap();
    let mut wide = request.clone();
    wide.width = 4096;
    assert_eq!(
        wide.validate().unwrap_err(),
        EngineError::InvalidConfig("image dimensions must each be between 64 and 2048".to_owned())
    );
    let mut guided = request.clone();
    guided.guidance_scale = 50.5f32.to_bits();
    assert!(guided.validate().is_err());
    let mut shifted = request.clone();
    shifted.flow_shift = Some(0.5f32.to_bits());
    assert!(shifted.validate().is_err());
    shifted.flow_shift = Some(3.0f32.to_bits());
    shifted.validate().unwrap();
    let mut sampler = request.clone();
    sampler.sampling_method = Some("é".repeat(65));
    assert!(sampler.validate().is_err());
    sampler.sampling_method = Some("é".repeat(64));
    sampler.validate().unwrap();
    let mut blank = request;
    blank.prompt = " \n".to_owned();
    assert!(blank.validate().is_err());
}

#[test]
fn plain_values_of_the_request_types() {
    let usage = UsageCounters::new(u32::MAX, 5);
    assert_eq!(usage.total_tokens, u32::MAX);
    assert_eq!(UsageCounters::new(3, 4).total_tokens, 7);
    assert_eq!(FinishReason::Stop.as_str(), "stop");
    assert_eq!(FinishReason::Length.as_str(), "length");
    let tokens = Tokenization { token_ids: vec![1, 2, 3] };
    assert_eq!(tokens.len(), 3);
    assert!(!tokens.is_empty());
    assert!(Tokenization { token_ids: vec![] }.is_empty());
    let embed = EmbeddingRequest::many(vec!["a".to_owned(), "b".to_owned()]).with_dimensions(8);
    assert_eq!(embed.inputs, vec!["a".to_owned(), "b".to_owned()]);
    assert_eq!(embed.dimensions, Some(8));
    assert_eq!(EmbeddingRequest::new("x").inputs, vec!["x".to_owned()]);
    let audio = SpeechReferenceAudio::wav(vec![1, 2]);
    assert_eq!(audio.content_type.as_deref(), Some("audio/wav"));
    let request = GenerateRequest::new("p").with_max_new_tokens(9).with_ignore_eos(true);
    assert_eq!(request.max_new_tokens, 9);
    assert!(request.ignore_eos);
    assert_eq!(GenerateRequest::new("p").max_new_tokens, 64);
    let _ = JsonValue::Number(JsonNumber::PosInt(1));
}
