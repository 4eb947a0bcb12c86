use mayhem_engine::json::{JsonNumber, JsonValue};
use mayhem_engine::needle::{
    append_to_tail, insert_non_overlapping_root, needle_request_prompt, normalize_device,
    read_bounded_line, validate_execution_config, validate_needle_request, worker_stderr_text,
    ByteCursor, LineError, NeedleExecutionConfig, WorkerGenerationResult, MAX_DECODER_TOKENS,
    NEEDLE_MODEL_REVISION, NEEDLE_SOURCE_COMMIT,
};
use mayhem_engine::request::{GenerateRequest, GrammarSpec, ToolSpec};
use mayhem_engine::artifact::ArtifactFormat;
use mayhem_engine::config::LoadConfig;
use mayhem_engine::error::EngineError;
use mayhem_engine::needle::{
    check_needle_architecture, check_needle_file_artifact, check_needle_required_file, check_needle_load, check_needle_sidecar,
    check_needle_weights_digest, needle_finish_reason, needle_generate_output, needle_token_chunks,
    needle_worker_cache, MAX_ENCODER_TOKENS,
};
use mayhem_engine::types::FinishReason;
use sha2::Digest;

fn text(value: &str) -> JsonValue {
    JsonValue::String(value.to_owned())
}

fn object(members: Vec<(&str, JsonValue)>) -> JsonValue {
    JsonValue::Object(members.into_iter().map(|(k, v)| (k.to_owned(), v)).collect())
}

fn tool() -> JsonValue {
    object(vec![
        ("type", text("function")),
        (
            "function",
            object(vec![
                ("name", text("lookup")),
                (
                    "parameters",
                    object(vec![
                        ("type", text("object")),
                        ("properties", object(vec![("id", object(vec![("type", text("integer"))]))])),
                        ("required", JsonValue::Array(vec![text("id")])),
                        ("additionalProperties", JsonValue::Bool(false)),
                    ]),
                ),
            ]),
        ),
    ])
}

#[test]
fn worker_protocol_reader_is_bounded() {
    let mut valid = ByteCursor::new(b"{\"ok\":true}\n".to_vec());
    assert_eq!(
        read_bounded_line(&mut valid, 32).expect("line"),
        Some("{\"ok\":true}\n".to_owned())
    );
    let mut oversized = ByteCursor::new(vec![b'x'; 33]);
    assert!(read_bounded_line(&mut oversized, 32).is_err());
}

#[test]
fn protocol_lines_are_read_one_at_a_time() {
    let mut cursor = ByteCursor::new(b"a\nbc\npartial".to_vec());
    assert_eq!(read_bounded_line(&mut cursor, 8).unwrap(), Some("a\n".to_owned()));
    assert_eq!(read_bounded_line(&mut cursor, 8).unwrap(), Some("bc\n".to_owned()));
    assert_eq!(read_bounded_line(&mut cursor, 8), Err(LineError::UnexpectedEof));
    let mut empty = ByteCursor::new(Vec::new());
    assert_eq!(read_bounded_line(&mut empty, 8).unwrap(), None);
    let mut invalid = ByteCursor::new(vec![0xff, b'\n']);
    assert_eq!(read_bounded_line(&mut invalid, 8), Err(LineError::InvalidUtf8));
    let mut exact = ByteCursor::new(b"1234567\n".to_vec());
    assert_eq!(read_bounded_line(&mut exact, 8).unwrap(), Some("1234567\n".to_owned()));
}

#[test]
fn ordinary_chat_and_non_greedy_sampling_are_rejected() {
    let chat = GenerateRequest::new("hello");
    assert!(validate_needle_request(&chat).unwrap_err().message().contains("tools-only"));

    let mut sampled = GenerateRequest::new("look up one");
    sampled.tools = vec![tool()];
    sampled.temperature = Some(0.5f32.to_bits());
    assert!(validate_needle_request(&sampled).unwrap_err().message().contains("greedy"));
}

#[test]
fn greedy_tool_request_is_accepted_up_to_decoder_ceiling() {
    let mut request = GenerateRequest::new("look up one");
    request.tools = vec![tool()];
    request.max_new_tokens = MAX_DECODER_TOKENS;
    request.temperature = Some(0.0f32.to_bits());
    request.top_p = Some(1.0f32.to_bits());
    request.top_k = Some(1);
    assert!(validate_needle_request(&request).is_ok());
    request.grammar = Some(GrammarSpec::ToolCall {
        tools: vec![ToolSpec::new("lookup", object(vec![("type", text("object"))]))],
    });
    assert!(validate_needle_request(&request).is_ok());
    request.max_new_tokens = MAX_DECODER_TOKENS + 1;
    assert!(validate_needle_request(&request).is_err());

    request.max_new_tokens = MAX_DECODER_TOKENS;
    request.messages = vec![
        object(vec![("role", text("user")), ("content", text("look up one"))]),
        object(vec![("role", text("assistant")), ("content", text("history"))]),
    ];
    assert!(validate_needle_request(&request).unwrap_err().message().contains("single-shot"));
}

#[test]
fn endpoint_messages_override_rendered_prompt_with_native_query() {
    let mut request = GenerateRequest::new("<|im_start|>user\nlook up one<|im_end|>");
    request.tools = vec![tool()];
    request.messages = vec![object(vec![("role", text("user")), ("content", text("look up one"))])];
    assert_eq!(needle_request_prompt(&request).expect("native query"), "look up one");

    request.messages = vec![object(vec![
        ("role", text("user")),
        (
            "content",
            JsonValue::Array(vec![
                object(vec![("type", text("text")), ("text", text("look up"))]),
                object(vec![("type", text("text")), ("text", text("one"))]),
            ]),
        ),
    ])];
    assert_eq!(needle_request_prompt(&request).expect("text-part query"), "look up\none");

    request.messages = vec![object(vec![
        ("role", text("user")),
        ("content", JsonValue::Array(vec![object(vec![("type", text("image_url"))])])),
    ])];
    assert!(needle_request_prompt(&request).is_err());
}

#[test]
fn needle_refuses_stops_grammars_and_bad_content() {
    let mut request = GenerateRequest::new("look up one");
    request.tools = vec![tool()];
    request.stop = vec!["END".to_owned()];
    assert!(validate_needle_request(&request).unwrap_err().message().contains("pinned EOS"));
    request.stop.clear();
    request.grammar = Some(GrammarSpec::Gbnf { grammar: "root ::= \"x\"".to_owned(), root: "root".to_owned() });
    assert!(validate_needle_request(&request).unwrap_err().message().contains("external grammar"));
    request.grammar = None;
    request.messages = vec![object(vec![
        ("role", text("user")),
        ("content", JsonValue::Number(JsonNumber::PosInt(3))),
    ])];
    assert!(needle_request_prompt(&request).unwrap_err().message().contains("must be text"));
    request.messages = vec![object(vec![("role", text("user"))])];
    assert!(needle_request_prompt(&request).unwrap_err().message().contains("no content"));
}

#[test]
fn devices_are_normalized_to_cpu_or_cuda() {
    assert_eq!(normalize_device(" CUDA ").unwrap(), "cuda");
    assert_eq!(normalize_device("cpu").unwrap(), "cpu");
    assert!(normalize_device("mps").is_err());
    assert!(normalize_device("auto").is_err());
}

fn pinned_runtime() -> NeedleExecutionConfig {
    let files = [
        "config.json",
        "configuration_needle.py",
        "model.safetensors",
        "modeling_needle.py",
        "special_tokens_map.json",
        "tokenization_needle.py",
        "tokenizer.model",
        "tokenizer_config.json",
    ];
    NeedleExecutionConfig {
        api_version: 1,
        greedy_decoding_only: true,
        device: "cpu".to_owned(),
        dtype: "float32".to_owned(),
        max_decoder_tokens: 512,
        max_encoder_tokens: 1024,
        model_revision: NEEDLE_MODEL_REVISION.to_owned(),
        source_commit: NEEDLE_SOURCE_COMMIT.to_owned(),
        torch_version: "2.9.0".to_owned(),
        transformers_version: "4.57.0".to_owned(),
        trusted_file_sha256: files.iter().map(|f| (f.to_string(), "00".repeat(32))).collect(),
    }
}

#[test]
fn worker_runtime_must_match_the_pinned_release() {
    let runtime = pinned_runtime();
    validate_execution_config(&runtime, "cpu").unwrap();
    assert!(validate_execution_config(&runtime, "cuda").is_err());
    let mut missing = runtime.clone();
    missing.trusted_file_sha256.pop();
    assert!(validate_execution_config(&missing, "cpu").is_err());
    let mut renamed = runtime.clone();
    renamed.trusted_file_sha256[0].0 = "other.json".to_owned();
    assert!(validate_execution_config(&renamed, "cpu").is_err());
    let mut sampled = runtime;
    sampled.greedy_decoding_only = false;
    assert!(validate_execution_config(&sampled, "cpu").is_err());
}

fn parts(path: &str) -> Vec<String> {
    path.split('/').filter(|p| !p.is_empty()).map(str::to_owned).collect()
}

#[test]
fn library_roots_never_nest() {
    let mut roots = vec![parts("/venv/lib/python3.12")];
    insert_non_overlapping_root(&mut roots, parts("/venv/lib/python3.12/site-packages"));
    assert_eq!(roots, vec![parts("/venv/lib/python3.12")]);
    insert_non_overlapping_root(&mut roots, parts("/usr/lib/python3.12"));
    insert_non_overlapping_root(&mut roots, parts("/venv"));
    assert_eq!(roots, vec![parts("/usr/lib/python3.12"), parts("/venv")]);
}

#[test]
fn stderr_tail_keeps_the_latest_bytes() {
    let mut tail = Vec::new();
    append_to_tail(&mut tail, b"abcdef", 4);
    assert_eq!(tail, b"cdef");
    append_to_tail(&mut tail, b"gh", 4);
    assert_eq!(tail, b"efgh");
    append_to_tail(&mut tail, b"i", 4);
    assert_eq!(tail, b"fghi");
    assert_eq!(worker_stderr_text(b"  oops \xff\n"), "oops \u{fffd}");
}

#[test]
fn generation_metrics_are_bounded() {
    let result = WorkerGenerationResult {
        completion_tokens: 2,
        finish_reason: "stop".to_owned(),
        generation_ms: 12.5f64.to_bits(),
        output_text: "{}".to_owned(),
        output_tokens_per_second: 3.0f64.to_bits(),
        prefill_tokens_per_second: 0.0f64.to_bits(),
        prompt_eval_ms: (-0.0f64).to_bits(),
        prompt_tokens: 10,
        token_ids: vec![5, 8191],
        time_to_first_token_ms: 1.0f64.to_bits(),
    };
    result.validate().unwrap();
    let mut negative = result.clone();
    negative.generation_ms = (-1.0f64).to_bits();
    assert!(negative.validate().is_err());
    let mut infinite = result.clone();
    infinite.prompt_eval_ms = f64::INFINITY.to_bits();
    assert!(infinite.validate().is_err());
    let mut token = result;
    token.token_ids = vec![5, 8192];
    assert!(token.validate().is_err());
}

#[test]
fn explicit_devices_are_validated_without_ambient_state() {
    for device in ["cpu", "cuda"] {
        assert_eq!(normalize_device(device).expect("valid device"), device);
    }
    assert!(normalize_device("mps").is_err());
    assert!(normalize_device("auto").is_err());
}

fn needle_config() -> LoadConfig {
    let mut config = LoadConfig::transformers_safetensors("/models/needle");
    config.ctx_size = MAX_ENCODER_TOKENS;
    config
}

#[test]
fn needle_loads_pinned_transformers_weights_with_the_encoder_context() {
    assert_eq!(check_needle_load(&needle_config()), Ok(()));
    let mut other = needle_config();
    other.ctx_size = 2048;
    assert_eq!(
        check_needle_load(&other),
        Err(EngineError::InvalidConfig(
            "Needle has a fixed native encoder ceiling of 1024 tokens".to_owned()
        ))
    );
    let mut gguf = LoadConfig::gguf("/m.gguf");
    gguf.ctx_size = MAX_ENCODER_TOKENS;
    assert_eq!(
        check_needle_load(&gguf),
        Err(EngineError::InvalidConfig("Needle requires Transformers safetensors, got Gguf".to_owned()))
    );
    assert_eq!(needle_config().artifact.format, ArtifactFormat::TransformersSafetensors);
}

#[test]
fn needle_config_must_describe_the_pinned_architecture() {
    let pinned = object(vec![
        ("model_type", text("needle")),
        ("vocab_size", JsonValue::Number(JsonNumber::PosInt(8192))),
        ("is_encoder_decoder", JsonValue::Bool(true)),
    ]);
    assert_eq!(check_needle_architecture(&pinned), Ok(()));
    let refused = Err(EngineError::InvalidConfig(
        "Needle config.json does not describe the pinned architecture".to_owned(),
    ));
    let wrong_vocab = object(vec![
        ("model_type", text("needle")),
        ("vocab_size", JsonValue::Number(JsonNumber::PosInt(8191))),
        ("is_encoder_decoder", JsonValue::Bool(true)),
    ]);
    assert_eq!(check_needle_architecture(&wrong_vocab), refused);
    let decoder_only = object(vec![
        ("model_type", text("needle")),
        ("vocab_size", JsonValue::Number(JsonNumber::PosInt(8192))),
    ]);
    assert_eq!(check_needle_architecture(&decoder_only), refused);
    assert_eq!(check_needle_architecture(&JsonValue::Null), refused);
    assert_eq!(check_needle_sidecar("/m/config.json", &pinned), Ok(()));
    assert_eq!(
        check_needle_sidecar("/m/config.json", &JsonValue::Array(vec![])),
        Err(EngineError::InvalidConfig("Needle sidecar /m/config.json must be a JSON object".to_owned()))
    );
}

#[test]
fn needle_weights_are_pinned_by_file_and_digest() {
    assert_eq!(check_needle_file_artifact(false, false), Ok(()));
    assert_eq!(check_needle_file_artifact(true, true), Ok(()));
    assert_eq!(
        check_needle_file_artifact(true, false),
        Err(EngineError::InvalidConfig("Needle file artifacts must identify model.safetensors".to_owned()))
    );
    let weights = "/m/model.safetensors";
    assert_eq!(check_needle_weights_digest(weights, None, None, "ab12"), Ok(()));
    assert_eq!(check_needle_weights_digest(weights, Some(true), Some("AB12"), "ab12"), Ok(()));
    assert_eq!(
        check_needle_weights_digest(weights, Some(false), Some("ab12"), "ab12"),
        Err(EngineError::InvalidConfig(
            "Needle artifact sha256_path must identify model.safetensors".to_owned()
        ))
    );
    assert_eq!(
        check_needle_weights_digest(weights, None, Some("ff00"), "ab12"),
        Err(EngineError::ArtifactHashMismatch {
            path: weights.to_owned(),
            expected: "ff00".to_owned(),
            actual: "ab12".to_owned(),
        })
    );
}

#[test]
fn needle_worker_cache_is_named_by_root_and_device() {
    let expected = format!("{:x}", sha2::Sha256::digest(b"/models/needle\0cpu"));
    assert_eq!(
        needle_worker_cache(Some("/cache"), Some("/mh"), Some("/home/u"), "/tmp", "/models/needle", "cpu"),
        format!("/cache/workers/{expected}")
    );
    let cuda = needle_worker_cache(None, None, Some("/home/u"), "/tmp", "/models/needle", "cuda");
    assert!(cuda.starts_with("/home/u/.mayhem/cache/needle/workers/"));
    assert_ne!(cuda.rsplit('/').next(), Some(expected.as_str()));
    assert!(needle_worker_cache(None, Some("/mh"), None, "/tmp", "r", "cpu").starts_with("/mh/cache/needle/workers/"));
    assert!(needle_worker_cache(None, None, None, "/tmp", "r", "cpu").starts_with("/tmp/mayhem-needle-cache/workers/"));
}

#[test]
fn needle_generation_streams_one_chunk_per_token() {
    let result = WorkerGenerationResult {
        completion_tokens: 3,
        finish_reason: "stop".to_owned(),
        generation_ms: 1.0f64.to_bits(),
        output_text: "[{\"name\":\"lookup\"}]".to_owned(),
        output_tokens_per_second: 1.0f64.to_bits(),
        prefill_tokens_per_second: 1.0f64.to_bits(),
        prompt_eval_ms: 1.0f64.to_bits(),
        prompt_tokens: 7,
        token_ids: vec![4, 5, 6],
        time_to_first_token_ms: 1.0f64.to_bits(),
    };
    let chunks = needle_token_chunks(&result);
    assert_eq!(chunks.len(), 3);
    assert_eq!((chunks[0].index, chunks[0].token_id, chunks[0].text.as_str()), (0, 4, ""));
    assert_eq!((chunks[1].index, chunks[1].token_id, chunks[1].text.as_str()), (1, 5, ""));
    assert_eq!(chunks[2].index, 2);
    assert_eq!(chunks[2].text, result.output_text);
    let output = needle_generate_output(&result).unwrap();
    assert_eq!(output.text, result.output_text);
    assert_eq!(output.usage.prompt_tokens, 7);
    assert_eq!(output.usage.total_tokens, 10);
    assert_eq!(output.finish_reason, FinishReason::Stop);
    assert_eq!(needle_finish_reason("length"), Ok(FinishReason::Length));
    assert_eq!(
        needle_finish_reason("eos"),
        Err(EngineError::Needle("worker returned unsupported finish reason \"eos\"".to_owned()))
    );
}

#[test]
fn required_needle_files_are_regular_files() {
    assert_eq!(check_needle_required_file("/m/tokenizer.model", false, true), Ok(()));
    let refused = Err(EngineError::Needle(
        "required Needle file /m/tokenizer.model must be a regular non-symlink file".to_owned(),
    ));
    assert_eq!(check_needle_required_file("/m/tokenizer.model", true, true), refused);
    assert_eq!(check_needle_required_file("/m/tokenizer.model", false, false), refused);
}
