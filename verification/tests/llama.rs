use mayhem_engine::error::EngineError;
use mayhem_engine::llama::{
    floor_char_boundary, llama_prompt_batch_ranges, llama_prompt_enables_thinking,
    llama_reasoning_has_closed,
};
use mayhem_engine::media::parse_llama_video_frames;

#[test]
fn thinking_validation_accepts_canonical_qwen_and_gemma_template_positions() {
    assert!(llama_prompt_enables_thinking("<|im_start|>assistant\n<think>\n"));
    assert!(!llama_prompt_enables_thinking(
        "<|im_start|>assistant\n<think>\n\n</think>\n\n"
    ));
    assert!(llama_prompt_enables_thinking(
        "<|turn>system\n<|think|>\nBe concise.<turn|>\n<|turn>model\n"
    ));
    assert!(!llama_prompt_enables_thinking(
        "<|turn>user\nType <|think|> literally.<turn|>\n<|turn>model\n"
    ));
}

#[test]
fn prompt_prefill_splits_at_the_context_batch_boundary() {
    let ranges = llama_prompt_batch_ranges(1_201, 512).expect("batch ranges");

    assert_eq!(ranges, vec![0..512, 512..1_024, 1_024..1_201]);
    assert_eq!(llama_prompt_batch_ranges(512, 512).expect("one batch"), vec![0..512]);
    assert!(llama_prompt_batch_ranges(1, 0).is_err());
    assert!(llama_prompt_batch_ranges(0, 512).is_err());
}

#[test]
fn decoded_video_frame_stream_is_strict_and_bounded() {
    let mut stream = Vec::new();
    stream.extend_from_slice(&2u32.to_be_bytes());
    stream.extend_from_slice(&1u32.to_be_bytes());
    stream.extend_from_slice(&6u32.to_be_bytes());
    stream.extend_from_slice(&[255, 0, 0, 0, 255, 0]);

    let frames = parse_llama_video_frames(&stream, 1).expect("one RGB frame");
    assert_eq!(frames, vec![(2, 1, vec![255, 0, 0, 0, 255, 0])]);
    assert!(parse_llama_video_frames(&stream, 2).is_err());

    let mut malformed = stream.clone();
    malformed[11] = 5;
    assert!(parse_llama_video_frames(&malformed, 1).is_err());
    assert!(parse_llama_video_frames(&[0; 11], 1).is_err());
}

#[test]
fn reasoning_closes_at_think_end_or_channel_marker() {
    assert!(llama_reasoning_has_closed("private</think>\nanswer"));
    assert!(llama_reasoning_has_closed("analysis<|channel|>final"));
    assert!(!llama_reasoning_has_closed("still <think>ing"));
}

#[test]
fn thinking_marker_may_be_followed_by_whitespace_only() {
    assert!(llama_prompt_enables_thinking("<|think|> \t\n"));
    assert!(!llama_prompt_enables_thinking("<think> x"));
}

#[test]
fn batches_never_exceed_the_batch_size() {
    let ranges = llama_prompt_batch_ranges(10, 3).unwrap();
    assert_eq!(ranges, vec![0..3, 3..6, 6..9, 9..10]);
    assert_eq!(llama_prompt_batch_ranges(3, 10).unwrap(), vec![0..3]);
}

#[test]
fn char_boundary_floor_skips_continuation_bytes() {
    let text = "aé€".as_bytes();
    assert_eq!(floor_char_boundary(text, 2), 1);
    assert_eq!(floor_char_boundary(text, 3), 3);
    assert_eq!(floor_char_boundary(text, 5), 3);
    assert_eq!(floor_char_boundary(text, 100), text.len());
    assert_eq!(floor_char_boundary(text, 0), 0);
}

use mayhem_engine::stop_stream::StopSequenceStream;
use mayhem_engine::types::TokenChunk;

fn chunk(index: u32, text: &str) -> TokenChunk {
    TokenChunk { index, token_id: index as i32, text: text.to_owned() }
}

#[test]
fn stop_sequences_are_held_back_and_cut() {
    let mut stream = StopSequenceStream::new(&["</s>".to_owned()]);
    let (stopped, emitted) = stream.push(chunk(0, "Hel"));
    assert!(!stopped);
    assert_eq!(emitted, vec![chunk(0, "Hel")]);
    let (stopped, emitted) = stream.push(chunk(1, "lo<"));
    assert!(!stopped);
    assert!(emitted.is_empty());
    let (stopped, emitted) = stream.push(chunk(2, "/s"));
    assert!(!stopped);
    assert!(emitted.is_empty());
    let (stopped, emitted) = stream.push(chunk(3, ">tail"));
    assert!(stopped);
    assert_eq!(emitted, vec![chunk(1, "lo"), chunk(2, ""), chunk(3, "")]);
    assert_eq!(stream.output, "Hello");
    assert!(stream.finish().is_empty());
}

#[test]
fn unfinished_stop_prefix_is_released_at_the_end() {
    let mut stream = StopSequenceStream::new(&["STOP".to_owned(), "##".to_owned()]);
    assert_eq!(stream.push(chunk(0, "abc S")).1, vec![]);
    assert_eq!(stream.push(chunk(1, "TO")).1, vec![]);
    assert_eq!(stream.push(chunk(2, "x")).1, vec![chunk(0, "abc S"), chunk(1, "TO"), chunk(2, "x")]);
    assert_eq!(stream.push(chunk(3, "#")).1, vec![]);
    assert_eq!(stream.finish(), vec![chunk(3, "#")]);
    assert_eq!(stream.output, "abc STOx#");
}

#[test]
fn earliest_of_several_stops_wins() {
    let mut stream = StopSequenceStream::new(&["world".to_owned(), "lo".to_owned()]);
    let (stopped, emitted) = stream.push(chunk(0, "hello world"));
    assert!(stopped);
    assert_eq!(emitted, vec![chunk(0, "hel")]);
    assert_eq!(stream.output, "hel");
}

use mayhem_engine::json::JsonValue;
use mayhem_engine::llama::{
    apply_llama_speciality_parameters, llama_mtmd_image_token_budget,
    llama_prior_reasoning_fragments, llama_reasoning_budget,
};
use mayhem_engine::request::{GenerateRequest, GenerateSpecialityParameter, GenerateSpecialityTarget};

fn speciality(
    name: &str,
    level: &str,
    target: GenerateSpecialityTarget,
    native_path: &str,
    value: JsonValue,
    max_reasoning_tokens: Option<u32>,
) -> GenerateSpecialityParameter {
    GenerateSpecialityParameter {
        name: name.to_owned(),
        level: level.to_owned(),
        target,
        native_path: native_path.to_owned(),
        value,
        max_reasoning_tokens,
    }
}

fn message(role: &str, content: &str) -> JsonValue {
    JsonValue::Object(vec![
        ("role".to_owned(), JsonValue::String(role.to_owned())),
        ("content".to_owned(), JsonValue::String(content.to_owned())),
    ])
}

#[test]
fn reasoning_effort_carries_the_signed_budget_into_llama_generation() {
    let mut request = GenerateRequest::new("<|im_start|>assistant\n<think>\n");
    request.speciality_parameters = vec![speciality(
        "reasoning_effort",
        "low",
        GenerateSpecialityTarget::ChatTemplateKwarg,
        "enable_thinking",
        JsonValue::Bool(true),
        Some(512),
    )];

    apply_llama_speciality_parameters(&mut request).expect("thinking prompt matches");
    assert_eq!(llama_reasoning_budget(&request).unwrap(), Some(512));
    assert!(llama_reasoning_has_closed("private</think>\nanswer"));

    request.prompt = "<|im_start|>assistant\n<think>\n\n</think>\n\n".to_owned();
    request.speciality_parameters[0].level = "off".to_owned();
    request.speciality_parameters[0].value = JsonValue::Bool(false);
    request.speciality_parameters[0].max_reasoning_tokens = Some(0);
    apply_llama_speciality_parameters(&mut request).expect("disabled prompt matches");
    assert_eq!(llama_reasoning_budget(&request).unwrap(), None);

    request.messages = vec![message("assistant", "<think>copper-signal-731</think>Noted.")];
    request.prompt = "<|im_start|>assistant\nNoted.<|im_end|>\n".to_owned();
    request.speciality_parameters = vec![speciality(
        "thinking_history",
        "latest_only",
        GenerateSpecialityTarget::ChatTemplateKwarg,
        "preserve_thinking",
        JsonValue::Bool(false),
        None,
    )];
    apply_llama_speciality_parameters(&mut request).expect("prior thinking is stripped");

    request.prompt =
        "<|im_start|>assistant\n<think>copper-signal-731</think>Noted.<|im_end|>\n".to_owned();
    let error = apply_llama_speciality_parameters(&mut request)
        .expect_err("latest-only history must reject leaked reasoning");
    assert!(error.message().contains("preserve_thinking=false"));

    request.speciality_parameters[0].level = "preserve".to_owned();
    request.speciality_parameters[0].value = JsonValue::Bool(true);
    apply_llama_speciality_parameters(&mut request).expect("prior thinking is preserved");
}

#[test]
fn prompt_suffixes_are_appended_and_unsupported_controls_refused() {
    let mut request = GenerateRequest::new("Q:");
    request.speciality_parameters = vec![
        speciality("style", "x", GenerateSpecialityTarget::PromptSuffix, "suffix", JsonValue::String(" be brief".to_owned()), None),
        speciality("temp", "x", GenerateSpecialityTarget::SamplingParameter, "temperature", JsonValue::Bool(true), None),
    ];
    let error = apply_llama_speciality_parameters(&mut request).unwrap_err();
    assert_eq!(request.prompt, "Q: be brief");
    assert_eq!(
        error.message(),
        "invalid engine config: llama.cpp artifact does not support dynamic sampling speciality temp (temperature)"
    );
    request.speciality_parameters = vec![speciality(
        "budget",
        "x",
        GenerateSpecialityTarget::BackendParameter,
        "mtmd.image_token_budget",
        JsonValue::Array(vec![JsonValue::String("a\"b".to_owned()), JsonValue::Null]),
        None,
    )];
    assert_eq!(
        apply_llama_speciality_parameters(&mut request).unwrap_err().message(),
        "invalid engine config: llama.cpp artifact does not support backend speciality budget (mtmd.image_token_budget) at value [\"a\\\"b\",null]"
    );
}

#[test]
fn image_token_budget_accepts_one_supported_value() {
    let budget = |value: i64| {
        speciality(
            "vision",
            "x",
            GenerateSpecialityTarget::BackendParameter,
            "mtmd.image_token_budget",
            if value < 0 {
                JsonValue::Number(mayhem_engine::json::JsonNumber::NegInt(value))
            } else {
                JsonValue::Number(mayhem_engine::json::JsonNumber::PosInt(value as u64))
            },
            None,
        )
    };
    let mut request = GenerateRequest::new("p");
    request.speciality_parameters = vec![budget(280)];
    assert_eq!(llama_mtmd_image_token_budget(&request).unwrap(), Some(280));
    request.speciality_parameters = vec![budget(-5)];
    assert_eq!(
        llama_mtmd_image_token_budget(&request).unwrap_err().message(),
        "invalid engine config: unsupported llama.cpp image-token budget -5"
    );
    request.speciality_parameters = vec![budget(70), budget(140)];
    assert!(llama_mtmd_image_token_budget(&request).is_err());
    request.speciality_parameters = vec![];
    assert_eq!(llama_mtmd_image_token_budget(&request).unwrap(), None);
}

#[test]
fn prior_reasoning_comes_from_assistant_fields_and_blocks() {
    let mut request = GenerateRequest::new("p");
    request.messages = vec![
        message("user", "<think>not mine</think>"),
        JsonValue::Object(vec![
            ("role".to_owned(), JsonValue::String("assistant".to_owned())),
            ("reasoning_content".to_owned(), JsonValue::String("  first  ".to_owned())),
            ("content".to_owned(), JsonValue::String("<think> a </think>x<|think|>b<|/think|><think>open".to_owned())),
        ]),
    ];
    assert_eq!(
        llama_prior_reasoning_fragments(&request),
        vec!["first".to_owned(), "a".to_owned(), "b".to_owned()]
    );
}

use mayhem_engine::llama::{llama_reasoning_enabled, llama_reasoning_tokens, reasoning_close_prefix};

#[test]
fn reasoning_prefix_ends_at_the_first_closing_marker() {
    assert_eq!(reasoning_close_prefix("plan</think>answer"), Some("plan</think>".to_owned()));
    assert_eq!(
        reasoning_close_prefix("a<channel|>b</think>c"),
        Some("a<channel|>".to_owned())
    );
    assert_eq!(reasoning_close_prefix("a</think>b<channel|>"), Some("a</think>".to_owned()));
    assert_eq!(reasoning_close_prefix("still thinking"), None);
}

#[test]
fn reasoning_tokens_follow_the_enabled_speciality_and_budget() {
    let mut request = GenerateRequest::new("Q:");
    assert!(!llama_reasoning_enabled(&request));
    assert_eq!(llama_reasoning_tokens(&request, "x</think>y", 40, Some(10)), 0);

    request.speciality_parameters = vec![speciality(
        "Thinking",
        "high",
        GenerateSpecialityTarget::ChatTemplateKwarg,
        "enable_thinking",
        JsonValue::Bool(true),
        None,
    )];
    assert!(llama_reasoning_enabled(&request));
    assert_eq!(llama_reasoning_tokens(&request, "no marker yet", 40, Some(10)), 40);
    assert_eq!(llama_reasoning_tokens(&request, "x</think>y", 40, Some(10)), 10);
    assert_eq!(llama_reasoning_tokens(&request, "x</think>y", 40, Some(99)), 40);
    assert_eq!(llama_reasoning_tokens(&request, "x</think>y", 40, None), 40);

    request.speciality_parameters[0].max_reasoning_tokens = Some(5);
    assert_eq!(llama_reasoning_tokens(&request, "x</think>y", 40, Some(10)), 5);

    request.speciality_parameters[0].value = JsonValue::String("OFF".to_owned());
    assert!(!llama_reasoning_enabled(&request));
    request.speciality_parameters[0].value = JsonValue::Bool(true);
    request.speciality_parameters[0].level = "Disabled".to_owned();
    assert!(!llama_reasoning_enabled(&request));
}

use mayhem_engine::llama::{
    check_embedding_request, check_prompt_fits, embedding_length, ends_generation,
    force_reasoning_close, llama_token_step, TokenStep,
};

#[test]
fn prompts_must_leave_room_for_a_token() {
    assert_eq!(check_prompt_fits(2047, 2048), Ok(()));
    assert_eq!(
        check_prompt_fits(2048, 2048),
        Err(EngineError::PromptTooLong { prompt_tokens: 2048, ctx_size: 2048 })
    );
}

#[test]
fn generation_steps_stop_on_stop_sequences_then_budget_then_window() {
    assert_eq!(llama_token_step(true, 1, 1, 99, 8), TokenStep::Stop);
    assert_eq!(llama_token_step(false, 4, 4, 2, 8), TokenStep::Length);
    assert_eq!(llama_token_step(false, 1, 4, 8, 8), TokenStep::Length);
    assert_eq!(llama_token_step(false, 1, 4, 7, 8), TokenStep::Continue);
    assert_eq!(llama_token_step(false, 1, 4, 7, u32::MAX), TokenStep::Continue);
    assert!(ends_generation(true, false));
    assert!(!ends_generation(true, true));
}

#[test]
fn reasoning_close_is_forced_once_the_budget_is_spent() {
    assert!(force_reasoning_close(false, Some(4), 4, "<think>still going"));
    assert!(!force_reasoning_close(false, Some(4), 3, "<think>still going"));
    assert!(!force_reasoning_close(true, Some(4), 9, "<think>still going"));
    assert!(!force_reasoning_close(false, Some(4), 9, "<think>done</think>"));
    assert!(!force_reasoning_close(false, None, 9, "<think>"));
}

#[test]
fn embedding_requests_need_inputs_and_fitting_dimensions() {
    assert_eq!(
        check_embedding_request(0, None),
        Err(EngineError::InvalidConfig("embedding request must include at least one input".to_owned()))
    );
    assert_eq!(
        check_embedding_request(2, Some(0)),
        Err(EngineError::InvalidConfig("embedding dimensions must be greater than zero".to_owned()))
    );
    assert_eq!(check_embedding_request(2, Some(8)), Ok(()));
    assert_eq!(embedding_length(None, 384), Ok(384));
    assert_eq!(embedding_length(Some(128), 384), Ok(128));
    assert_eq!(
        embedding_length(Some(512), 384),
        Err(EngineError::InvalidConfig(
            "requested embedding dimensions 512 exceed model dimensions 384".to_owned()
        ))
    );
}

use mayhem_engine::llama::{check_media_markers, check_multimodal_prompt_fits, count_matches};

#[test]
fn media_markers_are_counted_without_overlap() {
    assert_eq!(count_matches("aaaa", "aa"), 2);
    assert_eq!(count_matches("abababa", "aba"), 2);
    assert_eq!(count_matches("", "x"), 0);
    assert_eq!(check_media_markers("look <__media__> and <__media__>", 2), Ok(()));
    assert_eq!(
        check_media_markers("look <__media__>", 2),
        Err(EngineError::InvalidConfig(
            "multimodal prompt must contain exactly 2 <__media__> marker(s), found 1".to_owned()
        ))
    );
}

#[test]
fn multimodal_prompts_must_fit_the_window() {
    assert_eq!(check_multimodal_prompt_fits(10, 2047, 2048), Ok(()));
    assert_eq!(
        check_multimodal_prompt_fits(10, 2048, 2048),
        Err(EngineError::PromptTooLong { prompt_tokens: 10, ctx_size: 2048 })
    );
}

#[test]
fn a_whole_stream_passes_on_exactly_the_text_before_the_first_stop() {
    let mut stream = StopSequenceStream::new(&["STOP".to_owned()]);
    let pushed = ["Hel", "lo S", "T", "OP x", "never"];
    let mut passed = Vec::new();
    let mut stopped_at = None;
    for (i, text) in pushed.iter().enumerate() {
        let (stop, emitted) = stream.push(chunk(i as u32, text));
        passed.extend(emitted);
        if stop {
            stopped_at = Some(i);
            break;
        }
    }
    passed.extend(stream.finish());
    assert_eq!(stopped_at, Some(3));
    let text: String = passed.iter().map(|c| c.text.as_str()).collect();
    assert_eq!(text, "Hello ");
    let indices: Vec<u32> = passed.iter().map(|c| c.index).collect();
    assert_eq!(indices, vec![0, 1, 2, 3]);

    let mut stream = StopSequenceStream::new(&["STOP".to_owned()]);
    let mut passed = Vec::new();
    for (i, text) in ["no ", "stop ", "S"].iter().enumerate() {
        let (stop, emitted) = stream.push(chunk(i as u32, text));
        assert!(!stop);
        passed.extend(emitted);
    }
    passed.extend(stream.finish());
    let text: String = passed.iter().map(|c| c.text.as_str()).collect();
    assert_eq!(text, "no stop S");
}
