use mayhem_engine::config::{
    check_llama_load, check_mlx_load, check_transformers_asr_load, check_trt_load, check_vllm_load,
    LoadConfig,
};
use mayhem_engine::error::EngineError;
use mayhem_engine::http::{
    body_framing, check_body_len, check_chunk_fits, check_chunk_terminator, chunk_size,
    closed_inside, is_end_of_block, parse_status_line, value_names_chunked, BodyFraming,
    HttpHeaderScan, ResponsePart,
};
use mayhem_engine::llama::{llama_kv_cache_type, KvCacheType};
use mayhem_engine::media::{
    bounded_diagnostic, check_video_payload_len, llama_video_frame_request, response_snippet,
    sanitize_text, video_decode_verdict, whisper_input_extension, VideoDecodeOutcome,
};
use mayhem_engine::request::MediaInput;
use mayhem_engine::stable_diffusion::{
    check_image_prompt, derive_server_binary, sd_engine_steps, startup_timeout_from,
};
use mayhem_engine::vllm::vllm_cache_root;

fn sd(message: &str) -> EngineError {
    EngineError::StableDiffusionCpp(message.to_owned())
}

fn config(message: &str) -> EngineError {
    EngineError::InvalidConfig(message.to_owned())
}

#[test]
fn status_lines_carry_a_three_digit_code() {
    assert_eq!(parse_status_line("HTTP/1.1 200 OK\r\n"), Ok(200));
    assert_eq!(parse_status_line("  HTTP/1.1   404\tNot Found"), Ok(404));
    assert_eq!(parse_status_line("HTTP/1.1 +201 Created"), Ok(201));
    assert_eq!(
        parse_status_line("HTTP/1.1 abc\r\n"),
        Err(sd("local sd-server returned an invalid status line: \"HTTP/1.1 abc\""))
    );
    assert_eq!(
        parse_status_line("HTTP/1.1 70000 Too big"),
        Err(sd("local sd-server returned an invalid status line: \"HTTP/1.1 70000 Too big\""))
    );
    assert!(parse_status_line("HTTP/1.1").is_err());
}

#[test]
fn headers_set_length_and_chunking() {
    let mut scan = HttpHeaderScan::new("HTTP/1.1 200 OK\r\n");
    assert_eq!(scan.header_bytes, 17);
    assert_eq!(scan.feed("Content-Type: application/json\r\n"), Ok(false));
    assert_eq!(scan.feed("content-LENGTH:  12 \r\n"), Ok(false));
    assert_eq!(scan.content_length, Some(12));
    assert_eq!(scan.feed("Transfer-Encoding: gzip, Chunked\r\n"), Ok(false));
    assert!(scan.chunked);
    assert_eq!(scan.feed("no colon here\r\n"), Ok(false));
    assert_eq!(scan.feed("\r\n"), Ok(true));
    assert_eq!(body_framing(&scan, 100), Ok(BodyFraming::Chunked));

    let mut scan = HttpHeaderScan::new("HTTP/1.1 200 OK\r\n");
    assert_eq!(
        scan.feed("Content-Length: twelve\r\n"),
        Err(sd("local sd-server returned an invalid Content-Length"))
    );
    let mut scan = HttpHeaderScan::new("HTTP/1.1 200 OK\r\n");
    assert_eq!(scan.feed("Content-Length: 12\n"), Ok(false));
    assert_eq!(body_framing(&scan, 12), Ok(BodyFraming::Length(12)));
    assert_eq!(
        body_framing(&scan, 11),
        Err(sd("local sd-server response is 12 bytes, above the 11-byte bound"))
    );
    let scan = HttpHeaderScan::new("HTTP/1.1 200 OK\r\n");
    assert_eq!(body_framing(&scan, 11), Ok(BodyFraming::UntilClose));

    let mut scan = HttpHeaderScan::new("HTTP/1.1 200 OK\r\n");
    let long = format!("X-Filler: {}\r\n", "a".repeat(70_000));
    assert_eq!(scan.feed(&long), Err(sd("local sd-server HTTP headers exceed 64 KiB")));
    assert!(!value_names_chunked("gzip"));
    assert!(value_names_chunked(" chunked "));
    assert!(!value_names_chunked("notchunked"));
}

#[test]
fn chunked_bodies_are_bounded() {
    assert_eq!(chunk_size("1a\r\n"), Ok(26));
    assert_eq!(chunk_size("FF;ext=1\r\n"), Ok(255));
    assert_eq!(chunk_size("  0  \r\n"), Ok(0));
    assert_eq!(chunk_size("zz\r\n"), Err(sd("local sd-server returned an invalid chunk size")));
    assert_eq!(chunk_size("\r\n"), Err(sd("local sd-server returned an invalid chunk size")));
    assert_eq!(check_chunk_fits(10, 5, 15), Ok(()));
    assert_eq!(
        check_chunk_fits(10, 6, 15),
        Err(sd("local sd-server response exceeds the 15-byte bound"))
    );
    assert_eq!(check_chunk_fits(usize::MAX, 1, 15).is_err(), true);
    assert_eq!(check_chunk_terminator(b"\r\n"), Ok(()));
    assert_eq!(
        check_chunk_terminator(b"\n\r"),
        Err(sd("local sd-server returned an invalid chunk terminator"))
    );
    assert!(is_end_of_block("\r\n") && is_end_of_block("\n") && !is_end_of_block(" \n"));
    assert_eq!(check_body_len(16, 15), Err(sd("local sd-server response exceeds the 15-byte bound")));
    assert_eq!(check_body_len(15, 15), Ok(()));
    assert_eq!(closed_inside(ResponsePart::StatusLine), sd("local sd-server closed without an HTTP response"));
    assert_eq!(closed_inside(ResponsePart::Headers), sd("local sd-server closed inside HTTP headers"));
    assert_eq!(
        closed_inside(ResponsePart::ChunkedBody),
        sd("local sd-server closed inside a chunked response")
    );
}

fn video(num_frames: Option<u32>, fps: Option<u32>) -> MediaInput {
    MediaInput {
        kind: "video".to_owned(),
        content_type: None,
        url: None,
        data: Some("AAAA".to_owned()),
        frames: Vec::new(),
        num_frames,
        fps,
    }
}

#[test]
fn video_requests_are_bounded_before_decoding() {
    assert_eq!(llama_video_frame_request(&video(Some(8), None)), Ok(8));
    assert_eq!(llama_video_frame_request(&video(Some(8), Some(2.5f32.to_bits()))), Ok(8));
    assert_eq!(
        llama_video_frame_request(&video(None, None)),
        Err(config("llama.cpp video container requires an explicit num_frames bound"))
    );
    assert_eq!(
        llama_video_frame_request(&video(Some(65), None)),
        Err(config("llama.cpp video num_frames must be between 1 and 64"))
    );
    for fps in [0.0f32, -1.0, f32::NAN, f32::INFINITY, -0.0] {
        assert_eq!(
            llama_video_frame_request(&video(Some(1), Some(fps.to_bits()))),
            Err(config("llama.cpp video fps must be a positive finite number"))
        );
    }
    let mut big = video(Some(1), None);
    big.data = Some("A".repeat(89_479_510));
    assert_eq!(
        llama_video_frame_request(&big),
        Err(config("llama.cpp video container exceeds the bounded input size"))
    );
    assert_eq!(check_video_payload_len(1), Ok(()));
    assert!(check_video_payload_len(0).is_err());
    assert!(check_video_payload_len(64 * 1024 * 1024 + 1).is_err());
}

#[test]
fn video_decoder_runs_are_judged_in_order() {
    let done = VideoDecodeOutcome::Completed { success: true };
    assert_eq!(video_decode_verdict(done, 10, b"", None), Ok(()));
    assert_eq!(video_decode_verdict(VideoDecodeOutcome::Cancelled, 0, b"", None), Err(EngineError::Cancelled));
    assert_eq!(
        video_decode_verdict(VideoDecodeOutcome::TimedOut, 0, b"", None),
        Err(config("llama.cpp video decode exceeded 30 seconds"))
    );
    assert_eq!(
        video_decode_verdict(done, 67_109_633, b"", None),
        Err(config("llama.cpp video decoder exceeded the bounded output size"))
    );
    assert_eq!(
        video_decode_verdict(done, 0, &vec![b'x'; 16_385], None),
        Err(config("llama.cpp video decoder exceeded the bounded diagnostic size"))
    );
    assert_eq!(
        video_decode_verdict(VideoDecodeOutcome::Completed { success: false }, 0, b"  bad\x01 input \n", None),
        Err(config("llama.cpp video container decode failed: bad\u{fffd} input"))
    );
    assert_eq!(
        video_decode_verdict(VideoDecodeOutcome::Completed { success: false }, 0, b"", None),
        Err(config("llama.cpp video container decode failed: decoder exited without diagnostics"))
    );
    assert_eq!(
        video_decode_verdict(done, 0, b"", Some("broken pipe")),
        Err(config("writing the llama.cpp video container to the decoder failed: broken pipe"))
    );
}

#[test]
fn diagnostics_are_sanitized() {
    assert_eq!(sanitize_text("a\u{7}b\tc\n\u{9f}"), "a\u{fffd}b\tc\n\u{fffd}");
    assert_eq!(bounded_diagnostic(b"\xff oops "), "\u{fffd} oops");
    assert_eq!(response_snippet(b"ok\x00"), "ok\u{fffd}");
    assert_eq!(response_snippet(&vec![b'a'; 5000]).len(), 4096);
}

#[test]
fn stable_diffusion_request_settings() {
    assert_eq!(check_image_prompt("a cat"), Ok(()));
    assert_eq!(
        check_image_prompt("x <sd_cpp_extra_args>{}</sd_cpp_extra_args>"),
        Err(config("image prompt may not contain stable-diffusion.cpp control tags"))
    );
    assert_eq!(sd_engine_steps(20, 0), Ok(20));
    assert_eq!(sd_engine_steps(1, 149), Ok(150));
    assert_eq!(
        sd_engine_steps(20, -20),
        Err(config("image steps 20 with backend offset -20 fall outside 1..=150"))
    );
    assert_eq!(startup_timeout_from(None), Ok(None));
    assert_eq!(startup_timeout_from(Some("90")), Ok(Some(90)));
    assert_eq!(
        startup_timeout_from(Some("0")),
        Err(config("MAYHEM_STABLE_DIFFUSION_CPP_STARTUP_TIMEOUT_SECONDS must be greater than zero"))
    );
    assert_eq!(
        startup_timeout_from(Some("soon")),
        Err(config("MAYHEM_STABLE_DIFFUSION_CPP_STARTUP_TIMEOUT_SECONDS must be a positive integer"))
    );
    assert_eq!(derive_server_binary("/opt/sd/sd-cli"), "/opt/sd/sd-server");
    assert_eq!(derive_server_binary("C:/sd/SD-CLI.EXE"), "C:/sd/sd-server.exe");
    assert_eq!(derive_server_binary("/opt/sd/sd-server"), "/opt/sd/sd-server");
}

#[test]
fn backend_names_and_places() {
    assert_eq!(llama_kv_cache_type("q8_0"), Ok(KvCacheType::Q8_0));
    assert_eq!(llama_kv_cache_type("iq4_nl"), Ok(KvCacheType::IQ4_NL));
    assert_eq!(
        llama_kv_cache_type("Q8_0"),
        Err(config("unsupported llama.cpp KV-cache dtype Q8_0"))
    );
    assert_eq!(whisper_input_extension(None), "wav");
    assert_eq!(whisper_input_extension(Some("audio/mp3")), "mp3");
    assert_eq!(whisper_input_extension(Some("audio/ogg")), "ogg");
    assert_eq!(whisper_input_extension(Some("audio/x-unknown")), "wav");
    assert_eq!(vllm_cache_root(Some("/c"), Some("/d"), None, None, "/tmp"), "/c");
    assert_eq!(vllm_cache_root(None, Some("/d"), Some("/m"), None, "/tmp"), "/d");
    assert_eq!(vllm_cache_root(None, None, Some("/m"), Some("/h"), "/tmp"), "/m/cache/vllm");
    assert_eq!(vllm_cache_root(None, None, None, Some("/h"), "/tmp"), "/h/.mayhem/cache/vllm");
    assert_eq!(vllm_cache_root(None, None, None, None, "/tmp"), "/tmp/mayhem-vllm-cache");
}

#[test]
fn each_backend_loads_only_its_own_artifact_format() {
    assert_eq!(check_llama_load(&LoadConfig::gguf("/m.gguf")), Ok(()));
    assert_eq!(check_mlx_load(&LoadConfig::mlx_safetensors("/m")), Ok(()));
    assert_eq!(check_vllm_load(&LoadConfig::vllm_safetensors("/m")), Ok(()));
    assert_eq!(check_trt_load(&LoadConfig::trt_llm_checkpoint("/m")), Ok(()));
    assert_eq!(check_transformers_asr_load(&LoadConfig::transformers_safetensors("/m")), Ok(()));
    let whisper = LoadConfig::whisper_ggml("/m.bin");
    let refusal = |text: &str| Err(EngineError::InvalidConfig(format!("{text}, got WhisperGgml")));
    assert_eq!(check_llama_load(&whisper), refusal("llama.cpp backend requires GGUF artifacts"));
    assert_eq!(check_mlx_load(&whisper), refusal("MLX backend requires MLX safetensors artifacts"));
    assert_eq!(check_vllm_load(&whisper), refusal("vLLM backend requires vLLM safetensors artifacts"));
    assert_eq!(
        check_trt_load(&whisper),
        refusal("TensorRT-LLM backend requires TensorRT-LLM checkpoint artifacts")
    );
    assert_eq!(
        check_transformers_asr_load(&whisper),
        refusal("Transformers ASR requires Transformers safetensors artifacts")
    );
    let mut broken = LoadConfig::gguf("/m.gguf");
    broken.ctx_size = 0;
    assert_eq!(
        check_llama_load(&broken),
        Err(EngineError::InvalidConfig("ctx_size must be greater than zero".to_owned()))
    );
}

use mayhem_engine::http::check_sd_status;

#[test]
fn sd_server_errors_carry_status_and_body_start() {
    assert_eq!(check_sd_status(200, b"{}"), Ok(()));
    assert_eq!(check_sd_status(299, b""), Ok(()));
    assert_eq!(
        check_sd_status(500, b"model failed\x07"),
        Err(EngineError::StableDiffusionCpp(
            "sd-server returned HTTP 500: model failed\u{fffd}".to_owned()
        ))
    );
}
