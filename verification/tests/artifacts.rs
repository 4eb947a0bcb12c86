use mayhem_engine::artifact::ArtifactFormat;
use mayhem_engine::data_url::{
    data_url_payload, decode_data_url, has_base64_part_exec, media_input_bytes, sd_response_images,
};
use mayhem_engine::digest::{check_artifact_digest, hex_encode, Sha256Hasher};
use mayhem_engine::error::EngineError;
use mayhem_engine::header::{
    check_magic_header, check_safetensors_header, safetensors_header_len, safetensors_header_verdict,
    JsonKind,
};
use mayhem_engine::json::JsonValue;
use mayhem_engine::request::MediaInput;

fn sha256_hex(chunks: &[&[u8]]) -> String {
    let mut hasher = Sha256Hasher::new();
    for chunk in chunks {
        assert!(hasher.absorb(chunk, chunk.len()) || chunk.is_empty());
    }
    hasher.finish_hex()
}

#[test]
fn sha256_of_known_inputs() {
    assert_eq!(
        sha256_hex(&[]),
        "e3b0c44298fc1c149afbf4c8996fb92427ae41e4649b934ca495991b7852b855"
    );
    assert_eq!(
        sha256_hex(&[b"abc"]),
        "ba7816bf8f01cfea414140de5dae2223b00361a396177a9cb410ff61f20015ad"
    );
    assert_eq!(sha256_hex(&[b"a", b"", b"bc"]), sha256_hex(&[b"abc"]));
}

#[test]
fn absorb_feeds_only_the_bytes_read() {
    let mut hasher = Sha256Hasher::new();
    let buffer = b"abcXYZ";
    assert!(hasher.absorb(buffer, 3));
    assert!(!hasher.absorb(buffer, 0));
    assert_eq!(
        hasher.finish_hex(),
        "ba7816bf8f01cfea414140de5dae2223b00361a396177a9cb410ff61f20015ad"
    );
}

#[test]
fn hex_is_lowercase_two_digits_per_byte() {
    assert_eq!(hex_encode(&[0x00, 0xff, 0x1a, 0x09]), "00ff1a09");
    assert_eq!(hex_encode(&[]), "");
}

#[test]
fn digest_comparison_ignores_ascii_case() {
    assert_eq!(check_artifact_digest("m.gguf", "ABCD", "abcd"), Ok(()));
    assert_eq!(
        check_artifact_digest("m.gguf", "abce", "abcd"),
        Err(EngineError::ArtifactHashMismatch {
            path: "m.gguf".to_owned(),
            expected: "abce".to_owned(),
            actual: "abcd".to_owned(),
        })
    );
}

#[test]
fn magic_header_matches_format() {
    assert_eq!(check_magic_header("m.gguf", ArtifactFormat::Gguf, b"GGUF"), Ok(()));
    assert_eq!(
        check_magic_header("m.gguf", ArtifactFormat::Gguf, b"GGML"),
        Err(EngineError::UnsupportedArtifactHeader {
            path: "m.gguf".to_owned(),
            expected: "GGUF".to_owned(),
            actual: b"GGML".to_vec(),
        })
    );
    assert_eq!(check_magic_header("voice.onnx", ArtifactFormat::PiperVoice, b""), Ok(()));
}

fn header_error(actual: &[u8]) -> EngineError {
    EngineError::UnsupportedArtifactHeader {
        path: "w.safetensors".to_owned(),
        expected: "MLX safetensors".to_owned(),
        actual: actual.to_vec(),
    }
}

#[test]
fn safetensors_length_prefix_is_bounded() {
    let prefix = [16u8, 0, 0, 0, 0, 0, 0, 0];
    assert_eq!(safetensors_header_len("w.safetensors", "MLX safetensors", &prefix, 100), Ok(16));
    assert_eq!(safetensors_header_len("w.safetensors", "MLX safetensors", &prefix, 24), Ok(16));
    assert_eq!(
        safetensors_header_len("w.safetensors", "MLX safetensors", &prefix, 23),
        Err(header_error(&prefix))
    );
    let zero = [0u8; 8];
    assert_eq!(
        safetensors_header_len("w.safetensors", "MLX safetensors", &zero, 100),
        Err(header_error(&zero))
    );
    let huge = [1u8, 0, 0, 16, 0, 0, 0, 0];
    assert_eq!(
        safetensors_header_len("w.safetensors", "MLX safetensors", &huge, u64::MAX),
        Err(header_error(&huge))
    );
    let largest = [0u8, 0, 0, 16, 0, 0, 0, 0];
    assert_eq!(
        safetensors_header_len("w.safetensors", "MLX safetensors", &largest, u64::MAX),
        Ok(268_435_456)
    );
    assert_eq!(
        safetensors_header_len("w.safetensors", "MLX safetensors", &[1, 2, 3], 100),
        Err(header_error(&[]))
    );
    assert_eq!(
        safetensors_header_len("w.safetensors", "MLX safetensors", &prefix, 3),
        Err(header_error(&prefix))
    );
}

#[test]
fn safetensors_header_must_be_a_json_object() {
    let prefix = [2u8, 0, 0, 0, 0, 0, 0, 0];
    assert_eq!(check_safetensors_header("w.safetensors", "MLX safetensors", &prefix, b"{}"), Ok(()));
    assert_eq!(
        check_safetensors_header("w.safetensors", "MLX safetensors", &prefix, b"[]"),
        Err(header_error(&prefix))
    );
    assert!(matches!(
        check_safetensors_header("w.safetensors", "MLX safetensors", &prefix, b"{"),
        Err(EngineError::Json(_))
    ));
    assert_eq!(
        safetensors_header_verdict("w", "x", &prefix, Err("bad".to_owned())),
        Err(EngineError::Json("bad".to_owned()))
    );
    assert_eq!(safetensors_header_verdict("w", "x", &prefix, Ok(JsonKind::Object)), Ok(()));
}

#[test]
fn data_url_metadata_must_name_base64() {
    let chars = |s: &str| s.chars().collect::<Vec<char>>();
    assert!(has_base64_part_exec(&chars("image/png;base64")));
    assert!(has_base64_part_exec(&chars("BASE64")));
    assert!(has_base64_part_exec(&chars("a;Base64;b")));
    assert!(!has_base64_part_exec(&chars("image/png;base64x")));
    assert!(!has_base64_part_exec(&chars("xbase64")));
    assert!(!has_base64_part_exec(&chars("")));
}

fn config_error(message: &str) -> EngineError {
    EngineError::InvalidConfig(message.to_owned())
}

#[test]
fn data_urls_decode_to_their_bytes() {
    assert_eq!(data_url_payload("data:image/png;base64,aGVsbG8="), Ok("aGVsbG8=".to_owned()));
    assert_eq!(decode_data_url("data:image/png;base64,aGVsbG8="), Ok(b"hello".to_vec()));
    assert_eq!(decode_data_url("data:;BASE64,aGk="), Ok(b"hi".to_vec()));
    match decode_data_url("data:;base64,a,b") {
        Err(EngineError::InvalidConfig(message)) => {
            assert!(message.starts_with("media data URL payload is not base64: "))
        }
        other => panic!("unexpected {other:?}"),
    }
    assert_eq!(
        decode_data_url("https://example.com/cat.png"),
        Err(config_error(
            "remote media URLs are not fetched by provider engines; pass image data URLs"
        ))
    );
    assert_eq!(
        decode_data_url("data:image/png;base64"),
        Err(config_error("media data URL is missing a comma separator"))
    );
    assert_eq!(
        decode_data_url("data:text/plain,hello"),
        Err(config_error("media data URL must be base64 encoded"))
    );
}

fn media(data: Option<&str>, url: Option<&str>) -> MediaInput {
    MediaInput {
        kind: "image".to_owned(),
        content_type: None,
        url: url.map(str::to_owned),
        data: data.map(str::to_owned),
        frames: Vec::new(),
        num_frames: None,
        fps: None,
    }
}

#[test]
fn media_inputs_prefer_inline_data() {
    assert_eq!(media_input_bytes(&media(Some("aGk="), Some("https://x"))), Ok(b"hi".to_vec()));
    assert_eq!(
        media_input_bytes(&media(None, Some("data:image/png;base64,aGVsbG8="))),
        Ok(b"hello".to_vec())
    );
    assert_eq!(
        media_input_bytes(&media(None, None)),
        Err(config_error("media input must include a data URL or base64 data"))
    );
    match media_input_bytes(&media(Some("@@@"), None)) {
        Err(EngineError::InvalidConfig(message)) => {
            assert!(message.starts_with("media data is not base64: "))
        }
        other => panic!("unexpected {other:?}"),
    }
}

fn response(images: Vec<JsonValue>) -> JsonValue {
    JsonValue::Object(vec![("images".to_owned(), JsonValue::Array(images))])
}

fn sd_error(message: &str) -> EngineError {
    EngineError::StableDiffusionCpp(message.to_owned())
}

#[test]
fn sd_server_images_are_png_bytes() {
    let png = JsonValue::String("iVBORw0KGgpyZXN0".to_owned());
    let mut expected = vec![0x89u8, 0x50, 0x4e, 0x47, 0x0d, 0x0a, 0x1a, 0x0a];
    expected.extend_from_slice(b"rest");
    assert_eq!(sd_response_images(&response(vec![png]), 1), Ok(vec![expected]));

    let png = JsonValue::String("iVBORw0KGgpyZXN0".to_owned());
    assert_eq!(
        sd_response_images(&response(vec![png]), 2),
        Err(sd_error("sd-server returned 1 images for requested batch of 2"))
    );
    assert_eq!(
        sd_response_images(&JsonValue::Object(Vec::new()), 1),
        Err(sd_error("sd-server response is missing the images array"))
    );
    let png = JsonValue::String("iVBORw0KGgpyZXN0".to_owned());
    assert_eq!(
        sd_response_images(&response(vec![png, JsonValue::Null]), 2),
        Err(sd_error("sd-server image 2 is not base64 text"))
    );
    assert_eq!(
        sd_response_images(&response(vec![JsonValue::String("aGVsbG8=".to_owned())]), 1),
        Err(sd_error("sd-server image 1 is not a PNG"))
    );
    match sd_response_images(&response(vec![JsonValue::String("***".to_owned())]), 1) {
        Err(EngineError::StableDiffusionCpp(message)) => {
            assert!(message.starts_with("decoding sd-server image 1 failed: "))
        }
        other => panic!("unexpected {other:?}"),
    }
}
