use mayhem_engine::artifact::{ArtifactFormat, ModelArtifact};
use mayhem_engine::config::LoadConfig;
use mayhem_engine::error::EngineError;
use mayhem_engine::media::wav_format_chunk_overruns;
use mayhem_engine::speech::{command_failure, PiperBackend, WhisperCppBackend};

fn tiny_wav_bytes(sample_count: u32) -> Vec<u8> {
    let sample_rate = 16_000u32;
    let channels = 1u16;
    let bits_per_sample = 16u16;
    let bytes_per_sample = u32::from(channels) * u32::from(bits_per_sample) / 8;
    let data_len = sample_count * bytes_per_sample;
    let mut bytes = Vec::new();
    bytes.extend_from_slice(b"RIFF");
    bytes.extend_from_slice(&(36 + data_len).to_le_bytes());
    bytes.extend_from_slice(b"WAVEfmt ");
    bytes.extend_from_slice(&16u32.to_le_bytes());
    bytes.extend_from_slice(&1u16.to_le_bytes());
    bytes.extend_from_slice(&channels.to_le_bytes());
    bytes.extend_from_slice(&sample_rate.to_le_bytes());
    bytes.extend_from_slice(&(sample_rate * bytes_per_sample).to_le_bytes());
    bytes.extend_from_slice(&(bytes_per_sample as u16).to_le_bytes());
    bytes.extend_from_slice(&bits_per_sample.to_le_bytes());
    bytes.extend_from_slice(b"data");
    bytes.extend_from_slice(&data_len.to_le_bytes());
    bytes.resize(44 + data_len as usize, 0);
    bytes
}

#[test]
fn whisper_binary_comes_from_the_environment_or_defaults() {
    assert_eq!(WhisperCppBackend::new(None).unwrap().binary, "whisper-cli");
    assert_eq!(WhisperCppBackend::new(Some("/opt/whisper")).unwrap().binary, "/opt/whisper");
    let backend = WhisperCppBackend::with_binary("/bin/whisper-cli");
    assert_eq!(backend.binary, "/bin/whisper-cli");
    assert!(backend.loaded.is_none());
    assert_eq!(backend.backend_id(), "whisper.cpp");
    assert_eq!(PiperBackend::new(None).unwrap().binary, "piper");
    assert_eq!(PiperBackend::with_binary("/bin/piper").backend_id(), "piper");
}

#[test]
fn whisper_load_requires_a_ggml_model_and_keeps_the_configuration() {
    assert_eq!(
        WhisperCppBackend::check_load(&LoadConfig::gguf("/m.gguf")),
        Err(EngineError::InvalidConfig(
            "whisper.cpp backend requires whisper ggml models, got Gguf".to_owned()
        ))
    );
    assert!(matches!(
        WhisperCppBackend::check_load(&LoadConfig::whisper_ggml("")),
        Err(EngineError::InvalidConfig(_))
    ));
    let config = LoadConfig::whisper_ggml("/models/ggml-tiny.en.bin");
    assert_eq!(WhisperCppBackend::check_load(&config), Ok(()));

    let mut backend = WhisperCppBackend::with_binary("whisper-cli");
    assert_eq!(
        backend.begin_transcription(false, b"RIFF").unwrap_err(),
        EngineError::NotLoaded
    );
    let info = backend.finish_load(config);
    assert_eq!(info.backend, "whisper.cpp");
    assert_eq!(info.artifact.path, "/models/ggml-tiny.en.bin");
    assert_eq!(backend.loaded, Some(info));
    assert!(backend.begin_transcription(false, b"RIFF").is_ok());
    assert_eq!(
        backend.begin_transcription(false, b"").unwrap_err(),
        EngineError::InvalidConfig("audio transcription input cannot be empty".to_owned())
    );
    assert_eq!(backend.begin_transcription(true, b"RIFF").unwrap_err(), EngineError::Cancelled);
}

#[test]
fn whisper_command_line_names_model_audio_and_output() {
    let args = WhisperCppBackend::transcription_args(
        "/m/ggml.bin",
        "/tmp/in.wav",
        "/tmp/out",
        Some("en"),
        Some(""),
    );
    assert_eq!(
        args,
        vec!["-m", "/m/ggml.bin", "-f", "/tmp/in.wav", "-otxt", "-of", "/tmp/out", "-nt", "-l", "en"]
    );
    let args =
        WhisperCppBackend::transcription_args("m", "i", "o", Some(""), Some("names: Ada"));
    assert_eq!(&args[8..], ["--prompt", "names: Ada"]);
}

#[test]
fn whisper_transcript_is_trimmed_and_timed_from_the_audio() {
    let (text, seconds) =
        WhisperCppBackend::transcript("hello mayhem\n", &tiny_wav_bytes(32_000)).unwrap();
    assert_eq!(text, "hello mayhem");
    assert_eq!(seconds, 2);
    let (_, seconds) = WhisperCppBackend::transcript("x", b"not a wav file").unwrap();
    assert_eq!(seconds, 1);
    assert_eq!(
        WhisperCppBackend::transcript(" \n", &tiny_wav_bytes(16)),
        Err(EngineError::WhisperCpp("whisper.cpp produced an empty transcript".to_owned()))
    );
}

#[test]
fn whisper_tokens_number_the_words() {
    let backend = WhisperCppBackend::with_binary("whisper-cli");
    assert_eq!(backend.tokenize("  hello   big\tworld ").unwrap().token_ids, vec![0, 1, 2]);
    assert!(backend.tokenize(" \n ").unwrap().token_ids.is_empty());
    let mut backend = backend;
    assert_eq!(
        backend.generate(),
        Err(EngineError::InvalidConfig(
            "whisper.cpp backend transcribes audio; use transcribe".to_owned()
        ))
    );
}

#[test]
fn failed_runs_report_status_and_trimmed_output() {
    assert_eq!(
        command_failure("/bin/whisper-cli", "exit status: 24", b" bad model\n", b""),
        "/bin/whisper-cli exited with exit status: 24; stderr=\"bad model\"; stdout=\"\""
    );
    let backend = PiperBackend::with_binary("piper");
    assert_eq!(
        backend.run_failure("exit status: 1", b"", b"say \"hi\""),
        EngineError::Piper(
            "piper exited with exit status: 1; stderr=\"\"; stdout=\"say \\\"hi\\\"\"".to_owned()
        )
    );
}

#[test]
fn piper_load_checks_voice_and_config_formats() {
    assert_eq!(
        PiperBackend::check_load(&LoadConfig::whisper_ggml("/m.bin")),
        Err(EngineError::InvalidConfig(
            "piper backend requires Piper voice artifacts, got WhisperGgml".to_owned()
        ))
    );
    let mut config = LoadConfig::piper_voice("/voices/voice.onnx");
    assert_eq!(PiperBackend::check_load(&config), Ok(()));
    assert_eq!(PiperBackend::check_config_sidecar(&config), Ok(false));
    config.piper_config = Some(ModelArtifact::piper_config("/voices/config/voice-config.json"));
    assert_eq!(PiperBackend::check_config_sidecar(&config), Ok(true));
    let mut wrong = config.clone();
    wrong.piper_config = Some(ModelArtifact::gguf("/voices/voice.gguf"));
    assert_eq!(
        PiperBackend::check_config_sidecar(&wrong),
        Err(EngineError::InvalidConfig(
            "piper config sidecar must use PiperConfig format, got Gguf".to_owned()
        ))
    );
    let mut backend = PiperBackend::with_binary("piper");
    let info = backend.finish_load(config);
    assert_eq!(info.backend, "piper");
    assert_eq!(info.artifact.format, ArtifactFormat::PiperVoice);
}

#[test]
fn piper_synthesis_needs_text_wav_output_and_a_voice() {
    let mut backend = PiperBackend::with_binary("piper");
    assert_eq!(
        backend.begin_synthesis(false, "hello", Some("WAV")).unwrap_err(),
        EngineError::NotLoaded
    );
    backend.finish_load(LoadConfig::piper_voice("/voices/voice.onnx"));
    assert!(backend.begin_synthesis(false, "hello", None).is_ok());
    assert!(backend.begin_synthesis(false, "hello", Some("WAV")).is_ok());
    assert_eq!(
        backend.begin_synthesis(false, "  ", None).unwrap_err(),
        EngineError::InvalidConfig("speech synthesis input cannot be empty".to_owned())
    );
    assert_eq!(
        backend.begin_synthesis(false, "hello", Some("MP3")).unwrap_err(),
        EngineError::InvalidConfig(
            "piper backend currently emits wav audio, got response_format=mp3".to_owned()
        )
    );
    assert_eq!(backend.begin_synthesis(true, "hello", None).unwrap_err(), EngineError::Cancelled);
}

#[test]
fn piper_command_line_turns_noise_off() {
    let args = PiperBackend::synthesis_args("v.onnx", "v.json", "in.txt", "out.wav", Some("0.5"));
    assert_eq!(
        args,
        vec![
            "-m", "v.onnx", "-c", "v.json", "-i", "in.txt", "-f", "out.wav", "--noise-scale", "0",
            "--noise-w-scale", "0", "--length-scale", "0.5",
        ]
    );
    assert_eq!(PiperBackend::synthesis_args("m", "c", "i", "o", None).len(), 12);
}

#[test]
fn piper_output_becomes_one_final_wav_artifact() {
    let (chunk, output) = PiperBackend::speech_output(tiny_wav_bytes(16_000)).unwrap();
    assert_eq!(output.audio_seconds, 1);
    assert_eq!(chunk.artifact_id, "speech-1");
    assert_eq!(chunk.index, 0);
    assert_eq!(chunk.content_type, "audio/wav");
    assert!(chunk.bytes.starts_with(b"RIFF"));
    assert!(chunk.final_chunk);
    let (_, output) = PiperBackend::speech_output(tiny_wav_bytes(40_000)).unwrap();
    assert_eq!(output.audio_seconds, 3);
    let invalid = Err(EngineError::Piper("piper produced invalid or empty wav output".to_owned()));
    assert_eq!(PiperBackend::speech_output(b"RIFF".to_vec()), invalid);
    let mut not_riff = tiny_wav_bytes(16);
    not_riff[0] = b'X';
    assert_eq!(PiperBackend::speech_output(not_riff), invalid);
}

#[test]
fn piper_tokens_are_character_codes() {
    let backend = PiperBackend::with_binary("piper");
    assert_eq!(backend.tokenize("hé").unwrap().token_ids, vec![104, 233]);
    let mut backend = backend;
    assert_eq!(
        backend.generate(),
        Err(EngineError::InvalidConfig(
            "piper backend synthesizes speech; use synthesize_speech".to_owned()
        ))
    );
}

#[test]
fn truncated_format_chunks_are_detected() {
    assert!(!wav_format_chunk_overruns(&tiny_wav_bytes(16)));
    assert!(!wav_format_chunk_overruns(b"fmt short"));
    let mut bytes = Vec::new();
    bytes.extend_from_slice(b"RIFF");
    bytes.extend_from_slice(&36u32.to_le_bytes());
    bytes.extend_from_slice(b"WAVE");
    bytes.extend_from_slice(b"JUNK");
    bytes.extend_from_slice(&12u32.to_le_bytes());
    bytes.extend_from_slice(&[0; 12]);
    bytes.extend_from_slice(b"fmt ");
    bytes.extend_from_slice(&16u32.to_le_bytes());
    bytes.extend_from_slice(&[0; 4]);
    assert_eq!(bytes.len(), 44);
    assert!(wav_format_chunk_overruns(&bytes));
}
