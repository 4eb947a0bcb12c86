//! The whisper.cpp and Piper command-line backends: what they hold once a
//! model is loaded, the command lines they run and how they judge what the
//! tool left behind. Running the tool and handling its files is the caller's.
use vstd::prelude::*;

use crate::artifact::{ArtifactFormat, ModelArtifact};
use crate::config::{load_config_error, opt_str_view, LoadConfig};
use crate::error::{is_invalid_config, EngineError, Result};
use crate::stable_diffusion::{flag_pair, format_debug_name, string_views};
use crate::text::{is_unicode_whitespace, trim_seq};
use crate::types::{LoadedModelInfo, Tokenization};

verus! {

/// The text appended to a list of texts.
fn push_text(v: &mut Vec<String>, s: &str)
    ensures
        string_views(final(v)@) == string_views(old(v)@).push(s@),
{
    v.push(s.to_owned());
    assert(string_views(final(v)@) =~= string_views(old(v)@).push(s@));
}

/// A flag and its value appended, when the value is present and not empty.
fn push_nonempty_flag(v: &mut Vec<String>, flag: &str, value: Option<&str>)
    ensures
        string_views(final(v)@) == string_views(old(v)@) + flag_pair(flag@, nonempty(opt_str_view(value))),
{
    let ghost before = string_views(v@);
    match value {
        Some(x) => {
            if !x.is_empty() {
                push_text(v, flag);
                push_text(v, x);
            }
        },
        None => {},
    }
    assert(string_views(v@) =~= before + flag_pair(flag@, nonempty(opt_str_view(value))));
}

/// The value when it is present and not empty.
pub open spec fn nonempty(value: Option<Seq<char>>) -> Option<Seq<char>> {
    match value {
        Some(v) => if v.len() > 0 {
            Some(v)
        } else {
            None
        },
        None => None,
    }
}

/// The number of whitespace-separated words among the first `n` characters.
pub open spec fn word_count(s: Seq<char>, n: int) -> nat
    decreases n,
{
    if n <= 0 {
        0
    } else {
        word_count(s, n - 1) + if !is_unicode_whitespace(s[n - 1]) && (n == 1
            || is_unicode_whitespace(s[n - 2])) {
            1nat
        } else {
            0nat
        }
    }
}

/// The token id of the `i`-th word, saturated at `i32::MAX`.
pub open spec fn word_token(i: int) -> i32 {
    if i <= i32::MAX {
        i as i32
    } else {
        i32::MAX
    }
}

/// What a command-line backend reports for a loaded model: the artifact and
/// context size of the configuration, and no training context or vocabulary.
pub open spec fn reports_load(info: LoadedModelInfo, backend: Seq<char>, config: LoadConfig) -> bool {
    &&& info.backend@ == backend
    &&& info.artifact.same_as(config.artifact)
    &&& info.ctx_size == config.ctx_size
    &&& info.n_ctx_train == 0
    &&& info.n_vocab == 0
}

fn loaded_info(backend: &str, config: &LoadConfig) -> (r: LoadedModelInfo)
    ensures
        reports_load(r, backend@, *config),
{
    LoadedModelInfo {
        backend: backend.to_owned(),
        artifact: config.artifact.clone(),
        ctx_size: config.ctx_size,
        n_ctx_train: 0,
        n_vocab: 0,
    }
}

/// The message with which a tool's failed run is reported: the binary, its
/// exit status, and its trimmed standard error and output in `Debug` form.
pub open spec fn command_failure_text(
    binary: Seq<char>,
    status: Seq<char>,
    stderr: Seq<u8>,
    stdout: Seq<u8>,
) -> Seq<char> {
    binary + " exited with "@ + status + "; stderr="@ + crate::text::debug_quoted(
        trim_seq(crate::needle::utf8_lossy_text(stderr)),
    ) + "; stdout="@ + crate::text::debug_quoted(trim_seq(crate::needle::utf8_lossy_text(stdout)))
}

/// The message of a tool run that exited unsuccessfully with `status` (its
/// display text).
pub fn command_failure(binary: &str, status: &str, stderr: &[u8], stdout: &[u8]) -> (r: String)
    ensures
        r@ == command_failure_text(binary@, status@, stderr@, stdout@),
{
    let err = crate::text::trimmed(crate::needle::decode_utf8_lossy(stderr).as_str());
    let out = crate::text::trimmed(crate::needle::decode_utf8_lossy(stdout).as_str());
    let mut r = crate::config::concat_str(binary, " exited with ");
    r = crate::config::concat_str(r.as_str(), status);
    r = crate::config::concat_str(r.as_str(), "; stderr=");
    r = crate::config::concat_str(r.as_str(), crate::text::debug_quote(err.as_str()).as_str());
    r = crate::config::concat_str(r.as_str(), "; stdout=");
    r = crate::config::concat_str(r.as_str(), crate::text::debug_quote(out.as_str()).as_str());
    r
}

/// The whisper.cpp backend: the `whisper-cli` binary it runs and, once a
/// model is loaded, what it reported and the configuration.
pub struct WhisperCppBackend {
    pub binary: String,
    pub loaded: Option<LoadedModelInfo>,
    pub config: Option<LoadConfig>,
}

/// The arguments of a whisper.cpp transcription: the model, the input audio,
/// a text transcript under the output base, no timestamps, and the language
/// and prompt when they are given and not empty.
pub open spec fn transcription_args(
    model: Seq<char>,
    input: Seq<char>,
    output_base: Seq<char>,
    language: Option<Seq<char>>,
    prompt: Option<Seq<char>>,
) -> Seq<Seq<char>> {
    seq!["-m"@, model, "-f"@, input, "-otxt"@, "-of"@, output_base, "-nt"@] + flag_pair(
        "-l"@,
        nonempty(language),
    ) + flag_pair("--prompt"@, nonempty(prompt))
}

impl WhisperCppBackend {
    /// The backend with the binary that `MAYHEM_WHISPER_CPP_BIN` names, given
    /// its value when it is set, else `whisper-cli`.
    pub fn new(env_binary: Option<&str>) -> (r: Result<Self>)
        ensures
            r matches Ok(b) && b.binary@ == (match env_binary {
                Some(v) => v@,
                None => "whisper-cli"@,
            }) && b.loaded is None && b.config is None,
    {
        match env_binary {
            Some(v) => Ok(Self::with_binary(v)),
            None => Ok(Self::with_binary("whisper-cli")),
        }
    }

    /// The backend running `binary`, with nothing loaded.
    pub fn with_binary(binary: &str) -> (r: Self)
        ensures
            r.binary@ == binary@,
            r.loaded is None,
            r.config is None,
    {
        WhisperCppBackend { binary: binary.to_owned(), loaded: None, config: None }
    }

    pub fn backend_id(&self) -> (r: &'static str)
        ensures
            r@ == "whisper.cpp"@,
    {
        "whisper.cpp"
    }

    /// The checks of a load that come before the artifact is verified on
    /// disk: the configuration's rules and a whisper ggml artifact.
    pub fn check_load(config: &LoadConfig) -> (r: Result<()>)
        ensures
            match load_config_error(*config) {
                Some(m) => is_invalid_config(r, m),
                None => if config.artifact.format != ArtifactFormat::WhisperGgml {
                    is_invalid_config(
                        r,
                        "whisper.cpp backend requires whisper ggml models, got "@ + format_debug_name(
                            config.artifact.format,
                        ),
                    )
                } else {
                    r is Ok
                },
            },
    {
        crate::config::check_backend_load(
            config,
            ArtifactFormat::WhisperGgml,
            "whisper.cpp backend requires whisper ggml models, got ",
        )
    }

    /// Keeps a configuration whose artifact was verified, and reports it.
    pub fn finish_load(&mut self, config: LoadConfig) -> (r: LoadedModelInfo)
        ensures
            reports_load(r, "whisper.cpp"@, config),
            final(self).binary@ == old(self).binary@,
            final(self).loaded matches Some(i) && reports_load(i, "whisper.cpp"@, config),
            final(self).config == Some(config),
    {
        let info = loaded_info("whisper.cpp", &config);
        self.loaded = Some(loaded_info("whisper.cpp", &config));
        self.config = Some(config);
        info
    }

    /// One token per whitespace-separated word, numbered from zero.
    pub fn tokenize(&self, text: &str) -> (r: Result<Tokenization>)
        ensures
            r matches Ok(t) && t.token_ids@.len() == word_count(text@, text@.len() as int) && (
            forall|i: int| 0 <= i < t.token_ids@.len() ==> #[trigger] t.token_ids@[i] == word_token(i)),
    {
        let mut ids: Vec<i32> = Vec::new();
        let mut prev_space = true;
        for c in it: text.chars()
            invariant
                it.seq() == text@,
                ids@.len() == word_count(text@, it.index() as int),
                prev_space == (it.index() == 0 || is_unicode_whitespace(text@[it.index() - 1])),
                forall|i: int| 0 <= i < ids@.len() ==> #[trigger] ids@[i] == word_token(i),
        {
            let ws = crate::text::is_whitespace(c);
            if !ws && prev_space {
                let n = ids.len();
                let id: i32 = if n <= 2147483647 {
                    n as i32
                } else {
                    2147483647
                };
                ids.push(id);
            }
            prev_space = ws;
        }
        Ok(Tokenization { token_ids: ids })
    }

    /// Text generation is refused: this backend transcribes.
    pub fn generate(&mut self) -> (r: Result<crate::types::GenerateOutput>)
        ensures
            is_invalid_config(r, "whisper.cpp backend transcribes audio; use transcribe"@),
    {
        Err(crate::error::invalid_config("whisper.cpp backend transcribes audio; use transcribe"))
    }

    /// The checks that come before a transcription runs: not cancelled, some
    /// audio, and a loaded model, whose configuration is handed back.
    pub fn begin_transcription(&self, cancelled: bool, audio: &[u8]) -> (r: Result<&LoadConfig>)
        ensures
            cancelled ==> r == Err::<&LoadConfig, EngineError>(EngineError::Cancelled),
            !cancelled && audio@.len() == 0 ==> is_invalid_config(
                r,
                "audio transcription input cannot be empty"@,
            ),
            !cancelled && audio@.len() > 0 ==> match self.config {
                Some(c) => r == Ok::<&LoadConfig, EngineError>(&c),
                None => r == Err::<&LoadConfig, EngineError>(EngineError::NotLoaded),
            },
    {
        if cancelled {
            return Err(EngineError::Cancelled);
        }
        if audio.len() == 0 {
            return Err(crate::error::invalid_config("audio transcription input cannot be empty"));
        }
        match &self.config {
            Some(c) => Ok(c),
            None => Err(EngineError::NotLoaded),
        }
    }

    /// The command line of one transcription.
    pub fn transcription_args(
        model: &str,
        input: &str,
        output_base: &str,
        language: Option<&str>,
        prompt: Option<&str>,
    ) -> (r: Vec<String>)
        ensures
            string_views(r@) == transcription_args(
                model@,
                input@,
                output_base@,
                opt_str_view(language),
                opt_str_view(prompt),
            ),
    {
        let mut v: Vec<String> = Vec::new();
        push_text(&mut v, "-m");
        push_text(&mut v, model);
        push_text(&mut v, "-f");
        push_text(&mut v, input);
        push_text(&mut v, "-otxt");
        push_text(&mut v, "-of");
        push_text(&mut v, output_base);
        push_text(&mut v, "-nt");
        push_nonempty_flag(&mut v, "-l", language);
        push_nonempty_flag(&mut v, "--prompt", prompt);
        assert(string_views(v@) =~= transcription_args(
            model@,
            input@,
            output_base@,
            opt_str_view(language),
            opt_str_view(prompt),
        ));
        v
    }

    /// The outcome of a failed whisper.cpp run.
    pub fn run_failure(&self, status: &str, stderr: &[u8], stdout: &[u8]) -> (r: EngineError)
        ensures
            r matches EngineError::WhisperCpp(m) && m@ == command_failure_text(
                self.binary@,
                status@,
                stderr@,
                stdout@,
            ),
    {
        EngineError::WhisperCpp(command_failure(self.binary.as_str(), status, stderr, stdout))
    }

    /// The transcript that whisper.cpp wrote, trimmed, and the length of the
    /// audio in whole seconds (one when the audio is not a readable WAV
    /// file). An empty transcript is a failure.
    pub fn transcript(written: &str, audio: &[u8]) -> (r: Result<(String, u64)>)
        requires
            crate::media::is_wav_header(audio@) ==> !crate::media::wav_scan_overruns(audio@, 12),
        ensures
            trim_seq(written@).len() == 0 ==> (r matches Err(EngineError::WhisperCpp(m)) && m@
                == "whisper.cpp produced an empty transcript"@),
            trim_seq(written@).len() > 0 ==> (r matches Ok((t, secs)) && t@ == trim_seq(written@)
                && secs == match crate::media::wav_duration(audio@) {
                Some(s) => s,
                None => 1,
            }),
    {
        let text = crate::text::trimmed(written);
        if text.as_str().is_empty() {
            return Err(EngineError::WhisperCpp("whisper.cpp produced an empty transcript".to_owned()));
        }
        let secs = match crate::media::wav_duration_seconds_ceil(audio) {
            Some(s) => s,
            None => 1,
        };
        Ok((text, secs))
    }
}

/// The Piper backend: the `piper` binary it runs and, once a voice is
/// loaded, what it reported and the configuration.
pub struct PiperBackend {
    pub binary: String,
    pub loaded: Option<LoadedModelInfo>,
    pub config: Option<LoadConfig>,
}

/// The arguments of a Piper synthesis: the voice model and its config, the
/// input text file, the output WAV file, noise off, and the length scale
/// when one is given.
pub open spec fn synthesis_args(
    model: Seq<char>,
    config: Seq<char>,
    input: Seq<char>,
    output: Seq<char>,
    length_scale: Option<Seq<char>>,
) -> Seq<Seq<char>> {
    seq![
        "-m"@,
        model,
        "-c"@,
        config,
        "-i"@,
        input,
        "-f"@,
        output,
        "--noise-scale"@,
        "0"@,
        "--noise-w-scale"@,
        "0"@,
    ] + flag_pair("--length-scale"@, length_scale)
}

/// The response format a speech request asks for, lowercased; WAV when
/// none is named.
pub open spec fn speech_format(response_format: Option<Seq<char>>) -> Seq<char> {
    match response_format {
        Some(f) => crate::text::lower_seq(f),
        None => "wav"@,
    }
}

/// Piper's output is a WAV file: at least a header long and RIFF-tagged.
pub open spec fn is_piper_wav(bytes: Seq<u8>) -> bool {
    bytes.len() >= 44 && crate::media::tag_at(bytes, 0, crate::media::riff_tag())
}

impl PiperBackend {
    /// The backend with the binary that `MAYHEM_PIPER_BIN` names, given its
    /// value when it is set, else `piper`.
    pub fn new(env_binary: Option<&str>) -> (r: Result<Self>)
        ensures
            r matches Ok(b) && b.binary@ == (match env_binary {
                Some(v) => v@,
                None => "piper"@,
            }) && b.loaded is None && b.config is None,
    {
        match env_binary {
            Some(v) => Ok(Self::with_binary(v)),
            None => Ok(Self::with_binary("piper")),
        }
    }

    /// The backend running `binary`, with nothing loaded.
    pub fn with_binary(binary: &str) -> (r: Self)
        ensures
            r.binary@ == binary@,
            r.loaded is None,
            r.config is None,
    {
        PiperBackend { binary: binary.to_owned(), loaded: None, config: None }
    }

    pub fn backend_id(&self) -> (r: &'static str)
        ensures
            r@ == "piper"@,
    {
        "piper"
    }

    /// The checks of a load that come before the voice is verified on disk:
    /// the configuration's rules and a Piper voice artifact.
    pub fn check_load(config: &LoadConfig) -> (r: Result<()>)
        ensures
            match load_config_error(*config) {
                Some(m) => is_invalid_config(r, m),
                None => if config.artifact.format != ArtifactFormat::PiperVoice {
                    is_invalid_config(
                        r,
                        "piper backend requires Piper voice artifacts, got "@ + format_debug_name(
                            config.artifact.format,
                        ),
                    )
                } else {
                    r is Ok
                },
            },
    {
        crate::config::check_backend_load(
            config,
            ArtifactFormat::PiperVoice,
            "piper backend requires Piper voice artifacts, got ",
        )
    }

    /// What a load checks once the voice is verified: a pinned config
    /// sidecar must use the Piper config format and is then verified too
    /// (`Ok(true)`); without one, the config beside the voice is looked up
    /// (`Ok(false)`).
    pub fn check_config_sidecar(config: &LoadConfig) -> (r: Result<bool>)
        ensures
            match config.piper_config {
                None => r == Ok::<bool, EngineError>(false),
                Some(c) => if c.format == ArtifactFormat::PiperConfig {
                    r == Ok::<bool, EngineError>(true)
                } else {
                    is_invalid_config(
                        r,
                        "piper config sidecar must use PiperConfig format, got "@ + format_debug_name(
                            c.format,
                        ),
                    )
                },
            },
    {
        match &config.piper_config {
            None => Ok(false),
            Some(c) => {
                if c.format == ArtifactFormat::PiperConfig {
                    Ok(true)
                } else {
                    Err(EngineError::InvalidConfig(crate::config::concat_str(
                        "piper config sidecar must use PiperConfig format, got ",
                        crate::stable_diffusion::format_debug_text(c.format),
                    )))
                }
            },
        }
    }

    /// Keeps a configuration whose voice was verified, and reports it.
    pub fn finish_load(&mut self, config: LoadConfig) -> (r: LoadedModelInfo)
        ensures
            reports_load(r, "piper"@, config),
            final(self).binary@ == old(self).binary@,
            final(self).loaded matches Some(i) && reports_load(i, "piper"@, config),
            final(self).config == Some(config),
    {
        let info = loaded_info("piper", &config);
        self.loaded = Some(loaded_info("piper", &config));
        self.config = Some(config);
        info
    }

    /// One token per character: its scalar value.
    pub fn tokenize(&self, text: &str) -> (r: Result<Tokenization>)
        ensures
            r matches Ok(t) && t.token_ids@.len() == text@.len() && (forall|i: int|
                0 <= i < text@.len() ==> #[trigger] t.token_ids@[i] as int == (text@[i] as u32) as int),
    {
        let mut ids: Vec<i32> = Vec::new();
        for c in it: text.chars()
            invariant
                it.seq() == text@,
                ids@.len() == it.index(),
                forall|i: int| 0 <= i < ids@.len() ==> #[trigger] ids@[i] as int == (text@[i] as u32) as int,
        {
            let code = c as u32;
            proof {
                vstd::utf8::char_is_scalar(c);
            }
            ids.push(code as i32);
        }
        Ok(Tokenization { token_ids: ids })
    }

    /// Text generation is refused: this backend synthesizes speech.
    pub fn generate(&mut self) -> (r: Result<crate::types::GenerateOutput>)
        ensures
            is_invalid_config(r, "piper backend synthesizes speech; use synthesize_speech"@),
    {
        Err(crate::error::invalid_config("piper backend synthesizes speech; use synthesize_speech"))
    }

    /// The checks that come before a synthesis runs: not cancelled, some
    /// text that is not only whitespace, WAV output, and a loaded voice,
    /// whose configuration is handed back.
    pub fn begin_synthesis(&self, cancelled: bool, input: &str, response_format: Option<&str>) -> (r:
        Result<&LoadConfig>)
        ensures
            cancelled ==> r == Err::<&LoadConfig, EngineError>(EngineError::Cancelled),
            !cancelled && crate::text::is_blank_seq(input@) ==> is_invalid_config(
                r,
                "speech synthesis input cannot be empty"@,
            ),
            !cancelled && !crate::text::is_blank_seq(input@) && speech_format(
                opt_str_view(response_format),
            ) != "wav"@ ==> is_invalid_config(
                r,
                "piper backend currently emits wav audio, got response_format="@ + speech_format(
                    opt_str_view(response_format),
                ),
            ),
            !cancelled && !crate::text::is_blank_seq(input@) && speech_format(
                opt_str_view(response_format),
            ) == "wav"@ ==> match self.config {
                Some(c) => r == Ok::<&LoadConfig, EngineError>(&c),
                None => r == Err::<&LoadConfig, EngineError>(EngineError::NotLoaded),
            },
    {
        if cancelled {
            return Err(EngineError::Cancelled);
        }
        if crate::text::is_blank(input) {
            return Err(crate::error::invalid_config("speech synthesis input cannot be empty"));
        }
        let format = match response_format {
            Some(f) => crate::text::to_ascii_lower(f),
            None => "wav".to_owned(),
        };
        if !crate::text::str_eq(format.as_str(), "wav") {
            return Err(EngineError::InvalidConfig(crate::config::concat_str(
                "piper backend currently emits wav audio, got response_format=",
                format.as_str(),
            )));
        }
        match &self.config {
            Some(c) => Ok(c),
            None => Err(EngineError::NotLoaded),
        }
    }

    /// The command line of one synthesis; `length_scale` is the text of the
    /// length scale that the requested speed gives, if any.
    pub fn synthesis_args(
        model: &str,
        config: &str,
        input: &str,
        output: &str,
        length_scale: Option<&str>,
    ) -> (r: Vec<String>)
        ensures
            string_views(r@) == synthesis_args(model@, config@, input@, output@, opt_str_view(length_scale)),
    {
        let mut v: Vec<String> = Vec::new();
        push_text(&mut v, "-m");
        push_text(&mut v, model);
        push_text(&mut v, "-c");
        push_text(&mut v, config);
        push_text(&mut v, "-i");
        push_text(&mut v, input);
        push_text(&mut v, "-f");
        push_text(&mut v, output);
        push_text(&mut v, "--noise-scale");
        push_text(&mut v, "0");
        push_text(&mut v, "--noise-w-scale");
        push_text(&mut v, "0");
        let ghost before = string_views(v@);
        if let Some(x) = length_scale {
            push_text(&mut v, "--length-scale");
            push_text(&mut v, x);
        }
        assert(string_views(v@) =~= before + flag_pair("--length-scale"@, opt_str_view(length_scale)));
        assert(string_views(v@) =~= synthesis_args(model@, config@, input@, output@, opt_str_view(length_scale)));
        v
    }

    /// The outcome of a failed Piper run.
    pub fn run_failure(&self, status: &str, stderr: &[u8], stdout: &[u8]) -> (r: EngineError)
        ensures
            r matches EngineError::Piper(m) && m@ == command_failure_text(
                self.binary@,
                status@,
                stderr@,
                stdout@,
            ),
    {
        EngineError::Piper(command_failure(self.binary.as_str(), status, stderr, stdout))
    }

    /// The WAV file that Piper wrote, as the single final chunk of the
    /// `speech-1` artifact, and its length in whole seconds (one when the
    /// header does not give it). Anything shorter than a WAV header or not
    /// RIFF-tagged is a failure.
    pub fn speech_output(bytes: Vec<u8>) -> (r: Result<(crate::types::ArtifactChunk, crate::types::SpeechOutput)>)
        requires
            crate::media::is_wav_header(bytes@) ==> !crate::media::wav_scan_overruns(bytes@, 12),
        ensures
            !is_piper_wav(bytes@) ==> (r matches Err(EngineError::Piper(m)) && m@
                == "piper produced invalid or empty wav output"@),
            is_piper_wav(bytes@) ==> (r matches Ok((chunk, out)) && chunk.artifact_id@ == "speech-1"@
                && chunk.index == 0 && chunk.content_type@ == "audio/wav"@ && chunk.bytes@ == bytes@
                && chunk.final_chunk && out.audio_seconds == match crate::media::wav_duration(bytes@) {
                Some(s) => s,
                None => 1,
            }),
    {
        if bytes.len() < 44 || !(bytes[0] == 82 && bytes[1] == 73 && bytes[2] == 70 && bytes[3] == 70) {
            proof {
                if bytes@.len() >= 44 {
                    assert(!(bytes@.subrange(0, 4) =~= crate::media::riff_tag()));
                }
            }
            return Err(EngineError::Piper("piper produced invalid or empty wav output".to_owned()));
        }
        assert(bytes@.subrange(0, 4) =~= crate::media::riff_tag());
        let secs = match crate::media::wav_duration_seconds_ceil(bytes.as_slice()) {
            Some(s) => s,
            None => 1,
        };
        let chunk = crate::types::ArtifactChunk {
            artifact_id: "speech-1".to_owned(),
            index: 0,
            content_type: "audio/wav".to_owned(),
            bytes,
            final_chunk: true,
        };
        Ok((chunk, crate::types::SpeechOutput { audio_seconds: secs }))
    }
}

} // verus!
