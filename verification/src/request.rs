//! Generation and image requests and their validation.
//!
//! Sampling controls that are single-precision numbers are held as their
//! IEEE-754 bit patterns (`u32`); the checks compare them through an order key
//! that orders finite values exactly as the numbers they encode.
use vstd::prelude::*;

use crate::error::{invalid_config, is_error_of, is_invalid_config, EngineError, MessageKind, Result};
use crate::json::{get_str, json_get, json_str, JsonValue};
use crate::text::{
    chars_of, is_ascii_alnum, is_blank, is_blank_seq, str_eq, u64_to_decimal,
};

verus! {

/// Default completion budget, in tokens.
pub const DEFAULT_MAX_NEW_TOKENS: u32 = 64;

/// The sign bit of a single-precision bit pattern is set.
pub open spec fn f32_negative(bits: u32) -> bool {
    bits >= 0x8000_0000
}

/// The bit pattern without its sign bit.
pub open spec fn f32_magnitude(bits: u32) -> int {
    if f32_negative(bits) {
        bits - 0x8000_0000
    } else {
        bits as int
    }
}

/// The pattern encodes a finite number (its exponent is not all ones).
pub open spec fn f32_finite(bits: u32) -> bool {
    f32_magnitude(bits) < 0x7f80_0000
}

/// An integer that orders finite values as the numbers they encode: for
/// finite `a` and `b`, `a <= b` exactly when `key(a) <= key(b)`. Both zeros
/// have key 0; 1.0 has key 0x3f80_0000, 2.0 0x4000_0000, 10.0 0x4120_0000
/// and 50.0 0x4248_0000.
pub open spec fn f32_key(bits: u32) -> int {
    if f32_negative(bits) {
        -f32_magnitude(bits)
    } else {
        f32_magnitude(bits)
    }
}

/// Key of 1.0.
pub open spec fn key_one() -> int {
    0x3f80_0000
}

/// Key of 2.0.
pub open spec fn key_two() -> int {
    0x4000_0000
}

/// Key of 10.0.
pub open spec fn key_ten() -> int {
    0x4120_0000
}

/// Key of 50.0.
pub open spec fn key_fifty() -> int {
    0x4248_0000
}

/// The encoded value is finite and lies in `[lo, hi]` (given by keys).
pub open spec fn f32_within(bits: u32, lo: int, hi: int) -> bool {
    f32_finite(bits) && lo <= f32_key(bits) <= hi
}

fn f32_key_of(bits: u32) -> (r: i64)
    ensures
        r == f32_key(bits),
{
    if bits >= 0x8000_0000 {
        -((bits - 0x8000_0000) as i64)
    } else {
        bits as i64
    }
}

fn f32_is_finite(bits: u32) -> (r: bool)
    ensures
        r == f32_finite(bits),
{
    if bits >= 0x8000_0000 {
        bits - 0x8000_0000 < 0x7f80_0000
    } else {
        bits < 0x7f80_0000
    }
}

fn f32_in(bits: u32, lo: i64, hi: i64) -> (r: bool)
    ensures
        r == f32_within(bits, lo as int, hi as int),
{
    let k = f32_key_of(bits);
    f32_is_finite(bits) && lo <= k && k <= hi
}

/// Where a speciality control is applied.
#[derive(Clone, Copy, Debug, PartialEq, Eq, Structural)]
pub enum GenerateSpecialityTarget {
    ChatTemplateKwarg,
    SamplingParameter,
    PromptSuffix,
    BackendParameter,
}

/// One model-specific control a request asks for.
#[derive(Debug)]
pub struct GenerateSpecialityParameter {
    pub name: String,
    pub level: String,
    pub target: GenerateSpecialityTarget,
    pub native_path: String,
    pub value: JsonValue,
    pub max_reasoning_tokens: Option<u32>,
}

/// An image, audio or video input of a request. `fps` is a single-precision
/// bit pattern.
#[derive(Clone, Debug, PartialEq, Eq)]
pub struct MediaInput {
    pub kind: String,
    pub content_type: Option<String>,
    pub url: Option<String>,
    pub data: Option<String>,
    pub frames: Vec<String>,
    pub num_frames: Option<u32>,
    pub fps: Option<u32>,
}

/// A tool a model may call, with the JSON Schema of its arguments.
#[derive(Debug)]
pub struct ToolSpec {
    pub name: String,
    pub description: Option<String>,
    pub parameters: JsonValue,
}

impl ToolSpec {
    pub fn new(name: &str, parameters: JsonValue) -> (r: Self)
        ensures
            r.name@ == name@,
            r.description is None,
            r.parameters == parameters,
    {
        ToolSpec { name: name.to_owned(), description: None, parameters }
    }
}

/// A constraint on generated text.
#[derive(Debug)]
pub enum GrammarSpec {
    Gbnf { grammar: String, root: String },
    JsonSchema { schema: JsonValue },
    ToolCall { tools: Vec<ToolSpec> },
}

/// A text generation request. The sampling controls `temperature`, `top_p`,
/// `min_p`, `repeat_penalty`, `frequency_penalty` and `presence_penalty` are
/// single-precision bit patterns.
#[derive(Debug)]
pub struct GenerateRequest {
    pub prompt: String,
    pub messages: Vec<JsonValue>,
    pub tools: Vec<JsonValue>,
    pub parallel_tool_calls: Option<bool>,
    pub media: Vec<MediaInput>,
    pub max_new_tokens: u32,
    pub grammar: Option<GrammarSpec>,
    pub temperature: Option<u32>,
    pub top_p: Option<u32>,
    pub top_k: Option<i32>,
    pub min_p: Option<u32>,
    pub repeat_penalty: Option<u32>,
    pub frequency_penalty: Option<u32>,
    pub presence_penalty: Option<u32>,
    pub stop: Vec<String>,
    pub seed: Option<u32>,
    pub ignore_eos: bool,
    pub speciality_parameters: Vec<GenerateSpecialityParameter>,
}

/// A request with only its prompt set.
pub open spec fn is_plain_request(r: GenerateRequest, prompt: Seq<char>) -> bool {
    &&& r.prompt@ == prompt
    &&& r.messages@.len() == 0
    &&& r.tools@.len() == 0
    &&& r.parallel_tool_calls is None
    &&& r.media@.len() == 0
    &&& r.max_new_tokens == DEFAULT_MAX_NEW_TOKENS
    &&& r.grammar is None
    &&& r.temperature is None
    &&& r.top_p is None
    &&& r.top_k is None
    &&& r.min_p is None
    &&& r.repeat_penalty is None
    &&& r.frequency_penalty is None
    &&& r.presence_penalty is None
    &&& r.stop@.len() == 0
    &&& r.seed is None
    &&& !r.ignore_eos
    &&& r.speciality_parameters@.len() == 0
}

/// A name, level or native path: 1 to 128 ASCII letters, digits, `_`, `.`
/// or `-`.
pub open spec fn is_safe_speciality_name(s: Seq<char>) -> bool {
    &&& 0 < s.len() <= 128
    &&& forall|i: int|
        0 <= i < s.len() ==> is_ascii_alnum(#[trigger] s[i]) || s[i] == '_' || s[i] == '.' || s[i]
            == '-'
}

pub fn valid_speciality_name(value: &str) -> (r: bool)
    ensures
        r == is_safe_speciality_name(value@),
{
    let v = chars_of(value);
    if v.len() == 0 || v.len() > 128 {
        return false;
    }
    let mut i: usize = 0;
    while i < v.len()
        invariant
            i <= v@.len(),
            v@ == value@,
            forall|j: int|
                0 <= j < i ==> is_ascii_alnum(#[trigger] v@[j]) || v@[j] == '_' || v@[j] == '.'
                    || v@[j] == '-',
        decreases v@.len() - i,
    {
        let c = v[i];
        if !(('a' <= c && c <= 'z') || ('A' <= c && c <= 'Z') || ('0' <= c && c <= '9') || c
            == '_' || c == '.' || c == '-') {
            return false;
        }
        i = i + 1;
    }
    true
}

/// Some speciality has an unsafe name, level or native path, or repeats an
/// earlier speciality's name.
pub open spec fn specialities_bad(s: Seq<GenerateSpecialityParameter>) -> bool {
    exists|i: int|
        0 <= i < s.len() && (!is_safe_speciality_name((#[trigger] s[i]).name@)
            || !is_safe_speciality_name(s[i].level@) || !is_safe_speciality_name(
            s[i].native_path@,
        ) || exists|j: int| 0 <= j < i && s[j].name@ == s[i].name@)
}

/// Every stop string is non-empty and at most 1024 characters, and there
/// are at most 4.
pub open spec fn stops_ok(stop: Seq<String>) -> bool {
    stop.len() <= 4 && forall|i: int| 0 <= i < stop.len() ==> 0 < (#[trigger] stop[i])@.len() <= 1024
}

/// The first sampling check a request fails, with its message.
pub open spec fn sampling_error(r: GenerateRequest) -> Option<Seq<char>> {
    if r.speciality_parameters@.len() > 16 {
        Some("at most 16 speciality parameters may be supplied"@)
    } else if specialities_bad(r.speciality_parameters@) {
        Some("speciality parameters require unique safe names, levels, and native paths"@)
    } else if r.temperature matches Some(t) && !f32_within(t, 0, key_two()) {
        Some("temperature must be finite and between 0 and 2"@)
    } else if r.top_p matches Some(t) && !f32_within(t, 1, key_one()) {
        Some("top_p must be finite and in (0, 1]"@)
    } else if r.top_k matches Some(k) && !(0 <= k <= 1_000_000) {
        Some("top_k must be between 0 and 1000000"@)
    } else if r.min_p matches Some(t) && !f32_within(t, 0, key_one()) {
        Some("min_p must be finite and between 0 and 1"@)
    } else if r.repeat_penalty matches Some(t) && !f32_within(t, 1, key_ten()) {
        Some("repeat_penalty must be finite and in (0, 10]"@)
    } else if r.frequency_penalty matches Some(t) && !f32_within(t, -key_two(), key_two()) {
        Some("frequency_penalty must be finite and between -2 and 2"@)
    } else if r.presence_penalty matches Some(t) && !f32_within(t, -key_two(), key_two()) {
        Some("presence_penalty must be finite and between -2 and 2"@)
    } else if !stops_ok(r.stop@) {
        Some("stop must contain at most 4 non-empty strings of at most 1024 characters"@)
    } else {
        None
    }
}

fn specialities_are_bad(s: &Vec<GenerateSpecialityParameter>) -> (r: bool)
    ensures
        r == specialities_bad(s@),
{
    let mut i: usize = 0;
    while i < s.len()
        invariant
            i <= s@.len(),
            forall|k: int|
                0 <= k < i ==> !(!is_safe_speciality_name((#[trigger] s@[k]).name@)
                    || !is_safe_speciality_name(s@[k].level@) || !is_safe_speciality_name(
                    s@[k].native_path@,
                ) || exists|j: int| 0 <= j < k && s@[j].name@ == s@[k].name@),
        decreases s@.len() - i,
    {
        let p = &s[i];
        if !valid_speciality_name(p.name.as_str()) || !valid_speciality_name(p.level.as_str())
            || !valid_speciality_name(p.native_path.as_str()) {
            assert(!is_safe_speciality_name(s@[i as int].name@) || !is_safe_speciality_name(
                s@[i as int].level@,
            ) || !is_safe_speciality_name(s@[i as int].native_path@));
            return true;
        }
        let mut j: usize = 0;
        while j < i
            invariant
                j <= i < s@.len(),
                forall|m: int| 0 <= m < j ==> s@[m].name@ != s@[i as int].name@,
            decreases i - j,
        {
            if str_eq(s[j].name.as_str(), s[i].name.as_str()) {
                assert(s@[j as int].name@ == s@[i as int].name@);
                return true;
            }
            j = j + 1;
        }
        i = i + 1;
    }
    false
}

fn stops_are_ok(stop: &Vec<String>) -> (r: bool)
    ensures
        r == stops_ok(stop@),
{
    if stop.len() > 4 {
        return false;
    }
    let mut i: usize = 0;
    while i < stop.len()
        invariant
            i <= stop@.len() <= 4,
            forall|k: int| 0 <= k < i ==> 0 < (#[trigger] stop@[k])@.len() <= 1024,
        decreases stop@.len() - i,
    {
        let v = chars_of(stop[i].as_str());
        if v.len() == 0 || v.len() > 1024 {
            return false;
        }
        i = i + 1;
    }
    true
}

fn opt_f32_outside(v: Option<u32>, lo: i64, hi: i64) -> (r: bool)
    ensures
        r == (v matches Some(t) && !f32_within(t, lo as int, hi as int)),
{
    match v {
        Some(t) => !f32_in(t, lo, hi),
        None => false,
    }
}

impl GenerateRequest {
    /// A request for `prompt` with every other setting at its default.
    pub fn new(prompt: &str) -> (r: Self)
        ensures
            is_plain_request(r, prompt@),
    {
        GenerateRequest {
            prompt: prompt.to_owned(),
            messages: Vec::new(),
            tools: Vec::new(),
            parallel_tool_calls: None,
            media: Vec::new(),
            max_new_tokens: DEFAULT_MAX_NEW_TOKENS,
            grammar: None,
            temperature: None,
            top_p: None,
            top_k: None,
            min_p: None,
            repeat_penalty: None,
            frequency_penalty: None,
            presence_penalty: None,
            stop: Vec::new(),
            seed: None,
            ignore_eos: false,
            speciality_parameters: Vec::new(),
        }
    }

    pub fn with_max_new_tokens(self, max_new_tokens: u32) -> (r: Self)
        ensures
            r == (GenerateRequest { max_new_tokens, ..self }),
    {
        GenerateRequest { max_new_tokens, ..self }
    }

    pub fn with_grammar(self, grammar: GrammarSpec) -> (r: Self)
        ensures
            r == (GenerateRequest { grammar: Some(grammar), ..self }),
    {
        GenerateRequest { grammar: Some(grammar), ..self }
    }

    pub fn with_ignore_eos(self, ignore_eos: bool) -> (r: Self)
        ensures
            r == (GenerateRequest { ignore_eos, ..self }),
    {
        GenerateRequest { ignore_eos, ..self }
    }

    /// Checks the speciality controls, the sampling ranges and the stop
    /// strings, in that order.
    pub fn validate_sampling(&self) -> (r: Result<()>)
        ensures
            match sampling_error(*self) {
                Some(text) => is_invalid_config(r, text),
                None => r is Ok,
            },
    {
        if self.speciality_parameters.len() > 16 {
            return Err(invalid_config("at most 16 speciality parameters may be supplied"));
        }
        if specialities_are_bad(&self.speciality_parameters) {
            return Err(
                invalid_config(
                    "speciality parameters require unique safe names, levels, and native paths",
                ),
            );
        }
        if opt_f32_outside(self.temperature, 0, 0x4000_0000) {
            return Err(invalid_config("temperature must be finite and between 0 and 2"));
        }
        if opt_f32_outside(self.top_p, 1, 0x3f80_0000) {
            return Err(invalid_config("top_p must be finite and in (0, 1]"));
        }
        if let Some(k) = self.top_k {
            if k < 0 || k > 1_000_000 {
                return Err(invalid_config("top_k must be between 0 and 1000000"));
            }
        }
        if opt_f32_outside(self.min_p, 0, 0x3f80_0000) {
            return Err(invalid_config("min_p must be finite and between 0 and 1"));
        }
        if opt_f32_outside(self.repeat_penalty, 1, 0x4120_0000) {
            return Err(invalid_config("repeat_penalty must be finite and in (0, 10]"));
        }
        if opt_f32_outside(self.frequency_penalty, -0x4000_0000, 0x4000_0000) {
            return Err(invalid_config("frequency_penalty must be finite and between -2 and 2"));
        }
        if opt_f32_outside(self.presence_penalty, -0x4000_0000, 0x4000_0000) {
            return Err(invalid_config("presence_penalty must be finite and between -2 and 2"));
        }
        if !stops_are_ok(&self.stop) {
            return Err(
                invalid_config(
                    "stop must contain at most 4 non-empty strings of at most 1024 characters",
                ),
            );
        }
        Ok(())
    }
}


/// Law: a generation request passes the sampling checks exactly when it
/// names at most 16 speciality parameters with unique safe names, levels and
/// native paths; each sampling setting it gives is finite and within its
/// range (temperature in [0, 2], top_p in (0, 1], top_k in 0..=1000000,
/// min_p in [0, 1], repeat_penalty in (0, 10], frequency_penalty and
/// presence_penalty each in [-2, 2]); and it has at most 4 stop strings,
/// each non-empty and at most 1024 characters long. Ranges of
/// floating-point values are stated on the order key of their f32 encoding
/// (`f32_key`: key 1 is the smallest positive value, 0x3f80_0000 is 1.0,
/// 0x4000_0000 is 2.0, 0x4120_0000 is 10.0, and negation negates the key).
pub proof fn lemma_sampling_checks_are_the_ranges(r: GenerateRequest)
    ensures
        sampling_error(r) is None <==> {
            &&& r.speciality_parameters@.len() <= 16
            &&& !specialities_bad(r.speciality_parameters@)
            &&& (r.temperature matches Some(t) ==> f32_finite(t) && 0 <= f32_key(t) <= 0x4000_0000)
            &&& (r.top_p matches Some(t) ==> f32_finite(t) && 1 <= f32_key(t) <= 0x3f80_0000)
            &&& (r.top_k matches Some(k) ==> 0 <= k <= 1_000_000)
            &&& (r.min_p matches Some(t) ==> f32_finite(t) && 0 <= f32_key(t) <= 0x3f80_0000)
            &&& (r.repeat_penalty matches Some(t) ==> f32_finite(t) && 1 <= f32_key(t)
                <= 0x4120_0000)
            &&& (r.frequency_penalty matches Some(t) ==> f32_finite(t) && -0x4000_0000 <= f32_key(t)
                <= 0x4000_0000)
            &&& (r.presence_penalty matches Some(t) ==> f32_finite(t) && -0x4000_0000 <= f32_key(t)
                <= 0x4000_0000)
            &&& r.stop@.len() <= 4
            &&& forall|i: int| 0 <= i < r.stop@.len() ==> 0 < (#[trigger] r.stop@[i])@.len() <= 1024
        },
{
}

/// Law: each sampling setting is checked on its own field. A request that
/// gives a setting outside its range is refused, and where that setting is
/// its only fault (the same request without it passes) the message names
/// that setting.
pub proof fn lemma_each_sampling_setting_is_checked(r: GenerateRequest)
    ensures
        r.temperature matches Some(t) && !(f32_finite(t) && 0 <= f32_key(t) <= 0x4000_0000) ==> {
            &&& sampling_error(r) is Some
            &&& sampling_error((GenerateRequest { temperature: None, ..r })) is None ==> sampling_error(r)
                == Some("temperature must be finite and between 0 and 2"@)
        },
        r.top_p matches Some(t) && !(f32_finite(t) && 1 <= f32_key(t) <= 0x3f80_0000) ==> {
            &&& sampling_error(r) is Some
            &&& sampling_error((GenerateRequest { top_p: None, ..r })) is None ==> sampling_error(r)
                == Some("top_p must be finite and in (0, 1]"@)
        },
        r.top_k matches Some(k) && !(0 <= k <= 1_000_000) ==> {
            &&& sampling_error(r) is Some
            &&& sampling_error((GenerateRequest { top_k: None, ..r })) is None ==> sampling_error(r)
                == Some("top_k must be between 0 and 1000000"@)
        },
        r.min_p matches Some(t) && !(f32_finite(t) && 0 <= f32_key(t) <= 0x3f80_0000) ==> {
            &&& sampling_error(r) is Some
            &&& sampling_error((GenerateRequest { min_p: None, ..r })) is None ==> sampling_error(r)
                == Some("min_p must be finite and between 0 and 1"@)
        },
        r.repeat_penalty matches Some(t) && !(f32_finite(t) && 1 <= f32_key(t) <= 0x4120_0000) ==> {
            &&& sampling_error(r) is Some
            &&& sampling_error((GenerateRequest { repeat_penalty: None, ..r })) is None
                ==> sampling_error(r) == Some("repeat_penalty must be finite and in (0, 10]"@)
        },
        r.frequency_penalty matches Some(t) && !(f32_finite(t) && -0x4000_0000 <= f32_key(t)
            <= 0x4000_0000) ==> {
            &&& sampling_error(r) is Some
            &&& sampling_error((GenerateRequest { frequency_penalty: None, ..r })) is None
                ==> sampling_error(r) == Some(
                "frequency_penalty must be finite and between -2 and 2"@,
            )
        },
        r.presence_penalty matches Some(t) && !(f32_finite(t) && -0x4000_0000 <= f32_key(t)
            <= 0x4000_0000) ==> {
            &&& sampling_error(r) is Some
            &&& sampling_error((GenerateRequest { presence_penalty: None, ..r })) is None
                ==> sampling_error(r) == Some("presence_penalty must be finite and between -2 and 2"@)
        },
{
}

} // verus!

verus! {

pub fn default_max_new_tokens() -> (r: u32)
    ensures
        r == 64,
{
    64
}

pub fn default_image_count() -> (r: u32)
    ensures
        r == 1,
{
    1
}

pub fn default_image_width() -> (r: u32)
    ensures
        r == 512,
{
    512
}

pub fn default_image_height() -> (r: u32)
    ensures
        r == 512,
{
    512
}

pub fn default_image_steps() -> (r: u32)
    ensures
        r == 1,
{
    1
}

/// Bit pattern of the default guidance scale, 1.0.
pub fn default_image_guidance_scale() -> (r: u32)
    ensures
        r == 0x3f80_0000,
{
    0x3f80_0000
}

/// Bytes that UTF-8 spends on one character.
pub open spec fn utf8_char_len(c: char) -> nat {
    if (c as u32) < 0x80 {
        1
    } else if (c as u32) < 0x800 {
        2
    } else if (c as u32) < 0x10000 {
        3
    } else {
        4
    }
}

/// Length of a text in UTF-8 bytes, as `str::len` gives it.
pub open spec fn utf8_len(s: Seq<char>) -> nat
    decreases s.len(),
{
    if s.len() == 0 {
        0
    } else {
        utf8_len(s.drop_last()) + utf8_char_len(s.last())
    }
}

/// Length of a text in UTF-8 bytes, saturating at `usize::MAX`.
pub fn utf8_byte_len(s: &str) -> (r: usize)
    ensures
        r == if utf8_len(s@) > usize::MAX { usize::MAX as int } else { utf8_len(s@) as int },
{
    let mut n: usize = 0;
    let mut saturated = false;
    for c in it: s.chars()
        invariant
            it.seq() == s@,
            saturated ==> utf8_len(s@.take(it.index() as int)) > usize::MAX && n == usize::MAX,
            !saturated ==> n == utf8_len(s@.take(it.index() as int)),
    {
        let w: usize = if (c as u32) < 0x80 {
            1
        } else if (c as u32) < 0x800 {
            2
        } else if (c as u32) < 0x10000 {
            3
        } else {
            4
        };
        proof {
            assert(s@.take(it.index() + 1).drop_last() =~= s@.take(it.index() as int));
            assert(s@.take(it.index() + 1).last() == c);
        }
        if !saturated {
            if n > usize::MAX - w {
                saturated = true;
                n = usize::MAX;
            } else {
                n = n + w;
            }
        }
    }
    proof {
        assert(s@.take(s@.len() as int) =~= s@);
    }
    n
}

/// An image generation request. `guidance_scale` and `flow_shift` are
/// single-precision bit patterns.
#[derive(Clone, Debug, PartialEq, Eq)]
pub struct ImageGenerationRequest {
    pub prompt: String,
    pub negative_prompt: Option<String>,
    pub image_count: u32,
    pub width: u32,
    pub height: u32,
    pub steps: u32,
    pub guidance_scale: u32,
    pub flow_shift: Option<u32>,
    pub seed: Option<u32>,
    pub sampling_method: Option<String>,
    pub scheduler: Option<String>,
}

/// An optional sampler or scheduler name that is blank or longer than 128 bytes.
pub open spec fn bad_sampler_name(v: Option<String>) -> bool {
    v matches Some(s) && (is_blank_seq(s@) || utf8_len(s@) > 128)
}

/// The first check an image request fails, with its message.
pub open spec fn image_request_error(r: ImageGenerationRequest) -> Option<Seq<char>> {
    if is_blank_seq(r.prompt@) {
        Some("image prompt must not be empty"@)
    } else if !(1 <= r.image_count <= 4) {
        Some("image_count must be between 1 and 4"@)
    } else if !(64 <= r.width <= 2048) || !(64 <= r.height <= 2048) {
        Some("image dimensions must each be between 64 and 2048"@)
    } else if !(1 <= r.steps <= 150) {
        Some("image steps must be between 1 and 150"@)
    } else if !f32_within(r.guidance_scale, 0, key_fifty()) {
        Some("image guidance_scale must be finite and between 0 and 50"@)
    } else if r.flow_shift matches Some(s) && !f32_within(s, key_one(), key_ten()) {
        Some("image flow_shift must be finite and between 1 and 10"@)
    } else if bad_sampler_name(r.sampling_method) {
        Some("image sampling_method must be a non-empty string of at most 128 bytes"@)
    } else if bad_sampler_name(r.scheduler) {
        Some("image scheduler must be a non-empty string of at most 128 bytes"@)
    } else {
        None
    }
}

fn is_bad_sampler_name(v: &Option<String>) -> (r: bool)
    ensures
        r == bad_sampler_name(*v),
{
    match v {
        Some(s) => is_blank(s.as_str()) || utf8_byte_len(s.as_str()) > 128,
        None => false,
    }
}

impl ImageGenerationRequest {
    /// A request for one 512x512 image in one step at guidance 1.0.
    pub fn new(prompt: &str) -> (r: Self)
        ensures
            r.prompt@ == prompt@,
            r.negative_prompt is None,
            r.image_count == 1,
            r.width == 512,
            r.height == 512,
            r.steps == 1,
            r.guidance_scale == 0x3f80_0000,
            r.flow_shift is None,
            r.seed is None,
            r.sampling_method is None,
            r.scheduler is None,
    {
        ImageGenerationRequest {
            prompt: prompt.to_owned(),
            negative_prompt: None,
            image_count: default_image_count(),
            width: default_image_width(),
            height: default_image_height(),
            steps: default_image_steps(),
            guidance_scale: default_image_guidance_scale(),
            flow_shift: None,
            seed: None,
            sampling_method: None,
            scheduler: None,
        }
    }

    pub fn validate(&self) -> (r: Result<()>)
        ensures
            match image_request_error(*self) {
                Some(text) => is_invalid_config(r, text),
                None => r is Ok,
            },
    {
        if is_blank(self.prompt.as_str()) {
            return Err(invalid_config("image prompt must not be empty"));
        }
        if self.image_count < 1 || self.image_count > 4 {
            return Err(invalid_config("image_count must be between 1 and 4"));
        }
        if self.width < 64 || self.width > 2048 || self.height < 64 || self.height > 2048 {
            return Err(invalid_config("image dimensions must each be between 64 and 2048"));
        }
        if self.steps < 1 || self.steps > 150 {
            return Err(invalid_config("image steps must be between 1 and 150"));
        }
        if !f32_in(self.guidance_scale, 0, 0x4248_0000) {
            return Err(invalid_config("image guidance_scale must be finite and between 0 and 50"));
        }
        if opt_f32_outside(self.flow_shift, 0x3f80_0000, 0x4120_0000) {
            return Err(invalid_config("image flow_shift must be finite and between 1 and 10"));
        }
        if is_bad_sampler_name(&self.sampling_method) {
            return Err(
                invalid_config(
                    "image sampling_method must be a non-empty string of at most 128 bytes",
                ),
            );
        }
        if is_bad_sampler_name(&self.scheduler) {
            return Err(
                invalid_config("image scheduler must be a non-empty string of at most 128 bytes"),
            );
        }
        Ok(())
    }
}


/// Law: an image request passes its checks exactly when its prompt is not
/// blank, it asks for 1 to 4 images, its width and its height each lie in
/// 64..=2048, it takes 1 to 150 steps, its guidance scale is finite and
/// within [0, 50], a flow shift it gives is finite and within [1, 10], and a
/// sampler or scheduler it names is non-blank and at most 128 bytes. Ranges
/// of floating-point values are stated on the order key of their f32
/// encoding (`f32_key`: 0x3f80_0000 is 1.0, 0x4120_0000 is 10.0,
/// 0x4248_0000 is 50.0).
pub proof fn lemma_image_checks_are_the_ranges(r: ImageGenerationRequest)
    ensures
        image_request_error(r) is None <==> {
            &&& !is_blank_seq(r.prompt@)
            &&& 1 <= r.image_count <= 4
            &&& 64 <= r.width <= 2048
            &&& 64 <= r.height <= 2048
            &&& 1 <= r.steps <= 150
            &&& f32_finite(r.guidance_scale) && 0 <= f32_key(r.guidance_scale) <= 0x4248_0000
            &&& (r.flow_shift matches Some(s) ==> f32_finite(s) && 0x3f80_0000 <= f32_key(s)
                <= 0x4120_0000)
            &&& !bad_sampler_name(r.sampling_method)
            &&& !bad_sampler_name(r.scheduler)
        },
{
}

/// Law: an image request whose width or height lies outside 64..=2048 is
/// refused, and where the size is its only fault (the same request at
/// 512x512 passes) with the message about the image dimensions.
pub proof fn lemma_image_dimensions_are_checked(r: ImageGenerationRequest)
    ensures
        !(64 <= r.width <= 2048) ==> image_request_error(r) is Some,
        !(64 <= r.height <= 2048) ==> image_request_error(r) is Some,
        !(64 <= r.width <= 2048 && 64 <= r.height <= 2048) && image_request_error(
            (ImageGenerationRequest { width: 512, height: 512, ..r }),
        ) is None ==> image_request_error(r) == Some(
            "image dimensions must each be between 64 and 2048"@,
        ),
{
}

} // verus!

verus! {

/// A video, audio or music request. `request` is the endpoint's own body.
#[derive(Debug)]
pub struct MediaGenerationRequest {
    pub endpoint_family: String,
    pub prompt: String,
    pub request: JsonValue,
    pub duration_seconds: Option<u64>,
    pub frame_count: Option<u64>,
    pub step_count: Option<u64>,
    pub response_format: Option<String>,
}

/// Member `field` of the body is a string that is not blank.
pub open spec fn has_text(body: JsonValue, field: Seq<char>) -> bool {
    json_str(json_get(body, field)) matches Some(t) && !is_blank_seq(t)
}

/// Member `field` carries source audio: a non-blank string, or an object
/// whose `data` is a non-blank string.
pub open spec fn carries_audio(body: JsonValue, field: Seq<char>) -> bool {
    match json_get(body, field) {
        Some(JsonValue::String(s)) => !is_blank_seq(s@),
        Some(d) => (d is Object) && has_text(d, "data"@),
        None => false,
    }
}

/// The music task named by `task_type` (`text2music` when it is not a
/// string) has what it needs: a caption or lyrics for `text2music`, source
/// audio for `cover`, `cover-nofsq` and `repaint`.
pub open spec fn music_task_input_ok(r: MediaGenerationRequest) -> bool {
    &&& r.endpoint_family@ == "mayhem_music_generations"@
    &&& r.request is Object
    &&& {
        let task = match json_str(json_get(r.request, "task_type"@)) {
            Some(t) => t,
            None => "text2music"@,
        };
        if task == "text2music"@ {
            has_text(r.request, "caption"@) || has_text(r.request, "lyrics"@)
        } else if task == "cover"@ || task == "cover-nofsq"@ || task == "repaint"@ {
            ||| carries_audio(r.request, "source_audio"@)
            ||| carries_audio(r.request, "src_audio"@)
            ||| carries_audio(r.request, "input_audio"@)
            ||| carries_audio(r.request, "audio"@)
        } else {
            false
        }
    }
}

fn field_has_text(body: &JsonValue, field: &str) -> (r: bool)
    ensures
        r == has_text(*body, field@),
{
    match get_str(body, field) {
        Some(t) => !is_blank(t),
        None => false,
    }
}

fn field_carries_audio(body: &JsonValue, field: &str) -> (r: bool)
    ensures
        r == carries_audio(*body, field@),
{
    match body.get(field) {
        Some(JsonValue::String(s)) => !is_blank(s.as_str()),
        Some(d) => d.is_object() && field_has_text(d, "data"),
        None => false,
    }
}

/// Whether a music request without a prompt still names a complete task.
pub fn music_request_has_validated_task_input(request: &MediaGenerationRequest) -> (r: bool)
    ensures
        r == music_task_input_ok(*request),
{
    if !str_eq(request.endpoint_family.as_str(), "mayhem_music_generations") {
        return false;
    }
    if !request.request.is_object() {
        return false;
    }
    let body = &request.request;
    let task = match get_str(body, "task_type") {
        Some(t) => t,
        None => "text2music",
    };
    if str_eq(task, "text2music") {
        field_has_text(body, "caption") || field_has_text(body, "lyrics")
    } else if str_eq(task, "cover") || str_eq(task, "cover-nofsq") || str_eq(task, "repaint") {
        field_carries_audio(body, "source_audio") || field_carries_audio(body, "src_audio")
            || field_carries_audio(body, "input_audio") || field_carries_audio(body, "audio")
    } else {
        false
    }
}

/// The first check a media request fails, with its message.
pub open spec fn media_request_error(r: MediaGenerationRequest) -> Option<Seq<char>> {
    if is_blank_seq(r.endpoint_family@) {
        Some("media generation endpoint_family must not be empty"@)
    } else if is_blank_seq(r.prompt@) && !music_task_input_ok(r) {
        Some("media generation prompt must not be empty"@)
    } else if !(r.request is Object) {
        Some("media generation request must be an object"@)
    } else if r.duration_seconds == Some(0u64) {
        Some("media generation duration_seconds must be positive when supplied"@)
    } else if r.frame_count == Some(0u64) {
        Some("media generation frame_count must be positive when supplied"@)
    } else if r.step_count == Some(0u64) {
        Some("media generation step_count must be positive when supplied"@)
    } else {
        None
    }
}

impl MediaGenerationRequest {
    pub fn validate(&self) -> (r: Result<()>)
        ensures
            match media_request_error(*self) {
                Some(text) => is_invalid_config(r, text),
                None => r is Ok,
            },
    {
        if is_blank(self.endpoint_family.as_str()) {
            return Err(invalid_config("media generation endpoint_family must not be empty"));
        }
        if is_blank(self.prompt.as_str()) && !music_request_has_validated_task_input(self) {
            return Err(invalid_config("media generation prompt must not be empty"));
        }
        if !self.request.is_object() {
            return Err(invalid_config("media generation request must be an object"));
        }
        if self.duration_seconds == Some(0u64) {
            return Err(
                invalid_config("media generation duration_seconds must be positive when supplied"),
            );
        }
        if self.frame_count == Some(0u64) {
            return Err(
                invalid_config("media generation frame_count must be positive when supplied"),
            );
        }
        if self.step_count == Some(0u64) {
            return Err(
                invalid_config("media generation step_count must be positive when supplied"),
            );
        }
        Ok(())
    }
}


/// Law: a media request passes its checks exactly when it names an
/// endpoint family, has a prompt that is not blank (or, for a music request,
/// the task input its task type needs), carries its request as a JSON
/// object, and gives no duration, frame count or step count of zero.
pub proof fn lemma_media_checks_are_the_fields(r: MediaGenerationRequest)
    ensures
        media_request_error(r) is None <==> {
            &&& !is_blank_seq(r.endpoint_family@)
            &&& (!is_blank_seq(r.prompt@) || music_task_input_ok(r))
            &&& r.request is Object
            &&& r.duration_seconds != Some(0u64)
            &&& r.frame_count != Some(0u64)
            &&& r.step_count != Some(0u64)
        },
{
}

} // verus!
