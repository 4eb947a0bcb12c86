//! Media carried as base64 text: inline media inputs, `data:` URLs and the
//! images that sd-server answers with.
use vstd::prelude::*;

use base64::Engine;

use crate::config::concat_str;
use crate::error::{invalid_config, EngineError, Result};
use crate::json::{json_get, JsonValue};
use crate::request::MediaInput;
use crate::text::{
    ascii_lower, chars_of, decimal, index_of_char, lemma_index_of_char, lower_char, lower_seq,
    starts_with_seq, starts_with_str, string_from_chars, u64_to_decimal,
};

verus! {

/// What standard padded base64 decoding gives for `text`: the bytes, or the
/// decoder's error message.
pub uninterp spec fn base64_decoded(text: Seq<char>) -> std::result::Result<Seq<u8>, Seq<char>>;

/// `general_purpose::STANDARD.decode` of the `base64` crate, with the error
/// turned into its message.
#[verifier::external_body]
pub(crate) fn base64_decode(text: &str) -> (r: std::result::Result<Vec<u8>, String>)
    ensures
        base64_decoded(text@) == match r {
            Ok(v) => Ok::<Seq<u8>, Seq<char>>(v@),
            Err(e) => Err::<Seq<u8>, Seq<char>>(e@),
        },
{
    match base64::engine::general_purpose::STANDARD.decode(text) {
        Ok(v) => Ok(v),
        Err(e) => Err(e.to_string()),
    }
}

/// The decoded bytes, or an `InvalidConfig` error whose message is `prefix`
/// followed by the decoder's message.
pub open spec fn decoded_or(
    decoded: std::result::Result<Seq<u8>, Seq<char>>,
    prefix: Seq<char>,
) -> std::result::Result<Seq<u8>, Seq<char>> {
    match decoded {
        Ok(b) => Ok(b),
        Err(e) => Err(prefix + e),
    }
}

/// A result whose error is an `InvalidConfig` message, seen as bytes or text.
pub open spec fn config_outcome(r: Result<Vec<u8>>) -> std::result::Result<Seq<u8>, Seq<char>> {
    match r {
        Ok(b) => Ok(b@),
        Err(EngineError::InvalidConfig(m)) => Err(m@),
        Err(_) => Err(Seq::empty()),
    }
}

/// Turns the outcome of a base64 decode into the engine's result: a decode
/// error becomes an `InvalidConfig` error whose message is `prefix` followed
/// by the decoder's message.
pub fn decoded_or_config_error(decoded: std::result::Result<Vec<u8>, String>, prefix: &str) -> (r: Result<Vec<u8>>)
    ensures
        r is Err ==> r->Err_0 is InvalidConfig,
        config_outcome(r) == decoded_or(
            match decoded {
                Ok(v) => Ok::<Seq<u8>, Seq<char>>(v@),
                Err(e) => Err::<Seq<u8>, Seq<char>>(e@),
            },
            prefix@,
        ),
{
    match decoded {
        Ok(v) => Ok(v),
        Err(e) => Err(EngineError::InvalidConfig(concat_str(prefix, e.as_str()))),
    }
}

/// `m[i..i + 6]` is a `;`-separated part of `m` that reads `base64` in any
/// ASCII case.
pub open spec fn base64_part_at(m: Seq<char>, i: int) -> bool {
    &&& 0 <= i && i + 6 <= m.len()
    &&& (i == 0 || m[i - 1] == ';')
    &&& (i + 6 == m.len() || m[i + 6] == ';')
    &&& lower_seq(m.subrange(i, i + 6)) == "base64"@
}

/// Some `;`-separated part of the data URL metadata `m` is `base64`.
pub open spec fn has_base64_part(m: Seq<char>) -> bool {
    exists|i: int| base64_part_at(m, i)
}

fn base64_part_at_exec(m: &[char], i: usize) -> (r: bool)
    requires
        i + 6 <= m@.len(),
    ensures
        r == base64_part_at(m@, i as int),
{
    proof {
        reveal_strlit("base64");
    }
    let left = i == 0 || m[i - 1] == ';';
    let right = i + 6 == m.len() || m[i + 6] == ';';
    let word = lower_char(m[i]) == 'b' && lower_char(m[i + 1]) == 'a' && lower_char(m[i + 2]) == 's'
        && lower_char(m[i + 3]) == 'e' && lower_char(m[i + 4]) == '6' && lower_char(m[i + 5]) == '4';
    proof {
        let sub = lower_seq(m@.subrange(i as int, i + 6));
        assert(sub.len() == 6);
        assert(forall|k: int| 0 <= k < 6 ==> #[trigger] sub[k] == ascii_lower(m@[i + k]));
        if word {
            assert(sub =~= "base64"@);
        } else if sub == "base64"@ {
            assert(sub[0] == 'b' && sub[1] == 'a' && sub[2] == 's');
            assert(sub[3] == 'e' && sub[4] == '6' && sub[5] == '4');
        }
    }
    left && right && word
}

/// Whether some `;`-separated part of `m` is `base64`, ignoring ASCII case.
pub fn has_base64_part_exec(m: &[char]) -> (r: bool)
    ensures
        r == has_base64_part(m@),
{
    let mut i: usize = 0;
    while m.len() >= 6 && i <= m.len() - 6
        invariant
            i <= m@.len(),
            forall|j: int| 0 <= j < i ==> !base64_part_at(m@, j),
        decreases m@.len() - i,
    {
        if base64_part_at_exec(m, i) {
            return true;
        }
        i = i + 1;
    }
    false
}

/// Message for a URL that is not a `data:` URL.
pub open spec fn remote_url_message() -> Seq<char> {
    "remote media URLs are not fetched by provider engines; pass image data URLs"@
}

/// Message for a data URL without a `,`.
pub open spec fn missing_comma_message() -> Seq<char> {
    "media data URL is missing a comma separator"@
}

/// Message for a data URL whose metadata does not name base64.
pub open spec fn not_base64_url_message() -> Seq<char> {
    "media data URL must be base64 encoded"@
}

/// The base64 payload of a `data:` URL (what follows its first `,`), or the
/// message of the `InvalidConfig` error that rejects the URL.
pub open spec fn data_url_payload_spec(url: Seq<char>) -> std::result::Result<Seq<char>, Seq<char>> {
    if !starts_with_seq(url, "data:"@) {
        Err(remote_url_message())
    } else {
        let rest = url.skip(5);
        let comma = index_of_char(rest, ',');
        if comma == rest.len() {
            Err(missing_comma_message())
        } else if !has_base64_part(rest.take(comma as int)) {
            Err(not_base64_url_message())
        } else {
            Ok(rest.skip(comma as int + 1))
        }
    }
}

/// The base64 payload of a `data:` URL; only base64 data URLs are accepted.
pub fn data_url_payload(url: &str) -> (r: Result<String>)
    ensures
        match r {
            Ok(p) => data_url_payload_spec(url@) == Ok::<Seq<char>, Seq<char>>(p@),
            Err(e) => e matches EngineError::InvalidConfig(m) && data_url_payload_spec(url@) == Err::<
                Seq<char>,
                Seq<char>,
            >(m@),
        },
{
    proof {
        reveal_strlit("data:");
    }
    if !starts_with_str(url, "data:") {
        return Err(invalid_config("remote media URLs are not fetched by provider engines; pass image data URLs"));
    }
    let v = chars_of(url);
    let n = v.len();
    let ghost rest = url@.skip(5);
    let mut c: usize = 5;
    while c < n && v[c] != ','
        invariant
            v@ == url@,
            n == url@.len(),
            5 <= c <= n,
            forall|j: int| 5 <= j < c ==> url@[j] != ',',
        decreases n - c,
    {
        c = c + 1;
    }
    proof {
        assert forall|j: int| 0 <= j < c - 5 implies rest[j] != ',' by {
            assert(rest[j] == url@[j + 5]);
        }
        lemma_index_of_char(rest, ',', c - 5);
    }
    if c == n {
        return Err(invalid_config("media data URL is missing a comma separator"));
    }
    let meta = vstd::slice::slice_subrange(v.as_slice(), 5, c);
    assert(meta@ =~= rest.take(c - 5));
    if !has_base64_part_exec(meta) {
        return Err(invalid_config("media data URL must be base64 encoded"));
    }
    let p = string_from_chars(v.as_slice(), c + 1, n);
    assert(p@ =~= rest.skip(c - 5 + 1));
    Ok(p)
}

/// What decoding a `data:` URL gives: its bytes, or the `InvalidConfig`
/// message that rejects it.
pub open spec fn data_url_bytes(url: Seq<char>) -> std::result::Result<Seq<u8>, Seq<char>> {
    match data_url_payload_spec(url) {
        Err(m) => Err(m),
        Ok(p) => decoded_or(base64_decoded(p), "media data URL payload is not base64: "@),
    }
}

/// The bytes of a base64 `data:` URL; remote URLs are not fetched.
pub fn decode_data_url(url: &str) -> (r: Result<Vec<u8>>)
    ensures
        r is Err ==> r->Err_0 is InvalidConfig,
        config_outcome(r) == data_url_bytes(url@),
{
    let payload = match data_url_payload(url) {
        Ok(p) => p,
        Err(e) => return Err(e),
    };
    let decoded = base64_decode(payload.as_str());
    decoded_or_config_error(decoded, "media data URL payload is not base64: ")
}

/// What a media input's bytes are: its inline base64 data, else its data
/// URL; one of the two must be given.
pub open spec fn media_bytes(data: Option<Seq<char>>, url: Option<Seq<char>>) -> std::result::Result<Seq<u8>, Seq<char>> {
    match data {
        Some(d) => decoded_or(base64_decoded(d), "media data is not base64: "@),
        None => match url {
            None => Err("media input must include a data URL or base64 data"@),
            Some(u) => data_url_bytes(u),
        },
    }
}

/// The bytes of a media input: its inline base64 `data` when present, else
/// its `data:` URL.
pub fn media_input_bytes(input: &MediaInput) -> (r: Result<Vec<u8>>)
    ensures
        r is Err ==> r->Err_0 is InvalidConfig,
        config_outcome(r) == media_bytes(
            match input.data {
                Some(d) => Some(d@),
                None => None,
            },
            match input.url {
                Some(u) => Some(u@),
                None => None,
            },
        ),
{
    match &input.data {
        Some(d) => {
            let decoded = base64_decode(d.as_str());
            decoded_or_config_error(decoded, "media data is not base64: ")
        },
        None => match &input.url {
            None => Err(invalid_config("media input must include a data URL or base64 data")),
            Some(u) => decode_data_url(u.as_str()),
        },
    }
}

/// The eight bytes every PNG file starts with.
pub open spec fn png_signature() -> Seq<u8> {
    seq![0x89u8, 0x50u8, 0x4eu8, 0x47u8, 0x0du8, 0x0au8, 0x1au8, 0x0au8]
}

/// What image `index` (counted from 0) of an sd-server response gives: the
/// PNG bytes its base64 text decodes to, or the message of the failure.
pub open spec fn sd_image(v: JsonValue, index: nat) -> std::result::Result<Seq<u8>, Seq<char>> {
    let number = decimal(index + 1);
    match v {
        JsonValue::String(s) => match base64_decoded(s@) {
            Err(e) => Err("decoding sd-server image "@ + number + " failed: "@ + e),
            Ok(b) => if b.len() >= 8 && b.take(8) == png_signature() {
                Ok(b)
            } else {
                Err("sd-server image "@ + number + " is not a PNG"@)
            },
        },
        _ => Err("sd-server image "@ + number + " is not base64 text"@),
    }
}

/// Message for an sd-server response without an `images` array.
pub open spec fn missing_images_message() -> Seq<char> {
    "sd-server response is missing the images array"@
}

/// Message for an sd-server response with the wrong number of images.
pub open spec fn image_count_message(found: nat, requested: nat) -> Seq<char> {
    "sd-server returned "@ + decimal(found) + " images for requested batch of "@ + decimal(requested)
}

fn png_prefix(b: &[u8]) -> (r: bool)
    ensures
        r == (b@.len() >= 8 && b@.take(8) == png_signature()),
{
    if b.len() < 8 {
        return false;
    }
    let r = b[0] == 0x89 && b[1] == 0x50 && b[2] == 0x4e && b[3] == 0x47 && b[4] == 0x0d && b[5]
        == 0x0a && b[6] == 0x1a && b[7] == 0x0a;
    proof {
        if r {
            assert(b@.take(8) =~= png_signature());
        } else if b@.take(8) == png_signature() {
            assert(b@.take(8)[0] == 0x89u8 && b@.take(8)[1] == 0x50u8 && b@.take(8)[2] == 0x4eu8);
            assert(b@.take(8)[3] == 0x47u8 && b@.take(8)[4] == 0x0du8 && b@.take(8)[5] == 0x0au8);
            assert(b@.take(8)[6] == 0x1au8 && b@.take(8)[7] == 0x0au8);
        }
    }
    r
}

fn image_label(prefix: &str, index: usize, suffix: &str) -> (r: String)
    requires
        index < usize::MAX,
    ensures
        r@ == prefix@ + decimal(index as nat + 1) + suffix@,
{
    let n = u64_to_decimal((index + 1) as u64);
    let head = concat_str(prefix, n.as_str());
    concat_str(head.as_str(), suffix)
}

/// Decodes image `index` of an sd-server response.
pub fn sd_image_bytes(v: &JsonValue, index: usize) -> (r: Result<Vec<u8>>)
    requires
        index < usize::MAX,
    ensures
        r is Err ==> r->Err_0 is StableDiffusionCpp,
        match r {
            Ok(b) => sd_image(*v, index as nat) == Ok::<Seq<u8>, Seq<char>>(b@),
            Err(EngineError::StableDiffusionCpp(m)) => sd_image(*v, index as nat) == Err::<Seq<u8>, Seq<char>>(m@),
            Err(_) => false,
        },
{
    let text = match v {
        JsonValue::String(s) => s,
        _ => return Err(EngineError::StableDiffusionCpp(image_label("sd-server image ", index, " is not base64 text"))),
    };
    match base64_decode(text.as_str()) {
        Err(e) => {
            let head = image_label("decoding sd-server image ", index, " failed: ");
            Err(EngineError::StableDiffusionCpp(concat_str(head.as_str(), e.as_str())))
        },
        Ok(b) => if png_prefix(b.as_slice()) {
            Ok(b)
        } else {
            Err(EngineError::StableDiffusionCpp(image_label("sd-server image ", index, " is not a PNG")))
        },
    }
}

/// The images array of an sd-server response, when it has one.
pub open spec fn response_images(response: JsonValue) -> Option<Seq<JsonValue>> {
    match json_get(response, "images"@) {
        Some(JsonValue::Array(items)) => Some(items@),
        _ => None,
    }
}

/// What decoding every image of `items` gives: all of them, in order, or
/// the failure of the first image that fails.
pub open spec fn images_outcome(items: Seq<JsonValue>, r: Result<Vec<Vec<u8>>>) -> bool {
    match r {
        Ok(images) => images@.len() == items.len() && forall|j: int|
            0 <= j < items.len() ==> sd_image(items[j], j as nat) == Ok::<Seq<u8>, Seq<char>>(
                (#[trigger] images@[j])@,
            ),
        Err(EngineError::StableDiffusionCpp(m)) => exists|j: int|
            0 <= j < items.len() && sd_image(items[j], j as nat) == Err::<Seq<u8>, Seq<char>>(m@)
                && forall|k: int| 0 <= k < j ==> (#[trigger] sd_image(items[k], k as nat)) is Ok,
        Err(_) => false,
    }
}

/// The PNG images of an sd-server txt2img response that was asked for
/// `image_count` images: the response must carry exactly that many, each
/// base64 text of a PNG file. The first failure is reported.
pub fn sd_response_images(response: &JsonValue, image_count: u32) -> (r: Result<Vec<Vec<u8>>>)
    ensures
        r is Err ==> r->Err_0 is StableDiffusionCpp,
        match response_images(*response) {
            None => r matches Err(EngineError::StableDiffusionCpp(m)) && m@ == missing_images_message(),
            Some(items) => if items.len() != image_count {
                r matches Err(EngineError::StableDiffusionCpp(m)) && m@ == image_count_message(
                    items.len(),
                    image_count as nat,
                )
            } else {
                images_outcome(items, r)
            },
        },
{
    proof {
        reveal_strlit("images");
    }
    let items = match response.get("images") {
        Some(JsonValue::Array(items)) => items,
        _ => {
            return Err(EngineError::StableDiffusionCpp(
                "sd-server response is missing the images array".to_string(),
            ));
        },
    };
    if items.len() as u64 != image_count as u64 {
        let found = u64_to_decimal(items.len() as u64);
        let requested = u64_to_decimal(image_count as u64);
        let head = concat_str("sd-server returned ", found.as_str());
        let mid = concat_str(head.as_str(), " images for requested batch of ");
        return Err(EngineError::StableDiffusionCpp(concat_str(mid.as_str(), requested.as_str())));
    }
    let mut images: Vec<Vec<u8>> = Vec::new();
    let mut i: usize = 0;
    while i < items.len()
        invariant
            i <= items@.len(),
            items@.len() == image_count,
            images@.len() == i,
            response_images(*response) == Some(items@),
            forall|j: int|
                0 <= j < i ==> sd_image(items@[j], j as nat) == Ok::<Seq<u8>, Seq<char>>(
                    (#[trigger] images@[j])@,
                ),
        decreases items@.len() - i,
    {
        match sd_image_bytes(&items[i], i) {
            Ok(b) => images.push(b),
            Err(e) => {
                proof {
                    assert forall|k: int| 0 <= k < i implies (#[trigger] sd_image(items@[k], k as nat)) is Ok by {
                        assert(sd_image(items@[k], k as nat) == Ok::<Seq<u8>, Seq<char>>(images@[k]@));
                    }
                }
                return Err(e);
            },
        }
        i = i + 1;
    }
    Ok(images)
}

} // verus!
