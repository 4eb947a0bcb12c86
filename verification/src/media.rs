//! Bounded parsers for media bytes: WAV headers and decoded video frames.
use vstd::prelude::*;

use crate::error::{invalid_config, EngineError};
use crate::request::MediaInput;

verus! {

/// Little-endian 16-bit value at `i`.
pub open spec fn le16(b: Seq<u8>, i: int) -> int {
    b[i] as int + 256 * (b[i + 1] as int)
}

/// Little-endian 32-bit value at `i`.
pub open spec fn le32(b: Seq<u8>, i: int) -> int {
    b[i] as int + 256 * (b[i + 1] as int) + 65536 * (b[i + 2] as int) + 16777216 * (
    b[i + 3] as int)
}

/// The four bytes at `i` spell `tag`.
pub open spec fn tag_at(b: Seq<u8>, i: int, tag: Seq<u8>) -> bool {
    0 <= i && i + 4 <= b.len() && b.subrange(i, i + 4) == tag
}

pub open spec fn riff_tag() -> Seq<u8> {
    seq![82u8, 73u8, 70u8, 70u8]
}

pub open spec fn wave_tag() -> Seq<u8> {
    seq![87u8, 65u8, 86u8, 69u8]
}

pub open spec fn fmt_tag() -> Seq<u8> {
    seq![102u8, 109u8, 116u8, 32u8]
}

pub open spec fn data_tag() -> Seq<u8> {
    seq![100u8, 97u8, 116u8, 97u8]
}

/// What a WAV scan has learned: channels, sample rate, bits per sample, data length.
pub struct WavFacts {
    pub channels: Option<u16>,
    pub sample_rate: Option<u32>,
    pub bits_per_sample: Option<u16>,
    pub data_len: Option<u32>,
}

/// A `fmt ` chunk of at least 16 bytes starts at `offset`.
pub open spec fn is_fmt_chunk(b: Seq<u8>, offset: int) -> bool {
    tag_at(b, offset, fmt_tag()) && le32(b, offset + 4) >= 16
}

/// Walks the RIFF chunks from `offset`; later `fmt ` and `data` chunks
/// override earlier ones. Each chunk's length is padded to an even count.
pub open spec fn wav_scan(b: Seq<u8>, offset: int, facts: WavFacts) -> WavFacts
    decreases b.len() - offset,
{
    if offset < 0 || offset + 8 > b.len() {
        facts
    } else {
        let len = le32(b, offset + 4);
        let start = offset + 8;
        let next_facts = if is_fmt_chunk(b, offset) {
            WavFacts {
                channels: Some(le16(b, start + 2) as u16),
                sample_rate: Some(le32(b, start + 4) as u32),
                bits_per_sample: Some(le16(b, start + 14) as u16),
                data_len: facts.data_len,
            }
        } else if tag_at(b, offset, data_tag()) {
            WavFacts { data_len: Some(len as u32), ..facts }
        } else {
            facts
        };
        let next = start + len + len % 2;
        if next + 8 > b.len() {
            next_facts
        } else {
            wav_scan(b, next, next_facts)
        }
    }
}

/// The walk from `offset` reads a `fmt ` chunk that runs past the end.
pub open spec fn wav_scan_overruns(b: Seq<u8>, offset: int) -> bool
    decreases b.len() - offset,
{
    if offset < 0 || offset + 8 > b.len() {
        false
    } else {
        let len = le32(b, offset + 4);
        let next = offset + 8 + len + len % 2;
        (is_fmt_chunk(b, offset) && offset + 8 + 16 > b.len()) || (next + 8 <= b.len()
            && wav_scan_overruns(b, next))
    }
}

/// `x` clamped to the range of `u64`.
pub open spec fn sat_u64(x: int) -> int {
    if x > u64::MAX { u64::MAX as int } else { x }
}

/// The header is a RIFF/WAVE file of at least 44 bytes.
pub open spec fn is_wav_header(b: Seq<u8>) -> bool {
    b.len() >= 44 && tag_at(b, 0, riff_tag()) && tag_at(b, 8, wave_tag())
}

/// Whole seconds of audio, rounded up and at least one, that a WAV file holds.
pub open spec fn wav_duration(b: Seq<u8>) -> Option<u64> {
    if !is_wav_header(b) {
        None
    } else {
        let f = wav_scan(b, 12, WavFacts {
            channels: None, sample_rate: None, bits_per_sample: None, data_len: None,
        });
        match (f.sample_rate, f.channels, f.bits_per_sample, f.data_len) {
            (Some(sr), Some(ch), Some(bits), Some(dl)) => {
                let bps = sat_u64(sat_u64(sr * ch) * bits) / 8;
                if bps == 0 {
                    None
                } else {
                    let secs = (dl + bps - 1) / bps;
                    Some(if secs < 1 { 1u64 } else { secs as u64 })
                }
            },
            _ => None,
        }
    }
}

fn read_le16(b: &[u8], i: usize) -> (v: u16)
    requires
        i + 2 <= b@.len(),
    ensures
        v == le16(b@, i as int),
{
    (b[i] as u16) + 256 * (b[i + 1] as u16)
}

fn read_le32(b: &[u8], i: usize) -> (v: u32)
    requires
        i + 4 <= b@.len(),
    ensures
        v == le32(b@, i as int),
{
    let v: u64 = (b[i] as u64) + 256 * (b[i + 1] as u64) + 65536 * (b[i + 2] as u64) + 16777216 * (
    b[i + 3] as u64);
    v as u32
}

fn tag_matches(b: &[u8], i: usize, t0: u8, t1: u8, t2: u8, t3: u8) -> (r: bool)
    requires
        i + 4 <= b@.len(),
    ensures
        r == tag_at(b@, i as int, seq![t0, t1, t2, t3]),
{
    let r = b[i] == t0 && b[i + 1] == t1 && b[i + 2] == t2 && b[i + 3] == t3;
    proof {
        if r {
            assert(b@.subrange(i as int, i + 4) =~= seq![t0, t1, t2, t3]);
        } else {
            if b@.subrange(i as int, i + 4) == seq![t0, t1, t2, t3] {
                assert(b@.subrange(i as int, i + 4)[0] == t0);
                assert(b@.subrange(i as int, i + 4)[1] == t1);
                assert(b@.subrange(i as int, i + 4)[2] == t2);
                assert(b@.subrange(i as int, i + 4)[3] == t3);
            }
        }
    }
    r
}

fn saturating_mul_u64(x: u64, y: u64) -> (r: u64)
    ensures
        r == sat_u64(x * y),
{
    match x.checked_mul(y) {
        Some(v) => v,
        None => u64::MAX,
    }
}

/// Whether reading the length of `bytes` as a WAV file would run into a
/// `fmt ` chunk cut short by the end of the input: the inputs on which
/// `wav_duration_seconds_ceil` cannot be called.
pub fn wav_format_chunk_overruns(bytes: &[u8]) -> (r: bool)
    ensures
        r == (is_wav_header(bytes@) && wav_scan_overruns(bytes@, 12)),
{
    let n = bytes.len();
    if n < 44 || !tag_matches(bytes, 0, 82, 73, 70, 70) || !tag_matches(bytes, 8, 87, 65, 86, 69) {
        return false;
    }
    let ghost b = bytes@;
    let mut offset: usize = 12;
    while offset <= n && n - offset >= 8
        invariant
            n == b.len(),
            b == bytes@,
            is_wav_header(b),
            wav_scan_overruns(b, 12) == wav_scan_overruns(b, offset as int),
        decreases n - offset,
    {
        let chunk_len = read_le32(bytes, offset + 4);
        let start = offset + 8;
        let is_fmt = tag_matches(bytes, offset, 102, 109, 116, 32);
        if is_fmt && chunk_len >= 16 && n - offset < 24 {
            return true;
        }
        let padded: u64 = (chunk_len as u64) + (chunk_len as u64) % 2;
        if padded > (n - start) as u64 {
            offset = n;
        } else {
            offset = start + padded as usize;
        }
    }
    false
}

/// Length of the audio a WAV file holds, in whole seconds rounded up (at
/// least one). `None` when the header is not RIFF/WAVE, a `fmt ` or `data`
/// chunk is missing, or the format describes zero bytes per second.
pub fn wav_duration_seconds_ceil(bytes: &[u8]) -> (r: Option<u64>)
    requires
        is_wav_header(bytes@) ==> !wav_scan_overruns(bytes@, 12),
    ensures
        r == wav_duration(bytes@),
{
    let n = bytes.len();
    if n < 44 || !tag_matches(bytes, 0, 82, 73, 70, 70) || !tag_matches(bytes, 8, 87, 65, 86, 69) {
        return None;
    }
    let ghost b = bytes@;
    let ghost init = WavFacts {
        channels: None, sample_rate: None, bits_per_sample: None, data_len: None,
    };
    let mut offset: usize = 12;
    let mut facts = WavFacts {
        channels: None, sample_rate: None, bits_per_sample: None, data_len: None,
    };
    while offset <= n && n - offset >= 8
        invariant
            n == b.len(),
            b == bytes@,
            wav_scan(b, 12, init) == wav_scan(b, offset as int, facts),
            !wav_scan_overruns(b, offset as int),
        decreases n - offset,
    {
        let chunk_len = read_le32(bytes, offset + 4);
        let start = offset + 8;
        let is_fmt = tag_matches(bytes, offset, 102, 109, 116, 32);
        let is_data = tag_matches(bytes, offset, 100, 97, 116, 97);
        if is_fmt && chunk_len >= 16 {
            let channels = read_le16(bytes, start + 2);
            let sample_rate = read_le32(bytes, start + 4);
            let bits = read_le16(bytes, start + 14);
            facts = WavFacts {
                channels: Some(channels),
                sample_rate: Some(sample_rate),
                bits_per_sample: Some(bits),
                data_len: facts.data_len,
            };
        } else if is_data {
            facts = WavFacts { data_len: Some(chunk_len), ..facts };
        }
        let padded: u64 = (chunk_len as u64) + (chunk_len as u64) % 2;
        if padded > (n - start) as u64 {
            offset = n;
        } else {
            offset = start + padded as usize;
        }
    }
    let sample_rate = match facts.sample_rate {
        Some(v) => v,
        None => return None,
    };
    let channels = match facts.channels {
        Some(v) => v,
        None => return None,
    };
    let bits = match facts.bits_per_sample {
        Some(v) => v,
        None => return None,
    };
    let data_len = match facts.data_len {
        Some(v) => v,
        None => return None,
    };
    let bytes_per_second = saturating_mul_u64(
        saturating_mul_u64(sample_rate as u64, channels as u64),
        bits as u64,
    ) / 8;
    if bytes_per_second == 0 {
        return None;
    }
    let secs = ((data_len as u64) + bytes_per_second - 1) / bytes_per_second;
    Some(if secs < 1 { 1 } else { secs })
}


/// `b` begins with the usual 44-byte header of a PCM WAV file: RIFF/WAVE,
/// a 16-byte `fmt ` chunk at offset 12 and a `data` chunk at offset 36, and
/// no further chunk header follows the data.
pub open spec fn canonical_wav(b: Seq<u8>) -> bool {
    &&& b.len() >= 44
    &&& tag_at(b, 0, riff_tag())
    &&& tag_at(b, 8, wave_tag())
    &&& tag_at(b, 12, fmt_tag())
    &&& le32(b, 16) == 16
    &&& tag_at(b, 36, data_tag())
    &&& b.len() < 52 + le32(b, 40) + le32(b, 40) % 2
}

/// Law: for a WAV file with the usual header, whose format gives `ch`
/// channels (offset 22), a sample rate of `sr` (offset 24) and `bits` bits
/// per sample (offset 34), and whose data chunk holds `dl` bytes (offset
/// 40), the byte rate is `bps = sr * ch * bits / 8`. The length is reported
/// exactly when `bps` is positive, and it is then the whole seconds that
/// `dl` bytes take at that rate, rounded up and at least one: the least
/// `x >= 1` with `x * bps >= dl`.
pub proof fn lemma_wav_duration_is_data_over_byte_rate(b: Seq<u8>)
    requires
        canonical_wav(b),
    ensures
        ({
            let bps = le32(b, 24) * le16(b, 22) * le16(b, 34) / 8;
            let dl = le32(b, 40);
            &&& bps == 0 ==> wav_duration(b) is None
            &&& bps > 0 ==> (wav_duration(b) matches Some(x) && x >= 1 && x * bps >= dl && (x == 1
                || (x - 1) * bps < dl))
        }),
{
    let init = WavFacts { channels: None, sample_rate: None, bits_per_sample: None, data_len: None };
    let ch = le16(b, 22);
    let sr = le32(b, 24);
    let bits = le16(b, 34);
    let dl = le32(b, 40);
    assert(0 <= ch < 65536);
    assert(0 <= bits < 65536);
    assert(0 <= sr < 0x1_0000_0000);
    assert(0 <= dl < 0x1_0000_0000);
    let f1 = WavFacts {
        channels: Some(ch as u16),
        sample_rate: Some(sr as u32),
        bits_per_sample: Some(bits as u16),
        data_len: None,
    };
    assert(is_fmt_chunk(b, 12));
    assert(wav_scan(b, 12, init) == wav_scan(b, 36, f1));
    assert(!tag_at(b, 36, fmt_tag())) by {
        assert(b.subrange(36, 40)[0] == data_tag()[0]);
    }
    let f2 = WavFacts { data_len: Some(dl as u32), ..f1 };
    assert(wav_scan(b, 36, f1) == f2);
    assert(is_wav_header(b));
    assert(sr * ch * bits < 0x1_0000_0000_0000_0000 && sr * ch < 0x1_0000_0000_0000_0000)
        by (nonlinear_arith)
        requires
            0 <= ch < 65536,
            0 <= bits < 65536,
            0 <= sr < 0x1_0000_0000,
    ;
    assert(sat_u64(sat_u64(sr * ch) * bits) == sr * ch * bits);
    let bps = sr * ch * bits / 8;
    if bps > 0 {
        let secs = (dl + bps - 1) / bps;
        assert(secs * bps <= dl + bps - 1 && dl + bps - 1 < (secs + 1) * bps && 0 <= secs) by (nonlinear_arith)
            requires
                bps > 0,
                dl >= 0,
                secs == (dl + bps - 1) / bps,
        ;
        assert(secs >= 1 ==> secs * bps >= dl && (secs == 1 || (secs - 1) * bps < dl))
            by (nonlinear_arith)
            requires
                secs * bps <= dl + bps - 1,
                dl + bps - 1 < (secs + 1) * bps,
                bps > 0,
        ;
        assert(secs < 1 ==> dl == 0) by (nonlinear_arith)
            requires
                dl + bps - 1 < (secs + 1) * bps,
                bps > 0,
                dl >= 0,
                secs >= 0,
        ;
        assert(secs < 0x1_0000_0000_0000_0000) by (nonlinear_arith)
            requires
                secs * bps <= dl + bps - 1,
                bps > 0,
                dl < 0x1_0000_0000,
                secs >= 0,
        ;
    }
}

} // verus!

verus! {

/// Most frames a decoded video may hold.
pub const VIDEO_MAX_FRAMES: usize = 64;

/// Largest frame width or height.
pub const VIDEO_MAX_DIMENSION: u32 = 4096;

/// Most decoded RGB bytes, per frame and in total.
pub const VIDEO_MAX_DECODED_BYTES: usize = 67108864;

/// Big-endian 32-bit value at `i`.
pub open spec fn be32(b: Seq<u8>, i: int) -> int {
    16777216 * (b[i] as int) + 65536 * (b[i + 1] as int) + 256 * (b[i + 2] as int) + (
    b[i + 3] as int)
}

pub open spec fn malformed_frames_message() -> Seq<char> {
    "llama.cpp video decoder returned a malformed frame stream"@
}

pub open spec fn invalid_dimensions_message() -> Seq<char> {
    "llama.cpp video decoder returned invalid frame dimensions"@
}

pub open spec fn invalid_rgb_message() -> Seq<char> {
    "llama.cpp video decoder returned an invalid RGB frame"@
}

pub open spec fn oversized_frames_message() -> Seq<char> {
    "llama.cpp video decoder exceeded the bounded decoded size"@
}

pub open spec fn frame_count_message(found: nat, expected: nat) -> Seq<char> {
    "llama.cpp video decoder returned "@ + crate::text::decimal(found) + " frames, expected "@
        + crate::text::decimal(expected)
}

/// Frames decoded from `b` from `cursor` on, `count` frames having been read
/// before: each is a 12-byte big-endian header (width, height, length) and
/// `length == width * height * 3` RGB bytes; or the message of the first
/// violation.
pub open spec fn frames_from(b: Seq<u8>, cursor: int, count: nat) -> Result<
    Seq<(u32, u32, Seq<u8>)>,
    Seq<char>,
>
    decreases b.len() - cursor,
{
    if cursor < 0 || cursor >= b.len() {
        Ok(Seq::empty())
    } else if count >= VIDEO_MAX_FRAMES || b.len() - cursor < 12 {
        Err(malformed_frames_message())
    } else {
        let w = be32(b, cursor);
        let h = be32(b, cursor + 4);
        let len = be32(b, cursor + 8);
        if w == 0 || h == 0 || w > VIDEO_MAX_DIMENSION || h > VIDEO_MAX_DIMENSION {
            Err(invalid_dimensions_message())
        } else if len != w * h * 3 || len > VIDEO_MAX_DECODED_BYTES || cursor + 12 + len
            > b.len() {
            Err(invalid_rgb_message())
        } else {
            let frame = (w as u32, h as u32, b.subrange(cursor + 12, cursor + 12 + len));
            match frames_from(b, cursor + 12 + len, count + 1) {
                Ok(rest) => Ok(seq![frame] + rest),
                Err(e) => Err(e),
            }
        }
    }
}

/// Total RGB bytes of a frame list.
pub open spec fn frames_bytes(f: Seq<(u32, u32, Seq<u8>)>) -> nat
    decreases f.len(),
{
    if f.len() == 0 {
        0
    } else {
        f[0].2.len() + frames_bytes(f.drop_first())
    }
}

/// The frames a decoder stream holds, checked against the count requested.
pub open spec fn video_frames(b: Seq<u8>, expected: u32) -> Result<
    Seq<(u32, u32, Seq<u8>)>,
    Seq<char>,
> {
    match frames_from(b, 0, 0) {
        Err(e) => Err(e),
        Ok(f) => if f.len() != expected {
            Err(frame_count_message(f.len(), expected as nat))
        } else if frames_bytes(f) > VIDEO_MAX_DECODED_BYTES {
            Err(oversized_frames_message())
        } else {
            Ok(f)
        },
    }
}

/// Views of decoded frames.
pub open spec fn frames_view(v: Seq<(u32, u32, Vec<u8>)>) -> Seq<(u32, u32, Seq<u8>)> {
    v.map_values(|f: (u32, u32, Vec<u8>)| (f.0, f.1, f.2@))
}

fn read_be32(b: &[u8], i: usize) -> (v: u32)
    requires
        i + 4 <= b@.len(),
    ensures
        v == be32(b@, i as int),
{
    let v: u64 = 16777216 * (b[i] as u64) + 65536 * (b[i + 1] as u64) + 256 * (b[i + 2] as u64)
        + (b[i + 3] as u64);
    v as u32
}

/// The bytes of `b` in `start..end`.
pub fn copy_range(b: &[u8], start: usize, end: usize) -> (v: Vec<u8>)
    requires
        start <= end <= b@.len(),
    ensures
        v@ == b@.subrange(start as int, end as int),
{
    let mut v: Vec<u8> = Vec::new();
    let mut i = start;
    while i < end
        invariant
            start <= i <= end <= b@.len(),
            v@ == b@.subrange(start as int, i as int),
        decreases end - i,
    {
        v.push(b[i]);
        assert(b@.subrange(start as int, i + 1) =~= b@.subrange(start as int, i as int).push(
            b@[i as int],
        ));
        i = i + 1;
    }
    v
}

proof fn lemma_frames_bytes_push(f: Seq<(u32, u32, Seq<u8>)>, x: (u32, u32, Seq<u8>))
    ensures
        frames_bytes(f.push(x)) == frames_bytes(f) + x.2.len(),
    decreases f.len(),
{
    if f.len() == 0 {
        assert(f.push(x).drop_first() =~= Seq::<(u32, u32, Seq<u8>)>::empty());
        assert(frames_bytes(Seq::<(u32, u32, Seq<u8>)>::empty()) == 0);
        assert(f.push(x)[0] == x);
    } else {
        assert(f.push(x).drop_first() =~= f.drop_first().push(x));
        assert(f.push(x)[0] == f[0]);
        lemma_frames_bytes_push(f.drop_first(), x);
    }
}

/// Splits the RGB frames that the video decoder writes: a sequence of
/// big-endian (width, height, length) headers each followed by `length`
/// bytes. Rejects malformed streams, dimensions outside 1..=4096, lengths
/// other than `width * height * 3`, more than 64 frames, a frame count other
/// than `expected`, and more than 64 MiB in all.
pub fn parse_llama_video_frames(bytes: &[u8], expected: u32) -> (r: Result<
    Vec<(u32, u32, Vec<u8>)>,
    crate::error::EngineError,
>)
    ensures
        match video_frames(bytes@, expected) {
            Ok(f) => r matches Ok(v) && frames_view(v@) == f,
            Err(text) => crate::error::is_invalid_config(r, text),
        },
{
    let ghost b = bytes@;
    let n = bytes.len();
    let mut cursor: usize = 0;
    let mut frames: Vec<(u32, u32, Vec<u8>)> = Vec::new();
    while cursor < n
        invariant
            n == b.len(),
            b == bytes@,
            cursor <= n,
            frames@.len() <= VIDEO_MAX_FRAMES,
            frames_from(b, 0, 0) == match frames_from(b, cursor as int, frames@.len()) {
                Ok(rest) => Ok(frames_view(frames@) + rest),
                Err(e) => Err::<Seq<(u32, u32, Seq<u8>)>, Seq<char>>(e),
            },
        decreases n - cursor,
    {
        if frames.len() >= VIDEO_MAX_FRAMES || n - cursor < 12 {
            return Err(
                crate::error::invalid_config(
                    "llama.cpp video decoder returned a malformed frame stream",
                ),
            );
        }
        let width = read_be32(bytes, cursor);
        let height = read_be32(bytes, cursor + 4);
        let length = read_be32(bytes, cursor + 8);
        if width == 0 || height == 0 || width > VIDEO_MAX_DIMENSION || height
            > VIDEO_MAX_DIMENSION {
            return Err(
                crate::error::invalid_config(
                    "llama.cpp video decoder returned invalid frame dimensions",
                ),
            );
        }
        let body = cursor + 12;
        assert((width as int) * (height as int) <= 4096 * 4096) by (nonlinear_arith)
            requires
                width <= 4096,
                height <= 4096,
        ;
        let expected_length: u64 = (width as u64) * (height as u64) * 3;
        if length as u64 != expected_length || length as u64 > VIDEO_MAX_DECODED_BYTES as u64
            || length as usize > n - body {
            return Err(
                crate::error::invalid_config(
                    "llama.cpp video decoder returned an invalid RGB frame",
                ),
            );
        }
        let end = body + length as usize;
        let pixels = copy_range(bytes, body, end);
        let ghost old_frames = frames@;
        frames.push((width, height, pixels));
        proof {
            assert(frames_view(frames@) =~= frames_view(old_frames).push(
                (width, height, b.subrange(body as int, end as int)),
            ));
            let frame = (width, height, b.subrange(body as int, end as int));
            match frames_from(b, end as int, frames@.len()) {
                Ok(rest) => {
                    assert(frames_view(old_frames) + (seq![frame] + rest) =~= frames_view(frames@)
                        + rest);
                },
                Err(_) => {},
            }
        }
        cursor = end;
    }
    proof {
        assert(frames_view(frames@) + Seq::<(u32, u32, Seq<u8>)>::empty() =~= frames_view(frames@));
    }
    if frames.len() != expected as usize {
        let mut msg = crate::config::concat_str(
            "llama.cpp video decoder returned ",
            crate::text::u64_to_decimal(frames.len() as u64).as_str(),
        );
        msg.append(" frames, expected ");
        msg.append(crate::text::u64_to_decimal(expected as u64).as_str());
        return Err(crate::error::EngineError::InvalidConfig(msg));
    }
    let mut total: usize = 0;
    let mut i: usize = 0;
    while i < frames.len()
        invariant
            i <= frames@.len(),
            frames@.len() == expected,
            frames_from(bytes@, 0, 0) == Ok::<Seq<(u32, u32, Seq<u8>)>, Seq<char>>(
                frames_view(frames@),
            ),
            total == frames_bytes(frames_view(frames@).take(i as int)),
            total <= VIDEO_MAX_DECODED_BYTES,
        decreases frames@.len() - i,
    {
        proof {
            assert(frames_view(frames@).take(i + 1) =~= frames_view(frames@).take(i as int).push(
                frames_view(frames@)[i as int],
            ));
            lemma_frames_bytes_push(frames_view(frames@).take(i as int), frames_view(frames@)[i as int]);
        }
        let len = frames[i].2.len();
        assert(len == frames_view(frames@)[i as int].2.len());
        if len > VIDEO_MAX_DECODED_BYTES - total {
            proof {
                lemma_frames_bytes_prefix_le(frames_view(frames@), i + 1);
            }
            return Err(
                crate::error::invalid_config(
                    "llama.cpp video decoder exceeded the bounded decoded size",
                ),
            );
        }
        total = total + len;
        i = i + 1;
    }
    assert(frames_view(frames@).take(frames@.len() as int) =~= frames_view(frames@));
    Ok(frames)
}

proof fn lemma_frames_bytes_prefix_le(f: Seq<(u32, u32, Seq<u8>)>, k: int)
    requires
        0 <= k <= f.len(),
    ensures
        frames_bytes(f.take(k)) <= frames_bytes(f),
    decreases f.len() - k,
{
    if k < f.len() {
        assert(f.take(k + 1) =~= f.take(k).push(f[k]));
        lemma_frames_bytes_push(f.take(k), f[k]);
        lemma_frames_bytes_prefix_le(f, k + 1);
    } else {
        assert(f.take(k) =~= f);
    }
}

} // verus!

verus! {

/// `char::is_control`: the characters of general category Cc.
pub open spec fn is_control(c: char) -> bool {
    (c as u32) < 0x20 || (0x7f <= (c as u32) && (c as u32) < 0xa0)
}

/// A control character other than newline, carriage return and tab becomes
/// U+FFFD; everything else is kept.
pub open spec fn sanitized_char(c: char) -> char {
    if is_control(c) && c != '\n' && c != '\r' && c != '\t' {
        '\u{fffd}'
    } else {
        c
    }
}

pub open spec fn sanitized(s: Seq<char>) -> Seq<char> {
    s.map_values(|c: char| sanitized_char(c))
}

/// `s` with control characters other than `\n`, `\r` and `\t` replaced by
/// U+FFFD.
pub fn sanitize_text(s: &str) -> (r: String)
    ensures
        r@ == sanitized(s@),
{
    let mut r = String::new();
    for c in it: s.chars()
        invariant
            it.seq() == s@,
            r@ == sanitized(s@.take(it.index() as int)),
    {
        let u = c as u32;
        let control = u < 0x20 || (0x7f <= u && u < 0xa0);
        let d = if control && c != '\n' && c != '\r' && c != '\t' {
            '\u{fffd}'
        } else {
            c
        };
        crate::text::push_char(&mut r, d);
        proof {
            assert(sanitized(s@.take(it.index() as int + 1)) =~= sanitized(
                s@.take(it.index() as int),
            ).push(d));
        }
    }
    assert(s@.take(s@.len() as int) =~= s@);
    r
}

/// The diagnostic a helper process left on stderr: decoded lossily,
/// sanitized and trimmed, or a fixed note when nothing is left.
pub open spec fn diagnostic_text(bytes: Seq<u8>) -> Seq<char> {
    let t = crate::text::trim_seq(sanitized(crate::needle::utf8_lossy_text(bytes)));
    if t.len() == 0 {
        "decoder exited without diagnostics"@
    } else {
        t
    }
}

/// The stderr of a helper process as a one-piece diagnostic.
pub fn bounded_diagnostic(bytes: &[u8]) -> (r: String)
    ensures
        r@ == diagnostic_text(bytes@),
{
    let text = crate::needle::decode_utf8_lossy(bytes);
    let clean = sanitize_text(text.as_str());
    let t = crate::text::trimmed(clean.as_str());
    if t.as_str().unicode_len() == 0 {
        "decoder exited without diagnostics".to_owned()
    } else {
        t
    }
}

/// Largest encoded video container accepted, in bytes.
pub const VIDEO_MAX_INPUT_BYTES: usize = 67108864;

/// Largest base64 text or data URL accepted for a video container: enough
/// for the largest container plus slack for the URL's metadata.
pub const VIDEO_MAX_ENCODED_BYTES: usize = 89479509;

/// Most bytes the video decoder may write: the decoded frames and their
/// 12-byte headers.
pub const VIDEO_MAX_DECODER_OUTPUT: usize = 67109632;

/// Most bytes of diagnostics the video decoder may write.
pub const VIDEO_STDERR_LIMIT: usize = 16384;

/// Seconds the video decoder may run.
pub const VIDEO_DECODE_TIMEOUT_SECONDS: u64 = 30;

/// `bits` encodes a positive finite `f32`.
pub open spec fn f32_positive_finite(bits: u32) -> bool {
    0 < bits < 0x7f80_0000
}

pub open spec fn opt_utf8_len_over(s: Option<String>, limit: int) -> bool {
    match s {
        Some(v) => crate::request::utf8_len(v@) > limit,
        None => false,
    }
}

/// Why a request for a video container's frames is refused before decoding,
/// if it is.
pub open spec fn video_request_error(input: MediaInput) -> Option<Seq<char>> {
    match input.num_frames {
        None => Some("llama.cpp video container requires an explicit num_frames bound"@),
        Some(n) => if !(1 <= n <= 64) {
            Some("llama.cpp video num_frames must be between 1 and 64"@)
        } else if input.fps matches Some(b) && !f32_positive_finite(b) {
            Some("llama.cpp video fps must be a positive finite number"@)
        } else if opt_utf8_len_over(input.data, VIDEO_MAX_ENCODED_BYTES as int) || opt_utf8_len_over(
            input.url,
            VIDEO_MAX_ENCODED_BYTES as int,
        ) {
            Some("llama.cpp video container exceeds the bounded input size"@)
        } else {
            None
        },
    }
}

fn opt_text_over(s: &Option<String>, limit: usize) -> (r: bool)
    requires
        limit < usize::MAX,
    ensures
        r == opt_utf8_len_over(*s, limit as int),
{
    match s {
        Some(v) => crate::request::utf8_byte_len(v.as_str()) > limit,
        None => false,
    }
}

/// Checks a request for the frames of a video container and gives the
/// number of frames asked for. The frame rate defaults to 1.
pub fn llama_video_frame_request(input: &MediaInput) -> (r: crate::error::Result<u32>)
    ensures
        match video_request_error(*input) {
            Some(m) => r matches Err(EngineError::InvalidConfig(e)) && e@ == m,
            None => r == Ok::<u32, EngineError>(input.num_frames->0),
        },
{
    let requested = match input.num_frames {
        None => {
            return Err(invalid_config("llama.cpp video container requires an explicit num_frames bound"));
        },
        Some(n) => n,
    };
    if !(1 <= requested && requested <= 64) {
        return Err(invalid_config("llama.cpp video num_frames must be between 1 and 64"));
    }
    if let Some(b) = input.fps {
        if !(0 < b && b < 0x7f80_0000) {
            return Err(invalid_config("llama.cpp video fps must be a positive finite number"));
        }
    }
    if opt_text_over(&input.data, VIDEO_MAX_ENCODED_BYTES) || opt_text_over(&input.url, VIDEO_MAX_ENCODED_BYTES) {
        return Err(invalid_config("llama.cpp video container exceeds the bounded input size"));
    }
    Ok(requested)
}

/// Checks the size of a decoded video container: it must be non-empty and
/// within the input bound.
pub fn check_video_payload_len(len: usize) -> (r: crate::error::Result<()>)
    ensures
        r is Ok <==> 0 < len <= VIDEO_MAX_INPUT_BYTES,
        r is Err ==> (r matches Err(EngineError::InvalidConfig(m))
            && m@ == "llama.cpp video container exceeds the bounded input size"@),
{
    if len == 0 || len > VIDEO_MAX_INPUT_BYTES {
        return Err(invalid_config("llama.cpp video container exceeds the bounded input size"));
    }
    Ok(())
}

/// How a run of the video decoder ended.
#[derive(Clone, Copy, Debug, PartialEq, Eq, Structural)]
pub enum VideoDecodeOutcome {
    /// The decoder exited, successfully or not.
    Completed { success: bool },
    /// The request was cancelled while the decoder ran.
    Cancelled,
    /// The decoder ran past its time limit.
    TimedOut,
}

/// What a decoder run decides before its output is parsed: `Ok` where the
/// output is to be parsed, `Err(None)` for a cancelled request, and
/// `Err(Some(m))` for a configuration error with message `m`.
pub open spec fn video_decode_result(
    outcome: VideoDecodeOutcome,
    output_len: nat,
    stderr: Seq<u8>,
    input_error: Option<Seq<char>>,
) -> std::result::Result<(), Option<Seq<char>>> {
    match outcome {
        VideoDecodeOutcome::Cancelled => Err(None),
        VideoDecodeOutcome::TimedOut => Err(Some("llama.cpp video decode exceeded 30 seconds"@)),
        VideoDecodeOutcome::Completed { success } => if output_len > VIDEO_MAX_DECODER_OUTPUT {
            Err(Some("llama.cpp video decoder exceeded the bounded output size"@))
        } else if stderr.len() > VIDEO_STDERR_LIMIT {
            Err(Some("llama.cpp video decoder exceeded the bounded diagnostic size"@))
        } else if !success {
            Err(Some("llama.cpp video container decode failed: "@ + diagnostic_text(stderr)))
        } else {
            match input_error {
                Some(e) => Err(Some("writing the llama.cpp video container to the decoder failed: "@ + e)),
                None => Ok(()),
            }
        },
    }
}

/// Decides on a finished run of the video decoder: `output_len` bytes came
/// out on stdout, `stderr` on stderr, and writing the container to the
/// decoder failed with `input_error` where it did.
pub fn video_decode_verdict(
    outcome: VideoDecodeOutcome,
    output_len: usize,
    stderr: &[u8],
    input_error: Option<&str>,
) -> (r: crate::error::Result<()>)
    ensures
        match video_decode_result(outcome, output_len as nat, stderr@, crate::config::opt_str_view(input_error)) {
            Ok(()) => r is Ok,
            Err(None) => r == Err::<(), EngineError>(EngineError::Cancelled),
            Err(Some(m)) => r matches Err(EngineError::InvalidConfig(e)) && e@ == m,
        },
{
    match outcome {
        VideoDecodeOutcome::Cancelled => Err(EngineError::Cancelled),
        VideoDecodeOutcome::TimedOut => Err(invalid_config("llama.cpp video decode exceeded 30 seconds")),
        VideoDecodeOutcome::Completed { success } => {
            if output_len > VIDEO_MAX_DECODER_OUTPUT {
                return Err(invalid_config("llama.cpp video decoder exceeded the bounded output size"));
            }
            if stderr.len() > VIDEO_STDERR_LIMIT {
                return Err(invalid_config("llama.cpp video decoder exceeded the bounded diagnostic size"));
            }
            if !success {
                let d = bounded_diagnostic(stderr);
                return Err(EngineError::InvalidConfig(
                    crate::config::concat_str("llama.cpp video container decode failed: ", d.as_str()),
                ));
            }
            match input_error {
                Some(e) => Err(EngineError::InvalidConfig(crate::config::concat_str(
                    "writing the llama.cpp video container to the decoder failed: ",
                    e,
                ))),
                None => Ok(()),
            }
        },
    }
}

/// The first 4096 bytes of a response body as text: decoded lossily, with
/// control characters other than `\n`, `\r` and `\t` replaced.
pub fn response_snippet(body: &[u8]) -> (r: String)
    ensures
        r@ == sanitized(crate::needle::utf8_lossy_text(
            body@.take(if body@.len() < 4096 { body@.len() as int } else { 4096 }),
        )),
{
    let end: usize = if body.len() < 4096 { body.len() } else { 4096 };
    let head = vstd::slice::slice_subrange(body, 0, end);
    assert(head@ =~= body@.take(end as int));
    let text = crate::needle::decode_utf8_lossy(head);
    sanitize_text(text.as_str())
}

/// The file extension whisper.cpp is handed audio under, by content type:
/// MP3, FLAC and Ogg by name, WAV otherwise (and when none is given).
pub open spec fn whisper_extension_for(content_type: Option<Seq<char>>) -> Seq<char> {
    let t = match content_type {
        Some(c) => c,
        None => "audio/wav"@,
    };
    if t == "audio/mpeg"@ || t == "audio/mp3"@ {
        "mp3"@
    } else if t == "audio/flac"@ {
        "flac"@
    } else if t == "audio/ogg"@ {
        "ogg"@
    } else {
        "wav"@
    }
}

/// The extension of the temporary audio file handed to whisper.cpp.
pub fn whisper_input_extension(content_type: Option<&str>) -> (r: &'static str)
    ensures
        r@ == whisper_extension_for(crate::config::opt_str_view(content_type)),
{
    proof {
        reveal_strlit("audio/wav");
        reveal_strlit("audio/mpeg");
        reveal_strlit("audio/mp3");
        reveal_strlit("audio/flac");
        reveal_strlit("audio/ogg");
    }
    match content_type {
        None => {
            proof {
                assert("audio/wav"@[6] != "audio/mp3"@[6]);
                assert("audio/wav"@.len() != "audio/mpeg"@.len());
                assert("audio/wav"@.len() != "audio/flac"@.len());
                assert("audio/wav"@[6] != "audio/ogg"@[6]);
            }
            "wav"
        },
        Some(t) => if crate::text::str_eq(t, "audio/mpeg") || crate::text::str_eq(t, "audio/mp3") {
            "mp3"
        } else if crate::text::str_eq(t, "audio/flac") {
            "flac"
        } else if crate::text::str_eq(t, "audio/ogg") {
            "ogg"
        } else {
            "wav"
        },
    }
}

/// Sanitizing text twice changes nothing more: U+FFFD is not a control
/// character.
pub proof fn lemma_sanitize_idempotent(s: Seq<char>)
    ensures
        sanitized(sanitized(s)) == sanitized(s),
{
    assert(sanitized(sanitized(s)) =~= sanitized(s));
}

} // verus!
