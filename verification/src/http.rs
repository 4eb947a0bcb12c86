//! The HTTP/1.1 responses of the local sd-server: the status line, the
//! header block (bounded in size), and how the body is framed, including
//! chunked transfer encoding.
use vstd::prelude::*;

use crate::config::concat_str;
use crate::error::{EngineError, Result};
use crate::request::{utf8_byte_len, utf8_len};
use crate::text::{
    chars_of, debug_quote, debug_quoted, eq_ignore_ascii_case, is_unicode_whitespace,
    is_whitespace, lower_seq, parse_trimmed_u64, parse_u64_chars, parse_u64_spec, str_eq,
    string_from_chars, trim_seq, trimmed, u64_to_decimal, decimal, index_of_char,
    lemma_index_of_char,
};

verus! {

/// Position of the first non-whitespace character of `s` from `i` on.
pub open spec fn skip_ws(s: Seq<char>, i: nat) -> nat
    decreases s.len() - i,
{
    if i >= s.len() {
        s.len()
    } else if is_unicode_whitespace(s[i as int]) {
        skip_ws(s, i + 1)
    } else {
        i
    }
}

/// Position of the first whitespace character of `s` from `i` on.
pub open spec fn skip_word(s: Seq<char>, i: nat) -> nat
    decreases s.len() - i,
{
    if i >= s.len() {
        s.len()
    } else if !is_unicode_whitespace(s[i as int]) {
        skip_word(s, i + 1)
    } else {
        i
    }
}

/// The second whitespace-separated word of `s`, as
/// `s.split_whitespace().nth(1)` gives it.
pub open spec fn second_word(s: Seq<char>) -> Option<Seq<char>> {
    let a0 = skip_ws(s, 0);
    let e0 = skip_word(s, a0);
    let a1 = skip_ws(s, e0);
    let e1 = skip_word(s, a1);
    if a1 < s.len() {
        Some(s.subrange(a1 as int, e1 as int))
    } else {
        None
    }
}

proof fn lemma_skip_bounds(s: Seq<char>, i: nat)
    requires
        i <= s.len(),
    ensures
        i <= skip_ws(s, i) <= s.len(),
        i <= skip_word(s, i) <= s.len(),
    decreases s.len() - i,
{
    if i < s.len() {
        lemma_skip_bounds(s, i + 1);
    }
}

fn skip_ws_exec(v: &[char], i: usize) -> (r: usize)
    requires
        i <= v@.len(),
    ensures
        r == skip_ws(v@, i as nat),
{
    let mut j = i;
    while j < v.len() && is_whitespace(v[j])
        invariant
            i <= j <= v@.len(),
            skip_ws(v@, j as nat) == skip_ws(v@, i as nat),
        decreases v@.len() - j,
    {
        j = j + 1;
    }
    j
}

fn skip_word_exec(v: &[char], i: usize) -> (r: usize)
    requires
        i <= v@.len(),
    ensures
        r == skip_word(v@, i as nat),
{
    let mut j = i;
    while j < v.len() && !is_whitespace(v[j])
        invariant
            i <= j <= v@.len(),
            skip_word(v@, j as nat) == skip_word(v@, i as nat),
        decreases v@.len() - j,
    {
        j = j + 1;
    }
    j
}

/// The status code of a status line: its second word read as a `u16`.
pub open spec fn status_code(line: Seq<char>) -> Option<u16> {
    match second_word(line) {
        Some(w) => match parse_u64_spec(w) {
            Some(n) => if n <= 65535 {
                Some(n as u16)
            } else {
                None
            },
            None => None,
        },
        None => None,
    }
}

/// An sd-server error whose message reads `text`.
pub open spec fn is_sd_error<T>(r: Result<T>, text: Seq<char>) -> bool {
    r matches Err(EngineError::StableDiffusionCpp(m)) && m@ == text
}

/// Reads the status code of an HTTP status line such as `HTTP/1.1 200 OK`.
pub fn parse_status_line(line: &str) -> (r: Result<u16>)
    ensures
        match status_code(line@) {
            Some(c) => r == Ok::<u16, EngineError>(c),
            None => is_sd_error(
                r,
                "local sd-server returned an invalid status line: "@ + debug_quoted(trim_seq(line@)),
            ),
        },
{
    let v = chars_of(line);
    let ghost s = line@;
    proof {
        lemma_skip_bounds(s, 0);
    }
    let a0 = skip_ws_exec(v.as_slice(), 0);
    proof {
        lemma_skip_bounds(s, a0 as nat);
    }
    let e0 = skip_word_exec(v.as_slice(), a0);
    proof {
        lemma_skip_bounds(s, e0 as nat);
    }
    let a1 = skip_ws_exec(v.as_slice(), e0);
    proof {
        lemma_skip_bounds(s, a1 as nat);
    }
    let e1 = skip_word_exec(v.as_slice(), a1);
    if a1 < v.len() {
        if let Some(n) = parse_u64_chars(v.as_slice(), a1, e1) {
            if n <= 65535 {
                return Ok(n as u16);
            }
        }
    }
    let t = trimmed(line);
    let q = debug_quote(t.as_str());
    Err(EngineError::StableDiffusionCpp(concat_str("local sd-server returned an invalid status line: ", q.as_str())))
}

/// Most bytes the status line and headers of a response may take.
pub const HTTP_HEADER_LIMIT: usize = 65536;

/// The pieces of `s` between `sep` characters, as `str::split(sep)` yields
/// them.
pub open spec fn split_on(s: Seq<char>, sep: char) -> Seq<Seq<char>>
    decreases s.len(),
{
    if s.len() == 0 {
        seq![Seq::<char>::empty()]
    } else {
        let rest = split_on(s.drop_last(), sep);
        if s.last() == sep {
            rest.push(Seq::<char>::empty())
        } else {
            rest.update(rest.len() - 1, rest.last().push(s.last()))
        }
    }
}

proof fn lemma_split_on_nonempty(s: Seq<char>, sep: char)
    ensures
        split_on(s, sep).len() >= 1,
    decreases s.len(),
{
    if s.len() > 0 {
        lemma_split_on_nonempty(s.drop_last(), sep);
    }
}

/// A `Transfer-Encoding` value names `chunked`: one of its comma-separated
/// parts is `chunked`, ignoring surrounding whitespace and ASCII case.
pub open spec fn names_chunked(value: Seq<char>) -> bool {
    exists|k: int|
        0 <= k < split_on(value, ',').len() && lower_seq(trim_seq(#[trigger] split_on(value, ',')[k]))
            == "chunked"@
}

fn part_is_chunked(v: &[char], a: usize, b: usize) -> (r: bool)
    requires
        a <= b <= v@.len(),
    ensures
        r == (lower_seq(trim_seq(v@.subrange(a as int, b as int))) == "chunked"@),
{
    proof {
        reveal_strlit("chunked");
        assert(lower_seq("chunked"@) =~= "chunked"@);
    }
    let part = string_from_chars(v, a, b);
    let t = trimmed(part.as_str());
    eq_ignore_ascii_case(t.as_str(), "chunked")
}

/// Whether a `Transfer-Encoding` value names `chunked`.
pub fn value_names_chunked(value: &str) -> (r: bool)
    ensures
        r == names_chunked(value@),
{
    let v = chars_of(value);
    let ghost s = value@;
    let mut found = false;
    let mut start: usize = 0;
    let mut n: usize = 0;
    proof {
        assert(s.take(0) =~= Seq::<char>::empty());
    }
    while n < v.len()
        invariant
            v@ == s,
            start <= n <= s.len(),
            split_on(s.take(n as int), ',').len() >= 1,
            split_on(s.take(n as int), ',').last() == s.subrange(start as int, n as int),
            found == exists|k: int|
                0 <= k < split_on(s.take(n as int), ',').len() - 1 && lower_seq(
                    trim_seq(#[trigger] split_on(s.take(n as int), ',')[k]),
                ) == "chunked"@,
        decreases s.len() - n,
    {
        let ghost before = split_on(s.take(n as int), ',');
        proof {
            assert(s.take(n + 1).drop_last() =~= s.take(n as int));
            assert(s.take(n + 1).last() == v@[n as int]);
            lemma_split_on_nonempty(s.take(n + 1), ',');
        }
        let ghost after = split_on(s.take(n + 1), ',');
        if v[n] == ',' {
            let hit = part_is_chunked(v.as_slice(), start, n);
            proof {
                assert(after == before.push(Seq::<char>::empty()));
                assert(after[before.len() - 1] == before.last());
                if hit {
                    assert(lower_seq(trim_seq(after[before.len() - 1])) == "chunked"@);
                }
                if found {
                    let k = choose|k: int|
                        0 <= k < before.len() - 1 && lower_seq(trim_seq(#[trigger] before[k]))
                            == "chunked"@;
                    assert(after[k] == before[k]);
                }
                if found || hit {
                } else {
                    assert forall|k: int| 0 <= k < after.len() - 1 implies lower_seq(
                        trim_seq(#[trigger] after[k]),
                    ) != "chunked"@ by {
                        assert(after[k] == before[k]);
                    }
                }
                assert(s.subrange(n + 1, n + 1) =~= Seq::<char>::empty());
            }
            found = found || hit;
            start = n + 1;
        } else {
            proof {
                assert(after == before.update(before.len() - 1, before.last().push(v@[n as int])));
                assert(s.subrange(start as int, n + 1) =~= s.subrange(start as int, n as int).push(
                    v@[n as int],
                ));
                if found {
                    let k = choose|k: int|
                        0 <= k < before.len() - 1 && lower_seq(trim_seq(#[trigger] before[k]))
                            == "chunked"@;
                    assert(after[k] == before[k]);
                } else {
                    assert forall|k: int| 0 <= k < after.len() - 1 implies lower_seq(
                        trim_seq(#[trigger] after[k]),
                    ) != "chunked"@ by {
                        assert(after[k] == before[k]);
                    }
                }
            }
        }
        n = n + 1;
    }
    proof {
        assert(s.take(s.len() as int) =~= s);
    }
    let last = part_is_chunked(v.as_slice(), start, n);
    proof {
        let parts = split_on(s, ',');
        if last {
            assert(lower_seq(trim_seq(parts[parts.len() - 1])) == "chunked"@);
        }
        if !found && !last {
            assert forall|k: int| 0 <= k < parts.len() implies lower_seq(
                trim_seq(#[trigger] parts[k]),
            ) != "chunked"@ by {
                if k < parts.len() - 1 {
                } else {
                    assert(parts[k] == parts.last());
                }
            }
        }
    }
    found || last
}

/// What the headers read so far say: their size in bytes (status line
/// included, saturating), the last `Content-Length` and whether some
/// `Transfer-Encoding` names `chunked`.
#[derive(Clone, Copy, Debug, PartialEq, Eq)]
pub struct HttpHeaderScan {
    pub header_bytes: usize,
    pub content_length: Option<usize>,
    pub chunked: bool,
}

/// `a + b`, saturating at `usize::MAX`.
pub open spec fn sat_add(a: int, b: int) -> int {
    if a + b > usize::MAX {
        usize::MAX as int
    } else {
        a + b
    }
}

/// `str::parse::<usize>` on `s`.
pub open spec fn parse_usize_spec(s: Seq<char>) -> Option<usize> {
    match parse_u64_spec(s) {
        Some(n) => if n <= usize::MAX {
            Some(n as usize)
        } else {
            None
        },
        None => None,
    }
}

/// The line that ends a header block.
pub open spec fn is_blank_line(line: Seq<char>) -> bool {
    line == "\r\n"@ || line == "\n"@
}

/// One header line read: the scan after it and whether it ended the
/// headers, or the message of the error it is.
pub open spec fn header_step(st: HttpHeaderScan, line: Seq<char>) -> std::result::Result<
    (HttpHeaderScan, bool),
    Seq<char>,
> {
    let bytes = sat_add(st.header_bytes as int, utf8_len(line) as int);
    let grown = HttpHeaderScan { header_bytes: bytes as usize, ..st };
    if bytes > HTTP_HEADER_LIMIT {
        Err("local sd-server HTTP headers exceed 64 KiB"@)
    } else if is_blank_line(line) {
        Ok((grown, true))
    } else {
        let colon = index_of_char(line, ':');
        if colon == line.len() {
            Ok((grown, false))
        } else {
            let name = lower_seq(line.take(colon as int));
            let value = line.skip(colon as int + 1);
            if name == "content-length"@ {
                match parse_usize_spec(trim_seq(value)) {
                    Some(n) => Ok((HttpHeaderScan { content_length: Some(n), ..grown }, false)),
                    None => Err("local sd-server returned an invalid Content-Length"@),
                }
            } else if name == "transfer-encoding"@ && names_chunked(value) {
                Ok((HttpHeaderScan { chunked: true, ..grown }, false))
            } else {
                Ok((grown, false))
            }
        }
    }
}

impl HttpHeaderScan {
    /// The scan after the status line `status_line`, before any header.
    pub fn new(status_line: &str) -> (r: HttpHeaderScan)
        ensures
            r.header_bytes == sat_add(0, utf8_len(status_line@) as int),
            r.content_length is None,
            !r.chunked,
    {
        HttpHeaderScan { header_bytes: utf8_byte_len(status_line), content_length: None, chunked: false }
    }

    /// Takes in one header line, line break included. Returns whether it
    /// ended the headers.
    pub fn feed(&mut self, line: &str) -> (r: Result<bool>)
        ensures
            match header_step(*old(self), line@) {
                Ok((next, end)) => r == Ok::<bool, EngineError>(end) && *final(self) == next,
                Err(m) => is_sd_error(r, m),
            },
    {
        proof {
            reveal_strlit("\r\n");
            reveal_strlit("\n");
            reveal_strlit("content-length");
            reveal_strlit("transfer-encoding");
        }
        let len = utf8_byte_len(line);
        let bytes: usize = if len > usize::MAX - self.header_bytes {
            usize::MAX
        } else {
            self.header_bytes + len
        };
        if bytes > HTTP_HEADER_LIMIT {
            return Err(EngineError::StableDiffusionCpp("local sd-server HTTP headers exceed 64 KiB".to_string()));
        }
        self.header_bytes = bytes;
        if str_eq(line, "\r\n") || str_eq(line, "\n") {
            return Ok(true);
        }
        let v = chars_of(line);
        let ghost s = line@;
        let mut c: usize = 0;
        while c < v.len() && v[c] != ':'
            invariant
                v@ == s,
                c <= s.len(),
                forall|j: int| 0 <= j < c ==> s[j] != ':',
            decreases s.len() - c,
        {
            c = c + 1;
        }
        proof {
            lemma_index_of_char(s, ':', c as int);
        }
        if c == v.len() {
            return Ok(false);
        }
        let name = string_from_chars(v.as_slice(), 0, c);
        let value = string_from_chars(v.as_slice(), c + 1, v.len());
        proof {
            assert(name@ =~= s.take(c as int));
            assert(value@ =~= s.skip(c as int + 1));
            assert(lower_seq("content-length"@) =~= "content-length"@);
            assert(lower_seq("transfer-encoding"@) =~= "transfer-encoding"@);
        }
        if eq_ignore_ascii_case(name.as_str(), "content-length") {
            match parse_trimmed_u64(value.as_str()) {
                Some(n) => {
                    if n <= usize::MAX as u64 {
                        self.content_length = Some(n as usize);
                        return Ok(false);
                    }
                },
                None => {},
            }
            return Err(EngineError::StableDiffusionCpp(
                "local sd-server returned an invalid Content-Length".to_string(),
            ));
        }
        if eq_ignore_ascii_case(name.as_str(), "transfer-encoding") && value_names_chunked(value.as_str()) {
            self.chunked = true;
        }
        Ok(false)
    }
}

/// How the body of a response is delimited.
#[derive(Clone, Copy, Debug, PartialEq, Eq, Structural)]
pub enum BodyFraming {
    /// Chunked transfer encoding.
    Chunked,
    /// Exactly this many bytes.
    Length(usize),
    /// Everything until the server closes the connection.
    UntilClose,
}

/// Message for a body over the bound.
pub open spec fn body_over_limit_message(limit: nat) -> Seq<char> {
    "local sd-server response exceeds the "@ + decimal(limit) + "-byte bound"@
}

fn over_limit_message(limit: usize) -> (r: String)
    ensures
        r@ == body_over_limit_message(limit as nat),
{
    let n = u64_to_decimal(limit as u64);
    let head = concat_str("local sd-server response exceeds the ", n.as_str());
    concat_str(head.as_str(), "-byte bound")
}

/// Decides how to read the body once the headers are in: chunked encoding
/// wins over a length; a length over `body_limit` is refused.
pub fn body_framing(scan: &HttpHeaderScan, body_limit: usize) -> (r: Result<BodyFraming>)
    ensures
        scan.chunked ==> r == Ok::<BodyFraming, EngineError>(BodyFraming::Chunked),
        !scan.chunked ==> match scan.content_length {
            None => r == Ok::<BodyFraming, EngineError>(BodyFraming::UntilClose),
            Some(n) => if n <= body_limit {
                r == Ok::<BodyFraming, EngineError>(BodyFraming::Length(n))
            } else {
                is_sd_error(
                    r,
                    "local sd-server response is "@ + decimal(n as nat) + " bytes, above the "@
                        + decimal(body_limit as nat) + "-byte bound"@,
                )
            },
        },
{
    if scan.chunked {
        return Ok(BodyFraming::Chunked);
    }
    match scan.content_length {
        None => Ok(BodyFraming::UntilClose),
        Some(n) => if n <= body_limit {
            Ok(BodyFraming::Length(n))
        } else {
            let a = u64_to_decimal(n as u64);
            let b = u64_to_decimal(body_limit as u64);
            let m1 = concat_str("local sd-server response is ", a.as_str());
            let m2 = concat_str(m1.as_str(), " bytes, above the ");
            let m3 = concat_str(m2.as_str(), b.as_str());
            Err(EngineError::StableDiffusionCpp(concat_str(m3.as_str(), "-byte bound")))
        },
    }
}

/// Checks a body read until the connection closed: the reader stops one
/// byte past the bound, so a longer body is refused.
pub fn check_body_len(len: usize, body_limit: usize) -> (r: Result<()>)
    ensures
        r is Ok <==> len <= body_limit,
        r is Err ==> is_sd_error(r, body_over_limit_message(body_limit as nat)),
{
    if len > body_limit {
        return Err(EngineError::StableDiffusionCpp(over_limit_message(body_limit)));
    }
    Ok(())
}

/// A hexadecimal digit, in either case.
pub open spec fn is_hex_digit(c: char) -> bool {
    ('0' <= c && c <= '9') || ('a' <= c && c <= 'f') || ('A' <= c && c <= 'F')
}

pub open spec fn hex_digit_value(c: char) -> nat {
    if '0' <= c && c <= '9' {
        ((c as u32) - ('0' as u32)) as nat
    } else if 'a' <= c && c <= 'f' {
        ((c as u32) - ('a' as u32) + 10) as nat
    } else {
        ((c as u32) - ('A' as u32) + 10) as nat
    }
}

/// Value of a string of hexadecimal digits.
pub open spec fn hex_value(s: Seq<char>) -> nat
    decreases s.len(),
{
    if s.len() == 0 {
        0
    } else {
        hex_value(s.drop_last()) * 16 + hex_digit_value(s.last())
    }
}

/// Every character of `d` is a hexadecimal digit.
pub open spec fn all_hex_digits(d: Seq<char>) -> bool {
    forall|i: int| 0 <= i < d.len() ==> is_hex_digit(#[trigger] d[i])
}

/// `s` without one leading `+`.
pub open spec fn unsigned_digits(s: Seq<char>) -> Seq<char> {
    if s.len() > 0 && s[0] == '+' {
        s.drop_first()
    } else {
        s
    }
}

/// `usize::from_str_radix(s, 16)`: an optional `+` and one or more
/// hexadecimal digits whose value fits `usize`.
pub open spec fn parse_hex_usize(s: Seq<char>) -> Option<usize> {
    let d = unsigned_digits(s);
    if d.len() > 0 && all_hex_digits(d) && hex_value(d) <= usize::MAX {
        Some(hex_value(d) as usize)
    } else {
        None
    }
}

/// The size a chunk-size line announces: the line trimmed, up to its first
/// `;` (chunk extensions are ignored), read as hexadecimal.
pub open spec fn chunk_size_of(line: Seq<char>) -> Option<usize> {
    let t = trim_seq(line);
    parse_hex_usize(t.take(index_of_char(t, ';') as int))
}

proof fn lemma_hex_value_push(s: Seq<char>, c: char)
    ensures
        hex_value(s.push(c)) == hex_value(s) * 16 + hex_digit_value(c),
{
    assert(s.push(c).drop_last() =~= s);
}

fn parse_hex_chars(v: &[char], a: usize, b: usize) -> (r: Option<usize>)
    requires
        a <= b <= v@.len(),
    ensures
        r == parse_hex_usize(v@.subrange(a as int, b as int)),
{
    let ghost s = v@.subrange(a as int, b as int);
    let mut start = a;
    if start < b && v[start] == '+' {
        start = start + 1;
    }
    let ghost d = v@.subrange(start as int, b as int);
    proof {
        if s.len() > 0 && s[0] == '+' {
            assert(s.drop_first() =~= d);
        } else {
            assert(s =~= d);
        }
    }
    if start == b {
        return None;
    }
    let mut value: usize = 0;
    let mut overflow = false;
    let mut i = start;
    while i < b
        invariant
            start <= i <= b <= v@.len(),
            d == v@.subrange(start as int, b as int),
            s == v@.subrange(a as int, b as int),
            unsigned_digits(s) == d,
            d.len() > 0,
            forall|k: int| 0 <= k < i - start ==> is_hex_digit(#[trigger] d[k]),
            overflow ==> hex_value(v@.subrange(start as int, i as int)) > usize::MAX,
            !overflow ==> value == hex_value(v@.subrange(start as int, i as int)),
        decreases b - i,
    {
        let c = v[i];
        let digit: usize = if '0' <= c && c <= '9' {
            ((c as u32) - 48) as usize
        } else if 'a' <= c && c <= 'f' {
            ((c as u32) - 87) as usize
        } else if 'A' <= c && c <= 'F' {
            ((c as u32) - 55) as usize
        } else {
            proof {
                assert(d[i - start] == c);
                assert(!is_hex_digit(d[i - start]));
                assert(!all_hex_digits(d));
            }
            return None;
        };
        proof {
            assert(d[i - start] == c);
            assert(v@.subrange(start as int, i + 1) =~= v@.subrange(start as int, i as int).push(c));
            lemma_hex_value_push(v@.subrange(start as int, i as int), c);
        }
        if !overflow {
            match value.checked_mul(16) {
                Some(m) => match m.checked_add(digit) {
                    Some(n) => {
                        value = n;
                    },
                    None => {
                        overflow = true;
                    },
                },
                None => {
                    overflow = true;
                },
            }
        }
        i = i + 1;
    }
    proof {
        assert(v@.subrange(start as int, b as int) =~= d);
    }
    if overflow {
        None
    } else {
        Some(value)
    }
}

/// Reads the size of the next chunk from its chunk-size line.
pub fn chunk_size(line: &str) -> (r: Result<usize>)
    ensures
        match chunk_size_of(line@) {
            Some(n) => r == Ok::<usize, EngineError>(n),
            None => is_sd_error(r, "local sd-server returned an invalid chunk size"@),
        },
{
    let t = trimmed(line);
    let v = chars_of(t.as_str());
    let ghost s = t@;
    let mut c: usize = 0;
    while c < v.len() && v[c] != ';'
        invariant
            v@ == s,
            c <= s.len(),
            forall|j: int| 0 <= j < c ==> s[j] != ';',
        decreases s.len() - c,
    {
        c = c + 1;
    }
    proof {
        lemma_index_of_char(s, ';', c as int);
        assert(v@.subrange(0, c as int) =~= s.take(c as int));
    }
    match parse_hex_chars(v.as_slice(), 0, c) {
        Some(n) => Ok(n),
        None => Err(EngineError::StableDiffusionCpp("local sd-server returned an invalid chunk size".to_string())),
    }
}

/// Checks that a chunk of `size` bytes after `body_len` bytes of body stays
/// within `body_limit`.
pub fn check_chunk_fits(body_len: usize, size: usize, body_limit: usize) -> (r: Result<()>)
    ensures
        r is Ok <==> sat_add(body_len as int, size as int) <= body_limit,
        r is Err ==> is_sd_error(r, body_over_limit_message(body_limit as nat)),
{
    let total: usize = if size > usize::MAX - body_len {
        usize::MAX
    } else {
        body_len + size
    };
    if total > body_limit {
        return Err(EngineError::StableDiffusionCpp(over_limit_message(body_limit)));
    }
    Ok(())
}

/// Checks the two bytes after a chunk's data: they must be `\r\n`.
pub fn check_chunk_terminator(terminator: &[u8]) -> (r: Result<()>)
    ensures
        r is Ok <==> terminator@ == seq![13u8, 10u8],
        r is Err ==> is_sd_error(r, "local sd-server returned an invalid chunk terminator"@),
{
    if terminator.len() == 2 && terminator[0] == 13 && terminator[1] == 10 {
        assert(terminator@ =~= seq![13u8, 10u8]);
        Ok(())
    } else {
        Err(EngineError::StableDiffusionCpp("local sd-server returned an invalid chunk terminator".to_string()))
    }
}

/// Whether a line ends a header or trailer block.
pub fn is_end_of_block(line: &str) -> (r: bool)
    ensures
        r == is_blank_line(line@),
{
    str_eq(line, "\r\n") || str_eq(line, "\n")
}

/// Where in a response the server closed the connection early.
#[derive(Clone, Copy, Debug, PartialEq, Eq, Structural)]
pub enum ResponsePart {
    StatusLine,
    Headers,
    ChunkedBody,
}

/// The error for a connection closed inside `part` of a response.
pub fn closed_inside(part: ResponsePart) -> (e: EngineError)
    ensures
        is_sd_error(
            Err::<(), EngineError>(e),
            match part {
                ResponsePart::StatusLine => "local sd-server closed without an HTTP response"@,
                ResponsePart::Headers => "local sd-server closed inside HTTP headers"@,
                ResponsePart::ChunkedBody => "local sd-server closed inside a chunked response"@,
            },
        ),
{
    match part {
        ResponsePart::StatusLine => EngineError::StableDiffusionCpp(
            "local sd-server closed without an HTTP response".to_string(),
        ),
        ResponsePart::Headers => EngineError::StableDiffusionCpp("local sd-server closed inside HTTP headers".to_string()),
        ResponsePart::ChunkedBody => EngineError::StableDiffusionCpp(
            "local sd-server closed inside a chunked response".to_string(),
        ),
    }
}

/// Reading a header line never shrinks the counted header size, and once a
/// `Transfer-Encoding` has named `chunked` the response stays chunked.
pub proof fn lemma_header_scan_grows(st: HttpHeaderScan, line: Seq<char>)
    ensures
        header_step(st, line) matches Ok((next, _)) ==> next.header_bytes >= st.header_bytes && (st.chunked
            ==> next.chunked),
{
}

} // verus!

verus! {

/// An sd-server answer other than 2xx fails with its status and the start
/// of its body.
pub fn check_sd_status(status: u16, body: &[u8]) -> (r: Result<()>)
    ensures
        200 <= status < 300 ==> r is Ok,
        !(200 <= status < 300) ==> is_sd_error(
            r,
            "sd-server returned HTTP "@ + decimal(status as nat) + ": "@ + crate::media::sanitized(
                crate::needle::utf8_lossy_text(
                    body@.take(if body@.len() < 4096 { body@.len() as int } else { 4096 }),
                ),
            ),
        ),
{
    if 200 <= status && status < 300 {
        return Ok(());
    }
    let a = concat_str("sd-server returned HTTP ", u64_to_decimal(status as u64).as_str());
    let b = concat_str(a.as_str(), ": ");
    let snippet = crate::media::response_snippet(body);
    Err(EngineError::StableDiffusionCpp(concat_str(b.as_str(), snippet.as_str())))
}

} // verus!
