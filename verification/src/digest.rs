//! Content digests of artifacts: SHA-256 over streamed file contents, its
//! lowercase hex text, and the comparison against a pinned digest.
use vstd::prelude::*;

use sha2::Digest;

use crate::error::{EngineError, Result};
use crate::json::hex_digit;
use crate::artifact::ArtifactFormat;
use crate::config::concat_str;
use crate::text::{chars_of, eq_ignore_ascii_case, lower_seq, push_char, str_eq};

verus! {

/// A running SHA-256 computation of the `sha2` crate.
///
/// The hasher is held opaquely: `sha2::Sha256` is built from generic types
/// whose trait bounds cannot be declared to Verus, so what Verus knows of it
/// is the byte string fed to it so far (`hashed_input`).
#[verifier::external_body]
pub struct Sha256Hasher {
    inner: sha2::Sha256,
}

/// The bytes fed to a hasher so far, in order.
pub uninterp spec fn hashed_input(h: Sha256Hasher) -> Seq<u8>;

/// The SHA-256 digest of a byte string.
pub uninterp spec fn sha256_of(data: Seq<u8>) -> Seq<u8>;

/// `Sha256::new` of `sha2`: a hasher that has been fed nothing.
#[verifier::external_body]
fn sha256_new() -> (h: Sha256Hasher)
    ensures
        hashed_input(h) == Seq::<u8>::empty(),
{
    Sha256Hasher { inner: sha2::Sha256::new() }
}

/// `Digest::update` of `sha2`: appends `data` to what the hasher has been fed.
#[verifier::external_body]
fn sha256_update(h: &mut Sha256Hasher, data: &[u8])
    ensures
        hashed_input(*final(h)) == hashed_input(*old(h)) + data@,
{
    h.inner.update(data)
}

/// `Digest::finalize` of `sha2`: the digest of everything fed; SHA-256 digests
/// are 32 bytes long.
#[verifier::external_body]
fn sha256_finalize(h: Sha256Hasher) -> (d: Vec<u8>)
    ensures
        d@ == sha256_of(hashed_input(h)),
        d@.len() == 32,
{
    h.inner.finalize().to_vec()
}

/// Lowercase hexadecimal text of a byte string, two digits per byte.
pub open spec fn hex_lower(bytes: Seq<u8>) -> Seq<char>
    decreases bytes.len(),
{
    if bytes.len() == 0 {
        Seq::empty()
    } else {
        let b = bytes.last();
        hex_lower(bytes.drop_last()).push(hex_digit((b / 16) as nat)).push(hex_digit((b % 16) as nat))
    }
}

fn hex_digit_exec(d: u8) -> (c: char)
    requires
        d < 16,
    ensures
        c == hex_digit(d as nat),
{
    if d < 10 {
        ((48u8 + d) as char)
    } else {
        ((87u8 + d) as char)
    }
}

/// Lowercase hexadecimal text of `bytes`, two digits per byte.
pub fn hex_encode(bytes: &[u8]) -> (r: String)
    ensures
        r@ == hex_lower(bytes@),
{
    let mut r = String::new();
    let mut i: usize = 0;
    while i < bytes.len()
        invariant
            i <= bytes@.len(),
            r@ == hex_lower(bytes@.take(i as int)),
        decreases bytes@.len() - i,
    {
        let b = bytes[i];
        assert(bytes@.take(i as int + 1).drop_last() =~= bytes@.take(i as int));
        push_char(&mut r, hex_digit_exec(b / 16));
        push_char(&mut r, hex_digit_exec(b % 16));
        i = i + 1;
    }
    assert(bytes@.take(bytes@.len() as int) =~= bytes@);
    r
}

impl Sha256Hasher {
    /// A hasher that has been fed nothing.
    pub fn new() -> (h: Sha256Hasher)
        ensures
            hashed_input(h) == Seq::<u8>::empty(),
    {
        sha256_new()
    }

    /// One step of streaming a file into the hasher: `read` bytes were read
    /// into the front of `buffer`. A read of zero bytes is the end of the
    /// file; then nothing is fed and `false` (stop) is returned.
    pub fn absorb(&mut self, buffer: &[u8], read: usize) -> (more: bool)
        requires
            read <= buffer@.len(),
        ensures
            more == (read != 0),
            hashed_input(*final(self)) == hashed_input(*old(self)) + buffer@.take(read as int),
    {
        if read == 0 {
            assert(buffer@.take(0) =~= Seq::<u8>::empty());
            assert(hashed_input(*self) + Seq::<u8>::empty() =~= hashed_input(*self));
            return false;
        }
        let chunk = vstd::slice::slice_subrange(buffer, 0, read);
        assert(chunk@ =~= buffer@.take(read as int));
        sha256_update(self, chunk);
        true
    }

    /// The lowercase hex SHA-256 digest of everything fed.
    pub fn finish_hex(self) -> (r: String)
        ensures
            r@ == hex_lower(sha256_of(hashed_input(self))),
            r@.len() == 64,
    {
        let d = sha256_finalize(self);
        proof {
            lemma_hex_lower_len(d@);
        }
        hex_encode(d.as_slice())
    }
}

/// Hex text is twice as long as the bytes it encodes.
pub proof fn lemma_hex_lower_len(bytes: Seq<u8>)
    ensures
        hex_lower(bytes).len() == 2 * bytes.len(),
    decreases bytes.len(),
{
    if bytes.len() > 0 {
        lemma_hex_lower_len(bytes.drop_last());
    }
}

/// Outcome of comparing a computed digest with the pinned one: the pin
/// matches when the two texts are equal ignoring ASCII case.
pub open spec fn digest_check(path: Seq<char>, expected: Seq<char>, actual: Seq<char>) -> Option<(Seq<char>, Seq<char>, Seq<char>)> {
    if lower_seq(actual) == lower_seq(expected) {
        None
    } else {
        Some((path, expected, actual))
    }
}

/// Checks a computed hex digest of the file at `path` against the pinned
/// `expected` digest; a mismatch is an `ArtifactHashMismatch` naming both.
pub fn check_artifact_digest(path: &str, expected: &str, actual: &str) -> (r: Result<()>)
    ensures
        r is Ok <==> lower_seq(actual@) == lower_seq(expected@),
        r is Err ==> (r matches Err(EngineError::ArtifactHashMismatch { path: p, expected: e, actual: a })
            && p@ == path@ && e@ == expected@ && a@ == actual@),
{
    if eq_ignore_ascii_case(actual, expected) {
        Ok(())
    } else {
        Err(EngineError::ArtifactHashMismatch {
            path: path.to_string(),
            expected: expected.to_string(),
            actual: actual.to_string(),
        })
    }
}

/// Checks the digest pins of an artifact: a file to hash needs a digest to
/// compare with.
pub fn check_digest_pins(sha256: Option<&str>, sha256_path: Option<&str>) -> (r: Result<()>)
    ensures
        r is Ok <==> !(sha256_path is Some && sha256 is None),
        r is Err ==> (r matches Err(EngineError::InvalidConfig(m)) && m@
            == "artifact sha256_path requires an expected sha256"@),
{
    if sha256_path.is_some() && sha256.is_none() {
        return Err(crate::error::invalid_config("artifact sha256_path requires an expected sha256"));
    }
    Ok(())
}

/// `p` lies at or under `base`, component by component, for canonical
/// paths (absolute, without `.`, `..` or repeated or trailing separators,
/// but the root `/`).
pub open spec fn path_within(base: Seq<char>, p: Seq<char>) -> bool {
    ||| p == base
    ||| (base.len() > 0 && base.last() == '/' && p.len() > base.len() && p.take(base.len() as int) == base)
    ||| (p.len() > base.len() && p.take(base.len() as int) == base && p[base.len() as int] == '/')
}

/// Whether the canonical file to hash `hash_path` belongs to the canonical
/// artifact `artifact`: lies under it where the artifact is a directory,
/// is it otherwise.
pub fn hash_path_is_bound(artifact_is_dir: bool, artifact: &str, hash_path: &str) -> (r: bool)
    ensures
        r == if artifact_is_dir { path_within(artifact@, hash_path@) } else { hash_path@ == artifact@ },
{
    if str_eq(artifact, hash_path) {
        return true;
    }
    if !artifact_is_dir {
        return false;
    }
    let a = chars_of(artifact);
    let h = chars_of(hash_path);
    if h.len() <= a.len() {
        return false;
    }
    let mut i: usize = 0;
    while i < a.len()
        invariant
            a@ == artifact@,
            h@ == hash_path@,
            a@.len() < h@.len(),
            i <= a@.len(),
            forall|j: int| 0 <= j < i ==> a@[j] == h@[j],
        decreases a@.len() - i,
    {
        if a[i] != h[i] {
            proof {
                assert(h@.take(a@.len() as int)[i as int] != a@[i as int]);
            }
            return false;
        }
        i = i + 1;
    }
    assert(h@.take(a@.len() as int) =~= a@);
    (a.len() > 0 && a[a.len() - 1] == '/') || h[a.len()] == '/'
}

/// Refuses a file to hash that lies outside the artifact.
pub fn check_hash_path_bound(bound: bool, hash_path: &str, artifact_path: &str) -> (r: Result<()>)
    ensures
        r is Ok <==> bound,
        r is Err ==> (r matches Err(EngineError::InvalidConfig(m)) && m@ == "artifact sha256_path "@
            + hash_path@ + " is outside load artifact "@ + artifact_path@),
{
    if bound {
        return Ok(());
    }
    let a = concat_str("artifact sha256_path ", hash_path);
    let b = concat_str(a.as_str(), " is outside load artifact ");
    Err(EngineError::InvalidConfig(concat_str(b.as_str(), artifact_path)))
}

/// An MLX artifact hashed through another file than its weights gets that
/// file's safetensors header checked too.
pub fn hash_path_needs_header_check(format: ArtifactFormat, hash_path: &str, payload: &str) -> (r: bool)
    ensures
        r == (format == ArtifactFormat::MlxSafetensors && hash_path@ != payload@),
{
    format == ArtifactFormat::MlxSafetensors && !str_eq(hash_path, payload)
}

} // verus!
