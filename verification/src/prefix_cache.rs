//! The bookkeeping of llama.cpp's prompt-prefix cache: one bounded snapshot
//! of the sequence state after a prompt, and which part of the next prompt
//! it can stand in for. The snapshot itself (a private temporary file) and
//! the model context stay with the caller, who performs each step that a
//! method here decides.
use vstd::prelude::*;

use crate::error::{invalid_config, EngineError, Result};
use crate::text::{parse_u64, parse_u64_spec};

verus! {

/// Smallest snapshot budget with which prefix caching is on, in bytes.
pub const PREFIX_CACHE_MIN_BYTES: u64 = 67108864;

/// Snapshot budget when none is configured, in bytes.
pub const PREFIX_CACHE_DEFAULT_BYTES: u64 = 8589934592;

/// Bytes of one prompt token.
pub const TOKEN_BYTES: u64 = 4;

/// The cache: its budget, the tokens of the prompt whose snapshot is held
/// (empty when none is), whether a snapshot is held, and the prompt and
/// reused token counts of the last restore.
#[derive(Debug)]
pub struct PrefixCache {
    pub max_bytes: u64,
    pub tokens: Vec<i32>,
    pub has_snapshot: bool,
    pub last: (usize, usize),
}

/// The length of the longest common prefix of `a` and `b`.
pub open spec fn common_prefix_len(a: Seq<i32>, b: Seq<i32>) -> nat
    decreases a.len(),
{
    if a.len() == 0 || b.len() == 0 || a[0] != b[0] {
        0
    } else {
        1 + common_prefix_len(a.drop_first(), b.drop_first())
    }
}

proof fn lemma_common_prefix(a: Seq<i32>, b: Seq<i32>, k: int)
    requires
        0 <= k <= a.len(),
        k <= b.len(),
        forall|j: int| 0 <= j < k ==> a[j] == b[j],
        k == a.len() || k == b.len() || a[k] != b[k],
    ensures
        common_prefix_len(a, b) == k,
    decreases k,
{
    if k > 0 {
        lemma_common_prefix(a.drop_first(), b.drop_first(), k - 1);
    }
}

/// How many leading prompt tokens a held snapshot can stand in for: the
/// common prefix, keeping at least the last prompt token to be decoded.
pub open spec fn reusable_prefix(cached: Seq<i32>, prompt: Seq<i32>) -> nat {
    let c = common_prefix_len(cached, prompt);
    let cap: nat = if prompt.len() == 0 { 0 } else { (prompt.len() - 1) as nat };
    if c < cap {
        c
    } else {
        cap
    }
}

/// What `MAYHEM_LLM_PREFIX_CACHE_MAX_BYTES` configures: the budget, or the
/// message of the refusal. An unset variable means the default.
pub open spec fn configured_budget(value: Option<Seq<char>>) -> std::result::Result<u64, Seq<char>> {
    let parsed = match value {
        None => Some(PREFIX_CACHE_DEFAULT_BYTES),
        Some(v) => parse_u64_spec(v),
    };
    match parsed {
        None => Err("MAYHEM_LLM_PREFIX_CACHE_MAX_BYTES must be an unsigned byte count"@),
        Some(n) => if n < PREFIX_CACHE_MIN_BYTES {
            Err("prefix caching is required; MAYHEM_LLM_PREFIX_CACHE_MAX_BYTES must be at least 64 MiB"@)
        } else {
            Ok(n)
        },
    }
}

impl PrefixCache {
    /// An empty cache with a budget of `max_bytes`.
    pub fn new(max_bytes: u64) -> (r: PrefixCache)
        ensures
            r.max_bytes == max_bytes,
            r.tokens@.len() == 0,
            !r.has_snapshot,
            r.last == (0usize, 0usize),
    {
        PrefixCache { max_bytes, tokens: Vec::new(), has_snapshot: false, last: (0, 0) }
    }

    /// The cache that the value of `MAYHEM_LLM_PREFIX_CACHE_MAX_BYTES`
    /// configures (`None` where it is unset); a budget under 64 MiB is
    /// refused, since prefix caching is required.
    pub fn from_env_value(value: Option<&str>) -> (r: Result<PrefixCache>)
        ensures
            match configured_budget(crate::config::opt_str_view(value)) {
                Ok(n) => r matches Ok(c) && c.max_bytes == n && c.tokens@.len() == 0 && !c.has_snapshot
                    && c.last == (0usize, 0usize),
                Err(m) => r matches Err(EngineError::InvalidConfig(e)) && e@ == m,
            },
    {
        let max_bytes = match value {
            None => PREFIX_CACHE_DEFAULT_BYTES,
            Some(v) => match parse_u64(v) {
                Some(n) => n,
                None => {
                    return Err(invalid_config("MAYHEM_LLM_PREFIX_CACHE_MAX_BYTES must be an unsigned byte count"));
                },
            },
        };
        if max_bytes < PREFIX_CACHE_MIN_BYTES {
            return Err(invalid_config(
                "prefix caching is required; MAYHEM_LLM_PREFIX_CACHE_MAX_BYTES must be at least 64 MiB",
            ));
        }
        Ok(PrefixCache::new(max_bytes))
    }

    /// Whether prefix caching is on: the budget is at least 64 MiB.
    pub fn enabled(&self) -> (r: bool)
        ensures
            r == (self.max_bytes >= PREFIX_CACHE_MIN_BYTES),
    {
        self.max_bytes >= PREFIX_CACHE_MIN_BYTES
    }

    /// Drops the snapshot and forgets the last restore.
    pub fn clear(&mut self)
        ensures
            final(self).max_bytes == old(self).max_bytes,
            final(self).tokens@.len() == 0,
            !final(self).has_snapshot,
            final(self).last == (0usize, 0usize),
    {
        self.tokens = Vec::new();
        self.has_snapshot = false;
        self.last = (0, 0);
    }

    /// The prompt and reused token counts of the last restore.
    pub fn last_tokens(&self) -> (r: (usize, usize))
        ensures
            r == self.last,
    {
        self.last
    }

    /// Starts serving `prompt`: records its length, and gives how many of
    /// its leading tokens the held snapshot can stand in for, 0 where there
    /// is no snapshot. A positive answer means: load the snapshot, then
    /// report its tokens to `restore_loaded`.
    pub fn restore_begin(&mut self, prompt: &[i32]) -> (r: usize)
        ensures
            final(self).max_bytes == old(self).max_bytes,
            final(self).tokens@ == old(self).tokens@,
            final(self).has_snapshot == old(self).has_snapshot,
            final(self).last == (prompt@.len() as usize, 0usize),
            r == if old(self).has_snapshot { reusable_prefix(old(self).tokens@, prompt@) } else { 0 },
            r < prompt@.len() || r == 0,
    {
        let mut c: usize = 0;
        while c < self.tokens.len() && c < prompt.len() && self.tokens[c] == prompt[c]
            invariant
                c <= self.tokens@.len(),
                c <= prompt@.len(),
                forall|j: int| 0 <= j < c ==> self.tokens@[j] == prompt@[j],
            decreases prompt@.len() - c,
        {
            c = c + 1;
        }
        proof {
            lemma_common_prefix(self.tokens@, prompt@, c as int);
        }
        let cap: usize = if prompt.len() == 0 { 0 } else { prompt.len() - 1 };
        let common = if c < cap { c } else { cap };
        self.last = (prompt.len(), 0);
        if common == 0 || !self.has_snapshot {
            return 0;
        }
        common
    }

    /// Checks the tokens of a loaded snapshot against the ones it was saved
    /// for; a mismatch drops the snapshot and is refused.
    pub fn restore_loaded(&mut self, loaded: &[i32]) -> (r: Result<()>)
        ensures
            r is Ok <==> loaded@ == old(self).tokens@,
            r is Ok ==> *final(self) == *old(self),
            r is Err ==> (r matches Err(EngineError::InvalidConfig(m)) && m@
                == "llama.cpp prefix token identity changed"@) && final(self).tokens@.len() == 0
                && !final(self).has_snapshot && final(self).last == (0usize, 0usize)
                && final(self).max_bytes == old(self).max_bytes,
    {
        let mut same = loaded.len() == self.tokens.len();
        let mut i: usize = 0;
        while same && i < loaded.len()
            invariant
                same ==> loaded@.len() == self.tokens@.len(),
                i <= loaded@.len(),
                same <==> (loaded@.len() == self.tokens@.len() && forall|j: int|
                    0 <= j < i ==> loaded@[j] == self.tokens@[j]),
            decreases loaded@.len() - i,
        {
            if loaded[i] != self.tokens[i] {
                same = false;
            }
            i = i + 1;
        }
        if same {
            assert(loaded@ =~= self.tokens@);
            return Ok(());
        }
        self.clear();
        Err(invalid_config("llama.cpp prefix token identity changed"))
    }

    /// Whether reusing `common` tokens needs the restored sequence trimmed
    /// back to them (it does unless the whole snapshot is reused).
    pub fn needs_trim(&self, common: usize) -> (r: bool)
        ensures
            r == (common != self.tokens@.len()),
    {
        common != self.tokens.len()
    }

    /// Finishes a restore: where the trim was not needed or succeeded, the
    /// `common` tokens are reused; else the restore is a miss (the caller
    /// clears the context) and nothing is reused. `common` is the answer of
    /// `restore_begin` for the prompt being served, so it leaves at least
    /// the last prompt token to be decoded; the reused count keeps that.
    pub fn restore_finish(&mut self, common: usize, trimmed: bool) -> (r: usize)
        requires
            common == 0 || common < old(self).last.0,
        ensures
            r == 0 || r < final(self).last.0,
            final(self).last.1 == 0 || final(self).last.1 < final(self).last.0 || !trimmed,
            r == if trimmed { common } else { 0 },
            final(self).last == if trimmed { (old(self).last.0, common) } else { old(self).last },
            final(self).tokens@ == old(self).tokens@,
            final(self).has_snapshot == old(self).has_snapshot,
            final(self).max_bytes == old(self).max_bytes,
    {
        if !trimmed {
            return 0;
        }
        self.last = (self.last.0, common);
        common
    }

    /// Starts saving the state after a prompt of `prompt_tokens` tokens,
    /// whose snapshot takes `state_size` bytes. Without a budget nothing is
    /// done; else the held snapshot is dropped first, and the new one is
    /// taken only where it and its tokens fit the budget.
    pub fn save_begin(&mut self, state_size: u64, prompt_tokens: usize) -> (r: bool)
        ensures
            old(self).max_bytes == 0 ==> !r && *final(self) == *old(self),
            old(self).max_bytes != 0 ==> final(self).tokens@.len() == 0 && !final(self).has_snapshot
                && final(self).last == old(self).last && final(self).max_bytes == old(self).max_bytes
                && r == (state_size != 0 && state_size + prompt_tokens * TOKEN_BYTES <= old(self).max_bytes),
    {
        if self.max_bytes == 0 {
            return false;
        }
        self.has_snapshot = false;
        self.tokens = Vec::new();
        if state_size == 0 {
            return false;
        }
        if state_size > self.max_bytes {
            return false;
        }
        let room = self.max_bytes - state_size;
        let fits = (prompt_tokens as u64) <= room / TOKEN_BYTES;
        proof {
            let p = prompt_tokens as int;
            let q = room as int;
            assert((p <= q / 4) <==> (p * 4 <= q)) by (nonlinear_arith)
                requires
                    p >= 0,
                    q >= 0,
            ;
        }
        fits
    }

    /// Keeps a snapshot of `copied` bytes taken for `prompt`, unless it came
    /// out over the budget.
    pub fn save_commit(&mut self, prompt: &[i32], copied: u64) -> (r: bool)
        ensures
            r == (copied <= old(self).max_bytes),
            r ==> final(self).tokens@ == prompt@ && final(self).has_snapshot,
            !r ==> *final(self) == *old(self),
            final(self).last == old(self).last,
            final(self).max_bytes == old(self).max_bytes,
    {
        if copied > self.max_bytes {
            return false;
        }
        self.tokens = vstd::slice::slice_to_vec(prompt);
        self.has_snapshot = true;
        true
    }
}

/// A prompt shares all of itself with itself.
proof fn lemma_common_prefix_self(p: Seq<i32>)
    ensures
        common_prefix_len(p, p) == p.len(),
    decreases p.len(),
{
    if p.len() > 0 {
        lemma_common_prefix_self(p.drop_first());
    }
}

/// Serving again the prompt whose snapshot is held reuses all of it but
/// the last token, which is decoded afresh.
pub proof fn lemma_restore_after_save(prompt: Seq<i32>)
    requires
        prompt.len() > 0,
    ensures
        reusable_prefix(prompt, prompt) == prompt.len() - 1,
{
    lemma_common_prefix_self(prompt);
}

/// A restore never stands in for a whole prompt: at least its last token is
/// decoded.
pub proof fn lemma_restore_leaves_a_token(cached: Seq<i32>, prompt: Seq<i32>)
    ensures
        reusable_prefix(cached, prompt) < prompt.len() || prompt.len() == 0,
{
}

} // verus!
