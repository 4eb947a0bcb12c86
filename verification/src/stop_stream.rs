//! Stop sequences over a token stream: generated text is passed on as soon
//! as no stop sequence can begin in it, and nothing from the first stop
//! sequence on is ever passed on.
use vstd::prelude::*;

use crate::text::{chars_of, occurs_at, occurs_at_exec, find_chars};
use crate::types::TokenChunk;
use std::collections::VecDeque;

verus! {

/// The texts of the chunks, one after another.
pub open spec fn texts(cs: Seq<TokenChunk>) -> Seq<char>
    decreases cs.len(),
{
    if cs.len() == 0 {
        Seq::empty()
    } else {
        texts(cs.drop_last()) + cs.last().text@
    }
}

pub proof fn lemma_texts_append(a: Seq<TokenChunk>, b: Seq<TokenChunk>)
    ensures
        texts(a + b) == texts(a) + texts(b),
    decreases b.len(),
{
    if b.len() == 0 {
        assert(a + b =~= a);
        assert(texts(b) =~= Seq::<char>::empty());
        assert(texts(a) + texts(b) =~= texts(a));
    } else {
        lemma_texts_append(a, b.drop_last());
        assert((a + b).drop_last() =~= a + b.drop_last());
        assert((a + b).last() == b.last());
        assert(texts(a) + texts(b.drop_last()) + b.last().text@ =~= texts(a) + (texts(
            b.drop_last(),
        ) + b.last().text@));
    }
}

pub proof fn lemma_texts_split(cs: Seq<TokenChunk>, i: int)
    requires
        0 <= i <= cs.len(),
    ensures
        texts(cs) == texts(cs.take(i)) + texts(cs.skip(i)),
        texts(cs.take(i)).len() <= texts(cs).len(),
{
    lemma_texts_append(cs.take(i), cs.skip(i));
    assert(cs.take(i) + cs.skip(i) =~= cs);
}

pub proof fn lemma_texts_step(cs: Seq<TokenChunk>, i: int)
    requires
        0 <= i < cs.len(),
    ensures
        texts(cs.take(i + 1)) == texts(cs.take(i)) + cs[i].text@,
{
    assert(cs.take(i + 1).drop_last() =~= cs.take(i));
}

/// Some stop sequence stands in `text` at position `k`.
pub open spec fn stop_at(text: Seq<char>, stops: Seq<Seq<char>>, k: int) -> bool {
    exists|j: int| 0 <= j < stops.len() && occurs_at(text, #[trigger] stops[j], k)
}

/// The last `l` characters of `text` (`0 < l`) begin some stop sequence.
pub open spec fn suffix_held(text: Seq<char>, stops: Seq<Seq<char>>, l: int) -> bool {
    &&& 0 < l <= text.len()
    &&& exists|j: int|
        0 <= j < stops.len() && l <= (#[trigger] stops[j]).len() && stops[j].take(l) == text.skip(
            text.len() - l,
        )
}

/// Characters that the first `take` characters of each chunk keep when only
/// `allowed` characters may pass in all, chunk after chunk.
pub open spec fn kept_len(cs: Seq<TokenChunk>, i: int, allowed: int) -> int {
    let before = texts(cs.take(i)).len();
    if allowed <= before {
        0
    } else if allowed - before >= cs[i].text@.len() {
        cs[i].text@.len() as int
    } else {
        allowed - before
    }
}


/// The first position from `k` on at which a stop sequence stands.
pub open spec fn first_stop_from(text: Seq<char>, stops: Seq<Seq<char>>, k: int) -> Option<int>
    decreases text.len() + 1 - k,
{
    if k < 0 || k > text.len() {
        None
    } else if stop_at(text, stops, k) {
        Some(k)
    } else {
        first_stop_from(text, stops, k + 1)
    }
}

/// Where the first stop sequence starts in `text`, if one does.
pub open spec fn first_stop(text: Seq<char>, stops: Seq<Seq<char>>) -> Option<int> {
    first_stop_from(text, stops, 0)
}

/// The longest suffix, of at most `l` characters, that begins a stop sequence.
pub open spec fn held_from(text: Seq<char>, stops: Seq<Seq<char>>, l: int) -> int
    decreases l,
{
    if l <= 0 {
        0
    } else if suffix_held(text, stops, l) {
        l
    } else {
        held_from(text, stops, l - 1)
    }
}

/// Length of the longest suffix of `text` that begins a stop sequence (0
/// when there is none): those characters are held back.
pub open spec fn held_len(text: Seq<char>, stops: Seq<Seq<char>>) -> int {
    held_from(text, stops, text.len() as int)
}

/// How many front chunks fit, whole, in `safe` characters.
pub open spec fn flush_count(cs: Seq<TokenChunk>, safe: int) -> nat
    decreases cs.len(),
{
    if cs.len() > 0 && cs[0].text@.len() <= safe {
        1 + flush_count(cs.drop_first(), safe - cs[0].text@.len())
    } else {
        0
    }
}

/// The chunks with each text cut so that only `allowed` characters pass.
pub open spec fn cut_to(emitted: Seq<TokenChunk>, cs: Seq<TokenChunk>, allowed: int) -> bool {
    &&& emitted.len() == cs.len()
    &&& forall|i: int|
        0 <= i < cs.len() ==> (#[trigger] emitted[i]).index == cs[i].index && emitted[i].token_id
            == cs[i].token_id && emitted[i].text@ == cs[i].text@.take(kept_len(cs, i, allowed))
}

proof fn lemma_texts_front(cs: Seq<TokenChunk>)
    requires
        cs.len() > 0,
    ensures
        texts(cs) == cs[0].text@ + texts(cs.drop_first()),
{
    lemma_texts_append(seq![cs[0]], cs.drop_first());
    assert(seq![cs[0]] + cs.drop_first() =~= cs);
    let one = seq![cs[0]];
    assert(one.drop_last() =~= Seq::<TokenChunk>::empty());
    assert(one.last() == cs[0]);
    assert(texts(one.drop_last()) =~= Seq::<char>::empty());
    assert(texts(one) == texts(one.drop_last()) + one.last().text@);
    assert(texts(one) =~= cs[0].text@);
}


proof fn lemma_first_stop_from(t: Seq<char>, st: Seq<Seq<char>>, k: int, i: int)
    requires
        0 <= i <= k,
        stop_at(t, st, k),
        forall|j: int| 0 <= j < k ==> !stop_at(t, st, j),
    ensures
        first_stop_from(t, st, i) == Some(k),
    decreases k - i,
{
    let q = choose|q: int| 0 <= q < st.len() && occurs_at(t, #[trigger] st[q], k);
    assert(k <= t.len());
    if i < k {
        lemma_first_stop_from(t, st, k, i + 1);
    }
}

proof fn lemma_first_stop_is(t: Seq<char>, st: Seq<Seq<char>>, k: int)
    requires
        stop_at(t, st, k),
        forall|j: int| 0 <= j < k ==> !stop_at(t, st, j),
    ensures
        first_stop(t, st) == Some(k),
        0 <= k <= t.len(),
{
    let q = choose|q: int| 0 <= q < st.len() && occurs_at(t, #[trigger] st[q], k);
    lemma_first_stop_from(t, st, k, 0);
}

proof fn lemma_no_stop_from(t: Seq<char>, st: Seq<Seq<char>>, i: int)
    requires
        0 <= i,
        forall|j: int| !stop_at(t, st, j),
    ensures
        first_stop_from(t, st, i) is None,
    decreases t.len() + 1 - i,
{
    if i <= t.len() {
        lemma_no_stop_from(t, st, i + 1);
    }
}

proof fn lemma_held_from(t: Seq<char>, st: Seq<Seq<char>>, h: int, l: int)
    requires
        0 <= h <= l <= t.len(),
        h > 0 ==> suffix_held(t, st, h),
        forall|m: int| h < m <= t.len() ==> !suffix_held(t, st, m),
    ensures
        held_from(t, st, l) == h,
    decreases l,
{
    if l > h {
        lemma_held_from(t, st, h, l - 1);
    }
}

proof fn lemma_held_is(t: Seq<char>, st: Seq<Seq<char>>, h: int)
    requires
        0 <= h <= t.len(),
        h > 0 ==> suffix_held(t, st, h),
        forall|l: int| h < l <= t.len() ==> !suffix_held(t, st, l),
    ensures
        held_len(t, st) == h,
{
    lemma_held_from(t, st, h, t.len() as int);
}


proof fn lemma_flush_count_le(cs: Seq<TokenChunk>, safe: int)
    ensures
        flush_count(cs, safe) <= cs.len(),
    decreases cs.len(),
{
    if cs.len() > 0 && cs[0].text@.len() <= safe {
        lemma_flush_count_le(cs.drop_first(), safe - cs[0].text@.len());
    }
}

/// The chunks that fit in `safe` characters hold at most `safe` characters.
pub proof fn lemma_flush_fits(cs: Seq<TokenChunk>, safe: int)
    requires
        safe >= 0,
    ensures
        texts(cs.take(flush_count(cs, safe) as int)).len() <= safe,
    decreases cs.len(),
{
    let n = flush_count(cs, safe) as int;
    if cs.len() > 0 && cs[0].text@.len() <= safe {
        let rest = cs.drop_first();
        let s2 = safe - cs[0].text@.len();
        lemma_flush_fits(rest, s2);
        lemma_flush_count_le(rest, s2);
        assert(n == 1 + flush_count(rest, s2));
        lemma_texts_front(cs.take(n));
        assert(cs.take(n).drop_first() =~= rest.take(n - 1));
        assert(cs.take(n)[0] == cs[0]);
    } else {
        assert(cs.take(0) =~= Seq::<TokenChunk>::empty());
        assert(texts(Seq::<TokenChunk>::empty()) =~= Seq::<char>::empty());
    }
}

/// What a push of `chunk` does to a stream (`before` to `after`), and what
/// it answers: whether a stop sequence has now appeared, and the chunks
/// passed on. On a stop, every pending chunk is passed on cut just before
/// the stop sequence and the stream stops; otherwise the front chunks that
/// lie wholly before any text that could begin one are passed on.
pub open spec fn pushed_as(
    before: StopSequenceStream,
    chunk: TokenChunk,
    after: StopSequenceStream,
    stop: bool,
    emitted: Seq<TokenChunk>,
) -> bool {
    let np = before.pending@.push(chunk);
    let t = texts(np);
    let st = before.stop_seqs();
    &&& after.wf()
    &&& after.stops == before.stops
    &&& match first_stop(t, st) {
        Some(k) => {
            &&& stop
            &&& cut_to(emitted, np, k)
            &&& after.pending@.len() == 0
            &&& after.output@ == before.output@ + t.take(k)
            &&& after.stopped
        },
        None => {
            let n = flush_count(np, t.len() - held_len(t, st)) as int;
            &&& !stop
            &&& emitted == np.take(n)
            &&& texts(emitted).len() <= t.len() - held_len(t, st)
            &&& after.pending@ == np.skip(n)
            &&& after.output@ == before.output@ + texts(emitted)
            &&& after.stopped == before.stopped
        },
    }
}

/// What the end of generation does to a stream: with no stop seen, every
/// pending chunk is passed on whole; after a stop, nothing.
pub open spec fn finished_as(
    before: StopSequenceStream,
    after: StopSequenceStream,
    emitted: Seq<TokenChunk>,
) -> bool {
    &&& after.wf()
    &&& after.stops == before.stops
    &&& after.stopped == before.stopped
    &&& before.stopped ==> emitted.len() == 0 && after.pending == before.pending && after.output
        == before.output
    &&& !before.stopped ==> emitted == before.pending@ && after.pending@.len() == 0 && after.output@
        == before.output@ + texts(before.pending@)
}

/// A token stream filtered by stop sequences.
pub struct StopSequenceStream {
    pub stops: Vec<Vec<char>>,
    pub pending: VecDeque<TokenChunk>,
    pub pending_text: Vec<char>,
    pub output: String,
    pub stopped: bool,
}

impl StopSequenceStream {
    pub open spec fn stop_seqs(&self) -> Seq<Seq<char>> {
        self.stops@.map_values(|s: Vec<char>| s@)
    }

    /// The pending text is the text of the pending chunks.
    pub open spec fn wf(&self) -> bool {
        self.pending_text@ == texts(self.pending@)
    }

    /// A stream that holds nothing yet.
    pub fn new(stops: &[String]) -> (r: Self)
        ensures
            r.wf(),
            r.stop_seqs() == stops@.map_values(|s: String| s@),
            r.pending@.len() == 0,
            r.output@.len() == 0,
            !r.stopped,
    {
        let mut seqs: Vec<Vec<char>> = Vec::new();
        let mut i: usize = 0;
        while i < stops.len()
            invariant
                i <= stops@.len(),
                seqs@.map_values(|s: Vec<char>| s@) == stops@.take(i as int).map_values(
                    |s: String| s@,
                ),
            decreases stops@.len() - i,
        {
            let v = chars_of(stops[i].as_str());
            proof {
                assert(seqs@.push(v).map_values(|s: Vec<char>| s@) =~= seqs@.map_values(
                    |s: Vec<char>| s@,
                ).push(v@));
                assert(stops@.take(i + 1).map_values(|s: String| s@) =~= stops@.take(
                    i as int,
                ).map_values(|s: String| s@).push(stops@[i as int]@));
            }
            seqs.push(v);
            i = i + 1;
        }
        assert(stops@.take(stops@.len() as int) =~= stops@);
        let r = StopSequenceStream {
            stops: seqs,
            pending: VecDeque::new(),
            pending_text: Vec::new(),
            output: String::new(),
            stopped: false,
        };
        assert(texts(r.pending@) =~= Seq::<char>::empty());
        r
    }

    /// Position of the first stop sequence in the pending text.
    fn earliest_stop(&self) -> (r: Option<usize>)
        ensures
            match r {
                Some(k) => stop_at(self.pending_text@, self.stop_seqs(), k as int) && forall|j: int|
                    0 <= j < k ==> !stop_at(self.pending_text@, self.stop_seqs(), j),
                None => forall|j: int| !stop_at(self.pending_text@, self.stop_seqs(), j),
            },
    {
        let ghost text = self.pending_text@;
        let ghost stops = self.stop_seqs();
        let mut best: Option<usize> = None;
        let mut s: usize = 0;
        while s < self.stops.len()
            invariant
                s <= self.stops@.len(),
                text == self.pending_text@,
                stops == self.stop_seqs(),
                match best {
                    Some(k) => (exists|j: int| 0 <= j < s && occurs_at(text, #[trigger] stops[j], k as int))
                        && forall|j: int, p: int|
                        0 <= j < s && 0 <= p < k ==> !#[trigger] occurs_at(text, stops[j], p),
                    None => forall|j: int, p: int| 0 <= j < s ==> !#[trigger] occurs_at(text, stops[j], p),
                },
            decreases self.stops@.len() - s,
        {
            let found = find_chars(self.pending_text.as_slice(), self.stops[s].as_slice());
            proof {
                assert(stops[s as int] == self.stops@[s as int]@);
            }
            match found {
                Some(p) => {
                    let better = match best {
                        Some(k) => p < k,
                        None => true,
                    };
                    if better {
                        best = Some(p);
                    }
                },
                None => {},
            }
            s = s + 1;
        }
        proof {
            match best {
                Some(k) => {
                    assert forall|j: int| 0 <= j < k implies !stop_at(text, stops, j) by {
                        if stop_at(text, stops, j) {
                            let q = choose|q: int| 0 <= q < stops.len() && occurs_at(text, #[trigger] stops[q], j);
                            assert(!occurs_at(text, stops[q], j));
                        }
                    }
                },
                None => {
                    assert forall|j: int| !stop_at(text, stops, j) by {
                        if stop_at(text, stops, j) {
                            let q = choose|q: int| 0 <= q < stops.len() && occurs_at(text, #[trigger] stops[q], j);
                            assert(!occurs_at(text, stops[q], j));
                        }
                    }
                },
            }
        }
        best
    }



    /// Takes one generated chunk. Returns whether a stop sequence has now
    /// appeared, and the chunks that may be passed on: on a stop, every
    /// pending chunk cut just before the stop sequence; otherwise the front
    /// chunks that lie wholly before any text that could begin one.
    pub fn push(&mut self, chunk: TokenChunk) -> (r: (bool, Vec<TokenChunk>))
        requires
            old(self).wf(),
        ensures
            pushed_as(*old(self), chunk, *final(self), r.0, r.1@),
    {
        let ghost np = self.pending@.push(chunk);
        let ghost st = self.stop_seqs();
        let added = chars_of(chunk.text.as_str());
        let mut i: usize = 0;
        let ghost base = self.pending_text@;
        while i < added.len()
            invariant
                i <= added@.len(),
                added@ == chunk.text@,
                self.pending_text@ == base + added@.take(i as int),
                self.pending == old(self).pending,
                self.stops == old(self).stops,
                self.output == old(self).output,
                self.stopped == old(self).stopped,
            decreases added@.len() - i,
        {
            self.pending_text.push(added[i]);
            proof {
                assert(added@.take(i + 1) =~= added@.take(i as int).push(added@[i as int]));
            }
            i = i + 1;
        }
        self.pending.push_back(chunk);
        proof {
            assert(added@.take(added@.len() as int) =~= added@);
            assert(np.drop_last() =~= old(self).pending@);
            assert(self.pending@ == np);
            assert(self.pending_text@ == texts(np));
        }
        let ghost t = texts(np);
        assert(t == self.pending_text@);
        assert(st == self.stop_seqs());
        match self.earliest_stop() {
            Some(k) => {
                proof {
                    lemma_first_stop_is(t, st, k as int);
                }
                let emitted = self.flush_through(k);
                self.stopped = true;
                (true, emitted)
            },
            None => {
                proof {
                    lemma_no_stop_from(t, st, 0);
                }
                let held = self.held_suffix_len();
                proof {
                    lemma_held_is(t, st, held as int);
                }
                let safe = self.pending_text.len() - held;
                proof {
                    lemma_flush_fits(np, safe as int);
                }
                let emitted = self.flush_complete_chunks(safe);
                (false, emitted)
            },
        }
    }

    /// The end of generation: with no stop seen, every pending chunk is
    /// passed on whole.
    pub fn finish(&mut self) -> (emitted: Vec<TokenChunk>)
        requires
            old(self).wf(),
        ensures
            finished_as(*old(self), *final(self), emitted@),
    {
        if self.stopped {
            return Vec::new();
        }
        let ghost all = self.pending@;
        let mut emitted: Vec<TokenChunk> = Vec::new();
        while self.pending.len() > 0
            invariant
                emitted@ + self.pending@ == all,
                self.pending_text == old(self).pending_text,
                self.output == old(self).output,
                self.stops == old(self).stops,
                self.stopped == old(self).stopped,
            decreases self.pending@.len(),
        {
            let chunk = self.pending.pop_front().unwrap();
            proof {
                assert(emitted@.push(chunk) + self.pending@ =~= all);
            }
            emitted.push(chunk);
        }
        assert(emitted@ =~= all);
        let text = crate::text::string_from_chars(self.pending_text.as_slice(), 0, self.pending_text.len());
        proof {
            assert(self.pending_text@.subrange(0, self.pending_text@.len() as int) =~= self.pending_text@);
        }
        self.output.append(text.as_str());
        self.pending_text = Vec::new();
        assert(texts(self.pending@) =~= Seq::<char>::empty());
        emitted
    }

    /// Drops the first `n` pending characters.
    fn drop_pending_prefix(&mut self, n: usize)
        requires
            n <= old(self).pending_text@.len(),
        ensures
            final(self).pending_text@ == old(self).pending_text@.skip(n as int),
            final(self).pending == old(self).pending,
            final(self).stops == old(self).stops,
            final(self).output == old(self).output,
            final(self).stopped == old(self).stopped,
    {
        let mut rest: Vec<char> = Vec::new();
        let mut i = n;
        while i < self.pending_text.len()
            invariant
                n <= i <= self.pending_text@.len(),
                rest@ == self.pending_text@.subrange(n as int, i as int),
            decreases self.pending_text@.len() - i,
        {
            rest.push(self.pending_text[i]);
            proof {
                assert(self.pending_text@.subrange(n as int, i + 1) =~= self.pending_text@.subrange(
                    n as int,
                    i as int,
                ).push(self.pending_text@[i as int]));
            }
            i = i + 1;
        }
        assert(rest@ =~= self.pending_text@.skip(n as int));
        self.pending_text = rest;
    }

    /// Passes on the front chunks that fit, whole, in `safe` characters.
    fn flush_complete_chunks(&mut self, safe: usize) -> (emitted: Vec<TokenChunk>)
        requires
            old(self).wf(),
        ensures
            final(self).wf(),
            emitted@ == old(self).pending@.take(flush_count(old(self).pending@, safe as int) as int),
            final(self).pending@ == old(self).pending@.skip(
                flush_count(old(self).pending@, safe as int) as int,
            ),
            final(self).output@ == old(self).output@ + texts(emitted@),
            final(self).stops == old(self).stops,
            final(self).stopped == old(self).stopped,
    {
        let ghost np = self.pending@;
        let mut emitted: Vec<TokenChunk> = Vec::new();
        let mut budget = safe;
        assert(np.skip(0) =~= np);
        assert(np.take(0) =~= Seq::<TokenChunk>::empty());
        assert(texts(Seq::<TokenChunk>::empty()) =~= Seq::<char>::empty());
        loop
            invariant
                emitted@.len() <= np.len(),
                emitted@ == np.take(emitted@.len() as int),
                self.pending@ == np.skip(emitted@.len() as int),
                self.wf(),
                self.output@ == old(self).output@ + texts(emitted@),
                self.stops == old(self).stops,
                self.stopped == old(self).stopped,
                flush_count(np, safe as int) == emitted@.len() + flush_count(
                    np.skip(emitted@.len() as int),
                    budget as int,
                ),
            ensures
                flush_count(np.skip(emitted@.len() as int), budget as int) == 0,
                emitted@ == np.take(emitted@.len() as int),
                self.pending@ == np.skip(emitted@.len() as int),
                self.wf(),
                self.output@ == old(self).output@ + texts(emitted@),
                self.stops == old(self).stops,
                self.stopped == old(self).stopped,
                flush_count(np, safe as int) == emitted@.len() + flush_count(
                    np.skip(emitted@.len() as int),
                    budget as int,
                ),
            decreases np.len() - emitted@.len(),
        {
            if self.pending.len() == 0 {
                break;
            }
            let len0 = chars_of(self.pending[0].text.as_str()).len();
            if len0 > budget {
                break;
            }
            let ghost i = emitted@.len() as int;
            proof {
                lemma_texts_front(self.pending@);
                assert(np.skip(i).drop_first() =~= np.skip(i + 1));
                assert(np.skip(i)[0] == np[i]);
            }
            let ghost old_pending = self.pending@;
            let ghost old_text = self.pending_text@;
            let chunk = self.pending.pop_front().unwrap();
            proof {
                assert(old_pending[0] == chunk);
                assert(self.pending@ =~= old_pending.drop_first());
                assert(old_text == chunk.text@ + texts(old_pending.drop_first()));
                assert(old_text.skip(len0 as int) =~= texts(old_pending.drop_first()));
            }
            self.drop_pending_prefix(len0);
            self.output.append(chunk.text.as_str());
            budget = budget - len0;
            proof {
                lemma_texts_step(np, i);
                assert(np.take(i + 1) =~= emitted@.push(chunk));
                assert(self.pending@ =~= np.skip(i + 1));
            }
            emitted.push(chunk);
        }
        emitted
    }

    /// Passes on every pending chunk, cut so that only `allowed` characters
    /// pass in all.
    fn flush_through(&mut self, allowed: usize) -> (emitted: Vec<TokenChunk>)
        requires
            old(self).wf(),
            allowed <= old(self).pending_text@.len(),
        ensures
            final(self).wf(),
            cut_to(emitted@, old(self).pending@, allowed as int),
            final(self).pending@.len() == 0,
            final(self).output@ == old(self).output@ + texts(old(self).pending@).take(allowed as int),
            final(self).stops == old(self).stops,
            final(self).stopped == old(self).stopped,
    {
        let ghost np = self.pending@;
        let mut emitted: Vec<TokenChunk> = Vec::new();
        let mut rem = allowed;
        let mut i: usize = 0;
        let n = self.pending.len();
        assert(np.skip(0) =~= np);
        assert(np.take(0) =~= Seq::<TokenChunk>::empty());
        assert(texts(Seq::<TokenChunk>::empty()) =~= Seq::<char>::empty());
        while i < n
            invariant
                n == np.len(),
                i <= n,
                emitted@.len() == i,
                self.pending@ == np.skip(i as int),
                allowed <= texts(np).len(),
                rem == if allowed <= texts(np.take(i as int)).len() {
                    0
                } else {
                    allowed - texts(np.take(i as int)).len()
                },
                self.output@ == old(self).output@ + texts(np.take(i as int)).take(
                    if allowed <= texts(np.take(i as int)).len() {
                        allowed as int
                    } else {
                        texts(np.take(i as int)).len() as int
                    },
                ),
                forall|q: int|
                    0 <= q < i ==> (#[trigger] emitted@[q]).index == np[q].index
                        && emitted@[q].token_id == np[q].token_id && emitted@[q].text@
                        == np[q].text@.take(kept_len(np, q, allowed as int)),
                self.stops == old(self).stops,
                self.stopped == old(self).stopped,
            decreases n - i,
        {
            proof {
                assert(np.skip(i as int)[0] == np[i as int]);
                assert(np.skip(i as int).drop_first() =~= np.skip(i + 1));
                lemma_texts_step(np, i as int);
                lemma_texts_split(np, i as int + 1);
            }
            assert(self.pending@.len() > 0);
            let chunk = self.pending.pop_front().unwrap();
            let chars = chars_of(chunk.text.as_str());
            let take = if rem < chars.len() {
                rem
            } else {
                chars.len()
            };
            let cut = crate::text::string_from_chars(chars.as_slice(), 0, take);
            proof {
                assert(chars@.subrange(0, take as int) =~= chunk.text@.take(take as int));
                assert(take == kept_len(np, i as int, allowed as int));
                let before = texts(np.take(i as int));
                let after = texts(np.take(i + 1));
                assert(after == before + chunk.text@);
                if allowed <= before.len() {
                    assert(after.take(allowed as int) =~= before.take(allowed as int));
                } else if allowed <= after.len() {
                    assert(after.take(allowed as int) =~= before + chunk.text@.take(take as int));
                } else {
                    assert(after =~= before + chunk.text@.take(take as int));
                }
            }
            self.output.append(cut.as_str());
            rem = rem - take;
            emitted.push(TokenChunk { index: chunk.index, token_id: chunk.token_id, text: cut });
            i = i + 1;
        }
        proof {
            assert(np.take(n as int) =~= np);
        }
        self.pending_text = Vec::new();
        assert(texts(self.pending@) =~= Seq::<char>::empty());
        emitted
    }

    /// Whether the last `l` pending characters begin stop sequence `j`.
    fn suffix_begins_stop(&self, l: usize, j: usize) -> (r: bool)
        requires
            0 < l <= self.pending_text@.len(),
            j < self.stops@.len(),
        ensures
            r == (l <= self.stop_seqs()[j as int].len() && self.stop_seqs()[j as int].take(l as int)
                == self.pending_text@.skip(self.pending_text@.len() - l)),
    {
        let ghost text = self.pending_text@;
        let stop = &self.stops[j];
        proof {
            assert(self.stop_seqs()[j as int] == stop@);
        }
        if l > stop.len() {
            return false;
        }
        let base = self.pending_text.len() - l;
        let mut i: usize = 0;
        while i < l
            invariant
                i <= l <= stop@.len(),
                base + l == text.len(),
                base + l == self.pending_text.len(),
                text == self.pending_text@,
                stop@ == self.stop_seqs()[j as int],
                forall|q: int| 0 <= q < i ==> stop@[q] == text[base + q],
            decreases l - i,
        {
            if stop[i] != self.pending_text[base + i] {
                assert(stop@.take(l as int)[i as int] != text.skip(base as int)[i as int]);
                return false;
            }
            i = i + 1;
        }
        assert(stop@.take(l as int) =~= text.skip(base as int));
        true
    }

    /// Length of the longest pending suffix that begins a stop sequence.
    fn held_suffix_len(&self) -> (r: usize)
        ensures
            r <= self.pending_text@.len(),
            r > 0 ==> suffix_held(self.pending_text@, self.stop_seqs(), r as int),
            forall|l: int| r < l <= self.pending_text@.len() ==> !suffix_held(
                self.pending_text@,
                self.stop_seqs(),
                l,
            ),
    {
        let ghost text = self.pending_text@;
        let ghost stops = self.stop_seqs();
        let mut l = self.pending_text.len();
        while l > 0
            invariant
                l <= text.len(),
                text == self.pending_text@,
                stops == self.stop_seqs(),
                forall|m: int| l < m <= text.len() ==> !suffix_held(text, stops, m),
            decreases l,
        {
            let mut j: usize = 0;
            while j < self.stops.len()
                invariant
                    0 < l <= text.len(),
                    j <= self.stops@.len(),
                    text == self.pending_text@,
                    stops == self.stop_seqs(),
                    forall|m: int| l < m <= text.len() ==> !suffix_held(text, stops, m),
                    forall|q: int|
                        0 <= q < j ==> !(l <= (#[trigger] stops[q]).len() && stops[q].take(l as int)
                            == text.skip(text.len() - l)),
                decreases self.stops@.len() - j,
            {
                if self.suffix_begins_stop(l, j) {
                    return l;
                }
                j = j + 1;
            }
            l = l - 1;
        }
        0
    }
}

} // verus!

verus! {

/// `x` is the beginning of some stop sequence (perhaps all of it).
pub open spec fn prefix_of_stop(x: Seq<char>, stops: Seq<Seq<char>>) -> bool {
    exists|j: int|
        0 <= j < stops.len() && x.len() <= (#[trigger] stops[j]).len() && stops[j].take(
            x.len() as int,
        ) == x
}

/// Nothing before position `n` of `total` can be the start of a stop
/// sequence, neither one that is complete nor one that later text could
/// complete.
pub open spec fn emitted_safely(total: Seq<char>, stops: Seq<Seq<char>>, n: int) -> bool {
    &&& forall|k: int| 0 <= k < n ==> !#[trigger] stop_at(total, stops, k)
    &&& forall|k: int| 0 <= k < n ==> !prefix_of_stop(#[trigger] total.skip(k), stops)
}

proof fn lemma_held_from_max(t: Seq<char>, st: Seq<Seq<char>>, l: int, m: int)
    requires
        held_from(t, st, l) < m <= l,
    ensures
        !suffix_held(t, st, m),
    decreases l,
{
    if l > 0 && !suffix_held(t, st, l) && m < l {
        lemma_held_from_max(t, st, l - 1, m);
    }
}

proof fn lemma_held_from_bounds(t: Seq<char>, st: Seq<Seq<char>>, l: int)
    ensures
        l >= 0 ==> 0 <= held_from(t, st, l) <= l,
    decreases l,
{
    if l > 0 && !suffix_held(t, st, l) {
        lemma_held_from_bounds(t, st, l - 1);
    }
}

/// A stop sequence that starts before the end of `total` and runs past it
/// makes the rest of `total` a beginning of that stop sequence.
proof fn lemma_straddle(total: Seq<char>, extra: Seq<char>, s: Seq<char>, k: int)
    requires
        0 <= k < total.len(),
        occurs_at(total + extra, s, k),
        k + s.len() > total.len(),
    ensures
        total.skip(k).len() <= s.len(),
        s.take(total.skip(k).len() as int) == total.skip(k),
{
    let big = total + extra;
    assert forall|i: int| 0 <= i < total.len() - k implies s[i] == total.skip(k)[i] by {
        assert(big.subrange(k, k + s.len())[i] == big[k + i]);
    }
    assert(s.take(total.skip(k).len() as int) =~= total.skip(k));
}

/// Old positions stay safe when more text arrives.
proof fn lemma_safe_extends_at(out: Seq<char>, p: Seq<char>, c: Seq<char>, st: Seq<Seq<char>>, k: int)
    requires
        emitted_safely(out + p, st, out.len() as int),
        0 <= k < out.len(),
    ensures
        !stop_at(out + p + c, st, k),
        !prefix_of_stop((out + p + c).skip(k), st),
{
    let total = out + p;
    let big = out + p + c;
    assert(!prefix_of_stop(total.skip(k), st));
    assert(!stop_at(total, st, k));
    if stop_at(big, st, k) {
        let j = choose|j: int| 0 <= j < st.len() && occurs_at(big, #[trigger] st[j], k);
        if k + st[j].len() <= total.len() {
            assert(big.subrange(k, k + st[j].len()) =~= total.subrange(k, k + st[j].len()));
            assert(occurs_at(total, st[j], k));
        } else {
            lemma_straddle(total, c, st[j], k);
            assert(prefix_of_stop(total.skip(k), st));
        }
    }
    if prefix_of_stop(big.skip(k), st) {
        let j = choose|j: int|
            0 <= j < st.len() && big.skip(k).len() <= (#[trigger] st[j]).len() && st[j].take(
                big.skip(k).len() as int,
            ) == big.skip(k);
        assert(st[j].take(total.skip(k).len() as int) =~= total.skip(k)) by {
            assert forall|i: int| 0 <= i < total.skip(k).len() implies st[j][i]
                == total.skip(k)[i] by {
                assert(st[j].take(big.skip(k).len() as int)[i] == big.skip(k)[i]);
            }
        }
        assert(prefix_of_stop(total.skip(k), st));
    }
}

/// Law: when a pushed chunk completes a stop sequence at position `k` of
/// the pending text, the output stops exactly where the first stop
/// sequence of everything generated so far begins.
pub proof fn lemma_stop_is_first_in_all_text(
    out: Seq<char>,
    p: Seq<char>,
    c: Seq<char>,
    st: Seq<Seq<char>>,
    k: int,
)
    requires
        emitted_safely(out + p, st, out.len() as int),
        first_stop(p + c, st) == Some(k),
    ensures
        first_stop(out + p + c, st) == Some(out.len() + k),
        (out + (p + c).take(k)) == (out + p + c).take(out.len() + k),
{
    let q = p + c;
    let big = out + p + c;
    assert(big =~= out + q);
    lemma_first_stop_found(q, st, 0);
    let j0 = choose|j: int| 0 <= j < st.len() && occurs_at(q, #[trigger] st[j], k);
    assert(big.subrange(out.len() + k, out.len() + k + st[j0].len()) =~= q.subrange(
        k,
        k + st[j0].len(),
    ));
    assert(occurs_at(big, st[j0], out.len() + k));
    assert forall|j: int| 0 <= j < out.len() + k implies !stop_at(big, st, j) by {
        if j < out.len() {
            lemma_safe_extends_at(out, p, c, st, j);
        }
        if j >= out.len() && stop_at(big, st, j) {
            let w = choose|w: int| 0 <= w < st.len() && occurs_at(big, #[trigger] st[w], j);
            assert(big.subrange(j, j + st[w].len()) =~= q.subrange(
                j - out.len(),
                j - out.len() + st[w].len(),
            ));
            assert(occurs_at(q, st[w], j - out.len()));
            assert(stop_at(q, st, j - out.len()));
        }
    }
    lemma_first_stop_is(big, st, out.len() + k);
    assert(out + q.take(k) =~= big.take(out.len() + k));
}

proof fn lemma_first_stop_found(t: Seq<char>, st: Seq<Seq<char>>, i: int)
    requires
        0 <= i,
        first_stop_from(t, st, i) is Some,
    ensures
        ({
            let k = first_stop_from(t, st, i)->Some_0;
            &&& i <= k
            &&& stop_at(t, st, k)
            &&& forall|j: int| i <= j < k ==> !stop_at(t, st, j)
        }),
    decreases t.len() + 1 - i,
{
    if i <= t.len() && !stop_at(t, st, i) {
        lemma_first_stop_found(t, st, i + 1);
    }
}

proof fn lemma_no_stop_found(t: Seq<char>, st: Seq<Seq<char>>, i: int, j: int)
    requires
        0 <= i <= j,
        first_stop_from(t, st, i) is None,
    ensures
        !stop_at(t, st, j),
    decreases j - i,
{
    if i <= t.len() && j > i {
        lemma_no_stop_found(t, st, i + 1, j);
    }
    if j > t.len() && stop_at(t, st, j) {
        let w = choose|w: int| 0 <= w < st.len() && occurs_at(t, #[trigger] st[w], j);
    }
}

/// Law: while no stop sequence has appeared, everything passed on so far
/// (the old output and the first `e` pending characters, `e` within the
/// part not held back) can never turn into the start of a stop sequence.
pub proof fn lemma_passed_text_stays_safe(
    out: Seq<char>,
    p: Seq<char>,
    c: Seq<char>,
    st: Seq<Seq<char>>,
    e: int,
)
    requires
        emitted_safely(out + p, st, out.len() as int),
        first_stop(p + c, st) is None,
        0 <= e <= (p + c).len() - held_len(p + c, st),
    ensures
        emitted_safely(out + p + c, st, out.len() + e),
{
    let q = p + c;
    let big = out + p + c;
    assert(big =~= out + q);
    lemma_held_from_bounds(q, st, q.len() as int);
    assert forall|k: int| 0 <= k < out.len() + e implies !#[trigger] stop_at(big, st, k) by {
        lemma_passed_at(out, p, c, st, e, k);
    }
    assert forall|k: int| 0 <= k < out.len() + e implies !prefix_of_stop(#[trigger] big.skip(k), st) by {
        lemma_passed_at(out, p, c, st, e, k);
    }
}

proof fn lemma_passed_at(
    out: Seq<char>,
    p: Seq<char>,
    c: Seq<char>,
    st: Seq<Seq<char>>,
    e: int,
    k: int,
)
    requires
        emitted_safely(out + p, st, out.len() as int),
        first_stop(p + c, st) is None,
        0 <= e <= (p + c).len() - held_len(p + c, st),
        0 <= k < out.len() + e,
    ensures
        !stop_at(out + p + c, st, k),
        !prefix_of_stop((out + p + c).skip(k), st),
{
    let q = p + c;
    let big = out + p + c;
    assert(big =~= out + q);
    lemma_held_from_bounds(q, st, q.len() as int);
    if k < out.len() {
        lemma_safe_extends_at(out, p, c, st, k);
    } else {
        let k2 = k - out.len();
        assert(big.skip(k) =~= q.skip(k2));
        if stop_at(big, st, k) {
            let w = choose|w: int| 0 <= w < st.len() && occurs_at(big, #[trigger] st[w], k);
            assert(big.subrange(k, k + st[w].len()) =~= q.subrange(k2, k2 + st[w].len()));
            assert(occurs_at(q, st[w], k2));
            lemma_no_stop_found(q, st, 0, k2);
        }
        if prefix_of_stop(big.skip(k), st) {
            let l = q.len() - k2;
            let w = choose|w: int|
                0 <= w < st.len() && q.skip(k2).len() <= (#[trigger] st[w]).len() && st[w].take(
                    q.skip(k2).len() as int,
                ) == q.skip(k2);
            assert(q.skip(q.len() - l) =~= q.skip(k2));
            assert(suffix_held(q, st, l));
            lemma_held_from_max(q, st, q.len() as int, l);
        }
    }
}

/// Law: a fresh stream has passed nothing on, which is safe.
pub proof fn lemma_nothing_passed_is_safe(st: Seq<Seq<char>>)
    ensures
        emitted_safely(Seq::empty(), st, 0),
{
}

} // verus!

verus! {

/// The stream has taken in the chunks `pushed`, in order, and passed on the
/// first `d` of them whole; no stop sequence has appeared in their text, the
/// rest wait, and nothing passed on can still begin a stop sequence.
pub open spec fn tracks(s: StopSequenceStream, pushed: Seq<TokenChunk>, d: int) -> bool {
    &&& s.wf()
    &&& !s.stopped
    &&& 0 <= d <= pushed.len()
    &&& s.pending@ == pushed.skip(d)
    &&& s.output@ == texts(pushed.take(d))
    &&& first_stop(texts(pushed), s.stop_seqs()) is None
    &&& emitted_safely(texts(pushed), s.stop_seqs(), s.output@.len() as int)
}

/// The stream has stopped after taking in the chunks `pushed`: what it
/// passed on is their text up to where the first stop sequence begins.
pub open spec fn stopped_after(s: StopSequenceStream, pushed: Seq<TokenChunk>) -> bool {
    &&& s.wf()
    &&& s.stopped
    &&& s.pending@.len() == 0
    &&& first_stop(texts(pushed), s.stop_seqs()) matches Some(k) && s.output@ == texts(pushed).take(k)
}

/// The text a stream passes on in all for the chunks `pushed`: their text
/// up to the first stop sequence, or all of it where none appears.
pub open spec fn passed_text(pushed: Seq<TokenChunk>, st: Seq<Seq<char>>) -> Seq<char> {
    match first_stop(texts(pushed), st) {
        Some(k) => texts(pushed).take(k),
        None => texts(pushed),
    }
}

proof fn lemma_texts_push(cs: Seq<TokenChunk>, c: TokenChunk)
    ensures
        texts(cs.push(c)) == texts(cs) + c.text@,
{
    assert(cs.push(c).drop_last() =~= cs);
}

/// Law: a new stream whose stop sequences are all non-empty has taken in
/// nothing and passed nothing on.
pub proof fn lemma_new_stream_tracks_nothing(s: StopSequenceStream)
    requires
        s.wf(),
        s.pending@.len() == 0,
        s.output@.len() == 0,
        !s.stopped,
        forall|j: int| 0 <= j < s.stop_seqs().len() ==> (#[trigger] s.stop_seqs()[j]).len() > 0,
    ensures
        tracks(s, Seq::empty(), 0),
{
    let e = Seq::<TokenChunk>::empty();
    let st = s.stop_seqs();
    assert(texts(e) =~= Seq::<char>::empty());
    assert(s.pending@ =~= e.skip(0));
    assert(e.take(0) =~= e);
    assert(s.output@ =~= texts(e.take(0)));
    assert forall|k: int| !stop_at(texts(e), st, k) by {
        if stop_at(texts(e), st, k) {
            let j = choose|j: int| 0 <= j < st.len() && occurs_at(texts(e), #[trigger] st[j], k);
            assert(st[j].len() > 0);
        }
    }
    lemma_no_stop_from(texts(e), st, 0);
}

/// Law: pushing a chunk into a stream that has taken in `pushed` and passed
/// on the first `d` of them whole: the push reports a stop exactly when a
/// stop sequence appears in the text of everything pushed. Then the stream
/// has passed on that text up to where the first stop sequence begins;
/// otherwise the chunks it passes on are the next ones pushed, unchanged and
/// in order, and it goes on tracking everything pushed.
pub proof fn lemma_push_tracks(
    before: StopSequenceStream,
    pushed: Seq<TokenChunk>,
    d: int,
    chunk: TokenChunk,
    after: StopSequenceStream,
    stop: bool,
    emitted: Seq<TokenChunk>,
)
    requires
        tracks(before, pushed, d),
        pushed_as(before, chunk, after, stop, emitted),
    ensures
        after.stop_seqs() == before.stop_seqs(),
        stop <==> first_stop(texts(pushed.push(chunk)), before.stop_seqs()) is Some,
        stop ==> stopped_after(after, pushed.push(chunk)),
        !stop ==> emitted == pushed.push(chunk).subrange(d, d + emitted.len()) && tracks(
            after,
            pushed.push(chunk),
            d + emitted.len(),
        ),
{
    let st = before.stop_seqs();
    let big_p = pushed.push(chunk);
    let np = before.pending@.push(chunk);
    let out = before.output@;
    let p = before.pending_text@;
    let c = chunk.text@;
    let t = texts(np);
    assert(np =~= big_p.skip(d));
    lemma_texts_push(before.pending@, chunk);
    assert(t == p + c);
    lemma_texts_split(pushed, d);
    assert(texts(pushed) == out + p);
    lemma_texts_push(pushed, chunk);
    assert(texts(big_p) =~= out + p + c);
    assert(after.stop_seqs() =~= st);
    match first_stop(t, st) {
        Some(k) => {
            lemma_stop_is_first_in_all_text(out, p, c, st, k);
            assert(after.output@ == out + t.take(k));
            assert(stopped_after(after, big_p));
        },
        None => {
            let e = texts(emitted).len() as int;
            let n = emitted.len() as int;
            lemma_flush_count_le(np, t.len() - held_len(t, st));
            assert(n <= np.len());
            assert(emitted =~= big_p.subrange(d, d + n));
            assert(after.pending@ =~= big_p.skip(d + n));
            lemma_texts_append(big_p.take(d), emitted);
            assert(big_p.take(d) =~= pushed.take(d));
            assert(big_p.take(d) + emitted =~= big_p.take(d + n));
            assert(after.output@ == texts(big_p.take(d + n)));
            lemma_held_from_bounds(t, st, t.len() as int);
            lemma_passed_text_stays_safe(out, p, c, st, e);
            assert(emitted_safely(texts(big_p), st, after.output@.len() as int));
            assert forall|j: int| !stop_at(texts(big_p), st, j) by {
                let big = out + p + c;
                if 0 <= j < out.len() {
                    lemma_safe_extends_at(out, p, c, st, j);
                } else if stop_at(big, st, j) {
                    let w = choose|w: int| 0 <= w < st.len() && occurs_at(big, #[trigger] st[w], j);
                    let j2 = j - out.len();
                    assert(big.subrange(j, j + st[w].len()) =~= t.subrange(j2, j2 + st[w].len()));
                    assert(occurs_at(t, st[w], j2));
                    lemma_no_stop_found(t, st, 0, j2);
                }
            }
            lemma_no_stop_from(texts(big_p), st, 0);
        },
    }
}

/// Law: ending a stream that has taken in `pushed`, with no stop seen,
/// passes on every chunk not yet passed on, unchanged and in order, so that
/// everything pushed has been passed on, and the text passed on in all is
/// the whole text.
pub proof fn lemma_finish_passes_the_rest(
    before: StopSequenceStream,
    pushed: Seq<TokenChunk>,
    d: int,
    after: StopSequenceStream,
    emitted: Seq<TokenChunk>,
)
    requires
        tracks(before, pushed, d),
        finished_as(before, after, emitted),
    ensures
        emitted == pushed.skip(d),
        pushed.take(d) + emitted == pushed,
        after.output@ == passed_text(pushed, before.stop_seqs()),
{
    lemma_texts_split(pushed, d);
    assert(pushed.take(d) + pushed.skip(d) =~= pushed);
}

/// Law: ending a stream that has stopped passes nothing more on; the text
/// passed on in all stays the text pushed up to the first stop sequence.
pub proof fn lemma_finish_after_stop(
    before: StopSequenceStream,
    pushed: Seq<TokenChunk>,
    after: StopSequenceStream,
    emitted: Seq<TokenChunk>,
)
    requires
        stopped_after(before, pushed),
        finished_as(before, after, emitted),
    ensures
        emitted.len() == 0,
        after.output@ == passed_text(pushed, before.stop_seqs()),
{
}


/// The chunks passed on over several calls, one call after another.
pub open spec fn passed_chunks(parts: Seq<Seq<TokenChunk>>) -> Seq<TokenChunk>
    decreases parts.len(),
{
    if parts.len() == 0 {
        Seq::empty()
    } else {
        passed_chunks(parts.drop_last()) + parts.last()
    }
}

/// A run of pushes: pushing `chunks[i]` into `states[i]` made `states[i + 1]`,
/// reported `stops[i]` and passed on `emitted[i]`; no chunk was pushed after
/// a push that reported a stop.
pub open spec fn run_of(
    states: Seq<StopSequenceStream>,
    chunks: Seq<TokenChunk>,
    stops: Seq<bool>,
    emitted: Seq<Seq<TokenChunk>>,
) -> bool {
    &&& states.len() == chunks.len() + 1
    &&& stops.len() == chunks.len()
    &&& emitted.len() == chunks.len()
    &&& forall|i: int|
        #![trigger chunks[i]]
        0 <= i < chunks.len() ==> pushed_as(states[i], chunks[i], states[i + 1], stops[i], emitted[i])
    &&& forall|i: int| 0 <= i < chunks.len() - 1 ==> !#[trigger] stops[i]
}

proof fn lemma_passed_chunks_step(parts: Seq<Seq<TokenChunk>>, k: int)
    requires
        0 <= k < parts.len(),
    ensures
        passed_chunks(parts.take(k + 1)) == passed_chunks(parts.take(k)) + parts[k],
{
    assert(parts.take(k + 1).drop_last() =~= parts.take(k));
}

proof fn lemma_run_prefix(
    states: Seq<StopSequenceStream>,
    chunks: Seq<TokenChunk>,
    stops: Seq<bool>,
    emitted: Seq<Seq<TokenChunk>>,
    k: int,
)
    requires
        run_of(states, chunks, stops, emitted),
        tracks(states[0], Seq::empty(), 0),
        0 <= k <= chunks.len(),
        forall|j: int| 0 <= j < k ==> !#[trigger] stops[j],
    ensures
        states[k].stop_seqs() == states[0].stop_seqs(),
        tracks(states[k], chunks.take(k), passed_chunks(emitted.take(k)).len() as int),
        passed_chunks(emitted.take(k)) == chunks.take(passed_chunks(emitted.take(k)).len() as int),
    decreases k,
{
    if k == 0 {
        assert(chunks.take(0) =~= Seq::<TokenChunk>::empty());
        assert(emitted.take(0) =~= Seq::<Seq<TokenChunk>>::empty());
    } else {
        let j = k - 1;
        lemma_run_prefix(states, chunks, stops, emitted, j);
        let d = passed_chunks(emitted.take(j)).len() as int;
        assert(pushed_as(states[j], chunks[j], states[j + 1], stops[j], emitted[j]));
        assert(!stops[j]);
        lemma_push_tracks(states[j], chunks.take(j), d, chunks[j], states[k], stops[j], emitted[j]);
        assert(chunks.take(j).push(chunks[j]) =~= chunks.take(k));
        lemma_passed_chunks_step(emitted, j);
        let n = emitted[j].len() as int;
        assert(chunks.take(d) + chunks.take(k).subrange(d, d + n) =~= chunks.take(d + n));
        assert(states[k].stop_seqs() =~= states[j].stop_seqs());
    }
}

/// Law: a new stream whose stop sequences are all non-empty, fed `chunks`
/// one push at a time and no longer once a push reports a stop, then ended
/// (ending passes on `tail`). Each push reports a stop exactly when a stop
/// sequence appears in the text of everything pushed so far. With no stop,
/// the chunks passed on, the end included, are the chunks pushed, unchanged
/// and in order. After a stop, the pushes before the last passed on a front
/// part of the chunks unchanged, the last passed on the rest cut just before
/// the stop sequence, and the end passes on nothing. Either way the text
/// passed on in all is the text pushed up to the first stop sequence, or all
/// of it where none appears.
pub proof fn lemma_stream_run(
    states: Seq<StopSequenceStream>,
    chunks: Seq<TokenChunk>,
    stops: Seq<bool>,
    emitted: Seq<Seq<TokenChunk>>,
    end: StopSequenceStream,
    tail: Seq<TokenChunk>,
)
    requires
        run_of(states, chunks, stops, emitted),
        states[0].wf(),
        states[0].pending@.len() == 0,
        states[0].output@.len() == 0,
        !states[0].stopped,
        forall|j: int|
            0 <= j < states[0].stop_seqs().len() ==> (#[trigger] states[0].stop_seqs()[j]).len() > 0,
        finished_as(states.last(), end, tail),
    ensures
        forall|i: int|
            0 <= i < chunks.len() ==> (#[trigger] stops[i] <==> first_stop(
                texts(chunks.take(i + 1)),
                states[0].stop_seqs(),
            ) is Some),
        chunks.len() == 0 || !stops.last() ==> passed_chunks(emitted) + tail == chunks,
        chunks.len() > 0 && stops.last() ==> {
            &&& tail.len() == 0
            &&& first_stop(texts(chunks), states[0].stop_seqs()) matches Some(k) && exists|d: int|
                0 <= d <= chunks.len() && passed_chunks(emitted.drop_last()) == chunks.take(d)
                    && cut_to(emitted.last(), chunks.skip(d), k - texts(chunks.take(d)).len())
        },
        end.output@ == passed_text(chunks, states[0].stop_seqs()),
{
    let st = states[0].stop_seqs();
    let n = chunks.len() as int;
    lemma_new_stream_tracks_nothing(states[0]);
    assert forall|i: int| 0 <= i < n implies (#[trigger] stops[i] <==> first_stop(
        texts(chunks.take(i + 1)),
        st,
    ) is Some) by {
        lemma_run_prefix(states, chunks, stops, emitted, i);
        let d = passed_chunks(emitted.take(i)).len() as int;
        assert(pushed_as(states[i], chunks[i], states[i + 1], stops[i], emitted[i]));
        lemma_push_tracks(states[i], chunks.take(i), d, chunks[i], states[i + 1], stops[i], emitted[i]);
        assert(chunks.take(i).push(chunks[i]) =~= chunks.take(i + 1));
    }
    assert(emitted.take(n) =~= emitted);
    assert(chunks.take(n) =~= chunks);
    if n == 0 || !stops.last() {
        lemma_run_prefix(states, chunks, stops, emitted, n);
        let d = passed_chunks(emitted).len() as int;
        lemma_finish_passes_the_rest(states[n], chunks, d, end, tail);
        assert(states[n].stop_seqs() == st);
    } else {
        let j = n - 1;
        lemma_run_prefix(states, chunks, stops, emitted, j);
        let d = passed_chunks(emitted.take(j)).len() as int;
        assert(pushed_as(states[j], chunks[j], states[n], stops[j], emitted[j]));
        lemma_push_tracks(states[j], chunks.take(j), d, chunks[j], states[n], stops[j], emitted[j]);
        assert(chunks.take(j).push(chunks[j]) =~= chunks);
        assert(emitted.drop_last() =~= emitted.take(j));
        assert(states[j].pending@.push(chunks[j]) =~= chunks.skip(d));
        lemma_texts_split(chunks.take(j), d);
        assert(chunks.take(j).take(d) =~= chunks.take(d));
        lemma_finish_after_stop(states[n], chunks, end, tail);
        assert(states[n].stop_seqs() == st);
        let k = first_stop(texts(chunks), st).unwrap();
        let t = texts(states[j].pending@.push(chunks[j]));
        lemma_texts_push(states[j].pending@, chunks[j]);
        lemma_texts_split(chunks, d);
        let k2 = first_stop(t, st).unwrap();
        let out = states[j].output@;
        let p = states[j].pending_text@;
        let c = chunks[j].text@;
        assert(t == p + c);
        assert(texts(chunks.take(j)) == out + p);
        lemma_stop_is_first_in_all_text(out, p, c, st, k2);
        lemma_texts_push(chunks.take(j), chunks[j]);
        assert(texts(chunks) =~= out + p + c);
        assert(cut_to(emitted.last(), chunks.skip(d), k2));
    }
}

} // verus!
