//! CUDA toolkit versions: reading them from `torch/version.py` and from
//! `nvcc --version`, and choosing the toolkit that matches the runtime.
use vstd::prelude::*;

use crate::text::{
    all_digits, chars_of, find_chars, index_of_char, lemma_index_of_char, lemma_index_of_char_bound, is_ascii_digit, is_unicode_whitespace, is_whitespace,
    occurs_at, parse_u64_chars, parse_u64_spec, starts_with_seq, str_eq, string_from_chars,
    trim_start_len,
};

verus! {

/// Position of the first ASCII digit in `s`, or its length when there is none.
pub open spec fn index_of_digit(s: Seq<char>) -> nat
    decreases s.len(),
{
    if s.len() == 0 {
        0
    } else if is_ascii_digit(s[0]) {
        0
    } else {
        1 + index_of_digit(s.drop_first())
    }
}

/// `str::parse::<u32>`.
pub open spec fn parse_u32_spec(s: Seq<char>) -> Option<u32> {
    match parse_u64_spec(s) {
        Some(n) => if n <= u32::MAX {
            Some(n as u32)
        } else {
            None
        },
        None => None,
    }
}

/// `major.minor` read from the first digit on: the major part runs to the
/// first `.`, the minor part is the run of digits after it.
pub open spec fn cuda_major_minor(s: Seq<char>) -> Option<(u32, u32)> {
    let start = index_of_digit(s);
    if start >= s.len() {
        None
    } else {
        let rest = s.skip(start as int);
        let dot = index_of_char(rest, '.');
        if dot >= rest.len() {
            None
        } else {
            let after = rest.skip(dot as int + 1);
            match (
                parse_u32_spec(rest.take(dot as int)),
                parse_u32_spec(after.take(index_of_non_digit(after) as int)),
            ) {
                (Some(major), Some(minor)) => Some((major, minor)),
                _ => None,
            }
        }
    }
}

/// Length of the leading run of ASCII digits.
pub open spec fn index_of_non_digit(s: Seq<char>) -> nat
    decreases s.len(),
{
    if s.len() > 0 && is_ascii_digit(s[0]) {
        1 + index_of_non_digit(s.drop_first())
    } else {
        0
    }
}

proof fn lemma_index_of_digit(s: Seq<char>, i: int)
    requires
        0 <= i <= s.len(),
        forall|j: int| 0 <= j < i ==> !is_ascii_digit(s[j]),
        i == s.len() || is_ascii_digit(s[i]),
    ensures
        index_of_digit(s) == i,
    decreases i,
{
    if i > 0 {
        lemma_index_of_digit(s.drop_first(), i - 1);
    }
}

proof fn lemma_index_of_non_digit(s: Seq<char>, i: int)
    requires
        0 <= i <= s.len(),
        forall|j: int| 0 <= j < i ==> is_ascii_digit(s[j]),
        i == s.len() || !is_ascii_digit(s[i]),
    ensures
        index_of_non_digit(s) == i,
    decreases i,
{
    if i > 0 {
        lemma_index_of_non_digit(s.drop_first(), i - 1);
    }
}

fn parse_u32_chars(v: &[char], a: usize, b: usize) -> (r: Option<u32>)
    requires
        a <= b <= v@.len(),
    ensures
        r == parse_u32_spec(v@.subrange(a as int, b as int)),
{
    match parse_u64_chars(v, a, b) {
        Some(n) => if n <= 0xffff_ffff {
            Some(n as u32)
        } else {
            None
        },
        None => None,
    }
}

/// Reads `major.minor` from `v[a..]`, as `cuda_major_minor` says.
fn cuda_major_minor_from(v: &[char], a: usize) -> (r: Option<(u32, u32)>)
    requires
        a <= v@.len(),
    ensures
        r == cuda_major_minor(v@.skip(a as int)),
{
    let ghost s = v@.skip(a as int);
    let n = v.len();
    let mut i = a;
    while i < n && !('0' <= v[i] && v[i] <= '9')
        invariant
            a <= i <= n,
            n == v@.len(),
            s == v@.skip(a as int),
            forall|j: int| 0 <= j < i - a ==> !is_ascii_digit(#[trigger] s[j]),
        decreases n - i,
    {
        i = i + 1;
    }
    proof {
        lemma_index_of_digit(s, i - a);
    }
    if i == n {
        return None;
    }
    let ghost rest = s.skip(i - a);
    assert(rest =~= v@.skip(i as int));
    let mut d = i;
    while d < n && v[d] != '.'
        invariant
            i <= d <= n,
            n == v@.len(),
            rest == v@.skip(i as int),
            forall|j: int| 0 <= j < d - i ==> #[trigger] rest[j] != '.',
        decreases n - d,
    {
        d = d + 1;
    }
    proof {
        lemma_index_of_char(rest, '.', d - i);
    }
    if d == n {
        return None;
    }
    let ghost after = rest.skip(d - i + 1);
    assert(after =~= v@.skip(d + 1));
    let mut e = d + 1;
    while e < n && '0' <= v[e] && v[e] <= '9'
        invariant
            d + 1 <= e <= n,
            n == v@.len(),
            after == v@.skip(d + 1),
            forall|j: int| 0 <= j < e - d - 1 ==> is_ascii_digit(#[trigger] after[j]),
        decreases n - e,
    {
        e = e + 1;
    }
    proof {
        lemma_index_of_non_digit(after, e - d - 1);
        assert(rest.take(d - i) =~= v@.subrange(i as int, d as int));
        assert(after.take(e - d - 1) =~= v@.subrange(d + 1, e as int));
    }
    let major = parse_u32_chars(v, i, d);
    let minor = parse_u32_chars(v, d + 1, e);
    match (major, minor) {
        (Some(x), Some(y)) => Some((x, y)),
        _ => None,
    }
}

/// Reads a CUDA `major.minor` version such as `13.0` or
/// `Cuda compilation tools, release 13.2, V13.2.78`.
pub fn parse_cuda_major_minor(value: &str) -> (r: Option<(u32, u32)>)
    ensures
        r == cuda_major_minor(value@),
{
    let v = chars_of(value);
    assert(v@.skip(0) =~= value@);
    cuda_major_minor_from(v.as_slice(), 0)
}

/// The first `\n`-separated line whose text after leading whitespace starts
/// with `cuda`.
pub open spec fn first_cuda_line(s: Seq<char>) -> Option<Seq<char>>
    decreases s.len(),
{
    let end = index_of_char(s, '\n');
    let line = s.take(end as int);
    if starts_with_seq(line.skip(trim_start_len(line) as int), "cuda"@) {
        Some(line)
    } else if end < s.len() {
        first_cuda_line(s.skip(end as int + 1))
    } else {
        None
    }
}

/// The CUDA version that torch's `version.py` declares: the first line that
/// starts with `cuda`, read as `major.minor`.
pub open spec fn torch_cuda_version(text: Seq<char>) -> Option<(u32, u32)> {
    match first_cuda_line(text) {
        Some(line) => cuda_major_minor(line),
        None => None,
    }
}

/// The CUDA version in the text of torch's `version.py`.
pub fn torch_cuda_version_from_text(text: &str) -> (r: Option<(u32, u32)>)
    ensures
        r == torch_cuda_version(text@),
{
    let v = chars_of(text);
    let n = v.len();
    let mut start: usize = 0;
    assert(v@.skip(0) =~= text@);
    loop
        invariant
            start <= n,
            n == v@.len(),
            torch_cuda_version(text@) == torch_cuda_version(v@.skip(start as int)),
        decreases n - start,
    {
        let ghost s = v@.skip(start as int);
        let mut end = start;
        while end < n && v[end] != '\n'
            invariant
                start <= end <= n,
                n == v@.len(),
                s == v@.skip(start as int),
                forall|j: int| 0 <= j < end - start ==> #[trigger] s[j] != '\n',
            decreases n - end,
        {
            end = end + 1;
        }
        proof {
            lemma_index_of_char(s, '\n', end - start);
        }
        let ghost line = s.take(end - start);
        assert(line =~= v@.subrange(start as int, end as int));
        let mut k = start;
        assert(line.skip(0) =~= line);
        while k < end && is_whitespace(v[k])
            invariant
                start <= k <= end <= n,
                n == v@.len(),
                line == v@.subrange(start as int, end as int),
                trim_start_len(line) == (k - start) + trim_start_len(line.skip(k - start)),
            decreases end - k,
        {
            assert(line.skip(k - start).drop_first() =~= line.skip(k - start + 1));
            k = k + 1;
        }
        proof {
            if k < end {
                assert(line.skip(k - start)[0] == v@[k as int]);
            }
            assert(trim_start_len(line.skip(k - start)) == 0);
            assert(line.skip(k - start) =~= v@.subrange(k as int, end as int));
        }
        let cuda = end - k >= 4 && v[k] == 'c' && v[k + 1] == 'u' && v[k + 2] == 'd' && v[k + 3]
            == 'a';
        proof {
            reveal_strlit("cuda");
            let t = line.skip(trim_start_len(line) as int);
            assert(t =~= v@.subrange(k as int, end as int));
            if cuda {
                assert(t.subrange(0, 4) =~= "cuda"@);
            } else if t.len() >= 4 {
                if t.subrange(0, 4) == "cuda"@ {
                    assert(t.subrange(0, 4)[0] == 'c');
                    assert(t.subrange(0, 4)[1] == 'u');
                    assert(t.subrange(0, 4)[2] == 'd');
                    assert(t.subrange(0, 4)[3] == 'a');
                }
            }
        }
        if cuda {
            let line_text = string_from_chars(v.as_slice(), start, end);
            let lv = chars_of(line_text.as_str());
            assert(lv@.skip(0) =~= lv@);
            return cuda_major_minor_from(lv.as_slice(), 0);
        }
        if end == n {
            return None;
        }
        proof {
            assert(s.skip(end - start + 1) =~= v@.skip(end + 1));
        }
        start = end + 1;
    }
}

/// The version after the first `release ` in `nvcc --version` output.
pub open spec fn nvcc_release_version(out: Seq<char>) -> Option<(u32, u32)> {
    if exists|i: int| occurs_at(out, "release "@, i) {
        let i = choose|i: int|
            occurs_at(out, "release "@, i) && forall|j: int|
                0 <= j < i ==> !occurs_at(out, "release "@, j);
        cuda_major_minor(out.skip(i + 8))
    } else {
        None
    }
}

/// Reads the toolkit version from `nvcc --version` output.
pub fn nvcc_version_from_output(out: &str) -> (r: Option<(u32, u32)>)
    ensures
        r == nvcc_release_version(out@),
{
    let v = chars_of(out);
    let pat = chars_of("release ");
    proof {
        reveal_strlit("release ");
        assert(pat@.len() == 8);
    }
    match find_chars(v.as_slice(), pat.as_slice()) {
        Some(i) => {
            proof {
                let c = choose|c: int|
                    occurs_at(out@, "release "@, c) && forall|j: int|
                        0 <= j < c ==> !occurs_at(out@, "release "@, j);
                if c < i {
                } else if c > i {
                    assert(!occurs_at(out@, "release "@, i as int));
                }
                assert(c == i);
                assert(occurs_at(v@, pat@, i as int));
                assert(i + 8 <= v@.len());
            }
            let n = v.len();
            assert(i + 8 <= n);
            cuda_major_minor_from(v.as_slice(), i + 8)
        },
        None => None,
    }
}

/// `v` with each run of equal neighbours kept once, as `Vec::dedup` leaves it.
pub open spec fn dedup_adjacent(v: Seq<Seq<char>>) -> Seq<Seq<char>>
    decreases v.len(),
{
    if v.len() <= 1 {
        v
    } else {
        let rest = dedup_adjacent(v.drop_last());
        if v.last() == v[v.len() - 2] {
            rest
        } else {
            rest.push(v.last())
        }
    }
}

/// The toolkit a worker uses: with no known runtime version, the first
/// candidate; otherwise the first candidate whose `nvcc` reports exactly the
/// runtime's version. `versions[i]` is what `nvcc` of `candidates[i]` reported.
pub open spec fn pick_cuda_home(
    candidates: Seq<Seq<char>>,
    versions: Seq<Option<(u32, u32)>>,
    runtime: Option<(u32, u32)>,
) -> Option<Seq<char>>
    decreases candidates.len(),
{
    if candidates.len() == 0 {
        None
    } else {
        match runtime {
            None => Some(candidates[0]),
            Some(rt) => if versions.len() > 0 && versions[0] == Some(rt) {
                Some(candidates[0])
            } else {
                pick_cuda_home(candidates.drop_first(), versions.drop_first(), runtime)
            },
        }
    }
}

/// Picks the toolkit among candidates that have `nvcc`, in order.
pub fn select_cuda_home(
    candidates: &Vec<String>,
    versions: &Vec<Option<(u32, u32)>>,
    runtime: Option<(u32, u32)>,
) -> (r: Option<String>)
    requires
        versions@.len() == candidates@.len(),
    ensures
        crate::artifact::opt_view(r) == pick_cuda_home(
            candidates@.map_values(|c: String| c@),
            versions@,
            runtime,
        ),
{
    let ghost cs = candidates@.map_values(|c: String| c@);
    let mut i: usize = 0;
    assert(cs.skip(0) =~= cs);
    assert(versions@.skip(0) =~= versions@);
    while i < candidates.len()
        invariant
            i <= candidates@.len(),
            versions@.len() == candidates@.len(),
            cs == candidates@.map_values(|c: String| c@),
            i > 0 ==> runtime is Some,
            pick_cuda_home(cs, versions@, runtime) == pick_cuda_home(
                cs.skip(i as int),
                versions@.skip(i as int),
                runtime,
            ),
        decreases candidates@.len() - i,
    {
        proof {
            assert(cs.skip(i as int).drop_first() =~= cs.skip(i + 1));
            assert(versions@.skip(i as int).drop_first() =~= versions@.skip(i + 1));
            assert(cs.skip(i as int)[0] == candidates@[i as int]@);
            assert(versions@.skip(i as int)[0] == versions@[i as int]);
        }
        match runtime {
            None => {
                return Some(candidates[i].clone());
            },
            Some(rt) => {
                let hit = match versions[i] {
                    Some(v) => v.0 == rt.0 && v.1 == rt.1,
                    None => false,
                };
                if hit {
                    return Some(candidates[i].clone());
                }
            },
        }
        i = i + 1;
    }
    proof {
        assert(cs.skip(i as int).len() == 0);
    }
    None
}

} // verus!

verus! {

/// Where a worker's CUDA toolkit comes from.
#[derive(Debug, PartialEq, Eq)]
pub enum CudaHomeSource {
    /// A variable names the toolkit: this one, or none where it lacks `bin/nvcc`.
    Named(Option<String>),
    /// No variable names one: it is looked for among the installed toolkits.
    Discover,
}

/// The toolkit a worker uses: the backend's own override, else `CUDA_HOME`.
/// A variable that is set decides alone: its directory where it holds
/// `bin/nvcc`, else none, with no fallback to the next place. Only where
/// neither is set are the installed toolkits searched.
pub open spec fn cuda_home_choice(
    backend_override: Option<Seq<char>>,
    override_has_nvcc: bool,
    cuda_home: Option<Seq<char>>,
    cuda_home_has_nvcc: bool,
) -> Option<Option<Seq<char>>> {
    match backend_override {
        Some(p) => Some(if override_has_nvcc { Some(p) } else { None }),
        None => match cuda_home {
            Some(p) => Some(if cuda_home_has_nvcc { Some(p) } else { None }),
            None => None,
        },
    }
}

/// Decides where a worker's CUDA toolkit comes from, given the backend's
/// override variable and `CUDA_HOME` where they are set, and whether each
/// holds `bin/nvcc`.
pub fn resolve_cuda_home(
    backend_override: Option<&str>,
    override_has_nvcc: bool,
    cuda_home: Option<&str>,
    cuda_home_has_nvcc: bool,
) -> (r: CudaHomeSource)
    ensures
        match cuda_home_choice(
            crate::config::opt_str_view(backend_override),
            override_has_nvcc,
            crate::config::opt_str_view(cuda_home),
            cuda_home_has_nvcc,
        ) {
            Some(named) => r matches CudaHomeSource::Named(n) && crate::artifact::opt_view(n) == named,
            None => r == CudaHomeSource::Discover,
        },
{
    match backend_override {
        Some(p) => CudaHomeSource::Named(if override_has_nvcc { Some(p.to_owned()) } else { None }),
        None => match cuda_home {
            Some(p) => CudaHomeSource::Named(if cuda_home_has_nvcc { Some(p.to_owned()) } else { None }),
            None => CudaHomeSource::Discover,
        },
    }
}

} // verus!
