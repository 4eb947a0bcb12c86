//! vLLM worker settings, execution reports and their checks.
use vstd::prelude::*;

use crate::artifact::opt_view;
use crate::config::{
    compilation_config_error, concat_str, kernel_backend_error, opt_as_str, opt_str_view,
    validate_vllm_compilation_config, validate_vllm_kernel_backend, LoadConfig,
};
use crate::error::{
    invalid_config, is_error_of, is_invalid_config, vllm_error, EngineError, MessageKind, Result,
};
use crate::text::{
    bool_text, bool_to_text, contains_seq, contains_str, debug_opt_str, debug_opt_str_text,
    debug_opt_u32, debug_opt_u32_text, decimal, lower_seq, parse_trimmed_u64, parse_u64,
    parse_u64_spec, str_eq, to_ascii_lower, trim_seq, u64_to_decimal,
};

verus! {

/// Step by which the GPU memory-utilization target backs off after an OOM.
pub const MEMORY_UTILIZATION_BACKOFF_STEP_PCT: u32 = 5;

/// The targets tried after `current`, each 5 points lower, never below `floor`.
pub open spec fn backoff_after(current: u32, floor: u32) -> Seq<Option<u32>>
    decreases current,
{
    if current > floor {
        let next = if current >= floor + 5 { (current - 5) as u32 } else { floor };
        seq![Some(next)] + backoff_after(next, floor)
    } else {
        Seq::empty()
    }
}

/// The first error that a memory-utilization target and floor raise, if any.
pub open spec fn utilization_error(target: Option<u32>, floor: Option<u32>) -> Option<Seq<char>> {
    match target {
        None => if floor is Some {
            Some("vLLM memory-utilization floor requires a target"@)
        } else {
            None
        },
        Some(t) => if t == 0 || t > 100 {
            Some("vLLM memory-utilization target must be between 1 and 100"@)
        } else {
            let f = match floor {
                Some(f) => f,
                None => t,
            };
            if f == 0 || f > t {
                Some("vLLM memory-utilization floor must be between 1 and the target"@)
            } else {
                None
            }
        },
    }
}

/// The load attempts: the target, then backing off in 5-point steps to the floor.
pub open spec fn utilization_attempts(target: Option<u32>, floor: Option<u32>) -> Seq<Option<u32>> {
    match target {
        None => seq![None],
        Some(t) => {
            let f = match floor {
                Some(f) => f,
                None => t,
            };
            seq![Some(t)] + backoff_after(t, f)
        },
    }
}

/// GPU memory-utilization targets to try, in order: the target first, then
/// lower by 5 points each time, ending exactly at the floor.
pub fn vllm_memory_utilization_attempts(target_pct: Option<u32>, floor_pct: Option<u32>) -> (r:
    Result<Vec<Option<u32>>>)
    ensures
        match utilization_error(target_pct, floor_pct) {
            Some(text) => is_invalid_config(r, text),
            None => r matches Ok(v) && v@ == utilization_attempts(target_pct, floor_pct),
        },
{
    let target = match target_pct {
        None => {
            if floor_pct.is_some() {
                return Err(invalid_config("vLLM memory-utilization floor requires a target"));
            }
            let mut v = Vec::new();
            v.push(None);
            assert(v@ =~= seq![None]);
            return Ok(v);
        },
        Some(t) => t,
    };
    if target == 0 || target > 100 {
        return Err(invalid_config("vLLM memory-utilization target must be between 1 and 100"));
    }
    let floor = match floor_pct {
        Some(f) => f,
        None => target,
    };
    if floor == 0 || floor > target {
        return Err(
            invalid_config("vLLM memory-utilization floor must be between 1 and the target"),
        );
    }
    let mut attempts: Vec<Option<u32>> = Vec::new();
    attempts.push(Some(target));
    let mut current = target;
    while current > floor
        invariant
            floor <= current <= target,
            seq![Some(target)] + backoff_after(target, floor) == attempts@ + backoff_after(
                current,
                floor,
            ),
        decreases current,
    {
        let next = if current - floor >= 5 { current - 5 } else { floor };
        proof {
            assert(backoff_after(current, floor) == seq![Some(next)] + backoff_after(next, floor));
            assert(attempts@ + (seq![Some(next)] + backoff_after(next, floor)) =~= attempts@.push(
                Some(next),
            ) + backoff_after(next, floor));
        }
        attempts.push(Some(next));
        current = next;
    }
    assert(attempts@ + backoff_after(current, floor) =~= attempts@);
    Ok(attempts)
}

/// Law: the attempts start at the target, fall by at most 5 points at each
/// step, strictly decrease, and end at the floor.
pub proof fn lemma_backoff_shape(current: u32, floor: u32)
    requires
        floor <= current,
    ensures
        ({
            let s = seq![Some(current)] + backoff_after(current, floor);
            &&& s.last() == Some(floor)
            &&& forall|i: int|
                0 <= i < s.len() - 1 ==> (#[trigger] s[i] matches Some(a) && s[i + 1] matches Some(
                    b,
                ) && b < a && a - b <= 5 && b >= floor)
        }),
    decreases current,
{
    let s = seq![Some(current)] + backoff_after(current, floor);
    if current > floor {
        let next = if current >= floor + 5 { (current - 5) as u32 } else { floor };
        lemma_backoff_shape(next, floor);
        let t = seq![Some(next)] + backoff_after(next, floor);
        assert(s =~= seq![Some(current)] + t);
        assert forall|i: int| 0 <= i < s.len() - 1 implies (#[trigger] s[i] matches Some(a) && s[i
            + 1] matches Some(b) && b < a && a - b <= 5 && b >= floor) by {
            if i > 0 {
                assert(s[i] == t[i - 1]);
                assert(s[i + 1] == t[i]);
            }
        }
    } else {
        assert(s =~= seq![Some(current)]);
    }
}

/// `MAX_JOBS` style settings: a positive `usize`.
pub open spec fn build_jobs(s: Seq<char>) -> Option<usize> {
    match parse_u64_spec(s) {
        Some(n) => if n > 0 && n <= usize::MAX { Some(n as usize) } else { None },
        None => None,
    }
}

/// Parses a parallel build-job count; zero and non-numbers are rejected.
pub fn parse_build_jobs(value: &str) -> (r: Option<usize>)
    ensures
        r == build_jobs(value@),
{
    match parse_u64(value) {
        Some(n) => {
            if n > 0 && n <= usize::MAX as u64 {
                Some(n as usize)
            } else {
                None
            }
        },
        None => None,
    }
}

} // verus!

verus! {

/// Parallel build jobs when no setting names a count.
pub const DEFAULT_BUILD_JOBS: usize = 2;

/// The build-job count: the first of the vLLM setting and `MAX_JOBS` that
/// holds a positive integer, else the default of two.
pub open spec fn build_jobs_from(vllm_setting: Option<Seq<char>>, max_jobs: Option<Seq<char>>) -> usize {
    let first = match vllm_setting {
        Some(v) => build_jobs(v),
        None => None,
    };
    match first {
        Some(n) => n,
        None => match max_jobs {
            Some(v) => match build_jobs(v) {
                Some(n) => n,
                None => DEFAULT_BUILD_JOBS,
            },
            None => DEFAULT_BUILD_JOBS,
        },
    }
}

/// How many parallel build jobs vLLM may run, given the values of
/// `MAYHEM_VLLM_BUILD_JOBS` and `MAX_JOBS` where they are set.
pub fn vllm_build_jobs_from(vllm_setting: Option<&str>, max_jobs: Option<&str>) -> (r: usize)
    ensures
        r == build_jobs_from(opt_str_view(vllm_setting), opt_str_view(max_jobs)),
        r > 0,
{
    if let Some(v) = vllm_setting {
        if let Some(n) = parse_build_jobs(v) {
            return n;
        }
    }
    if let Some(v) = max_jobs {
        if let Some(n) = parse_build_jobs(v) {
            return n;
        }
    }
    DEFAULT_BUILD_JOBS
}

/// Seconds that a vLLM cancellation waits for acknowledgement by default.
pub const DEFAULT_CANCEL_TIMEOUT_SECS: u64 = 5;

pub open spec fn request_timeout_message() -> Seq<char> {
    "MAYHEM_VLLM_REQUEST_TIMEOUT_SECS must be a non-negative integer in seconds"@
}

/// Reads a request timeout override, in seconds: absent or zero means no
/// deadline; anything but a non-negative integer (surrounding whitespace
/// allowed) is rejected.
pub fn request_timeout_from(value: Option<&str>) -> (r: Result<Option<u64>>)
    ensures
        match value {
            None => r == Ok::<Option<u64>, EngineError>(None),
            Some(v) => match parse_u64_spec(trim_seq(v@)) {
                None => is_invalid_config(r, request_timeout_message()),
                Some(secs) => r == Ok::<Option<u64>, EngineError>(
                    if secs > 0 { Some(secs) } else { None },
                ),
            },
        },
{
    let v = match value {
        None => return Ok(None),
        Some(v) => v,
    };
    match parse_trimmed_u64(v) {
        None => Err(
            invalid_config(
                "MAYHEM_VLLM_REQUEST_TIMEOUT_SECS must be a non-negative integer in seconds",
            ),
        ),
        Some(secs) => Ok(
            if secs > 0 {
                Some(secs)
            } else {
                None
            },
        ),
    }
}

pub open spec fn trt_request_timeout_message() -> Seq<char> {
    "MAYHEM_TRTLLM_REQUEST_TIMEOUT_SECS must be a non-negative integer in seconds"@
}

/// Reads the TensorRT-LLM worker's request timeout override, in seconds:
/// absent or zero means no deadline; anything but a non-negative integer
/// (surrounding whitespace allowed) is rejected.
pub fn trt_request_timeout_from(value: Option<&str>) -> (r: Result<Option<u64>>)
    ensures
        match value {
            None => r == Ok::<Option<u64>, EngineError>(None),
            Some(v) => match parse_u64_spec(trim_seq(v@)) {
                None => is_invalid_config(r, trt_request_timeout_message()),
                Some(secs) => r == Ok::<Option<u64>, EngineError>(
                    if secs > 0 { Some(secs) } else { None },
                ),
            },
        },
{
    let v = match value {
        None => return Ok(None),
        Some(v) => v,
    };
    match parse_trimmed_u64(v) {
        None => Err(
            invalid_config(
                "MAYHEM_TRTLLM_REQUEST_TIMEOUT_SECS must be a non-negative integer in seconds",
            ),
        ),
        Some(secs) => Ok(
            if secs > 0 {
                Some(secs)
            } else {
                None
            },
        ),
    }
}

/// Reads a cancellation timeout override, in seconds: absent means 5;
/// anything but a positive integer is rejected.
pub fn cancel_timeout_from(value: Option<&str>) -> (r: Result<u64>)
    ensures
        match value {
            None => r == Ok::<u64, EngineError>(DEFAULT_CANCEL_TIMEOUT_SECS),
            Some(v) => match parse_u64_spec(trim_seq(v@)) {
                None => is_invalid_config(
                    r,
                    "MAYHEM_VLLM_CANCEL_TIMEOUT_SECS must be a positive integer in seconds"@,
                ),
                Some(secs) => if secs == 0 {
                    is_invalid_config(r, "MAYHEM_VLLM_CANCEL_TIMEOUT_SECS must be positive"@)
                } else {
                    r == Ok::<u64, EngineError>(secs)
                },
            },
        },
{
    let v = match value {
        None => return Ok(DEFAULT_CANCEL_TIMEOUT_SECS),
        Some(v) => v,
    };
    match parse_trimmed_u64(v) {
        None => Err(
            invalid_config("MAYHEM_VLLM_CANCEL_TIMEOUT_SECS must be a positive integer in seconds"),
        ),
        Some(secs) => {
            if secs == 0 {
                Err(invalid_config("MAYHEM_VLLM_CANCEL_TIMEOUT_SECS must be positive"))
            } else {
                Ok(secs)
            }
        },
    }
}

/// A vLLM backend message that reports running out of memory.
pub open spec fn is_oom_message(m: Seq<char>) -> bool {
    let l = lower_seq(m);
    ||| contains_seq(l, "out of memory"@)
    ||| contains_seq(l, "cuda oom"@)
    ||| contains_seq(l, "cannot allocate memory"@)
    ||| contains_seq(l, "not enough memory"@)
}

/// Whether a load error is a vLLM out-of-memory failure (and so worth a
/// retry at a lower memory target).
pub fn is_vllm_oom_error(error: &EngineError) -> (b: bool)
    ensures
        b == (error matches EngineError::Vllm(m) && is_oom_message(m@)),
{
    let message = match error {
        EngineError::Vllm(m) => m,
        _ => return false,
    };
    let lower = to_ascii_lower(message.as_str());
    contains_str(lower.as_str(), "out of memory") || contains_str(lower.as_str(), "cuda oom")
        || contains_str(lower.as_str(), "cannot allocate memory") || contains_str(
        lower.as_str(),
        "not enough memory",
    )
}

/// Any explicit vLLM execution property (topology aside) is set.
pub open spec fn explicit_execution(c: LoadConfig) -> bool {
    ||| c.vllm_enforce_eager is Some
    ||| c.vllm_compilation_mode is Some
    ||| c.vllm_cudagraph_mode is Some
    ||| c.vllm_linear_backend is Some
    ||| c.vllm_moe_backend is Some
    ||| c.vllm_mtp_num_speculative_tokens is Some
}

pub fn has_explicit_vllm_execution_properties(config: &LoadConfig) -> (b: bool)
    ensures
        b == explicit_execution(*config),
{
    config.vllm_enforce_eager.is_some() || config.vllm_compilation_mode.is_some()
        || config.vllm_cudagraph_mode.is_some() || config.vllm_linear_backend.is_some()
        || config.vllm_moe_backend.is_some() || config.vllm_mtp_num_speculative_tokens.is_some()
}

/// One tensor-parallel rank's view of the compiled engine.
#[derive(Clone, Debug, PartialEq, Eq)]
pub struct WorkerExecutionRank {
    pub rank: u32,
    pub local_rank: u32,
    pub world_size: u32,
    pub pid: u64,
    pub compilation_mode: u32,
    pub cudagraph_mode: String,
}

/// Observations gathered from every rank of a vLLM engine.
#[derive(Clone, Debug, PartialEq, Eq)]
pub struct WorkerExecutionObservation {
    pub source: String,
    pub rank_count: u32,
    pub world_size: u32,
    pub ranks: Vec<WorkerExecutionRank>,
}

/// Execution properties that a vLLM worker reports after loading.
#[derive(Clone, Debug, PartialEq, Eq)]
pub struct WorkerExecutionInfo {
    pub vllm_enforce_eager: Option<bool>,
    pub vllm_compilation_mode: Option<u32>,
    pub vllm_cudagraph_mode: Option<String>,
    pub vllm_linear_backend: Option<String>,
    pub vllm_moe_backend: Option<String>,
    pub vllm_mtp_num_speculative_tokens: Option<u32>,
    pub worker_execution_observation: Option<WorkerExecutionObservation>,
}

impl Default for WorkerExecutionInfo {
    fn default() -> (r: Self)
        ensures
            r.vllm_enforce_eager is None,
            r.vllm_compilation_mode is None,
            r.vllm_cudagraph_mode is None,
            r.vllm_linear_backend is None,
            r.vllm_moe_backend is None,
            r.vllm_mtp_num_speculative_tokens is None,
            r.worker_execution_observation is None,
    {
        WorkerExecutionInfo {
            vllm_enforce_eager: None,
            vllm_compilation_mode: None,
            vllm_cudagraph_mode: None,
            vllm_linear_backend: None,
            vllm_moe_backend: None,
            vllm_mtp_num_speculative_tokens: None,
            worker_execution_observation: None,
        }
    }
}

pub open spec fn observation_message() -> Seq<char> {
    "vLLM explicit compilation profile requires complete, consistent worker execution observations"@
}

/// Tensor-parallel world size the configuration asks for (at least one).
pub open spec fn expected_world_size(c: LoadConfig) -> u32 {
    let w = match c.vllm_tensor_parallel {
        Some(w) => w,
        None => 1u32,
    };
    if w < 1 { 1 } else { w }
}

/// One rank agrees with the world size and the reported profile.
pub open spec fn rank_ok(r: WorkerExecutionRank, world: u32, e: WorkerExecutionInfo) -> bool {
    &&& r.rank < world
    &&& r.local_rank < world
    &&& r.world_size == world
    &&& r.pid != 0
    &&& e.vllm_compilation_mode == Some(r.compilation_mode)
    &&& opt_view(e.vllm_cudagraph_mode) == Some(r.cudagraph_mode@)
}

/// The observation covers each rank of the world exactly once, all agreeing
/// with the reported compilation profile.
pub open spec fn observation_ok(c: LoadConfig, e: WorkerExecutionInfo) -> bool {
    match e.worker_execution_observation {
        None => false,
        Some(o) => {
            let world = expected_world_size(c);
            &&& o.source@ == "worker_extension_cls.collective_rpc"@
            &&& o.world_size == world
            &&& o.rank_count == world
            &&& o.ranks@.len() == world
            &&& forall|i: int| 0 <= i < o.ranks@.len() ==> rank_ok(#[trigger] o.ranks@[i], world, e)
            &&& forall|i: int, j: int|
                0 <= i < j < o.ranks@.len() ==> (#[trigger] o.ranks@[i]).rank != (
                #[trigger] o.ranks@[j]).rank
        },
    }
}

/// The observation is only checked when a compilation mode or CUDA graph
/// mode was requested.
pub open spec fn observation_error(c: LoadConfig, e: WorkerExecutionInfo) -> bool {
    (c.vllm_compilation_mode is Some || c.vllm_cudagraph_mode is Some) && !observation_ok(c, e)
}

fn opt_string_eq_str(o: &Option<String>, s: &str) -> (b: bool)
    ensures
        b == (opt_view(*o) == Some(s@)),
{
    match o {
        Some(v) => str_eq(v.as_str(), s),
        None => false,
    }
}

/// Checks a worker's per-rank observations against the requested world size
/// and its own reported compilation profile.
pub fn validate_vllm_worker_observation(config: &LoadConfig, execution: &WorkerExecutionInfo) -> (r:
    Result<()>)
    ensures
        if observation_error(*config, *execution) {
            is_error_of(r, MessageKind::Vllm, observation_message())
        } else {
            r is Ok
        },
{
    if config.vllm_compilation_mode.is_none() && config.vllm_cudagraph_mode.is_none() {
        return Ok(());
    }
    let observation = match &execution.worker_execution_observation {
        Some(o) => o,
        None => return Err(observation_failure()),
    };
    let world = match config.vllm_tensor_parallel {
        Some(w) => if w < 1 {
            1
        } else {
            w
        },
        None => 1,
    };
    if !str_eq(observation.source.as_str(), "worker_extension_cls.collective_rpc")
        || observation.world_size != world || observation.rank_count != world
        || observation.ranks.len() != world as usize {
        return Err(observation_failure());
    }
    let mut seen: Vec<bool> = Vec::new();
    let mut k: usize = 0;
    while k < observation.ranks.len()
        invariant
            k <= observation.ranks@.len(),
            seen@.len() == k,
            forall|j: int| 0 <= j < k ==> !seen@[j],
        decreases observation.ranks@.len() - k,
    {
        seen.push(false);
        k = k + 1;
    }
    let n = observation.ranks.len();
    let mut i: usize = 0;
    while i < n
        invariant
            n == observation.ranks@.len(),
            n == world,
            world == expected_world_size(*config),
            config.vllm_compilation_mode is Some || config.vllm_cudagraph_mode is Some,
            execution.worker_execution_observation == Some(*observation),
            observation.source@ == "worker_extension_cls.collective_rpc"@,
            observation.world_size == world,
            observation.rank_count == world,
            seen@.len() == n,
            i <= n,
            forall|j: int| 0 <= j < i ==> rank_ok(#[trigger] observation.ranks@[j], world, *execution),
            forall|a: int, b: int|
                0 <= a < b < i ==> (#[trigger] observation.ranks@[a]).rank != (
                #[trigger] observation.ranks@[b]).rank,
            forall|v: int|
                0 <= v < n ==> (seen@[v] <==> exists|j: int|
                    0 <= j < i && (#[trigger] observation.ranks@[j]).rank == v),
        decreases n - i,
    {
        let rank = &observation.ranks[i];
        let mode_ok = match execution.vllm_compilation_mode {
            Some(m) => m == rank.compilation_mode,
            None => false,
        };
        if rank.rank >= world || rank.local_rank >= world || rank.world_size != world || rank.pid
            == 0 || !mode_ok || !opt_string_eq_str(
            &execution.vllm_cudagraph_mode,
            rank.cudagraph_mode.as_str(),
        ) {
            return Err(observation_failure());
        }
        let idx = rank.rank as usize;
        if seen[idx] {
            proof {
                let j = choose|j: int| 0 <= j < i && (#[trigger] observation.ranks@[j]).rank == idx;
                assert(observation.ranks@[j].rank == observation.ranks@[i as int].rank);
            }
            return Err(observation_failure());
        }
        seen.set(idx, true);
        i = i + 1;
    }
    Ok(())
}

fn observation_failure() -> (e: EngineError)
    ensures
        e matches EngineError::Vllm(m) && m@ == observation_message(),
{
    EngineError::Vllm(
        "vLLM explicit compilation profile requires complete, consistent worker execution observations".to_owned(),
    )
}

} // verus!

verus! {

/// A failure message and the kind of error that carries it.
pub type Failure = (MessageKind, Seq<char>);

/// The first problem with one reported kernel backend: a malformed name, or
/// a missing or different value where the configuration pinned one.
pub open spec fn kernel_report_error(
    name: Seq<char>,
    expected: Option<Seq<char>>,
    actual: Option<Seq<char>>,
) -> Option<Failure> {
    match kernel_backend_error("reported "@ + name, actual) {
        Some(t) => Some((MessageKind::Config, t)),
        None => match expected {
            None => None,
            Some(x) => match actual {
                None => Some(
                    (MessageKind::Vllm, "vLLM worker did not report effective "@ + name),
                ),
                Some(a) => if a == x {
                    None
                } else {
                    Some(
                        (
                            MessageKind::Vllm,
                            "vLLM worker execution mismatch for "@ + name + ": expected "@ + x
                                + ", got "@ + a,
                        ),
                    )
                },
            },
        },
    }
}

/// The first difference between the configuration and a worker's report of
/// the eager flag, compilation mode and CUDA graph mode.
pub open spec fn compile_report_error(c: LoadConfig, e: WorkerExecutionInfo) -> Option<Failure> {
    match e.vllm_enforce_eager {
        None => Some(
            (MessageKind::Vllm, "vLLM worker did not report effective vllm_enforce_eager"@),
        ),
        Some(ee) => {
            let expected = match c.vllm_enforce_eager {
                Some(x) => x,
                None => true,
            };
            if ee != expected {
                Some(
                    (
                        MessageKind::Vllm,
                        "vLLM worker execution mismatch for vllm_enforce_eager: expected "@
                            + bool_text(expected) + ", got "@ + bool_text(ee),
                    ),
                )
            } else {
                match compilation_config_error(
                    Some(ee),
                    e.vllm_compilation_mode,
                    opt_view(e.vllm_cudagraph_mode),
                ) {
                    Some(t) => Some((MessageKind::Config, t)),
                    None => if c.vllm_compilation_mode is Some && e.vllm_compilation_mode
                        != c.vllm_compilation_mode {
                        Some(
                            (
                                MessageKind::Vllm,
                                "vLLM worker execution mismatch for vllm_compilation_mode: expected "@
                                    + decimal(c.vllm_compilation_mode.unwrap() as nat)
                                    + ", got "@ + debug_opt_u32(e.vllm_compilation_mode),
                            ),
                        )
                    } else if c.vllm_cudagraph_mode is Some && opt_view(e.vllm_cudagraph_mode)
                        != opt_view(c.vllm_cudagraph_mode) {
                        Some(
                            (
                                MessageKind::Vllm,
                                "vLLM worker execution mismatch for vllm_cudagraph_mode: expected "@
                                    + c.vllm_cudagraph_mode.unwrap()@ + ", got "@
                                    + debug_opt_str(opt_view(e.vllm_cudagraph_mode)),
                            ),
                        )
                    } else {
                        None
                    },
                }
            }
        },
    }
}

/// The first problem with a worker's execution report, in the order the
/// checks run; `None` when the report matches the configuration.
pub open spec fn execution_report_error(c: LoadConfig, e: Option<WorkerExecutionInfo>) -> Option<
    Failure,
> {
    if !explicit_execution(c) {
        None
    } else {
        match e {
            None => Some(
                (MessageKind::Vllm, "vLLM worker did not report effective execution properties"@),
            ),
            Some(e) => match compile_report_error(c, e) {
                Some(f) => Some(f),
                None => if observation_error(c, e) {
                    Some((MessageKind::Vllm, observation_message()))
                } else {
                    match kernel_report_error(
                        "vllm_linear_backend"@,
                        opt_view(c.vllm_linear_backend),
                        opt_view(e.vllm_linear_backend),
                    ) {
                        Some(f) => Some(f),
                        None => match kernel_report_error(
                            "vllm_moe_backend"@,
                            opt_view(c.vllm_moe_backend),
                            opt_view(e.vllm_moe_backend),
                        ) {
                            Some(f) => Some(f),
                            None => if e.vllm_mtp_num_speculative_tokens
                                != c.vllm_mtp_num_speculative_tokens {
                                Some(
                                    (
                                        MessageKind::Vllm,
                                        "vLLM worker execution mismatch for vllm_mtp_num_speculative_tokens: expected "@
                                            + debug_opt_u32(c.vllm_mtp_num_speculative_tokens)
                                            + ", got "@ + debug_opt_u32(
                                            e.vllm_mtp_num_speculative_tokens,
                                        ),
                                    ),
                                )
                            } else {
                                None
                            },
                        },
                    }
                },
            },
        }
    }
}

/// `r` fails as `f` says, or succeeds where there is no failure.
pub open spec fn fails_as(r: Result<()>, f: Option<Failure>) -> bool {
    match f {
        Some((kind, text)) => is_error_of(r, kind, text),
        None => r is Ok,
    }
}

pub open spec fn opt_info(o: Option<&WorkerExecutionInfo>) -> Option<WorkerExecutionInfo> {
    match o {
        Some(e) => Some(*e),
        None => None,
    }
}

fn check_kernel_report(name: &str, expected: Option<&str>, actual: Option<&str>) -> (r: Result<()>)
    ensures
        fails_as(r, kernel_report_error(name@, opt_str_view(expected), opt_str_view(actual))),
{
    let field = concat_str("reported ", name);
    validate_vllm_kernel_backend(field.as_str(), actual)?;
    if let Some(x) = expected {
        let a = match actual {
            Some(a) => a,
            None => {
                return Err(
                    vllm_error(concat_str("vLLM worker did not report effective ", name)),
                );
            },
        };
        if !str_eq(a, x) {
            let m = concat_str("vLLM worker execution mismatch for ", name);
            let m = concat_str(m.as_str(), ": expected ");
            let m = concat_str(m.as_str(), x);
            let m = concat_str(m.as_str(), ", got ");
            let m = concat_str(m.as_str(), a);
            return Err(vllm_error(m));
        }
    }
    Ok(())
}

fn check_compile_report(config: &LoadConfig, execution: &WorkerExecutionInfo) -> (r: Result<()>)
    ensures
        fails_as(r, compile_report_error(*config, *execution)),
{
    let ee = match execution.vllm_enforce_eager {
        Some(b) => b,
        None => {
            return Err(
                vllm_error("vLLM worker did not report effective vllm_enforce_eager".to_owned()),
            );
        },
    };
    let expected = match config.vllm_enforce_eager {
        Some(x) => x,
        None => true,
    };
    if ee != expected {
        let m = concat_str(
            "vLLM worker execution mismatch for vllm_enforce_eager: expected ",
            bool_to_text(expected),
        );
        let m = concat_str(m.as_str(), ", got ");
        let m = concat_str(m.as_str(), bool_to_text(ee));
        return Err(vllm_error(m));
    }
    validate_vllm_compilation_config(
        Some(ee),
        execution.vllm_compilation_mode,
        opt_as_str(&execution.vllm_cudagraph_mode),
    )?;
    if let Some(x) = config.vllm_compilation_mode {
        let same = match execution.vllm_compilation_mode {
            Some(m) => m == x,
            None => false,
        };
        if !same {
            let m = concat_str(
                "vLLM worker execution mismatch for vllm_compilation_mode: expected ",
                u64_to_decimal(x as u64).as_str(),
            );
            let m = concat_str(m.as_str(), ", got ");
            let m = concat_str(m.as_str(), debug_opt_u32_text(execution.vllm_compilation_mode).as_str());
            return Err(vllm_error(m));
        }
    }
    if let Some(x) = &config.vllm_cudagraph_mode {
        let same = match &execution.vllm_cudagraph_mode {
            Some(g) => str_eq(g.as_str(), x.as_str()),
            None => false,
        };
        if !same {
            let m = concat_str(
                "vLLM worker execution mismatch for vllm_cudagraph_mode: expected ",
                x.as_str(),
            );
            let m = concat_str(m.as_str(), ", got ");
            let m = concat_str(
                m.as_str(),
                debug_opt_str_text(opt_as_str(&execution.vllm_cudagraph_mode)).as_str(),
            );
            return Err(vllm_error(m));
        }
    }
    Ok(())
}

/// Checks what a vLLM worker reports it loaded against the explicitly
/// requested execution properties; a configuration without explicit
/// properties accepts any report.
pub fn validate_vllm_execution_report(
    config: &LoadConfig,
    execution: Option<&WorkerExecutionInfo>,
) -> (r: Result<()>)
    ensures
        fails_as(r, execution_report_error(*config, opt_info(execution))),
{
    if !has_explicit_vllm_execution_properties(config) {
        return Ok(());
    }
    let execution = match execution {
        Some(e) => e,
        None => {
            return Err(
                vllm_error(
                    "vLLM worker did not report effective execution properties".to_owned(),
                ),
            );
        },
    };
    check_compile_report(config, execution)?;
    validate_vllm_worker_observation(config, execution)?;
    check_kernel_report(
        "vllm_linear_backend",
        opt_as_str(&config.vllm_linear_backend),
        opt_as_str(&execution.vllm_linear_backend),
    )?;
    check_kernel_report(
        "vllm_moe_backend",
        opt_as_str(&config.vllm_moe_backend),
        opt_as_str(&execution.vllm_moe_backend),
    )?;
    if execution.vllm_mtp_num_speculative_tokens != config.vllm_mtp_num_speculative_tokens {
        let m = concat_str(
            "vLLM worker execution mismatch for vllm_mtp_num_speculative_tokens: expected ",
            debug_opt_u32_text(config.vllm_mtp_num_speculative_tokens).as_str(),
        );
        let m = concat_str(m.as_str(), ", got ");
        let m = concat_str(
            m.as_str(),
            debug_opt_u32_text(execution.vllm_mtp_num_speculative_tokens).as_str(),
        );
        return Err(vllm_error(m));
    }
    Ok(())
}

} // verus!

verus! {

/// After a failed load attempt: the next memory-utilization target is tried
/// only when vLLM ran out of memory and a target is left.
pub fn retry_vllm_load_attempt(out_of_memory: bool, attempt: usize, attempts: usize) -> (r: bool)
    ensures
        r == (out_of_memory && attempt + 1 < attempts),
{
    out_of_memory && attempt < attempts && attempts - attempt > 1
}

/// The context length the model was trained for, as the worker reported it,
/// or the configured context size where it reported none (zero).
pub fn reported_ctx_train(reported: u32, ctx_size: u32) -> (r: u32)
    ensures
        r == if reported == 0 { ctx_size } else { reported },
{
    if reported == 0 {
        ctx_size
    } else {
        reported
    }
}

/// How many concurrent generations a loaded shared vLLM worker serves.
#[derive(Clone, Copy, Debug, PartialEq, Eq)]
pub struct VllmCapacity {
    /// Generations admitted at once.
    pub execution: u32,
    /// The scheduler's sequence capacity.
    pub scheduler: u32,
    /// How many full contexts the runtime KV cache holds, where reported.
    pub full_context: Option<u64>,
}

pub open spec fn min_u64(a: u64, b: u64) -> u64 {
    if a < b {
        a
    } else {
        b
    }
}

/// The capacity of a shared worker whose KV cache holds `kv_tokens` tokens
/// (where reported), or the message of the refusal: the requested
/// concurrency, bounded by the scheduler and by the full contexts the cache
/// holds, and at least 1. Concurrency needs a reported cache, and a cache
/// must hold at least one full context.
pub open spec fn vllm_capacity(c: LoadConfig, kv_tokens: Option<u64>) -> std::result::Result<VllmCapacity, Seq<char>> {
    let scheduler = crate::config::effective_max_num_seqs(c);
    let requested: u32 = match c.vllm_concurrent_generation_capacity {
        Some(k) => if k == 0 { 1 } else { k },
        None => 1,
    };
    let full: Option<u64> = match kv_tokens {
        Some(t) => Some((t / (c.ctx_size as u64)) as u64),
        None => None,
    };
    if requested > 1 && full is None {
        Err("vLLM did not report runtime KV token capacity; independent generation remains unavailable"@)
    } else if full == Some(0u64) {
        Err("vLLM runtime KV capacity of "@ + decimal(kv_tokens->0 as nat) + " tokens cannot serve ctx_size="@
            + decimal(c.ctx_size as nat))
    } else {
        let bounded = min_u64(min_u64(requested as u64, scheduler as u64), match full {
            Some(f) => f,
            None => 1,
        });
        Ok(VllmCapacity { execution: (if bounded == 0 { 1 } else { bounded }) as u32, scheduler, full_context: full })
    }
}

/// Decides the concurrency of a loaded shared vLLM worker from the KV cache
/// size it reported.
pub fn vllm_execution_capacity(config: &LoadConfig, kv_tokens: Option<u64>) -> (r: Result<VllmCapacity>)
    requires
        config.ctx_size > 0,
    ensures
        match vllm_capacity(*config, kv_tokens) {
            Ok(c) => r == Ok::<VllmCapacity, EngineError>(c),
            Err(m) => is_invalid_config(r, m),
        },
{
    let scheduler = crate::config::effective_vllm_max_num_seqs(config);
    let requested: u32 = match config.vllm_concurrent_generation_capacity {
        Some(k) => if k == 0 { 1 } else { k },
        None => 1,
    };
    let full: Option<u64> = match kv_tokens {
        Some(t) => Some(t / (config.ctx_size as u64)),
        None => None,
    };
    if requested > 1 && full.is_none() {
        return Err(invalid_config(
            "vLLM did not report runtime KV token capacity; independent generation remains unavailable",
        ));
    }
    if full == Some(0u64) {
        let tokens = match kv_tokens {
            Some(t) => t,
            None => 0,
        };
        let a = concat_str("vLLM runtime KV capacity of ", u64_to_decimal(tokens).as_str());
        let b = concat_str(a.as_str(), " tokens cannot serve ctx_size=");
        return Err(EngineError::InvalidConfig(concat_str(b.as_str(), u64_to_decimal(config.ctx_size as u64).as_str())));
    }
    let mut bounded: u64 = requested as u64;
    if (scheduler as u64) < bounded {
        bounded = scheduler as u64;
    }
    let cap: u64 = match full {
        Some(f) => f,
        None => 1,
    };
    if cap < bounded {
        bounded = cap;
    }
    if bounded == 0 {
        bounded = 1;
    }
    Ok(VllmCapacity { execution: bounded as u32, scheduler, full_context: full })
}

/// The shape of a pool of isolated vLLM workers: how many, the memory limit
/// of each (the total split evenly) and their address-space limit.
#[derive(Clone, Copy, Debug, PartialEq, Eq)]
pub struct IsolatedPoolPlan {
    pub workers: u32,
    pub child_memory_limit: Option<u64>,
    pub address_space_limit: u64,
}

/// Plans a pool of isolated vLLM workers from the load configuration.
pub fn isolated_vllm_pool_plan(config: &LoadConfig) -> (r: Result<IsolatedPoolPlan>)
    ensures
        config.vllm_concurrent_generation_capacity is None ==> is_invalid_config(
            r,
            "isolated vLLM worker count is missing"@,
        ),
        config.vllm_concurrent_generation_capacity is Some
            && config.vllm_worker_address_space_limit_bytes is None ==> is_invalid_config(
            r,
            "isolated vLLM address-space limit is missing"@,
        ),
        config.vllm_concurrent_generation_capacity == Some(0u32)
            && config.vllm_worker_address_space_limit_bytes is Some ==> is_invalid_config(
            r,
            "isolated vLLM requires at least one worker"@,
        ),
        match (config.vllm_concurrent_generation_capacity, config.vllm_worker_address_space_limit_bytes) {
            (Some(n), Some(a)) => n > 0 ==> r == Ok::<IsolatedPoolPlan, EngineError>(IsolatedPoolPlan {
                workers: n,
                child_memory_limit: match config.memory_limit_bytes {
                    Some(total) => Some((total / (n as u64)) as u64),
                    None => None,
                },
                address_space_limit: a,
            }),
            _ => true,
        },
{
    let count = match config.vllm_concurrent_generation_capacity {
        None => return Err(invalid_config("isolated vLLM worker count is missing")),
        Some(n) => n,
    };
    let address_space_limit = match config.vllm_worker_address_space_limit_bytes {
        None => return Err(invalid_config("isolated vLLM address-space limit is missing")),
        Some(a) => a,
    };
    if count == 0 {
        return Err(invalid_config("isolated vLLM requires at least one worker"));
    }
    let child_memory_limit = match config.memory_limit_bytes {
        Some(total) => Some(total / (count as u64)),
        None => None,
    };
    Ok(IsolatedPoolPlan { workers: count, child_memory_limit, address_space_limit })
}

/// What one isolated worker reported on load decides: its full-context
/// capacity, or the refusal. The worker must report a KV cache that holds a
/// full context, and the same vocabulary and training context as the first
/// worker of the pool.
pub open spec fn isolated_worker_result(
    index: nat,
    ctx_size: u32,
    kv_tokens: Option<u64>,
    first: Option<(i32, u32)>,
    reported: (i32, u32),
) -> std::result::Result<u64, (bool, Seq<char>)> {
    match kv_tokens {
        None => Err((true, "isolated vLLM worker "@ + decimal(index) + " did not report runtime KV token capacity"@)),
        Some(t) => if t < ctx_size {
            Err((true, "isolated vLLM worker "@ + decimal(index) + " runtime KV capacity of "@ + decimal(t as nat)
                + " tokens cannot serve ctx_size="@ + decimal(ctx_size as nat)))
        } else if first matches Some(f) && f != reported {
            Err((false, "isolated vLLM worker "@ + decimal(index) + " reported inconsistent model metadata"@))
        } else {
            Ok((t / (ctx_size as u64)) as u64)
        },
    }
}

/// Checks the load report of isolated worker `index`: `kv_tokens` is its
/// KV cache size, `reported` its vocabulary size and training context, and
/// `first` those of the pool's first worker. Gives its full-context capacity.
/// Configuration refusals are `InvalidConfig`; inconsistent metadata is a
/// vLLM error.
pub fn check_isolated_worker(
    index: usize,
    ctx_size: u32,
    kv_tokens: Option<u64>,
    first: Option<(i32, u32)>,
    reported: (i32, u32),
) -> (r: Result<u64>)
    requires
        ctx_size > 0,
    ensures
        match isolated_worker_result(index as nat, ctx_size, kv_tokens, first, reported) {
            Ok(n) => r == Ok::<u64, EngineError>(n),
            Err((true, m)) => is_invalid_config(r, m),
            Err((false, m)) => r matches Err(EngineError::Vllm(e)) && e@ == m,
        },
{
    let head = concat_str("isolated vLLM worker ", u64_to_decimal(index as u64).as_str());
    let tokens = match kv_tokens {
        None => {
            return Err(EngineError::InvalidConfig(
                concat_str(head.as_str(), " did not report runtime KV token capacity"),
            ));
        },
        Some(t) => t,
    };
    if tokens < ctx_size as u64 {
        let a = concat_str(head.as_str(), " runtime KV capacity of ");
        let b = concat_str(a.as_str(), u64_to_decimal(tokens).as_str());
        let c = concat_str(b.as_str(), " tokens cannot serve ctx_size=");
        return Err(EngineError::InvalidConfig(concat_str(c.as_str(), u64_to_decimal(ctx_size as u64).as_str())));
    }
    if let Some(f) = first {
        if f.0 != reported.0 || f.1 != reported.1 {
            return Err(EngineError::Vllm(concat_str(head.as_str(), " reported inconsistent model metadata")));
        }
    }
    Ok(tokens / (ctx_size as u64))
}

/// Folds a worker's batch-invariance report into the pool's: any `false`
/// makes the pool `false`; all `true` keeps it `true`; otherwise unknown.
pub fn combine_batch_invariant(pool: Option<bool>, worker: Option<bool>) -> (r: Option<bool>)
    ensures
        r == if pool == Some(false) || worker == Some(false) {
            Some(false)
        } else if pool == Some(true) && worker == Some(true) {
            Some(true)
        } else {
            None::<bool>
        },
{
    match (pool, worker) {
        (Some(false), _) | (_, Some(false)) => Some(false),
        (Some(true), Some(true)) => Some(true),
        _ => None,
    }
}

/// Where vLLM's caches live: the cache-directory override, else the
/// configured cache directory, else `cache/vllm` under the Mayhem home,
/// else `.mayhem/cache/vllm` under the user's home, else
/// `mayhem-vllm-cache` in the temporary directory.
pub open spec fn vllm_cache_root_for(
    env_override: Option<Seq<char>>,
    configured: Option<Seq<char>>,
    mayhem_home: Option<Seq<char>>,
    home: Option<Seq<char>>,
    temp_dir: Seq<char>,
) -> Seq<char> {
    crate::worker_env::worker_cache_root_for("vllm"@, env_override, configured, mayhem_home, home, temp_dir)
}

/// Chooses vLLM's cache root from the places that may name it.
pub fn vllm_cache_root(
    env_override: Option<&str>,
    configured: Option<&str>,
    mayhem_home: Option<&str>,
    home: Option<&str>,
    temp_dir: &str,
) -> (r: String)
    ensures
        r@ == vllm_cache_root_for(
            opt_str_view(env_override),
            opt_str_view(configured),
            opt_str_view(mayhem_home),
            opt_str_view(home),
            temp_dir@,
        ),
{
    crate::worker_env::worker_cache_root(
        crate::worker_env::WorkerKind::Vllm,
        env_override,
        configured,
        mayhem_home,
        home,
        temp_dir,
    )
}

/// A replacement worker's rank matches the loaded one: the same position
/// and settings; process ids are compared only where the replacement
/// reported none (0), since a fresh process has a fresh id.
pub open spec fn rank_matches(actual: WorkerExecutionRank, expected: WorkerExecutionRank) -> bool {
    &&& actual.rank == expected.rank
    &&& actual.local_rank == expected.local_rank
    &&& actual.world_size == expected.world_size
    &&& (actual.pid == 0 ==> expected.pid == 0)
    &&& actual.compilation_mode == expected.compilation_mode
    &&& actual.cudagraph_mode@ == expected.cudagraph_mode@
}

pub open spec fn observation_matches(a: WorkerExecutionObservation, e: WorkerExecutionObservation) -> bool {
    &&& a.source@ == e.source@
    &&& a.rank_count == e.rank_count
    &&& a.world_size == e.world_size
    &&& a.ranks@.len() == e.ranks@.len()
    &&& forall|i: int| 0 <= i < a.ranks@.len() ==> rank_matches(#[trigger] a.ranks@[i], e.ranks@[i])
}

/// A replacement worker's execution report matches the one recorded at
/// load, process ids aside.
pub open spec fn execution_matches(a: Option<WorkerExecutionInfo>, e: Option<WorkerExecutionInfo>) -> bool {
    match (a, e) {
        (None, None) => true,
        (Some(a), Some(e)) => {
            &&& a.vllm_enforce_eager == e.vllm_enforce_eager
            &&& a.vllm_compilation_mode == e.vllm_compilation_mode
            &&& opt_view(a.vllm_cudagraph_mode) == opt_view(e.vllm_cudagraph_mode)
            &&& opt_view(a.vllm_linear_backend) == opt_view(e.vllm_linear_backend)
            &&& opt_view(a.vllm_moe_backend) == opt_view(e.vllm_moe_backend)
            &&& a.vllm_mtp_num_speculative_tokens == e.vllm_mtp_num_speculative_tokens
            &&& match (a.worker_execution_observation, e.worker_execution_observation) {
                (None, None) => true,
                (Some(x), Some(y)) => observation_matches(x, y),
                _ => false,
            }
        },
        _ => false,
    }
}

fn opt_str_eq(a: &Option<String>, b: &Option<String>) -> (r: bool)
    ensures
        r == (opt_view(*a) == opt_view(*b)),
{
    match (a, b) {
        (None, None) => true,
        (Some(x), Some(y)) => str_eq(x.as_str(), y.as_str()),
        _ => false,
    }
}

fn observation_matches_exec(a: &WorkerExecutionObservation, e: &WorkerExecutionObservation) -> (r: bool)
    ensures
        r == observation_matches(*a, *e),
{
    if !str_eq(a.source.as_str(), e.source.as_str()) || a.rank_count != e.rank_count || a.world_size
        != e.world_size || a.ranks.len() != e.ranks.len() {
        return false;
    }
    let mut i: usize = 0;
    while i < a.ranks.len()
        invariant
            a.ranks@.len() == e.ranks@.len(),
            i <= a.ranks@.len(),
            forall|j: int| 0 <= j < i ==> rank_matches(#[trigger] a.ranks@[j], e.ranks@[j]),
        decreases a.ranks@.len() - i,
    {
        let x = &a.ranks[i];
        let y = &e.ranks[i];
        if x.rank != y.rank || x.local_rank != y.local_rank || x.world_size != y.world_size || (x.pid
            == 0 && y.pid != 0) || x.compilation_mode != y.compilation_mode || !str_eq(
            x.cudagraph_mode.as_str(),
            y.cudagraph_mode.as_str(),
        ) {
            return false;
        }
        i = i + 1;
    }
    true
}

/// Whether a replacement worker's execution report matches the one
/// recorded when the pool loaded, process ids aside.
pub fn replacement_execution_matches(
    actual: &Option<WorkerExecutionInfo>,
    expected: &Option<WorkerExecutionInfo>,
) -> (r: bool)
    ensures
        r == execution_matches(*actual, *expected),
{
    match (actual, expected) {
        (None, None) => true,
        (Some(a), Some(e)) => {
            if a.vllm_enforce_eager != e.vllm_enforce_eager || a.vllm_compilation_mode != e.vllm_compilation_mode
                || !opt_str_eq(&a.vllm_cudagraph_mode, &e.vllm_cudagraph_mode) || !opt_str_eq(
                &a.vllm_linear_backend,
                &e.vllm_linear_backend,
            ) || !opt_str_eq(&a.vllm_moe_backend, &e.vllm_moe_backend)
                || a.vllm_mtp_num_speculative_tokens != e.vllm_mtp_num_speculative_tokens {
                return false;
            }
            match (&a.worker_execution_observation, &e.worker_execution_observation) {
                (None, None) => true,
                (Some(x), Some(y)) => observation_matches_exec(x, y),
                _ => false,
            }
        },
        _ => false,
    }
}

/// Decides whether a replacement isolated worker may take the place of a
/// failed one: it must report the loaded model's vocabulary, its training
/// context (or none), a KV cache that holds a full context, the recorded
/// execution and batch invariance, and still be running. Gives its KV cache
/// size.
pub fn replacement_worker_verdict(
    loaded_n_vocab: i32,
    loaded_n_ctx_train: u32,
    ctx_size: u32,
    n_vocab: i32,
    n_ctx_train: u32,
    kv_tokens: Option<u64>,
    execution_matches: bool,
    batch_invariant_matches: bool,
    healthy: bool,
) -> (r: Result<u64>)
    ensures
        ({
            let tokens: u64 = match kv_tokens {
                Some(t) => t,
                None => 0,
            };
            let accepted = n_vocab == loaded_n_vocab && (n_ctx_train == 0 || n_ctx_train == loaded_n_ctx_train)
                && tokens >= ctx_size && execution_matches && batch_invariant_matches && healthy;
            if accepted {
                r == Ok::<u64, EngineError>(tokens)
            } else {
                r matches Err(EngineError::Vllm(m)) && m@
                    == "replacement isolated worker does not match the loaded execution contract"@
            }
        }),
{
    let tokens: u64 = match kv_tokens {
        Some(t) => t,
        None => 0,
    };
    if n_vocab != loaded_n_vocab || (n_ctx_train != 0 && n_ctx_train != loaded_n_ctx_train) || tokens
        < ctx_size as u64 || !execution_matches || !batch_invariant_matches || !healthy {
        return Err(EngineError::Vllm(
            "replacement isolated worker does not match the loaded execution contract".to_string(),
        ));
    }
    Ok(tokens)
}

/// The JSON text of an optional string: quoted, or `null`.
pub open spec fn opt_string_json(o: Option<Seq<char>>) -> Seq<char> {
    match o {
        Some(s) => crate::json::quoted(s),
        None => "null"@,
    }
}

/// The JSON text of an optional count: its digits, or `null`.
pub open spec fn opt_u32_json(o: Option<u32>) -> Seq<char> {
    match o {
        Some(n) => decimal(n as nat),
        None => "null"@,
    }
}

/// Object members `prev` followed by `key` where it has a value.
pub open spec fn optional_member(prev: Seq<char>, key: Seq<char>, value: Option<Seq<char>>) -> Seq<char> {
    match value {
        Some(v) => prev + ","@ + crate::json::quoted(key) + ":"@ + v,
        None => prev,
    }
}

fn count_value(n: u32) -> (r: crate::json::JsonValue)
    ensures
        crate::json::json_text(r) == decimal(n as nat),
{
    crate::json::JsonValue::Number(crate::json::JsonNumber::PosInt(n as u64))
}

fn opt_string_value(o: &Option<String>) -> (r: crate::json::JsonValue)
    ensures
        crate::json::json_text(r) == opt_string_json(opt_view(*o)),
{
    match o {
        Some(s) => crate::json::json_string(s.as_str()),
        None => crate::json::JsonValue::Null,
    }
}

fn opt_count_value(o: Option<u32>) -> (r: crate::json::JsonValue)
    ensures
        crate::json::json_text(r) == opt_u32_json(o),
{
    match o {
        Some(n) => count_value(n),
        None => crate::json::JsonValue::Null,
    }
}

/// Appends `key` with `value` where there is a value.
fn push_optional(entries: &mut Vec<(String, crate::json::JsonValue)>, key: &str, value: Option<crate::json::JsonValue>)
    requires
        old(entries)@.len() > 0,
    ensures
        final(entries)@.len() > 0,
        crate::json::members_text(final(entries)@, final(entries)@.len()) == optional_member(
            crate::json::members_text(old(entries)@, old(entries)@.len()),
            key@,
            match value {
                Some(v) => Some(crate::json::json_text(v)),
                None => None,
            },
        ),
{
    if let Some(v) = value {
        crate::json::push_member(entries, key, v);
    }
}

/// The load request sent to a TensorRT-LLM worker for the model at
/// `model_path`, as JSON text.
pub open spec fn trt_payload_text(c: LoadConfig, model_path: Seq<char>) -> Seq<char> {
    let q = |k: Seq<char>| crate::json::quoted(k);
    let batch: nat = if c.batch_size < 1 { 1 } else { c.batch_size as nat };
    let tokens0: nat = if c.ubatch_size < c.ctx_size { c.ctx_size as nat } else { c.ubatch_size as nat };
    let tokens: nat = if tokens0 < 1 { 1 } else { tokens0 };
    let tp: nat = match c.trt_tensor_parallel {
        Some(n) => n as nat,
        None => 1,
    };
    let m = q("path"@) + ":"@ + q(model_path) + ","@ + q("ctx_size"@) + ":"@ + decimal(c.ctx_size as nat)
        + ","@ + q("max_batch_size"@) + ":"@ + decimal(batch) + ","@ + q("max_num_tokens"@) + ":"@
        + decimal(tokens) + ","@ + q("engine_dir"@) + ":"@ + opt_string_json(opt_view(c.trt_engine_dir))
        + ","@ + q("tensor_parallel"@) + ":"@ + decimal(tp) + ","@ + q("kv_cache_dtype"@) + ":"@
        + opt_string_json(opt_view(c.trt_kv_cache_dtype)) + ","@ + q("require_engine_dir"@) + ":"@
        + bool_text(c.trt_require_engine_dir);
    "{"@ + m + "}"@
}

/// The load request of a TensorRT-LLM worker.
pub fn trt_load_payload(config: &LoadConfig, model_path: &str) -> (r: crate::json::JsonValue)
    ensures
        crate::json::json_text(r) == trt_payload_text(*config, model_path@),
{
    let batch: u32 = if config.batch_size < 1 { 1 } else { config.batch_size };
    let tokens0: u32 = if config.ubatch_size < config.ctx_size { config.ctx_size } else { config.ubatch_size };
    let tokens: u32 = if tokens0 < 1 { 1 } else { tokens0 };
    let tp: u32 = match config.trt_tensor_parallel {
        Some(n) => n,
        None => 1,
    };
    let mut m: Vec<(String, crate::json::JsonValue)> = Vec::new();
    crate::json::push_member(&mut m, "path", crate::json::json_string(model_path));
    crate::json::push_member(&mut m, "ctx_size", count_value(config.ctx_size));
    crate::json::push_member(&mut m, "max_batch_size", count_value(batch));
    crate::json::push_member(&mut m, "max_num_tokens", count_value(tokens));
    crate::json::push_member(&mut m, "engine_dir", opt_string_value(&config.trt_engine_dir));
    crate::json::push_member(&mut m, "tensor_parallel", count_value(tp));
    crate::json::push_member(&mut m, "kv_cache_dtype", opt_string_value(&config.trt_kv_cache_dtype));
    crate::json::push_member(&mut m, "require_engine_dir", crate::json::JsonValue::Bool(config.trt_require_engine_dir));
    crate::json::JsonValue::Object(m)
}

/// The decimal text of `pct / 100` as JSON writes that number: a fraction
/// with at least one digit after the point (`0.45`, `1.5`, `1.0`).
pub open spec fn percent_fraction_text(pct: u32) -> Seq<char> {
    let whole = decimal((pct / 100) as nat);
    let cents = (pct % 100) as nat;
    if cents == 0 {
        whole + ".0"@
    } else if cents % 10 == 0 {
        whole + "."@ + decimal(cents / 10)
    } else if cents < 10 {
        whole + ".0"@ + decimal(cents)
    } else {
        whole + "."@ + decimal(cents)
    }
}

/// `pct / 100` as a JSON number: its decimal text, which reads back as the
/// double nearest to it, as `pct as f64 / 100.0` computes it.
fn percent_fraction(pct: u32) -> (r: crate::json::JsonValue)
    ensures
        crate::json::json_text(r) == percent_fraction_text(pct),
{
    let whole = u64_to_decimal((pct / 100) as u64);
    let cents = pct % 100;
    let text = if cents == 0 {
        concat_str(whole.as_str(), ".0")
    } else if cents % 10 == 0 {
        let a = concat_str(whole.as_str(), ".");
        concat_str(a.as_str(), u64_to_decimal((cents / 10) as u64).as_str())
    } else if cents < 10 {
        let a = concat_str(whole.as_str(), ".0");
        concat_str(a.as_str(), u64_to_decimal(cents as u64).as_str())
    } else {
        let a = concat_str(whole.as_str(), ".");
        concat_str(a.as_str(), u64_to_decimal(cents as u64).as_str())
    };
    crate::json::JsonValue::Number(crate::json::JsonNumber::Float(text))
}

/// The load request sent to a vLLM worker for the model at `model_path`, as
/// JSON text.
pub open spec fn vllm_payload_text(c: LoadConfig, model_path: Seq<char>) -> Seq<char> {
    let q = |k: Seq<char>| crate::json::quoted(k);
    let tokens: nat = if c.ubatch_size < 1 { 1 } else { c.ubatch_size as nat };
    let tp: nat = match c.vllm_tensor_parallel {
        Some(n) => n as nat,
        None => 1,
    };
    let base = q("path"@) + ":"@ + q(model_path) + ","@ + q("ctx_size"@) + ":"@ + decimal(c.ctx_size as nat)
        + ","@ + q("max_batch_size"@) + ":"@ + decimal(crate::config::effective_max_num_seqs(c) as nat)
        + ","@ + q("max_num_tokens"@) + ":"@ + decimal(tokens) + ","@ + q("tensor_parallel"@) + ":"@
        + decimal(tp) + ","@ + q("dtype"@) + ":"@ + opt_string_json(opt_view(c.vllm_dtype)) + ","@ + q(
        "kv_cache_dtype"@,
    ) + ":"@ + opt_string_json(opt_view(c.vllm_kv_cache_dtype));
    let m0 = optional_member(base, "gpu_memory_utilization"@, match c.vllm_gpu_memory_utilization_pct {
        Some(p) => Some(percent_fraction_text(p)),
        None => None,
    });
    let m1 = optional_member(m0, "vllm_enforce_eager"@, match c.vllm_enforce_eager {
        Some(b) => Some(bool_text(b)),
        None => None,
    });
    let m2 = optional_member(m1, "vllm_compilation_mode"@, match c.vllm_compilation_mode {
        Some(n) => Some(decimal(n as nat)),
        None => None,
    });
    let m3 = optional_member(m2, "vllm_cudagraph_mode"@, match c.vllm_cudagraph_mode {
        Some(s) => Some(crate::json::quoted(s@)),
        None => None,
    });
    let m4 = optional_member(m3, "vllm_linear_backend"@, match c.vllm_linear_backend {
        Some(s) => Some(crate::json::quoted(s@)),
        None => None,
    });
    let m5 = optional_member(m4, "vllm_moe_backend"@, match c.vllm_moe_backend {
        Some(s) => Some(crate::json::quoted(s@)),
        None => None,
    });
    let m6 = optional_member(m5, "vllm_mtp_num_speculative_tokens"@, match c.vllm_mtp_num_speculative_tokens {
        Some(n) => Some(decimal(n as nat)),
        None => None,
    });
    "{"@ + m6 + "}"@
}

fn opt_str_json_value(o: &Option<String>) -> (r: Option<crate::json::JsonValue>)
    ensures
        match r {
            Some(v) => o is Some && crate::json::json_text(v) == crate::json::quoted(o->0@),
            None => o is None,
        },
{
    match o {
        Some(s) => Some(crate::json::json_string(s.as_str())),
        None => None,
    }
}

/// The load request of a vLLM worker.
pub fn vllm_load_payload(config: &LoadConfig, model_path: &str) -> (r: crate::json::JsonValue)
    ensures
        crate::json::json_text(r) == vllm_payload_text(*config, model_path@),
{
    let tokens: u32 = if config.ubatch_size < 1 { 1 } else { config.ubatch_size };
    let tp: u32 = match config.vllm_tensor_parallel {
        Some(n) => n,
        None => 1,
    };
    let mut m: Vec<(String, crate::json::JsonValue)> = Vec::new();
    crate::json::push_member(&mut m, "path", crate::json::json_string(model_path));
    crate::json::push_member(&mut m, "ctx_size", count_value(config.ctx_size));
    crate::json::push_member(&mut m, "max_batch_size", count_value(crate::config::effective_vllm_max_num_seqs(config)));
    crate::json::push_member(&mut m, "max_num_tokens", count_value(tokens));
    crate::json::push_member(&mut m, "tensor_parallel", count_value(tp));
    crate::json::push_member(&mut m, "dtype", opt_string_value(&config.vllm_dtype));
    crate::json::push_member(&mut m, "kv_cache_dtype", opt_string_value(&config.vllm_kv_cache_dtype));
    push_optional(&mut m, "gpu_memory_utilization", match config.vllm_gpu_memory_utilization_pct {
        Some(p) => Some(percent_fraction(p)),
        None => None,
    });
    push_optional(&mut m, "vllm_enforce_eager", match config.vllm_enforce_eager {
        Some(b) => Some(crate::json::JsonValue::Bool(b)),
        None => None,
    });
    push_optional(&mut m, "vllm_compilation_mode", match config.vllm_compilation_mode {
        Some(n) => Some(count_value(n)),
        None => None,
    });
    push_optional(&mut m, "vllm_cudagraph_mode", opt_str_json_value(&config.vllm_cudagraph_mode));
    push_optional(&mut m, "vllm_linear_backend", opt_str_json_value(&config.vllm_linear_backend));
    push_optional(&mut m, "vllm_moe_backend", opt_str_json_value(&config.vllm_moe_backend));
    push_optional(&mut m, "vllm_mtp_num_speculative_tokens", match config.vllm_mtp_num_speculative_tokens {
        Some(n) => Some(count_value(n)),
        None => None,
    });
    crate::json::JsonValue::Object(m)
}

} // verus!
