//! The environment a model worker process starts with: where its caches
//! live, and the settings that keep it offline and reproducible. Creating
//! the directories and starting the process is the caller's.
use vstd::prelude::*;

use crate::artifact::opt_view;
use crate::config::{concat_str, opt_str_view};
use crate::payload::{join_path, joined};

verus! {

/// The Python workers whose environment is prepared here.
#[derive(Clone, Copy, Debug, PartialEq, Eq, Structural)]
pub enum WorkerKind {
    TransformersAsr,
    Mlx,
    TrtLlm,
    Vllm,
    Needle,
}

/// The name a worker's cache directory carries.
pub open spec fn cache_name(kind: WorkerKind) -> Seq<char> {
    match kind {
        WorkerKind::TransformersAsr => "transformers-asr"@,
        WorkerKind::Mlx => "mlx"@,
        WorkerKind::TrtLlm => "trt-llm"@,
        WorkerKind::Vllm => "vllm"@,
        WorkerKind::Needle => "needle"@,
    }
}

fn cache_name_text(kind: WorkerKind) -> (r: &'static str)
    ensures
        r@ == cache_name(kind),
{
    match kind {
        WorkerKind::TransformersAsr => "transformers-asr",
        WorkerKind::Mlx => "mlx",
        WorkerKind::TrtLlm => "trt-llm",
        WorkerKind::Vllm => "vllm",
        WorkerKind::Needle => "needle",
    }
}

/// Where a worker's caches live: the cache-directory override, else the
/// configured cache directory, else `cache/<name>` under the Mayhem home,
/// else `.mayhem/cache/<name>` under the user's home, else
/// `mayhem-<name>-cache` in the temporary directory.
pub open spec fn worker_cache_root_for(
    name: Seq<char>,
    env_override: Option<Seq<char>>,
    configured: Option<Seq<char>>,
    mayhem_home: Option<Seq<char>>,
    home: Option<Seq<char>>,
    temp_dir: Seq<char>,
) -> Seq<char> {
    match env_override {
        Some(p) => p,
        None => match configured {
            Some(p) => p,
            None => match mayhem_home {
                Some(h) => joined(h, "cache/"@ + name),
                None => match home {
                    Some(h) => joined(h, ".mayhem/cache/"@ + name),
                    None => joined(temp_dir, "mayhem-"@ + name + "-cache"@),
                },
            },
        },
    }
}

/// Chooses a worker's cache root from the places that may name it.
pub fn worker_cache_root(
    kind: WorkerKind,
    env_override: Option<&str>,
    configured: Option<&str>,
    mayhem_home: Option<&str>,
    home: Option<&str>,
    temp_dir: &str,
) -> (r: String)
    ensures
        r@ == worker_cache_root_for(
            cache_name(kind),
            opt_str_view(env_override),
            opt_str_view(configured),
            opt_str_view(mayhem_home),
            opt_str_view(home),
            temp_dir@,
        ),
{
    let name = cache_name_text(kind);
    if let Some(p) = env_override {
        return p.to_owned();
    }
    if let Some(p) = configured {
        return p.to_owned();
    }
    if let Some(h) = mayhem_home {
        return join_path(h, concat_str("cache/", name).as_str());
    }
    if let Some(h) = home {
        return join_path(h, concat_str(".mayhem/cache/", name).as_str());
    }
    let dir = concat_str(concat_str("mayhem-", name).as_str(), "-cache");
    join_path(temp_dir, dir.as_str())
}

/// The cache variables a worker gets, each with its directory under the
/// cache root.
pub open spec fn cache_dirs(kind: WorkerKind) -> Seq<(Seq<char>, Seq<char>)> {
    match kind {
        WorkerKind::TransformersAsr => seq![
            ("XDG_CACHE_HOME"@, "xdg"@),
            ("HF_HOME"@, "huggingface"@),
            ("HF_HUB_CACHE"@, "huggingface/hub"@),
            ("TRANSFORMERS_CACHE"@, "transformers"@),
        ],
        WorkerKind::Mlx => seq![
            ("XDG_CACHE_HOME"@, "xdg"@),
            ("HF_HOME"@, "huggingface"@),
            ("HF_HUB_CACHE"@, "huggingface/hub"@),
            ("TRANSFORMERS_CACHE"@, "transformers"@),
            ("MLX_METAL_CACHE_DIR"@, "metal"@),
        ],
        WorkerKind::TrtLlm => seq![
            ("XDG_CACHE_HOME"@, "xdg"@),
            ("HF_HOME"@, "huggingface"@),
            ("HF_HUB_CACHE"@, "huggingface/hub"@),
            ("TRANSFORMERS_CACHE"@, "transformers"@),
            ("TORCHINDUCTOR_CACHE_DIR"@, "torchinductor"@),
            ("CUDA_CACHE_PATH"@, "cuda"@),
            ("TRTLLM_CACHE_DIR"@, "trtllm"@),
        ],
        WorkerKind::Vllm => seq![
            ("XDG_CACHE_HOME"@, "xdg"@),
            ("TRITON_CACHE_DIR"@, "triton"@),
            ("VLLM_CACHE_ROOT"@, "vllm"@),
            ("TORCHINDUCTOR_CACHE_DIR"@, "torchinductor"@),
            ("CUDA_CACHE_PATH"@, "cuda"@),
            ("FLASHINFER_CACHE_DIR"@, "flashinfer"@),
            ("FLASHINFER_WORKSPACE_BASE"@, "flashinfer/workspace-base"@),
            ("FLASHINFER_JIT_DIR"@, "flashinfer/jit"@),
            ("FLASHINFER_WORKSPACE_DIR"@, "flashinfer/workspace"@),
        ],
        WorkerKind::Needle => seq![
            ("HOME"@, "home"@),
            ("TMPDIR"@, "tmp"@),
            ("TMP"@, "tmp"@),
            ("TEMP"@, "tmp"@),
            ("DARWIN_USER_CACHE_DIR"@, "darwin-cache"@),
            ("DARWIN_USER_TEMP_DIR"@, "darwin-tmp"@),
            ("CFFIXED_USER_HOME"@, "home"@),
            ("XDG_CACHE_HOME"@, "xdg"@),
            ("XDG_RUNTIME_DIR"@, "xdg-runtime"@),
            ("HF_HOME"@, "huggingface"@),
            ("HF_HUB_CACHE"@, "huggingface/hub"@),
            ("TRANSFORMERS_CACHE"@, "transformers"@),
            ("TORCH_HOME"@, "torch"@),
        ],
    }
}

pub open spec fn pair_views(v: Seq<(&'static str, &'static str)>) -> Seq<(Seq<char>, Seq<char>)> {
    v.map_values(|p: (&'static str, &'static str)| (p.0@, p.1@))
}

/// The cache variables of a worker and their directories under the root.
pub fn cache_dir_table(kind: WorkerKind) -> (r: Vec<(&'static str, &'static str)>)
    ensures
        pair_views(r@) == cache_dirs(kind),
{
    let r = match kind {
        WorkerKind::TransformersAsr => vec![
            ("XDG_CACHE_HOME", "xdg"),
            ("HF_HOME", "huggingface"),
            ("HF_HUB_CACHE", "huggingface/hub"),
            ("TRANSFORMERS_CACHE", "transformers"),
        ],
        WorkerKind::Mlx => vec![
            ("XDG_CACHE_HOME", "xdg"),
            ("HF_HOME", "huggingface"),
            ("HF_HUB_CACHE", "huggingface/hub"),
            ("TRANSFORMERS_CACHE", "transformers"),
            ("MLX_METAL_CACHE_DIR", "metal"),
        ],
        WorkerKind::TrtLlm => vec![
            ("XDG_CACHE_HOME", "xdg"),
            ("HF_HOME", "huggingface"),
            ("HF_HUB_CACHE", "huggingface/hub"),
            ("TRANSFORMERS_CACHE", "transformers"),
            ("TORCHINDUCTOR_CACHE_DIR", "torchinductor"),
            ("CUDA_CACHE_PATH", "cuda"),
            ("TRTLLM_CACHE_DIR", "trtllm"),
        ],
        WorkerKind::Vllm => vec![
            ("XDG_CACHE_HOME", "xdg"),
            ("TRITON_CACHE_DIR", "triton"),
            ("VLLM_CACHE_ROOT", "vllm"),
            ("TORCHINDUCTOR_CACHE_DIR", "torchinductor"),
            ("CUDA_CACHE_PATH", "cuda"),
            ("FLASHINFER_CACHE_DIR", "flashinfer"),
            ("FLASHINFER_WORKSPACE_BASE", "flashinfer/workspace-base"),
            ("FLASHINFER_JIT_DIR", "flashinfer/jit"),
            ("FLASHINFER_WORKSPACE_DIR", "flashinfer/workspace"),
        ],
        WorkerKind::Needle => vec![
            ("HOME", "home"),
            ("TMPDIR", "tmp"),
            ("TMP", "tmp"),
            ("TEMP", "tmp"),
            ("DARWIN_USER_CACHE_DIR", "darwin-cache"),
            ("DARWIN_USER_TEMP_DIR", "darwin-tmp"),
            ("CFFIXED_USER_HOME", "home"),
            ("XDG_CACHE_HOME", "xdg"),
            ("XDG_RUNTIME_DIR", "xdg-runtime"),
            ("HF_HOME", "huggingface"),
            ("HF_HUB_CACHE", "huggingface/hub"),
            ("TRANSFORMERS_CACHE", "transformers"),
            ("TORCH_HOME", "torch"),
        ],
    };
    assert(pair_views(r@) =~= cache_dirs(kind));
    r
}

/// A value the process environment already holds for a cache variable is
/// kept, except by Needle, whose worker always gets its own directories.
pub open spec fn keeps_existing(kind: WorkerKind) -> bool {
    kind != WorkerKind::Needle
}

/// The directory a cache variable is set to: the value the environment
/// holds where it is kept, else its directory under the cache root.
pub open spec fn cache_dir_value(
    kind: WorkerKind,
    root: Seq<char>,
    sub: Seq<char>,
    existing: Option<Seq<char>>,
) -> Seq<char> {
    match existing {
        Some(v) => if keeps_existing(kind) {
            v
        } else {
            joined(root, sub)
        },
        None => joined(root, sub),
    }
}

/// The cache variables of a worker and the directory each is set to;
/// `existing` holds, in the order of the table, the value of each variable
/// in the process environment where it is set.
pub fn worker_cache_dirs(kind: WorkerKind, root: &str, existing: &Vec<Option<String>>) -> (r: Vec<
    (String, String),
>)
    requires
        existing@.len() == cache_dirs(kind).len(),
    ensures
        r@.len() == cache_dirs(kind).len(),
        forall|i: int|
            0 <= i < r@.len() ==> #[trigger] r@[i].0@ == cache_dirs(kind)[i].0 && r@[i].1@
                == cache_dir_value(kind, root@, cache_dirs(kind)[i].1, opt_view(existing@[i])),
{
    let table = cache_dir_table(kind);
    let mut r: Vec<(String, String)> = Vec::new();
    let mut i: usize = 0;
    while i < table.len()
        invariant
            pair_views(table@) == cache_dirs(kind),
            existing@.len() == table@.len(),
            i <= table@.len(),
            r@.len() == i,
            forall|k: int|
                0 <= k < i ==> #[trigger] r@[k].0@ == cache_dirs(kind)[k].0 && r@[k].1@
                    == cache_dir_value(kind, root@, cache_dirs(kind)[k].1, opt_view(existing@[k])),
        decreases table@.len() - i,
    {
        let (name, sub) = table[i];
        assert(pair_views(table@)[i as int] == (name@, sub@));
        let value = match &existing[i] {
            Some(v) => {
                if kind != WorkerKind::Needle {
                    v.clone()
                } else {
                    join_path(root, sub)
                }
            },
            None => join_path(root, sub),
        };
        r.push((name.to_owned(), value));
        i = i + 1;
    }
    r
}

/// The fixed settings of a worker: offline, telemetry-free Hugging Face
/// libraries for the Transformers workers, and reproducible scheduling,
/// hashing and cuBLAS workspaces (and the build-job count) for vLLM; Needle
/// also learns its device, and pins cuBLAS workspaces on CUDA.
pub open spec fn worker_settings(kind: WorkerKind, device: Seq<char>, build_jobs: usize) -> Seq<
    (Seq<char>, Seq<char>),
> {
    match kind {
        WorkerKind::TransformersAsr => seq![
            ("HF_HUB_OFFLINE"@, "1"@),
            ("HF_DATASETS_OFFLINE"@, "1"@),
            ("TRANSFORMERS_OFFLINE"@, "1"@),
            ("HF_HUB_DISABLE_TELEMETRY"@, "1"@),
            ("TOKENIZERS_PARALLELISM"@, "false"@),
        ],
        WorkerKind::Mlx => Seq::empty(),
        WorkerKind::TrtLlm => Seq::empty(),
        WorkerKind::Vllm => seq![
            ("VLLM_ENABLE_V1_MULTIPROCESSING"@, "0"@),
            ("PYTHONHASHSEED"@, "0"@),
            ("CUBLAS_WORKSPACE_CONFIG"@, ":4096:8"@),
            ("MAX_JOBS"@, crate::text::decimal(build_jobs as nat)),
        ],
        WorkerKind::Needle => seq![
            ("HF_HUB_OFFLINE"@, "1"@),
            ("HF_DATASETS_OFFLINE"@, "1"@),
            ("TRANSFORMERS_OFFLINE"@, "1"@),
            ("HF_HUB_DISABLE_TELEMETRY"@, "1"@),
            ("DO_NOT_TRACK"@, "1"@),
            ("PIP_NO_INDEX"@, "1"@),
            ("UV_OFFLINE"@, "1"@),
            ("TOKENIZERS_PARALLELISM"@, "false"@),
            ("PYTHONNOUSERSITE"@, "1"@),
            ("PYTHONDONTWRITEBYTECODE"@, "1"@),
            ("MAYHEM_NEEDLE_DEVICE"@, device),
        ] + if device == "cuda"@ {
            seq![("CUBLAS_WORKSPACE_CONFIG"@, ":4096:8"@)]
        } else {
            Seq::empty()
        },
    }
}

pub open spec fn string_pair_views(v: Seq<(String, String)>) -> Seq<(Seq<char>, Seq<char>)> {
    v.map_values(|p: (String, String)| (p.0@, p.1@))
}

fn push_setting(v: &mut Vec<(String, String)>, name: &str, value: &str)
    ensures
        string_pair_views(final(v)@) == string_pair_views(old(v)@).push((name@, value@)),
{
    v.push((name.to_owned(), value.to_owned()));
    assert(string_pair_views(final(v)@) =~= string_pair_views(old(v)@).push((name@, value@)));
}

/// The fixed settings of a worker, in the order they are applied.
pub fn worker_fixed_settings(kind: WorkerKind, device: &str, build_jobs: usize) -> (r: Vec<
    (String, String),
>)
    ensures
        string_pair_views(r@) == worker_settings(kind, device@, build_jobs),
{
    let mut v: Vec<(String, String)> = Vec::new();
    match kind {
        WorkerKind::TransformersAsr => {
            push_setting(&mut v, "HF_HUB_OFFLINE", "1");
            push_setting(&mut v, "HF_DATASETS_OFFLINE", "1");
            push_setting(&mut v, "TRANSFORMERS_OFFLINE", "1");
            push_setting(&mut v, "HF_HUB_DISABLE_TELEMETRY", "1");
            push_setting(&mut v, "TOKENIZERS_PARALLELISM", "false");
        },
        WorkerKind::Mlx => {},
        WorkerKind::TrtLlm => {},
        WorkerKind::Vllm => {
            push_setting(&mut v, "VLLM_ENABLE_V1_MULTIPROCESSING", "0");
            push_setting(&mut v, "PYTHONHASHSEED", "0");
            push_setting(&mut v, "CUBLAS_WORKSPACE_CONFIG", ":4096:8");
            let jobs = crate::text::u64_to_decimal(build_jobs as u64);
            push_setting(&mut v, "MAX_JOBS", jobs.as_str());
        },
        WorkerKind::Needle => {
            push_setting(&mut v, "HF_HUB_OFFLINE", "1");
            push_setting(&mut v, "HF_DATASETS_OFFLINE", "1");
            push_setting(&mut v, "TRANSFORMERS_OFFLINE", "1");
            push_setting(&mut v, "HF_HUB_DISABLE_TELEMETRY", "1");
            push_setting(&mut v, "DO_NOT_TRACK", "1");
            push_setting(&mut v, "PIP_NO_INDEX", "1");
            push_setting(&mut v, "UV_OFFLINE", "1");
            push_setting(&mut v, "TOKENIZERS_PARALLELISM", "false");
            push_setting(&mut v, "PYTHONNOUSERSITE", "1");
            push_setting(&mut v, "PYTHONDONTWRITEBYTECODE", "1");
            push_setting(&mut v, "MAYHEM_NEEDLE_DEVICE", device);
            if crate::text::str_eq(device, "cuda") {
                push_setting(&mut v, "CUBLAS_WORKSPACE_CONFIG", ":4096:8");
            }
        },
    }
    assert(string_pair_views(v@) =~= worker_settings(kind, device@, build_jobs));
    v
}

/// The variables removed from a Needle worker's environment: interpreter
/// overrides, injected libraries, Hugging Face tokens and proxies. Other
/// workers keep the caller's environment.
pub open spec fn removed_variables(kind: WorkerKind) -> Seq<Seq<char>> {
    if kind == WorkerKind::Needle {
        seq![
            "PYTHONHOME"@,
            "PYTHONPATH"@,
            "PYTHONSTARTUP"@,
            "PYTHONINSPECT"@,
            "LD_PRELOAD"@,
            "DYLD_INSERT_LIBRARIES"@,
            "HF_TOKEN"@,
            "HUGGING_FACE_HUB_TOKEN"@,
            "HTTP_PROXY"@,
            "HTTPS_PROXY"@,
            "ALL_PROXY"@,
            "NO_PROXY"@,
        ]
    } else {
        Seq::empty()
    }
}

/// The variables a worker's environment drops.
pub fn worker_removed_variables(kind: WorkerKind) -> (r: Vec<&'static str>)
    ensures
        r@.map_values(|s: &'static str| s@) == removed_variables(kind),
{
    let r = if kind == WorkerKind::Needle {
        vec![
            "PYTHONHOME",
            "PYTHONPATH",
            "PYTHONSTARTUP",
            "PYTHONINSPECT",
            "LD_PRELOAD",
            "DYLD_INSERT_LIBRARIES",
            "HF_TOKEN",
            "HUGGING_FACE_HUB_TOKEN",
            "HTTP_PROXY",
            "HTTPS_PROXY",
            "ALL_PROXY",
            "NO_PROXY",
        ]
    } else {
        Vec::new()
    };
    assert(r@.map_values(|s: &'static str| s@) =~= removed_variables(kind));
    r
}

/// The library directory of a CUDA toolkit: `lib` where it is a
/// directory, else `lib64`.
pub fn cuda_library_dir(cuda_home: &str, lib_is_dir: bool) -> (r: String)
    ensures
        r@ == joined(cuda_home@, if lib_is_dir { "lib"@ } else { "lib64"@ }),
{
    if lib_is_dir {
        join_path(cuda_home, "lib")
    } else {
        join_path(cuda_home, "lib64")
    }
}

} // verus!
