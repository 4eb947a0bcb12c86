use mayhem_engine::worker_env::{
    cache_dir_table, cuda_library_dir, worker_cache_dirs, worker_cache_root,
    worker_fixed_settings, worker_removed_variables, WorkerKind,
};

fn setting<'a>(settings: &'a [(String, String)], name: &str) -> Option<&'a str> {
    settings.iter().find(|(key, _)| key == name).map(|(_, value)| value.as_str())
}

#[test]
fn vllm_worker_environment_is_deterministic() {
    let settings = worker_fixed_settings(WorkerKind::Vllm, "cuda", 4);
    assert_eq!(setting(&settings, "VLLM_ENABLE_V1_MULTIPROCESSING"), Some("0"));
    assert_eq!(setting(&settings, "PYTHONHASHSEED"), Some("0"));
    assert_eq!(setting(&settings, "CUBLAS_WORKSPACE_CONFIG"), Some(":4096:8"));
    assert_eq!(setting(&settings, "MAX_JOBS"), Some("4"));
    assert!(worker_fixed_settings(WorkerKind::Mlx, "cpu", 2).is_empty());
}

#[test]
fn transformers_workers_stay_offline() {
    let settings = worker_fixed_settings(WorkerKind::TransformersAsr, "cpu", 2);
    assert_eq!(setting(&settings, "HF_HUB_OFFLINE"), Some("1"));
    assert_eq!(setting(&settings, "TRANSFORMERS_OFFLINE"), Some("1"));
    assert_eq!(setting(&settings, "TOKENIZERS_PARALLELISM"), Some("false"));
    let needle_cpu = worker_fixed_settings(WorkerKind::Needle, "cpu", 2);
    assert_eq!(setting(&needle_cpu, "MAYHEM_NEEDLE_DEVICE"), Some("cpu"));
    assert_eq!(setting(&needle_cpu, "CUBLAS_WORKSPACE_CONFIG"), None);
    let needle_cuda = worker_fixed_settings(WorkerKind::Needle, "cuda", 2);
    assert_eq!(setting(&needle_cuda, "CUBLAS_WORKSPACE_CONFIG"), Some(":4096:8"));
    assert!(worker_removed_variables(WorkerKind::Needle).contains(&"HF_TOKEN"));
    assert!(worker_removed_variables(WorkerKind::Vllm).is_empty());
}

#[test]
fn worker_cache_roots_follow_the_configured_places() {
    assert_eq!(
        worker_cache_root(WorkerKind::TrtLlm, Some("/env"), Some("/cfg"), Some("/mh"), Some("/h"), "/tmp"),
        "/env"
    );
    assert_eq!(
        worker_cache_root(WorkerKind::Mlx, None, Some("/cfg"), Some("/mh"), Some("/h"), "/tmp"),
        "/cfg"
    );
    assert_eq!(
        worker_cache_root(WorkerKind::TransformersAsr, None, None, Some("/mh"), Some("/h"), "/tmp"),
        "/mh/cache/transformers-asr"
    );
    assert_eq!(
        worker_cache_root(WorkerKind::TrtLlm, None, None, None, Some("/h"), "/tmp"),
        "/h/.mayhem/cache/trt-llm"
    );
    assert_eq!(
        worker_cache_root(WorkerKind::Mlx, None, None, None, None, "/tmp/"),
        "/tmp/mayhem-mlx-cache"
    );
}

#[test]
fn cache_variables_default_under_the_root_unless_already_set() {
    let table = cache_dir_table(WorkerKind::Mlx);
    assert_eq!(table.len(), 5);
    let mut existing = vec![None; table.len()];
    existing[1] = Some("/mine/hf".to_owned());
    let dirs = worker_cache_dirs(WorkerKind::Mlx, "/c", &existing);
    assert_eq!(dirs[0], ("XDG_CACHE_HOME".to_owned(), "/c/xdg".to_owned()));
    assert_eq!(dirs[1], ("HF_HOME".to_owned(), "/mine/hf".to_owned()));
    assert_eq!(dirs[4], ("MLX_METAL_CACHE_DIR".to_owned(), "/c/metal".to_owned()));

    let needle = cache_dir_table(WorkerKind::Needle);
    let mut existing = vec![None; needle.len()];
    existing[0] = Some("/home/user".to_owned());
    let dirs = worker_cache_dirs(WorkerKind::Needle, "/n", &existing);
    assert_eq!(dirs[0], ("HOME".to_owned(), "/n/home".to_owned()));
    let vllm = worker_cache_dirs(WorkerKind::Vllm, "/v", &vec![None; 9]);
    assert_eq!(vllm[6], ("FLASHINFER_WORKSPACE_BASE".to_owned(), "/v/flashinfer/workspace-base".to_owned()));
}

#[test]
fn cuda_libraries_prefer_lib_over_lib64() {
    assert_eq!(cuda_library_dir("/usr/local/cuda", true), "/usr/local/cuda/lib");
    assert_eq!(cuda_library_dir("/usr/local/cuda", false), "/usr/local/cuda/lib64");
}
