use mayhem_engine::cuda::{
    nvcc_version_from_output, parse_cuda_major_minor, select_cuda_home,
    torch_cuda_version_from_text,
};

#[test]
fn cuda_version_parser_reads_runtime_and_nvcc_forms() {
    assert_eq!(parse_cuda_major_minor("13.0"), Some((13, 0)));
    assert_eq!(
        parse_cuda_major_minor("Cuda compilation tools, release 13.2, V13.2.78"),
        Some((13, 2))
    );
    assert_eq!(parse_cuda_major_minor("None"), None);
}

#[test]
fn cuda_version_needs_a_minor_part() {
    assert_eq!(parse_cuda_major_minor("12"), None);
    assert_eq!(parse_cuda_major_minor("12."), None);
    assert_eq!(parse_cuda_major_minor("v12.4beta"), Some((12, 4)));
    assert_eq!(parse_cuda_major_minor("99999999999.1"), None);
}

#[test]
fn torch_version_file_names_its_cuda_runtime() {
    let text = "__version__ = '2.9.0'\n  cuda: Optional[str] = '13.0'\nhip = None\n";
    assert_eq!(torch_cuda_version_from_text(text), Some((13, 0)));
    assert_eq!(torch_cuda_version_from_text("cuda = None\n"), None);
    assert_eq!(torch_cuda_version_from_text("version = '2.9'\n"), None);
}

#[test]
fn nvcc_output_is_read_after_release() {
    assert_eq!(
        nvcc_version_from_output("nvcc: NVIDIA (R) Cuda compiler\nCuda compilation tools, release 12.8, V12.8.93\n"),
        Some((12, 8))
    );
    assert_eq!(nvcc_version_from_output("no version here 12.8"), None);
}

#[test]
fn cuda_home_selection_matches_the_torch_runtime() {
    let candidates = vec!["/opt/cuda-13.2".to_owned(), "/opt/cuda-13.0".to_owned()];
    let versions = vec![Some((13, 2)), Some((13, 0))];
    assert_eq!(
        select_cuda_home(&candidates, &versions, Some((13, 0))).as_deref(),
        Some("/opt/cuda-13.0")
    );
    assert_eq!(
        select_cuda_home(&candidates, &versions, None).as_deref(),
        Some("/opt/cuda-13.2")
    );
    assert_eq!(select_cuda_home(&candidates, &versions, Some((12, 4))), None);
}

use mayhem_engine::cuda::{resolve_cuda_home, CudaHomeSource};

#[test]
fn cuda_home_prefers_the_backend_override_then_cuda_home_without_fallback() {
    assert_eq!(
        resolve_cuda_home(Some("/opt/cuda-12.4"), true, Some("/usr/local/cuda"), true),
        CudaHomeSource::Named(Some("/opt/cuda-12.4".to_owned()))
    );
    assert_eq!(
        resolve_cuda_home(Some("/opt/empty"), false, Some("/usr/local/cuda"), true),
        CudaHomeSource::Named(None)
    );
    assert_eq!(
        resolve_cuda_home(None, false, Some("/usr/local/cuda"), true),
        CudaHomeSource::Named(Some("/usr/local/cuda".to_owned()))
    );
    assert_eq!(resolve_cuda_home(None, false, Some("/nothing"), false), CudaHomeSource::Named(None));
    assert_eq!(resolve_cuda_home(None, false, None, false), CudaHomeSource::Discover);
}
