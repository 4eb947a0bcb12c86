use std::collections::HashSet;

use mayhem_engine::config::{
    validate_load_config, LoadConfig, VLLM_MAX_MTP_SPECULATIVE_TOKENS,
};
use mayhem_engine::error::EngineError;
use mayhem_engine::vllm::{
    cancel_timeout_from, has_explicit_vllm_execution_properties, is_vllm_oom_error,
    parse_build_jobs, request_timeout_from, validate_vllm_execution_report,
    vllm_build_jobs_from, vllm_memory_utilization_attempts, trt_request_timeout_from, WorkerExecutionInfo, WorkerExecutionObservation,
    WorkerExecutionRank,
};
use mayhem_engine::worker::{RouteDecision, SendOutcome, WorkerRouter};

#[test]
fn vllm_execution_properties_are_strict_and_bounded() {
    let mut config = LoadConfig::vllm_safetensors("/tmp/checkpoint");
    config.vllm_linear_backend = Some("CUTLASS".to_owned());
    assert!(validate_load_config(&config).is_err());

    config.vllm_linear_backend = Some("cutlass-v2".to_owned());
    assert!(validate_load_config(&config).is_err());

    config.vllm_linear_backend = Some("cutlass".to_owned());
    config.vllm_mtp_num_speculative_tokens = Some(0);
    assert!(validate_load_config(&config).is_err());

    config.vllm_mtp_num_speculative_tokens = Some(VLLM_MAX_MTP_SPECULATIVE_TOKENS + 1);
    assert!(validate_load_config(&config).is_err());

    config.vllm_mtp_num_speculative_tokens = Some(VLLM_MAX_MTP_SPECULATIVE_TOKENS);
    validate_load_config(&config).expect("maximum bounded MTP count is valid");

    let mut non_vllm = LoadConfig::gguf("/tmp/model.gguf");
    non_vllm.vllm_enforce_eager = Some(false);
    assert!(validate_load_config(&non_vllm).is_err());
}

#[test]
fn vllm_execution_report_allows_unknown_unrequested_kernel_backends() {
    let mut config = LoadConfig::vllm_safetensors("/tmp/checkpoint");
    config.vllm_enforce_eager = Some(false);
    let mut report = WorkerExecutionInfo {
        vllm_enforce_eager: Some(false),
        ..WorkerExecutionInfo::default()
    };
    validate_vllm_execution_report(&config, Some(&report))
        .expect("unrequested kernel selectors may be unavailable");
    report.vllm_linear_backend = Some("torch".to_owned());
    report.vllm_moe_backend = Some("triton".to_owned());
    validate_vllm_execution_report(&config, Some(&report))
        .expect("unrequested resolved kernel selectors are retained");
    report.vllm_linear_backend = Some("INVALID".to_owned());
    assert!(validate_vllm_execution_report(&config, Some(&report)).is_err());
}

#[test]
fn vllm_memory_utilization_backoff_stops_at_the_fit_floor() {
    assert_eq!(
        vllm_memory_utilization_attempts(Some(42), Some(31)).unwrap(),
        vec![Some(42), Some(37), Some(32), Some(31)]
    );
    assert_eq!(vllm_memory_utilization_attempts(Some(42), Some(42)).unwrap(), vec![Some(42)]);
    assert!(vllm_memory_utilization_attempts(Some(30), Some(31)).is_err());
}

#[test]
fn memory_utilization_targets_are_checked() {
    assert_eq!(vllm_memory_utilization_attempts(Some(80), None).unwrap(), vec![Some(80)]);
    assert_eq!(vllm_memory_utilization_attempts(None, None).unwrap(), vec![None]);
    assert!(vllm_memory_utilization_attempts(None, Some(70)).is_err());
    assert!(vllm_memory_utilization_attempts(Some(101), None).is_err());
    assert!(vllm_memory_utilization_attempts(Some(0), None).is_err());
}

#[test]
fn vllm_build_jobs_requires_a_positive_integer() {
    assert_eq!(parse_build_jobs("3"), Some(3));
    assert_eq!(parse_build_jobs("0"), None);
    assert_eq!(parse_build_jobs("many"), None);
}

#[test]
fn build_jobs_prefer_the_vllm_setting_then_max_jobs() {
    assert_eq!(vllm_build_jobs_from(None, None), 2);
    assert_eq!(vllm_build_jobs_from(Some("6"), Some("3")), 6);
    assert_eq!(vllm_build_jobs_from(Some("0"), Some("3")), 3);
    assert_eq!(vllm_build_jobs_from(None, Some("many")), 2);
}

#[test]
fn build_jobs_are_not_trimmed() {
    assert_eq!(parse_build_jobs(" 2 "), None);
    assert_eq!(parse_build_jobs("+2"), Some(2));
}

#[test]
fn vllm_worker_timeout_override_is_validated() {
    assert_eq!(request_timeout_from(None).unwrap(), None);
    assert_eq!(request_timeout_from(Some("0")).unwrap(), None);
    assert_eq!(request_timeout_from(Some("600")).unwrap(), Some(600));
    assert!(request_timeout_from(Some("later")).is_err());
}

#[test]
fn vllm_worker_cancel_timeout_override_is_validated() {
    assert_eq!(cancel_timeout_from(None).unwrap(), 5);
    assert_eq!(cancel_timeout_from(Some("9")).unwrap(), 9);
    assert!(cancel_timeout_from(Some("0")).is_err());
    assert!(cancel_timeout_from(Some("later")).is_err());
}

fn rank(rank: u32, world_size: u32, cudagraph: &str) -> WorkerExecutionRank {
    WorkerExecutionRank {
        rank,
        local_rank: rank,
        world_size,
        pid: 123 + u64::from(rank),
        compilation_mode: 0,
        cudagraph_mode: cudagraph.to_owned(),
    }
}

fn compiled_report(world: u32, ranks: Vec<WorkerExecutionRank>) -> WorkerExecutionInfo {
    WorkerExecutionInfo {
        vllm_enforce_eager: Some(false),
        vllm_compilation_mode: Some(0),
        vllm_cudagraph_mode: Some("FULL_DECODE_ONLY".to_owned()),
        worker_execution_observation: Some(WorkerExecutionObservation {
            source: "worker_extension_cls.collective_rpc".to_owned(),
            rank_count: world,
            world_size: world,
            ranks,
        }),
        ..WorkerExecutionInfo::default()
    }
}

#[test]
fn vllm_execution_compilation_report_requires_exact_requested_values() {
    let mut config = LoadConfig::vllm_safetensors("/tmp/checkpoint");
    config.vllm_enforce_eager = Some(false);
    config.vllm_compilation_mode = Some(0);
    config.vllm_cudagraph_mode = Some("FULL_DECODE_ONLY".to_owned());
    let report = compiled_report(1, vec![rank(0, 1, "FULL_DECODE_ONLY")]);
    validate_vllm_execution_report(&config, Some(&report)).unwrap();
    for mode in [Some(3), Some(4), None] {
        let mut changed = report.clone();
        changed.vllm_compilation_mode = mode;
        assert!(validate_vllm_execution_report(&config, Some(&changed)).is_err());
    }
    for graph in [Some("NONE"), Some("invalid"), None] {
        let mut changed = report.clone();
        changed.vllm_cudagraph_mode = graph.map(str::to_owned);
        assert!(validate_vllm_execution_report(&config, Some(&changed)).is_err());
    }
    config.vllm_compilation_mode = None;
    validate_vllm_execution_report(&config, Some(&report)).unwrap();
    config.vllm_cudagraph_mode = None;
    config.vllm_compilation_mode = Some(0);
    validate_vllm_execution_report(&config, Some(&report)).unwrap();
    config.vllm_enforce_eager = None;
    assert!(has_explicit_vllm_execution_properties(&config));
    assert!(validate_vllm_execution_report(&config, None).is_err());
    config.vllm_compilation_mode = None;
    config.vllm_cudagraph_mode = Some("NONE".to_owned());
    assert!(has_explicit_vllm_execution_properties(&config));
    assert!(validate_vllm_execution_report(&config, None).is_err());
}

#[test]
fn vllm_compilation_observation_requires_all_ranks_and_matches_effective_fields() {
    let mut config = LoadConfig::vllm_safetensors("/tmp/checkpoint");
    config.vllm_enforce_eager = Some(false);
    config.vllm_compilation_mode = Some(0);
    config.vllm_cudagraph_mode = Some("FULL_DECODE_ONLY".to_owned());
    config.vllm_tensor_parallel = Some(2);
    let matching = compiled_report(
        2,
        vec![rank(1, 2, "FULL_DECODE_ONLY"), rank(0, 2, "FULL_DECODE_ONLY")],
    );
    validate_vllm_execution_report(&config, Some(&matching)).unwrap();

    let mutations: Vec<fn(&mut WorkerExecutionInfo)> = vec![
        |r| r.worker_execution_observation = None,
        |r| r.worker_execution_observation.as_mut().unwrap().source = "frontend_config".to_owned(),
        |r| r.worker_execution_observation.as_mut().unwrap().rank_count = 1,
        |r| r.worker_execution_observation.as_mut().unwrap().world_size = 1,
        |r| r.worker_execution_observation.as_mut().unwrap().ranks.clear(),
        |r| r.worker_execution_observation.as_mut().unwrap().ranks[0].rank = 0,
        |r| r.worker_execution_observation.as_mut().unwrap().ranks[0].rank = 2,
        |r| r.worker_execution_observation.as_mut().unwrap().ranks[0].local_rank = 2,
        |r| r.worker_execution_observation.as_mut().unwrap().ranks[0].world_size = 1,
        |r| r.worker_execution_observation.as_mut().unwrap().ranks[0].pid = 0,
        |r| r.worker_execution_observation.as_mut().unwrap().ranks[0].compilation_mode = 3,
        |r| {
            r.worker_execution_observation.as_mut().unwrap().ranks[0].cudagraph_mode =
                "NONE".to_owned()
        },
        |r| r.worker_execution_observation.as_mut().unwrap().ranks[1].compilation_mode = 3,
        |r| {
            r.worker_execution_observation.as_mut().unwrap().ranks[1].cudagraph_mode =
                "NONE".to_owned()
        },
    ];
    for mutate in mutations {
        let mut changed = matching.clone();
        mutate(&mut changed);
        assert!(validate_vllm_execution_report(&config, Some(&changed)).is_err());
    }
    let mut missing = matching.clone();
    missing.worker_execution_observation = None;
    config.vllm_compilation_mode = None;
    config.vllm_cudagraph_mode = None;
    validate_vllm_execution_report(&config, Some(&missing)).unwrap();
    validate_vllm_execution_report(&LoadConfig::vllm_safetensors("/tmp/checkpoint"), None)
        .unwrap();
}

#[test]
fn vllm_execution_report_must_match_explicit_properties() {
    let mut config = LoadConfig::vllm_safetensors("/tmp/checkpoint");
    config.vllm_enforce_eager = Some(false);
    config.vllm_linear_backend = Some("auto".to_owned());
    config.vllm_moe_backend = Some("cutlass".to_owned());
    config.vllm_mtp_num_speculative_tokens = Some(4);
    let matching = WorkerExecutionInfo {
        vllm_enforce_eager: Some(false),
        vllm_linear_backend: Some("auto".to_owned()),
        vllm_moe_backend: Some("cutlass".to_owned()),
        vllm_mtp_num_speculative_tokens: Some(4),
        ..WorkerExecutionInfo::default()
    };
    validate_vllm_execution_report(&config, Some(&matching))
        .expect("matching worker execution report");

    let mut mismatched = matching.clone();
    mismatched.vllm_mtp_num_speculative_tokens = Some(3);
    let error = validate_vllm_execution_report(&config, Some(&mismatched))
        .expect_err("mismatched worker execution report");
    assert!(error.message().contains("expected Some(4), got Some(3)"));

    let changes: Vec<(&str, fn(&mut WorkerExecutionInfo))> = vec![
        ("vllm_enforce_eager", |r| r.vllm_enforce_eager = Some(true)),
        ("vllm_enforce_eager", |r| r.vllm_enforce_eager = None),
        ("vllm_linear_backend", |r| r.vllm_linear_backend = Some("cutlass".to_owned())),
        ("vllm_linear_backend", |r| r.vllm_linear_backend = None),
        ("vllm_moe_backend", |r| r.vllm_moe_backend = Some("auto".to_owned())),
        ("vllm_moe_backend", |r| r.vllm_moe_backend = None),
        ("vllm_mtp_num_speculative_tokens", |r| r.vllm_mtp_num_speculative_tokens = None),
    ];
    for (field, change) in changes {
        let mut report = matching.clone();
        change(&mut report);
        let error = validate_vllm_execution_report(&config, Some(&report))
            .expect_err("changed or missing required execution property");
        assert!(error.message().contains(field));
    }

    let error =
        validate_vllm_execution_report(&config, None).expect_err("missing worker execution report");
    assert!(error.message().contains("did not report effective execution properties"));

    let legacy = LoadConfig::vllm_safetensors("/tmp/checkpoint");
    validate_vllm_execution_report(&legacy, None).expect("legacy fake workers remain compatible");
}

#[test]
fn eager_mismatch_names_both_values() {
    let mut config = LoadConfig::vllm_safetensors("/tmp/checkpoint");
    config.vllm_enforce_eager = Some(false);
    let report = WorkerExecutionInfo {
        vllm_enforce_eager: Some(true),
        ..WorkerExecutionInfo::default()
    };
    assert_eq!(
        validate_vllm_execution_report(&config, Some(&report)).unwrap_err(),
        EngineError::Vllm(
            "vLLM worker execution mismatch for vllm_enforce_eager: expected false, got true"
                .to_owned()
        )
    );
}

#[test]
fn oom_errors_are_recognized_case_insensitively() {
    assert!(is_vllm_oom_error(&EngineError::Vllm("CUDA out of memory".to_owned())));
    assert!(is_vllm_oom_error(&EngineError::Vllm("torch: CUDA OOM".to_owned())));
    assert!(!is_vllm_oom_error(&EngineError::Vllm("invalid sampling".to_owned())));
    assert!(!is_vllm_oom_error(&EngineError::InvalidConfig("out of memory".to_owned())));
}

#[test]
fn vllm_fatal_engine_event_fails_active_and_future_requests() {
    let mut router = WorkerRouter::new();
    router.register(1).unwrap();
    router.register(2).unwrap();
    let decision = router.route(0, "fatal", Some("vLLM engine is unhealthy".to_owned()));
    match decision {
        RouteDecision::FailAll { failure, notify } => {
            assert_eq!(failure, "vLLM engine is unhealthy");
            assert_eq!(notify, HashSet::from([1, 2]));
        }
        other => panic!("unexpected decision {other:?}"),
    }
    assert_eq!(router.failure().as_deref(), Some("vLLM engine is unhealthy"));
    assert!(router.register(3).is_err());
}

#[test]
fn vllm_request_error_does_not_mark_engine_unhealthy() {
    let mut router = WorkerRouter::new();
    router.register(1).unwrap();
    assert_eq!(
        router.route(1, "response", Some("invalid sampling parameter".to_owned())),
        RouteDecision::Deliver { id: 1, terminal: true }
    );
    assert!(router.failure().is_none());
    assert!(router.register(2).is_ok());
}

#[test]
fn vllm_route_overflow_is_bounded_and_does_not_fail_siblings() {
    let mut router = WorkerRouter::new();
    router.register(1).unwrap();
    router.register(2).unwrap();
    assert_eq!(router.route(1, "token", None), RouteDecision::Deliver { id: 1, terminal: false });
    router.record_send(1, false, SendOutcome::Sent);
    assert_eq!(router.route(1, "token", None), RouteDecision::Deliver { id: 1, terminal: false });
    router.record_send(1, false, SendOutcome::Full);
    assert_eq!(router.route(2, "response", None), RouteDecision::Deliver { id: 2, terminal: true });
    router.record_send(2, true, SendOutcome::Sent);
    assert_eq!(router.route(1, "response", None), RouteDecision::Ignore);
    let failure = router.take_route_failure(1).expect("overflow is reported");
    assert!(failure.contains("bounded response route capacity"));
    assert!(router.failure().is_none());
    assert!(router.is_idle());
}

#[test]
fn unknown_response_id_fails_the_worker() {
    let mut router = WorkerRouter::new();
    router.register(7).unwrap();
    match router.route(9, "response", None) {
        RouteDecision::FailAll { failure, notify } => {
            assert_eq!(failure, "vLLM backend worker returned an unknown request id 9");
            assert_eq!(notify, HashSet::from([7]));
        }
        other => panic!("unexpected decision {other:?}"),
    }
    assert!(!router.is_idle());
}

#[test]
fn duplicate_request_ids_are_refused_until_unregistered() {
    let mut router = WorkerRouter::new();
    router.register(4).unwrap();
    assert_eq!(
        router.register(4).unwrap_err(),
        EngineError::Vllm("duplicate active vLLM worker request id 4".to_owned())
    );
    router.abandon(4);
    assert!(router.register(4).is_err());
    router.unregister(4);
    assert!(router.register(4).is_ok());
}

use mayhem_engine::vllm::{
    check_isolated_worker, combine_batch_invariant, isolated_vllm_pool_plan, reported_ctx_train,
    retry_vllm_load_attempt, vllm_execution_capacity, IsolatedPoolPlan, VllmCapacity,
};

#[test]
fn shared_worker_capacity_is_bounded_by_scheduler_and_cache() {
    let mut config = LoadConfig::vllm_safetensors("/tmp/checkpoint");
    config.ctx_size = 1000;
    config.vllm_max_num_seqs = Some(4);
    assert_eq!(
        vllm_execution_capacity(&config, None),
        Ok(VllmCapacity { execution: 1, scheduler: 4, full_context: None })
    );
    config.vllm_concurrent_generation_capacity = Some(8);
    assert_eq!(
        vllm_execution_capacity(&config, None),
        Err(EngineError::InvalidConfig(
            "vLLM did not report runtime KV token capacity; independent generation remains unavailable"
                .to_owned()
        ))
    );
    assert_eq!(
        vllm_execution_capacity(&config, Some(10_500)),
        Ok(VllmCapacity { execution: 4, scheduler: 4, full_context: Some(10) })
    );
    assert_eq!(
        vllm_execution_capacity(&config, Some(2_500)),
        Ok(VllmCapacity { execution: 2, scheduler: 4, full_context: Some(2) })
    );
    assert_eq!(
        vllm_execution_capacity(&config, Some(999)),
        Err(EngineError::InvalidConfig(
            "vLLM runtime KV capacity of 999 tokens cannot serve ctx_size=1000".to_owned()
        ))
    );
}

#[test]
fn load_attempts_retry_only_out_of_memory_with_targets_left() {
    assert!(retry_vllm_load_attempt(true, 0, 2));
    assert!(!retry_vllm_load_attempt(true, 1, 2));
    assert!(!retry_vllm_load_attempt(false, 0, 2));
    assert_eq!(reported_ctx_train(0, 2048), 2048);
    assert_eq!(reported_ctx_train(4096, 2048), 4096);
}

#[test]
fn isolated_pools_split_memory_and_check_each_worker() {
    let mut config = LoadConfig::vllm_safetensors("/tmp/checkpoint");
    assert_eq!(
        isolated_vllm_pool_plan(&config),
        Err(EngineError::InvalidConfig("isolated vLLM worker count is missing".to_owned()))
    );
    config.vllm_concurrent_generation_capacity = Some(3);
    assert_eq!(
        isolated_vllm_pool_plan(&config),
        Err(EngineError::InvalidConfig("isolated vLLM address-space limit is missing".to_owned()))
    );
    config.vllm_worker_address_space_limit_bytes = Some(1 << 40);
    config.memory_limit_bytes = Some(3_000);
    assert_eq!(
        isolated_vllm_pool_plan(&config),
        Ok(IsolatedPoolPlan { workers: 3, child_memory_limit: Some(1_000), address_space_limit: 1 << 40 })
    );
    config.vllm_concurrent_generation_capacity = Some(0);
    assert_eq!(
        isolated_vllm_pool_plan(&config),
        Err(EngineError::InvalidConfig("isolated vLLM requires at least one worker".to_owned()))
    );

    assert_eq!(check_isolated_worker(0, 1000, Some(4_100), None, (32000, 8192)), Ok(4));
    assert_eq!(
        check_isolated_worker(1, 1000, None, Some((32000, 8192)), (32000, 8192)),
        Err(EngineError::InvalidConfig(
            "isolated vLLM worker 1 did not report runtime KV token capacity".to_owned()
        ))
    );
    assert_eq!(
        check_isolated_worker(1, 1000, Some(999), None, (32000, 8192)),
        Err(EngineError::InvalidConfig(
            "isolated vLLM worker 1 runtime KV capacity of 999 tokens cannot serve ctx_size=1000".to_owned()
        ))
    );
    assert_eq!(
        check_isolated_worker(2, 1000, Some(1000), Some((32000, 8192)), (32001, 8192)),
        Err(EngineError::Vllm("isolated vLLM worker 2 reported inconsistent model metadata".to_owned()))
    );

    assert_eq!(combine_batch_invariant(Some(true), Some(true)), Some(true));
    assert_eq!(combine_batch_invariant(Some(true), None), None);
    assert_eq!(combine_batch_invariant(None, Some(false)), Some(false));
    assert_eq!(combine_batch_invariant(Some(false), Some(true)), Some(false));
}

use mayhem_engine::vllm::{replacement_execution_matches, replacement_worker_verdict};

#[test]
fn replacement_workers_must_match_the_loaded_contract() {
    let expected = Some(compiled_report(2, vec![rank(0, 2, "FULL"), rank(1, 2, "FULL")]));
    let mut fresh = compiled_report(2, vec![rank(0, 2, "FULL"), rank(1, 2, "FULL")]);
    if let Some(observation) = fresh.worker_execution_observation.as_mut() {
        observation.ranks[0].pid = 999;
    }
    assert!(replacement_execution_matches(&Some(fresh.clone()), &expected));
    if let Some(observation) = fresh.worker_execution_observation.as_mut() {
        observation.ranks[1].pid = 0;
    }
    assert!(!replacement_execution_matches(&Some(fresh.clone()), &expected));
    let other = Some(compiled_report(2, vec![rank(0, 2, "FULL"), rank(1, 2, "PIECEWISE")]));
    assert!(!replacement_execution_matches(&other, &expected));
    assert!(replacement_execution_matches(&None, &None));
    assert!(!replacement_execution_matches(&None, &expected));

    assert_eq!(replacement_worker_verdict(32000, 8192, 1000, 32000, 0, Some(1500), true, true, true), Ok(1500));
    let refused = Err(EngineError::Vllm(
        "replacement isolated worker does not match the loaded execution contract".to_owned(),
    ));
    assert_eq!(replacement_worker_verdict(32000, 8192, 1000, 32001, 8192, Some(1500), true, true, true), refused);
    assert_eq!(replacement_worker_verdict(32000, 8192, 1000, 32000, 4096, Some(1500), true, true, true), refused);
    assert_eq!(replacement_worker_verdict(32000, 8192, 1000, 32000, 8192, None, true, true, true), refused);
    assert_eq!(replacement_worker_verdict(32000, 8192, 1000, 32000, 8192, Some(1500), false, true, true), refused);
    assert_eq!(replacement_worker_verdict(32000, 8192, 1000, 32000, 8192, Some(1500), true, true, false), refused);
}

use mayhem_engine::json::to_json_text;
use mayhem_engine::vllm::{trt_load_payload, vllm_load_payload};

#[test]
fn worker_load_payloads_carry_the_configuration() {
    let mut config = LoadConfig::trt_llm_checkpoint("/t");
    config.ctx_size = 4096;
    assert_eq!(
        to_json_text(&trt_load_payload(&config, "/t/rank0.safetensors")),
        r#"{"path":"/t/rank0.safetensors","ctx_size":4096,"max_batch_size":512,"max_num_tokens":4096,"engine_dir":null,"tensor_parallel":1,"kv_cache_dtype":null,"require_engine_dir":false}"#
    );
    config.trt_engine_dir = Some("/e".to_owned());
    config.trt_tensor_parallel = Some(2);
    config.trt_require_engine_dir = true;
    config.ubatch_size = 8192;
    assert_eq!(
        to_json_text(&trt_load_payload(&config, "/t")),
        r#"{"path":"/t","ctx_size":4096,"max_batch_size":512,"max_num_tokens":8192,"engine_dir":"/e","tensor_parallel":2,"kv_cache_dtype":null,"require_engine_dir":true}"#
    );

    let mut config = LoadConfig::vllm_safetensors("/v");
    config.vllm_max_num_seqs = Some(8);
    assert_eq!(
        to_json_text(&vllm_load_payload(&config, "/v")),
        r#"{"path":"/v","ctx_size":2048,"max_batch_size":8,"max_num_tokens":512,"tensor_parallel":1,"dtype":null,"kv_cache_dtype":null}"#
    );
    config.vllm_enforce_eager = Some(false);
    config.vllm_cudagraph_mode = Some("FULL".to_owned());
    config.vllm_mtp_num_speculative_tokens = Some(3);
    assert_eq!(
        to_json_text(&vllm_load_payload(&config, "/v")),
        r#"{"path":"/v","ctx_size":2048,"max_batch_size":8,"max_num_tokens":512,"tensor_parallel":1,"dtype":null,"kv_cache_dtype":null,"vllm_enforce_eager":false,"vllm_cudagraph_mode":"FULL","vllm_mtp_num_speculative_tokens":3}"#
    );
}

use mayhem_engine::json::JsonValue;

/// The JSON text of a payload member, or `None` where it is absent.
fn member(payload: &JsonValue, key: &str) -> Option<String> {
    payload.get(key).map(to_json_text)
}

fn text(s: &str) -> Option<String> {
    Some(s.to_owned())
}

#[test]
fn trt_load_payload_carries_capacity_knobs() {
    let mut config = LoadConfig::trt_llm_checkpoint("/tmp/checkpoint");
    config.ctx_size = 1024;
    config.batch_size = 4;
    config.ubatch_size = 512;
    config.trt_engine_dir = Some("/tmp/engine".to_owned());
    config.trt_tensor_parallel = Some(2);
    config.trt_kv_cache_dtype = Some("fp8".to_owned());
    config.trt_require_engine_dir = true;

    let payload = trt_load_payload(&config, "/tmp/checkpoint");
    assert_eq!(member(&payload, "ctx_size"), text("1024"));
    assert_eq!(member(&payload, "max_batch_size"), text("4"));
    assert_eq!(member(&payload, "max_num_tokens"), text("1024"));
    assert_eq!(member(&payload, "tensor_parallel"), text("2"));
    assert_eq!(member(&payload, "kv_cache_dtype"), text("\"fp8\""));
    assert_eq!(member(&payload, "require_engine_dir"), text("true"));

    config.ubatch_size = 4096;
    let payload = trt_load_payload(&config, "/tmp/checkpoint");
    assert_eq!(member(&payload, "max_num_tokens"), text("4096"));
}

#[test]
fn vllm_load_payload_carries_capacity_knobs() {
    let mut legacy = LoadConfig::vllm_safetensors("/tmp/checkpoint");
    let legacy_payload = vllm_load_payload(&legacy, "/tmp/checkpoint");
    assert_eq!(
        member(&legacy_payload, "max_batch_size"),
        Some(mayhem_engine::DEFAULT_BATCH_SIZE.to_string())
    );
    legacy.batch_size = 7;
    let legacy_payload = vllm_load_payload(&legacy, "/tmp/checkpoint");
    assert_eq!(member(&legacy_payload, "max_batch_size"), text("7"));

    let mut config = LoadConfig::vllm_safetensors("/tmp/checkpoint");
    config.ctx_size = 1024;
    config.vllm_max_num_seqs = Some(4);
    config.ubatch_size = 512;
    config.vllm_tensor_parallel = Some(2);
    config.vllm_dtype = Some("float16".to_owned());
    config.vllm_kv_cache_dtype = Some("fp8".to_owned());
    config.vllm_gpu_memory_utilization_pct = Some(45);

    let payload = vllm_load_payload(&config, "/tmp/checkpoint");
    assert_eq!(member(&payload, "ctx_size"), text("1024"));
    assert_eq!(member(&payload, "max_batch_size"), text("4"));
    assert_eq!(member(&payload, "max_num_tokens"), text("512"));
    assert_eq!(member(&payload, "tensor_parallel"), text("2"));
    assert_eq!(member(&payload, "dtype"), text("\"float16\""));
    assert_eq!(member(&payload, "kv_cache_dtype"), text("\"fp8\""));
    let share: f64 = member(&payload, "gpu_memory_utilization").unwrap().parse().unwrap();
    assert_eq!(share, 0.45);

    config.ctx_size = 131_072;
    let payload = vllm_load_payload(&config, "/tmp/checkpoint");
    assert_eq!(member(&payload, "ctx_size"), text("131072"));
    assert_eq!(member(&payload, "max_num_tokens"), text("512"));
}

#[test]
fn gpu_share_texts_read_back_as_the_fraction() {
    for pct in [1u32, 5, 10, 45, 90, 99, 100, 150, 1234] {
        let mut config = LoadConfig::vllm_safetensors("/tmp/checkpoint");
        config.vllm_gpu_memory_utilization_pct = Some(pct);
        let payload = vllm_load_payload(&config, "/tmp/checkpoint");
        let text = member(&payload, "gpu_memory_utilization").unwrap();
        let value: serde_json::Value = serde_json::from_str(&text).unwrap();
        assert_eq!(value, serde_json::Value::from(f64::from(pct) / 100.0), "{pct}");
        assert_eq!(text, serde_json::to_string(&(f64::from(pct) / 100.0)).unwrap(), "{pct}");
    }
}

#[test]
fn vllm_execution_payload_preserves_legacy_absence_and_carries_explicit_values() {
    let legacy = LoadConfig::vllm_safetensors("/tmp/checkpoint");
    let legacy_payload = vllm_load_payload(&legacy, "/tmp/checkpoint");
    assert!(legacy_payload.is_object());
    assert!(member(&legacy_payload, "vllm_enforce_eager").is_none());
    assert!(member(&legacy_payload, "vllm_linear_backend").is_none());
    assert!(member(&legacy_payload, "vllm_moe_backend").is_none());
    assert!(member(&legacy_payload, "vllm_mtp_num_speculative_tokens").is_none());

    let mut explicit = LoadConfig::vllm_safetensors("/tmp/checkpoint");
    explicit.vllm_enforce_eager = Some(false);
    explicit.vllm_linear_backend = Some("auto".to_owned());
    explicit.vllm_moe_backend = Some("flashinfer_cutlass".to_owned());
    explicit.vllm_mtp_num_speculative_tokens = Some(4);
    validate_load_config(&explicit).expect("valid explicit vLLM execution properties");
    let payload = vllm_load_payload(&explicit, "/tmp/checkpoint");
    assert_eq!(member(&payload, "vllm_enforce_eager"), text("false"));
    assert_eq!(member(&payload, "vllm_linear_backend"), text("\"auto\""));
    assert_eq!(member(&payload, "vllm_moe_backend"), text("\"flashinfer_cutlass\""));
    assert_eq!(member(&payload, "vllm_mtp_num_speculative_tokens"), text("4"));
}

#[test]
fn vllm_execution_compilation_controls_are_optional_and_bounded() {
    let mut config = LoadConfig::vllm_safetensors("/tmp/checkpoint");
    let payload = vllm_load_payload(&config, "/tmp/checkpoint");
    for field in ["vllm_compilation_mode", "vllm_cudagraph_mode"] {
        assert!(member(&payload, field).is_none());
    }
    assert!(config.vllm_compilation_mode.is_none() && config.vllm_cudagraph_mode.is_none());

    config.vllm_enforce_eager = Some(false);
    for mode in 0..=3 {
        config.vllm_compilation_mode = Some(mode);
        for graph in ["NONE", "FULL_DECODE_ONLY", "FULL", "PIECEWISE", "FULL_AND_PIECEWISE"] {
            config.vllm_cudagraph_mode = Some(graph.to_owned());
            validate_load_config(&config).unwrap();
            let payload = vllm_load_payload(&config, "/tmp/checkpoint");
            assert_eq!(member(&payload, "vllm_compilation_mode"), Some(mode.to_string()));
            assert_eq!(member(&payload, "vllm_cudagraph_mode"), Some(format!("\"{graph}\"")));
        }
    }
    config.vllm_compilation_mode = Some(4);
    assert!(validate_load_config(&config).is_err());
    config.vllm_compilation_mode = Some(0);
    for graph in ["", "full", "DECODE_ONLY", " FULL", "FULL "] {
        config.vllm_cudagraph_mode = Some(graph.to_owned());
        assert!(validate_load_config(&config).is_err(), "{graph:?}");
    }
    for eager in [None, Some(true)] {
        config.vllm_enforce_eager = eager;
        config.vllm_cudagraph_mode = Some("NONE".to_owned());
        validate_load_config(&config).unwrap();
        config.vllm_compilation_mode = Some(1);
        assert!(validate_load_config(&config).is_err());
        config.vllm_compilation_mode = Some(0);
        config.vllm_cudagraph_mode = Some("FULL_DECODE_ONLY".to_owned());
        assert!(validate_load_config(&config).is_err());
    }
    for field in ["vllm_compilation_mode", "vllm_cudagraph_mode"] {
        let mut non_vllm = LoadConfig::gguf("/tmp/model.gguf");
        if field == "vllm_compilation_mode" {
            non_vllm.vllm_compilation_mode = Some(0);
        } else {
            non_vllm.vllm_cudagraph_mode = Some("NONE".to_owned());
        }
        assert!(validate_load_config(&non_vllm).is_err());
    }
}

#[test]
fn trt_worker_timeout_override_is_validated() {
    assert_eq!(trt_request_timeout_from(None).unwrap(), None);
    assert_eq!(trt_request_timeout_from(Some("0")).unwrap(), None);
    assert_eq!(trt_request_timeout_from(Some("600")).unwrap(), Some(600));
    assert!(trt_request_timeout_from(Some("later")).is_err());
}

use mayhem_engine::worker::GenerationLimiter;

#[test]
fn generation_limiter_hands_out_the_lowest_free_slot_once() {
    let mut limiter = GenerationLimiter::new(0);
    assert_eq!(limiter.capacity(), 1);
    let mut limiter = GenerationLimiter::new(3);
    assert_eq!(limiter.capacity(), 3);
    assert!(limiter.try_acquire_slot(1));
    assert!(!limiter.try_acquire_slot(1));
    assert!(!limiter.try_acquire_slot(3));
    assert_eq!(limiter.acquire_free_slot(), Some(0));
    assert_eq!(limiter.acquire_free_slot(), Some(2));
    assert_eq!(limiter.acquire_free_slot(), None);
    limiter.release(1);
    assert_eq!(limiter.acquire_free_slot(), Some(1));
    limiter.release(7);
    assert_eq!(limiter.acquire_free_slot(), None);
}

#[test]
fn a_disconnected_waiter_abandons_its_request_until_the_last_message() {
    let mut router = WorkerRouter::new();
    router.register(5).unwrap();
    assert_eq!(router.route(5, "token", None), RouteDecision::Deliver { id: 5, terminal: false });
    router.record_send(5, false, SendOutcome::Disconnected);
    assert_eq!(router.route(5, "token", None), RouteDecision::Ignore);
    assert!(!router.is_idle());
    assert_eq!(router.route(5, "response", None), RouteDecision::Ignore);
    assert_eq!(router.take_route_failure(5), None);
    assert!(router.is_idle());
}
