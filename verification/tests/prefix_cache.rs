use mayhem_engine::error::EngineError;
use mayhem_engine::prefix_cache::{PrefixCache, PREFIX_CACHE_DEFAULT_BYTES};

#[test]
fn budget_comes_from_the_environment_value() {
    let cache = PrefixCache::from_env_value(None).expect("default budget");
    assert_eq!(cache.max_bytes, PREFIX_CACHE_DEFAULT_BYTES);
    assert!(cache.enabled());
    assert_eq!(PrefixCache::from_env_value(Some("67108864")).expect("minimum").max_bytes, 67_108_864);
    assert_eq!(
        PrefixCache::from_env_value(Some("lots")).unwrap_err(),
        EngineError::InvalidConfig("MAYHEM_LLM_PREFIX_CACHE_MAX_BYTES must be an unsigned byte count".to_owned())
    );
    assert_eq!(
        PrefixCache::from_env_value(Some("1024")).unwrap_err(),
        EngineError::InvalidConfig(
            "prefix caching is required; MAYHEM_LLM_PREFIX_CACHE_MAX_BYTES must be at least 64 MiB".to_owned()
        )
    );
    assert!(!PrefixCache::new(1024).enabled());
}

#[test]
fn restore_reuses_the_common_prefix_but_the_last_token() {
    let mut cache = PrefixCache::new(1 << 30);
    assert_eq!(cache.restore_begin(&[1, 2, 3]), 0);
    assert_eq!(cache.last_tokens(), (3, 0));

    assert!(cache.save_begin(1000, 3));
    assert!(cache.save_commit(&[1, 2, 3], 1000));
    assert_eq!(cache.restore_begin(&[1, 2, 3]), 2);
    assert_eq!(cache.restore_begin(&[1, 2, 9, 9]), 2);
    assert_eq!(cache.restore_begin(&[1, 2, 3, 4]), 3);
    assert!(!cache.needs_trim(3));
    assert!(cache.needs_trim(2));
    assert_eq!(cache.restore_loaded(&[1, 2, 3]), Ok(()));
    assert_eq!(cache.restore_finish(3, true), 3);
    assert_eq!(cache.last_tokens(), (4, 3));
    assert_eq!(cache.restore_begin(&[7]), 0);
    assert_eq!(cache.restore_finish(0, false), 0);
    assert_eq!(cache.last_tokens(), (1, 0));
}

#[test]
fn a_changed_snapshot_is_dropped() {
    let mut cache = PrefixCache::new(1 << 30);
    assert!(cache.save_begin(10, 2));
    assert!(cache.save_commit(&[5, 6], 10));
    assert_eq!(
        cache.restore_loaded(&[5, 7]),
        Err(EngineError::InvalidConfig("llama.cpp prefix token identity changed".to_owned()))
    );
    assert!(!cache.has_snapshot);
    assert!(cache.tokens.is_empty());
}

#[test]
fn snapshots_must_fit_the_budget() {
    let mut cache = PrefixCache::new(100);
    assert!(cache.save_begin(92, 2));
    assert!(!cache.save_begin(93, 2));
    assert!(!cache.save_begin(0, 2));
    assert!(cache.save_begin(100, 0));
    assert!(!cache.save_commit(&[1], 101));
    assert!(!cache.has_snapshot);
    let mut off = PrefixCache::new(0);
    assert!(!off.save_begin(1, 1));
}
