use upscale_core::cache::{
    CacheDecision, Job, JobStore, ModelCache, SessionHandle, LOW_MEMORY_THRESHOLD_BYTES,
};
use upscale_core::engine::{Dtype, ModelConstraints, Provider};
use upscale_core::error::AppError;
use upscale_core::stub::StubSession;

fn handle(id: u64) -> SessionHandle {
    SessionHandle {
        session_id: id,
        provider: Provider::Cpu,
        constraints: ModelConstraints {
            input_dtype: Dtype::Fp32,
            fixed_spatial: None,
            fixed_batch: None,
        },
    }
}

const PLENTY: u64 = LOW_MEMORY_THRESHOLD_BYTES * 4;

#[test]
fn cache_idempotence() {
    // Two consecutive lookups for the same path return the same
    // session handle.
    let mut cache = ModelCache::new();
    let path = "models/a_x2.onnx".to_string();
    match cache.lookup_session(&path, PLENTY) {
        CacheDecision::LoadFresh { cache_after } => assert!(cache_after),
        CacheDecision::Cached(_) => panic!("empty cache returned a session"),
    }
    cache.store_session(&path, handle(7));
    for _ in 0..2 {
        match cache.lookup_session(&path, PLENTY) {
            CacheDecision::Cached(h) => assert_eq!(h.session_id, 7),
            CacheDecision::LoadFresh { .. } => panic!("cached path was not served"),
        }
    }
}

#[test]
fn cache_replaces_on_other_path() {
    let mut cache = ModelCache::new();
    let a = "a.onnx".to_string();
    let b = "b.onnx".to_string();
    cache.store_session(&a, handle(1));
    match cache.lookup_session(&b, PLENTY) {
        CacheDecision::LoadFresh { cache_after } => assert!(cache_after),
        CacheDecision::Cached(_) => panic!("wrong path was served"),
    }
    cache.store_session(&b, handle(2));
    match cache.lookup_session(&b, PLENTY) {
        CacheDecision::Cached(h) => assert_eq!(h.session_id, 2),
        CacheDecision::LoadFresh { .. } => panic!("cached path was not served"),
    }
}

#[test]
fn low_memory_bypasses_the_cache() {
    // Below the preflight threshold the slot is not used, even when it
    // matches, and a fresh load is not cached.
    let mut cache = ModelCache::new();
    let path = "a.onnx".to_string();
    cache.store_session(&path, handle(1));
    match cache.lookup_session(&path, LOW_MEMORY_THRESHOLD_BYTES - 1) {
        CacheDecision::LoadFresh { cache_after } => assert!(!cache_after),
        CacheDecision::Cached(_) => panic!("low memory should bypass the cache"),
    }
}

#[test]
fn scale_is_cached_after_a_probe() {
    let mut cache = ModelCache::new();
    let path = "a_x2.onnx".to_string();
    let mut session = StubSession::new(2);
    assert_eq!(cache.get_model_scale(&path, &mut session).unwrap(), 2);
    assert_eq!(session.probes_run, 1);
    // The second call answers from the cache without probing.
    assert_eq!(cache.get_model_scale(&path, &mut session).unwrap(), 2);
    assert_eq!(session.probes_run, 1);
}

#[test]
fn negative_cache_blocks_the_next_probe() {
    // A failing probe is remembered: the next call for the same path
    // fails immediately with the negative-cache error and runs no
    // probe at all.
    let mut cache = ModelCache::new();
    let path = "broken.onnx".to_string();
    let mut session = StubSession::failing_probes(2);
    assert!(cache.get_model_scale(&path, &mut session).is_err());
    assert_eq!(session.probes_run, 3);
    let second = cache.get_model_scale(&path, &mut session);
    assert!(matches!(second, Err(AppError::NegativeCacheHit)));
    assert_eq!(session.probes_run, 3);
    // Other paths are unaffected.
    let other = "fine_x3.onnx".to_string();
    let mut good = StubSession::new(3);
    assert_eq!(cache.get_model_scale(&other, &mut good).unwrap(), 3);
}

#[test]
fn invalidation_forgets_a_path() {
    let mut cache = ModelCache::new();
    let path = "a.onnx".to_string();
    let other = "b.onnx".to_string();
    let mut session = StubSession::new(2);
    let mut session3 = StubSession::new(3);
    cache.get_model_scale(&path, &mut session).unwrap();
    cache.get_model_scale(&other, &mut session3).unwrap();
    cache.store_session(&path, handle(5));
    cache.invalidate_cache(&path);
    // The scale for the invalidated path is re-probed...
    let mut fresh = StubSession::new(2);
    cache.get_model_scale(&path, &mut fresh).unwrap();
    assert_eq!(fresh.probes_run, 1);
    // ...the other path still answers from the cache...
    let mut untouched = StubSession::new(3);
    assert_eq!(cache.get_model_scale(&other, &mut untouched).unwrap(), 3);
    assert_eq!(untouched.probes_run, 0);
    // ...and the session slot was emptied.
    match cache.lookup_session(&path, PLENTY) {
        CacheDecision::LoadFresh { cache_after } => assert!(cache_after),
        CacheDecision::Cached(_) => panic!("invalidated slot was served"),
    }
}

#[test]
fn job_store_updates_the_first_match() {
    let mut store = JobStore::new();
    store.add_job(Job {
        id: "j1".to_string(),
        path: "a.png".to_string(),
        status: "pending".to_string(),
        model: "m.onnx".to_string(),
    });
    store.add_job(Job {
        id: "j2".to_string(),
        path: "b.png".to_string(),
        status: "pending".to_string(),
        model: "m.onnx".to_string(),
    });
    assert!(store.update_job_status(&"j2".to_string(), "done".to_string()));
    assert_eq!(store.jobs[0].status, "pending");
    assert_eq!(store.jobs[1].status, "done");
    assert!(!store.update_job_status(&"j9".to_string(), "done".to_string()));
}
