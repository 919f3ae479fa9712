//! End-to-end runs of the execution engine: the compile pipeline, the
//! result cache, the container inventory, the monitor and the retry policy.

use sandbox_engine::cache::{cache_key, ResultCache};
use sandbox_engine::config::Config;
use sandbox_engine::error::CompilerError;
use sandbox_engine::executor::{
    attempt_outcome, collect_output, OutputChunk, RetryDecision, RetryPolicy, StreamKind,
};
use sandbox_engine::inventory::{AcquireOutcome, ContainerInventory};
use sandbox_engine::lang::{parse_language, LanguageId};
use sandbox_engine::model::ExecutionRequest;
use sandbox_engine::monitor::{MonitorVerdict, ResourceMonitor};
use sandbox_engine::output::classify_output;
use sandbox_engine::pool::{CompileGate, ContainerPool};

fn default_pool() -> ContainerPool {
    ContainerPool::new(Config::default())
}

fn request(source: &str, language: LanguageId) -> ExecutionRequest {
    ExecutionRequest { source: String::from(source), language }
}

#[test]
fn scenario_javascript_then_cached() {
    // First request on an empty inventory: creates exactly one javascript
    // container, returns {output: "2\n", error: null, cached: false}.
    let mut pool = default_pool();
    let req = request("console.log(1+1)", LanguageId::JavaScript);

    let gate = pool.compile_gate(true, &req, 100);
    assert!(matches!(gate, CompileGate::Proceed));

    let step = pool.inventory.acquire(LanguageId::JavaScript);
    assert!(matches!(step, AcquireOutcome::MustCreate));
    let handle = pool
        .register_created(LanguageId::JavaScript, String::from("c-js-1"), 100_000)
        .unwrap();
    assert_eq!(handle.id, "c-js-1");
    assert_eq!(pool.inventory.count_for(LanguageId::JavaScript), 1);

    let cmd = sandbox_engine::command::build_command(LanguageId::JavaScript, &req.source);
    assert_eq!(cmd, vec!["node", "-e", "console.log(1+1)"]);

    // The container ran the command; stdout was "2\n", stderr empty.
    let classified = classify_output("2\n", "");
    let outcome = attempt_outcome(false, Ok(classified));
    let result = pool.finish_compile(&req, "c-js-1", outcome, 42, 100);
    assert_eq!(result.output, "2\n");
    assert!(result.error.is_none());
    assert!(!result.from_cache);
    assert_eq!(result.elapsed_ms, 42);
    // The container went back into the inventory, not destroyed.
    assert_eq!(pool.inventory.count_for(LanguageId::JavaScript), 1);

    // Second identical request within the TTL: served from the cache, no
    // container work.
    let count_before = pool.inventory.count_for(LanguageId::JavaScript);
    let gate2 = pool.compile_gate(true, &req, 200);
    match gate2 {
        CompileGate::CacheHit(res) => {
            assert_eq!(res.output, "2\n");
            assert!(res.error.is_none());
            assert!(res.from_cache);
        },
        _ => panic!("expected a cache hit"),
    }
    assert_eq!(pool.inventory.count_for(LanguageId::JavaScript), count_before);
}

#[test]
fn scenario_unsupported_language_rejected_up_front() {
    // An unsupported tag fails before any inventory or cache work.
    let pool = default_pool();
    assert_eq!(parse_language("cobol"), Err(CompilerError::UnsupportedLanguage));
    assert_eq!(
        sandbox_engine::command::prepare_execution_command("cobol", "DISPLAY '2'."),
        Err(CompilerError::UnsupportedLanguage)
    );
    // Nothing was created and nothing cached.
    assert_eq!(pool.inventory.count_for(LanguageId::JavaScript), 0);
    assert_eq!(pool.cache.entries.len(), 0);
}

#[test]
fn rate_limited_request_is_rejected() {
    let pool = default_pool();
    let req = request("print(1)", LanguageId::Python);
    match pool.compile_gate(false, &req, 0) {
        CompileGate::Rejected(res) => {
            assert_eq!(res.output, "");
            assert_eq!(
                res.error.as_deref(),
                Some("Rate limit exceeded. Please try again later.")
            );
            assert!(!res.from_cache);
            assert_eq!(res.elapsed_ms, 0);
        },
        _ => panic!("expected rejection"),
    }
}

#[test]
fn cache_round_trip_until_ttl_expiry() {
    // Store at t=1000 with a 3600 s TTL: hits strictly before 4600, none after.
    let mut cache = ResultCache::new(3600);
    cache.store(LanguageId::Python, "print(42)", "42\n", &None, 7, 1000);

    let hit = cache.lookup(LanguageId::Python, "print(42)", 1000).unwrap();
    assert_eq!(hit.output, "42\n");
    assert!(hit.error.is_none());
    assert_eq!(hit.elapsed_ms, 7);
    assert!(hit.from_cache);

    let late_hit = cache.lookup(LanguageId::Python, "print(42)", 4599).unwrap();
    assert_eq!(late_hit.output, "42\n");

    assert!(cache.lookup(LanguageId::Python, "print(42)", 4600).is_none());
    assert!(cache.lookup(LanguageId::Python, "print(42)", 9999).is_none());

    // A different source is a different key.
    assert!(cache.lookup(LanguageId::Python, "print(43)", 1000).is_none());
    // Same source under another language is a different key.
    assert!(cache.lookup(LanguageId::JavaScript, "print(42)", 1000).is_none());
}

#[test]
fn cache_store_replaces_same_key() {
    let mut cache = ResultCache::new(100);
    cache.store(LanguageId::C, "int x;", "old", &None, 1, 0);
    cache.store(LanguageId::C, "int x;", "new", &None, 2, 10);
    let hit = cache.lookup(LanguageId::C, "int x;", 50).unwrap();
    assert_eq!(hit.output, "new");
    assert_eq!(hit.elapsed_ms, 2);
    // The replacement refreshed the expiry: valid until 110.
    assert!(cache.lookup(LanguageId::C, "int x;", 109).is_some());
    assert!(cache.lookup(LanguageId::C, "int x;", 110).is_none());
}

#[test]
fn cache_key_is_content_addressed() {
    // The key embeds the language tag and the SHA-256 hex digest of the
    // source, so identical inputs map to identical keys.
    let key = cache_key(LanguageId::JavaScript, "console.log(1+1)");
    assert_eq!(
        key,
        "compile:javascript:1aefe41dee9ad726cc3666c355472083206c904eabf46685f67058e87729ad35"
    );
    assert_eq!(key, cache_key(LanguageId::JavaScript, "console.log(1+1)"));
    let other = cache_key(LanguageId::Python, "print(42)");
    assert_eq!(
        other,
        "compile:python:c2d6e9060cbe8dee44279258cc8677d7a20ec16eeeccfedd09b840283efd3685"
    );
}

#[test]
fn pool_cap_is_never_exceeded() {
    // Register up to the cap; the next registration is refused, and a
    // saturated lane shares its oldest container instead of creating.
    let mut inventory = ContainerInventory::new(3);
    for i in 0..3 {
        assert!(matches!(inventory.acquire(LanguageId::Rust), AcquireOutcome::MustCreate));
        let id = format!("rust-{}", i);
        inventory
            .register(sandbox_engine::inventory::ContainerHandle {
                id: String::from(id),
                language: LanguageId::Rust,
                created_at: i,
            })
            .unwrap();
        assert!(inventory.count_for(LanguageId::Rust) <= 3);
    }
    assert_eq!(inventory.count_for(LanguageId::Rust), 3);

    // Over the cap: registration is a creation failure.
    let refused = inventory.register(sandbox_engine::inventory::ContainerHandle {
        id: String::from("rust-overflow"),
        language: LanguageId::Rust,
        created_at: 99,
    });
    assert_eq!(refused, Err(CompilerError::ContainerCreationFailed));
    assert_eq!(inventory.count_for(LanguageId::Rust), 3);

    // A saturated lane with nothing free shares the oldest checked-out one.
    match inventory.acquire(LanguageId::Rust) {
        AcquireOutcome::SharedOldest(h) => assert_eq!(h.id, "rust-0"),
        _ => panic!("expected sharing under saturation"),
    }
    assert_eq!(inventory.count_for(LanguageId::Rust), 3);

    // Duplicate ids are refused too.
    assert!(matches!(inventory.acquire(LanguageId::Python), AcquireOutcome::MustCreate));
    let dup = inventory.register(sandbox_engine::inventory::ContainerHandle {
        id: String::from("rust-0"),
        language: LanguageId::Python,
        created_at: 5,
    });
    assert_eq!(dup, Err(CompilerError::ContainerCreationFailed));
}

#[test]
fn released_handle_is_reused_before_creating() {
    // One prior released handle, no cap pressure: the next acquire returns
    // it rather than creating a new container.
    let mut inventory = ContainerInventory::new(5);
    assert!(matches!(inventory.acquire(LanguageId::Zig), AcquireOutcome::MustCreate));
    inventory
        .register(sandbox_engine::inventory::ContainerHandle {
            id: String::from("zig-1"),
            language: LanguageId::Zig,
            created_at: 1,
        })
        .unwrap();
    inventory.release(LanguageId::Zig, "zig-1");
    match inventory.acquire(LanguageId::Zig) {
        AcquireOutcome::Reused(h) => assert_eq!(h.id, "zig-1"),
        _ => panic!("expected reuse of the released handle"),
    }
    assert_eq!(inventory.count_for(LanguageId::Zig), 1);
}

#[test]
fn most_recently_released_is_reused_first() {
    let mut inventory = ContainerInventory::new(5);
    for (i, id) in ["cpp-a", "cpp-b"].iter().enumerate() {
        assert!(matches!(inventory.acquire(LanguageId::Cpp), AcquireOutcome::MustCreate));
        inventory
            .register(sandbox_engine::inventory::ContainerHandle {
                id: String::from(*id),
                language: LanguageId::Cpp,
                created_at: i as u64,
            })
            .unwrap();
    }
    inventory.release(LanguageId::Cpp, "cpp-a");
    inventory.release(LanguageId::Cpp, "cpp-b");
    // LIFO: the front of the reuse list is the most recently released.
    match inventory.acquire(LanguageId::Cpp) {
        AcquireOutcome::Reused(h) => assert_eq!(h.id, "cpp-b"),
        _ => panic!("expected reuse"),
    }
}

#[test]
fn liveness_sweep_drops_dead_containers() {
    let mut inventory = ContainerInventory::new(5);
    for id in ["c-1", "c-2"] {
        assert!(matches!(inventory.acquire(LanguageId::C), AcquireOutcome::MustCreate));
        inventory
            .register(sandbox_engine::inventory::ContainerHandle {
                id: String::from(id),
                language: LanguageId::C,
                created_at: 0,
            })
            .unwrap();
    }
    inventory.release(LanguageId::C, "c-1");
    // c-1 is available, c-2 in use. The probe found c-1 dead.
    let avail_alive = vec![false];
    let used_alive = vec![true];
    inventory.apply_liveness(LanguageId::C, &avail_alive, &used_alive);
    assert_eq!(inventory.count_for(LanguageId::C), 1);
    assert!(!inventory.is_tracked("c-1"));
    assert!(inventory.is_tracked("c-2"));
}

#[test]
fn remove_tracked_forgets_the_container_first() {
    let mut inventory = ContainerInventory::new(5);
    assert!(matches!(inventory.acquire(LanguageId::Csharp), AcquireOutcome::MustCreate));
    inventory
        .register(sandbox_engine::inventory::ContainerHandle {
            id: String::from("cs-1"),
            language: LanguageId::Csharp,
            created_at: 0,
        })
        .unwrap();
    assert!(inventory.is_tracked("cs-1"));
    inventory.remove_tracked("cs-1");
    assert!(!inventory.is_tracked("cs-1"));
    assert_eq!(inventory.count_for(LanguageId::Csharp), 0);
}

#[test]
fn shutdown_drains_every_container_exactly_once() {
    let mut pool = default_pool();
    for (lang, id) in [
        (LanguageId::JavaScript, "js-1"),
        (LanguageId::JavaScript, "js-2"),
        (LanguageId::Python, "py-1"),
    ] {
        assert!(matches!(pool.inventory.acquire(lang), AcquireOutcome::MustCreate));
        pool.register_created(lang, String::from(id), 0).unwrap();
    }
    let drained = pool.shutdown_plan();
    let mut ids: Vec<&str> = drained.iter().map(|h| h.id.as_str()).collect();
    ids.sort();
    assert_eq!(ids, vec!["js-1", "js-2", "py-1"]);
    assert_eq!(pool.inventory.count_for(LanguageId::JavaScript), 0);
    assert_eq!(pool.inventory.count_for(LanguageId::Python), 0);
}

#[test]
fn monitor_flags_breach_within_one_interval() {
    let monitor = ResourceMonitor::new(512 * 1024 * 1024);
    assert_eq!(monitor.assess_sample(Some(512 * 1024 * 1024)), MonitorVerdict::KeepWatching);
    assert_eq!(monitor.assess_sample(Some(512 * 1024 * 1024 + 1)), MonitorVerdict::ForceRemove);
    assert_eq!(monitor.assess_sample(None), MonitorVerdict::KeepWatching);

    // A run of samples: the breach is acted on at its first occurrence.
    let samples = vec![Some(100), None, Some(600_000_000), Some(700_000_000)];
    assert_eq!(monitor.first_breach(&samples), Some(2));
    let calm = vec![Some(100), Some(200), None];
    assert_eq!(monitor.first_breach(&calm), None);

    // The in-flight attempt surfaces the limit, not a hang or a crash.
    let joined = attempt_outcome(true, Ok(String::from("ignored")));
    assert_eq!(joined, Err(CompilerError::ResourceLimitExceeded));
}

#[test]
fn timeout_is_terminal_and_exact() {
    // A stream that never closes is cut off at the configured timeout and
    // yields ExecutionTimeout; the partial chunks are discarded.
    let chunks = vec![OutputChunk {
        at_ms: 1,
        stream: StreamKind::Stdout,
        text: String::from("partial"),
    }];
    assert_eq!(collect_output(&chunks, None, 10_000), Err(CompilerError::ExecutionTimeout));
    // Closing just past the budget is still a timeout; at the budget it is not.
    assert_eq!(collect_output(&chunks, Some(10_001), 10_000), Err(CompilerError::ExecutionTimeout));
    let ok = collect_output(&chunks, Some(10_000), 10_000).unwrap();
    assert_eq!(ok.0, "partial");
    assert_eq!(ok.1, "");

    // Never a retry: a timeout is terminal whatever budget is left.
    let policy = RetryPolicy::standard();
    assert_eq!(policy.next_action(&CompilerError::ExecutionTimeout, 1), RetryDecision::GiveUp);
}

#[test]
fn retry_policy_backs_off_exponentially_on_transient_faults() {
    let policy = RetryPolicy::standard();
    // Only daemon-connectivity faults are retried, with growing delays.
    assert_eq!(
        policy.next_action(&CompilerError::RuntimeUnavailable, 1),
        RetryDecision::RetryAfter(500)
    );
    assert_eq!(
        policy.next_action(&CompilerError::RuntimeUnavailable, 2),
        RetryDecision::RetryAfter(750)
    );
    assert_eq!(
        policy.next_action(&CompilerError::RuntimeUnavailable, 3),
        RetryDecision::RetryAfter(1125)
    );
    // The budget is bounded.
    assert_eq!(policy.next_action(&CompilerError::RuntimeUnavailable, 5), RetryDecision::GiveUp);
    // Sandboxed-program failures are results, not retry triggers; they never
    // reach the retry layer as transient.
    assert_eq!(
        policy.next_action(&CompilerError::ResourceLimitExceeded, 1),
        RetryDecision::GiveUp
    );
    // The delay growth is capped.
    assert_eq!(policy.delay_after(0), 500);
    assert_eq!(policy.delay_after(20), 60_000);
}

#[test]
fn infrastructure_failure_is_not_cached() {
    let mut pool = default_pool();
    let req = request("loop {}", LanguageId::Rust);
    assert!(matches!(pool.inventory.acquire(LanguageId::Rust), AcquireOutcome::MustCreate));
    pool.register_created(LanguageId::Rust, String::from("r-1"), 0).unwrap();
    let result = pool.finish_compile(
        &req,
        "r-1",
        Err(CompilerError::ExecutionTimeout),
        10_000,
        50,
    );
    assert_eq!(result.output, "");
    assert_eq!(result.error.as_deref(), Some("Execution timed out"));
    assert_eq!(result.elapsed_ms, 10_000);
    assert!(!result.from_cache);
    // Nothing was stored: the next lookup misses.
    assert!(matches!(pool.compile_gate(true, &req, 51), CompileGate::Proceed));
    // The container was still released for reuse.
    match pool.inventory.acquire(LanguageId::Rust) {
        AcquireOutcome::Reused(h) => assert_eq!(h.id, "r-1"),
        _ => panic!("expected the released container"),
    }
}

#[test]
fn container_spec_carries_the_configured_limits() {
    let spec = sandbox_engine::runtime::container_spec(LanguageId::Rust, 512 * 1024 * 1024, 50000);
    assert_eq!(spec.image, "compiler-rust");
    assert_eq!(spec.cmd, vec!["/bin/sh", "-c", "tail -f /dev/null"]);
    assert_eq!(spec.env, vec!["LANGUAGE=rust"]);
    assert_eq!(spec.working_dir, "/workspace");
    assert_eq!(spec.memory_bytes, 512 * 1024 * 1024);
    assert_eq!(spec.memory_swap_bytes, 512 * 1024 * 1024);
    assert_eq!(spec.cpu_period, 100000);
    assert_eq!(spec.cpu_quota, 50000);
    // The name is the language prefix plus a 36-character UUID; two specs
    // get different names.
    assert!(spec.name.starts_with("compiler-rust-"));
    let uuid_part = &spec.name["compiler-rust-".len()..];
    assert_eq!(uuid_part.len(), 36);
    assert_eq!(uuid_part.as_bytes()[8], b'-');
    assert_eq!(uuid_part.as_bytes()[13], b'-');
    assert_eq!(uuid_part.as_bytes()[18], b'-');
    assert_eq!(uuid_part.as_bytes()[23], b'-');
    let second = sandbox_engine::runtime::container_spec(LanguageId::Rust, 512 * 1024 * 1024, 50000);
    assert_ne!(spec.name, second.name);
}

#[test]
fn default_config_matches_the_documented_stock_values() {
    let config = Config::default();
    assert_eq!(config.server.host, "127.0.0.1");
    assert_eq!(config.server.port, 8080);
    assert_eq!(config.docker.max_memory, 512 * 1024 * 1024);
    assert_eq!(config.docker.cpu_quota, 50000);
    assert_eq!(config.docker.execution_timeout_ms, 10_000);
    assert_eq!(config.docker.max_container_pool_size, 5);
    assert_eq!(config.redis.url, "redis://127.0.0.1:6379");
    assert_eq!(config.redis.cache_ttl_secs, 3600);
}

#[test]
fn error_messages_and_transience() {
    assert_eq!(CompilerError::UnsupportedLanguage.message(), "Unsupported language");
    assert_eq!(CompilerError::ContainerCreationFailed.message(), "Container creation failed");
    assert_eq!(CompilerError::ExecutionTimeout.message(), "Execution timed out");
    assert_eq!(CompilerError::ResourceLimitExceeded.message(), "Resource limit exceeded");
    assert_eq!(CompilerError::CacheUnavailable.message(), "Cache unavailable");
    assert_eq!(CompilerError::RuntimeUnavailable.message(), "Container runtime unavailable");
    assert!(CompilerError::RuntimeUnavailable.is_transient());
    assert!(!CompilerError::ExecutionTimeout.is_transient());
    assert!(!CompilerError::UnsupportedLanguage.is_transient());
}

#[test]
fn retry_run_replays_a_whole_attempt_sequence() {
    let policy = RetryPolicy::standard();
    // Transient faults are retried until a terminal outcome.
    let outcomes = vec![
        Err(CompilerError::RuntimeUnavailable),
        Err(CompilerError::RuntimeUnavailable),
        Ok(String::from("done")),
    ];
    assert_eq!(policy.retry_run(&outcomes), Ok(String::from("done")));
    // A terminal failure stops the run at once: later outcomes are unreached.
    let timeout_first = vec![
        Err(CompilerError::ExecutionTimeout),
        Ok(String::from("never")),
    ];
    assert_eq!(policy.retry_run(&timeout_first), Err(CompilerError::ExecutionTimeout));
    // The attempt budget bounds the run: five transient failures exhaust it.
    let exhausted = vec![Err(CompilerError::RuntimeUnavailable); 6];
    assert_eq!(policy.retry_run(&exhausted), Err(CompilerError::RuntimeUnavailable));
}
