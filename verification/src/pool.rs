//! The public-facing orchestrator of the execution engine.
//!
//! A request runs through a fixed sequence: the rate gate, the result-cache
//! lookup, the command build, container acquisition, the monitored exec
//! attempt, and completion — which releases the container back into the
//! inventory for reuse, caches the result when no infrastructure failure
//! occurred, and shapes the response. The driver performs the runtime and
//! network calls between the steps; every decision is made here.

use vstd::prelude::*;
use crate::cache::{spec_cache_key, spec_expiry, spec_find, ResultCache};
use crate::config::Config;
use crate::error::CompilerError;
use crate::inventory::{ContainerHandle, ContainerInventory};
use crate::lang::{LanguageId, LANGUAGE_COUNT};
use crate::model::{opt_view, ExecutionRequest, ExecutionResult};

verus! {

/// What the front of the pipeline decided for one request.
pub enum CompileGate {
    /// The rate limit was exceeded: answer immediately, touch nothing.
    Rejected(ExecutionResult),
    /// The result cache had an unexpired entry: answer it, marked as cached.
    CacheHit(ExecutionResult),
    /// A real execution is needed.
    Proceed,
}

/// The container pool: per-language container inventory, result cache, and
/// the engine configuration. One value of this type sits behind the
/// process's single pool lock.
pub struct ContainerPool {
    pub config: Config,
    pub inventory: ContainerInventory,
    pub cache: ResultCache,
}

impl ContainerPool {
    /// The pool's invariant: a well-formed inventory capped by the
    /// configured pool size, the cache expiring at the configured TTL, and a
    /// memory ceiling the runtime can take.
    pub open spec fn wf(self) -> bool {
        &&& self.inventory.wf()
        &&& self.inventory.max_pool_size == self.config.docker.max_container_pool_size
        &&& self.cache.ttl_secs == self.config.redis.cache_ttl_secs
        &&& self.config.docker.max_memory <= i64::MAX
    }

    /// A pool with an empty inventory and an empty cache under `config`.
    pub fn new(config: Config) -> (r: ContainerPool)
        requires
            config.docker.max_container_pool_size >= 1,
            config.docker.max_memory <= i64::MAX,
        ensures
            r.wf(),
            r.config == config,
            r.cache.entries@.len() == 0,
            forall|i: int| 0 <= i < LANGUAGE_COUNT ==> #[trigger] r.inventory.lane_of(i).len() == 0,
    {
        let inventory = ContainerInventory::new(config.docker.max_container_pool_size);
        let cache = ResultCache::new(config.redis.cache_ttl_secs);
        ContainerPool { config, inventory, cache }
    }

    /// Runs the front of the pipeline: the rate gate first — a rejected
    /// request is answered at once and touches neither cache nor inventory —
    /// then the cache lookup, whose unexpired hit is answered marked
    /// `from_cache`. Only a miss proceeds to real execution.
    pub fn compile_gate(&self, rate_allowed: bool, req: &ExecutionRequest, now_secs: u64) -> (r:
        CompileGate)
        ensures
            !rate_allowed ==> (r matches CompileGate::Rejected(res) && {
                &&& res.output@.len() == 0
                &&& opt_view(res.error) == Some(CompilerError::RateLimitExceeded.spec_message())
                &&& res.elapsed_ms == 0
                &&& !res.from_cache
            }),
            rate_allowed ==> (self.cache.spec_lookup(
                spec_cache_key(req.language, req.source@),
                now_secs,
            ) matches Some((out, err, el)) ==> (r matches CompileGate::CacheHit(res) && {
                &&& res.output@ == out
                &&& opt_view(res.error) == err
                &&& res.elapsed_ms == el
                &&& res.from_cache
            })),
            rate_allowed && self.cache.spec_lookup(
                spec_cache_key(req.language, req.source@),
                now_secs,
            ) is None ==> r is Proceed,
    {
        if !rate_allowed {
            let e = CompilerError::RateLimitExceeded;
            return CompileGate::Rejected(
                ExecutionResult {
                    output: String::new(),
                    error: Some(e.message()),
                    elapsed_ms: 0,
                    from_cache: false,
                },
            );
        }
        match self.cache.lookup(req.language, req.source.as_str(), now_secs) {
            Some(res) => CompileGate::CacheHit(res),
            None => CompileGate::Proceed,
        }
    }

    /// Tracks a container the runtime just created under the name the pool
    /// asked for, handing back its handle. A lane already at its cap or a
    /// duplicate id is a creation failure and leaves the pool unchanged.
    pub fn register_created(&mut self, language: LanguageId, id: String, now_ms: u64) -> (r: Result<
        ContainerHandle,
        CompilerError,
    >)
        requires
            old(self).wf(),
        ensures
            final(self).wf(),
            final(self).config == old(self).config,
            final(self).cache == old(self).cache,
            r matches Ok(h) ==> {
                &&& h.id@ == id@
                &&& h.language == language
                &&& h.created_at == now_ms
                &&& final(self).inventory.in_use(language).len() == old(self).inventory.in_use(
                    language,
                ).len() + 1
                &&& final(self).inventory.in_use(language).drop_last() == old(
                    self,
                ).inventory.in_use(language)
                &&& final(self).inventory.in_use(language).last().id@ == id@
                &&& final(self).inventory.in_use(language).last().language == language
                &&& final(self).inventory.in_use(language).last().created_at == now_ms
                &&& final(self).inventory.available(language) == old(self).inventory.available(
                    language,
                )
                &&& forall|i: int|
                    0 <= i < LANGUAGE_COUNT && i != language.spec_index() ==> final(self).inventory.lane_unchanged(old(self).inventory, i)
            },
            r matches Err(e) ==> e is ContainerCreationFailed && final(self).inventory == old(self).inventory && (old(self).inventory.count(language) >= old(self).inventory.max_pool_size
                || old(self).inventory.tracked_id(id@)),
    {
        let handle = ContainerHandle { id, language, created_at: now_ms };
        let copy = handle.duplicate();
        let ghost h = handle;
        match self.inventory.register(handle) {
            Ok(()) => {
                proof {
                    assert(self.inventory.in_use(language).drop_last() =~= old(
                        self,
                    ).inventory.in_use(language));
                    assert(self.inventory.in_use(language).last() == h);
                }
                Ok(copy)
            },
            Err(e) => Err(e),
        }
    }

    /// The response for an infrastructure failure: empty output, the
    /// failure's generic message, the elapsed time, never from the cache.
    pub fn error_response(e: &CompilerError, elapsed_ms: u64) -> (r: ExecutionResult)
        ensures
            r.output@.len() == 0,
            opt_view(r.error) == Some(e.spec_message()),
            r.elapsed_ms == elapsed_ms,
            !r.from_cache,
    {
        ExecutionResult {
            output: String::new(),
            error: Some(e.message()),
            elapsed_ms,
            from_cache: false,
        }
    }

    /// Completes one executed request: releases the container back into the
    /// inventory — a container that served a request is reused, never
    /// destroyed — then, only for an outcome that is no infrastructure
    /// failure, stores the output in the result cache, and shapes the
    /// response.
    pub fn finish_compile(
        &mut self,
        req: &ExecutionRequest,
        container_id: &str,
        outcome: Result<String, CompilerError>,
        elapsed_ms: u64,
        now_secs: u64,
    ) -> (r: ExecutionResult)
        requires
            old(self).wf(),
        ensures
            final(self).wf(),
            final(self).config == old(self).config,
            final(self).inventory.count(req.language) == old(self).inventory.count(req.language),
            forall|i: int|
                0 <= i < LANGUAGE_COUNT && i != req.language.spec_index() ==> final(self).inventory.lane_unchanged(old(self).inventory, i),
            (exists|k: int|
                0 <= k < old(self).inventory.in_use(req.language).len() && (#[trigger] old(
                    self,
                ).inventory.in_use(req.language)[k]).id@ == container_id@) ==> final(self).inventory.available(req.language).len() > 0 && final(self).inventory.available(
                req.language,
            )[0].id@ == container_id@,
            outcome matches Ok(out) ==> {
                &&& r.output@ == out@
                &&& r.error is None
                &&& r.elapsed_ms == elapsed_ms
                &&& !r.from_cache
                &&& spec_find(
                    final(self).cache.entries@,
                    spec_cache_key(req.language, req.source@),
                ) matches Some(e) && e.output@ == out@ && opt_view(e.error) is None
                    && e.elapsed_ms == elapsed_ms && e.expires_at == spec_expiry(
                    now_secs,
                    old(self).cache.ttl_secs,
                )
            },
            outcome matches Err(err) ==> {
                &&& r.output@.len() == 0
                &&& opt_view(r.error) == Some(err.spec_message())
                &&& r.elapsed_ms == elapsed_ms
                &&& !r.from_cache
                &&& final(self).cache == old(self).cache
            },
    {
        self.inventory.release(req.language, container_id);
        proof {
            if exists|k: int|
                0 <= k < old(self).inventory.in_use(req.language).len() && (#[trigger] old(
                    self,
                ).inventory.in_use(req.language)[k]).id@ == container_id@ {
                let k = choose|k: int|
                    {
                        &&& 0 <= k < old(self).inventory.in_use(req.language).len()
                        &&& (#[trigger] old(self).inventory.in_use(req.language)[k]).id@
                            == container_id@
                        &&& self.inventory.in_use(req.language) == old(
                            self,
                        ).inventory.in_use(req.language).remove(k)
                        &&& self.inventory.available(req.language) == seq![
                            old(self).inventory.in_use(req.language)[k],
                        ] + old(self).inventory.available(req.language)
                    };
                assert(self.inventory.available(req.language)[0].id@ == container_id@);
            }
        }
        match outcome {
            Ok(output) => {
                let none_error: Option<String> = None;
                self.cache.store(
                    req.language,
                    req.source.as_str(),
                    output.as_str(),
                    &none_error,
                    elapsed_ms,
                    now_secs,
                );
                ExecutionResult { output, error: None, elapsed_ms, from_cache: false }
            },
            Err(e) => {
                ExecutionResult {
                    output: String::new(),
                    error: Some(e.message()),
                    elapsed_ms,
                    from_cache: false,
                }
            },
        }
    }

    /// The process-wide shutdown step: stops tracking every container and
    /// hands each handle back exactly once, for the driver to force-remove.
    /// This runs as the very last step before the process exits, in place of
    /// any implicit teardown.
    pub fn shutdown_plan(&mut self) -> (drained: Vec<ContainerHandle>)
        requires
            old(self).wf(),
        ensures
            final(self).wf(),
            final(self).config == old(self).config,
            drained@ == old(self).inventory.all_handles(),
            forall|i: int|
                0 <= i < LANGUAGE_COUNT ==> #[trigger] final(self).inventory.lane_of(i).len() == 0,
    {
        self.inventory.drain_all()
    }
}

} // verus!
