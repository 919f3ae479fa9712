//! The retrying executor: wall-clock-bounded collection of one exec
//! attempt's output, the join with the resource monitor, and the
//! exponential-backoff retry policy around transient infrastructure faults.
//!
//! The driver performs the attempts — starting the container, creating the
//! exec instance, reading the stream — and this module makes every decision:
//! when an attempt has timed out, what its capture means, whether a failure
//! is worth another attempt, and how long to wait before it.

use vstd::prelude::*;
use crate::error::CompilerError;

verus! {

/// Which half of the combined capture a chunk belongs to.
#[derive(Clone, Copy, Debug, PartialEq, Eq, Structural)]
pub enum StreamKind {
    Stdout,
    Stderr,
}

/// One tagged chunk read from the exec attachment, stamped with the
/// milliseconds since the attempt started.
pub struct OutputChunk {
    pub at_ms: u64,
    pub stream: StreamKind,
    pub text: String,
}

/// The concatenation of the chunks of one stream, in arrival order.
pub open spec fn spec_stream_concat(chunks: Seq<OutputChunk>, kind: StreamKind) -> Seq<char>
    decreases chunks.len(),
{
    if chunks.len() == 0 {
        Seq::empty()
    } else {
        spec_stream_concat(chunks.drop_last(), kind) + (if chunks.last().stream == kind {
            chunks.last().text@
        } else {
            Seq::empty()
        })
    }
}

/// What collecting an attempt's output yields: the two concatenated streams
/// when the stream closed within the budget, `ExecutionTimeout` otherwise —
/// with every partially-read chunk discarded, all-or-nothing.
pub open spec fn spec_collect(
    chunks: Seq<OutputChunk>,
    closed_at_ms: Option<u64>,
    timeout_ms: u64,
) -> Result<(Seq<char>, Seq<char>), CompilerError> {
    if closed_at_ms matches Some(t) && t <= timeout_ms {
        Ok((spec_stream_concat(chunks, StreamKind::Stdout), spec_stream_concat(chunks, StreamKind::Stderr)))
    } else {
        Err(CompilerError::ExecutionTimeout)
    }
}

/// Unfolds `spec_stream_concat` by one chunk.
proof fn lemma_stream_concat_step(chunks: Seq<OutputChunk>, kind: StreamKind, j: int)
    requires
        0 <= j < chunks.len(),
    ensures
        spec_stream_concat(chunks.take(j + 1), kind) == spec_stream_concat(chunks.take(j), kind)
            + (if chunks[j].stream == kind {
            chunks[j].text@
        } else {
            Seq::empty()
        }),
{
    assert(chunks.take(j + 1).drop_last() =~= chunks.take(j));
    assert(chunks.take(j + 1).last() == chunks[j]);
}

/// Concatenates the chunks of one stream, in order.
fn stream_concat(chunks: &Vec<OutputChunk>, kind: StreamKind) -> (r: String)
    ensures
        r@ == spec_stream_concat(chunks@, kind),
{
    let mut out = String::new();
    let mut j: usize = 0;
    proof {
        assert(chunks@.take(0) =~= Seq::<OutputChunk>::empty());
    }
    while j < chunks.len()
        invariant
            j <= chunks@.len(),
            out@ == spec_stream_concat(chunks@.take(j as int), kind),
        decreases chunks@.len() - j,
    {
        proof {
            lemma_stream_concat_step(chunks@, kind, j as int);
        }
        let chunk = &chunks[j];
        if chunk.stream == kind {
            out.append(chunk.text.as_str());
        } else {
            proof {
                assert(out@ + Seq::<char>::empty() =~= out@);
            }
        }
        j = j + 1;
    }
    proof {
        assert(chunks@.take(chunks@.len() as int) =~= chunks@);
    }
    out
}

/// Replays the collection of one exec attempt. The stream closed at
/// `closed_at_ms` — `None` when it never closed. Exactly when it closed
/// within the wall-clock budget, the two concatenated streams come back;
/// otherwise the attempt ends in `ExecutionTimeout` at the budget's expiry
/// and everything read so far is discarded.
pub fn collect_output(
    chunks: &Vec<OutputChunk>,
    closed_at_ms: Option<u64>,
    timeout_ms: u64,
) -> (r: Result<(String, String), CompilerError>)
    ensures
        r matches Ok((out, err)) ==> spec_collect(chunks@, closed_at_ms, timeout_ms) == Ok::<
            _,
            CompilerError,
        >((out@, err@)),
        r matches Err(e) ==> spec_collect(chunks@, closed_at_ms, timeout_ms) == Err::<
            (Seq<char>, Seq<char>),
            _,
        >(e) && e is ExecutionTimeout,
{
    match closed_at_ms {
        Some(t) => {
            if t <= timeout_ms {
                let out = stream_concat(chunks, StreamKind::Stdout);
                let err = stream_concat(chunks, StreamKind::Stderr);
                Ok((out, err))
            } else {
                Err(CompilerError::ExecutionTimeout)
            }
        },
        None => Err(CompilerError::ExecutionTimeout),
    }
}

/// What one joined attempt yields: a monitor breach wins over whatever the
/// exec path produced, surfacing the resource limit; otherwise the exec
/// result stands.
pub open spec fn spec_attempt_outcome(
    monitor_breached: bool,
    exec_result: Result<Seq<char>, CompilerError>,
) -> Result<Seq<char>, CompilerError> {
    if monitor_breached {
        Err(CompilerError::ResourceLimitExceeded)
    } else {
        exec_result
    }
}

/// Joins the two tasks racing for one attempt — the monitor and the exec
/// collection — into the attempt's outcome.
pub fn attempt_outcome(monitor_breached: bool, exec_result: Result<String, CompilerError>) -> (r:
    Result<String, CompilerError>)
    ensures
        r matches Ok(s) ==> spec_attempt_outcome(
            monitor_breached,
            result_view(exec_result),
        ) == Ok::<_, CompilerError>(s@),
        r matches Err(e) ==> spec_attempt_outcome(monitor_breached, result_view(exec_result))
            == Err::<Seq<char>, _>(e),
{
    if monitor_breached {
        Err(CompilerError::ResourceLimitExceeded)
    } else {
        exec_result
    }
}

/// The view of an attempt result.
pub open spec fn result_view(r: Result<String, CompilerError>) -> Result<Seq<char>, CompilerError> {
    match r {
        Ok(s) => Ok(s@),
        Err(e) => Err(e),
    }
}

/// The bounded exponential-backoff retry policy around one exec operation.
pub struct RetryPolicy {
    /// Most attempts in all, the first one included.
    pub max_attempts: u32,
    /// Delay before the first retry, in milliseconds.
    pub initial_delay_ms: u64,
    /// Ceiling on any single delay, in milliseconds.
    pub max_delay_ms: u64,
}

/// What the policy decides after a failed attempt.
#[derive(Clone, Copy, Debug, PartialEq, Eq, Structural)]
pub enum RetryDecision {
    /// Wait this many milliseconds, then try again.
    RetryAfter(u64),
    /// The failure is terminal, or the attempt budget is spent.
    GiveUp,
}

impl RetryPolicy {
    /// The delays are sane: positive, capped, and the cap is at most a day,
    /// so growing a delay can never overflow.
    pub open spec fn wf(self) -> bool {
        &&& 1 <= self.max_attempts
        &&& 1 <= self.initial_delay_ms <= self.max_delay_ms
        &&& self.max_delay_ms <= 86_400_000
    }

    /// The stock policy: five attempts, half a second growing half again
    /// each time, capped at a minute.
    pub fn standard() -> (r: RetryPolicy)
        ensures
            r.wf(),
            r.max_attempts == 5,
            r.initial_delay_ms == 500,
            r.max_delay_ms == 60_000,
    {
        RetryPolicy { max_attempts: 5, initial_delay_ms: 500, max_delay_ms: 60_000 }
    }

    /// The delay before retry number `n + 1`: the initial delay grown by
    /// half, `n` times, capped.
    pub open spec fn spec_delay(self, n: nat) -> int
        decreases n,
    {
        if n == 0 {
            self.initial_delay_ms as int
        } else {
            let p = self.spec_delay((n - 1) as nat);
            let grown = p * 3 / 2;
            if grown > self.max_delay_ms {
                self.max_delay_ms as int
            } else {
                grown
            }
        }
    }

    /// Every delay stays within the cap (or is the initial delay).
    proof fn lemma_delay_bounded(self, n: nat)
        requires
            self.wf(),
        ensures
            1 <= self.spec_delay(n) <= self.max_delay_ms,
        decreases n,
    {
        if n > 0 {
            self.lemma_delay_bounded((n - 1) as nat);
        }
    }

    /// The delay before retry number `n + 1`.
    pub fn delay_after(&self, n: u32) -> (r: u64)
        requires
            self.wf(),
        ensures
            r == self.spec_delay(n as nat),
            1 <= r <= self.max_delay_ms,
    {
        let mut d: u64 = self.initial_delay_ms;
        let mut k: u32 = 0;
        proof {
            self.lemma_delay_bounded(0);
        }
        while k < n
            invariant
                self.wf(),
                k <= n,
                d == self.spec_delay(k as nat),
                1 <= d <= self.max_delay_ms,
            decreases n - k,
        {
            let grown = (d * 3) / 2;
            d = if grown > self.max_delay_ms {
                self.max_delay_ms
            } else {
                grown
            };
            k = k + 1;
            proof {
                self.lemma_delay_bounded(k as nat);
            }
        }
        d
    }

    /// What the policy decides after attempt number `attempts_made` failed
    /// with `err`.
    pub open spec fn spec_next_action(self, err: CompilerError, attempts_made: u32) -> RetryDecision {
        if err.spec_is_transient() && attempts_made < self.max_attempts {
            RetryDecision::RetryAfter(self.spec_delay((attempts_made - 1) as nat) as u64)
        } else {
            RetryDecision::GiveUp
        }
    }

    /// Decides after a failed attempt: retry — with the grown delay — only a
    /// transient infrastructure fault with attempt budget left. A timeout, a
    /// sandboxed program's own failure, or an exhausted budget is terminal.
    pub fn next_action(&self, err: &CompilerError, attempts_made: u32) -> (r: RetryDecision)
        requires
            self.wf(),
            1 <= attempts_made,
        ensures
            r == self.spec_next_action(*err, attempts_made),
    {
        if err.is_transient() && attempts_made < self.max_attempts {
            RetryDecision::RetryAfter(self.delay_after(attempts_made - 1))
        } else {
            RetryDecision::GiveUp
        }
    }

    /// The result of running attempts under this policy, starting at attempt
    /// index `n` into the recorded outcomes: the first outcome that is a
    /// success or a terminal failure, or the outcome at which the budget (or
    /// the record) ran out.
    pub open spec fn spec_retry_result(
        self,
        outcomes: Seq<Result<Seq<char>, CompilerError>>,
        n: nat,
    ) -> Result<Seq<char>, CompilerError>
        decreases outcomes.len() - n,
    {
        if n >= outcomes.len() {
            Err(CompilerError::RuntimeUnavailable)
        } else if outcomes[n as int] is Ok {
            outcomes[n as int]
        } else if !(outcomes[n as int] matches Err(e) && e.spec_is_transient()) {
            outcomes[n as int]
        } else if n + 1 >= self.max_attempts || n + 1 >= outcomes.len() {
            outcomes[n as int]
        } else {
            self.spec_retry_result(outcomes, n + 1)
        }
    }

    /// Replays a whole retry run over the recorded outcomes of successive
    /// attempts: the first attempt always runs; after a failure, another
    /// attempt runs only while the failure is transient and the attempt
    /// budget allows it. The result is the outcome the run stopped at.
    pub fn retry_run(&self, outcomes: &Vec<Result<String, CompilerError>>) -> (r: Result<
        String,
        CompilerError,
    >)
        requires
            self.wf(),
            outcomes@.len() >= 1,
        ensures
            result_view(r) == self.spec_retry_result(views_of_outcomes(outcomes@), 0),
    {
        let mut n: usize = 0;
        loop
            invariant_except_break
                self.wf(),
                n < outcomes@.len(),
                self.spec_retry_result(views_of_outcomes(outcomes@), 0)
                    == self.spec_retry_result(views_of_outcomes(outcomes@), n as nat),
            ensures
                n < outcomes@.len(),
                self.spec_retry_result(views_of_outcomes(outcomes@), 0) == result_view(
                    outcomes@[n as int],
                ),
            decreases outcomes@.len() - n,
        {
            let stop = match &outcomes[n] {
                Ok(_) => true,
                Err(e) => {
                    !(e.is_transient() && n < outcomes.len() - 1 && (self.max_attempts as usize
                        > 0 && n < self.max_attempts as usize - 1))
                },
            };
            if stop {
                break;
            }
            n = n + 1;
        }
        duplicate_outcome(&outcomes[n])
    }
}

/// The views of a run of recorded outcomes.
pub open spec fn views_of_outcomes(
    outcomes: Seq<Result<String, CompilerError>>,
) -> Seq<Result<Seq<char>, CompilerError>> {
    outcomes.map_values(|o: Result<String, CompilerError>| result_view(o))
}

/// A field-for-field copy of one outcome.
fn duplicate_outcome(o: &Result<String, CompilerError>) -> (r: Result<String, CompilerError>)
    ensures
        result_view(r) == result_view(*o),
{
    match o {
        Ok(s) => Ok(s.clone()),
        Err(e) => Err(*e),
    }
}

/// Timeout precedence, as the retry layer sees it: an attempt whose stream
/// never closes ends in `ExecutionTimeout` at the budget's expiry, and the
/// policy never retries it — a timeout is terminal, whatever budget is left.
pub proof fn lemma_timeout_never_retried(
    policy: RetryPolicy,
    chunks: Seq<OutputChunk>,
    timeout_ms: u64,
    attempts_made: u32,
)
    ensures
        spec_collect(chunks, None, timeout_ms) == Err::<(Seq<char>, Seq<char>), _>(
            CompilerError::ExecutionTimeout,
        ),
        policy.spec_next_action(CompilerError::ExecutionTimeout, attempts_made)
            == RetryDecision::GiveUp,
{
}

/// Monitor enforcement, as one attempt sees it: as soon as any sample of a
/// run breaches the ceiling, the watchdog's replay stops at the first such
/// sample — no later than the breach it was given — and the joined attempt
/// surfaces `ResourceLimitExceeded`, whatever the exec path produced.
pub proof fn lemma_monitor_enforcement(
    m: crate::monitor::ResourceMonitor,
    samples: Seq<Option<u64>>,
    k: int,
    exec_result: Result<Seq<char>, CompilerError>,
)
    requires
        0 <= k < samples.len(),
        m.spec_breaches(samples[k]),
    ensures
        m.spec_first_breach(samples) matches Some(i) && 0 <= i <= k && m.spec_breaches(samples[i]),
        spec_attempt_outcome(true, exec_result) == Err::<Seq<char>, _>(
            CompilerError::ResourceLimitExceeded,
        ),
{
    lemma_first_breach_bounded(m, samples, k);
}

/// A run with a breach at `k` has a first breach, at or before `k`.
proof fn lemma_first_breach_bounded(
    m: crate::monitor::ResourceMonitor,
    samples: Seq<Option<u64>>,
    k: int,
)
    requires
        0 <= k < samples.len(),
        m.spec_breaches(samples[k]),
    ensures
        m.spec_first_breach(samples) matches Some(i) && 0 <= i <= k && m.spec_breaches(samples[i]),
    decreases k,
{
    if m.spec_breaches(samples[0]) {
    } else {
        assert(samples.drop_first()[k - 1] == samples[k]);
        lemma_first_breach_bounded(m, samples.drop_first(), k - 1);
        assert forall|i: int| 0 <= i < samples.drop_first().len() implies samples.drop_first()[i]
            == samples[i + 1] by {}
    }
}

} // verus!
