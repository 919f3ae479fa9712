//! The resource watchdog that runs beside every exec attempt.
//!
//! Once per polling interval the driver samples the container's memory usage
//! and feeds it to `assess_sample`; on the first sample over the ceiling the
//! verdict is to force-remove the container immediately — bypassing graceful
//! stop — and signal the attempt, so a breach is acted on within one polling
//! interval of being reported.

use vstd::prelude::*;

verus! {

/// How often the watchdog samples, in milliseconds.
pub const MONITOR_POLL_INTERVAL_MS: u64 = 1000;

/// What the watchdog does after one sample.
#[derive(Clone, Copy, Debug, PartialEq, Eq, Structural)]
pub enum MonitorVerdict {
    /// Sleep one polling interval and sample again.
    KeepWatching,
    /// Force-remove the container now and signal the owning attempt that the
    /// container is gone.
    ForceRemove,
}

/// The memory watchdog for one execution attempt.
pub struct ResourceMonitor {
    /// The configured per-container memory ceiling, in bytes.
    pub memory_limit_bytes: u64,
}

impl ResourceMonitor {
    /// A watchdog enforcing `memory_limit_bytes`.
    pub fn new(memory_limit_bytes: u64) -> (r: ResourceMonitor)
        ensures
            r.memory_limit_bytes == memory_limit_bytes,
    {
        ResourceMonitor { memory_limit_bytes }
    }

    /// A sample breaches the ceiling exactly when it reports usage above the
    /// limit; a poll that returned no usage figure never does.
    pub open spec fn spec_breaches(self, usage: Option<u64>) -> bool {
        usage matches Some(u) && u > self.memory_limit_bytes
    }

    /// Judges one usage sample: `ForceRemove` exactly on a breach, so the
    /// container is terminated within the polling interval that observed it.
    pub fn assess_sample(&self, usage: Option<u64>) -> (r: MonitorVerdict)
        ensures
            r == (if self.spec_breaches(usage) {
                MonitorVerdict::ForceRemove
            } else {
                MonitorVerdict::KeepWatching
            }),
    {
        match usage {
            Some(u) => if u > self.memory_limit_bytes {
                MonitorVerdict::ForceRemove
            } else {
                MonitorVerdict::KeepWatching
            },
            None => MonitorVerdict::KeepWatching,
        }
    }

    /// The first position in a run of samples that breaches the ceiling, if
    /// any.
    pub open spec fn spec_first_breach(self, samples: Seq<Option<u64>>) -> Option<int>
        decreases samples.len(),
    {
        if samples.len() == 0 {
            None
        } else if self.spec_breaches(samples[0]) {
            Some(0int)
        } else {
            match self.spec_first_breach(samples.drop_first()) {
                Some(i) => Some(i + 1),
                None => None,
            }
        }
    }

    /// Replays a run of samples: returns the index of the first breach — the
    /// poll at which the container is force-removed — or `None` when the
    /// watchdog would still be watching after all of them.
    ///
    /// Every sample before the result is within the limit, and the sample at
    /// the result is a breach: the watchdog never lets a breach pass and
    /// never removes a container within its ceiling.
    pub fn first_breach(&self, samples: &Vec<Option<u64>>) -> (r: Option<usize>)
        ensures
            r matches Some(i) ==> self.spec_first_breach(samples@) == Some(i as int)
                && i < samples@.len() && self.spec_breaches(samples@[i as int]) && forall|k: int|
                0 <= k < i ==> !self.spec_breaches(#[trigger] samples@[k]),
            r is None ==> self.spec_first_breach(samples@) is None && forall|k: int|
                0 <= k < samples@.len() ==> !self.spec_breaches(#[trigger] samples@[k]),
    {
        let mut i: usize = 0;
        while i < samples.len()
            invariant
                i <= samples@.len(),
                forall|k: int| 0 <= k < i ==> !self.spec_breaches(#[trigger] samples@[k]),
            decreases samples@.len() - i,
        {
            let verdict = self.assess_sample(samples[i]);
            if verdict == MonitorVerdict::ForceRemove {
                proof {
                    lemma_first_breach_at(*self, samples@, i as int);
                }
                return Some(i);
            }
            i = i + 1;
        }
        proof {
            lemma_no_breach(*self, samples@);
        }
        None
    }
}

/// When every sample before `i` is within the limit and sample `i` breaches,
/// the first breach is at `i`.
proof fn lemma_first_breach_at(m: ResourceMonitor, samples: Seq<Option<u64>>, i: int)
    requires
        0 <= i < samples.len(),
        m.spec_breaches(samples[i]),
        forall|k: int| 0 <= k < i ==> !m.spec_breaches(#[trigger] samples[k]),
    ensures
        m.spec_first_breach(samples) == Some(i),
    decreases i,
{
    if i == 0 {
    } else {
        assert(!m.spec_breaches(samples[0]));
        assert forall|k: int| 0 <= k < i - 1 implies !m.spec_breaches(
            #[trigger] samples.drop_first()[k],
        ) by {
            assert(samples.drop_first()[k] == samples[k + 1]);
        }
        assert(samples.drop_first()[i - 1] == samples[i]);
        lemma_first_breach_at(m, samples.drop_first(), i - 1);
    }
}

/// When no sample breaches, there is no first breach.
proof fn lemma_no_breach(m: ResourceMonitor, samples: Seq<Option<u64>>)
    requires
        forall|k: int| 0 <= k < samples.len() ==> !m.spec_breaches(#[trigger] samples[k]),
    ensures
        m.spec_first_breach(samples) is None,
    decreases samples.len(),
{
    if samples.len() > 0 {
        assert forall|k: int| 0 <= k < samples.drop_first().len() implies !m.spec_breaches(
            #[trigger] samples.drop_first()[k],
        ) by {
            assert(samples.drop_first()[k] == samples[k + 1]);
        }
        lemma_no_breach(m, samples.drop_first());
    }
}

} // verus!
