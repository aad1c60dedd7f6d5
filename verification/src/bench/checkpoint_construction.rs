//! Building checkpoints over a committed base.

use crate::bench::process_memory::{above, ProcessMemory};
use vstd::prelude::*;

verus! {

/// Sizes of the pending sets, smallest first.
pub fn pending_sizes() -> (sizes: [u64; 4])
    ensures
        sizes@ == seq![1u64, 10, 100, 1_000],
{
    [1, 10, 100, 1_000]
}

/// What one phase did to the memory of the process.
#[derive(Clone, Copy, Debug, PartialEq, Eq, Structural)]
pub struct PhaseMemory {
    /// Resident before.
    pub baseline_rss_bytes: u64,
    /// Peak so far, before.
    pub baseline_hwm_bytes: u64,
    /// Highest of the values sampled during the phase.
    pub sampled_peak_rss_bytes: u64,
    /// Resident afterwards.
    pub post_rss_bytes: u64,
    /// Peak so far, afterwards.
    pub post_hwm_bytes: u64,
    /// The higher of the sampled and the recorded peak.
    pub conservative_peak_rss_bytes: u64,
    /// How far that lies above the start.
    pub conservative_delta_rss_bytes: u64,
    /// Growth of the recorded peak.
    pub hwm_growth_bytes: u64,
    /// Samples taken.
    pub sampler_observations: u64,
}

/// The higher of two values.
pub open spec fn higher(a: u64, b: u64) -> u64 {
    if a >= b {
        a
    } else {
        b
    }
}

/// The memory of a phase, from what was read before, during and after it.
pub open spec fn phase_of(
    baseline: ProcessMemory,
    sampled_peak: u64,
    post: ProcessMemory,
    observations: u64,
) -> PhaseMemory {
    let peak = higher(sampled_peak, post.hwm_bytes);
    PhaseMemory {
        baseline_rss_bytes: baseline.rss_bytes,
        baseline_hwm_bytes: baseline.hwm_bytes,
        sampled_peak_rss_bytes: sampled_peak,
        post_rss_bytes: post.rss_bytes,
        post_hwm_bytes: post.hwm_bytes,
        conservative_peak_rss_bytes: peak,
        conservative_delta_rss_bytes: above(peak, baseline.rss_bytes),
        hwm_growth_bytes: above(post.hwm_bytes, baseline.hwm_bytes),
        sampler_observations: observations,
    }
}

/// Summarize the memory of a phase.
pub fn phase_memory(
    baseline: ProcessMemory,
    sampled_peak: u64,
    post: ProcessMemory,
    observations: u64,
) -> (phase: PhaseMemory)
    ensures
        phase == phase_of(baseline, sampled_peak, post, observations),
{
    let peak: u64 = if sampled_peak >= post.hwm_bytes {
        sampled_peak
    } else {
        post.hwm_bytes
    };
    PhaseMemory {
        baseline_rss_bytes: baseline.rss_bytes,
        baseline_hwm_bytes: baseline.hwm_bytes,
        sampled_peak_rss_bytes: sampled_peak,
        post_rss_bytes: post.rss_bytes,
        post_hwm_bytes: post.hwm_bytes,
        conservative_peak_rss_bytes: peak,
        conservative_delta_rss_bytes: peak.saturating_sub(baseline.rss_bytes),
        hwm_growth_bytes: post.hwm_bytes.saturating_sub(baseline.hwm_bytes),
        sampler_observations: observations,
    }
}

/// However short a phase is, its peak is at least what the system recorded and
/// at least what was sampled.
pub proof fn law_phase_peak_is_conservative(
    baseline: ProcessMemory,
    sampled_peak: u64,
    post: ProcessMemory,
    observations: u64,
)
    ensures
        ({
            let phase = phase_of(baseline, sampled_peak, post, observations);
            &&& phase.conservative_peak_rss_bytes >= phase.post_hwm_bytes
            &&& phase.conservative_peak_rss_bytes >= phase.sampled_peak_rss_bytes
            &&& phase.conservative_peak_rss_bytes >= baseline.rss_bytes
                ==> phase.conservative_peak_rss_bytes == baseline.rss_bytes
                + phase.conservative_delta_rss_bytes
        }),
{
}

/// The base graph lost or gained facts.
#[derive(Clone, Copy, Debug, PartialEq, Eq, Structural)]
pub struct BaseCountMismatch;

impl BaseCountMismatch {
    /// Render this error for a caller.
    pub fn message(&self) -> (text: &'static str)
        ensures
            text@ == "base count mismatch"@,
    {
        "base count mismatch"
    }
}

/// Accept a sample whose base graph still holds every fact.
pub fn admit_sample(count: u64, base_facts: u64) -> (result: Result<(), BaseCountMismatch>)
    ensures
        result == if count == base_facts {
            Ok::<(), BaseCountMismatch>(())
        } else {
            Err(BaseCountMismatch)
        },
{
    if count != base_facts {
        return Err(BaseCountMismatch);
    }
    Ok(())
}

} // verus!
