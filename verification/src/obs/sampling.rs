//! Which traces are kept while the trace store is overloaded.
use crate::base::wire::{be_value, get_u64_be};
use vstd::prelude::*;

verus! {

/// What becomes of a trace.
#[derive(Clone, Copy, Debug, PartialEq, Eq, Structural)]
pub enum SamplingDecision {
    Drop,
    RecordAndSample,
}

/// Keeps every trace while all is well, and a share of them under overload.
#[derive(Clone, Copy, Debug, PartialEq, Eq, Structural)]
pub struct DownsampledSampler {
    /// The share that is kept, as a number out of `u64::MAX`.
    threshold: u64,
}

/// Whether a trace is kept under overload: the number in the last eight bytes of
/// its id decides.
pub open spec fn keeps(threshold: u64, trace_id: Seq<u8>) -> bool {
    be_value(trace_id.subrange(8, 16)) < threshold
}

/// What becomes of a trace.
pub open spec fn decision(threshold: u64, overloaded: bool, trace_id: Seq<u8>) -> SamplingDecision {
    if overloaded && !keeps(threshold, trace_id) {
        SamplingDecision::Drop
    } else {
        SamplingDecision::RecordAndSample
    }
}

impl DownsampledSampler {
    /// The share that is kept under overload.
    pub closed spec fn share(self) -> u64 {
        self.threshold
    }

    /// A sampler that keeps a share under overload, as a number out of `u64::MAX`.
    pub fn with_threshold(threshold: u64) -> (s: DownsampledSampler)
        ensures
            s.share() == threshold,
    {
        DownsampledSampler { threshold }
    }

    /// Whether a trace is kept under overload.
    pub fn keep_decision(&self, trace_id: &[u8; 16]) -> (keep: bool)
        ensures
            keep == keeps(self.share(), trace_id@),
    {
        let low: u64 = get_u64_be(trace_id.as_slice(), 8);
        low < self.threshold
    }

    /// What becomes of a trace.
    pub fn should_sample(&self, overloaded: bool, trace_id: &[u8; 16]) -> (d: SamplingDecision)
        ensures
            d == decision(self.share(), overloaded, trace_id@),
    {
        if overloaded {
            if self.keep_decision(trace_id) {
                SamplingDecision::RecordAndSample
            } else {
                SamplingDecision::Drop
            }
        } else {
            SamplingDecision::RecordAndSample
        }
    }
}

/// While all is well every trace is kept; under overload, none is where the share
/// is nothing, and a trace that a smaller share keeps is kept by a larger one.
pub proof fn law_share_decides(smaller: u64, larger: u64, trace_id: Seq<u8>)
    requires
        smaller <= larger,
    ensures
        decision(smaller, false, trace_id) == SamplingDecision::RecordAndSample,
        decision(0, true, trace_id) == SamplingDecision::Drop,
        keeps(smaller, trace_id) ==> keeps(larger, trace_id),
{
}

/// Traces whose ids end alike share one fate.
pub proof fn law_decision_follows_the_id(
    threshold: u64,
    overloaded: bool,
    a: Seq<u8>,
    b: Seq<u8>,
)
    requires
        a.subrange(8, 16) == b.subrange(8, 16),
    ensures
        decision(threshold, overloaded, a) == decision(threshold, overloaded, b),
{
}

} // verus!
