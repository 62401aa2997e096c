//! Commit progress estimation. The transport's commit call blocks without
//! intermediate feedback, so the pipeline animates an estimate instead: the
//! previous part's measured commit duration, or a fixed default for the
//! first part. The animation ticks on a fixed interval and is cancelled the
//! moment the real commit returns; it is a visual estimate only.

use vstd::prelude::*;

verus! {

/// Expected duration of the first commit, before any measurement exists.
pub const DEFAULT_COMMIT_ESTIMATE_MILLIS: u64 = 12000;

/// Interval on which the commit animation advances.
pub const COMMIT_TICK_MILLIS: u64 = 100;

/// Remembers the previous part's measured commit duration.
#[derive(Clone, Copy, Debug, PartialEq, Eq, Structural)]
pub struct CommitEstimator {
    pub last_millis: Option<u64>,
}

impl CommitEstimator {
    /// The estimate the animation targets: the previous measured duration,
    /// or the fixed default while none was measured yet.
    pub open spec fn spec_estimate_millis(self) -> u64 {
        match self.last_millis {
            Some(d) => d,
            None => DEFAULT_COMMIT_ESTIMATE_MILLIS,
        }
    }

    /// Before the first commit no duration was measured.
    pub fn new() -> (r: CommitEstimator)
        ensures
            r.last_millis is None,
            r.spec_estimate_millis() == DEFAULT_COMMIT_ESTIMATE_MILLIS,
    {
        CommitEstimator { last_millis: None }
    }

    /// The duration the next commit's animation should target.
    pub fn estimate_millis(&self) -> (r: u64)
        ensures
            r == self.spec_estimate_millis(),
    {
        match self.last_millis {
            Some(d) => d,
            None => DEFAULT_COMMIT_ESTIMATE_MILLIS,
        }
    }

    /// Record the measured wall-clock duration of the commit that just
    /// returned; the next part's animation targets it.
    pub fn record_millis(&mut self, measured: u64)
        ensures
            final(self).last_millis == Some(measured),
            final(self).spec_estimate_millis() == measured,
    {
        self.last_millis = Some(measured);
    }
}

/// Whether the animation keeps running: it advances only while the elapsed
/// time is still under the estimate; reaching the estimate stops it, as
/// does (in the caller) the real commit returning.
pub fn animation_keeps_running(elapsed_millis: u64, estimate_millis: u64) -> (r: bool)
    ensures
        r == (elapsed_millis < estimate_millis),
{
    elapsed_millis < estimate_millis
}

} // verus!
