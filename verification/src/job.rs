//! The plot job and the constants shared with the hashing routines.

use vstd::prelude::*;

verus! {

/// Bytes of one nonce. The native routines assume the same size.
pub const NONCE_SIZE: u64 = 262144;

/// Nonces handed to one CPU hashing call.
pub const CPU_TASK_SIZE: u64 = 64;

/// A request to produce `total_nonces` consecutive nonces for one account,
/// the first of them at the absolute position `start_nonce`.
#[derive(Clone, Copy, Debug, PartialEq, Eq, Structural)]
pub struct PlotJob {
    pub numeric_id: u64,
    pub start_nonce: u64,
    pub total_nonces: u64,
}

impl PlotJob {
    /// Every nonce of the job has a position that fits in 64 bits.
    pub open spec fn wf(&self) -> bool {
        self.start_nonce + self.total_nonces <= u64::MAX + 1
    }

    /// Builds a job, or `None` when its last nonce would lie beyond `u64::MAX`.
    pub fn new(numeric_id: u64, start_nonce: u64, total_nonces: u64) -> (job: Option<PlotJob>)
        ensures
            job is Some <==> start_nonce + total_nonces <= u64::MAX + 1,
            job matches Some(j) ==> j == (PlotJob { numeric_id, start_nonce, total_nonces }),
    {
        let candidate = PlotJob { numeric_id, start_nonce, total_nonces };
        if candidate.is_valid() {
            Some(candidate)
        } else {
            None
        }
    }

    /// Tests [`PlotJob::wf`].
    pub fn is_valid(&self) -> (valid: bool)
        ensures
            valid == self.wf(),
    {
        self.total_nonces == 0 || self.start_nonce <= u64::MAX - (self.total_nonces - 1)
    }
}

} // verus!
