//! What can stop the scheduler.

use vstd::prelude::*;

verus! {

/// Why a scheduler could not be built, or why it refused an event.
#[derive(Clone, Copy, Debug, PartialEq, Eq, Structural)]
pub enum SchedulerError {
    /// The completions of a round do not add up to the nonces of the round:
    /// work was lost, done twice or misreported. Fatal.
    IntegrityViolation,
    /// A channel to a collaborator was closed while the job was running. Fatal.
    ChannelDisconnected,
    /// GPU mode was asked for without a single GPU.
    NoGpuDevices,
    /// More GPUs than the completion protocol can number.
    TooManyGpuDevices,
    /// A GPU reported a worksize of zero nonces.
    ZeroWorksize,
    /// The job's last nonce lies beyond `u64::MAX`.
    JobOutOfRange,
    /// More nonces are reported as already hashed than the job holds.
    HashedBeyondJob,
    /// The event cannot occur in the scheduler's current state.
    UnexpectedEvent,
}

} // verus!
