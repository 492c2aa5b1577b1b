//! The completion protocol: the one message that every backend sends when a
//! work item is finished, and the accounting of a round's messages.

use vstd::prelude::*;
use crate::device::STATUS_ALT_PATH;
use crate::device::STATUS_OK;
use crate::error::SchedulerError;
use crate::job::NONCE_SIZE;
use crate::task::WorkItem;

verus! {

/// Report of one finished work item: who ran it (0 for the CPU, index + 1
/// for a GPU), a status code, and how many nonces were produced.
#[derive(Clone, Copy, Debug, PartialEq, Eq, Structural)]
pub struct CompletionMessage {
    pub device_id: u8,
    pub status: u8,
    pub nonces_completed: u64,
}

impl CompletionMessage {
    /// Bytes that the message adds to the progress of the job.
    pub open spec fn spec_progress_bytes(&self) -> nat {
        (self.nonces_completed * NONCE_SIZE) as nat
    }

    /// Bytes that the message adds to the progress of the job. The count is
    /// whatever a backend reported, so the product is formed in 128 bits.
    pub fn progress_bytes(&self) -> (bytes: u128)
        ensures
            bytes == self.spec_progress_bytes(),
    {
        let count: u128 = self.nonces_completed as u128;
        let size: u128 = NONCE_SIZE as u128;
        assert(count * size <= u64::MAX * u64::MAX) by (nonlinear_arith)
            requires
                count <= u64::MAX,
                size <= u64::MAX,
        ;
        count * size
    }
}

/// The message that a backend sends when it has finished `item`.
pub open spec fn completion_of(item: WorkItem) -> CompletionMessage {
    match item {
        WorkItem::Cpu { task, .. } => CompletionMessage {
            device_id: 0,
            status: STATUS_OK,
            nonces_completed: task.local_nonces,
        },
        WorkItem::Gpu { task, device_index } => CompletionMessage {
            device_id: (device_index + 1) as u8,
            status: STATUS_ALT_PATH,
            nonces_completed: task.local_nonces,
        },
    }
}

/// The messages that the backends send for `items`, one for each.
pub open spec fn completions_of(items: Seq<WorkItem>) -> Seq<CompletionMessage> {
    Seq::new(items.len(), |k: int| completion_of(items[k]))
}

/// Sum of the nonces that `messages` report.
pub open spec fn total_completed(messages: Seq<CompletionMessage>) -> nat
    decreases messages.len(),
{
    if messages.len() == 0 {
        0
    } else {
        total_completed(messages.drop_last()) + messages.last().nonces_completed as nat
    }
}

/// A round is sound when one message came in for each work item and the
/// messages account for exactly the nonces of the round.
pub open spec fn round_conserved(
    messages: Seq<CompletionMessage>,
    n_jobs: nat,
    nonces_to_hash: nat,
) -> bool {
    messages.len() == n_jobs && total_completed(messages) == nonces_to_hash
}

/// The message to send for a finished work item.
pub fn completion(item: &WorkItem) -> (message: CompletionMessage)
    requires
        item.wf(),
    ensures
        message == completion_of(*item),
        message.device_id == item.spec_device_id(),
        message.nonces_completed == item.spec_local_nonces(),
{
    match *item {
        WorkItem::Cpu { task, .. } => CompletionMessage {
            device_id: 0,
            status: STATUS_OK,
            nonces_completed: task.local_nonces,
        },
        WorkItem::Gpu { task, device_index } => CompletionMessage {
            device_id: device_index + 1,
            status: STATUS_ALT_PATH,
            nonces_completed: task.local_nonces,
        },
    }
}

/// Adds up the nonces that `messages` report.
pub fn sum_completed(messages: &Vec<CompletionMessage>) -> (sum: u128)
    ensures
        sum == total_completed(messages@),
{
    let mut sum: u128 = 0;
    let mut i: usize = 0;
    while i < messages.len()
        invariant
            i <= messages.len(),
            sum == total_completed(messages@.take(i as int)),
            sum <= i * u64::MAX,
        decreases messages.len() - i,
    {
        proof {
            let next = messages@.take(i + 1);
            assert(next.drop_last() =~= messages@.take(i as int));
            assert(next.last() == messages@[i as int]);
            assert((i + 1) * u64::MAX == i * u64::MAX + u64::MAX) by (nonlinear_arith);
            assert(i * u64::MAX <= usize::MAX * u64::MAX) by (nonlinear_arith)
                requires
                    i <= usize::MAX,
            ;
            assert(usize::MAX * u64::MAX <= u64::MAX * u64::MAX) by (nonlinear_arith)
                requires
                    usize::MAX <= u64::MAX,
            ;
        }
        sum = sum + messages[i].nonces_completed as u128;
        i = i + 1;
    }
    assert(messages@.take(i as int) =~= messages@);
    sum
}

/// Checks a drained round: `n_jobs` messages must have come in, and they
/// must account for exactly `nonces_to_hash` nonces.
pub fn verify_round(messages: &Vec<CompletionMessage>, n_jobs: u64, nonces_to_hash: u64) -> (checked:
    Result<(), SchedulerError>)
    ensures
        checked is Ok <==> round_conserved(messages@, n_jobs as nat, nonces_to_hash as nat),
        checked is Err ==> checked == Err::<(), SchedulerError>(SchedulerError::IntegrityViolation),
{
    let sum: u128 = sum_completed(messages);
    if messages.len() as u64 == n_jobs && sum == nonces_to_hash as u128 {
        Ok(())
    } else {
        Err(SchedulerError::IntegrityViolation)
    }
}

} // verus!
