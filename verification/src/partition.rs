//! The work partitioner: how the nonces of one round are cut into work items.

use vstd::prelude::*;
use crate::device::Device;
use crate::job::PlotJob;
use crate::job::NONCE_SIZE;
use crate::laws::lemma_partition_complete;
use crate::laws::lemma_partition_unique;
use crate::task::item_for;
use crate::task::GPUHasherTaskInfo;
use crate::task::HasherTaskInfo;
use crate::task::SafeCVoid;
use crate::task::SafePointer;
use crate::task::WorkItem;

verus! {

/// Nonces that a round produces: as many as the buffer holds, but no more
/// than the job still lacks.
pub open spec fn spec_nonces_to_hash(buffer_size: nat, total_nonces: nat, nonces_hashed: nat) -> nat {
    let capacity = buffer_size / (NONCE_SIZE as nat);
    let remaining = (total_nonces - nonces_hashed) as nat;
    if capacity <= remaining {
        capacity
    } else {
        remaining
    }
}

/// Number of work items of a round: `nonces_to_hash / batch_size`, rounded up.
pub open spec fn job_count(nonces_to_hash: nat, batch_size: nat) -> nat
    recommends
        batch_size > 0,
{
    if nonces_to_hash % batch_size == 0 {
        nonces_to_hash / batch_size
    } else {
        nonces_to_hash / batch_size + 1
    }
}

/// First nonce slot of the `k`-th work item.
pub open spec fn chunk_start(batch_size: nat, k: nat) -> nat {
    k * batch_size
}

/// Nonces of the `k`-th work item: a full batch, or what is left for the last.
pub open spec fn chunk_len(nonces_to_hash: nat, batch_size: nat, k: nat) -> nat {
    if (k + 1) * batch_size <= nonces_to_hash {
        batch_size
    } else {
        (nonces_to_hash - k * batch_size) as nat
    }
}

/// Index of the work item that fills the nonce slot `slot`.
pub open spec fn item_of_slot(batch_size: nat, slot: nat) -> nat {
    slot / batch_size
}

/// The work items of a round, in the order of their slots.
pub open spec fn partition_spec(
    job: PlotJob,
    nonces_hashed: u64,
    cache_size: u64,
    nonces_to_hash: u64,
    device: Device,
) -> Seq<WorkItem> {
    let batch = device.spec_batch_size();
    Seq::new(
        job_count(nonces_to_hash as nat, batch),
        |k: int|
            item_for(
                job.numeric_id,
                job.start_nonce,
                nonces_hashed,
                cache_size,
                device,
                chunk_start(batch, k as nat),
                chunk_len(nonces_to_hash as nat, batch, k as nat),
            ),
    )
}

/// The items cover the nonce slots `[0, nonces_to_hash)` without gap or
/// overlap: they are as many as the nonces divided by the batch size,
/// rounded up, none is empty, the first starts at slot 0, each next one
/// starts where the one before it ends, and the last ends at slot
/// `nonces_to_hash`.
pub open spec fn covers_round(items: Seq<WorkItem>, nonces_to_hash: nat, batch_size: nat) -> bool {
    &&& items.len() == (nonces_to_hash + batch_size - 1) / (batch_size as int)
    &&& forall|k: int| 0 <= k < items.len() ==> (#[trigger] items[k]).spec_local_nonces() > 0
    &&& nonces_to_hash > 0 ==> items.len() > 0 && items[0].spec_chunk_offset() == 0
        && items.last().spec_chunk_end() == nonces_to_hash
    &&& forall|k: int|
        0 <= k < items.len() - 1 ==> (#[trigger] items[k]).spec_chunk_end() == items[k
            + 1].spec_chunk_offset()
}

/// What makes `items` the partition of a round, said without a formula for
/// the `k`-th item: the items cover the round's slots, every item but the
/// last holds a full batch, and each is the work item for its slots.
pub open spec fn is_partition(
    items: Seq<WorkItem>,
    job: PlotJob,
    nonces_hashed: u64,
    cache_size: u64,
    nonces_to_hash: u64,
    device: Device,
) -> bool {
    let batch = device.spec_batch_size();
    &&& covers_round(items, nonces_to_hash as nat, batch)
    &&& forall|k: int|
        0 <= k < items.len() - 1 ==> (#[trigger] items[k]).spec_local_nonces() == batch
    &&& forall|k: int|
        0 <= k < items.len() ==> #[trigger] items[k] == item_for(
            job.numeric_id,
            job.start_nonce,
            nonces_hashed,
            cache_size,
            device,
            items[k].spec_chunk_offset(),
            items[k].spec_local_nonces(),
        )
}

/// What [`partition`] asks of its arguments: a round never holds more nonces
/// than the buffer has slots or the job has left.
pub open spec fn round_fits(
    job: PlotJob,
    nonces_hashed: u64,
    cache_size: u64,
    nonces_to_hash: u64,
    device: Device,
) -> bool {
    &&& job.wf()
    &&& device.wf()
    &&& nonces_hashed + nonces_to_hash <= job.total_nonces
    &&& nonces_to_hash <= cache_size
    &&& cache_size * NONCE_SIZE <= u64::MAX
}

/// Nonces to produce into a buffer of `buffer_size` bytes.
pub fn nonces_to_hash(buffer_size: u64, total_nonces: u64, nonces_hashed: u64) -> (count: u64)
    requires
        nonces_hashed <= total_nonces,
    ensures
        count == spec_nonces_to_hash(buffer_size as nat, total_nonces as nat, nonces_hashed as nat),
{
    let capacity: u64 = buffer_size / NONCE_SIZE;
    let remaining: u64 = total_nonces - nonces_hashed;
    if capacity <= remaining {
        capacity
    } else {
        remaining
    }
}

/// Number of completions to expect for a round of `nonces_to_hash` nonces.
pub fn n_jobs(nonces_to_hash: u64, batch_size: u64) -> (count: u64)
    requires
        batch_size > 0,
    ensures
        count == job_count(nonces_to_hash as nat, batch_size as nat),
{
    let full_jobs: u64 = nonces_to_hash / batch_size;
    if nonces_to_hash % batch_size > 0 {
        assert(full_jobs < nonces_to_hash) by (nonlinear_arith)
            requires
                full_jobs == nonces_to_hash / batch_size,
                nonces_to_hash % batch_size > 0,
                batch_size > 0,
        ;
        full_jobs + 1
    } else {
        full_jobs
    }
}

/// Builds the work item for `local_nonces` slots from `chunk_offset` on.
pub fn work_item(
    job: &PlotJob,
    nonces_hashed: u64,
    cache_size: u64,
    device: Device,
    chunk_offset: u64,
    local_nonces: u64,
) -> (item: WorkItem)
    requires
        job.wf(),
        device.wf(),
        local_nonces > 0,
        chunk_offset + local_nonces <= cache_size,
        cache_size * NONCE_SIZE <= u64::MAX,
        nonces_hashed + chunk_offset + local_nonces <= job.total_nonces,
    ensures
        item == item_for(
            job.numeric_id,
            job.start_nonce,
            nonces_hashed,
            cache_size,
            device,
            chunk_offset as nat,
            local_nonces as nat,
        ),
        item.wf(),
        item.spec_chunk_offset() == chunk_offset,
        item.spec_local_nonces() == local_nonces,
        item.spec_local_startnonce() == job.start_nonce + nonces_hashed + chunk_offset,
        item.spec_byte_offset() == chunk_offset * NONCE_SIZE,
        item.spec_byte_end() == (chunk_offset + local_nonces) * NONCE_SIZE,
        item.spec_device_id() == device.spec_device_id(),
{
    proof {
        assert(chunk_offset * NONCE_SIZE + local_nonces * NONCE_SIZE == (chunk_offset
            + local_nonces) * NONCE_SIZE) by (nonlinear_arith);
        assert((chunk_offset + local_nonces) * NONCE_SIZE <= cache_size * NONCE_SIZE)
            by (nonlinear_arith)
            requires
                chunk_offset + local_nonces <= cache_size,
        ;
    }
    let local_startnonce: u64 = job.start_nonce + (nonces_hashed + chunk_offset);
    let byte_offset: u64 = chunk_offset * NONCE_SIZE;
    let byte_len: u64 = local_nonces * NONCE_SIZE;
    match device {
        Device::Cpu { simd_level } => WorkItem::Cpu {
            task: HasherTaskInfo {
                cache: SafeCVoid { offset: byte_offset, len: byte_len },
                cache_size,
                chunk_offset,
                numeric_id: job.numeric_id,
                local_startnonce,
                local_nonces,
            },
            simd_level,
        },
        Device::Gpu { index, .. } => WorkItem::Gpu {
            task: GPUHasherTaskInfo {
                cache: SafePointer { offset: byte_offset, len: byte_len },
                cache_size,
                chunk_offset,
                numeric_id: job.numeric_id,
                local_startnonce,
                local_nonces,
            },
            device_index: index,
        },
    }
}

/// Cuts a round of `nonces_to_hash` nonces into work items for `device`:
/// full batches at increasing offsets, then one item for what is left.
pub fn partition(
    job: &PlotJob,
    nonces_hashed: u64,
    cache_size: u64,
    nonces_to_hash: u64,
    device: Device,
) -> (items: Vec<WorkItem>)
    requires
        round_fits(*job, nonces_hashed, cache_size, nonces_to_hash, device),
    ensures
        items@ == partition_spec(*job, nonces_hashed, cache_size, nonces_to_hash, device),
        is_partition(items@, *job, nonces_hashed, cache_size, nonces_to_hash, device),
        covers_round(items@, nonces_to_hash as nat, device.spec_batch_size()),
        forall|k: int| 0 <= k < items@.len() ==> (#[trigger] items@[k]).wf(),
{
    let batch: u64 = device.batch_size();
    let full_jobs: u64 = nonces_to_hash / batch;
    let remainder: u64 = nonces_to_hash % batch;
    let ghost expected = partition_spec(*job, nonces_hashed, cache_size, nonces_to_hash, device);
    proof {
        assert(nonces_to_hash == full_jobs * batch + remainder && remainder < batch)
            by (nonlinear_arith)
            requires
                batch > 0,
                full_jobs == nonces_to_hash / batch,
                remainder == nonces_to_hash % batch,
        ;
    }
    let mut items: Vec<WorkItem> = Vec::new();
    let mut k: u64 = 0;
    while k < full_jobs
        invariant
            k <= full_jobs,
            batch > 0,
            batch == device.spec_batch_size(),
            nonces_to_hash == full_jobs * batch + remainder,
            remainder < batch,
            round_fits(*job, nonces_hashed, cache_size, nonces_to_hash, device),
            expected == partition_spec(*job, nonces_hashed, cache_size, nonces_to_hash, device),
            expected.len() >= full_jobs,
            items@.len() == k,
            forall|i: int| 0 <= i < k ==> items@[i] == expected[i],
        decreases full_jobs - k,
    {
        proof {
            assert((k + 1) * batch <= full_jobs * batch) by (nonlinear_arith)
                requires
                    k < full_jobs,
            ;
            assert((k + 1) * batch == k * batch + batch) by (nonlinear_arith);
            assert(0 <= k * batch) by (nonlinear_arith);
        }
        let item = work_item(job, nonces_hashed, cache_size, device, k * batch, batch);
        assert(item == expected[k as int]);
        items.push(item);
        k = k + 1;
    }
    if remainder > 0 {
        let item = work_item(job, nonces_hashed, cache_size, device, full_jobs * batch, remainder);
        proof {
            assert((full_jobs + 1) * batch == full_jobs * batch + batch) by (nonlinear_arith);
            assert(item == expected[full_jobs as int]);
        }
        items.push(item);
    }
    assert(items@ =~= expected);
    proof {
        lemma_partition_complete(*job, nonces_hashed, cache_size, nonces_to_hash, device);
        lemma_partition_unique(items@, *job, nonces_hashed, cache_size, nonces_to_hash, device);
    }
    items
}

} // verus!
