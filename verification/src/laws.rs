//! What holds of the partitioner, the completion protocol and the scheduler
//! for every job, stated and proved.

use vstd::prelude::*;
use crate::completion::completion_of;
use crate::completion::completions_of;
use crate::completion::round_conserved;
use crate::completion::total_completed;
use crate::completion::CompletionMessage;
use crate::device::simd_level_of;
use crate::device::Device;
use crate::device::SimdLevel;
use crate::error::SchedulerError;
use crate::job::PlotJob;
use crate::job::NONCE_SIZE;
use crate::partition::chunk_len;
use crate::partition::chunk_start;
use crate::partition::covers_round;
use crate::partition::is_partition;
use crate::partition::item_of_slot;
use crate::partition::job_count;
use crate::partition::partition_spec;
use crate::partition::round_fits;
use crate::partition::spec_nonces_to_hash;
use crate::scheduler::transition;
use crate::scheduler::ActionView;
use crate::scheduler::Event;
use crate::scheduler::SchedulerState;
use crate::scheduler::SchedulerView;
use crate::task::WorkItem;

verus! {

/// Quotient and remainder of the round's nonces by the batch size.
proof fn lemma_div_mod(nonces_to_hash: nat, batch_size: nat)
    requires
        batch_size > 0,
    ensures
        nonces_to_hash == (nonces_to_hash / batch_size) * batch_size + nonces_to_hash % batch_size,
        0 <= nonces_to_hash % batch_size < batch_size,
        0 <= nonces_to_hash / batch_size <= nonces_to_hash,
{
    assert(nonces_to_hash == (nonces_to_hash / batch_size) * batch_size + nonces_to_hash
        % batch_size && 0 <= nonces_to_hash % batch_size < batch_size && 0 <= nonces_to_hash
        / batch_size <= nonces_to_hash) by (nonlinear_arith)
        requires
            batch_size > 0,
    ;
}

/// The `k`-th chunk of a round holds at least one nonce and at most a batch,
/// and ends where the next one starts, or, if it is the last, where the
/// round ends.
pub proof fn lemma_chunk(nonces_to_hash: nat, batch_size: nat, k: nat)
    requires
        batch_size > 0,
        k < job_count(nonces_to_hash, batch_size),
    ensures
        0 < chunk_len(nonces_to_hash, batch_size, k) <= batch_size,
        chunk_start(batch_size, k) + chunk_len(nonces_to_hash, batch_size, k) <= nonces_to_hash,
        k + 1 < job_count(nonces_to_hash, batch_size) ==> {
            &&& chunk_len(nonces_to_hash, batch_size, k) == batch_size
            &&& chunk_start(batch_size, k) + batch_size == chunk_start(batch_size, k + 1)
        },
        k + 1 == job_count(nonces_to_hash, batch_size) ==> chunk_start(batch_size, k) + chunk_len(
            nonces_to_hash,
            batch_size,
            k,
        ) == nonces_to_hash,
{
    lemma_div_mod(nonces_to_hash, batch_size);
    let q = nonces_to_hash / batch_size;
    let r = nonces_to_hash % batch_size;
    assert((k + 1) * batch_size == k * batch_size + batch_size) by (nonlinear_arith);
    assert(0 <= k * batch_size) by (nonlinear_arith);
    if k < q {
        assert((k + 1) * batch_size <= q * batch_size) by (nonlinear_arith)
            requires
                k + 1 <= q,
        ;
        if k + 1 == job_count(nonces_to_hash, batch_size) {
            assert(k + 1 == q && r == 0);
        }
    } else {
        assert(k == q && r > 0);
    }
}

/// Number of work items of a round: the quotient of its nonces by the batch
/// size, rounded up.
pub proof fn lemma_job_count_is_ceiling(nonces_to_hash: nat, batch_size: nat)
    requires
        batch_size > 0,
    ensures
        job_count(nonces_to_hash, batch_size) == (nonces_to_hash + batch_size - 1) / (
        batch_size as int),
        job_count(nonces_to_hash, batch_size) <= nonces_to_hash,
        job_count(nonces_to_hash, batch_size) == 0 <==> nonces_to_hash == 0,
{
    lemma_div_mod(nonces_to_hash, batch_size);
    let q = nonces_to_hash / batch_size;
    let r = nonces_to_hash % batch_size;
    let b = batch_size as int;
    let ceiling = (nonces_to_hash + batch_size - 1) / b;
    if r == 0 {
        assert(ceiling == q) by (nonlinear_arith)
            requires
                ceiling == (q * b + b - 1) / b,
                b > 0,
                q >= 0,
        ;
    } else {
        assert(ceiling == q + 1) by (nonlinear_arith)
            requires
                ceiling == (q * b + r + b - 1) / b,
                0 < r < b,
                q >= 0,
        ;
        assert(q + 1 <= nonces_to_hash) by (nonlinear_arith)
            requires
                nonces_to_hash == q * b + r,
                0 < r < b,
                q >= 0,
        ;
    }
    if q == 0 {
        assert(q * batch_size == 0) by (nonlinear_arith)
            requires
                q == 0,
        ;
    }
}

/// The `k`-th work item of a round: it is well formed, fills the `k`-th
/// chunk of the buffer's slots with the job's nonces at the same distance
/// from the round's first nonce, owns the bytes of exactly those slots, and
/// is meant for the round's device.
pub proof fn lemma_item(
    job: PlotJob,
    nonces_hashed: u64,
    cache_size: u64,
    nonces_to_hash: u64,
    device: Device,
    k: int,
)
    requires
        round_fits(job, nonces_hashed, cache_size, nonces_to_hash, device),
        0 <= k < job_count(nonces_to_hash as nat, device.spec_batch_size()),
    ensures
        ({
            let items = partition_spec(job, nonces_hashed, cache_size, nonces_to_hash, device);
            let batch = device.spec_batch_size();
            let start = chunk_start(batch, k as nat);
            let count = chunk_len(nonces_to_hash as nat, batch, k as nat);
            &&& items[k].wf()
            &&& items[k].spec_chunk_offset() == start
            &&& items[k].spec_local_nonces() == count
            &&& items[k].spec_local_startnonce() == job.start_nonce + nonces_hashed + start
            &&& items[k].spec_byte_offset() == start * NONCE_SIZE
            &&& items[k].spec_byte_end() == (start + count) * NONCE_SIZE
            &&& items[k].spec_byte_end() <= cache_size * NONCE_SIZE
            &&& items[k].spec_device_id() == device.spec_device_id()
            &&& completion_of(items[k]) == (CompletionMessage {
                device_id: device.spec_device_id() as u8,
                status: device.spec_status(),
                nonces_completed: count as u64,
            })
            &&& match items[k] {
                WorkItem::Cpu { task, simd_level } => device == (Device::Cpu { simd_level })
                    && task.numeric_id == job.numeric_id && task.cache_size == cache_size,
                WorkItem::Gpu { task, device_index } => device matches Device::Gpu { index, .. }
                    && index == device_index && task.numeric_id == job.numeric_id
                    && task.cache_size == cache_size,
            }
        }),
{
    let batch = device.spec_batch_size();
    let start = chunk_start(batch, k as nat);
    let count = chunk_len(nonces_to_hash as nat, batch, k as nat);
    lemma_chunk(nonces_to_hash as nat, batch, k as nat);
    assert(start * NONCE_SIZE + count * NONCE_SIZE == (start + count) * NONCE_SIZE)
        by (nonlinear_arith);
    assert((start + count) * NONCE_SIZE <= cache_size * NONCE_SIZE) by (nonlinear_arith)
        requires
            start + count <= cache_size,
    ;
    assert(0 <= start * NONCE_SIZE && 0 <= count * NONCE_SIZE) by (nonlinear_arith)
        requires
            0 <= start,
            0 <= count,
    ;
}

/// Partition completeness: the work items of a round cover its nonce slots
/// without gap or overlap, as [`covers_round`] says, and each is well
/// formed. So no two items share a slot, and every slot lies in the item
/// that [`item_of_slot`] names.
pub proof fn lemma_partition_complete(
    job: PlotJob,
    nonces_hashed: u64,
    cache_size: u64,
    nonces_to_hash: u64,
    device: Device,
)
    requires
        round_fits(job, nonces_hashed, cache_size, nonces_to_hash, device),
    ensures
        ({
            let items = partition_spec(job, nonces_hashed, cache_size, nonces_to_hash, device);
            let batch = device.spec_batch_size();
            &&& covers_round(items, nonces_to_hash as nat, batch)
            &&& forall|k: int| 0 <= k < items.len() ==> (#[trigger] items[k]).wf()
            &&& forall|i: int, j: int|
                0 <= i < j < items.len() ==> (#[trigger] items[i]).spec_chunk_end() <= (
                #[trigger] items[j]).spec_chunk_offset()
            &&& forall|slot: nat|
                slot < nonces_to_hash ==> {
                    let k = #[trigger] item_of_slot(batch, slot) as int;
                    &&& 0 <= k < items.len()
                    &&& items[k].spec_chunk_offset() <= slot < items[k].spec_chunk_end()
                }
        }),
{
    let items = partition_spec(job, nonces_hashed, cache_size, nonces_to_hash, device);
    let batch = device.spec_batch_size();
    let n = nonces_to_hash as nat;
    lemma_job_count_is_ceiling(n, batch);
    assert forall|k: int| 0 <= k < items.len() implies (#[trigger] items[k]).wf()
        && items[k].spec_local_nonces() > 0 && items[k].spec_chunk_offset() == chunk_start(
        batch,
        k as nat,
    ) && items[k].spec_chunk_end() == chunk_start(batch, k as nat) + chunk_len(
        n,
        batch,
        k as nat,
    ) by {
        lemma_item(job, nonces_hashed, cache_size, nonces_to_hash, device, k);
        lemma_chunk(n, batch, k as nat);
    }
    if nonces_to_hash > 0 {
        lemma_chunk(n, batch, 0);
        lemma_chunk(n, batch, (items.len() - 1) as nat);
        assert(chunk_start(batch, 0) == 0) by (nonlinear_arith)
            requires
                chunk_start(batch, 0) == 0 * batch,
        ;
    }
    assert forall|k: int| 0 <= k < items.len() - 1 implies (#[trigger] items[k]).spec_chunk_end()
        == items[k + 1].spec_chunk_offset() by {
        lemma_chunk(n, batch, k as nat);
        assert(items[k + 1].spec_chunk_offset() == chunk_start(batch, (k + 1) as nat));
    }
    assert forall|i: int, j: int| 0 <= i < j < items.len() implies (
    #[trigger] items[i]).spec_chunk_end() <= (#[trigger] items[j]).spec_chunk_offset() by {
        lemma_chunk(n, batch, i as nat);
        assert((i + 1) * batch <= j * batch) by (nonlinear_arith)
            requires
                i + 1 <= j,
                batch >= 0,
        ;
        assert((i + 1) * batch == i * batch + batch) by (nonlinear_arith);
    }
    assert forall|slot: nat| slot < nonces_to_hash implies {
        let k = #[trigger] item_of_slot(batch, slot) as int;
        &&& 0 <= k < items.len()
        &&& items[k].spec_chunk_offset() <= slot < items[k].spec_chunk_end()
    } by {
        let k = item_of_slot(batch, slot);
        lemma_div_mod(slot, batch);
        lemma_div_mod(n, batch);
        assert(k <= n / batch) by (nonlinear_arith)
            requires
                k == slot / batch,
                slot < n,
                batch > 0,
        ;
        if k == n / batch {
            assert((slot / batch) * batch == (n / batch) * batch);
            assert(n % batch > 0);
        }
        assert(k < items.len());
        assert((k + 1) * batch == k * batch + batch) by (nonlinear_arith);
        lemma_chunk(n, batch, k);
        assert(items[k as int].spec_chunk_offset() == chunk_start(batch, k));
    }
}

/// The byte claims of a round's work items lie in the buffer and share no
/// byte, so the backends may write them at the same time: each claim ends
/// where the next one starts, and the last ends with the bytes of the
/// round's slots.
pub proof fn lemma_claims_disjoint(
    job: PlotJob,
    nonces_hashed: u64,
    cache_size: u64,
    nonces_to_hash: u64,
    device: Device,
)
    requires
        round_fits(job, nonces_hashed, cache_size, nonces_to_hash, device),
    ensures
        ({
            let items = partition_spec(job, nonces_hashed, cache_size, nonces_to_hash, device);
            &&& forall|k: int|
                0 <= k < items.len() ==> (#[trigger] items[k]).spec_byte_offset()
                    < items[k].spec_byte_end() <= nonces_to_hash * NONCE_SIZE <= cache_size
                    * NONCE_SIZE
            &&& forall|k: int|
                0 <= k < items.len() - 1 ==> (#[trigger] items[k]).spec_byte_end() == items[k
                    + 1].spec_byte_offset()
            &&& forall|i: int, j: int|
                0 <= i < j < items.len() ==> (#[trigger] items[i]).spec_byte_end() <= (
                #[trigger] items[j]).spec_byte_offset()
        }),
{
    let items = partition_spec(job, nonces_hashed, cache_size, nonces_to_hash, device);
    let batch = device.spec_batch_size();
    let n = nonces_to_hash as nat;
    assert(nonces_to_hash * NONCE_SIZE <= cache_size * NONCE_SIZE) by (nonlinear_arith)
        requires
            nonces_to_hash <= cache_size,
    ;
    assert forall|k: int| 0 <= k < items.len() implies (#[trigger] items[k]).spec_byte_offset()
        == chunk_start(batch, k as nat) * NONCE_SIZE && items[k].spec_byte_end() == (chunk_start(
        batch,
        k as nat,
    ) + chunk_len(n, batch, k as nat)) * NONCE_SIZE && items[k].spec_byte_offset()
        < items[k].spec_byte_end() <= nonces_to_hash * NONCE_SIZE by {
        lemma_item(job, nonces_hashed, cache_size, nonces_to_hash, device, k);
        lemma_chunk(n, batch, k as nat);
        let start = chunk_start(batch, k as nat);
        let count = chunk_len(n, batch, k as nat);
        assert(start * NONCE_SIZE < (start + count) * NONCE_SIZE <= n * NONCE_SIZE)
            by (nonlinear_arith)
            requires
                0 < count,
                start + count <= n,
        ;
    }
    assert forall|i: int, j: int| 0 <= i < j < items.len() implies (
    #[trigger] items[i]).spec_byte_end() <= (#[trigger] items[j]).spec_byte_offset() by {
        lemma_chunk(n, batch, i as nat);
        let end = chunk_start(batch, i as nat) + chunk_len(n, batch, i as nat);
        let next = chunk_start(batch, j as nat);
        assert((i + 1) * batch <= j * batch) by (nonlinear_arith)
            requires
                i + 1 <= j,
                batch >= 0,
        ;
        assert((i + 1) * batch == i * batch + batch) by (nonlinear_arith);
        assert(end * NONCE_SIZE <= next * NONCE_SIZE) by (nonlinear_arith)
            requires
                end <= next,
        ;
    }
    assert forall|k: int| 0 <= k < items.len() - 1 implies (#[trigger] items[k]).spec_byte_end()
        == items[k + 1].spec_byte_offset() by {
        lemma_chunk(n, batch, k as nat);
        assert(items[k + 1].spec_byte_offset() == chunk_start(batch, (k + 1) as nat)
            * NONCE_SIZE);
    }
}

/// In a sequence of items that covers a round with full batches before the
/// last item, the `k`-th item starts at slot `k * batch_size`.
proof fn lemma_offsets(items: Seq<WorkItem>, nonces_to_hash: nat, batch_size: nat, k: int)
    requires
        batch_size > 0,
        covers_round(items, nonces_to_hash, batch_size),
        forall|i: int|
            0 <= i < items.len() - 1 ==> (#[trigger] items[i]).spec_local_nonces() == batch_size,
        0 <= k < items.len(),
    ensures
        items[k].spec_chunk_offset() == chunk_start(batch_size, k as nat),
    decreases k,
{
    lemma_job_count_is_ceiling(nonces_to_hash, batch_size);
    if k == 0 {
        assert(chunk_start(batch_size, 0) == 0) by (nonlinear_arith)
            requires
                chunk_start(batch_size, 0) == 0 * batch_size,
        ;
    } else {
        lemma_offsets(items, nonces_to_hash, batch_size, k - 1);
        assert(items[k - 1].spec_chunk_end() == items[k - 1 + 1].spec_chunk_offset());
        assert(k * batch_size == (k - 1) * batch_size + batch_size) by (nonlinear_arith);
    }
}

/// The partition of a round is the only sequence of work items that covers
/// the round with full batches before its last item.
pub proof fn lemma_partition_unique(
    items: Seq<WorkItem>,
    job: PlotJob,
    nonces_hashed: u64,
    cache_size: u64,
    nonces_to_hash: u64,
    device: Device,
)
    requires
        round_fits(job, nonces_hashed, cache_size, nonces_to_hash, device),
    ensures
        is_partition(items, job, nonces_hashed, cache_size, nonces_to_hash, device) <==> items
            == partition_spec(job, nonces_hashed, cache_size, nonces_to_hash, device),
{
    let expected = partition_spec(job, nonces_hashed, cache_size, nonces_to_hash, device);
    let batch = device.spec_batch_size();
    let n = nonces_to_hash as nat;
    lemma_partition_complete(job, nonces_hashed, cache_size, nonces_to_hash, device);
    lemma_job_count_is_ceiling(n, batch);
    assert forall|k: int| 0 <= k < expected.len() implies (#[trigger] expected[k]).spec_chunk_offset()
        == chunk_start(batch, k as nat) && expected[k].spec_local_nonces() == chunk_len(
        n,
        batch,
        k as nat,
    ) && (k < expected.len() - 1 ==> expected[k].spec_local_nonces() == batch) by {
        lemma_item(job, nonces_hashed, cache_size, nonces_to_hash, device, k);
        lemma_chunk(n, batch, k as nat);
    }
    assert(is_partition(expected, job, nonces_hashed, cache_size, nonces_to_hash, device));
    if is_partition(items, job, nonces_hashed, cache_size, nonces_to_hash, device) {
        assert(items.len() == expected.len());
        assert forall|k: int| 0 <= k < items.len() implies items[k] == expected[k] by {
            lemma_offsets(items, n, batch, k);
            lemma_chunk(n, batch, k as nat);
            if k < items.len() - 1 {
                assert(items[k].spec_local_nonces() == batch);
            } else {
                assert(items.last().spec_chunk_end() == n);
            }
            assert(items[k].spec_local_nonces() == chunk_len(n, batch, k as nat));
        }
        assert(items =~= expected);
    }
}

/// Idempotent partition: the partitioner has no hidden state. Whatever two
/// calls return for the same round is the same sequence of work items, and
/// so is any sequence of which [`is_partition`] holds.
pub proof fn lemma_partition_idempotent(
    job: PlotJob,
    nonces_hashed: u64,
    cache_size: u64,
    nonces_to_hash: u64,
    device: Device,
    first: Seq<WorkItem>,
    second: Seq<WorkItem>,
)
    requires
        round_fits(job, nonces_hashed, cache_size, nonces_to_hash, device),
        is_partition(first, job, nonces_hashed, cache_size, nonces_to_hash, device),
        is_partition(second, job, nonces_hashed, cache_size, nonces_to_hash, device),
    ensures
        first == second,
        first == partition_spec(job, nonces_hashed, cache_size, nonces_to_hash, device),
{
    lemma_partition_unique(first, job, nonces_hashed, cache_size, nonces_to_hash, device);
    lemma_partition_unique(second, job, nonces_hashed, cache_size, nonces_to_hash, device);
}

/// The completions of the first `k` work items of a round report the nonces
/// of the slots before the `k`-th chunk, or all of the round's nonces if
/// there is no `k`-th chunk.
proof fn lemma_prefix_completed(
    job: PlotJob,
    nonces_hashed: u64,
    cache_size: u64,
    nonces_to_hash: u64,
    device: Device,
    k: nat,
)
    requires
        round_fits(job, nonces_hashed, cache_size, nonces_to_hash, device),
        k <= job_count(nonces_to_hash as nat, device.spec_batch_size()),
    ensures
        ({
            let items = partition_spec(job, nonces_hashed, cache_size, nonces_to_hash, device);
            let batch = device.spec_batch_size();
            let reported = total_completed(completions_of(items).take(k as int));
            if k < job_count(nonces_to_hash as nat, batch) {
                reported == chunk_start(batch, k)
            } else {
                reported == nonces_to_hash
            }
        }),
    decreases k,
{
    let items = partition_spec(job, nonces_hashed, cache_size, nonces_to_hash, device);
    let batch = device.spec_batch_size();
    let messages = completions_of(items);
    if k == 0 {
        assert(chunk_start(batch, 0) == 0) by (nonlinear_arith)
            requires
                chunk_start(batch, 0) == 0 * batch,
        ;
        lemma_job_count_is_ceiling(nonces_to_hash as nat, batch);
    } else {
        let before = (k - 1) as nat;
        lemma_prefix_completed(job, nonces_hashed, cache_size, nonces_to_hash, device, before);
        lemma_item(job, nonces_hashed, cache_size, nonces_to_hash, device, before as int);
        lemma_chunk(nonces_to_hash as nat, batch, before);
        assert(messages.take(k as int).drop_last() =~= messages.take(before as int));
        assert(messages.take(k as int).last() == completion_of(items[before as int]));
    }
}

/// Backends that send one completion for each work item, reporting the
/// item's nonces, conserve the round: the messages are as many as the items
/// and add up to the nonces of the round.
pub proof fn lemma_completions_conserve_round(
    job: PlotJob,
    nonces_hashed: u64,
    cache_size: u64,
    nonces_to_hash: u64,
    device: Device,
)
    requires
        round_fits(job, nonces_hashed, cache_size, nonces_to_hash, device),
    ensures
        round_conserved(
            completions_of(
                partition_spec(job, nonces_hashed, cache_size, nonces_to_hash, device),
            ),
            job_count(nonces_to_hash as nat, device.spec_batch_size()),
            nonces_to_hash as nat,
        ),
{
    let items = partition_spec(job, nonces_hashed, cache_size, nonces_to_hash, device);
    let messages = completions_of(items);
    let count = job_count(nonces_to_hash as nat, device.spec_batch_size());
    lemma_prefix_completed(job, nonces_hashed, cache_size, nonces_to_hash, device, count);
    assert(messages.take(count as int) =~= messages);
}

/// Whatever event a well-formed scheduler is fed, it stays well formed: it
/// never counts more nonces as hashed than the job holds, and never fewer
/// than before.
pub proof fn lemma_transition_keeps_wf(s: SchedulerView, event: Event)
    requires
        s.wf(),
    ensures
        transition(s, event).0.wf(),
        transition(s, event).0.job == s.job,
        transition(s, event).0.device == s.device,
        transition(s, event).0.gpu_workers == s.gpu_workers,
        s.nonces_hashed <= transition(s, event).0.nonces_hashed <= s.job.total_nonces,
        transition(s, event).1 is Err ==> transition(s, event).0 == s,
{
    match event {
        Event::BufferReceived { buffer_size } => {
            let cache_size = buffer_size / NONCE_SIZE;
            assert(cache_size * NONCE_SIZE <= buffer_size) by (nonlinear_arith)
                requires
                    cache_size == buffer_size / NONCE_SIZE,
                    NONCE_SIZE > 0,
            ;
        },
        Event::Dispatched => {
            lemma_job_count_is_ceiling(s.round_nonces, s.device.spec_batch_size());
        },
        Event::Completion { message } => {
            if s.state == SchedulerState::Draining {
                let drained = job_count(s.round_nonces, s.device.spec_batch_size()) - s.pending;
                assert(drained * u64::MAX + u64::MAX == (drained + 1) * u64::MAX)
                    by (nonlinear_arith);
                assert((drained + 1) * u64::MAX <= u64::MAX * u64::MAX) by (nonlinear_arith)
                    requires
                        0 <= drained + 1 <= u64::MAX,
                ;
            }
        },
        _ => {},
    }
}

/// Shutdown: when the writer has taken the buffer that completes the job,
/// the scheduler asks for one sentinel to each GPU worker, every worker
/// named once, and takes no further event.
pub proof fn lemma_shutdown_names_every_worker(s: SchedulerView, event: Event)
    requires
        s.wf(),
        s.state == SchedulerState::Forwarding,
        s.done(),
    ensures
        ({
            let end = transition(s, Event::Forwarded);
            &&& end.0.state == SchedulerState::ShuttingDown
            &&& end.1 matches Ok(ActionView::Shutdown { gpu_workers })
            &&& gpu_workers.len() == s.gpu_workers
            &&& forall|i: int| 0 <= i < gpu_workers.len() ==> gpu_workers[i] == i
            &&& forall|i: int, j: int|
                0 <= i < j < gpu_workers.len() ==> gpu_workers[i] != gpu_workers[j]
            &&& transition(end.0, event).0 == end.0
            &&& transition(end.0, event).1 is Err
        }),
{
}

/// The scheduler after it was fed `messages` in order, one completion event
/// for each.
pub open spec fn drain(s: SchedulerView, messages: Seq<CompletionMessage>) -> SchedulerView
    decreases messages.len(),
{
    if messages.len() == 0 {
        s
    } else {
        transition(
            drain(s, messages.drop_last()),
            Event::Completion { message: messages.last() },
        ).0
    }
}

/// While fewer messages came in than the round has items left, the scheduler
/// goes on draining: it counts the message and adds its nonces to the sum.
pub proof fn lemma_drain_goes_on(s: SchedulerView, messages: Seq<CompletionMessage>)
    requires
        s.state == SchedulerState::Draining,
        messages.len() < s.pending,
    ensures
        drain(s, messages) == (SchedulerView {
            pending: (s.pending - messages.len()) as nat,
            completed: s.completed + total_completed(messages),
            ..s
        }),
    decreases messages.len(),
{
    if messages.len() > 0 {
        lemma_drain_goes_on(s, messages.drop_last());
    }
}

/// Round conservation: when the last completion of a round has come in, the
/// buffer moves on to the writer, and the round's nonces count as hashed, if
/// and only if the nonces that the drained messages report add up to the
/// nonces of the round. If they do not, the last message is answered with an
/// integrity violation and the scheduler stays where it was.
pub proof fn lemma_round_conservation(s: SchedulerView, messages: Seq<CompletionMessage>)
    requires
        s.wf(),
        s.state == SchedulerState::Draining,
        messages.len() == s.pending,
    ensures
        ({
            let before_last = drain(s, messages.drop_last());
            let answer = transition(before_last, Event::Completion { message: messages.last() }).1;
            if s.completed + total_completed(messages) == s.round_nonces {
                &&& answer is Ok
                &&& drain(s, messages) == (SchedulerView {
                    state: SchedulerState::Forwarding,
                    nonces_hashed: s.nonces_hashed + s.round_nonces,
                    pending: 0,
                    completed: s.round_nonces,
                    ..s
                })
            } else {
                &&& answer == Err::<ActionView, SchedulerError>(SchedulerError::IntegrityViolation)
                &&& drain(s, messages) == before_last
                &&& drain(s, messages).state == SchedulerState::Draining
                &&& drain(s, messages).nonces_hashed == s.nonces_hashed
            }
        }),
        s.completed == 0 ==> (drain(s, messages).state == SchedulerState::Forwarding
            <==> round_conserved(messages, s.pending, s.round_nonces)),
{
    lemma_drain_goes_on(s, messages.drop_last());
}

/// The scheduler after one round in which every backend did its work: a
/// buffer of `buffer_size` bytes arrived, its work items were dispatched,
/// one completion came in for each item, and the writer took the buffer.
pub open spec fn after_round(s: SchedulerView, buffer_size: u64) -> SchedulerView {
    let received = transition(s, Event::BufferReceived { buffer_size });
    let items = match received.1 {
        Ok(ActionView::Dispatch { items }) => items,
        _ => Seq::empty(),
    };
    let dispatched = transition(received.0, Event::Dispatched).0;
    let drained = drain(dispatched, completions_of(items));
    transition(drained, Event::Forwarded).0
}

/// The scheduler after `rounds` such rounds with buffers of one size.
pub open spec fn after_rounds(s: SchedulerView, buffer_size: u64, rounds: nat) -> SchedulerView
    decreases rounds,
{
    if rounds == 0 {
        s
    } else {
        after_round(after_rounds(s, buffer_size, (rounds - 1) as nat), buffer_size)
    }
}

/// A round in which every backend did its work adds to the hashed nonces
/// what the buffer holds, or what the job still lacked if that is less, and
/// ends the loop if and only if the job is then complete.
pub proof fn lemma_round(s: SchedulerView, buffer_size: u64)
    requires
        s.wf(),
        s.state == SchedulerState::AwaitingBuffer,
    ensures
        ({
            let count = spec_nonces_to_hash(
                buffer_size as nat,
                s.job.total_nonces as nat,
                s.nonces_hashed,
            );
            let t = after_round(s, buffer_size);
            &&& t.wf()
            &&& t.job == s.job
            &&& t.device == s.device
            &&& t.gpu_workers == s.gpu_workers
            &&& t.nonces_hashed == s.nonces_hashed + count
            &&& t.state == if t.nonces_hashed == s.job.total_nonces {
                SchedulerState::ShuttingDown
            } else {
                SchedulerState::AwaitingBuffer
            }
        }),
{
    let count = spec_nonces_to_hash(buffer_size as nat, s.job.total_nonces as nat, s.nonces_hashed);
    let cache_size = buffer_size / NONCE_SIZE;
    assert(cache_size * NONCE_SIZE <= buffer_size) by (nonlinear_arith)
        requires
            cache_size == buffer_size / NONCE_SIZE,
            NONCE_SIZE > 0,
    ;
    let hashed = s.nonces_hashed as u64;
    assert(round_fits(s.job, hashed, cache_size, count as u64, s.device));
    let items = partition_spec(s.job, hashed, cache_size, count as u64, s.device);
    let received = transition(s, Event::BufferReceived { buffer_size });
    assert(received.1 == Ok::<ActionView, SchedulerError>(ActionView::Dispatch { items }));
    let dispatched = transition(received.0, Event::Dispatched).0;
    lemma_job_count_is_ceiling(count, s.device.spec_batch_size());
    lemma_completions_conserve_round(s.job, hashed, cache_size, count as u64, s.device);
    if items.len() > 0 {
        assert(dispatched.wf());
        lemma_round_conservation(dispatched, completions_of(items));
    } else {
        assert(completions_of(items) =~= Seq::<CompletionMessage>::empty());
    }
}

/// Termination: from a scheduler that waits for a buffer with part of its
/// job still to do, rounds with full buffers of one size, each of at least
/// one nonce, end the loop after exactly as many rounds as the nonces that
/// are left divided by the nonces that a buffer holds, rounded up. Before
/// that many rounds the scheduler waits for the next buffer, with a full
/// buffer's nonces hashed in every round; after them the job is complete and
/// the scheduler shuts down.
pub proof fn lemma_termination(s: SchedulerView, buffer_size: u64, k: nat)
    requires
        s.wf(),
        s.state == SchedulerState::AwaitingBuffer,
        s.nonces_hashed < s.job.total_nonces,
        buffer_size >= NONCE_SIZE,
        k <= (s.job.total_nonces - s.nonces_hashed + buffer_size / NONCE_SIZE - 1) / ((buffer_size
            / NONCE_SIZE) as int),
    ensures
        ({
            let capacity = (buffer_size / NONCE_SIZE) as nat;
            let left = (s.job.total_nonces - s.nonces_hashed) as nat;
            let rounds = (left + capacity - 1) / (capacity as int);
            let t = after_rounds(s, buffer_size, k);
            &&& t.wf()
            &&& t.job == s.job
            &&& rounds > 0
            &&& k < rounds ==> t.state == SchedulerState::AwaitingBuffer && t.nonces_hashed
                == s.nonces_hashed + k * capacity && t.nonces_hashed < s.job.total_nonces
            &&& k == rounds ==> t.state == SchedulerState::ShuttingDown && t.nonces_hashed
                == s.job.total_nonces
        }),
    decreases k,
{
    let capacity = (buffer_size / NONCE_SIZE) as nat;
    let left = (s.job.total_nonces - s.nonces_hashed) as nat;
    assert(capacity > 0) by (nonlinear_arith)
        requires
            capacity == buffer_size / NONCE_SIZE,
            buffer_size >= NONCE_SIZE,
            NONCE_SIZE > 0,
    ;
    lemma_job_count_is_ceiling(left, capacity);
    let rounds = job_count(left, capacity);
    if k == 0 {
        assert(k * capacity == 0) by (nonlinear_arith)
            requires
                k == 0,
        ;
    } else {
        let before = (k - 1) as nat;
        lemma_termination(s, buffer_size, before);
        lemma_round(after_rounds(s, buffer_size, before), buffer_size);
        lemma_chunk(left, capacity, before);
        assert((before + 1) * capacity == before * capacity + capacity) by (nonlinear_arith);
        if k < rounds {
            lemma_chunk(left, capacity, k);
        }
    }
}

/// SIMD fallback: a capability label that names none of the four
/// instruction sets selects the scalar routine, and a round on the CPU is
/// conserved whatever routine the label selects.
pub proof fn lemma_simd_fallback(
    label: Seq<char>,
    job: PlotJob,
    nonces_hashed: u64,
    cache_size: u64,
    nonces_to_hash: u64,
)
    requires
        round_fits(
            job,
            nonces_hashed,
            cache_size,
            nonces_to_hash,
            Device::Cpu { simd_level: simd_level_of(label) },
        ),
    ensures
        label != "AVX512F"@ && label != "AVX2"@ && label != "AVX"@ && label != "SSE2"@
            ==> simd_level_of(label) == SimdLevel::Scalar,
        ({
            let device = Device::Cpu { simd_level: simd_level_of(label) };
            round_conserved(
                completions_of(
                    partition_spec(job, nonces_hashed, cache_size, nonces_to_hash, device),
                ),
                job_count(nonces_to_hash as nat, device.spec_batch_size()),
                nonces_to_hash as nat,
            )
        }),
{
    lemma_completions_conserve_round(
        job,
        nonces_hashed,
        cache_size,
        nonces_to_hash,
        Device::Cpu { simd_level: simd_level_of(label) },
    );
}

} // verus!
