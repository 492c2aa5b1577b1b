//! The scheduler loop as a state machine. The thread that owns the channels
//! feeds it what happened and does what it answers; every decision of the
//! loop is taken here.

use vstd::prelude::*;
use crate::completion::CompletionMessage;
use crate::device::simd_level_of;
use crate::device::Device;
use crate::device::SimdLevel;
use crate::error::SchedulerError;
use crate::job::PlotJob;
use crate::job::NONCE_SIZE;
use crate::laws::lemma_job_count_is_ceiling;
use crate::partition::covers_round;
use crate::partition::job_count;
use crate::partition::nonces_to_hash;
use crate::partition::partition;
use crate::partition::partition_spec;
use crate::partition::spec_nonces_to_hash;
use crate::task::WorkItem;

verus! {

/// Where the loop stands.
#[derive(Clone, Copy, Debug, PartialEq, Eq, Structural)]
pub enum SchedulerState {
    /// Blocked on the channel of empty buffers.
    AwaitingBuffer,
    /// Handing the work items of a round to the backends.
    Dispatching,
    /// Blocked on the completion channel.
    Draining,
    /// Handing the filled buffer to the writer.
    Forwarding,
    /// The job is complete; the GPU workers are told to stop.
    ShuttingDown,
}

/// What the scheduling thread reports to the state machine.
#[derive(Clone, Copy, Debug, PartialEq, Eq, Structural)]
pub enum Event {
    /// An empty buffer of `buffer_size` bytes arrived.
    BufferReceived { buffer_size: u64 },
    /// Every work item of the round was handed to its backend.
    Dispatched,
    /// A backend reported a finished work item.
    Completion { message: CompletionMessage },
    /// The writer took the buffer.
    Forwarded,
    /// A channel was found closed.
    ChannelClosed,
}

/// What the scheduling thread is to do next.
#[derive(Debug, PartialEq, Eq)]
pub enum Action {
    /// Hand each item to its backend, then report [`Event::Dispatched`].
    Dispatch { items: Vec<WorkItem> },
    /// Add the bytes, if any, to the progress sink; then wait for one
    /// completion and report it.
    AwaitCompletion { progress_bytes: Option<u128> },
    /// Add the bytes, if any, to the progress sink; then hand the buffer to
    /// the writer and report [`Event::Forwarded`].
    ForwardBuffer { progress_bytes: Option<u128> },
    /// Wait for the next empty buffer and report it.
    AwaitBuffer,
    /// Send one shutdown sentinel to the worker of each listed GPU, wait for
    /// the workers to end, close the progress sink and return.
    Shutdown { gpu_workers: Vec<u8> },
}

/// An [`Action`] as a mathematical value.
pub enum ActionView {
    Dispatch { items: Seq<WorkItem> },
    AwaitCompletion { progress_bytes: Option<u128> },
    ForwardBuffer { progress_bytes: Option<u128> },
    AwaitBuffer,
    Shutdown { gpu_workers: Seq<u8> },
}

impl View for Action {
    type V = ActionView;

    open spec fn view(&self) -> ActionView {
        match *self {
            Action::Dispatch { items } => ActionView::Dispatch { items: items@ },
            Action::AwaitCompletion { progress_bytes } => ActionView::AwaitCompletion {
                progress_bytes,
            },
            Action::ForwardBuffer { progress_bytes } => ActionView::ForwardBuffer {
                progress_bytes,
            },
            Action::AwaitBuffer => ActionView::AwaitBuffer,
            Action::Shutdown { gpu_workers } => ActionView::Shutdown { gpu_workers: gpu_workers@ },
        }
    }
}

/// The outcome of a step as a mathematical value.
pub open spec fn outcome_view(outcome: Result<Action, SchedulerError>) -> Result<
    ActionView,
    SchedulerError,
> {
    match outcome {
        Ok(action) => Ok(action@),
        Err(error) => Err(error),
    }
}

/// The scheduler as a mathematical value.
pub struct SchedulerView {
    pub job: PlotJob,
    /// Nonces of the job that are produced and accounted for.
    pub nonces_hashed: nat,
    /// The device that every work item goes to.
    pub device: Device,
    /// Number of GPU workers that were started; their indices count from 0.
    pub gpu_workers: nat,
    pub state: SchedulerState,
    /// Nonces of the round in progress.
    pub round_nonces: nat,
    /// Completions of the round that are still to come.
    pub pending: nat,
    /// Sum of the nonces that the round's completions reported so far.
    pub completed: nat,
}

impl SchedulerView {
    /// What holds of every scheduler that was built by
    /// [`create_scheduler_thread`] and fed any events. Among the rest: no more
    /// nonces count as hashed than the job holds, and outside a round in
    /// progress the nonces that the last round's completions reported are
    /// the nonces of that round.
    pub open spec fn wf(&self) -> bool {
        let batch = self.device.spec_batch_size();
        &&& self.job.wf()
        &&& self.device.wf()
        &&& self.nonces_hashed <= self.job.total_nonces
        &&& self.gpu_workers <= u8::MAX
        &&& match self.device {
            Device::Cpu { .. } => self.gpu_workers == 0,
            Device::Gpu { index, .. } => index < self.gpu_workers,
        }
        &&& self.round_nonces <= u64::MAX
        &&& self.pending <= u64::MAX
        &&& self.completed <= u128::MAX
        &&& self.state != SchedulerState::Dispatching && self.state != SchedulerState::Draining
            ==> self.completed == self.round_nonces
        &&& self.state == SchedulerState::Dispatching ==> {
            &&& self.nonces_hashed + self.round_nonces <= self.job.total_nonces
            &&& self.pending == job_count(self.round_nonces, batch)
            &&& self.completed == 0
        }
        &&& self.state == SchedulerState::Draining ==> {
            &&& self.nonces_hashed + self.round_nonces <= self.job.total_nonces
            &&& 1 <= self.pending <= job_count(self.round_nonces, batch) <= u64::MAX
            &&& self.completed <= (job_count(self.round_nonces, batch) - self.pending) * u64::MAX
        }
    }

    /// The job is complete.
    pub open spec fn done(&self) -> bool {
        self.nonces_hashed == self.job.total_nonces
    }
}

/// The answer to an event that cannot occur in the current state.
pub open spec fn refuse(s: SchedulerView) -> (SchedulerView, Result<ActionView, SchedulerError>) {
    (s, Err(SchedulerError::UnexpectedEvent))
}

/// An empty buffer arrived: the round's nonces are fixed and cut into work
/// items.
pub open spec fn on_buffer_received(s: SchedulerView, buffer_size: u64) -> (
    SchedulerView,
    Result<ActionView, SchedulerError>,
) {
    let count = spec_nonces_to_hash(
        buffer_size as nat,
        s.job.total_nonces as nat,
        s.nonces_hashed,
    );
    let items = partition_spec(
        s.job,
        s.nonces_hashed as u64,
        buffer_size / NONCE_SIZE,
        count as u64,
        s.device,
    );
    (
        SchedulerView {
            state: SchedulerState::Dispatching,
            round_nonces: count,
            pending: items.len(),
            completed: 0,
            ..s
        },
        Ok(ActionView::Dispatch { items }),
    )
}

/// The round's items are with the backends: the drain begins, or, in a round
/// without items, the buffer moves on at once.
pub open spec fn on_dispatched(s: SchedulerView) -> (
    SchedulerView,
    Result<ActionView, SchedulerError>,
) {
    if s.pending == 0 {
        (
            SchedulerView {
                state: SchedulerState::Forwarding,
                nonces_hashed: s.nonces_hashed + s.round_nonces,
                ..s
            },
            Ok(ActionView::ForwardBuffer { progress_bytes: None }),
        )
    } else {
        (
            SchedulerView { state: SchedulerState::Draining, ..s },
            Ok(ActionView::AwaitCompletion { progress_bytes: None }),
        )
    }
}

/// A completion came in. With the last one of the round the sum is checked:
/// it must equal the nonces of the round, which then count as hashed.
pub open spec fn on_completion(s: SchedulerView, message: CompletionMessage) -> (
    SchedulerView,
    Result<ActionView, SchedulerError>,
) {
    let completed = s.completed + message.nonces_completed as nat;
    let progress_bytes = Some(message.spec_progress_bytes() as u128);
    if s.pending > 1 {
        (
            SchedulerView { pending: (s.pending - 1) as nat, completed, ..s },
            Ok(ActionView::AwaitCompletion { progress_bytes }),
        )
    } else if completed == s.round_nonces {
        (
            SchedulerView {
                state: SchedulerState::Forwarding,
                nonces_hashed: s.nonces_hashed + s.round_nonces,
                pending: 0,
                completed,
                ..s
            },
            Ok(ActionView::ForwardBuffer { progress_bytes }),
        )
    } else {
        (s, Err(SchedulerError::IntegrityViolation))
    }
}

/// The writer has the buffer: the loop ends if and only if the job is
/// complete.
pub open spec fn on_forwarded(s: SchedulerView) -> (
    SchedulerView,
    Result<ActionView, SchedulerError>,
) {
    if s.done() {
        (
            SchedulerView { state: SchedulerState::ShuttingDown, ..s },
            Ok(ActionView::Shutdown { gpu_workers: Seq::new(s.gpu_workers, |i: int| i as u8) }),
        )
    } else {
        (SchedulerView { state: SchedulerState::AwaitingBuffer, ..s }, Ok(ActionView::AwaitBuffer))
    }
}

/// The scheduler's transition function: the state after `event` and the
/// answer to it. An event that is refused leaves the state as it was.
pub open spec fn transition(s: SchedulerView, event: Event) -> (
    SchedulerView,
    Result<ActionView, SchedulerError>,
) {
    match event {
        Event::ChannelClosed => (s, Err(SchedulerError::ChannelDisconnected)),
        Event::BufferReceived { buffer_size } => if s.state == SchedulerState::AwaitingBuffer {
            on_buffer_received(s, buffer_size)
        } else {
            refuse(s)
        },
        Event::Dispatched => if s.state == SchedulerState::Dispatching {
            on_dispatched(s)
        } else {
            refuse(s)
        },
        Event::Completion { message } => if s.state == SchedulerState::Draining {
            on_completion(s, message)
        } else {
            refuse(s)
        },
        Event::Forwarded => if s.state == SchedulerState::Forwarding {
            on_forwarded(s)
        } else {
            refuse(s)
        },
    }
}

/// The worksizes of the GPUs as a mathematical value.
pub open spec fn worksizes_view(gpu_worksizes: Option<Vec<u64>>) -> Option<Seq<u64>> {
    match gpu_worksizes {
        None => None,
        Some(worksizes) => Some(worksizes@),
    }
}

/// Why no scheduler can be built from the arguments, if that is so. Without
/// GPU worksizes the job runs on the CPU; with them, the list must name
/// between 1 and 255 GPUs, each with a worksize of at least one nonce.
pub open spec fn creation_error(
    task: PlotJob,
    nonces_hashed: u64,
    gpu_worksizes: Option<Seq<u64>>,
) -> Option<SchedulerError> {
    if !task.wf() {
        Some(SchedulerError::JobOutOfRange)
    } else if nonces_hashed > task.total_nonces {
        Some(SchedulerError::HashedBeyondJob)
    } else {
        match gpu_worksizes {
            None => None,
            Some(worksizes) => if worksizes.len() == 0 {
                Some(SchedulerError::NoGpuDevices)
            } else if worksizes.len() > u8::MAX {
                Some(SchedulerError::TooManyGpuDevices)
            } else if exists|i: int| 0 <= i < worksizes.len() && worksizes[i] == 0 {
                Some(SchedulerError::ZeroWorksize)
            } else {
                None
            },
        }
    }
}

/// The scheduler before its first event. In GPU mode every work item goes to
/// the first GPU, cut to that GPU's worksize; the other GPUs get a worker
/// that only ever receives the shutdown sentinel.
pub open spec fn initial_view(
    task: PlotJob,
    nonces_hashed: u64,
    simd_ext: Seq<char>,
    gpu_worksizes: Option<Seq<u64>>,
) -> SchedulerView {
    SchedulerView {
        job: task,
        nonces_hashed: nonces_hashed as nat,
        device: match gpu_worksizes {
            None => Device::Cpu { simd_level: simd_level_of(simd_ext) },
            Some(worksizes) => Device::Gpu { index: 0, worksize: worksizes[0] },
        },
        gpu_workers: match gpu_worksizes {
            None => 0,
            Some(worksizes) => worksizes.len(),
        },
        state: SchedulerState::AwaitingBuffer,
        round_nonces: 0,
        pending: 0,
        completed: 0,
    }
}

/// The state of the scheduler loop.
pub struct Scheduler {
    job: PlotJob,
    nonces_hashed: u64,
    device: Device,
    gpu_workers: u8,
    state: SchedulerState,
    round_nonces: u64,
    pending: u64,
    completed: u128,
}

impl View for Scheduler {
    type V = SchedulerView;

    closed spec fn view(&self) -> SchedulerView {
        SchedulerView {
            job: self.job,
            nonces_hashed: self.nonces_hashed as nat,
            device: self.device,
            gpu_workers: self.gpu_workers as nat,
            state: self.state,
            round_nonces: self.round_nonces as nat,
            pending: self.pending as nat,
            completed: self.completed as nat,
        }
    }
}

/// The indices `0, 1, .., count - 1`.
fn worker_indices(count: u8) -> (indices: Vec<u8>)
    ensures
        indices@ == Seq::new(count as nat, |i: int| i as u8),
{
    let mut indices: Vec<u8> = Vec::new();
    let mut i: u8 = 0;
    while i < count
        invariant
            i <= count,
            indices@ == Seq::new(i as nat, |j: int| j as u8),
        decreases count - i,
    {
        indices.push(i);
        i = i + 1;
        assert(indices@ =~= Seq::new(i as nat, |j: int| j as u8));
    }
    indices
}

/// Tests whether any worksize is zero.
fn has_zero_worksize(worksizes: &Vec<u64>) -> (found: bool)
    ensures
        found <==> exists|i: int| 0 <= i < worksizes@.len() && worksizes@[i] == 0,
{
    let mut i: usize = 0;
    while i < worksizes.len()
        invariant
            i <= worksizes.len(),
            forall|j: int| 0 <= j < i ==> worksizes@[j] != 0,
        decreases worksizes.len() - i,
    {
        if worksizes[i] == 0 {
            return true;
        }
        i = i + 1;
    }
    false
}

impl Scheduler {
    #[verifier::type_invariant]
    closed spec fn inv(self) -> bool {
        self@.wf()
    }

    /// Where the loop stands. Every scheduler is well formed, whatever
    /// events it was fed.
    pub fn state(&self) -> (state: SchedulerState)
        ensures
            state == self@.state,
            self@.wf(),
    {
        proof {
            use_type_invariant(self);
        }
        self.state
    }

    pub fn job(&self) -> (job: PlotJob)
        ensures
            job == self@.job,
    {
        self.job
    }

    /// Nonces of the job that are produced and accounted for.
    pub fn nonces_hashed(&self) -> (count: u64)
        ensures
            count == self@.nonces_hashed,
    {
        self.nonces_hashed
    }

    /// The device that every work item goes to.
    pub fn device(&self) -> (device: Device)
        ensures
            device == self@.device,
    {
        self.device
    }

    /// Number of GPU workers to start.
    pub fn gpu_workers(&self) -> (count: u8)
        ensures
            count == self@.gpu_workers,
    {
        self.gpu_workers
    }

    /// Nonces of the round in progress.
    pub fn round_nonces(&self) -> (count: u64)
        ensures
            count == self@.round_nonces,
    {
        self.round_nonces
    }

    /// Completions of the round that are still to come.
    pub fn pending(&self) -> (count: u64)
        ensures
            count == self@.pending,
    {
        self.pending
    }

    /// Sum of the nonces that the round's completions reported so far.
    pub fn completed(&self) -> (sum: u128)
        ensures
            sum == self@.completed,
    {
        self.completed
    }

    /// Whether the loop has ended.
    pub fn is_shut_down(&self) -> (ended: bool)
        ensures
            ended <==> self@.state == SchedulerState::ShuttingDown,
    {
        match self.state {
            SchedulerState::ShuttingDown => true,
            _ => false,
        }
    }

    /// Takes one event and answers with what to do next, as
    /// [`transition`] lays down.
    pub fn step(&mut self, event: Event) -> (outcome: Result<Action, SchedulerError>)
        ensures
            (final(self)@, outcome_view(outcome)) == transition(old(self)@, event),
            final(self)@.wf(),
            outcome matches Ok(Action::Dispatch { items }) ==> {
                &&& final(self)@.pending == items@.len()
                &&& covers_round(
                    items@,
                    final(self)@.round_nonces,
                    final(self)@.device.spec_batch_size(),
                )
                &&& forall|k: int| 0 <= k < items@.len() ==> (#[trigger] items@[k]).wf()
            },
    {
        proof {
            use_type_invariant(&*self);
        }
        match event {
            Event::ChannelClosed => Err(SchedulerError::ChannelDisconnected),
            Event::BufferReceived { buffer_size } => {
                match self.state {
                    SchedulerState::AwaitingBuffer => {},
                    _ => {
                        return Err(SchedulerError::UnexpectedEvent);
                    },
                }
                let count: u64 = nonces_to_hash(buffer_size, self.job.total_nonces, self.nonces_hashed);
                let cache_size: u64 = buffer_size / NONCE_SIZE;
                proof {
                    assert(cache_size * NONCE_SIZE <= buffer_size) by (nonlinear_arith)
                        requires
                            cache_size == buffer_size / NONCE_SIZE,
                            NONCE_SIZE > 0,
                    ;
                }
                let items = partition(&self.job, self.nonces_hashed, cache_size, count, self.device);
                let pending: u64 = items.len() as u64;
                *self = Scheduler {
                    job: self.job,
                    nonces_hashed: self.nonces_hashed,
                    device: self.device,
                    gpu_workers: self.gpu_workers,
                    state: SchedulerState::Dispatching,
                    round_nonces: count,
                    pending,
                    completed: 0,
                };
                Ok(Action::Dispatch { items })
            },
            Event::Dispatched => {
                match self.state {
                    SchedulerState::Dispatching => {},
                    _ => {
                        return Err(SchedulerError::UnexpectedEvent);
                    },
                }
                if self.pending == 0 {
                    proof {
                        lemma_job_count_is_ceiling(
                            self.round_nonces as nat,
                            self.device.spec_batch_size(),
                        );
                    }
                    *self = Scheduler {
                        job: self.job,
                        nonces_hashed: self.nonces_hashed + self.round_nonces,
                        device: self.device,
                        gpu_workers: self.gpu_workers,
                        state: SchedulerState::Forwarding,
                        round_nonces: self.round_nonces,
                        pending: self.pending,
                        completed: self.completed,
                    };
                    Ok(Action::ForwardBuffer { progress_bytes: None })
                } else {
                    *self = Scheduler {
                        job: self.job,
                        nonces_hashed: self.nonces_hashed,
                        device: self.device,
                        gpu_workers: self.gpu_workers,
                        state: SchedulerState::Draining,
                        round_nonces: self.round_nonces,
                        pending: self.pending,
                        completed: self.completed,
                    };
                    Ok(Action::AwaitCompletion { progress_bytes: None })
                }
            },
            Event::Completion { message } => {
                match self.state {
                    SchedulerState::Draining => {},
                    _ => {
                        return Err(SchedulerError::UnexpectedEvent);
                    },
                }
                proof {
                    let jobs = job_count(
                        self.round_nonces as nat,
                        self.device.spec_batch_size(),
                    ) as int;
                    let drained = jobs - self.pending;
                    assert(drained * u64::MAX + u64::MAX == (drained + 1) * u64::MAX)
                        by (nonlinear_arith);
                    assert((drained + 1) * u64::MAX <= u64::MAX * u64::MAX) by (nonlinear_arith)
                        requires
                            0 <= drained + 1 <= u64::MAX,
                    ;
                }
                let completed: u128 = self.completed + message.nonces_completed as u128;
                let progress_bytes = Some(message.progress_bytes());
                if self.pending > 1 {
                    *self = Scheduler {
                        job: self.job,
                        nonces_hashed: self.nonces_hashed,
                        device: self.device,
                        gpu_workers: self.gpu_workers,
                        state: self.state,
                        round_nonces: self.round_nonces,
                        pending: self.pending - 1,
                        completed,
                    };
                    Ok(Action::AwaitCompletion { progress_bytes })
                } else if completed == self.round_nonces as u128 {
                    *self = Scheduler {
                        job: self.job,
                        nonces_hashed: self.nonces_hashed + self.round_nonces,
                        device: self.device,
                        gpu_workers: self.gpu_workers,
                        state: SchedulerState::Forwarding,
                        round_nonces: self.round_nonces,
                        pending: 0,
                        completed,
                    };
                    Ok(Action::ForwardBuffer { progress_bytes })
                } else {
                    Err(SchedulerError::IntegrityViolation)
                }
            },
            Event::Forwarded => {
                match self.state {
                    SchedulerState::Forwarding => {},
                    _ => {
                        return Err(SchedulerError::UnexpectedEvent);
                    },
                }
                if self.nonces_hashed == self.job.total_nonces {
                    let gpu_workers = worker_indices(self.gpu_workers);
                    *self = Scheduler {
                        job: self.job,
                        nonces_hashed: self.nonces_hashed,
                        device: self.device,
                        gpu_workers: self.gpu_workers,
                        state: SchedulerState::ShuttingDown,
                        round_nonces: self.round_nonces,
                        pending: self.pending,
                        completed: self.completed,
                    };
                    Ok(Action::Shutdown { gpu_workers })
                } else {
                    *self = Scheduler {
                        job: self.job,
                        nonces_hashed: self.nonces_hashed,
                        device: self.device,
                        gpu_workers: self.gpu_workers,
                        state: SchedulerState::AwaitingBuffer,
                        round_nonces: self.round_nonces,
                        pending: self.pending,
                        completed: self.completed,
                    };
                    Ok(Action::AwaitBuffer)
                }
            },
        }
    }
}

/// Builds the scheduler for a job of which `nonces_hashed` nonces are done
/// already. `simd_ext` is the capability label of the CPU; `gpu_worksizes`
/// asks for GPU mode and gives the worksize of each GPU, first GPU first.
pub fn create_scheduler_thread(
    task: PlotJob,
    nonces_hashed: u64,
    simd_ext: String,
    gpu_worksizes: Option<Vec<u64>>,
) -> (made: Result<Scheduler, SchedulerError>)
    ensures
        match creation_error(task, nonces_hashed, worksizes_view(gpu_worksizes)) {
            Some(error) => made == Err::<Scheduler, SchedulerError>(error),
            None => made is Ok && made->Ok_0@ == initial_view(
                task,
                nonces_hashed,
                simd_ext@,
                worksizes_view(gpu_worksizes),
            ) && made->Ok_0@.wf(),
        },
{
    if !task.is_valid() {
        return Err(SchedulerError::JobOutOfRange);
    }
    if nonces_hashed > task.total_nonces {
        return Err(SchedulerError::HashedBeyondJob);
    }
    let (device, gpu_workers): (Device, u8) = match &gpu_worksizes {
        None => (Device::Cpu { simd_level: SimdLevel::from_label(&simd_ext) }, 0u8),
        Some(worksizes) => {
            if worksizes.len() == 0 {
                return Err(SchedulerError::NoGpuDevices);
            }
            if worksizes.len() > 255 {
                return Err(SchedulerError::TooManyGpuDevices);
            }
            if has_zero_worksize(worksizes) {
                return Err(SchedulerError::ZeroWorksize);
            }
            (Device::Gpu { index: 0, worksize: worksizes[0] }, worksizes.len() as u8)
        },
    };
    Ok(
        Scheduler {
            job: task,
            nonces_hashed,
            device,
            gpu_workers,
            state: SchedulerState::AwaitingBuffer,
            round_nonces: 0,
            pending: 0,
            completed: 0,
        },
    )
}

} // verus!
