//! Work distribution for a proof-of-capacity plot generator.
//!
//! A plot job is a contiguous range of nonces. The job is produced buffer by
//! buffer: each buffer that arrives is cut into work items sized to the
//! device that will fill it, the completions of those items are counted and
//! summed, and the buffer moves on to the writer once every nonce of the
//! round is accounted for. This crate holds the rules of that process: the
//! partition of a round, the completion protocol, and the state machine that
//! the scheduling thread runs. Channels, thread pools and the native hashing
//! routines belong to the caller.

pub mod backend;
pub mod completion;
pub mod device;
pub mod error;
pub mod job;
pub mod laws;
pub mod partition;
pub mod scheduler;
pub mod task;

pub use crate::backend::gpu_worker_step;
pub use crate::backend::hash;
pub use crate::backend::hash_gpu;
pub use crate::backend::WorkerStep;
pub use crate::completion::completion;
pub use crate::completion::sum_completed;
pub use crate::completion::verify_round;
pub use crate::completion::CompletionMessage;
pub use crate::device::Device;
pub use crate::device::SimdLevel;
pub use crate::device::STATUS_ALT_PATH;
pub use crate::device::STATUS_OK;
pub use crate::error::SchedulerError;
pub use crate::job::PlotJob;
pub use crate::job::CPU_TASK_SIZE;
pub use crate::job::NONCE_SIZE;
pub use crate::partition::n_jobs;
pub use crate::partition::nonces_to_hash;
pub use crate::partition::partition;
pub use crate::partition::work_item;
pub use crate::scheduler::create_scheduler_thread;
pub use crate::scheduler::Action;
pub use crate::scheduler::Event;
pub use crate::scheduler::Scheduler;
pub use crate::scheduler::SchedulerState;
pub use crate::task::GPUHasherTaskInfo;
pub use crate::task::HasherTaskInfo;
pub use crate::task::SafeCVoid;
pub use crate::task::SafePointer;
pub use crate::task::WorkItem;
