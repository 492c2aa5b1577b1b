//! The device backends: what a backend decides when it is handed a work
//! item. Running the native routine on the buffer is the caller's part.

use vstd::prelude::*;
use crate::completion::CompletionMessage;
use crate::device::simd_level_of;
use crate::device::SimdLevel;
use crate::device::STATUS_ALT_PATH;
use crate::device::STATUS_OK;
use crate::task::GPUHasherTaskInfo;
use crate::task::HasherTaskInfo;

verus! {

/// The CPU backend for one work item: names the routine that fills the
/// item's bytes, chosen by the capability label, and the message to send
/// once the routine has returned.
pub fn hash(hasher_task: HasherTaskInfo, simd_ext: String) -> (run: (SimdLevel, CompletionMessage))
    ensures
        run.0 == simd_level_of(simd_ext@),
        simd_ext@ != "AVX512F"@ && simd_ext@ != "AVX2"@ && simd_ext@ != "AVX"@ && simd_ext@
            != "SSE2"@ ==> run.0 == SimdLevel::Scalar,
        run.1 == (CompletionMessage {
            device_id: 0,
            status: STATUS_OK,
            nonces_completed: hasher_task.local_nonces,
        }),
{
    let routine = SimdLevel::from_label(&simd_ext);
    let message = CompletionMessage {
        device_id: 0,
        status: STATUS_OK,
        nonces_completed: hasher_task.local_nonces,
    };
    (routine, message)
}

/// The GPU backend for one work item: the message that the worker of the
/// device with the given index sends once the kernel has returned.
pub fn hash_gpu(hasher_task: GPUHasherTaskInfo, device_index: u8) -> (message: CompletionMessage)
    requires
        device_index < u8::MAX,
    ensures
        message == (CompletionMessage {
            device_id: (device_index + 1) as u8,
            status: STATUS_ALT_PATH,
            nonces_completed: hasher_task.local_nonces,
        }),
{
    CompletionMessage {
        device_id: device_index + 1,
        status: STATUS_ALT_PATH,
        nonces_completed: hasher_task.local_nonces,
    }
}

/// What a GPU worker does with a command.
#[derive(Clone, Copy, Debug, PartialEq, Eq, Structural)]
pub enum WorkerStep {
    /// Run the kernel on the task, then send the message.
    Run { task: GPUHasherTaskInfo, message: CompletionMessage },
    /// Leave the loop: the command was the shutdown sentinel.
    Exit,
}

/// One turn of a GPU worker's loop. A command is a task, or `None` as the
/// shutdown sentinel.
pub fn gpu_worker_step(command: Option<GPUHasherTaskInfo>, device_index: u8) -> (step: WorkerStep)
    requires
        device_index < u8::MAX,
    ensures
        command is None ==> step == WorkerStep::Exit,
        command matches Some(task) ==> step == (WorkerStep::Run {
            task,
            message: CompletionMessage {
                device_id: (device_index + 1) as u8,
                status: STATUS_ALT_PATH,
                nonces_completed: task.local_nonces,
            },
        }),
{
    match command {
        None => WorkerStep::Exit,
        Some(task) => {
            let message = hash_gpu(task, device_index);
            WorkerStep::Run { task, message }
        },
    }
}

} // verus!
