use plot_scheduler::completion;
use plot_scheduler::gpu_worker_step;
use plot_scheduler::hash;
use plot_scheduler::hash_gpu;
use plot_scheduler::sum_completed;
use plot_scheduler::verify_round;
use plot_scheduler::CompletionMessage;
use plot_scheduler::GPUHasherTaskInfo;
use plot_scheduler::HasherTaskInfo;
use plot_scheduler::SafeCVoid;
use plot_scheduler::SafePointer;
use plot_scheduler::SchedulerError;
use plot_scheduler::SimdLevel;
use plot_scheduler::WorkItem;
use plot_scheduler::WorkerStep;
use plot_scheduler::NONCE_SIZE;
use plot_scheduler::STATUS_ALT_PATH;
use plot_scheduler::STATUS_OK;

fn cpu_task(local_nonces: u64) -> HasherTaskInfo {
    HasherTaskInfo {
        cache: SafeCVoid { offset: 0, len: local_nonces * NONCE_SIZE },
        cache_size: 400,
        chunk_offset: 0,
        numeric_id: 1,
        local_startnonce: 0,
        local_nonces,
    }
}

fn gpu_task(local_nonces: u64) -> GPUHasherTaskInfo {
    GPUHasherTaskInfo {
        cache: SafePointer { offset: 0, len: local_nonces * NONCE_SIZE },
        cache_size: 400,
        chunk_offset: 0,
        numeric_id: 1,
        local_startnonce: 0,
        local_nonces,
    }
}

fn message(device_id: u8, status: u8, nonces_completed: u64) -> CompletionMessage {
    CompletionMessage { device_id, status, nonces_completed }
}

#[test]
fn hash_selects_the_routine_by_label() {
    assert_eq!(hash(cpu_task(64), "AVX512F".to_string()).0, SimdLevel::Avx512);
    assert_eq!(hash(cpu_task(64), "AVX2".to_string()).0, SimdLevel::Avx2);
    assert_eq!(hash(cpu_task(64), "AVX".to_string()).0, SimdLevel::Avx);
    assert_eq!(hash(cpu_task(64), "SSE2".to_string()).0, SimdLevel::Sse2);
}

#[test]
fn hash_falls_back_to_scalar_for_any_other_label() {
    for label in ["", "NEON", "avx2", "AVX512", "AVX2 ", "SSE", "SSE4", "AVX512F\0", "none"].iter() {
        let run = hash(cpu_task(64), label.to_string());
        assert_eq!(run.0, SimdLevel::Scalar);
        assert_eq!(run.1, message(0, 0, 64));
    }
}

#[test]
fn hash_reports_cpu_ok_and_the_items_nonces() {
    assert_eq!(hash(cpu_task(16), "AVX2".to_string()).1, message(0, 0, 16));
    assert_eq!(hash(cpu_task(0), "SSE2".to_string()).1, message(0, 0, 0));
    let mut huge = cpu_task(0);
    huge.local_nonces = u64::MAX;
    assert_eq!(hash(huge, "x".to_string()).1, message(0, STATUS_OK, u64::MAX));
}

#[test]
fn simd_level_from_label() {
    assert_eq!(SimdLevel::from_label(&"AVX512F".to_string()), SimdLevel::Avx512);
    assert_eq!(SimdLevel::from_label(&"AVX2".to_string()), SimdLevel::Avx2);
    assert_eq!(SimdLevel::from_label(&"AVX".to_string()), SimdLevel::Avx);
    assert_eq!(SimdLevel::from_label(&"SSE2".to_string()), SimdLevel::Sse2);
    assert_eq!(SimdLevel::from_label(&"something".to_string()), SimdLevel::Scalar);
}

#[test]
fn hash_gpu_reports_index_plus_one_and_alt_path() {
    assert_eq!(hash_gpu(gpu_task(150), 0), message(1, 1, 150));
    assert_eq!(hash_gpu(gpu_task(150), 1), message(2, 1, 150));
    assert_eq!(hash_gpu(gpu_task(7), 254), message(255, STATUS_ALT_PATH, 7));
}

#[test]
fn gpu_worker_exits_on_the_sentinel() {
    assert_eq!(gpu_worker_step(None, 0), WorkerStep::Exit);
    assert_eq!(gpu_worker_step(None, 200), WorkerStep::Exit);
}

#[test]
fn gpu_worker_runs_a_task_and_reports_it() {
    let task = gpu_task(33);
    assert_eq!(
        gpu_worker_step(Some(task), 2),
        WorkerStep::Run { task, message: message(3, 1, 33) }
    );
}

#[test]
fn completion_of_a_work_item() {
    let item = WorkItem::Cpu { task: cpu_task(16), simd_level: SimdLevel::Avx };
    assert_eq!(completion(&item), message(0, 0, 16));
    let item = WorkItem::Gpu { task: gpu_task(100), device_index: 1 };
    assert_eq!(completion(&item), message(2, 1, 100));
}

#[test]
fn progress_bytes_scale_by_the_nonce_size() {
    assert_eq!(message(0, 0, 64).progress_bytes(), 16777216);
    assert_eq!(message(0, 0, 1).progress_bytes(), 262144);
    assert_eq!(message(0, 0, 0).progress_bytes(), 0);
    assert_eq!(message(0, 0, u64::MAX).progress_bytes(), u64::MAX as u128 * 262144);
}

#[test]
fn sum_completed_adds_the_reported_nonces() {
    assert_eq!(sum_completed(&vec![]), 0);
    assert_eq!(sum_completed(&vec![message(0, 0, 64), message(0, 0, 64), message(0, 0, 16)]), 144);
    assert_eq!(sum_completed(&vec![message(1, 1, u64::MAX), message(2, 1, u64::MAX)]), 2 * (u64::MAX as u128));
}

#[test]
fn verify_round_accepts_a_conserved_round() {
    let mut messages = vec![message(0, 0, 64); 6];
    messages.push(message(0, 0, 16));
    assert_eq!(verify_round(&messages, 7, 400), Ok(()));
    assert_eq!(verify_round(&vec![], 0, 0), Ok(()));
    let shuffled = vec![message(0, 0, 16), message(0, 0, 64), message(0, 0, 64)];
    assert_eq!(verify_round(&shuffled, 3, 144), Ok(()));
}

#[test]
fn verify_round_rejects_a_wrong_sum() {
    let messages = vec![message(0, 0, 64), message(0, 0, 64), message(0, 0, 15)];
    assert_eq!(verify_round(&messages, 3, 144), Err(SchedulerError::IntegrityViolation));
    let messages = vec![message(0, 0, 64), message(0, 0, 64), message(0, 0, 17)];
    assert_eq!(verify_round(&messages, 3, 144), Err(SchedulerError::IntegrityViolation));
    let messages = vec![message(0, 0, u64::MAX), message(0, 0, 145)];
    assert_eq!(verify_round(&messages, 2, 144), Err(SchedulerError::IntegrityViolation));
}

#[test]
fn verify_round_rejects_a_wrong_count() {
    let messages = vec![message(0, 0, 64), message(0, 0, 80)];
    assert_eq!(verify_round(&messages, 3, 144), Err(SchedulerError::IntegrityViolation));
    assert_eq!(verify_round(&messages, 1, 144), Err(SchedulerError::IntegrityViolation));
    assert_eq!(verify_round(&messages, 2, 144), Ok(()));
    assert_eq!(verify_round(&vec![], 1, 0), Err(SchedulerError::IntegrityViolation));
}
