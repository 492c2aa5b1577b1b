use plot_scheduler::completion;
use plot_scheduler::create_scheduler_thread;
use plot_scheduler::Action;
use plot_scheduler::CompletionMessage;
use plot_scheduler::Device;
use plot_scheduler::Event;
use plot_scheduler::PlotJob;
use plot_scheduler::Scheduler;
use plot_scheduler::SchedulerError;
use plot_scheduler::SchedulerState;
use plot_scheduler::SimdLevel;
use plot_scheduler::WorkItem;
use plot_scheduler::NONCE_SIZE;

fn job(total_nonces: u64) -> PlotJob {
    PlotJob::new(42, 10_000, total_nonces).unwrap()
}

fn cpu_scheduler(total_nonces: u64) -> Scheduler {
    create_scheduler_thread(job(total_nonces), 0, "AVX2".to_string(), None).unwrap()
}

fn gpu_scheduler(total_nonces: u64, worksizes: Vec<u64>) -> Scheduler {
    create_scheduler_thread(job(total_nonces), 0, "AVX2".to_string(), Some(worksizes)).unwrap()
}

fn dispatch(s: &mut Scheduler, buffer_size: u64) -> Vec<WorkItem> {
    match s.step(Event::BufferReceived { buffer_size }) {
        Ok(Action::Dispatch { items }) => items,
        other => panic!("expected a dispatch, got {:?}", other),
    }
}

fn report(item: &WorkItem) -> Event {
    Event::Completion { message: completion(item) }
}

/// Runs one round in which every backend reports its item, and returns the
/// nonces of the round and the action that follows the hand-off to the writer.
fn round(s: &mut Scheduler, buffer_size: u64) -> (u64, Action) {
    let items = dispatch(s, buffer_size);
    assert_eq!(s.state(), SchedulerState::Dispatching);
    assert_eq!(s.pending(), items.len() as u64);
    let nonces = s.round_nonces();
    let mut action = s.step(Event::Dispatched).unwrap();
    for (k, item) in items.iter().enumerate() {
        assert_eq!(s.state(), SchedulerState::Draining);
        assert_eq!(s.pending(), (items.len() - k) as u64);
        assert!(matches!(action, Action::AwaitCompletion { .. }));
        action = s.step(report(item)).unwrap();
    }
    assert!(matches!(action, Action::ForwardBuffer { .. }));
    assert_eq!(s.state(), SchedulerState::Forwarding);
    (nonces, s.step(Event::Forwarded).unwrap())
}

#[test]
fn new_scheduler_awaits_a_buffer() {
    let s = cpu_scheduler(1000);
    assert_eq!(s.state(), SchedulerState::AwaitingBuffer);
    assert_eq!(s.nonces_hashed(), 0);
    assert_eq!(s.job(), job(1000));
    assert_eq!(s.device(), Device::Cpu { simd_level: SimdLevel::Avx2 });
    assert_eq!(s.gpu_workers(), 0);
    assert_eq!(s.pending(), 0);
    assert_eq!(s.round_nonces(), 0);
    assert!(!s.is_shut_down());
}

#[test]
fn new_scheduler_resolves_the_label_once() {
    let s = create_scheduler_thread(job(10), 0, "AVX512F".to_string(), None).unwrap();
    assert_eq!(s.device(), Device::Cpu { simd_level: SimdLevel::Avx512 });
    let s = create_scheduler_thread(job(10), 0, "unheard of".to_string(), None).unwrap();
    assert_eq!(s.device(), Device::Cpu { simd_level: SimdLevel::Scalar });
}

#[test]
fn new_gpu_scheduler_sends_all_work_to_the_first_gpu() {
    let s = gpu_scheduler(1000, vec![150, 70, 9]);
    assert_eq!(s.device(), Device::Gpu { index: 0, worksize: 150 });
    assert_eq!(s.gpu_workers(), 3);
    assert_eq!(s.state(), SchedulerState::AwaitingBuffer);
}

#[test]
fn new_scheduler_keeps_the_nonces_already_hashed() {
    let s = create_scheduler_thread(job(1000), 600, "AVX".to_string(), None).unwrap();
    assert_eq!(s.nonces_hashed(), 600);
    let s = create_scheduler_thread(job(1000), 1000, "AVX".to_string(), None).unwrap();
    assert_eq!(s.nonces_hashed(), 1000);
    assert_eq!(s.state(), SchedulerState::AwaitingBuffer);
}

#[test]
fn create_rejects_gpu_mode_without_a_gpu() {
    let made = create_scheduler_thread(job(1000), 0, "AVX2".to_string(), Some(vec![]));
    assert_eq!(made.err(), Some(SchedulerError::NoGpuDevices));
}

#[test]
fn create_rejects_more_gpus_than_ids() {
    let made = create_scheduler_thread(job(1000), 0, "AVX2".to_string(), Some(vec![8; 256]));
    assert_eq!(made.err(), Some(SchedulerError::TooManyGpuDevices));
    let made = create_scheduler_thread(job(1000), 0, "AVX2".to_string(), Some(vec![8; 255]));
    assert_eq!(made.unwrap().gpu_workers(), 255);
}

#[test]
fn create_rejects_a_zero_worksize() {
    let made = create_scheduler_thread(job(1000), 0, "AVX2".to_string(), Some(vec![0]));
    assert_eq!(made.err(), Some(SchedulerError::ZeroWorksize));
    let made = create_scheduler_thread(job(1000), 0, "AVX2".to_string(), Some(vec![8, 8, 0, 8]));
    assert_eq!(made.err(), Some(SchedulerError::ZeroWorksize));
}

#[test]
fn create_rejects_a_job_beyond_the_u64_range() {
    let bad = PlotJob { numeric_id: 1, start_nonce: u64::MAX, total_nonces: 2 };
    let made = create_scheduler_thread(bad, 0, "AVX2".to_string(), None);
    assert_eq!(made.err(), Some(SchedulerError::JobOutOfRange));
    let made = create_scheduler_thread(bad, 5, "AVX2".to_string(), Some(vec![]));
    assert_eq!(made.err(), Some(SchedulerError::JobOutOfRange));
}

#[test]
fn create_rejects_more_hashed_than_the_job_holds() {
    let made = create_scheduler_thread(job(1000), 1001, "AVX2".to_string(), None);
    assert_eq!(made.err(), Some(SchedulerError::HashedBeyondJob));
    let made = create_scheduler_thread(job(1000), 1001, "AVX2".to_string(), Some(vec![]));
    assert_eq!(made.err(), Some(SchedulerError::HashedBeyondJob));
}

#[test]
fn scenario_1000_nonces_in_buffers_of_400() {
    let mut s = cpu_scheduler(1000);
    let buffer_size = 400 * NONCE_SIZE;

    let items = dispatch(&mut s, buffer_size);
    assert_eq!(s.round_nonces(), 400);
    assert_eq!(items.len(), 7);
    for k in 0..6 {
        assert_eq!(items[k].local_nonces(), 64);
        assert_eq!(items[k].chunk_offset(), 64 * k as u64);
        assert_eq!(items[k].local_startnonce(), 10_000 + 64 * k as u64);
    }
    assert_eq!(items[6].local_nonces(), 16);
    assert_eq!(items[6].chunk_offset(), 384);
    assert_eq!(s.step(Event::Dispatched), Ok(Action::AwaitCompletion { progress_bytes: None }));
    let mut sum = 0;
    for (k, item) in items.iter().enumerate() {
        let message = completion(item);
        sum += message.nonces_completed;
        let action = s.step(Event::Completion { message }).unwrap();
        let bytes = Some(message.nonces_completed as u128 * 262144);
        if k < 6 {
            assert_eq!(action, Action::AwaitCompletion { progress_bytes: bytes });
            assert_eq!(s.nonces_hashed(), 0);
        } else {
            assert_eq!(action, Action::ForwardBuffer { progress_bytes: bytes });
        }
    }
    assert_eq!(sum, 400);
    assert_eq!(s.completed(), 400);
    assert_eq!(s.nonces_hashed(), 400);
    assert_eq!(s.step(Event::Forwarded), Ok(Action::AwaitBuffer));
    assert_eq!(s.state(), SchedulerState::AwaitingBuffer);

    let (nonces, action) = round(&mut s, buffer_size);
    assert_eq!(nonces, 400);
    assert_eq!(action, Action::AwaitBuffer);
    assert_eq!(s.nonces_hashed(), 800);

    let items = dispatch(&mut s, buffer_size);
    assert_eq!(s.round_nonces(), 200);
    assert_eq!(items.len(), 4);
    assert_eq!(items[3].local_nonces(), 8);
    assert_eq!(items[0].local_startnonce(), 10_800);
    s.step(Event::Dispatched).unwrap();
    for item in items.iter() {
        s.step(report(item)).unwrap();
    }
    assert_eq!(s.nonces_hashed(), 1000);
    assert_eq!(s.step(Event::Forwarded), Ok(Action::Shutdown { gpu_workers: vec![] }));
    assert_eq!(s.state(), SchedulerState::ShuttingDown);
    assert!(s.is_shut_down());
}

#[test]
fn rounds_until_shutdown_are_total_over_capacity_rounded_up() {
    for &(total, capacity) in [(1000u64, 400u64), (1200, 400), (1, 400), (400, 400), (401, 400), (7, 1), (5000, 64)].iter() {
        let mut s = cpu_scheduler(total);
        let expected = (total + capacity - 1) / capacity;
        let mut rounds = 0;
        loop {
            let (nonces, action) = round(&mut s, capacity * NONCE_SIZE);
            rounds += 1;
            if action == (Action::Shutdown { gpu_workers: vec![] }) {
                break;
            }
            assert_eq!(action, Action::AwaitBuffer);
            assert_eq!(nonces, capacity);
            assert_eq!(s.nonces_hashed(), rounds * capacity);
            assert!(rounds < expected);
        }
        assert_eq!(rounds, expected);
        assert_eq!(s.nonces_hashed(), total);
        assert!(s.is_shut_down());
    }
}

#[test]
fn resumed_job_needs_only_the_rounds_that_are_left() {
    let mut s = create_scheduler_thread(job(1000), 700, "SSE2".to_string(), None).unwrap();
    let items = dispatch(&mut s, 400 * NONCE_SIZE);
    assert_eq!(s.round_nonces(), 300);
    assert_eq!(items[0].local_startnonce(), 10_700);
    s.step(Event::Dispatched).unwrap();
    let mut last = Action::AwaitBuffer;
    for item in items.iter() {
        last = s.step(report(item)).unwrap();
    }
    assert!(matches!(last, Action::ForwardBuffer { .. }));
    assert_eq!(s.step(Event::Forwarded), Ok(Action::Shutdown { gpu_workers: vec![] }));
}

#[test]
fn shutdown_names_each_gpu_worker_once() {
    let mut s = gpu_scheduler(300, vec![128, 64]);
    let items = dispatch(&mut s, 400 * NONCE_SIZE);
    assert_eq!(items.len(), 3);
    for item in items.iter() {
        match *item {
            WorkItem::Gpu { device_index, .. } => assert_eq!(device_index, 0),
            WorkItem::Cpu { .. } => panic!("a GPU round has no CPU item"),
        }
    }
    assert_eq!(items[2].local_nonces(), 44);
    s.step(Event::Dispatched).unwrap();
    for item in items.iter() {
        let message = completion(item);
        assert_eq!(message.device_id, 1);
        assert_eq!(message.status, 1);
        s.step(Event::Completion { message }).unwrap();
    }
    assert_eq!(s.step(Event::Forwarded), Ok(Action::Shutdown { gpu_workers: vec![0, 1] }));
    assert!(s.is_shut_down());
    assert_eq!(s.step(Event::Forwarded), Err(SchedulerError::UnexpectedEvent));
    assert_eq!(s.step(Event::BufferReceived { buffer_size: NONCE_SIZE }), Err(SchedulerError::UnexpectedEvent));
    assert!(s.is_shut_down());
}

#[test]
fn shutdown_of_one_gpu_names_it() {
    let mut s = gpu_scheduler(10, vec![4]);
    let (nonces, action) = round(&mut s, 400 * NONCE_SIZE);
    assert_eq!(nonces, 10);
    assert_eq!(action, Action::Shutdown { gpu_workers: vec![0] });
}

#[test]
fn completions_may_arrive_in_any_order() {
    let mut s = cpu_scheduler(1000);
    let items = dispatch(&mut s, 400 * NONCE_SIZE);
    s.step(Event::Dispatched).unwrap();
    let mut last = Action::AwaitBuffer;
    for item in items.iter().rev() {
        last = s.step(report(item)).unwrap();
    }
    assert_eq!(last, Action::ForwardBuffer { progress_bytes: Some(64 * 262144) });
    assert_eq!(s.nonces_hashed(), 400);
}

#[test]
fn lost_nonces_are_an_integrity_violation() {
    let mut s = cpu_scheduler(1000);
    let items = dispatch(&mut s, 400 * NONCE_SIZE);
    s.step(Event::Dispatched).unwrap();
    for item in items.iter().take(6) {
        s.step(report(item)).unwrap();
    }
    let short = CompletionMessage { device_id: 0, status: 0, nonces_completed: 15 };
    assert_eq!(s.step(Event::Completion { message: short }), Err(SchedulerError::IntegrityViolation));
    assert_eq!(s.state(), SchedulerState::Draining);
    assert_eq!(s.nonces_hashed(), 0);
    assert_eq!(s.pending(), 1);
    assert_eq!(s.completed(), 384);
}

#[test]
fn nonces_counted_twice_are_an_integrity_violation() {
    let mut s = cpu_scheduler(1000);
    let items = dispatch(&mut s, 400 * NONCE_SIZE);
    s.step(Event::Dispatched).unwrap();
    for _ in 0..6 {
        s.step(report(&items[0])).unwrap();
    }
    assert_eq!(s.step(report(&items[0])), Err(SchedulerError::IntegrityViolation));
    assert_eq!(s.nonces_hashed(), 0);
}

#[test]
fn misreported_nonces_are_found_when_the_round_is_drained() {
    let mut s = cpu_scheduler(1000);
    let items = dispatch(&mut s, 400 * NONCE_SIZE);
    s.step(Event::Dispatched).unwrap();
    let huge = CompletionMessage { device_id: 0, status: 0, nonces_completed: u64::MAX };
    assert_eq!(
        s.step(Event::Completion { message: huge }),
        Ok(Action::AwaitCompletion { progress_bytes: Some(u64::MAX as u128 * 262144) })
    );
    for item in items.iter().skip(1).take(5) {
        assert!(s.step(report(item)).is_ok());
    }
    let wrap = CompletionMessage { device_id: 0, status: 0, nonces_completed: 81 };
    assert_eq!(s.step(Event::Completion { message: wrap }), Err(SchedulerError::IntegrityViolation));
    assert_eq!(s.step(report(&items[6])), Err(SchedulerError::IntegrityViolation));
}

#[test]
fn closed_channel_is_fatal_in_every_state() {
    let mut s = cpu_scheduler(1000);
    assert_eq!(s.step(Event::ChannelClosed), Err(SchedulerError::ChannelDisconnected));
    assert_eq!(s.state(), SchedulerState::AwaitingBuffer);
    let items = dispatch(&mut s, 400 * NONCE_SIZE);
    assert_eq!(s.step(Event::ChannelClosed), Err(SchedulerError::ChannelDisconnected));
    assert_eq!(s.state(), SchedulerState::Dispatching);
    s.step(Event::Dispatched).unwrap();
    s.step(report(&items[0])).unwrap();
    assert_eq!(s.step(Event::ChannelClosed), Err(SchedulerError::ChannelDisconnected));
    assert_eq!(s.state(), SchedulerState::Draining);
    assert_eq!(s.pending(), 6);
}

#[test]
fn events_out_of_turn_are_refused_and_change_nothing() {
    let mut s = cpu_scheduler(1000);
    let message = CompletionMessage { device_id: 0, status: 0, nonces_completed: 64 };
    assert_eq!(s.step(Event::Dispatched), Err(SchedulerError::UnexpectedEvent));
    assert_eq!(s.step(Event::Completion { message }), Err(SchedulerError::UnexpectedEvent));
    assert_eq!(s.step(Event::Forwarded), Err(SchedulerError::UnexpectedEvent));
    assert_eq!(s.state(), SchedulerState::AwaitingBuffer);
    dispatch(&mut s, 400 * NONCE_SIZE);
    assert_eq!(s.step(Event::BufferReceived { buffer_size: NONCE_SIZE }), Err(SchedulerError::UnexpectedEvent));
    assert_eq!(s.step(Event::Completion { message }), Err(SchedulerError::UnexpectedEvent));
    assert_eq!(s.step(Event::Forwarded), Err(SchedulerError::UnexpectedEvent));
    assert_eq!(s.state(), SchedulerState::Dispatching);
    assert_eq!(s.round_nonces(), 400);
    s.step(Event::Dispatched).unwrap();
    assert_eq!(s.step(Event::Dispatched), Err(SchedulerError::UnexpectedEvent));
    assert_eq!(s.step(Event::Forwarded), Err(SchedulerError::UnexpectedEvent));
    assert_eq!(s.state(), SchedulerState::Draining);
    assert_eq!(s.pending(), 7);
}

#[test]
fn buffer_smaller_than_a_nonce_makes_an_empty_round() {
    let mut s = cpu_scheduler(1000);
    let items = dispatch(&mut s, NONCE_SIZE - 1);
    assert!(items.is_empty());
    assert_eq!(s.round_nonces(), 0);
    assert_eq!(s.step(Event::Dispatched), Ok(Action::ForwardBuffer { progress_bytes: None }));
    assert_eq!(s.state(), SchedulerState::Forwarding);
    assert_eq!(s.step(Event::Forwarded), Ok(Action::AwaitBuffer));
    assert_eq!(s.nonces_hashed(), 0);
}

#[test]
fn job_without_nonces_shuts_down_after_one_empty_round() {
    let mut s = cpu_scheduler(0);
    let items = dispatch(&mut s, 400 * NONCE_SIZE);
    assert!(items.is_empty());
    assert_eq!(s.step(Event::Dispatched), Ok(Action::ForwardBuffer { progress_bytes: None }));
    assert_eq!(s.step(Event::Forwarded), Ok(Action::Shutdown { gpu_workers: vec![] }));
}

#[test]
fn buffers_of_different_sizes_fill_the_job() {
    let mut s = cpu_scheduler(1000);
    let (first, _) = round(&mut s, 100 * NONCE_SIZE + 17);
    let (second, _) = round(&mut s, 640 * NONCE_SIZE);
    let (third, action) = round(&mut s, 4096 * NONCE_SIZE);
    assert_eq!((first, second, third), (100, 640, 260));
    assert_eq!(action, Action::Shutdown { gpu_workers: vec![] });
}

#[test]
fn gpu_round_is_cut_to_the_first_gpus_worksize() {
    let mut s = gpu_scheduler(1000, vec![150, 64]);
    let items = dispatch(&mut s, 400 * NONCE_SIZE);
    let sizes: Vec<u64> = items.iter().map(|i| i.local_nonces()).collect();
    assert_eq!(sizes, vec![150, 150, 100]);
    let offsets: Vec<u64> = items.iter().map(|i| i.chunk_offset()).collect();
    assert_eq!(offsets, vec![0, 150, 300]);
}
