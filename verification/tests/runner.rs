use astrobox_bench::kernels::{bench_int32_mix, Fp64Dot, Int32Mix};
use astrobox_bench::observer::{EventLog, FnObserver};
use astrobox_bench::progress::{BenchPhase, BenchStepStatus, ProgressUpdate, RunState};
use astrobox_bench::runner::{run_bench, sample_from_nanos, BenchRun};

fn event(
    phase: BenchPhase,
    index: usize,
    total: usize,
    completed_steps: usize,
    status: BenchStepStatus,
    chunk_index: usize,
) -> (BenchPhase, usize, usize, usize, usize, BenchStepStatus, usize, usize) {
    (phase, index, total, completed_steps, 40, status, chunk_index, 3)
}

fn fields(
    u: &ProgressUpdate,
) -> (BenchPhase, usize, usize, usize, usize, BenchStepStatus, usize, usize) {
    (
        u.phase,
        u.index,
        u.total,
        u.completed_steps,
        u.total_steps,
        u.status,
        u.chunk_index,
        u.chunk_total,
    )
}

#[test]
fn a_run_emits_its_events_in_order() {
    let (warmup, measure) = (BenchPhase::Warmup, BenchPhase::Measure);
    let started = BenchStepStatus::Started;
    let chunk = BenchStepStatus::Chunk;
    let finished = BenchStepStatus::Finished;
    // Ten iterations in chunks of four: three chunks.
    let mut run = BenchRun::new("W", 1, 2, 10, 4, Int32Mix::new(12345), 7, 40);
    let mut events: Vec<ProgressUpdate> = Vec::new();
    while let Some(u) = run.next_event() {
        events.push(u);
    }
    let expected = vec![
        event(warmup, 1, 1, 7, started, 0),
        event(warmup, 1, 1, 7, chunk, 1),
        event(warmup, 1, 1, 7, chunk, 2),
        event(warmup, 1, 1, 7, chunk, 3),
        event(warmup, 1, 1, 8, finished, 3),
        event(measure, 1, 2, 8, started, 0),
        event(measure, 1, 2, 8, chunk, 1),
        event(measure, 1, 2, 8, chunk, 2),
        event(measure, 1, 2, 8, chunk, 3),
        event(measure, 1, 2, 9, finished, 3),
        event(measure, 2, 2, 9, started, 0),
        event(measure, 2, 2, 9, chunk, 1),
        event(measure, 2, 2, 9, chunk, 2),
        event(measure, 2, 2, 9, chunk, 3),
        event(measure, 2, 2, 10, finished, 3),
    ];
    let got: Vec<_> = events.iter().map(fields).collect();
    assert_eq!(got, expected);
    assert!(events.iter().all(|u| u.bench_id == "W"));
    assert_eq!(run.steps_completed(), 10);
    assert!(run.next_event().is_none());
    assert!(run.next_event().is_none());
    let (digest, times) = run.finish();
    assert_eq!(digest, bench_int32_mix(12345, 10, 10, &mut EventLog::new()) as u64);
    assert_eq!(times.len(), 2);
}

#[test]
fn the_event_count_of_a_run() {
    for (warmup, repeats, n, chunk_size, chunks) in
        [(3usize, 9usize, 100u64, 10u64, 10usize), (0, 1, 5, 2, 3), (2, 0, 7, 7, 1), (1, 1, 0, 4, 0)]
    {
        let mut run = BenchRun::new("W", warmup, repeats, n, chunk_size, Int32Mix::new(1), 0, 0);
        let mut started = 0;
        let mut finished = 0;
        let mut chunk = 0;
        let mut steps = 0;
        while let Some(u) = run.next_event() {
            match u.status {
                BenchStepStatus::Started => started += 1,
                BenchStepStatus::Finished => {
                    finished += 1;
                    steps += 1;
                }
                BenchStepStatus::Chunk => chunk += 1,
            }
            assert_eq!(u.completed_steps, steps);
            assert_eq!(u.chunk_total, chunks);
        }
        assert_eq!(started, warmup + repeats);
        assert_eq!(finished, warmup + repeats);
        assert_eq!(chunk, (warmup + repeats) * chunks);
        assert_eq!(started + finished + chunk, 2 * (warmup + repeats) + (warmup + repeats) * chunks);
        assert_eq!(run.finish().1.len(), repeats);
    }
}

#[test]
fn a_run_without_repetitions() {
    let mut run = BenchRun::new("W", 0, 0, 10, 4, Int32Mix::new(12345), 3, 3);
    assert!(run.next_event().is_none());
    assert_eq!(run.steps_completed(), 3);
    let (digest, times) = run.finish();
    assert_eq!(digest, 0);
    assert!(times.is_empty());
}

#[test]
fn a_run_without_chunks() {
    for (n, chunk_size) in [(0u64, 4u64), (10, 0)] {
        let mut run = BenchRun::new("W", 1, 1, n, chunk_size, Int32Mix::new(12345), 0, 2);
        let mut statuses: Vec<BenchStepStatus> = Vec::new();
        while let Some(u) = run.next_event() {
            assert_eq!(u.chunk_index, 0);
            assert_eq!(u.chunk_total, 0);
            statuses.push(u.status);
        }
        assert_eq!(
            statuses,
            vec![
                BenchStepStatus::Started,
                BenchStepStatus::Finished,
                BenchStepStatus::Started,
                BenchStepStatus::Finished,
            ]
        );
        let (digest, times) = run.finish();
        assert_eq!(digest, 0x1234_5678);
        assert_eq!(times.len(), 1);
    }
}

#[test]
fn run_bench_hands_every_event_to_the_observer() {
    let mut progress = EventLog::new();
    let mut completed: usize = 5;
    let (digest, times) =
        run_bench("T", 2, 3, 1000, 300, Int32Mix::new(12345), &mut progress, &mut completed, 99);
    let seen = progress.events;
    assert_eq!(digest, 0xa280_1848);
    assert_eq!(times.len(), 3);
    assert_eq!(completed, 10);

    let mut run = BenchRun::new("T", 2, 3, 1000, 300, Int32Mix::new(12345), 5, 99);
    let mut expected: Vec<ProgressUpdate> = Vec::new();
    while let Some(u) = run.next_event() {
        expected.push(u);
    }
    assert_eq!(seen.len(), 5 * (4 + 2));
    let a: Vec<_> = seen.iter().map(fields).collect();
    let b: Vec<_> = expected.iter().map(fields).collect();
    assert_eq!(a, b);
}

#[test]
fn run_bench_with_the_dot_kernel() {
    let step = |sum: u64, a: u32, b: u32| {
        let a = a as f64 / 4294967296.0;
        let b = b as f64 / 4294967296.0;
        let c: f64 = 1e-9;
        (f64::from_bits(sum) + (a * b + c)).to_bits()
    };
    let mut count: usize = 0;
    let mut progress = FnObserver::new(|_: ProgressUpdate| count += 1);
    let mut completed: usize = 0;
    let (digest, times) =
        run_bench("D", 1, 2, 1000, 64, Fp64Dot::new(12345, step), &mut progress, &mut completed, 3);
    assert_eq!(digest, 0x4070_1ef1_2df4_0667);
    assert_eq!(times.len(), 2);
    assert_eq!(completed, 3);
    assert_eq!(count, 3 * (16 + 2));
}

#[test]
fn the_last_repetition_gives_the_digest() {
    // Only warm-up repetitions: the digest is that of the last of them.
    let mut progress = EventLog::new();
    let mut completed: usize = 0;
    let (digest, times) =
        run_bench("T", 2, 0, 33, 5, Int32Mix::new(12345), &mut progress, &mut completed, 2);
    assert_eq!(digest, 0xab84_d41b);
    assert!(times.is_empty());
    assert_eq!(completed, 2);
    assert_eq!(progress.events.len(), 2 * (7 + 2));
}

#[test]
fn a_run_passes_through_its_states_in_order() {
    let mut run = BenchRun::new("W", 1, 1, 4, 2, Int32Mix::new(1), 0, 2);
    let mut states = vec![run.state()];
    while let Some(_) = run.next_event() {
        states.push(run.state());
    }
    let warming = RunState::WarmingUp;
    let measuring = RunState::Measuring;
    assert_eq!(
        states,
        vec![
            RunState::Idle,
            warming,
            warming,
            warming,
            measuring,
            measuring,
            measuring,
            measuring,
            RunState::Done,
        ]
    );
    assert!(run.next_event().is_none());
    assert_eq!(run.state(), RunState::Done);
}

#[test]
fn a_run_without_warm_up_goes_straight_to_measuring() {
    let mut run = BenchRun::new("W", 0, 1, 0, 2, Int32Mix::new(1), 0, 1);
    assert_eq!(run.state(), RunState::Idle);
    assert!(run.next_event().is_some());
    assert_eq!(run.state(), RunState::Measuring);
    assert!(run.next_event().is_some());
    assert_eq!(run.state(), RunState::Done);

    let run = BenchRun::new("W", 0, 0, 10, 2, Int32Mix::new(1), 0, 0);
    assert_eq!(run.state(), RunState::Done);
}

#[test]
fn a_run_does_the_work_before_each_event() {
    let calls = std::cell::Cell::new(0u64);
    let kernel = Fp64Dot::new(1, |sum: u64, _: u32, _: u32| {
        calls.set(calls.get() + 1);
        sum
    });
    // Ten iterations in chunks of four, twice.
    let mut run = BenchRun::new("W", 1, 1, 10, 4, kernel, 0, 2);
    let mut at_event: Vec<(BenchStepStatus, u64)> = Vec::new();
    while let Some(u) = run.next_event() {
        at_event.push((u.status, calls.get()));
    }
    let started = BenchStepStatus::Started;
    let chunk = BenchStepStatus::Chunk;
    let finished = BenchStepStatus::Finished;
    assert_eq!(
        at_event,
        vec![
            (started, 0),
            (chunk, 4),
            (chunk, 8),
            (chunk, 10),
            (finished, 10),
            (started, 10),
            (chunk, 14),
            (chunk, 18),
            (chunk, 20),
            (finished, 20),
        ]
    );
}

#[test]
fn a_sample_is_capped_at_the_largest() {
    assert_eq!(sample_from_nanos(0), 0);
    assert_eq!(sample_from_nanos(1_234_567), 1_234_567);
    assert_eq!(sample_from_nanos(u64::MAX as u128 - 1), u64::MAX - 1);
    assert_eq!(sample_from_nanos(u64::MAX as u128), u64::MAX);
    assert_eq!(sample_from_nanos(u64::MAX as u128 + 1), u64::MAX);
    assert_eq!(sample_from_nanos(u128::MAX), u64::MAX);
}
