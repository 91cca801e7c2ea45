use astrobox_bench::benchmark::run_benchmark;
use astrobox_bench::observer::{EventLog, FnObserver};
use astrobox_bench::progress::{BenchPhase, BenchStepStatus, ProgressUpdate};

/// The arithmetic of one dot-accumulation step on bit patterns.
fn dot_step(sum: u64, a: u32, b: u32) -> u64 {
    let a = a as f64 / 4294967296.0;
    let b = b as f64 / 4294967296.0;
    let c: f64 = 1e-9;
    (f64::from_bits(sum) + (a * b + c)).to_bits()
}

#[test]
fn the_benchmark_end_to_end() {
    let mut log: EventLog<ProgressUpdate> = EventLog::new();
    let result = run_benchmark(&mut log, dot_step);
    let events = log.events;
    assert_eq!(result.t1.id, "T1_INT32_MIX");
    assert_eq!(result.t2.id, "T2_FP64_DOT");
    assert_eq!(result.t1.digest, 0xb877_beaf);
    assert_eq!(result.t2.digest, 0x4143_1396_092c_43ad);
    assert_eq!(result.final_digest, 0xb877_beaf ^ 0x4143_1396_092c_43ad);
    assert_eq!(result.final_digest, 0x4143_1396_b15b_fd02);

    // Twelve repetitions per workload, each with ten chunks.
    assert_eq!(events.len(), 2 * 12 * (10 + 2));
    let run_level = events.iter().filter(|e| e.status != BenchStepStatus::Chunk).count();
    assert_eq!(run_level, 2 * 2 * (3 + 9));
    assert_eq!(events[0].status, BenchStepStatus::Started);
    assert_eq!(events[0].phase, BenchPhase::Warmup);
    assert_eq!(events[0].bench_id, "T1_INT32_MIX");
    assert_eq!(events[0].completed_steps, 0);
    assert_eq!(events[143].bench_id, "T1_INT32_MIX");
    assert_eq!(events[143].completed_steps, 12);
    assert_eq!(events[144].bench_id, "T2_FP64_DOT");
    assert_eq!(events[144].status, BenchStepStatus::Started);
    assert_eq!(events[144].completed_steps, 12);
    assert_eq!(events[287].status, BenchStepStatus::Finished);
    assert_eq!(events[287].phase, BenchPhase::Measure);
    assert_eq!(events[287].index, 9);
    assert_eq!(events[287].completed_steps, 24);
    let mut steps = 0;
    for e in &events {
        if e.status == BenchStepStatus::Finished {
            steps += 1;
        }
        assert_eq!(e.completed_steps, steps);
        assert_eq!(e.total_steps, 24);
        assert_eq!(e.chunk_total, 10);
    }

    // Nine measured times per workload, so every statistic is a number.
    for stats in [result.t1.stats, result.t2.stats] {
        let min = stats.min.unwrap();
        let p50 = stats.p50.unwrap();
        let p95 = stats.p95.unwrap();
        let max = stats.max.unwrap();
        assert!(min <= p50 && p50 <= p95 && p95 <= max);
        assert_eq!(p95, max);
        assert_eq!(min % 1000, 0);
    }

    assert!(result.json.starts_with("{\n  \"lang\": \"rust\",\n  \"seed\": 12345,\n"));
    assert!(result.json.contains("\"digest_u64\": \"00000000b877beaf\""));
    assert!(result.json.contains("\"digest_u64\": \"41431396092c43ad\""));
    assert!(result.json.ends_with("\"final_digest_u64\": \"41431396b15bfd02\"\n}"));
}

#[test]
fn two_runs_agree_on_their_digests() {
    let mut count: usize = 0;
    let first = run_benchmark(&mut FnObserver::new(|_: ProgressUpdate| count += 1), dot_step);
    let second = run_benchmark(&mut FnObserver::new(|_: ProgressUpdate| count += 1), dot_step);
    assert_eq!(count, 2 * 288);
    assert_eq!(first.t1.digest, second.t1.digest);
    assert_eq!(first.t2.digest, second.t2.digest);
    assert_eq!(first.final_digest, second.final_digest);
    let digests = |json: &str| -> Vec<String> {
        json.lines().filter(|l| l.contains("digest_u64")).map(|l| l.to_string()).collect()
    };
    assert_eq!(digests(&first.json), digests(&second.json));
    assert_eq!(digests(&first.json).len(), 3);
}
