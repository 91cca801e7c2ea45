//! The whole benchmark: both workloads with the fixed parameters, their
//! statistics, the combined digest and the report.

use vstd::prelude::*;
use crate::kernels::{
    dot_reaches,
    int32_mix_digest,
    is_function,
    lemma_dot_reaches_unique,
    Fp64Dot,
    Int32Mix,
    Kernel,
};
use crate::observer::Observer;
use crate::params::{
    lemma_derived_parameters,
    BENCH_REPEATS,
    BENCH_SEED,
    BENCH_WARMUP,
    EFFECTIVE_N1,
    EFFECTIVE_N2,
    FP_CHUNK_SIZE,
    INT_CHUNK_SIZE,
    MAX_CHUNKS,
    T1_ID,
    T2_ID,
    TOTAL_STEPS,
};
use crate::chunks::one_if;
use crate::progress::{
    law_completed_steps_count_finished,
    law_event_counts,
    law_events_by_repetition,
    BenchStepStatus,
    ProgressUpdate,
    RunPlan,
};
use crate::report::{report_json, report_text, BenchCaseResult, BenchmarkResult};
use crate::runner::run_bench;
use crate::stats::{calc_stats, is_ascending, stats_of, BenchStats};

verus! {

/// Whether `stats` are the statistics of `count` samples.
pub open spec fn summarises(stats: BenchStats, count: nat) -> bool {
    exists|times: Seq<u64>|
        times.len() == count && is_ascending(times) && stats == #[trigger] stats_of(times)
}

/// Whether `result` is a result of the benchmark with the accumulation step
/// `accumulate`: the digests are those of the two kernels after the
/// iterations that are run, the final digest is their exclusive or, the
/// statistics are those of one time per measured repetition, and the report
/// is the report of these.
pub open spec fn is_benchmark_result<A: Fn(u64, u32, u32) -> u64>(
    accumulate: A,
    result: BenchmarkResult,
) -> bool {
    &&& result.t1.id == T1_ID
    &&& result.t2.id == T2_ID
    &&& result.t1.digest == int32_mix_digest(BENCH_SEED, EFFECTIVE_N1 as nat)
    &&& dot_reaches(accumulate, BENCH_SEED, EFFECTIVE_N2 as nat, result.t2.digest)
    &&& result.final_digest == result.t1.digest ^ result.t2.digest
    &&& summarises(result.t1.stats, BENCH_REPEATS as nat)
    &&& summarises(result.t2.stats, BENCH_REPEATS as nat)
    &&& result.json@ == report_text(result.t1, result.t2, result.final_digest)
}

/// The run of the integer workload: it comes first.
pub open spec fn t1_plan() -> RunPlan {
    RunPlan {
        bench_id: T1_ID,
        warmup: BENCH_WARMUP,
        repeats: BENCH_REPEATS,
        chunk_total: MAX_CHUNKS as usize,
        first_step: 0,
        total_steps: TOTAL_STEPS,
    }
}

/// The run of the dot-accumulation workload: it comes second, and counts
/// its steps on from where the first workload ended.
pub open spec fn t2_plan() -> RunPlan {
    RunPlan {
        bench_id: T2_ID,
        warmup: BENCH_WARMUP,
        repeats: BENCH_REPEATS,
        chunk_total: MAX_CHUNKS as usize,
        first_step: (BENCH_WARMUP + BENCH_REPEATS) as usize,
        total_steps: TOTAL_STEPS,
    }
}

/// The progress events of the benchmark, in the order in which they are
/// emitted: those of the integer workload, then those of the
/// dot-accumulation workload.
pub open spec fn benchmark_events() -> Seq<ProgressUpdate> {
    t1_plan().events() + t2_plan().events()
}

/// Runs the benchmark: the integer workload, then the dot-accumulation
/// workload, each with its warm-up and measured repetitions. `progress`
/// receives every progress event, in order. `accumulate` is the arithmetic
/// of the dot-accumulation kernel on bit patterns: from the running sum and
/// an iteration's two draws to the new sum.
pub fn run_benchmark<O: Observer<ProgressUpdate>, A: Fn(u64, u32, u32) -> u64>(
    progress: &mut O,
    accumulate: A,
) -> (result: BenchmarkResult)
    requires
        old(progress).wf(),
        forall|sum: u64, a: u32, b: u32| call_requires(accumulate, (sum, a, b)),
    ensures
        is_benchmark_result(accumulate, result),
        final(progress).wf(),
        final(progress).seen() == old(progress).seen() + benchmark_events(),
{
    proof {
        lemma_derived_parameters();
    }
    let mut completed_steps: usize = 0;
    let (d1, mut t1) = run_bench(
        T1_ID,
        BENCH_WARMUP,
        BENCH_REPEATS,
        EFFECTIVE_N1,
        INT_CHUNK_SIZE,
        Int32Mix::new(BENCH_SEED),
        progress,
        &mut completed_steps,
        TOTAL_STEPS,
    );
    let (d2, mut t2) = run_bench(
        T2_ID,
        BENCH_WARMUP,
        BENCH_REPEATS,
        EFFECTIVE_N2,
        FP_CHUNK_SIZE,
        Fp64Dot::new(BENCH_SEED, accumulate),
        progress,
        &mut completed_steps,
        TOTAL_STEPS,
    );
    assert(progress.seen() =~= old(progress).seen() + benchmark_events());
    let t1_stats = calc_stats(t1.as_mut_slice());
    let t2_stats = calc_stats(t2.as_mut_slice());
    assert(t1_stats == stats_of(t1@) && t2_stats == stats_of(t2@));
    let final_digest = d1 ^ d2;
    let t1 = BenchCaseResult { id: T1_ID, digest: d1, stats: t1_stats };
    let t2 = BenchCaseResult { id: T2_ID, digest: d2, stats: t2_stats };
    let json = report_json(&t1, &t2, final_digest);
    BenchmarkResult { t1, t2, final_digest, json }
}

/// Over the whole benchmark the counter of completed steps starts at zero,
/// goes up by one with each "finished" event and with no other, also from
/// the first workload to the second, and ends at the total.
pub proof fn law_benchmark_steps_never_regress(j: nat)
    requires
        j < benchmark_events().len(),
    ensures
        benchmark_events().len() == 2 * TOTAL_STEPS + TOTAL_STEPS * MAX_CHUNKS,
        benchmark_events()[0].completed_steps == 0,
        benchmark_events().last().completed_steps == TOTAL_STEPS,
        benchmark_events()[j as int].total_steps == TOTAL_STEPS,
        j + 1 < benchmark_events().len() ==> benchmark_events()[j + 1int].completed_steps
            == benchmark_events()[j as int].completed_steps + one_if(
            benchmark_events()[j + 1int].status == BenchStepStatus::Finished,
        ),
{
    let first = t1_plan().events();
    let second = t2_plan().events();
    let all = benchmark_events();
    let half = first.len();
    assert(half == 144 && second.len() == 144) by {
        law_event_counts(t1_plan());
        law_event_counts(t2_plan());
    }
    law_completed_steps_count_finished(t1_plan(), 0);
    law_completed_steps_count_finished(t2_plan(), 0);
    // The last event of each workload.
    law_events_by_repetition(t1_plan(), 11, 11);
    law_events_by_repetition(t2_plan(), 11, 11);
    assert(first[143] == t1_plan().event_at(11, 11));
    assert(second[143] == t2_plan().event_at(11, 11));
    assert(all.last() == second[143]);
    assert(all[0] == first[0]);
    if j < half {
        law_completed_steps_count_finished(t1_plan(), j);
        assert(all[j as int] == first[j as int]);
        if j + 1 < half {
            assert(all[j + 1int] == first[j + 1int]);
        } else {
            assert(all[j + 1int] == second[0]);
        }
    } else {
        let k = (j - half) as nat;
        law_completed_steps_count_finished(t2_plan(), k);
        assert(all[j as int] == second[k as int]);
        if j + 1 < all.len() {
            assert(all[j + 1int] == second[k + 1int]);
        }
    }
    assert(all[j as int].total_steps == TOTAL_STEPS) by {
        if j < half {
            assert(first[j as int] == t1_plan().event(j));
        } else {
            assert(second[j - half] == t2_plan().event((j - half) as nat));
        }
    }
}

/// Two results of the benchmark carry the same digests, whatever their
/// times, provided the accumulation step gives one result for each triple
/// of arguments.
pub proof fn law_runs_agree_on_digests<A: Fn(u64, u32, u32) -> u64>(
    accumulate: A,
    first: BenchmarkResult,
    second: BenchmarkResult,
)
    requires
        is_function(accumulate),
        is_benchmark_result(accumulate, first),
        is_benchmark_result(accumulate, second),
    ensures
        first.t1.digest == second.t1.digest,
        first.t2.digest == second.t2.digest,
        first.final_digest == second.final_digest,
{
    lemma_dot_reaches_unique(
        accumulate,
        BENCH_SEED,
        EFFECTIVE_N2 as nat,
        first.t2.digest,
        second.t2.digest,
    );
}

} // verus!
