//! The fixed parameters of the benchmark.

use vstd::prelude::*;
use crate::chunks::{chunk_count, chunk_len, done_after_chunks, effective_iterations};

verus! {

/// The seed of both workloads.
pub const BENCH_SEED: u32 = 12345;

/// The nominal iteration count of the integer workload.
pub const BENCH_N1: u64 = 300_000_000;

/// The nominal iteration count of the dot-accumulation workload.
pub const BENCH_N2: u64 = 200_000_000;

/// The warm-up repetitions of each workload.
pub const BENCH_WARMUP: usize = 3;

/// The measured repetitions of each workload.
pub const BENCH_REPEATS: usize = 9;

/// The repetitions of the whole benchmark, over both workloads.
pub const TOTAL_STEPS: usize = 24;

/// The most chunks that a repetition is cut into.
pub const MAX_CHUNKS: u64 = 10;

/// The chunk size of the integer workload.
pub const INT_CHUNK_SIZE: u64 = 1_000_000;

/// The chunk size of the dot-accumulation workload.
pub const FP_CHUNK_SIZE: u64 = 1_000_000;

/// The iteration count that the integer workload runs.
pub const EFFECTIVE_N1: u64 = 10_000_000;

/// The iteration count that the dot-accumulation workload runs.
pub const EFFECTIVE_N2: u64 = 10_000_000;

/// The tag of the integer workload.
pub const T1_ID: &'static str = "T1_INT32_MIX";

/// The tag of the dot-accumulation workload.
pub const T2_ID: &'static str = "T2_FP64_DOT";

/// The derived parameters are what their derivations give: the step count
/// is twice the repetitions of a workload, the effective iteration counts
/// are the nominal ones capped at `MAX_CHUNKS` chunks, and each workload
/// runs exactly `MAX_CHUNKS` full chunks.
pub proof fn lemma_derived_parameters()
    ensures
        TOTAL_STEPS == 2 * (BENCH_WARMUP + BENCH_REPEATS),
        EFFECTIVE_N1 == effective_iterations(BENCH_N1, INT_CHUNK_SIZE, MAX_CHUNKS),
        EFFECTIVE_N2 == effective_iterations(BENCH_N2, FP_CHUNK_SIZE, MAX_CHUNKS),
        chunk_count(EFFECTIVE_N1, INT_CHUNK_SIZE) == MAX_CHUNKS,
        chunk_count(EFFECTIVE_N2, FP_CHUNK_SIZE) == MAX_CHUNKS,
        EFFECTIVE_N1 == MAX_CHUNKS * INT_CHUNK_SIZE,
        EFFECTIVE_N2 == MAX_CHUNKS * FP_CHUNK_SIZE,
{
}

/// Each of the chunks of a repetition is a full one: chunk `k`, counted from
/// zero, starts after `k` full chunks and is as long as the chunk size.
pub proof fn law_benchmark_runs_full_chunks(k: nat)
    requires
        k < MAX_CHUNKS,
    ensures
        done_after_chunks(EFFECTIVE_N1, INT_CHUNK_SIZE, k) == k * INT_CHUNK_SIZE,
        chunk_len(EFFECTIVE_N1, INT_CHUNK_SIZE, (k * INT_CHUNK_SIZE) as u64) == INT_CHUNK_SIZE,
        done_after_chunks(EFFECTIVE_N2, FP_CHUNK_SIZE, k) == k * FP_CHUNK_SIZE,
        chunk_len(EFFECTIVE_N2, FP_CHUNK_SIZE, (k * FP_CHUNK_SIZE) as u64) == FP_CHUNK_SIZE,
{
}

} // verus!
