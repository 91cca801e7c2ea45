//! The benchmark's results and its report.
//!
//! The report is a JSON document with fixed field names and nesting. It
//! carries the nominal parameters, the parameters that were run, and for
//! each workload its tag, its digest as sixteen hexadecimal digits in lower
//! case, and its time statistics in milliseconds with three decimal places.

use vstd::prelude::*;
use vstd::string::StringExecFns;
use vstd::arithmetic::div_mod::lemma_fundamental_div_mod_converse;
use crate::params::{
    BENCH_N1,
    BENCH_N2,
    BENCH_REPEATS,
    BENCH_SEED,
    BENCH_WARMUP,
    EFFECTIVE_N1,
    EFFECTIVE_N2,
    FP_CHUNK_SIZE,
    INT_CHUNK_SIZE,
    MAX_CHUNKS,
};
use crate::stats::BenchStats;
use crate::text::{dec_text, div_round, fixed3_text, hex16_text, push_dec, push_fixed3, push_hex16};

verus! {

/// The picoseconds in a microsecond, the last decimal place of a time in
/// the report.
pub const PICOS_PER_MICRO: u128 = 1_000_000;

/// The result of one workload.
#[derive(Clone, Copy, Debug, PartialEq, Eq)]
pub struct BenchCaseResult {
    /// The workload's tag.
    pub id: &'static str,
    /// The kernel's final accumulator, as 64 bits.
    pub digest: u64,
    /// The statistics of the measured times.
    pub stats: BenchStats,
}

/// The result of the benchmark.
#[derive(Debug, PartialEq, Eq)]
pub struct BenchmarkResult {
    /// The integer workload.
    pub t1: BenchCaseResult,
    /// The dot-accumulation workload.
    pub t2: BenchCaseResult,
    /// The two digests combined by exclusive or.
    pub final_digest: u64,
    /// The report.
    pub json: String,
}

/// A time in milliseconds with three decimal places, rounded to the nearest
/// microsecond with halves rounded up; `NaN` where there is no time.
pub open spec fn millis_text(time: Option<u128>) -> Seq<char> {
    match time {
        Some(picos) => fixed3_text(div_round(picos as nat, PICOS_PER_MICRO as nat)),
        None => "NaN"@,
    }
}

/// The `time_ms` object of a workload.
pub open spec fn time_ms_text(stats: BenchStats) -> Seq<char> {
    "{ \"min\": "@ + millis_text(stats.min) + ", \"p50\": "@ + millis_text(stats.p50)
        + ", \"p95\": "@ + millis_text(stats.p95) + ", \"max\": "@ + millis_text(stats.max)
        + " }"@
}

/// The entry of a workload in the `results` array.
pub open spec fn case_text(case: BenchCaseResult) -> Seq<char> {
    "    {\n      \"id\": \""@ + case.id@ + "\",\n      \"digest_u64\": \""@ + hex16_text(
        case.digest,
    ) + "\",\n      \"time_ms\": "@ + time_ms_text(case.stats) + "\n    }"@
}

/// The head of the report: the implementation tag, the seed, the nominal
/// parameters and the parameters that were run.
pub open spec fn head_text() -> Seq<char> {
    "{\n  \"lang\": \"rust\",\n  \"seed\": "@ + dec_text(BENCH_SEED as nat)
        + ",\n  \"params\": { \"n1\": "@ + dec_text(BENCH_N1 as nat) + ", \"n2\": "@ + dec_text(
        BENCH_N2 as nat,
    ) + ", \"warmup\": "@ + dec_text(BENCH_WARMUP as nat) + ", \"repeats\": "@ + dec_text(
        BENCH_REPEATS as nat,
    ) + " },\n  \"effective_params\": { \"n1\": "@ + dec_text(EFFECTIVE_N1 as nat) + ", \"n2\": "@
        + dec_text(EFFECTIVE_N2 as nat) + ", \"max_chunks\": "@ + dec_text(MAX_CHUNKS as nat)
        + ", \"chunk_size_int\": "@ + dec_text(INT_CHUNK_SIZE as nat) + ", \"chunk_size_fp\": "@
        + dec_text(FP_CHUNK_SIZE as nat) + " },\n"@
}

/// The report of two workloads and their combined digest.
pub open spec fn report_text(t1: BenchCaseResult, t2: BenchCaseResult, final_digest: u64) -> Seq<
    char,
> {
    head_text() + "  \"results\": [\n"@ + case_text(t1) + ",\n"@ + case_text(t2)
        + "\n  ],\n  \"final_digest_u64\": \""@ + hex16_text(final_digest) + "\"\n}"@
}

/// Appends a time in milliseconds with three decimal places.
pub fn push_millis(out: &mut String, time: Option<u128>)
    ensures
        final(out)@ == old(out)@ + millis_text(time),
{
    match time {
        Some(picos) => {
            let whole: u128 = picos / PICOS_PER_MICRO;
            let rest: u128 = picos % PICOS_PER_MICRO;
            let micros: u128 = if rest >= PICOS_PER_MICRO / 2 {
                whole + 1
            } else {
                whole
            };
            assert(micros == div_round(picos as nat, PICOS_PER_MICRO as nat)) by {
                let p = picos as int;
                let q = whole as int;
                let r = rest as int;
                if r >= 500_000 {
                    lemma_fundamental_div_mod_converse(
                        2 * p + 1_000_000,
                        2_000_000,
                        q + 1,
                        2 * r - 1_000_000,
                    );
                } else {
                    lemma_fundamental_div_mod_converse(
                        2 * p + 1_000_000,
                        2_000_000,
                        q,
                        2 * r + 1_000_000,
                    );
                }
            }
            push_fixed3(out, micros);
        },
        None => {
            out.append("NaN");
        },
    }
}

/// Appends the `time_ms` object of a workload.
fn push_time_ms(out: &mut String, stats: &BenchStats)
    ensures
        final(out)@ == old(out)@ + time_ms_text(*stats),
{
    out.append("{ \"min\": ");
    push_millis(out, stats.min);
    out.append(", \"p50\": ");
    push_millis(out, stats.p50);
    out.append(", \"p95\": ");
    push_millis(out, stats.p95);
    out.append(", \"max\": ");
    push_millis(out, stats.max);
    out.append(" }");
}

/// Appends the entry of a workload in the `results` array.
fn push_case(out: &mut String, case: &BenchCaseResult)
    ensures
        final(out)@ == old(out)@ + case_text(*case),
{
    out.append("    {\n      \"id\": \"");
    out.append(case.id);
    out.append("\",\n      \"digest_u64\": \"");
    push_hex16(out, case.digest);
    out.append("\",\n      \"time_ms\": ");
    push_time_ms(out, &case.stats);
    out.append("\n    }");
}

/// Appends the head of the report.
fn push_head(out: &mut String)
    ensures
        final(out)@ == old(out)@ + head_text(),
{
    out.append("{\n  \"lang\": \"rust\",\n  \"seed\": ");
    push_dec(out, BENCH_SEED as u128);
    out.append(",\n  \"params\": { \"n1\": ");
    push_dec(out, BENCH_N1 as u128);
    out.append(", \"n2\": ");
    push_dec(out, BENCH_N2 as u128);
    out.append(", \"warmup\": ");
    push_dec(out, BENCH_WARMUP as u128);
    out.append(", \"repeats\": ");
    push_dec(out, BENCH_REPEATS as u128);
    out.append(" },\n  \"effective_params\": { \"n1\": ");
    push_dec(out, EFFECTIVE_N1 as u128);
    out.append(", \"n2\": ");
    push_dec(out, EFFECTIVE_N2 as u128);
    out.append(", \"max_chunks\": ");
    push_dec(out, MAX_CHUNKS as u128);
    out.append(", \"chunk_size_int\": ");
    push_dec(out, INT_CHUNK_SIZE as u128);
    out.append(", \"chunk_size_fp\": ");
    push_dec(out, FP_CHUNK_SIZE as u128);
    out.append(" },\n");
}

/// The report of two workloads and their combined digest.
pub fn report_json(t1: &BenchCaseResult, t2: &BenchCaseResult, final_digest: u64) -> (json: String)
    ensures
        json@ == report_text(*t1, *t2, final_digest),
{
    let mut out = String::new();
    push_head(&mut out);
    out.append("  \"results\": [\n");
    push_case(&mut out, t1);
    out.append(",\n");
    push_case(&mut out, t2);
    out.append("\n  ],\n  \"final_digest_u64\": \"");
    push_hex16(&mut out, final_digest);
    out.append("\"\n}");
    out
}

} // verus!
