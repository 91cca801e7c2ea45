use astrobox_bench::chunks::{chunk_total, effective_n, next_chunk_len};
use astrobox_bench::params::{
    BENCH_N1, BENCH_N2, BENCH_REPEATS, BENCH_SEED, BENCH_WARMUP, EFFECTIVE_N1, EFFECTIVE_N2,
    FP_CHUNK_SIZE, INT_CHUNK_SIZE, MAX_CHUNKS, T1_ID, T2_ID, TOTAL_STEPS,
};

#[test]
fn chunk_total_rounds_up() {
    assert_eq!(chunk_total(10, 3), 4);
    assert_eq!(chunk_total(9, 3), 3);
    assert_eq!(chunk_total(1, 3), 1);
    assert_eq!(chunk_total(3, 1), 3);
    assert_eq!(chunk_total(10_000_000, 1_000_000), 10);
    assert_eq!(chunk_total(10_000_001, 1_000_000), 11);
}

#[test]
fn chunk_total_of_nothing_is_zero() {
    assert_eq!(chunk_total(0, 5), 0);
    assert_eq!(chunk_total(5, 0), 0);
    assert_eq!(chunk_total(0, 0), 0);
}

#[test]
fn chunk_total_at_the_top_of_the_range() {
    assert_eq!(chunk_total(u64::MAX, u64::MAX), 1);
    assert_eq!(chunk_total(u64::MAX, u64::MAX - 1), 2);
    assert_eq!(chunk_total(u64::MAX, 2), 1usize << 63);
}

#[test]
fn effective_n_caps_the_nominal_count() {
    assert_eq!(effective_n(300_000_000, 1_000_000, 10), 10_000_000);
    assert_eq!(effective_n(200_000_000, 1_000_000, 10), 10_000_000);
    assert_eq!(chunk_total(effective_n(300_000_000, 1_000_000, 10), 1_000_000), 10);
}

#[test]
fn effective_n_keeps_a_count_that_fits() {
    assert_eq!(effective_n(5, 1_000_000, 10), 5);
    assert_eq!(effective_n(9_999_999, 1_000_000, 10), 9_999_999);
    assert_eq!(effective_n(10_000_000, 1_000_000, 10), 10_000_000);
    assert_eq!(effective_n(10_000_001, 1_000_000, 10), 10_000_000);
}

#[test]
fn effective_n_with_a_cap_beyond_the_range() {
    assert_eq!(effective_n(u64::MAX, u64::MAX, 2), u64::MAX);
    assert_eq!(effective_n(123, 1 << 40, 1 << 40), 123);
}

#[test]
fn effective_n_with_no_room() {
    assert_eq!(effective_n(123, 0, 10), 0);
    assert_eq!(effective_n(123, 10, 0), 0);
}

#[test]
fn the_fixed_parameters() {
    assert_eq!(BENCH_SEED, 12345);
    assert_eq!(BENCH_N1, 300_000_000);
    assert_eq!(BENCH_N2, 200_000_000);
    assert_eq!(BENCH_WARMUP, 3);
    assert_eq!(BENCH_REPEATS, 9);
    assert_eq!(MAX_CHUNKS, 10);
    assert_eq!(INT_CHUNK_SIZE, 1_000_000);
    assert_eq!(FP_CHUNK_SIZE, 1_000_000);
    assert_eq!(T1_ID, "T1_INT32_MIX");
    assert_eq!(T2_ID, "T2_FP64_DOT");
}

#[test]
fn the_derived_parameters() {
    assert_eq!(TOTAL_STEPS, 2 * (BENCH_WARMUP + BENCH_REPEATS));
    assert_eq!(EFFECTIVE_N1, effective_n(BENCH_N1, INT_CHUNK_SIZE, MAX_CHUNKS));
    assert_eq!(EFFECTIVE_N2, effective_n(BENCH_N2, FP_CHUNK_SIZE, MAX_CHUNKS));
    assert_eq!(chunk_total(EFFECTIVE_N1, INT_CHUNK_SIZE), 10);
    assert_eq!(chunk_total(EFFECTIVE_N2, FP_CHUNK_SIZE), 10);
}

#[test]
fn the_last_chunk_may_be_short() {
    let next = next_chunk_len;
    assert_eq!(next(10, 3, 0), 3);
    assert_eq!(next(10, 3, 3), 3);
    assert_eq!(next(10, 3, 9), 1);
    assert_eq!(next(10, 3, 10), 0);
    assert_eq!(next(10, 100, 0), 10);
    assert_eq!(next(u64::MAX, u64::MAX, 1), u64::MAX - 1);
}
