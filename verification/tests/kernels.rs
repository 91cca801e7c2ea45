use astrobox_bench::kernels::{
    bench_fp64_dot, bench_int32_mix, rotate_left, run_chunked, Fp64Dot, Int32Mix, Kernel,
    DOT_SEED_MASK, MIX_INIT,
};
use astrobox_bench::observer::{EventLog, FnObserver};
use astrobox_bench::prng::XorShift32;

/// An observer of chunk events whose log nobody reads.
fn quiet() -> EventLog<(usize, usize)> {
    EventLog::new()
}

/// The arithmetic of one dot-accumulation step on bit patterns.
fn accumulate(sum: u64, a: u32, b: u32) -> u64 {
    let a = a as f64 / 4294967296.0;
    let b = b as f64 / 4294967296.0;
    let c: f64 = 1e-9;
    (f64::from_bits(sum) + (a * b + c)).to_bits()
}

#[test]
fn int32_mix_digests() {
    assert_eq!(bench_int32_mix(12345, 1, 1, &mut quiet()), 0x3feb_f656);
    assert_eq!(bench_int32_mix(12345, 2, 1, &mut quiet()), 0x7d27_5bbf);
    assert_eq!(bench_int32_mix(12345, 33, 5, &mut quiet()), 0xab84_d41b);
    assert_eq!(bench_int32_mix(12345, 1000, 100, &mut quiet()), 0xa280_1848);
    assert_eq!(bench_int32_mix(12345, 100_000, 1000, &mut quiet()), 0x4999_83f0);
    assert_eq!(bench_int32_mix(0, 1000, 1000, &mut quiet()), 0x9682_c892);
}

#[test]
fn int32_mix_of_the_benchmark() {
    let mut chunks = EventLog::new();
    let digest = bench_int32_mix(12345, 10_000_000, 1_000_000, &mut chunks);
    assert_eq!(digest, 0xb877_beaf);
    let expected: Vec<(usize, usize)> = (1..=10).map(|i| (i, 10)).collect();
    assert_eq!(chunks.events, expected);
}

#[test]
fn int32_mix_ignores_the_chunk_size() {
    let n: u64 = 100_000;
    let whole = bench_int32_mix(12345, n, n, &mut quiet());
    for chunk_size in [1u64, 7, 1000, 33_333, 99_999, 100_001, u64::MAX] {
        assert_eq!(bench_int32_mix(12345, n, chunk_size, &mut quiet()), whole);
    }
}

#[test]
fn int32_mix_without_iterations() {
    let mut chunks = EventLog::new();
    assert_eq!(bench_int32_mix(12345, 0, 10, &mut chunks), 0x1234_5678);
    assert_eq!(bench_int32_mix(12345, 10, 0, &mut chunks), 0x1234_5678);
    assert_eq!(bench_int32_mix(12345, 0, 0, &mut chunks), MIX_INIT);
    assert!(chunks.events.is_empty());
}

#[test]
fn chunk_events_are_numbered_from_one() {
    let mut chunks = EventLog::new();
    bench_int32_mix(1, 10, 3, &mut chunks);
    assert_eq!(chunks.events, vec![(1, 4), (2, 4), (3, 4), (4, 4)]);
    let mut chunks = EventLog::new();
    bench_int32_mix(1, 9, 3, &mut chunks);
    assert_eq!(chunks.events, vec![(1, 3), (2, 3), (3, 3)]);
    // A log that is not empty is added to.
    bench_int32_mix(1, 2, 100, &mut chunks);
    assert_eq!(chunks.events, vec![(1, 3), (2, 3), (3, 3), (1, 1)]);
}

#[test]
fn rotate_left_wraps_bits_around() {
    assert_eq!(rotate_left(0x8000_0001, 1), 0x0000_0003);
    assert_eq!(rotate_left(0x1234_5678, 0), 0x1234_5678);
    assert_eq!(rotate_left(0x1234_5678, 4), 0x2345_6781);
    assert_eq!(rotate_left(0x1234_5678, 31), 0x091a_2b3c);
    for r in 0..32u32 {
        for v in [0u32, 1, 0x8000_0000, 0xdead_beef, u32::MAX, 0x0f0f_1234] {
            assert_eq!(rotate_left(v, r), v.rotate_left(r));
        }
    }
}

#[test]
fn int32_mix_first_iteration_by_hand() {
    // Iteration 0 rotates by nothing.
    let x = XorShift32::new(12345).next_u32();
    let acc: u32 = 0x1234_5678;
    let mut v = x ^ acc;
    v = v.wrapping_mul(0x9E37_79B1);
    v ^= v >> 16;
    let mut expected = acc.wrapping_add(v);
    if v & 0x8000 != 0 {
        expected ^= 0xA5A5_A5A5;
    }
    assert_eq!(bench_int32_mix(12345, 1, 1, &mut quiet()), expected);
}

#[test]
fn the_integer_kernel_can_stop_anywhere() {
    let mut k = Int32Mix::new(12345);
    assert_eq!(k.digest(), 0x1234_5678);
    k.advance(1);
    assert_eq!(k.digest(), 0x3feb_f656);
    k.advance(1);
    assert_eq!(k.digest(), 0x7d27_5bbf);
    k.advance(31);
    assert_eq!(k.digest(), 0xab84_d41b);
    k.advance(0);
    assert_eq!(k.digest(), 0xab84_d41b);
    k.advance(967);
    assert_eq!(k.digest(), 0xa280_1848);
}

#[test]
fn the_integer_kernel_restarts_from_the_seed() {
    let mut k = Int32Mix::new(12345);
    k.advance(1000);
    assert_eq!(k.digest(), 0xa280_1848);
    k.restart();
    assert_eq!(k.digest(), 0x1234_5678);
    k.advance(1000);
    assert_eq!(k.digest(), 0xa280_1848);
}

#[test]
fn fp64_dot_digests() {
    assert_eq!(bench_fp64_dot(12345, 1, 1, accumulate, &mut quiet()), 0x3fdd_c4be_c047_bb8d);
    assert_eq!(bench_fp64_dot(12345, 2, 1, accumulate, &mut quiet()), 0x3fe0_df86_cee7_84a1);
    assert_eq!(bench_fp64_dot(12345, 1000, 10, accumulate, &mut quiet()), 0x4070_1ef1_2df4_0667);
    assert_eq!(bench_fp64_dot(12345, 100_000, 999, accumulate, &mut quiet()), 0x40d8_7317_21f4_7293);
    assert_eq!(bench_fp64_dot(0xDEAD_BEEF, 10, 3, accumulate, &mut quiet()), 0x4002_90f7_a130_f8cc);
}

#[test]
fn fp64_dot_of_the_benchmark() {
    let mut chunks = EventLog::new();
    let digest = bench_fp64_dot(12345, 10_000_000, 1_000_000, accumulate, &mut chunks);
    assert_eq!(digest, 0x4143_1396_092c_43ad);
    let expected: Vec<(usize, usize)> = (1..=10).map(|i| (i, 10)).collect();
    assert_eq!(chunks.events, expected);
}

#[test]
fn fp64_dot_ignores_the_chunk_size() {
    let n: u64 = 100_000;
    let whole = bench_fp64_dot(12345, n, n, accumulate, &mut quiet());
    for chunk_size in [1u64, 7, 1000, 33_333, 99_999, 100_001, u64::MAX] {
        assert_eq!(bench_fp64_dot(12345, n, chunk_size, accumulate, &mut quiet()), whole);
    }
}

#[test]
fn fp64_dot_without_iterations() {
    let mut chunks = EventLog::new();
    assert_eq!(bench_fp64_dot(12345, 0, 10, accumulate, &mut chunks), 0);
    assert_eq!(bench_fp64_dot(12345, 10, 0, accumulate, &mut chunks), 0);
    assert!(chunks.events.is_empty());
    assert_eq!(f64::from_bits(0), 0.0);
}

#[test]
fn fp64_dot_draws_twice_per_iteration_in_order() {
    let mut seen: Vec<(u64, u32, u32)> = Vec::new();
    let log = std::cell::RefCell::new(&mut seen);
    let digest = bench_fp64_dot(
        12345,
        3,
        2,
        |sum, a, b| {
            log.borrow_mut().push((sum, a, b));
            sum + 1
        },
        &mut quiet(),
    );
    assert_eq!(digest, 3);
    let mut g = XorShift32::new(12345 ^ DOT_SEED_MASK);
    let mut expected: Vec<(u64, u32, u32)> = Vec::new();
    for i in 0..3u64 {
        let a = g.next_u32();
        let b = g.next_u32();
        expected.push((i, a, b));
    }
    assert_eq!(seen, expected);
}

#[test]
fn fp64_dot_agrees_with_plain_floating_point() {
    let mut g = XorShift32::new(777 ^ 0xDEAD_BEEF);
    let mut sum: f64 = 0.0;
    for _ in 0..50_000 {
        let a = g.next_u32() as f64 / 4294967296.0;
        let b = g.next_u32() as f64 / 4294967296.0;
        sum = sum + (a * b + 1e-9);
    }
    assert_eq!(bench_fp64_dot(777, 50_000, 4096, accumulate, &mut quiet()), sum.to_bits());
}

#[test]
fn the_dot_kernel_can_stop_anywhere() {
    let mut k = Fp64Dot::new(12345, accumulate);
    assert_eq!(k.digest(), 0);
    k.advance(1);
    assert_eq!(k.digest(), 0x3fdd_c4be_c047_bb8d);
    k.advance(999);
    assert_eq!(k.digest(), 0x4070_1ef1_2df4_0667);
    k.restart();
    assert_eq!(k.digest(), 0);
    k.advance(2);
    assert_eq!(k.digest(), 0x3fe0_df86_cee7_84a1);
}

#[test]
fn run_chunked_drives_any_kernel() {
    let mut k = Int32Mix::new(12345);
    let mut chunks: Vec<(usize, usize)> = Vec::new();
    let mut on_chunk = FnObserver::new(|event: (usize, usize)| chunks.push(event));
    run_chunked(&mut k, 1000, 300, &mut on_chunk);
    assert_eq!(k.digest(), 0xa280_1848);
    assert_eq!(chunks, vec![(1, 4), (2, 4), (3, 4), (4, 4)]);
}

#[test]
fn each_chunk_of_the_benchmark_is_full_and_reported_after_it_ran() {
    let calls = std::cell::Cell::new(0u64);
    let mut at_chunk: Vec<u64> = Vec::new();
    {
        let mut observer = FnObserver::new(|_: (usize, usize)| at_chunk.push(calls.get()));
        bench_fp64_dot(
            12345,
            10_000_000,
            1_000_000,
            |sum, _, _| {
                calls.set(calls.get() + 1);
                sum
            },
            &mut observer,
        );
    }
    let expected: Vec<u64> = (1..=10).map(|k| k * 1_000_000).collect();
    assert_eq!(at_chunk, expected);
}

#[test]
fn a_short_last_chunk_is_reported_after_it_ran() {
    let calls = std::cell::Cell::new(0u64);
    let mut at_chunk: Vec<u64> = Vec::new();
    {
        let mut observer = FnObserver::new(|_: (usize, usize)| at_chunk.push(calls.get()));
        bench_fp64_dot(
            1,
            10,
            4,
            |sum, _, _| {
                calls.set(calls.get() + 1);
                sum
            },
            &mut observer,
        );
    }
    assert_eq!(at_chunk, vec![4, 8, 10]);
}
