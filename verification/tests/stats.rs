use astrobox_bench::stats::{calc_stats, median, p95, sort_ascending, BenchStats};

const MS: u64 = 1_000_000;
const MS_PICOS: u128 = 1_000_000_000;

#[test]
fn stats_of_one_sample() {
    let mut times = vec![5 * MS];
    let stats = calc_stats(&mut times);
    let five = Some(5 * MS_PICOS);
    assert_eq!(stats, BenchStats { min: five, p50: five, p95: five, max: five });
}

#[test]
fn stats_of_four_samples() {
    let mut times = vec![MS, 2 * MS, 3 * MS, 4 * MS];
    let stats = calc_stats(&mut times);
    assert_eq!(stats.min, Some(MS_PICOS));
    assert_eq!(stats.p50, Some(2_500_000_000));
    assert_eq!(stats.p95, Some(4 * MS_PICOS));
    assert_eq!(stats.max, Some(4 * MS_PICOS));
}

#[test]
fn stats_of_no_samples() {
    let mut times: Vec<u64> = Vec::new();
    let stats = calc_stats(&mut times);
    assert_eq!(stats, BenchStats { min: None, p50: None, p95: None, max: None });
    assert_eq!(median(&[]), None);
    assert_eq!(p95(&[]), None);
}

#[test]
fn calc_stats_sorts_its_samples() {
    let mut times = vec![9, 3, 7, 3, 1, 8, 2, 2, 5];
    let stats = calc_stats(&mut times);
    assert_eq!(times, vec![1, 2, 2, 3, 3, 5, 7, 8, 9]);
    assert_eq!(stats.min, Some(1000));
    assert_eq!(stats.p50, Some(3000));
    // round(8 * 0.95) = round(7.6) = 8
    assert_eq!(stats.p95, Some(9000));
    assert_eq!(stats.max, Some(9000));
}

#[test]
fn stats_do_not_depend_on_the_order() {
    let mut a = vec![4 * MS, MS, 3 * MS, 2 * MS];
    let mut b = vec![MS, 2 * MS, 3 * MS, 4 * MS];
    let mut c = vec![2 * MS, 4 * MS, MS, 3 * MS];
    let sa = calc_stats(&mut a);
    assert_eq!(sa, calc_stats(&mut b));
    assert_eq!(sa, calc_stats(&mut c));
    assert_eq!(a, b);
    assert_eq!(a, c);
}

#[test]
fn sort_ascending_orders_any_input() {
    let mut v: Vec<u64> = Vec::new();
    sort_ascending(&mut v);
    assert!(v.is_empty());
    let mut v = vec![u64::MAX, 0, 5, 5, 1, u64::MAX, 0];
    sort_ascending(&mut v);
    assert_eq!(v, vec![0, 0, 1, 5, 5, u64::MAX, u64::MAX]);
    let mut x: u64 = 88172645463325252;
    let mut v: Vec<u64> = Vec::new();
    for _ in 0..200 {
        x ^= x << 13;
        x ^= x >> 7;
        x ^= x << 17;
        v.push(x % 50);
    }
    let mut expected = v.clone();
    expected.sort();
    sort_ascending(&mut v);
    assert_eq!(v, expected);
}

#[test]
fn median_of_odd_and_even_counts() {
    assert_eq!(median(&[7]), Some(7000));
    assert_eq!(median(&[1, 2]), Some(1500));
    assert_eq!(median(&[1, 2, 4]), Some(2000));
    assert_eq!(median(&[1, 2, 4, 9]), Some(3000));
    assert_eq!(median(&[1, 2, 4, 9, 9]), Some(4000));
}

#[test]
fn median_of_the_largest_samples() {
    assert_eq!(median(&[u64::MAX, u64::MAX]), Some(u64::MAX as u128 * 1000));
    assert_eq!(median(&[u64::MAX - 1, u64::MAX]), Some((u64::MAX as u128) * 1000 - 500));
    assert_eq!(p95(&[u64::MAX]), Some(u64::MAX as u128 * 1000));
}

#[test]
fn p95_index_rounds_halves_up() {
    let samples: Vec<u64> = (0..100).collect();
    let at = |n: usize| p95(&samples[..n]).unwrap() / 1000;
    assert_eq!(at(1), 0);
    // round(1 * 0.95) = 1
    assert_eq!(at(2), 1);
    // round(3 * 0.95) = round(2.85) = 3
    assert_eq!(at(4), 3);
    // round(8 * 0.95) = round(7.6) = 8
    assert_eq!(at(9), 8);
    // round(9 * 0.95) = round(8.55) = 9
    assert_eq!(at(10), 9);
    // round(10 * 0.95) = round(9.5) = 10
    assert_eq!(at(11), 10);
    // round(11 * 0.95) = round(10.45) = 10
    assert_eq!(at(12), 10);
    // round(20 * 0.95) = 19
    assert_eq!(at(21), 19);
    // round(30 * 0.95) = round(28.5) = 29
    assert_eq!(at(31), 29);
    // round(99 * 0.95) = round(94.05) = 94
    assert_eq!(at(100), 94);
}

#[test]
fn p95_index_agrees_with_floating_point_rounding() {
    let samples: Vec<u64> = (0..2000).collect();
    for n in 1..=2000usize {
        let idx = ((n as f64 - 1.0) * 0.95).round() as usize;
        let idx = idx.min(n - 1);
        assert_eq!(p95(&samples[..n]), Some(samples[idx] as u128 * 1000), "n = {}", n);
    }
}
