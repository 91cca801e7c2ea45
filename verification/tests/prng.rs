use astrobox_bench::prng::{XorShift32, ZERO_SEED_SUBSTITUTE};

#[test]
fn first_draws_of_seed_one() {
    let mut g = XorShift32::new(1);
    assert_eq!(g.next_u32(), 270369);
    assert_eq!(g.next_u32(), 67634689);
    assert_eq!(g.next_u32(), 2647435461);
}

#[test]
fn first_draws_of_the_benchmark_seed() {
    let mut g = XorShift32::new(12345);
    let draws: Vec<u32> = (0..5).map(|_| g.next_u32()).collect();
    assert_eq!(draws, vec![3336926330, 1697253807, 2816511904, 1955480042, 718842323]);
}

#[test]
fn first_draws_of_seed_zero() {
    let mut g = XorShift32::new(0);
    assert_eq!(g.state(), 0x6D2B_79F5);
    assert_eq!(g.next_u32(), 1085196063);
    assert_eq!(g.next_u32(), 2447379481);
    assert_eq!(g.next_u32(), 2618286376);
}

#[test]
fn zero_seed_is_the_substitute() {
    assert_eq!(ZERO_SEED_SUBSTITUTE, 0x6D2B_79F5);
    let mut a = XorShift32::new(0);
    let mut b = XorShift32::new(ZERO_SEED_SUBSTITUTE);
    for _ in 0..1000 {
        assert_eq!(a.next_u32(), b.next_u32());
    }
}

#[test]
fn reseeding_reproduces_the_sequence() {
    for seed in [1u32, 2, 12345, 0xDEAD_BEEF, u32::MAX] {
        let mut a = XorShift32::new(seed);
        let first: Vec<u32> = (0..500).map(|_| a.next_u32()).collect();
        let mut b = XorShift32::new(seed);
        let second: Vec<u32> = (0..500).map(|_| b.next_u32()).collect();
        assert_eq!(first, second);
    }
}

#[test]
fn a_nonzero_seed_is_the_first_state() {
    let g = XorShift32::new(77);
    assert_eq!(g.state(), 77);
}

#[test]
fn the_draw_is_the_new_state() {
    let mut g = XorShift32::new(12345);
    for _ in 0..100 {
        let r = g.next_u32();
        assert_eq!(r, g.state());
    }
}

#[test]
fn no_draw_is_zero() {
    let mut g = XorShift32::new(u32::MAX);
    for _ in 0..100_000 {
        assert_ne!(g.next_u32(), 0);
    }
}

#[test]
fn a_round_wraps_at_thirty_two_bits() {
    // 0x8000_0000 << 13 and << 5 fall off the top entirely.
    let mut g = XorShift32::new(0x8000_0000);
    let a: u32 = 0x8000_0000;
    let b = a ^ (a >> 17);
    let c = b ^ (b << 5);
    assert_eq!(g.next_u32(), c);
    assert_eq!(c, 0x8008_4000);
}
