//! The two workload kernels and the chunked loop that drives them.
//!
//! A kernel is a fold over iteration indices that draws from a generator and
//! updates an accumulator. It can be advanced by any number of iterations at
//! a time, which is what lets a driver stop between chunks.

use vstd::prelude::*;
use vstd::wrapping::u32_specs::wrapping_add;
use vstd::wrapping::u32_specs::wrapping_mul;
use crate::chunks::{
    chunk_count,
    chunk_total,
    done_after_chunks,
    iterations_run,
    lemma_chunks_cover,
    next_chunk_len,
};
use crate::observer::Observer;
use crate::prng::{seed_state, state_after, xorshift, XorShift32};

verus! {

/// A resumable workload.
pub trait Kernel: Sized {
    /// What identifies the workload: everything its digest depends on
    /// besides the number of iterations.
    type Workload;

    /// The kernel's own invariant.
    spec fn wf(&self) -> bool;

    /// The workload this kernel runs.
    spec fn workload(&self) -> Self::Workload;

    /// How many iterations have been folded in since the last restart.
    spec fn done(&self) -> nat;

    /// Whether `digest` is a digest of `workload` after `k` iterations.
    spec fn is_digest(workload: Self::Workload, k: nat, digest: u64) -> bool;

    /// Puts the kernel back at iteration zero.
    fn restart(&mut self)
        requires
            old(self).wf(),
        ensures
            final(self).wf(),
            final(self).workload() == old(self).workload(),
            final(self).done() == 0,
    ;

    /// Runs the next `count` iterations.
    fn advance(&mut self, count: u64)
        requires
            old(self).wf(),
            old(self).done() + count <= u64::MAX,
        ensures
            final(self).wf(),
            final(self).workload() == old(self).workload(),
            final(self).done() == old(self).done() + count,
    ;

    /// The digest of the iterations run so far.
    fn digest(&self) -> (digest: u64)
        requires
            self.wf(),
        ensures
            Self::is_digest(self.workload(), self.done(), digest),
    ;
}

/// The accumulator that the integer kernel starts from.
pub const MIX_INIT: u32 = 0x1234_5678;

/// The odd constant that each mixed word is multiplied by.
pub const MIX_MULTIPLIER: u32 = 0x9E37_79B1;

/// The bit of a mixed word that decides whether the accumulator is flipped.
pub const MIX_FLIP_BIT: u32 = 0x8000;

/// The mask that the accumulator is flipped with.
pub const MIX_FLIP_MASK: u32 = 0xA5A5_A5A5;

/// `v` rotated left by `r` bit positions: the bits pushed off the top come
/// back in at the bottom.
pub open spec fn rotl32(v: u32, r: u32) -> u32
    recommends
        r < 32,
{
    if r == 0 {
        v
    } else {
        (v << r) | (v >> ((32 - r) as u32))
    }
}

/// The mixed word of one iteration: the draw `x` combined with the
/// accumulator, rotated by the iteration index modulo 32, multiplied, and
/// folded onto its own upper half.
pub open spec fn mix_word(acc: u32, x: u32, j: nat) -> u32 {
    let rotated = rotl32(x ^ acc, (j % 32) as u32);
    let scaled = wrapping_mul(rotated, MIX_MULTIPLIER);
    scaled ^ (scaled >> 16u32)
}

/// The accumulator after iteration `j`, which drew `x`.
pub open spec fn mix_round(acc: u32, x: u32, j: nat) -> u32 {
    let v = mix_word(acc, x, j);
    let sum = wrapping_add(acc, v);
    if v & MIX_FLIP_BIT != 0 {
        sum ^ MIX_FLIP_MASK
    } else {
        sum
    }
}

/// The integer kernel between two iterations: the generator state and the
/// accumulator.
pub ghost struct MixState {
    pub rng: u32,
    pub acc: u32,
}

/// The state before the first iteration.
pub open spec fn mix_start(seed: u32) -> MixState {
    MixState { rng: seed_state(seed), acc: MIX_INIT }
}

/// The state after iteration `j`, from the state `s` before it.
pub open spec fn mix_step(s: MixState, j: nat) -> MixState {
    let x = xorshift(s.rng);
    MixState { rng: x, acc: mix_round(s.acc, x, j) }
}

/// The state after iterations `from..to`, from the state `s` before them.
pub open spec fn mix_range(s: MixState, from: nat, to: nat) -> MixState
    decreases to,
{
    if to <= from {
        s
    } else {
        mix_step(mix_range(s, from, (to - 1) as nat), (to - 1) as nat)
    }
}

/// The accumulator of the integer kernel after `n` iterations from `seed`,
/// widened to 64 bits.
pub open spec fn int32_mix_digest(seed: u32, n: nat) -> u64 {
    mix_range(mix_start(seed), 0, n).acc as u64
}

/// Running `from..mid` and then `mid..to` is running `from..to`.
pub proof fn lemma_mix_range_split(s: MixState, from: nat, mid: nat, to: nat)
    requires
        from <= mid <= to,
    ensures
        mix_range(mix_range(s, from, mid), mid, to) == mix_range(s, from, to),
    decreases to,
{
    if to > mid {
        lemma_mix_range_split(s, from, mid, (to - 1) as nat);
    }
}

/// `v` rotated left by `r` bit positions.
pub fn rotate_left(v: u32, r: u32) -> (out: u32)
    requires
        r < 32,
    ensures
        out == rotl32(v, r),
{
    if r == 0 {
        v
    } else {
        (v << r) | (v >> (32 - r))
    }
}

/// A rotation moves every bit `r` places up, modulo the word size.
pub proof fn law_rotation_moves_bits(v: u32, r: u32, i: u32)
    requires
        r < 32,
        i < 32,
    ensures
        (rotl32(v, r) >> ((i + r) % 32) as u32) & 1 == (v >> i) & 1,
{
    let k: u32 = ((i + r) % 32) as u32;
    assert(r < 32 && i < 32 && k == (i + r) % 32 ==> ((if r == 0 {
        v
    } else {
        (v << r) | (v >> ((32 - r) as u32))
    }) >> k) & 1 == (v >> i) & 1) by (bit_vector);
}

/// One iteration of the integer kernel on the accumulator.
fn mix_once(acc: u32, x: u32, j: u64) -> (out: u32)
    ensures
        out == mix_round(acc, x, j as nat),
{
    let mut v: u32 = x ^ acc;
    v = rotate_left(v, (j % 32) as u32);
    v = v.wrapping_mul(MIX_MULTIPLIER);
    v ^= v >> 16;
    let mut acc: u32 = acc.wrapping_add(v);
    if (v & MIX_FLIP_BIT) != 0 {
        acc ^= MIX_FLIP_MASK;
    }
    acc
}

/// The integer-mixing kernel, stopped between two iterations.
pub struct Int32Mix {
    seed: u32,
    rng: XorShift32,
    acc: u32,
    done: u64,
}

impl Int32Mix {
    /// The kernel for `seed`, before its first iteration.
    pub fn new(seed: u32) -> (k: Self)
        ensures
            k.wf(),
            k.workload() == seed,
            k.done() == 0,
    {
        Int32Mix { seed, rng: XorShift32::new(seed), acc: MIX_INIT, done: 0 }
    }
}

impl Kernel for Int32Mix {
    type Workload = u32;

    closed spec fn wf(&self) -> bool {
        MixState { rng: self.rng@, acc: self.acc } == mix_range(
            mix_start(self.seed),
            0,
            self.done as nat,
        )
    }

    closed spec fn workload(&self) -> u32 {
        self.seed
    }

    closed spec fn done(&self) -> nat {
        self.done as nat
    }

    open spec fn is_digest(workload: u32, k: nat, digest: u64) -> bool {
        digest == int32_mix_digest(workload, k)
    }

    fn restart(&mut self) {
        self.rng = XorShift32::new(self.seed);
        self.acc = MIX_INIT;
        self.done = 0;
    }

    fn advance(&mut self, count: u64) {
        let end: u64 = self.done + count;
        while self.done < end
            invariant
                self.done <= end,
                self.seed == old(self).seed,
                self.wf(),
            decreases end - self.done,
        {
            let x = self.rng.next_u32();
            self.acc = mix_once(self.acc, x, self.done);
            self.done = self.done + 1;
        }
    }

    fn digest(&self) -> (digest: u64) {
        self.acc as u64
    }
}

/// What the seed of the dot-accumulation kernel is combined with before it
/// seeds the generator.
pub const DOT_SEED_MASK: u32 = 0xDEAD_BEEF;

/// The bit pattern of the running sum before the first iteration: positive
/// zero.
pub const DOT_INIT: u64 = 0;

/// The `k`-th draw of the dot-accumulation kernel for `seed`, counted from
/// one. Iteration `i` uses draws `2 * i + 1` and `2 * i + 2`, in that order.
pub open spec fn dot_draw(seed: u32, k: nat) -> u32 {
    state_after(seed_state(seed ^ DOT_SEED_MASK), k)
}

/// Whether `sum` is a bit pattern that the running sum can have after `k`
/// iterations from `seed`, where `accumulate` maps the bit pattern of the
/// sum before an iteration and the iteration's two draws to the bit pattern
/// of the sum after it.
pub open spec fn dot_reaches<A: Fn(u64, u32, u32) -> u64>(
    accumulate: A,
    seed: u32,
    k: nat,
    sum: u64,
) -> bool
    decreases k,
{
    if k == 0 {
        sum == DOT_INIT
    } else {
        exists|prev: u64|
            dot_reaches(accumulate, seed, (k - 1) as nat, prev) && #[trigger] call_ensures(
                accumulate,
                (prev, dot_draw(seed, (2 * k - 1) as nat), dot_draw(seed, 2 * k)),
                sum,
            )
    }
}

/// Whether `accumulate` gives one result for each triple of arguments.
pub open spec fn is_function<A: Fn(u64, u32, u32) -> u64>(accumulate: A) -> bool {
    forall|sum: u64, a: u32, b: u32, r1: u64, r2: u64|
        #[trigger] call_ensures(accumulate, (sum, a, b), r1) && #[trigger] call_ensures(
            accumulate,
            (sum, a, b),
            r2,
        ) ==> r1 == r2
}

/// Where the accumulation step is a function, the sum after `k` iterations
/// is determined by the seed and `k`.
pub proof fn lemma_dot_reaches_unique<A: Fn(u64, u32, u32) -> u64>(
    accumulate: A,
    seed: u32,
    k: nat,
    s1: u64,
    s2: u64,
)
    requires
        is_function(accumulate),
        dot_reaches(accumulate, seed, k, s1),
        dot_reaches(accumulate, seed, k, s2),
    ensures
        s1 == s2,
    decreases k,
{
    if k > 0 {
        let a = dot_draw(seed, (2 * k - 1) as nat);
        let b = dot_draw(seed, 2 * k);
        let prev1 = choose|prev: u64|
            dot_reaches(accumulate, seed, (k - 1) as nat, prev) && #[trigger] call_ensures(
                accumulate,
                (prev, a, b),
                s1,
            );
        let prev2 = choose|prev: u64|
            dot_reaches(accumulate, seed, (k - 1) as nat, prev) && #[trigger] call_ensures(
                accumulate,
                (prev, a, b),
                s2,
            );
        lemma_dot_reaches_unique(accumulate, seed, (k - 1) as nat, prev1, prev2);
    }
}

/// The dot-accumulation kernel, stopped between two iterations.
///
/// The kernel draws two words per iteration and hands them, with the bit
/// pattern of the running sum, to `accumulate`, which returns the bit
/// pattern of the new sum. The arithmetic on the sum is the caller's; the
/// seeding, the order of the draws and the number of iterations are fixed
/// here.
pub struct Fp64Dot<A> {
    accumulate: A,
    seed: u32,
    rng: XorShift32,
    sum: u64,
    done: u64,
}

impl<A: Fn(u64, u32, u32) -> u64> Fp64Dot<A> {
    /// The kernel for `seed`, before its first iteration.
    pub fn new(seed: u32, accumulate: A) -> (k: Self)
        requires
            forall|sum: u64, a: u32, b: u32| call_requires(accumulate, (sum, a, b)),
        ensures
            k.wf(),
            k.workload() == (accumulate, seed),
            k.done() == 0,
    {
        Fp64Dot {
            accumulate,
            seed,
            rng: XorShift32::new(seed ^ DOT_SEED_MASK),
            sum: DOT_INIT,
            done: 0,
        }
    }
}

impl<A: Fn(u64, u32, u32) -> u64> Kernel for Fp64Dot<A> {
    type Workload = (A, u32);

    closed spec fn wf(&self) -> bool {
        &&& forall|sum: u64, a: u32, b: u32| call_requires(self.accumulate, (sum, a, b))
        &&& self.rng@ == dot_draw(self.seed, (2 * self.done) as nat)
        &&& dot_reaches(self.accumulate, self.seed, self.done as nat, self.sum)
    }

    closed spec fn workload(&self) -> (A, u32) {
        (self.accumulate, self.seed)
    }

    closed spec fn done(&self) -> nat {
        self.done as nat
    }

    open spec fn is_digest(workload: (A, u32), k: nat, digest: u64) -> bool {
        dot_reaches(workload.0, workload.1, k, digest)
    }

    fn restart(&mut self) {
        self.rng = XorShift32::new(self.seed ^ DOT_SEED_MASK);
        self.sum = DOT_INIT;
        self.done = 0;
    }

    fn advance(&mut self, count: u64) {
        let end: u64 = self.done + count;
        while self.done < end
            invariant
                self.done <= end,
                self.seed == old(self).seed,
                self.accumulate == old(self).accumulate,
                self.wf(),
            decreases end - self.done,
        {
            let ghost k = (self.done + 1) as nat;
            let a = self.rng.next_u32();
            assert(a == dot_draw(self.seed, (2 * k - 1) as nat));
            let b = self.rng.next_u32();
            self.sum = (self.accumulate)(self.sum, a, b);
            self.done = self.done + 1;
        }
    }

    fn digest(&self) -> (digest: u64) {
        self.sum
    }
}

/// The integer kernel's state after the first `k` chunks, where each chunk
/// is run from the state that the chunk before it left.
pub open spec fn mix_after_chunks(seed: u32, n: u64, chunk_size: u64, k: nat) -> MixState
    decreases k,
{
    if k == 0 {
        mix_start(seed)
    } else {
        mix_range(
            mix_after_chunks(seed, n, chunk_size, (k - 1) as nat),
            done_after_chunks(n, chunk_size, (k - 1) as nat),
            done_after_chunks(n, chunk_size, k),
        )
    }
}

/// Running chunk by chunk is running the iterations of the chunks in one
/// go.
pub proof fn lemma_mix_after_chunks(seed: u32, n: u64, chunk_size: u64, k: nat)
    ensures
        mix_after_chunks(seed, n, chunk_size, k) == mix_range(
            mix_start(seed),
            0,
            done_after_chunks(n, chunk_size, k),
        ),
    decreases k,
{
    if k > 0 {
        let j = (k - 1) as nat;
        lemma_mix_after_chunks(seed, n, chunk_size, j);
        assert(j * chunk_size <= k * chunk_size) by (nonlinear_arith)
            requires
                j <= k,
        ;
        lemma_mix_range_split(
            mix_start(seed),
            0,
            done_after_chunks(n, chunk_size, j),
            done_after_chunks(n, chunk_size, k),
        );
    }
}

/// The digest of the integer workload does not depend on the chunk size: cut
/// into chunks of any size but zero, the workload ends in the state that
/// `n` iterations in one go end in.
pub proof fn law_int32_mix_ignores_chunk_size(seed: u32, n: u64, c1: u64, c2: u64)
    requires
        c1 > 0,
        c2 > 0,
    ensures
        mix_after_chunks(seed, n, c1, chunk_count(n, c1)) == mix_range(mix_start(seed), 0, n as nat),
        mix_after_chunks(seed, n, c1, chunk_count(n, c1)) == mix_after_chunks(
            seed,
            n,
            c2,
            chunk_count(n, c2),
        ),
        int32_mix_digest(seed, iterations_run(n, c1) as nat) == int32_mix_digest(
            seed,
            iterations_run(n, c2) as nat,
        ),
        int32_mix_digest(seed, iterations_run(n, c1) as nat) == int32_mix_digest(
            seed,
            iterations_run(n, n) as nat,
        ),
{
    lemma_mix_after_chunks(seed, n, c1, chunk_count(n, c1));
    lemma_mix_after_chunks(seed, n, c2, chunk_count(n, c2));
    lemma_chunks_cover(n, c1, chunk_count(n, c1));
    lemma_chunks_cover(n, c2, chunk_count(n, c2));
}

/// The digest of the dot-accumulation workload does not depend on the chunk
/// size, provided the accumulation step gives one result for each triple of
/// arguments.
pub proof fn law_fp64_dot_ignores_chunk_size<A: Fn(u64, u32, u32) -> u64>(
    accumulate: A,
    seed: u32,
    n: u64,
    c1: u64,
    c2: u64,
    sum1: u64,
    sum2: u64,
)
    requires
        c1 > 0,
        c2 > 0,
        is_function(accumulate),
        dot_reaches(accumulate, seed, iterations_run(n, c1) as nat, sum1),
        dot_reaches(accumulate, seed, iterations_run(n, c2) as nat, sum2),
    ensures
        sum1 == sum2,
{
    lemma_dot_reaches_unique(accumulate, seed, n as nat, sum1, sum2);
}

/// `std::hint::black_box` hands its argument back unchanged; it only keeps
/// the compiler from assuming anything about the value, so that a kernel's
/// work is not optimised away.
pub assume_specification<T>[ std::hint::black_box::<T> ](dummy: T) -> (out: T)
    ensures
        out == dummy,
;

/// The chunk events of `n` iterations in chunks of `chunk_size`: for each
/// chunk its number, counted from one, and the number of chunks.
pub open spec fn chunk_events(n: u64, chunk_size: u64) -> Seq<(usize, usize)> {
    Seq::new(
        chunk_count(n, chunk_size),
        |k: int| ((k + 1) as usize, chunk_count(n, chunk_size) as usize),
    )
}

/// Runs `kernel` from its first iteration through `n` iterations, in chunks
/// of `chunk_size`. After each chunk `on_chunk` receives the chunk's number,
/// counted from one, and the number of chunks. Where `n` or `chunk_size` is
/// zero nothing is run and `on_chunk` receives nothing.
pub fn run_chunked<K: Kernel, O: Observer<(usize, usize)>>(
    kernel: &mut K,
    n: u64,
    chunk_size: u64,
    on_chunk: &mut O,
)
    requires
        old(kernel).wf(),
        old(kernel).done() == 0,
        old(on_chunk).wf(),
        chunk_count(n, chunk_size) <= usize::MAX,
    ensures
        final(kernel).wf(),
        final(kernel).workload() == old(kernel).workload(),
        final(kernel).done() == iterations_run(n, chunk_size),
        final(on_chunk).wf(),
        final(on_chunk).seen() == old(on_chunk).seen() + chunk_events(n, chunk_size),
{
    if n == 0 || chunk_size == 0 {
        assert(chunk_count(n, chunk_size) == 0) by {
            if chunk_size > 0 {
                lemma_chunks_cover(n, chunk_size, 0);
            }
        }
        assert(on_chunk.seen() =~= old(on_chunk).seen() + chunk_events(n, chunk_size));
        return ;
    }
    let total = chunk_total(n, chunk_size);
    let mut done: u64 = 0;
    let mut index: usize = 0;
    assert(on_chunk.seen() =~= old(on_chunk).seen() + chunk_events(n, chunk_size).take(0));
    while done < n
        invariant
            chunk_size > 0,
            total == chunk_count(n, chunk_size),
            index <= total,
            done == done_after_chunks(n, chunk_size, index as nat),
            kernel.wf(),
            kernel.workload() == old(kernel).workload(),
            kernel.done() == done,
            on_chunk.wf(),
            on_chunk.seen() == old(on_chunk).seen() + chunk_events(n, chunk_size).take(
                index as int,
            ),
        decreases n - done,
    {
        proof {
            lemma_chunks_cover(n, chunk_size, index as nat);
        }
        let len = next_chunk_len(n, chunk_size, done);
        kernel.advance(len);
        done = done + len;
        index = index + 1;
        on_chunk.notify((index, total));
        assert(chunk_events(n, chunk_size).take(index as int) =~= chunk_events(
            n,
            chunk_size,
        ).take(index - 1).push((index, total)));
    }
    proof {
        lemma_chunks_cover(n, chunk_size, index as nat);
        assert(chunk_events(n, chunk_size).take(index as int) =~= chunk_events(n, chunk_size));
    }
}

/// The integer-mixing workload: `n` iterations from `seed`, run in chunks
/// of `chunk_size`, with `on_chunk` notified after each chunk. The result is
/// the final accumulator; it does not depend on `chunk_size` as long as that
/// is not zero.
#[inline(never)]
pub fn bench_int32_mix<O: Observer<(usize, usize)>>(
    seed: u32,
    n: u64,
    chunk_size: u64,
    on_chunk: &mut O,
) -> (acc: u32)
    requires
        old(on_chunk).wf(),
        chunk_count(n, chunk_size) <= usize::MAX,
    ensures
        acc as u64 == int32_mix_digest(seed, iterations_run(n, chunk_size) as nat),
        final(on_chunk).wf(),
        final(on_chunk).seen() == old(on_chunk).seen() + chunk_events(n, chunk_size),
{
    let mut kernel = Int32Mix::new(seed);
    run_chunked(&mut kernel, n, chunk_size, on_chunk);
    std::hint::black_box(kernel.acc)
}

/// The dot-accumulation workload: `n` iterations from `seed`, run in chunks
/// of `chunk_size`, with `on_chunk` notified after each chunk. Each
/// iteration hands the bit pattern of the running sum and two draws to
/// `accumulate`. The result is the bit pattern of the final sum.
#[inline(never)]
pub fn bench_fp64_dot<A: Fn(u64, u32, u32) -> u64, O: Observer<(usize, usize)>>(
    seed: u32,
    n: u64,
    chunk_size: u64,
    accumulate: A,
    on_chunk: &mut O,
) -> (sum: u64)
    requires
        old(on_chunk).wf(),
        chunk_count(n, chunk_size) <= usize::MAX,
        forall|sum: u64, a: u32, b: u32| call_requires(accumulate, (sum, a, b)),
    ensures
        dot_reaches(accumulate, seed, iterations_run(n, chunk_size) as nat, sum),
        final(on_chunk).wf(),
        final(on_chunk).seen() == old(on_chunk).seen() + chunk_events(n, chunk_size),
{
    let mut kernel = Fp64Dot::new(seed, accumulate);
    run_chunked(&mut kernel, n, chunk_size, on_chunk);
    std::hint::black_box(kernel.sum)
}

} // verus!
