//! The 32-bit xorshift generator that feeds both workloads.

use vstd::prelude::*;

verus! {

/// The state that stands in for a zero seed. An all-zero xorshift state is a
/// fixed point, so a generator is never started from it.
pub const ZERO_SEED_SUBSTITUTE: u32 = 0x6D2B_79F5;

/// The state a generator starts from when it is made from `seed`.
pub open spec fn seed_state(seed: u32) -> u32 {
    if seed == 0 {
        ZERO_SEED_SUBSTITUTE
    } else {
        seed
    }
}

/// One xorshift round on the full 32-bit word: bits shifted past either end
/// are dropped.
pub open spec fn xorshift(x: u32) -> u32 {
    let a = x ^ (x << 13u32);
    let b = a ^ (a >> 17u32);
    b ^ (b << 5u32)
}

/// The state reached from `start` after `k` rounds. For `k >= 1` this is
/// also the value of the `k`-th draw.
pub open spec fn state_after(start: u32, k: nat) -> u32
    decreases k,
{
    if k == 0 {
        start
    } else {
        xorshift(state_after(start, (k - 1) as nat))
    }
}

/// The first `k` draws of a generator whose state is `start`.
pub open spec fn draws(start: u32, k: nat) -> Seq<u32> {
    Seq::new(k, |i: int| state_after(start, (i + 1) as nat))
}

/// A xorshift generator. Its view is its current state, which is never zero.
pub struct XorShift32 {
    x: u32,
}

impl View for XorShift32 {
    type V = u32;

    closed spec fn view(&self) -> u32 {
        self.x
    }
}

impl XorShift32 {
    #[verifier::type_invariant]
    spec fn nonzero(self) -> bool {
        self.x != 0
    }

    /// A generator seeded with `seed`; a zero seed is replaced by
    /// [`ZERO_SEED_SUBSTITUTE`].
    pub fn new(seed: u32) -> (g: Self)
        ensures
            g@ == seed_state(seed),
    {
        let x: u32 = if seed == 0 {
            ZERO_SEED_SUBSTITUTE
        } else {
            seed
        };
        XorShift32 { x }
    }

    /// Advances the state by one round and returns the new state.
    pub fn next_u32(&mut self) -> (r: u32)
        ensures
            final(self)@ == xorshift(old(self)@),
            r == final(self)@,
            r != 0,
    {
        proof {
            use_type_invariant(&*self);
            lemma_xorshift_keeps_nonzero(self.x);
        }
        let mut x: u32 = self.x;
        x ^= x << 13;
        x ^= x >> 17;
        x ^= x << 5;
        self.x = x;
        x
    }

    /// The current state.
    pub fn state(&self) -> (s: u32)
        ensures
            s == self@,
            s != 0,
    {
        proof {
            use_type_invariant(self);
        }
        self.x
    }
}

/// A round never maps a non-zero state to zero, so zero is the only state
/// from which the generator would not advance.
pub proof fn lemma_xorshift_keeps_nonzero(x: u32)
    requires
        x != 0,
    ensures
        xorshift(x) != 0,
{
    assert(x != 0 ==> ({
        let a = x ^ (x << 13u32);
        let b = a ^ (a >> 17u32);
        b ^ (b << 5u32)
    }) != 0) by (bit_vector);
}

/// Different states lead to different states: no two sequences of draws
/// ever run into each other.
pub proof fn law_xorshift_is_injective(a: u32, b: u32)
    requires
        xorshift(a) == xorshift(b),
    ensures
        a == b,
{
    assert(({
        let a1 = a ^ (a << 13u32);
        let a2 = a1 ^ (a1 >> 17u32);
        a2 ^ (a2 << 5u32)
    }) == ({
        let b1 = b ^ (b << 13u32);
        let b2 = b1 ^ (b1 >> 17u32);
        b2 ^ (b2 << 5u32)
    }) ==> a == b) by (bit_vector);
}

/// Zero is a fixed point of the round: a generator in that state would
/// draw zero for ever. This is why a zero seed is replaced.
pub proof fn law_zero_state_never_advances()
    ensures
        xorshift(0) == 0,
{
    assert(({
        let x = 0u32;
        let a = x ^ (x << 13u32);
        let b = a ^ (a >> 17u32);
        b ^ (b << 5u32)
    }) == 0) by (bit_vector);
}

/// The draws of a generator depend on nothing but the seed it was made from
/// and on how many draws were made: generators made from the same seed give
/// the same sequence, draw for draw.
pub proof fn law_same_seed_same_draws(a: XorShift32, b: XorShift32, seed: u32, k: nat)
    requires
        a@ == seed_state(seed),
        b@ == seed_state(seed),
    ensures
        draws(a@, k) == draws(b@, k),
        draws(a@, k) == draws(seed_state(seed), k),
        draws(a@, k).len() == k,
        forall|i: int|
            0 <= i < k ==> draws(a@, k)[i] == state_after(seed_state(seed), (i + 1) as nat),
{
}

/// A generator made from seed zero and one made from the substitute
/// constant give the same sequence.
pub proof fn law_zero_seed_matches_substitute(k: nat)
    ensures
        seed_state(0) == seed_state(ZERO_SEED_SUBSTITUTE),
        draws(seed_state(0), k) == draws(seed_state(ZERO_SEED_SUBSTITUTE), k),
{
}

} // verus!
