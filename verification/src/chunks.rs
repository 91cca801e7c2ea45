//! How an iteration range is cut into chunks.
//!
//! Chunks are a seam for observing progress: a workload of `n` iterations
//! runs as consecutive chunks of `chunk_size` iterations, the last one
//! possibly shorter. Nothing a kernel computes depends on where the cuts are.

use vstd::prelude::*;

verus! {

/// The number of chunks that `n` iterations are cut into: `n / chunk_size`
/// rounded up, and zero where `chunk_size` is zero.
pub open spec fn chunk_count(n: u64, chunk_size: u64) -> nat {
    if chunk_size == 0 {
        0
    } else {
        ((n + chunk_size - 1) / (chunk_size as int)) as nat
    }
}

/// The iterations that are actually run: none where `chunk_size` is zero.
pub open spec fn iterations_run(n: u64, chunk_size: u64) -> u64 {
    if chunk_size == 0 {
        0
    } else {
        n
    }
}

/// The iterations that lie in the first `k` chunks.
pub open spec fn done_after_chunks(n: u64, chunk_size: u64, k: nat) -> nat {
    if k * chunk_size <= n {
        (k * chunk_size) as nat
    } else {
        n as nat
    }
}

/// The length of the chunk that starts after `done` iterations.
pub open spec fn chunk_len(n: u64, chunk_size: u64, done: u64) -> u64 {
    if n - done < chunk_size {
        (n - done) as u64
    } else {
        chunk_size
    }
}

/// The iteration count that is run for a nominal count `n`: `n` capped at
/// `chunk_size * max_chunks`, so that no workload has more than `max_chunks`
/// chunks.
pub open spec fn effective_iterations(n: u64, chunk_size: u64, max_chunks: u64) -> u64 {
    if n < chunk_size * max_chunks {
        n
    } else {
        (chunk_size * max_chunks) as u64
    }
}

/// One if `b` holds, else zero.
pub open spec fn one_if(b: bool) -> nat {
    if b {
        1
    } else {
        0
    }
}

/// `chunk_count` as a quotient and a remainder, which cannot overflow.
pub proof fn lemma_chunk_count_div(n: u64, chunk_size: u64)
    requires
        chunk_size > 0,
    ensures
        chunk_count(n, chunk_size) == n / chunk_size + one_if(n % chunk_size != 0),
{
    let c = chunk_size as int;
    let q = n as int / c;
    let r = n as int % c;
    assert(n == q * c + r && 0 <= r < c) by (nonlinear_arith)
        requires
            c > 0,
            q == n as int / c,
            r == n as int % c,
    ;
    if r == 0 {
        assert((q * c + c - 1) / c == q) by (nonlinear_arith)
            requires
                c > 0,
        ;
    } else {
        assert((q * c + r + c - 1) / c == q + 1) by (nonlinear_arith)
            requires
                c > 0,
                0 < r < c,
        ;
    }
}

/// The first `k` chunks cover fewer than `n` iterations exactly when `k` is
/// less than the chunk count; all chunks together cover `n`.
pub proof fn lemma_chunks_cover(n: u64, chunk_size: u64, k: nat)
    requires
        chunk_size > 0,
    ensures
        k < chunk_count(n, chunk_size) <==> done_after_chunks(n, chunk_size, k) < n,
        k >= chunk_count(n, chunk_size) ==> done_after_chunks(n, chunk_size, k) == n,
        done_after_chunks(n, chunk_size, k) <= n,
        done_after_chunks(n, chunk_size, 0) == 0,
        k < chunk_count(n, chunk_size) ==> done_after_chunks(n, chunk_size, k + 1)
            == done_after_chunks(n, chunk_size, k) + chunk_len(
            n,
            chunk_size,
            done_after_chunks(n, chunk_size, k) as u64,
        ),
        k < chunk_count(n, chunk_size) ==> chunk_len(
            n,
            chunk_size,
            done_after_chunks(n, chunk_size, k) as u64,
        ) > 0,
{
    lemma_chunk_count_div(n, chunk_size);
    let c = chunk_size as int;
    let q = n as int / c;
    let r = n as int % c;
    let t = chunk_count(n, chunk_size) as int;
    assert(n == q * c + r && 0 <= r < c) by (nonlinear_arith)
        requires
            c > 0,
            q == n as int / c,
            r == n as int % c,
    ;
    assert(k < t <==> k * c < n) by (nonlinear_arith)
        requires
            c > 0,
            n == q * c + r,
            0 <= r < c,
            t == q + one_if(r != 0),
    ;
    assert((k + 1) * c == k * c + c) by (nonlinear_arith);
    assert(0 * c == 0);
}

/// What [`lemma_chunks_cover`] says, also for a chunk size of zero, where
/// there are no chunks.
pub proof fn lemma_chunks_cover_any(n: u64, chunk_size: u64, k: nat)
    ensures
        done_after_chunks(n, chunk_size, k) <= n,
        k < chunk_count(n, chunk_size) ==> done_after_chunks(n, chunk_size, k) < n
            && done_after_chunks(n, chunk_size, k + 1) == done_after_chunks(n, chunk_size, k)
            + chunk_len(n, chunk_size, done_after_chunks(n, chunk_size, k) as u64),
        k >= chunk_count(n, chunk_size) ==> done_after_chunks(n, chunk_size, k) == iterations_run(
            n,
            chunk_size,
        ),
{
    if chunk_size > 0 {
        lemma_chunks_cover(n, chunk_size, k);
    } else {
        assert(k * chunk_size == 0);
    }
}

/// The number of chunks that `n` iterations are cut into.
pub fn chunk_total(n: u64, chunk_size: u64) -> (total: usize)
    requires
        chunk_count(n, chunk_size) <= usize::MAX,
    ensures
        total == chunk_count(n, chunk_size),
{
    if chunk_size == 0 {
        return 0;
    }
    proof {
        lemma_chunk_count_div(n, chunk_size);
    }
    let q: u64 = n / chunk_size;
    if n % chunk_size == 0 {
        q as usize
    } else {
        (q + 1) as usize
    }
}

/// The length of the chunk that starts after `done` of `n` iterations.
pub fn next_chunk_len(n: u64, chunk_size: u64, done: u64) -> (len: u64)
    requires
        done <= n,
    ensures
        len == chunk_len(n, chunk_size, done),
        done + len <= n,
{
    if n - done < chunk_size {
        n - done
    } else {
        chunk_size
    }
}

/// The iteration count that is run for a nominal count `n`.
pub fn effective_n(n: u64, chunk_size: u64, max_chunks: u64) -> (effective: u64)
    ensures
        effective == effective_iterations(n, chunk_size, max_chunks),
        effective <= n,
        chunk_count(effective, chunk_size) <= max_chunks,
{
    proof {
        lemma_effective_chunks(n, chunk_size, max_chunks);
    }
    match chunk_size.checked_mul(max_chunks) {
        Some(cap) => if n < cap {
            n
        } else {
            cap
        },
        None => n,
    }
}

/// Capping the iteration count caps the chunk count.
pub proof fn lemma_effective_chunks(n: u64, chunk_size: u64, max_chunks: u64)
    ensures
        effective_iterations(n, chunk_size, max_chunks) <= n,
        chunk_count(effective_iterations(n, chunk_size, max_chunks), chunk_size) <= max_chunks,
{
    let e = effective_iterations(n, chunk_size, max_chunks);
    if chunk_size > 0 {
        let c = chunk_size as int;
        let m = max_chunks as int;
        assert(e <= c * m);
        assert((e + c - 1) / c <= m) by (nonlinear_arith)
            requires
                c > 0,
                0 <= e <= c * m,
        ;
    }
}

} // verus!
