//! The runner of one workload: warm-up repetitions, then measured ones.
//!
//! [`BenchRun`] does the work one progress event at a time: each call of
//! [`BenchRun::next_event`] runs what lies before the next event and returns
//! that event. [`run_bench`] drives a run to its end and hands every event to
//! an observer.

use vstd::prelude::*;
use vstd::arithmetic::div_mod::lemma_fundamental_div_mod_converse;
use std::time::Duration;
use std::time::Instant;
use crate::chunks::{
    chunk_count,
    chunk_total,
    done_after_chunks,
    iterations_run,
    lemma_chunks_cover_any,
    next_chunk_len,
};
use crate::kernels::Kernel;
use crate::observer::Observer;
use crate::progress::{BenchPhase, BenchStepStatus, ProgressUpdate, RunPlan, RunState};

verus! {

/// `std::time::Instant`, a reading of the monotonic clock. Nothing is known
/// of what a value holds.
#[verifier::external_type_specification]
#[verifier::external_body]
pub struct ExInstant(Instant);

/// `Instant::now`: a reading of the monotonic clock. Nothing is claimed of
/// the reading.
#[verifier::external_body]
fn clock_now() -> Instant {
    Instant::now()
}

/// `Instant::elapsed`: the time that has passed since the reading `start`.
/// Nothing is claimed of it.
#[verifier::external_body]
fn clock_elapsed(start: &Instant) -> Duration {
    start.elapsed()
}

/// `Duration::as_nanos`: the duration in whole nanoseconds. Nothing is
/// claimed of the number.
#[verifier::external_body]
fn duration_nanos(d: &Duration) -> u128 {
    d.as_nanos()
}

/// The nanoseconds that have passed since `start`, capped at `u64::MAX`.
fn elapsed_nanos(start: &Instant) -> u64 {
    let d = clock_elapsed(start);
    sample_from_nanos(duration_nanos(&d))
}

/// A count of nanoseconds as a timing sample: the count itself where it
/// fits in 64 bits, the largest sample where it does not.
pub open spec fn sample_of(nanos: u128) -> u64 {
    if nanos > u64::MAX {
        u64::MAX
    } else {
        nanos as u64
    }
}

/// A count of nanoseconds as a timing sample, capped at `u64::MAX`.
pub fn sample_from_nanos(nanos: u128) -> (sample: u64)
    ensures
        sample == sample_of(nanos),
{
    if nanos > u64::MAX as u128 {
        u64::MAX
    } else {
        nanos as u64
    }
}

/// The run of one workload, stopped between two progress events.
pub struct BenchRun<K> {
    plan: RunPlan,
    iterations: u64,
    chunk_size: u64,
    kernel: K,
    /// Repetitions that have finished.
    rep: usize,
    /// Whether the current repetition's "started" event has been emitted.
    running: bool,
    /// Chunks of the current repetition that have run.
    chunks_done: usize,
    /// Iterations of the current repetition that have run.
    done: u64,
    /// The clock reading at the start of the current measured repetition.
    started: Instant,
    /// The measured times so far, in nanoseconds.
    times: Vec<u64>,
    /// The digest of the last finished repetition.
    last: u64,
}

impl<K: Kernel> BenchRun<K> {
    /// The shape of the run.
    pub closed spec fn plan(&self) -> RunPlan {
        self.plan
    }

    /// The iterations of one repetition, before chunking.
    pub closed spec fn iterations(&self) -> u64 {
        self.iterations
    }

    /// The chunk size.
    pub closed spec fn chunk_size(&self) -> u64 {
        self.chunk_size
    }

    /// The workload that the kernel runs.
    pub closed spec fn workload(&self) -> K::Workload {
        self.kernel.workload()
    }

    /// The iterations that the kernel has run since it was last restarted.
    pub closed spec fn iterations_done(&self) -> nat {
        self.kernel.done()
    }

    /// The repetitions that have finished.
    pub closed spec fn repetitions_done(&self) -> nat {
        self.rep as nat
    }

    /// The events of the current repetition that have been emitted.
    pub closed spec fn position(&self) -> nat {
        if self.running {
            (self.chunks_done + 1) as nat
        } else {
            0
        }
    }

    /// The events that have been emitted.
    pub open spec fn emitted(&self) -> nat {
        self.repetitions_done() * self.plan().events_per_repetition() + self.position()
    }

    /// Whether every event has been emitted.
    pub open spec fn is_done(&self) -> bool {
        self.repetitions_done() == self.plan().repetitions()
    }

    /// The repetitions completed so far, over all workloads.
    pub open spec fn completed_steps(&self) -> nat {
        self.plan().first_step as nat + self.repetitions_done()
    }

    /// The measured times so far, in nanoseconds.
    pub closed spec fn times(&self) -> Seq<u64> {
        self.times@
    }

    /// The digest of the last finished repetition; zero before the first.
    pub closed spec fn last_digest(&self) -> u64 {
        self.last
    }

    /// The measured repetitions among the first `rep` repetitions.
    pub open spec fn measured_among(plan: RunPlan, rep: nat) -> nat {
        if rep <= plan.warmup {
            0
        } else {
            (rep - plan.warmup) as nat
        }
    }

    /// The run's invariant.
    pub closed spec fn wf(&self) -> bool {
        &&& self.kernel.wf()
        &&& self.plan.fits()
        &&& self.plan.chunk_total == chunk_count(self.iterations, self.chunk_size)
        &&& self.rep <= self.plan.repetitions()
        &&& self.rep == self.plan.repetitions() ==> !self.running
        &&& self.chunks_done <= self.plan.chunk_total
        &&& !self.running ==> self.chunks_done == 0
        &&& self.chunks_done == 0 ==> self.done == 0
        &&& self.chunks_done >= 1 ==> self.kernel.done() == self.done
        &&& self.done == done_after_chunks(
            self.iterations,
            self.chunk_size,
            self.chunks_done as nat,
        )
        &&& self.times@.len() == Self::measured_among(self.plan, self.rep as nat)
        &&& self.rep == 0 ==> self.last == 0
        &&& self.rep > 0 ==> K::is_digest(
            self.kernel.workload(),
            iterations_run(self.iterations, self.chunk_size) as nat,
            self.last,
        )
    }

    /// A run of `warmup` warm-up and `repeats` measured repetitions of
    /// `kernel`, each of `iterations` iterations in chunks of `chunk_size`.
    /// `completed_steps` repetitions of `total_steps` have been completed
    /// before.
    pub fn new(
        name: &'static str,
        warmup: usize,
        repeats: usize,
        iterations: u64,
        chunk_size: u64,
        kernel: K,
        completed_steps: usize,
        total_steps: usize,
    ) -> (run: Self)
        requires
            kernel.wf(),
            chunk_count(iterations, chunk_size) <= usize::MAX,
            completed_steps + warmup + repeats <= usize::MAX,
        ensures
            run.wf(),
            run.plan() == (RunPlan {
                bench_id: name,
                warmup,
                repeats,
                chunk_total: chunk_count(iterations, chunk_size) as usize,
                first_step: completed_steps,
                total_steps,
            }),
            run.iterations() == iterations,
            run.chunk_size() == chunk_size,
            run.workload() == kernel.workload(),
            run.repetitions_done() == 0,
            run.position() == 0,
            run.times().len() == 0,
    {
        let plan = RunPlan {
            bench_id: name,
            warmup,
            repeats,
            chunk_total: chunk_total(iterations, chunk_size),
            first_step: completed_steps,
            total_steps,
        };
        proof {
            assert(0 * chunk_size == 0);
        }
        BenchRun {
            plan,
            iterations,
            chunk_size,
            kernel,
            rep: 0,
            running: false,
            chunks_done: 0,
            done: 0,
            started: clock_now(),
            times: Vec::new(),
            last: 0,
        }
    }

    /// Runs what lies before the next progress event and returns that event,
    /// or `None` once every event has been emitted.
    ///
    /// Before a "chunk" event the chunk is run, so that with the event for
    /// chunk `k` the kernel has run the first `k` chunks. A measured
    /// repetition is timed from the first call after its "started" event to
    /// the call that returns its "finished" event.
    pub fn next_event(&mut self) -> (event: Option<ProgressUpdate>)
        requires
            old(self).wf(),
        ensures
            final(self).wf(),
            final(self).plan() == old(self).plan(),
            final(self).iterations() == old(self).iterations(),
            final(self).chunk_size() == old(self).chunk_size(),
            final(self).workload() == old(self).workload(),
            old(self).emitted() <= old(self).plan().event_count(),
            event is None <==> old(self).is_done(),
            event is None ==> final(self).repetitions_done() == old(self).repetitions_done(),
            event is None ==> final(self).position() == old(self).position(),
            event is None ==> final(self).times() == old(self).times(),
            event is None ==> final(self).last_digest() == old(self).last_digest(),
            event matches Some(update) ==> ({
                let plan = old(self).plan();
                let rep = old(self).repetitions_done();
                let pos = old(self).position();
                let finished = update.status == BenchStepStatus::Finished;
                let timed = finished && update.phase == BenchPhase::Measure;
                &&& update == plan.event_at(rep, pos)
                &&& update == plan.events()[old(self).emitted() as int]
                &&& final(self).emitted() == old(self).emitted() + 1
                &&& finished <==> pos == plan.chunk_total + 1
                &&& pos >= 1 ==> final(self).iterations_done() == done_after_chunks(
                    old(self).iterations(),
                    old(self).chunk_size(),
                    update.chunk_index as nat,
                )
                &&& finished ==> final(self).repetitions_done() == rep + 1
                &&& finished ==> final(self).position() == 0
                &&& finished ==> K::is_digest(
                    old(self).workload(),
                    iterations_run(old(self).iterations(), old(self).chunk_size()) as nat,
                    final(self).last_digest(),
                )
                &&& !finished ==> final(self).repetitions_done() == rep
                &&& !finished ==> final(self).position() == pos + 1
                &&& !finished ==> final(self).last_digest() == old(self).last_digest()
                &&& timed ==> final(self).times().len() == old(self).times().len() + 1
                &&& timed ==> final(self).times().drop_last() == old(self).times()
                &&& !timed ==> final(self).times() == old(self).times()
            }),
    {
        proof {
            self.lemma_emitted();
        }
        let warmup = self.plan.warmup;
        let repeats = self.plan.repeats;
        let chunk_total = self.plan.chunk_total;
        if self.rep >= warmup + repeats {
            return None;
        }
        let warming = self.rep < warmup;
        let phase = if warming {
            BenchPhase::Warmup
        } else {
            BenchPhase::Measure
        };
        let index: usize = if warming {
            self.rep + 1
        } else {
            self.rep - warmup + 1
        };
        let total: usize = if warming {
            warmup
        } else {
            repeats
        };
        if !self.running {
            self.running = true;
            proof {
                self.lemma_emitted();
            }
            return Some(
                ProgressUpdate {
                    bench_id: self.plan.bench_id,
                    phase,
                    index,
                    total,
                    completed_steps: self.plan.first_step + self.rep,
                    total_steps: self.plan.total_steps,
                    status: BenchStepStatus::Started,
                    chunk_index: 0,
                    chunk_total,
                },
            );
        }
        if self.chunks_done == 0 {
            if !warming {
                self.started = clock_now();
            }
            self.kernel.restart();
        }
        proof {
            lemma_chunks_cover_any(self.iterations, self.chunk_size, self.chunks_done as nat);
        }
        if self.chunks_done < chunk_total {
            let len = next_chunk_len(self.iterations, self.chunk_size, self.done);
            self.kernel.advance(len);
            self.done = self.done + len;
            self.chunks_done = self.chunks_done + 1;
            proof {
                self.lemma_emitted();
            }
            return Some(
                ProgressUpdate {
                    bench_id: self.plan.bench_id,
                    phase,
                    index,
                    total,
                    completed_steps: self.plan.first_step + self.rep,
                    total_steps: self.plan.total_steps,
                    status: BenchStepStatus::Chunk,
                    chunk_index: self.chunks_done,
                    chunk_total,
                },
            );
        }
        self.last = std::hint::black_box(self.kernel.digest());
        if !warming {
            let elapsed = elapsed_nanos(&self.started);
            self.times.push(elapsed);
        }
        self.rep = self.rep + 1;
        self.running = false;
        self.chunks_done = 0;
        self.done = 0;
        proof {
            assert(0 * self.chunk_size == 0);
            self.lemma_emitted();
            let per = self.plan.events_per_repetition() as int;
            let r = old(self).rep as int;
            assert((r + 1) * per == r * per + per) by (nonlinear_arith);
        }
        Some(
            ProgressUpdate {
                bench_id: self.plan.bench_id,
                phase,
                index,
                total,
                completed_steps: self.plan.first_step + self.rep,
                total_steps: self.plan.total_steps,
                status: BenchStepStatus::Finished,
                chunk_index: chunk_total,
                chunk_total,
            },
        )
    }

    /// The count of emitted events splits into finished repetitions and a
    /// position within the current one.
    proof fn lemma_emitted(&self)
        requires
            self.rep <= self.plan.repetitions(),
            self.chunks_done <= self.plan.chunk_total,
            self.rep == self.plan.repetitions() ==> !self.running,
        ensures
            self.emitted() <= self.plan.event_count(),
            self.rep < self.plan.repetitions() ==> self.plan.event(self.emitted())
                == self.plan.event_at(self.rep as nat, self.position()) && self.emitted()
                < self.plan.event_count(),
            self.plan.state_after(self.emitted()) == self.plan.state_at(
                self.rep as nat,
                self.position(),
            ),
    {
        let per = self.plan.events_per_repetition() as int;
        let r = self.rep as int;
        let p = self.position() as int;
        let reps = self.plan.repetitions() as int;
        lemma_fundamental_div_mod_converse(r * per + p, per, r, p);
        if r < reps {
            assert(r * per + p < reps * per) by (nonlinear_arith)
                requires
                    r < reps,
                    0 <= p < per,
            ;
        }
    }

    /// What the invariant says of a run, in terms of what can be seen of
    /// it.
    pub proof fn lemma_invariant(&self)
        requires
            self.wf(),
        ensures
            self.plan().fits(),
            self.plan().chunk_total == chunk_count(self.iterations(), self.chunk_size()),
            self.repetitions_done() <= self.plan().repetitions(),
            self.position() <= self.plan().chunk_total + 1,
            self.is_done() ==> self.position() == 0,
            self.emitted() <= self.plan().event_count(),
            self.is_done() <==> self.emitted() == self.plan().event_count(),
            self.times().len() == Self::measured_among(self.plan(), self.repetitions_done()),
            self.repetitions_done() == 0 ==> self.last_digest() == 0,
            self.repetitions_done() > 0 ==> K::is_digest(
                self.workload(),
                iterations_run(self.iterations(), self.chunk_size()) as nat,
                self.last_digest(),
            ),
    {
        self.lemma_emitted();
    }

    /// Where the run stands.
    pub fn state(&self) -> (state: RunState)
        requires
            self.wf(),
        ensures
            state == self.plan().state_at(self.repetitions_done(), self.position()),
            state == self.plan().state_after(self.emitted()),
    {
        proof {
            self.lemma_emitted();
        }
        if self.rep >= self.plan.warmup + self.plan.repeats {
            RunState::Done
        } else if self.rep == 0 && !self.running {
            RunState::Idle
        } else if self.rep < self.plan.warmup {
            RunState::WarmingUp
        } else {
            RunState::Measuring
        }
    }

    /// The repetitions completed so far, over all workloads.
    pub fn steps_completed(&self) -> (steps: usize)
        requires
            self.wf(),
        ensures
            steps == self.completed_steps(),
    {
        self.plan.first_step + self.rep
    }

    /// Ends a run whose events have all been emitted: the digest of the last
    /// repetition, and the measured times in nanoseconds, one per measured
    /// repetition and in the order in which they were taken.
    pub fn finish(self) -> (out: (u64, Vec<u64>))
        requires
            self.wf(),
            self.is_done(),
        ensures
            out.0 == self.last_digest(),
            out.1@ == self.times(),
            out.1@.len() == self.plan().repeats,
            self.plan().repetitions() == 0 ==> out.0 == 0,
            self.plan().repetitions() > 0 ==> K::is_digest(
                self.workload(),
                iterations_run(self.iterations(), self.chunk_size()) as nat,
                out.0,
            ),
    {
        (self.last, self.times)
    }
}

/// Runs one workload to its end: `warmup` warm-up repetitions, then
/// `repeats` measured ones, of `kernel` over `iterations` iterations in
/// chunks of `chunk_size`. `progress` receives every progress event, in
/// order, as soon as the work before it is done. `completed_steps` goes up by
/// one with each repetition.
///
/// Returns the digest of the last repetition (zero if there was none) and
/// the measured times in nanoseconds.
pub fn run_bench<K: Kernel, O: Observer<ProgressUpdate>>(
    name: &'static str,
    warmup: usize,
    repeats: usize,
    iterations: u64,
    chunk_size: u64,
    kernel: K,
    progress: &mut O,
    completed_steps: &mut usize,
    total_steps: usize,
) -> (out: (u64, Vec<u64>))
    requires
        kernel.wf(),
        old(progress).wf(),
        chunk_count(iterations, chunk_size) <= usize::MAX,
        *old(completed_steps) + warmup + repeats <= usize::MAX,
    ensures
        final(progress).wf(),
        final(progress).seen() == old(progress).seen() + (RunPlan {
            bench_id: name,
            warmup,
            repeats,
            chunk_total: chunk_count(iterations, chunk_size) as usize,
            first_step: *old(completed_steps),
            total_steps,
        }).events(),
        *final(completed_steps) == *old(completed_steps) + warmup + repeats,
        out.1@.len() == repeats,
        warmup + repeats == 0 ==> out.0 == 0,
        warmup + repeats > 0 ==> K::is_digest(
            kernel.workload(),
            iterations_run(iterations, chunk_size) as nat,
            out.0,
        ),
{
    let mut run = BenchRun::new(
        name,
        warmup,
        repeats,
        iterations,
        chunk_size,
        kernel,
        *completed_steps,
        total_steps,
    );
    let ghost plan = run.plan();
    assert(progress.seen() =~= old(progress).seen() + plan.events().take(0));
    loop
        invariant
            run.wf(),
            run.plan() == plan,
            run.iterations() == iterations,
            run.chunk_size() == chunk_size,
            run.workload() == kernel.workload(),
            run.emitted() <= plan.event_count(),
            progress.wf(),
            progress.seen() == old(progress).seen() + plan.events().take(run.emitted() as int),
        ensures
            run.wf(),
            run.is_done(),
            run.plan() == plan,
            run.iterations() == iterations,
            run.chunk_size() == chunk_size,
            run.workload() == kernel.workload(),
            progress.wf(),
            progress.seen() == old(progress).seen() + plan.events(),
        decreases plan.event_count() - run.emitted(),
    {
        let ghost emitted = run.emitted();
        let event = run.next_event();
        proof {
            run.lemma_invariant();
        }
        match event {
            Some(update) => {
                progress.notify(update);
                assert(plan.events().take(emitted + 1int) =~= plan.events().take(
                    emitted as int,
                ).push(update));
            },
            None => {
                assert(plan.events().take(emitted as int) =~= plan.events());
                break ;
            },
        }
    }
    *completed_steps = run.steps_completed();
    run.finish()
}

} // verus!
