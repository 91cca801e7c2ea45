//! Progress events, and the order in which a workload emits them.
//!
//! A workload is a number of warm-up repetitions followed by a number of
//! measured ones. Every repetition emits a "started" event, one "chunk"
//! event after each chunk of the kernel, and a "finished" event. A counter of
//! completed steps runs through all workloads of a benchmark; it goes up by
//! one with each "finished" event.

use vstd::prelude::*;
use crate::chunks::one_if;
use vstd::arithmetic::div_mod::{
    lemma_div_is_ordered,
    lemma_fundamental_div_mod,
    lemma_fundamental_div_mod_converse,
    lemma_mod_bound,
};

verus! {

/// Whether a repetition is timed.
#[derive(Clone, Copy, Debug, PartialEq, Eq, Structural)]
pub enum BenchPhase {
    /// The repetition only warms the machine up.
    Warmup,
    /// The repetition is timed.
    Measure,
}

/// What a progress event reports.
#[derive(Clone, Copy, Debug, PartialEq, Eq, Structural)]
pub enum BenchStepStatus {
    /// A repetition is about to run.
    Started,
    /// A repetition has run.
    Finished,
    /// A chunk of the running repetition has run.
    Chunk,
}

/// One progress event.
#[derive(Clone, Copy, Debug)]
pub struct ProgressUpdate {
    /// The workload's tag.
    pub bench_id: &'static str,
    /// The phase of the repetition.
    pub phase: BenchPhase,
    /// The repetition's number within its phase, counted from one.
    pub index: usize,
    /// The number of repetitions in the phase.
    pub total: usize,
    /// The repetitions completed so far, over all workloads.
    pub completed_steps: usize,
    /// The repetitions of the whole benchmark.
    pub total_steps: usize,
    /// What the event reports.
    pub status: BenchStepStatus,
    /// The chunks of this repetition that have run.
    pub chunk_index: usize,
    /// The chunks of a repetition.
    pub chunk_total: usize,
}

/// Where the run of a workload stands.
#[derive(Clone, Copy, Debug, PartialEq, Eq, Structural)]
pub enum RunState {
    /// Nothing has been emitted yet.
    Idle,
    /// A warm-up repetition is next or under way.
    WarmingUp,
    /// A measured repetition is next or under way.
    Measuring,
    /// Every repetition has finished.
    Done,
}

impl RunState {
    /// The state's place in the order in which a run passes through them.
    pub open spec fn rank(self) -> nat {
        match self {
            RunState::Idle => 0,
            RunState::WarmingUp => 1,
            RunState::Measuring => 2,
            RunState::Done => 3,
        }
    }
}

/// The shape of one workload's run: everything its events depend on.
pub struct RunPlan {
    /// The workload's tag.
    pub bench_id: &'static str,
    /// The number of warm-up repetitions.
    pub warmup: usize,
    /// The number of measured repetitions.
    pub repeats: usize,
    /// The chunks of a repetition.
    pub chunk_total: usize,
    /// The repetitions completed before this workload starts.
    pub first_step: usize,
    /// The repetitions of the whole benchmark.
    pub total_steps: usize,
}

impl RunPlan {
    /// The repetitions of the workload, warm-up and measured.
    pub open spec fn repetitions(self) -> nat {
        (self.warmup + self.repeats) as nat
    }

    /// The events of one repetition: "started", one per chunk, "finished".
    pub open spec fn events_per_repetition(self) -> nat {
        (self.chunk_total + 2) as nat
    }

    /// The events of the workload.
    pub open spec fn event_count(self) -> nat {
        self.repetitions() * self.events_per_repetition()
    }

    /// Whether the counters of every event fit their fields.
    pub open spec fn fits(self) -> bool {
        self.first_step + self.warmup + self.repeats <= usize::MAX
    }

    /// The phase of repetition `rep`, counted from zero over the workload.
    pub open spec fn phase_of(self, rep: nat) -> BenchPhase {
        if rep < self.warmup {
            BenchPhase::Warmup
        } else {
            BenchPhase::Measure
        }
    }

    /// The event at position `pos` of repetition `rep`, both counted from
    /// zero. Position zero is "started", position `chunk_total + 1` is
    /// "finished", and position `k` between them is the event after chunk
    /// `k`.
    pub open spec fn event_at(self, rep: nat, pos: nat) -> ProgressUpdate {
        let warming = rep < self.warmup;
        let finished = pos == self.chunk_total + 1;
        ProgressUpdate {
            bench_id: self.bench_id,
            phase: self.phase_of(rep),
            index: (if warming {
                rep + 1int
            } else {
                rep - self.warmup + 1int
            }) as usize,
            total: if warming {
                self.warmup
            } else {
                self.repeats
            },
            completed_steps: (self.first_step + rep + one_if(finished)) as usize,
            total_steps: self.total_steps,
            status: if pos == 0 {
                BenchStepStatus::Started
            } else if finished {
                BenchStepStatus::Finished
            } else {
                BenchStepStatus::Chunk
            },
            chunk_index: if finished {
                self.chunk_total
            } else {
                pos as usize
            },
            chunk_total: self.chunk_total,
        }
    }

    /// The `j`-th event of the workload, counted from zero.
    pub open spec fn event(self, j: nat) -> ProgressUpdate {
        self.event_at(j / self.events_per_repetition(), j % self.events_per_repetition())
    }

    /// Where the run stands when `rep` repetitions have finished and `pos`
    /// events of the next one have been emitted. A run without repetitions
    /// is done from the start; a run without warm-up goes from idle straight
    /// to measuring.
    pub open spec fn state_at(self, rep: nat, pos: nat) -> RunState {
        if rep >= self.repetitions() {
            RunState::Done
        } else if rep == 0 && pos == 0 {
            RunState::Idle
        } else if rep < self.warmup {
            RunState::WarmingUp
        } else {
            RunState::Measuring
        }
    }

    /// Where the run stands after `emitted` events.
    pub open spec fn state_after(self, emitted: nat) -> RunState {
        self.state_at(
            emitted / self.events_per_repetition(),
            emitted % self.events_per_repetition(),
        )
    }

    /// The events of the workload, in the order in which they are emitted.
    pub open spec fn events(self) -> Seq<ProgressUpdate> {
        Seq::new(self.event_count(), |j: int| self.event(j as nat))
    }
}

/// How many of the events in `events` have the status `status`.
pub open spec fn count_status(events: Seq<ProgressUpdate>, status: BenchStepStatus) -> nat
    decreases events.len(),
{
    if events.len() == 0 {
        0
    } else {
        count_status(events.drop_last(), status) + one_if(events.last().status == status)
    }
}

/// Where event `j` lies: in which repetition, and at which position.
proof fn lemma_event_place(plan: RunPlan, j: nat)
    ensures
        j == (j / plan.events_per_repetition()) * plan.events_per_repetition() + j
            % plan.events_per_repetition(),
        0 <= j % plan.events_per_repetition() < plan.events_per_repetition(),
        j < plan.event_count() ==> j / plan.events_per_repetition() < plan.repetitions(),
        0 <= j / plan.events_per_repetition(),
{
    let per = plan.events_per_repetition() as int;
    let q = j as int / per;
    let r = j as int % per;
    lemma_fundamental_div_mod(j as int, per);
    lemma_mod_bound(j as int, per);
    assert(per * q == q * per) by (nonlinear_arith);
    let reps = plan.repetitions() as int;
    if j < plan.event_count() {
        assert(q < reps) by (nonlinear_arith)
            requires
                q * per + r < reps * per,
                0 <= r < per,
                per > 0,
        ;
    }
    assert(0 <= q) by (nonlinear_arith)
        requires
            j == q * per + r,
            0 <= r < per,
            j >= 0,
            per > 0,
    ;
}

/// The event after event `j` is the next position of the same repetition,
/// or the start of the next repetition.
proof fn lemma_event_successor(plan: RunPlan, j: nat)
    ensures
        ({
            let per = plan.events_per_repetition();
            if j % per + 1 < per {
                (j + 1) / per == j / per && (j + 1) % per == j % per + 1
            } else {
                (j + 1) / per == j / per + 1 && (j + 1) % per == 0
            }
        }),
{
    let per = plan.events_per_repetition() as int;
    let q = j as int / per;
    let r = j as int % per;
    lemma_event_place(plan, j);
    if r + 1 < per {
        lemma_fundamental_div_mod_converse(j + 1int, per, q, r + 1);
    } else {
        assert((q + 1) * per == q * per + per) by (nonlinear_arith);
        lemma_fundamental_div_mod_converse(j + 1int, per, q + 1, 0);
    }
}

/// A run never goes back: from idle through warming up and measuring to
/// done, skipping what it has no repetitions for. It is done exactly when
/// all its events have been emitted.
pub proof fn law_states_only_advance(plan: RunPlan, earlier: nat, later: nat)
    requires
        earlier <= later,
    ensures
        plan.state_after(earlier).rank() <= plan.state_after(later).rank(),
        plan.state_after(later) == RunState::Done <==> later >= plan.event_count(),
        plan.state_after(later) == RunState::Idle <==> later == 0 && plan.repetitions() > 0,
{
    let per = plan.events_per_repetition() as int;
    let reps = plan.repetitions() as int;
    lemma_event_place(plan, earlier);
    lemma_event_place(plan, later);
    lemma_div_is_ordered(earlier as int, later as int, per);
    let q = later as int / per;
    let r = later as int % per;
    if q >= reps {
        assert(q * per >= reps * per) by (nonlinear_arith)
            requires
                q >= reps,
                per > 0,
        ;
    } else {
        assert(q * per + r < reps * per) by (nonlinear_arith)
            requires
                q < reps,
                0 <= r < per,
        ;
    }
    let q0 = earlier as int / per;
    if earlier > 0 && q0 == 0 {
        assert(q0 * per == 0) by (nonlinear_arith)
            requires
                q0 == 0,
        ;
        assert(earlier as int % per != 0);
    }
    if later > 0 && q == 0 {
        assert(q * per == 0) by (nonlinear_arith)
            requires
                q == 0,
        ;
        assert(r != 0);
    }
}

/// A workload emits two events for each repetition, "started" and
/// "finished", and between them one event for each chunk, numbered from one.
pub proof fn law_events_by_repetition(plan: RunPlan, rep: nat, pos: nat)
    requires
        rep < plan.repetitions(),
        pos < plan.events_per_repetition(),
    ensures
        plan.events().len() == 2 * plan.repetitions() + plan.repetitions() * plan.chunk_total,
        rep * plan.events_per_repetition() + pos < plan.events().len(),
        plan.events()[(rep * plan.events_per_repetition() + pos) as int] == plan.event_at(rep, pos),
        pos == 0 <==> plan.event_at(rep, pos).status == BenchStepStatus::Started,
        pos == plan.chunk_total + 1 <==> plan.event_at(rep, pos).status
            == BenchStepStatus::Finished,
        1 <= pos <= plan.chunk_total <==> plan.event_at(rep, pos).status == BenchStepStatus::Chunk,
        1 <= pos <= plan.chunk_total ==> plan.event_at(rep, pos).chunk_index == pos,
        plan.event_at(rep, pos).chunk_total == plan.chunk_total,
{
    let per = plan.events_per_repetition() as int;
    let reps = plan.repetitions() as int;
    let t = plan.chunk_total as int;
    assert(reps * per == 2 * reps + reps * t) by (nonlinear_arith)
        requires
            per == t + 2,
    ;
    assert(rep * per + pos < reps * per) by (nonlinear_arith)
        requires
            0 <= rep < reps,
            0 <= pos < per,
    ;
    lemma_fundamental_div_mod_converse(rep * per + pos, per, rep as int, pos as int);
}

/// The counter of completed steps starts at the plan's first step, goes up
/// by one with each "finished" event and stays put with every other event.
pub proof fn law_completed_steps_count_finished(plan: RunPlan, j: nat)
    requires
        plan.fits(),
        j < plan.events().len(),
    ensures
        plan.events()[0].completed_steps == plan.first_step,
        plan.events()[0].status == BenchStepStatus::Started,
        j + 1 < plan.events().len() ==> plan.events()[j + 1int].completed_steps
            == plan.events()[j as int].completed_steps + one_if(
            plan.events()[j + 1int].status == BenchStepStatus::Finished,
        ),
        plan.events()[j as int].completed_steps == plan.first_step + count_status(
            plan.events().take(j + 1int),
            BenchStepStatus::Finished,
        ),
{
    let per = plan.events_per_repetition() as int;
    let t = plan.chunk_total as int;
    let events = plan.events();
    // The first event.
    lemma_fundamental_div_mod_converse(0, per, 0, 0);
    assert(events[0] == plan.event_at(0, 0));
    // Event `j`, and the count of "finished" events up to it.
    lemma_event_place(plan, j);
    lemma_event_successor(plan, j);
    lemma_counts_in_prefix(plan, j + 1);
    let rep = j as int / per;
    let pos = j as int % per;
    assert(events[j as int] == plan.event_at(rep as nat, pos as nat));
    assert(events[j as int].completed_steps == plan.first_step + rep + one_if(pos == t + 1));
    // The event after it.
    if j + 1 < events.len() {
        let k = j + 1;
        lemma_event_place(plan, k);
        let next_rep = k as int / per;
        let next_pos = k as int % per;
        assert(events[k as int] == plan.event_at(next_rep as nat, next_pos as nat));
        assert(events[k as int].completed_steps == plan.first_step + next_rep + one_if(
            next_pos == t + 1,
        ));
    }
}

/// Of the events of a workload, one in each repetition is "started", one is
/// "finished", and as many as a repetition has chunks are "chunk" events.
pub proof fn law_event_counts(plan: RunPlan)
    ensures
        plan.events().len() == 2 * plan.repetitions() + plan.repetitions() * plan.chunk_total,
        count_status(plan.events(), BenchStepStatus::Started) == plan.repetitions(),
        count_status(plan.events(), BenchStepStatus::Finished) == plan.repetitions(),
        count_status(plan.events(), BenchStepStatus::Chunk) == plan.repetitions()
            * plan.chunk_total,
{
    let per = plan.events_per_repetition() as int;
    let reps = plan.repetitions() as int;
    let t = plan.chunk_total as int;
    assert(reps * per == 2 * reps + reps * t) by (nonlinear_arith)
        requires
            per == t + 2,
    ;
    lemma_counts_in_prefix(plan, plan.event_count());
    assert(plan.events().take(plan.event_count() as int) == plan.events());
    lemma_fundamental_div_mod_converse(reps * per, per, reps, 0);
}

/// The count of a status among the events up to and including event `i` is
/// the count among those before it, and one more if it has the status.
proof fn lemma_count_step(plan: RunPlan, i: nat, status: BenchStepStatus)
    requires
        i < plan.event_count(),
    ensures
        count_status(plan.events().take(i + 1int), status) == count_status(
            plan.events().take(i as int),
            status,
        ) + one_if(plan.event(i).status == status),
{
    let prefix = plan.events().take(i + 1int);
    assert(prefix.drop_last() == plan.events().take(i as int));
    assert(prefix.last() == plan.event(i));
}

/// The counts of each status among the first `j` events.
proof fn lemma_counts_in_prefix(plan: RunPlan, j: nat)
    requires
        j <= plan.event_count(),
    ensures
        ({
            let per = plan.events_per_repetition();
            let rep = j / per;
            let pos = j % per;
            let prefix = plan.events().take(j as int);
            &&& count_status(prefix, BenchStepStatus::Started) == rep + one_if(pos >= 1)
            &&& count_status(prefix, BenchStepStatus::Finished) == rep
            &&& count_status(prefix, BenchStepStatus::Chunk) == rep * plan.chunk_total + pos
                - one_if(pos >= 1)
        }),
    decreases j,
{
    let per = plan.events_per_repetition() as int;
    let t = plan.chunk_total as int;
    if j == 0 {
        lemma_fundamental_div_mod_converse(0, per, 0, 0);
        assert(plan.events().take(0).len() == 0);
        assert(0 * t == 0);
    } else {
        let i = (j - 1) as nat;
        lemma_counts_in_prefix(plan, i);
        lemma_event_place(plan, i);
        lemma_event_successor(plan, i);
        lemma_count_step(plan, i, BenchStepStatus::Started);
        lemma_count_step(plan, i, BenchStepStatus::Finished);
        lemma_count_step(plan, i, BenchStepStatus::Chunk);
        let rep = i as int / per;
        let pos = i as int % per;
        let status = plan.event(i).status;
        assert(plan.event(i) == plan.event_at(rep as nat, pos as nat));
        assert((rep + 1) * t == rep * t + t) by (nonlinear_arith);
        if pos == 0 {
            assert(status == BenchStepStatus::Started);
            assert(j as int / per == rep && j as int % per == 1);
        } else if pos == t + 1 {
            assert(status == BenchStepStatus::Finished);
            assert(j as int / per == rep + 1 && j as int % per == 0);
        } else {
            assert(status == BenchStepStatus::Chunk);
            assert(j as int / per == rep && j as int % per == pos + 1);
        }
    }
}

} // verus!
