use vstd::prelude::*;

use crate::budget::{
    backoff_delay_ms, backoff_delay_spec, lemma_backoff_delay_bounds, remaining_budget,
    remaining_spec, BASE_BACKOFF_MS,
};

verus! {

/// How long one round waits for in-flight executions to retire before it
/// goes back to count them and lease more work, in seconds.
pub const EXECUTION_TIMEOUT_SECS: u64 = 30;

/// Where the dispatch loop stands within a round.
#[derive(Debug, Clone, Copy, PartialEq, Eq)]
pub enum DispatchPhase {
    /// The round starts: the number of unretired executions is needed.
    Counting,
    /// Asking the queue to lease up to `budget` jobs; `in_flight` executions
    /// were unretired when the round started and `failures` attempts of
    /// this round have failed so far.
    Spawning { in_flight: usize, budget: usize, failures: u64 },
    /// Sleeping `delay_ms` after a failed attempt, before trying again.
    BackingOff { in_flight: usize, budget: usize, failures: u64, delay_ms: u64 },
    /// Waiting, up to the timeout, for executions to retire.
    Waiting,
}

/// What the runtime reports back after carrying out an action.
#[derive(Debug, Clone, Copy, PartialEq, Eq)]
pub enum DispatchEvent {
    /// `in_flight` executions have not retired yet.
    Counted { in_flight: usize },
    SpawnSucceeded,
    /// The queue refused to spawn; `random` is fresh randomness for the jitter.
    SpawnFailed { random: u64 },
    BackoffElapsed,
    /// Every execution retired, or the timeout elapsed first.
    WaitEnded,
}

/// What the runtime has to do next.
#[derive(Debug, Clone, Copy, PartialEq, Eq)]
pub enum DispatchAction {
    /// Count the executions that have not retired and report `Counted`.
    CountInFlight,
    /// Ask the queue to lease and spawn up to `budget` jobs.
    SpawnJobs { budget: usize },
    /// Sleep for `millis` milliseconds, then report `BackoffElapsed`.
    Sleep { millis: u64 },
    /// Wait for executions to retire, at most `timeout_secs` seconds; the
    /// executions still running go on in the background.
    WaitForRetirement { timeout_secs: u64 },
}

/// The decisions of the dispatch loop, which keeps `num_job_workers` job
/// executions in flight.
#[derive(Debug, Clone, Copy, PartialEq, Eq)]
pub struct Dispatcher {
    pub num_job_workers: usize,
    pub phase: DispatchPhase,
}

impl Dispatcher {
    /// The budget of a spawning or backing-off round is what was free when
    /// the round counted its in-flight executions.
    pub open spec fn wf(self) -> bool {
        match self.phase {
            DispatchPhase::Spawning { in_flight, budget, .. } => budget as nat == remaining_spec(
                self.num_job_workers as nat,
                in_flight as nat,
            ),
            DispatchPhase::BackingOff { in_flight, budget, .. } => budget as nat
                == remaining_spec(self.num_job_workers as nat, in_flight as nat),
            _ => true,
        }
    }

    /// The dispatcher after `event`; an event that does not answer the
    /// pending action changes nothing.
    pub open spec fn next(self, event: DispatchEvent) -> Dispatcher {
        let n = self.num_job_workers;
        let phase = match (self.phase, event) {
            (DispatchPhase::Counting, DispatchEvent::Counted { in_flight }) => DispatchPhase::Spawning {
                in_flight,
                budget: remaining_spec(n as nat, in_flight as nat) as usize,
                failures: 0,
            },
            (DispatchPhase::Spawning { .. }, DispatchEvent::SpawnSucceeded) => DispatchPhase::Waiting,
            (
                DispatchPhase::Spawning { in_flight, budget, failures },
                DispatchEvent::SpawnFailed { random },
            ) => DispatchPhase::BackingOff {
                in_flight,
                budget,
                failures: if failures < u64::MAX {
                    (failures + 1) as u64
                } else {
                    failures
                },
                delay_ms: backoff_delay_spec(failures as nat, random as nat) as u64,
            },
            (
                DispatchPhase::BackingOff { in_flight, budget, failures, .. },
                DispatchEvent::BackoffElapsed,
            ) => DispatchPhase::Spawning { in_flight, budget, failures },
            (DispatchPhase::Waiting, DispatchEvent::WaitEnded) => DispatchPhase::Counting,
            (phase, _) => phase,
        };
        Dispatcher { num_job_workers: n, phase }
    }

    /// The action that the phase waits on.
    pub open spec fn pending(self) -> DispatchAction {
        match self.phase {
            DispatchPhase::Counting => DispatchAction::CountInFlight,
            DispatchPhase::Spawning { budget, .. } => DispatchAction::SpawnJobs { budget },
            DispatchPhase::BackingOff { delay_ms, .. } => DispatchAction::Sleep { millis: delay_ms },
            DispatchPhase::Waiting => DispatchAction::WaitForRetirement {
                timeout_secs: EXECUTION_TIMEOUT_SECS,
            },
        }
    }

    /// The dispatcher after the events `events`, in order.
    pub open spec fn after(self, events: Seq<DispatchEvent>) -> Dispatcher
        decreases events.len(),
    {
        if events.len() == 0 {
            self
        } else {
            self.after(events.drop_last()).next(events.last())
        }
    }

    /// A dispatcher for `num_job_workers` workers, about to start a round.
    pub fn new(num_job_workers: usize) -> (d: Dispatcher)
        ensures
            d.wf(),
            d == (Dispatcher { num_job_workers, phase: DispatchPhase::Counting }),
    {
        Dispatcher { num_job_workers, phase: DispatchPhase::Counting }
    }

    /// The action to carry out now.
    pub fn pending_action(&self) -> (action: DispatchAction)
        ensures
            action == self.pending(),
    {
        match self.phase {
            DispatchPhase::Counting => DispatchAction::CountInFlight,
            DispatchPhase::Spawning { budget, .. } => DispatchAction::SpawnJobs { budget },
            DispatchPhase::BackingOff { delay_ms, .. } => DispatchAction::Sleep { millis: delay_ms },
            DispatchPhase::Waiting => DispatchAction::WaitForRetirement {
                timeout_secs: EXECUTION_TIMEOUT_SECS,
            },
        }
    }

    /// Take in what the runtime reports and return the next action.
    pub fn step(&mut self, event: DispatchEvent) -> (action: DispatchAction)
        requires
            old(self).wf(),
        ensures
            final(self).wf(),
            *final(self) == old(self).next(event),
            action == final(self).pending(),
    {
        let n = self.num_job_workers;
        let phase = match (self.phase, event) {
            (DispatchPhase::Counting, DispatchEvent::Counted { in_flight }) => DispatchPhase::Spawning {
                in_flight,
                budget: remaining_budget(n, in_flight),
                failures: 0,
            },
            (DispatchPhase::Spawning { .. }, DispatchEvent::SpawnSucceeded) => DispatchPhase::Waiting,
            (
                DispatchPhase::Spawning { in_flight, budget, failures },
                DispatchEvent::SpawnFailed { random },
            ) => DispatchPhase::BackingOff {
                in_flight,
                budget,
                failures: if failures < u64::MAX {
                    failures + 1
                } else {
                    failures
                },
                delay_ms: backoff_delay_ms(failures, random),
            },
            (
                DispatchPhase::BackingOff { in_flight, budget, failures, .. },
                DispatchEvent::BackoffElapsed,
            ) => DispatchPhase::Spawning { in_flight, budget, failures },
            (DispatchPhase::Waiting, DispatchEvent::WaitEnded) => DispatchPhase::Counting,
            (phase, _) => phase,
        };
        self.phase = phase;
        self.pending_action()
    }
}

impl Dispatcher {
    /// A spawn request never asks for more than the free worker slots: the
    /// budget plus the executions in flight stays within `num_job_workers`,
    /// and the budget is zero when the pool is full or over-full.
    pub open spec fn spawn_fits(self) -> bool {
        match self.phase {
            DispatchPhase::Spawning { in_flight, budget, .. } => budget + in_flight
                <= self.num_job_workers || (budget == 0 && in_flight > self.num_job_workers),
            _ => true,
        }
    }

    /// The pending sleep, if any, lasts at least `millis` milliseconds.
    pub open spec fn sleeps_at_least(self, millis: u64) -> bool {
        match self.pending() {
            DispatchAction::Sleep { millis: m } => m >= millis,
            _ => false,
        }
    }
}

/// `SpawnFailed` and `BackoffElapsed` for each random value in turn: a queue
/// that fails once per value, each failure followed by its backoff.
pub open spec fn retry_events(randoms: Seq<u64>) -> Seq<DispatchEvent>
    decreases randoms.len(),
{
    if randoms.len() == 0 {
        Seq::empty()
    } else {
        retry_events(randoms.drop_last()) + seq![
            DispatchEvent::SpawnFailed { random: randoms.last() },
            DispatchEvent::BackoffElapsed,
        ]
    }
}

/// One event keeps a well-formed dispatcher well-formed.
pub proof fn lemma_next_wf(d: Dispatcher, event: DispatchEvent)
    requires
        d.wf(),
    ensures
        d.next(event).wf(),
{
}

/// Running the events `a` and then `b` is running `a + b`.
pub proof fn lemma_after_split(d: Dispatcher, a: Seq<DispatchEvent>, b: Seq<DispatchEvent>)
    ensures
        d.after(a + b) == d.after(a).after(b),
    decreases b.len(),
{
    if b.len() == 0 {
        assert(a + b =~= a);
    } else {
        lemma_after_split(d, a, b.drop_last());
        assert((a + b).drop_last() =~= a + b.drop_last());
        assert((a + b).last() == b.last());
    }
}

/// Budget conservation: in every state that a dispatcher reaches, whatever
/// the events, a spawn request asks for no more than `num_job_workers`
/// minus the executions in flight, and never for a negative number.
pub proof fn lemma_budget_conserved(d: Dispatcher, events: Seq<DispatchEvent>)
    requires
        d.wf(),
    ensures
        d.after(events).wf(),
        d.after(events).spawn_fits(),
    decreases events.len(),
{
    if events.len() > 0 {
        lemma_budget_conserved(d, events.drop_last());
        lemma_next_wf(d.after(events.drop_last()), events.last());
    }
}

/// Backoff on failure: while the queue keeps failing, every failure is
/// followed by a sleep of at least half the base window, and then by a new
/// spawn request for the same budget; the first success ends the retries
/// and the round moves on to waiting.
pub proof fn lemma_failed_spawns_retry(d: Dispatcher, randoms: Seq<u64>)
    requires
        d.wf(),
        d.phase is Spawning,
    ensures
        d.after(retry_events(randoms)).wf(),
        d.after(retry_events(randoms)).phase is Spawning,
        d.after(retry_events(randoms)).pending() == d.pending(),
        d.after(retry_events(randoms)).next(DispatchEvent::SpawnSucceeded).pending()
            == (DispatchAction::WaitForRetirement { timeout_secs: EXECUTION_TIMEOUT_SECS }),
        forall|i: int|
            0 <= i < randoms.len() ==> (#[trigger] d.after(retry_events(randoms.take(i)))).next(
                DispatchEvent::SpawnFailed { random: randoms[i] },
            ).sleeps_at_least(BASE_BACKOFF_MS / 2),
    decreases randoms.len(),
{
    let evs = retry_events(randoms);
    if randoms.len() == 0 {
        assert(d.after(evs) == d);
    } else {
        let prev = randoms.drop_last();
        lemma_failed_spawns_retry(d, prev);
        let mid = d.after(retry_events(prev));
        let r = randoms.last();
        let pair = seq![DispatchEvent::SpawnFailed { random: r }, DispatchEvent::BackoffElapsed];
        lemma_after_split(d, retry_events(prev), pair);
        assert(pair.drop_last() =~= seq![DispatchEvent::SpawnFailed { random: r }]);
        assert(pair.drop_last().drop_last() =~= Seq::<DispatchEvent>::empty());
        assert(mid.after(Seq::<DispatchEvent>::empty()) == mid);
        assert(mid.after(pair.drop_last()) == mid.next(DispatchEvent::SpawnFailed { random: r }));
        assert(pair.last() == DispatchEvent::BackoffElapsed);
        assert(mid.after(pair) == mid.next(DispatchEvent::SpawnFailed { random: r }).next(
            DispatchEvent::BackoffElapsed,
        ));
        assert forall|i: int| 0 <= i < randoms.len() implies (#[trigger] d.after(
            retry_events(randoms.take(i)),
        )).next(DispatchEvent::SpawnFailed { random: randoms[i] }).sleeps_at_least(
            BASE_BACKOFF_MS / 2,
        ) by {
            lemma_failed_spawns_retry(d, randoms.take(i));
            let at = d.after(retry_events(randoms.take(i)));
            if let DispatchPhase::Spawning { failures, .. } = at.phase {
                lemma_backoff_delay_bounds(failures as nat, randoms[i] as nat);
            }
        }
    }
}

/// Timeout-bounded wait: a waiting round waits at most the execution
/// timeout, and once the wait ends, however it ended, the next round counts
/// the executions still in flight and asks for exactly the slots left free
/// by them.
pub proof fn lemma_wait_is_bounded(d: Dispatcher, in_flight: usize)
    requires
        d.wf(),
        d.phase is Waiting,
    ensures
        d.pending() == (DispatchAction::WaitForRetirement { timeout_secs: EXECUTION_TIMEOUT_SECS }),
        d.next(DispatchEvent::WaitEnded).pending() == DispatchAction::CountInFlight,
        d.next(DispatchEvent::WaitEnded).next(DispatchEvent::Counted { in_flight }).pending() == (
        DispatchAction::SpawnJobs {
            budget: remaining_spec(d.num_job_workers as nat, in_flight as nat) as usize,
        }),
{
}

} // verus!
