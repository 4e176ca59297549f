use kitsune_job_runner::dispatch::{
    DispatchAction, DispatchEvent, DispatchPhase, Dispatcher, EXECUTION_TIMEOUT_SECS,
};

/// Jobs in flight, each with the number of waits it still needs to retire.
struct FakeRuntime {
    jobs: Vec<u32>,
    durations: Vec<u32>,
    next_duration: usize,
    budgets: Vec<(usize, usize)>,
    spawn_failures_left: u32,
    spawn_attempts: u32,
    sleeps: Vec<u64>,
}

impl FakeRuntime {
    fn new(durations: Vec<u32>) -> FakeRuntime {
        FakeRuntime {
            jobs: Vec::new(),
            durations,
            next_duration: 0,
            budgets: Vec::new(),
            spawn_failures_left: 0,
            spawn_attempts: 0,
            sleeps: Vec::new(),
        }
    }

    fn event_for(&mut self, action: DispatchAction) -> DispatchEvent {
        match action {
            DispatchAction::CountInFlight => DispatchEvent::Counted { in_flight: self.jobs.len() },
            DispatchAction::SpawnJobs { budget } => {
                self.spawn_attempts += 1;
                self.budgets.push((budget, self.jobs.len()));
                if self.spawn_failures_left > 0 {
                    self.spawn_failures_left -= 1;
                    return DispatchEvent::SpawnFailed { random: 0 };
                }
                for _ in 0..budget {
                    let d = self.durations[self.next_duration % self.durations.len()];
                    self.next_duration += 1;
                    self.jobs.push(d);
                }
                DispatchEvent::SpawnSucceeded
            }
            DispatchAction::Sleep { millis } => {
                self.sleeps.push(millis);
                DispatchEvent::BackoffElapsed
            }
            DispatchAction::WaitForRetirement { timeout_secs } => {
                assert_eq!(timeout_secs, EXECUTION_TIMEOUT_SECS);
                for j in self.jobs.iter_mut() {
                    *j = j.saturating_sub(1);
                }
                self.jobs.retain(|j| *j > 0);
                DispatchEvent::WaitEnded
            }
        }
    }
}

fn drive(d: &mut Dispatcher, rt: &mut FakeRuntime, steps: usize) -> Vec<DispatchAction> {
    let mut actions = vec![d.pending_action()];
    for _ in 0..steps {
        let event = rt.event_for(*actions.last().unwrap());
        actions.push(d.step(event));
    }
    actions
}

#[test]
fn dispatcher_starts_by_counting() {
    let d = Dispatcher::new(4);
    assert_eq!(d.phase, DispatchPhase::Counting);
    assert_eq!(d.pending_action(), DispatchAction::CountInFlight);
}

#[test]
fn dispatch_budget_never_exceeds_free_slots() {
    let mut d = Dispatcher::new(4);
    let mut rt = FakeRuntime::new(vec![1, 3, 2, 5, 1, 1, 4]);
    drive(&mut d, &mut rt, 200);
    assert!(rt.budgets.len() >= 40);
    for (budget, in_flight) in rt.budgets.iter() {
        assert!(budget + in_flight <= 4);
    }
    assert_eq!(rt.budgets[0], (4, 0));
    assert!(rt.jobs.len() <= 4);
}

#[test]
fn dispatch_saturated_pool_asks_for_zero() {
    let mut d = Dispatcher::new(2);
    assert_eq!(d.step(DispatchEvent::Counted { in_flight: 2 }), DispatchAction::SpawnJobs { budget: 0 });
    let mut e = Dispatcher::new(2);
    assert_eq!(e.step(DispatchEvent::Counted { in_flight: 5 }), DispatchAction::SpawnJobs { budget: 0 });
}

#[test]
fn dispatch_retries_failed_spawns_with_backoff() {
    let mut d = Dispatcher::new(4);
    let mut rt = FakeRuntime::new(vec![10]);
    rt.jobs.push(10);
    rt.spawn_failures_left = 3;
    let actions = drive(&mut d, &mut rt, 9);
    assert_eq!(
        actions,
        vec![
            DispatchAction::CountInFlight,
            DispatchAction::SpawnJobs { budget: 3 },
            DispatchAction::Sleep { millis: 50 },
            DispatchAction::SpawnJobs { budget: 3 },
            DispatchAction::Sleep { millis: 100 },
            DispatchAction::SpawnJobs { budget: 3 },
            DispatchAction::Sleep { millis: 200 },
            DispatchAction::SpawnJobs { budget: 3 },
            DispatchAction::WaitForRetirement { timeout_secs: 30 },
            DispatchAction::CountInFlight,
        ]
    );
    assert_eq!(rt.spawn_attempts, 4);
    assert_eq!(rt.sleeps, vec![50, 100, 200]);
    assert_eq!(rt.jobs.len(), 4);
}

#[test]
fn dispatch_backoff_uses_the_random_value() {
    let mut d = Dispatcher::new(1);
    d.step(DispatchEvent::Counted { in_flight: 0 });
    assert_eq!(d.step(DispatchEvent::SpawnFailed { random: 50 }), DispatchAction::Sleep { millis: 100 });
    assert_eq!(
        d.phase,
        DispatchPhase::BackingOff { in_flight: 0, budget: 1, failures: 1, delay_ms: 100 }
    );
    assert_eq!(d.step(DispatchEvent::BackoffElapsed), DispatchAction::SpawnJobs { budget: 1 });
}

#[test]
fn dispatch_slow_job_stays_in_flight_after_timeout() {
    let mut d = Dispatcher::new(3);
    let mut rt = FakeRuntime::new(vec![1, 1, 100]);
    let actions = drive(&mut d, &mut rt, 5);
    assert_eq!(
        actions,
        vec![
            DispatchAction::CountInFlight,
            DispatchAction::SpawnJobs { budget: 3 },
            DispatchAction::WaitForRetirement { timeout_secs: 30 },
            DispatchAction::CountInFlight,
            DispatchAction::SpawnJobs { budget: 2 },
            DispatchAction::WaitForRetirement { timeout_secs: 30 },
        ]
    );
    assert_eq!(rt.budgets, vec![(3, 0), (2, 1)]);
}

#[test]
fn dispatch_ignores_unexpected_events() {
    let mut d = Dispatcher::new(3);
    assert_eq!(d.step(DispatchEvent::WaitEnded), DispatchAction::CountInFlight);
    assert_eq!(d.step(DispatchEvent::SpawnSucceeded), DispatchAction::CountInFlight);
    assert_eq!(d.step(DispatchEvent::Counted { in_flight: 1 }), DispatchAction::SpawnJobs { budget: 2 });
    assert_eq!(d.step(DispatchEvent::Counted { in_flight: 0 }), DispatchAction::SpawnJobs { budget: 2 });
    assert_eq!(d.step(DispatchEvent::BackoffElapsed), DispatchAction::SpawnJobs { budget: 2 });
    assert_eq!(d.step(DispatchEvent::SpawnSucceeded), DispatchAction::WaitForRetirement { timeout_secs: 30 });
    assert_eq!(d.step(DispatchEvent::SpawnFailed { random: 1 }), DispatchAction::WaitForRetirement { timeout_secs: 30 });
    assert_eq!(d.phase, DispatchPhase::Waiting);
}
