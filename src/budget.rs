use vstd::prelude::*;

verus! {

/// The number of job executions that may still be started when
/// `in_flight` of `num_job_workers` slots are taken (never negative).
pub open spec fn remaining_spec(num_job_workers: nat, in_flight: nat) -> nat {
    if in_flight <= num_job_workers {
        (num_job_workers - in_flight) as nat
    } else {
        0
    }
}

/// Free worker slots: `num_job_workers - in_flight`, or zero when the pool
/// is saturated or over-subscribed.
pub fn remaining_budget(num_job_workers: usize, in_flight: usize) -> (r: usize)
    ensures
        r as nat == remaining_spec(num_job_workers as nat, in_flight as nat),
        r + in_flight <= num_job_workers || r == 0,
{
    if in_flight <= num_job_workers {
        num_job_workers - in_flight
    } else {
        0
    }
}

/// The first backoff window, in milliseconds.
pub const BASE_BACKOFF_MS: u64 = 100;

/// The window stops doubling after this many failures.
pub const MAX_BACKOFF_EXPONENT: u64 = 6;

pub open spec fn pow2(e: nat) -> nat
    decreases e,
{
    if e == 0 {
        1
    } else {
        2 * pow2((e - 1) as nat)
    }
}

/// The upper end of the backoff window after `failures` earlier failures:
/// the base window, doubled per failure, up to a fixed number of doublings.
pub open spec fn backoff_ceiling(failures: nat) -> nat {
    let e = if failures <= MAX_BACKOFF_EXPONENT {
        failures
    } else {
        MAX_BACKOFF_EXPONENT as nat
    };
    (BASE_BACKOFF_MS * pow2(e)) as nat
}

/// A delay drawn from the upper half of the window, `random` choosing the
/// point in it.
pub open spec fn backoff_delay_spec(failures: nat, random: nat) -> nat {
    let half = backoff_ceiling(failures) / 2;
    (half + random % (half + 1)) as nat
}

proof fn lemma_pow2_bound(e: nat)
    requires
        e <= MAX_BACKOFF_EXPONENT,
    ensures
        1 <= pow2(e) <= 64,
    decreases MAX_BACKOFF_EXPONENT - e,
{
    reveal_with_fuel(pow2, 7);
    if e < MAX_BACKOFF_EXPONENT {
        lemma_pow2_bound(e + 1);
    }
}

/// A bounded random delay before retrying after `failures` earlier failures
/// in a row: at least half the window and at most the whole of it, so never
/// zero and never more than `BASE_BACKOFF_MS * 2^MAX_BACKOFF_EXPONENT`.
pub fn backoff_delay_ms(failures: u64, random: u64) -> (r: u64)
    ensures
        r as nat == backoff_delay_spec(failures as nat, random as nat),
        backoff_ceiling(failures as nat) / 2 <= r <= backoff_ceiling(failures as nat),
        BASE_BACKOFF_MS / 2 <= r <= 64 * BASE_BACKOFF_MS,
{
    let exponent: u64 = if failures <= MAX_BACKOFF_EXPONENT {
        failures
    } else {
        MAX_BACKOFF_EXPONENT
    };
    proof {
        lemma_pow2_bound(exponent as nat);
    }
    let mut ceiling: u64 = BASE_BACKOFF_MS;
    let mut i: u64 = 0;
    while i < exponent
        invariant
            i <= exponent <= MAX_BACKOFF_EXPONENT,
            ceiling == BASE_BACKOFF_MS * pow2(i as nat),
            pow2(exponent as nat) <= 64,
        decreases exponent - i,
    {
        proof {
            lemma_pow2_bound((i + 1) as nat);
        }
        ceiling = ceiling * 2;
        i = i + 1;
    }
    let half: u64 = ceiling / 2;
    half + random % (half + 1)
}

/// Every backoff delay lies between half the base window and the largest
/// window.
pub proof fn lemma_backoff_delay_bounds(failures: nat, random: nat)
    ensures
        BASE_BACKOFF_MS / 2 <= backoff_delay_spec(failures, random) <= 64 * BASE_BACKOFF_MS,
{
    let e = if failures <= MAX_BACKOFF_EXPONENT {
        failures
    } else {
        MAX_BACKOFF_EXPONENT as nat
    };
    lemma_pow2_bound(e);
}

} // verus!
