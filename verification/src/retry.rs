//! Trying again after a failure, with delays that grow fivefold.
//!
//! By default: five minutes, then twenty-five, then a hundred and twenty-five;
//! then it is given up.

use crate::time::{Duration, NANOS_PER_SEC};
use vstd::prelude::*;

verus! {

/// How often to try again, and how long to wait before.
#[derive(Debug)]
pub struct RetryPolicy {
    /// How often to try again after the first attempt.
    pub max_retries: u32,
    /// How long to wait before the first retry.
    pub base_delay: Duration,
    /// How many attempts have been made.
    pub attempts: u32,
}

/// The longest span of time that can be told, in nanoseconds.
pub const LONGEST_SPAN_NANOS: u128 = 18446744073709551615_999999999;

/// The delay that stands for any longer one, in nanoseconds: as many whole
/// seconds as can be told.
pub const CAPPED_DELAY_NANOS: u128 = 18446744073709551615_000000000;

/// `base`, multiplied by five `n` times.
pub open spec fn grown(base: nat, n: nat) -> nat
    decreases n,
{
    if n == 0 {
        base
    } else {
        5 * grown(base, (n - 1) as nat)
    }
}

/// The delay before retry `attempt`, counted from zero, in nanoseconds: the
/// first delay, multiplied by five `attempt` times, or the capped one where that
/// is longer than can be told.
pub open spec fn backoff_nanos(base: nat, attempt: nat) -> nat {
    if grown(base, attempt) <= LONGEST_SPAN_NANOS {
        grown(base, attempt)
    } else {
        CAPPED_DELAY_NANOS as nat
    }
}

/// What to do after a failure.
#[derive(Debug, Clone, Copy, PartialEq, Eq, Structural)]
pub enum RetryStep {
    /// To give up.
    GiveUp,
    /// To wait, and to try again.
    RetryAfter(Duration),
}

proof fn lemma_grows(base: nat, i: nat, n: nat)
    requires
        i <= n,
    ensures
        grown(base, i) <= grown(base, n),
    decreases n,
{
    if i < n {
        lemma_grows(base, i, (n - 1) as nat);
    }
}

proof fn lemma_nothing_grows(n: nat)
    ensures
        grown(0, n) == 0,
    decreases n,
{
    if n > 0 {
        lemma_nothing_grows((n - 1) as nat);
    }
}

impl RetryPolicy {
    /// A policy of which no attempt has been made. With no retries the first
    /// attempt is the only one.
    pub fn new(max_retries: u32, base_delay: Duration) -> (res: Self)
        ensures
            res == (RetryPolicy { max_retries, base_delay, attempts: 0 }),
    {
        RetryPolicy { max_retries, base_delay, attempts: 0 }
    }

    /// How many attempts have been made.
    pub fn attempts(&self) -> (res: u32)
        ensures
            res == self.attempts,
    {
        self.attempts
    }

    /// The delay before retry `attempt`, counted from zero.
    pub fn backoff_delay(&self, attempt: u32) -> (res: Duration)
        ensures
            res.total_nanos() == backoff_nanos(self.base_delay.total_nanos(), attempt as nat),
            res.nanos < NANOS_PER_SEC,
    {
        let ghost base = self.base_delay.total_nanos();
        let mut total: u128 = self.base_delay.secs as u128 * NANOS_PER_SEC as u128
            + self.base_delay.nanos as u128;
        let mut i: u32 = 0;
        while i < attempt && total > 0 && total <= LONGEST_SPAN_NANOS
            invariant
                i <= attempt,
                total == grown(base, i as nat),
                total <= 5 * LONGEST_SPAN_NANOS,
            decreases attempt - i,
        {
            total = 5 * total;
            i = i + 1;
        }
        proof {
            lemma_grows(base, i as nat, attempt as nat);
            if total == 0 {
                lemma_grows(base, 0, i as nat);
                lemma_nothing_grows(attempt as nat);
            }
        }
        if total > LONGEST_SPAN_NANOS {
            return Duration::from_secs(u64::MAX);
        }
        let secs: u64 = (total / NANOS_PER_SEC as u128) as u64;
        let nanos: u32 = (total % NANOS_PER_SEC as u128) as u32;
        Duration { secs, nanos }
    }

    /// Forgets the attempts that were made.
    pub fn reset(&mut self)
        ensures
            *final(self) == (RetryPolicy { attempts: 0, ..*old(self) }),
    {
        self.attempts = 0;
    }

    /// Begins the first attempt.
    pub fn begin(&mut self)
        ensures
            *final(self) == (RetryPolicy { attempts: 1, ..*old(self) }),
    {
        self.reset();
        self.attempts = 1;
    }

    /// Begins one more attempt.
    pub fn begin_again(&mut self)
        requires
            old(self).attempts < u32::MAX,
        ensures
            *final(self) == (RetryPolicy {
                attempts: (old(self).attempts + 1) as u32,
                ..*old(self)
            }),
    {
        self.attempts = self.attempts + 1;
    }

    /// Ends with an attempt that succeeded.
    pub fn succeeded(&mut self)
        ensures
            *final(self) == (RetryPolicy { attempts: 0, ..*old(self) }),
    {
        self.reset();
    }

    /// What to do after an attempt that failed.
    pub fn failed(&self) -> (res: RetryStep)
        requires
            self.attempts > 0,
        ensures
            match res {
                RetryStep::GiveUp => gives_up(self.attempts as nat, self.max_retries as nat),
                RetryStep::RetryAfter(delay) => !gives_up(
                    self.attempts as nat,
                    self.max_retries as nat,
                ) && delay.nanos < NANOS_PER_SEC && delay.total_nanos() == backoff_nanos(
                    self.base_delay.total_nanos(),
                    (self.attempts - 1) as nat,
                ),
            },
    {
        if self.attempts > self.max_retries {
            RetryStep::GiveUp
        } else {
            RetryStep::RetryAfter(self.backoff_delay(self.attempts - 1))
        }
    }
}

impl Default for RetryPolicy {
    fn default() -> (res: Self)
        ensures
            res == (RetryPolicy {
                max_retries: 3,
                base_delay: Duration { secs: 300, nanos: 0 },
                attempts: 0,
            }),
    {
        RetryPolicy::new(3, Duration::from_mins(5))
    }
}

/// Whether the failure of attempt `attempts`, counted from one, is the last.
pub open spec fn gives_up(attempts: nat, max_retries: nat) -> bool {
    attempts > max_retries
}

/// How a run from attempt `attempt` on ends, where `succeeds` tells which
/// attempts succeed: the attempt at which it ends, and whether that succeeds.
pub open spec fn run_from(
    max_retries: nat,
    succeeds: spec_fn(nat) -> bool,
    attempt: nat,
) -> (nat, bool)
    decreases max_retries + 1 - attempt,
{
    if succeeds(attempt) {
        (attempt, true)
    } else if gives_up(attempt, max_retries) {
        (attempt, false)
    } else {
        run_from(max_retries, succeeds, attempt + 1)
    }
}

/// A run ends at the first attempt that succeeds, if that is the first one or
/// one of the retries.
pub proof fn law_run_ends_at_the_first_success(
    max_retries: nat,
    succeeds: spec_fn(nat) -> bool,
    first: nat,
)
    requires
        1 <= first <= max_retries + 1,
        succeeds(first),
        forall|k: nat| 1 <= k < first ==> !#[trigger] succeeds(k),
    ensures
        run_from(max_retries, succeeds, 1) == (first, true),
{
    lemma_run_reaches(max_retries, succeeds, 1, first);
}

/// A run of which every attempt fails makes the first attempt and all the
/// retries, and no more.
pub proof fn law_run_gives_up_after_all_retries(max_retries: nat, succeeds: spec_fn(nat) -> bool)
    requires
        forall|k: nat| 1 <= k <= max_retries + 1 ==> !#[trigger] succeeds(k),
    ensures
        run_from(max_retries, succeeds, 1) == (max_retries + 1, false),
{
    lemma_run_reaches(max_retries, succeeds, 1, max_retries + 1);
}

/// A run passes over attempts that fail, as long as there are retries.
proof fn lemma_run_reaches(
    max_retries: nat,
    succeeds: spec_fn(nat) -> bool,
    from: nat,
    to: nat,
)
    requires
        from <= to <= max_retries + 1,
        forall|k: nat| from <= k < to ==> !#[trigger] succeeds(k),
    ensures
        run_from(max_retries, succeeds, from) == run_from(max_retries, succeeds, to),
    decreases to - from,
{
    if from < to {
        lemma_run_reaches(max_retries, succeeds, from + 1, to);
    }
}

/// A later retry waits at least as long as an earlier one. Left out is an
/// earlier delay that can be told but is longer than the capped one, where the
/// later one is capped.
pub proof fn law_delays_do_not_shrink(base: nat, earlier: nat, later: nat)
    requires
        earlier <= later,
        !(CAPPED_DELAY_NANOS < grown(base, earlier) <= LONGEST_SPAN_NANOS < grown(base, later)),
    ensures
        backoff_nanos(base, earlier) <= backoff_nanos(base, later),
{
    lemma_grows(base, earlier, later);
}

/// Each retry waits five times as long as the one before it, as long as
/// that can be told.
pub proof fn law_delays_grow_fivefold(base: nat, attempt: nat)
    ensures
        backoff_nanos(base, attempt + 1) == if 5 * backoff_nanos(base, attempt)
            <= LONGEST_SPAN_NANOS {
            5 * backoff_nanos(base, attempt)
        } else {
            CAPPED_DELAY_NANOS as nat
        },
{
}

/// The `n`th power of five.
pub open spec fn five_to(n: nat) -> nat
    decreases n,
{
    if n == 0 {
        1
    } else {
        5 * five_to((n - 1) as nat)
    }
}

/// A delay is the first one times a power of five, as long as that can be told.
pub proof fn law_delays_are_powers_of_five(base: nat, attempt: nat)
    ensures
        backoff_nanos(base, attempt) == if base * five_to(attempt) <= LONGEST_SPAN_NANOS {
            base * five_to(attempt)
        } else {
            CAPPED_DELAY_NANOS as nat
        },
{
    lemma_grown_is_a_product(base, attempt);
}

proof fn lemma_grown_is_a_product(base: nat, n: nat)
    ensures
        grown(base, n) == base * five_to(n),
    decreases n,
{
    if n == 0 {
        assert(base * 1 == base);
    } else {
        let power = five_to((n - 1) as nat);
        lemma_grown_is_a_product(base, (n - 1) as nat);
        assert(5 * (base * power) == base * (5 * power)) by (nonlinear_arith);
    }
}

/// The first retry waits as long as is configured, and no delay is capped but
/// one of more seconds than sixty-four bits can tell.
pub proof fn law_the_first_delay_is_the_configured_one(base: Duration)
    ensures
        base.total_nanos() < (u64::MAX + 1) * NANOS_PER_SEC ==> backoff_nanos(base.total_nanos(), 0)
            == base.total_nanos(),
        CAPPED_DELAY_NANOS == u64::MAX * NANOS_PER_SEC,
        LONGEST_SPAN_NANOS == (u64::MAX + 1) * NANOS_PER_SEC - 1,
{
}

/// With `max_retries` retries, the attempt after the last of them is the first at
/// whose failure it is given up.
pub proof fn law_all_retries_are_made(attempts: nat, max_retries: nat)
    ensures
        gives_up(attempts, max_retries) <==> attempts >= max_retries + 1,
{
}

} // verus!
