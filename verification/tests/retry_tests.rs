use exception_collector::{Duration, RetryPolicy, RetryStep};

/// Runs `attempt` under the policy, and gathers the delays.
fn run<T, E>(
    policy: &mut RetryPolicy,
    mut attempt: impl FnMut() -> Result<T, E>,
    delays: &mut Vec<Duration>,
) -> Result<T, E> {
    policy.begin();
    loop {
        match attempt() {
            Ok(value) => {
                policy.succeeded();
                return Ok(value);
            }
            Err(error) => match policy.failed() {
                RetryStep::GiveUp => return Err(error),
                RetryStep::RetryAfter(delay) => {
                    delays.push(delay);
                    policy.begin_again();
                }
            },
        }
    }
}

#[test]
fn test_retry_policy_default_values() {
    let policy = RetryPolicy::default();
    assert_eq!(policy.max_retries, 3);
    assert_eq!(policy.base_delay, Duration::from_mins(5));
}

#[test]
fn test_retry_policy_custom_values() {
    let policy = RetryPolicy::new(5, Duration::from_secs(10));
    assert_eq!(policy.max_retries, 5);
    assert_eq!(policy.base_delay, Duration::from_secs(10));
}

#[test]
fn test_retry_policy_starts_at_zero_attempts() {
    let policy = RetryPolicy::default();
    assert_eq!(policy.attempts(), 0);
}

#[test]
fn test_retry_policy_backoff_delay_exponential() {
    let policy = RetryPolicy::new(3, Duration::from_mins(5));

    // 5min → 25min → 125min
    assert_eq!(policy.backoff_delay(0), Duration::from_mins(5));
    assert_eq!(policy.backoff_delay(1), Duration::from_mins(25));
    assert_eq!(policy.backoff_delay(2), Duration::from_mins(125));
}

#[test]
fn test_retry_policy_backoff_delay_protects_overflow() {
    let policy = RetryPolicy::new(100, Duration::from_secs(u64::MAX));
    let delay = policy.backoff_delay(10);
    // saturating_mul returns u64::MAX when overflow
    assert_eq!(delay, Duration::from_secs(u64::MAX));
}

#[test]
fn test_retry_policy_reset_clears_attempts() {
    let mut policy = RetryPolicy::default();
    policy.attempts = 5;
    assert_eq!(policy.attempts(), 5);

    policy.reset();
    assert_eq!(policy.attempts(), 0);
}

#[test]
fn test_should_succeed_on_first_attempt() {
    let mut policy = RetryPolicy::default();
    let mut counter = 0;
    let mut delays = vec![];

    let result = run(
        &mut policy,
        || {
            counter += 1;
            Ok::<_, String>("ok")
        },
        &mut delays,
    );

    assert_eq!(result, Ok("ok"));
    assert_eq!(counter, 1);
    assert!(delays.is_empty());
}

#[test]
fn test_should_retry_up_to_max() {
    let mut policy = RetryPolicy::new(2, Duration::from_millis(1));
    let mut counter = 0;
    let mut delays = vec![];

    let result = run(
        &mut policy,
        || {
            let attempt = counter;
            counter += 1;
            if attempt < 2 {
                Err::<(), _>("fail".to_string())
            } else {
                Ok::<_, String>(())
            }
        },
        &mut delays,
    );

    assert!(result.is_ok());
    assert_eq!(counter, 3);
    assert_eq!(delays, vec![Duration::from_millis(1), Duration::from_millis(5)]);
}

#[test]
fn test_should_mark_failed_after_exhaustion() {
    let mut policy = RetryPolicy::new(2, Duration::from_millis(1));

    let result = run(
        &mut policy,
        || Err::<String, _>("permanent_fail".to_string()),
        &mut vec![],
    );

    assert_eq!(result, Err("permanent_fail".to_string()));
    assert_eq!(policy.attempts(), 3);
}

#[test]
fn test_should_reset_after_success() {
    let mut policy = RetryPolicy::new(3, Duration::from_millis(1));
    let mut call_count = 0;

    let result = run(
        &mut policy,
        || {
            let n = call_count;
            call_count += 1;
            if n == 0 {
                Err::<(), _>("first_fail".to_string())
            } else {
                Ok::<_, String>(())
            }
        },
        &mut vec![],
    );

    assert!(result.is_ok());
    assert_eq!(policy.attempts(), 0);

    let result = run(&mut policy, || Ok::<_, String>(()), &mut vec![]);

    assert!(result.is_ok());
    assert_eq!(policy.attempts(), 0);
}

#[test]
fn test_should_not_retry_when_max_retries_zero() {
    let mut policy = RetryPolicy::new(0, Duration::from_millis(1));
    let mut counter = 0;

    let result = run(
        &mut policy,
        || {
            counter += 1;
            Err::<String, _>("fail".to_string())
        },
        &mut vec![],
    );

    assert_eq!(result, Err("fail".to_string()));
    assert_eq!(counter, 1);
}

#[test]
fn by_default_it_waits_5_then_25_then_125_minutes() {
    let mut policy = RetryPolicy::default();
    let mut delays = vec![];
    let result = run(&mut policy, || Err::<(), _>("down"), &mut delays);
    assert_eq!(result, Err("down"));
    assert_eq!(
        delays,
        vec![
            Duration::from_secs(300),
            Duration::from_secs(1500),
            Duration::from_secs(7500)
        ]
    );
}

#[test]
fn parts_of_a_second_are_multiplied_too() {
    let policy = RetryPolicy::new(3, Duration { secs: 1, nanos: 300_000_000 });
    assert_eq!(policy.backoff_delay(1), Duration { secs: 6, nanos: 500_000_000 });
    assert_eq!(policy.backoff_delay(2), Duration { secs: 32, nanos: 500_000_000 });
}

#[test]
fn delays_do_not_shrink_and_stay_at_the_longest() {
    let policy = RetryPolicy::new(3, Duration::from_secs(300));
    let mut last = Duration::from_secs(0);
    for attempt in 0..60 {
        let delay = policy.backoff_delay(attempt);
        assert!((delay.secs, delay.nanos) >= (last.secs, last.nanos));
        last = delay;
    }
    assert_eq!(last, Duration::from_secs(u64::MAX));
    assert_eq!(policy.backoff_delay(u32::MAX), Duration::from_secs(u64::MAX));
}

#[test]
fn delays_that_can_be_told_are_exact() {
    let longest = Duration { secs: u64::MAX, nanos: 999_999_999 };
    assert_eq!(RetryPolicy::new(1, longest).backoff_delay(0), longest);
    let near = Duration { secs: u64::MAX, nanos: 5 };
    let policy = RetryPolicy::new(1, near);
    assert_eq!(policy.backoff_delay(0), near);
    assert_eq!(policy.backoff_delay(1), Duration::from_secs(u64::MAX));
    let fifth = Duration { secs: u64::MAX / 5, nanos: 199_999_999 };
    assert_eq!(
        RetryPolicy::new(1, fifth).backoff_delay(1),
        Duration { secs: u64::MAX, nanos: 999_999_995 }
    );
}

#[test]
fn no_delay_stays_none() {
    let policy = RetryPolicy::new(3, Duration::from_secs(0));
    assert_eq!(policy.backoff_delay(0), Duration::from_secs(0));
    assert_eq!(policy.backoff_delay(u32::MAX), Duration::from_secs(0));
}
