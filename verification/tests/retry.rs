use oncall_ai::retry::{Attempts, Backoff, Delay, Retry};

fn millis(initial: u64, max: u64) -> Backoff {
    Backoff { initial: Delay::from_millis(initial), max: Delay::from_millis(max) }
}

/// Runs `attempt` until it succeeds or its error is declined, and lists the delays in between.
fn run<T>(
    backoff: Backoff,
    mut keep_trying: impl FnMut(&str) -> bool,
    mut attempt: impl FnMut() -> Result<T, String>,
) -> (Result<T, String>, Vec<u128>) {
    let mut attempts = Attempts::new(backoff);
    let mut delays = Vec::new();
    loop {
        let error = match attempt() {
            Ok(value) => return (Ok(value), delays),
            Err(error) => error,
        };
        match attempts.failed(keep_trying(&error)) {
            Retry::GiveUp => return (Err(error), delays),
            Retry::After { delay } => delays.push(delay.nanos() / 1_000_000),
        }
    }
}

#[test]
fn first_success_needs_no_retry() {
    let mut calls = 0u32;
    let (result, delays) = run(
        millis(1, 1),
        |_| true,
        || {
            calls += 1;
            Ok(7)
        },
    );
    assert_eq!(result.expect("first call succeeds"), 7);
    assert_eq!(calls, 1);
    assert!(delays.is_empty());
}

#[test]
fn declined_error_returns_without_another_attempt() {
    let mut calls = 0u32;
    let (result, delays) = run::<u32>(
        millis(1, 1),
        |_| false,
        || {
            calls += 1;
            Err("boom".to_owned())
        },
    );
    assert_eq!(result.expect_err("policy declines the first error"), "boom");
    assert_eq!(calls, 1);
    assert!(delays.is_empty());
}

#[test]
fn stateful_policy_caps_attempts() {
    let mut calls = 0u32;
    let mut seen = 0u32;
    let (result, delays) = run::<u32>(
        millis(1, 1),
        |_| {
            seen += 1;
            seen < 3
        },
        || {
            calls += 1;
            Err(format!("attempt {calls}"))
        },
    );
    assert_eq!(
        result.expect_err("third error is returned"),
        "attempt 3",
        "the policy must see errors in call order"
    );
    assert_eq!(calls, 3);
    assert_eq!(delays, vec![1, 1]);
}

#[test]
fn backoff_delays_grow_up_to_the_cap() {
    let mut calls = 0u32;
    let (result, delays) = run(
        millis(1, 4),
        |_| true,
        || {
            calls += 1;
            if calls < 4 {
                Err("not yet".to_owned())
            } else {
                Ok(calls)
            }
        },
    );
    assert_eq!(result.expect("fourth call succeeds"), 4);
    assert_eq!(delays, vec![1, 2, 4], "backoffs of 1+2+4 ms must elapse");
}

#[test]
fn delays_stay_at_the_cap() {
    let mut attempts = Attempts::new(millis(100, 350));
    let mut delays = Vec::new();
    for _ in 0..5 {
        if let Retry::After { delay } = attempts.failed(true) {
            delays.push(delay.nanos() / 1_000_000);
        }
    }
    assert_eq!(delays, vec![100, 200, 350, 350, 350]);
}

#[test]
fn a_first_delay_above_the_cap_is_waited_once() {
    let mut attempts = Attempts::new(millis(100, 40));
    assert_eq!(attempts.failed(true), Retry::After { delay: Delay::from_millis(100) });
    assert_eq!(attempts.failed(true), Retry::After { delay: Delay::from_millis(40) });
    assert_eq!(attempts.failed(true), Retry::After { delay: Delay::from_millis(40) });
}

#[test]
fn delays_are_held_exactly() {
    assert_eq!(Delay::from_millis(1_500).parts(), (1, 500_000_000));
    assert_eq!(Delay::from_secs(u64::MAX).parts(), (u64::MAX, 0));
    assert_eq!(Delay::from_secs(2).nanos(), 2_000_000_000);
    let longest = Delay::from_secs(u64::MAX);
    assert_eq!(longest.doubled_up_to(longest), longest);
}
