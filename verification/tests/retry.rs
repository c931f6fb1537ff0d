use henan_toponym::pacing::Pacing;
use henan_toponym::retry::{
    backoff_delay, backoff_with_jitter, Retry, Step, ATTEMPT_CEILING, JITTER_CEILING_MS,
};

struct Run {
    result: Result<&'static str, String>,
    attempts: u32,
    waits: Vec<u32>,
}

fn run_with_failures(max_attempts: u32, failures_before_success: Option<u32>) -> Run {
    let mut retry = Retry::new(max_attempts);
    let mut attempts = 0;
    let mut waits = Vec::new();
    loop {
        attempts += 1;
        let outcome = match failures_before_success {
            Some(failures) if attempts > failures => Ok("payload"),
            _ => Err(format!("failure {}", attempts)),
        };
        match retry.record(outcome) {
            Step::Done(result) => return Run { result, attempts, waits },
            Step::Wait { failures } => waits.push(failures),
        }
    }
}

#[test]
fn first_success_is_handed_on_at_once() {
    let run = run_with_failures(5, Some(0));
    assert_eq!(run.result, Ok("payload"));
    assert_eq!(run.attempts, 1);
    assert_eq!(run.waits, Vec::<u32>::new());
}

#[test]
fn success_after_k_failures_takes_k_plus_one_attempts() {
    for max_attempts in 1..=6 {
        for failed in 0..max_attempts {
            let run = run_with_failures(max_attempts, Some(failed));
            assert_eq!(run.result, Ok("payload"));
            assert_eq!(run.attempts, failed + 1);
            assert_eq!(run.waits, (1..=failed).collect::<Vec<u32>>());
        }
    }
}

#[test]
fn always_failing_takes_max_attempts_and_returns_last_error() {
    for max_attempts in 1..=6 {
        let run = run_with_failures(max_attempts, None);
        assert_eq!(run.result, Err(format!("failure {}", max_attempts)));
        assert_eq!(run.attempts, max_attempts);
        assert_eq!(run.waits, (1..max_attempts).collect::<Vec<u32>>());
    }
}

#[test]
fn success_on_the_attempt_after_the_last_is_never_reached() {
    let run = run_with_failures(3, Some(3));
    assert_eq!(run.result, Err("failure 3".to_string()));
    assert_eq!(run.attempts, 3);
}

#[test]
fn zero_attempts_still_makes_one() {
    let run = run_with_failures(0, None);
    assert_eq!(run.result, Err("failure 1".to_string()));
    assert_eq!(run.attempts, 1);
    let run = run_with_failures(0, Some(0));
    assert_eq!(run.result, Ok("payload"));
    assert_eq!(run.attempts, 1);
}

#[test]
fn record_counts_failures() {
    let mut retry = Retry::new(5);
    assert_eq!(retry.max_attempts(), 5);
    assert_eq!(retry.failures(), 0);
    assert_eq!(retry.record::<u8, u8>(Err(9)), Step::Wait { failures: 1 });
    assert_eq!(retry.failures(), 1);
    assert_eq!(retry.record::<u8, u8>(Err(8)), Step::Wait { failures: 2 });
    assert_eq!(retry.record::<u8, u8>(Ok(3)), Step::Done(Ok(3)));
    assert_eq!(retry.failures(), 2);
    assert_eq!(retry.record::<u8, u8>(Err(7)), Step::Wait { failures: 3 });
    assert_eq!(retry.record::<u8, u8>(Err(6)), Step::Wait { failures: 4 });
    assert_eq!(retry.record::<u8, u8>(Err(5)), Step::Done(Err(5)));
    assert_eq!(retry.failures(), 4);
    assert_eq!(retry.record::<u8, u8>(Err(4)), Step::Done(Err(4)));
}

#[test]
fn ceiling_of_attempts_is_accepted() {
    let run = run_with_failures(ATTEMPT_CEILING, None);
    assert_eq!(run.attempts, 64);
    assert_eq!(run.waits.last(), Some(&63));
}

#[test]
fn backoff_is_power_of_two_plus_jitter() {
    assert_eq!(backoff_with_jitter(0, 0), 1);
    assert_eq!(backoff_with_jitter(1, 0), 2);
    assert_eq!(backoff_with_jitter(1, 1000), 1002);
    assert_eq!(backoff_with_jitter(2, 17), 21);
    assert_eq!(backoff_with_jitter(4, 500), 516);
    assert_eq!(backoff_with_jitter(10, 1), 1025);
    assert_eq!(backoff_with_jitter(63, 1000), 9223372036854775808 + 1000);
}

#[test]
fn drawn_backoff_stays_in_range() {
    assert_eq!(JITTER_CEILING_MS, 1000);
    for failures in 0..8u32 {
        for _ in 0..200 {
            let delay = backoff_delay(failures);
            assert!(delay >= 1 << failures);
            assert!(delay <= (1 << failures) + 1000);
        }
    }
}

#[test]
fn drawn_backoff_varies() {
    let first = backoff_delay(1);
    let mut differs = false;
    for _ in 0..1000 {
        if backoff_delay(1) != first {
            differs = true;
        }
    }
    assert!(differs);
}

#[test]
fn pacing_ranges() {
    assert_eq!((Pacing::AfterFailedSearch.min_ms(), Pacing::AfterFailedSearch.max_ms()), (2000, 5000));
    assert_eq!((Pacing::BetweenRecords.min_ms(), Pacing::BetweenRecords.max_ms()), (800, 2000));
    assert_eq!((Pacing::BetweenCounties.min_ms(), Pacing::BetweenCounties.max_ms()), (3000, 8000));
    assert_eq!((Pacing::BetweenRetries.min_ms(), Pacing::BetweenRetries.max_ms()), (1000, 3000));
    assert_eq!((Pacing::BetweenSweeps.min_ms(), Pacing::BetweenSweeps.max_ms()), (5000, 10000));
}

#[test]
fn drawn_pauses_stay_in_range() {
    let places = [
        Pacing::AfterFailedSearch,
        Pacing::BetweenRecords,
        Pacing::BetweenCounties,
        Pacing::BetweenRetries,
        Pacing::BetweenSweeps,
    ];
    for pacing in places {
        for _ in 0..500 {
            let ms = pacing.draw_ms();
            assert!(pacing.min_ms() <= ms && ms <= pacing.max_ms());
        }
    }
}

#[test]
fn drawn_pauses_vary() {
    let first = Pacing::BetweenSweeps.draw_ms();
    let mut differs = false;
    for _ in 0..1000 {
        if Pacing::BetweenSweeps.draw_ms() != first {
            differs = true;
        }
    }
    assert!(differs);
}
