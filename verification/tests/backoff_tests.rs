use zfs_object_agent::backoff::{
    grow_delay, is_long_operation, Backoff, RetryAction, FACTOR_END, FACTOR_MIN,
    FIRST_DELAY_END_NANOS, FIRST_DELAY_MIN_NANOS, LONG_OPERATION_NANOS,
};
use zfs_object_agent::retry::{is_retryable, next_action, next_action_with, AttemptResult, Operation};

#[test]
fn grow_delay_rounds_up() {
    assert_eq!(grow_delay(1_000_000, 1_500_000), 1_500_000);
    assert_eq!(grow_delay(1_000_000, 2_499_999), 2_499_999);
    assert_eq!(grow_delay(3, 1_500_000), 5);
    assert_eq!(grow_delay(1_000_001, 1_500_000), 1_500_002);
    assert_eq!(grow_delay(0, 2_000_000), 0);
}

#[test]
fn grow_delay_saturates() {
    assert_eq!(grow_delay(u64::MAX, 2_000_000), u64::MAX);
    assert_eq!(grow_delay(u64::MAX / 2 + 1, 2_000_000), u64::MAX);
}

#[test]
fn first_delay_is_between_one_and_two_hundred_milliseconds() {
    let mut seen_different = false;
    let first = Backoff::begin().delay_nanos();
    for _ in 0..200 {
        let delay = Backoff::begin().delay_nanos();
        assert!(delay >= FIRST_DELAY_MIN_NANOS);
        assert!(delay < FIRST_DELAY_END_NANOS);
        if delay != first {
            seen_different = true;
        }
    }
    assert!(seen_different);
}

#[test]
fn constants_have_the_documented_values() {
    assert_eq!(FIRST_DELAY_MIN_NANOS, 1_000_000);
    assert_eq!(FIRST_DELAY_END_NANOS, 200_000_000);
    assert_eq!(FACTOR_MIN, 1_500_000);
    assert_eq!(FACTOR_END, 2_500_000);
    assert_eq!(LONG_OPERATION_NANOS, 2_000_000_000);
}

#[test]
fn successive_delays_grow_within_bounds() {
    let mut backoff = Backoff::begin();
    let mut previous = backoff.delay_nanos();
    for _ in 0..30 {
        let action = backoff.after_attempt(true, true);
        assert_eq!(
            action,
            RetryAction::Sleep { delay_nanos: previous, long: previous > LONG_OPERATION_NANOS }
        );
        let next = backoff.delay_nanos();
        assert!(2 * (next as u128) >= 3 * (previous as u128));
        assert!(2 * (next as u128) < 5 * (previous as u128));
        previous = next;
    }
}

#[test]
fn on_attempt_sleeps_for_the_current_delay_then_grows() {
    let mut backoff = Backoff::with_first_delay(10_000_000);
    let action = backoff.on_attempt(true, true, 2_000_000);
    assert_eq!(action, RetryAction::Sleep { delay_nanos: 10_000_000, long: false });
    assert_eq!(backoff.delay_nanos(), 20_000_000);
    let action = backoff.on_attempt(true, true, 1_500_000);
    assert_eq!(action, RetryAction::Sleep { delay_nanos: 20_000_000, long: false });
    assert_eq!(backoff.delay_nanos(), 30_000_000);
}

#[test]
fn on_attempt_flags_long_pauses() {
    let mut backoff = Backoff::with_first_delay(150_000_000);
    let mut action = backoff.on_attempt(true, true, 2_000_000);
    let mut rounds = 0;
    while let RetryAction::Sleep { delay_nanos, long } = action {
        assert_eq!(long, delay_nanos > 2_000_000_000);
        if long {
            break;
        }
        rounds += 1;
        assert!(rounds < 10);
        action = backoff.on_attempt(true, true, 2_000_000);
    }
    assert_eq!(action, RetryAction::Sleep { delay_nanos: 2_400_000_000, long: true });
}

#[test]
fn pause_of_exactly_two_seconds_is_not_long() {
    let mut backoff = Backoff::with_first_delay(125_000_000);
    for _ in 0..4 {
        backoff.on_attempt(true, true, 2_000_000);
    }
    assert_eq!(backoff.delay_nanos(), 2_000_000_000);
    let action = backoff.on_attempt(true, true, 2_000_000);
    assert_eq!(action, RetryAction::Sleep { delay_nanos: 2_000_000_000, long: false });
}

#[test]
fn on_attempt_finishes_on_success_and_on_final_failure() {
    let mut backoff = Backoff::with_first_delay(10_000_000);
    assert_eq!(backoff.on_attempt(true, false, 2_000_000), RetryAction::Finish);
    assert_eq!(backoff.on_attempt(false, true, 2_000_000), RetryAction::Finish);
    assert_eq!(backoff.on_attempt(false, false, 2_000_000), RetryAction::Finish);
    assert_eq!(backoff.delay_nanos(), 10_000_000);
}

#[test]
fn long_operation_threshold_is_two_seconds() {
    assert!(!is_long_operation(0));
    assert!(!is_long_operation(2_000_000_000));
    assert!(is_long_operation(2_000_000_001));
}

#[test]
fn only_a_missing_object_on_get_is_final() {
    assert!(!is_retryable(Operation::Get, AttemptResult::NotFound));
    assert!(is_retryable(Operation::Get, AttemptResult::Failure));
    assert!(is_retryable(Operation::Get, AttemptResult::Success));
    for operation in [Operation::Put, Operation::List, Operation::Delete] {
        assert!(is_retryable(operation, AttemptResult::NotFound));
        assert!(is_retryable(operation, AttemptResult::Failure));
        assert!(is_retryable(operation, AttemptResult::Success));
    }
}

#[test]
fn next_action_with_follows_the_classification() {
    let mut backoff = Backoff::with_first_delay(4_000_000);
    assert_eq!(
        next_action_with(&mut backoff, Operation::Get, AttemptResult::NotFound, 2_000_000),
        RetryAction::Finish
    );
    assert_eq!(
        next_action_with(&mut backoff, Operation::Get, AttemptResult::Success, 2_000_000),
        RetryAction::Finish
    );
    assert_eq!(backoff.delay_nanos(), 4_000_000);
    assert_eq!(
        next_action_with(&mut backoff, Operation::Get, AttemptResult::Failure, 2_000_000),
        RetryAction::Sleep { delay_nanos: 4_000_000, long: false }
    );
    assert_eq!(
        next_action_with(&mut backoff, Operation::Put, AttemptResult::NotFound, 1_500_000),
        RetryAction::Sleep { delay_nanos: 8_000_000, long: false }
    );
    assert_eq!(backoff.delay_nanos(), 12_000_000);
}

#[test]
fn next_action_retries_failures_without_limit() {
    let mut backoff = Backoff::begin();
    for _ in 0..100 {
        let before = backoff.delay_nanos();
        let action = next_action(&mut backoff, Operation::List, AttemptResult::Failure);
        assert_eq!(
            action,
            RetryAction::Sleep { delay_nanos: before, long: before > 2_000_000_000 }
        );
        assert!(backoff.delay_nanos() >= before);
    }
    assert_eq!(
        next_action(&mut backoff, Operation::List, AttemptResult::Success),
        RetryAction::Finish
    );
}
