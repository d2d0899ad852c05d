//! Which failures of a call to the store are retried, and what follows each
//! attempt.

use crate::backoff::{action_after, delay_after, valid_factor, Backoff, RetryAction};
use vstd::prelude::*;

verus! {

/// The four kinds of call that are made to the store.
#[derive(Debug, Copy, Clone, PartialEq, Eq, Structural)]
pub enum Operation {
    Get,
    Put,
    List,
    Delete,
}

/// How one attempt ended.
#[derive(Debug, Copy, Clone, PartialEq, Eq, Structural)]
pub enum AttemptResult {
    /// The store did what was asked.
    Success,
    /// The store says that there is no such object.
    NotFound,
    /// Anything else went wrong.
    Failure,
}

/// Whether an attempt that ended in `result` may be made again. Only one
/// ending is final although it is a failure: a `Get` of an object that is
/// not there.
pub open spec fn retryable(operation: Operation, result: AttemptResult) -> bool {
    !(operation == Operation::Get && result == AttemptResult::NotFound)
}

/// Whether `result` is a failure.
pub open spec fn failed(result: AttemptResult) -> bool {
    result != AttemptResult::Success
}

/// Says whether an attempt that ended in `result` may be made again.
pub fn is_retryable(operation: Operation, result: AttemptResult) -> (again: bool)
    ensures
        again == retryable(operation, result),
{
    !(operation == Operation::Get && result == AttemptResult::NotFound)
}

/// Decides what follows an attempt of `operation` that ended in `result`,
/// given the growth factor to use should a retry be due: a success and a
/// missing object on `Get` finish the operation, every other failure asks for
/// a pause of the current delay and lets the delay grow.
pub fn next_action_with(
    backoff: &mut Backoff,
    operation: Operation,
    result: AttemptResult,
    factor: u64,
) -> (action: RetryAction)
    requires
        valid_factor(factor),
    ensures
        action == action_after(old(backoff).delay(), retryable(operation, result), failed(result)),
        final(backoff).delay() == delay_after(
            old(backoff).delay(),
            retryable(operation, result),
            failed(result),
            factor,
        ),
{
    let again: bool = is_retryable(operation, result);
    backoff.on_attempt(again, result != AttemptResult::Success, factor)
}

/// Decides what follows an attempt of `operation` that ended in `result`,
/// with a growth factor drawn at random.
pub fn next_action(backoff: &mut Backoff, operation: Operation, result: AttemptResult) -> (action:
    RetryAction)
    ensures
        action == action_after(old(backoff).delay(), retryable(operation, result), failed(result)),
        exists|factor: u64|
            valid_factor(factor) && final(backoff).delay() == #[trigger] delay_after(
                old(backoff).delay(),
                retryable(operation, result),
                failed(result),
                factor,
            ),
{
    let again: bool = is_retryable(operation, result);
    backoff.after_attempt(again, result != AttemptResult::Success)
}

/// A success ends an operation, and so does a missing object on `Get`; every
/// other failure is followed by a pause and another attempt, however many
/// attempts there have been.
pub proof fn law_only_success_and_missing_object_finish(
    delay: u64,
    operation: Operation,
    result: AttemptResult,
)
    ensures
        action_after(delay, retryable(operation, result), failed(result)) == RetryAction::Finish
            <==> (result == AttemptResult::Success || (operation == Operation::Get && result
            == AttemptResult::NotFound)),
{
}

} // verus!
