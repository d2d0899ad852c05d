//! Bulk deletion: when a batch is done, and when all of it is sent again.

use vstd::prelude::*;

verus! {

/// The pause before a batch is sent again, in milliseconds.
pub const DELETE_RETRY_PAUSE_MILLIS: u64 = 100;

/// What the store reports of one object that it could not delete.
#[derive(Debug, Clone)]
pub struct ItemError {
    pub key: Option<String>,
    pub code: Option<String>,
    pub message: Option<String>,
}

/// The store's reply to a bulk delete, as far as the client reads it.
#[derive(Debug, Clone)]
pub struct DeleteReply {
    pub errors: Option<Vec<ItemError>>,
}

/// What follows a reply to a bulk delete.
#[derive(Debug, Copy, Clone, PartialEq, Eq, Structural)]
pub enum DeleteAction {
    /// Every object of the batch is gone.
    Done,
    /// Pause, then send the whole batch again.
    RetryAfter { pause_millis: u64 },
}

/// The number of objects that a reply reports as not deleted.
pub open spec fn error_count(reply: DeleteReply) -> nat {
    match reply.errors {
        Some(errors) => errors@.len(),
        None => 0,
    }
}

/// What follows a reply that reports `errors` objects as not deleted. One
/// failed object is enough for the whole batch to be sent again.
pub open spec fn delete_action(errors: nat) -> DeleteAction {
    if errors == 0 {
        DeleteAction::Done
    } else {
        DeleteAction::RetryAfter { pause_millis: DELETE_RETRY_PAUSE_MILLIS }
    }
}

/// Decides what follows `reply`.
pub fn after_delete_reply(reply: &DeleteReply) -> (action: DeleteAction)
    ensures
        action == delete_action(error_count(*reply)),
{
    match &reply.errors {
        Some(errors) => {
            if errors.len() == 0 {
                DeleteAction::Done
            } else {
                DeleteAction::RetryAfter { pause_millis: DELETE_RETRY_PAUSE_MILLIS }
            }
        },
        None => DeleteAction::Done,
    }
}

/// The number of times a batch is sent when the store's successive replies
/// report `error_counts` failed objects: once for every reply up to and
/// including the first that reports none.
pub open spec fn batch_calls(error_counts: Seq<nat>) -> nat
    decreases error_counts.len(),
{
    if error_counts.len() == 0 {
        0
    } else if delete_action(error_counts[0]) == DeleteAction::Done {
        1
    } else {
        1 + batch_calls(error_counts.skip(1))
    }
}

/// A bulk delete whose first `failures` replies report failed objects and
/// whose next reply reports none sends the batch exactly `failures + 1`
/// times.
pub proof fn law_bulk_delete_converges(error_counts: Seq<nat>, failures: nat)
    requires
        failures < error_counts.len(),
        forall|i: int| 0 <= i < failures ==> #[trigger] error_counts[i] > 0,
        error_counts[failures as int] == 0,
    ensures
        batch_calls(error_counts) == failures + 1,
    decreases failures,
{
    if failures > 0 {
        let rest = error_counts.skip(1);
        assert(error_counts[0] > 0);
        assert forall|i: int| 0 <= i < failures - 1 implies #[trigger] rest[i] > 0 by {
            assert(rest[i] == error_counts[i + 1]);
        }
        assert(rest[failures - 1] == error_counts[failures as int]);
        law_bulk_delete_converges(rest, (failures - 1) as nat);
    }
}

} // verus!
