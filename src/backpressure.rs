//! The retry discipline for the bounded control channel.
//!
//! The sender tries to enqueue a message; while the channel reports that it
//! is full, the message comes back and is tried again after a fixed delay.
//! Any other outcome ends the attempt and is reported to the caller. The
//! loop itself, with its sleeping, is run by the caller: this module decides
//! each step of it.

use vstd::prelude::*;

verus! {

/// How long a sender waits before trying a full channel again, in milliseconds.
pub const RETRY_DELAY_MS: u64 = 10;

/// What one attempt to enqueue a message on the control channel came to.
pub enum DeliveryOutcome<M> {
    /// The message is in the queue.
    Delivered,
    /// The queue is full; the message comes back unsent.
    Full(M),
    /// The receiving side is gone, possibly handing back the message.
    Closed(Option<M>),
    /// Waking the receiving side failed.
    Failed,
}

/// Why a message could not be enqueued.
pub enum DeliveryError<M> {
    Closed(Option<M>),
    Failed,
}

/// The next thing a sender does after one attempt.
pub enum RetryStep<M> {
    /// Wait `delay_ms` milliseconds, then try `message` again.
    WaitAndRetry { message: M, delay_ms: u64 },
    /// Stop and report this result.
    Finish(Result<(), DeliveryError<M>>),
}

/// The step that follows `outcome`: only a full channel is tried again, and
/// a message handed back by the channel is carried on, never dropped.
pub open spec fn retry_step<M>(outcome: DeliveryOutcome<M>) -> RetryStep<M> {
    match outcome {
        DeliveryOutcome::Delivered => RetryStep::Finish(Ok(())),
        DeliveryOutcome::Full(m) => RetryStep::WaitAndRetry { message: m, delay_ms: RETRY_DELAY_MS },
        DeliveryOutcome::Closed(m) => RetryStep::Finish(Err(DeliveryError::Closed(m))),
        DeliveryOutcome::Failed => RetryStep::Finish(Err(DeliveryError::Failed)),
    }
}

/// Decides what a sender does after an attempt that came to `outcome`.
pub fn next_step<M>(outcome: DeliveryOutcome<M>) -> (s: RetryStep<M>)
    ensures
        s == retry_step(outcome),
{
    match outcome {
        DeliveryOutcome::Delivered => RetryStep::Finish(Ok(())),
        DeliveryOutcome::Full(m) => RetryStep::WaitAndRetry { message: m, delay_ms: RETRY_DELAY_MS },
        DeliveryOutcome::Closed(m) => RetryStep::Finish(Err(DeliveryError::Closed(m))),
        DeliveryOutcome::Failed => RetryStep::Finish(Err(DeliveryError::Failed)),
    }
}

/// What a channel that is full for `full_left` more attempts reports when
/// `m` is offered to it.
pub open spec fn full_then_delivered<M>(full_left: nat, m: M) -> DeliveryOutcome<M> {
    if full_left > 0 {
        DeliveryOutcome::Full(m)
    } else {
        DeliveryOutcome::Delivered
    }
}

/// The steps a sender takes when it offers `m` to a channel that reports
/// full `full_left` more times and then accepts.
pub open spec fn steps_against<M>(full_left: nat, m: M) -> Seq<RetryStep<M>>
    decreases full_left,
{
    let s = retry_step(full_then_delivered(full_left, m));
    match s {
        RetryStep::WaitAndRetry { message, delay_ms } => if full_left > 0 {
            seq![s] + steps_against((full_left - 1) as nat, message)
        } else {
            seq![s]
        },
        RetryStep::Finish(_) => seq![s],
    }
}

/// Against a channel that reports full exactly `k` times before accepting,
/// a sender retries exactly `k` times, waits at least the fixed delay before
/// each retry, offers the same message every time, and then finishes with
/// success.
pub proof fn lemma_retries_until_accepted<M>(k: nat, m: M)
    ensures
        steps_against(k, m).len() == k + 1,
        forall|i: int|
            0 <= i < k ==> #[trigger] steps_against(k, m)[i] == (RetryStep::WaitAndRetry {
                message: m,
                delay_ms: RETRY_DELAY_MS,
            }),
        steps_against(k, m)[k as int] == RetryStep::<M>::Finish(Ok(())),
        RETRY_DELAY_MS >= 10,
    decreases k,
{
    if k > 0 {
        lemma_retries_until_accepted((k - 1) as nat, m);
        let s = RetryStep::WaitAndRetry { message: m, delay_ms: RETRY_DELAY_MS };
        let rest = steps_against((k - 1) as nat, m);
        assert(steps_against(k, m) == seq![s] + rest);
        assert forall|i: int| 0 <= i < k implies #[trigger] steps_against(k, m)[i] == s by {
            if i > 0 {
                assert(steps_against(k, m)[i] == rest[i - 1]);
            }
        }
        assert(steps_against(k, m)[k as int] == rest[k - 1]);
    }
}

} // verus!
