//! One attempt of "increment the counter unless it is zero" on a shared
//! atomic counter; the caller repeats attempts until one is conclusive.

use vstd::prelude::*;
use std::sync::atomic::{AtomicUsize, Ordering};

verus! {

/// The outcome of one attempt.
#[derive(Debug, Clone, Copy, PartialEq, Eq, Structural)]
pub enum IncrAttempt {
    /// The attempt is conclusive; this is the value to report (the new value
    /// of the counter, or 0 if it was zero).
    Done(usize),
    /// Another thread changed the counter (or the exchange failed
    /// spuriously); retry with this freshly observed value.
    Retry(usize),
}

/// `AtomicUsize::compare_exchange_weak` with sequentially consistent
/// ordering: on success the previous value is returned in `Ok` and equals
/// `current` (std documents this); a failure returns the value observed,
/// which may even equal `current` because the weak form may fail spuriously.
#[verifier::external_body]
fn compare_exchange_weak_seqcst(counter: &AtomicUsize, current: usize, new: usize) -> (r: Result<usize, usize>)
    ensures
        r matches Ok(prev) ==> prev == current,
{
    counter.compare_exchange_weak(current, new, Ordering::SeqCst, Ordering::SeqCst)
}

/// The value an attempt asks the counter to move to: one more than the
/// value it was last seen holding.
pub fn incremented(loaded: usize) -> (n: usize)
    requires
        loaded < usize::MAX,
    ensures
        n == loaded + 1,
{
    loaded + 1
}

/// What an attempt reports for the result of the exchange: on success the
/// counter held `prev` and now holds one more, which is reported; on failure
/// the attempt is retried with the value that was observed.
pub open spec fn spec_attempt_outcome(exchanged: Result<usize, usize>) -> IncrAttempt {
    match exchanged {
        Ok(prev) => IncrAttempt::Done((prev + 1) as usize),
        Err(actual) => IncrAttempt::Retry(actual),
    }
}

/// Maps the result of the exchange to the outcome of the attempt.
pub fn attempt_outcome(exchanged: Result<usize, usize>) -> (r: IncrAttempt)
    requires
        exchanged matches Ok(prev) ==> prev < usize::MAX,
    ensures
        r == spec_attempt_outcome(exchanged),
{
    match exchanged {
        Ok(prev) => IncrAttempt::Done(prev + 1),
        Err(actual) => IncrAttempt::Retry(actual),
    }
}

/// One attempt to increment `counter`, which was last seen holding `loaded`:
/// a zero counter is left alone (result 0); otherwise the counter is asked to
/// move from `loaded` to `incremented(loaded)`, and the outcome is
/// `attempt_outcome` of what the exchange returned, a success (which means
/// the counter held `loaded`) or the value observed instead.
pub fn try_incr_if_not_zero(counter: &AtomicUsize, loaded: usize) -> (r: IncrAttempt)
    requires
        loaded < usize::MAX,
    ensures
        loaded == 0 ==> r == IncrAttempt::Done(0),
        loaded != 0 ==> exists|exchanged: Result<usize, usize>|
            (exchanged matches Ok(prev) ==> prev == loaded) && r == #[trigger] spec_attempt_outcome(exchanged),
{
    if loaded == 0 {
        return IncrAttempt::Done(0);
    }
    let exchanged = compare_exchange_weak_seqcst(counter, loaded, incremented(loaded));
    attempt_outcome(exchanged)
}

} // verus!
