//! The decisions of the drain loop around one batch: after each attempt to
//! run the handler, whether to retry the same batch, give up and fault it,
//! or hand the handler's answer on to the fanout.
use vstd::prelude::*;

verus! {

/// The number of attempts a batch gets before it is faulted.
pub const MAX_ATTEMPTS: u32 = 5;

/// The time one attempt may take before it is abandoned, in seconds.
pub const DEFAULT_TICK_TIMEOUT_SECS: u64 = 10;

/// The pause before a failed attempt is repeated, in seconds.
pub const RETRY_BACKOFF_SECS: u64 = 1;

/// How one attempt to run the handler ended.
pub enum AttemptEvent<V, E> {
    /// The attempt took longer than the timeout and was abandoned.
    TimedOut,
    /// The handler broke down instead of returning; the text says how.
    Crashed(String),
    /// The handler returned: a batch result, or a logical error.
    Returned(Result<V, E>),
}

/// What the drain loop does next with its batch.
pub enum Action<V, E> {
    /// Pause for the backoff, then run the handler again on the same items.
    Retry,
    /// Abandon the batch: every entry is faulted with this message.
    Fault(String),
    /// Fan the handler's result out over the entries.
    Deliver(V),
    /// Fail every entry with the handler's logical error.
    Fail(E),
}

/// Whether a failure (timeout or crash) of attempt `attempt_no`, counted
/// from one, is followed by another attempt.
pub open spec fn retried(attempt_no: int) -> bool {
    attempt_no < MAX_ATTEMPTS
}

/// The message with which a batch is faulted after its last failed attempt.
pub open spec fn fault_message<V, E>(event: AttemptEvent<V, E>) -> Seq<char> {
    match event {
        AttemptEvent::Crashed(m) => m@,
        _ => "Timeout"@,
    }
}

/// The attempts made so far on one batch.
pub struct RoundTrip {
    attempt_no: u32,
}

impl RoundTrip {
    /// The number of attempts made so far.
    pub closed spec fn attempts(&self) -> int {
        self.attempt_no as int
    }

    /// A batch on which no attempt was made yet.
    pub fn new() -> (r: Self)
        ensures
            r.attempts() == 0,
    {
        RoundTrip { attempt_no: 0 }
    }

    /// The number of attempts made so far.
    pub fn attempt_no(&self) -> (r: u32)
        ensures
            r == self.attempts(),
    {
        self.attempt_no
    }

    /// Records how an attempt ended and decides what follows. A timeout or a
    /// crash is retried while attempts remain and faults the batch after the
    /// last one; a returned result or logical error is never retried.
    pub fn on_attempt<V, E>(&mut self, event: AttemptEvent<V, E>) -> (r: Action<V, E>)
        requires
            old(self).attempts() < MAX_ATTEMPTS,
        ensures
            final(self).attempts() == old(self).attempts() + 1,
            match event {
                AttemptEvent::Returned(Ok(v)) => r == Action::<V, E>::Deliver(v),
                AttemptEvent::Returned(Err(e)) => r == Action::<V, E>::Fail(e),
                _ => {
                    &&& (r is Retry <==> retried(final(self).attempts()))
                    &&& (r matches Action::Fault(m) ==> m@ == fault_message(event))
                    &&& (r is Retry || r is Fault)
                },
            },
    {
        self.attempt_no = self.attempt_no + 1;
        match event {
            AttemptEvent::Returned(Ok(v)) => Action::Deliver(v),
            AttemptEvent::Returned(Err(e)) => Action::Fail(e),
            AttemptEvent::TimedOut => {
                if self.attempt_no < MAX_ATTEMPTS {
                    Action::Retry
                } else {
                    proof {
                        reveal_strlit("Timeout");
                    }
                    Action::Fault("Timeout".to_owned())
                }
            },
            AttemptEvent::Crashed(message) => {
                if self.attempt_no < MAX_ATTEMPTS {
                    Action::Retry
                } else {
                    Action::Fault(message)
                }
            },
        }
    }
}

/// A handler that always times out or crashes is invoked exactly
/// `MAX_ATTEMPTS` (five) times: the failures of the first four attempts are
/// each followed by a backoff pause and a retry, the fifth faults the batch.
pub proof fn lemma_failing_handler_gets_five_attempts()
    ensures
        MAX_ATTEMPTS == 5,
        forall|n: int| 1 <= n < 5 ==> #[trigger] retried(n),
        !retried(5),
{
}

} // verus!
