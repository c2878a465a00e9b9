//! The completion handle: a single-assignment promise through which exactly
//! one outcome is delivered to a waiting caller.
use std::sync::Arc;
use tokio::sync::oneshot::{Receiver, Sender};
use vstd::prelude::*;

verus! {

/// tokio's oneshot sender, carried opaquely: the handle delivers its outcome
/// through it.
#[verifier::external_type_specification]
#[verifier::external_body]
#[verifier::reject_recursive_types(T)]
pub struct ExOneshotSender<T>(Sender<T>);

/// tokio's oneshot receiver, carried opaquely: the caller awaits its
/// outcome on it.
#[verifier::external_type_specification]
#[verifier::external_body]
#[verifier::reject_recursive_types(T)]
pub struct ExOneshotReceiver<T>(Receiver<T>);

/// tokio's oneshot receive error, opaque; it is named by the receiver's
/// `Future` impl.
#[verifier::external_type_specification]
#[verifier::external_body]
pub struct ExOneshotRecvError(tokio::sync::oneshot::error::RecvError);

/// Relies on tokio::sync::oneshot::channel: a fresh sender and receiver
/// pair of one channel.
#[verifier::external_body]
fn oneshot_channel<T>() -> (Sender<T>, Receiver<T>) {
    tokio::sync::oneshot::channel()
}

/// Relies on tokio::sync::oneshot::Sender::send: the value is handed to the
/// receiver, or, where the receiver is gone, handed back unchanged.
#[verifier::external_body]
fn oneshot_send<T>(sender: Sender<T>, value: T) -> (r: Result<(), T>)
    ensures
        r matches Err(v) ==> v == value,
{
    sender.send(value)
}

/// What a caller receives for its submission.
pub enum Outcome<V, E> {
    /// The handler succeeded; this is the caller's share of its result.
    Resolved(V),
    /// The handler reported a logical error, shared by every caller of the batch.
    Failed(Arc<E>),
    /// Processing broke down (timeouts, faults, a malformed result).
    Faulted(String),
}

/// What a handle holds once `outcome` was offered to it: that outcome if the
/// handle was pending, the earlier one otherwise.
pub open spec fn settle<V, E>(prev: Option<Outcome<V, E>>, outcome: Outcome<V, E>) -> Option<
    Outcome<V, E>,
> {
    if prev is None {
        Some(outcome)
    } else {
        prev
    }
}

/// A single-assignment completion handle: pending until the first outcome is
/// set, terminal afterwards. Later attempts to set an outcome are refused and
/// leave the first one in place.
#[verifier::reject_recursive_types(V)]
#[verifier::reject_recursive_types(E)]
pub struct CompletionHandle<V, E> {
    sender: Option<Sender<Outcome<V, E>>>,
    delivered: Ghost<Option<Outcome<V, E>>>,
}

impl<V, E> CompletionHandle<V, E> {
    /// The outcome set so far, if any.
    pub closed spec fn outcome(&self) -> Option<Outcome<V, E>> {
        self.delivered@
    }

    pub closed spec fn wf(&self) -> bool {
        self.sender.is_some() <==> self.delivered@.is_none()
    }

    /// A pending handle, and the receiver on which its outcome will arrive.
    pub fn new() -> (r: (Self, Receiver<Outcome<V, E>>))
        ensures
            r.0.wf(),
            r.0.outcome().is_none(),
    {
        let (sender, receiver) = oneshot_channel();
        (CompletionHandle { sender: Some(sender), delivered: Ghost(None) }, receiver)
    }

    pub fn is_pending(&self) -> (r: bool)
        requires
            self.wf(),
        ensures
            r == self.outcome().is_none(),
    {
        self.sender.is_some()
    }

    /// Sets the outcome if none is set yet. Where one is set already, nothing
    /// changes and the rejected outcome is handed back.
    pub fn try_set(&mut self, outcome: Outcome<V, E>) -> (r: Result<(), Outcome<V, E>>)
        requires
            old(self).wf(),
        ensures
            final(self).wf(),
            final(self).outcome() == settle(old(self).outcome(), outcome),
            r is Ok <==> old(self).outcome() is None,
            r is Err ==> r == Err::<(), Outcome<V, E>>(outcome),
    {
        match self.sender.take() {
            Some(sender) => {
                self.delivered = Ghost(Some(outcome));
                // A receiver that is gone means the caller stopped waiting:
                // the outcome is still the one recorded.
                let _ = oneshot_send(sender, outcome);
                Ok(())
            },
            None => Err(outcome),
        }
    }

    pub fn try_set_ok(&mut self, value: V) -> (r: Result<(), Outcome<V, E>>)
        requires
            old(self).wf(),
        ensures
            final(self).wf(),
            final(self).outcome() == settle(old(self).outcome(), Outcome::<V, E>::Resolved(value)),
            r is Ok <==> old(self).outcome() is None,
    {
        self.try_set(Outcome::Resolved(value))
    }

    pub fn try_set_error(&mut self, err: Arc<E>) -> (r: Result<(), Outcome<V, E>>)
        requires
            old(self).wf(),
        ensures
            final(self).wf(),
            final(self).outcome() == settle(old(self).outcome(), Outcome::<V, E>::Failed(err)),
            r is Ok <==> old(self).outcome() is None,
    {
        self.try_set(Outcome::Failed(err))
    }

    pub fn try_set_panic(&mut self, message: String) -> (r: Result<(), Outcome<V, E>>)
        requires
            old(self).wf(),
        ensures
            final(self).wf(),
            final(self).outcome() == settle(old(self).outcome(), Outcome::<V, E>::Faulted(message)),
            r is Ok <==> old(self).outcome() is None,
    {
        self.try_set(Outcome::Faulted(message))
    }
}

} // verus!
