//! The shared queue of pending entries, with the receive side of the wake
//! signal that the drain loop takes once, and the batch assembler.
use crate::batch::RcpRequestData;
use crate::request::{all_wf, handles_of, items_of, sizes_of, Request};
use tokio::sync::mpsc::UnboundedReceiver;
use vstd::prelude::*;

verus! {

/// tokio's unbounded receiver, carried opaquely: the receive side of the
/// wake signal, kept here until the drain loop takes it.
#[verifier::external_type_specification]
#[verifier::external_body]
#[verifier::reject_recursive_types(T)]
pub struct ExUnboundedReceiver<T>(UnboundedReceiver<T>);

/// How many entries one drain cycle detaches from a queue of `len` entries
/// under the cap `max`: all of them if they fit, else the `max` oldest.
pub open spec fn batch_len(len: int, max: int) -> int {
    if len <= max {
        len
    } else {
        max
    }
}

/// The shared state of an engine: the queue of pending entries in arrival
/// order, and the receive side of the wake signal until the drain loop
/// takes it.
#[verifier::reject_recursive_types(V)]
#[verifier::reject_recursive_types(TError)]
pub struct RpcAggregatorInner<TItem, V, TError> {
    receiver: Option<UnboundedReceiver<()>>,
    queue: Vec<Request<TItem, V, TError>>,
}

impl<TItem, V, TError> RpcAggregatorInner<TItem, V, TError> {
    /// The pending entries, oldest first.
    pub closed spec fn queue(&self) -> Seq<Request<TItem, V, TError>> {
        self.queue@
    }

    /// Whether the receive side of the wake signal is still here.
    pub closed spec fn has_receiver(&self) -> bool {
        self.receiver is Some
    }

    pub closed spec fn wf(&self) -> bool {
        all_wf(self.queue@)
    }

    /// An empty queue that holds the receive side of the wake signal.
    pub fn new(receiver: UnboundedReceiver<()>) -> (r: Self)
        ensures
            r.wf(),
            r.queue().len() == 0,
            r.has_receiver(),
    {
        RpcAggregatorInner { receiver: Some(receiver), queue: Vec::new() }
    }

    /// Takes the receive side of the wake signal. Only the first call gets
    /// it; a second one gets `None`, which marks a second start of the
    /// engine.
    pub fn take_receiver(&mut self) -> (r: Option<UnboundedReceiver<()>>)
        ensures
            r is Some <==> old(self).has_receiver(),
            !final(self).has_receiver(),
            final(self).queue() == old(self).queue(),
            final(self).wf() == old(self).wf(),
    {
        self.receiver.take()
    }

    /// The number of pending entries.
    pub fn len(&self) -> (r: usize)
        ensures
            r == self.queue().len(),
    {
        self.queue.len()
    }

    /// Appends an entry at the back of the queue and returns the new number
    /// of pending entries.
    pub fn push(&mut self, request: Request<TItem, V, TError>) -> (r: usize)
        requires
            old(self).wf(),
            request.wf(),
        ensures
            final(self).wf(),
            final(self).queue() == old(self).queue().push(request),
            final(self).has_receiver() == old(self).has_receiver(),
            r == final(self).queue().len(),
    {
        self.queue.push(request);
        self.queue.len()
    }

    /// Detaches the next batch: nothing from an empty queue; the whole queue
    /// when it holds at most `max_amount_per_round_trip` entries; else
    /// exactly that many of the oldest, the rest staying queued in order.
    pub fn take_batch(&mut self, max_amount_per_round_trip: usize) -> (r: Option<
        RcpRequestData<TItem, V, TError>,
    >)
        requires
            old(self).wf(),
            max_amount_per_round_trip > 0,
        ensures
            final(self).wf(),
            final(self).has_receiver() == old(self).has_receiver(),
            ({
                let k = batch_len(old(self).queue().len() as int, max_amount_per_round_trip as int);
                let taken = old(self).queue().take(k);
                &&& final(self).queue() == old(self).queue().skip(k)
                &&& (r is None <==> old(self).queue().len() == 0)
                &&& (r matches Some(b) ==> {
                    &&& b.wf()
                    &&& b.items() == Some(items_of(taken).flatten())
                    &&& b.sizes() == sizes_of(taken)
                    &&& b.handles() == handles_of(taken)
                })
            }),
    {
        let ghost q = self.queue@;
        let len = self.queue.len();
        if len == 0 {
            proof {
                assert(q.skip(0) =~= q);
            }
            return None;
        }
        let taken = if len <= max_amount_per_round_trip {
            let mut all: Vec<Request<TItem, V, TError>> = Vec::new();
            std::mem::swap(&mut all, &mut self.queue);
            proof {
                assert(q.take(len as int) =~= q);
                assert(self.queue@ =~= q.skip(len as int));
            }
            all
        } else {
            let rest = self.queue.split_off(max_amount_per_round_trip);
            let mut head = rest;
            std::mem::swap(&mut head, &mut self.queue);
            proof {
                assert(head@ =~= q.take(max_amount_per_round_trip as int));
                assert(self.queue@ =~= q.skip(max_amount_per_round_trip as int));
            }
            head
        };
        proof {
            assert forall|i: int| 0 <= i < taken@.len() implies #[trigger] taken@[i].wf() by {
                assert(taken@[i] == q[i]);
            }
            assert forall|i: int| 0 <= i < self.queue@.len() implies #[trigger] self.queue@[i].wf() by {
                assert(self.queue@[i] == q[i + taken@.len()]);
            }
        }
        Some(RcpRequestData::new(taken))
    }
}

} // verus!
