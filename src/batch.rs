//! A batch: the entries detached from the queue in one drain cycle, their
//! items flattened for the handler, and the fanout of the handler's outcome
//! back onto each entry's completion handle.
use crate::completion::{settle, CompletionHandle, Outcome};
use crate::round_trip::Action;
use crate::request::{all_wf, handles_of, items_of, sizes_of, Request};
use std::sync::Arc;
use vstd::prelude::*;

verus! {

/// The sum of a sequence of integers.
pub open spec fn sum(s: Seq<int>) -> int
    decreases s.len(),
{
    if s.len() == 0 {
        0
    } else {
        sum(s.drop_last()) + s.last()
    }
}

/// Where the chunk of entry `i` starts in a flattened sequence.
pub open spec fn offset(sizes: Seq<int>, i: int) -> int {
    sum(sizes.take(i))
}

/// The contiguous chunk of a flattened result that belongs to entry `i`.
pub open spec fn chunk<R>(results: Seq<R>, sizes: Seq<int>, i: int) -> Seq<R> {
    results.subrange(offset(sizes, i), offset(sizes, i) + sizes[i])
}

/// What a handle holds once a chunk of results was offered to it: a vector
/// of exactly that chunk if the handle was pending, the earlier outcome
/// otherwise.
pub open spec fn settled_with_chunk<R, E>(
    prev: Option<Outcome<Vec<R>, E>>,
    now: Option<Outcome<Vec<R>, E>>,
    chunk: Seq<R>,
) -> bool {
    if prev is None {
        now matches Some(Outcome::Resolved(v)) && v@ == chunk
    } else {
        now == prev
    }
}

/// What a handle holds once a fault with `message` was offered to it.
pub open spec fn settled_with_fault<V, E>(
    prev: Option<Outcome<V, E>>,
    now: Option<Outcome<V, E>>,
    message: Seq<char>,
) -> bool {
    if prev is None {
        now matches Some(Outcome::Faulted(m)) && m@ == message
    } else {
        now == prev
    }
}

/// What a handle holds once the shared logical error `err` was offered to it.
pub open spec fn settled_with_error<V, E>(
    prev: Option<Outcome<V, E>>,
    now: Option<Outcome<V, E>>,
    err: E,
) -> bool {
    if prev is None {
        now matches Some(Outcome::Failed(e)) && *e == err
    } else {
        now == prev
    }
}

/// What a handle holds once a fault was offered to it, whatever its message.
pub open spec fn settled_as_faulted<V, E>(
    prev: Option<Outcome<V, E>>,
    now: Option<Outcome<V, E>>,
) -> bool {
    if prev is None {
        now matches Some(Outcome::Faulted(_))
    } else {
        now == prev
    }
}

/// Relies on the `format!` macro of std: a message that gives both counts.
#[verifier::external_body]
fn mismatch_message(results: usize, expected: usize) -> String {
    format!("amount of results {} != amount of requests {}", results, expected)
}

/// Each prefix sum adds the next element to the one before.
pub proof fn lemma_sum_take_step(s: Seq<int>, k: int)
    requires
        0 <= k < s.len(),
    ensures
        sum(s.take(k + 1)) == sum(s.take(k)) + s[k],
{
    assert(s.take(k + 1).drop_last() =~= s.take(k));
}

/// Over non-negative elements, a prefix sum is non-negative and at most the
/// whole sum.
pub proof fn lemma_sum_take_le(s: Seq<int>, k: int)
    requires
        0 <= k <= s.len(),
        forall|i: int| 0 <= i < s.len() ==> s[i] >= 0,
    ensures
        sum(s.take(k)) <= sum(s),
        sum(s.take(k)) >= 0,
    decreases s.len() - k,
{
    if k == s.len() {
        assert(s.take(k) =~= s);
        lemma_sum_nonneg(s);
    } else {
        lemma_sum_take_step(s, k);
        lemma_sum_take_le(s, k + 1);
        lemma_sum_nonneg(s.take(k));
    }
}

/// A sum of non-negative elements is non-negative.
pub proof fn lemma_sum_nonneg(s: Seq<int>)
    requires
        forall|i: int| 0 <= i < s.len() ==> s[i] >= 0,
    ensures
        sum(s) >= 0,
    decreases s.len(),
{
    if s.len() > 0 {
        lemma_sum_nonneg(s.drop_last());
    }
}

/// The flattening of a run of sequences is as long as their lengths added up.
pub proof fn lemma_flatten_len<A>(x: Seq<Seq<A>>)
    ensures
        x.flatten().len() == sum(x.map_values(|s: Seq<A>| s.len() as int)),
    decreases x.len(),
{
    if x.len() > 0 {
        let init = x.drop_last();
        lemma_flatten_len(init);
        assert(init.push(x.last()) =~= x);
        init.lemma_flatten_push(x.last());
        assert(x.map_values(|s: Seq<A>| s.len() as int).drop_last() =~= init.map_values(
            |s: Seq<A>| s.len() as int,
        ));
    }
}

/// A batch: the flattened items of its entries (until they are handed to the
/// handler), how many items each entry brought, and each entry's completion
/// handle, all in the order in which the entries were queued.
#[verifier::reject_recursive_types(V)]
#[verifier::reject_recursive_types(TError)]
pub struct RcpRequestData<TItem, V, TError> {
    data: Option<Vec<TItem>>,
    chunk_sizes: Vec<usize>,
    completions: Vec<CompletionHandle<V, TError>>,
    amount: usize,
}

impl<TItem, V, TError> RcpRequestData<TItem, V, TError> {
    /// The flattened items, until they are handed out to the handler.
    pub closed spec fn items(&self) -> Option<Seq<TItem>> {
        match self.data {
            Some(v) => Some(v@),
            None => None,
        }
    }

    /// How many items each entry brought, in order.
    pub closed spec fn sizes(&self) -> Seq<int> {
        self.chunk_sizes@.map_values(|n: usize| n as int)
    }

    /// The entries' completion handles, in order.
    pub closed spec fn handles(&self) -> Seq<CompletionHandle<V, TError>> {
        self.completions@
    }

    /// The number of items in the batch.
    pub closed spec fn amount(&self) -> int {
        self.amount as int
    }

    pub closed spec fn wf(&self) -> bool {
        &&& self.chunk_sizes@.len() == self.completions@.len()
        &&& self.amount == sum(self.sizes())
        &&& (self.data matches Some(v) ==> v@.len() == self.amount)
        &&& forall|i: int| 0 <= i < self.completions@.len() ==> #[trigger] self.completions@[i].wf()
    }

    /// Builds the batch of `requests`: their items flattened in order, the
    /// item count of each, and their handles in the same order.
    pub fn new(requests: Vec<Request<TItem, V, TError>>) -> (r: Self)
        requires
            all_wf(requests@),
        ensures
            r.wf(),
            r.items() == Some(items_of(requests@).flatten()),
            r.sizes() == sizes_of(requests@),
            r.handles() == handles_of(requests@),
            r.amount() == sum(sizes_of(requests@)),
    {
        let ghost reqs = requests@;
        let mut requests = requests;
        let mut data: Vec<TItem> = Vec::new();
        let mut chunk_sizes: Vec<usize> = Vec::new();
        let mut completions: Vec<CompletionHandle<V, TError>> = Vec::new();
        let ghost mut i: int = 0;
        while requests.len() > 0
            invariant
                0 <= i <= reqs.len(),
                requests@ == reqs.skip(i),
                all_wf(reqs),
                data@ == items_of(reqs.take(i)).flatten(),
                chunk_sizes@.map_values(|n: usize| n as int) == sizes_of(reqs.take(i)),
                completions@ == handles_of(reqs.take(i)),
            decreases requests@.len(),
        {
            let request = requests.remove(0);
            let Request { request_data, completion } = request;
            let mut items = request_data;
            let size = items.len();
            proof {
                assert(reqs[i] == request);
                assert(items_of(reqs.take(i + 1)) =~= items_of(reqs.take(i)).push(items@));
                items_of(reqs.take(i)).lemma_flatten_push(items@);
                assert(sizes_of(reqs.take(i + 1)) =~= sizes_of(reqs.take(i)).push(size as int));
                assert(handles_of(reqs.take(i + 1)) =~= handles_of(reqs.take(i)).push(completion));
            }
            data.append(&mut items);
            chunk_sizes.push(size);
            completions.push(completion);
            proof {
                assert(chunk_sizes@.map_values(|n: usize| n as int) =~= sizes_of(reqs.take(i + 1)));
                i = i + 1;
                assert(requests@ =~= reqs.skip(i));
            }
        }
        proof {
            assert(reqs.take(i) =~= reqs);
            lemma_flatten_len(items_of(reqs));
            assert(items_of(reqs).map_values(|s: Seq<TItem>| s.len() as int) =~= sizes_of(reqs));
            assert forall|k: int| 0 <= k < completions@.len() implies #[trigger] completions@[k].wf() by {
                assert(reqs[k].wf());
            }
        }
        let amount = data.len();
        RcpRequestData { data: Some(data), chunk_sizes, completions, amount }
    }

    /// Hands out the flattened items, to be passed to the handler on every
    /// attempt.
    pub fn get_data_to_callback(&mut self) -> (r: Arc<Vec<TItem>>)
        requires
            old(self).wf(),
            old(self).items() is Some,
        ensures
            final(self).wf(),
            r@ == old(self).items().unwrap(),
            final(self).items() is None,
            final(self).sizes() == old(self).sizes(),
            final(self).handles() == old(self).handles(),
            final(self).amount() == old(self).amount(),
    {
        let mut taken: Option<Vec<TItem>> = None;
        std::mem::swap(&mut taken, &mut self.data);
        match taken {
            Some(data) => Arc::new(data),
            None => Arc::new(Vec::new()),
        }
    }

    /// Faults every entry of the batch with `message`: each pending handle
    /// becomes Faulted, a handle already settled keeps its outcome.
    pub fn set_panic(&mut self, message: &str)
        requires
            old(self).wf(),
        ensures
            final(self).wf(),
            final(self).items() == old(self).items(),
            final(self).sizes() == old(self).sizes(),
            final(self).amount() == old(self).amount(),
            final(self).handles().len() == old(self).handles().len(),
            forall|i: int|
                0 <= i < old(self).handles().len() ==> settled_with_fault(
                    #[trigger] old(self).handles()[i].outcome(),
                    final(self).handles()[i].outcome(),
                    message@,
                ),
    {
        let ghost before = self.completions@;
        let n = self.completions.len();
        let mut i: usize = 0;
        while i < n
            invariant
                self.wf(),
                0 <= i <= n,
                n == self.completions@.len(),
                self.data == old(self).data,
                self.chunk_sizes == old(self).chunk_sizes,
                self.amount == old(self).amount,
                before == old(self).completions@,
                forall|j: int|
                    0 <= j < i ==> settled_with_fault(
                        #[trigger] before[j].outcome(),
                        self.completions@[j].outcome(),
                        message@,
                    ),
                forall|j: int| i <= j < n ==> #[trigger] self.completions@[j] == before[j],
            decreases n - i,
        {
            let _ = self.completions[i].try_set_panic(message.to_owned());
            i = i + 1;
        }
    }

    /// Fails every entry of the batch with the one logical error `err`,
    /// shared by all of them: each pending handle becomes Failed, a handle
    /// already settled keeps its outcome.
    pub fn set_error(&mut self, err: TError)
        requires
            old(self).wf(),
        ensures
            final(self).wf(),
            final(self).items() == old(self).items(),
            final(self).sizes() == old(self).sizes(),
            final(self).amount() == old(self).amount(),
            final(self).handles().len() == old(self).handles().len(),
            forall|i: int|
                0 <= i < old(self).handles().len() ==> settled_with_error(
                    #[trigger] old(self).handles()[i].outcome(),
                    final(self).handles()[i].outcome(),
                    err,
                ),
    {
        let shared = Arc::new(err);
        let ghost before = self.completions@;
        let n = self.completions.len();
        let mut i: usize = 0;
        while i < n
            invariant
                self.wf(),
                0 <= i <= n,
                n == self.completions@.len(),
                *shared == err,
                self.data == old(self).data,
                self.chunk_sizes == old(self).chunk_sizes,
                self.amount == old(self).amount,
                before == old(self).completions@,
                forall|j: int|
                    0 <= j < i ==> settled_with_error(
                        #[trigger] before[j].outcome(),
                        self.completions@[j].outcome(),
                        err,
                    ),
                forall|j: int| i <= j < n ==> #[trigger] self.completions@[j] == before[j],
            decreases n - i,
        {
            let _ = self.completions[i].try_set_error(shared.clone());
            i = i + 1;
        }
    }
}

impl<TItem, TResult, TError> RcpRequestData<TItem, Vec<TResult>, TError> {
    /// Fans a flattened result vector out over the entries: entry `i`
    /// receives the contiguous chunk of `sizes()[i]` results that follows the
    /// chunks of the entries before it. A vector whose length differs from
    /// the batch's item count is refused, with a message, and nothing is
    /// set.
    pub fn set_results(&mut self, results: Vec<TResult>) -> (r: Result<(), String>)
        requires
            old(self).wf(),
        ensures
            final(self).wf(),
            r is Err <==> results@.len() != old(self).amount(),
            r is Err ==> *final(self) == *old(self),
            final(self).items() == old(self).items(),
            final(self).sizes() == old(self).sizes(),
            final(self).amount() == old(self).amount(),
            final(self).handles().len() == old(self).handles().len(),
            r is Ok ==> forall|i: int|
                0 <= i < old(self).handles().len() ==> settled_with_chunk(
                    #[trigger] old(self).handles()[i].outcome(),
                    final(self).handles()[i].outcome(),
                    chunk(results@, old(self).sizes(), i),
                ),
    {
        if results.len() != self.amount {
            return Err(mismatch_message(results.len(), self.amount));
        }
        let ghost all = results@;
        let ghost sizes = self.sizes();
        let ghost before = self.completions@;
        let mut rest = results;
        let n = self.completions.len();
        let mut i: usize = 0;
        proof {
            assert(sizes.take(0) =~= Seq::<int>::empty());
            assert(rest@ =~= all.subrange(offset(sizes, 0), all.len() as int));
        }
        while i < n
            invariant
                self.wf(),
                0 <= i <= n,
                n == self.completions@.len(),
                n == sizes.len(),
                sizes == self.sizes(),
                all.len() == sum(sizes),
                rest@ == all.subrange(offset(sizes, i as int), all.len() as int),
                self.data == old(self).data,
                self.chunk_sizes == old(self).chunk_sizes,
                self.amount == old(self).amount,
                before == old(self).completions@,
                forall|j: int|
                    0 <= j < i ==> settled_with_chunk(
                        #[trigger] before[j].outcome(),
                        self.completions@[j].outcome(),
                        chunk(all, sizes, j),
                    ),
                forall|j: int| i <= j < n ==> #[trigger] self.completions@[j] == before[j],
            decreases n - i,
        {
            let size = self.chunk_sizes[i];
            proof {
                assert(sizes[i as int] == size as int);
                lemma_sum_take_step(sizes, i as int);
                lemma_sum_take_le(sizes, i as int + 1);
                lemma_sum_take_le(sizes, i as int);
            }
            let tail = rest.split_off(size);
            let piece = rest;
            rest = tail;
            proof {
                assert(piece@ =~= chunk(all, sizes, i as int));
                assert(rest@ =~= all.subrange(offset(sizes, i as int + 1), all.len() as int));
            }
            let _ = self.completions[i].try_set_ok(piece);
            i = i + 1;
        }
        Ok(())
    }

    /// Settles every entry with the drain loop's final decision on the
    /// batch: a fault, the shared logical error, or the handler's result
    /// vector. A result vector of the wrong length faults every entry: it is
    /// a broken handler contract, not a logical error.
    pub fn apply(&mut self, action: Action<Vec<TResult>, TError>)
        requires
            old(self).wf(),
            !(action is Retry),
        ensures
            final(self).wf(),
            final(self).handles().len() == old(self).handles().len(),
            forall|i: int|
                0 <= i < old(self).handles().len() ==> {
                    let prev = #[trigger] old(self).handles()[i].outcome();
                    let now = final(self).handles()[i].outcome();
                    match action {
                        Action::Fault(m) => settled_with_fault(prev, now, m@),
                        Action::Fail(e) => settled_with_error(prev, now, e),
                        Action::Deliver(v) => if v@.len() == old(self).amount() {
                            settled_with_chunk(prev, now, chunk(v@, old(self).sizes(), i))
                        } else {
                            settled_as_faulted(prev, now)
                        },
                        Action::Retry => true,
                    }
                },
    {
        match action {
            Action::Fault(message) => self.set_panic(message.as_str()),
            Action::Fail(err) => self.set_error(err),
            Action::Deliver(results) => {
                if let Err(message) = self.set_results(results) {
                    self.set_panic(message.as_str());
                }
            },
            Action::Retry => {},
        }
    }
}

impl<TItem, TError> RcpRequestData<TItem, (), TError> {
    /// Resolves every entry of a batch whose handler only acknowledges:
    /// each pending handle becomes Resolved, a handle already settled keeps
    /// its outcome.
    pub fn set_result(&mut self)
        requires
            old(self).wf(),
        ensures
            final(self).wf(),
            final(self).items() == old(self).items(),
            final(self).sizes() == old(self).sizes(),
            final(self).amount() == old(self).amount(),
            final(self).handles().len() == old(self).handles().len(),
            forall|i: int|
                0 <= i < old(self).handles().len() ==> #[trigger] final(self).handles()[i].outcome()
                    == settle(old(self).handles()[i].outcome(), Outcome::<(), TError>::Resolved(())),
    {
        let ghost before = self.completions@;
        let n = self.completions.len();
        let mut i: usize = 0;
        while i < n
            invariant
                self.wf(),
                0 <= i <= n,
                n == self.completions@.len(),
                self.data == old(self).data,
                self.chunk_sizes == old(self).chunk_sizes,
                self.amount == old(self).amount,
                before == old(self).completions@,
                forall|j: int|
                    0 <= j < i ==> #[trigger] self.completions@[j].outcome() == settle(
                        before[j].outcome(),
                        Outcome::<(), TError>::Resolved(()),
                    ),
                forall|j: int| i <= j < n ==> #[trigger] self.completions@[j] == before[j],
            decreases n - i,
        {
            let _ = self.completions[i].try_set_ok(());
            i = i + 1;
        }
    }

    /// Settles every entry of an acknowledging batch with the drain loop's
    /// final decision: a fault, the shared logical error, or Resolved.
    pub fn apply_ack(&mut self, action: Action<(), TError>)
        requires
            old(self).wf(),
            !(action is Retry),
        ensures
            final(self).wf(),
            final(self).handles().len() == old(self).handles().len(),
            forall|i: int|
                0 <= i < old(self).handles().len() ==> {
                    let prev = #[trigger] old(self).handles()[i].outcome();
                    let now = final(self).handles()[i].outcome();
                    match action {
                        Action::Fault(m) => settled_with_fault(prev, now, m@),
                        Action::Fail(e) => settled_with_error(prev, now, e),
                        Action::Deliver(_) => now == settle(prev, Outcome::<(), TError>::Resolved(())),
                        Action::Retry => true,
                    }
                },
    {
        match action {
            Action::Fault(message) => self.set_panic(message.as_str()),
            Action::Fail(err) => self.set_error(err),
            Action::Deliver(_) => self.set_result(),
            Action::Retry => {},
        }
    }
}

} // verus!
