//! Properties of the engine that relate several drain cycles or several
//! entries, stated over the contracts of the queue and the batch.
use crate::completion::{settle, Outcome};
use crate::inner::batch_len;
use crate::request::{items_of, Request};
use vstd::prelude::*;
use vstd::seq_lib::lemma_flatten_concat;

verus! {

/// The batches, each a run of entries, that successive drain cycles detach
/// from queue `q` under cap `max` while nothing new is submitted, as
/// `RpcAggregatorInner::take_batch` describes each cycle.
pub open spec fn drain<TItem, V, TError>(q: Seq<Request<TItem, V, TError>>, max: int) -> Seq<
    Seq<Request<TItem, V, TError>>,
>
    decreases q.len(),
{
    if q.len() == 0 || max <= 0 {
        Seq::empty()
    } else {
        let k = batch_len(q.len() as int, max);
        seq![q.take(k)] + drain(q.skip(k), max)
    }
}

/// The items that a run of batches presents to the handler, in order.
pub open spec fn presented<TItem, V, TError>(batches: Seq<Seq<Request<TItem, V, TError>>>) -> Seq<
    TItem,
>
    decreases batches.len(),
{
    if batches.len() == 0 {
        Seq::empty()
    } else {
        items_of(batches[0]).flatten() + presented(batches.drop_first())
    }
}

proof fn lemma_items_of_split<TItem, V, TError>(q: Seq<Request<TItem, V, TError>>, k: int)
    requires
        0 <= k <= q.len(),
    ensures
        items_of(q.take(k)).flatten() + items_of(q.skip(k)).flatten() == items_of(q).flatten(),
{
    assert(items_of(q.take(k)) + items_of(q.skip(k)) =~= items_of(q));
    lemma_flatten_concat(items_of(q.take(k)), items_of(q.skip(k)));
}

/// Conservation: draining a queue under any positive cap presents every
/// submitted item to the handler in exactly one batch, exactly once, and
/// in the order of submission.
pub proof fn lemma_drain_presents_every_item_once<TItem, V, TError>(
    q: Seq<Request<TItem, V, TError>>,
    max: int,
)
    requires
        max > 0,
    ensures
        presented(drain(q, max)) == items_of(q).flatten(),
    decreases q.len(),
{
    if q.len() == 0 {
        assert(items_of(q) =~= Seq::<Seq<TItem>>::empty());
    } else {
        let k = batch_len(q.len() as int, max);
        let d = drain(q, max);
        lemma_drain_presents_every_item_once(q.skip(k), max);
        assert(d[0] == q.take(k));
        assert(d.drop_first() =~= drain(q.skip(k), max));
        lemma_items_of_split(q, k);
    }
}

/// Batch size bound: no drain cycle detaches more than `max` entries, and
/// where every entry carries one item, no batch holds more than `max`
/// items. (Entries are what the cap counts: one entry of several items
/// under a cap of one still forms a batch of its own.)
pub proof fn lemma_batch_size_bound<TItem, V, TError>(q: Seq<Request<TItem, V, TError>>, max: int)
    requires
        max > 0,
    ensures
        forall|i: int| 0 <= i < drain(q, max).len() ==> #[trigger] drain(q, max)[i].len() <= max,
        (forall|j: int| 0 <= j < q.len() ==> (#[trigger] q[j].request_data@.len()) == 1) ==> forall|
            i: int,
        |
            0 <= i < drain(q, max).len() ==> #[trigger] items_of(drain(q, max)[i]).flatten().len()
                <= max,
    decreases q.len(),
{
    if q.len() > 0 {
        let k = batch_len(q.len() as int, max);
        let d = drain(q, max);
        let rest = q.skip(k);
        lemma_batch_size_bound(rest, max);
        assert(d.drop_first() =~= drain(rest, max));
        assert forall|i: int| 0 <= i < d.len() implies #[trigger] d[i].len() <= max by {
            if i > 0 {
                assert(d[i] == drain(rest, max)[i - 1]);
            }
        }
        if forall|j: int| 0 <= j < q.len() ==> (#[trigger] q[j].request_data@.len()) == 1 {
            assert forall|j: int| 0 <= j < rest.len() implies (#[trigger] rest[j].request_data@.len())
                == 1 by {
                assert(rest[j] == q[j + k]);
            }
            assert forall|i: int| 0 <= i < d.len() implies #[trigger] items_of(d[i]).flatten().len()
                <= max by {
                if i > 0 {
                    assert(d[i] == drain(rest, max)[i - 1]);
                } else {
                    let b = q.take(k);
                    lemma_one_item_each(b);
                }
            }
        }
    }
}

proof fn lemma_one_item_each<TItem, V, TError>(b: Seq<Request<TItem, V, TError>>)
    requires
        forall|j: int| 0 <= j < b.len() ==> (#[trigger] b[j].request_data@.len()) == 1,
    ensures
        items_of(b).flatten().len() == b.len(),
    decreases b.len(),
{
    if b.len() > 0 {
        let init = b.drop_last();
        assert forall|j: int| 0 <= j < init.len() implies (#[trigger] init[j].request_data@.len())
            == 1 by {
            assert(init[j] == b[j]);
        }
        lemma_one_item_each(init);
        assert(items_of(b) =~= items_of(init).push(b.last().request_data@));
        items_of(init).lemma_flatten_push(b.last().request_data@);
    }
}

/// FIFO: of two entries queued as A (at `a`) then B (at `b`), a drain
/// cycle never takes B while leaving A behind; when both fit under the cap
/// they are detached together, A before B; otherwise A goes first and B
/// keeps its place in order behind what remains.
pub proof fn lemma_fifo<TItem, V, TError>(
    q: Seq<Request<TItem, V, TError>>,
    max: int,
    a: int,
    b: int,
)
    requires
        max > 0,
        0 <= a < b < q.len(),
    ensures
        ({
            let k = batch_len(q.len() as int, max);
            &&& b < k ==> a < k
            &&& q.len() <= max ==> (a < k && b < k && q.take(k)[a] == q[a] && q.take(k)[b] == q[b])
            &&& (a < k && b >= k) ==> q.take(k)[a] == q[a] && q.skip(k)[b - k] == q[b]
            &&& a >= k ==> q.skip(k)[a - k] == q[a] && q.skip(k)[b - k] == q[b]
        }),
{
}

/// Idempotent terminal state: once a handle holds an outcome, offering it
/// another one leaves the first in place, whatever either outcome is.
pub proof fn lemma_first_outcome_wins<V, E>(
    prev: Option<Outcome<V, E>>,
    first: Outcome<V, E>,
    second: Outcome<V, E>,
)
    ensures
        settle(settle(prev, first), second) == settle(prev, first),
        prev is None ==> settle(settle(prev, first), second) == Some(first),
{
}

} // verus!
