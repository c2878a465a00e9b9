//! One caller's submission, as it waits in the queue.
use crate::completion::CompletionHandle;
use vstd::prelude::*;

verus! {

/// A pending entry: the items of one submission and the handle through which
/// its caller is answered.
#[verifier::reject_recursive_types(V)]
#[verifier::reject_recursive_types(TError)]
pub struct Request<TItem, V, TError> {
    pub request_data: Vec<TItem>,
    pub completion: CompletionHandle<V, TError>,
}

impl<TItem, V, TError> Request<TItem, V, TError> {
    pub open spec fn wf(&self) -> bool {
        self.completion.wf()
    }

    /// A submission of `items`, answered through `completion`.
    pub fn new(items: Vec<TItem>, completion: CompletionHandle<V, TError>) -> (r: Self)
        ensures
            r.request_data == items,
            r.completion == completion,
    {
        Request { request_data: items, completion }
    }
}

/// The item sequences of a run of entries, in order.
pub open spec fn items_of<TItem, V, TError>(requests: Seq<Request<TItem, V, TError>>) -> Seq<
    Seq<TItem>,
> {
    requests.map_values(|r: Request<TItem, V, TError>| r.request_data@)
}

/// How many items each of a run of entries holds, in order.
pub open spec fn sizes_of<TItem, V, TError>(requests: Seq<Request<TItem, V, TError>>) -> Seq<int> {
    requests.map_values(|r: Request<TItem, V, TError>| r.request_data@.len() as int)
}

/// The completion handles of a run of entries, in order.
pub open spec fn handles_of<TItem, V, TError>(requests: Seq<Request<TItem, V, TError>>) -> Seq<
    CompletionHandle<V, TError>,
> {
    requests.map_values(|r: Request<TItem, V, TError>| r.completion)
}

/// Every entry of the run is well formed.
pub open spec fn all_wf<TItem, V, TError>(requests: Seq<Request<TItem, V, TError>>) -> bool {
    forall|i: int| 0 <= i < requests.len() ==> #[trigger] requests[i].wf()
}

} // verus!
