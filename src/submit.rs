//! What a caller of a multi-item submission gets back once its entries are
//! settled.
use std::collections::BTreeMap;
use std::sync::Arc;
use vstd::prelude::*;

verus! {

broadcast use vstd::laws_cmp::group_laws_cmp;

/// The errors among per-entry results, keyed by the position of the entry.
pub open spec fn errors_of<E>(results: Seq<Result<(), Arc<E>>>) -> Map<usize, Arc<E>> {
    Map::new(
        |i: usize| (i as int) < results.len() && results[i as int] is Err,
        |i: usize| results[i as int]->Err_0,
    )
}

/// Gathers the results of the entries of one submission: `Ok` when every
/// entry succeeded, else each error under the position of its entry.
pub fn collect_errors<E>(results: Vec<Result<(), Arc<E>>>) -> (r: Result<(), BTreeMap<usize, Arc<E>>>)
    ensures
        r is Ok <==> forall|i: int| 0 <= i < results@.len() ==> #[trigger] results@[i] is Ok,
        r matches Err(m) ==> m@ == errors_of(results@),
{
    let ghost all = results@;
    let n = results.len();
    let mut errs: Option<BTreeMap<usize, Arc<E>>> = None;
    let mut i: usize = 0;
    while i < n
        invariant
            0 <= i <= n,
            n == results@.len(),
            all == results@,
            errs is None <==> forall|j: int| 0 <= j < i ==> #[trigger] all[j] is Ok,
            errs matches Some(m) ==> m@ == errors_of(all.take(i as int)),
        decreases n - i,
    {
        match &results[i] {
            Ok(_) => {
                proof {
                    assert(errors_of(all.take(i as int + 1)) =~= errors_of(all.take(i as int)));
                }
            },
            Err(err) => {
                let mut m = match errs {
                    Some(m) => m,
                    None => {
                        proof {
                            assert(errors_of(all.take(i as int)) =~= Map::<usize, Arc<E>>::empty());
                        }
                        BTreeMap::new()
                    },
                };
                m.insert(i, err.clone());
                proof {
                    assert(errors_of(all.take(i as int + 1)) =~= errors_of(all.take(i as int)).insert(
                        i,
                        *err,
                    ));
                }
                errs = Some(m);
            },
        }
        i = i + 1;
    }
    proof {
        assert(all.take(n as int) =~= all);
    }
    match errs {
        Some(m) => Err(m),
        None => Ok(()),
    }
}

} // verus!
