use rpc_aggregator::batch::RcpRequestData;
use rpc_aggregator::completion::{CompletionHandle, Outcome};
use rpc_aggregator::inner::RpcAggregatorInner;
use rpc_aggregator::request::Request;
use rpc_aggregator::round_trip::{Action, AttemptEvent, RoundTrip, MAX_ATTEMPTS};
use rpc_aggregator::submit::collect_errors;
use std::sync::Arc;
use tokio::sync::oneshot::Receiver;

type Rx<V> = Receiver<Outcome<V, String>>;

fn entry<V>(items: Vec<u32>) -> (Request<u32, V, String>, Rx<V>) {
    let (handle, rx) = CompletionHandle::new();
    (Request::new(items, handle), rx)
}

fn new_inner<V>() -> RpcAggregatorInner<u32, V, String> {
    let (_tx, rx) = tokio::sync::mpsc::unbounded_channel::<()>();
    RpcAggregatorInner::new(rx)
}

fn resolved<V>(rx: &mut Rx<V>) -> V {
    match rx.try_recv() {
        Ok(Outcome::Resolved(v)) => v,
        _ => panic!("expected a resolved outcome"),
    }
}

fn faulted<V>(rx: &mut Rx<V>) -> String {
    match rx.try_recv() {
        Ok(Outcome::Faulted(m)) => m,
        _ => panic!("expected a faulted outcome"),
    }
}

fn failed<V>(rx: &mut Rx<V>) -> Arc<String> {
    match rx.try_recv() {
        Ok(Outcome::Failed(e)) => e,
        _ => panic!("expected a failed outcome"),
    }
}

#[test]
fn fanout_preserves_order_of_chunks() {
    let (e1, mut rx1) = entry::<Vec<&str>>(vec![10, 11]);
    let (e2, mut rx2) = entry::<Vec<&str>>(vec![12]);
    let mut batch = RcpRequestData::new(vec![e1, e2]);
    assert_eq!(*batch.get_data_to_callback(), vec![10, 11, 12]);
    assert!(batch.set_results(vec!["r1", "r2", "r3"]).is_ok());
    assert_eq!(resolved(&mut rx1), vec!["r1", "r2"]);
    assert_eq!(resolved(&mut rx2), vec!["r3"]);
}

#[test]
fn fanout_with_empty_entry_gets_empty_chunk() {
    let (e1, mut rx1) = entry::<Vec<u8>>(vec![]);
    let (e2, mut rx2) = entry::<Vec<u8>>(vec![1, 2]);
    let mut batch = RcpRequestData::new(vec![e1, e2]);
    assert!(batch.set_results(vec![7, 8]).is_ok());
    assert_eq!(resolved(&mut rx1), Vec::<u8>::new());
    assert_eq!(resolved(&mut rx2), vec![7, 8]);
}

#[test]
fn logical_error_is_not_retried() {
    let (e1, mut rx1) = entry::<Vec<u8>>(vec![1]);
    let (e2, mut rx2) = entry::<Vec<u8>>(vec![2, 3]);
    let mut batch = RcpRequestData::new(vec![e1, e2]);
    let mut trip = RoundTrip::new();
    let action = trip.on_attempt::<Vec<u8>, String>(AttemptEvent::Returned(Err("bad".to_string())));
    assert!(matches!(action, Action::Fail(_)));
    batch.apply(action);
    let a = failed(&mut rx1);
    let b = failed(&mut rx2);
    assert_eq!(*a, "bad");
    assert!(Arc::ptr_eq(&a, &b));
}

#[test]
fn timeouts_are_retried_then_fault_the_batch() {
    let (e1, mut rx1) = entry::<Vec<u8>>(vec![1]);
    let (e2, mut rx2) = entry::<Vec<u8>>(vec![2]);
    let mut batch = RcpRequestData::new(vec![e1, e2]);
    let mut trip = RoundTrip::new();
    let mut attempts = 0;
    let mut backoffs = 0;
    loop {
        attempts += 1;
        match trip.on_attempt::<Vec<u8>, String>(AttemptEvent::TimedOut) {
            Action::Retry => backoffs += 1,
            other => {
                batch.apply(other);
                break;
            }
        }
    }
    assert_eq!(attempts, 5);
    assert_eq!(attempts, MAX_ATTEMPTS);
    assert_eq!(backoffs, 4);
    assert_eq!(faulted(&mut rx1), "Timeout");
    assert_eq!(faulted(&mut rx2), "Timeout");
}

#[test]
fn crash_message_faults_after_last_attempt() {
    let (e1, mut rx1) = entry::<()>(vec![1]);
    let mut batch = RcpRequestData::new(vec![e1]);
    let mut trip = RoundTrip::new();
    for _ in 0..4 {
        let a = trip.on_attempt::<(), String>(AttemptEvent::Crashed("boom".to_string()));
        assert!(matches!(a, Action::Retry));
    }
    let a = trip.on_attempt::<(), String>(AttemptEvent::Crashed("boom".to_string()));
    batch.apply_ack(a);
    assert_eq!(faulted(&mut rx1), "boom");
}

#[test]
fn success_after_a_timeout_delivers() {
    let (e1, mut rx1) = entry::<Vec<u8>>(vec![1]);
    let mut batch = RcpRequestData::new(vec![e1]);
    let mut trip = RoundTrip::new();
    assert!(matches!(trip.on_attempt::<Vec<u8>, String>(AttemptEvent::TimedOut), Action::Retry));
    let a = trip.on_attempt::<Vec<u8>, String>(AttemptEvent::Returned(Ok(vec![9])));
    batch.apply(a);
    assert_eq!(resolved(&mut rx1), vec![9]);
}

#[test]
fn wrong_result_count_faults_every_entry() {
    let (e1, mut rx1) = entry::<Vec<u8>>(vec![1, 2]);
    let (e2, mut rx2) = entry::<Vec<u8>>(vec![3]);
    let mut batch = RcpRequestData::new(vec![e1, e2]);
    let mut trip = RoundTrip::new();
    let a = trip.on_attempt::<Vec<u8>, String>(AttemptEvent::Returned(Ok(vec![1, 2])));
    assert!(matches!(a, Action::Deliver(_)));
    batch.apply(a);
    assert_eq!(faulted(&mut rx1), "amount of results 2 != amount of requests 3");
    assert!(!faulted(&mut rx2).is_empty());
}

#[test]
fn wrong_result_count_is_refused_unchanged() {
    let (e1, mut rx1) = entry::<Vec<u8>>(vec![1]);
    let mut batch = RcpRequestData::new(vec![e1]);
    let r = batch.set_results(vec![]);
    assert_eq!(r, Err("amount of results 0 != amount of requests 1".to_string()));
    assert!(rx1.try_recv().is_err());
}

#[test]
fn acknowledged_batch_resolves_every_entry() {
    let (e1, mut rx1) = entry::<()>(vec![1, 2]);
    let (e2, mut rx2) = entry::<()>(vec![3]);
    let mut batch = RcpRequestData::new(vec![e1, e2]);
    batch.set_result();
    resolved(&mut rx1);
    resolved(&mut rx2);
}

#[test]
fn small_queue_drains_in_one_batch() {
    let mut inner = new_inner::<Vec<u8>>();
    for i in 1..=3u32 {
        let (e, _rx) = entry::<Vec<u8>>(vec![i]);
        inner.push(e);
    }
    assert_eq!(inner.len(), 3);
    let mut batch = inner.take_batch(10).unwrap();
    assert_eq!(*batch.get_data_to_callback(), vec![1, 2, 3]);
    assert_eq!(inner.len(), 0);
    assert!(inner.take_batch(10).is_none());
}

#[test]
fn over_cap_queue_drains_oldest_first() {
    let mut inner = new_inner::<Vec<u8>>();
    for i in 1..=3u32 {
        let (e, _rx) = entry::<Vec<u8>>(vec![i]);
        assert_eq!(inner.push(e), i as usize);
    }
    let mut first = inner.take_batch(2).unwrap();
    assert_eq!(*first.get_data_to_callback(), vec![1, 2]);
    assert_eq!(inner.len(), 1);
    let mut second = inner.take_batch(2).unwrap();
    assert_eq!(*second.get_data_to_callback(), vec![3]);
    assert!(inner.take_batch(2).is_none());
}

#[test]
fn cap_counts_entries_not_items() {
    let mut inner = new_inner::<Vec<u8>>();
    let (a, _ra) = entry::<Vec<u8>>(vec![1, 2]);
    let (b, _rb) = entry::<Vec<u8>>(vec![3, 4, 5]);
    inner.push(a);
    inner.push(b);
    let mut batch = inner.take_batch(1).unwrap();
    assert_eq!(*batch.get_data_to_callback(), vec![1, 2]);
    assert_eq!(inner.len(), 1);
}

#[test]
fn entries_that_fit_share_a_batch_in_order() {
    let mut inner = new_inner::<Vec<u8>>();
    let (a, mut ra) = entry::<Vec<u8>>(vec![1]);
    let (b, mut rb) = entry::<Vec<u8>>(vec![2, 3]);
    inner.push(a);
    inner.push(b);
    let mut batch = inner.take_batch(2).unwrap();
    assert_eq!(*batch.get_data_to_callback(), vec![1, 2, 3]);
    assert!(batch.set_results(vec![10, 20, 30]).is_ok());
    assert_eq!(resolved(&mut ra), vec![10]);
    assert_eq!(resolved(&mut rb), vec![20, 30]);
}

#[test]
fn second_result_is_ignored() {
    let (mut handle, mut rx) = CompletionHandle::<u8, String>::new();
    assert!(handle.is_pending());
    assert!(handle.try_set_ok(1).is_ok());
    assert!(!handle.is_pending());
    match handle.try_set_ok(2) {
        Err(Outcome::Resolved(v)) => assert_eq!(v, 2),
        _ => panic!("a second result must be handed back"),
    }
    assert!(handle.try_set_panic("late".to_string()).is_err());
    assert!(handle.try_set_error(Arc::new("late".to_string())).is_err());
    assert_eq!(resolved(&mut rx), 1);
}

#[test]
fn settled_handle_keeps_outcome_through_fanout() {
    let (mut e1, mut rx1) = entry::<Vec<u8>>(vec![1]);
    assert!(e1.completion.try_set_panic("early".to_string()).is_ok());
    let (e2, mut rx2) = entry::<Vec<u8>>(vec![2]);
    let mut batch = RcpRequestData::new(vec![e1, e2]);
    batch.set_error("late".to_string());
    assert_eq!(faulted(&mut rx1), "early");
    assert_eq!(*failed(&mut rx2), "late");
}

#[test]
fn outcome_survives_dropped_receiver() {
    let (mut handle, rx) = CompletionHandle::<u8, String>::new();
    drop(rx);
    assert!(handle.try_set_ok(1).is_ok());
    assert!(handle.try_set_ok(2).is_err());
}

#[test]
fn receiver_is_taken_once() {
    let mut inner = new_inner::<()>();
    assert!(inner.take_receiver().is_some());
    assert!(inner.take_receiver().is_none());
}

#[test]
fn collect_errors_all_ok() {
    let r = collect_errors::<String>(vec![Ok(()), Ok(())]);
    assert!(r.is_ok());
    assert!(collect_errors::<String>(vec![]).is_ok());
}

#[test]
fn collect_errors_keys_by_position() {
    let e = Arc::new("x".to_string());
    let r = collect_errors(vec![Ok(()), Err(e.clone()), Ok(()), Err(e.clone())]);
    let m = r.unwrap_err();
    assert_eq!(m.len(), 2);
    assert_eq!(m.keys().copied().collect::<Vec<_>>(), vec![1, 3]);
    assert_eq!(*m[&1], "x");
}

#[test]
fn draining_presents_every_item_once_in_order() {
    let mut inner = new_inner::<Vec<u8>>();
    let mut next = 0u32;
    let mut all = Vec::new();
    for size in [2usize, 1, 3, 1, 1] {
        let items: Vec<u32> = (0..size).map(|_| { next += 1; next }).collect();
        all.extend(items.iter().copied());
        let (e, _rx) = entry::<Vec<u8>>(items);
        inner.push(e);
    }
    let mut presented = Vec::new();
    let mut batches = 0;
    while let Some(mut batch) = inner.take_batch(2) {
        batches += 1;
        presented.extend(batch.get_data_to_callback().iter().copied());
    }
    assert_eq!(batches, 3);
    assert_eq!(presented, all);
    assert_eq!(inner.len(), 0);
}

#[test]
fn single_item_entries_never_exceed_cap() {
    let mut inner = new_inner::<Vec<u8>>();
    for i in 0..7u32 {
        let (e, _rx) = entry::<Vec<u8>>(vec![i]);
        inner.push(e);
    }
    let mut sizes = Vec::new();
    while let Some(mut batch) = inner.take_batch(3) {
        sizes.push(batch.get_data_to_callback().len());
    }
    assert_eq!(sizes, vec![3, 3, 1]);
}
