use async_channel::{unbounded, Receiver, Sender};
use capture_core::batch::{BatchManager, BatchStatus, JobProgress};
use capture_core::capture::{CaptureManager, CaptureState, Outcome};
use capture_core::config::WorkerSpec;
use capture_core::worker::{least_loaded, DispatchError, SelectionPolicy, WorkerSelector};
use url::Url;

fn spec(n: usize) -> WorkerSpec {
    WorkerSpec::new(format!("w{n}"), Url::parse(&format!("http://worker{n}")).unwrap(), "SECRET-REDACTED".to_string())
}

fn workers(n: usize) -> (Vec<(WorkerSpec, Sender<Url>)>, Vec<Receiver<Url>>) {
    let mut pairs = Vec::new();
    let mut rxs = Vec::new();
    for i in 0..n {
        let (tx, rx) = unbounded::<Url>();
        pairs.push((spec(i), tx));
        rxs.push(rx);
    }
    (pairs, rxs)
}

fn drain(rx: &Receiver<Url>) -> Vec<String> {
    let mut out = Vec::new();
    while let Ok(u) = rx.try_recv() {
        out.push(u.to_string());
    }
    out
}

fn link(s: &str) -> Url {
    Url::parse(s).unwrap()
}

#[test]
fn least_loaded_picks_first_minimum() {
    assert_eq!(least_loaded(&vec![3, 1, 1, 2]), Some(1));
    assert_eq!(least_loaded(&vec![0]), Some(0));
    assert_eq!(least_loaded(&vec![5, 4, 3]), Some(2));
    assert_eq!(least_loaded(&vec![2, 2, 2]), Some(0));
    assert_eq!(least_loaded(&vec![]), None);
}

#[test]
fn selector_prefers_the_shorter_backlog() {
    let (pairs, rxs) = workers(3);
    pairs[0].1.try_send(link("http://x")).unwrap();
    pairs[0].1.try_send(link("http://y")).unwrap();
    pairs[1].1.try_send(link("http://z")).unwrap();
    let sel = WorkerSelector::from_pairs(pairs);
    assert_eq!(sel.len(), 3);
    assert_eq!(sel.backlogs(), vec![2, 1, 0]);
    assert_eq!(sel.worker(0).backlog(), 2);
    assert_eq!(sel.least_busy(), Ok(2));
    assert_eq!(sel.select_worker(), Ok(2));
    drop(rxs);
}

#[test]
fn first_policy_ignores_load() {
    let (pairs, _rxs) = workers(2);
    pairs[0].1.try_send(link("http://x")).unwrap();
    let sel = WorkerSelector::with_policy(pairs, SelectionPolicy::First);
    assert_eq!(sel.select_worker(), Ok(0));
}

#[test]
fn selection_without_workers_fails() {
    let sel = WorkerSelector::from_pairs(Vec::new());
    assert_eq!(sel.least_busy(), Err(DispatchError::NoWorkers));
    let sel = WorkerSelector::with_policy(Vec::new(), SelectionPolicy::First);
    assert_eq!(sel.select_worker(), Err(DispatchError::NoWorkers));
}

#[test]
fn capture_without_workers_is_a_dispatch_error() {
    let mut cm = CaptureManager::from_pairs(Vec::new());
    assert_eq!(cm.process_capture(link("http://a"), 1, None), Err(DispatchError::NoWorkers));
}

#[test]
fn capture_to_closed_worker_is_reported() {
    let (pairs, rxs) = workers(1);
    drop(rxs);
    let mut cm = CaptureManager::from_pairs(pairs);
    assert_eq!(cm.process_capture(link("http://a"), 1, None), Err(DispatchError::WorkerClosed));
}

#[test]
fn capture_is_sent_and_recorded_pending() {
    let (pairs, rxs) = workers(1);
    let mut cm = CaptureManager::from_pairs(pairs);
    let id = cm.process_capture(link("http://a"), 9, None).unwrap();
    assert_eq!(cm.get_status(id), Some(CaptureState::Pending));
    let rec = cm.get_record(id).unwrap();
    assert_eq!(rec.owner, 9);
    assert_eq!(rec.worker, 0);
    assert_eq!(rec.source_batch, None);
    assert_eq!(drain(&rxs[0]), vec!["http://a/".to_string()]);
    assert_eq!(cm.get_status(id.wrapping_add(1)), None);
}

#[test]
fn reports_are_idempotent() {
    let (pairs, _rxs) = workers(1);
    let mut cm = CaptureManager::from_pairs(pairs);
    let a = cm.process_capture(link("http://a"), 1, None).unwrap();
    let b = cm.process_capture(link("http://b"), 1, None).unwrap();
    assert!(cm.report_result(a, Outcome::Success));
    assert!(!cm.report_result(a, Outcome::Success));
    assert!(!cm.report_result(a, Outcome::Failure));
    assert_eq!(cm.get_status(a), Some(CaptureState::Complete));
    assert!(cm.report_result(b, Outcome::Failure));
    assert!(!cm.report_result(b, Outcome::Success));
    assert_eq!(cm.get_status(b), Some(CaptureState::Failed));
    assert!(!cm.report_result(a ^ b ^ 1, Outcome::Success));
}

#[test]
fn record_dispatch_stores_a_pending_capture() {
    let mut cm = CaptureManager::from_pairs(Vec::new());
    cm.record_dispatch(42, 3, 7, Some(5));
    let rec = cm.get_record(42).unwrap();
    assert_eq!((rec.worker, rec.owner, rec.source_batch, rec.state), (3, 7, Some(5), CaptureState::Pending));
}

#[test]
fn batch_spreads_each_url_once_over_two_workers() {
    let (pairs, rxs) = workers(2);
    let mut bm = BatchManager::new(CaptureManager::from_pairs(pairs));
    let urls = vec![link("http://a"), link("http://b"), link("http://c")];
    let batch = bm.process_batch(urls, 1).unwrap();
    let caps = bm.batch_captures(batch).unwrap();
    assert_eq!(caps.len(), 3);
    assert_ne!(caps[0], caps[1]);
    assert_ne!(caps[1], caps[2]);
    assert_ne!(caps[0], caps[2]);
    let mut seen = drain(&rxs[0]);
    let second = drain(&rxs[1]);
    assert!(!second.is_empty());
    assert!(seen.len() < 3);
    seen.extend(second);
    seen.sort();
    assert_eq!(seen, vec!["http://a/".to_string(), "http://b/".to_string(), "http://c/".to_string()]);
    for c in caps {
        assert_eq!(bm.get_capture_status(c), Some(CaptureState::Pending));
        assert_eq!(bm.captures().get_record(c).unwrap().source_batch, Some(batch));
    }
}

#[test]
fn batch_counts_follow_resolutions() {
    let (pairs, _rxs) = workers(2);
    let mut bm = BatchManager::new(CaptureManager::from_pairs(pairs));
    let batch = bm.process_batch(vec![link("http://a"), link("http://b"), link("http://c")], 4).unwrap();
    let caps = bm.batch_captures(batch).unwrap();
    let p = bm.get_status(batch).unwrap();
    assert_eq!(p, JobProgress { total: 3, complete_count: 0, failed_count: 0, pending_count: 3 });
    assert!(bm.on_capture_resolved(caps[2], Outcome::Success));
    assert!(bm.on_capture_resolved(caps[0], Outcome::Failure));
    assert!(!bm.on_capture_resolved(caps[0], Outcome::Success));
    let p = bm.get_status(batch).unwrap();
    assert_eq!(p, JobProgress { total: 3, complete_count: 1, failed_count: 1, pending_count: 1 });
    assert_eq!(p.complete_count + p.failed_count + p.pending_count, p.total);
    assert!(bm.on_capture_resolved(caps[1], Outcome::Success));
    let p = bm.get_status(batch).unwrap();
    assert_eq!(p, JobProgress { total: 3, complete_count: 2, failed_count: 1, pending_count: 0 });
    assert_eq!(bm.get_status(batch ^ 1), None);
}

#[test]
fn batch_without_workers_fails_and_stores_nothing() {
    let mut bm = BatchManager::new(CaptureManager::from_pairs(Vec::new()));
    assert_eq!(bm.process_batch(vec![link("http://a")], 1), Err(DispatchError::NoWorkers));
}

#[test]
fn empty_batch_has_nothing_pending() {
    let mut bm = BatchManager::new(CaptureManager::from_pairs(Vec::new()));
    let batch = bm.process_batch(Vec::new(), 1).unwrap();
    assert_eq!(bm.get_status(batch), Some(JobProgress { total: 0, complete_count: 0, failed_count: 0, pending_count: 0 }));
}

#[test]
fn batch_status_resolves_only_its_own_captures_once() {
    let mut b = BatchStatus::from_vec(vec![10, 11, 12], 3);
    assert_eq!(b.owner(), 3);
    assert_eq!(b.captures(), vec![10, 11, 12]);
    assert!(!b.resolve(99, Outcome::Success));
    assert!(b.resolve(11, Outcome::Success));
    assert!(!b.resolve(11, Outcome::Failure));
    assert!(b.resolve(12, Outcome::Failure));
    assert!(!b.is_resolved());
    assert_eq!(b.progress(), JobProgress { total: 3, complete_count: 1, failed_count: 1, pending_count: 1 });
    assert!(b.resolve(10, Outcome::Failure));
    assert!(b.is_resolved());
}

#[test]
fn dispatch_as_reports_each_error() {
    let mut none = CaptureManager::from_pairs(Vec::new());
    assert_eq!(none.dispatch_as(7, link("http://a"), 1, None), Err(DispatchError::NoWorkers));
    let (pairs, rxs) = workers(2);
    let mut cm = CaptureManager::from_pairs(pairs);
    assert_eq!(cm.dispatch_as(7, link("http://a"), 1, None), Ok(7));
    assert_eq!(cm.dispatch_as(7, link("http://b"), 1, None), Err(DispatchError::DuplicateId));
    let total: usize = rxs.iter().map(|r| r.len()).sum();
    assert_eq!(total, 1);
    drop(rxs);
    assert_eq!(cm.dispatch_as(8, link("http://c"), 1, None), Err(DispatchError::WorkerClosed));
    assert_eq!(cm.get_status(8), None);
}

#[test]
fn snapshot_comes_with_the_choice() {
    let (pairs, _rxs) = workers(2);
    pairs[0].1.try_send(link("http://x")).unwrap();
    let sel = WorkerSelector::from_pairs(pairs);
    assert_eq!(sel.least_busy_with_snapshot(), Ok((1, vec![1, 0])));
}

#[test]
fn initiate_on_sends_to_that_worker_only() {
    let (pairs, rxs) = workers(3);
    let mut sel = WorkerSelector::from_pairs(pairs);
    assert!(sel.initiate_on(1, link("http://q")));
    assert_eq!(rxs[0].len(), 0);
    assert_eq!(drain(&rxs[1]), vec!["http://q/".to_string()]);
    assert_eq!(rxs[2].len(), 0);
}
