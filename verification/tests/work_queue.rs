use cherry_pit::wq::work_queue::{enqueue_batch, BatchTracker, EnqueueResult, WorkQueue};

#[test]
fn fifo_order_and_dedup() {
    let mut q: WorkQueue<u32> = WorkQueue::new(10);
    assert_eq!(q.enqueue("a".to_string(), 1), EnqueueResult::Accepted);
    assert_eq!(q.enqueue("b".to_string(), 2), EnqueueResult::Accepted);
    assert_eq!(q.enqueue("a".to_string(), 3), EnqueueResult::Deduplicated);
    assert_eq!(q.len(), 2);
    assert_eq!(q.dequeue(), Some(("a".to_string(), 1)));
    assert_eq!(q.enqueue("a".to_string(), 4), EnqueueResult::Accepted);
    assert_eq!(q.dequeue(), Some(("b".to_string(), 2)));
    assert_eq!(q.dequeue(), Some(("a".to_string(), 4)));
    assert_eq!(q.dequeue(), None);
    assert!(q.is_empty());
}

#[test]
fn capacity_and_close_refuse() {
    let mut q: WorkQueue<()> = WorkQueue::new(1);
    assert_eq!(q.enqueue("x".to_string(), ()), EnqueueResult::Accepted);
    assert_eq!(q.enqueue("y".to_string(), ()), EnqueueResult::QueueFull);
    assert_eq!(q.enqueue("x".to_string(), ()), EnqueueResult::Deduplicated);
    q.close();
    assert!(q.closed());
    assert_eq!(q.dequeue(), Some(("x".to_string(), ())));
    assert_eq!(q.enqueue("z".to_string(), ()), EnqueueResult::QueueFull);
    assert_eq!(q.dequeue(), None);
}

#[test]
fn batch_counts_each_job_once() {
    let mut q: WorkQueue<u8> = WorkQueue::new(3);
    q.enqueue("k0".to_string(), 0);
    let batch = vec![
        ("k1".to_string(), 1),
        ("k0".to_string(), 2),
        ("k1".to_string(), 3),
        ("k2".to_string(), 4),
        ("k3".to_string(), 5),
    ];
    let r = enqueue_batch(&mut q, batch);
    assert_eq!(r.total, 5);
    assert_eq!(r.accepted, 2);
    assert_eq!(r.deduplicated, 2);
    assert_eq!(r.rejected, 1);
    assert_eq!(q.len(), 3);
    assert_eq!(q.dequeue(), Some(("k0".to_string(), 0)));
    assert_eq!(q.dequeue(), Some(("k1".to_string(), 1)));
    assert_eq!(q.dequeue(), Some(("k2".to_string(), 4)));
}

#[test]
fn batch_tracker_counts_down() {
    let mut t = BatchTracker::new(3);
    t.complete_one();
    assert_eq!(t.remaining(), 2);
    assert_eq!(t.retire(5), 2);
    assert_eq!(t.remaining(), 0);
    assert_eq!(t.drain(), 0);
    let mut u = BatchTracker::new(4);
    assert_eq!(u.retire(1), 1);
    assert_eq!(u.drain(), 3);
    assert_eq!(u.remaining(), 0);
}

#[test]
fn dedup_count_matches_distinct() {
    let keys = ["a", "b", "a", "c", "b", "b", "d"];
    let mut q: WorkQueue<usize> = WorkQueue::new(keys.len() + 1);
    let batch: Vec<(String, usize)> = keys.iter().enumerate().map(|(i, k)| (k.to_string(), i)).collect();
    let r = enqueue_batch(&mut q, batch);
    assert_eq!(r.rejected, 0);
    assert_eq!(r.accepted, 4);
    assert_eq!(r.deduplicated, 3);
    assert_eq!(q.len(), 4);
    let order: Vec<String> = std::iter::from_fn(|| q.dequeue().map(|(k, _)| k)).collect();
    assert_eq!(order, vec!["a", "b", "c", "d"]);
}

#[test]
fn distinct_keys_come_out_in_order() {
    let keys = ["k3", "k1", "k2"];
    let mut q: WorkQueue<()> = WorkQueue::new(keys.len());
    for k in keys {
        assert_eq!(q.enqueue(k.to_string(), ()), EnqueueResult::Accepted);
    }
    for k in keys {
        assert_eq!(q.dequeue().map(|(key, _)| key), Some(k.to_string()));
    }
}
