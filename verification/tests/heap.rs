use mnemos_core::heap::{AllocError, AllocOutcome, Heap};

#[test]
fn alloc_dealloc_accounting() {
    let mut heap = Heap::new(1024);
    assert_eq!(heap.used_space(), 0);
    assert_eq!(heap.free_space(), 1024);

    let block = heap.try_allocate(600).unwrap();
    assert_eq!(block.size, 600);
    assert_eq!(heap.used_space(), 600);
    assert_eq!(heap.free_space(), 424);

    // Deallocation frees exactly the size requested at the matching
    // allocation.
    let woken = heap.deallocate(block);
    assert!(woken.is_empty());
    assert_eq!(heap.used_space(), 0);
    assert_eq!(heap.free_space(), 1024);
}

#[test]
fn outstanding_bytes_never_exceed_capacity() {
    let mut heap = Heap::new(256);
    let a = heap.try_allocate(100).unwrap();
    let b = heap.try_allocate(100).unwrap();
    // 56 bytes left: a request for 57 is refused, so the outstanding total
    // stays within the capacity.
    assert_eq!(heap.try_allocate(57), Err(AllocError::Exhausted));
    let c = heap.try_allocate(56).unwrap();
    assert_eq!(heap.used_space(), 256);
    assert_eq!(heap.free_space(), 0);
    heap.deallocate(b);
    assert_eq!(heap.used_space(), 156);
    heap.deallocate(a);
    heap.deallocate(c);
    assert_eq!(heap.used_space(), 0);
}

#[test]
fn oversized_request_fails_permanently() {
    let mut heap = Heap::new(1024);
    // Larger than the whole region: permanent failure, never parked.
    assert_eq!(heap.try_allocate(1025), Err(AllocError::CapacityViolation));
    let outcome = heap.allocate(4096, 7);
    assert!(matches!(outcome, AllocOutcome::Failed(AllocError::CapacityViolation)));
    // The waiter queue stayed empty: a later deallocation wakes nobody.
    let block = heap.try_allocate(1024).unwrap();
    let woken = heap.deallocate(block);
    assert!(woken.is_empty());
}

#[test]
fn parked_request_succeeds_after_deallocation() {
    let mut heap = Heap::new(1024);
    let first = heap.try_allocate(600).unwrap();

    // Only 424 bytes remain: a second 600-byte request parks.
    let outcome = heap.allocate(600, 42);
    assert!(matches!(outcome, AllocOutcome::Parked));

    // Freeing the first block wakes the parked requester...
    let woken = heap.deallocate(first);
    assert_eq!(woken, vec![42]);

    // ...and its retried request now succeeds.
    let retried = heap.allocate(600, 42);
    match retried {
        AllocOutcome::Ready(b) => assert_eq!(b.size, 600),
        _ => panic!("retried request should succeed"),
    }
    assert_eq!(heap.used_space(), 600);
}

#[test]
fn wake_pass_is_fifo_and_stops_at_first_misfit() {
    let mut heap = Heap::new(100);
    let all = heap.try_allocate(100).unwrap();
    assert!(matches!(heap.allocate(10, 1), AllocOutcome::Parked));
    assert!(matches!(heap.allocate(50, 2), AllocOutcome::Parked));
    assert!(matches!(heap.allocate(60, 3), AllocOutcome::Parked));

    // 100 bytes come free: 10 and 50 plausibly fit, 60 no longer does, and
    // the pass stops there in FIFO order.
    let woken = heap.deallocate(all);
    assert_eq!(woken, vec![1, 2]);
}

#[test]
fn abandoned_waiter_leaves_no_dangling_entry() {
    let mut heap = Heap::new(64);
    let block = heap.try_allocate(64).unwrap();
    assert!(matches!(heap.allocate(8, 9), AllocOutcome::Parked));

    // The parked task is dropped: its entry can be removed from outside
    // the wake path.
    assert!(heap.cancel_wait(9));
    assert!(!heap.cancel_wait(9));

    let woken = heap.deallocate(block);
    assert!(woken.is_empty());
}
