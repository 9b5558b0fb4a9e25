use joduga::lockfree_queue::{ring_advance, ring_has_room, ring_len, ring_take_count, LockFreeRingBuffer};

#[test]
fn enqueue_dequeue() {
    let mut q = LockFreeRingBuffer::<u32>::new(4);
    assert!(q.enqueue(10).is_ok());
    assert!(q.enqueue(20).is_ok());
    let mut out = [0u32; 2];
    assert_eq!(q.dequeue(&mut out), 2);
    assert_eq!(out, [10, 20]);
}

#[test]
fn full_returns_err() {
    let mut q = LockFreeRingBuffer::<u32>::new(4);
    // capacity=4 → usable slots=3 (one wasted to distinguish full/empty)
    assert!(q.enqueue(1).is_ok());
    assert!(q.enqueue(2).is_ok());
    assert!(q.enqueue(3).is_ok());
    assert!(q.enqueue(4).is_err());
}

#[test]
fn wraparound() {
    let mut q = LockFreeRingBuffer::<u32>::new(4);
    // Fill and drain three times to test wraparound
    for round in 0..3 {
        let base = round * 10;
        assert!(q.enqueue(base + 1).is_ok());
        assert!(q.enqueue(base + 2).is_ok());
        let mut out = [0u32; 2];
        assert_eq!(q.dequeue(&mut out), 2);
        assert_eq!(out, [base + 1, base + 2]);
        assert!(q.is_empty());
    }
}

#[test]
fn len_tracks_correctly() {
    let mut q = LockFreeRingBuffer::<u32>::new(8);
    assert_eq!(q.len(), 0);
    q.enqueue(1).unwrap();
    q.enqueue(2).unwrap();
    assert_eq!(q.len(), 2);
    let mut out = [0u32; 1];
    q.dequeue(&mut out);
    assert_eq!(q.len(), 1);
}

#[test]
fn full_ring_hands_item_back_unchanged() {
    let mut q = LockFreeRingBuffer::<u32>::new(2);
    assert_eq!(q.capacity(), 2);
    assert_eq!(q.enqueue(7), Ok(()));
    assert_eq!(q.enqueue(8), Err(8));
    assert_eq!(q.len(), 1);
    let mut out = [0u32; 4];
    assert_eq!(q.dequeue(&mut out), 1);
    assert_eq!(out, [7, 0, 0, 0]);
}

#[test]
fn dequeue_leaves_tail_of_out_untouched_and_keeps_rest_queued() {
    let mut q = LockFreeRingBuffer::<u32>::new(8);
    for v in 1..=5 {
        q.enqueue(v).unwrap();
    }
    let mut out = [99u32; 3];
    assert_eq!(q.dequeue(&mut out), 3);
    assert_eq!(out, [1, 2, 3]);
    assert_eq!(q.len(), 2);
    let mut out = [0u32; 1];
    assert_eq!(q.dequeue(&mut out), 1);
    assert_eq!(out, [4]);
    let mut empty: [u32; 0] = [];
    assert_eq!(q.dequeue(&mut empty), 0);
    assert_eq!(q.len(), 1);
}

#[test]
fn dequeue_from_empty_ring_reads_nothing() {
    let mut q = LockFreeRingBuffer::<u32>::new(4);
    let mut out = [5u32; 2];
    assert_eq!(q.dequeue(&mut out), 0);
    assert_eq!(out, [5, 5]);
    assert!(q.is_empty());
}

#[test]
fn many_items_arrive_once_and_in_order() {
    // Producer and consumer interleaved on one thread: every value is seen
    // exactly once and in order.
    let mut q = LockFreeRingBuffer::<u32>::new(16);
    let mut next = 0u32;
    let mut received = 0u32;
    let mut buf = [0u32; 5];
    while received < 1000 {
        while next < 1000 && q.enqueue(next).is_ok() {
            next += 1;
        }
        let n = q.dequeue(&mut buf);
        for slot in buf.iter().take(n) {
            assert_eq!(*slot, received);
            received += 1;
        }
    }
    assert!(q.is_empty());
}

#[test]
fn ring_index_helpers() {
    // 8 slots: mask 7.
    assert_eq!(ring_len(5, 2, 7), 3);
    assert_eq!(ring_len(2, 5, 7), 5);
    assert_eq!(ring_len(4, 4, 7), 0);
    assert_eq!(ring_advance(7, 1, 7), 0);
    assert_eq!(ring_advance(6, 5, 7), 3);
    assert_eq!(ring_advance(3, 0, 7), 3);
}

#[test]
fn ring_room_and_take_count() {
    // 8 slots: room while fewer than 7 items are queued.
    assert!(ring_has_room(0, 0, 7));
    assert!(ring_has_room(5, 0, 7));
    assert!(!ring_has_room(6, 7, 7));
    assert!(!ring_has_room(7, 0, 7));
    assert!(ring_has_room(2, 4, 7));
    assert!(!ring_has_room(3, 4, 7));
    assert_eq!(ring_take_count(5, 2, 7, 10), 3);
    assert_eq!(ring_take_count(5, 2, 7, 2), 2);
    assert_eq!(ring_take_count(1, 6, 7, 100), 3);
    assert_eq!(ring_take_count(4, 4, 7, 3), 0);
}
