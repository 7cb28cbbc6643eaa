use dmxp::meta::MessageMeta;
use dmxp::ring::RingBuffer;

fn meta_with_len(len: usize) -> MessageMeta {
    MessageMeta {
        message_id: 0,
        timestamp_ns: 0,
        channel_id: 0,
        message_type: 1,
        sender_pid: 0,
        sender_runtime: 1,
        flags: 0,
        payload_len: len as u32,
    }
}

#[test]
fn single_thread_basic_enqueue_dequeue() {
    let capacity = 8;
    let mut rb = RingBuffer::new(capacity);
    println!("initialized slots");
    // Initially empty
    assert!(rb.dequeue().is_none());
    println!("initially empty");
    // Enqueue up to capacity
    for i in 0..capacity {
        let payload = vec![0u8; i];
        assert!(rb.enqueue(meta_with_len(i), &payload).is_some());
    }
    println!("enqueued all");
    // Now should be full
    let payload = vec![0u8; 123];
    assert!(rb.enqueue(meta_with_len(123), &payload).is_none());

    // Dequeue all and verify order and lengths
    for i in 0..capacity {
        let (meta, payload) = rb.dequeue().expect("must dequeue");
        let len = payload.len();
        println!("dequeued len: {len}");
        assert_eq!(len, i, "unexpected length");
        assert_eq!(meta.payload_len as usize, i);
    }
    println!("dequeued all");
    // Empty again
    assert!(rb.dequeue().is_none());
}

#[test]
fn ring_full_then_frees_slots() {
    let capacity = 4;
    let mut rb = RingBuffer::new(capacity);

    for _ in 0..capacity {
        assert!(rb.enqueue(meta_with_len(1), &[1u8]).is_some());
        println!("enqueued 1");
    }
    assert!(rb.enqueue(meta_with_len(1), &[2u8]).is_none(), "should report full");
    println!("should report full");

    // Free one slot
    assert!(rb.dequeue().is_some());
    println!("dequeued 1");
    // Now there should be space for one more
    assert!(rb.enqueue(meta_with_len(1), &[3u8]).is_some());
    println!("enqueued 3");
}

#[test]
fn slot_indices_wrap_with_mask() {
    let mut rb = RingBuffer::new(4);
    assert_eq!(rb.capacity(), 4);
    assert_eq!(rb.mask(), 3);
    // Run one and a half laps; indices must wrap modulo the capacity.
    let mut expected_idx = 0usize;
    for round in 0..6 {
        let idx = rb.enqueue(meta_with_len(1), &[round as u8]).expect("space available");
        assert_eq!(idx, expected_idx);
        expected_idx = (expected_idx + 1) & 3;
        let (_, payload) = rb.dequeue().expect("just enqueued");
        assert_eq!(payload, vec![round as u8]);
    }
}

#[test]
fn batch_enqueue_all_or_nothing() {
    let mut rb = RingBuffer::new(4);
    // Two messages in, two slots left.
    assert!(rb.enqueue(meta_with_len(1), &[10u8]).is_some());
    assert!(rb.enqueue(meta_with_len(1), &[11u8]).is_some());
    assert_eq!(rb.len(), 2);

    // A batch of three cannot fit: nothing of it may land.
    let batch3 = vec![
        (meta_with_len(1), vec![20u8]),
        (meta_with_len(1), vec![21u8]),
        (meta_with_len(1), vec![22u8]),
    ];
    assert!(rb.enqueue_batch(&batch3).is_none());
    assert_eq!(rb.len(), 2, "a refused batch must not move the tail");

    // A batch of two fits exactly and lands whole, in order.
    let batch2 = vec![(meta_with_len(1), vec![30u8]), (meta_with_len(1), vec![31u8])];
    assert!(rb.enqueue_batch(&batch2).is_some());
    assert_eq!(rb.len(), 4);

    let expected: Vec<u8> = vec![10, 11, 30, 31];
    for want in expected {
        let (_, payload) = rb.dequeue().expect("queued");
        assert_eq!(payload, vec![want]);
    }
    assert!(rb.dequeue().is_none());
}

#[test]
fn signal_counts_publications() {
    let mut rb = RingBuffer::new(2);
    assert_eq!(rb.signal_value(), 0);
    rb.signal_consumer();
    assert_eq!(rb.signal_value(), 1);
    rb.signal_consumer();
    assert_eq!(rb.signal_value(), 2);
}

#[test]
fn init_slots_resets_the_ring() {
    let mut rb = RingBuffer::new(4);
    assert!(rb.enqueue(meta_with_len(1), &[1u8]).is_some());
    assert!(rb.enqueue(meta_with_len(1), &[2u8]).is_some());
    rb.signal_consumer();
    rb.init_slots();
    assert_eq!(rb.len(), 0);
    assert_eq!(rb.signal_value(), 0);
    assert!(rb.dequeue().is_none());
    // The ring is usable again from sequence zero.
    assert_eq!(rb.enqueue(meta_with_len(1), &[3u8]), Some(0));
}
