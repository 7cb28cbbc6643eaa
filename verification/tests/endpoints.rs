use dmxp::allocator::SharedMemoryAllocator;
use dmxp::builder::ChannelBuilder;
use dmxp::consumer::Consumer;
use dmxp::errors::{
    error_status, ErrorKind, STATUS_CHANNEL_FULL, STATUS_INTERNAL, STATUS_INVALID_ARG,
    STATUS_TIMEOUT,
};
use dmxp::layout::MSG_INLINE;
use dmxp::producer::Producer;

fn setup(capacity: usize) -> (SharedMemoryAllocator, Producer, Consumer) {
    let mut alloc = SharedMemoryAllocator::new(64 * 1024 * 1024).expect("create allocator");
    let part = alloc.create_channel(capacity).expect("create channel");
    let producer = Producer::new(part.id(), 1);
    let consumer = Consumer::new(part.id());
    (alloc, producer, consumer)
}

#[test]
fn single_thread_sanity() {
    // Capacity 8: eight ascending payloads go in, the ninth is
    // refused, and they come back in order.
    let (mut alloc, mut producer, mut consumer) = setup(8);
    for i in 1..=8u8 {
        let payload: Vec<u8> = (1..=i).collect();
        producer.send(alloc.ring_mut(0), &payload, 0).expect("ring has room");
    }
    let ninth: Vec<u8> = (1..=9).collect();
    assert_eq!(producer.send(alloc.ring_mut(0), &ninth, 0), Err(ErrorKind::WouldBlock));

    for i in 1..=8u8 {
        let payload = consumer
            .receive(alloc.ring_mut(0), 0)
            .expect("producer alive")
            .expect("message queued");
        let expected: Vec<u8> = (1..=i).collect();
        assert_eq!(payload, expected);
    }
    assert_eq!(consumer.receive(alloc.ring_mut(0), 0), Ok(None));
}

#[test]
fn fill_drain_refill() {
    // Capacity 4: four enqueues, one refusal, one dequeue, one
    // enqueue, four dequeues, in first-in-first-out order.
    let (mut alloc, mut producer, mut consumer) = setup(4);
    let names: [&[u8]; 5] = [b"first", b"second", b"third", b"fourth", b"fifth"];
    for name in &names[0..4] {
        producer.send(alloc.ring_mut(0), name, 0).expect("ring has room");
    }
    assert_eq!(producer.send(alloc.ring_mut(0), names[4], 0), Err(ErrorKind::WouldBlock));

    let first = consumer
        .receive(alloc.ring_mut(0), 0)
        .expect("producer alive")
        .expect("message queued");
    assert_eq!(first, b"first".to_vec());

    producer.send(alloc.ring_mut(0), names[4], 0).expect("a slot was freed");

    for name in &names[1..5] {
        let got = consumer
            .receive(alloc.ring_mut(0), 0)
            .expect("producer alive")
            .expect("message queued");
        assert_eq!(&got, name);
    }
    assert_eq!(consumer.receive(alloc.ring_mut(0), 0), Ok(None));
}

#[test]
fn mpmc_multiset_correctness() {
    // Four producers of ten thousand messages each, four consumers,
    // interleaved on one capacity-4096 ring: every stamped
    // (sender, id) pair arrives exactly once.
    let per_producer: usize = 10_000;
    let producers_n: usize = 4;
    let total = per_producer * producers_n;

    let mut alloc = SharedMemoryAllocator::new(64 * 1024 * 1024).expect("create allocator");
    let part = alloc.create_channel(4096).expect("create channel");
    let id = part.id();

    let mut producers: Vec<Producer> = (0..producers_n as u32)
        .map(|p| Producer::new(id, p + 1))
        .collect();
    let mut consumers: Vec<Consumer> = (0..4).map(|_| Consumer::new(id)).collect();

    let mut sent = vec![0usize; producers_n];
    let mut received: Vec<(u32, u64)> = Vec::with_capacity(total);
    let mut ci = 0usize;
    let mut rounds = 0usize;
    while received.len() < total {
        rounds += 1;
        assert!(rounds < 1_000_000, "the interleaving must make progress");
        for (pi, producer) in producers.iter_mut().enumerate() {
            if sent[pi] < per_producer
                && producer.send(alloc.ring_mut(id), b"payload", 0).is_ok()
            {
                sent[pi] += 1;
            }
        }
        for _ in 0..8 {
            let consumer = &mut consumers[ci % 4];
            ci += 1;
            match consumer.receive_with_meta(alloc.ring_mut(id), 0) {
                Ok(Some((meta, _payload))) => {
                    received.push((meta.sender_pid, meta.message_id));
                }
                Ok(None) => break,
                Err(e) => panic!("receive failed: {:?}", e),
            }
        }
    }
    assert_eq!(received.len(), total);

    let mut expected: Vec<(u32, u64)> = Vec::with_capacity(total);
    for p in 1..=producers_n as u32 {
        for i in 0..per_producer as u64 {
            expected.push((p, i));
        }
    }
    received.sort_unstable();
    expected.sort_unstable();
    assert_eq!(received, expected);
}

#[test]
fn attach_then_consume() {
    // One party creates the region and channel 0 (capacity 1024) and
    // sends five hundred tagged messages; another opens the same
    // channel as a consumer and verifies each one.
    let mut alloc = SharedMemoryAllocator::new(8 * 1024 * 1024).expect("create allocator");
    let builder = ChannelBuilder::new().with_channel_id(0).with_capacity(1024);
    let (mut producer, part) = builder.build_producer(&mut alloc, 7).expect("build producer");
    assert_eq!(part.id(), 0);

    for i in 0..500usize {
        let payload = format!("msg_{}", i).into_bytes();
        producer.send(alloc.ring_mut(0), &payload, i as u64).expect("ring has room");
    }

    let mut consumer = ChannelBuilder::new()
        .with_channel_id(0)
        .build_consumer(&alloc)
        .expect("the channel exists");
    for i in 0..500usize {
        let (meta, payload) = consumer
            .receive_with_meta(alloc.ring_mut(0), 1)
            .expect("producer alive")
            .expect("message queued");
        assert_eq!(payload, format!("msg_{}", i).into_bytes());
        assert_eq!(meta.message_id, i as u64);
        assert_eq!(meta.timestamp_ns, i as u64);
        assert_eq!(meta.channel_id, 0);
        assert_eq!(meta.sender_pid, 7);
    }
    assert_eq!(consumer.receive(alloc.ring_mut(0), 1), Ok(None));
}

#[test]
fn full_channel_under_contention() {
    // Capacity 16, thirty-two sends without a consumer: the last
    // sixteen fail as full. After eight dequeues, eight more succeed.
    let (mut alloc, mut producer, mut consumer) = setup(16);
    for i in 0..32u8 {
        let r = producer.send(alloc.ring_mut(0), &[i], 0);
        if i < 16 {
            assert!(r.is_ok(), "send {} should fit", i);
        } else {
            assert_eq!(r, Err(ErrorKind::WouldBlock), "send {} should be refused", i);
        }
    }
    for i in 0..8u8 {
        let payload = consumer
            .receive(alloc.ring_mut(0), 0)
            .expect("producer alive")
            .expect("message queued");
        assert_eq!(payload, vec![i]);
    }
    for i in 32..40u8 {
        producer.send(alloc.ring_mut(0), &[i], 0).expect("eight slots were freed");
    }
    assert_eq!(producer.send(alloc.ring_mut(0), &[40], 0), Err(ErrorKind::WouldBlock));
}

#[test]
fn allocator_limits() {
    // A region sized for exactly 256 capacity-16 channels: all 256
    // fit, the 257th fails, and lookups past the table find nothing.
    let band = (16 * dmxp::layout::SLOT_STRIDE + 127) & !127;
    let size = dmxp::layout::HEADER_SIZE + 256 * band;
    let mut alloc = SharedMemoryAllocator::new(size).expect("create allocator");
    for i in 0..256u32 {
        let part = alloc.create_channel(16).expect("channel fits");
        assert_eq!(part.id(), i);
    }
    assert_eq!(alloc.create_channel(16), Err(ErrorKind::OutOfMemory));
    assert_eq!(alloc.channel_count(), 256);
    assert!(alloc.get_channel(300).is_none());
}

#[test]
fn oversize_payload_rejected_before_any_claim() {
    let (mut alloc, mut producer, mut consumer) = setup(8);
    let oversize = vec![0u8; MSG_INLINE + 1];
    assert_eq!(producer.send(alloc.ring_mut(0), &oversize, 0), Err(ErrorKind::InvalidInput));
    // Nothing was claimed or counted: the next message is id 0 and the
    // only one queued.
    producer.send(alloc.ring_mut(0), b"ok", 0).expect("ring has room");
    let (meta, payload) = consumer
        .receive_with_meta(alloc.ring_mut(0), 0)
        .expect("producer alive")
        .expect("message queued");
    assert_eq!(meta.message_id, 0);
    assert_eq!(payload, b"ok".to_vec());
    assert_eq!(consumer.receive(alloc.ring_mut(0), 0), Ok(None));

    // The largest allowed payload still goes through whole.
    let exact = vec![0x5Au8; MSG_INLINE];
    producer.send(alloc.ring_mut(0), &exact, 0).expect("at the budget exactly");
    let got = consumer
        .receive(alloc.ring_mut(0), 0)
        .expect("producer alive")
        .expect("message queued");
    assert_eq!(got, exact);
}

#[test]
fn batch_send_is_atomic_and_ordered() {
    let (mut alloc, mut producer, mut consumer) = setup(4);
    // An empty batch is a no-op.
    producer.send_batch(alloc.ring_mut(0), &Vec::new(), 0).expect("empty batch");
    assert_eq!(consumer.receive(alloc.ring_mut(0), 0), Ok(None));

    // A batch over the free room is refused whole.
    producer.send(alloc.ring_mut(0), b"a", 0).expect("room");
    producer.send(alloc.ring_mut(0), b"b", 0).expect("room");
    let batch: Vec<Vec<u8>> = vec![b"c".to_vec(), b"d".to_vec(), b"e".to_vec()];
    assert_eq!(producer.send_batch(alloc.ring_mut(0), &batch, 9), Err(ErrorKind::WouldBlock));

    // After one dequeue it fits, lands in order, with consecutive ids.
    consumer.receive(alloc.ring_mut(0), 0).expect("alive").expect("queued");
    producer.send_batch(alloc.ring_mut(0), &batch, 9).expect("three slots free");

    let expectations: [(&[u8], u64); 4] = [(b"b", 1), (b"c", 5), (b"d", 6), (b"e", 7)];
    for (want, id) in expectations {
        let (meta, payload) = consumer
            .receive_with_meta(alloc.ring_mut(0), 0)
            .expect("alive")
            .expect("queued");
        assert_eq!(payload, want.to_vec());
        assert_eq!(meta.message_id, id);
        assert_eq!(meta.timestamp_ns, if id >= 5 { 9 } else { 0 });
    }

    // A batch with an oversize member is rejected before any id is
    // spent.
    let bad: Vec<Vec<u8>> = vec![b"f".to_vec(), vec![0u8; MSG_INLINE + 1]];
    assert_eq!(producer.send_batch(alloc.ring_mut(0), &bad, 0), Err(ErrorKind::InvalidInput));
    producer.send(alloc.ring_mut(0), b"g", 0).expect("room");
    let (meta, _) = consumer
        .receive_with_meta(alloc.ring_mut(0), 0)
        .expect("alive")
        .expect("queued");
    assert_eq!(meta.message_id, 8, "the refused batch must not spend ids");
}

#[test]
fn liveness_heuristic_and_broken_pipe() {
    let (mut alloc, mut producer, mut consumer) = setup(8);

    // A fresh consumer trusts the flag.
    assert!(consumer.is_producer_alive(100));
    assert_eq!(consumer.receive(alloc.ring_mut(0), 100), Ok(None));

    // A message refreshes the window.
    producer.send(alloc.ring_mut(0), b"hello", 0).expect("room");
    consumer.receive(alloc.ring_mut(0), 100).expect("alive").expect("queued");

    // Within five seconds of the last message the producer counts as
    // alive even with the flag cleared.
    consumer.set_producer_alive(false);
    assert!(consumer.is_producer_alive(104));
    assert_eq!(consumer.receive(alloc.ring_mut(0), 104), Ok(None));

    // Past the window, the cleared flag decides.
    assert!(!consumer.is_producer_alive(105));
    assert_eq!(consumer.receive(alloc.ring_mut(0), 105), Err(ErrorKind::BrokenPipe));

    // The producer-side flag works the same way on a full ring.
    let (mut alloc2, mut producer2, _) = setup(2);
    producer2.send(alloc2.ring_mut(0), b"x", 0).expect("room");
    producer2.send(alloc2.ring_mut(0), b"y", 0).expect("room");
    assert_eq!(producer2.send(alloc2.ring_mut(0), b"z", 0), Err(ErrorKind::WouldBlock));
    producer2.set_keep_alive(false);
    assert!(!producer2.keep_alive());
    assert_eq!(producer2.send(alloc2.ring_mut(0), b"z", 0), Err(ErrorKind::BrokenPipe));
}

#[test]
fn builder_wires_ids_and_reports_missing_channels() {
    let mut alloc = SharedMemoryAllocator::new(4 * 1024 * 1024).expect("create allocator");

    // No channel yet: a consumer cannot be built.
    let r = ChannelBuilder::new().with_channel_id(0).build_consumer(&alloc);
    assert!(matches!(r, Err(ErrorKind::NotFound)));

    let (producer, part) = ChannelBuilder::new()
        .with_channel_id(5)
        .with_capacity(8)
        .build_producer(&mut alloc, 33)
        .expect("build producer");
    assert_eq!(part.id(), 0, "ids are claimed in order");
    assert_eq!(producer.channel_id(), 5, "the producer stamps the chosen id");
    assert_eq!(producer.max_message_size(), MSG_INLINE);

    let consumer = ChannelBuilder::new().with_channel_id(0).build_consumer(&alloc).expect(
        "the channel exists",
    );
    assert_eq!(consumer.channel_id(), 0);
    assert!(consumer.producer_alive());

    // A non-power-of-two capacity is refused.
    let r = ChannelBuilder::new().with_capacity(100).build_producer(&mut alloc, 33);
    assert!(matches!(r, Err(ErrorKind::InvalidInput)));
}

#[test]
fn status_codes_cover_the_closed_set() {
    assert_eq!(error_status(ErrorKind::InvalidInput), STATUS_INVALID_ARG);
    assert_eq!(error_status(ErrorKind::WouldBlock), STATUS_CHANNEL_FULL);
    assert_eq!(error_status(ErrorKind::TimedOut), STATUS_TIMEOUT);
    assert_eq!(error_status(ErrorKind::NotFound), STATUS_INTERNAL);
    assert_eq!(error_status(ErrorKind::InvalidData), STATUS_INTERNAL);
    assert_eq!(error_status(ErrorKind::AlreadyExists), STATUS_INTERNAL);
    assert_eq!(error_status(ErrorKind::OutOfMemory), STATUS_INTERNAL);
    assert_eq!(error_status(ErrorKind::BrokenPipe), STATUS_INTERNAL);
    assert_eq!(error_status(ErrorKind::Unsupported), STATUS_INTERNAL);
}

#[test]
fn poll_backoff_caps_at_ten_milliseconds() {
    assert_eq!(Consumer::poll_backoff_ms(3), 3);
    assert_eq!(Consumer::poll_backoff_ms(10), 10);
    assert_eq!(Consumer::poll_backoff_ms(5000), 10);
    assert_eq!(Consumer::poll_backoff_ms(0), 0);
}
