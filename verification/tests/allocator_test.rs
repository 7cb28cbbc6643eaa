use dmxp::allocator::SharedMemoryAllocator;

#[test]
fn test_shared_memory_allocator() {
    // Create a new allocator: 1024 slots * ~1KB = ~1MB plus header,
    // so 4MB is comfortable.
    let mut allocator = SharedMemoryAllocator::new(4 * 1024 * 1024).expect("create allocator");
    assert!(allocator.get_channel(0).is_none());

    // Create a channel
    let channel = allocator.create_channel(1024).expect("create channel");
    assert_eq!(channel.id(), 0);

    // Get the channel back
    let channel_again = allocator.get_channel(0).expect("Channel should exist");
    assert_eq!(channel_again.id(), 0);

    // Create multiple channels
    for i in 1..5 {
        allocator.create_channel(512).expect("create channel");
        let channel = allocator.get_channel(i).expect("Channel should exist");
        assert_eq!(channel.id(), i);
    }

    // Try to get non-existent channel
    assert!(allocator.get_channel(999).is_none());
}

#[test]
fn test_get_channels_and_count() {
    // Create allocator with enough space
    let mut allocator = SharedMemoryAllocator::new(10 * 1024 * 1024).expect("create allocator");

    // Initially, no channels should exist
    assert_eq!(allocator.channel_count(), 0);
    assert_eq!(allocator.get_channels().len(), 0);

    // Create first channel
    let channel1 = allocator.create_channel(512).expect("create channel");
    assert_eq!(channel1.id(), 0);
    assert_eq!(allocator.channel_count(), 1);

    let channels = allocator.get_channels();
    assert_eq!(channels.len(), 1);
    assert_eq!(channels[0].id(), 0);

    // Create more channels
    let channel2 = allocator.create_channel(256).expect("create channel");
    let channel3 = allocator.create_channel(1024).expect("create channel");

    assert_eq!(channel2.id(), 1);
    assert_eq!(channel3.id(), 2);
    assert_eq!(allocator.channel_count(), 3);

    // Get all channels and verify
    let all_channels = allocator.get_channels();
    assert_eq!(all_channels.len(), 3);

    // Verify each channel ID
    let channel_ids: Vec<u32> = all_channels.iter().map(|c| c.id()).collect();
    assert_eq!(channel_ids, vec![0, 1, 2]);

    // Create a few more channels
    for _ in 0..5 {
        allocator.create_channel(128).expect("create channel");
    }

    assert_eq!(allocator.channel_count(), 8);
    assert_eq!(allocator.get_channels().len(), 8);

    println!("✓ All channel enumeration tests passed!");
}

#[test]
fn test_memory_tracking() {
    let total_size = 20 * 1024 * 1024; // 20MB
    let mut allocator = SharedMemoryAllocator::new(total_size).expect("create allocator");

    // Check initial state
    let initial_used = allocator.used_memory();
    let initial_available = allocator.available_memory();

    println!("Initial used memory: {} bytes", initial_used);
    println!("Initial available memory: {} bytes", initial_available);

    assert!(initial_used > 0, "Should have some memory used for header");
    assert!(initial_available > 0, "Should have available memory");
    assert_eq!(initial_used + initial_available, total_size);

    // Create a channel and check memory usage
    allocator.create_channel(1024).expect("create channel");

    let used_after_channel = allocator.used_memory();
    let available_after_channel = allocator.available_memory();

    println!(
        "After creating channel - used: {}, available: {}",
        used_after_channel, available_after_channel
    );

    assert!(used_after_channel > initial_used, "Used memory should increase");
    assert!(available_after_channel < initial_available, "Available memory should decrease");
    assert_eq!(used_after_channel + available_after_channel, total_size);

    // Create more channels
    for _ in 0..3 {
        allocator.create_channel(512).expect("create channel");
    }

    let final_used = allocator.used_memory();
    let final_available = allocator.available_memory();

    println!("After 4 channels - used: {}, available: {}", final_used, final_available);
    assert!(final_used > used_after_channel, "Used memory should keep increasing");
    assert_eq!(final_used + final_available, total_size);

    println!("✓ Memory tracking tests passed!");
}
