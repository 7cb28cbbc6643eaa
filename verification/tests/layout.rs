// Layout conformance tests for the stable binary format: sizes,
// strides and field offsets of the encoded structures.

use dmxp::allocator::{
    decode_entry, decode_header_prefix, encode_entry, encode_header_prefix, ChannelEntry,
    GlobalHeader,
};
use dmxp::layout::{
    align_up_128, is_power_of_two, ENTRY_STRIDE, HEADER_SIZE, MAGIC_NUMBER, MAX_CHANNELS,
    META_SIZE, MSG_INLINE, SLOT_STRIDE,
};
use dmxp::meta::{decode_meta, encode_meta, encode_slot, MessageMeta};
use dmxp::ring::RingBuffer;

fn sample_meta() -> MessageMeta {
    MessageMeta {
        message_id: 0x1112_1314_1516_1718,
        timestamp_ns: 0x2122_2324_2526_2728,
        channel_id: 0x3132_3334,
        message_type: 0x4142_4344,
        sender_pid: 0x5152_5354,
        sender_runtime: 0x6162,
        flags: 0x7172,
        payload_len: 0x8182_8384,
    }
}

#[test]
fn test_message_meta_layout() {
    // Expected size with 8-byte alignment (due to u64 fields).
    let raw = 8 + 8 + 4 + 4 + 4 + 2 + 2 + 4; // 36 bytes of fields
    let aligned = (raw + 7) & !7; // round up to 8-byte multiple => 40

    let m = sample_meta();
    let bytes = encode_meta(&m);
    let size = bytes.len();
    println!("MessageMeta => size: {size}, expected: {aligned}");

    assert_eq!(size, aligned);
    assert_eq!(size, META_SIZE);
    // Each field sits little-endian at its tabulated offset.
    assert_eq!(&bytes[0..8], &m.message_id.to_le_bytes());
    assert_eq!(&bytes[8..16], &m.timestamp_ns.to_le_bytes());
    assert_eq!(&bytes[16..20], &m.channel_id.to_le_bytes());
    assert_eq!(&bytes[20..24], &m.message_type.to_le_bytes());
    assert_eq!(&bytes[24..28], &m.sender_pid.to_le_bytes());
    assert_eq!(&bytes[28..30], &m.sender_runtime.to_le_bytes());
    assert_eq!(&bytes[30..32], &m.flags.to_le_bytes());
    assert_eq!(&bytes[32..36], &m.payload_len.to_le_bytes());
    // The tail is padding up to the 8-byte structure alignment.
    assert_eq!(&bytes[36..40], &[0u8; 4]);
}

#[test]
fn meta_codec_round_trip() {
    let m = sample_meta();
    let bytes = encode_meta(&m);
    let back = decode_meta(&bytes);
    assert_eq!(back, m);
}

#[test]
fn slot_layout_and_stride() {
    // The slot stride is the encoded slot size: sequence word,
    // metadata and inline payload, rounded up to 64 bytes.
    assert_eq!(RingBuffer::slot_stride(), SLOT_STRIDE);
    assert_eq!(SLOT_STRIDE, ((8 + META_SIZE + MSG_INLINE) + 63) / 64 * 64);
    assert_eq!(SLOT_STRIDE % 8, 0);

    let m = sample_meta();
    let payload = vec![0xABu8; 5];
    let slot = encode_slot(0x0102_0304_0506_0708, &m, &payload);
    assert_eq!(slot.len(), SLOT_STRIDE);
    assert_eq!(&slot[0..8], &0x0102_0304_0506_0708u64.to_le_bytes());
    assert_eq!(&slot[8..48], &encode_meta(&m)[..]);
    assert_eq!(&slot[48..53], &payload[..]);
    assert!(slot[53..].iter().all(|&b| b == 0));
}

#[test]
fn entry_codec_round_trip_and_offsets() {
    let entry = ChannelEntry {
        channel_id: 0x0A0B_0C0D,
        flags: 0x1A1B_1C1D,
        capacity: 0x2A2B_2C2D_2E2F_2021,
        band_offset: 0x3A3B_3C3D_3E3F_3031,
    };
    let bytes = encode_entry(&entry, 0x4A4B_4C4D, 0x5A5B_5C5D_5E5F_5051, 0x6A6B_6C6D_6E6F_6061);
    assert_eq!(bytes.len(), ENTRY_STRIDE);
    // Fields at their tabulated offsets, cursors on their own lines.
    assert_eq!(&bytes[0..4], &entry.channel_id.to_le_bytes());
    assert_eq!(&bytes[4..8], &entry.flags.to_le_bytes());
    assert_eq!(&bytes[8..16], &entry.capacity.to_le_bytes());
    assert_eq!(&bytes[16..24], &entry.band_offset.to_le_bytes());
    assert_eq!(&bytes[24..28], &0x4A4B_4C4Du32.to_le_bytes());
    assert_eq!(&bytes[64..72], &0x5A5B_5C5D_5E5F_5051u64.to_le_bytes());
    assert_eq!(&bytes[128..136], &0x6A6B_6C6D_6E6F_6061u64.to_le_bytes());

    let (back, signal, tail, head) = decode_entry(&bytes);
    assert_eq!(back, entry);
    assert_eq!(signal, 0x4A4B_4C4D);
    assert_eq!(tail, 0x5A5B_5C5D_5E5F_5051);
    assert_eq!(head, 0x6A6B_6C6D_6E6F_6061);
}

#[test]
fn header_prefix_codec_round_trip() {
    let header = GlobalHeader {
        magic: MAGIC_NUMBER,
        version: 1,
        max_channels: MAX_CHANNELS as u32,
        channel_count: 3,
        reserved: 0,
        channels: Vec::new(),
    };
    let bytes = encode_header_prefix(&header);
    assert_eq!(bytes.len(), 128);
    assert_eq!(&bytes[0..8], &MAGIC_NUMBER.to_le_bytes());
    assert_eq!(&bytes[8..12], &1u32.to_le_bytes());
    assert_eq!(&bytes[12..16], &(MAX_CHANNELS as u32).to_le_bytes());
    assert_eq!(&bytes[16..20], &3u32.to_le_bytes());
    let (magic, version, max_channels, channel_count, reserved) = decode_header_prefix(&bytes);
    assert_eq!(magic, MAGIC_NUMBER);
    assert_eq!(version, 1);
    assert_eq!(max_channels, MAX_CHANNELS as u32);
    assert_eq!(channel_count, 3);
    assert_eq!(reserved, 0);
}

#[test]
fn alignment_and_power_of_two_helpers() {
    assert_eq!(align_up_128(0), 0);
    assert_eq!(align_up_128(1), 128);
    assert_eq!(align_up_128(128), 128);
    assert_eq!(align_up_128(129), 256);
    assert_eq!(align_up_128(17408), 17408);

    assert!(!is_power_of_two(0));
    assert!(is_power_of_two(1));
    assert!(is_power_of_two(2));
    assert!(!is_power_of_two(3));
    assert!(is_power_of_two(4096));
    assert!(!is_power_of_two(100));
    assert!(is_power_of_two(1 << 63));
    assert!(!is_power_of_two(u64::MAX));
}

#[test]
fn region_structures_are_aligned() {
    // Header, table entries and slots all sit on boundaries of at
    // least 64 bytes.
    assert_eq!(HEADER_SIZE % 128, 0);
    assert_eq!(ENTRY_STRIDE % 128, 0);
    assert_eq!(SLOT_STRIDE % 64, 0);
    assert_eq!(HEADER_SIZE, 128 + MAX_CHANNELS * ENTRY_STRIDE);
}
