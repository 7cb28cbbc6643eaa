//! Transport metadata and its stable binary form.
//!
//! `MessageMeta` is the cross-language surface of the bus: it always
//! encodes to exactly [`META_SIZE`] bytes, little-endian, each field at
//! the offset fixed below.
//!
//! | offset | field          |
//! |--------|----------------|
//! | 0      | message_id     |
//! | 8      | timestamp_ns   |
//! | 16     | channel_id     |
//! | 20     | message_type   |
//! | 24     | sender_pid     |
//! | 28     | sender_runtime |
//! | 30     | flags          |
//! | 32     | payload_len    |
//! | 36     | (padding)      |

use vstd::prelude::*;
use vstd::bytes::{
    spec_u16_from_le_bytes, spec_u16_to_le_bytes, spec_u32_from_le_bytes, spec_u32_to_le_bytes,
    spec_u64_from_le_bytes, spec_u64_to_le_bytes, u16_from_le_bytes, u16_to_le_bytes,
    u32_from_le_bytes, u32_to_le_bytes, u64_from_le_bytes, u64_to_le_bytes,
    lemma_auto_spec_u16_to_from_le_bytes, lemma_auto_spec_u32_to_from_le_bytes,
    lemma_auto_spec_u64_to_from_le_bytes,
};
use vstd::slice::{slice_subrange, slice_to_vec};
use crate::layout::{META_SIZE, MSG_INLINE, SLOT_STRIDE};

verus! {

/// Transport-only metadata that precedes each payload in a slot.
#[derive(Clone, Copy, Debug, PartialEq, Eq, Structural)]
pub struct MessageMeta {
    /// Monotone per-producer counter.
    pub message_id: u64,
    /// Producer-local wall clock, in nanoseconds.
    pub timestamp_ns: u64,
    /// Redundant copy of the channel id, for cross-checks.
    pub channel_id: u32,
    /// Opaque application tag.
    pub message_type: u32,
    /// Operating-system process id of the sender.
    pub sender_pid: u32,
    /// Language or runtime tag; 1 means native.
    pub sender_runtime: u16,
    /// Message-level flags.
    pub flags: u16,
    /// Bytes of the payload actually used.
    pub payload_len: u32,
}

impl Default for MessageMeta {
    /// The all-zero metadata.
    fn default() -> (r: Self)
        ensures
            r == MessageMeta::spec_zeroed(),
    {
        MessageMeta {
            message_id: 0,
            timestamp_ns: 0,
            channel_id: 0,
            message_type: 0,
            sender_pid: 0,
            sender_runtime: 0,
            flags: 0,
            payload_len: 0,
        }
    }
}

impl MessageMeta {
    /// The all-zero metadata value.
    pub open spec fn spec_zeroed() -> MessageMeta {
        MessageMeta {
            message_id: 0,
            timestamp_ns: 0,
            channel_id: 0,
            message_type: 0,
            sender_pid: 0,
            sender_runtime: 0,
            flags: 0,
            payload_len: 0,
        }
    }
}

/// The binary form of a metadata value: every field little-endian at
/// its tabulated offset, then four bytes of padding up to the 8-byte
/// structure alignment.
pub open spec fn spec_meta_bytes(m: MessageMeta) -> Seq<u8> {
    spec_u64_to_le_bytes(m.message_id) + spec_u64_to_le_bytes(m.timestamp_ns)
        + spec_u32_to_le_bytes(m.channel_id) + spec_u32_to_le_bytes(m.message_type)
        + spec_u32_to_le_bytes(m.sender_pid) + spec_u16_to_le_bytes(m.sender_runtime)
        + spec_u16_to_le_bytes(m.flags) + spec_u32_to_le_bytes(m.payload_len)
        + seq![0u8, 0u8, 0u8, 0u8]
}

/// The encoding is exactly [`META_SIZE`] bytes long and places each
/// field at its tabulated offset.
pub proof fn lemma_meta_layout(m: MessageMeta)
    ensures
        spec_meta_bytes(m).len() == META_SIZE,
        spec_meta_bytes(m).subrange(0, 8) == spec_u64_to_le_bytes(m.message_id),
        spec_meta_bytes(m).subrange(8, 16) == spec_u64_to_le_bytes(m.timestamp_ns),
        spec_meta_bytes(m).subrange(16, 20) == spec_u32_to_le_bytes(m.channel_id),
        spec_meta_bytes(m).subrange(20, 24) == spec_u32_to_le_bytes(m.message_type),
        spec_meta_bytes(m).subrange(24, 28) == spec_u32_to_le_bytes(m.sender_pid),
        spec_meta_bytes(m).subrange(28, 30) == spec_u16_to_le_bytes(m.sender_runtime),
        spec_meta_bytes(m).subrange(30, 32) == spec_u16_to_le_bytes(m.flags),
        spec_meta_bytes(m).subrange(32, 36) == spec_u32_to_le_bytes(m.payload_len),
{
    lemma_auto_spec_u16_to_from_le_bytes();
    lemma_auto_spec_u32_to_from_le_bytes();
    lemma_auto_spec_u64_to_from_le_bytes();
    assert(spec_meta_bytes(m).subrange(0, 8) =~= spec_u64_to_le_bytes(m.message_id));
    assert(spec_meta_bytes(m).subrange(8, 16) =~= spec_u64_to_le_bytes(m.timestamp_ns));
    assert(spec_meta_bytes(m).subrange(16, 20) =~= spec_u32_to_le_bytes(m.channel_id));
    assert(spec_meta_bytes(m).subrange(20, 24) =~= spec_u32_to_le_bytes(m.message_type));
    assert(spec_meta_bytes(m).subrange(24, 28) =~= spec_u32_to_le_bytes(m.sender_pid));
    assert(spec_meta_bytes(m).subrange(28, 30) =~= spec_u16_to_le_bytes(m.sender_runtime));
    assert(spec_meta_bytes(m).subrange(30, 32) =~= spec_u16_to_le_bytes(m.flags));
    assert(spec_meta_bytes(m).subrange(32, 36) =~= spec_u32_to_le_bytes(m.payload_len));
}

/// Decoding the encoding of any metadata value gives it back
/// unchanged, field for field.
pub proof fn lemma_meta_round_trip(m: MessageMeta)
    ensures
        spec_u64_from_le_bytes(spec_meta_bytes(m).subrange(0, 8)) == m.message_id,
        spec_u64_from_le_bytes(spec_meta_bytes(m).subrange(8, 16)) == m.timestamp_ns,
        spec_u32_from_le_bytes(spec_meta_bytes(m).subrange(16, 20)) == m.channel_id,
        spec_u32_from_le_bytes(spec_meta_bytes(m).subrange(20, 24)) == m.message_type,
        spec_u32_from_le_bytes(spec_meta_bytes(m).subrange(24, 28)) == m.sender_pid,
        spec_u16_from_le_bytes(spec_meta_bytes(m).subrange(28, 30)) == m.sender_runtime,
        spec_u16_from_le_bytes(spec_meta_bytes(m).subrange(30, 32)) == m.flags,
        spec_u32_from_le_bytes(spec_meta_bytes(m).subrange(32, 36)) == m.payload_len,
{
    lemma_meta_layout(m);
    lemma_auto_spec_u16_to_from_le_bytes();
    lemma_auto_spec_u32_to_from_le_bytes();
    lemma_auto_spec_u64_to_from_le_bytes();
}

/// Writes a metadata value in its stable binary form.
pub fn encode_meta(m: &MessageMeta) -> (r: Vec<u8>)
    ensures
        r@ == spec_meta_bytes(*m),
        r@.len() == META_SIZE,
{
    proof {
        lemma_meta_layout(*m);
    }
    let mut out = u64_to_le_bytes(m.message_id);
    let mut part = u64_to_le_bytes(m.timestamp_ns);
    out.append(&mut part);
    let mut part = u32_to_le_bytes(m.channel_id);
    out.append(&mut part);
    let mut part = u32_to_le_bytes(m.message_type);
    out.append(&mut part);
    let mut part = u32_to_le_bytes(m.sender_pid);
    out.append(&mut part);
    let mut part = u16_to_le_bytes(m.sender_runtime);
    out.append(&mut part);
    let mut part = u16_to_le_bytes(m.flags);
    out.append(&mut part);
    let mut part = u32_to_le_bytes(m.payload_len);
    out.append(&mut part);
    out.push(0u8);
    out.push(0u8);
    out.push(0u8);
    out.push(0u8);
    proof {
        assert(out@ =~= spec_meta_bytes(*m));
    }
    out
}

/// A run of zero bytes.
pub open spec fn spec_zeros(n: int) -> Seq<u8> {
    Seq::new(n as nat, |i: int| 0u8)
}

/// Appends `n` zero bytes of padding.
pub(crate) fn push_zeros(out: &mut Vec<u8>, n: usize)
    requires
        old(out)@.len() + n <= usize::MAX,
    ensures
        final(out)@ == old(out)@ + spec_zeros(n as int),
{
    let mut k: usize = 0;
    while k < n
        invariant
            k <= n,
            out@ == old(out)@ + spec_zeros(k as int),
        decreases n - k,
    {
        out.push(0u8);
        proof {
            assert(out@ =~= old(out)@ + spec_zeros(k + 1));
        }
        k = k + 1;
    }
    proof {
        assert(out@ =~= old(out)@ + spec_zeros(n as int));
    }
}

/// The binary form of one slot: the sequence word, the metadata, the
/// payload, and zero padding out to the slot stride.
pub open spec fn spec_slot_bytes(sequence: u64, m: MessageMeta, payload: Seq<u8>) -> Seq<u8> {
    spec_u64_to_le_bytes(sequence) + spec_meta_bytes(m) + payload + spec_zeros(
        SLOT_STRIDE - 8 - META_SIZE - payload.len(),
    )
}

/// A slot encodes to exactly the slot stride — the stride in the
/// region's geometry is the size of an encoded slot — with the
/// sequence word at offset 0, the metadata at offset 8 and the payload
/// right after it.
pub proof fn lemma_slot_bytes_layout(sequence: u64, m: MessageMeta, payload: Seq<u8>)
    requires
        payload.len() <= MSG_INLINE,
    ensures
        spec_slot_bytes(sequence, m, payload).len() == SLOT_STRIDE,
        spec_slot_bytes(sequence, m, payload).subrange(0, 8) == spec_u64_to_le_bytes(sequence),
        spec_slot_bytes(sequence, m, payload).subrange(8, 8 + META_SIZE as int) == spec_meta_bytes(
            m,
        ),
        spec_slot_bytes(sequence, m, payload).subrange(
            8 + META_SIZE as int,
            8 + META_SIZE + payload.len(),
        ) == payload,
{
    lemma_meta_layout(m);
    lemma_auto_spec_u64_to_from_le_bytes();
    assert(spec_slot_bytes(sequence, m, payload).subrange(0, 8) =~= spec_u64_to_le_bytes(
        sequence,
    ));
    assert(spec_slot_bytes(sequence, m, payload).subrange(8, 8 + META_SIZE as int)
        =~= spec_meta_bytes(m));
    assert(spec_slot_bytes(sequence, m, payload).subrange(
        8 + META_SIZE as int,
        8 + META_SIZE + payload.len(),
    ) =~= payload);
}

/// Writes one slot in its stable binary form.
pub fn encode_slot(sequence: u64, m: &MessageMeta, payload: &[u8]) -> (r: Vec<u8>)
    requires
        payload@.len() <= MSG_INLINE,
    ensures
        r@ == spec_slot_bytes(sequence, *m, payload@),
        r@.len() == SLOT_STRIDE,
{
    proof {
        lemma_slot_bytes_layout(sequence, *m, payload@);
    }
    let mut out = u64_to_le_bytes(sequence);
    let mut part = encode_meta(m);
    out.append(&mut part);
    let mut part = slice_to_vec(payload);
    out.append(&mut part);
    push_zeros(&mut out, SLOT_STRIDE - 8 - META_SIZE - payload.len());
    proof {
        assert(out@ =~= spec_slot_bytes(sequence, *m, payload@));
    }
    out
}

/// Reads a metadata value back from its binary form, ignoring the
/// trailing padding.
pub fn decode_meta(bytes: &[u8]) -> (m: MessageMeta)
    requires
        bytes@.len() == META_SIZE,
    ensures
        m.message_id == spec_u64_from_le_bytes(bytes@.subrange(0, 8)),
        m.timestamp_ns == spec_u64_from_le_bytes(bytes@.subrange(8, 16)),
        m.channel_id == spec_u32_from_le_bytes(bytes@.subrange(16, 20)),
        m.message_type == spec_u32_from_le_bytes(bytes@.subrange(20, 24)),
        m.sender_pid == spec_u32_from_le_bytes(bytes@.subrange(24, 28)),
        m.sender_runtime == spec_u16_from_le_bytes(bytes@.subrange(28, 30)),
        m.flags == spec_u16_from_le_bytes(bytes@.subrange(30, 32)),
        m.payload_len == spec_u32_from_le_bytes(bytes@.subrange(32, 36)),
{
    MessageMeta {
        message_id: u64_from_le_bytes(slice_subrange(bytes, 0, 8)),
        timestamp_ns: u64_from_le_bytes(slice_subrange(bytes, 8, 16)),
        channel_id: u32_from_le_bytes(slice_subrange(bytes, 16, 20)),
        message_type: u32_from_le_bytes(slice_subrange(bytes, 20, 24)),
        sender_pid: u32_from_le_bytes(slice_subrange(bytes, 24, 28)),
        sender_runtime: u16_from_le_bytes(slice_subrange(bytes, 28, 30)),
        flags: u16_from_le_bytes(slice_subrange(bytes, 30, 32)),
        payload_len: u32_from_le_bytes(slice_subrange(bytes, 32, 36)),
    }
}

} // verus!
