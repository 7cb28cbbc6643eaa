//! The channel allocator: owner of the region's header and of the ring
//! behind every live channel.
//!
//! Channel ids are claimed from a monotone counter and never reused;
//! data bands are bump-placed after the highest live band, 128-byte
//! aligned, and never reclaimed — removing a channel only frees its
//! table entry. The allocator's invariant keeps every live band inside
//! the region and all live bands pairwise disjoint.

use vstd::prelude::*;
use vstd::bytes::{
    lemma_auto_spec_u32_to_from_le_bytes, lemma_auto_spec_u64_to_from_le_bytes,
    spec_u32_from_le_bytes, spec_u32_to_le_bytes, spec_u64_from_le_bytes, spec_u64_to_le_bytes,
    u32_from_le_bytes, u32_to_le_bytes, u64_from_le_bytes, u64_to_le_bytes,
};
use vstd::slice::slice_subrange;
use crate::errors::ErrorKind;
use crate::layout::{
    align_up_128, is_power_of_two, spec_align128, spec_is_pow2, ENTRY_STRIDE, FREE_CHANNEL_ID,
    HEADER_SIZE, LAYOUT_VERSION, MAGIC_NUMBER, MAX_CHANNELS, SLOT_STRIDE,
};
use crate::meta::{push_zeros, spec_zeros};
use crate::ring::RingBuffer;

verus! {

/// One row of the header's channel table.
#[derive(Clone, Copy, Debug, PartialEq, Eq, Structural)]
pub struct ChannelEntry {
    /// Equals the row index while live; [`FREE_CHANNEL_ID`] when free.
    pub channel_id: u32,
    /// Reserved bitfield.
    pub flags: u32,
    /// Number of slots; zero exactly when the entry is free.
    pub capacity: u64,
    /// Byte offset from the region base to the channel's data band.
    pub band_offset: u64,
}

/// The header at the start of the region: identification, versioning
/// and the channel table.
pub struct GlobalHeader {
    /// Identifies the region as one of ours.
    pub magic: u64,
    /// Layout version.
    pub version: u32,
    /// Echo of [`MAX_CHANNELS`] for cross-language validation.
    pub max_channels: u32,
    /// Number of live entries.
    pub channel_count: u32,
    /// Reserved padding word.
    pub reserved: u32,
    /// The channel table, one row per possible channel.
    pub channels: Vec<ChannelEntry>,
}

/// A claim on one live channel: its id and capacity.
#[derive(Clone, Copy, Debug, PartialEq, Eq, Structural)]
pub struct ChannelPartition {
    /// The channel id, equal to the table row that backs it.
    pub channel_id: u32,
    /// Number of slots in the channel's ring.
    pub capacity: u64,
}

impl ChannelPartition {
    /// The channel id.
    pub fn id(&self) -> (r: u32)
        ensures
            r == self.channel_id,
    {
        self.channel_id
    }
}

/// Where a live entry's band ends, one byte past its last slot.
pub open spec fn entry_end(e: ChannelEntry) -> int {
    e.band_offset + e.capacity * (SLOT_STRIDE as int)
}

/// End of the highest band among the first `n` entries, and never less
/// than the header itself.
pub open spec fn used_end_up_to(entries: Seq<ChannelEntry>, n: int) -> int
    decreases n,
{
    if n <= 0 {
        HEADER_SIZE as int
    } else {
        let prev = used_end_up_to(entries, n - 1);
        let e = entries[n - 1];
        if e.capacity != 0 && entry_end(e) > prev {
            entry_end(e)
        } else {
            prev
        }
    }
}

/// How many of the first `n` entries are live.
pub open spec fn live_count_up_to(entries: Seq<ChannelEntry>, n: int) -> int
    decreases n,
{
    if n <= 0 {
        0
    } else {
        live_count_up_to(entries, n - 1) + if entries[n - 1].capacity != 0 {
            1int
        } else {
            0int
        }
    }
}

/// The ids of the live entries among the first `n`, in ascending order.
pub open spec fn live_ids_up_to(entries: Seq<ChannelEntry>, n: int) -> Seq<u32>
    decreases n,
{
    if n <= 0 {
        Seq::empty()
    } else {
        live_ids_up_to(entries, n - 1) + if entries[n - 1].capacity != 0 {
            seq![(n - 1) as u32]
        } else {
            Seq::empty()
        }
    }
}

/// Bytes a region must offer for the first `n` entries when their
/// bands are laid out back to back, each 128-byte aligned.
pub open spec fn walk_size(entries: Seq<ChannelEntry>, n: int) -> int
    decreases n,
{
    if n <= 0 {
        HEADER_SIZE as int
    } else {
        spec_align128(walk_size(entries, n - 1)) + entries[n - 1].capacity * (SLOT_STRIDE as int)
    }
}

/// One past the highest live index among the first `n` entries; zero
/// if none is live.
pub open spec fn next_free_id(entries: Seq<ChannelEntry>, n: int) -> int
    decreases n,
{
    if n <= 0 {
        0
    } else if entries[n - 1].capacity != 0 {
        n
    } else {
        next_free_id(entries, n - 1)
    }
}

/// Every live entry's band ends at or before the used mark.
proof fn lemma_used_end_ge_entry(entries: Seq<ChannelEntry>, n: int, j: int)
    requires
        0 <= j < n,
        entries[j].capacity != 0,
    ensures
        entry_end(entries[j]) <= used_end_up_to(entries, n),
    decreases n,
{
    if j < n - 1 {
        lemma_used_end_ge_entry(entries, n - 1, j);
    }
}

/// The used mark never falls below the header.
proof fn lemma_used_end_ge_header(entries: Seq<ChannelEntry>, n: int)
    ensures
        used_end_up_to(entries, n) >= HEADER_SIZE,
    decreases n,
{
    if n > 0 {
        lemma_used_end_ge_header(entries, n - 1);
    }
}

/// The live count stays between zero and `n`.
proof fn lemma_live_count_bound(entries: Seq<ChannelEntry>, n: int)
    ensures
        0 <= live_count_up_to(entries, n),
        n >= 0 ==> live_count_up_to(entries, n) <= n,
    decreases n,
{
    if n > 0 {
        lemma_live_count_bound(entries, n - 1);
    }
}

/// Replacing one entry moves the live count by the liveness delta of
/// that entry, if the count covers it.
proof fn lemma_live_count_update(a: Seq<ChannelEntry>, k: int, e: ChannelEntry, n: int)
    requires
        0 <= k < a.len(),
        n <= a.len(),
    ensures
        live_count_up_to(a.update(k, e), n) == live_count_up_to(a, n) + if k < n {
            (if e.capacity != 0 {
                1int
            } else {
                0int
            }) - (if a[k].capacity != 0 {
                1int
            } else {
                0int
            })
        } else {
            0int
        },
    decreases n,
{
    if n > 0 {
        lemma_live_count_update(a, k, e, n - 1);
    }
}

/// There are as many live ids as live entries.
proof fn lemma_live_ids_len(entries: Seq<ChannelEntry>, n: int)
    ensures
        live_ids_up_to(entries, n).len() == live_count_up_to(entries, n) || n < 0,
    decreases n,
{
    if n > 0 {
        lemma_live_ids_len(entries, n - 1);
    }
}

/// A table with a live entry counts at least one live channel.
proof fn lemma_live_count_pos(entries: Seq<ChannelEntry>, n: int, j: int)
    requires
        0 <= j < n,
        entries[j].capacity != 0,
    ensures
        live_count_up_to(entries, n) >= 1,
    decreases n,
{
    lemma_live_count_bound(entries, n - 1);
    if j < n - 1 {
        lemma_live_count_pos(entries, n - 1, j);
    }
}

/// Over an all-free table the derived quantities collapse.
proof fn lemma_all_free(entries: Seq<ChannelEntry>, n: int)
    requires
        forall|j: int| 0 <= j < n ==> (#[trigger] entries[j]).capacity == 0,
    ensures
        live_count_up_to(entries, n) == 0,
        used_end_up_to(entries, n) == HEADER_SIZE,
        next_free_id(entries, n) == 0,
    decreases n,
{
    if n > 0 {
        lemma_all_free(entries, n - 1);
    }
}

/// Every live entry of a well-formed allocator sits at its own index
/// with a power-of-two capacity of at least two, and its band is
/// 128-byte aligned, past the header, and inside the region; every
/// free entry carries the free sentinel as its id.
pub proof fn lemma_live_entry_invariants(a: SharedMemoryAllocator, i: int)
    requires
        a.wf(),
        0 <= i < MAX_CHANNELS,
    ensures
        a.entries()[i].capacity != 0 ==> {
            &&& a.entries()[i].channel_id == i
            &&& spec_is_pow2(a.entries()[i].capacity)
            &&& a.entries()[i].capacity >= 2
            &&& a.entries()[i].band_offset % 128 == 0
            &&& HEADER_SIZE <= a.entries()[i].band_offset
            &&& entry_end(a.entries()[i]) <= a.region_size_spec()
        },
        a.entries()[i].capacity == 0 ==> a.entries()[i].channel_id == FREE_CHANNEL_ID,
{
}

/// The bands of two distinct live channels never overlap: one ends at
/// or before the other begins.
pub proof fn lemma_bands_disjoint(a: SharedMemoryAllocator, i: int, j: int)
    requires
        a.wf(),
        a.is_live(i),
        a.is_live(j),
        i != j,
    ensures
        entry_end(a.entries()[i]) <= a.entries()[j].band_offset || entry_end(a.entries()[j])
            <= a.entries()[i].band_offset,
{
}

/// The binary form of one channel-table row: the entry's fields, the
/// signal word, then the tail and head cursors each at the start of a
/// cache line of their own, padded out to the entry stride.
///
/// | offset | field       |
/// |--------|-------------|
/// | 0      | channel_id  |
/// | 4      | flags       |
/// | 8      | capacity    |
/// | 16     | band_offset |
/// | 24     | signal      |
/// | 64     | tail        |
/// | 128    | head        |
pub open spec fn spec_entry_bytes(e: ChannelEntry, signal: u32, tail: u64, head: u64) -> Seq<u8> {
    spec_u32_to_le_bytes(e.channel_id) + spec_u32_to_le_bytes(e.flags) + spec_u64_to_le_bytes(
        e.capacity,
    ) + spec_u64_to_le_bytes(e.band_offset) + spec_u32_to_le_bytes(signal) + spec_zeros(36)
        + spec_u64_to_le_bytes(tail) + spec_zeros(56) + spec_u64_to_le_bytes(head) + spec_zeros(
        120,
    )
}

/// The entry encoding is exactly [`ENTRY_STRIDE`] bytes and places
/// each field at its tabulated offset.
pub proof fn lemma_entry_layout(e: ChannelEntry, signal: u32, tail: u64, head: u64)
    ensures
        spec_entry_bytes(e, signal, tail, head).len() == ENTRY_STRIDE,
        spec_entry_bytes(e, signal, tail, head).subrange(0, 4) == spec_u32_to_le_bytes(
            e.channel_id,
        ),
        spec_entry_bytes(e, signal, tail, head).subrange(4, 8) == spec_u32_to_le_bytes(e.flags),
        spec_entry_bytes(e, signal, tail, head).subrange(8, 16) == spec_u64_to_le_bytes(
            e.capacity,
        ),
        spec_entry_bytes(e, signal, tail, head).subrange(16, 24) == spec_u64_to_le_bytes(
            e.band_offset,
        ),
        spec_entry_bytes(e, signal, tail, head).subrange(24, 28) == spec_u32_to_le_bytes(signal),
        spec_entry_bytes(e, signal, tail, head).subrange(64, 72) == spec_u64_to_le_bytes(tail),
        spec_entry_bytes(e, signal, tail, head).subrange(128, 136) == spec_u64_to_le_bytes(head),
{
    lemma_auto_spec_u32_to_from_le_bytes();
    lemma_auto_spec_u64_to_from_le_bytes();
    let b = spec_entry_bytes(e, signal, tail, head);
    assert(b.subrange(0, 4) =~= spec_u32_to_le_bytes(e.channel_id));
    assert(b.subrange(4, 8) =~= spec_u32_to_le_bytes(e.flags));
    assert(b.subrange(8, 16) =~= spec_u64_to_le_bytes(e.capacity));
    assert(b.subrange(16, 24) =~= spec_u64_to_le_bytes(e.band_offset));
    assert(b.subrange(24, 28) =~= spec_u32_to_le_bytes(signal));
    assert(b.subrange(64, 72) =~= spec_u64_to_le_bytes(tail));
    assert(b.subrange(128, 136) =~= spec_u64_to_le_bytes(head));
}

/// Writes one channel-table row in its stable binary form, with the
/// given cursor and signal values.
pub fn encode_entry(e: &ChannelEntry, signal: u32, tail: u64, head: u64) -> (r: Vec<u8>)
    ensures
        r@ == spec_entry_bytes(*e, signal, tail, head),
        r@.len() == ENTRY_STRIDE,
{
    proof {
        lemma_entry_layout(*e, signal, tail, head);
    }
    let mut out = u32_to_le_bytes(e.channel_id);
    let mut part = u32_to_le_bytes(e.flags);
    out.append(&mut part);
    let mut part = u64_to_le_bytes(e.capacity);
    out.append(&mut part);
    let mut part = u64_to_le_bytes(e.band_offset);
    out.append(&mut part);
    let mut part = u32_to_le_bytes(signal);
    out.append(&mut part);
    push_zeros(&mut out, 36);
    let mut part = u64_to_le_bytes(tail);
    out.append(&mut part);
    push_zeros(&mut out, 56);
    let mut part = u64_to_le_bytes(head);
    out.append(&mut part);
    push_zeros(&mut out, 120);
    proof {
        assert(out@ =~= spec_entry_bytes(*e, signal, tail, head));
    }
    out
}

/// Reads a channel-table row back from its binary form: the entry,
/// then its signal, tail and head words.
pub fn decode_entry(bytes: &[u8]) -> (r: (ChannelEntry, u32, u64, u64))
    requires
        bytes@.len() == ENTRY_STRIDE,
    ensures
        r.0.channel_id == spec_u32_from_le_bytes(bytes@.subrange(0, 4)),
        r.0.flags == spec_u32_from_le_bytes(bytes@.subrange(4, 8)),
        r.0.capacity == spec_u64_from_le_bytes(bytes@.subrange(8, 16)),
        r.0.band_offset == spec_u64_from_le_bytes(bytes@.subrange(16, 24)),
        r.1 == spec_u32_from_le_bytes(bytes@.subrange(24, 28)),
        r.2 == spec_u64_from_le_bytes(bytes@.subrange(64, 72)),
        r.3 == spec_u64_from_le_bytes(bytes@.subrange(128, 136)),
{
    let entry = ChannelEntry {
        channel_id: u32_from_le_bytes(slice_subrange(bytes, 0, 4)),
        flags: u32_from_le_bytes(slice_subrange(bytes, 4, 8)),
        capacity: u64_from_le_bytes(slice_subrange(bytes, 8, 16)),
        band_offset: u64_from_le_bytes(slice_subrange(bytes, 16, 24)),
    };
    let signal = u32_from_le_bytes(slice_subrange(bytes, 24, 28));
    let tail = u64_from_le_bytes(slice_subrange(bytes, 64, 72));
    let head = u64_from_le_bytes(slice_subrange(bytes, 128, 136));
    (entry, signal, tail, head)
}

/// The binary form of the header's scalar fields, padded to the
/// 128-byte boundary where the channel table begins: magic at offset
/// 0, version at 8, the channel maximum at 12, the live count at 16,
/// the reserved word at 20.
pub open spec fn spec_header_prefix_bytes(
    magic: u64,
    version: u32,
    max_channels: u32,
    channel_count: u32,
    reserved: u32,
) -> Seq<u8> {
    spec_u64_to_le_bytes(magic) + spec_u32_to_le_bytes(version) + spec_u32_to_le_bytes(
        max_channels,
    ) + spec_u32_to_le_bytes(channel_count) + spec_u32_to_le_bytes(reserved) + spec_zeros(104)
}

/// Writes the header's scalar fields in their stable binary form.
pub fn encode_header_prefix(h: &GlobalHeader) -> (r: Vec<u8>)
    ensures
        r@ == spec_header_prefix_bytes(
            h.magic,
            h.version,
            h.max_channels,
            h.channel_count,
            h.reserved,
        ),
        r@.len() == 128,
{
    proof {
        lemma_auto_spec_u32_to_from_le_bytes();
        lemma_auto_spec_u64_to_from_le_bytes();
    }
    let mut out = u64_to_le_bytes(h.magic);
    let mut part = u32_to_le_bytes(h.version);
    out.append(&mut part);
    let mut part = u32_to_le_bytes(h.max_channels);
    out.append(&mut part);
    let mut part = u32_to_le_bytes(h.channel_count);
    out.append(&mut part);
    let mut part = u32_to_le_bytes(h.reserved);
    out.append(&mut part);
    push_zeros(&mut out, 104);
    proof {
        assert(out@ =~= spec_header_prefix_bytes(
            h.magic,
            h.version,
            h.max_channels,
            h.channel_count,
            h.reserved,
        ));
    }
    out
}

/// Reads the header's scalar fields back from its binary form: magic,
/// version, channel maximum, live count, reserved word.
pub fn decode_header_prefix(bytes: &[u8]) -> (r: (u64, u32, u32, u32, u32))
    requires
        bytes@.len() >= 128,
    ensures
        r.0 == spec_u64_from_le_bytes(bytes@.subrange(0, 8)),
        r.1 == spec_u32_from_le_bytes(bytes@.subrange(8, 12)),
        r.2 == spec_u32_from_le_bytes(bytes@.subrange(12, 16)),
        r.3 == spec_u32_from_le_bytes(bytes@.subrange(16, 20)),
        r.4 == spec_u32_from_le_bytes(bytes@.subrange(20, 24)),
{
    (
        u64_from_le_bytes(slice_subrange(bytes, 0, 8)),
        u32_from_le_bytes(slice_subrange(bytes, 8, 12)),
        u32_from_le_bytes(slice_subrange(bytes, 12, 16)),
        u32_from_le_bytes(slice_subrange(bytes, 16, 20)),
        u32_from_le_bytes(slice_subrange(bytes, 20, 24)),
    )
}

/// Global allocator for the channels of one region.
pub struct SharedMemoryAllocator {
    /// Total bytes of the region, 128-byte aligned.
    region_size: usize,
    /// The region's header: identification and the channel table.
    header: GlobalHeader,
    /// The ring behind each entry; meaningful only while the entry is
    /// live.
    rings: Vec<RingBuffer>,
    /// Next channel id to claim; monotone, ids are never reused.
    next_channel_id: u64,
}

impl SharedMemoryAllocator {
    /// The channel table.
    pub closed spec fn entries(self) -> Seq<ChannelEntry> {
        self.header.channels@
    }

    /// The ring behind entry `id`.
    pub closed spec fn ring_of(self, id: int) -> RingBuffer {
        self.rings@[id]
    }

    /// Whether entry `id` backs a live channel.
    pub open spec fn is_live(self, id: int) -> bool {
        0 <= id < MAX_CHANNELS && self.entries().len() == MAX_CHANNELS && self.entries()[
            id
        ].capacity != 0
    }

    /// Total bytes of the region.
    pub closed spec fn region_size_spec(self) -> int {
        self.region_size as int
    }

    /// Number of live channels recorded in the header.
    pub closed spec fn count_spec(self) -> int {
        self.header.channel_count as int
    }

    /// The next channel id the allocator would claim.
    pub closed spec fn next_id_spec(self) -> int {
        self.next_channel_id as int
    }

    /// The header's magic word.
    pub closed spec fn magic_spec(self) -> u64 {
        self.header.magic
    }

    /// End of the highest live band, or the header size if none.
    pub closed spec fn used_memory_spec(self) -> int {
        used_end_up_to(self.entries(), MAX_CHANNELS as int)
    }

    /// The allocator's invariant.
    ///
    /// The header is stamped and sized; the live count matches the
    /// table; every live entry sits at its own index with a
    /// power-of-two capacity and a 128-byte-aligned band inside the
    /// region; live bands are pairwise disjoint; entries at or past
    /// the id counter are free; and each live entry's ring is
    /// well-formed with the entry's capacity.
    pub closed spec fn wf(self) -> bool {
        &&& self.header.magic == MAGIC_NUMBER
        &&& self.header.version == LAYOUT_VERSION
        &&& self.header.max_channels == MAX_CHANNELS
        &&& self.entries().len() == MAX_CHANNELS
        &&& self.rings@.len() == MAX_CHANNELS
        &&& self.region_size % 128 == 0
        &&& HEADER_SIZE <= self.region_size <= usize::MAX - 128
        &&& 0 <= self.next_channel_id <= MAX_CHANNELS
        &&& self.header.channel_count == live_count_up_to(self.entries(), MAX_CHANNELS as int)
        &&& forall|i: int|
            0 <= i < MAX_CHANNELS && (#[trigger] self.entries()[i]).capacity != 0 ==> {
                &&& self.entries()[i].channel_id == i
                &&& spec_is_pow2(self.entries()[i].capacity)
                &&& self.entries()[i].capacity >= 2
                &&& self.entries()[i].band_offset % 128 == 0
                &&& HEADER_SIZE <= self.entries()[i].band_offset
                &&& entry_end(self.entries()[i]) <= self.region_size
                &&& i < self.next_channel_id
                &&& self.ring_of(i).wf()
                &&& self.ring_of(i).cap() == self.entries()[i].capacity
            }
        &&& forall|i: int|
            0 <= i < MAX_CHANNELS && (#[trigger] self.entries()[i]).capacity == 0
                ==> self.entries()[i].channel_id == FREE_CHANNEL_ID
        &&& forall|i: int, j: int|
            0 <= i < MAX_CHANNELS && 0 <= j < MAX_CHANNELS && i != j && (
            #[trigger] self.entries()[i]).capacity != 0 && (#[trigger] self.entries()[j]).capacity
                != 0 ==> (entry_end(self.entries()[i]) <= self.entries()[j].band_offset
                || entry_end(self.entries()[j]) <= self.entries()[i].band_offset)
    }

    /// Creates an allocator over a fresh region of (at least) `size`
    /// bytes, rounded up to a 128-byte multiple: header stamped, table
    /// empty.
    ///
    /// Fails with `InvalidInput` exactly when the rounded size cannot
    /// hold the header (or `size` is within 255 bytes of the address
    /// space limit, where rounding could not be represented).
    pub fn new(size: usize) -> (r: Result<SharedMemoryAllocator, ErrorKind>)
        ensures
            match r {
                Ok(a) => {
                    &&& size <= usize::MAX - 255
                    &&& spec_align128(size as int) >= HEADER_SIZE
                    &&& a.wf()
                    &&& a.region_size_spec() == spec_align128(size as int)
                    &&& a.count_spec() == 0
                    &&& a.next_id_spec() == 0
                    &&& a.used_memory_spec() == HEADER_SIZE
                    &&& forall|i: int| !a.is_live(i)
                },
                Err(e) => {
                    &&& e == ErrorKind::InvalidInput
                    &&& (size > usize::MAX - 255 || spec_align128(size as int) < HEADER_SIZE)
                },
            },
    {
        if size > usize::MAX - 255 {
            return Err(ErrorKind::InvalidInput);
        }
        let aligned_size = align_up_128(size);
        if aligned_size < HEADER_SIZE {
            return Err(ErrorKind::InvalidInput);
        }
        let mut channels: Vec<ChannelEntry> = Vec::new();
        let mut rings: Vec<RingBuffer> = Vec::new();
        let mut i: usize = 0;
        while i < MAX_CHANNELS
            invariant
                i <= MAX_CHANNELS,
                channels@.len() == i,
                rings@.len() == i,
                forall|j: int|
                    0 <= j < i ==> (#[trigger] channels@[j]) == (ChannelEntry {
                        channel_id: FREE_CHANNEL_ID,
                        flags: 0,
                        capacity: 0,
                        band_offset: 0,
                    }),
            decreases MAX_CHANNELS - i,
        {
            channels.push(
                ChannelEntry { channel_id: FREE_CHANNEL_ID, flags: 0, capacity: 0, band_offset: 0 },
            );
            proof {
                assert(2u64 & 1u64 == 0u64) by (bit_vector);
                assert(spec_is_pow2(2u64));
            }
            rings.push(RingBuffer::new(2));
            i = i + 1;
        }
        let a = SharedMemoryAllocator {
            region_size: aligned_size,
            header: GlobalHeader {
                magic: MAGIC_NUMBER,
                version: LAYOUT_VERSION,
                max_channels: MAX_CHANNELS as u32,
                channel_count: 0,
                reserved: 0,
                channels,
            },
            rings,
            next_channel_id: 0,
        };
        proof {
            lemma_all_free(a.entries(), MAX_CHANNELS as int);
        }
        Ok(a)
    }

    /// End of the highest live band, computed by scanning the table.
    fn scan_used_end(&self) -> (end: u64)
        requires
            self.wf(),
        ensures
            end == used_end_up_to(self.entries(), MAX_CHANNELS as int),
            end <= self.region_size_spec(),
    {
        let mut end: u64 = HEADER_SIZE as u64;
        let mut i: usize = 0;
        while i < MAX_CHANNELS
            invariant
                self.wf(),
                i <= MAX_CHANNELS,
                end == used_end_up_to(self.entries(), i as int),
                end <= self.region_size_spec(),
            decreases MAX_CHANNELS - i,
        {
            let e = self.header.channels[i];
            if e.capacity != 0 {
                let ch_end = e.band_offset + e.capacity * (SLOT_STRIDE as u64);
                if ch_end > end {
                    end = ch_end;
                }
            }
            i = i + 1;
        }
        end
    }

    /// Bytes of the region in use: the header plus everything up to
    /// the end of the highest live band.
    pub fn used_memory(&self) -> (r: usize)
        requires
            self.wf(),
        ensures
            r == self.used_memory_spec(),
            r <= self.region_size_spec(),
    {
        self.scan_used_end() as usize
    }

    /// Bytes of the region still free for new bands.
    pub fn available_memory(&self) -> (r: usize)
        requires
            self.wf(),
        ensures
            r == self.region_size_spec() - self.used_memory_spec(),
    {
        proof {
            lemma_used_end_ge_header(self.entries(), MAX_CHANNELS as int);
        }
        self.region_size - self.used_memory()
    }

    /// Number of live channels.
    pub fn channel_count(&self) -> (r: u32)
        ensures
            r == self.count_spec(),
    {
        self.header.channel_count
    }

    /// The next channel id the allocator would claim.
    pub fn next_channel_id(&self) -> (r: u64)
        ensures
            r == self.next_id_spec(),
    {
        self.next_channel_id
    }

    /// Whether the header carries our magic word.
    pub fn is_initialized(&self) -> (r: bool)
        ensures
            r == (self.magic_spec() == MAGIC_NUMBER),
    {
        self.header.magic == MAGIC_NUMBER
    }

    /// Claims the next channel id, places a band for `capacity` slots
    /// after the highest live band and initialises the channel's ring.
    ///
    /// Fails with `InvalidInput` exactly when `capacity` is not a
    /// power of two of at least 2 (a single-slot ring cannot tell full
    /// from ready in the slot protocol); with `OutOfMemory` when the
    /// ids are exhausted, or — the id stays claimed — when the band
    /// would not fit in the region.
    pub fn create_channel(&mut self, capacity: usize) -> (r: Result<ChannelPartition, ErrorKind>)
        requires
            old(self).wf(),
        ensures
            final(self).wf(),
            final(self).region_size_spec() == old(self).region_size_spec(),
            match r {
                Ok(part) => {
                    &&& spec_is_pow2(capacity as u64) && capacity >= 2
                    &&& old(self).next_id_spec() < MAX_CHANNELS
                    &&& part.channel_id == old(self).next_id_spec()
                    &&& part.capacity == capacity
                    &&& final(self).next_id_spec() == old(self).next_id_spec() + 1
                    &&& final(self).count_spec() == old(self).count_spec() + 1
                    &&& final(self).entries() == old(self).entries().update(
                        part.channel_id as int,
                        ChannelEntry {
                            channel_id: part.channel_id,
                            flags: 0,
                            capacity: capacity as u64,
                            band_offset: final(self).entries()[part.channel_id as int].band_offset,
                        },
                    )
                    &&& final(self).entries()[part.channel_id as int].band_offset == spec_align128(
                        old(self).used_memory_spec(),
                    )
                    &&& spec_align128(old(self).used_memory_spec()) + spec_align128(
                        capacity * (SLOT_STRIDE as int),
                    ) <= old(self).region_size_spec()
                    &&& final(self).is_live(part.channel_id as int)
                    &&& final(self).ring_of(part.channel_id as int).wf()
                    &&& final(self).ring_of(part.channel_id as int).cap() == capacity
                    &&& final(self).ring_of(part.channel_id as int).head() == 0
                    &&& final(self).ring_of(part.channel_id as int).tail() == 0
                    &&& final(self).ring_of(part.channel_id as int).pending() == Seq::<
                        (crate::meta::MessageMeta, Seq<u8>),
                    >::empty()
                    &&& forall|i: int|
                        0 <= i < MAX_CHANNELS && i != part.channel_id ==> final(self).ring_of(i)
                            == old(self).ring_of(i)
                },
                Err(ErrorKind::InvalidInput) => {
                    &&& !(spec_is_pow2(capacity as u64) && capacity >= 2)
                    &&& *final(self) == *old(self)
                },
                Err(ErrorKind::OutOfMemory) => {
                    &&& spec_is_pow2(capacity as u64) && capacity >= 2
                    &&& final(self).entries() == old(self).entries()
                    &&& final(self).count_spec() == old(self).count_spec()
                    &&& if old(self).next_id_spec() >= MAX_CHANNELS {
                        *final(self) == *old(self)
                    } else {
                        final(self).next_id_spec() == old(self).next_id_spec() + 1
                            && spec_align128(old(self).used_memory_spec()) + spec_align128(
                            capacity * (SLOT_STRIDE as int),
                        ) > old(self).region_size_spec()
                    }
                },
                Err(_) => false,
            },
    {
        // Capacity must be a power of two with at least two slots.
        if !(capacity >= 2 && is_power_of_two(capacity as u64)) {
            return Err(ErrorKind::InvalidInput);
        }
        // Claim the next channel id; ids are never handed back, so a
        // later failure burns the id, as the claim-then-place protocol
        // demands.
        if self.next_channel_id >= MAX_CHANNELS as u64 {
            return Err(ErrorKind::OutOfMemory);
        }
        let id = self.next_channel_id as u32;
        let idu = id as usize;
        self.next_channel_id = self.next_channel_id + 1;
        // A claimed id always denotes a free entry under exclusive
        // access; the guard mirrors the cross-process race check.
        if self.header.channels[idu].capacity != 0 {
            return Err(ErrorKind::AlreadyExists);
        }
        // Bump placement: one past the highest live band, aligned.
        let end = self.scan_used_end();
        proof {
            lemma_used_end_ge_header(self.entries(), MAX_CHANNELS as int);
            crate::layout::lemma_align128_le(end as int, self.region_size as int);
        }
        let offset = align_up_128(end as usize);
        // Size of the new band, aligned to 128 bytes.
        if capacity > (usize::MAX - 127) / SLOT_STRIDE {
            return Err(ErrorKind::OutOfMemory);
        }
        let band_bytes = align_up_128(capacity * SLOT_STRIDE);
        if band_bytes > self.region_size - offset {
            return Err(ErrorKind::OutOfMemory);
        }
        // Populate the entry and initialise the channel's ring.
        let entry = ChannelEntry {
            channel_id: id,
            flags: 0,
            capacity: capacity as u64,
            band_offset: offset as u64,
        };
        self.header.channels[idu] = entry;
        let ring = RingBuffer::new(capacity);
        self.rings[idu] = ring;
        let old_count = self.header.channel_count;
        proof {
            lemma_live_count_bound(old(self).entries(), MAX_CHANNELS as int);
            lemma_live_count_update(old(self).entries(), idu as int, entry, MAX_CHANNELS as int);
        }
        self.header.channel_count = old_count + 1;
        proof {
            assert forall|j: int|
                0 <= j < MAX_CHANNELS && (#[trigger] self.entries()[j]).capacity != 0 && j
                    != idu implies entry_end(self.entries()[j]) <= offset by {
                assert(self.entries()[j] == old(self).entries()[j]);
                lemma_used_end_ge_entry(old(self).entries(), MAX_CHANNELS as int, j);
            }
        }
        Ok(ChannelPartition { channel_id: id, capacity: capacity as u64 })
    }

    /// Looks a channel up by id: its claim if the entry is live, none
    /// for out-of-range ids and free entries.
    pub fn get_channel(&self, channel_id: u32) -> (r: Option<ChannelPartition>)
        requires
            self.wf(),
        ensures
            match r {
                Some(part) => {
                    &&& self.is_live(channel_id as int)
                    &&& part.channel_id == channel_id
                    &&& part.capacity == self.entries()[channel_id as int].capacity
                },
                None => !self.is_live(channel_id as int),
            },
    {
        if channel_id >= MAX_CHANNELS as u32 {
            return None;
        }
        let e = self.header.channels[channel_id as usize];
        if e.capacity == 0 {
            return None;
        }
        Some(ChannelPartition { channel_id, capacity: e.capacity })
    }

    /// Claims for all live channels, in ascending id order.
    pub fn get_channels(&self) -> (r: Vec<ChannelPartition>)
        requires
            self.wf(),
        ensures
            r@.map_values(|p: ChannelPartition| p.channel_id) == live_ids_up_to(
                self.entries(),
                MAX_CHANNELS as int,
            ),
            r@.len() == self.count_spec(),
            forall|j: int|
                0 <= j < r@.len() ==> self.is_live(#[trigger] r@[j].channel_id as int) && r@[
                    j
                ].capacity == self.entries()[r@[j].channel_id as int].capacity,
    {
        let mut out: Vec<ChannelPartition> = Vec::new();
        let mut i: usize = 0;
        while i < MAX_CHANNELS
            invariant
                self.wf(),
                i <= MAX_CHANNELS,
                out@.map_values(|p: ChannelPartition| p.channel_id) == live_ids_up_to(
                    self.entries(),
                    i as int,
                ),
                forall|j: int|
                    0 <= j < out@.len() ==> self.is_live(#[trigger] out@[j].channel_id as int)
                        && out@[j].capacity == self.entries()[out@[j].channel_id as int].capacity,
            decreases MAX_CHANNELS - i,
        {
            let e = self.header.channels[i];
            if e.capacity != 0 {
                out.push(ChannelPartition { channel_id: i as u32, capacity: e.capacity });
            }
            proof {
                assert(out@.map_values(|p: ChannelPartition| p.channel_id) =~= live_ids_up_to(
                    self.entries(),
                    i + 1,
                ));
            }
            i = i + 1;
        }
        proof {
            lemma_live_ids_len(self.entries(), MAX_CHANNELS as int);
        }
        out
    }

    /// Borrows the ring of a live channel.
    ///
    /// The caller gets the one ring behind entry `channel_id`; if it
    /// hands the ring back well-formed with its capacity unchanged,
    /// the allocator's invariant stands again.
    pub fn ring_mut(&mut self, channel_id: u32) -> (r: &mut RingBuffer)
        requires
            old(self).wf(),
            old(self).is_live(channel_id as int),
        ensures
            *r == old(self).ring_of(channel_id as int),
            final(self).ring_of(channel_id as int) == *final(r),
            final(self).entries() == old(self).entries(),
            final(self).region_size_spec() == old(self).region_size_spec(),
            final(self).count_spec() == old(self).count_spec(),
            final(self).next_id_spec() == old(self).next_id_spec(),
            final(self).magic_spec() == old(self).magic_spec(),
            forall|i: int|
                0 <= i < MAX_CHANNELS && i != channel_id ==> final(self).ring_of(i) == old(
                    self,
                ).ring_of(i),
            (final(r).wf() && final(r).cap() == old(self).entries()[channel_id as int].capacity)
                ==> final(self).wf(),
    {
        &mut self.rings[channel_id as usize]
    }

    /// Borrows the ring of a live channel read-only.
    pub fn ring(&self, channel_id: u32) -> (r: &RingBuffer)
        requires
            self.wf(),
            self.is_live(channel_id as int),
        ensures
            *r == self.ring_of(channel_id as int),
            r.wf(),
            r.cap() == self.entries()[channel_id as int].capacity,
    {
        &self.rings[channel_id as usize]
    }

    /// Validates what an attaching party reads from an existing
    /// region before it may use the region: the requested size, the
    /// region's actual size, the magic word and the channel table.
    /// Returns the channel id counter to resume from: one past the
    /// highest live entry.
    ///
    /// Fails with `InvalidInput` exactly when the rounded requested
    /// size cannot hold the header; with `InvalidData` exactly when
    /// the magic word is foreign, the region is smaller than the
    /// header, the live count exceeds the table, or the table's bands
    /// (laid out back to back) need more bytes than the region has.
    #[verifier::loop_isolation(false)]
    pub fn validate_attach(
        size: usize,
        shm_size: usize,
        magic: u64,
        channel_count: u32,
        entries: &Vec<ChannelEntry>,
    ) -> (r: Result<u64, ErrorKind>)
        requires
            entries@.len() == MAX_CHANNELS,
        ensures
            match r {
                Ok(next) => {
                    &&& size <= usize::MAX - 255
                    &&& spec_align128(size as int) >= HEADER_SIZE
                    &&& magic == MAGIC_NUMBER
                    &&& shm_size >= HEADER_SIZE
                    &&& channel_count <= MAX_CHANNELS
                    &&& forall|k: int|
                        0 <= k < channel_count ==> #[trigger] walk_size(entries@, k + 1)
                            <= shm_size
                    &&& next == next_free_id(entries@, MAX_CHANNELS as int)
                },
                Err(ErrorKind::InvalidInput) => size > usize::MAX - 255 || spec_align128(
                    size as int,
                ) < HEADER_SIZE,
                Err(ErrorKind::InvalidData) => {
                    &&& size <= usize::MAX - 255 && spec_align128(size as int) >= HEADER_SIZE
                    &&& (magic != MAGIC_NUMBER || shm_size < HEADER_SIZE || channel_count
                        > MAX_CHANNELS || exists|k: int|
                        0 <= k < channel_count && #[trigger] walk_size(entries@, k + 1)
                            > shm_size)
                },
                Err(_) => false,
            },
    {
        if size > usize::MAX - 255 {
            return Err(ErrorKind::InvalidInput);
        }
        let aligned = align_up_128(size);
        if aligned < HEADER_SIZE {
            return Err(ErrorKind::InvalidInput);
        }
        if magic != MAGIC_NUMBER {
            return Err(ErrorKind::InvalidData);
        }
        if shm_size < HEADER_SIZE {
            return Err(ErrorKind::InvalidData);
        }
        if channel_count > MAX_CHANNELS as u32 {
            return Err(ErrorKind::InvalidData);
        }
        let cc = channel_count as usize;
        let mut total: u128 = HEADER_SIZE as u128;
        let mut i: usize = 0;
        while i < cc
            invariant
                i <= cc,
                cc == channel_count,
                cc <= MAX_CHANNELS,
                entries@.len() == MAX_CHANNELS,
                shm_size >= HEADER_SIZE,
                total == walk_size(entries@, i as int),
                total <= shm_size,
                forall|k: int|
                    0 <= k < i ==> #[trigger] walk_size(entries@, k + 1) <= shm_size,
            decreases cc - i,
        {
            let aligned_total = ((total + 127) / 128) * 128;
            let e = entries[i];
            proof {
                vstd::arithmetic::mul::lemma_mul_inequality(
                    e.capacity as int,
                    u64::MAX as int,
                    SLOT_STRIDE as int,
                );
            }
            let step = aligned_total + (e.capacity as u128) * (SLOT_STRIDE as u128);
            if step > shm_size as u128 {
                proof {
                    assert(walk_size(entries@, i + 1) > shm_size);
                }
                return Err(ErrorKind::InvalidData);
            }
            total = step;
            i = i + 1;
        }
        let mut next: usize = 0;
        let mut i: usize = 0;
        while i < MAX_CHANNELS
            invariant
                i <= MAX_CHANNELS,
                entries@.len() == MAX_CHANNELS,
                next == next_free_id(entries@, i as int),
            decreases MAX_CHANNELS - i,
        {
            if entries[i].capacity != 0 {
                next = i + 1;
            }
            i = i + 1;
        }
        Ok(next as u64)
    }

    /// Frees a channel's table entry. Its band is not reclaimed: ids
    /// and counters are freed, bytes are not, by design.
    ///
    /// Fails with `InvalidInput` exactly when the id is out of range
    /// or the entry is already free.
    pub fn remove_channel(&mut self, channel_id: u32) -> (r: Result<(), ErrorKind>)
        requires
            old(self).wf(),
        ensures
            final(self).wf(),
            final(self).region_size_spec() == old(self).region_size_spec(),
            final(self).next_id_spec() == old(self).next_id_spec(),
            match r {
                Ok(_) => {
                    &&& old(self).is_live(channel_id as int)
                    &&& final(self).entries() == old(self).entries().update(
                        channel_id as int,
                        ChannelEntry {
                            channel_id: FREE_CHANNEL_ID,
                            flags: 0,
                            capacity: 0,
                            band_offset: 0,
                        },
                    )
                    &&& final(self).count_spec() == old(self).count_spec() - 1
                },
                Err(e) => {
                    &&& e == ErrorKind::InvalidInput
                    &&& !old(self).is_live(channel_id as int)
                    &&& *final(self) == *old(self)
                },
            },
    {
        if channel_id >= MAX_CHANNELS as u32 {
            return Err(ErrorKind::InvalidInput);
        }
        let idu = channel_id as usize;
        if self.header.channels[idu].capacity == 0 {
            return Err(ErrorKind::InvalidInput);
        }
        let freed = ChannelEntry { channel_id: FREE_CHANNEL_ID, flags: 0, capacity: 0, band_offset: 0 };
        self.header.channels[idu] = freed;
        proof {
            lemma_live_count_bound(old(self).entries(), MAX_CHANNELS as int);
            lemma_live_count_update(old(self).entries(), idu as int, freed, MAX_CHANNELS as int);
            lemma_live_count_pos(old(self).entries(), MAX_CHANNELS as int, idu as int);
        }
        let old_count = self.header.channel_count;
        self.header.channel_count = old_count - 1;
        Ok(())
    }
}

} // verus!
