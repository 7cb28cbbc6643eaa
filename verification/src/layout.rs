//! Region geometry: the sizes, strides and alignment rules that fix the
//! binary format of the shared region.
//!
//! All offsets are byte offsets from the region base. The region starts
//! with the global header, followed by one data band per live channel;
//! every band and the header itself are 128-byte aligned, and each slot
//! inside a band occupies exactly [`SLOT_STRIDE`] bytes.

use vstd::prelude::*;
use vstd::arithmetic::div_mod::lemma_fundamental_div_mod;

verus! {

/// Number of payload bytes a slot carries inline; larger payloads are
/// rejected before any slot is claimed.
pub const MSG_INLINE: usize = 1024;

/// Greatest number of channels a region can hold.
pub const MAX_CHANNELS: usize = 256;

/// Sentinel stored as the channel id of a free entry.
pub const FREE_CHANNEL_ID: u32 = 0xFFFF_FFFF;

/// Identifies a region as one of ours ("DMXP_MEM").
pub const MAGIC_NUMBER: u64 = 0x444D_5850_5F4D_454D;

/// Layout version stamped into fresh headers.
pub const LAYOUT_VERSION: u32 = 1;

/// Encoded size of the transport metadata, the cross-language surface.
pub const META_SIZE: usize = 40;

/// Byte stride of one slot: an 8-byte sequence word, the 40-byte
/// metadata, the inline payload, rounded up to a 64-byte multiple.
pub const SLOT_STRIDE: usize = 1088;

/// Byte stride of one channel entry in the header's channel table: the
/// entry's own fields, then the tail and head cursors on cache lines of
/// their own, rounded up to a 128-byte multiple.
pub const ENTRY_STRIDE: usize = 256;

/// Encoded size of the global header: its scalar fields padded to 128
/// bytes, then the channel table.
pub const HEADER_SIZE: usize = 128 + 256 * 256;

/// Rounds `n` up to the next multiple of 128.
pub open spec fn spec_align128(n: int) -> int {
    ((n + 127) / 128) * 128
}

/// True of the capacities the ring protocol accepts.
pub open spec fn spec_is_pow2(c: u64) -> bool {
    c != 0 && c & ((c - 1) as u64) == 0
}

/// A power of two fits in the low 63 bits, so sums of a cursor and a
/// capacity stay representable.
pub proof fn lemma_pow2_le_half(c: u64)
    requires
        spec_is_pow2(c),
    ensures
        c <= 0x8000_0000_0000_0000,
{
    assert(c != 0 && c & vstd::prelude::sub(c, 1) == 0 ==> c <= 0x8000_0000_0000_0000)
        by (bit_vector);
}

/// A nonzero capacity that passes the bit test is two to some power
/// below 64.
proof fn lemma_pow2_exponent(c: u64) -> (n: nat)
    requires
        spec_is_pow2(c),
    ensures
        n < 64,
        c == vstd::arithmetic::power2::pow2(n),
    decreases c,
{
    vstd::arithmetic::power2::lemma2_to64();
    vstd::arithmetic::power2::lemma2_to64_rest();
    if c == 1 {
        0
    } else {
        assert(c % 2 == 0 && (c / 2) != 0 && (c / 2) & vstd::prelude::sub(c / 2, 1) == 0
            && c == vstd::prelude::mul(2, c / 2)) by (bit_vector)
            requires
                c != 0 && c != 1 && c & vstd::prelude::sub(c, 1) == 0,
        ;
        let m = lemma_pow2_exponent(c / 2);
        if m + 1 >= 64 {
            vstd::arithmetic::power2::lemma_pow2_strictly_increases(62, m);
            assert(false);
        }
        vstd::arithmetic::power2::lemma_pow2_unfold(m + 1);
        (m + 1) as nat
    }
}

/// Masking with `c - 1` is reduction modulo `c` when `c` is a power of
/// two; this is what lets a ring index sequences with its mask.
pub proof fn lemma_pow2_mask_mod(c: u64, x: u64)
    requires
        spec_is_pow2(c),
    ensures
        x & ((c - 1) as u64) == x % c,
        x % c < c,
{
    let n = lemma_pow2_exponent(c);
    vstd::bits::lemma_u64_low_bits_mask_is_mod(x, n);
    vstd::arithmetic::div_mod::lemma_mod_division_less_than_divisor(x as int, c as int);
}

/// Rounding up to 128 never crosses a 128-byte-aligned bound.
pub proof fn lemma_align128_le(a: int, b: int)
    requires
        a <= b,
        b % 128 == 0,
    ensures
        spec_align128(a) <= b,
        spec_align128(b) == b,
{
    lemma_fundamental_div_mod(b, 128);
    vstd::arithmetic::div_mod::lemma_div_multiples_vanish_fancy(b / 128, 127, 128);
    vstd::arithmetic::div_mod::lemma_div_is_ordered(a + 127, b + 127, 128);
    vstd::arithmetic::mul::lemma_mul_inequality((a + 127) / 128, (b + 127) / 128, 128);
}

/// Checks whether a capacity is a nonzero power of two.
pub fn is_power_of_two(c: u64) -> (r: bool)
    ensures
        r == spec_is_pow2(c),
{
    c != 0 && c & (c - 1) == 0
}

/// Rounds a byte count up to the next multiple of 128.
pub fn align_up_128(n: usize) -> (r: usize)
    requires
        n <= usize::MAX - 127,
    ensures
        r == spec_align128(n as int),
        n <= r < n + 128,
        r % 128 == 0,
{
    let r = ((n + 127) / 128) * 128;
    proof {
        lemma_fundamental_div_mod(n as int + 127, 128);
        assert(r % 128 == 0) by {
            lemma_fundamental_div_mod(r as int, 128);
            vstd::arithmetic::div_mod::lemma_mod_multiples_basic(
                ((n as int + 127) / 128) as int,
                128,
            );
        }
    }
    r
}

/// The slot stride in bytes; equals the encoded size of one slot.
pub fn slot_stride() -> (r: usize)
    ensures
        r == SLOT_STRIDE,
{
    SLOT_STRIDE
}

/// The slot stride is the encoded slot size — sequence word, metadata
/// and inline payload rounded up to the slot's 64-byte alignment — and
/// is a multiple of 8.
pub proof fn lemma_slot_stride_layout()
    ensures
        SLOT_STRIDE == ((8 + META_SIZE + MSG_INLINE + 63) / 64) * 64,
        SLOT_STRIDE % 8 == 0,
        SLOT_STRIDE % 64 == 0,
{
}

/// The three region structures sit on boundaries of at least 64 bytes:
/// the header and each table entry on 128-byte boundaries, each slot on
/// a 64-byte boundary within its 128-byte-aligned band.
pub proof fn lemma_region_alignment()
    ensures
        HEADER_SIZE % 128 == 0,
        ENTRY_STRIDE % 128 == 0,
        SLOT_STRIDE % 64 == 0,
        HEADER_SIZE == 128 + MAX_CHANNELS * ENTRY_STRIDE,
{
}

} // verus!
