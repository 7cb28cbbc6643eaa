//! The bounded multi-producer multi-consumer ring that drives one
//! channel.
//!
//! Every slot carries its own sequence word. For capacity `C`, the slot
//! at index `s & (C - 1)` is free for the producer of logical sequence
//! `s` exactly when its word equals `s`, and holds the message of `s`
//! (ready for its consumer) exactly when the word equals `s + 1`;
//! dequeuing stores `s + C`, handing the slot to the next lap. This
//! discipline needs at least two slots: with a single slot, a full ring
//! and a free one would show the producer the same word.
//!
//! Under shared memory the cursors move by compare-and-swap and a claim
//! can fail or find a slot mid-write, so the peers spin and retry. This
//! ring is held by one owner at a time (`&mut self`), so a claim never
//! races: each operation decides in one step whether its slot is ready.

use vstd::prelude::*;
use vstd::arithmetic::div_mod::{
    lemma_add_mod_noop, lemma_fundamental_div_mod, lemma_mod_add_multiples_vanish,
    lemma_mod_division_less_than_divisor, lemma_mod_multiples_vanish, lemma_small_mod,
};
use vstd::arithmetic::mul::lemma_mul_inequality;
use vstd::slice::slice_to_vec;
use crate::layout::{
    lemma_pow2_le_half, lemma_pow2_mask_mod, spec_is_pow2, MSG_INLINE, SLOT_STRIDE,
};
use crate::meta::MessageMeta;
use crate::padded::{padded_new, padded_read, padded_value, padded_write};

verus! {

/// What a batch of owned messages queues as: each payload by its byte
/// content.
pub open spec fn batch_view(msgs: Seq<(MessageMeta, Vec<u8>)>) -> Seq<(MessageMeta, Seq<u8>)> {
    msgs.map_values(|m: (MessageMeta, Vec<u8>)| (m.0, m.1@))
}

/// One cell of a ring: the sequence word, the transport metadata and
/// the inline payload of the message it currently holds.
pub struct Slot {
    /// The sequence word that says who may touch this slot next.
    pub sequence: u64,
    /// Metadata of the message held, meaningful only while published.
    pub meta: MessageMeta,
    /// Payload bytes of the message held, at most [`MSG_INLINE`] long.
    pub payload: Vec<u8>,
}

/// A bounded ring over a power-of-two number of slots.
pub struct RingBuffer {
    /// Number of slots; a power of two, at least 2.
    capacity: usize,
    /// `capacity - 1`; masking a sequence with it yields its slot index.
    mask: usize,
    /// Next sequence a producer will claim, on a cache line of its own.
    tail_cursor: crossbeam_utils::CachePadded<u64>,
    /// Next sequence a consumer will claim, on a cache line of its own.
    head_cursor: crossbeam_utils::CachePadded<u64>,
    /// Wake counter bumped after each publication.
    signal: u32,
    /// The slot array.
    slots: Vec<Slot>,
}

/// The invariant and the queued messages read nothing but the slot
/// array, the cursors and the capacity: two rings that agree on those
/// agree on both.
proof fn lemma_wf_reads_cursors_and_slots(a: RingBuffer, b: RingBuffer)
    requires
        b.capacity == a.capacity,
        b.mask == a.mask,
        b.slots == a.slots,
        b.tail_cursor == a.tail_cursor,
        b.head_cursor == a.head_cursor,
    ensures
        a.wf() == b.wf(),
        a.pending() == b.pending(),
{
    assert forall|s: int| a.slot_at(s) == b.slot_at(s) by {
        assert(a.slots@ == b.slots@);
    }
    assert(a.pending() =~= b.pending());
}

/// Two sequences less than one capacity apart share a slot index only
/// if they are equal.
proof fn lemma_window_mod(c: int, s1: int, s2: int)
    requires
        0 < c,
        0 <= s1 <= s2,
        s2 < s1 + c,
        s1 % c == s2 % c,
    ensures
        s1 == s2,
{
    lemma_fundamental_div_mod(s1, c);
    lemma_fundamental_div_mod(s2, c);
    let d = s2 / c - s1 / c;
    assert(s2 - s1 == c * d) by {
        vstd::arithmetic::mul::lemma_mul_is_distributive_sub(c, s2 / c, s1 / c);
    }
    if d >= 1 {
        lemma_mul_inequality(1, d, c);
        assert(false);
    }
    if d <= -1 {
        lemma_mul_inequality(d, -1, c);
        assert(false);
    }
}

impl RingBuffer {
    /// Number of slots, as a mathematical integer.
    pub closed spec fn cap(self) -> int {
        self.capacity as int
    }

    /// The consumers' cursor.
    pub closed spec fn head(self) -> u64 {
        padded_value(self.head_cursor)
    }

    /// The producers' cursor.
    pub closed spec fn tail(self) -> u64 {
        padded_value(self.tail_cursor)
    }

    /// The wake counter.
    pub closed spec fn signal_spec(self) -> u32 {
        self.signal
    }

    /// The slot that logical sequence `s` maps to.
    pub closed spec fn slot_at(self, s: int) -> Slot {
        self.slots@[s % self.cap()]
    }

    /// The sequence word of the slot at index `k`.
    pub closed spec fn slot_sequence(self, k: int) -> u64 {
        self.slots@[k].sequence
    }

    /// The messages currently queued, oldest first: for the `i`-th one,
    /// the metadata and payload of the slot of sequence `head + i`.
    pub closed spec fn pending(self) -> Seq<(MessageMeta, Seq<u8>)> {
        Seq::new(
            (self.tail() - self.head()) as nat,
            |i: int| (self.slot_at(self.head() + i).meta, self.slot_at(self.head() + i).payload@),
        )
    }

    /// The ring's invariant.
    ///
    /// The cursors never cross and never drift further apart than the
    /// capacity; every queued sequence sits published in its slot
    /// (word `s + 1`, payload within budget and as long as its
    /// metadata says); every other slot of the current lap is free for
    /// the producer that will claim it (word `s`). The tail keeps
    /// enough headroom below `u64::MAX` that cursor arithmetic cannot
    /// wrap.
    pub closed spec fn wf(self) -> bool {
        &&& spec_is_pow2(self.capacity as u64)
        &&& self.capacity >= 2
        &&& self.mask == self.capacity - 1
        &&& self.slots@.len() == self.capacity
        &&& self.head() <= self.tail()
        &&& self.tail() - self.head() <= self.cap()
        &&& self.tail() <= u64::MAX - self.cap() + 1
        &&& forall|s: int|
            self.head() <= s < self.tail() ==> {
                &&& (#[trigger] self.slot_at(s)).sequence == s + 1
                &&& self.slot_at(s).payload@.len() <= MSG_INLINE
                &&& self.slot_at(s).meta.payload_len == self.slot_at(s).payload@.len()
            }
        &&& forall|s: int|
            self.tail() <= s < self.head() + self.cap() ==> (#[trigger] self.slot_at(
                s,
            )).sequence == s
    }

    /// Byte stride of one slot in the region's binary layout.
    pub fn slot_stride() -> (r: usize)
        ensures
            r == SLOT_STRIDE,
    {
        SLOT_STRIDE
    }

    /// Creates an empty ring of `capacity` slots, every slot free for
    /// its first lap.
    pub fn new(capacity: usize) -> (r: RingBuffer)
        requires
            spec_is_pow2(capacity as u64),
            capacity >= 2,
        ensures
            r.wf(),
            r.cap() == capacity,
            r.head() == 0,
            r.tail() == 0,
            r.signal_spec() == 0,
            r.pending() == Seq::<(MessageMeta, Seq<u8>)>::empty(),
    {
        let mut slots: Vec<Slot> = Vec::new();
        let mut k: usize = 0;
        while k < capacity
            invariant
                k <= capacity,
                slots@.len() == k,
                forall|i: int| 0 <= i < k ==> (#[trigger] slots@[i]).sequence == i,
            decreases capacity - k,
        {
            slots.push(
                Slot { sequence: k as u64, meta: MessageMeta::default(), payload: Vec::new() },
            );
            k = k + 1;
        }
        let r = RingBuffer {
            capacity,
            mask: capacity - 1,
            tail_cursor: padded_new(0),
            head_cursor: padded_new(0),
            signal: 0,
            slots,
        };
        proof {
            assert forall|s: int| r.tail() <= s < r.head() + r.cap() implies (#[trigger] r.slot_at(
                s,
            )).sequence == s by {
                lemma_small_mod(s as nat, r.cap() as nat);
            }
            assert(r.pending() =~= Seq::<(MessageMeta, Seq<u8>)>::empty());
        }
        r
    }

    /// Resets the ring to its freshly created state: cursors and wake
    /// counter to zero, and every slot free for its first lap.
    pub fn init_slots(&mut self)
        requires
            old(self).wf(),
        ensures
            final(self).wf(),
            final(self).cap() == old(self).cap(),
            final(self).head() == 0,
            final(self).tail() == 0,
            final(self).signal_spec() == 0,
            final(self).pending() == Seq::<(MessageMeta, Seq<u8>)>::empty(),
    {
        padded_write(&mut self.tail_cursor, 0);
        padded_write(&mut self.head_cursor, 0);
        self.signal = 0;
        let cap = self.capacity;
        let mut k: usize = 0;
        while k < cap
            invariant
                k <= cap,
                self.wf_shape(),
                self.signal == 0,
                self.head() == 0,
                self.tail() == 0,
                cap == self.capacity,
                forall|i: int| 0 <= i < k ==> (#[trigger] self.slots@[i]).sequence == i,
            decreases cap - k,
        {
            self.slots[k].sequence = k as u64;
            k = k + 1;
        }
        proof {
            assert forall|s: int|
                self.tail() <= s < self.head() + self.cap() implies (#[trigger] self.slot_at(
                s,
            )).sequence == s by {
                lemma_small_mod(s as nat, self.cap() as nat);
            }
            assert(self.pending() =~= Seq::<(MessageMeta, Seq<u8>)>::empty());
        }
    }

    /// The shape conjuncts of the invariant that do not move.
    spec fn wf_shape(self) -> bool {
        &&& spec_is_pow2(self.capacity as u64)
        &&& self.capacity >= 2
        &&& self.mask == self.capacity - 1
        &&& self.slots@.len() == self.capacity
    }

    /// Number of messages currently queued.
    pub fn len(&self) -> (n: u64)
        requires
            self.wf(),
        ensures
            n == self.pending().len(),
    {
        let t = padded_read(&self.tail_cursor);
        let h = padded_read(&self.head_cursor);
        t - h
    }

    /// Number of slots.
    pub fn capacity(&self) -> (c: usize)
        ensures
            c == self.cap(),
    {
        self.capacity
    }

    /// The index mask, `capacity - 1`.
    pub fn mask(&self) -> (m: usize)
        requires
            self.wf(),
        ensures
            m == self.cap() - 1,
    {
        self.mask
    }

    /// The current wake counter; a consumer waits for it to move.
    pub fn signal_value(&self) -> (v: u32)
        ensures
            v == self.signal_spec(),
    {
        self.signal
    }

    /// Bumps the wake counter after a publication, wrapping freely; the
    /// waiters watch for any change.
    pub fn signal_consumer(&mut self)
        ensures
            final(self).signal_spec() == (old(self).signal_spec() + 1) % 0x1_0000_0000,
            final(self).wf() == old(self).wf(),
            final(self).cap() == old(self).cap(),
            final(self).head() == old(self).head(),
            final(self).tail() == old(self).tail(),
            final(self).pending() == old(self).pending(),
    {
        if self.signal == u32::MAX {
            self.signal = 0;
        } else {
            self.signal = self.signal + 1;
        }
        proof {
            lemma_wf_reads_cursors_and_slots(*old(self), *self);
        }
    }

    /// Claims the tail slot, writes the message and publishes it.
    ///
    /// Returns the slot index written, or `None` exactly when the ring
    /// is full (or the tail cursor has exhausted its headroom below
    /// `u64::MAX`); a refused enqueue leaves the ring untouched.
    pub fn enqueue(&mut self, meta: MessageMeta, payload: &[u8]) -> (r: Option<usize>)
        requires
            old(self).wf(),
            payload@.len() <= MSG_INLINE,
            meta.payload_len == payload@.len(),
        ensures
            final(self).wf(),
            final(self).cap() == old(self).cap(),
            final(self).signal_spec() == old(self).signal_spec(),
            match r {
                Some(idx) => {
                    &&& old(self).pending().len() < old(self).cap()
                    &&& old(self).tail() + old(self).cap() <= u64::MAX
                    &&& idx == old(self).tail() as int % old(self).cap()
                    &&& final(self).head() == old(self).head()
                    &&& final(self).tail() == old(self).tail() + 1
                    &&& final(self).pending() == old(self).pending().push((meta, payload@))
                },
                None => {
                    &&& *final(self) == *old(self)
                    &&& (old(self).pending().len() == old(self).cap() || old(self).tail() + old(
                        self,
                    ).cap() > u64::MAX)
                },
            },
    {
        let t = padded_read(&self.tail_cursor);
        let cap64 = self.capacity as u64;
        if t > u64::MAX - cap64 {
            return None;
        }
        let idx_u64 = t & (self.mask as u64);
        proof {
            lemma_pow2_mask_mod(cap64, t);
        }
        let idx = idx_u64 as usize;
        let seq = self.slots[idx].sequence;
        let ghost pre = *self;
        if seq == t {
            // The slot is free for exactly this sequence: claim it.
            proof {
                let c = pre.cap();
                let h = pre.head() as int;
                if pre.tail() - pre.head() == c {
                    // A full ring would show the word `head + 1` here.
                    lemma_mod_add_multiples_vanish(h, c);
                    assert(pre.slot_at(t as int) == pre.slot_at(h));
                    assert(false);
                }
            }
            padded_write(&mut self.tail_cursor, t + 1);
            let p = slice_to_vec(payload);
            let slot_ref = &mut self.slots[idx];
            slot_ref.meta = meta;
            slot_ref.payload = p;
            // Publishing store: hands the slot to the consumer of `t`.
            slot_ref.sequence = t + 1;
            proof {
                let c = pre.cap();
                let h = pre.head() as int;
                let t0 = t as int;
                lemma_mod_division_less_than_divisor(t0, c);
                assert forall|s: int|
                    self.head() <= s < self.tail() implies {
                    &&& (#[trigger] self.slot_at(s)).sequence == s + 1
                    &&& self.slot_at(s).payload@.len() <= MSG_INLINE
                    &&& self.slot_at(s).meta.payload_len == self.slot_at(s).payload@.len()
                } by {
                    if s < t0 {
                        if s % c == t0 % c {
                            lemma_window_mod(c, s, t0);
                        }
                        assert(self.slot_at(s) == pre.slot_at(s));
                    }
                }
                assert forall|s: int|
                    self.tail() <= s < self.head() + self.cap() implies (#[trigger] self.slot_at(
                    s,
                )).sequence == s by {
                    if s % c == t0 % c {
                        lemma_window_mod(c, t0, s);
                    }
                    assert(self.slot_at(s) == pre.slot_at(s));
                }
                assert forall|i: int| 0 <= i < pre.pending().len() implies self.pending()[i]
                    == pre.pending()[i] by {
                    if (h + i) % c == t0 % c {
                        lemma_window_mod(c, h + i, t0);
                    }
                    assert(self.slot_at(h + i) == pre.slot_at(h + i));
                }
                assert(self.pending() =~= pre.pending().push((meta, payload@)));
            }
            Some(idx)
        } else {
            // Any other word means the slot still holds an unconsumed
            // message from the previous lap: the ring is full.
            proof {
                let c = pre.cap();
                if pre.tail() - pre.head() < c {
                    assert(pre.slot_at(t as int).sequence == t);
                    assert(false);
                }
            }
            None
        }
    }

    /// Claims the head slot, copies its message out and frees the slot
    /// for the next lap.
    ///
    /// Returns `None` exactly when the ring is empty, leaving the ring
    /// untouched; otherwise the oldest queued message.
    pub fn dequeue(&mut self) -> (r: Option<(MessageMeta, Vec<u8>)>)
        requires
            old(self).wf(),
        ensures
            final(self).wf(),
            final(self).cap() == old(self).cap(),
            final(self).signal_spec() == old(self).signal_spec(),
            match r {
                Some(out) => {
                    &&& old(self).pending().len() > 0
                    &&& (out.0, out.1@) == old(self).pending()[0]
                    &&& final(self).head() == old(self).head() + 1
                    &&& final(self).tail() == old(self).tail()
                    &&& final(self).pending() == old(self).pending().subrange(
                        1,
                        old(self).pending().len() as int,
                    )
                },
                None => {
                    &&& *final(self) == *old(self)
                    &&& old(self).pending().len() == 0
                },
            },
    {
        let h = padded_read(&self.head_cursor);
        let cap64 = self.capacity as u64;
        let idx_u64 = h & (self.mask as u64);
        proof {
            lemma_pow2_mask_mod(cap64, h);
        }
        let idx = idx_u64 as usize;
        let seq = self.slots[idx].sequence;
        let ghost pre = *self;
        if seq == h {
            // The head slot is still free for its own claim: nothing
            // has been published, the ring is empty.
            proof {
                if pre.head() < pre.tail() {
                    assert(pre.slot_at(h as int).sequence == h + 1);
                    assert(false);
                }
            }
            None
        } else {
            proof {
                if pre.head() == pre.tail() {
                    assert(pre.slot_at(h as int).sequence == h);
                    assert(false);
                }
            }
            let meta = self.slots[idx].meta;
            let payload = slice_to_vec(self.slots[idx].payload.as_slice());
            padded_write(&mut self.head_cursor, h + 1);
            let slot_ref = &mut self.slots[idx];
            // Freeing store: hands the slot to the producer of `h + C`.
            slot_ref.sequence = h + cap64;
            proof {
                let c = pre.cap();
                let h0 = h as int;
                let t0 = pre.tail() as int;
                lemma_mod_division_less_than_divisor(h0, c);
                lemma_mod_add_multiples_vanish(h0, c);
                assert forall|s: int|
                    self.head() <= s < self.tail() implies {
                    &&& (#[trigger] self.slot_at(s)).sequence == s + 1
                    &&& self.slot_at(s).payload@.len() <= MSG_INLINE
                    &&& self.slot_at(s).meta.payload_len == self.slot_at(s).payload@.len()
                } by {
                    if s % c == h0 % c {
                        lemma_window_mod(c, h0, s);
                    }
                    assert(self.slot_at(s) == pre.slot_at(s));
                }
                assert forall|s: int|
                    self.tail() <= s < self.head() + self.cap() implies (#[trigger] self.slot_at(
                    s,
                )).sequence == s by {
                    if s < h0 + c {
                        if s % c == h0 % c {
                            lemma_window_mod(c, h0, s);
                        }
                        assert(self.slot_at(s) == pre.slot_at(s));
                    } else {
                        assert(s == h0 + c);
                        assert(self.slot_at(s) == self.slots@[h0 % c]);
                    }
                }
                assert forall|i: int| 0 <= i < self.pending().len() implies self.pending()[i]
                    == pre.pending()[i + 1] by {
                    if (h0 + 1 + i) % c == h0 % c {
                        lemma_window_mod(c, h0, h0 + 1 + i);
                    }
                    assert(self.slot_at(h0 + 1 + i) == pre.slot_at(h0 + 1 + i));
                }
                assert(self.pending() =~= pre.pending().subrange(1, pre.pending().len() as int));
            }
            Some((meta, payload))
        }
    }

    /// Queues a whole batch, all or nothing.
    ///
    /// The batch claims its sequences only after a scan confirms every
    /// target slot is ready, so a refused batch leaves the ring
    /// untouched; a successful one appends every message, in order,
    /// and moves the tail past all of them at once, so no interleaved
    /// producer could claim a sequence inside the range.
    #[verifier::loop_isolation(false)]
    pub fn enqueue_batch(&mut self, msgs: &Vec<(MessageMeta, Vec<u8>)>) -> (r: Option<usize>)
        requires
            old(self).wf(),
            forall|i: int|
                0 <= i < msgs@.len() ==> (#[trigger] msgs@[i]).1@.len() <= MSG_INLINE
                    && msgs@[i].0.payload_len == msgs@[i].1@.len(),
        ensures
            final(self).wf(),
            final(self).cap() == old(self).cap(),
            final(self).signal_spec() == old(self).signal_spec(),
            match r {
                Some(idx) => {
                    &&& old(self).pending().len() + msgs@.len() <= old(self).cap()
                    &&& old(self).tail() + old(self).cap() + msgs@.len() <= u64::MAX + 1
                    &&& idx == old(self).tail() as int % old(self).cap()
                    &&& final(self).head() == old(self).head()
                    &&& final(self).tail() == old(self).tail() + msgs@.len()
                    &&& final(self).pending() == old(self).pending() + batch_view(msgs@)
                },
                None => {
                    &&& *final(self) == *old(self)
                    &&& (old(self).pending().len() + msgs@.len() > old(self).cap() || old(
                        self,
                    ).tail() + old(self).cap() + msgs@.len() > u64::MAX + 1)
                },
            },
    {
        let n = msgs.len();
        let t = padded_read(&self.tail_cursor);
        let h = padded_read(&self.head_cursor);
        let cap64 = self.capacity as u64;
        if (n as u64) > cap64 - (t - h) {
            return None;
        }
        proof {
            lemma_pow2_le_half(cap64);
        }
        let limit = u64::MAX - cap64 + 1;
        if t > limit - (n as u64) {
            return None;
        }
        let mask64 = self.mask as u64;
        // Scan: every sequence in [t, t + n) must find its slot ready.
        let mut i: usize = 0;
        while i < n
            invariant
                i <= n,
            decreases n - i,
        {
            let s64 = t + i as u64;
            proof {
                lemma_pow2_mask_mod(cap64, s64);
                assert(self.slot_at(s64 as int).sequence == s64);
            }
            let idx = (s64 & mask64) as usize;
            if self.slots[idx].sequence != s64 {
                return None;
            }
            i = i + 1;
        }
        let ghost pre = *self;
        // Write phase: publish each message in order.
        let mut i: usize = 0;
        while i < n
            invariant
                i <= n,
                n == msgs@.len(),
                self.wf_shape(),
                self.capacity == pre.capacity,
                self.head_cursor == pre.head_cursor,
                self.tail_cursor == pre.tail_cursor,
                self.signal == pre.signal,
                pre.wf(),
                t == pre.tail(),
                h == pre.head(),
                cap64 == pre.capacity as u64,
                n <= pre.cap() - (pre.tail() - pre.head()),
                pre.tail() + pre.cap() + n <= u64::MAX + 1,
                forall|j: int|
                    0 <= j < msgs@.len() ==> (#[trigger] msgs@[j]).1@.len() <= MSG_INLINE
                        && msgs@[j].0.payload_len == msgs@[j].1@.len(),
                forall|s: int|
                    pre.head() <= s < pre.tail() ==> #[trigger] self.slot_at(s) == pre.slot_at(s),
                forall|s: int|
                    pre.tail() <= s < pre.tail() + i ==> {
                        &&& (#[trigger] self.slot_at(s)).sequence == s + 1
                        &&& self.slot_at(s).meta == msgs@[s - pre.tail()].0
                        &&& self.slot_at(s).payload@ == msgs@[s - pre.tail()].1@
                    },
                forall|s: int|
                    pre.tail() + i <= s < pre.head() + pre.cap() ==> (#[trigger] self.slot_at(
                        s,
                    )).sequence == s,
            decreases n - i,
        {
            let ghost step = *self;
            let s64 = t + i as u64;
            let idx_u64 = s64 & mask64;
            proof {
                lemma_pow2_mask_mod(cap64, s64);
                assert(idx_u64 as int == (pre.tail() + i) % pre.cap());
            }
            let idx = idx_u64 as usize;
            let meta = msgs[i].0;
            let p = slice_to_vec(msgs[i].1.as_slice());
            let slot_ref = &mut self.slots[idx];
            slot_ref.meta = meta;
            slot_ref.payload = p;
            slot_ref.sequence = s64 + 1;
            proof {
                let c = pre.cap();
                let h0 = pre.head() as int;
                let t0 = pre.tail() as int;
                let w = t0 + i;
                lemma_mod_division_less_than_divisor(w, c);
                assert forall|s: int|
                    pre.head() <= s < pre.tail() implies #[trigger] self.slot_at(s) == pre.slot_at(
                    s,
                ) by {
                    if s % c == w % c {
                        lemma_window_mod(c, s, w);
                    }
                    assert(self.slot_at(s) == step.slot_at(s));
                }
                assert forall|s: int|
                    pre.tail() <= s < pre.tail() + i + 1 implies {
                    &&& (#[trigger] self.slot_at(s)).sequence == s + 1
                    &&& self.slot_at(s).meta == msgs@[s - pre.tail()].0
                    &&& self.slot_at(s).payload@ == msgs@[s - pre.tail()].1@
                } by {
                    if s < w {
                        if s % c == w % c {
                            lemma_window_mod(c, s, w);
                        }
                        assert(self.slot_at(s) == step.slot_at(s));
                    }
                }
                assert forall|s: int|
                    pre.tail() + i + 1 <= s < pre.head() + pre.cap() implies (
                #[trigger] self.slot_at(s)).sequence == s by {
                    if s % c == w % c {
                        lemma_window_mod(c, w, s);
                    }
                    assert(self.slot_at(s) == step.slot_at(s));
                }
            }
            i = i + 1;
        }
        let ghost filled = *self;
        padded_write(&mut self.tail_cursor, t + n as u64);
        proof {
            let c = pre.cap();
            let h0 = pre.head() as int;
            let t0 = pre.tail() as int;
            assert forall|s: int|
                self.head() <= s < self.tail() implies {
                &&& (#[trigger] self.slot_at(s)).sequence == s + 1
                &&& self.slot_at(s).payload@.len() <= MSG_INLINE
                &&& self.slot_at(s).meta.payload_len == self.slot_at(s).payload@.len()
            } by {
                assert(self.slots@ == filled.slots@);
                assert(self.slot_at(s) == filled.slot_at(s));
                if s < t0 {
                    assert(filled.slot_at(s) == pre.slot_at(s));
                } else {
                    let j = s - t0;
                    assert(filled.slot_at(s).meta == msgs@[j].0);
                    assert(filled.slot_at(s).payload@ == msgs@[j].1@);
                    assert(msgs@[j].1@.len() <= MSG_INLINE);
                }
            }
            assert forall|s: int|
                self.tail() <= s < self.head() + self.cap() implies (#[trigger] self.slot_at(
                s,
            )).sequence == s by {
                assert(self.slots@ == filled.slots@);
                assert(self.slot_at(s) == filled.slot_at(s));
                assert(filled.slot_at(s).sequence == s);
            }
            assert forall|i0: int| 0 <= i0 < pre.pending().len() implies self.pending()[i0]
                == pre.pending()[i0] by {
                assert(self.slots@ == filled.slots@);
                assert(self.slot_at(h0 + i0) == filled.slot_at(h0 + i0));
                assert(filled.slot_at(h0 + i0) == pre.slot_at(h0 + i0));
            }
            assert forall|i0: int|
                pre.pending().len() <= i0 < self.pending().len() implies self.pending()[i0]
                == batch_view(msgs@)[i0 - pre.pending().len()] by {
                let s = h0 + i0;
                let j = s - t0;
                assert(self.slots@ == filled.slots@);
                assert(self.slot_at(s) == filled.slot_at(s));
                assert(filled.slot_at(s).meta == msgs@[j].0);
                assert(filled.slot_at(s).payload@ == msgs@[j].1@);
            }
            assert(self.pending() =~= pre.pending() + batch_view(msgs@));
        }
        proof {
            lemma_pow2_mask_mod(cap64, t);
        }
        Some((t & mask64) as usize)
    }
}

/// At every quiescent point the cursors never cross and never drift
/// further apart than the capacity: the ring holds between zero and
/// `C` messages, whatever valid operations produced it.
pub proof fn lemma_cursor_bounds(rb: RingBuffer)
    requires
        rb.wf(),
    ensures
        rb.head() <= rb.tail(),
        rb.tail() - rb.head() <= rb.cap(),
        rb.pending().len() == rb.tail() - rb.head(),
{
}

/// Every slot's sequence word is congruent to its own index `k` (free
/// for some lap) or to `k + 1` (published for some lap), modulo the
/// capacity — the slot protocol never writes anything else.
pub proof fn lemma_slot_sequence_protocol(rb: RingBuffer, k: int)
    requires
        rb.wf(),
        0 <= k < rb.cap(),
    ensures
        rb.slot_sequence(k) as int % rb.cap() == k || rb.slot_sequence(k) as int % rb.cap() == (k
            + 1) % rb.cap(),
{
    let c = rb.cap();
    let h = rb.head() as int;
    lemma_mod_division_less_than_divisor(h, c);
    lemma_fundamental_div_mod(h, c);
    let r = h % c;
    let q = h / c;
    let s: int = if k >= r {
        h - r + k
    } else {
        h - r + c + k
    };
    assert(s % c == k) by {
        lemma_small_mod(k as nat, c as nat);
        if k >= r {
            assert(s == c * q + k);
            lemma_mod_multiples_vanish(q, k, c);
        } else {
            assert(c * (q + 1) == c * q + c) by {
                vstd::arithmetic::mul::lemma_mul_is_distributive_add(c, q, 1);
            }
            assert(s == c * (q + 1) + k);
            lemma_mod_multiples_vanish(q + 1, k, c);
        }
    }
    assert(h <= s < h + c);
    assert(rb.slot_sequence(k) == rb.slot_at(s).sequence);
    if s < rb.tail() {
        assert(rb.slot_at(s).sequence == s + 1);
        assert((s + 1) % c == (k + 1) % c) by {
            lemma_add_mod_noop(s, 1, c);
            lemma_add_mod_noop(k, 1, c);
            lemma_small_mod(k as nat, c as nat);
        }
    } else {
        assert(rb.slot_at(s).sequence == s);
    }
}

} // verus!
