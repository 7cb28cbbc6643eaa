//! The sending endpoint: stamps transport metadata onto payloads and
//! queues them on one channel's ring.

use vstd::prelude::*;
use vstd::slice::slice_to_vec;
use crate::errors::ErrorKind;
use crate::layout::MSG_INLINE;
use crate::meta::MessageMeta;
use crate::ring::{batch_view, RingBuffer};

verus! {

/// Addition wrapping at the width of a message counter.
pub open spec fn spec_wrap_add64(a: u64, b: int) -> u64 {
    (((a as int) + b) % 0x1_0000_0000_0000_0000) as u64
}

/// Adds with wrap-around, as a free-running message counter does.
fn wrap_add_u64(a: u64, b: u64) -> (r: u64)
    ensures
        r == spec_wrap_add64(a, b as int),
{
    if b > 0 && a > u64::MAX - b {
        let wide = (a as u128) + (b as u128) - 0x1_0000_0000_0000_0000u128;
        proof {
            vstd::arithmetic::div_mod::lemma_mod_sub_multiples_vanish(
                a + b,
                0x1_0000_0000_0000_0000,
            );
            vstd::arithmetic::div_mod::lemma_small_mod(
                (a + b - 0x1_0000_0000_0000_0000) as nat,
                0x1_0000_0000_0000_0000,
            );
        }
        wide as u64
    } else {
        proof {
            if a + b <= u64::MAX {
                vstd::arithmetic::div_mod::lemma_small_mod(
                    (a + b) as nat,
                    0x1_0000_0000_0000_0000,
                );
            }
        }
        a + b
    }
}

/// A producer on one channel: a monotone message counter, the identity
/// it stamps, and a liveness flag its consumer side may clear.
pub struct Producer {
    /// The channel this producer stamps into its metadata.
    channel_id: u32,
    /// Operating-system process id stamped into the metadata.
    sender_pid: u32,
    /// Cleared when the consuming side is known to be gone.
    keep_alive: bool,
    /// Next message id to stamp.
    sequence_counter: u64,
}

impl Producer {
    /// The channel id this producer stamps.
    pub closed spec fn channel_id_spec(self) -> u32 {
        self.channel_id
    }

    /// The process id this producer stamps.
    pub closed spec fn sender_pid_spec(self) -> u32 {
        self.sender_pid
    }

    /// The liveness flag.
    pub closed spec fn keep_alive_spec(self) -> bool {
        self.keep_alive
    }

    /// The next message id this producer will stamp.
    pub closed spec fn counter_spec(self) -> u64 {
        self.sequence_counter
    }

    /// The metadata this producer stamps onto its next payload of
    /// `payload_len` bytes at time `timestamp_ns`.
    pub open spec fn stamp_spec(self, timestamp_ns: u64, payload_len: u32) -> MessageMeta {
        MessageMeta {
            message_id: self.counter_spec(),
            timestamp_ns,
            channel_id: self.channel_id_spec(),
            message_type: 1,
            sender_pid: self.sender_pid_spec(),
            sender_runtime: 1,
            flags: 0,
            payload_len,
        }
    }

    /// A fresh producer for one channel, counting from zero.
    pub fn new(channel_id: u32, sender_pid: u32) -> (p: Producer)
        ensures
            p.channel_id_spec() == channel_id,
            p.sender_pid_spec() == sender_pid,
            p.keep_alive_spec() == true,
            p.counter_spec() == 0,
    {
        Producer { channel_id, sender_pid, keep_alive: true, sequence_counter: 0 }
    }

    /// The channel id this producer stamps.
    pub fn channel_id(&self) -> (r: u32)
        ensures
            r == self.channel_id_spec(),
    {
        self.channel_id
    }

    /// Whether the consuming side is still assumed present.
    pub fn keep_alive(&self) -> (r: bool)
        ensures
            r == self.keep_alive_spec(),
    {
        self.keep_alive
    }

    /// Records whether the consuming side is still present.
    pub fn set_keep_alive(&mut self, alive: bool)
        ensures
            final(self).keep_alive_spec() == alive,
            final(self).channel_id_spec() == old(self).channel_id_spec(),
            final(self).sender_pid_spec() == old(self).sender_pid_spec(),
            final(self).counter_spec() == old(self).counter_spec(),
    {
        self.keep_alive = alive;
    }

    /// Largest payload a slot can carry.
    pub fn max_message_size(&self) -> (r: usize)
        ensures
            r == MSG_INLINE,
    {
        MSG_INLINE
    }

    /// Stamps and queues one payload, then signals the consumers.
    ///
    /// Fails with `InvalidInput` on a payload over the inline budget,
    /// before anything is claimed or counted; with `BrokenPipe` when
    /// the ring refuses and the liveness flag is off; with
    /// `WouldBlock` when the ring refuses otherwise. The message id is
    /// spent once the payload passes the size check, taken or not.
    pub fn send(&mut self, ring: &mut RingBuffer, message: &[u8], timestamp_ns: u64) -> (r: Result<
        (),
        ErrorKind,
    >)
        requires
            old(ring).wf(),
        ensures
            final(ring).wf(),
            final(ring).cap() == old(ring).cap(),
            final(self).channel_id_spec() == old(self).channel_id_spec(),
            final(self).sender_pid_spec() == old(self).sender_pid_spec(),
            final(self).keep_alive_spec() == old(self).keep_alive_spec(),
            match r {
                Ok(_) => {
                    &&& message@.len() <= MSG_INLINE
                    &&& old(ring).pending().len() < old(ring).cap()
                    &&& old(ring).tail() + old(ring).cap() <= u64::MAX
                    &&& final(self).counter_spec() == spec_wrap_add64(old(self).counter_spec(), 1)
                    &&& final(ring).pending() == old(ring).pending().push(
                        (
                            old(self).stamp_spec(timestamp_ns, message@.len() as u32),
                            message@,
                        ),
                    )
                    &&& final(ring).head() == old(ring).head()
                    &&& final(ring).tail() == old(ring).tail() + 1
                    &&& final(ring).signal_spec() == (old(ring).signal_spec() + 1) % 0x1_0000_0000
                },
                Err(ErrorKind::InvalidInput) => {
                    &&& message@.len() > MSG_INLINE
                    &&& *final(ring) == *old(ring)
                    &&& *final(self) == *old(self)
                },
                Err(ErrorKind::BrokenPipe) => {
                    &&& message@.len() <= MSG_INLINE
                    &&& !old(self).keep_alive_spec()
                    &&& (old(ring).pending().len() == old(ring).cap() || old(ring).tail() + old(
                        ring,
                    ).cap() > u64::MAX)
                    &&& *final(ring) == *old(ring)
                    &&& final(self).counter_spec() == spec_wrap_add64(old(self).counter_spec(), 1)
                },
                Err(ErrorKind::WouldBlock) => {
                    &&& message@.len() <= MSG_INLINE
                    &&& old(self).keep_alive_spec()
                    &&& (old(ring).pending().len() == old(ring).cap() || old(ring).tail() + old(
                        ring,
                    ).cap() > u64::MAX)
                    &&& *final(ring) == *old(ring)
                    &&& final(self).counter_spec() == spec_wrap_add64(old(self).counter_spec(), 1)
                },
                Err(_) => false,
            },
    {
        if message.len() > MSG_INLINE {
            return Err(ErrorKind::InvalidInput);
        }
        let meta = MessageMeta {
            message_id: self.sequence_counter,
            timestamp_ns,
            channel_id: self.channel_id,
            message_type: 1,
            sender_pid: self.sender_pid,
            sender_runtime: 1,
            flags: 0,
            payload_len: message.len() as u32,
        };
        // The id is spent whether or not the ring takes the message.
        self.sequence_counter = wrap_add_u64(self.sequence_counter, 1);
        match ring.enqueue(meta, message) {
            Some(_) => {
                ring.signal_consumer();
                Ok(())
            },
            None => {
                if !self.keep_alive {
                    Err(ErrorKind::BrokenPipe)
                } else {
                    Err(ErrorKind::WouldBlock)
                }
            },
        }
    }

    /// Stamps consecutive ids onto a batch of payloads and queues them
    /// all or not at all, then signals once.
    ///
    /// An empty batch succeeds without touching anything. A payload
    /// over the inline budget fails with `InvalidInput` before any id
    /// is spent or slot claimed. A refused batch leaves the ring
    /// untouched but spends the whole id range, as the pre-reservation
    /// does; it fails with `WouldBlock`.
    #[verifier::loop_isolation(false)]
    pub fn send_batch(
        &mut self,
        ring: &mut RingBuffer,
        messages: &Vec<Vec<u8>>,
        timestamp_ns: u64,
    ) -> (r: Result<(), ErrorKind>)
        requires
            old(ring).wf(),
        ensures
            final(ring).wf(),
            final(ring).cap() == old(ring).cap(),
            final(self).channel_id_spec() == old(self).channel_id_spec(),
            final(self).sender_pid_spec() == old(self).sender_pid_spec(),
            final(self).keep_alive_spec() == old(self).keep_alive_spec(),
            match r {
                Ok(_) => {
                    if messages@.len() == 0 {
                        *final(ring) == *old(ring) && *final(self) == *old(self)
                    } else {
                        &&& forall|i: int|
                            0 <= i < messages@.len() ==> (#[trigger] messages@[i])@.len()
                                <= MSG_INLINE
                        &&& old(ring).pending().len() + messages@.len() <= old(ring).cap()
                        &&& final(self).counter_spec() == spec_wrap_add64(
                            old(self).counter_spec(),
                            messages@.len() as int,
                        )
                        &&& final(ring).pending() == old(ring).pending() + Seq::new(
                            messages@.len(),
                            |i: int|
                                (
                                    old(self).stamp_spec(timestamp_ns, messages@[i]@.len() as u32)
                                        .wrapping_id(i),
                                    messages@[i]@,
                                ),
                        )
                        &&& final(ring).head() == old(ring).head()
                        &&& final(ring).tail() == old(ring).tail() + messages@.len()
                        &&& final(ring).signal_spec() == (old(ring).signal_spec() + 1)
                            % 0x1_0000_0000
                    }
                },
                Err(ErrorKind::InvalidInput) => {
                    &&& exists|i: int|
                        0 <= i < messages@.len() && (#[trigger] messages@[i])@.len() > MSG_INLINE
                    &&& *final(ring) == *old(ring)
                    &&& *final(self) == *old(self)
                },
                Err(ErrorKind::WouldBlock) => {
                    &&& messages@.len() > 0
                    &&& forall|i: int|
                        0 <= i < messages@.len() ==> (#[trigger] messages@[i])@.len() <= MSG_INLINE
                    &&& (old(ring).pending().len() + messages@.len() > old(ring).cap() || old(
                        ring,
                    ).tail() + old(ring).cap() + messages@.len() > u64::MAX + 1)
                    &&& *final(ring) == *old(ring)
                    &&& final(self).counter_spec() == spec_wrap_add64(
                        old(self).counter_spec(),
                        messages@.len() as int,
                    )
                },
                Err(_) => false,
            },
    {
        let n = messages.len();
        if n == 0 {
            return Ok(());
        }
        // Size screen: nothing is claimed or counted past an oversize
        // payload.
        let mut i: usize = 0;
        while i < n
            invariant
                i <= n,
                n == messages@.len(),
                forall|j: int|
                    0 <= j < i ==> (#[trigger] messages@[j])@.len() <= MSG_INLINE,
            decreases n - i,
        {
            if messages[i].len() > MSG_INLINE {
                return Err(ErrorKind::InvalidInput);
            }
            i = i + 1;
        }
        let base = self.sequence_counter;
        // Pre-reserve the id range; gaps on failure are acceptable.
        self.sequence_counter = wrap_add_u64(self.sequence_counter, n as u64);
        let ghost stamper = *old(self);
        let mut batch: Vec<(MessageMeta, Vec<u8>)> = Vec::new();
        let mut i: usize = 0;
        while i < n
            invariant
                i <= n,
                n == messages@.len(),
                base == stamper.counter_spec(),
                batch@.len() == i,
                forall|j: int|
                    0 <= j < i ==> (#[trigger] batch@[j]).0 == stamper.stamp_spec(
                        timestamp_ns,
                        messages@[j]@.len() as u32,
                    ).wrapping_id(j),
                forall|j: int| 0 <= j < i ==> (#[trigger] batch@[j]).1@ == messages@[j]@,
                forall|j: int|
                    0 <= j < n ==> (#[trigger] messages@[j])@.len() <= MSG_INLINE,
            decreases n - i,
        {
            let meta = MessageMeta {
                message_id: wrap_add_u64(base, i as u64),
                timestamp_ns,
                channel_id: self.channel_id,
                message_type: 1,
                sender_pid: self.sender_pid,
                sender_runtime: 1,
                flags: 0,
                payload_len: messages[i].len() as u32,
            };
            let payload = slice_to_vec(messages[i].as_slice());
            batch.push((meta, payload));
            i = i + 1;
        }
        match ring.enqueue_batch(&batch) {
            Some(_) => {
                ring.signal_consumer();
                proof {
                    assert(batch_view(batch@) =~= Seq::new(
                        messages@.len(),
                        |i: int|
                            (
                                stamper.stamp_spec(timestamp_ns, messages@[i]@.len() as u32)
                                    .wrapping_id(i),
                                messages@[i]@,
                            ),
                    ));
                }
                Ok(())
            },
            None => Err(ErrorKind::WouldBlock),
        }
    }
}

impl MessageMeta {
    /// This metadata with its message id advanced `i` steps, wrapping
    /// as the counter does: how a batch stamps its `i`-th member.
    pub open spec fn wrapping_id(self, i: int) -> MessageMeta {
        MessageMeta { message_id: spec_wrap_add64(self.message_id, i), ..self }
    }
}

/// Round trip: what a send appends to the queue — and a later receive
/// hands back — is the payload byte for byte under the stamped
/// metadata: the producer's current message id, its channel id, and
/// the payload's own length.
pub proof fn lemma_send_receive_round_trip(
    p: Producer,
    before: Seq<(MessageMeta, Seq<u8>)>,
    payload: Seq<u8>,
    timestamp_ns: u64,
)
    requires
        payload.len() <= MSG_INLINE,
    ensures
        ({
            let m = p.stamp_spec(timestamp_ns, payload.len() as u32);
            let after = before.push((m, payload));
            &&& after.last() == (m, payload)
            &&& m.payload_len == payload.len()
            &&& m.channel_id == p.channel_id_spec()
            &&& m.message_id == p.counter_spec()
            &&& (before.len() == 0 ==> after[0] == (m, payload))
        }),
{
}

} // verus!
