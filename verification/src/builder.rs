//! Builder for the two endpoints of a channel.

use vstd::prelude::*;
use crate::allocator::{ChannelPartition, SharedMemoryAllocator};
use crate::consumer::Consumer;
use crate::errors::ErrorKind;
use crate::layout::{spec_align128, spec_is_pow2};
use crate::producer::Producer;

verus! {

/// Default region budget a builder asks for, in bytes.
pub const DEFAULT_BUFFER_SIZE: usize = 128 * 1024 * 1024;

/// Default ring capacity a builder creates, in slots.
pub const DEFAULT_CAPACITY: usize = 1024;

/// Collects the choices for one channel's endpoints: the region
/// budget, the channel id, and the ring capacity for a fresh channel.
pub struct ChannelBuilder {
    /// Bytes the region should offer.
    buffer_size: usize,
    /// The channel the endpoints will use.
    channel_id: u32,
    /// Slots a freshly created channel gets.
    capacity: usize,
}

impl ChannelBuilder {
    /// The region budget chosen.
    pub closed spec fn buffer_size_spec(self) -> usize {
        self.buffer_size
    }

    /// The channel id chosen.
    pub closed spec fn channel_id_spec(self) -> u32 {
        self.channel_id
    }

    /// The ring capacity chosen.
    pub closed spec fn capacity_spec(self) -> usize {
        self.capacity
    }

    /// A builder with the default choices.
    pub fn new() -> (b: ChannelBuilder)
        ensures
            b.buffer_size_spec() == DEFAULT_BUFFER_SIZE,
            b.channel_id_spec() == 0,
            b.capacity_spec() == DEFAULT_CAPACITY,
    {
        ChannelBuilder {
            buffer_size: DEFAULT_BUFFER_SIZE,
            channel_id: 0,
            capacity: DEFAULT_CAPACITY,
        }
    }

    /// Chooses the region budget.
    pub fn with_buffer_size(self, size: usize) -> (b: ChannelBuilder)
        ensures
            b.buffer_size_spec() == size,
            b.channel_id_spec() == self.channel_id_spec(),
            b.capacity_spec() == self.capacity_spec(),
    {
        ChannelBuilder { buffer_size: size, ..self }
    }

    /// Chooses the channel id.
    pub fn with_channel_id(self, channel_id: u32) -> (b: ChannelBuilder)
        ensures
            b.channel_id_spec() == channel_id,
            b.buffer_size_spec() == self.buffer_size_spec(),
            b.capacity_spec() == self.capacity_spec(),
    {
        ChannelBuilder { channel_id, ..self }
    }

    /// Chooses the ring capacity for a fresh channel.
    pub fn with_capacity(self, capacity: usize) -> (b: ChannelBuilder)
        ensures
            b.capacity_spec() == capacity,
            b.buffer_size_spec() == self.buffer_size_spec(),
            b.channel_id_spec() == self.channel_id_spec(),
    {
        ChannelBuilder { capacity, ..self }
    }

    /// Creates a fresh channel of the chosen capacity in `alloc` and a
    /// producer stamping the chosen channel id and `sender_pid`.
    ///
    /// Passes through the errors of channel creation.
    pub fn build_producer(self, alloc: &mut SharedMemoryAllocator, sender_pid: u32) -> (r: Result<
        (Producer, ChannelPartition),
        ErrorKind,
    >)
        requires
            old(alloc).wf(),
        ensures
            final(alloc).wf(),
            match r {
                Ok(out) => {
                    &&& spec_is_pow2(self.capacity_spec() as u64) && self.capacity_spec() >= 2
                    &&& out.0.channel_id_spec() == self.channel_id_spec()
                    &&& out.0.sender_pid_spec() == sender_pid
                    &&& out.0.counter_spec() == 0
                    &&& out.0.keep_alive_spec() == true
                    &&& out.1.channel_id == old(alloc).next_id_spec()
                    &&& out.1.capacity == self.capacity_spec()
                    &&& final(alloc).is_live(out.1.channel_id as int)
                    &&& final(alloc).ring_of(out.1.channel_id as int).wf()
                    &&& final(alloc).ring_of(out.1.channel_id as int).cap()
                        == self.capacity_spec()
                    &&& final(alloc).ring_of(out.1.channel_id as int).pending() == Seq::<
                        (crate::meta::MessageMeta, Seq<u8>),
                    >::empty()
                },
                Err(ErrorKind::InvalidInput) => {
                    &&& !(spec_is_pow2(self.capacity_spec() as u64) && self.capacity_spec() >= 2)
                    &&& *final(alloc) == *old(alloc)
                },
                Err(ErrorKind::OutOfMemory) => {
                    &&& spec_is_pow2(self.capacity_spec() as u64) && self.capacity_spec() >= 2
                    &&& (old(alloc).next_id_spec() >= crate::layout::MAX_CHANNELS || spec_align128(
                        old(alloc).used_memory_spec(),
                    ) + spec_align128(
                        self.capacity_spec() * (crate::layout::SLOT_STRIDE as int),
                    ) > old(alloc).region_size_spec())
                },
                Err(_) => false,
            },
    {
        let part = match alloc.create_channel(self.capacity) {
            Ok(part) => part,
            Err(e) => {
                return Err(e);
            },
        };
        let producer = Producer::new(self.channel_id, sender_pid);
        Ok((producer, part))
    }

    /// A consumer on the chosen channel, which must already be live in
    /// `alloc`.
    ///
    /// Fails with `NotFound` exactly when that channel is not live.
    pub fn build_consumer(self, alloc: &SharedMemoryAllocator) -> (r: Result<Consumer, ErrorKind>)
        requires
            alloc.wf(),
        ensures
            match r {
                Ok(c) => {
                    &&& alloc.is_live(self.channel_id_spec() as int)
                    &&& c.channel_id_spec() == self.channel_id_spec()
                    &&& c.alive_flag_spec() == true
                    &&& c.last_time_spec() == 0
                },
                Err(e) => {
                    &&& e == ErrorKind::NotFound
                    &&& !alloc.is_live(self.channel_id_spec() as int)
                },
            },
    {
        match alloc.get_channel(self.channel_id) {
            Some(_) => Ok(Consumer::new(self.channel_id)),
            None => Err(ErrorKind::NotFound),
        }
    }
}

impl Default for ChannelBuilder {
    /// The default choices: a 128-MiB region, channel 0, 1024 slots.
    fn default() -> (b: ChannelBuilder)
        ensures
            b.buffer_size_spec() == DEFAULT_BUFFER_SIZE,
            b.channel_id_spec() == 0,
            b.capacity_spec() == DEFAULT_CAPACITY,
    {
        ChannelBuilder::new()
    }
}

} // verus!
