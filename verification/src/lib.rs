//! A multi-producer multi-consumer message bus over a fixed-size region:
//! bounded ring buffers driven by a per-slot sequence protocol, a
//! bump-style channel allocator, and producer/consumer endpoints that
//! stamp and deliver fixed-budget inline payloads.

pub mod allocator;
pub mod builder;
pub mod consumer;
pub mod errors;
pub mod layout;
pub mod meta;
pub mod padded;
pub mod producer;
pub mod ring;

pub use allocator::{ChannelEntry, ChannelPartition, GlobalHeader, SharedMemoryAllocator};
pub use builder::ChannelBuilder;
pub use consumer::Consumer;
pub use errors::ErrorKind;
pub use layout::{MAX_CHANNELS, MSG_INLINE};
pub use meta::MessageMeta;
pub use producer::Producer;
pub use ring::{RingBuffer, Slot};
