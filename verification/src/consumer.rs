//! The receiving endpoint: drains one channel's ring and keeps a
//! best-effort view of whether the producing side is still there.

use vstd::prelude::*;
use crate::errors::ErrorKind;
use crate::meta::MessageMeta;
use crate::ring::RingBuffer;

verus! {

/// Seconds of silence after which a consumer stops trusting its last
/// message as proof of life.
pub const LIVENESS_WINDOW_SECS: u64 = 5;

/// A consumer on one channel: the channel id, a liveness flag the
/// producing side may clear, and the time the last message arrived.
pub struct Consumer {
    /// The channel this consumer drains.
    channel_id: u32,
    /// Cleared when the producing side is known to be gone.
    producer_alive: bool,
    /// Wall-clock seconds of the last received message; zero before
    /// the first one.
    last_message_time: u64,
}

impl Consumer {
    /// The channel id.
    pub closed spec fn channel_id_spec(self) -> u32 {
        self.channel_id
    }

    /// The liveness flag.
    pub closed spec fn alive_flag_spec(self) -> bool {
        self.producer_alive
    }

    /// When the last message arrived, in wall-clock seconds.
    pub closed spec fn last_time_spec(self) -> u64 {
        self.last_message_time
    }

    /// The liveness heuristic: a message within the last
    /// [`LIVENESS_WINDOW_SECS`] seconds counts as proof of life; past
    /// that, the flag decides.
    pub open spec fn spec_producer_alive(self, now_secs: u64) -> bool {
        if self.last_time_spec() > 0 && now_secs < self.last_time_spec()
            + LIVENESS_WINDOW_SECS {
            true
        } else {
            self.alive_flag_spec()
        }
    }

    /// A fresh consumer for one channel: flag set, no message seen.
    pub fn new(channel_id: u32) -> (c: Consumer)
        ensures
            c.channel_id_spec() == channel_id,
            c.alive_flag_spec() == true,
            c.last_time_spec() == 0,
    {
        Consumer { channel_id, producer_alive: true, last_message_time: 0 }
    }

    /// The channel id.
    pub fn channel_id(&self) -> (r: u32)
        ensures
            r == self.channel_id_spec(),
    {
        self.channel_id
    }

    /// The raw liveness flag, apart from the message-time heuristic.
    pub fn producer_alive(&self) -> (r: bool)
        ensures
            r == self.alive_flag_spec(),
    {
        self.producer_alive
    }

    /// Records whether the producing side is still present.
    pub fn set_producer_alive(&mut self, alive: bool)
        ensures
            final(self).alive_flag_spec() == alive,
            final(self).channel_id_spec() == old(self).channel_id_spec(),
            final(self).last_time_spec() == old(self).last_time_spec(),
    {
        self.producer_alive = alive;
    }

    /// Applies the liveness heuristic at wall-clock second `now_secs`.
    pub fn is_producer_alive(&self, now_secs: u64) -> (r: bool)
        ensures
            r == self.spec_producer_alive(now_secs),
    {
        let last = self.last_message_time;
        if last > 0 && (now_secs < last || now_secs - last < LIVENESS_WINDOW_SECS) {
            return true;
        }
        self.producer_alive
    }

    /// Remembers that a message arrived at wall-clock second
    /// `now_secs`.
    fn update_last_message_time(&mut self, now_secs: u64)
        ensures
            final(self).last_time_spec() == now_secs,
            final(self).channel_id_spec() == old(self).channel_id_spec(),
            final(self).alive_flag_spec() == old(self).alive_flag_spec(),
    {
        self.last_message_time = now_secs;
    }

    /// Takes the oldest message with its metadata, if one is queued.
    ///
    /// Returns `Ok(None)` exactly on an empty ring with the producer
    /// still taken for alive, leaving everything untouched; fails with
    /// `BrokenPipe` exactly on an empty ring once the liveness
    /// heuristic gives the producer up.
    pub fn receive_with_meta(&mut self, ring: &mut RingBuffer, now_secs: u64) -> (r: Result<
        Option<(MessageMeta, Vec<u8>)>,
        ErrorKind,
    >)
        requires
            old(ring).wf(),
        ensures
            final(ring).wf(),
            final(ring).cap() == old(ring).cap(),
            final(ring).signal_spec() == old(ring).signal_spec(),
            final(self).channel_id_spec() == old(self).channel_id_spec(),
            final(self).alive_flag_spec() == old(self).alive_flag_spec(),
            match r {
                Ok(Some(out)) => {
                    &&& old(ring).pending().len() > 0
                    &&& (out.0, out.1@) == old(ring).pending()[0]
                    &&& final(ring).pending() == old(ring).pending().subrange(
                        1,
                        old(ring).pending().len() as int,
                    )
                    &&& final(ring).head() == old(ring).head() + 1
                    &&& final(ring).tail() == old(ring).tail()
                    &&& final(self).last_time_spec() == now_secs
                },
                Ok(None) => {
                    &&& old(ring).pending().len() == 0
                    &&& old(self).spec_producer_alive(now_secs)
                    &&& *final(ring) == *old(ring)
                    &&& *final(self) == *old(self)
                },
                Err(ErrorKind::BrokenPipe) => {
                    &&& old(ring).pending().len() == 0
                    &&& !old(self).spec_producer_alive(now_secs)
                    &&& *final(ring) == *old(ring)
                    &&& *final(self) == *old(self)
                },
                Err(_) => false,
            },
    {
        match ring.dequeue() {
            Some(out) => {
                self.update_last_message_time(now_secs);
                Ok(Some(out))
            },
            None => {
                if !self.is_producer_alive(now_secs) {
                    return Err(ErrorKind::BrokenPipe);
                }
                Ok(None)
            },
        }
    }

    /// Takes the oldest payload, if one is queued; as
    /// [`Self::receive_with_meta`], without the metadata.
    pub fn receive(&mut self, ring: &mut RingBuffer, now_secs: u64) -> (r: Result<
        Option<Vec<u8>>,
        ErrorKind,
    >)
        requires
            old(ring).wf(),
        ensures
            final(ring).wf(),
            final(ring).cap() == old(ring).cap(),
            final(ring).signal_spec() == old(ring).signal_spec(),
            final(self).channel_id_spec() == old(self).channel_id_spec(),
            final(self).alive_flag_spec() == old(self).alive_flag_spec(),
            match r {
                Ok(Some(p)) => {
                    &&& old(ring).pending().len() > 0
                    &&& p@ == old(ring).pending()[0].1
                    &&& final(ring).pending() == old(ring).pending().subrange(
                        1,
                        old(ring).pending().len() as int,
                    )
                    &&& final(self).last_time_spec() == now_secs
                },
                Ok(None) => {
                    &&& old(ring).pending().len() == 0
                    &&& old(self).spec_producer_alive(now_secs)
                    &&& *final(ring) == *old(ring)
                    &&& *final(self) == *old(self)
                },
                Err(ErrorKind::BrokenPipe) => {
                    &&& old(ring).pending().len() == 0
                    &&& !old(self).spec_producer_alive(now_secs)
                    &&& *final(ring) == *old(ring)
                    &&& *final(self) == *old(self)
                },
                Err(_) => false,
            },
    {
        match self.receive_with_meta(ring, now_secs) {
            Ok(Some((_, payload))) => Ok(Some(payload)),
            Ok(None) => Ok(None),
            Err(e) => Err(e),
        }
    }

    /// How long a polling receive should sleep before its next try:
    /// the time still left, capped at ten milliseconds.
    pub fn poll_backoff_ms(remaining_ms: u64) -> (r: u64)
        ensures
            r == if remaining_ms < 10 {
                remaining_ms as int
            } else {
                10int
            },
    {
        if remaining_ms < 10 {
            remaining_ms
        } else {
            10
        }
    }
}

} // verus!
