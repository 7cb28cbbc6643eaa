//! The closed error taxonomy of the bus, and its foreign status codes.

use vstd::prelude::*;

verus! {

/// Everything that can go wrong across the bus, as a closed set of kinds.
///
/// Each kind corresponds to one failure condition of the region, the
/// allocator, the ring, or an endpoint; functions state in their contracts
/// exactly which inputs produce which kind.
#[derive(Clone, Copy, Debug, PartialEq, Eq, Structural)]
pub enum ErrorKind {
    /// The backing region does not exist (attach).
    NotFound,
    /// Magic mismatch, undersized region, or misalignment (attach).
    InvalidData,
    /// Bad size, non-power-of-two capacity, or oversize payload.
    InvalidInput,
    /// The entry was claimed by another party between id claim and write.
    AlreadyExists,
    /// No free channel id, or no room left in the region.
    OutOfMemory,
    /// The ring is full; the caller may retry.
    WouldBlock,
    /// The peer's liveness flag has flipped off.
    BrokenPipe,
    /// A bounded wait ended without a message.
    TimedOut,
    /// The host lacks a required primitive.
    Unsupported,
}

/// Status code reported to foreign callers for a successful call.
pub const STATUS_SUCCESS: i32 = 0;
/// Status code for a null pointer handed in by a foreign caller.
pub const STATUS_NULL_POINTER: i32 = -1;
/// Status code for an invalid argument.
pub const STATUS_INVALID_ARG: i32 = -2;
/// Status code for a full channel.
pub const STATUS_CHANNEL_FULL: i32 = -4;
/// Status code for an empty channel.
pub const STATUS_EMPTY: i32 = -5;
/// Status code for an internal failure.
pub const STATUS_INTERNAL: i32 = -6;
/// Status code for a receive that timed out.
pub const STATUS_TIMEOUT: i32 = -7;

/// Maps an error kind onto the closed set of foreign status codes.
///
/// Null-pointer and empty-channel conditions arise only at the foreign
/// boundary itself, so no kind maps to those two codes.
pub fn error_status(e: ErrorKind) -> (r: i32)
    ensures
        r == match e {
            ErrorKind::InvalidInput => STATUS_INVALID_ARG,
            ErrorKind::WouldBlock => STATUS_CHANNEL_FULL,
            ErrorKind::TimedOut => STATUS_TIMEOUT,
            _ => STATUS_INTERNAL,
        },
{
    match e {
        ErrorKind::InvalidInput => STATUS_INVALID_ARG,
        ErrorKind::WouldBlock => STATUS_CHANNEL_FULL,
        ErrorKind::TimedOut => STATUS_TIMEOUT,
        _ => STATUS_INTERNAL,
    }
}

} // verus!
