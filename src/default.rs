//! Configuration constants of a connection.
use vstd::prelude::*;

verus! {

/// GID table index used for the global route of every queue pair.
pub const DEFAULT_GID_INDEX: u8 = 1;

/// Depth of the completion queue.
pub const MAX_CQE: i32 = 32767;

/// Depth of the receive queue; also the default admission cap on sends.
pub const DEFAULT_RQE_COUNT: u32 = 1023;

/// Size of the registered send region.
pub const DEFAULT_SEND_BUFFER_SIZE: usize = 16 * 1024 * 1024;

/// Size of the registered receive region.
pub const DEFAULT_RECV_BUFFER_SIZE: usize = 16 * 1024 * 1024;

/// Released bytes are batched until they reach this many.
pub const MIN_LENGTH_TO_NOTIFY_RELEASE: u32 = 8 * 1024;

/// Most work completions taken from the completion queue in one poll.
pub const POLL_BATCH: u32 = 100;

} // verus!
