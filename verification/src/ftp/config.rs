//! Timeouts, buffer size and the retry schedule of network operations.

use vstd::prelude::*;

verus! {

/// Seconds allowed for the TCP connection and the initial FTP handshake.
pub const CONNECT_TIMEOUT_SECS: u64 = 15;

/// Seconds allowed for each FTP operation (login, cwd, list, transfer...).
pub const OPERATION_TIMEOUT_SECS: u64 = 60;

/// Buffer size for streamed uploads and downloads.
pub const CHUNK_SIZE: usize = 64 * 1024;

/// Attempts made of an operation before its error is reported.
pub const MAX_RETRIES: u32 = 3;

/// Wait before the first retry, in milliseconds; later retries wait longer.
pub const RETRY_BASE_DELAY_MS: u64 = 400;

/// Milliseconds to wait after failed attempt number `attempt` (counted from
/// zero): the base delay times `attempt + 1`.
pub fn retry_delay(attempt: u32) -> (r: u64)
    requires
        attempt < u32::MAX,
    ensures
        r == RETRY_BASE_DELAY_MS * (attempt + 1),
{
    RETRY_BASE_DELAY_MS * (attempt as u64 + 1)
}

} // verus!
