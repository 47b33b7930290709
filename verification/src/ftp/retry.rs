//! Which errors are worth retrying, and the retry schedule.

use vstd::prelude::*;
use crate::error::{AppError, IoErrorKind};
use crate::ftp::config::{MAX_RETRIES, RETRY_BASE_DELAY_MS, retry_delay};
use crate::text::{chars_of, contains_seq, lowercase_spec, seq_contains, to_lowercase};

verus! {

/// Whether a failed operation may succeed when tried again: timeouts,
/// broken connections, and FTP errors whose message speaks of a connection,
/// a timeout, a broken pipe or a reset.
pub open spec fn retryable_spec(e: AppError) -> bool {
    match e {
        AppError::Timeout(_) => true,
        AppError::Io(k, _) => k is ConnectionReset || k is ConnectionAborted || k is UnexpectedEof
            || k is TimedOut || k is WouldBlock,
        AppError::Ftp(m) => {
            let l = lowercase_spec(m@);
            seq_contains(l, "connection"@) || seq_contains(l, "timeout"@) || seq_contains(
                l,
                "broken pipe"@,
            ) || seq_contains(l, "reset"@)
        },
        _ => false,
    }
}

/// Whether a failed operation may succeed when tried again.
pub fn is_retryable(err: &AppError) -> (r: bool)
    ensures
        r == retryable_spec(*err),
{
    match err {
        AppError::Timeout(_) => true,
        AppError::Io(k, _) => match k {
            IoErrorKind::ConnectionReset | IoErrorKind::ConnectionAborted
            | IoErrorKind::UnexpectedEof | IoErrorKind::TimedOut | IoErrorKind::WouldBlock => true,
            IoErrorKind::Other => false,
        },
        AppError::Ftp(m) => {
            let l = chars_of(to_lowercase(m.as_str()).as_str());
            contains_seq(&l, &chars_of("connection")) || contains_seq(&l, &chars_of("timeout"))
                || contains_seq(&l, &chars_of("broken pipe")) || contains_seq(
                &l,
                &chars_of("reset"),
            )
        },
        _ => false,
    }
}

/// What follows failed attempt number `try_num` (counted from zero): the
/// wait in milliseconds before trying again, or `None` to give up.
pub open spec fn retry_after_spec(try_num: u32, err: AppError) -> Option<u64> {
    if retryable_spec(err) && try_num + 1 < MAX_RETRIES {
        Some((RETRY_BASE_DELAY_MS * (try_num + 1)) as u64)
    } else {
        None
    }
}

/// Decides what follows a failed attempt: wait and try again, or give up.
pub fn retry_after(try_num: u32, err: &AppError) -> (r: Option<u64>)
    ensures
        r == retry_after_spec(try_num, *err),
{
    if is_retryable(err) && try_num < MAX_RETRIES - 1 {
        Some(retry_delay(try_num))
    } else {
        None
    }
}


/// An operation is tried at most `MAX_RETRIES` times, errors that are not
/// worth retrying end it at once, and each wait is longer than the one
/// before.
pub proof fn lemma_retries_bounded(try_num: u32, err: AppError)
    ensures
        try_num + 1 >= MAX_RETRIES ==> retry_after_spec(try_num, err) is None,
        !retryable_spec(err) ==> retry_after_spec(try_num, err) is None,
        try_num + 2 < MAX_RETRIES && retryable_spec(err) ==> retry_after_spec(try_num, err)->0 < retry_after_spec(
            (try_num + 1) as u32,
            err,
        )->0,
{
}

} // verus!
