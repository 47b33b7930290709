//! Bandwidth limiting: how long to wait after sending or receiving a chunk.

use vstd::prelude::*;

verus! {

/// `bytes` times a billion, held at `u64::MAX` when it does not fit.
pub open spec fn saturated_nanos(bytes: u64) -> int {
    if bytes * 1_000_000_000 > u64::MAX {
        u64::MAX as int
    } else {
        bytes * 1_000_000_000
    }
}

/// Nanoseconds to wait after moving `bytes` under a limit of `limit_kbps`
/// KB/s (1 KB = 1024 bytes): none without a limit or with a zero limit,
/// else the time those bytes take at that rate, rounded down.
pub open spec fn pause_nanos(bytes: u64, limit_kbps: Option<u32>) -> int {
    match limit_kbps {
        Some(k) => if k > 0 {
            saturated_nanos(bytes) / (k * 1024)
        } else {
            0
        },
        None => 0,
    }
}

/// Nanoseconds to wait after moving `bytes` (see `pause_nanos`).
pub fn throttle_nanos(bytes: u64, limit_kbps: Option<u32>) -> (r: u64)
    ensures
        r == pause_nanos(bytes, limit_kbps),
{
    let kbps = match limit_kbps {
        Some(k) => k,
        None => return 0,
    };
    if kbps == 0 {
        return 0;
    }
    let limit_bps: u64 = kbps as u64 * 1024;
    let scaled: u64 = match bytes.checked_mul(1_000_000_000) {
        Some(v) => v,
        None => u64::MAX,
    };
    scaled / limit_bps
}


/// Without a limit there is no wait, and under a limit more bytes never
/// mean a shorter wait.
pub proof fn lemma_pause_monotone(a: u64, b: u64, limit_kbps: Option<u32>)
    requires
        a <= b,
    ensures
        limit_kbps is None ==> pause_nanos(a, limit_kbps) == 0,
        pause_nanos(a, limit_kbps) <= pause_nanos(b, limit_kbps),
{
    match limit_kbps {
        Some(k) => if k > 0 {
            let d = k * 1024;
            assert(saturated_nanos(a) <= saturated_nanos(b)) by (nonlinear_arith)
                requires
                    a <= b,
                    saturated_nanos(a) == (if a * 1_000_000_000 > u64::MAX { u64::MAX as int } else { a * 1_000_000_000 }),
                    saturated_nanos(b) == (if b * 1_000_000_000 > u64::MAX { u64::MAX as int } else { b * 1_000_000_000 }),
            ;
            vstd::arithmetic::div_mod::lemma_div_is_ordered(saturated_nanos(a), saturated_nanos(b), d as int);
        },
        None => {},
    }
}

/// Under any nonzero limit of `k` KB/s (1 KB = 1024 bytes), the wait after
/// `bytes` whose count of nanobytes fits in 64 bits is the time they take at
/// that rate, rounded down to the nanosecond: the bytes take at least the
/// wait and less than one nanosecond more.
pub proof fn lemma_pause_is_rate_time(bytes: u64, k: u32)
    requires
        k > 0,
        bytes * 1_000_000_000 <= u64::MAX,
    ensures
        pause_nanos(bytes, Some(k)) * (k * 1024) <= bytes * 1_000_000_000,
        bytes * 1_000_000_000 < (pause_nanos(bytes, Some(k)) + 1) * (k * 1024),
{
    let d: int = k * 1024;
    let n: int = bytes * 1_000_000_000;
    assert(saturated_nanos(bytes) == n);
    assert(pause_nanos(bytes, Some(k)) == n / d);
    vstd::arithmetic::div_mod::lemma_fundamental_div_mod(n, d);
    assert(0 <= n % d < d) by {
        vstd::arithmetic::div_mod::lemma_mod_bound(n, d);
    }
    assert((n / d) * d <= n) by (nonlinear_arith)
        requires
            n == d * (n / d) + n % d,
            0 <= n % d,
    ;
    assert(n < (n / d + 1) * d) by (nonlinear_arith)
        requires
            n == d * (n / d) + n % d,
            n % d < d,
    ;
}

} // verus!
