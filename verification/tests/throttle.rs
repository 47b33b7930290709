use miel_ftp::ftp::throttle::throttle_nanos;
use std::time::{Duration, Instant};

/// Waits as long as the library says a chunk of `bytes` takes under the limit.
async fn sleep_for_bytes(bytes: u64, limit_kbps: Option<u32>) {
    let nanos = throttle_nanos(bytes, limit_kbps);
    if nanos > 0 {
        tokio::time::sleep(Duration::from_nanos(nanos)).await;
    }
}

fn run_pause(bytes: u64, limit_kbps: Option<u32>) -> Duration {
    let rt = tokio::runtime::Runtime::new().unwrap();
    let start = Instant::now();
    rt.block_on(sleep_for_bytes(bytes, limit_kbps));
    start.elapsed()
}

#[test]
fn unlimited_is_noop() {
    assert!(run_pause(1_048_576, None) < Duration::from_millis(50));
}

#[test]
fn zero_limit_is_noop() {
    assert!(run_pause(1_048_576, Some(0)) < Duration::from_millis(50));
}

#[test]
fn throttles_large_chunk() {
    // 64 KiB at 64 KB/s is about one second.
    assert!(run_pause(65_536, Some(64)) >= Duration::from_millis(900));
}
