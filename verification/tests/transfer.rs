use miel_ftp::models::transfer::{TransferEntry, TransferKind, TransferStatus};

fn sample_entry(total: Option<u64>, transferred: u64) -> TransferEntry {
    TransferEntry {
        id: 1,
        connection_id: 2,
        kind: TransferKind::Upload,
        filename: "test.bin".into(),
        local_path: "/tmp/test.bin".into(),
        remote_path: "/".into(),
        total_bytes: total,
        transferred_bytes: transferred,
        resume_from: 0,
        status: TransferStatus::Active,
    }
}

/// The queue panel's percentage, from the library's progress.
fn percent(e: &TransferEntry) -> Option<f32> {
    e.progress().map(|(done, total)| (done as f32 / total as f32) * 100.0)
}

#[test]
fn percent_none_when_total_unknown() {
    let e = sample_entry(None, 100);
    assert!(percent(&e).is_none());
    assert_eq!(e.progress(), None);
}

#[test]
fn percent_full_when_zero_total() {
    let e = sample_entry(Some(0), 0);
    assert_eq!(percent(&e), Some(100.0));
    assert_eq!(e.progress(), Some((1, 1)));
}

#[test]
fn percent_half() {
    let e = sample_entry(Some(200), 100);
    assert_eq!(percent(&e), Some(50.0));
    assert_eq!(e.progress(), Some((100, 200)));
}

#[test]
fn terminal_statuses() {
    assert!(!TransferStatus::Queued.is_terminal());
    assert!(!TransferStatus::Active.is_terminal());
    assert!(TransferStatus::Done.is_terminal());
    assert!(TransferStatus::Failed("x".into()).is_terminal());
    assert!(TransferStatus::Cancelled.is_terminal());
}

#[test]
fn active_status() {
    assert!(TransferStatus::Active.is_active());
    assert!(!TransferStatus::Queued.is_active());
}
