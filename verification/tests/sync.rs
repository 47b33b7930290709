use miel_ftp::app::{analyze_sync, apply_sync_actions, listing_time_of};
use miel_ftp::error::AppError;
use miel_ftp::ftp::sftp::{entry_timestamp, parse_modified};
use miel_ftp::models::connection::{Connection, FtpMode, FtpSecurity};
use miel_ftp::models::ftp_entry::FtpEntry;
use miel_ftp::models::settings::AppSettings;
use miel_ftp::models::state::State;
use miel_ftp::models::sync::{plan_sync, SyncAction, SyncDiff, SyncEntry};
use miel_ftp::models::transfer::{TransferKind, TransferStatus};

fn file(name: &str, size: u64, modified: Option<&str>) -> FtpEntry {
    FtpEntry { name: name.into(), is_dir: false, size: Some(size), modified: modified.map(|m| m.to_string()) }
}

fn dir(name: &str) -> FtpEntry {
    FtpEntry { name: name.into(), is_dir: true, size: None, modified: None }
}

#[test]
fn stamps_read_as_utc_minutes() {
    let e = file("a", 1, Some("2024-04-10 12:00"));
    assert_eq!(entry_timestamp(&e), Some(1_712_750_400));
    assert_eq!(parse_modified(&e), Some(1_712_750_400u128 * 1_000_000_000));
    assert_eq!(entry_timestamp(&file("a", 1, Some("yesterday"))), None);
    assert_eq!(entry_timestamp(&file("a", 1, None)), None);
    assert_eq!(listing_time_of(&file("a", 1, Some("1969-12-31 23:59"))), None);
    assert_eq!(listing_time_of(&file("a", 1, Some("1970-01-01 00:01"))), Some(60_000_000_000));
}

#[test]
fn plan_lists_each_file_name_once_in_order() {
    let local = vec![file("b.txt", 1, None), dir("docs"), file("a.txt", 1, None), file("b.txt", 2, None)];
    let remote = vec![file("c.txt", 1, None), file("a.txt", 1, None), dir("b.txt")];
    let plan = plan_sync(&local, &remote, &[None, None, Some(5), None], &[None, Some(9), None]);
    let names: Vec<&str> = plan.iter().map(|e| e.name.as_str()).collect();
    assert_eq!(names, vec!["a.txt", "b.txt", "c.txt"]);
    assert_eq!(plan[0].diff, SyncDiff::Both { local_newer: false });
    assert_eq!(plan[0].action, SyncAction::DownloadToLocal);
    assert_eq!(plan[1].diff, SyncDiff::OnlyLocal);
    assert_eq!(plan[1].action, SyncAction::UploadToRemote);
    assert_eq!(plan[2].diff, SyncDiff::OnlyRemote);
    assert_eq!(plan[2].action, SyncAction::DownloadToLocal);
}

#[test]
fn unknown_times_favour_the_local_copy() {
    let plan = plan_sync(&[file("x", 1, None)], &[file("x", 1, None)], &[None], &[Some(1)]);
    assert_eq!(plan[0].diff, SyncDiff::Both { local_newer: true });
    assert_eq!(plan[0].action, SyncAction::UploadToRemote);
}

#[test]
fn analysis_reads_times_from_disk_then_listing() {
    let local = vec![file("x", 1, Some("2024-01-01 00:00")), file("y", 1, Some("2024-01-01 00:00"))];
    let remote = vec![file("x", 1, Some("2023-01-01 00:00")), file("y", 1, Some("2023-01-01 00:00"))];
    let plan = analyze_sync(&local, &[None, Some(1)], Ok(("/".into(), remote)));
    assert_eq!(plan[0].action, SyncAction::UploadToRemote);
    assert_eq!(plan[1].action, SyncAction::DownloadToLocal);
    let failed = analyze_sync(&local, &[None, None], Err(AppError::NoConnection));
    assert_eq!(failed.len(), 2);
    assert!(failed.iter().all(|e| e.diff == SyncDiff::OnlyLocal));
}

#[test]
fn applying_a_plan_queues_and_lists_deletions() {
    let conn = Connection::try_new(Some(5), "s".into(), "h".into(), 21, "u".into(), String::new(), FtpMode::Passive, FtpSecurity::Plain, false).unwrap();
    let mut state = State::initial(vec![conn], AppSettings::default(), "/home/me".into());
    state.remote_path = "/pub".into();
    state.remote_entries = vec![file("down.bin", 300, None)];
    let entries = vec![
        SyncEntry { name: "up.txt".into(), diff: SyncDiff::OnlyLocal, action: SyncAction::UploadToRemote },
        SyncEntry { name: "gone.txt".into(), diff: SyncDiff::OnlyLocal, action: SyncAction::DeleteLocal },
        SyncEntry { name: "skip.txt".into(), diff: SyncDiff::OnlyLocal, action: SyncAction::Skip },
        SyncEntry { name: "down.bin".into(), diff: SyncDiff::OnlyRemote, action: SyncAction::DownloadToLocal },
        SyncEntry { name: "r.txt".into(), diff: SyncDiff::OnlyRemote, action: SyncAction::DeleteRemote },
    ];
    let none = apply_sync_actions(&mut state, &entries, &[Some(11), None, None, None, None]);
    assert!(none.is_empty());
    assert!(state.transfers.is_empty());

    state.selected_connection = Some(5);
    let deletions = apply_sync_actions(&mut state, &entries, &[Some(11), None, None, None, None]);
    assert_eq!(deletions, vec!["gone.txt".to_string()]);
    assert_eq!(state.transfers.len(), 2);
    let up = &state.transfers[0];
    assert_eq!(up.kind, TransferKind::Upload);
    assert_eq!(up.filename, "up.txt");
    assert_eq!(up.local_path, "/home/me/up.txt");
    assert_eq!(up.remote_path, "/pub");
    assert_eq!(up.total_bytes, Some(11));
    assert_eq!(up.status, TransferStatus::Queued);
    let down = &state.transfers[1];
    assert_eq!(down.kind, TransferKind::Download);
    assert_eq!(down.total_bytes, Some(300));
    assert_eq!(down.local_path, "/home/me/down.bin");
    assert_ne!(up.id, down.id);
}
