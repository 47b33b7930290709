use miel_ftp::error::AppError;
use miel_ftp::ftp::client::cmd;
use miel_ftp::ftp::stream::{
    after_read, command_text, download_commands, error_line, transfer_epilogue, upload_commands, TransferCommand,
};
use miel_ftp::ftp::throttle::throttle_nanos;

#[test]
fn throttling_waits_in_proportion() {
    assert_eq!(throttle_nanos(1_048_576, None), 0);
    assert_eq!(throttle_nanos(1_048_576, Some(0)), 0);
    assert_eq!(throttle_nanos(65_536, Some(64)), 1_000_000_000);
    assert_eq!(throttle_nanos(512, Some(1)), 500_000_000);
    assert_eq!(throttle_nanos(u64::MAX, Some(1)), u64::MAX / 1024);
}

#[test]
fn chunks_add_up() {
    assert_eq!(after_read(0, 10, Some(1)), None);
    assert_eq!(after_read(1024, 10, None), Some((1034, 0)));
    assert_eq!(after_read(1024, 0, Some(1)), Some((1024, 1_000_000_000)));
}

#[test]
fn log_lines_of_failures() {
    assert_eq!(cmd("LIST"), "> LIST");
    assert_eq!(error_line("LIST", &AppError::Timeout(60)), "< LIST ERROR: Operation timed out after 60s");
    assert_eq!(transfer_epilogue("STOR", false, &Ok(())), (None, false));
    assert_eq!(transfer_epilogue("STOR", true, &Ok(())), (Some("> CANCELLED".to_string()), true));
    assert_eq!(transfer_epilogue("RETR", false, &Err(AppError::Cancelled)), (Some("> CANCELLED".to_string()), true));
    assert_eq!(
        transfer_epilogue("RETR", false, &Err(AppError::NoConnection)),
        (Some("< RETR ERROR: No connection selected".to_string()), false)
    );
}

#[test]
fn transfer_command_plans() {
    let up = upload_commands("/pub", "a.txt", 0);
    assert_eq!(up, vec![TransferCommand::Cwd("/pub".into()), TransferCommand::Stor("a.txt".into())]);
    let resumed = upload_commands("/pub", "a.txt", 512);
    let texts: Vec<String> = resumed.iter().map(command_text).collect();
    assert_eq!(texts, vec!["CWD /pub", "REST 512", "APPE a.txt"]);
    let down = download_commands("/pub", "b.bin", 0);
    assert_eq!(down, vec![TransferCommand::Cwd("/pub".into()), TransferCommand::Retr("b.bin".into())]);
    let texts: Vec<String> = download_commands("/pub", "b.bin", 7).iter().map(command_text).collect();
    assert_eq!(texts, vec!["CWD /pub", "REST 7", "RETR b.bin"]);
}
