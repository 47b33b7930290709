use miel_ftp::error::{AppError, IoErrorKind};
use miel_ftp::ftp::config::retry_delay;
use miel_ftp::ftp::retry::{is_retryable, retry_after};

#[test]
fn validation_errors_are_not_retryable() {
    assert!(!is_retryable(&AppError::Validation("x".into())));
}

#[test]
fn timeout_errors_are_retryable() {
    assert!(is_retryable(&AppError::Timeout(30)));
}

#[test]
fn cancelled_errors_are_not_retryable() {
    assert!(!is_retryable(&AppError::Cancelled));
}

#[test]
fn ftp_messages_are_read_case_insensitively() {
    assert!(is_retryable(&AppError::Ftp("CONNECTION LOST".into())));
    assert!(is_retryable(&AppError::Ftp("Broken Pipe".into())));
    assert!(is_retryable(&AppError::Ftp("read TIMEOUT".into())));
    assert!(!is_retryable(&AppError::Ftp("550 Permission denied".into())));
    assert!(is_retryable(&AppError::Io(IoErrorKind::ConnectionReset, "x".into())));
    assert!(!is_retryable(&AppError::Io(IoErrorKind::Other, "x".into())));
}

#[test]
fn retry_schedule() {
    assert_eq!(retry_delay(0), 400);
    assert_eq!(retry_delay(2), 1200);
    let e = AppError::Timeout(60);
    assert_eq!(retry_after(0, &e), Some(400));
    assert_eq!(retry_after(1, &e), Some(800));
    assert_eq!(retry_after(2, &e), None);
    assert_eq!(retry_after(0, &AppError::NoConnection), None);
}
