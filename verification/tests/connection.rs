use miel_ftp::error::AppError;
use miel_ftp::models::connection::{Connection, FtpMode, FtpSecurity};

#[test]
fn connection_try_new_validates_empty_host() {
    let result = Connection::try_new(
        None,
        "Site".into(),
        "  ".into(),
        21,
        "user".into(),
        "pass".to_string(),
        FtpMode::Passive,
        FtpSecurity::Plain,
        false,
    );
    assert!(matches!(result, Err(AppError::Validation(_))));
}

#[test]
fn try_new_preserves_mode() {
    let conn = Connection::try_new(
        None,
        "Site".into(),
        "host".into(),
        21,
        "user".into(),
        "pass".to_string(),
        FtpMode::Active,
        FtpSecurity::Explicit,
        true,
    )
    .unwrap();
    assert_eq!(conn.mode, FtpMode::Active);
    assert_eq!(conn.security, FtpSecurity::Explicit);
    assert!(conn.accept_invalid_certs);
}

#[test]
fn try_new_trims_and_reports_each_check() {
    let conn = Connection::try_new(
        Some(7),
        "  Site ".into(),
        " ftp.example.com ".into(),
        2121,
        " me ".into(),
        "secret".to_string(),
        FtpMode::Passive,
        FtpSecurity::Plain,
        false,
    )
    .unwrap();
    assert_eq!(conn.id, 7);
    assert_eq!(conn.name, "Site");
    assert_eq!(conn.host, "ftp.example.com");
    assert_eq!(conn.username, "me");
    assert_eq!(conn.password(), "secret");
    let err = |name: &str, host: &str, port: u16, user: &str| {
        match Connection::try_new(None, name.into(), host.into(), port, user.into(), String::new(), FtpMode::Passive, FtpSecurity::Plain, false) {
            Err(AppError::Validation(m)) => m,
            _ => panic!("expected a validation error"),
        }
    };
    assert_eq!(err(" ", "h", 21, "u"), "el nombre no puede estar vacío");
    assert_eq!(err("n", "", 21, "u"), "el host no puede estar vacío");
    assert_eq!(err("n", "h", 0, "u"), "el puerto debe ser mayor que 0");
    assert_eq!(err("n", "h", 21, "\t"), "el usuario no puede estar vacío");
}

#[test]
fn record_round_trip_keeps_the_connection() {
    let conn = Connection::try_new(
        Some(42),
        "Secure".into(),
        "ftp.example.com".into(),
        21,
        "user".into(),
        "pw".to_string(),
        FtpMode::Passive,
        FtpSecurity::Explicit,
        true,
    )
    .unwrap();
    let record = conn.to_record();
    assert_eq!(record.id, 42);
    assert_eq!(record.host, "ftp.example.com");
    let back = Connection::from_record(record, conn.password().to_string());
    assert_eq!(back.id, conn.id);
    assert_eq!(back.name, conn.name);
    assert_eq!(back.host, conn.host);
    assert_eq!(back.port, conn.port);
    assert_eq!(back.username, conn.username);
    assert_eq!(back.mode, conn.mode);
    assert_eq!(back.security, conn.security);
    assert_eq!(back.accept_invalid_certs, conn.accept_invalid_certs);
    assert_eq!(back.password(), "pw");
}

#[test]
fn fresh_connections_get_identifiers() {
    let make = || {
        Connection::try_new(None, "n".into(), "h".into(), 21, "u".into(), String::new(), FtpMode::Passive, FtpSecurity::Plain, false)
            .unwrap()
    };
    let a = make();
    let b = make();
    assert_ne!(a.id, 0);
    assert_ne!(a.id, b.id);
}
