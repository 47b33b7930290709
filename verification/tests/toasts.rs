use miel_ftp::models::settings::AppSettings;
use miel_ftp::models::state::State;
use miel_ftp::models::toast::{expired_after, ToastKind};

#[test]
fn expired_notifications_leave_fresh_ones_stay() {
    let mut s = State::initial(vec![], AppSettings::default(), "/".into());
    s.push_toast("a".into(), ToastKind::Info);
    s.push_toast("b".into(), ToastKind::Error);
    s.push_toast("c".into(), ToastKind::Success);
    s.expire_after(&vec![4, 3, 10]);
    let left: Vec<&str> = s.toasts.iter().map(|t| t.message.as_str()).collect();
    assert_eq!(left, vec!["b"]);
    s.expire_after(&vec![0]);
    assert_eq!(s.toasts.len(), 1);
    assert!(expired_after(4));
    assert!(!expired_after(3));
}

#[test]
fn fresh_notifications_survive_expiry() {
    let mut s = State::initial(vec![], AppSettings::default(), "/".into());
    s.push_toast("hola".into(), ToastKind::Info);
    s.expire_toasts();
    assert_eq!(s.toasts.len(), 1);
}

#[test]
fn start_state_has_empty_quickconnect_on_port_21() {
    let s = State::initial(vec![], AppSettings::default(), "/home/me".into());
    assert_eq!(s.quickconnect.port, "21");
    assert!(s.quickconnect.host.is_empty());
    assert!(s.quickconnect.error.is_none());
    assert!(s.filter_local.is_empty() && s.filter_remote.is_empty());
    assert!(!s.local_loading && !s.remote_loading && !s.queue_panel_visible);
    assert!(s.status_message.is_none() && s.pending_remote_edits.is_empty());
}
