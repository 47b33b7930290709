use miel_ftp::app::{enqueue_upload, execute_prompt, fill_transfer_slots, handle_file_selection, on_transfer_finished, PromptAction};
use miel_ftp::error::{AppError, AppErrorMsg};
use miel_ftp::models::connection::{Connection, ConnectionStatus, FtpMode, FtpSecurity};
use miel_ftp::models::ftp_entry::FtpEntry;
use miel_ftp::models::ftp_task::FtpTaskResult;
use miel_ftp::models::panel::PanelKind;
use miel_ftp::models::prompt::PromptDialog;
use miel_ftp::models::remote_edit::RemoteEdit;
use miel_ftp::models::settings::AppSettings;
use miel_ftp::models::state::State;
use miel_ftp::models::toast::ToastKind;
use miel_ftp::models::transfer::{cancel_transfer, clear_completed, record_progress, CancelEffect, TransferStatus};
use miel_ftp::update::{
    apply_plain_message, connection_saved, dismiss_toast, drop_target, edit_connection_form, enqueue_dropped,
    on_connect_result, open_prompt, quickconnect_connect, remote_edit_uploaded, requeue_remote_edit,
    save_connection_form, select_connection, set_prompt_value, take_prompt, DroppedFile, FormEdit, FormSave,
    PlainMessage, PromptKind,
};
use miel_ftp::update::{go_up_local, go_up_remote, open_local_entry, open_remote_entry, request_remote_listing};
use miel_ftp::app::{handle_keypress, open_context_menu, select_all, Key, KeyAction};
use miel_ftp::app::{add_custom_hidden, remove_custom_hidden, set_bandwidth_draft, toggle_settings_modal};
use miel_ftp::models::settings::Bandwidth;
use miel_ftp::models::ftp_log::{FtpLog, MAX_LINES};
use miel_ftp::app::retry_transfer;

fn conn(id: u128) -> Connection {
    Connection::try_new(Some(id), "site".into(), "ftp.example.com".into(), 21, "user".into(), "pw".into(), FtpMode::Passive, FtpSecurity::Plain, false)
        .unwrap()
}

fn state_with(id: u128) -> State {
    State::initial(vec![conn(id)], AppSettings::default(), "/home/me".into())
}

fn file(name: &str) -> FtpEntry {
    FtpEntry { name: name.into(), is_dir: false, size: Some(1), modified: None }
}

#[test]
fn selecting_a_connection_starts_connecting() {
    let mut s = state_with(3);
    let (c, prev) = select_connection(&mut s, 3).expect("connection exists");
    assert_eq!(c.id, 3);
    assert_eq!(prev, None);
    assert_eq!(s.selected_connection, Some(3));
    assert_eq!(s.remote_status, ConnectionStatus::Connecting);
    assert!(s.remote_loading);
    assert!(select_connection(&mut s, 99).is_none());
    assert!(!s.remote_loading);
    assert_eq!(s.selected_connection, Some(99));
}

#[test]
fn one_slot_runs_one_transfer_at_a_time() {
    let mut s = state_with(3);
    enqueue_upload(&mut s, 3, "a.txt".into(), Some(5));
    enqueue_upload(&mut s, 3, "b.txt".into(), None);
    enqueue_upload(&mut s, 77, "c.txt".into(), None);
    assert_eq!(s.transfers[0].local_path, "/home/me/a.txt");
    let started = fill_transfer_slots(&mut s, 1);
    assert_eq!(started.len(), 1);
    assert_eq!(started[0].0.filename, "a.txt");
    assert_eq!(s.transfers[0].status, TransferStatus::Active);
    assert_eq!(s.transfers[1].status, TransferStatus::Queued);
    assert!(fill_transfer_slots(&mut s, 1).is_empty());
    let id = s.transfers[0].id;
    record_progress(&mut s.transfers, id, 3, Some(100));
    assert_eq!(s.transfers[0].transferred_bytes, 3);
    assert_eq!(s.transfers[0].total_bytes, Some(5));
    assert_eq!(s.transfers[0].status, TransferStatus::Active);
    let follow = on_transfer_finished(&mut s, id, Ok(()));
    assert!(follow.succeeded);
    assert_eq!(s.transfers[0].status, TransferStatus::Done);
    assert_eq!(s.toasts.last().unwrap().message, "Transferencia completada");
    let next = fill_transfer_slots(&mut s, 1);
    assert_eq!(next.len(), 1);
    assert_eq!(next[0].0.filename, "b.txt");
    let last = fill_transfer_slots(&mut s, 2);
    assert!(last.is_empty());
    assert_eq!(s.transfers[2].status, TransferStatus::Failed("Conexión no encontrada".into()));
}

#[test]
fn cancelling_and_clearing() {
    let mut s = state_with(3);
    enqueue_upload(&mut s, 3, "a".into(), None);
    enqueue_upload(&mut s, 3, "b".into(), None);
    fill_transfer_slots(&mut s, 1);
    let (a, b) = (s.transfers[0].id, s.transfers[1].id);
    assert_eq!(cancel_transfer(&mut s.transfers, a), CancelEffect::StopRunning);
    assert_eq!(cancel_transfer(&mut s.transfers, b), CancelEffect::Dequeued);
    assert_eq!(s.transfers[1].status, TransferStatus::Cancelled);
    assert_eq!(cancel_transfer(&mut s.transfers, b), CancelEffect::Unchanged);
    assert!(fill_transfer_slots(&mut s, 5).is_empty());
    on_transfer_finished(&mut s, a, Err(AppErrorMsg(AppError::Cancelled)));
    assert_eq!(s.transfers[0].status, TransferStatus::Cancelled);
    assert_eq!(s.toasts.last().unwrap().message, "Transferencia cancelada");
    clear_completed(&mut s.transfers);
    assert!(s.transfers.is_empty());
}

#[test]
fn prompts_open_and_submit() {
    let mut s = state_with(3);
    s.local_entries = vec![file("a.txt"), file("b.txt")];
    open_prompt(&mut s, PanelKind::Local, PromptKind::Rename);
    assert!(s.prompt.is_none());
    handle_file_selection(&mut s, PanelKind::Local, "a.txt".into(), false, false);
    open_prompt(&mut s, PanelKind::Local, PromptKind::Rename);
    set_prompt_value(&mut s, " c.txt ".into());
    let p = take_prompt(&mut s).expect("prompt open");
    assert!(s.prompt.is_none());
    match execute_prompt(&mut s, p) {
        PromptAction::LocalRename { path, old, new } => {
            assert_eq!(path, "/home/me");
            assert_eq!(old, "a.txt");
            assert_eq!(new, "c.txt");
        },
        _ => panic!("expected a local rename"),
    }
    open_prompt(&mut s, PanelKind::Local, PromptKind::Mkdir);
    set_prompt_value(&mut s, "a/b".into());
    let p = take_prompt(&mut s).unwrap();
    assert!(matches!(execute_prompt(&mut s, p), PromptAction::Nothing));
    assert_eq!(s.status_message.as_deref(), Some("el nombre no puede contener / o \\"));
    let del = PromptDialog::confirm_delete(PanelKind::Local, vec!["b.txt".into(), "missing".into()]);
    match execute_prompt(&mut s, del) {
        PromptAction::LocalRemove { entries, .. } => assert_eq!(entries, vec![("b.txt".to_string(), false)]),
        _ => panic!("expected a local removal"),
    }
}

#[test]
fn site_manager_rejects_bad_ports_and_saves_good_forms() {
    let mut s = state_with(3);
    assert!(matches!(save_connection_form(&mut s), FormSave::NoForm));
    apply_plain_message(&mut s, PlainMessage::AddConnectionPressed);
    edit_connection_form(&mut s, FormEdit::Name("New".into()));
    edit_connection_form(&mut s, FormEdit::Host("h2".into()));
    edit_connection_form(&mut s, FormEdit::Username("me".into()));
    edit_connection_form(&mut s, FormEdit::Port("99999".into()));
    assert!(matches!(save_connection_form(&mut s), FormSave::Rejected));
    assert_eq!(s.connection_form.as_ref().unwrap().error.as_deref(), Some("puerto inválido"));
    edit_connection_form(&mut s, FormEdit::Port(" 2121 ".into()));
    assert!(s.connection_form.as_ref().unwrap().error.is_none());
    assert!(matches!(save_connection_form(&mut s), FormSave::Store { replaced: None }));
    assert_eq!(s.connections.len(), 2);
    assert_eq!(s.connections[1].port, 2121);
    connection_saved(&mut s, Err("disco lleno".into()));
    assert_eq!(s.connection_form.as_ref().unwrap().error.as_deref(), Some("disco lleno"));
    connection_saved(&mut s, Ok(()));
    assert!(s.connection_form.is_none());
    assert_eq!(s.toasts.last().unwrap().message, "Conexión guardada");
}

#[test]
fn quickconnect_adds_and_selects() {
    let mut s = state_with(3);
    s.quickconnect.host = " example.org ".into();
    s.quickconnect.username = "anon".into();
    s.quickconnect.port = "x".into();
    assert!(quickconnect_connect(&mut s).is_none());
    assert_eq!(s.quickconnect.error.as_deref(), Some("puerto inválido"));
    s.quickconnect.port = "21".into();
    let c = quickconnect_connect(&mut s).expect("valid bar");
    assert_eq!(c.name, "example.org:21");
    assert_eq!(s.selected_connection, Some(c.id));
    assert_eq!(s.remote_status, ConnectionStatus::Connecting);
    assert!(s.quickconnect.error.is_none());
}

#[test]
fn failed_connection_is_reported() {
    let mut s = state_with(3);
    let outcome = FtpTaskResult { result: Err(AppErrorMsg(AppError::Timeout(15))), log: vec!["> CONNECT h:21".to_string()] };
    assert!(on_connect_result(&mut s, outcome).is_none());
    assert_eq!(s.ftp_log.lines().len(), 1);
    assert!(matches!(s.remote_status, ConnectionStatus::Error(_)));
    assert_eq!(s.toasts.last().unwrap().kind, ToastKind::Error);
    let id = s.toasts[0].id;
    dismiss_toast(&mut s, id);
    assert!(s.toasts.is_empty());
}

#[test]
fn dropped_files_need_a_connected_server() {
    let mut s = state_with(3);
    s.drop_hover = true;
    assert_eq!(drop_target(&mut s), None);
    assert!(!s.drop_hover);
    assert_eq!(s.status_message.as_deref(), Some("Conéctate antes de soltar archivos"));
    s.selected_connection = Some(3);
    s.remote_status = ConnectionStatus::Connected;
    assert_eq!(drop_target(&mut s), Some(3));
    assert!(!enqueue_dropped(&mut s, 3, Ok(vec![]), true));
    assert_eq!(s.status_message.as_deref(), Some("Solo se suben archivos sueltos; las carpetas anidadas se ignoran"));
    assert!(!enqueue_dropped(&mut s, 3, Err("permiso denegado".into()), false));
    assert_eq!(s.status_message.as_deref(), Some("permiso denegado"));
    let files = vec![DroppedFile { filename: "x.bin".into(), local_path: "/tmp/x.bin".into(), size: Some(9) }];
    assert!(enqueue_dropped(&mut s, 3, Ok(files), false));
    assert_eq!(s.transfers.len(), 1);
    assert_eq!(s.transfers[0].local_path, "/tmp/x.bin");
    assert_eq!(s.transfers[0].remote_path, "/");
}

#[test]
fn remote_edits_upload_back() {
    let mut s = state_with(3);
    s.pending_remote_edits.push(RemoteEdit { temp_path: "/tmp/a.txt".into(), remote_dir: "/www".into(), filename: "a.txt".into(), connection_id: 3 });
    assert!(!requeue_remote_edit(&mut s, "/tmp/b.txt", None));
    assert!(requeue_remote_edit(&mut s, "/tmp/a.txt", Some(12)));
    let t = &s.transfers[0];
    assert_eq!(t.remote_path, "/www");
    assert_eq!(t.local_path, "/tmp/a.txt");
    assert_eq!(t.total_bytes, Some(12));
    remote_edit_uploaded(&mut s, "/tmp/a.txt");
    assert!(s.pending_remote_edits.is_empty());
    assert_eq!(s.toasts.last().unwrap().message, "Edición remota subida");
}

#[test]
fn navigation_requests() {
    let mut s = state_with(3);
    s.local_path = "/home/me/docs".into();
    assert_eq!(go_up_local(&mut s), "/home/me");
    assert!(s.local_loading);
    s.local_path = "/".into();
    assert_eq!(go_up_local(&mut s), "/");
    let folder = FtpEntry { name: "pics".into(), is_dir: true, size: None, modified: None };
    assert_eq!(open_local_entry(&mut s, &folder).as_deref(), Some("/pics"));
    assert!(open_local_entry(&mut s, &file("a")).is_none());
    assert!(go_up_remote(&mut s).is_none());
    assert!(open_remote_entry(&mut s, &folder).is_none());
    s.selected_connection = Some(3);
    s.remote_path = "/pub/".into();
    let (c, path) = open_remote_entry(&mut s, &folder).unwrap();
    assert_eq!((c.id, path.as_str()), (3, "/pub/pics"));
    s.remote_path = "/pub/files".into();
    let (_, up, id) = go_up_remote(&mut s).unwrap();
    assert_eq!((up.as_str(), id), ("/pub", 3));
    s.remote_path = "/".into();
    assert_eq!(go_up_remote(&mut s).unwrap().1, "/");
    assert_eq!(request_remote_listing(&mut s, true).map(|(c, id)| (c.id, id)), Some((3, 3)));
}

#[test]
fn keys_and_selection() {
    let mut s = state_with(3);
    s.local_entries = vec![file("a"), file("b"), FtpEntry { name: "d".into(), is_dir: true, size: None, modified: None }];
    handle_file_selection(&mut s, PanelKind::Local, "a".into(), false, false);
    handle_file_selection(&mut s, PanelKind::Local, "d".into(), true, false);
    assert_eq!(s.selected_local.len(), 2);
    handle_file_selection(&mut s, PanelKind::Local, "b".into(), false, true);
    assert_eq!(s.selected_local.len(), 3);
    handle_file_selection(&mut s, PanelKind::Local, "b".into(), false, true);
    assert_eq!(s.selected_local.len(), 2);
    assert!(matches!(handle_keypress(&mut s, Key::Escape, false), KeyAction::ClearSelection(PanelKind::Local)));
    s.clear_selection(PanelKind::Local);
    assert!(s.selected_local.is_empty());
    assert!(matches!(handle_keypress(&mut s, Key::Character("a".into()), true), KeyAction::SelectAll(PanelKind::Local)));
    select_all(&mut s, PanelKind::Local);
    assert_eq!(s.selected_local.len(), 3);
    open_context_menu(&mut s, PanelKind::Local, "d".into());
    assert_eq!(s.selected_local, vec!["d".to_string()]);
    assert!(matches!(handle_keypress(&mut s, Key::Enter, false), KeyAction::Nothing));
    assert!(s.context_menu.is_some());
    assert!(matches!(handle_keypress(&mut s, Key::Escape, false), KeyAction::Nothing));
    assert!(s.context_menu.is_none());
    match handle_keypress(&mut s, Key::Enter, false) {
        KeyAction::LoadLocal(p) => assert_eq!(p, "/home/me/d"),
        _ => panic!("expected to enter the directory"),
    }
    assert!(matches!(handle_keypress(&mut s, Key::Delete, false), KeyAction::Nothing));
    assert!(s.prompt.is_none());
}

#[test]
fn hidden_names_preferences() {
    let mut s = state_with(3);
    assert!(!add_custom_hidden(&mut s, "   "));
    assert!(add_custom_hidden(&mut s, " tmp ", ));
    assert!(!add_custom_hidden(&mut s, "tmp"));
    assert_eq!(s.settings.custom_hidden, vec!["tmp".to_string()]);
    remove_custom_hidden(&mut s, "tmp");
    assert!(s.settings.custom_hidden.is_empty());
    assert!(set_bandwidth_draft(&mut s, "256".into()));
    assert_eq!(s.settings.bandwidth, Bandwidth::KBps(256));
    assert!(!set_bandwidth_draft(&mut s, "fast".into()));
    assert_eq!(s.settings.bandwidth, Bandwidth::KBps(256));
    assert_eq!(s.settings_bandwidth_draft, "fast");
    toggle_settings_modal(&mut s);
    assert!(s.settings_modal_open);
    assert_eq!(s.settings_bandwidth_draft, "256");
    toggle_settings_modal(&mut s);
    assert!(s.settings_bandwidth_draft.is_empty());
}

#[test]
fn toasts_are_bounded_and_expire_later() {
    let mut s = state_with(3);
    for i in 0..8 {
        s.push_toast(format!("t{i}"), ToastKind::Info);
    }
    assert_eq!(s.toasts.len(), 5);
    assert_eq!(s.toasts[0].message, "t3");
    assert!(!s.toasts[0].is_expired());
    s.expire_toasts();
    assert_eq!(s.toasts.len(), 5);
}

#[test]
fn the_command_log_keeps_the_newest_lines() {
    let mut log = FtpLog::default();
    assert!(!log.is_visible());
    for i in 0..(MAX_LINES + 3) {
        log.push(format!("> {i}"));
    }
    assert_eq!(log.lines().len(), MAX_LINES);
    assert_eq!(log.lines()[0], "> 3");
    log.toggle_visible();
    assert!(log.is_visible());
    log.clear();
    assert!(log.lines().is_empty());
}

#[test]
fn retry_and_resume_add_attempts() {
    let mut s = state_with(3);
    enqueue_upload(&mut s, 3, "big.iso".into(), Some(1000));
    fill_transfer_slots(&mut s, 1);
    let id = s.transfers[0].id;
    assert!(!retry_transfer(&mut s, id, false));
    record_progress(&mut s.transfers, id, 400, None);
    on_transfer_finished(&mut s, id, Err(AppErrorMsg(AppError::Timeout(60))));
    assert_eq!(s.transfers[0].status, TransferStatus::Failed("Operation timed out after 60s".into()));
    assert!(retry_transfer(&mut s, id, true));
    assert_eq!(s.transfers.len(), 2);
    let again = &s.transfers[1];
    assert_ne!(again.id, id);
    assert_eq!(again.status, TransferStatus::Queued);
    assert_eq!((again.resume_from, again.transferred_bytes), (400, 400));
    assert_eq!(again.filename, "big.iso");
    assert!(retry_transfer(&mut s, id, false));
    assert_eq!((s.transfers[2].resume_from, s.transfers[2].transferred_bytes), (0, 0));
}
