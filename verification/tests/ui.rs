use miel_ftp::models::ftp_entry::FtpEntry;
use miel_ftp::models::panel::PanelKind;
use miel_ftp::models::settings::AppSettings;
use miel_ftp::models::sort::{SortKey, SortOrder, SortSpec};
use miel_ftp::models::transfer::{TransferEntry, TransferKind, TransferStatus};
use miel_ftp::ui::{
    build_breadcrumb_segments, local_breadcrumbs, panel_actions, remote_breadcrumbs, sort_header_label,
    status_totals, transfer_status_text, truncate_path, PathPart,
};
use miel_ftp::models::connection::ConnectionStatus;
use miel_ftp::models::connection_form::ConnectionForm;
use miel_ftp::models::prompt::PromptDialog;
use miel_ftp::models::sync::{SyncDiff, SyncState};
use miel_ftp::ui::{connection_badge, connection_form_title, prompt_heading, sync_diff_label, sync_panel_texts, Badge};
use miel_ftp::ui::{context_menu_texts, screen_layout, sidebar_actions, FooterPart, Overlay};
use miel_ftp::models::context_menu::ContextMenu;
use miel_ftp::models::state::State;

fn pairs(v: &[(&str, &str)]) -> Vec<(String, String)> {
    v.iter().map(|(a, b)| (a.to_string(), b.to_string())).collect()
}

#[test]
fn truncation_keeps_the_end() {
    assert_eq!(truncate_path("/home/user", 20), "/home/user");
    assert_eq!(truncate_path("/home/user/projects", 8), "…rojects");
    assert_eq!(truncate_path("/abc", 4), "/abc");
    assert_eq!(truncate_path("/abcd", 1), "…");
    assert_eq!(truncate_path("", 0), "");
    assert_eq!(truncate_path("/home/user/projects", 8).chars().count(), 8);
}

#[test]
fn remote_crumbs_split_at_slashes() {
    assert_eq!(remote_breadcrumbs("/"), pairs(&[("/", "/")]));
    assert_eq!(remote_breadcrumbs(""), pairs(&[("/", "/")]));
    assert_eq!(
        remote_breadcrumbs("/pub/files/"),
        pairs(&[("/", "/"), ("pub", "/pub"), ("files", "/pub/files")])
    );
    assert_eq!(remote_breadcrumbs("a/b"), pairs(&[("/", "/"), ("a", "/a"), ("b", "/a/b")]));
    assert_eq!(
        remote_breadcrumbs("//x//y"),
        pairs(&[("/", "/"), ("x", "/x"), ("", "/x/"), ("y", "/x//y")])
    );
    assert_eq!(build_breadcrumb_segments(PanelKind::Remote, "/srv"), pairs(&[("/", "/"), ("srv", "/srv")]));
}

#[test]
fn local_crumbs_follow_path_components() {
    assert_eq!(
        build_breadcrumb_segments(PanelKind::Local, "/home/user"),
        pairs(&[("/", "/"), ("home", "/home"), ("user", "/home/user")])
    );
    assert_eq!(build_breadcrumb_segments(PanelKind::Local, ""), pairs(&[("", "")]));
    assert_eq!(build_breadcrumb_segments(PanelKind::Local, "a/./b/"), pairs(&[("a", "a"), ("b", "a/b")]));
    assert_eq!(build_breadcrumb_segments(PanelKind::Local, ".."), pairs(&[("..", "..")]));
    let parts = vec![
        PathPart::Root("/".into()),
        PathPart::Normal("tmp".into()),
        PathPart::Parent,
        PathPart::Normal("x".into()),
    ];
    assert_eq!(
        local_breadcrumbs(&parts, "/tmp/../x"),
        pairs(&[("/", "/"), ("tmp", "/tmp"), ("x", "/tmp/../x")])
    );
}

#[test]
fn header_labels_and_panel_buttons() {
    let s = SortSpec { key: SortKey::Size, order: SortOrder::Desc };
    assert_eq!(sort_header_label("Tamaño", SortKey::Size, s), "Tamaño ▾");
    assert_eq!(sort_header_label("Nombre", SortKey::Name, s), "Nombre");
    assert_eq!(sort_header_label("Nombre", SortKey::Name, SortSpec::default()), "Nombre ▴");
    assert_eq!(panel_actions(PanelKind::Local, false, 0), (true, false, false));
    assert_eq!(panel_actions(PanelKind::Local, false, 1), (true, true, true));
    assert_eq!(panel_actions(PanelKind::Remote, false, 1), (false, false, false));
    assert_eq!(panel_actions(PanelKind::Remote, true, 2), (true, false, true));
}

#[test]
fn status_words_and_totals() {
    let mut t = TransferEntry::queued(1, 2, TransferKind::Upload, "f".into(), "/l/f".into(), "/".into(), None);
    assert_eq!(transfer_status_text(&t), "en cola");
    t.status = TransferStatus::Failed("550 denied".into());
    assert_eq!(transfer_status_text(&t), "fallida: 550 denied");
    t.status = TransferStatus::Done;
    assert_eq!(transfer_status_text(&t), "completada");

    let e = |n: &str, d: bool, s: Option<u64>| FtpEntry { name: n.into(), is_dir: d, size: s, modified: None };
    let entries = vec![e("a", false, Some(10)), e("dir", true, Some(4096)), e(".DS_Store", false, Some(7)), e("b", false, None), e("c", false, Some(5))];
    assert_eq!(status_totals(&entries, SortSpec::default(), "", &AppSettings::default()), (4, 15));
    assert_eq!(status_totals(&entries, SortSpec::default(), "A", &AppSettings::default()), (1, 10));
}

#[test]
fn status_figures_report_overflow() {
    let e = |n: &str, s: u64| FtpEntry { name: n.into(), is_dir: false, size: Some(s), modified: None };
    let big = vec![e("a", u64::MAX), e("b", 1)];
    assert_eq!(miel_ftp::ui::status_figures(&big, SortSpec::default(), "", &AppSettings::default()), None);
    let fits = vec![e("a", u64::MAX - 1), e("b", 1)];
    assert_eq!(miel_ftp::ui::status_figures(&fits, SortSpec::default(), "", &AppSettings::default()), Some((2, u64::MAX)));
}

#[test]
fn dialog_and_panel_texts() {

    let (t, l, input) = prompt_heading(&PromptDialog::mkdir(PanelKind::Local));
    assert_eq!((t, l.as_str(), input), ("Nueva carpeta", "Nombre de la carpeta", true));
    let (t, l, input) = prompt_heading(&PromptDialog::rename(PanelKind::Remote, "a.txt".into()));
    assert_eq!((t, l.as_str(), input), ("Renombrar", "Renombrar «a.txt»", true));
    let (_, l, input) = prompt_heading(&PromptDialog::confirm_delete(PanelKind::Local, vec!["x".into()]));
    assert_eq!((l.as_str(), input), ("¿Eliminar «x»?", false));
    let (t, l, _) = prompt_heading(&PromptDialog::confirm_delete(PanelKind::Local, vec!["x".into(), "y".into(), "z".into()]));
    assert_eq!((t, l.as_str()), ("Confirmar eliminación", "¿Eliminar 3 elementos?"));

    assert_eq!(sync_diff_label(SyncDiff::Both { local_newer: false }), "ambos (remoto más nuevo)");
    assert_eq!(sync_diff_label(SyncDiff::OnlyLocal), "solo local");
    let analyzing = SyncState { entries: vec![], analyzing: true };
    assert_eq!(sync_panel_texts(&analyzing), ("Comparando directorios…", Some("Analizando diferencias local ↔ remoto…")));
    let empty = SyncState::default();
    assert_eq!(sync_panel_texts(&empty).1, Some("No hay diferencias entre los directorios actuales."));

    let mut form = ConnectionForm::new();
    assert_eq!(connection_form_title(&form), "Nueva conexión");
    form.editing_id = Some(1);
    assert_eq!(connection_form_title(&form), "Editar conexión");

    assert_eq!(connection_badge(false, &ConnectionStatus::Connected), Badge::Idle);
    assert_eq!(connection_badge(true, &ConnectionStatus::Connected), Badge::Connected);
    assert_eq!(connection_badge(true, &ConnectionStatus::Error("x".into())), Badge::Failed);
}


#[test]
fn window_layout_follows_the_state() {
    let mut s = State::initial(vec![], AppSettings::default(), "/".into());
    let l = screen_layout(&s);
    assert_eq!(l.banner, None);
    assert_eq!(l.footer, vec![FooterPart::StatusBar, FooterPart::TransferBar]);
    assert_eq!(l.overlays, vec![Overlay::Toasts]);
    s.queue_panel_visible = true;
    s.ftp_log.toggle_visible();
    s.settings_modal_open = true;
    s.prompt = Some(PromptDialog::mkdir(PanelKind::Local));
    s.status_message = Some("hola".into());
    let l = screen_layout(&s);
    assert_eq!(l.banner.as_deref(), Some("hola"));
    assert_eq!(l.footer, vec![FooterPart::TransferQueue, FooterPart::FtpLog, FooterPart::StatusBar, FooterPart::TransferBar]);
    assert_eq!(l.overlays, vec![Overlay::Prompt, Overlay::Settings, Overlay::Toasts]);
    assert_eq!(sidebar_actions(&s), (false, false, None));
    s.remote_status = ConnectionStatus::Connected;
    s.selected_connection = Some(4);
    assert_eq!(sidebar_actions(&s), (false, true, Some(4)));
}


#[test]
fn context_menu_wording() {
    let (title, entries) = context_menu_texts(&ContextMenu { panel: PanelKind::Remote, target: "a.txt".into() });
    assert_eq!(title, "«a.txt»");
    assert_eq!(entries, vec!["Nueva carpeta", "Renombrar", "Eliminar", "Bajar"]);
    let (_, entries) = context_menu_texts(&ContextMenu { panel: PanelKind::Local, target: "b".into() });
    assert_eq!(entries[3], "Subir");
}
