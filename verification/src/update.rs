//! What the interface's messages do to the state. Each function handles
//! one message (or a family of them); where the message leads to outside
//! work (listing a directory, connecting, saving), the function returns what
//! that work needs and the caller carries it out.

use vstd::prelude::*;
use crate::app::{
    apply_ftp_log, copy_names, current_connection, join_local_path, join_local_spec, join_remote_path,
    join_remote_path_spec, logged,
};
use crate::error::{AppErrorMsg, error_message, validation_text};
use crate::ids::new_id;
use crate::models::connection::{Connection, ConnectionStatus, FtpMode, FtpSecurity, Protocol, connection_error};
use crate::models::connection_form::{ConnectionForm, form_mode, protocol_security};
use crate::models::ftp_entry::FtpEntry;
use crate::models::ftp_task::FtpTaskResult;
use crate::models::names::clear_names;
use crate::models::panel::PanelKind;
use crate::models::prompt::PromptDialog;
use crate::models::quickconnect::{QuickconnectForm, quick_name, typed_port};
use crate::models::remote_edit::RemoteEdit;
use crate::models::sort::{SortKey, SortOrder, flipped};
use crate::models::state::{State, connection_position, find_connection, pushed_toasts, selection_of};
use crate::models::sync::{SyncAction, SyncEntry, SyncState};
use crate::models::toast::ToastKind;
use crate::models::transfer::{TransferEntry, TransferKind, TransferStatus};
use crate::text::{decimal_digits, str_eq, trim_spec};

verus! {

/// A message that only sets or flips fields of the state.
pub enum PlainMessage {
    AddConnectionPressed,
    ConnectionFormCancel,
    ToggleQuickconnect,
    LocalFilterChanged(String),
    RemoteFilterChanged(String),
    PanelFocused(PanelKind),
    ModifiersChanged { shift: bool, command: bool },
    PromptCancel,
    ContextMenuClosed,
    ToggleTransferQueue,
    FilesHoverEntered,
    FilesHoverLeft,
    SettingsCustomDraftChanged(String),
    SettingsHideSystemToggled(bool),
    SettingsShowDotfilesToggled(bool),
    CloseSyncPanel,
}

/// An empty form for a new FTP connection, as `ConnectionForm::new` makes.
pub open spec fn is_fresh_form(f: ConnectionForm) -> bool {
    &&& f.editing_id is None
    &&& f.name@.len() == 0
    &&& f.host@.len() == 0
    &&& f.port@ == "21"@
    &&& f.username@.len() == 0
    &&& f.password@.len() == 0
    &&& !f.active_mode
    &&& f.protocol == Protocol::Ftp
    &&& !f.accept_invalid_certs
    &&& f.error is None
}

/// Applies a message that only sets or flips fields. Changing a hiding
/// preference is to be followed by saving the preferences.
#[verifier::spinoff_prover]
#[verifier::rlimit(20)]
pub fn apply_plain_message(state: &mut State, message: PlainMessage)
    ensures
        ({
            let s = *old(state);
            let f = *final(state);
            match message {
                PlainMessage::AddConnectionPressed => f == (State { connection_form: f.connection_form, ..s })
                    && (f.connection_form matches Some(c) && is_fresh_form(c)),
                PlainMessage::ConnectionFormCancel => f == (State { connection_form: None, ..s }),
                PlainMessage::ToggleQuickconnect => f == (State {
                    quickconnect_expanded: !s.quickconnect_expanded,
                    ..s
                }),
                PlainMessage::LocalFilterChanged(v) => f == (State { filter_local: v, ..s }),
                PlainMessage::RemoteFilterChanged(v) => f == (State { filter_remote: v, ..s }),
                PlainMessage::PanelFocused(p) => f == (State { focused_panel: p, ..s }),
                PlainMessage::ModifiersChanged { shift, command } => f == (State {
                    shift_held: shift,
                    command_held: command,
                    ..s
                }),
                PlainMessage::PromptCancel => f == (State { prompt: None, ..s }),
                PlainMessage::ContextMenuClosed => f == (State { context_menu: None, ..s }),
                PlainMessage::ToggleTransferQueue => f == (State {
                    queue_panel_visible: !s.queue_panel_visible,
                    ..s
                }),
                PlainMessage::FilesHoverEntered => f == (State { drop_hover: true, ..s }),
                PlainMessage::FilesHoverLeft => f == (State { drop_hover: false, ..s }),
                PlainMessage::SettingsCustomDraftChanged(v) => f == (State { settings_custom_draft: v, ..s }),
                PlainMessage::SettingsHideSystemToggled(v) => f == (State {
                    settings: crate::models::settings::AppSettings { hide_system_files: v, ..s.settings },
                    ..s
                }),
                PlainMessage::SettingsShowDotfilesToggled(v) => f == (State {
                    settings: crate::models::settings::AppSettings { show_dotfiles: v, ..s.settings },
                    ..s
                }),
                PlainMessage::CloseSyncPanel => f == (State { sync_panel: None, ..s }),
            }
        }),
{
    match message {
        PlainMessage::AddConnectionPressed => {
            state.connection_form = Some(ConnectionForm::new());
        },
        PlainMessage::ConnectionFormCancel => {
            state.connection_form = None;
        },
        PlainMessage::ToggleQuickconnect => {
            state.quickconnect_expanded = !state.quickconnect_expanded;
        },
        PlainMessage::LocalFilterChanged(v) => {
            state.filter_local = v;
        },
        PlainMessage::RemoteFilterChanged(v) => {
            state.filter_remote = v;
        },
        PlainMessage::PanelFocused(p) => {
            state.focused_panel = p;
        },
        PlainMessage::ModifiersChanged { shift, command } => {
            state.shift_held = shift;
            state.command_held = command;
        },
        PlainMessage::PromptCancel => {
            state.prompt = None;
        },
        PlainMessage::ContextMenuClosed => {
            state.context_menu = None;
        },
        PlainMessage::ToggleTransferQueue => {
            state.queue_panel_visible = !state.queue_panel_visible;
        },
        PlainMessage::FilesHoverEntered => {
            state.drop_hover = true;
        },
        PlainMessage::FilesHoverLeft => {
            state.drop_hover = false;
        },
        PlainMessage::SettingsCustomDraftChanged(v) => {
            state.settings_custom_draft = v;
        },
        PlainMessage::SettingsHideSystemToggled(v) => {
            state.settings.hide_system_files = v;
        },
        PlainMessage::SettingsShowDotfilesToggled(v) => {
            state.settings.show_dotfiles = v;
        },
        PlainMessage::CloseSyncPanel => {
            state.sync_panel = None;
        },
    }
}

/// The local directory is to be loaded again or anew (a breadcrumb, the
/// refresh button): loading starts, clearing the selection when asked.
pub fn request_local_listing(state: &mut State, clear_selection: bool)
    ensures
        ({
            let s = *old(state);
            let f = *final(state);
            &&& f == (State { selected_local: f.selected_local, local_loading: true, ..s })
            &&& if clear_selection {
                f.selected_local@.len() == 0
            } else {
                f.selected_local == s.selected_local
            }
        }),
{
    if clear_selection {
        clear_names(&mut state.selected_local);
    }
    state.local_loading = true;
}

/// A change typed into the site manager's form.
pub enum FormEdit {
    Name(String),
    Host(String),
    Port(String),
    Username(String),
    Password(String),
    ActiveMode(bool),
    Protocol(Protocol),
    AcceptInvalidCerts(bool),
}

/// The port field after choosing protocol `p` (see `set_protocol`).
pub open spec fn port_after_protocol(port: Seq<char>, p: Protocol) -> Seq<char> {
    if p == Protocol::Sftp && port == "21"@ {
        decimal_digits(22)
    } else if p != Protocol::Sftp && port == "22"@ {
        decimal_digits(21)
    } else {
        port
    }
}

/// The form after an edit, its error cleared.
pub open spec fn edited_form(c: ConnectionForm, d: ConnectionForm, edit: FormEdit) -> bool {
    match edit {
        FormEdit::Name(v) => d == (ConnectionForm { name: v, error: None, ..c }),
        FormEdit::Host(v) => d == (ConnectionForm { host: v, error: None, ..c }),
        FormEdit::Port(v) => d == (ConnectionForm { port: v, error: None, ..c }),
        FormEdit::Username(v) => d == (ConnectionForm { username: v, error: None, ..c }),
        FormEdit::Password(v) => d == (ConnectionForm { password: v, error: None, ..c }),
        FormEdit::ActiveMode(v) => d == (ConnectionForm { active_mode: v, error: None, ..c }),
        FormEdit::AcceptInvalidCerts(v) => d == (ConnectionForm { accept_invalid_certs: v, error: None, ..c }),
        FormEdit::Protocol(p) => d == (ConnectionForm {
            protocol: p,
            port: d.port,
            accept_invalid_certs: c.accept_invalid_certs && p == Protocol::FtpsExplicit,
            error: None,
            ..c
        }) && d.port@ == port_after_protocol(c.port@, p),
    }
}

/// Applies a change typed into the site manager's form, when it is open.
pub fn edit_connection_form(state: &mut State, edit: FormEdit)
    ensures
        ({
            let s = *old(state);
            let f = *final(state);
            match s.connection_form {
                None => f == s,
                Some(c) => f == (State { connection_form: f.connection_form, ..s })
                    && (f.connection_form matches Some(d) && edited_form(c, d, edit)),
            }
        }),
{
    let mut cur: Option<ConnectionForm> = None;
    std::mem::swap(&mut cur, &mut state.connection_form);
    match cur {
        None => {},
        Some(mut form) => {
            match edit {
                FormEdit::Name(v) => form.name = v,
                FormEdit::Host(v) => form.host = v,
                FormEdit::Port(v) => form.port = v,
                FormEdit::Username(v) => form.username = v,
                FormEdit::Password(v) => form.password = v,
                FormEdit::ActiveMode(v) => form.active_mode = v,
                FormEdit::Protocol(p) => form.set_protocol(p),
                FormEdit::AcceptInvalidCerts(v) => form.accept_invalid_certs = v,
            }
            form.error = None;
            state.connection_form = Some(form);
        },
    }
}

/// A change typed into the quick-connect bar.
pub enum QuickEdit {
    Host(String),
    Port(String),
    Username(String),
    Password(String),
}

/// Applies a change typed into the quick-connect bar, clearing its error.
pub fn edit_quickconnect(state: &mut State, edit: QuickEdit)
    ensures
        ({
            let s = *old(state);
            let f = *final(state);
            let q = s.quickconnect;
            f == (State { quickconnect: f.quickconnect, ..s }) && match edit {
                QuickEdit::Host(v) => f.quickconnect == (crate::models::quickconnect::QuickconnectForm { host: v, error: None, ..q }),
                QuickEdit::Port(v) => f.quickconnect == (crate::models::quickconnect::QuickconnectForm { port: v, error: None, ..q }),
                QuickEdit::Username(v) => f.quickconnect == (crate::models::quickconnect::QuickconnectForm { username: v, error: None, ..q }),
                QuickEdit::Password(v) => f.quickconnect == (crate::models::quickconnect::QuickconnectForm { password: v, error: None, ..q }),
            }
        }),
{
    match edit {
        QuickEdit::Host(v) => state.quickconnect.host = v,
        QuickEdit::Port(v) => state.quickconnect.port = v,
        QuickEdit::Username(v) => state.quickconnect.username = v,
        QuickEdit::Password(v) => state.quickconnect.password = v,
    }
    state.quickconnect.error = None;
}

/// A click on a column header of a panel: the same column flips the
/// direction, another one sorts ascending.
pub fn sort_by(state: &mut State, panel: PanelKind, key: SortKey)
    ensures
        ({
            let s = *old(state);
            let f = *final(state);
            let old_sort = match panel {
                PanelKind::Local => s.sort_local,
                PanelKind::Remote => s.sort_remote,
            };
            let new_sort = match panel {
                PanelKind::Local => f.sort_local,
                PanelKind::Remote => f.sort_remote,
            };
            &&& new_sort.key == key
            &&& new_sort.order == (if old_sort.key == key {
                flipped(old_sort.order)
            } else {
                SortOrder::Asc
            })
            &&& panel == PanelKind::Local ==> f == (State { sort_local: f.sort_local, ..s })
            &&& panel == PanelKind::Remote ==> f == (State { sort_remote: f.sort_remote, ..s })
        }),
{
    match panel {
        PanelKind::Local => state.sort_local = state.sort_local.toggle_key(key),
        PanelKind::Remote => state.sort_remote = state.sort_remote.toggle_key(key),
    }
}

/// Which prompt a toolbar button or a menu entry opens.
#[derive(Debug, Clone, Copy, PartialEq, Eq, Structural)]
pub enum PromptKind {
    Mkdir,
    Rename,
    Delete,
}

/// Opens a prompt on a panel, closing the context menu: for a new directory
/// always; for renaming when exactly one entry is selected, starting from
/// its name; for deleting when something is selected, listing the
/// selection. Otherwise only the menu closes.
pub fn open_prompt(state: &mut State, panel: PanelKind, kind: PromptKind)
    ensures
        ({
            let s = *old(state);
            let f = *final(state);
            let sel = selection_of(s, panel);
            &&& f == (State { context_menu: None, prompt: f.prompt, ..s })
            &&& match kind {
                PromptKind::Mkdir => f.prompt matches Some(PromptDialog::Mkdir { panel: p, value })
                    && p == panel && value@.len() == 0,
                PromptKind::Rename => if sel.len() == 1 {
                    f.prompt matches Some(PromptDialog::Rename { panel: p, old, new }) && p == panel
                        && old@ == sel[0]@ && new@ == sel[0]@
                } else {
                    f.prompt == s.prompt
                },
                PromptKind::Delete => if sel.len() > 0 {
                    f.prompt matches Some(PromptDialog::ConfirmDelete { panel: p, names }) && p == panel
                        && names@ == sel
                } else {
                    f.prompt == s.prompt
                },
            }
        }),
{
    state.context_menu = None;
    match kind {
        PromptKind::Mkdir => {
            state.prompt = Some(PromptDialog::mkdir(panel));
        },
        PromptKind::Rename => {
            let sel = state.selected_for_panel(panel);
            if sel.len() == 1 {
                let old = sel[0].clone();
                state.prompt = Some(PromptDialog::rename(panel, old));
            }
        },
        PromptKind::Delete => {
            let names = copy_names(state.selected_for_panel(panel));
            if names.len() > 0 {
                state.prompt = Some(PromptDialog::confirm_delete(panel, names));
            }
        },
    }
}

/// Text typed into the open prompt: the new directory's name or the new
/// name; a delete confirmation takes no text.
pub fn set_prompt_value(state: &mut State, value: String)
    ensures
        ({
            let s = *old(state);
            let f = *final(state);
            f == (State { prompt: f.prompt, ..s }) && match s.prompt {
                Some(PromptDialog::Mkdir { panel, value: _ }) => f.prompt == Some(PromptDialog::Mkdir { panel, value }),
                Some(PromptDialog::Rename { panel, old, new: _ }) => f.prompt == Some(PromptDialog::Rename { panel, old, new: value }),
                _ => f.prompt == s.prompt,
            }
        }),
{
    let mut cur: Option<PromptDialog> = None;
    std::mem::swap(&mut cur, &mut state.prompt);
    let next = match cur {
        Some(PromptDialog::Mkdir { panel, value: _ }) => Some(PromptDialog::Mkdir { panel, value }),
        Some(PromptDialog::Rename { panel, old, new: _ }) => Some(PromptDialog::Rename { panel, old, new: value }),
        other => other,
    };
    state.prompt = next;
}

/// Closes the open prompt and returns it, for `execute_prompt`.
pub fn take_prompt(state: &mut State) -> (r: Option<PromptDialog>)
    ensures
        r == old(state).prompt,
        *final(state) == (State { prompt: None, ..*old(state) }),
{
    let mut cur: Option<PromptDialog> = None;
    std::mem::swap(&mut cur, &mut state.prompt);
    cur
}

/// Closes notification `id` (every one with that identifier).
pub fn dismiss_toast(state: &mut State, id: u128)
    ensures
        ({
            let s = *old(state);
            let f = *final(state);
            &&& f == (State { toasts: f.toasts, ..s })
            &&& f.toasts@ == s.toasts@.filter(|t: crate::models::toast::Toast| t.id != id)
        }),
{
    let ghost o = state.toasts@;
    let mut rest: Vec<crate::models::toast::Toast> = Vec::new();
    std::mem::swap(&mut rest, &mut state.toasts);
    let mut kept: Vec<crate::models::toast::Toast> = Vec::new();
    let n = rest.len();
    let mut back: Vec<crate::models::toast::Toast> = Vec::new();
    let mut i: usize = 0;
    while i < n
        invariant
            n == o.len(),
            i <= n,
            rest@ == o.take(n - i),
            back@.len() == i,
            forall|k: int| 0 <= k < i ==> #[trigger] back@[k] == o[n - 1 - k],
        decreases n - i,
    {
        let t = rest.pop().unwrap();
        back.push(t);
        i = i + 1;
        assert(rest@ =~= o.take(n - i));
    }
    i = 0;
    while i < n
        invariant
            n == o.len(),
            i <= n,
            back@.len() == n - i,
            forall|k: int| 0 <= k < n - i ==> #[trigger] back@[k] == o[n - 1 - k],
            kept@ == o.take(i as int).filter(|t: crate::models::toast::Toast| t.id != id),
        decreases n - i,
    {
        let t = back.pop().unwrap();
        assert(t == o[i as int]);
        let ghost pre = o.take(i as int);
        proof {
            assert(o.take(i + 1).drop_last() =~= pre);
            assert(o.take(i + 1).last() == t);
            reveal(Seq::filter);
        }
        if t.id != id {
            kept.push(t);
        }
        i = i + 1;
        proof {
            assert(kept@ =~= o.take(i as int).filter(|t: crate::models::toast::Toast| t.id != id));
        }
    }
    assert(o.take(n as int) =~= o);
    state.toasts = kept;
}

/// A connection is chosen in the sidebar: it becomes the selected one and
/// connecting starts. Returns the connection to list the root directory of,
/// with the connection selected before, when it exists; otherwise loading
/// stops at once.
pub fn select_connection(state: &mut State, id: u128) -> (r: Option<(Connection, Option<u128>)>)
    ensures
        ({
            let s = *old(state);
            let f = *final(state);
            let found = current_connection(State { selected_connection: Some(id), ..s });
            &&& f == (State {
                selected_connection: Some(id),
                remote_status: ConnectionStatus::Connecting,
                remote_loading: found is Some,
                status_message: None,
                ..s
            })
            &&& match found {
                Some(c) => r == Some((c, s.selected_connection)),
                None => r is None,
            }
        }),
{
    let prev = state.selected_connection;
    state.selected_connection = Some(id);
    state.remote_status = ConnectionStatus::Connecting;
    state.remote_loading = true;
    state.status_message = None;
    match state.connection_cloned(id) {
        Some(conn) => Some((conn, prev)),
        None => {
            state.remote_loading = false;
            None
        },
    }
}

/// The site manager opens on connection `id`, filled in with its fields,
/// when it exists.
pub fn edit_connection(state: &mut State, id: u128)
    ensures
        ({
            let s = *old(state);
            let f = *final(state);
            match current_connection(State { selected_connection: Some(id), ..s }) {
                None => f == s,
                Some(c) => f == (State { connection_form: f.connection_form, ..s }) && (
                f.connection_form matches Some(form) && form.editing_id == Some(c.id) && form.name@
                    == c.name@ && form.host@ == c.host@ && form.port@ == decimal_digits(c.port as nat)
                    && form.username@ == c.username@ && form.password@ == c.password_spec()
                    && form.active_mode == (c.mode == crate::models::connection::FtpMode::Active)
                    && form.protocol == (if c.security == crate::models::connection::FtpSecurity::Explicit { Protocol::FtpsExplicit } else { Protocol::Ftp }) && form.accept_invalid_certs
                    == c.accept_invalid_certs && form.error is None),
            }
        }),
{
    match state.connection_cloned(id) {
        None => {},
        Some(conn) => {
            let form = ConnectionForm::from_connection(
                conn.id,
                conn.name.as_str(),
                conn.host.as_str(),
                conn.port,
                conn.username.as_str(),
                conn.password(),
                conn.mode,
                conn.effective_protocol(),
                conn.accept_invalid_certs,
            );
            state.connection_form = Some(form);
        },
    }
}

/// The connect button: the selected connection, when it exists, is
/// returned to connect to, and the remote side shows that it is
/// connecting.
pub fn connect_pressed(state: &mut State) -> (r: Option<Connection>)
    ensures
        ({
            let s = *old(state);
            let f = *final(state);
            r == current_connection(s) && if r is Some {
                f == (State { remote_status: ConnectionStatus::Connecting, remote_loading: true, ..s })
            } else {
                f == s
            }
        }),
{
    let id = match state.selected_connection {
        Some(id) => id,
        None => return None,
    };
    match state.connection_cloned(id) {
        Some(conn) => {
            state.remote_status = ConnectionStatus::Connecting;
            state.remote_loading = true;
            Some(conn)
        },
        None => None,
    }
}

/// The remote side was disconnected: its listing and selection empty.
pub fn on_disconnected(state: &mut State)
    ensures
        ({
            let s = *old(state);
            let f = *final(state);
            &&& f == (State {
                remote_status: ConnectionStatus::Disconnected,
                remote_entries: f.remote_entries,
                selected_remote: f.selected_remote,
                ..s
            })
            &&& f.remote_entries@.len() == 0
            &&& f.selected_remote@.len() == 0
        }),
{
    state.remote_status = ConnectionStatus::Disconnected;
    state.remote_entries.clear();
    clear_names(&mut state.selected_remote);
}

/// A remote entry was double-clicked: a directory is entered when a
/// connection is selected and exists. Returns the connection and the path to
/// list.
pub fn open_remote_entry(state: &mut State, entry: &FtpEntry) -> (r: Option<(Connection, String)>)
    ensures
        ({
            let s = *old(state);
            let f = *final(state);
            if entry.is_dir && current_connection(s) is Some {
                &&& r matches Some((c, p)) && Some(c) == current_connection(s) && p@
                    == join_remote_path_spec(s.remote_path@, entry.name@)
                &&& f == (State { selected_remote: f.selected_remote, remote_loading: true, ..s })
                &&& f.selected_remote@.len() == 0
            } else {
                r is None && f == s
            }
        }),
{
    if !entry.is_dir {
        return None;
    }
    let id = match state.selected_connection {
        Some(id) => id,
        None => return None,
    };
    let conn = match state.connection_cloned(id) {
        Some(c) => c,
        None => return None,
    };
    let path = join_remote_path(state.remote_path.as_str(), entry.name.as_str());
    clear_names(&mut state.selected_remote);
    state.remote_loading = true;
    Some((conn, path))
}

/// A local entry was double-clicked: a directory is entered. Returns the
/// path to load.
pub fn open_local_entry(state: &mut State, entry: &FtpEntry) -> (r: Option<String>)
    ensures
        ({
            let s = *old(state);
            let f = *final(state);
            if entry.is_dir {
                &&& r matches Some(p) && p@ == join_local_spec(s.local_path@, entry.name@)
                &&& f == (State { selected_local: f.selected_local, local_loading: true, ..s })
                &&& f.selected_local@.len() == 0
            } else {
                r is None && f == s
            }
        }),
{
    if !entry.is_dir {
        return None;
    }
    let path = join_local_path(state.local_path.as_str(), entry.name.as_str());
    clear_names(&mut state.selected_local);
    state.local_loading = true;
    Some(path)
}

/// A remote directory is to be listed again or anew (a breadcrumb, the
/// refresh button): with a selected connection that exists, loading starts
/// (clearing the selection when asked) and the connection and its
/// identifier are returned; otherwise nothing happens.
pub fn request_remote_listing(state: &mut State, clear_selection: bool) -> (r: Option<(Connection, u128)>)
    ensures
        ({
            let s = *old(state);
            let f = *final(state);
            match current_connection(s) {
                None => r is None && f == s,
                Some(c) => {
                    &&& r == Some((c, s.selected_connection->0))
                    &&& f == (State { selected_remote: f.selected_remote, remote_loading: true, ..s })
                    &&& if clear_selection {
                        f.selected_remote@.len() == 0
                    } else {
                        f.selected_remote == s.selected_remote
                    }
                },
            }
        }),
{
    let id = match state.selected_connection {
        Some(id) => id,
        None => return None,
    };
    let conn = match state.connection_cloned(id) {
        Some(c) => c,
        None => return None,
    };
    if clear_selection {
        clear_names(&mut state.selected_remote);
    }
    state.remote_loading = true;
    Some((conn, id))
}


/// The message that the site manager's form shows instead of saving, when
/// its port does not read as a number or its fields are not valid.
pub open spec fn form_error(form: ConnectionForm) -> Option<Seq<char>> {
    match typed_port(form.port@) {
        None => Some("puerto inválido"@),
        Some(p) => match connection_error(form.name@, form.host@, p, form.username@) {
            Some(m) => Some(validation_text(m)),
            None => None,
        },
    }
}

/// `c` is a connection that the form describes (see `ConnectionForm::build`).
pub open spec fn built_from_form(form: ConnectionForm, c: Connection) -> bool {
    &&& typed_port(form.port@) == Some(c.port)
    &&& (form.editing_id matches Some(i) ==> c.id == i)
    &&& c.name@ == trim_spec(form.name@)
    &&& c.host@ == trim_spec(form.host@)
    &&& c.username@ == trim_spec(form.username@)
    &&& c.password_spec() == form.password@
    &&& c.mode == form_mode(form.active_mode)
    &&& c.security == protocol_security(form.protocol)
    &&& c.accept_invalid_certs == form.accept_invalid_certs
}

/// What saving the site manager's form led to.
pub enum FormSave {
    /// No form is open.
    NoForm,
    /// The form shows why it cannot be saved.
    Rejected,
    /// The connections changed and are to be stored; `replaced` is the
    /// connection whose stored password is to be dropped first.
    Store { replaced: Option<u128> },
}

/// Saves the site manager's form into the connection list: a new connection
/// is appended, an edited one replaces the connection with its identifier
/// (when that one still exists). An invalid form shows its message instead.
/// The form stays open until the list is stored (`connection_saved`).
pub fn save_connection_form(state: &mut State) -> (r: FormSave)
    ensures
        ({
            let s = *old(state);
            let f = *final(state);
            match s.connection_form {
                None => r is NoForm && f == s,
                Some(form) => match form_error(form) {
                    Some(m) => r is Rejected && f == (State { connection_form: f.connection_form, ..s })
                        && (f.connection_form matches Some(g) && g == (ConnectionForm { error: g.error, ..form })
                        && (g.error matches Some(e) && e@ == m)),
                    None => f == (State { connections: f.connections, ..s }) && match form.editing_id {
                        None => r == (FormSave::Store { replaced: None })
                            && f.connections@.drop_last() == s.connections@
                            && f.connections@.len() == s.connections@.len() + 1
                            && built_from_form(form, f.connections@.last()),
                        Some(id) => match connection_position(s.connections@, id) {
                            None => r == (FormSave::Store { replaced: None }) && f.connections@ == s.connections@,
                            Some(i) => r == (FormSave::Store { replaced: Some(id) })
                                && f.connections@ == s.connections@.update(i, f.connections@[i])
                                && built_from_form(form, f.connections@[i]),
                        },
                    },
                },
            }
        }),
{
    let mut cur: Option<ConnectionForm> = None;
    std::mem::swap(&mut cur, &mut state.connection_form);
    let mut form = match cur {
        Some(form) => form,
        None => return FormSave::NoForm,
    };
    match form.build() {
        Err(m) => {
            form.error = Some(m);
            state.connection_form = Some(form);
            FormSave::Rejected
        },
        Ok(conn) => {
            let editing = form.editing_id;
            state.connection_form = Some(form);
            match editing {
                None => {
                    let ghost before = state.connections@;
                    state.connections.push(conn);
                    assert(state.connections@.drop_last() =~= before);
                    FormSave::Store { replaced: None }
                },
                Some(id) => match find_connection(&state.connections, id) {
                    None => FormSave::Store { replaced: None },
                    Some(i) => {
                        state.connections.set(i, conn);
                        FormSave::Store { replaced: Some(id) }
                    },
                },
            }
        },
    }
}

/// Storing the connection list ended: on success the site manager closes
/// and the user is told; on failure the form shows the error.
pub fn connection_saved(state: &mut State, result: Result<(), String>)
    ensures
        ({
            let s = *old(state);
            let f = *final(state);
            match result {
                Ok(()) => f == (State { connection_form: None, toasts: f.toasts, ..s }) && f.toasts@ == pushed_toasts(
                    s.toasts@,
                    f.toasts@.last(),
                ) && f.toasts@.last().message@ == "Conexión guardada"@ && f.toasts@.last().kind == ToastKind::Success,
                Err(e) => match s.connection_form {
                    None => f == s,
                    Some(form) => f == (State {
                        connection_form: Some(ConnectionForm { error: Some(e), ..form }),
                        ..s
                    }),
                },
            }
        }),
{
    match result {
        Ok(()) => {
            state.connection_form = None;
            state.push_toast("Conexión guardada".to_string(), ToastKind::Success);
        },
        Err(e) => {
            let mut cur: Option<ConnectionForm> = None;
            std::mem::swap(&mut cur, &mut state.connection_form);
            match cur {
                None => {},
                Some(mut form) => {
                    form.error = Some(e);
                    state.connection_form = Some(form);
                },
            }
        },
    }
}

/// The site manager's delete button: the connection being edited leaves the
/// list. Returns its identifier, for dropping its password, storing the
/// list and disconnecting it.
pub fn remove_edited_connection(state: &mut State) -> (r: Option<u128>)
    ensures
        ({
            let s = *old(state);
            let f = *final(state);
            match s.connection_form {
                Some(form) if form.editing_id is Some => {
                    let id = form.editing_id->0;
                    &&& r == Some(id)
                    &&& f == (State { connections: f.connections, ..s })
                    &&& f.connections@ == s.connections@.filter(|c: Connection| c.id != id)
                },
                _ => r is None && f == s,
            }
        }),
{
    let id = match &state.connection_form {
        Some(form) => match form.editing_id {
            Some(id) => id,
            None => return None,
        },
        None => return None,
    };
    let ghost o = state.connections@;
    let mut kept: Vec<Connection> = Vec::new();
    let mut i: usize = 0;
    while i < state.connections.len()
        invariant
            state.connections@ == o,
            i <= o.len(),
            kept@ == o.take(i as int).filter(|c: Connection| c.id != id),
        decreases o.len() - i,
    {
        proof {
            assert(o.take(i + 1).drop_last() =~= o.take(i as int));
            reveal(Seq::filter);
        }
        if state.connections[i].id != id {
            kept.push(state.connections[i].duplicate());
        }
        i = i + 1;
        assert(kept@ =~= o.take(i as int).filter(|c: Connection| c.id != id));
    }
    assert(o.take(i as int) =~= o);
    state.connections = kept;
    Some(id)
}

/// Storing the list after a deletion ended: on failure the status bar says
/// so; on success the site manager closes, and a deleted connection that was
/// selected is deselected and its listing emptied.
pub fn connection_removed(state: &mut State, id: u128, result: Result<(), String>)
    ensures
        ({
            let s = *old(state);
            let f = *final(state);
            match result {
                Err(e) => f == (State { status_message: f.status_message, ..s }) && (f.status_message matches Some(
                    m,
                ) && m@ == "Error al guardar: "@ + e@),
                Ok(()) => {
                    &&& f.connection_form is None
                    &&& (f.status_message matches Some(m) && m@ == "Conexión eliminada"@)
                    &&& if s.selected_connection == Some(id) {
                        f == (State {
                            selected_connection: None,
                            remote_status: ConnectionStatus::Disconnected,
                            remote_entries: f.remote_entries,
                            connection_form: None,
                            status_message: f.status_message,
                            ..s
                        }) && f.remote_entries@.len() == 0
                    } else {
                        f == (State { connection_form: None, status_message: f.status_message, ..s })
                    }
                },
            }
        }),
{
    match result {
        Err(e) => {
            let mut m = "Error al guardar: ".to_string();
            m.append(e.as_str());
            state.status_message = Some(m);
        },
        Ok(()) => {
            if state.selected_connection == Some(id) {
                state.selected_connection = None;
                state.remote_status = ConnectionStatus::Disconnected;
                state.remote_entries.clear();
            }
            state.connection_form = None;
            state.status_message = Some("Conexión eliminada".to_string());
        },
    }
}

/// The message under the quick-connect bar instead of connecting, when its
/// port does not read as a number or its fields are not valid.
pub open spec fn quick_error(q: QuickconnectForm) -> Option<Seq<char>> {
    match typed_port(q.port@) {
        None => Some("puerto inválido"@),
        Some(p) => match connection_error(quick_name(q.host@, p), q.host@, p, q.username@) {
            Some(m) => Some(validation_text(m)),
            None => None,
        },
    }
}

/// `c` is the connection that the quick-connect bar describes (see
/// `QuickconnectForm::build`).
pub open spec fn built_from_quick(q: QuickconnectForm, c: Connection) -> bool {
    &&& typed_port(q.port@) == Some(c.port)
    &&& c.name@ == trim_spec(quick_name(q.host@, c.port))
    &&& c.host@ == trim_spec(q.host@)
    &&& c.username@ == trim_spec(q.username@)
    &&& c.password_spec() == q.password@
    &&& c.mode == FtpMode::Passive
    &&& c.security == FtpSecurity::Plain
    &&& !c.accept_invalid_certs
}

/// The quick-connect button: a valid bar becomes a new connection, which is
/// selected and connected to (it is returned for that); an invalid one shows
/// its message.
pub fn quickconnect_connect(state: &mut State) -> (r: Option<Connection>)
    ensures
        ({
            let s = *old(state);
            let f = *final(state);
            match quick_error(s.quickconnect) {
                Some(m) => r is None && f == (State { quickconnect: f.quickconnect, ..s })
                    && f.quickconnect == (QuickconnectForm { error: f.quickconnect.error, ..s.quickconnect })
                    && (f.quickconnect.error matches Some(e) && e@ == m),
                None => {
                    &&& f == (State {
                        connections: f.connections,
                        selected_connection: f.selected_connection,
                        remote_status: ConnectionStatus::Connecting,
                        remote_loading: true,
                        quickconnect: QuickconnectForm { error: None, ..s.quickconnect },
                        ..s
                    })
                    &&& f.connections@.drop_last() == s.connections@
                    &&& f.connections@.len() == s.connections@.len() + 1
                    &&& built_from_quick(s.quickconnect, f.connections@.last())
                    &&& f.selected_connection == Some(f.connections@.last().id)
                    &&& r is Some && r == current_connection(f)
                },
            }
        }),
{
    match state.quickconnect.build() {
        Err(m) => {
            state.quickconnect.error = Some(m);
            None
        },
        Ok(conn) => {
            let id = conn.id;
            let ghost before = state.connections@;
            state.connections.push(conn);
            assert(state.connections@.drop_last() =~= before);
            state.selected_connection = Some(id);
            state.remote_status = ConnectionStatus::Connecting;
            state.remote_loading = true;
            state.quickconnect.error = None;
            proof {
                let cs = state.connections@;
                assert(cs[cs.len() - 1].id == id);
                assert(exists|i: int| 0 <= i < cs.len() && cs[i].id == id);
            }
            state.connection_cloned(id)
        },
    }
}

/// Connecting ended. Its log lines go to the command log. On success the
/// current directory of the selected connection is to be listed (its
/// connection, the directory and the connection's identifier are returned)
/// when that connection exists; on failure the remote side shows the error
/// and the user is told.
pub fn on_connect_result(state: &mut State, outcome: FtpTaskResult<()>) -> (r: Option<(Connection, String, u128)>)
    ensures
        ({
            let s = *old(state);
            let f = *final(state);
            &&& f.ftp_log.line_seq() == logged(s.ftp_log.line_seq(), outcome.log@)
            &&& f.ftp_log.shown() == s.ftp_log.shown()
            &&& match outcome.result {
                Ok(()) => match current_connection(s) {
                    Some(c) => r == Some((c, s.remote_path, s.selected_connection->0)) && f == (State {
                        ftp_log: f.ftp_log,
                        remote_loading: true,
                        ..s
                    }),
                    None => r is None && f == (State { ftp_log: f.ftp_log, ..s }),
                },
                Err(e) => {
                    &&& r is None
                    &&& f == (State {
                        ftp_log: f.ftp_log,
                        remote_status: f.remote_status,
                        remote_loading: false,
                        toasts: f.toasts,
                        ..s
                    })
                    &&& (f.remote_status matches ConnectionStatus::Error(m) && m@ == error_message(e.0))
                    &&& f.toasts@ == pushed_toasts(s.toasts@, f.toasts@.last())
                    &&& f.toasts@.last().message@ == error_message(e.0)
                    &&& f.toasts@.last().kind == ToastKind::Error
                },
            }
        }),
{
    apply_ftp_log(state, &outcome.log);
    match outcome.result {
        Ok(()) => {
            let id = match state.selected_connection {
                Some(id) => id,
                None => return None,
            };
            let conn = match state.connection_cloned(id) {
                Some(c) => c,
                None => return None,
            };
            state.remote_loading = true;
            Some((conn, state.remote_path.clone(), id))
        },
        Err(e) => {
            let msg = e.message();
            state.remote_status = ConnectionStatus::Error(msg.clone());
            state.remote_loading = false;
            state.push_toast(msg, ToastKind::Error);
            None
        },
    }
}


/// Calls `std::path::Path::parent` on `path` and returns the parent's text.
/// What the parent is depends on the platform's path syntax; the
/// documentation promises none for an empty path.
#[verifier::external_body]
fn path_parent(path: &str) -> (r: Option<String>)
    ensures
        path@.len() == 0 ==> r is None,
{
    std::path::Path::new(path).parent().map(|p| p.to_string_lossy().to_string())
}

/// The local panel goes to directory `parent` (the current directory
/// when there is none): the selection empties and loading starts. Returns
/// the directory to load.
pub fn enter_local_parent(state: &mut State, parent: Option<String>) -> (r: String)
    ensures
        ({
            let s = *old(state);
            let f = *final(state);
            &&& r@ == (match parent {
                Some(p) => p@,
                None => s.local_path@,
            })
            &&& f == (State { selected_local: f.selected_local, local_loading: true, ..s })
            &&& f.selected_local@.len() == 0
        }),
{
    let target = match parent {
        Some(p) => p,
        None => state.local_path.clone(),
    };
    clear_names(&mut state.selected_local);
    state.local_loading = true;
    target
}

/// The local panel goes up to the parent of its directory, as
/// `std::path::Path::parent` gives it on this platform; which directory that
/// is goes unstated here (`enter_local_parent` states the rest).
pub fn go_up_local(state: &mut State) -> (r: String)
    ensures
        ({
            let s = *old(state);
            let f = *final(state);
            &&& f == (State { selected_local: f.selected_local, local_loading: true, ..s })
            &&& f.selected_local@.len() == 0
            &&& s.local_path@.len() == 0 ==> r@.len() == 0
        }),
{
    let parent = path_parent(state.local_path.as_str());
    enter_local_parent(state, parent)
}

/// The remote panel goes to directory `parent` (the root when there is
/// none), when a connection is selected and exists: the selection empties
/// and loading starts. Returns the connection, the directory to list and
/// the connection's identifier.
pub fn enter_remote_parent(state: &mut State, parent: Option<String>) -> (r: Option<(Connection, String, u128)>)
    ensures
        ({
            let s = *old(state);
            let f = *final(state);
            match current_connection(s) {
                None => r is None && f == s,
                Some(c) => {
                    &&& r matches Some((k, p, id)) && k == c && id == s.selected_connection->0 && p@ == (match parent {
                        Some(q) => q@,
                        None => "/"@,
                    })
                    &&& f == (State { selected_remote: f.selected_remote, remote_loading: true, ..s })
                    &&& f.selected_remote@.len() == 0
                },
            }
        }),
{
    let id = match state.selected_connection {
        Some(id) => id,
        None => return None,
    };
    let conn = match state.connection_cloned(id) {
        Some(c) => c,
        None => return None,
    };
    let target = match parent {
        Some(p) => p,
        None => "/".to_string(),
    };
    clear_names(&mut state.selected_remote);
    state.remote_loading = true;
    Some((conn, target, id))
}

/// The remote panel goes up to the parent of its directory, as
/// `std::path::Path::parent` gives it on this platform; which directory that
/// is goes unstated here (`enter_remote_parent` states the rest).
pub fn go_up_remote(state: &mut State) -> (r: Option<(Connection, String, u128)>)
    ensures
        ({
            let s = *old(state);
            let f = *final(state);
            match current_connection(s) {
                None => r is None && f == s,
                Some(c) => {
                    &&& r matches Some((k, _p, id)) && k == c && id == s.selected_connection->0
                    &&& f == (State { selected_remote: f.selected_remote, remote_loading: true, ..s })
                    &&& f.selected_remote@.len() == 0
                },
            }
        }),
{
    let parent = path_parent(state.remote_path.as_str());
    enter_remote_parent(state, parent)
}

/// The status text after a file operation that succeeded.
pub open spec fn op_done_text() -> Seq<char> {
    "Operación completada"@
}

/// A local file operation ended: the status bar says it completed or shows
/// the error. Returns whether the listings are to be reloaded (on success).
pub fn on_local_op_finished(state: &mut State, result: Result<(), AppErrorMsg>) -> (r: bool)
    ensures
        ({
            let s = *old(state);
            let f = *final(state);
            &&& r == result is Ok
            &&& f == (State { status_message: f.status_message, ..s })
            &&& f.status_message matches Some(m) && m@ == (match result {
                Ok(()) => op_done_text(),
                Err(e) => error_message(e.0),
            })
        }),
{
    match result {
        Ok(()) => {
            state.status_message = Some("Operación completada".to_string());
            true
        },
        Err(e) => {
            state.status_message = Some(e.message());
            false
        },
    }
}

/// A remote file operation ended: its log lines go to the command log, and
/// the status bar says it completed or shows the error. Returns whether the
/// listings are to be reloaded (on success).
pub fn on_remote_op_finished(state: &mut State, outcome: FtpTaskResult<()>) -> (r: bool)
    ensures
        ({
            let s = *old(state);
            let f = *final(state);
            &&& r == outcome.result is Ok
            &&& f.ftp_log.line_seq() == logged(s.ftp_log.line_seq(), outcome.log@)
            &&& f.ftp_log.shown() == s.ftp_log.shown()
            &&& f == (State { status_message: f.status_message, ftp_log: f.ftp_log, ..s })
            &&& f.status_message matches Some(m) && m@ == (match outcome.result {
                Ok(()) => op_done_text(),
                Err(e) => error_message(e.0),
            })
        }),
{
    apply_ftp_log(state, &outcome.log);
    on_local_op_finished(state, outcome.result)
}

/// What to reload to show both directories afresh: the local directory,
/// and the remote one with its connection and identifier when a connection
/// is selected and exists.
pub fn refresh_targets(state: &State) -> (r: (String, Option<(Connection, String, u128)>))
    ensures
        r.0 == state.local_path,
        match current_connection(*state) {
            Some(c) => r.1 == Some((c, state.remote_path, state.selected_connection->0)),
            None => r.1 is None,
        },
{
    let local = state.local_path.clone();
    let remote = match state.selected_connection {
        Some(id) => match state.connection_cloned(id) {
            Some(c) => Some((c, state.remote_path.clone(), id)),
            None => None,
        },
        None => None,
    };
    (local, remote)
}

/// Storing the preferences failed: the status bar says so.
pub fn settings_save_failed(state: &mut State, error: &str)
    ensures
        ({
            let s = *old(state);
            let f = *final(state);
            &&& f == (State { status_message: f.status_message, ..s })
            &&& f.status_message matches Some(m) && m@ == "Error al guardar preferencias: "@ + error@
        }),
{
    let mut m = "Error al guardar preferencias: ".to_string();
    m.append(error);
    state.status_message = Some(m);
}


/// The synchronisation panel is asked for: with the remote side connected
/// it opens, empty and analysing, and the selected connection (when it
/// exists) is returned for listing the remote directory; otherwise the user
/// is told to connect first.
pub fn open_sync_panel(state: &mut State) -> (r: Option<Connection>)
    ensures
        ({
            let s = *old(state);
            let f = *final(state);
            if s.remote_status == ConnectionStatus::Connected {
                &&& r == current_connection(s)
                &&& f == (State { sync_panel: f.sync_panel, ..s })
                &&& f.sync_panel matches Some(p) && p.entries@.len() == 0 && p.analyzing
            } else {
                &&& r is None
                &&& f == (State { toasts: f.toasts, ..s })
                &&& f.toasts@ == pushed_toasts(s.toasts@, f.toasts@.last())
                &&& f.toasts@.last().message@ == "Conéctate antes de sincronizar"@
                &&& f.toasts@.last().kind == ToastKind::Error
            }
        }),
{
    let connected = match state.remote_status {
        ConnectionStatus::Connected => true,
        _ => false,
    };
    if !connected {
        state.push_toast("Conéctate antes de sincronizar".to_string(), ToastKind::Error);
        return None;
    }
    state.sync_panel = Some(SyncState { entries: Vec::new(), analyzing: true });
    match state.selected_connection {
        Some(id) => state.connection_cloned(id),
        None => None,
    }
}

/// The synchronisation plan arrived: an open panel shows it and stops
/// analysing.
pub fn set_sync_plan(state: &mut State, entries: Vec<SyncEntry>)
    ensures
        ({
            let s = *old(state);
            let f = *final(state);
            match s.sync_panel {
                None => f == s,
                Some(_) => f == (State { sync_panel: Some(SyncState { entries, analyzing: false }), ..s }),
            }
        }),
{
    if state.sync_panel.is_some() {
        state.sync_panel = Some(SyncState { entries, analyzing: false });
    }
}

/// Position of the first plan entry called `n`.
pub open spec fn first_sync_entry(es: Seq<SyncEntry>, n: Seq<char>) -> Option<int> {
    if exists|i: int| 0 <= i < es.len() && es[i].name@ == n {
        Some(choose|i: int| 0 <= i < es.len() && es[i].name@ == n && forall|j: int| 0 <= j < i ==> es[j].name@ != n)
    } else {
        None
    }
}

/// The user chose `action` for name `name` in the open panel: the first
/// plan entry with that name takes it.
pub fn set_sync_action(state: &mut State, name: &str, action: SyncAction)
    ensures
        ({
            let s = *old(state);
            let f = *final(state);
            match s.sync_panel {
                None => f == s,
                Some(p) => match first_sync_entry(p.entries@, name@) {
                    None => f == s,
                    Some(i) => f == (State { sync_panel: f.sync_panel, ..s }) && (f.sync_panel matches Some(q)
                        && q.analyzing == p.analyzing && q.entries@ == p.entries@.update(
                        i,
                        SyncEntry { action, ..p.entries@[i] },
                    )),
                },
            }
        }),
{
    let mut cur: Option<SyncState> = None;
    std::mem::swap(&mut cur, &mut state.sync_panel);
    match cur {
        None => {},
        Some(mut panel) => {
            let ghost es = panel.entries@;
            let mut i: usize = 0;
            let mut found = false;
            while !found && i < panel.entries.len()
                invariant
                    panel.entries@ == es,
                    i <= es.len(),
                    forall|j: int| 0 <= j < i ==> es[j].name@ != name@,
                    found ==> i < es.len() && es[i as int].name@ == name@,
                decreases es.len() - i, (if found { 0int } else { 1int }),
            {
                if str_eq(panel.entries[i].name.as_str(), name) {
                    found = true;
                } else {
                    i = i + 1;
                }
            }
            proof {
                if found {
                    let c = choose|c: int| 0 <= c < es.len() && es[c].name@ == name@ && forall|j: int| 0 <= j < c ==> es[j].name@ != name@;
                    if c < i {
                        assert(es[c].name@ != name@);
                    }
                    if c > i {
                        assert(es[i as int].name@ != name@);
                    }
                }
            }
            if found {
                panel.entries[i].action = action;
                assert(panel.entries@ =~= es.update(i as int, SyncEntry { action, ..es[i as int] }));
            }
            state.sync_panel = Some(panel);
        },
    }
}

/// The plan is to be carried out: the panel closes, the user is told, and
/// its entries are returned for `apply_sync_actions`.
pub fn take_sync_plan(state: &mut State) -> (r: Option<Vec<SyncEntry>>)
    ensures
        ({
            let s = *old(state);
            let f = *final(state);
            match s.sync_panel {
                None => r is None && f == s,
                Some(p) => {
                    &&& r matches Some(es) && es@ == p.entries@
                    &&& f == (State { sync_panel: None, toasts: f.toasts, ..s })
                    &&& f.toasts@ == pushed_toasts(s.toasts@, f.toasts@.last())
                    &&& f.toasts@.last().message@ == "Sincronización encolada"@
                    &&& f.toasts@.last().kind == ToastKind::Success
                },
            }
        }),
{
    let mut cur: Option<SyncState> = None;
    std::mem::swap(&mut cur, &mut state.sync_panel);
    match cur {
        None => None,
        Some(panel) => {
            state.push_toast("Sincronización encolada".to_string(), ToastKind::Success);
            Some(panel.entries)
        },
    }
}

/// A remote file is to be opened in a local editor: the context menu
/// closes, and the selected connection (when it exists) and the remote
/// directory are returned for downloading the file.
pub fn remote_edit_request(state: &mut State) -> (r: Option<(Connection, String)>)
    ensures
        ({
            let s = *old(state);
            let f = *final(state);
            &&& f == (State { context_menu: None, ..s })
            &&& match current_connection(s) {
                Some(c) => r == Some((c, s.remote_path)),
                None => r is None,
            }
        }),
{
    state.context_menu = None;
    match state.selected_connection {
        Some(id) => match state.connection_cloned(id) {
            Some(c) => Some((c, state.remote_path.clone())),
            None => None,
        },
        None => None,
    }
}

/// Showing an error to the user.
pub fn notify_error(state: &mut State, error: AppErrorMsg)
    ensures
        ({
            let s = *old(state);
            let f = *final(state);
            &&& f == (State { toasts: f.toasts, ..s })
            &&& f.toasts@ == pushed_toasts(s.toasts@, f.toasts@.last())
            &&& f.toasts@.last().message@ == error_message(error.0)
            &&& f.toasts@.last().kind == ToastKind::Error
        }),
{
    state.push_toast(error.message(), ToastKind::Error);
}

/// The message after a remote file was opened for editing.
pub open spec fn opened_text(remote_dir: Seq<char>, filename: Seq<char>) -> Seq<char> {
    "Archivo abierto ("@ + join_remote_path_spec(remote_dir, filename) + "). Re-sube desde el menú contextual."@
}

/// A remote file downloaded to `temp_path` was handed to the local editor
/// (`opened` says how that went; the editor is only tried with a connection
/// selected). On success the edit is remembered for uploading it back, and
/// the user is told either way.
pub fn remote_edit_opened(
    state: &mut State,
    temp_path: String,
    remote_dir: String,
    filename: String,
    opened: Result<(), String>,
)
    ensures
        ({
            let s = *old(state);
            let f = *final(state);
            match s.selected_connection {
                None => f == s,
                Some(cid) => match opened {
                    Err(e) => {
                        &&& f == (State { toasts: f.toasts, ..s })
                        &&& f.toasts@ == pushed_toasts(s.toasts@, f.toasts@.last())
                        &&& f.toasts@.last().message@ == "No se pudo abrir el editor: "@ + e@
                        &&& f.toasts@.last().kind == ToastKind::Error
                    },
                    Ok(()) => {
                        &&& f == (State { pending_remote_edits: f.pending_remote_edits, toasts: f.toasts, ..s })
                        &&& f.pending_remote_edits@ == s.pending_remote_edits@.push(
                            RemoteEdit { temp_path, remote_dir, filename, connection_id: cid },
                        )
                        &&& f.toasts@ == pushed_toasts(s.toasts@, f.toasts@.last())
                        &&& f.toasts@.last().message@ == opened_text(remote_dir@, filename@)
                        &&& f.toasts@.last().kind == ToastKind::Info
                    },
                },
            }
        }),
{
    let cid = match state.selected_connection {
        Some(c) => c,
        None => return,
    };
    match opened {
        Err(e) => {
            let mut m = "No se pudo abrir el editor: ".to_string();
            m.append(e.as_str());
            state.push_toast(m, ToastKind::Error);
        },
        Ok(()) => {
            let path = join_remote_path(remote_dir.as_str(), filename.as_str());
            let mut m = "Archivo abierto (".to_string();
            m.append(path.as_str());
            m.append("). Re-sube desde el menú contextual.");
            state.pending_remote_edits.push(RemoteEdit { temp_path, remote_dir, filename, connection_id: cid });
            state.push_toast(m, ToastKind::Info);
        },
    }
}

/// Position of the first pending edit of local file `path`.
pub open spec fn first_edit(es: Seq<RemoteEdit>, path: Seq<char>) -> Option<int> {
    if exists|i: int| 0 <= i < es.len() && es[i].temp_path@ == path {
        Some(choose|i: int| 0 <= i < es.len() && es[i].temp_path@ == path && forall|j: int| 0 <= j < i ==> es[j].temp_path@ != path)
    } else {
        None
    }
}

/// An edited file is to be uploaded back: the first pending edit of
/// `temp_path` is queued as an upload of that file into its remote
/// directory, for its connection; `size` is the file's size when known.
/// Returns whether an upload was queued.
pub fn requeue_remote_edit(state: &mut State, temp_path: &str, size: Option<u64>) -> (r: bool)
    ensures
        ({
            let s = *old(state);
            let f = *final(state);
            match first_edit(s.pending_remote_edits@, temp_path@) {
                None => !r && f == s,
                Some(i) => {
                    let e = s.pending_remote_edits@[i];
                    let t = f.transfers@.last();
                    &&& r
                    &&& f == (State { transfers: f.transfers, ..s })
                    &&& f.transfers@.drop_last() == s.transfers@
                    &&& f.transfers@.len() == s.transfers@.len() + 1
                    &&& t.connection_id == e.connection_id && t.kind == TransferKind::Upload
                    &&& t.filename == e.filename && t.local_path == e.temp_path && t.remote_path == e.remote_dir
                    &&& t.total_bytes == size && t.transferred_bytes == 0 && t.resume_from == 0
                    &&& t.status == TransferStatus::Queued && t.id != 0
                },
            }
        }),
{
    let ghost es = state.pending_remote_edits@;
    let mut i: usize = 0;
    let mut found = false;
    while !found && i < state.pending_remote_edits.len()
        invariant
            state.pending_remote_edits@ == es,
            i <= es.len(),
            forall|j: int| 0 <= j < i ==> es[j].temp_path@ != temp_path@,
            found ==> i < es.len() && es[i as int].temp_path@ == temp_path@,
        decreases es.len() - i, (if found { 0int } else { 1int }),
    {
        if str_eq(state.pending_remote_edits[i].temp_path.as_str(), temp_path) {
            found = true;
        } else {
            i = i + 1;
        }
    }
    if !found {
        return false;
    }
    proof {
        let c = choose|c: int| 0 <= c < es.len() && es[c].temp_path@ == temp_path@ && forall|j: int| 0 <= j < c ==> es[j].temp_path@ != temp_path@;
        if c < i {
            assert(es[c].temp_path@ != temp_path@);
        }
        if c > i {
            assert(es[i as int].temp_path@ != temp_path@);
        }
    }
    let t = TransferEntry::queued(
        new_id(),
        state.pending_remote_edits[i].connection_id,
        TransferKind::Upload,
        state.pending_remote_edits[i].filename.clone(),
        state.pending_remote_edits[i].temp_path.clone(),
        state.pending_remote_edits[i].remote_dir.clone(),
        size,
    );
    let ghost before = state.transfers@;
    state.transfers.push(t);
    assert(state.transfers@.drop_last() =~= before);
    true
}

/// An edited file was uploaded back: its pending edits are dropped and the
/// user is told.
pub fn remote_edit_uploaded(state: &mut State, temp_path: &str)
    ensures
        ({
            let s = *old(state);
            let f = *final(state);
            &&& f == (State { pending_remote_edits: f.pending_remote_edits, toasts: f.toasts, ..s })
            &&& f.pending_remote_edits@ == s.pending_remote_edits@.filter(|e: RemoteEdit| e.temp_path@ != temp_path@)
            &&& f.toasts@ == pushed_toasts(s.toasts@, f.toasts@.last())
            &&& f.toasts@.last().message@ == "Edición remota subida"@
            &&& f.toasts@.last().kind == ToastKind::Success
        }),
{
    let ghost o = state.pending_remote_edits@;
    let mut kept: Vec<RemoteEdit> = Vec::new();
    let mut i: usize = 0;
    while i < state.pending_remote_edits.len()
        invariant
            state.pending_remote_edits@ == o,
            i <= o.len(),
            kept@ == o.take(i as int).filter(|e: RemoteEdit| e.temp_path@ != temp_path@),
        decreases o.len() - i,
    {
        proof {
            assert(o.take(i + 1).drop_last() =~= o.take(i as int));
            reveal(Seq::filter);
        }
        if !str_eq(state.pending_remote_edits[i].temp_path.as_str(), temp_path) {
            let e = RemoteEdit {
                temp_path: state.pending_remote_edits[i].temp_path.clone(),
                remote_dir: state.pending_remote_edits[i].remote_dir.clone(),
                filename: state.pending_remote_edits[i].filename.clone(),
                connection_id: state.pending_remote_edits[i].connection_id,
            };
            kept.push(e);
        }
        i = i + 1;
        assert(kept@ =~= o.take(i as int).filter(|e: RemoteEdit| e.temp_path@ != temp_path@));
    }
    assert(o.take(i as int) =~= o);
    state.pending_remote_edits = kept;
    state.push_toast("Edición remota subida".to_string(), ToastKind::Success);
}


/// The status text when files are dropped without a connected server.
pub open spec fn connect_first_text() -> Seq<char> {
    "Conéctate antes de soltar archivos"@
}

/// Files were dropped on the window: they can be uploaded only with a
/// connection selected and the remote side connected. Returns that
/// connection's identifier; otherwise the status bar asks to connect first.
pub fn drop_target(state: &mut State) -> (r: Option<u128>)
    ensures
        ({
            let s = *old(state);
            let f = *final(state);
            if s.selected_connection is Some && s.remote_status == ConnectionStatus::Connected {
                r == s.selected_connection && f == (State { drop_hover: false, ..s })
            } else {
                r is None && f == (State { drop_hover: false, status_message: f.status_message, ..s })
                    && (f.status_message matches Some(m) && m@ == connect_first_text())
            }
        }),
{
    state.drop_hover = false;
    let connected = match state.remote_status {
        ConnectionStatus::Connected => true,
        _ => false,
    };
    match state.selected_connection {
        Some(cid) => if connected {
            Some(cid)
        } else {
            state.status_message = Some("Conéctate antes de soltar archivos".to_string());
            None
        },
        None => {
            state.status_message = Some("Conéctate antes de soltar archivos".to_string());
            None
        },
    }
}

/// A file to upload that was dropped on the window: its name, its path on
/// this machine and its size when known.
pub struct DroppedFile {
    pub filename: String,
    pub local_path: String,
    pub size: Option<u64>,
}

/// The queued upload that dropped file `d` becomes.
pub open spec fn dropped_upload(s: State, cid: u128, d: DroppedFile, t: TransferEntry) -> bool {
    &&& t.connection_id == cid
    &&& t.kind == TransferKind::Upload
    &&& t.filename == d.filename
    &&& t.local_path == d.local_path
    &&& t.remote_path == s.remote_path
    &&& t.total_bytes == d.size
    &&& t.transferred_bytes == 0
    &&& t.resume_from == 0
    &&& t.status == TransferStatus::Queued
    &&& t.id != 0
}

/// The files found where something was dropped are queued as uploads into
/// the remote directory for connection `cid`. `files` is the error text when
/// the dropped directory could not be read; `skipped_dirs` tells whether
/// directories inside it were left out. The status bar explains when
/// nothing was queued or directories were left out. Returns whether
/// anything was queued.
pub fn enqueue_dropped(state: &mut State, cid: u128, files: Result<Vec<DroppedFile>, String>, skipped_dirs: bool) -> (r: bool)
    ensures
        ({
            let s = *old(state);
            let f = *final(state);
            match files {
                Err(e) => !r && f == (State { status_message: Some(e), ..s }),
                Ok(v) => if v@.len() == 0 {
                    !r && f == (State { status_message: f.status_message, ..s }) && (f.status_message matches Some(
                        m,
                    ) && m@ == (if skipped_dirs {
                        "Solo se suben archivos sueltos; las carpetas anidadas se ignoran"@
                    } else {
                        "No hay archivos para subir"@
                    }))
                } else {
                    &&& r
                    &&& f == (State { transfers: f.transfers, status_message: f.status_message, ..s })
                    &&& f.transfers@.len() == s.transfers@.len() + v@.len()
                    &&& f.transfers@.take(s.transfers@.len() as int) == s.transfers@
                    &&& forall|k: int| 0 <= k < v@.len() ==> dropped_upload(s, cid, #[trigger] v@[k], f.transfers@[s.transfers@.len() + k])
                    &&& if skipped_dirs {
                        f.status_message matches Some(m) && m@ == "Carpetas anidadas ignoradas; solo archivos del nivel superior"@
                    } else {
                        f.status_message == s.status_message
                    }
                },
            }
        }),
{
    let files = match files {
        Err(e) => {
            state.status_message = Some(e);
            return false;
        },
        Ok(v) => v,
    };
    if files.len() == 0 {
        if skipped_dirs {
            state.status_message = Some("Solo se suben archivos sueltos; las carpetas anidadas se ignoran".to_string());
        } else {
            state.status_message = Some("No hay archivos para subir".to_string());
        }
        return false;
    }
    let ghost s = *state;
    let n0 = state.transfers.len();
    let mut j: usize = 0;
    while j < files.len()
        invariant
            j <= files@.len(),
            *state == (State { transfers: state.transfers, ..s }),
            n0 == s.transfers@.len(),
            state.transfers@.len() == n0 + j,
            state.transfers@.take(n0 as int) == s.transfers@,
            forall|k: int| 0 <= k < j ==> dropped_upload(s, cid, #[trigger] files@[k], state.transfers@[n0 + k]),
        decreases files@.len() - j,
    {
        let t = TransferEntry::queued(
            new_id(),
            cid,
            TransferKind::Upload,
            files[j].filename.clone(),
            files[j].local_path.clone(),
            state.remote_path.clone(),
            files[j].size,
        );
        let ghost before = state.transfers@;
        state.transfers.push(t);
        proof {
            assert(state.transfers@.take(n0 as int) =~= before.take(n0 as int));
            assert forall|m: int| 0 <= m < j + 1 implies dropped_upload(s, cid, #[trigger] files@[m], state.transfers@[n0 + m]) by {
                if m < j {
                    assert(state.transfers@[n0 + m] == before[n0 + m]);
                }
            }
        }
        j = j + 1;
    }
    if skipped_dirs {
        state.status_message = Some("Carpetas anidadas ignoradas; solo archivos del nivel superior".to_string());
    }
    true
}

} // verus!
