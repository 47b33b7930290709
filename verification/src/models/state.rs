//! The interface state: connections, both panels, dialogs, the transfer
//! queue, notifications, preferences and the command log.

use vstd::prelude::*;
use crate::models::connection::{Connection, ConnectionStatus};
use crate::models::connection_form::ConnectionForm;
use crate::models::context_menu::ContextMenu;
use crate::models::ftp_entry::FtpEntry;
use crate::models::ftp_log::FtpLog;
use crate::models::names::{clear_names, distinct_names, name_set};
use crate::models::panel::PanelKind;
use crate::models::prompt::PromptDialog;
use crate::models::quickconnect::QuickconnectForm;
use crate::models::remote_edit::RemoteEdit;
use crate::models::settings::{AppSettings, display_value_spec};
use crate::models::sort::{SortKey, SortOrder, SortSpec};
use crate::models::sync::SyncState;
use crate::models::toast::{TOAST_SECONDS, Toast, ToastKind, elapsed_secs, expired_after};
use crate::models::transfer::{
    TransferEntry, active_count, active_transfer_count, queued_count, queued_transfer_count,
    transfer_index,
};

verus! {

/// Most notifications on screen at once; older ones go first.
pub const MAX_TOASTS: usize = 5;

/// The interface state. Selections hold each name once; `shift_held` and
/// `command_held` mirror the keyboard modifiers.
pub struct State {
    pub connections: Vec<Connection>,
    pub selected_connection: Option<u128>,
    pub quickconnect_expanded: bool,
    pub quickconnect: QuickconnectForm,
    pub connection_form: Option<ConnectionForm>,
    pub remote_status: ConnectionStatus,
    pub remote_path: String,
    pub remote_entries: Vec<FtpEntry>,
    pub remote_loading: bool,
    pub selected_remote: Vec<String>,
    pub last_clicked_remote: Option<String>,
    pub sort_remote: SortSpec,
    pub filter_remote: String,
    pub local_path: String,
    pub local_entries: Vec<FtpEntry>,
    pub local_loading: bool,
    pub selected_local: Vec<String>,
    pub last_clicked_local: Option<String>,
    pub sort_local: SortSpec,
    pub filter_local: String,
    pub context_menu: Option<ContextMenu>,
    pub prompt: Option<PromptDialog>,
    pub focused_panel: PanelKind,
    pub shift_held: bool,
    pub command_held: bool,
    pub drop_hover: bool,
    pub sync_panel: Option<SyncState>,
    pub transfers: Vec<TransferEntry>,
    pub queue_panel_visible: bool,
    pub pending_remote_edits: Vec<RemoteEdit>,
    pub status_message: Option<String>,
    pub toasts: Vec<Toast>,
    pub settings: AppSettings,
    pub settings_modal_open: bool,
    pub settings_custom_draft: String,
    pub settings_bandwidth_draft: String,
    pub ftp_log: FtpLog,
}

/// The selection of a panel.
pub open spec fn selection_of(s: State, panel: PanelKind) -> Seq<String> {
    match panel {
        PanelKind::Local => s.selected_local@,
        PanelKind::Remote => s.selected_remote@,
    }
}

/// The listing of a panel.
pub open spec fn entries_of(s: State, panel: PanelKind) -> Seq<FtpEntry> {
    match panel {
        PanelKind::Local => s.local_entries@,
        PanelKind::Remote => s.remote_entries@,
    }
}

/// Both selections hold each name once.
pub open spec fn selections_distinct(s: State) -> bool {
    distinct_names(s.selected_local@) && distinct_names(s.selected_remote@)
}

/// The notifications kept after adding `t`: the newest `MAX_TOASTS`.
pub open spec fn pushed_toasts(ts: Seq<Toast>, t: Toast) -> Seq<Toast> {
    let s = ts.push(t);
    if s.len() > MAX_TOASTS {
        s.skip(s.len() - MAX_TOASTS)
    } else {
        s
    }
}

/// The first `n` notifications of `ts` that have been shown for less than
/// `TOAST_SECONDS`, in order; `elapsed[i]` is how long the `i`-th one has
/// been shown, in whole seconds.
pub open spec fn fresh_toasts(ts: Seq<Toast>, elapsed: Seq<u64>, n: int) -> Seq<Toast>
    decreases n,
{
    if n <= 0 {
        Seq::empty()
    } else if elapsed[n - 1] >= TOAST_SECONDS {
        fresh_toasts(ts, elapsed, n - 1)
    } else {
        fresh_toasts(ts, elapsed, n - 1).push(ts[n - 1])
    }
}

/// Position of the first connection with identifier `id`.
pub open spec fn connection_position(cs: Seq<Connection>, id: u128) -> Option<int> {
    if exists|i: int| 0 <= i < cs.len() && cs[i].id == id {
        Some(choose|i: int| 0 <= i < cs.len() && cs[i].id == id && forall|j: int| 0 <= j < i ==> cs[j].id != id)
    } else {
        None
    }
}

/// Position of the first connection with identifier `id`.
pub fn find_connection(cs: &Vec<Connection>, id: u128) -> (r: Option<usize>)
    ensures
        match r {
            Some(i) => i < cs@.len() && connection_position(cs@, id) == Some(i as int),
            None => connection_position(cs@, id) is None,
        },
{
    let mut i: usize = 0;
    while i < cs.len()
        invariant
            i <= cs@.len(),
            forall|j: int| 0 <= j < i ==> cs@[j].id != id,
        decreases cs@.len() - i,
    {
        if cs[i].id == id {
            proof {
                let c = choose|c: int|
                    0 <= c < cs@.len() && cs@[c].id == id && forall|j: int| 0 <= j < c ==> cs@[j].id != id;
                if c < i {
                    assert(cs@[c].id != id);
                }
                if c > i {
                    assert(cs@[i as int].id != id);
                }
            }
            return Some(i);
        }
        i = i + 1;
    }
    None
}

impl State {
    /// The state at start-up: the saved connections and preferences, the
    /// remote side disconnected at `/`, the local panel at `home`, nothing
    /// selected, queued or shown.
    pub fn initial(connections: Vec<Connection>, settings: AppSettings, home: String) -> (r: Self)
        ensures
            r.connections == connections,
            r.settings == settings,
            r.local_path == home,
            r.remote_path@ == "/"@,
            r.selected_connection is None,
            r.remote_status == ConnectionStatus::Disconnected,
            r.selected_local@.len() == 0,
            r.selected_remote@.len() == 0,
            r.transfers@.len() == 0,
            r.toasts@.len() == 0,
            r.focused_panel == PanelKind::Local,
            r.prompt is None,
            r.context_menu is None,
            r.connection_form is None,
            r.settings_bandwidth_draft@ == display_value_spec(settings.bandwidth),
            !r.ftp_log.shown(),
            r.ftp_log.line_seq().len() == 0,
            selections_distinct(r),
            !r.quickconnect_expanded,
            r.quickconnect.host@.len() == 0,
            r.quickconnect.port@ == "21"@,
            r.quickconnect.username@.len() == 0,
            r.quickconnect.password@.len() == 0,
            r.quickconnect.error is None,
            r.remote_entries@.len() == 0,
            r.local_entries@.len() == 0,
            !r.remote_loading,
            !r.local_loading,
            r.last_clicked_remote is None,
            r.last_clicked_local is None,
            r.sort_remote == (SortSpec { key: SortKey::Name, order: SortOrder::Asc }),
            r.sort_local == (SortSpec { key: SortKey::Name, order: SortOrder::Asc }),
            r.filter_remote@.len() == 0,
            r.filter_local@.len() == 0,
            !r.shift_held,
            !r.command_held,
            !r.drop_hover,
            r.sync_panel is None,
            !r.queue_panel_visible,
            r.pending_remote_edits@.len() == 0,
            r.status_message is None,
            !r.settings_modal_open,
            r.settings_custom_draft@.len() == 0,
    {
        let draft = settings.bandwidth.display_value();
        State {
            connections,
            selected_connection: None,
            quickconnect_expanded: false,
            quickconnect: QuickconnectForm::new(),
            connection_form: None,
            remote_status: ConnectionStatus::Disconnected,
            remote_path: "/".to_string(),
            remote_entries: Vec::new(),
            remote_loading: false,
            selected_remote: Vec::new(),
            last_clicked_remote: None,
            sort_remote: SortSpec::default(),
            filter_remote: String::new(),
            local_path: home,
            local_entries: Vec::new(),
            local_loading: false,
            selected_local: Vec::new(),
            last_clicked_local: None,
            sort_local: SortSpec::default(),
            filter_local: String::new(),
            context_menu: None,
            prompt: None,
            focused_panel: PanelKind::Local,
            shift_held: false,
            command_held: false,
            drop_hover: false,
            sync_panel: None,
            transfers: Vec::new(),
            queue_panel_visible: false,
            pending_remote_edits: Vec::new(),
            status_message: None,
            toasts: Vec::new(),
            settings,
            settings_modal_open: false,
            settings_custom_draft: String::new(),
            settings_bandwidth_draft: draft,
            ftp_log: FtpLog::default(),
        }
    }

    /// The connection with identifier `id`, the first if several have it.
    pub fn connection(&self, id: u128) -> (r: Option<&Connection>)
        ensures
            match connection_position(self.connections@, id) {
                Some(i) => r == Some(&self.connections@[i]),
                None => r is None,
            },
    {
        match find_connection(&self.connections, id) {
            Some(i) => Some(&self.connections[i]),
            None => None,
        }
    }

    /// A copy of the connection with identifier `id`.
    pub fn connection_cloned(&self, id: u128) -> (r: Option<Connection>)
        ensures
            match connection_position(self.connections@, id) {
                Some(i) => r == Some(self.connections@[i]),
                None => r is None,
            },
    {
        match find_connection(&self.connections, id) {
            Some(i) => Some(self.connections[i].duplicate()),
            None => None,
        }
    }

    /// The first running transfer.
    pub fn active_transfer(&self) -> (r: Option<&TransferEntry>)
        ensures
            match r {
                Some(t) => exists|i: int|
                    0 <= i < self.transfers@.len() && self.transfers@[i] == *t && t.status is Active
                        && forall|j: int| 0 <= j < i ==> !(self.transfers@[j].status is Active),
                None => forall|j: int| 0 <= j < self.transfers@.len() ==> !(self.transfers@[j].status is Active),
            },
    {
        let mut i: usize = 0;
        while i < self.transfers.len()
            invariant
                i <= self.transfers@.len(),
                forall|j: int| 0 <= j < i ==> !(self.transfers@[j].status is Active),
            decreases self.transfers@.len() - i,
        {
            if self.transfers[i].status.is_active() {
                return Some(&self.transfers[i]);
            }
            i = i + 1;
        }
        None
    }

    /// Number of running transfers.
    pub fn active_transfer_count(&self) -> (r: usize)
        ensures
            r == active_count(self.transfers@),
    {
        active_transfer_count(&self.transfers)
    }

    /// Number of transfers waiting for a slot.
    pub fn queued_count(&self) -> (r: usize)
        ensures
            r == queued_count(self.transfers@),
    {
        queued_transfer_count(&self.transfers)
    }

    /// Position of transfer `id` in the queue.
    pub fn transfer_index(&self, id: u128) -> (r: Option<usize>)
        ensures
            match r {
                Some(i) => i < self.transfers@.len() && self.transfers@[i as int].id == id && forall|j: int|
                    0 <= j < i ==> self.transfers@[j].id != id,
                None => forall|j: int| 0 <= j < self.transfers@.len() ==> self.transfers@[j].id != id,
            },
    {
        transfer_index(&self.transfers, id)
    }

    /// The names selected in a panel.
    pub fn selected_for_panel(&self, panel: PanelKind) -> (r: &Vec<String>)
        ensures
            r@ == selection_of(*self, panel),
    {
        match panel {
            PanelKind::Local => &self.selected_local,
            PanelKind::Remote => &self.selected_remote,
        }
    }

    /// Deselects everything in a panel.
    pub fn clear_selection(&mut self, panel: PanelKind)
        requires
            selections_distinct(*old(self)),
        ensures
            selections_distinct(*final(self)),
            name_set(selection_of(*final(self), panel)) == Set::<Seq<char>>::empty(),
            panel == PanelKind::Local ==> *final(self) == (State {
                selected_local: final(self).selected_local,
                ..*old(self)
            }),
            panel == PanelKind::Remote ==> *final(self) == (State {
                selected_remote: final(self).selected_remote,
                ..*old(self)
            }),
    {
        match panel {
            PanelKind::Local => clear_names(&mut self.selected_local),
            PanelKind::Remote => clear_names(&mut self.selected_remote),
        }
    }

    /// The listing of a panel.
    pub fn entries_for_panel(&self, panel: PanelKind) -> (r: &[FtpEntry])
        ensures
            r@ == entries_of(*self, panel),
    {
        match panel {
            PanelKind::Local => self.local_entries.as_slice(),
            PanelKind::Remote => self.remote_entries.as_slice(),
        }
    }

    /// Shows a notification; beyond `MAX_TOASTS` the oldest ones go.
    pub fn push_toast(&mut self, message: String, kind: ToastKind)
        ensures
            final(self).toasts@.len() <= MAX_TOASTS,
            final(self).toasts@.len() > 0,
            final(self).toasts@.last().message == message,
            final(self).toasts@.last().kind == kind,
            final(self).toasts@ == pushed_toasts(old(self).toasts@, final(self).toasts@.last()),
            *final(self) == (State { toasts: final(self).toasts, ..*old(self) }),
    {
        let t = Toast::new(message, kind);
        let mut ts: Vec<Toast> = Vec::new();
        std::mem::swap(&mut ts, &mut self.toasts);
        let ghost s = ts@.push(t);
        ts.push(t);
        let ghost mut dropped: int = 0;
        while ts.len() > MAX_TOASTS
            invariant
                ts@ == s.skip(dropped),
                0 <= dropped <= s.len(),
                dropped > 0 ==> s.len() - dropped >= MAX_TOASTS,
            decreases ts@.len(),
        {
            ts.remove(0);
            proof {
                dropped = dropped + 1;
            }
            assert(ts@ =~= s.skip(dropped));
        }
        assert(s.skip(0) =~= s);
        assert(ts@.last() == t);
        self.toasts = ts;
    }

    /// Keeps the notifications that have been shown for less than
    /// `TOAST_SECONDS`, in order, where `elapsed[i]` is how many whole
    /// seconds the `i`-th one has been shown.
    pub fn expire_after(&mut self, elapsed: &Vec<u64>)
        requires
            elapsed@.len() == old(self).toasts@.len(),
        ensures
            final(self).toasts@ == fresh_toasts(old(self).toasts@, elapsed@, old(self).toasts@.len() as int),
            *final(self) == (State { toasts: final(self).toasts, ..*old(self) }),
    {
        let ghost o = self.toasts@;
        let mut rest: Vec<Toast> = Vec::new();
        std::mem::swap(&mut rest, &mut self.toasts);
        let mut back: Vec<Toast> = Vec::new();
        let n = rest.len();
        let mut i: usize = 0;
        while i < n
            invariant
                rest@.len() == n - i,
                i <= n,
                n == o.len(),
                rest@ == o.take(n - i),
                back@.len() == i,
                forall|k: int| 0 <= k < i ==> #[trigger] back@[k] == o[n - 1 - k],
            decreases n - i,
        {
            let t = rest.pop().unwrap();
            back.push(t);
            i = i + 1;
            assert(rest@ =~= o.take(n - i));
        }
        let mut kept: Vec<Toast> = Vec::new();
        i = 0;
        while i < n
            invariant
                back@.len() == n - i,
                i <= n,
                n == o.len(),
                elapsed@.len() == n,
                forall|k: int| 0 <= k < n - i ==> #[trigger] back@[k] == o[n - 1 - k],
                kept@ == fresh_toasts(o, elapsed@, i as int),
            decreases n - i,
        {
            let t = back.pop().unwrap();
            assert(t == o[i as int]);
            if !expired_after(elapsed[i]) {
                kept.push(t);
            }
            i = i + 1;
        }
        self.toasts = kept;
    }

    /// Removes the notifications that have been shown long enough, keeping
    /// the others in order. How long each has been shown is read from the
    /// clock; `expire_after` states what is kept for each reading.
    pub fn expire_toasts(&mut self)
        ensures
            exists|elapsed: Seq<u64>|
                elapsed.len() == old(self).toasts@.len() && final(self).toasts@ == #[trigger] fresh_toasts(
                    old(self).toasts@,
                    elapsed,
                    old(self).toasts@.len() as int,
                ),
            *final(self) == (State { toasts: final(self).toasts, ..*old(self) }),
    {
        let mut elapsed: Vec<u64> = Vec::new();
        let mut i: usize = 0;
        while i < self.toasts.len()
            invariant
                i <= self.toasts@.len(),
                elapsed@.len() == i,
            decreases self.toasts@.len() - i,
        {
            elapsed.push(elapsed_secs(&self.toasts[i].created_at));
            i = i + 1;
        }
        self.expire_after(&elapsed);
    }
}

} // verus!
