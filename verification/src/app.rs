//! The decisions of the interface, apart from drawing and I/O: what a key,
//! a click or a finished task does to the state, and which work it asks for.

use vstd::prelude::*;
use crate::error::{AppError, AppErrorMsg, error_message};
use crate::ftp::sftp::{entry_stamp, entry_timestamp, parse_modified};
use crate::ids::new_id;
use crate::models::connection::{Connection, ConnectionStatus};
use crate::models::context_menu::ContextMenu;
use crate::models::ftp_entry::FtpEntry;
use crate::models::ftp_log::pushed_lines;
use crate::models::ftp_task::FtpTaskResult;
use crate::models::names::{clear_names, contains_name, distinct_names, insert_name, name_set, remove_name};
use crate::models::panel::PanelKind;
use crate::models::prompt::{PromptDialog, validate_entry_name, validate_entry_name_spec};
use crate::models::settings::{AppSettings, Bandwidth, display_value_spec, from_kbps_input_spec, in_custom_hidden};
use crate::models::sort::{apply_view, view_entries};
use crate::models::state::{
    State, connection_position, entries_of, pushed_toasts, selection_of, selections_distinct,
};
use crate::models::sync::{SyncAction, SyncEntry, is_sync_plan, plan_sync};
use crate::models::toast::ToastKind;
use crate::models::transfer::{
    TransferEntry, TransferKind, TransferOutcome, TransferStatus, active_count, finish_transfer, first_finished, first_with_id,
    marked_active, positions_to_start, requeue_transfer, start_queued, with_again, with_outcome,
};
use crate::text::{ends_with_char, starts_with_char, str_eq, trim, trim_spec};

verus! {

/// `name` inside local directory `base`, as `PathBuf::push` joins on Unix:
/// an absolute `name` replaces `base`, and one `/` separates them unless
/// `base` is empty or already ends with one. The separator is always `/`,
/// which Windows paths accept as well, so on Windows the text can differ
/// from what `PathBuf::push` gives (`\` there) while naming the same file.
pub open spec fn join_local_spec(base: Seq<char>, name: Seq<char>) -> Seq<char> {
    if starts_with_char(name, '/') || base.len() == 0 {
        name
    } else if ends_with_char(base, '/') {
        base + name
    } else {
        base + "/"@ + name
    }
}

/// `name` inside local directory `base`.
pub fn join_local_path(base: &str, name: &str) -> (r: String)
    ensures
        r@ == join_local_spec(base@, name@),
{
    let n = base.unicode_len();
    if (name.unicode_len() > 0 && name.get_char(0) == '/') || n == 0 {
        return name.to_string();
    }
    let mut r = base.to_string();
    if base.get_char(n - 1) != '/' {
        r.append("/");
    }
    r.append(name);
    r
}

/// Number of `/` characters at the end of `s`.
pub open spec fn slash_suffix_len(s: Seq<char>) -> nat
    decreases s.len(),
{
    if s.len() > 0 && s.last() == '/' {
        1 + slash_suffix_len(s.drop_last())
    } else {
        0
    }
}

/// `s` without its trailing `/` characters (`trim_end_matches('/')`).
pub open spec fn trim_slashes_end(s: Seq<char>) -> Seq<char> {
    s.take(s.len() - slash_suffix_len(s))
}

proof fn lemma_slash_suffix_len(s: Seq<char>, j: int)
    requires
        0 <= j <= s.len(),
        forall|k: int| j <= k < s.len() ==> #[trigger] s[k] == '/',
        j == 0 || s[j - 1] != '/',
    ensures
        slash_suffix_len(s) == s.len() - j,
    decreases s.len() - j,
{
    if j < s.len() {
        let t = s.drop_last();
        assert forall|k: int| j <= k < t.len() implies #[trigger] t[k] == '/' by {
            assert(t[k] == s[k]);
        }
        if j > 0 {
            assert(t[j - 1] == s[j - 1]);
        }
        lemma_slash_suffix_len(t, j);
    }
}

/// `s` without its trailing `/` characters.
pub fn trim_end_slashes(s: &str) -> (r: &str)
    ensures
        r@ == trim_slashes_end(s@),
{
    let mut j = s.unicode_len();
    while j > 0 && s.get_char(j - 1) == '/'
        invariant
            j <= s@.len(),
            forall|k: int| j <= k < s@.len() ==> #[trigger] s@[k] == '/',
        decreases j,
    {
        j = j - 1;
    }
    proof {
        lemma_slash_suffix_len(s@, j as int);
        assert(trim_slashes_end(s@) =~= s@.subrange(0, j as int));
    }
    s.substring_char(0, j)
}

/// `name` inside remote directory `base`: `base` without trailing slashes,
/// one `/`, then `name`.
pub open spec fn join_remote_path_spec(base: Seq<char>, name: Seq<char>) -> Seq<char> {
    trim_slashes_end(base) + "/"@ + name
}

/// `name` inside remote directory `base`.
pub fn join_remote_path(base: &str, name: &str) -> (r: String)
    ensures
        r@ == join_remote_path_spec(base@, name@),
{
    let mut r = trim_end_slashes(base).to_string();
    r.append("/");
    r.append(name);
    r
}

/// Position of the first name equal to `n`.
pub open spec fn first_name_pos(names: Seq<String>, n: Seq<char>) -> Option<int> {
    if exists|i: int| 0 <= i < names.len() && names[i]@ == n {
        Some(choose|i: int| 0 <= i < names.len() && names[i]@ == n && forall|j: int| 0 <= j < i ==> names[j]@ != n)
    } else {
        None
    }
}

/// The names between positions `a` and `c`, both included.
pub open spec fn names_between(names: Seq<String>, a: int, c: int) -> Set<Seq<char>> {
    let lo = if a <= c {
        a
    } else {
        c
    };
    let hi = if a <= c {
        c
    } else {
        a
    };
    Set::new(|n: Seq<char>| exists|k: int| lo <= k <= hi && #[trigger] names[k]@ == n)
}

/// The selection after clicking `name` in a panel whose visible names are
/// `names`. Shift extends from the last clicked name (adding to the
/// selection with the command key held, replacing it otherwise), the
/// command key toggles one name, and a plain click selects just that name.
pub open spec fn selection_after(
    names: Seq<String>,
    selected: Set<Seq<char>>,
    last: Option<Seq<char>>,
    name: Seq<char>,
    shift: bool,
    command: bool,
) -> Set<Seq<char>> {
    if shift {
        match last {
            Some(anchor) => match (first_name_pos(names, anchor), first_name_pos(names, name)) {
                (Some(a), Some(c)) => (if command {
                    selected
                } else {
                    Set::empty()
                }).union(names_between(names, a, c)),
                _ => selected,
            },
            None => Set::empty().insert(name),
        }
    } else if command {
        if selected.contains(name) {
            selected.remove(name)
        } else {
            selected.insert(name)
        }
    } else {
        Set::empty().insert(name)
    }
}

fn first_name_position(names: &Vec<String>, n: &str) -> (r: Option<usize>)
    ensures
        match r {
            Some(i) => i < names@.len() && first_name_pos(names@, n@) == Some(i as int),
            None => first_name_pos(names@, n@) is None,
        },
{
    let mut i: usize = 0;
    while i < names.len()
        invariant
            i <= names@.len(),
            forall|j: int| 0 <= j < i ==> names@[j]@ != n@,
        decreases names@.len() - i,
    {
        if str_eq(names[i].as_str(), n) {
            proof {
                let s = names@;
                let c = choose|c: int| 0 <= c < s.len() && s[c]@ == n@ && forall|j: int| 0 <= j < c ==> s[j]@ != n@;
                if c < i {
                    assert(s[c]@ != n@);
                }
                if c > i {
                    assert(s[i as int]@ != n@);
                }
            }
            return Some(i);
        }
        i = i + 1;
    }
    None
}

/// Applies a click on `name` to a selection; see `selection_after`.
pub fn select_name(
    names: &Vec<String>,
    selected: &mut Vec<String>,
    last_clicked: &mut Option<String>,
    name: String,
    shift: bool,
    command: bool,
)
    requires
        distinct_names(old(selected)@),
    ensures
        distinct_names(final(selected)@),
        name_set(final(selected)@) == selection_after(
            names@,
            name_set(old(selected)@),
            match *old(last_clicked) {
                Some(s) => Some(s@),
                None => None,
            },
            name@,
            shift,
            command,
        ),
        *final(last_clicked) == Some(name),
{
    let ghost old_set = name_set(selected@);
    if shift {
        match last_clicked {
            Some(anchor) => {
                let a = first_name_position(names, anchor.as_str());
                let c = first_name_position(names, name.as_str());
                match (a, c) {
                    (Some(a), Some(c)) => {
                        let (start, end) = if a <= c {
                            (a, c)
                        } else {
                            (c, a)
                        };
                        if !command {
                            clear_names(selected);
                        }
                        let ghost base = name_set(selected@);
                        let nlen = names.len();
                        let mut k = start;
                        while k <= end
                            invariant
                                start <= k <= end + 1,
                                end < names@.len(),
                                nlen == names@.len(),
                                distinct_names(selected@),
                                name_set(selected@) == base.union(
                                    Set::new(|n: Seq<char>| exists|m: int| start <= m < k && #[trigger] names@[m]@ == n),
                                ),
                            decreases end + 1 - k,
                        {
                            let ghost before = name_set(selected@);
                            insert_name(selected, names[k].clone());
                            proof {
                                assert(name_set(selected@) =~= base.union(
                                    Set::new(|n: Seq<char>| exists|m: int| start <= m < k + 1 && #[trigger] names@[m]@ == n),
                                )) by {
                                    assert forall|n: Seq<char>| Set::new(|n: Seq<char>| exists|m: int| start <= m < k + 1 && #[trigger] names@[m]@ == n).contains(n)
                                        implies name_set(selected@).contains(n) by {
                                        let m = choose|m: int| start <= m < k + 1 && #[trigger] names@[m]@ == n;
                                        if m < k {
                                            assert(Set::new(|n: Seq<char>| exists|m: int| start <= m < k && #[trigger] names@[m]@ == n).contains(n));
                                        }
                                    }
                                    assert forall|n: Seq<char>| name_set(selected@).contains(n)
                                        implies base.union(Set::new(|n: Seq<char>| exists|m: int| start <= m < k + 1 && #[trigger] names@[m]@ == n)).contains(n) by {
                                        if n != names@[k as int]@ && !base.contains(n) {
                                            assert(before.contains(n));
                                            let m = choose|m: int| start <= m < k && #[trigger] names@[m]@ == n;
                                        }
                                    }
                                }
                            }
                            k = k + 1;
                        }
                        proof {
                            assert(Set::new(|n: Seq<char>| exists|m: int| start <= m < k && #[trigger] names@[m]@ == n)
                                =~= names_between(names@, a as int, c as int));
                            if command {
                                assert(base == old_set);
                            } else {
                                assert(base =~= Set::<Seq<char>>::empty());
                            }
                        }
                    },
                    _ => {},
                }
            },
            None => {
                clear_names(selected);
                insert_name(selected, name.clone());
                assert(name_set(selected@) =~= Set::<Seq<char>>::empty().insert(name@));
            },
        }
    } else if command {
        if contains_name(selected, name.as_str()) {
            remove_name(selected, name.as_str());
        } else {
            insert_name(selected, name.clone());
        }
    } else {
        clear_names(selected);
        insert_name(selected, name.clone());
        assert(name_set(selected@) =~= Set::<Seq<char>>::empty().insert(name@));
    }
    *last_clicked = Some(name);
}


/// The names a panel shows, in display order.
pub open spec fn visible_names(s: State, panel: PanelKind) -> Seq<String> {
    let (entries, sort, filter) = match panel {
        PanelKind::Local => (s.local_entries@, s.sort_local, s.filter_local@),
        PanelKind::Remote => (s.remote_entries@, s.sort_remote, s.filter_remote@),
    };
    view_entries(entries, sort, filter, s.settings).map_values(|e: FtpEntry| e.name)
}

/// The last clicked name of a panel.
pub open spec fn last_clicked_of(s: State, panel: PanelKind) -> Option<String> {
    match panel {
        PanelKind::Local => s.last_clicked_local,
        PanelKind::Remote => s.last_clicked_remote,
    }
}

/// The text of an optional name.
pub open spec fn opt_text(o: Option<String>) -> Option<Seq<char>> {
    match o {
        Some(s) => Some(s@),
        None => None,
    }
}

/// The names a panel shows, in display order.
pub fn panel_visible_names(state: &State, panel: PanelKind) -> (r: Vec<String>)
    ensures
        r@ == visible_names(*state, panel),
{
    let visible = match panel {
        PanelKind::Local => apply_view(
            state.local_entries.as_slice(),
            state.sort_local,
            state.filter_local.as_str(),
            &state.settings,
        ),
        PanelKind::Remote => apply_view(
            state.remote_entries.as_slice(),
            state.sort_remote,
            state.filter_remote.as_str(),
            &state.settings,
        ),
    };
    let ghost v = match panel {
        PanelKind::Local => view_entries(state.local_entries@, state.sort_local, state.filter_local@, state.settings),
        PanelKind::Remote => view_entries(state.remote_entries@, state.sort_remote, state.filter_remote@, state.settings),
    };
    let mut names: Vec<String> = Vec::new();
    let mut i: usize = 0;
    while i < visible.len()
        invariant
            i <= visible@.len(),
            visible@.len() == v.len(),
            forall|k: int| 0 <= k < visible@.len() ==> *visible@[k] == #[trigger] v[k],
            names@.len() == i,
            forall|k: int| 0 <= k < i ==> #[trigger] names@[k] == v[k].name,
        decreases visible@.len() - i,
    {
        names.push(visible[i].name.clone());
        i = i + 1;
    }
    assert(names@ =~= v.map_values(|e: FtpEntry| e.name));
    names
}

/// A click on `name` in a file panel, with the modifier keys of the click
/// or those held down: updates that panel's selection (see
/// `selection_after`, over the names the panel shows) and its last clicked
/// name.
pub fn handle_file_selection(state: &mut State, panel: PanelKind, name: String, shift: bool, ctrl: bool)
    requires
        selections_distinct(*old(state)),
    ensures
        selections_distinct(*final(state)),
        name_set(selection_of(*final(state), panel)) == selection_after(
            visible_names(*old(state), panel),
            name_set(selection_of(*old(state), panel)),
            opt_text(last_clicked_of(*old(state), panel)),
            name@,
            shift || old(state).shift_held,
            ctrl || old(state).command_held,
        ),
        last_clicked_of(*final(state), panel) == Some(name),
        panel == PanelKind::Local ==> *final(state) == (State {
            selected_local: final(state).selected_local,
            last_clicked_local: final(state).last_clicked_local,
            ..*old(state)
        }),
        panel == PanelKind::Remote ==> *final(state) == (State {
            selected_remote: final(state).selected_remote,
            last_clicked_remote: final(state).last_clicked_remote,
            ..*old(state)
        }),
{
    let names = panel_visible_names(state, panel);
    let use_shift = shift || state.shift_held;
    let use_ctrl = ctrl || state.command_held;
    match panel {
        PanelKind::Local => select_name(
            &names,
            &mut state.selected_local,
            &mut state.last_clicked_local,
            name,
            use_shift,
            use_ctrl,
        ),
        PanelKind::Remote => select_name(
            &names,
            &mut state.selected_remote,
            &mut state.last_clicked_remote,
            name,
            use_shift,
            use_ctrl,
        ),
    }
}


/// A key the interface reacts to.
#[derive(Debug, Clone)]
pub enum Key {
    Escape,
    F5,
    Backspace,
    Delete,
    F2,
    Enter,
    Character(String),
    Other,
}

/// Work that a key press asks for.
pub enum KeyAction {
    Nothing,
    /// Read local directory at the path.
    LoadLocal(String),
    /// Read the parent of the local directory.
    LoadLocalParent,
    /// List remote directory at the path with the connection.
    ListRemote(Connection, String),
    /// List the parent of the remote directory with the connection.
    ListRemoteParent(Connection),
    SelectAll(PanelKind),
    ClearSelection(PanelKind),
}

/// The connection selected in the sidebar, when it exists.
pub open spec fn current_connection(s: State) -> Option<Connection> {
    match s.selected_connection {
        Some(id) => match connection_position(s.connections@, id) {
            Some(i) => Some(s.connections@[i]),
            None => None,
        },
        None => None,
    }
}

/// The first entry of a listing called `n`.
pub open spec fn entry_named(entries: Seq<FtpEntry>, n: Seq<char>) -> Option<FtpEntry> {
    if exists|i: int| 0 <= i < entries.len() && entries[i].name@ == n {
        Some(
            entries[choose|i: int|
                0 <= i < entries.len() && entries[i].name@ == n && forall|j: int|
                    0 <= j < i ==> entries[j].name@ != n],
        )
    } else {
        None
    }
}

/// The current connection as `sidebar` would look it up.
pub fn current_connection_of(state: &State) -> (r: Option<Connection>)
    ensures
        r == current_connection(*state),
{
    match state.selected_connection {
        Some(id) => state.connection_cloned(id),
        None => None,
    }
}

/// The first entry of a listing called `n`.
pub fn find_entry(entries: &[FtpEntry], n: &str) -> (r: Option<usize>)
    ensures
        match r {
            Some(i) => i < entries@.len() && entry_named(entries@, n@) == Some(entries@[i as int]),
            None => entry_named(entries@, n@) is None,
        },
{
    let mut i: usize = 0;
    while i < entries.len()
        invariant
            i <= entries@.len(),
            forall|j: int| 0 <= j < i ==> entries@[j].name@ != n@,
        decreases entries@.len() - i,
    {
        if str_eq(entries[i].name.as_str(), n) {
            proof {
                let s = entries@;
                let c = choose|c: int| 0 <= c < s.len() && s[c].name@ == n@ && forall|j: int| 0 <= j < c ==> s[j].name@ != n@;
                if c < i {
                    assert(s[c].name@ != n@);
                }
                if c > i {
                    assert(s[i as int].name@ != n@);
                }
            }
            return Some(i);
        }
        i = i + 1;
    }
    None
}

pub fn copy_names(v: &Vec<String>) -> (r: Vec<String>)
    ensures
        r@ == v@,
{
    let mut r: Vec<String> = Vec::new();
    let mut i: usize = 0;
    while i < v.len()
        invariant
            i <= v@.len(),
            r@ == v@.take(i as int),
        decreases v@.len() - i,
    {
        r.push(v[i].clone());
        i = i + 1;
        assert(r@ =~= v@.take(i as int));
    }
    assert(v@.take(i as int) =~= v@);
    r
}

/// A key pressed with no text field focused. An open settings dialog,
/// prompt or context menu takes the key first: Escape closes it and other
/// keys do nothing. Otherwise, in the focused panel: F5 reloads, Backspace
/// goes to the parent directory, Delete asks to delete the selection, F2
/// renames the one selected entry, Enter opens the one selected directory,
/// the command key with `a` selects all and Escape deselects. Remote actions
/// need the selected connection to exist.
pub fn handle_keypress(state: &mut State, key: Key, command: bool) -> (r: KeyAction)
    requires
        selections_distinct(*old(state)),
    ensures
        selections_distinct(*final(state)),
        ({
            let s = *old(state);
            let f = *final(state);
            let panel = s.focused_panel;
            let sel = selection_of(s, panel);
            if s.settings_modal_open {
                &&& r is Nothing
                &&& (key is Escape ==> f == (State {
                    settings_modal_open: false,
                    settings_custom_draft: f.settings_custom_draft,
                    settings_bandwidth_draft: f.settings_bandwidth_draft,
                    ..s
                }) && f.settings_custom_draft@.len() == 0 && f.settings_bandwidth_draft@.len() == 0)
                &&& (!(key is Escape) ==> f == s)
            } else if s.prompt is Some {
                &&& r is Nothing
                &&& (key is Escape ==> f == (State { prompt: None, ..s }))
                &&& (!(key is Escape) ==> f == s)
            } else if s.context_menu is Some {
                &&& r is Nothing
                &&& (key is Escape ==> f == (State { context_menu: None, ..s }))
                &&& (!(key is Escape) ==> f == s)
            } else {
                match key {
                    Key::F5 => f == s && match panel {
                        PanelKind::Local => r matches KeyAction::LoadLocal(p) && p == s.local_path,
                        PanelKind::Remote => match current_connection(s) {
                            Some(c) => r matches KeyAction::ListRemote(rc, p) && rc == c && p == s.remote_path,
                            None => r is Nothing,
                        },
                    },
                    Key::Backspace => match panel {
                        PanelKind::Local => r is LoadLocalParent && name_set(f.selected_local@)
                            == Set::<Seq<char>>::empty() && f == (State { selected_local: f.selected_local, ..s }),
                        PanelKind::Remote => match current_connection(s) {
                            Some(c) => r matches KeyAction::ListRemoteParent(rc) && rc == c && name_set(
                                f.selected_remote@,
                            ) == Set::<Seq<char>>::empty() && f == (State { selected_remote: f.selected_remote, ..s }),
                            None => r is Nothing && f == s,
                        },
                    },
                    Key::Delete => r is Nothing && if sel.len() == 0 {
                        f == s
                    } else {
                        f == (State { prompt: f.prompt, ..s }) && (f.prompt matches Some(
                            PromptDialog::ConfirmDelete { panel: p, names },
                        ) && p == panel && names@ == sel)
                    },
                    Key::F2 => r is Nothing && if sel.len() == 1 {
                        f == (State { prompt: f.prompt, ..s }) && (f.prompt matches Some(
                            PromptDialog::Rename { panel: p, old, new },
                        ) && p == panel && old@ == sel[0]@ && new@ == sel[0]@)
                    } else {
                        f == s
                    },
                    Key::Enter => if sel.len() == 1 {
                        match entry_named(entries_of(s, panel), sel[0]@) {
                            Some(e) => if !e.is_dir {
                                r is Nothing && f == s
                            } else {
                                match panel {
                                    PanelKind::Local => r matches KeyAction::LoadLocal(p) && p@ == join_local_spec(
                                        s.local_path@,
                                        e.name@,
                                    ) && name_set(f.selected_local@) == Set::<Seq<char>>::empty() && f == (State {
                                        selected_local: f.selected_local,
                                        ..s
                                    }),
                                    PanelKind::Remote => match current_connection(s) {
                                        Some(c) => r matches KeyAction::ListRemote(rc, p) && rc == c && p@
                                            == join_remote_path_spec(s.remote_path@, e.name@) && name_set(
                                            f.selected_remote@,
                                        ) == Set::<Seq<char>>::empty() && f == (State {
                                            selected_remote: f.selected_remote,
                                            ..s
                                        }),
                                        None => r is Nothing && f == s,
                                    },
                                }
                            },
                            None => r is Nothing && f == s,
                        }
                    } else {
                        r is Nothing && f == s
                    },
                    Key::Character(c) => f == s && if command && c@ == "a"@ {
                        r == KeyAction::SelectAll(panel)
                    } else {
                        r is Nothing
                    },
                    Key::Escape => f == s && r == KeyAction::ClearSelection(panel),
                    Key::Other => f == s && r is Nothing,
                }
            }
        }),
{
    if state.settings_modal_open {
        if let Key::Escape = key {
            state.settings_modal_open = false;
            state.settings_custom_draft = String::new();
            state.settings_bandwidth_draft = String::new();
        }
        return KeyAction::Nothing;
    }
    if state.prompt.is_some() {
        if let Key::Escape = key {
            state.prompt = None;
        }
        return KeyAction::Nothing;
    }
    if state.context_menu.is_some() {
        if let Key::Escape = key {
            state.context_menu = None;
        }
        return KeyAction::Nothing;
    }
    let panel = state.focused_panel;
    let selected_count = state.selected_for_panel(panel).len();
    match key {
        Key::F5 => match panel {
            PanelKind::Local => KeyAction::LoadLocal(state.local_path.clone()),
            PanelKind::Remote => match current_connection_of(state) {
                Some(c) => KeyAction::ListRemote(c, state.remote_path.clone()),
                None => KeyAction::Nothing,
            },
        },
        Key::Backspace => match panel {
            PanelKind::Local => {
                clear_names(&mut state.selected_local);
                KeyAction::LoadLocalParent
            },
            PanelKind::Remote => match current_connection_of(state) {
                Some(c) => {
                    clear_names(&mut state.selected_remote);
                    KeyAction::ListRemoteParent(c)
                },
                None => KeyAction::Nothing,
            },
        },
        Key::Delete => {
            if selected_count > 0 {
                let names = copy_names(state.selected_for_panel(panel));
                state.prompt = Some(PromptDialog::confirm_delete(panel, names));
            }
            KeyAction::Nothing
        },
        Key::F2 => {
            if selected_count == 1 {
                let old = state.selected_for_panel(panel)[0].clone();
                state.prompt = Some(PromptDialog::rename(panel, old));
            }
            KeyAction::Nothing
        },
        Key::Enter => {
            if selected_count != 1 {
                return KeyAction::Nothing;
            }
            let name = state.selected_for_panel(panel)[0].clone();
            let found = find_entry(state.entries_for_panel(panel), name.as_str());
            let idx = match found {
                Some(i) => i,
                None => return KeyAction::Nothing,
            };
            let (is_dir, entry_name) = match panel {
                PanelKind::Local => (state.local_entries[idx].is_dir, state.local_entries[idx].name.clone()),
                PanelKind::Remote => (state.remote_entries[idx].is_dir, state.remote_entries[idx].name.clone()),
            };
            if !is_dir {
                return KeyAction::Nothing;
            }
            match panel {
                PanelKind::Local => {
                    let new_path = join_local_path(state.local_path.as_str(), entry_name.as_str());
                    clear_names(&mut state.selected_local);
                    KeyAction::LoadLocal(new_path)
                },
                PanelKind::Remote => match current_connection_of(state) {
                    Some(c) => {
                        let new_path = join_remote_path(state.remote_path.as_str(), entry_name.as_str());
                        clear_names(&mut state.selected_remote);
                        KeyAction::ListRemote(c, new_path)
                    },
                    None => KeyAction::Nothing,
                },
            }
        },
        Key::Character(c) => {
            if command && str_eq(c.as_str(), "a") {
                KeyAction::SelectAll(panel)
            } else {
                KeyAction::Nothing
            }
        },
        Key::Escape => KeyAction::ClearSelection(panel),
        Key::Other => KeyAction::Nothing,
    }
}


/// Work that a submitted prompt asks for.
pub enum PromptAction {
    Nothing,
    LocalMkdir { path: String, name: String },
    RemoteMkdir { conn: Connection, remote_dir: String, name: String },
    LocalRename { path: String, old: String, new: String },
    RemoteRename { conn: Connection, remote_dir: String, old: String, new: String },
    LocalRemove { path: String, entries: Vec<(String, bool)> },
    RemoteRemove { conn: Connection, remote_dir: String, entries: Vec<(String, bool)> },
}

/// The entries to delete for the names confirmed: each name that the
/// listing holds, with whether it is a directory, in the order confirmed.
pub open spec fn delete_targets(entries: Seq<FtpEntry>, names: Seq<String>) -> Seq<(Seq<char>, bool)>
    decreases names.len(),
{
    if names.len() == 0 {
        Seq::empty()
    } else {
        let rest = delete_targets(entries, names.drop_last());
        match entry_named(entries, names.last()@) {
            Some(e) => rest.push((names.last()@, e.is_dir)),
            None => rest,
        }
    }
}

/// The texts of name and directory pairs.
pub open spec fn pair_texts(v: Seq<(String, bool)>) -> Seq<(Seq<char>, bool)> {
    v.map_values(|p: (String, bool)| (p.0@, p.1))
}

#[verifier::spinoff_prover]
fn collect_delete_targets(entries: &[FtpEntry], names: &Vec<String>) -> (r: Vec<(String, bool)>)
    ensures
        pair_texts(r@) == delete_targets(entries@, names@),
{
    let mut r: Vec<(String, bool)> = Vec::new();
    let mut i: usize = 0;
    while i < names.len()
        invariant
            i <= names@.len(),
            pair_texts(r@) == delete_targets(entries@, names@.take(i as int)),
        decreases names@.len() - i,
    {
        let ghost pre = names@.take(i as int);
        assert(names@.take(i + 1).drop_last() =~= pre);
        match find_entry(entries, names[i].as_str()) {
            Some(k) => {
                r.push((names[i].clone(), entries[k].is_dir));
                assert(pair_texts(r@) =~= delete_targets(entries@, names@.take(i + 1)));
            },
            None => {
                assert(pair_texts(r@) =~= delete_targets(entries@, names@.take(i + 1)));
            },
        }
        i = i + 1;
    }
    assert(names@.take(i as int) =~= names@);
    r
}

/// A submitted prompt. A new or changed name must pass
/// `validate_entry_name`, else its message becomes the status message; a
/// rename to the same name does nothing; remote work needs the selected
/// connection to exist; a confirmed delete clears that panel's selection and
/// deletes the confirmed names that the listing holds.
pub fn execute_prompt(state: &mut State, prompt: PromptDialog) -> (r: PromptAction)
    requires
        selections_distinct(*old(state)),
    ensures
        selections_distinct(*final(state)),
        ({
            let s = *old(state);
            let f = *final(state);
            match prompt {
                PromptDialog::Mkdir { panel, value } => match validate_entry_name_spec(value@) {
                    Err(e) => r is Nothing && f == (State { status_message: f.status_message, ..s })
                        && (f.status_message matches Some(m) && m@ == e),
                    Ok(n) => f == s && match panel {
                        PanelKind::Local => r matches PromptAction::LocalMkdir { path, name } && path
                            == s.local_path && name@ == n,
                        PanelKind::Remote => match current_connection(s) {
                            Some(c) => r matches PromptAction::RemoteMkdir { conn, remote_dir, name }
                                && conn == c && remote_dir == s.remote_path && name@ == n,
                            None => r is Nothing,
                        },
                    },
                },
                PromptDialog::Rename { panel, old, new } => match validate_entry_name_spec(new@) {
                    Err(e) => r is Nothing && f == (State { status_message: f.status_message, ..s })
                        && (f.status_message matches Some(m) && m@ == e),
                    Ok(n) => f == s && if old@ == n {
                        r is Nothing
                    } else {
                        match panel {
                            PanelKind::Local => r matches PromptAction::LocalRename { path, old: o, new: w }
                                && path == s.local_path && o == old && w@ == n,
                            PanelKind::Remote => match current_connection(s) {
                                Some(c) => r matches PromptAction::RemoteRename {
                                    conn,
                                    remote_dir,
                                    old: o,
                                    new: w,
                                } && conn == c && remote_dir == s.remote_path && o == old && w@ == n,
                                None => r is Nothing,
                            },
                        }
                    },
                },
                PromptDialog::ConfirmDelete { panel, names } => match panel {
                    PanelKind::Local => (r matches PromptAction::LocalRemove { path, entries } && path
                        == s.local_path && pair_texts(entries@) == delete_targets(s.local_entries@, names@))
                        && name_set(f.selected_local@) == Set::<Seq<char>>::empty() && f == (State {
                        selected_local: f.selected_local,
                        ..s
                    }),
                    PanelKind::Remote => match current_connection(s) {
                        Some(c) => (r matches PromptAction::RemoteRemove { conn, remote_dir, entries }
                            && conn == c && remote_dir == s.remote_path && pair_texts(entries@)
                            == delete_targets(s.remote_entries@, names@)) && name_set(f.selected_remote@)
                            == Set::<Seq<char>>::empty() && f == (State {
                            selected_remote: f.selected_remote,
                            ..s
                        }),
                        None => r is Nothing && f == s,
                    },
                },
            }
        }),
{
    match prompt {
        PromptDialog::Mkdir { panel, value } => {
            let name = match validate_entry_name(value.as_str()) {
                Ok(n) => n,
                Err(e) => {
                    state.status_message = Some(e);
                    return PromptAction::Nothing;
                },
            };
            match panel {
                PanelKind::Local => PromptAction::LocalMkdir { path: state.local_path.clone(), name },
                PanelKind::Remote => match current_connection_of(state) {
                    Some(conn) => PromptAction::RemoteMkdir {
                        conn,
                        remote_dir: state.remote_path.clone(),
                        name,
                    },
                    None => PromptAction::Nothing,
                },
            }
        },
        PromptDialog::Rename { panel, old, new } => {
            let new_name = match validate_entry_name(new.as_str()) {
                Ok(n) => n,
                Err(e) => {
                    state.status_message = Some(e);
                    return PromptAction::Nothing;
                },
            };
            if str_eq(old.as_str(), new_name.as_str()) {
                return PromptAction::Nothing;
            }
            match panel {
                PanelKind::Local => PromptAction::LocalRename {
                    path: state.local_path.clone(),
                    old,
                    new: new_name,
                },
                PanelKind::Remote => match current_connection_of(state) {
                    Some(conn) => PromptAction::RemoteRename {
                        conn,
                        remote_dir: state.remote_path.clone(),
                        old,
                        new: new_name,
                    },
                    None => PromptAction::Nothing,
                },
            }
        },
        PromptDialog::ConfirmDelete { panel, names } => match panel {
            PanelKind::Local => {
                let entries = collect_delete_targets(state.local_entries.as_slice(), &names);
                clear_names(&mut state.selected_local);
                PromptAction::LocalRemove { path: state.local_path.clone(), entries }
            },
            PanelKind::Remote => match current_connection_of(state) {
                Some(conn) => {
                    let entries = collect_delete_targets(state.remote_entries.as_slice(), &names);
                    clear_names(&mut state.selected_remote);
                    PromptAction::RemoteRemove { conn, remote_dir: state.remote_path.clone(), entries }
                },
                None => PromptAction::Nothing,
            },
        },
    }
}


/// The message a transfer gets when its connection is gone.
pub open spec fn missing_connection_text() -> Seq<char> {
    "Conexión no encontrada"@
}

/// The transfers that `fill_transfer_slots` hands out to run: each started
/// transfer whose connection exists, with that connection, in queue order.
pub open spec fn launched(s: Seq<TransferEntry>, cs: Seq<crate::models::connection::Connection>, p: Seq<int>) -> Seq<(TransferEntry, Connection)>
    decreases p.len(),
{
    if p.len() == 0 {
        Seq::empty()
    } else {
        let rest = launched(s, cs, p.drop_last());
        let e = s[p.last()];
        match connection_position(cs, e.connection_id) {
            Some(i) => rest.push((e, cs[i])),
            None => rest,
        }
    }
}

/// Starts waiting transfers while fewer than `slots` run: each one taken
/// becomes running and is handed out with its connection; one whose
/// connection no longer exists fails with a message saying so.
pub fn fill_transfer_slots(state: &mut State, slots: usize) -> (r: Vec<(TransferEntry, Connection)>)
    ensures
        ({
            let s = *old(state);
            let f = *final(state);
            let p = positions_to_start(s.transfers@, slots as nat);
            let m = marked_active(s.transfers@, p);
            &&& f == (State { transfers: f.transfers, ..s })
            &&& f.transfers@.len() == s.transfers@.len()
            &&& r@ == launched(m, s.connections@, p)
            &&& active_count(s.transfers@) <= slots ==> active_count(f.transfers@) <= slots
            &&& forall|k: int|
                0 <= k < m.len() ==> if p.contains(k) && connection_position(
                    s.connections@,
                    m[k].connection_id,
                ) is None {
                    f.transfers@[k] == (TransferEntry { status: f.transfers@[k].status, ..m[k] })
                        && (f.transfers@[k].status matches TransferStatus::Failed(msg) && msg@
                        == missing_connection_text())
                } else {
                    f.transfers@[k] == m[k]
                }
        }),
{
    let ghost s = *state;
    let started = start_queued(&mut state.transfers, slots);
    let ghost p = positions_to_start(s.transfers@, slots as nat);
    let ghost m = marked_active(s.transfers@, p);
    assert(started@.map_values(|v: usize| v as int) == p);
    let mut out: Vec<(TransferEntry, Connection)> = Vec::new();
    let mut j: usize = 0;
    proof {
        crate::models::transfer::lemma_positions_to_start(s.transfers@, slots as nat);
        assert forall|i: int| 0 <= i < started@.len() implies (#[trigger] started@[i] as int) < m.len()
            && p[i] == started@[i] as int by {
            assert(p[i] == started@.map_values(|v: usize| v as int)[i]);
        }
    }
    while j < started.len()
        invariant
            j <= started@.len(),
            p.len() == started@.len(),
            forall|i: int| 0 <= i < started@.len() ==> (#[trigger] started@[i] as int) < m.len() && p[i] == started@[i] as int,
            forall|a: int, b: int| 0 <= a < b < p.len() ==> #[trigger] p[a] < #[trigger] p[b],
            state.transfers@.len() == m.len(),
            state.connections == s.connections,
            *state == (State { transfers: state.transfers, ..s }),
            out@ == launched(m, s.connections@, p.take(j as int)),
            forall|k: int|
                0 <= k < m.len() ==> if p.take(j as int).contains(k) && connection_position(
                    s.connections@,
                    m[k].connection_id,
                ) is None {
                    state.transfers@[k] == (TransferEntry { status: state.transfers@[k].status, ..m[k] })
                        && (state.transfers@[k].status matches TransferStatus::Failed(msg) && msg@
                        == missing_connection_text())
                } else {
                    state.transfers@[k] == m[k]
                },
        decreases started@.len() - j,
    {
        let k = started[j];
        proof {
            let pn = p.take(j + 1);
            let pj = p.take(j as int);
            assert(pn.drop_last() =~= pj);
            assert(pn.last() == k as int);
            assert(!pj.contains(k as int)) by {
                if pj.contains(k as int) {
                    let w = choose|w: int| 0 <= w < pj.len() && pj[w] == k as int;
                    assert(p[w] < p[j as int]);
                }
            }
            assert forall|x: int| x != k && 0 <= x < m.len() implies pn.contains(x) == pj.contains(x) by {
                if pn.contains(x) {
                    let w = choose|w: int| 0 <= w < pn.len() && pn[w] == x;
                    assert(w < j);
                    assert(pj[w] == x);
                }
                if pj.contains(x) {
                    let w = choose|w: int| 0 <= w < pj.len() && pj[w] == x;
                    assert(pn[w] == x);
                }
            }
            assert(pn.contains(k as int)) by {
                assert(pn[j as int] == k as int);
            }
        }
        let cid = state.transfers[k].connection_id;
        match state.connection_cloned(cid) {
            Some(conn) => {
                let e = state.transfers[k].duplicate();
                out.push((e, conn));
            },
            None => {
                state.transfers[k].status = TransferStatus::Failed("Conexión no encontrada".to_string());
            },
        }
        j = j + 1;
    }
    assert(p.take(j as int) =~= p);
    proof {
        crate::models::transfer::lemma_start_respects_limit(s.transfers@, slots as nat);
        crate::models::transfer::lemma_fewer_running(m, state.transfers@);
    }
    out
}


/// The log lines after appending `new` one by one.
pub open spec fn logged(lines: Seq<String>, new: Seq<String>) -> Seq<String>
    decreases new.len(),
{
    if new.len() == 0 {
        lines
    } else {
        pushed_lines(logged(lines, new.drop_last()), new.last())
    }
}

/// Whatever is logged, the command log keeps at most `MAX_LINES` lines,
/// and it ends with the newest line logged.
pub proof fn lemma_log_bounded(lines: Seq<String>, new: Seq<String>)
    ensures
        logged(lines, new).len() <= if lines.len() > crate::models::ftp_log::MAX_LINES {
            lines.len()
        } else {
            crate::models::ftp_log::MAX_LINES as nat
        },
        new.len() > 0 ==> logged(lines, new).last() == new.last(),
    decreases new.len(),
{
    if new.len() > 0 {
        lemma_log_bounded(lines, new.drop_last());
    }
}

/// Appends the lines an FTP task produced to the command log.
pub fn apply_ftp_log(state: &mut State, lines: &Vec<String>)
    ensures
        final(state).ftp_log.line_seq() == logged(old(state).ftp_log.line_seq(), lines@),
        final(state).ftp_log.shown() == old(state).ftp_log.shown(),
        *final(state) == (State { ftp_log: final(state).ftp_log, ..*old(state) }),
{
    let ghost s = *state;
    let mut i: usize = 0;
    while i < lines.len()
        invariant
            i <= lines@.len(),
            state.ftp_log.line_seq() == logged(s.ftp_log.line_seq(), lines@.take(i as int)),
            state.ftp_log.shown() == s.ftp_log.shown(),
            *state == (State { ftp_log: state.ftp_log, ..s }),
        decreases lines@.len() - i,
    {
        assert(lines@.take(i + 1).drop_last() =~= lines@.take(i as int));
        state.ftp_log.push(lines[i].clone());
        i = i + 1;
    }
    assert(lines@.take(i as int) =~= lines@);
}

/// What follows a finished transfer.
pub struct TransferFollowUp {
    /// The transfer completed: the listings should be refreshed.
    pub succeeded: bool,
    /// The transfer uploaded back a file being edited remotely; its
    /// temporary path.
    pub remote_edit: Option<String>,
}

/// A pending remote edit works on local file `path`.
pub open spec fn edits_path(edits: Seq<crate::models::remote_edit::RemoteEdit>, path: Seq<char>) -> bool {
    exists|i: int| 0 <= i < edits.len() && edits[i].temp_path@ == path
}

/// Records how transfer `id` ended and tells the user: completed, cancelled,
/// or failed with the error's message. Unknown transfers change nothing.
pub fn on_transfer_finished(state: &mut State, id: u128, result: Result<(), AppErrorMsg>) -> (r: TransferFollowUp)
    ensures
        ({
            let s = *old(state);
            let f = *final(state);
            match first_with_id(s.transfers@, id) {
                None => f == s && !r.succeeded && r.remote_edit is None,
                Some(i) => {
                    &&& f == (State { transfers: f.transfers, toasts: f.toasts, ..s })
                    &&& f.toasts@.len() > 0
                    &&& f.toasts@ == pushed_toasts(s.toasts@, f.toasts@.last())
                    &&& match result {
                        Ok(()) => {
                            &&& f.transfers@ == with_outcome(s.transfers@, id, TransferOutcome::Completed)
                            &&& r.succeeded
                            &&& f.toasts@.last().message@ == "Transferencia completada"@
                            &&& f.toasts@.last().kind == ToastKind::Success
                            &&& (edits_path(s.pending_remote_edits@, s.transfers@[i].local_path@) ==> r.remote_edit == Some(s.transfers@[i].local_path))
                            &&& (!edits_path(s.pending_remote_edits@, s.transfers@[i].local_path@) ==> r.remote_edit is None)
                        },
                        Err(e) => {
                            &&& !r.succeeded
                            &&& r.remote_edit is None
                            &&& if e.0 is Cancelled {
                                &&& f.transfers@ == with_outcome(s.transfers@, id, TransferOutcome::Cancelled)
                                &&& f.toasts@.last().message@ == "Transferencia cancelada"@
                                &&& f.toasts@.last().kind == ToastKind::Info
                            } else {
                                &&& f.toasts@.last().message@ == error_message(e.0)
                                &&& f.toasts@.last().kind == ToastKind::Error
                                &&& f.transfers@ == with_outcome(s.transfers@, id, TransferOutcome::Failed(f.toasts@.last().message))
                            }
                        },
                    }
                },
            }
        }),
{
    let ghost s = *state;
    proof {
        crate::models::transfer::lemma_first_with_id_valid(s.transfers@, id);
    }
    if state.transfer_index(id).is_none() {
        return TransferFollowUp { succeeded: false, remote_edit: None };
    }
    let (outcome, text, kind) = match &result {
        Ok(()) => (TransferOutcome::Completed, "Transferencia completada".to_string(), ToastKind::Success),
        Err(e) => match &e.0 {
            AppError::Cancelled => (
                TransferOutcome::Cancelled,
                "Transferencia cancelada".to_string(),
                ToastKind::Info,
            ),
            other => {
                let m = other.message();
                (TransferOutcome::Failed(m.clone()), m, ToastKind::Error)
            },
        },
    };
    let i = match finish_transfer(&mut state.transfers, id, outcome) {
        Some(i) => i,
        None => return TransferFollowUp { succeeded: false, remote_edit: None },
    };
    let mut remote_edit: Option<String> = None;
    if result.is_ok() {
        let path = state.transfers[i].local_path.clone();
        let mut k: usize = 0;
        let mut hit = false;
        while k < state.pending_remote_edits.len()
            invariant
                k <= state.pending_remote_edits@.len(),
                hit == exists|j: int| 0 <= j < k && state.pending_remote_edits@[j].temp_path@ == path@,
            decreases state.pending_remote_edits@.len() - k,
        {
            if str_eq(state.pending_remote_edits[k].temp_path.as_str(), path.as_str()) {
                hit = true;
            }
            k = k + 1;
        }
        if hit {
            remote_edit = Some(path);
        }
    }
    state.push_toast(text, kind);
    TransferFollowUp { succeeded: result.is_ok(), remote_edit }
}


/// The files among `names` that a listing holds, in the order of `names`
/// (directories and unknown names are left out).
pub open spec fn file_sources(entries: Seq<FtpEntry>, names: Seq<String>) -> Seq<FtpEntry>
    decreases names.len(),
{
    if names.len() == 0 {
        Seq::empty()
    } else {
        let rest = file_sources(entries, names.drop_last());
        match entry_named(entries, names.last()@) {
            Some(e) => if e.is_dir {
                rest
            } else {
                rest.push(e)
            },
            None => rest,
        }
    }
}

/// The files among `names` that a listing holds.
#[verifier::spinoff_prover]
pub fn collect_file_sources(entries: &[FtpEntry], names: &Vec<String>) -> (r: Vec<usize>)
    ensures
        r@.len() == file_sources(entries@, names@).len(),
        forall|k: int| 0 <= k < r@.len() ==> (#[trigger] r@[k] as int) < entries@.len() && entries@[r@[k] as int]
            == file_sources(entries@, names@)[k],
{
    let mut r: Vec<usize> = Vec::new();
    let mut i: usize = 0;
    while i < names.len()
        invariant
            i <= names@.len(),
            r@.len() == file_sources(entries@, names@.take(i as int)).len(),
            forall|k: int| 0 <= k < r@.len() ==> (#[trigger] r@[k] as int) < entries@.len() && entries@[r@[k] as int]
                == file_sources(entries@, names@.take(i as int))[k],
        decreases names@.len() - i,
    {
        assert(names@.take(i + 1).drop_last() =~= names@.take(i as int));
        match find_entry(entries, names[i].as_str()) {
            Some(k) => {
                if !entries[k].is_dir {
                    r.push(k);
                }
            },
            None => {},
        }
        i = i + 1;
    }
    assert(names@.take(i as int) =~= names@);
    r
}

/// The queued transfer that a download of listing entry `e` becomes.
pub open spec fn download_of(s: State, cid: u128, e: FtpEntry, t: TransferEntry) -> bool {
    &&& t.connection_id == cid
    &&& t.kind == TransferKind::Download
    &&& t.filename == e.name
    &&& t.local_path@ == join_local_spec(s.local_path@, e.name@)
    &&& t.remote_path == s.remote_path
    &&& t.total_bytes == e.size
    &&& t.transferred_bytes == 0
    &&& t.resume_from == 0
    &&& t.status == TransferStatus::Queued
    &&& t.id != 0
}

/// Queues a download of each selected remote file, into the local
/// directory, for the selected connection. Returns whether a connection is
/// selected.
pub fn enqueue_downloads(state: &mut State) -> (r: bool)
    ensures
        ({
            let s = *old(state);
            let f = *final(state);
            let src = file_sources(s.remote_entries@, s.selected_remote@);
            &&& f == (State { transfers: f.transfers, ..s })
            &&& r == (s.selected_connection is Some)
            &&& match s.selected_connection {
                None => f.transfers@ == s.transfers@,
                Some(cid) => {
                    &&& f.transfers@.len() == s.transfers@.len() + src.len()
                    &&& f.transfers@.take(s.transfers@.len() as int) == s.transfers@
                    &&& forall|k: int| 0 <= k < src.len() ==> download_of(s, cid, #[trigger] src[k], f.transfers@[s.transfers@.len() + k])
                },
            }
        }),
{
    let ghost s = *state;
    let cid = match state.selected_connection {
        Some(c) => c,
        None => return false,
    };
    let idx = collect_file_sources(state.remote_entries.as_slice(), &state.selected_remote);
    let ghost src = file_sources(s.remote_entries@, s.selected_remote@);
    let n0 = state.transfers.len();
    let mut j: usize = 0;
    while j < idx.len()
        invariant
            j <= idx@.len(),
            idx@.len() == src.len(),
            forall|k: int| 0 <= k < idx@.len() ==> (#[trigger] idx@[k] as int) < s.remote_entries@.len()
                && s.remote_entries@[idx@[k] as int] == src[k],
            *state == (State { transfers: state.transfers, ..s }),
            n0 == s.transfers@.len(),
            state.transfers@.len() == n0 + j,
            state.transfers@.take(n0 as int) == s.transfers@,
            forall|k: int| 0 <= k < j ==> download_of(s, cid, #[trigger] src[k], state.transfers@[n0 + k]),
        decreases idx@.len() - j,
    {
        let k = idx[j];
        let name = state.remote_entries[k].name.clone();
        let local = join_local_path(state.local_path.as_str(), name.as_str());
        let t = TransferEntry::queued(
            new_id(),
            cid,
            TransferKind::Download,
            name,
            local,
            state.remote_path.clone(),
            state.remote_entries[k].size,
        );
        let ghost before = state.transfers@;
        state.transfers.push(t);
        proof {
            assert(state.transfers@.take(n0 as int) =~= before.take(n0 as int));
            assert forall|m: int| 0 <= m < j + 1 implies download_of(s, cid, #[trigger] src[m], state.transfers@[n0 + m]) by {
                if m < j {
                    assert(state.transfers@[n0 + m] == before[n0 + m]);
                }
            }
        }
        j = j + 1;
    }
    true
}

/// The local files selected for upload: the selected connection and the
/// names of the selected local files, when a connection is selected.
pub fn upload_candidates(state: &State) -> (r: Option<(u128, Vec<String>)>)
    ensures
        match state.selected_connection {
            None => r is None,
            Some(cid) => r matches Some((c, names)) && c == cid && names@ == file_sources(
                state.local_entries@,
                state.selected_local@,
            ).map_values(|e: FtpEntry| e.name),
        },
{
    let cid = match state.selected_connection {
        Some(c) => c,
        None => return None,
    };
    let idx = collect_file_sources(state.local_entries.as_slice(), &state.selected_local);
    let ghost src = file_sources(state.local_entries@, state.selected_local@);
    let mut names: Vec<String> = Vec::new();
    let mut j: usize = 0;
    while j < idx.len()
        invariant
            j <= idx@.len(),
            idx@.len() == src.len(),
            forall|k: int| 0 <= k < idx@.len() ==> (#[trigger] idx@[k] as int) < state.local_entries@.len()
                && state.local_entries@[idx@[k] as int] == src[k],
            names@.len() == j,
            forall|k: int| 0 <= k < j ==> #[trigger] names@[k] == src[k].name,
        decreases idx@.len() - j,
    {
        names.push(state.local_entries[idx[j]].name.clone());
        j = j + 1;
    }
    assert(names@ =~= src.map_values(|e: FtpEntry| e.name));
    Some((cid, names))
}

/// Queues an upload of local file `filename` of the local directory into
/// the remote directory, for connection `connection_id`; `total_bytes` is
/// the file's size when known.
pub fn enqueue_upload(state: &mut State, connection_id: u128, filename: String, total_bytes: Option<u64>)
    ensures
        ({
            let s = *old(state);
            let f = *final(state);
            &&& f == (State { transfers: f.transfers, ..s })
            &&& f.transfers@.len() == s.transfers@.len() + 1
            &&& f.transfers@.drop_last() == s.transfers@
            &&& f.transfers@.last().connection_id == connection_id
            &&& f.transfers@.last().kind == TransferKind::Upload
            &&& f.transfers@.last().filename == filename
            &&& f.transfers@.last().local_path@ == join_local_spec(s.local_path@, filename@)
            &&& f.transfers@.last().remote_path == s.remote_path
            &&& f.transfers@.last().total_bytes == total_bytes
            &&& f.transfers@.last().transferred_bytes == 0
            &&& f.transfers@.last().resume_from == 0
            &&& f.transfers@.last().status == TransferStatus::Queued
            &&& f.transfers@.last().id != 0
        }),
{
    let local = join_local_path(state.local_path.as_str(), filename.as_str());
    let t = TransferEntry::queued(
        new_id(),
        connection_id,
        TransferKind::Upload,
        filename,
        local,
        state.remote_path.clone(),
        total_bytes,
    );
    let ghost before = state.transfers@;
    state.transfers.push(t);
    assert(state.transfers@.drop_last() =~= before);
}

/// Queues a new attempt at finished transfer `id` under a fresh identifier:
/// from scratch, or (`resume`) from the bytes it already transferred.
/// Returns whether one was queued.
pub fn retry_transfer(state: &mut State, id: u128, resume: bool) -> (r: bool)
    ensures
        ({
            let s = *old(state);
            let f = *final(state);
            &&& f == (State { transfers: f.transfers, ..s })
            &&& r == first_finished(s.transfers@, id, resume) is Some
            &&& exists|new_id: u128| new_id != 0 && f.transfers@ == with_again(s.transfers@, id, new_id, resume)
        }),
{
    let fresh = new_id();
    requeue_transfer(&mut state.transfers, id, fresh, resume)
}

/// A local directory listing arrived: on success the panel shows it, on
/// failure the error is notified. Either way loading ends.
pub fn on_local_dir_loaded(state: &mut State, result: Result<(String, Vec<FtpEntry>), AppErrorMsg>)
    ensures
        ({
            let s = *old(state);
            let f = *final(state);
            match result {
                Ok((path, entries)) => f == (State {
                    local_path: path,
                    local_entries: entries,
                    local_loading: false,
                    ..s
                }),
                Err(e) => f == (State { local_loading: false, toasts: f.toasts, ..s }) && f.toasts@.len() > 0
                    && f.toasts@ == pushed_toasts(s.toasts@, f.toasts@.last()) && f.toasts@.last().message@
                    == error_message(e.0) && f.toasts@.last().kind == ToastKind::Error,
            }
        }),
{
    match result {
        Ok((path, entries)) => {
            state.local_path = path;
            state.local_entries = entries;
            state.local_loading = false;
        },
        Err(e) => {
            state.local_loading = false;
            state.push_toast(e.message(), ToastKind::Error);
        },
    }
}

/// A remote directory listing arrived: its log lines go to the command log;
/// on success the remote side is connected and shows the listing, on
/// failure it is in error with the message, which is also notified. Either
/// way loading ends.
pub fn on_remote_dir_loaded(state: &mut State, outcome: FtpTaskResult<(String, Vec<FtpEntry>)>)
    ensures
        ({
            let s = *old(state);
            let f = *final(state);
            &&& f.ftp_log.line_seq() == logged(s.ftp_log.line_seq(), outcome.log@)
            &&& f.ftp_log.shown() == s.ftp_log.shown()
            &&& match outcome.result {
                Ok((path, entries)) => f == (State {
                    remote_loading: false,
                    remote_status: ConnectionStatus::Connected,
                    remote_path: path,
                    remote_entries: entries,
                    ftp_log: f.ftp_log,
                    ..s
                }),
                Err(e) => f == (State {
                    remote_loading: false,
                    remote_status: f.remote_status,
                    toasts: f.toasts,
                    ftp_log: f.ftp_log,
                    ..s
                }) && (f.remote_status matches ConnectionStatus::Error(m) && m@ == error_message(e.0))
                    && f.toasts@.len() > 0 && f.toasts@ == pushed_toasts(s.toasts@, f.toasts@.last())
                    && f.toasts@.last().message@ == error_message(e.0) && f.toasts@.last().kind
                    == ToastKind::Error,
            }
        }),
{
    state.remote_loading = false;
    apply_ftp_log(state, &outcome.log);
    match outcome.result {
        Ok((path, entries)) => {
            state.remote_status = ConnectionStatus::Connected;
            state.remote_path = path;
            state.remote_entries = entries;
        },
        Err(e) => {
            let msg = e.message();
            state.remote_status = ConnectionStatus::Error(msg.clone());
            state.push_toast(msg, ToastKind::Error);
        },
    }
}


/// A name typed into the settings dialog's hidden-names field is added:
/// trimmed, ignored when blank, added once. The draft is cleared unless the
/// name was blank. Returns whether the preferences changed and should be
/// saved.
pub fn add_custom_hidden(state: &mut State, name: &str) -> (r: bool)
    ensures
        ({
            let s = *old(state);
            let f = *final(state);
            let t = trim_spec(name@);
            if t.len() == 0 {
                !r && f == s
            } else if in_custom_hidden(t, s.settings) {
                !r && f == (State { settings_custom_draft: f.settings_custom_draft, ..s })
                    && f.settings_custom_draft@.len() == 0
            } else {
                r && f == (State {
                    settings: f.settings,
                    settings_custom_draft: f.settings_custom_draft,
                    ..s
                }) && f.settings_custom_draft@.len() == 0 && f.settings == (AppSettings {
                    custom_hidden: f.settings.custom_hidden,
                    ..s.settings
                }) && f.settings.custom_hidden@.drop_last() == s.settings.custom_hidden@
                    && f.settings.custom_hidden@.len() == s.settings.custom_hidden@.len() + 1
                    && f.settings.custom_hidden@.last()@ == t
            }
        }),
{
    let t = trim(name);
    if t.unicode_len() == 0 {
        return false;
    }
    let mut found = false;
    let mut i: usize = 0;
    while i < state.settings.custom_hidden.len()
        invariant
            i <= state.settings.custom_hidden@.len(),
            found == exists|k: int| 0 <= k < i && state.settings.custom_hidden@[k]@ == t@,
        decreases state.settings.custom_hidden@.len() - i,
    {
        if str_eq(state.settings.custom_hidden[i].as_str(), t) {
            found = true;
        }
        i = i + 1;
    }
    let changed = !found;
    if changed {
        let ghost before = state.settings.custom_hidden@;
        state.settings.custom_hidden.push(t.to_string());
        assert(state.settings.custom_hidden@.drop_last() =~= before);
    }
    state.settings_custom_draft = String::new();
    changed
}

/// Texts of the names held.
pub open spec fn texts(v: Seq<String>) -> Seq<Seq<char>> {
    v.map_values(|x: String| x@)
}

/// A hidden name is removed from the preferences (every copy of it). The
/// preferences are to be saved.
pub fn remove_custom_hidden(state: &mut State, name: &str)
    ensures
        ({
            let s = *old(state);
            let f = *final(state);
            &&& f == (State { settings: f.settings, ..s })
            &&& f.settings == (AppSettings { custom_hidden: f.settings.custom_hidden, ..s.settings })
            &&& texts(f.settings.custom_hidden@) == texts(s.settings.custom_hidden@).filter(
                |x: Seq<char>| x != name@,
            )
        }),
{
    let ghost s = *state;
    let ghost pred = |x: Seq<char>| x != name@;
    let mut kept: Vec<String> = Vec::new();
    let mut i: usize = 0;
    while i < state.settings.custom_hidden.len()
        invariant
            i <= s.settings.custom_hidden@.len(),
            *state == s,
            texts(kept@) == texts(s.settings.custom_hidden@.take(i as int)).filter(pred),
            pred == (|x: Seq<char>| x != name@),
        decreases s.settings.custom_hidden@.len() - i,
    {
        let ghost pre = s.settings.custom_hidden@.take(i as int);
        proof {
            assert(texts(s.settings.custom_hidden@.take(i + 1)).drop_last() =~= texts(pre));
            assert(texts(s.settings.custom_hidden@.take(i + 1)).last() == s.settings.custom_hidden@[i as int]@);
            reveal(Seq::filter);
        }
        if !str_eq(state.settings.custom_hidden[i].as_str(), name) {
            let ghost before = kept@;
            kept.push(state.settings.custom_hidden[i].clone());
            assert(texts(kept@) =~= texts(before).push(s.settings.custom_hidden@[i as int]@));
        }
        i = i + 1;
    }
    assert(s.settings.custom_hidden@.take(i as int) =~= s.settings.custom_hidden@);
    state.settings.custom_hidden = kept;
}

/// The bandwidth field of the settings dialog changed: the draft keeps the
/// text, and when it reads as a bandwidth (see `Bandwidth::from_kbps_input`)
/// that becomes the limit. Returns whether the preferences changed and
/// should be saved.
pub fn set_bandwidth_draft(state: &mut State, text: String) -> (r: bool)
    ensures
        ({
            let s = *old(state);
            let f = *final(state);
            &&& f.settings_bandwidth_draft == text
            &&& r == from_kbps_input_spec(text@) is Some
            &&& match from_kbps_input_spec(text@) {
                Some(b) => f == (State {
                    settings_bandwidth_draft: text,
                    settings: AppSettings { bandwidth: b, ..s.settings },
                    ..s
                }),
                None => f == (State { settings_bandwidth_draft: text, ..s }),
            }
        }),
{
    let parsed = Bandwidth::from_kbps_input(text.as_str());
    state.settings_bandwidth_draft = text;
    match parsed {
        Some(b) => {
            state.settings.bandwidth = b;
            true
        },
        None => false,
    }
}

/// Opens or closes the settings dialog: opening fills the bandwidth draft
/// with the current limit, closing clears the drafts.
pub fn toggle_settings_modal(state: &mut State)
    ensures
        ({
            let s = *old(state);
            let f = *final(state);
            &&& f.settings_modal_open == !s.settings_modal_open
            &&& if f.settings_modal_open {
                f == (State {
                    settings_modal_open: true,
                    settings_bandwidth_draft: f.settings_bandwidth_draft,
                    ..s
                }) && f.settings_bandwidth_draft@ == display_value_spec(s.settings.bandwidth)
            } else {
                f == (State {
                    settings_modal_open: false,
                    settings_custom_draft: f.settings_custom_draft,
                    settings_bandwidth_draft: f.settings_bandwidth_draft,
                    ..s
                }) && f.settings_custom_draft@.len() == 0 && f.settings_bandwidth_draft@.len() == 0
            }
        }),
{
    state.settings_modal_open = !state.settings_modal_open;
    if state.settings_modal_open {
        state.settings_bandwidth_draft = state.settings.bandwidth.display_value();
    } else {
        state.settings_custom_draft = String::new();
        state.settings_bandwidth_draft = String::new();
    }
}

/// A context menu opens on `target`: it becomes the only selected entry of
/// its panel and the last one clicked.
pub fn open_context_menu(state: &mut State, panel: PanelKind, target: String)
    requires
        selections_distinct(*old(state)),
    ensures
        selections_distinct(*final(state)),
        final(state).context_menu matches Some(m) && m.panel == panel && m.target == target,
        name_set(selection_of(*final(state), panel)) == Set::<Seq<char>>::empty().insert(target@),
        last_clicked_of(*final(state), panel) matches Some(t) && t@ == target@,
        panel == PanelKind::Local ==> *final(state) == (State {
            context_menu: final(state).context_menu,
            selected_local: final(state).selected_local,
            last_clicked_local: final(state).last_clicked_local,
            ..*old(state)
        }),
        panel == PanelKind::Remote ==> *final(state) == (State {
            context_menu: final(state).context_menu,
            selected_remote: final(state).selected_remote,
            last_clicked_remote: final(state).last_clicked_remote,
            ..*old(state)
        }),
{
    let copy = target.clone();
    let last = target.clone();
    state.context_menu = Some(ContextMenu { panel, target });
    match panel {
        PanelKind::Local => {
            clear_names(&mut state.selected_local);
            insert_name(&mut state.selected_local, copy);
            state.last_clicked_local = Some(last);
        },
        PanelKind::Remote => {
            clear_names(&mut state.selected_remote);
            insert_name(&mut state.selected_remote, copy);
            state.last_clicked_remote = Some(last);
        },
    }
    assert(name_set(selection_of(*state, panel)) =~= Set::<Seq<char>>::empty().insert(target@));
}

/// The names of a listing, as a set.
pub open spec fn listing_names(entries: Seq<FtpEntry>) -> Set<Seq<char>> {
    Set::new(|n: Seq<char>| exists|i: int| 0 <= i < entries.len() && #[trigger] entries[i].name@ == n)
}

/// Selects every entry of a panel's listing (hidden or filtered out ones
/// too).
pub fn select_all(state: &mut State, panel: PanelKind)
    requires
        selections_distinct(*old(state)),
    ensures
        selections_distinct(*final(state)),
        name_set(selection_of(*final(state), panel)) == listing_names(entries_of(*old(state), panel)),
        panel == PanelKind::Local ==> *final(state) == (State { selected_local: final(state).selected_local, ..*old(state) }),
        panel == PanelKind::Remote ==> *final(state) == (State { selected_remote: final(state).selected_remote, ..*old(state) }),
{
    let ghost s = *state;
    let mut sel: Vec<String> = Vec::new();
    let n = state.entries_for_panel(panel).len();
    let mut i: usize = 0;
    while i < n
        invariant
            *state == s,
            n == entries_of(s, panel).len(),
            i <= n,
            distinct_names(sel@),
            name_set(sel@) == listing_names(entries_of(s, panel).take(i as int)),
        decreases n - i,
    {
        let name = match panel {
            PanelKind::Local => state.local_entries[i].name.clone(),
            PanelKind::Remote => state.remote_entries[i].name.clone(),
        };
        let ghost before = name_set(sel@);
        insert_name(&mut sel, name);
        proof {
            let es = entries_of(s, panel);
            assert(name_set(sel@) =~= listing_names(es.take(i + 1))) by {
                assert forall|x: Seq<char>| listing_names(es.take(i + 1)).contains(x) implies name_set(sel@).contains(x) by {
                    let k = choose|k: int| 0 <= k < es.take(i + 1).len() && #[trigger] es.take(i + 1)[k].name@ == x;
                    if k < i {
                        assert(es.take(i as int)[k].name@ == x);
                        assert(listing_names(es.take(i as int)).contains(x));
                    }
                }
                assert forall|x: Seq<char>| name_set(sel@).contains(x) implies listing_names(es.take(i + 1)).contains(x) by {
                    if x != es[i as int].name@ {
                        assert(before.contains(x));
                        let k = choose|k: int| 0 <= k < es.take(i as int).len() && #[trigger] es.take(i as int)[k].name@ == x;
                        assert(es.take(i + 1)[k].name@ == x);
                    } else {
                        assert(es.take(i + 1)[i as int].name@ == x);
                    }
                }
            }
        }
        i = i + 1;
    }
    assert(entries_of(s, panel).take(n as int) =~= entries_of(s, panel));
    match panel {
        PanelKind::Local => state.selected_local = sel,
        PanelKind::Remote => state.selected_remote = sel,
    }
}


/// The time an entry's listing stamp gives, in nanoseconds since the Unix
/// epoch; a stamp before the epoch counts as unknown.
pub open spec fn listing_time(e: FtpEntry) -> Option<u128> {
    match entry_stamp(e) {
        Some(t) => if t >= 0 {
            Some((t * 1_000_000_000) as u128)
        } else {
            None
        },
        None => None,
    }
}

/// The time an entry's listing stamp gives (see `listing_time`).
pub fn listing_time_of(entry: &FtpEntry) -> (r: Option<u128>)
    ensures
        r == listing_time(*entry),
{
    match entry_timestamp(entry) {
        Some(t) => if t >= 0 {
            parse_modified(entry)
        } else {
            None
        },
        None => None,
    }
}

/// The times of a listing's entries, one per entry.
pub open spec fn listing_times(es: Seq<FtpEntry>) -> Seq<Option<u128>> {
    Seq::new(es.len(), |i: int| listing_time(es[i]))
}

/// The times of the local files: the one read from disk where there is
/// one, else the listing's.
pub open spec fn sync_local_times(local: Seq<FtpEntry>, disk: Seq<Option<u128>>) -> Seq<Option<u128>> {
    Seq::new(local.len(), |i: int| if disk[i] is Some { disk[i] } else { listing_time(local[i]) })
}

/// The entries of a remote listing, none when it failed.
pub open spec fn listed(remote: Result<(String, Vec<FtpEntry>), AppError>) -> Seq<FtpEntry> {
    match remote {
        Ok((_, es)) => es@,
        Err(_) => Seq::empty(),
    }
}

/// The synchronisation plan of the local listing against the remote
/// listing that came back (an empty one when listing failed). `disk_times`
/// holds, per local entry, the file's modification time read from disk in
/// nanoseconds since the Unix epoch, when it could be read.
pub fn analyze_sync(
    local_entries: &[FtpEntry],
    disk_times: &[Option<u128>],
    remote: Result<(String, Vec<FtpEntry>), AppError>,
) -> (r: Vec<SyncEntry>)
    requires
        disk_times@.len() == local_entries@.len(),
    ensures
        is_sync_plan(
            local_entries@,
            listed(remote),
            sync_local_times(local_entries@, disk_times@),
            listing_times(listed(remote)),
            r@,
        ),
{
    let ghost rem = listed(remote);
    let remote_entries = match remote {
        Ok((_, es)) => es,
        Err(_) => Vec::new(),
    };
    let mut lt: Vec<Option<u128>> = Vec::new();
    let mut i: usize = 0;
    while i < local_entries.len()
        invariant
            i <= local_entries@.len(),
            disk_times@.len() == local_entries@.len(),
            lt@.len() == i,
            forall|k: int| 0 <= k < i ==> #[trigger] lt@[k] == sync_local_times(local_entries@, disk_times@)[k],
        decreases local_entries@.len() - i,
    {
        let t = match disk_times[i] {
            Some(t) => Some(t),
            None => listing_time_of(&local_entries[i]),
        };
        lt.push(t);
        i = i + 1;
    }
    let mut rt: Vec<Option<u128>> = Vec::new();
    let mut j: usize = 0;
    while j < remote_entries.len()
        invariant
            j <= remote_entries@.len(),
            rt@.len() == j,
            forall|k: int| 0 <= k < j ==> #[trigger] rt@[k] == listing_times(remote_entries@)[k],
        decreases remote_entries@.len() - j,
    {
        rt.push(listing_time_of(&remote_entries[j]));
        j = j + 1;
    }
    assert(lt@ =~= sync_local_times(local_entries@, disk_times@));
    assert(rt@ =~= listing_times(remote_entries@));
    plan_sync(local_entries, remote_entries.as_slice(), lt.as_slice(), rt.as_slice())
}

/// Whether a plan action queues a transfer.
pub open spec fn queues_transfer(a: SyncAction) -> bool {
    a == SyncAction::UploadToRemote || a == SyncAction::DownloadToLocal
}

/// Positions of the plan entries that queue a transfer, in plan order.
pub open spec fn sync_jobs(entries: Seq<SyncEntry>) -> Seq<int>
    decreases entries.len(),
{
    if entries.len() == 0 {
        Seq::empty()
    } else if queues_transfer(entries.last().action) {
        sync_jobs(entries.drop_last()).push(entries.len() - 1)
    } else {
        sync_jobs(entries.drop_last())
    }
}

/// Names of the plan entries whose local file is to be deleted, in plan
/// order.
pub open spec fn local_deletions(entries: Seq<SyncEntry>) -> Seq<Seq<char>>
    decreases entries.len(),
{
    if entries.len() == 0 {
        Seq::empty()
    } else if entries.last().action == SyncAction::DeleteLocal {
        local_deletions(entries.drop_last()).push(entries.last().name@)
    } else {
        local_deletions(entries.drop_last())
    }
}

/// The size the remote listing gives the first entry called `n`.
pub open spec fn remote_size(entries: Seq<FtpEntry>, n: Seq<char>) -> Option<u64> {
    match entry_named(entries, n) {
        Some(e) => e.size,
        None => None,
    }
}

/// The queued transfer that plan entry `e` becomes: an upload sized
/// `upload_size`, or a download sized as the remote listing says.
pub open spec fn sync_transfer(s: State, cid: u128, e: SyncEntry, upload_size: Option<u64>, t: TransferEntry) -> bool {
    &&& t.connection_id == cid
    &&& t.kind == (if e.action == SyncAction::UploadToRemote {
        TransferKind::Upload
    } else {
        TransferKind::Download
    })
    &&& t.filename == e.name
    &&& t.local_path@ == join_local_spec(s.local_path@, e.name@)
    &&& t.remote_path == s.remote_path
    &&& t.total_bytes == (if e.action == SyncAction::UploadToRemote {
        upload_size
    } else {
        remote_size(s.remote_entries@, e.name@)
    })
    &&& t.transferred_bytes == 0
    &&& t.resume_from == 0
    &&& t.status == TransferStatus::Queued
    &&& t.id != 0
}

/// Carries out a synchronisation plan for the selected connection: uploads
/// and downloads are queued in plan order, and the names of the local files
/// to delete are returned, for the caller to delete. `upload_sizes` holds,
/// per plan entry, the size of its local file when known. Without a
/// selected connection nothing happens.
pub fn apply_sync_actions(state: &mut State, entries: &[SyncEntry], upload_sizes: &[Option<u64>]) -> (r: Vec<String>)
    requires
        upload_sizes@.len() == entries@.len(),
    ensures
        ({
            let s = *old(state);
            let f = *final(state);
            let jobs = sync_jobs(entries@);
            &&& f == (State { transfers: f.transfers, ..s })
            &&& match s.selected_connection {
                None => f.transfers@ == s.transfers@ && r@.len() == 0,
                Some(cid) => {
                    &&& f.transfers@.len() == s.transfers@.len() + jobs.len()
                    &&& f.transfers@.take(s.transfers@.len() as int) == s.transfers@
                    &&& forall|k: int| 0 <= k < jobs.len() ==> sync_transfer(
                        s,
                        cid,
                        entries@[#[trigger] jobs[k]],
                        upload_sizes@[jobs[k]],
                        f.transfers@[s.transfers@.len() + k],
                    )
                    &&& texts(r@) == local_deletions(entries@)
                },
            }
        }),
{
    let ghost s = *state;
    let mut deletions: Vec<String> = Vec::new();
    let cid = match state.selected_connection {
        Some(c) => c,
        None => return deletions,
    };
    let n0 = state.transfers.len();
    let mut i: usize = 0;
    while i < entries.len()
        invariant
            i <= entries@.len(),
            upload_sizes@.len() == entries@.len(),
            s.selected_connection == Some(cid),
            *state == (State { transfers: state.transfers, ..s }),
            n0 == s.transfers@.len(),
            state.transfers@.len() == n0 + sync_jobs(entries@.take(i as int)).len(),
            state.transfers@.take(n0 as int) == s.transfers@,
            forall|k: int| 0 <= k < sync_jobs(entries@.take(i as int)).len() ==> sync_transfer(
                s,
                cid,
                entries@[#[trigger] sync_jobs(entries@.take(i as int))[k]],
                upload_sizes@[sync_jobs(entries@.take(i as int))[k]],
                state.transfers@[n0 + k],
            ),
            texts(deletions@) == local_deletions(entries@.take(i as int)),
        decreases entries@.len() - i,
    {
        let ghost pre = entries@.take(i as int);
        let ghost post = entries@.take(i + 1);
        proof {
            assert(post.drop_last() =~= pre);
        }
        let ghost before = state.transfers@;
        let ghost dels = deletions@;
        let e = &entries[i];
        match e.action {
            SyncAction::UploadToRemote => {
                let local = join_local_path(state.local_path.as_str(), e.name.as_str());
                let t = TransferEntry::queued(
                    new_id(),
                    cid,
                    TransferKind::Upload,
                    e.name.clone(),
                    local,
                    state.remote_path.clone(),
                    upload_sizes[i],
                );
                state.transfers.push(t);
            },
            SyncAction::DownloadToLocal => {
                let size = match find_entry(state.remote_entries.as_slice(), e.name.as_str()) {
                    Some(k) => state.remote_entries[k].size,
                    None => None,
                };
                let local = join_local_path(state.local_path.as_str(), e.name.as_str());
                let t = TransferEntry::queued(
                    new_id(),
                    cid,
                    TransferKind::Download,
                    e.name.clone(),
                    local,
                    state.remote_path.clone(),
                    size,
                );
                state.transfers.push(t);
            },
            SyncAction::DeleteLocal => {
                deletions.push(e.name.clone());
            },
            SyncAction::DeleteRemote => {},
            SyncAction::Skip => {},
        }
        proof {
            let jp = sync_jobs(pre);
            let jq = sync_jobs(post);
            assert(state.transfers@.take(n0 as int) =~= before.take(n0 as int));
            assert forall|k: int| 0 <= k < jq.len() implies sync_transfer(
                s,
                cid,
                entries@[#[trigger] jq[k]],
                upload_sizes@[jq[k]],
                state.transfers@[n0 + k],
            ) by {
                if k < jp.len() {
                    assert(jq[k] == jp[k]);
                    assert(state.transfers@[n0 + k] == before[n0 + k]);
                }
            }
            assert(texts(deletions@) =~= local_deletions(post));
        }
        i = i + 1;
    }
    assert(entries@.take(entries@.len() as int) =~= entries@);
    deletions
}

} // verus!
