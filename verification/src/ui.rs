//! What the panels write, apart from drawing: breadcrumbs of a directory
//! path and shortened paths.

use vstd::prelude::*;
use crate::app::{join_local_path, join_local_spec, trim_end_slashes, trim_slashes_end};
use crate::models::panel::PanelKind;
use crate::models::ftp_entry::FtpEntry;
use crate::models::settings::AppSettings;
use crate::models::sort::{SortKey, SortOrder, SortSpec, apply_view, view_entries};
use crate::models::transfer::{TransferEntry, TransferStatus, status_label_spec};
use crate::models::prompt::PromptDialog;
use crate::models::sync::{SyncDiff, SyncState};
use crate::models::connection::ConnectionStatus;
use crate::models::connection_form::ConnectionForm;
use crate::models::state::State;
use crate::models::context_menu::ContextMenu;
use crate::text::{decimal_digits, to_decimal};

verus! {

/// `path` cut to at most `max` characters: whole when it fits, else `…`
/// and its last `max - 1` characters.
pub open spec fn truncated(path: Seq<char>, max: nat) -> Seq<char> {
    if path.len() <= max {
        path
    } else {
        "…"@ + path.subrange(path.len() - (max - 1), path.len() as int)
    }
}

/// `path` cut to at most `max` characters (see `truncated`). A path that
/// does not fit needs room for at least the ellipsis.
pub fn truncate_path(path: &str, max: usize) -> (r: String)
    requires
        path@.len() <= max || max >= 1,
    ensures
        r@ == truncated(path@, max as nat),
{
    let n = path.unicode_len();
    if n <= max {
        path.to_string()
    } else {
        let mut r = "…".to_string();
        r.append(path.substring_char(n - (max - 1), n));
        r
    }
}

/// The texts of a list of label and path pairs.
pub open spec fn pair_texts(v: Seq<(String, String)>) -> Seq<(Seq<char>, Seq<char>)> {
    v.map_values(|p: (String, String)| (p.0@, p.1@))
}

/// Number of `/` characters at the start of `s`.
pub open spec fn slash_prefix_len(s: Seq<char>) -> nat
    decreases s.len(),
{
    if s.len() > 0 && s[0] == '/' {
        1 + slash_prefix_len(s.skip(1))
    } else {
        0
    }
}

/// `s` without its leading `/` characters (`trim_start_matches('/')`).
pub open spec fn trim_slashes_start(s: Seq<char>) -> Seq<char> {
    s.skip(slash_prefix_len(s) as int)
}

proof fn lemma_slash_prefix_len(s: Seq<char>, j: int)
    requires
        0 <= j <= s.len(),
        forall|k: int| 0 <= k < j ==> #[trigger] s[k] == '/',
        j == s.len() || s[j] != '/',
    ensures
        slash_prefix_len(s) == j,
    decreases j,
{
    if j > 0 {
        let t = s.skip(1);
        assert forall|k: int| 0 <= k < j - 1 implies #[trigger] t[k] == '/' by {
            assert(t[k] == s[k + 1]);
        }
        if j < s.len() {
            assert(t[j - 1] == s[j]);
        }
        lemma_slash_prefix_len(t, j - 1);
    }
}

/// Positions of the `/` characters among the first `i` characters of `s`.
pub open spec fn slash_positions(s: Seq<char>, i: nat) -> Seq<int>
    decreases i,
{
    if i == 0 {
        Seq::empty()
    } else if s[i - 1] == '/' {
        slash_positions(s, (i - 1) as nat).push(i - 1)
    } else {
        slash_positions(s, (i - 1) as nat)
    }
}

/// Where the segments of `s` end: at each `/`, and at the end of `s`.
pub open spec fn segment_ends(s: Seq<char>) -> Seq<int> {
    slash_positions(s, s.len()).push(s.len() as int)
}

/// The crumb of the segment of `s` that ends at `ends[k]`: the segment, and
/// `/` followed by `s` up to that end.
pub open spec fn remote_crumb(s: Seq<char>, ends: Seq<int>, k: int) -> (Seq<char>, Seq<char>) {
    let start = if k == 0 {
        0
    } else {
        ends[k - 1] + 1
    };
    (s.subrange(start, ends[k]), "/"@ + s.take(ends[k]))
}

/// The breadcrumbs of a remote path: the root, then one crumb per segment
/// of the path between slashes (trailing slashes ignored), each leading to
/// the path up to that segment.
pub open spec fn remote_crumbs(path: Seq<char>) -> Seq<(Seq<char>, Seq<char>)> {
    let t = trim_slashes_end(path);
    if t.len() == 0 {
        seq![("/"@, "/"@)]
    } else {
        let s = trim_slashes_start(t);
        let ends = segment_ends(s);
        seq![("/"@, "/"@)] + Seq::new(ends.len(), |k: int| remote_crumb(s, ends, k))
    }
}

/// The breadcrumbs of a remote path (see `remote_crumbs`).
pub fn remote_breadcrumbs(path: &str) -> (r: Vec<(String, String)>)
    ensures
        pair_texts(r@) == remote_crumbs(path@),
{
    let t = trim_end_slashes(path);
    let n = t.unicode_len();
    let mut out: Vec<(String, String)> = Vec::new();
    out.push(("/".to_string(), "/".to_string()));
    if n == 0 {
        assert(pair_texts(out@) =~= remote_crumbs(path@));
        return out;
    }
    let mut a: usize = 0;
    while a < n && t.get_char(a) == '/'
        invariant
            n == t@.len(),
            a <= n,
            forall|k: int| 0 <= k < a ==> #[trigger] t@[k] == '/',
        decreases n - a,
    {
        a = a + 1;
    }
    proof {
        lemma_slash_prefix_len(t@, a as int);
    }
    let s = t.substring_char(a, n);
    let ghost sv = s@;
    assert(sv =~= trim_slashes_start(t@));
    let m = s.unicode_len();
    let mut start: usize = 0;
    let mut i: usize = 0;
    while i < m
        invariant
            m == sv.len(),
            s@ == sv,
            i <= m,
            start <= i,
            start == (if slash_positions(sv, i as nat).len() == 0 {
                0
            } else {
                slash_positions(sv, i as nat).last() + 1
            }),
            out@.len() == 1 + slash_positions(sv, i as nat).len(),
            out@[0].0@ == "/"@,
            out@[0].1@ == "/"@,
            forall|k: int| 0 <= k < slash_positions(sv, i as nat).len() ==> (#[trigger] out@[k + 1]).0@
                == remote_crumb(sv, slash_positions(sv, i as nat), k).0 && out@[k + 1].1@ == remote_crumb(
                sv,
                slash_positions(sv, i as nat),
                k,
            ).1,
            forall|k: int| 0 <= k < slash_positions(sv, i as nat).len() ==> 0 <= #[trigger] slash_positions(sv, i as nat)[k] < i,
        decreases m - i,
    {
        let ghost pre = slash_positions(sv, i as nat);
        let ghost before = out@;
        if s.get_char(i) == '/' {
            let label = s.substring_char(start, i).to_string();
            let mut full = "/".to_string();
            full.append(s.substring_char(0, i));
            out.push((label, full));
            proof {
                let post = slash_positions(sv, (i + 1) as nat);
                assert(post == pre.push(i as int));
                assert forall|k: int| 0 <= k < post.len() implies (#[trigger] out@[k + 1]).0@ == remote_crumb(
                    sv,
                    post,
                    k,
                ).0 && out@[k + 1].1@ == remote_crumb(sv, post, k).1 by {
                    if k < pre.len() {
                        assert(out@[k + 1] == before[k + 1]);
                        assert(post[k] == pre[k]);
                        if k > 0 {
                            assert(post[k - 1] == pre[k - 1]);
                        }
                    } else {
                        if k > 0 {
                            assert(post[k - 1] == pre[k - 1]);
                        }
                        assert(sv.take(i as int) =~= sv.subrange(0, i as int));
                    }
                }
            }
            start = i + 1;
        } else {
            proof {
                assert(slash_positions(sv, (i + 1) as nat) == pre);
            }
        }
        i = i + 1;
    }
    let ghost pos = slash_positions(sv, m as nat);
    let ghost ends = segment_ends(sv);
    let ghost before = out@;
    let label = s.substring_char(start, m).to_string();
    let mut full = "/".to_string();
    full.append(s);
    out.push((label, full));
    proof {
        let want = remote_crumbs(path@);
        assert(trim_slashes_end(path@) == t@);
        assert(want.len() == out@.len());
        assert(trim_slashes_start(t@) == sv);
        assert(ends.len() == pos.len() + 1);
        assert forall|k: int| 0 <= k < out@.len() implies #[trigger] pair_texts(out@)[k] == want[k] by {
            if k == 0 {
                assert(out@[0] == before[0]);
                assert(want[0] == ("/"@, "/"@));
                assert(pair_texts(out@)[0] == (out@[0].0@, out@[0].1@));
            } else {
                let j = k - 1;
                assert(want[k] == remote_crumb(sv, ends, j));
                assert(ends[j] == if j < pos.len() { pos[j] } else { m as int });
                if j > 0 {
                    assert(ends[j - 1] == pos[j - 1]);
                }
                if j < pos.len() {
                    assert(out@[k] == before[k]);
                    assert(before[j + 1].0@ == remote_crumb(sv, pos, j).0);
                    assert(remote_crumb(sv, ends, j) == remote_crumb(sv, pos, j));
                } else {
                    assert(sv.take(m as int) =~= sv);
                    assert(out@[k].0@ == sv.subrange(start as int, m as int));
                    assert(out@[k].1@ == "/"@ + sv);
                }
                assert(pair_texts(out@)[k] == (out@[k].0@, out@[k].1@));
            }
        }
        assert(pair_texts(out@) =~= want);
    }
    out
}

/// One component of a local path, as `std::path::Component` splits it.
#[derive(Debug, Clone, PartialEq, Eq)]
pub enum PathPart {
    Root(String),
    Current,
    Parent,
    Normal(String),
}

/// The text of a component.
pub open spec fn part_text(p: PathPart) -> Seq<char> {
    match p {
        PathPart::Root(t) => t@,
        PathPart::Current => "."@,
        PathPart::Parent => ".."@,
        PathPart::Normal(n) => n@,
    }
}

/// The path that the first `k` components build, joined one by one as
/// `PathBuf::push` joins them.
pub open spec fn built_path(parts: Seq<PathPart>, k: nat) -> Seq<char>
    decreases k,
{
    if k == 0 {
        Seq::empty()
    } else {
        join_local_spec(built_path(parts, (k - 1) as nat), part_text(parts[k - 1]))
    }
}

/// The crumbs of the first `k` components: one per root or named
/// component, with the path built up to it; `.` and `..` get none.
pub open spec fn crumbs_upto(parts: Seq<PathPart>, k: nat) -> Seq<(Seq<char>, Seq<char>)>
    decreases k,
{
    if k == 0 {
        Seq::empty()
    } else {
        let prev = crumbs_upto(parts, (k - 1) as nat);
        match parts[k - 1] {
            PathPart::Root(t) => prev.push((t@, built_path(parts, k))),
            PathPart::Normal(n) => prev.push((n@, built_path(parts, k))),
            _ => prev,
        }
    }
}

/// The breadcrumbs of a local path split into `parts`: the crumbs of its
/// components, or the path itself as its only crumb when there are none.
pub open spec fn local_crumbs(parts: Seq<PathPart>, path: Seq<char>) -> Seq<(Seq<char>, Seq<char>)> {
    let c = crumbs_upto(parts, parts.len());
    if c.len() == 0 {
        seq![(path, path)]
    } else {
        c
    }
}

/// The text of a component.
fn part_string(p: &PathPart) -> (r: String)
    ensures
        r@ == part_text(*p),
{
    match p {
        PathPart::Root(t) => t.clone(),
        PathPart::Current => ".".to_string(),
        PathPart::Parent => "..".to_string(),
        PathPart::Normal(n) => n.clone(),
    }
}

/// The breadcrumbs of local path `path`, split into `parts` (see
/// `local_crumbs`).
pub fn local_breadcrumbs(parts: &Vec<PathPart>, path: &str) -> (r: Vec<(String, String)>)
    ensures
        pair_texts(r@) == local_crumbs(parts@, path@),
{
    let mut out: Vec<(String, String)> = Vec::new();
    let mut acc = String::new();
    let mut i: usize = 0;
    while i < parts.len()
        invariant
            i <= parts@.len(),
            acc@ == built_path(parts@, i as nat),
            pair_texts(out@) == crumbs_upto(parts@, i as nat),
        decreases parts@.len() - i,
    {
        let text = part_string(&parts[i]);
        acc = join_local_path(acc.as_str(), text.as_str());
        let ghost before = out@;
        match &parts[i] {
            PathPart::Root(t) => {
                out.push((t.clone(), acc.clone()));
            },
            PathPart::Normal(n) => {
                out.push((n.clone(), acc.clone()));
            },
            _ => {},
        }
        proof {
            assert(pair_texts(out@) =~= crumbs_upto(parts@, (i + 1) as nat)) by {
                assert(pair_texts(before) == crumbs_upto(parts@, i as nat));
                if out@.len() > before.len() {
                    assert forall|k: int| 0 <= k < before.len() implies pair_texts(out@)[k] == pair_texts(before)[k] by {
                        assert(out@[k] == before[k]);
                    }
                }
            }
        }
        i = i + 1;
    }
    if out.len() == 0 {
        out.push((path.to_string(), path.to_string()));
        assert(pair_texts(out@) =~= local_crumbs(parts@, path@));
    }
    out
}

/// Splits `path` into its components with `std::path::Path::components`,
/// one part per component, in order. What the components are depends on the
/// platform's path syntax, so nothing is stated of them.
#[verifier::external_body]
fn path_components(path: &str) -> (r: Vec<PathPart>)
{
    std::path::Path::new(path)
        .components()
        .map(|c| match c {
            std::path::Component::Prefix(_) => PathPart::Root(c.as_os_str().to_string_lossy().to_string()),
            std::path::Component::RootDir => PathPart::Root(c.as_os_str().to_string_lossy().to_string()),
            std::path::Component::CurDir => PathPart::Current,
            std::path::Component::ParentDir => PathPart::Parent,
            std::path::Component::Normal(n) => PathPart::Normal(n.to_string_lossy().to_string()),
        })
        .collect()
}

/// The breadcrumbs of a panel's path, as label and path pairs. Remote paths
/// are split at slashes (see `remote_crumbs`); local ones into the
/// components that the platform's path syntax gives (see `local_crumbs`).
pub fn build_breadcrumb_segments(kind: PanelKind, path: &str) -> (r: Vec<(String, String)>)
    ensures
        kind == PanelKind::Remote ==> pair_texts(r@) == remote_crumbs(path@),
        kind == PanelKind::Local ==> exists|parts: Seq<PathPart>| pair_texts(r@) == local_crumbs(parts, path@),
{
    match kind {
        PanelKind::Local => {
            let parts = path_components(path);
            local_breadcrumbs(&parts, path)
        },
        PanelKind::Remote => remote_breadcrumbs(path),
    }
}


/// A column header's text: its label, with an arrow for the direction when
/// the panel is sorted by that column.
pub open spec fn header_text(label: Seq<char>, key: SortKey, sort: SortSpec) -> Seq<char> {
    if sort.key == key {
        label + (if sort.order == SortOrder::Asc {
            " ▴"@
        } else {
            " ▾"@
        })
    } else {
        label
    }
}

/// A column header's text (see `header_text`).
pub fn sort_header_label(label: &str, key: SortKey, sort: SortSpec) -> (r: String)
    ensures
        r@ == header_text(label@, key, sort),
{
    let mut r = label.to_string();
    if sort.key == key {
        match sort.order {
            SortOrder::Asc => r.append(" ▴"),
            SortOrder::Desc => r.append(" ▾"),
        }
    }
    r
}

/// Which of a panel's buttons are enabled: new directory, rename and
/// delete. The remote panel needs a connection; renaming needs exactly one
/// selected entry and deleting at least one.
pub fn panel_actions(kind: PanelKind, is_connected: bool, selected: usize) -> (r: (bool, bool, bool))
    ensures
        ({
            let ops = kind == PanelKind::Local || is_connected;
            r == (ops, ops && selected == 1, ops && selected > 0)
        }),
{
    let ops = match kind {
        PanelKind::Local => true,
        PanelKind::Remote => is_connected,
    };
    (ops, ops && selected == 1, ops && selected > 0)
}

/// How the queue panel words a transfer's status: a failure with its
/// message, the others by name.
pub open spec fn status_text_spec(s: TransferStatus) -> Seq<char> {
    match s {
        TransferStatus::Failed(m) => "fallida: "@ + m@,
        _ => status_label_spec(s),
    }
}

/// How the queue panel words a transfer's status (see `status_text_spec`).
pub fn transfer_status_text(entry: &TransferEntry) -> (r: String)
    ensures
        r@ == status_text_spec(entry.status),
{
    match &entry.status {
        TransferStatus::Failed(m) => {
            let mut r = "fallida: ".to_string();
            r.append(m.as_str());
            r
        },
        _ => entry.status_label().to_string(),
    }
}

/// Total size of the files of a listing (directories count nothing, nor
/// files of unknown size).
pub open spec fn file_bytes(es: Seq<FtpEntry>) -> int
    decreases es.len(),
{
    if es.len() == 0 {
        0
    } else {
        file_bytes(es.drop_last()) + if !es.last().is_dir && es.last().size is Some {
            es.last().size->0 as int
        } else {
            0
        }
    }
}

proof fn lemma_file_bytes_prefix(es: Seq<FtpEntry>, i: int)
    requires
        0 <= i <= es.len(),
    ensures
        0 <= file_bytes(es.take(i)) <= file_bytes(es),
    decreases es.len() - i,
{
    if i < es.len() {
        lemma_file_bytes_prefix(es, i + 1);
        assert(es.take(i + 1).drop_last() =~= es.take(i));
    } else {
        assert(es.take(i) =~= es);
    }
    lemma_file_bytes_nonneg(es.take(i));
}

proof fn lemma_file_bytes_nonneg(es: Seq<FtpEntry>)
    ensures
        file_bytes(es) >= 0,
    decreases es.len(),
{
    if es.len() > 0 {
        lemma_file_bytes_nonneg(es.drop_last());
    }
}

/// The status bar's figures for a panel: how many entries it shows and
/// the total size of the files among them, or `None` when that total does
/// not fit in 64 bits.
pub fn status_figures(entries: &[FtpEntry], sort: SortSpec, filter: &str, settings: &AppSettings) -> (r: Option<(usize, u64)>)
    ensures
        ({
            let ve = view_entries(entries@, sort, filter@, *settings);
            match r {
                Some((count, bytes)) => count == ve.len() && bytes == file_bytes(ve),
                None => file_bytes(ve) > u64::MAX,
            }
        }),
{
    let shown = apply_view(entries, sort, filter, settings);
    let ghost ve = view_entries(entries@, sort, filter@, *settings);
    assert(ve.len() == shown@.len());
    let mut total: u64 = 0;
    let mut i: usize = 0;
    while i < shown.len()
        invariant
            i <= shown@.len(),
            ve.len() == shown@.len(),
            ve == view_entries(entries@, sort, filter@, *settings),
            forall|k: int| 0 <= k < shown@.len() ==> *shown@[k] == #[trigger] ve[k],
            total == file_bytes(ve.take(i as int)),
        decreases shown@.len() - i,
    {
        let e = shown[i];
        proof {
            assert(ve.take(i + 1).drop_last() =~= ve.take(i as int));
            assert(ve.take(i + 1).last() == ve[i as int]);
            lemma_file_bytes_prefix(ve, i + 1);
        }
        if !e.is_dir {
            match e.size {
                Some(sz) => match total.checked_add(sz) {
                    Some(t) => total = t,
                    None => {
                        proof {
                            assert(*e == ve[i as int]);
                            assert(file_bytes(ve.take(i + 1)) == file_bytes(ve.take(i as int)) + sz);
                            lemma_file_bytes_prefix(ve, i + 1);
                        }
                        return None;
                    },
                },
                None => {},
            }
        }
        i = i + 1;
    }
    assert(ve.take(i as int) =~= ve);
    Some((shown.len(), total))
}

/// The status bar's figures for a panel (see `status_figures`), whose
/// total size fits in 64 bits.
pub fn status_totals(entries: &[FtpEntry], sort: SortSpec, filter: &str, settings: &AppSettings) -> (r: (usize, u64))
    requires
        file_bytes(view_entries(entries@, sort, filter@, *settings)) <= u64::MAX,
    ensures
        r.0 == view_entries(entries@, sort, filter@, *settings).len(),
        r.1 == file_bytes(view_entries(entries@, sort, filter@, *settings)),
{
    match status_figures(entries, sort, filter, settings) {
        Some(r) => r,
        None => (0, 0),
    }
}


/// A shortened path never has more than `max` characters.
pub proof fn lemma_truncated_fits(path: Seq<char>, max: nat)
    requires
        path.len() <= max || max >= 1,
    ensures
        truncated(path, max).len() <= max,
        path.len() <= max ==> truncated(path, max) == path,
{
    reveal_strlit("…");
}

/// The breadcrumbs of a remote path start at the root, and the last one
/// leads to the path itself (without its trailing slashes, and with a
/// single leading one).
pub proof fn lemma_remote_crumbs_ends(path: Seq<char>)
    ensures
        remote_crumbs(path).len() >= 1,
        remote_crumbs(path)[0] == ("/"@, "/"@),
        remote_crumbs(path).last().1 == "/"@ + trim_slashes_start(trim_slashes_end(path)),
{
    reveal_strlit("/");
    let t = trim_slashes_end(path);
    if t.len() == 0 {
        assert(trim_slashes_start(t) =~= Seq::<char>::empty());
        assert("/"@ + Seq::<char>::empty() =~= "/"@);
    } else {
        let s = trim_slashes_start(t);
        let ends = segment_ends(s);
        let c = remote_crumbs(path);
        assert(c.last() == remote_crumb(s, ends, ends.len() - 1));
        assert(s.take(s.len() as int) =~= s);
    }
}


/// What a prompt shows above its buttons: the title, the line under it,
/// and whether it takes a name.
pub open spec fn prompt_heading_spec(dialog: PromptDialog) -> (Seq<char>, Seq<char>, bool) {
    match dialog {
        PromptDialog::Mkdir { .. } => ("Nueva carpeta"@, "Nombre de la carpeta"@, true),
        PromptDialog::Rename { old, .. } => ("Renombrar"@, "Renombrar «"@ + old@ + "»"@, true),
        PromptDialog::ConfirmDelete { names, .. } => (
            "Confirmar eliminación"@,
            if names@.len() == 1 {
                "¿Eliminar «"@ + names@[0]@ + "»?"@
            } else {
                "¿Eliminar "@ + decimal_digits(names@.len()) + " elementos?"@
            },
            false,
        ),
    }
}

/// What a prompt shows above its buttons (see `prompt_heading_spec`).
pub fn prompt_heading(dialog: &PromptDialog) -> (r: (&'static str, String, bool))
    ensures
        r.0@ == prompt_heading_spec(*dialog).0,
        r.1@ == prompt_heading_spec(*dialog).1,
        r.2 == prompt_heading_spec(*dialog).2,
{
    match dialog {
        PromptDialog::Mkdir { .. } => ("Nueva carpeta", "Nombre de la carpeta".to_string(), true),
        PromptDialog::Rename { old, .. } => {
            let mut line = "Renombrar «".to_string();
            line.append(old.as_str());
            line.append("»");
            ("Renombrar", line, true)
        },
        PromptDialog::ConfirmDelete { names, .. } => {
            let line = if names.len() == 1 {
                let mut l = "¿Eliminar «".to_string();
                l.append(names[0].as_str());
                l.append("»?");
                l
            } else {
                let mut l = "¿Eliminar ".to_string();
                let count = to_decimal(names.len() as u64);
                l.append(count.as_str());
                l.append(" elementos?");
                l
            };
            ("Confirmar eliminación", line, false)
        },
    }
}

/// How the synchronisation panel describes a difference.
pub open spec fn diff_label_spec(d: SyncDiff) -> Seq<char> {
    match d {
        SyncDiff::OnlyLocal => "solo local"@,
        SyncDiff::OnlyRemote => "solo remoto"@,
        SyncDiff::Both { local_newer } => if local_newer {
            "ambos (local más nuevo)"@
        } else {
            "ambos (remoto más nuevo)"@
        },
    }
}

/// How the synchronisation panel describes a difference.
pub fn sync_diff_label(d: SyncDiff) -> (r: &'static str)
    ensures
        r@ == diff_label_spec(d),
{
    match d {
        SyncDiff::OnlyLocal => "solo local",
        SyncDiff::OnlyRemote => "solo remoto",
        SyncDiff::Both { local_newer: true } => "ambos (local más nuevo)",
        SyncDiff::Both { local_newer: false } => "ambos (remoto más nuevo)",
    }
}

/// The synchronisation panel's title, and the message shown instead of the
/// plan while it is worked out or when it is empty.
pub fn sync_panel_texts(panel: &SyncState) -> (r: (&'static str, Option<&'static str>))
    ensures
        r.0@ == (if panel.analyzing {
            "Comparando directorios…"@
        } else {
            "Sincronizar directorios"@
        }),
        panel.analyzing ==> (r.1 matches Some(m) && m@ == "Analizando diferencias local ↔ remoto…"@),
        !panel.analyzing && panel.entries@.len() == 0 ==> (r.1 matches Some(m) && m@
            == "No hay diferencias entre los directorios actuales."@),
        !panel.analyzing && panel.entries@.len() > 0 ==> r.1 is None,
{
    if panel.analyzing {
        ("Comparando directorios…", Some("Analizando diferencias local ↔ remoto…"))
    } else if panel.entries.len() == 0 {
        ("Sincronizar directorios", Some("No hay diferencias entre los directorios actuales."))
    } else {
        ("Sincronizar directorios", None)
    }
}

/// The site manager's title: editing a saved connection or a new one.
pub fn connection_form_title(form: &ConnectionForm) -> (r: &'static str)
    ensures
        r@ == (if form.editing_id is Some {
            "Editar conexión"@
        } else {
            "Nueva conexión"@
        }),
{
    if form.editing_id.is_some() {
        "Editar conexión"
    } else {
        "Nueva conexión"
    }
}

/// The state a saved connection's dot shows in the sidebar.
#[derive(Debug, Clone, Copy, PartialEq, Eq, Structural)]
pub enum Badge {
    Idle,
    Connecting,
    Connected,
    Failed,
}

/// The sidebar dot of a connection: the remote side's state for the
/// selected connection, idle for the others.
pub fn connection_badge(is_selected: bool, status: &ConnectionStatus) -> (r: Badge)
    ensures
        r == (if !is_selected {
            Badge::Idle
        } else {
            match status {
                ConnectionStatus::Connected => Badge::Connected,
                ConnectionStatus::Connecting => Badge::Connecting,
                ConnectionStatus::Error(_) => Badge::Failed,
                ConnectionStatus::Disconnected => Badge::Idle,
            }
        }),
{
    if !is_selected {
        return Badge::Idle;
    }
    match status {
        ConnectionStatus::Connected => Badge::Connected,
        ConnectionStatus::Connecting => Badge::Connecting,
        ConnectionStatus::Error(_) => Badge::Failed,
        ConnectionStatus::Disconnected => Badge::Idle,
    }
}


/// A layer drawn over the panels.
#[derive(Debug, Clone, Copy, PartialEq, Eq, Structural)]
pub enum Overlay {
    ConnectionForm,
    Prompt,
    ContextMenu,
    Settings,
    SyncPanel,
    Toasts,
}

/// A strip of the window below the panels.
#[derive(Debug, Clone, Copy, PartialEq, Eq, Structural)]
pub enum FooterPart {
    TransferQueue,
    FtpLog,
    StatusBar,
    TransferBar,
}

/// How the window is put together: the status message above the panels,
/// the strips below them from top to bottom, and the layers over them from
/// bottom to top.
pub struct ScreenLayout {
    pub banner: Option<String>,
    pub footer: Vec<FooterPart>,
    pub overlays: Vec<Overlay>,
}

/// `x` when `on`, nothing otherwise.
pub open spec fn shown_if<T>(on: bool, x: T) -> Seq<T> {
    if on {
        seq![x]
    } else {
        Seq::empty()
    }
}

/// The strips below the panels: the transfer queue and the command log
/// when shown, then the status bar and the transfer bar.
pub open spec fn footer_spec(s: State) -> Seq<FooterPart> {
    shown_if(s.queue_panel_visible, FooterPart::TransferQueue) + shown_if(s.ftp_log.shown(), FooterPart::FtpLog)
        + seq![FooterPart::StatusBar, FooterPart::TransferBar]
}

/// The layers over the panels: the site manager, the prompt, the context
/// menu, the settings dialog and the synchronisation panel when open, and
/// the notifications on top.
pub open spec fn overlays_spec(s: State) -> Seq<Overlay> {
    shown_if(s.connection_form is Some, Overlay::ConnectionForm) + shown_if(s.prompt is Some, Overlay::Prompt)
        + shown_if(s.context_menu is Some, Overlay::ContextMenu) + shown_if(s.settings_modal_open, Overlay::Settings)
        + shown_if(s.sync_panel is Some, Overlay::SyncPanel) + seq![Overlay::Toasts]
}

/// Appends `x` when `on`.
fn push_if<T>(v: &mut Vec<T>, on: bool, x: T)
    ensures
        final(v)@ == old(v)@ + shown_if(on, x),
{
    if on {
        v.push(x);
        assert(final(v)@ =~= old(v)@ + shown_if(on, x));
    } else {
        assert(old(v)@ + shown_if(on, x) =~= old(v)@);
    }
}

/// How the window is put together for `state` (see `footer_spec` and
/// `overlays_spec`).
pub fn screen_layout(state: &State) -> (r: ScreenLayout)
    ensures
        r.banner == state.status_message,
        r.footer@ == footer_spec(*state),
        r.overlays@ == overlays_spec(*state),
{
    let mut footer: Vec<FooterPart> = Vec::new();
    push_if(&mut footer, state.queue_panel_visible, FooterPart::TransferQueue);
    push_if(&mut footer, state.ftp_log.is_visible(), FooterPart::FtpLog);
    push_if(&mut footer, true, FooterPart::StatusBar);
    push_if(&mut footer, true, FooterPart::TransferBar);
    assert(footer@ =~= footer_spec(*state));
    let mut overlays: Vec<Overlay> = Vec::new();
    push_if(&mut overlays, state.connection_form.is_some(), Overlay::ConnectionForm);
    push_if(&mut overlays, state.prompt.is_some(), Overlay::Prompt);
    push_if(&mut overlays, state.context_menu.is_some(), Overlay::ContextMenu);
    push_if(&mut overlays, state.settings_modal_open, Overlay::Settings);
    push_if(&mut overlays, state.sync_panel.is_some(), Overlay::SyncPanel);
    push_if(&mut overlays, true, Overlay::Toasts);
    assert(overlays@ =~= overlays_spec(*state));
    let banner = match &state.status_message {
        Some(m) => Some(m.clone()),
        None => None,
    };
    ScreenLayout { banner, footer, overlays }
}

/// What the sidebar offers: the quick-connect bar when expanded, the
/// disconnect button while connected, and connecting to and editing the
/// selected connection.
pub fn sidebar_actions(state: &State) -> (r: (bool, bool, Option<u128>))
    ensures
        r.0 == state.quickconnect_expanded,
        r.1 == (state.remote_status == ConnectionStatus::Connected),
        r.2 == state.selected_connection,
{
    let connected = match state.remote_status {
        ConnectionStatus::Connected => true,
        _ => false,
    };
    (state.quickconnect_expanded, connected, state.selected_connection)
}


/// The entries of a panel's context menu, from top to bottom: new
/// directory, rename, delete, and the transfer in that panel's direction.
pub open spec fn menu_entries_spec(panel: PanelKind) -> Seq<Seq<char>> {
    seq![
        "Nueva carpeta"@,
        "Renombrar"@,
        "Eliminar"@,
        if panel == PanelKind::Local {
            "Subir"@
        } else {
            "Bajar"@
        },
    ]
}

/// The context menu's heading (its entry's name in quotes) and its entries
/// (see `menu_entries_spec`).
pub fn context_menu_texts(menu: &ContextMenu) -> (r: (String, Vec<&'static str>))
    ensures
        r.0@ == "«"@ + menu.target@ + "»"@,
        r.1@.len() == 4,
        forall|i: int| 0 <= i < 4 ==> (#[trigger] r.1@[i])@ == menu_entries_spec(menu.panel)[i],
{
    let mut title = "«".to_string();
    title.append(menu.target.as_str());
    title.append("»");
    let mut entries: Vec<&'static str> = Vec::new();
    entries.push("Nueva carpeta");
    entries.push("Renombrar");
    entries.push("Eliminar");
    match menu.panel {
        PanelKind::Local => entries.push("Subir"),
        PanelKind::Remote => entries.push("Bajar"),
    }
    (title, entries)
}

} // verus!
