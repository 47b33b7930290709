//! Directory synchronisation: how a name differs between the two sides and
//! what to do about it.

use vstd::prelude::*;
use crate::models::ftp_entry::FtpEntry;
use crate::text::{chars_of, lemma_lex_order_props, lemma_lex_order_trans, lex_compare, lex_order};

verus! {

/// How a file name differs between the local and the remote directory.
#[derive(Debug, Clone, Copy, PartialEq, Eq, Structural)]
pub enum SyncDiff {
    OnlyLocal,
    OnlyRemote,
    Both { local_newer: bool },
}

/// What synchronisation does with one name.
#[derive(Debug, Clone, Copy, PartialEq, Eq, Structural)]
pub enum SyncAction {
    UploadToRemote,
    DownloadToLocal,
    DeleteLocal,
    DeleteRemote,
    Skip,
}

/// The action as the sync panel words it.
pub open spec fn sync_label_spec(a: SyncAction) -> Seq<char> {
    match a {
        SyncAction::UploadToRemote => "subir"@,
        SyncAction::DownloadToLocal => "bajar"@,
        SyncAction::DeleteLocal => "eliminar local"@,
        SyncAction::DeleteRemote => "eliminar remoto"@,
        SyncAction::Skip => "omitir"@,
    }
}

/// The action proposed for a difference: copy the side that is missing the
/// file, or the newer side over the older one.
pub open spec fn default_action(diff: SyncDiff) -> SyncAction {
    match diff {
        SyncDiff::OnlyLocal => SyncAction::UploadToRemote,
        SyncDiff::OnlyRemote => SyncAction::DownloadToLocal,
        SyncDiff::Both { local_newer } => if local_newer {
            SyncAction::UploadToRemote
        } else {
            SyncAction::DownloadToLocal
        },
    }
}

impl SyncAction {
    /// The action as the sync panel words it.
    pub fn label(self) -> (r: &'static str)
        ensures
            r@ == sync_label_spec(self),
    {
        match self {
            SyncAction::UploadToRemote => "subir",
            SyncAction::DownloadToLocal => "bajar",
            SyncAction::DeleteLocal => "eliminar local",
            SyncAction::DeleteRemote => "eliminar remoto",
            SyncAction::Skip => "omitir",
        }
    }

    /// Every action, in the order the sync panel offers them.
    pub fn all() -> (r: Vec<SyncAction>)
        ensures
            r@ == seq![
                SyncAction::UploadToRemote,
                SyncAction::DownloadToLocal,
                SyncAction::DeleteLocal,
                SyncAction::DeleteRemote,
                SyncAction::Skip,
            ],
    {
        let mut v = Vec::new();
        v.push(SyncAction::UploadToRemote);
        v.push(SyncAction::DownloadToLocal);
        v.push(SyncAction::DeleteLocal);
        v.push(SyncAction::DeleteRemote);
        v.push(SyncAction::Skip);
        assert(v@ =~= seq![
            SyncAction::UploadToRemote,
            SyncAction::DownloadToLocal,
            SyncAction::DeleteLocal,
            SyncAction::DeleteRemote,
            SyncAction::Skip,
        ]);
        v
    }

    /// The action proposed for a difference.
    pub fn default_for(diff: SyncDiff) -> (r: Self)
        ensures
            r == default_action(diff),
    {
        match diff {
            SyncDiff::OnlyLocal => SyncAction::UploadToRemote,
            SyncDiff::OnlyRemote => SyncAction::DownloadToLocal,
            SyncDiff::Both { local_newer: true } => SyncAction::UploadToRemote,
            SyncDiff::Both { local_newer: false } => SyncAction::DownloadToLocal,
        }
    }
}

/// One name of the synchronisation plan.
#[derive(Debug, Clone)]
pub struct SyncEntry {
    pub name: String,
    pub diff: SyncDiff,
    pub action: SyncAction,
}

/// The sync panel: the plan, and whether it is still being worked out.
#[derive(Debug, Clone)]
pub struct SyncState {
    pub entries: Vec<SyncEntry>,
    pub analyzing: bool,
}

impl Default for SyncState {
    fn default() -> (r: Self)
        ensures
            r.entries@.len() == 0,
            !r.analyzing,
    {
        SyncState { entries: Vec::new(), analyzing: false }
    }
}


/// Position of the last file of a listing called `n` (a later entry with the
/// same name wins, as when collecting into a map).
pub open spec fn last_file(es: Seq<FtpEntry>, n: Seq<char>) -> Option<int>
    decreases es.len(),
{
    if es.len() == 0 {
        None
    } else if !es.last().is_dir && es.last().name@ == n {
        Some(es.len() - 1)
    } else {
        last_file(es.drop_last(), n)
    }
}

/// The names of the files of a listing.
pub open spec fn file_names(es: Seq<FtpEntry>) -> Set<Seq<char>> {
    Set::new(|n: Seq<char>| exists|i: int| 0 <= i < es.len() && !es[i].is_dir && #[trigger] es[i].name@ == n)
}

/// How name `n` differs: present on one side only, or on both with the
/// local copy newer when both times are known and the local one is later
/// (or when a time is unknown).
pub open spec fn sync_diff(
    local: Seq<FtpEntry>,
    remote: Seq<FtpEntry>,
    local_times: Seq<Option<u128>>,
    remote_times: Seq<Option<u128>>,
    n: Seq<char>,
) -> SyncDiff {
    match (last_file(local, n), last_file(remote, n)) {
        (Some(l), None) => SyncDiff::OnlyLocal,
        (None, Some(r)) => SyncDiff::OnlyRemote,
        (Some(l), Some(r)) => SyncDiff::Both {
            local_newer: match (local_times[l], remote_times[r]) {
                (Some(a), Some(b)) => a > b,
                _ => true,
            },
        },
        (None, None) => SyncDiff::OnlyLocal,
    }
}

/// `plan` is the synchronisation plan of two listings: one entry per file
/// name found on either side, in name order, with its difference and the
/// action proposed for it.
pub open spec fn is_sync_plan(
    local: Seq<FtpEntry>,
    remote: Seq<FtpEntry>,
    local_times: Seq<Option<u128>>,
    remote_times: Seq<Option<u128>>,
    plan: Seq<SyncEntry>,
) -> bool {
    &&& forall|i: int, j: int| 0 <= i < j < plan.len() ==> lex_order(#[trigger] plan[i].name@, #[trigger] plan[j].name@) < 0
    &&& forall|i: int| 0 <= i < plan.len() ==> (file_names(local) + file_names(remote)).contains(#[trigger] plan[i].name@)
    &&& forall|n: Seq<char>| (file_names(local) + file_names(remote)).contains(n) ==> exists|i: int| 0 <= i < plan.len() && #[trigger] plan[i].name@ == n
    &&& forall|i: int| 0 <= i < plan.len() ==> (#[trigger] plan[i]).diff == sync_diff(local, remote, local_times, remote_times, plan[i].name@)
    &&& forall|i: int| 0 <= i < plan.len() ==> (#[trigger] plan[i]).action == default_action(plan[i].diff)
}

proof fn lemma_last_file_step(es: Seq<FtpEntry>, i: int, n: Seq<char>)
    requires
        0 <= i < es.len(),
    ensures
        last_file(es.take(i + 1), n) == if !es[i].is_dir && es[i].name@ == n {
            Some(i)
        } else {
            last_file(es.take(i), n)
        },
        file_names(es.take(i + 1)) == if !es[i].is_dir {
            file_names(es.take(i)).insert(es[i].name@)
        } else {
            file_names(es.take(i))
        },
{
    assert(es.take(i + 1).drop_last() =~= es.take(i));
    let a = file_names(es.take(i + 1));
    let b = if !es[i].is_dir {
        file_names(es.take(i)).insert(es[i].name@)
    } else {
        file_names(es.take(i))
    };
    assert forall|x: Seq<char>| a.contains(x) implies b.contains(x) by {
        let k = choose|k: int| 0 <= k < es.take(i + 1).len() && !es.take(i + 1)[k].is_dir && #[trigger] es.take(i + 1)[k].name@ == x;
        if k < i {
            assert(es.take(i)[k] == es[k]);
        }
    }
    assert forall|x: Seq<char>| b.contains(x) implies a.contains(x) by {
        if !es[i].is_dir && x == es[i].name@ {
            assert(es.take(i + 1)[i] == es[i]);
        } else {
            let k = choose|k: int| 0 <= k < es.take(i).len() && !es.take(i)[k].is_dir && #[trigger] es.take(i)[k].name@ == x;
            assert(es.take(i + 1)[k] == es[k]);
        }
    }
    assert(a =~= b);
}

proof fn lemma_last_file_valid(es: Seq<FtpEntry>, n: Seq<char>)
    ensures
        last_file(es, n) matches Some(i) ==> 0 <= i < es.len() && !es[i].is_dir && es[i].name@ == n,
        last_file(es, n) is None ==> !file_names(es).contains(n),
    decreases es.len(),
{
    if es.len() > 0 {
        lemma_last_file_valid(es.drop_last(), n);
        if last_file(es, n) is None {
            if file_names(es).contains(n) {
                let k = choose|k: int| 0 <= k < es.len() && !es[k].is_dir && #[trigger] es[k].name@ == n;
                if k < es.len() - 1 {
                    assert(es.drop_last()[k] == es[k]);
                }
            }
        }
    }
}

/// An optional position as an integer.
pub open spec fn opt_pos(o: Option<usize>) -> Option<int> {
    match o {
        Some(v) => Some(v as int),
        None => None,
    }
}

/// One name of a plan being built: its text, its name, and where its file
/// was last seen on each side.
struct Slot {
    key: Vec<char>,
    name: String,
    local: Option<usize>,
    remote: Option<usize>,
}

/// The slots hold the file names of `local.take(li)` and `remote.take(ri)`,
/// once each and in name order, with the positions of their last files.
spec fn slots_ok(slots: Seq<Slot>, local: Seq<FtpEntry>, remote: Seq<FtpEntry>, li: int, ri: int) -> bool {
    &&& forall|i: int, j: int| 0 <= i < j < slots.len() ==> lex_order(#[trigger] slots[i].key@, #[trigger] slots[j].key@) < 0
    &&& forall|i: int| 0 <= i < slots.len() ==> (#[trigger] slots[i]).name@ == slots[i].key@
    &&& forall|i: int| 0 <= i < slots.len() ==> (file_names(local.take(li)) + file_names(remote.take(ri))).contains(#[trigger] slots[i].key@)
    &&& forall|n: Seq<char>| (file_names(local.take(li)) + file_names(remote.take(ri))).contains(n) ==> exists|i: int| 0 <= i < slots.len() && #[trigger] slots[i].key@ == n
    &&& forall|i: int| 0 <= i < slots.len() ==> opt_pos((#[trigger] slots[i]).local) == last_file(local.take(li), slots[i].key@)
    &&& forall|i: int| 0 <= i < slots.len() ==> opt_pos((#[trigger] slots[i]).remote) == last_file(remote.take(ri), slots[i].key@)
}


/// Where `key` goes among the slots: the first slot not before it, and
/// whether that slot holds the same name.
fn find_slot(slots: &Vec<Slot>, key: &Vec<char>) -> (r: (usize, bool))
    requires
        forall|i: int, j: int| 0 <= i < j < slots@.len() ==> lex_order(#[trigger] slots@[i].key@, #[trigger] slots@[j].key@) < 0,
    ensures
        r.0 <= slots@.len(),
        forall|q: int| 0 <= q < r.0 ==> lex_order(#[trigger] slots@[q].key@, key@) < 0,
        r.1 ==> r.0 < slots@.len() && slots@[r.0 as int].key@ == key@,
        !r.1 ==> r.0 == slots@.len() || lex_order(key@, slots@[r.0 as int].key@) < 0,
{
    let mut p: usize = 0;
    while p < slots.len()
        invariant
            p <= slots@.len(),
            forall|q: int| 0 <= q < p ==> lex_order(#[trigger] slots@[q].key@, key@) < 0,
        decreases slots@.len() - p,
    {
        let c = lex_compare(key, &slots[p].key);
        proof {
            lemma_lex_order_props(key@, slots@[p as int].key@);
        }
        if c == 0 {
            return (p, true);
        }
        if c < 0 {
            return (p, false);
        }
        p = p + 1;
    }
    (p, false)
}

/// Records file `es[i]` (one side of the comparison) among the slots.
fn place(
    slots: &mut Vec<Slot>,
    es: &[FtpEntry],
    i: usize,
    local_side: bool,
    Ghost(other): Ghost<Seq<FtpEntry>>,
    Ghost(other_n): Ghost<int>,
)
    requires
        i < es@.len(),
        !es@[i as int].is_dir,
        0 <= other_n <= other.len(),
        local_side ==> slots_ok(old(slots)@, es@, other, i as int, other_n),
        !local_side ==> slots_ok(old(slots)@, other, es@, other_n, i as int),
    ensures
        local_side ==> slots_ok(final(slots)@, es@, other, i + 1, other_n),
        !local_side ==> slots_ok(final(slots)@, other, es@, other_n, i + 1),
{
    let ghost o = slots@;
    let ghost x = es@[i as int].name@;
    let key = chars_of(es[i].name.as_str());
    let (p, found) = find_slot(slots, &key);
    proof {
        lemma_last_file_step(es@, i as int, x);
        lemma_last_file_valid(other.take(other_n), x);
        assert forall|n: Seq<char>| n != x implies last_file(es@.take(i + 1), n) == last_file(es@.take(i as int), n) by {
            lemma_last_file_step(es@, i as int, n);
        }
    }
    if found {
        if local_side {
            slots[p].local = Some(i);
        } else {
            slots[p].remote = Some(i);
        }
        proof {
            assert forall|k: int| 0 <= k < slots@.len() && k != p implies slots@[k].key@ != x by {
                lemma_lex_order_props(o[k].key@, o[p as int].key@);
                if k < p {
                    assert(lex_order(o[k].key@, o[p as int].key@) < 0);
                } else {
                    assert(lex_order(o[p as int].key@, o[k].key@) < 0);
                    lemma_lex_order_props(o[p as int].key@, o[k].key@);
                }
            }
            if local_side {
                assert(slots_ok(slots@, es@, other, i + 1, other_n)) by {
                    assert forall|n: Seq<char>| #[trigger] (file_names(es@.take(i + 1)) + file_names(other.take(other_n))).contains(n)
                        implies exists|k: int| 0 <= k < slots@.len() && #[trigger] slots@[k].key@ == n by {
                        if n == x {
                            assert(slots@[p as int].key@ == n);
                        } else {
                            assert((file_names(es@.take(i as int)) + file_names(other.take(other_n))).contains(n));
                            let k = choose|k: int| 0 <= k < o.len() && #[trigger] o[k].key@ == n;
                            assert(slots@[k].key@ == n);
                        }
                    }
                }
            } else {
                assert(slots_ok(slots@, other, es@, other_n, i + 1)) by {
                    assert forall|n: Seq<char>| #[trigger] (file_names(other.take(other_n)) + file_names(es@.take(i + 1))).contains(n)
                        implies exists|k: int| 0 <= k < slots@.len() && #[trigger] slots@[k].key@ == n by {
                        if n == x {
                            assert(slots@[p as int].key@ == n);
                        } else {
                            assert((file_names(other.take(other_n)) + file_names(es@.take(i as int))).contains(n));
                            let k = choose|k: int| 0 <= k < o.len() && #[trigger] o[k].key@ == n;
                            assert(slots@[k].key@ == n);
                        }
                    }
                }
            }
        }
    } else {
        proof {
            assert forall|k: int| 0 <= k < o.len() implies o[k].key@ != x by {
                if k < p {
                    lemma_lex_order_props(o[k].key@, x);
                } else {
                    if k > p {
                        lemma_lex_order_trans(x, o[p as int].key@, o[k].key@);
                    }
                    lemma_lex_order_props(x, o[k].key@);
                }
            }
            assert(!(file_names(es@.take(i as int)) + file_names(other.take(other_n))).contains(x)) by {
                if (file_names(es@.take(i as int)) + file_names(other.take(other_n))).contains(x) {
                    if !local_side {
                        assert((file_names(other.take(other_n)) + file_names(es@.take(i as int))).contains(x));
                    }
                    let k = choose|k: int| 0 <= k < o.len() && #[trigger] o[k].key@ == x;
                }
            }
            lemma_last_file_valid(es@.take(i as int), x);
        }
        let slot = if local_side {
            Slot { key, name: es[i].name.clone(), local: Some(i), remote: None }
        } else {
            Slot { key, name: es[i].name.clone(), local: None, remote: Some(i) }
        };
        slots.insert(p, slot);
        proof {
            assert forall|k: int| 0 <= k < slots@.len() implies (#[trigger] slots@[k]) == (if k < p {
                o[k]
            } else if k == p {
                slot
            } else {
                o[k - 1]
            }) by {}
            assert forall|a: int, b: int| 0 <= a < b < slots@.len() implies lex_order(
                #[trigger] slots@[a].key@,
                #[trigger] slots@[b].key@,
            ) < 0 by {
                if b == p {
                    assert(lex_order(o[a].key@, x) < 0);
                } else if a == p {
                    if b - 1 > p {
                        assert(lex_order(o[p as int].key@, o[b - 1].key@) < 0);
                        lemma_lex_order_trans(x, o[p as int].key@, o[b - 1].key@);
                    }
                } else if a < p && b > p {
                    assert(lex_order(o[a].key@, o[b - 1].key@) < 0);
                } else if a > p {
                    assert(lex_order(o[a - 1].key@, o[b - 1].key@) < 0);
                }
            }
            if local_side {
                assert(slots_ok(slots@, es@, other, i + 1, other_n)) by {
                    assert forall|n: Seq<char>| #[trigger] (file_names(es@.take(i + 1)) + file_names(other.take(other_n))).contains(n)
                        implies exists|k: int| 0 <= k < slots@.len() && #[trigger] slots@[k].key@ == n by {
                        if n == x {
                            assert(slots@[p as int].key@ == n);
                        } else {
                            assert((file_names(es@.take(i as int)) + file_names(other.take(other_n))).contains(n));
                            let k = choose|k: int| 0 <= k < o.len() && #[trigger] o[k].key@ == n;
                            if k < p {
                                assert(slots@[k].key@ == n);
                            } else {
                                assert(slots@[k + 1].key@ == n);
                            }
                        }
                    }
                    assert forall|k: int| 0 <= k < slots@.len() implies (file_names(es@.take(i + 1)) + file_names(other.take(other_n))).contains(#[trigger] slots@[k].key@) by {
                        if k < p {
                            assert((file_names(es@.take(i as int)) + file_names(other.take(other_n))).contains(o[k].key@));
                        } else if k > p {
                            assert((file_names(es@.take(i as int)) + file_names(other.take(other_n))).contains(o[k - 1].key@));
                        }
                    }
                }
            } else {
                assert(slots_ok(slots@, other, es@, other_n, i + 1)) by {
                    assert forall|n: Seq<char>| #[trigger] (file_names(other.take(other_n)) + file_names(es@.take(i + 1))).contains(n)
                        implies exists|k: int| 0 <= k < slots@.len() && #[trigger] slots@[k].key@ == n by {
                        if n == x {
                            assert(slots@[p as int].key@ == n);
                        } else {
                            assert((file_names(other.take(other_n)) + file_names(es@.take(i as int))).contains(n));
                            let k = choose|k: int| 0 <= k < o.len() && #[trigger] o[k].key@ == n;
                            if k < p {
                                assert(slots@[k].key@ == n);
                            } else {
                                assert(slots@[k + 1].key@ == n);
                            }
                        }
                    }
                    assert forall|k: int| 0 <= k < slots@.len() implies (file_names(other.take(other_n)) + file_names(es@.take(i + 1))).contains(#[trigger] slots@[k].key@) by {
                        if k < p {
                            assert((file_names(other.take(other_n)) + file_names(es@.take(i as int))).contains(o[k].key@));
                        } else if k > p {
                            assert((file_names(other.take(other_n)) + file_names(es@.take(i as int))).contains(o[k - 1].key@));
                        }
                    }
                }
            }
        }
    }
}


proof fn lemma_skip_dir(slots: Seq<Slot>, es: Seq<FtpEntry>, other: Seq<FtpEntry>, i: int, other_n: int, local_side: bool)
    requires
        0 <= i < es.len(),
        es[i].is_dir,
        local_side ==> slots_ok(slots, es, other, i, other_n),
        !local_side ==> slots_ok(slots, other, es, other_n, i),
    ensures
        local_side ==> slots_ok(slots, es, other, i + 1, other_n),
        !local_side ==> slots_ok(slots, other, es, other_n, i + 1),
{
    assert forall|n: Seq<char>| last_file(es.take(i + 1), n) == last_file(es.take(i), n) by {
        lemma_last_file_step(es, i, n);
    }
    lemma_last_file_step(es, i, es[i].name@);
}

/// The synchronisation plan of two listings (see `is_sync_plan`). The times
/// are the files' modification times in nanoseconds since the Unix epoch,
/// one per entry, when known.
pub fn plan_sync(
    local: &[FtpEntry],
    remote: &[FtpEntry],
    local_times: &[Option<u128>],
    remote_times: &[Option<u128>],
) -> (r: Vec<SyncEntry>)
    requires
        local_times@.len() == local@.len(),
        remote_times@.len() == remote@.len(),
    ensures
        is_sync_plan(local@, remote@, local_times@, remote_times@, r@),
{
    let mut slots: Vec<Slot> = Vec::new();
    proof {
        assert(file_names(local@.take(0)) =~= Set::<Seq<char>>::empty());
        assert(file_names(remote@.take(0)) =~= Set::<Seq<char>>::empty());
    }
    let mut i: usize = 0;
    while i < local.len()
        invariant
            i <= local@.len(),
            slots_ok(slots@, local@, remote@, i as int, 0),
        decreases local@.len() - i,
    {
        if !local[i].is_dir {
            place(&mut slots, local, i, true, Ghost(remote@), Ghost(0));
        } else {
            proof {
                lemma_skip_dir(slots@, local@, remote@, i as int, 0, true);
            }
        }
        i = i + 1;
    }
    let mut j: usize = 0;
    while j < remote.len()
        invariant
            i == local@.len(),
            j <= remote@.len(),
            slots_ok(slots@, local@, remote@, i as int, j as int),
        decreases remote@.len() - j,
    {
        if !remote[j].is_dir {
            place(&mut slots, remote, j, false, Ghost(local@), Ghost(i as int));
        } else {
            proof {
                lemma_skip_dir(slots@, remote@, local@, j as int, i as int, false);
            }
        }
        j = j + 1;
    }
    assert(local@.take(i as int) =~= local@);
    assert(remote@.take(j as int) =~= remote@);
    let mut plan: Vec<SyncEntry> = Vec::new();
    let mut k: usize = 0;
    while k < slots.len()
        invariant
            k <= slots@.len(),
            slots_ok(slots@, local@, remote@, local@.len() as int, remote@.len() as int),
            local@.take(local@.len() as int) == local@,
            remote@.take(remote@.len() as int) == remote@,
            local_times@.len() == local@.len(),
            remote_times@.len() == remote@.len(),
            plan@.len() == k,
            forall|a: int| 0 <= a < k ==> (#[trigger] plan@[a]).name@ == slots@[a].key@,
            forall|a: int| 0 <= a < k ==> (#[trigger] plan@[a]).diff == sync_diff(local@, remote@, local_times@, remote_times@, plan@[a].name@),
            forall|a: int| 0 <= a < k ==> (#[trigger] plan@[a]).action == default_action(plan@[a].diff),
        decreases slots@.len() - k,
    {
        let ghost key = slots@[k as int].key@;
        proof {
            lemma_last_file_valid(local@, key);
            lemma_last_file_valid(remote@, key);
        }
        let diff = match (slots[k].local, slots[k].remote) {
            (Some(l), None) => SyncDiff::OnlyLocal,
            (None, Some(r)) => SyncDiff::OnlyRemote,
            (Some(l), Some(r)) => {
                let newer = match (local_times[l], remote_times[r]) {
                    (Some(a), Some(b)) => a > b,
                    _ => true,
                };
                SyncDiff::Both { local_newer: newer }
            },
            (None, None) => SyncDiff::OnlyLocal,
        };
        plan.push(SyncEntry { name: slots[k].name.clone(), diff, action: SyncAction::default_for(diff) });
        k = k + 1;
    }
    proof {
        let u = file_names(local@) + file_names(remote@);
        assert forall|n: Seq<char>| u.contains(n) implies exists|a: int| 0 <= a < plan@.len() && #[trigger] plan@[a].name@ == n by {
            assert((file_names(local@.take(local@.len() as int)) + file_names(remote@.take(remote@.len() as int))).contains(n));
            let a = choose|a: int| 0 <= a < slots@.len() && #[trigger] slots@[a].key@ == n;
            assert(plan@[a].name@ == n);
        }
        assert forall|a: int, b: int| 0 <= a < b < plan@.len() implies lex_order(#[trigger] plan@[a].name@, #[trigger] plan@[b].name@) < 0 by {
            assert(lex_order(slots@[a].key@, slots@[b].key@) < 0);
        }
        assert forall|a: int| 0 <= a < plan@.len() implies u.contains(#[trigger] plan@[a].name@) by {
            assert((file_names(local@.take(local@.len() as int)) + file_names(remote@.take(remote@.len() as int))).contains(slots@[a].key@));
        }
    }
    plan
}


/// A synchronisation plan names each file once, and proposes for each name
/// what its difference calls for: a file on one side only is copied to the
/// other, and of two copies the newer one wins.
pub proof fn lemma_plan_names_once(
    local: Seq<FtpEntry>,
    remote: Seq<FtpEntry>,
    local_times: Seq<Option<u128>>,
    remote_times: Seq<Option<u128>>,
    plan: Seq<SyncEntry>,
)
    requires
        is_sync_plan(local, remote, local_times, remote_times, plan),
    ensures
        forall|i: int, j: int| 0 <= i < j < plan.len() ==> #[trigger] plan[i].name@ != #[trigger] plan[j].name@,
        forall|i: int| 0 <= i < plan.len() ==> ((#[trigger] plan[i]).diff is OnlyLocal ==> plan[i].action
            == SyncAction::UploadToRemote),
        forall|i: int| 0 <= i < plan.len() ==> ((#[trigger] plan[i]).diff is OnlyRemote ==> plan[i].action
            == SyncAction::DownloadToLocal),
{
    assert forall|i: int, j: int| 0 <= i < j < plan.len() implies #[trigger] plan[i].name@ != #[trigger] plan[j].name@ by {
        lemma_lex_order_props(plan[i].name@, plan[j].name@);
    }
}

} // verus!
