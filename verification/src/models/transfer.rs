//! Entries of the transfer queue and the bookkeeping done on the queue:
//! starting queued transfers, recording progress and outcomes, cancelling,
//! retrying, resuming and clearing finished ones.

use vstd::prelude::*;

verus! {

/// Direction of a transfer.
#[derive(Debug, Clone, Copy, PartialEq, Eq, Structural)]
pub enum TransferKind {
    Upload,
    Download,
}

/// Where a transfer is in its life.
#[derive(Debug, Clone, PartialEq, Eq)]
pub enum TransferStatus {
    Queued,
    Active,
    Done,
    Failed(String),
    Cancelled,
}

/// Finished, one way or another.
pub open spec fn is_terminal_spec(s: TransferStatus) -> bool {
    s is Done || s is Failed || s is Cancelled
}

impl TransferStatus {
    /// Finished, one way or another.
    pub fn is_terminal(&self) -> (r: bool)
        ensures
            r == is_terminal_spec(*self),
    {
        match self {
            TransferStatus::Done | TransferStatus::Failed(_) | TransferStatus::Cancelled => true,
            _ => false,
        }
    }

    /// Running now.
    pub fn is_active(&self) -> (r: bool)
        ensures
            r == (*self is Active),
    {
        match self {
            TransferStatus::Active => true,
            _ => false,
        }
    }

    /// Waiting for a slot.
    pub fn is_queued(&self) -> (r: bool)
        ensures
            r == (*self is Queued),
    {
        match self {
            TransferStatus::Queued => true,
            _ => false,
        }
    }

    /// The same status, as a value of its own.
    pub fn duplicate(&self) -> (r: Self)
        ensures
            r == *self,
    {
        match self {
            TransferStatus::Queued => TransferStatus::Queued,
            TransferStatus::Active => TransferStatus::Active,
            TransferStatus::Done => TransferStatus::Done,
            TransferStatus::Failed(m) => TransferStatus::Failed(m.clone()),
            TransferStatus::Cancelled => TransferStatus::Cancelled,
        }
    }
}

/// One upload or download in the queue. Identifiers are the 128-bit values
/// of UUIDs; `local_path` is the file on this machine, `remote_path` the
/// remote directory.
#[derive(Debug, Clone)]
pub struct TransferEntry {
    pub id: u128,
    pub connection_id: u128,
    pub kind: TransferKind,
    pub filename: String,
    pub local_path: String,
    pub remote_path: String,
    pub total_bytes: Option<u64>,
    pub transferred_bytes: u64,
    pub resume_from: u64,
    pub status: TransferStatus,
}

impl TransferEntry {
    /// A new queued transfer with nothing transferred yet.
    pub fn queued(
        id: u128,
        connection_id: u128,
        kind: TransferKind,
        filename: String,
        local_path: String,
        remote_path: String,
        total_bytes: Option<u64>,
    ) -> (r: Self)
        ensures
            r.id == id,
            r.connection_id == connection_id,
            r.kind == kind,
            r.filename == filename,
            r.local_path == local_path,
            r.remote_path == remote_path,
            r.total_bytes == total_bytes,
            r.transferred_bytes == 0,
            r.resume_from == 0,
            r.status == TransferStatus::Queued,
    {
        TransferEntry {
            id,
            connection_id,
            kind,
            filename,
            local_path,
            remote_path,
            total_bytes,
            transferred_bytes: 0,
            resume_from: 0,
            status: TransferStatus::Queued,
        }
    }

    /// The same entry, as a value of its own.
    pub fn duplicate(&self) -> (r: Self)
        ensures
            r == *self,
    {
        TransferEntry {
            id: self.id,
            connection_id: self.connection_id,
            kind: self.kind,
            filename: self.filename.clone(),
            local_path: self.local_path.clone(),
            remote_path: self.remote_path.clone(),
            total_bytes: self.total_bytes,
            transferred_bytes: self.transferred_bytes,
            resume_from: self.resume_from,
            status: self.status.duplicate(),
        }
    }

    /// How far the transfer has got, as bytes done out of a nonzero
    /// total: none while the size is unknown, and a transfer of zero bytes
    /// counts as complete.
    pub fn progress(&self) -> (r: Option<(u64, u64)>)
        ensures
            r == (match self.total_bytes {
                None => None,
                Some(t) => if t == 0 {
                    Some((1u64, 1u64))
                } else {
                    Some((self.transferred_bytes, t))
                },
            }),
    {
        match self.total_bytes {
            None => None,
            Some(t) => if t == 0 {
                Some((1, 1))
            } else {
                Some((self.transferred_bytes, t))
            },
        }
    }

    /// The status as the queue panel words it.
    pub fn status_label(&self) -> (r: &'static str)
        ensures
            r@ == status_label_spec(self.status),
    {
        match self.status {
            TransferStatus::Queued => "en cola",
            TransferStatus::Active => "activa",
            TransferStatus::Done => "completada",
            TransferStatus::Failed(_) => "fallida",
            TransferStatus::Cancelled => "cancelada",
        }
    }
}

/// The status as the queue panel words it.
pub open spec fn status_label_spec(s: TransferStatus) -> Seq<char> {
    match s {
        TransferStatus::Queued => "en cola"@,
        TransferStatus::Active => "activa"@,
        TransferStatus::Done => "completada"@,
        TransferStatus::Failed(_) => "fallida"@,
        TransferStatus::Cancelled => "cancelada"@,
    }
}

/// Number of running transfers.
pub open spec fn active_count(s: Seq<TransferEntry>) -> nat
    decreases s.len(),
{
    if s.len() == 0 {
        0
    } else {
        active_count(s.drop_last()) + if s.last().status is Active {
            1nat
        } else {
            0nat
        }
    }
}

/// Number of transfers waiting for a slot.
pub open spec fn queued_count(s: Seq<TransferEntry>) -> nat
    decreases s.len(),
{
    if s.len() == 0 {
        0
    } else {
        queued_count(s.drop_last()) + if s.last().status is Queued {
            1nat
        } else {
            0nat
        }
    }
}

/// Positions of the waiting transfers, in queue order.
pub open spec fn queued_positions(s: Seq<TransferEntry>) -> Seq<int>
    decreases s.len(),
{
    if s.len() == 0 {
        Seq::empty()
    } else if s.last().status is Queued {
        queued_positions(s.drop_last()).push(s.len() - 1)
    } else {
        queued_positions(s.drop_last())
    }
}

/// Position of the first entry with identifier `id`.
pub open spec fn first_with_id(s: Seq<TransferEntry>, id: u128) -> Option<int> {
    if exists|i: int| 0 <= i < s.len() && s[i].id == id {
        Some(choose|i: int| 0 <= i < s.len() && s[i].id == id && forall|j: int| 0 <= j < i ==> s[j].id != id)
    } else {
        None
    }
}

/// Position of the first entry with identifier `id`.
pub fn transfer_index(transfers: &Vec<TransferEntry>, id: u128) -> (r: Option<usize>)
    ensures
        match r {
            Some(i) => i < transfers@.len() && transfers@[i as int].id == id && forall|j: int|
                0 <= j < i ==> transfers@[j].id != id,
            None => forall|j: int| 0 <= j < transfers@.len() ==> transfers@[j].id != id,
        },
{
    let mut i: usize = 0;
    while i < transfers.len()
        invariant
            i <= transfers@.len(),
            forall|j: int| 0 <= j < i ==> transfers@[j].id != id,
        decreases transfers@.len() - i,
    {
        if transfers[i].id == id {
            return Some(i);
        }
        i = i + 1;
    }
    None
}

proof fn lemma_counts_push(s: Seq<TransferEntry>, e: TransferEntry)
    ensures
        active_count(s.push(e)) == active_count(s) + if e.status is Active {
            1nat
        } else {
            0nat
        },
        queued_count(s.push(e)) == queued_count(s) + if e.status is Queued {
            1nat
        } else {
            0nat
        },
        queued_positions(s.push(e)) == if e.status is Queued {
            queued_positions(s).push(s.len() as int)
        } else {
            queued_positions(s)
        },
{
    assert(s.push(e).drop_last() =~= s);
}

/// Number of running transfers.
pub fn active_transfer_count(transfers: &Vec<TransferEntry>) -> (r: usize)
    ensures
        r == active_count(transfers@),
{
    let mut n: usize = 0;
    let mut i: usize = 0;
    while i < transfers.len()
        invariant
            i <= transfers@.len(),
            n == active_count(transfers@.take(i as int)),
            n <= i,
        decreases transfers@.len() - i,
    {
        proof {
            assert(transfers@.take(i + 1) =~= transfers@.take(i as int).push(transfers@[i as int]));
            lemma_counts_push(transfers@.take(i as int), transfers@[i as int]);
        }
        if transfers[i].status.is_active() {
            n = n + 1;
        }
        i = i + 1;
    }
    assert(transfers@.take(i as int) =~= transfers@);
    n
}

/// Number of transfers waiting for a slot.
pub fn queued_transfer_count(transfers: &Vec<TransferEntry>) -> (r: usize)
    ensures
        r == queued_count(transfers@),
{
    let mut n: usize = 0;
    let mut i: usize = 0;
    while i < transfers.len()
        invariant
            i <= transfers@.len(),
            n == queued_count(transfers@.take(i as int)),
            n <= i,
        decreases transfers@.len() - i,
    {
        proof {
            assert(transfers@.take(i + 1) =~= transfers@.take(i as int).push(transfers@[i as int]));
            lemma_counts_push(transfers@.take(i as int), transfers@[i as int]);
        }
        if transfers[i].status.is_queued() {
            n = n + 1;
        }
        i = i + 1;
    }
    assert(transfers@.take(i as int) =~= transfers@);
    n
}

/// Slots free for new transfers when `slots` may run at once.
pub open spec fn free_slots(s: Seq<TransferEntry>, slots: nat) -> nat {
    if slots > active_count(s) {
        (slots - active_count(s)) as nat
    } else {
        0
    }
}

/// The positions that `start_queued` starts: the first waiting transfers,
/// as many as there are free slots.
pub open spec fn positions_to_start(s: Seq<TransferEntry>, slots: nat) -> Seq<int> {
    let q = queued_positions(s);
    if q.len() <= free_slots(s, slots) {
        q
    } else {
        q.take(free_slots(s, slots) as int)
    }
}

/// The queue after marking the transfers at `started` as running.
pub open spec fn marked_active(s: Seq<TransferEntry>, started: Seq<int>) -> Seq<TransferEntry> {
    Seq::new(
        s.len(),
        |k: int|
            if started.contains(k) {
                TransferEntry { status: TransferStatus::Active, ..s[k] }
            } else {
                s[k]
            },
    )
}

proof fn lemma_queued_positions_bounds(s: Seq<TransferEntry>)
    ensures
        forall|i: int| 0 <= i < queued_positions(s).len() ==> 0 <= #[trigger] queued_positions(s)[i] < s.len()
            && s[queued_positions(s)[i]].status is Queued,
        forall|i: int, j: int|
            0 <= i < j < queued_positions(s).len() ==> #[trigger] queued_positions(s)[i]
                < #[trigger] queued_positions(s)[j],
        forall|k: int| 0 <= k < s.len() && (#[trigger] s[k]).status is Queued ==> queued_positions(s).contains(k),
        queued_positions(s).len() == queued_count(s),
    decreases s.len(),
{
    if s.len() > 0 {
        let t = s.drop_last();
        lemma_queued_positions_bounds(t);
        assert forall|k: int| 0 <= k < s.len() && s[k].status is Queued implies queued_positions(
            s,
        ).contains(k) by {
            if k < s.len() - 1 {
                assert(t[k] == s[k]);
                assert(queued_positions(t).contains(k));
                let w = choose|w: int| 0 <= w < queued_positions(t).len() && queued_positions(t)[w] == k;
                if s.last().status is Queued {
                    assert(queued_positions(s)[w] == k);
                }
            } else {
                assert(queued_positions(s)[queued_positions(s).len() - 1] == k);
            }
        }
        assert forall|i: int| 0 <= i < queued_positions(s).len() implies 0 <= #[trigger] queued_positions(s)[i] < s.len()
            && s[queued_positions(s)[i]].status is Queued by {
            if i < queued_positions(t).len() {
                assert(queued_positions(s)[i] == queued_positions(t)[i]);
                assert(t[queued_positions(t)[i]] == s[queued_positions(t)[i]]);
            }
        }
    }
}

/// The transfers started are waiting ones, each once, in queue order.
pub proof fn lemma_positions_to_start(s: Seq<TransferEntry>, slots: nat)
    ensures
        forall|i: int|
            0 <= i < positions_to_start(s, slots).len() ==> 0 <= #[trigger] positions_to_start(s, slots)[i]
                < s.len() && s[positions_to_start(s, slots)[i]].status is Queued,
        forall|i: int, j: int|
            0 <= i < j < positions_to_start(s, slots).len() ==> #[trigger] positions_to_start(s, slots)[i]
                < #[trigger] positions_to_start(s, slots)[j],
        positions_to_start(s, slots).len() <= free_slots(s, slots),
{
    lemma_queued_positions_bounds(s);
    let q = queued_positions(s);
    let p = positions_to_start(s, slots);
    assert forall|i: int| 0 <= i < p.len() implies p[i] == q[i] by {}
}

/// How many of the positions `0..n` the sequence `p` holds.
spec fn held_below(p: Seq<int>, n: nat) -> nat
    decreases n,
{
    if n == 0 {
        0
    } else {
        held_below(p, (n - 1) as nat) + if p.contains(n - 1) {
            1nat
        } else {
            0nat
        }
    }
}

proof fn lemma_held_below_same(p: Seq<int>, q: Seq<int>, n: nat)
    requires
        forall|k: int| 0 <= k < n ==> p.contains(k) == q.contains(k),
    ensures
        held_below(p, n) == held_below(q, n),
    decreases n,
{
    if n > 0 {
        lemma_held_below_same(p, q, (n - 1) as nat);
    }
}

proof fn lemma_held_below_sorted(p: Seq<int>, n: nat)
    requires
        forall|i: int| 0 <= i < p.len() ==> 0 <= #[trigger] p[i] < n,
        forall|i: int, j: int| 0 <= i < j < p.len() ==> #[trigger] p[i] < #[trigger] p[j],
    ensures
        held_below(p, n) == p.len(),
    decreases n,
{
    if n == 0 {
        if p.len() > 0 {
            assert(0 <= p[0] < n);
        }
    } else {
        if p.len() > 0 && p.last() == n - 1 {
            let q = p.drop_last();
            assert forall|k: int| 0 <= k < n - 1 implies p.contains(k) == q.contains(k) by {
                if p.contains(k) {
                    let w = choose|w: int| 0 <= w < p.len() && p[w] == k;
                    assert(w != p.len() - 1);
                    assert(q[w] == k);
                }
                if q.contains(k) {
                    let w = choose|w: int| 0 <= w < q.len() && q[w] == k;
                    assert(p[w] == k);
                }
            }
            lemma_held_below_same(p, q, (n - 1) as nat);
            assert forall|i: int| 0 <= i < q.len() implies 0 <= #[trigger] q[i] < n - 1 by {
                assert(p[i] < p[p.len() - 1]);
            }
            lemma_held_below_sorted(q, (n - 1) as nat);
            assert(p.contains(n - 1)) by {
                assert(p[p.len() - 1] == n - 1);
            }
        } else {
            assert(!p.contains(n - 1)) by {
                if p.contains(n - 1) {
                    let w = choose|w: int| 0 <= w < p.len() && p[w] == n - 1;
                    if w < p.len() - 1 {
                        assert(p[w] < p[p.len() - 1]);
                    }
                }
            }
            assert forall|i: int| 0 <= i < p.len() implies 0 <= #[trigger] p[i] < n - 1 by {
                if p[i] == n - 1 {
                    assert(p.contains(n - 1));
                }
            }
            lemma_held_below_sorted(p, (n - 1) as nat);
        }
    }
}

proof fn lemma_marked_active_count(s: Seq<TransferEntry>, p: Seq<int>)
    requires
        forall|k: int| 0 <= k < s.len() && p.contains(k) ==> !(s[k].status is Active),
    ensures
        active_count(marked_active(s, p)) == active_count(s) + held_below(p, s.len()),
    decreases s.len(),
{
    if s.len() > 0 {
        let t = s.drop_last();
        assert(marked_active(s, p).drop_last() =~= marked_active(t, p));
        lemma_marked_active_count(t, p);
    }
}

/// A queue in which no transfer runs that did not run in another one runs
/// no more transfers than that one.
pub proof fn lemma_fewer_running(a: Seq<TransferEntry>, b: Seq<TransferEntry>)
    requires
        a.len() == b.len(),
        forall|k: int| 0 <= k < b.len() && (#[trigger] b[k]).status is Active ==> a[k].status is Active,
    ensures
        active_count(b) <= active_count(a),
    decreases a.len(),
{
    if a.len() > 0 {
        let (x, y) = (a.drop_last(), b.drop_last());
        assert forall|k: int| 0 <= k < y.len() && (#[trigger] y[k]).status is Active implies x[k].status is Active by {
            assert(y[k] == b[k]);
            assert(x[k] == a[k]);
        }
        lemma_fewer_running(x, y);
    }
}

/// Starting waiting transfers respects the limit: the transfers running
/// afterwards are those running before plus those started, and they are no
/// more than `slots` unless more than that were running already (then none
/// is started).
pub proof fn lemma_start_respects_limit(s: Seq<TransferEntry>, slots: nat)
    ensures
        active_count(marked_active(s, positions_to_start(s, slots))) == active_count(s) + positions_to_start(
            s,
            slots,
        ).len(),
        active_count(s) <= slots ==> active_count(marked_active(s, positions_to_start(s, slots))) <= slots,
        active_count(s) >= slots ==> active_count(marked_active(s, positions_to_start(s, slots))) == active_count(s),
{
    let p = positions_to_start(s, slots);
    lemma_positions_to_start(s, slots);
    assert forall|k: int| 0 <= k < s.len() && p.contains(k) implies !(s[k].status is Active) by {
        let w = choose|w: int| 0 <= w < p.len() && p[w] == k;
        assert(s[p[w]].status is Queued);
    }
    lemma_marked_active_count(s, p);
    lemma_held_below_sorted(p, s.len());
}

/// How many transfers run at once: the queue is worked through one
/// transfer at a time.
pub const TRANSFER_SLOTS: usize = 1;

/// Marks the first waiting transfers as running, as many as `slots` allows
/// beside those already running, and returns their positions in queue order.
pub fn start_queued(transfers: &mut Vec<TransferEntry>, slots: usize) -> (started: Vec<usize>)
    ensures
        started@.map_values(|v: usize| v as int) == positions_to_start(old(transfers)@, slots as nat),
        final(transfers)@ == marked_active(old(transfers)@, positions_to_start(old(transfers)@, slots as nat)),
{
    let ghost s = transfers@;
    let active = active_transfer_count(transfers);
    let available: usize = if slots > active {
        slots - active
    } else {
        0
    };
    let ghost q = queued_positions(s);
    proof {
        lemma_queued_positions_bounds(s);
    }
    let mut started: Vec<usize> = Vec::new();
    let mut k: usize = 0;
    let ghost mut qi: int = 0;
    while k < transfers.len() && started.len() < available
        invariant
            transfers@.len() == s.len(),
            k <= s.len(),
            available == free_slots(s, slots as nat),
            q == queued_positions(s),
            forall|i: int| 0 <= i < q.len() ==> 0 <= #[trigger] q[i] < s.len() && s[q[i]].status is Queued,
            forall|i: int, j: int| 0 <= i < j < q.len() ==> #[trigger] q[i] < #[trigger] q[j],
            forall|m: int| 0 <= m < s.len() && s[m].status is Queued ==> q.contains(m),
            0 <= qi <= q.len(),
            started@.len() == qi,
            started@.len() <= available,
            forall|i: int| 0 <= i < qi ==> #[trigger] started@[i] as int == q[i],
            forall|i: int| 0 <= i < qi ==> q[i] < k,
            qi < q.len() ==> q[qi] >= k,
            forall|m: int|
                0 <= m < s.len() ==> #[trigger] transfers@[m] == (if q.take(qi).contains(m) {
                    TransferEntry { status: TransferStatus::Active, ..s[m] }
                } else {
                    s[m]
                }),
        decreases s.len() - k,
    {
        if transfers[k].status.is_queued() {
            proof {
                assert(s[k as int].status is Queued) by {
                    assert(!q.take(qi).contains(k as int)) by {
                        if q.take(qi).contains(k as int) {
                            let w = choose|w: int| 0 <= w < qi && q.take(qi)[w] == k as int;
                            assert(q[w] < k);
                        }
                    }
                }
                assert(q.contains(k as int));
                let w = choose|w: int| 0 <= w < q.len() && q[w] == k as int;
                if w < qi {
                    assert(q[w] < k);
                }
                if w > qi {
                    assert(q[qi] < q[w]);
                    assert(false) by {
                        assert(s[q[qi]].status is Queued);
                    }
                }
                assert(w == qi);
            }
            transfers[k].status = TransferStatus::Active;
            started.push(k);
            proof {
                qi = qi + 1;
                assert forall|m: int| 0 <= m < s.len() implies #[trigger] transfers@[m] == (if q.take(
                    qi,
                ).contains(m) {
                    TransferEntry { status: TransferStatus::Active, ..s[m] }
                } else {
                    s[m]
                }) by {
                    if m == k {
                        assert(q.take(qi)[qi - 1] == m);
                    } else {
                        assert(q.take(qi).contains(m) == q.take(qi - 1).contains(m)) by {
                            if q.take(qi).contains(m) {
                                let w = choose|w: int| 0 <= w < qi && q.take(qi)[w] == m;
                                assert(q.take(qi - 1)[w] == m);
                            }
                            let pq = q.take(qi - 1);
                            if pq.contains(m) {
                                let w = choose|w: int| 0 <= w < pq.len() && pq[w] == m;
                                assert(q.take(qi)[w] == m);
                            }
                        }
                    }
                }
                if qi < q.len() {
                    assert(q[qi - 1] < q[qi]);
                }
            }
        } else {
            proof {
                if qi < q.len() && q[qi] == k {
                    assert(s[k as int].status is Queued);
                    assert(!q.take(qi).contains(k as int)) by {
                        if q.take(qi).contains(k as int) {
                            let w = choose|w: int| 0 <= w < qi && q.take(qi)[w] == k as int;
                            assert(q[w] < k);
                        }
                    }
                    assert(false);
                }
            }
        }
        k = k + 1;
    }
    proof {
        let p = positions_to_start(s, slots as nat);
        if started@.len() < available {
            // every queued position was passed
            assert(k == s.len());
            if qi < q.len() {
                assert(q[qi] < s.len());
            }
            assert(qi == q.len());
            assert(p =~= q.take(qi)) by {
                assert(q.take(qi) =~= q);
            }
        } else {
            assert(p =~= q.take(qi));
        }
        assert(started@.map_values(|v: usize| v as int) =~= p);
        assert(transfers@ =~= marked_active(s, p));
    }
    started
}


/// The queue after a progress report for transfer `id`: the first entry with
/// that identifier records `bytes` and, when it had no total yet, `total`.
pub open spec fn with_progress(
    s: Seq<TransferEntry>,
    id: u128,
    bytes: u64,
    total: Option<u64>,
) -> Seq<TransferEntry> {
    match first_with_id(s, id) {
        Some(i) => s.update(
            i,
            TransferEntry {
                transferred_bytes: bytes,
                total_bytes: if s[i].total_bytes is None {
                    total
                } else {
                    s[i].total_bytes
                },
                ..s[i]
            },
        ),
        None => s,
    }
}

/// The first entry with an identifier is a valid position holding it.
pub proof fn lemma_first_with_id_valid(s: Seq<TransferEntry>, id: u128)
    ensures
        first_with_id(s, id) matches Some(i) ==> 0 <= i < s.len() && s[i].id == id && forall|j: int|
            0 <= j < i ==> s[j].id != id,
        first_with_id(s, id) is None ==> forall|j: int| 0 <= j < s.len() ==> s[j].id != id,
{
    if exists|i: int| 0 <= i < s.len() && s[i].id == id {
        let k = choose|i: int| 0 <= i < s.len() && s[i].id == id;
        lemma_least_with_id(s, id, k);
    }
}

proof fn lemma_least_with_id(s: Seq<TransferEntry>, id: u128, k: int)
    requires
        0 <= k < s.len(),
        s[k].id == id,
    ensures
        exists|i: int| 0 <= i <= k && s[i].id == id && forall|j: int| 0 <= j < i ==> s[j].id != id,
    decreases k,
{
    if exists|j: int| 0 <= j < k && s[j].id == id {
        let j = choose|j: int| 0 <= j < k && s[j].id == id;
        lemma_least_with_id(s, id, j);
    } else {
        assert(forall|j: int| 0 <= j < k ==> s[j].id != id);
    }
}

proof fn lemma_first_with_id(s: Seq<TransferEntry>, id: u128, i: int)
    requires
        0 <= i < s.len(),
        s[i].id == id,
        forall|j: int| 0 <= j < i ==> s[j].id != id,
    ensures
        first_with_id(s, id) == Some(i),
{
    let c = choose|c: int| 0 <= c < s.len() && s[c].id == id && forall|j: int| 0 <= j < c ==> s[j].id != id;
    if c < i {
        assert(s[c].id != id);
    }
    if c > i {
        assert(s[i].id != id);
    }
}

proof fn lemma_no_id(s: Seq<TransferEntry>, id: u128)
    requires
        forall|j: int| 0 <= j < s.len() ==> s[j].id != id,
    ensures
        first_with_id(s, id) is None,
{
}

/// Records a progress report for transfer `id`.
pub fn record_progress(transfers: &mut Vec<TransferEntry>, id: u128, bytes: u64, total: Option<u64>)
    ensures
        final(transfers)@ == with_progress(old(transfers)@, id, bytes, total),
{
    match transfer_index(transfers, id) {
        Some(i) => {
            proof {
                lemma_first_with_id(transfers@, id, i as int);
            }
            transfers[i].transferred_bytes = bytes;
            if transfers[i].total_bytes.is_none() {
                transfers[i].total_bytes = total;
            }
            assert(transfers@ =~= with_progress(old(transfers)@, id, bytes, total));
        },
        None => {
            proof {
                lemma_no_id(transfers@, id);
            }
        },
    }
}

/// How a transfer ended, as its task reports it.
#[derive(Debug, Clone, PartialEq, Eq)]
pub enum TransferOutcome {
    Completed,
    Cancelled,
    Failed(String),
}

/// The status a finished transfer takes for an outcome.
pub open spec fn status_for(outcome: TransferOutcome) -> TransferStatus {
    match outcome {
        TransferOutcome::Completed => TransferStatus::Done,
        TransferOutcome::Cancelled => TransferStatus::Cancelled,
        TransferOutcome::Failed(m) => TransferStatus::Failed(m),
    }
}

/// The queue after transfer `id` reported how it ended.
pub open spec fn with_outcome(s: Seq<TransferEntry>, id: u128, outcome: TransferOutcome) -> Seq<
    TransferEntry,
> {
    match first_with_id(s, id) {
        Some(i) => s.update(i, TransferEntry { status: status_for(outcome), ..s[i] }),
        None => s,
    }
}

/// Records how transfer `id` ended; returns its position when it is in the
/// queue.
pub fn finish_transfer(transfers: &mut Vec<TransferEntry>, id: u128, outcome: TransferOutcome) -> (r:
    Option<usize>)
    ensures
        final(transfers)@ == with_outcome(old(transfers)@, id, outcome),
        r == match first_with_id(old(transfers)@, id) {
            Some(i) => Some(i as usize),
            None => None,
        },
        r matches Some(i) ==> i < old(transfers)@.len(),
{
    match transfer_index(transfers, id) {
        Some(i) => {
            proof {
                lemma_first_with_id(transfers@, id, i as int);
            }
            let status = match outcome {
                TransferOutcome::Completed => TransferStatus::Done,
                TransferOutcome::Cancelled => TransferStatus::Cancelled,
                TransferOutcome::Failed(m) => TransferStatus::Failed(m),
            };
            transfers[i].status = status;
            assert(transfers@ =~= with_outcome(old(transfers)@, id, outcome));
            Some(i)
        },
        None => {
            proof {
                lemma_no_id(transfers@, id);
            }
            None
        },
    }
}

/// What a cancel request leads to.
#[derive(Debug, Clone, Copy, PartialEq, Eq, Structural)]
pub enum CancelEffect {
    /// A waiting transfer was marked cancelled; a slot may be refilled.
    Dequeued,
    /// The transfer is running: its task must be told to stop.
    StopRunning,
    /// Nothing to do: unknown or already finished.
    Unchanged,
}

/// The effect of cancelling transfer `id`.
pub open spec fn cancel_effect(s: Seq<TransferEntry>, id: u128) -> CancelEffect {
    match first_with_id(s, id) {
        Some(i) => if s[i].status is Queued {
            CancelEffect::Dequeued
        } else if s[i].status is Active {
            CancelEffect::StopRunning
        } else {
            CancelEffect::Unchanged
        },
        None => CancelEffect::Unchanged,
    }
}

/// The queue after cancelling transfer `id`: a waiting transfer becomes
/// cancelled; a running one stays as it is until its task stops.
pub open spec fn with_cancel(s: Seq<TransferEntry>, id: u128) -> Seq<TransferEntry> {
    match first_with_id(s, id) {
        Some(i) => if s[i].status is Queued {
            s.update(i, TransferEntry { status: TransferStatus::Cancelled, ..s[i] })
        } else {
            s
        },
        None => s,
    }
}

/// Cancels transfer `id`.
pub fn cancel_transfer(transfers: &mut Vec<TransferEntry>, id: u128) -> (r: CancelEffect)
    ensures
        final(transfers)@ == with_cancel(old(transfers)@, id),
        r == cancel_effect(old(transfers)@, id),
{
    match transfer_index(transfers, id) {
        Some(i) => {
            proof {
                lemma_first_with_id(transfers@, id, i as int);
            }
            if transfers[i].status.is_queued() {
                transfers[i].status = TransferStatus::Cancelled;
                assert(transfers@ =~= with_cancel(old(transfers)@, id));
                CancelEffect::Dequeued
            } else if transfers[i].status.is_active() {
                CancelEffect::StopRunning
            } else {
                CancelEffect::Unchanged
            }
        },
        None => {
            proof {
                lemma_no_id(transfers@, id);
            }
            CancelEffect::Unchanged
        },
    }
}

/// The first finished transfer with identifier `id` (for a resume: one
/// that also transferred something).
pub open spec fn first_finished(s: Seq<TransferEntry>, id: u128, need_bytes: bool) -> Option<int> {
    if exists|i: int| 0 <= i < s.len() && finished_match(s[i], id, need_bytes) {
        Some(
            choose|i: int|
                0 <= i < s.len() && finished_match(s[i], id, need_bytes) && forall|j: int|
                    0 <= j < i ==> !finished_match(s[j], id, need_bytes),
        )
    } else {
        None
    }
}

/// `e` is transfer `id`, finished, and (when asked) transferred something.
pub open spec fn finished_match(e: TransferEntry, id: u128, need_bytes: bool) -> bool {
    e.id == id && is_terminal_spec(e.status) && (need_bytes ==> e.transferred_bytes > 0)
}

/// A fresh attempt at `e` under identifier `new_id`: from scratch for a
/// retry, from what was already transferred for a resume.
pub open spec fn again(e: TransferEntry, new_id: u128, resume: bool) -> TransferEntry {
    TransferEntry {
        id: new_id,
        transferred_bytes: if resume {
            e.transferred_bytes
        } else {
            0
        },
        resume_from: if resume {
            e.transferred_bytes
        } else {
            0
        },
        status: TransferStatus::Queued,
        ..e
    }
}

/// The queue after asking to retry (or resume) transfer `id`.
pub open spec fn with_again(s: Seq<TransferEntry>, id: u128, new_id: u128, resume: bool) -> Seq<
    TransferEntry,
> {
    match first_finished(s, id, resume) {
        Some(i) => s.push(again(s[i], new_id, resume)),
        None => s,
    }
}

fn find_finished(transfers: &Vec<TransferEntry>, id: u128, need_bytes: bool) -> (r: Option<usize>)
    ensures
        match r {
            Some(i) => i < transfers@.len() && first_finished(transfers@, id, need_bytes) == Some(i as int),
            None => first_finished(transfers@, id, need_bytes) is None,
        },
{
    let mut i: usize = 0;
    while i < transfers.len()
        invariant
            i <= transfers@.len(),
            forall|j: int| 0 <= j < i ==> !finished_match(transfers@[j], id, need_bytes),
        decreases transfers@.len() - i,
    {
        let t = &transfers[i];
        if t.id == id && t.status.is_terminal() && (!need_bytes || t.transferred_bytes > 0) {
            proof {
                let s = transfers@;
                let c = choose|c: int|
                    0 <= c < s.len() && finished_match(s[c], id, need_bytes) && forall|j: int|
                        0 <= j < c ==> !finished_match(s[j], id, need_bytes);
                if c < i {
                    assert(!finished_match(s[c], id, need_bytes));
                }
                if c > i {
                    assert(!finished_match(s[i as int], id, need_bytes));
                }
            }
            return Some(i);
        }
        i = i + 1;
    }
    None
}

/// Queues a new attempt at finished transfer `id` under `new_id`, from
/// scratch (`resume` false) or from the bytes already transferred (`resume`
/// true, which needs some bytes). Returns whether one was queued.
pub fn requeue_transfer(transfers: &mut Vec<TransferEntry>, id: u128, new_id: u128, resume: bool) -> (r:
    bool)
    ensures
        final(transfers)@ == with_again(old(transfers)@, id, new_id, resume),
        r == first_finished(old(transfers)@, id, resume) is Some,
{
    match find_finished(transfers, id, resume) {
        Some(i) => {
            let e = transfers[i].duplicate();
            let done = e.transferred_bytes;
            let fresh = TransferEntry {
                id: new_id,
                connection_id: e.connection_id,
                kind: e.kind,
                filename: e.filename,
                local_path: e.local_path,
                remote_path: e.remote_path,
                total_bytes: e.total_bytes,
                transferred_bytes: if resume {
                    done
                } else {
                    0
                },
                resume_from: if resume {
                    done
                } else {
                    0
                },
                status: TransferStatus::Queued,
            };
            transfers.push(fresh);
            true
        },
        None => false,
    }
}

/// The queue without its finished transfers, order kept.
pub open spec fn without_finished(s: Seq<TransferEntry>) -> Seq<TransferEntry> {
    s.filter(|e: TransferEntry| !is_terminal_spec(e.status))
}

/// Removes the finished transfers.
pub fn clear_completed(transfers: &mut Vec<TransferEntry>)
    ensures
        final(transfers)@ == without_finished(old(transfers)@),
{
    let ghost s = transfers@;
    let mut kept: Vec<TransferEntry> = Vec::new();
    let mut rest: Vec<TransferEntry> = Vec::new();
    std::mem::swap(&mut rest, transfers);
    let ghost pred = |e: TransferEntry| !is_terminal_spec(e.status);
    let n = rest.len();
    let mut i: usize = 0;
    // walk from the back so that each entry can be moved out with `pop`
    let mut back: Vec<TransferEntry> = Vec::new();
    while i < n
        invariant
            rest@.len() == n - i,
            i <= n,
            n == s.len(),
            rest@ == s.take(n - i),
            back@.len() == i,
            forall|k: int| 0 <= k < i ==> #[trigger] back@[k] == s[n - 1 - k],
        decreases n - i,
    {
        let e = rest.pop().unwrap();
        back.push(e);
        i = i + 1;
        assert(rest@ =~= s.take(n - i));
    }
    i = 0;
    while i < n
        invariant
            back@.len() == n - i,
            i <= n,
            n == s.len(),
            forall|k: int| 0 <= k < n - i ==> #[trigger] back@[k] == s[n - 1 - k],
            kept@ == s.take(i as int).filter(pred),
            pred == (|e: TransferEntry| !is_terminal_spec(e.status)),
        decreases n - i,
    {
        let e = back.pop().unwrap();
        proof {
            assert(e == s[i as int]);
            assert(s.take(i + 1).drop_last() =~= s.take(i as int));
            assert(s.take(i + 1).last() == e);
            reveal(Seq::filter);
            assert(s.take(i + 1).filter(pred) == (if pred(e) {
                s.take(i as int).filter(pred).push(e)
            } else {
                s.take(i as int).filter(pred)
            }));
        }
        if !e.status.is_terminal() {
            kept.push(e);
        }
        i = i + 1;
    }
    assert(s.take(n as int) =~= s);
    assert(kept@ == without_finished(s));
    *transfers = kept;
}


/// Clearing finished transfers leaves none that is finished, and keeps
/// every unfinished one.
pub proof fn lemma_clear_keeps_unfinished(s: Seq<TransferEntry>)
    ensures
        forall|i: int| 0 <= i < without_finished(s).len() ==> !is_terminal_spec(#[trigger] without_finished(s)[i].status),
        forall|k: int| 0 <= k < s.len() && !is_terminal_spec(#[trigger] s[k].status) ==> without_finished(s).contains(s[k]),
        without_finished(s).len() <= s.len(),
{
    let pred = |e: TransferEntry| !is_terminal_spec(e.status);
    s.lemma_filter_len(pred);
    assert forall|i: int| 0 <= i < without_finished(s).len() implies !is_terminal_spec(#[trigger] without_finished(s)[i].status) by {
        s.lemma_filter_pred(pred, i);
    }
    assert forall|k: int| 0 <= k < s.len() && !is_terminal_spec(#[trigger] s[k].status) implies without_finished(s).contains(s[k]) by {
        s.lemma_filter_contains(pred, k);
    }
}

/// Reporting progress changes no transfer's status, identifier or
/// direction, and no other transfer at all.
pub proof fn lemma_progress_keeps_status(s: Seq<TransferEntry>, id: u128, bytes: u64, total: Option<u64>)
    ensures
        with_progress(s, id, bytes, total).len() == s.len(),
        forall|k: int| 0 <= k < s.len() ==> (#[trigger] with_progress(s, id, bytes, total)[k]).status == s[k].status
            && with_progress(s, id, bytes, total)[k].id == s[k].id && with_progress(s, id, bytes, total)[k].kind
            == s[k].kind,
        forall|k: int| 0 <= k < s.len() && s[k].id != id ==> #[trigger] with_progress(s, id, bytes, total)[k] == s[k],
{
    lemma_first_with_id_valid(s, id);
}

/// A waiting transfer that is cancelled is never started afterwards.
pub proof fn lemma_cancelled_never_started(s: Seq<TransferEntry>, id: u128, slots: nat)
    requires
        cancel_effect(s, id) == CancelEffect::Dequeued,
    ensures
        !positions_to_start(with_cancel(s, id), slots).contains(first_with_id(s, id)->0),
        with_cancel(s, id)[first_with_id(s, id)->0].status == TransferStatus::Cancelled,
{
    lemma_first_with_id_valid(s, id);
    let i = first_with_id(s, id)->0;
    let t = with_cancel(s, id);
    lemma_positions_to_start(t, slots);
    let p = positions_to_start(t, slots);
    if p.contains(i) {
        let w = choose|w: int| 0 <= w < p.len() && p[w] == i;
        assert(t[p[w]].status is Queued);
    }
}


proof fn lemma_least_finished(s: Seq<TransferEntry>, id: u128, need_bytes: bool, k: int)
    requires
        0 <= k < s.len(),
        finished_match(s[k], id, need_bytes),
    ensures
        exists|i: int|
            0 <= i <= k && finished_match(s[i], id, need_bytes) && forall|j: int|
                0 <= j < i ==> !finished_match(s[j], id, need_bytes),
    decreases k,
{
    if exists|j: int| 0 <= j < k && finished_match(s[j], id, need_bytes) {
        let j = choose|j: int| 0 <= j < k && finished_match(s[j], id, need_bytes);
        lemma_least_finished(s, id, need_bytes, j);
    }
}

/// Retrying or resuming keeps the queue's history and adds one waiting
/// attempt, and only for a finished transfer (one that moved some bytes,
/// to resume): the same file, direction, places and connection, starting
/// over or from the bytes already moved.
pub proof fn lemma_retry_adds_attempt(s: Seq<TransferEntry>, id: u128, new_id: u128, resume: bool)
    ensures
        with_again(s, id, new_id, resume).take(s.len() as int) == s,
        first_finished(s, id, resume) is None ==> with_again(s, id, new_id, resume) == s,
        first_finished(s, id, resume) matches Some(i) ==> {
            let t = with_again(s, id, new_id, resume).last();
            &&& 0 <= i < s.len()
            &&& with_again(s, id, new_id, resume).len() == s.len() + 1
            &&& s[i].id == id && is_terminal_spec(s[i].status)
            &&& (resume ==> s[i].transferred_bytes > 0)
            &&& t.id == new_id && t.status == TransferStatus::Queued
            &&& t.kind == s[i].kind && t.filename == s[i].filename && t.connection_id == s[i].connection_id
            &&& t.local_path == s[i].local_path && t.remote_path == s[i].remote_path && t.total_bytes == s[i].total_bytes
            &&& t.resume_from == (if resume { s[i].transferred_bytes } else { 0 })
            &&& t.transferred_bytes == t.resume_from
        },
{
    if exists|i: int| 0 <= i < s.len() && finished_match(s[i], id, resume) {
        let k = choose|i: int| 0 <= i < s.len() && finished_match(s[i], id, resume);
        lemma_least_finished(s, id, resume, k);
        let i = first_finished(s, id, resume)->0;
        assert(0 <= i < s.len() && finished_match(s[i], id, resume));
        let w = s.push(again(s[i], new_id, resume));
        assert(with_again(s, id, new_id, resume) == w);
        assert(w.take(s.len() as int) =~= s);
        assert(w.last() == again(s[i], new_id, resume));
    } else {
        assert(s.take(s.len() as int) =~= s);
    }
}

/// A progress report sets the byte count of the first transfer with that
/// identifier to the reported total (it replaces the count, it does not add
/// to it), and fills in its size only when the size was unknown.
pub proof fn lemma_progress_sets_count(s: Seq<TransferEntry>, id: u128, bytes: u64, total: Option<u64>, k: int)
    requires
        0 <= k < s.len(),
        s[k].id == id,
        forall|j: int| 0 <= j < k ==> s[j].id != id,
    ensures
        with_progress(s, id, bytes, total)[k].transferred_bytes == bytes,
        s[k].total_bytes is None ==> with_progress(s, id, bytes, total)[k].total_bytes == total,
        s[k].total_bytes is Some ==> with_progress(s, id, bytes, total)[k].total_bytes == s[k].total_bytes,
{
    lemma_first_with_id_valid(s, id);
    let i = first_with_id(s, id)->0;
    if i < k {
        assert(s[i].id != id);
    }
    if k < i {
        assert(s[k].id != id);
    }
}

} // verus!
