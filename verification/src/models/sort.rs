//! Column ordering and the filtered, ordered view of a directory listing.

use vstd::prelude::*;
use crate::models::ftp_entry::FtpEntry;
use crate::models::settings::{AppSettings, is_hidden, is_hidden_spec};
use crate::text::{
    chars_of, contains_seq, lemma_lex_order_props, lemma_lex_order_trans, lex_compare, lex_order,
    lowercase_spec, seq_contains, to_lowercase, trim, trim_spec,
};

verus! {

/// Column that a listing is ordered by.
#[derive(Debug, Clone, Copy, PartialEq, Eq, Structural)]
pub enum SortKey {
    Name,
    Size,
    Modified,
}

impl Default for SortKey {
    fn default() -> (r: Self)
        ensures
            r == SortKey::Name,
    {
        SortKey::Name
    }
}

/// Direction of the ordering.
#[derive(Debug, Clone, Copy, PartialEq, Eq, Structural)]
pub enum SortOrder {
    Asc,
    Desc,
}

impl Default for SortOrder {
    fn default() -> (r: Self)
        ensures
            r == SortOrder::Asc,
    {
        SortOrder::Asc
    }
}

/// Column and direction of a listing's ordering.
#[derive(Debug, Clone, Copy, PartialEq, Eq, Structural)]
pub struct SortSpec {
    pub key: SortKey,
    pub order: SortOrder,
}

impl Default for SortSpec {
    fn default() -> (r: Self)
        ensures
            r.key == SortKey::Name,
            r.order == SortOrder::Asc,
    {
        SortSpec { key: SortKey::Name, order: SortOrder::Asc }
    }
}

/// The sort after a click on column `key` (see `SortSpec::toggle_key`).
pub open spec fn toggled(s: SortSpec, key: SortKey) -> SortSpec {
    SortSpec {
        key,
        order: if s.key == key {
            flipped(s.order)
        } else {
            SortOrder::Asc
        },
    }
}

/// Two clicks on the column a panel is sorted by restore its sort; two
/// clicks on another column sort it by that column in descending order.
pub proof fn lemma_toggle_twice(s: SortSpec, key: SortKey)
    ensures
        s.key == key ==> toggled(toggled(s, key), key) == s,
        s.key != key ==> toggled(toggled(s, key), key) == (SortSpec { key, order: SortOrder::Desc }),
{
}

/// The opposite direction.
pub open spec fn flipped(o: SortOrder) -> SortOrder {
    match o {
        SortOrder::Asc => SortOrder::Desc,
        SortOrder::Desc => SortOrder::Asc,
    }
}

impl SortSpec {
    /// Clicking a column header: the same column flips the direction, another
    /// column is taken in ascending order.
    pub fn toggle_key(self, key: SortKey) -> (r: Self)
        ensures
            r == toggled(self, key),
            r.key == key,
            r.order == (if self.key == key {
                flipped(self.order)
            } else {
                SortOrder::Asc
            }),
    {
        if self.key == key {
            SortSpec {
                key,
                order: match self.order {
                    SortOrder::Asc => SortOrder::Desc,
                    SortOrder::Desc => SortOrder::Asc,
                },
            }
        } else {
            SortSpec { key, order: SortOrder::Asc }
        }
    }
}

/// Three-way comparison of two integers.
pub open spec fn int_order(x: int, y: int) -> int {
    if x < y {
        -1
    } else if x > y {
        1
    } else {
        0
    }
}

/// Size used for ordering: absent sizes count as zero.
pub open spec fn size_key(e: FtpEntry) -> int {
    match e.size {
        Some(s) => s as int,
        None => 0,
    }
}

/// Modification stamp used for ordering: absent stamps count as empty text.
pub open spec fn modified_key(e: FtpEntry) -> Seq<char> {
    match e.modified {
        Some(m) => m@,
        None => Seq::<char>::empty(),
    }
}

/// Comparison of two entries on one column.
pub open spec fn key_order(a: FtpEntry, b: FtpEntry, key: SortKey) -> int {
    match key {
        SortKey::Name => lex_order(lowercase_spec(a.name@), lowercase_spec(b.name@)),
        SortKey::Size => int_order(size_key(a), size_key(b)),
        SortKey::Modified => lex_order(modified_key(a), modified_key(b)),
    }
}

/// Comparison of two entries in a view: directories first, then the column
/// in the chosen direction.
pub open spec fn entry_order(a: FtpEntry, b: FtpEntry, sort: SortSpec) -> int {
    if a.is_dir && !b.is_dir {
        -1
    } else if !a.is_dir && b.is_dir {
        1
    } else {
        let c = key_order(a, b, sort.key);
        match sort.order {
            SortOrder::Asc => c,
            SortOrder::Desc => -c,
        }
    }
}

/// Entry `i` comes before entry `j` in the view: it compares lower, or it
/// compares equal and came first (the ordering is stable).
pub open spec fn view_before(entries: Seq<FtpEntry>, sort: SortSpec, i: int, j: int) -> bool {
    let c = entry_order(entries[i], entries[j], sort);
    c < 0 || (c == 0 && i < j)
}

/// The filter text as it is matched: trimmed and lower-cased.
pub open spec fn filter_key(filter: Seq<char>) -> Seq<char> {
    lowercase_spec(trim_spec(filter))
}

/// An entry is shown when the preferences do not hide it and its lower-cased
/// name contains the filter key.
pub open spec fn entry_visible(e: FtpEntry, fkey: Seq<char>, settings: AppSettings) -> bool {
    &&& !is_hidden_spec(e.name@, settings)
    &&& (fkey.len() == 0 || seq_contains(lowercase_spec(e.name@), fkey))
}

/// `idx` lists the visible entries, each once, in view order.
pub open spec fn is_view_order(
    entries: Seq<FtpEntry>,
    sort: SortSpec,
    filter: Seq<char>,
    settings: AppSettings,
    idx: Seq<int>,
) -> bool {
    &&& forall|i: int|
        0 <= i < idx.len() ==> 0 <= #[trigger] idx[i] < entries.len() && entry_visible(
            entries[idx[i]],
            filter_key(filter),
            settings,
        )
    &&& forall|k: int|
        0 <= k < entries.len() && entry_visible(#[trigger] entries[k], filter_key(filter), settings)
            ==> idx.contains(k)
    &&& forall|i: int, j: int|
        0 <= i < j < idx.len() ==> view_before(entries, sort, #[trigger] idx[i], #[trigger] idx[j])
}

pub proof fn lemma_key_order_props(a: FtpEntry, b: FtpEntry, key: SortKey)
    ensures
        key_order(a, b, key) == -key_order(b, a, key),
        -1 <= key_order(a, b, key) <= 1,
        key_order(a, a, key) == 0,
{
    lemma_lex_order_props(lowercase_spec(a.name@), lowercase_spec(b.name@));
    lemma_lex_order_props(modified_key(a), modified_key(b));
    lemma_lex_order_props(lowercase_spec(a.name@), lowercase_spec(a.name@));
    lemma_lex_order_props(modified_key(a), modified_key(a));
}

pub proof fn lemma_key_order_trans(a: FtpEntry, b: FtpEntry, c: FtpEntry, key: SortKey)
    requires
        key_order(a, b, key) <= 0,
        key_order(b, c, key) <= 0,
    ensures
        key_order(a, c, key) <= 0,
        key_order(a, b, key) < 0 || key_order(b, c, key) < 0 ==> key_order(a, c, key) < 0,
{
    match key {
        SortKey::Name => lemma_lex_order_trans(
            lowercase_spec(a.name@),
            lowercase_spec(b.name@),
            lowercase_spec(c.name@),
        ),
        SortKey::Size => {},
        SortKey::Modified => lemma_lex_order_trans(modified_key(a), modified_key(b), modified_key(c)),
    }
}

/// The view comparison is antisymmetric and each entry ties with itself.
pub proof fn lemma_entry_order_props(a: FtpEntry, b: FtpEntry, sort: SortSpec)
    ensures
        entry_order(a, b, sort) == -entry_order(b, a, sort),
        entry_order(a, a, sort) == 0,
{
    lemma_key_order_props(a, b, sort.key);
}

/// The view comparison is transitive, strictly so when one step is strict.
pub proof fn lemma_entry_order_trans(a: FtpEntry, b: FtpEntry, c: FtpEntry, sort: SortSpec)
    requires
        entry_order(a, b, sort) <= 0,
        entry_order(b, c, sort) <= 0,
    ensures
        entry_order(a, c, sort) <= 0,
        entry_order(a, b, sort) < 0 || entry_order(b, c, sort) < 0 ==> entry_order(a, c, sort) < 0,
{
    lemma_entry_order_props(a, b, sort);
    lemma_entry_order_props(b, c, sort);
    lemma_entry_order_props(a, c, sort);
    if a.is_dir == b.is_dir && b.is_dir == c.is_dir {
        match sort.order {
            SortOrder::Asc => lemma_key_order_trans(a, b, c, sort.key),
            SortOrder::Desc => {
                lemma_key_order_props(a, b, sort.key);
                lemma_key_order_props(b, c, sort.key);
                lemma_key_order_props(a, c, sort.key);
                lemma_key_order_trans(c, b, a, sort.key);
            },
        }
    }
}

/// The order of a view is transitive.
pub proof fn lemma_view_before_trans(
    entries: Seq<FtpEntry>,
    sort: SortSpec,
    i: int,
    j: int,
    k: int,
)
    requires
        0 <= i < entries.len(),
        0 <= j < entries.len(),
        0 <= k < entries.len(),
        view_before(entries, sort, i, j),
        view_before(entries, sort, j, k),
    ensures
        view_before(entries, sort, i, k),
{
    lemma_entry_order_trans(entries[i], entries[j], entries[k], sort);
}

proof fn lemma_insert_keeps_order(
    entries: Seq<FtpEntry>,
    sort: SortSpec,
    idx: Seq<int>,
    k: int,
    p: int,
)
    requires
        0 <= k < entries.len(),
        0 <= p <= idx.len(),
        forall|i: int| 0 <= i < idx.len() ==> 0 <= #[trigger] idx[i] < k,
        forall|i: int, j: int|
            0 <= i < j < idx.len() ==> view_before(entries, sort, #[trigger] idx[i], #[trigger] idx[j]),
        forall|q: int| 0 <= q < p ==> entry_order(entries[k], entries[#[trigger] idx[q]], sort) >= 0,
        p < idx.len() ==> entry_order(entries[k], entries[idx[p]], sort) < 0,
    ensures
        forall|i: int, j: int|
            0 <= i < j < idx.insert(p, k).len() ==> view_before(
                entries,
                sort,
                #[trigger] idx.insert(p, k)[i],
                #[trigger] idx.insert(p, k)[j],
            ),
{
    let n = idx.insert(p, k);
    assert forall|i: int, j: int| 0 <= i < j < n.len() implies view_before(
        entries,
        sort,
        #[trigger] n[i],
        #[trigger] n[j],
    ) by {
        if j < p {
            assert(n[i] == idx[i] && n[j] == idx[j]);
        } else if j == p {
            assert(n[i] == idx[i] && n[j] == k);
            lemma_entry_order_props(entries[k], entries[idx[i]], sort);
        } else if i < p {
            assert(n[i] == idx[i] && n[j] == idx[j - 1]);
        } else if i == p {
            assert(n[i] == k && n[j] == idx[j - 1]);
            if j - 1 > p {
                assert(view_before(entries, sort, idx[p], idx[j - 1]));
                lemma_entry_order_trans(entries[k], entries[idx[p]], entries[idx[j - 1]], sort);
            }
        } else {
            assert(n[i] == idx[i - 1] && n[j] == idx[j - 1]);
        }
    }
}

/// The view order of a listing: the one index sequence that
/// `is_view_order` describes.
pub open spec fn view_order(
    entries: Seq<FtpEntry>,
    sort: SortSpec,
    filter: Seq<char>,
    settings: AppSettings,
) -> Seq<int> {
    choose|idx: Seq<int>| is_view_order(entries, sort, filter, settings, idx)
}

/// The entries of a listing in view order.
pub open spec fn view_entries(
    entries: Seq<FtpEntry>,
    sort: SortSpec,
    filter: Seq<char>,
    settings: AppSettings,
) -> Seq<FtpEntry> {
    view_order(entries, sort, filter, settings).map_values(|i: int| entries[i])
}

proof fn lemma_view_before_asym(entries: Seq<FtpEntry>, sort: SortSpec, a: int, b: int)
    requires
        0 <= a < entries.len(),
        0 <= b < entries.len(),
        view_before(entries, sort, a, b),
    ensures
        !view_before(entries, sort, b, a),
        a != b,
{
    lemma_entry_order_props(entries[a], entries[b], sort);
    lemma_entry_order_props(entries[a], entries[a], sort);
}

/// Two index sequences that both list the visible entries in view order
/// are the same: the view of a listing is determined.
pub proof fn lemma_view_order_unique(
    entries: Seq<FtpEntry>,
    sort: SortSpec,
    filter: Seq<char>,
    settings: AppSettings,
    x: Seq<int>,
    y: Seq<int>,
)
    requires
        is_view_order(entries, sort, filter, settings, x),
        is_view_order(entries, sort, filter, settings, y),
    ensures
        x == y,
{
    let fk = filter_key(filter);
    assert forall|i: int| 0 <= i < x.len() implies y.contains(#[trigger] x[i]) by {
        assert(entry_visible(entries[x[i]], fk, settings));
    }
    assert forall|i: int| 0 <= i < y.len() implies x.contains(#[trigger] y[i]) by {
        assert(entry_visible(entries[y[i]], fk, settings));
    }
    lemma_sorted_same_elements_equal(entries, sort, x, y);
}

/// Two sequences, each sorted by `view_before` over valid positions, that
/// hold the same elements are equal.
proof fn lemma_sorted_same_elements_equal(entries: Seq<FtpEntry>, sort: SortSpec, x: Seq<int>, y: Seq<int>)
    requires
        forall|i: int| 0 <= i < x.len() ==> 0 <= #[trigger] x[i] < entries.len(),
        forall|i: int| 0 <= i < y.len() ==> 0 <= #[trigger] y[i] < entries.len(),
        forall|i: int, j: int| 0 <= i < j < x.len() ==> view_before(entries, sort, #[trigger] x[i], #[trigger] x[j]),
        forall|i: int, j: int| 0 <= i < j < y.len() ==> view_before(entries, sort, #[trigger] y[i], #[trigger] y[j]),
        forall|i: int| 0 <= i < x.len() ==> y.contains(#[trigger] x[i]),
        forall|i: int| 0 <= i < y.len() ==> x.contains(#[trigger] y[i]),
    ensures
        x == y,
    decreases x.len() + y.len(),
{
    if x.len() == 0 && y.len() == 0 {
        assert(x =~= y);
    } else if x.len() == 0 {
        assert(x.contains(y[0]));
    } else if y.len() == 0 {
        assert(y.contains(x[0]));
    } else {
        let a = x[0];
        let b = y[0];
        assert(y.contains(a));
        assert(x.contains(b));
        let m = choose|m: int| 0 <= m < y.len() && y[m] == a;
        let k = choose|k: int| 0 <= k < x.len() && x[k] == b;
        if a != b {
            assert(k > 0 && m > 0);
            assert(view_before(entries, sort, x[0], x[k]));
            assert(view_before(entries, sort, y[0], y[m]));
            lemma_view_before_asym(entries, sort, a, b);
        }
        let xt = x.drop_first();
        let yt = y.drop_first();
        assert forall|i: int| 0 <= i < xt.len() implies xt[i] != a by {
            assert(xt[i] == x[i + 1]);
            lemma_view_before_asym(entries, sort, x[0], x[i + 1]);
        }
        assert forall|i: int| 0 <= i < yt.len() implies yt[i] != a by {
            assert(yt[i] == y[i + 1]);
            lemma_view_before_asym(entries, sort, y[0], y[i + 1]);
        }
        assert forall|i: int| 0 <= i < xt.len() implies yt.contains(#[trigger] xt[i]) by {
            assert(xt[i] == x[i + 1]);
            assert(y.contains(x[i + 1]));
            let v = choose|v: int| 0 <= v < y.len() && y[v] == x[i + 1];
            assert(v != 0);
            assert(yt[v - 1] == xt[i]);
        }
        assert forall|i: int| 0 <= i < yt.len() implies xt.contains(#[trigger] yt[i]) by {
            assert(yt[i] == y[i + 1]);
            assert(x.contains(y[i + 1]));
            let v = choose|v: int| 0 <= v < x.len() && x[v] == y[i + 1];
            assert(v != 0);
            assert(xt[v - 1] == yt[i]);
        }
        assert forall|i: int, j: int| 0 <= i < j < xt.len() implies view_before(
            entries,
            sort,
            #[trigger] xt[i],
            #[trigger] xt[j],
        ) by {
            assert(xt[i] == x[i + 1] && xt[j] == x[j + 1]);
        }
        assert forall|i: int, j: int| 0 <= i < j < yt.len() implies view_before(
            entries,
            sort,
            #[trigger] yt[i],
            #[trigger] yt[j],
        ) by {
            assert(yt[i] == y[i + 1] && yt[j] == y[j + 1]);
        }
        lemma_sorted_same_elements_equal(entries, sort, xt, yt);
        assert(x =~= seq![a].add(xt));
        assert(y =~= seq![b].add(yt));
    }
}

fn compare_entries(
    entries: &[FtpEntry],
    lowered: &Vec<Vec<char>>,
    i: usize,
    j: usize,
    sort: SortSpec,
) -> (r: i8)
    requires
        i < entries@.len(),
        j < entries@.len(),
        lowered@.len() == entries@.len(),
        forall|k: int| 0 <= k < entries@.len() ==> #[trigger] lowered@[k]@ == lowercase_spec(entries@[k].name@),
    ensures
        r as int == entry_order(entries@[i as int], entries@[j as int], sort),
{
    let a = &entries[i];
    let b = &entries[j];
    if a.is_dir && !b.is_dir {
        return -1;
    }
    if !a.is_dir && b.is_dir {
        return 1;
    }
    let c: i8 = match sort.key {
        SortKey::Name => lex_compare(&lowered[i], &lowered[j]),
        SortKey::Size => {
            let x: u64 = match a.size {
                Some(s) => s,
                None => 0,
            };
            let y: u64 = match b.size {
                Some(s) => s,
                None => 0,
            };
            if x < y {
                -1
            } else if x > y {
                1
            } else {
                0
            }
        },
        SortKey::Modified => {
            let ma = match &a.modified {
                Some(m) => chars_of(m.as_str()),
                None => Vec::new(),
            };
            let mb = match &b.modified {
                Some(m) => chars_of(m.as_str()),
                None => Vec::new(),
            };
            assert(ma@ == modified_key(*a));
            assert(mb@ == modified_key(*b));
            lex_compare(&ma, &mb)
        },
    };
    proof {
        lemma_key_order_props(*a, *b, sort.key);
    }
    match sort.order {
        SortOrder::Asc => c,
        SortOrder::Desc => -c,
    }
}

/// The entries shown in a panel, in display order: entries hidden by the
/// preferences or not matching the filter (case-insensitively) are left out;
/// directories come first, then the chosen column in the chosen direction,
/// ties keeping their listing order.
pub fn apply_view<'a>(
    entries: &'a [FtpEntry],
    sort: SortSpec,
    filter: &str,
    settings: &AppSettings,
) -> (r: Vec<&'a FtpEntry>)
    ensures
        is_view_order(entries@, sort, filter@, *settings, view_order(entries@, sort, filter@, *settings)),
        r@.len() == view_order(entries@, sort, filter@, *settings).len(),
        forall|i: int|
            0 <= i < r@.len() ==> *r@[i] == #[trigger] view_entries(entries@, sort, filter@, *settings)[i],
        trim_spec(filter@).len() == 0 ==> forall|k: int|
            0 <= k < entries@.len() && !is_hidden_spec(entries@[k].name@, *settings) ==> #[trigger] view_order(
                entries@,
                sort,
                filter@,
                *settings,
            ).contains(k),
{
    let fkey = chars_of(to_lowercase(trim(filter)).as_str());
    assert(trim_spec(filter@).len() == 0 ==> filter_key(filter@).len() == 0);
    let n = entries.len();
    let mut lowered: Vec<Vec<char>> = Vec::new();
    let mut shown: Vec<bool> = Vec::new();
    let mut k: usize = 0;
    while k < n
        invariant
            n == entries@.len(),
            k <= n,
            fkey@ == filter_key(filter@),
            lowered@.len() == k,
            shown@.len() == k,
            forall|m: int| 0 <= m < k ==> #[trigger] lowered@[m]@ == lowercase_spec(entries@[m].name@),
            forall|m: int|
                0 <= m < k ==> #[trigger] shown@[m] == entry_visible(entries@[m], fkey@, *settings),
        decreases n - k,
    {
        let low = chars_of(to_lowercase(entries[k].name.as_str()).as_str());
        let vis = !is_hidden(entries[k].name.as_str(), settings) && (fkey.len() == 0
            || contains_seq(&low, &fkey));
        lowered.push(low);
        shown.push(vis);
        k = k + 1;
    }
    let mut idx: Vec<usize> = Vec::new();
    let ghost es = entries@;
    k = 0;
    while k < n
        invariant
            n == es.len(),
            es == entries@,
            k <= n,
            fkey@ == filter_key(filter@),
            lowered@.len() == n,
            shown@.len() == n,
            forall|m: int| 0 <= m < n ==> #[trigger] lowered@[m]@ == lowercase_spec(es[m].name@),
            forall|m: int| 0 <= m < n ==> #[trigger] shown@[m] == entry_visible(es[m], fkey@, *settings),
            forall|i: int|
                0 <= i < idx@.len() ==> (#[trigger] idx@[i] as int) < k && entry_visible(
                    es[idx@[i] as int],
                    fkey@,
                    *settings,
                ),
            forall|m: int|
                0 <= m < k && entry_visible(#[trigger] es[m], fkey@, *settings) ==> idx@.contains(
                    m as usize,
                ),
            forall|i: int, j: int|
                0 <= i < j < idx@.len() ==> view_before(
                    es,
                    sort,
                    #[trigger] idx@[i] as int,
                    #[trigger] idx@[j] as int,
                ),
        decreases n - k,
    {
        if shown[k] {
            let mut p: usize = 0;
            while p < idx.len() && compare_entries(entries, &lowered, k, idx[p], sort) >= 0
                invariant
                    n == es.len(),
                    es == entries@,
                    k < n,
                    lowered@.len() == n,
                    forall|m: int| 0 <= m < n ==> #[trigger] lowered@[m]@ == lowercase_spec(es[m].name@),
                    forall|i: int| 0 <= i < idx@.len() ==> (#[trigger] idx@[i] as int) < k,
                    p <= idx@.len(),
                    forall|q: int|
                        0 <= q < p ==> entry_order(es[k as int], es[#[trigger] idx@[q] as int], sort)
                            >= 0,
                decreases idx@.len() - p,
            {
                p = p + 1;
            }
            let ghost iseq = idx@.map_values(|v: usize| v as int);
            proof {
                assert forall|i: int| 0 <= i < iseq.len() implies 0 <= #[trigger] iseq[i] < k by {
                    assert(iseq[i] == idx@[i] as int);
                }
                assert forall|i: int, j: int| 0 <= i < j < iseq.len() implies view_before(
                    es,
                    sort,
                    #[trigger] iseq[i],
                    #[trigger] iseq[j],
                ) by {
                    assert(iseq[i] == idx@[i] as int);
                    assert(iseq[j] == idx@[j] as int);
                }
                assert forall|q: int| 0 <= q < p implies entry_order(
                    es[k as int],
                    es[#[trigger] iseq[q]],
                    sort,
                ) >= 0 by {
                    assert(iseq[q] == idx@[q] as int);
                }
                if p < iseq.len() {
                    assert(iseq[p as int] == idx@[p as int] as int);
                }
                lemma_insert_keeps_order(es, sort, iseq, k as int, p as int);
            }
            let ghost old_idx = idx@;
            idx.insert(p, k);
            proof {
                assert(idx@.map_values(|v: usize| v as int) =~= iseq.insert(p as int, k as int));
                assert forall|i: int, j: int| 0 <= i < j < idx@.len() implies view_before(
                    es,
                    sort,
                    #[trigger] idx@[i] as int,
                    #[trigger] idx@[j] as int,
                ) by {
                    assert(iseq.insert(p as int, k as int)[i] == idx@[i] as int);
                    assert(iseq.insert(p as int, k as int)[j] == idx@[j] as int);
                }
                assert forall|m: int|
                    0 <= m < k + 1 && entry_visible(#[trigger] es[m], fkey@, *settings) implies idx@.contains(
                    m as usize,
                ) by {
                    if m < k {
                        let w = choose|w: int| 0 <= w < old_idx.len() && old_idx[w] == m as usize;
                        if w < p {
                            assert(idx@[w] == m as usize);
                        } else {
                            assert(idx@[w + 1] == m as usize);
                        }
                    } else {
                        assert(idx@[p as int] == k);
                    }
                }
                assert forall|i: int| 0 <= i < idx@.len() implies (#[trigger] idx@[i] as int) < k + 1
                    && entry_visible(es[idx@[i] as int], fkey@, *settings) by {
                    if i < p {
                        assert(idx@[i] == old_idx[i]);
                    } else if i > p {
                        assert(idx@[i] == old_idx[i - 1]);
                    }
                }
            }
        } else {
            proof {
                assert forall|m: int|
                    0 <= m < k + 1 && entry_visible(#[trigger] es[m], fkey@, *settings) implies idx@.contains(
                    m as usize,
                ) by {}
            }
        }
        k = k + 1;
    }
    let mut r: Vec<&'a FtpEntry> = Vec::new();
    let mut i: usize = 0;
    while i < idx.len()
        invariant
            es == entries@,
            i <= idx@.len(),
            r@.len() == i,
            forall|m: int| 0 <= m < idx@.len() ==> (#[trigger] idx@[m] as int) < es.len(),
            forall|m: int| 0 <= m < i ==> *r@[m] == es[#[trigger] idx@[m] as int],
        decreases idx@.len() - i,
    {
        r.push(&entries[idx[i]]);
        i = i + 1;
    }
    let ghost fidx = idx@.map_values(|v: usize| v as int);
    proof {
        assert forall|m: int| 0 <= m < fidx.len() implies 0 <= #[trigger] fidx[m] < es.len()
            && entry_visible(es[fidx[m]], filter_key(filter@), *settings) by {
            assert(fidx[m] == idx@[m] as int);
        }
        assert forall|m: int|
            0 <= m < es.len() && entry_visible(#[trigger] es[m], filter_key(filter@), *settings)
                implies fidx.contains(m) by {
            let w = choose|w: int| 0 <= w < idx@.len() && idx@[w] == m as usize;
            assert(fidx[w] == m);
        }
        assert forall|a: int, b: int| 0 <= a < b < fidx.len() implies view_before(
            es,
            sort,
            #[trigger] fidx[a],
            #[trigger] fidx[b],
        ) by {
            assert(fidx[a] == idx@[a] as int);
            assert(fidx[b] == idx@[b] as int);
        }
        assert forall|m: int| 0 <= m < fidx.len() implies *r@[m] == es[#[trigger] fidx[m]] by {
            assert(fidx[m] == idx@[m] as int);
        }
        assert(is_view_order(entries@, sort, filter@, *settings, fidx));
        let vo = view_order(entries@, sort, filter@, *settings);
        assert(is_view_order(entries@, sort, filter@, *settings, vo));
        lemma_view_order_unique(entries@, sort, filter@, *settings, fidx, vo);
        assert(r@.len() == fidx.len());
    }
    r
}


/// In every view of a listing the directories come before the files,
/// whatever the column and direction.
pub proof fn lemma_view_dirs_first(
    entries: Seq<FtpEntry>,
    sort: SortSpec,
    filter: Seq<char>,
    settings: AppSettings,
    idx: Seq<int>,
    a: int,
    b: int,
)
    requires
        is_view_order(entries, sort, filter, settings, idx),
        0 <= a < b < idx.len(),
        entries[idx[b]].is_dir,
    ensures
        entries[idx[a]].is_dir,
{
    assert(view_before(entries, sort, idx[a], idx[b]));
}

/// No view of a listing shows an entry that the preferences hide, whatever
/// the filter and the order.
pub proof fn lemma_view_hides(
    entries: Seq<FtpEntry>,
    sort: SortSpec,
    filter: Seq<char>,
    settings: AppSettings,
    idx: Seq<int>,
    i: int,
)
    requires
        is_view_order(entries, sort, filter, settings, idx),
        0 <= i < idx.len(),
    ensures
        !is_hidden_spec(entries[idx[i]].name@, settings),
{
}

} // verus!
