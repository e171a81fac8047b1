//! The rows that the terminal UI shows: filtered, sorted and humanized.

use crate::names::{weigh, weigh_one, Entry, NameMap};
use crate::order::{descending, permute, sort_descending};
use crate::report::{avg_of, data_types_str, data_types_text};
use crate::stats::{
    by_bytes, by_count, by_ns_bytes, by_ns_count, bytes_of, count_of, Stats, TypeStat,
};
use crate::text::{
    chars_of, contains, contains_text, find, lex_lt, lowercase, occurs, occurs_at, starts_with,
    string_of, to_lowercase,
};
use vstd::prelude::*;

verus! {

/// The escaped Symfony tag-set marker as it appears in stored type/key names.
pub const TAG_MARKER: &'static str = "\\x01tags\\x01";

/// Which sort order to apply to namespace and type tables.
#[derive(Debug, Clone, Copy, PartialEq, Eq, Structural)]
pub enum Sort {
    Count,
    TotalMem,
    AvgMem,
}

/// The name of a sort order.
pub open spec fn sort_name(s: Sort) -> Seq<char> {
    match s {
        Sort::Count => "count"@,
        Sort::TotalMem => "total mem"@,
        Sort::AvgMem => "avg mem"@,
    }
}

/// The sort order that follows.
pub open spec fn next_sort(s: Sort) -> Sort {
    match s {
        Sort::Count => Sort::TotalMem,
        Sort::TotalMem => Sort::AvgMem,
        Sort::AvgMem => Sort::Count,
    }
}

impl Sort {
    /// The name of the sort order.
    pub fn label(self) -> (r: &'static str)
        ensures
            r@ == sort_name(self),
    {
        match self {
            Sort::Count => "count",
            Sort::TotalMem => "total mem",
            Sort::AvgMem => "avg mem",
        }
    }

    /// The sort order that follows.
    pub fn next(self) -> (r: Sort)
        ensures
            r == next_sort(self),
    {
        match self {
            Sort::Count => Sort::TotalMem,
            Sort::TotalMem => Sort::AvgMem,
            Sort::AvgMem => Sort::Count,
        }
    }
}

// ---------------------------------------------------------------------------
// Names
// ---------------------------------------------------------------------------

/// A type name as it is shown: a tag set loses its control bytes.
pub open spec fn shown_type(name: Seq<char>) -> Seq<char> {
    if starts_with(name, TAG_MARKER@) {
        "🏷 "@ + name.skip(TAG_MARKER@.len() as int) + "  (tag set)"@
    } else {
        name
    }
}

/// Humanize a type name: the tag-index set `\x01tags\x01<name>` is shown as
/// `🏷 <name>  (tag set)`. Other type names pass through.
pub fn display_type(name: &str) -> (r: String)
    ensures
        r@ == shown_type(name@),
{
    let v = chars_of(name);
    let tag = chars_of(TAG_MARKER);
    if occurs(&v, &tag, 0) {
        let mut r = "🏷 ".to_owned();
        let rest = string_of(&v, tag.len(), v.len());
        assert(rest@ =~= name@.skip(tag@.len() as int));
        r.append(rest.as_str());
        r.append("  (tag set)");
        r
    } else {
        name.to_owned()
    }
}

/// `i` is the first position of the tag marker in `key`.
pub open spec fn marker_at(key: Seq<char>, i: int) -> bool {
    occurs_at(key, TAG_MARKER@, i) && forall|j: int| 0 <= j < i ==> !occurs_at(key, TAG_MARKER@, j)
}

/// A key as it is shown: an embedded tag marker reads as a tag set.
pub open spec fn shown_key(key: Seq<char>) -> Seq<char> {
    if contains(key, TAG_MARKER@) {
        let i = choose|i: int| marker_at(key, i);
        key.take(i) + "🏷 tags » "@ + key.skip(i + TAG_MARKER@.len())
    } else {
        key
    }
}

/// Humanize a full key: rewrite an embedded `<namespace>:\x01tags\x01<name>` so
/// the marker reads as a tag set.
pub fn display_key(key: &str) -> (r: String)
    ensures
        r@ == shown_key(key@),
{
    let v = chars_of(key);
    let tag = chars_of(TAG_MARKER);
    match find(&v, &tag, 0) {
        Some(i) => {
            proof {
                assert(marker_at(key@, i as int));
                let c = choose|c: int| marker_at(key@, c);
                assert(c == i) by {
                    if c < i {
                        assert(!occurs_at(key@, TAG_MARKER@, c));
                    } else if i < c {
                        assert(!occurs_at(key@, TAG_MARKER@, i as int));
                    }
                }
            }
            let n: usize = v.len();
            let mut r = string_of(&v, 0, i);
            assert(i + tag@.len() <= n);
            let rest = string_of(&v, i + tag.len(), n);
            assert(r@ =~= key@.take(i as int));
            assert(rest@ =~= key@.skip(i + tag@.len()));
            r.append("🏷 tags » ");
            r.append(rest.as_str());
            r
        },
        None => key.to_owned(),
    }
}

// ---------------------------------------------------------------------------
// Sorting and filtering
// ---------------------------------------------------------------------------

/// The metric that a sort order selects from count, total and average.
pub open spec fn metric(sort: Sort, m: (u64, u64, u64)) -> (u64, u64) {
    match sort {
        Sort::Count => (m.0, 0u64),
        Sort::TotalMem => (m.1, 0u64),
        Sort::AvgMem => (m.2, 0u64),
    }
}

/// The selected metric of each row.
pub open spec fn metrics(sort: Sort, m: Seq<(u64, u64, u64)>) -> Seq<(u64, u64)> {
    Seq::new(m.len(), |i: int| metric(sort, m[i]))
}

/// Sort rows descending by the metric the current `sort` selects; equal rows
/// keep their order. `keys` holds count, total and average of each row.
pub fn sort_rows<T>(rows: Vec<T>, sort: Sort, keys: &Vec<(u64, u64, u64)>) -> (r: Vec<T>)
    requires
        rows@.len() == keys@.len(),
    ensures
        r@ == descending(metrics(sort, keys@)).map_values(|k: usize| rows@[k as int]),
        r@.len() == rows@.len(),
{
    let mut m: Vec<(u64, u64)> = Vec::new();
    let mut i: usize = 0;
    while i < keys.len()
        invariant
            0 <= i <= keys@.len(),
            m@ == metrics(sort, keys@).take(i as int),
        decreases keys@.len() - i,
    {
        let (count, total, avg): (u64, u64, u64) = keys[i];
        m.push(
            match sort {
                Sort::Count => (count, 0),
                Sort::TotalMem => (total, 0),
                Sort::AvgMem => (avg, 0),
            },
        );
        i = i + 1;
        assert(m@ =~= metrics(sort, keys@).take(i as int));
    }
    assert(m@ =~= metrics(sort, keys@));
    let o = sort_descending(&m);
    permute(rows, &o)
}

/// The positions below `n` that satisfy `p`, in ascending order.
pub open spec fn picks(n: nat, p: spec_fn(int) -> bool) -> Seq<int>
    decreases n,
{
    if n == 0 {
        Seq::empty()
    } else if p(n - 1) {
        picks((n - 1) as nat, p).push(n - 1)
    } else {
        picks((n - 1) as nat, p)
    }
}

/// Picked positions are in range and satisfy the predicate, and every position
/// that does is picked.
pub proof fn picks_are_right(n: nat, p: spec_fn(int) -> bool)
    ensures
        picks(n, p).len() <= n,
        forall|i: int|
            0 <= i < picks(n, p).len() ==> 0 <= #[trigger] picks(n, p)[i] < n && p(picks(n, p)[i]),
        forall|k: int| 0 <= k < n && #[trigger] p(k) ==> picks(n, p).contains(k),
    decreases n,
{
    if n > 0 {
        let m = (n - 1) as nat;
        picks_are_right(m, p);
        assert forall|k: int| 0 <= k < n && #[trigger] p(k) implies picks(n, p).contains(k) by {
            if k == n - 1 {
                assert(picks(n, p).last() == k);
            } else {
                assert(picks(m, p).contains(k));
                let i = choose|i: int| 0 <= i < picks(m, p).len() && picks(m, p)[i] == k;
                assert(picks(n, p)[i] == k);
            }
        }
    }
}

/// A namespace row ready for display.
#[derive(Debug)]
pub struct NsRow {
    pub name: String,
    pub keys: u64,
    pub bytes: u64,
}

/// A namespace passes the filter: case does not matter.
pub open spec fn ns_passes(stats: Stats, filter: Seq<char>) -> spec_fn(int) -> bool {
    |i: int|
        lowercase(filter).len() == 0 || contains(
            lowercase(stats.namespaces.listing()[i].name@),
            lowercase(filter),
        )
}

/// The namespaces that pass the filter, in name order.
pub open spec fn ns_picks(stats: Stats, filter: Seq<char>) -> Seq<int> {
    picks(stats.namespaces.listing().len(), ns_passes(stats, filter))
}

/// Keys and bytes of a namespace, as sort keys.
pub open spec fn ns_key(e: Entry<NameMap<TypeStat>>) -> (u64, u64, u64) {
    let count = by_ns_count()(e.value) as u64;
    let bytes = by_ns_bytes()(e.value) as u64;
    (count, bytes, bytes)
}

/// The sort keys of the namespaces that pass the filter.
pub open spec fn ns_keys(stats: Stats, filter: Seq<char>) -> Seq<(u64, u64, u64)> {
    let p = ns_picks(stats, filter);
    Seq::new(p.len(), |i: int| ns_key(stats.namespaces.listing()[p[i]]))
}

/// The namespaces as they are shown, by their position in name order.
pub open spec fn shown_ns(stats: Stats, filter: Seq<char>, sort: Sort) -> Seq<int> {
    descending(metrics(sort, ns_keys(stats, filter))).map_values(
        |k: usize| ns_picks(stats, filter)[k as int],
    )
}

/// `r` shows namespace `e`.
pub open spec fn is_ns_row(r: NsRow, e: Entry<NameMap<TypeStat>>) -> bool {
    &&& r.name@ == e.name@
    &&& r.keys == by_ns_count()(e.value)
    &&& r.bytes == by_ns_bytes()(e.value)
}

/// Every position that is shown is one of the picked ones.
pub proof fn shown_ns_in_range(stats: Stats, filter: Seq<char>, sort: Sort)
    requires
        stats.namespaces.listing().len() <= usize::MAX,
    ensures
        shown_ns(stats, filter, sort).len() == ns_picks(stats, filter).len(),
        forall|i: int|
            0 <= i < shown_ns(stats, filter, sort).len() ==> 0 <= #[trigger] shown_ns(
                stats,
                filter,
                sort,
            )[i] < stats.namespaces.listing().len(),
{
    let p = ns_picks(stats, filter);
    picks_are_right(stats.namespaces.listing().len(), ns_passes(stats, filter));
    crate::order::descending_is_complete(metrics(sort, ns_keys(stats, filter)));
    let o = descending(metrics(sort, ns_keys(stats, filter)));
    assert forall|i: int| 0 <= i < shown_ns(stats, filter, sort).len() implies 0
        <= #[trigger] shown_ns(stats, filter, sort)[i] < stats.namespaces.listing().len() by {
        assert(o[i] < p.len());
        assert(0 <= p[o[i] as int] < stats.namespaces.listing().len());
    }
}


/// The namespaces that pass `filter`, sorted.
pub fn filtered_namespaces(stats: &Stats, filter: &str, sort: Sort) -> (r: Vec<NsRow>)
    requires
        stats.wf(),
    ensures
        r@.len() == shown_ns(*stats, filter@, sort).len(),
        forall|i: int|
            0 <= i < r@.len() ==> is_ns_row(
                #[trigger] r@[i],
                stats.namespaces.listing()[shown_ns(*stats, filter@, sort)[i]],
            ),
        filter@.len() == 0 ==> r@.len() == stats.namespaces.listing().len(),
        lists_namespaces(*stats, filter@, sort, r@),
{
    let ghost s = stats.namespaces.listing();
    let ghost p = ns_passes(*stats, filter@);
    let f = to_lowercase(filter);
    let all = chars_of(f.as_str()).len() == 0;
    let mut rows: Vec<NsRow> = Vec::new();
    let mut keys: Vec<(u64, u64, u64)> = Vec::new();
    let mut i: usize = 0;
    while i < stats.namespaces.len()
        invariant
            0 <= i <= s.len(),
            s == stats.namespaces.listing(),
            stats.wf(),
            p == ns_passes(*stats, filter@),
            f@ == lowercase(filter@),
            all == (f@.len() == 0),
            rows@.len() == picks(i as nat, p).len(),
            keys@.len() == rows@.len(),
            forall|k: int|
                0 <= k < rows@.len() ==> is_ns_row(#[trigger] rows@[k], s[picks(i as nat, p)[k]]),
            forall|k: int|
                0 <= k < keys@.len() ==> #[trigger] keys@[k] == ns_key(s[picks(i as nat, p)[k]]),
        decreases s.len() - i,
    {
        let e = stats.namespaces.at(i);
        if all || contains_text(to_lowercase(e.name.as_str()).as_str(), f.as_str()) {
            assert(p(i as int));
            proof {
                weigh_one(s, i as int, by_ns_count());
                weigh_one(s, i as int, by_ns_bytes());
            }
            let count = count_of(&e.value);
            let bytes = bytes_of(&e.value);
            rows.push(NsRow { name: e.name.clone(), keys: count, bytes });
            keys.push((count, bytes, bytes));
        } else {
            assert(!p(i as int));
        }
        i = i + 1;
    }
    assert(keys@ =~= ns_keys(*stats, filter@));
    let r = sort_rows(rows, sort, &keys);
    proof {
        shown_ns_in_range(*stats, filter@, sort);
        assert(ns_keys(*stats, filter@).len() == keys.len());
        if filter@.len() == 0 {
            all_picked(s.len(), p);
        }
        crate::order::descending_is_complete(metrics(sort, ns_keys(*stats, filter@)));
        namespaces_are_listed(*stats, filter@, sort, r@);
    }
    r
}

/// `a` stands above `b` in a listing of namespaces: it has more keys, or more
/// memory when sorting by memory, or as much and comes first by name.
pub open spec fn ns_above(sort: Sort, a: NsRow, b: NsRow) -> bool {
    let (x, y) = match sort {
        Sort::Count => (a.keys, b.keys),
        _ => (a.bytes, b.bytes),
    };
    x > y || (x == y && lex_lt(a.name@, b.name@))
}

/// `rows` lists the namespaces whose name matches the filter, each once with
/// its own figures, ordered by the selected figure.
pub open spec fn lists_namespaces(
    stats: Stats,
    filter: Seq<char>,
    sort: Sort,
    rows: Seq<NsRow>,
) -> bool {
    &&& forall|i: int, j: int|
        #![trigger rows[i], rows[j]]
        0 <= i < j < rows.len() ==> ns_above(sort, rows[i], rows[j])
    &&& forall|i: int|
        #![trigger rows[i]]
        0 <= i < rows.len() ==> {
            let r = rows[i];
            &&& stats.namespaces@.contains_key(r.name@)
            &&& lowercase(filter).len() == 0 || matches_filter(r.name@, filter)
            &&& r.keys == stats.keys_under(r.name@)
            &&& r.bytes == stats.bytes_under(r.name@)
        }
    &&& forall|name: Seq<char>|
        #![trigger stats.namespaces@.contains_key(name)]
        stats.namespaces@.contains_key(name) && (lowercase(filter).len() == 0 || matches_filter(
            name,
            filter,
        )) ==> exists|i: int| 0 <= i < rows.len() && (#[trigger] rows[i]).name@ == name
}

/// The rows shown list the namespaces: what is shown, with which figures and in
/// which order.
pub proof fn namespaces_are_listed(
    stats: Stats,
    filter: Seq<char>,
    sort: Sort,
    rows: Seq<NsRow>,
)
    requires
        stats.wf(),
        stats.namespaces.listing().len() <= usize::MAX,
        rows.len() == shown_ns(stats, filter, sort).len(),
        forall|i: int|
            0 <= i < rows.len() ==> is_ns_row(
                #[trigger] rows[i],
                stats.namespaces.listing()[shown_ns(stats, filter, sort)[i]],
            ),
    ensures
        lists_namespaces(stats, filter, sort, rows),
{
    let s = stats.namespaces.listing();
    let p = ns_picks(stats, filter);
    let k = metrics(sort, ns_keys(stats, filter));
    let o = descending(k);
    let at = shown_ns(stats, filter, sort);
    picks_are_right(s.len(), ns_passes(stats, filter));
    picks_ascend(s.len(), ns_passes(stats, filter));
    crate::order::descending_is_complete(k);
    shown_ns_in_range(stats, filter, sort);
    assert forall|i: int, j: int|
        #![trigger rows[i], rows[j]]
        0 <= i < j < rows.len() implies ns_above(sort, rows[i], rows[j]) by {
        crate::order::descending_descends(k, i, j);
        assert(o[i] < p.len() && o[j] < p.len());
        assert(is_ns_row(rows[i], s[at[i]]) && is_ns_row(rows[j], s[at[j]]));
        if k[o[i] as int] == k[o[j] as int] {
            assert(p[o[i] as int] < p[o[j] as int]);
            assert(lex_lt(s[at[i]].name@, s[at[j]].name@));
        }
    }
    assert forall|i: int| #![trigger rows[i]] 0 <= i < rows.len() implies {
        &&& stats.namespaces@.contains_key(rows[i].name@)
        &&& stats.namespaces@[rows[i].name@] == s[at[i]].value
        &&& ns_passes(stats, filter)(at[i])
    } by {
        assert(is_ns_row(rows[i], s[at[i]]));
        assert(o[i] < p.len());
        assert(ns_passes(stats, filter)(p[o[i] as int]));
        crate::names::position_is_unique(s, at[i]);
    }
    assert forall|name: Seq<char>|
        #![trigger stats.namespaces@.contains_key(name)]
        stats.namespaces@.contains_key(name) && (lowercase(filter).len() == 0 || matches_filter(
            name,
            filter,
        )) implies exists|i: int| 0 <= i < rows.len() && (#[trigger] rows[i]).name@ == name by {
        let q = crate::names::position_of(s, name);
        assert(0 <= q < s.len() && s[q].name@ == name);
        assert(ns_passes(stats, filter)(q));
        assert(p.contains(q));
        let a = choose|a: int| 0 <= a < p.len() && p[a] == q;
        assert(o.contains(a as usize));
        let i = choose|i: int| 0 <= i < o.len() && o[i] == a as usize;
        assert(is_ns_row(rows[i], s[at[i]]));
        assert(rows[i].name@ == name);
    }
}

/// What passes everywhere picks every position.
proof fn all_picked(n: nat, p: spec_fn(int) -> bool)
    requires
        forall|i: int| 0 <= i < n ==> #[trigger] p(i),
    ensures
        picks(n, p) == Seq::new(n, |i: int| i),
    decreases n,
{
    if n > 0 {
        assert(p(n - 1));
        all_picked((n - 1) as nat, p);
    }
    assert(picks(n, p) =~= Seq::new(n, |i: int| i));
}

/// A type row within a namespace.
#[derive(Debug)]
pub struct TypeRow {
    pub name: String,
    pub keys: u64,
    pub total_bytes: u64,
    pub avg_bytes: u64,
    pub data_types: String,
    pub persistent: u64,
    pub expiring: u64,
}

/// A type passes the filter by its stored or its shown name; case does not
/// matter.
pub open spec fn type_passes(m: NameMap<TypeStat>, filter: Seq<char>) -> spec_fn(int) -> bool {
    |i: int|
        {
            let name = m.listing()[i].name@;
            ||| lowercase(filter).len() == 0
            ||| contains(lowercase(name), lowercase(filter))
            ||| contains(lowercase(shown_type(name)), lowercase(filter))
        }
}

/// The types that pass the filter, in name order.
pub open spec fn type_picks(m: NameMap<TypeStat>, filter: Seq<char>) -> Seq<int> {
    picks(m.listing().len(), type_passes(m, filter))
}

/// Count, total and average of a type, as sort keys.
pub open spec fn type_key(e: Entry<TypeStat>) -> (u64, u64, u64) {
    (e.value.count, e.value.total_bytes, avg_of(e.value))
}

/// The sort keys of the types that pass the filter.
pub open spec fn type_keys(m: NameMap<TypeStat>, filter: Seq<char>) -> Seq<(u64, u64, u64)> {
    let p = type_picks(m, filter);
    Seq::new(p.len(), |i: int| type_key(m.listing()[p[i]]))
}

/// The types as they are shown, by their position in name order.
pub open spec fn shown_types(m: NameMap<TypeStat>, filter: Seq<char>, sort: Sort) -> Seq<int> {
    descending(metrics(sort, type_keys(m, filter))).map_values(
        |k: usize| type_picks(m, filter)[k as int],
    )
}

/// `r` shows type `e`.
pub open spec fn is_type_row(r: TypeRow, e: Entry<TypeStat>) -> bool {
    &&& r.name@ == e.name@
    &&& r.keys == e.value.count
    &&& r.total_bytes == e.value.total_bytes
    &&& r.avg_bytes == avg_of(e.value)
    &&& r.data_types@ == data_types_text(e.value.data_types.listing())
    &&& r.persistent == e.value.persistent
    &&& r.expiring == e.value.expiring
}

/// Every position that is shown is one of the picked ones.
pub proof fn shown_types_in_range(m: NameMap<TypeStat>, filter: Seq<char>, sort: Sort)
    requires
        m.listing().len() <= usize::MAX,
    ensures
        shown_types(m, filter, sort).len() == type_picks(m, filter).len(),
        forall|i: int|
            0 <= i < shown_types(m, filter, sort).len() ==> 0 <= #[trigger] shown_types(
                m,
                filter,
                sort,
            )[i] < m.listing().len(),
{
    let p = type_picks(m, filter);
    picks_are_right(m.listing().len(), type_passes(m, filter));
    crate::order::descending_is_complete(metrics(sort, type_keys(m, filter)));
    let o = descending(metrics(sort, type_keys(m, filter)));
    assert forall|i: int| 0 <= i < shown_types(m, filter, sort).len() implies 0
        <= #[trigger] shown_types(m, filter, sort)[i] < m.listing().len() by {
        assert(o[i] < p.len());
        assert(0 <= p[o[i] as int] < m.listing().len());
    }
}

/// The types of `m` that pass `filter`, sorted.
fn types_of(m: &NameMap<TypeStat>, filter: &str, sort: Sort) -> (r: Vec<TypeRow>)
    ensures
        r@.len() == shown_types(*m, filter@, sort).len(),
        forall|i: int|
            0 <= i < r@.len() ==> is_type_row(
                #[trigger] r@[i],
                m.listing()[shown_types(*m, filter@, sort)[i]],
            ),
        filter@.len() == 0 ==> r@.len() == m.listing().len(),
        m.wf() ==> lists_types(*m, filter@, sort, r@),
{
    let ghost s = m.listing();
    let ghost p = type_passes(*m, filter@);
    let f = to_lowercase(filter);
    let all = chars_of(f.as_str()).len() == 0;
    let mut rows: Vec<TypeRow> = Vec::new();
    let mut keys: Vec<(u64, u64, u64)> = Vec::new();
    let mut i: usize = 0;
    let n: usize = m.len();
    while i < n
        invariant
            0 <= i <= n,
            n == s.len(),
            s == m.listing(),
            p == type_passes(*m, filter@),
            f@ == lowercase(filter@),
            all == (f@.len() == 0),
            rows@.len() == picks(i as nat, p).len(),
            keys@.len() == rows@.len(),
            forall|k: int|
                0 <= k < rows@.len() ==> is_type_row(#[trigger] rows@[k], s[picks(i as nat, p)[k]]),
            forall|k: int|
                0 <= k < keys@.len() ==> #[trigger] keys@[k] == type_key(s[picks(i as nat, p)[k]]),
        decreases n - i,
    {
        let e = m.at(i);
        if all || contains_text(to_lowercase(e.name.as_str()).as_str(), f.as_str())
            || contains_text(
            to_lowercase(display_type(e.name.as_str()).as_str()).as_str(),
            f.as_str(),
        ) {
            assert(p(i as int));
            let avg = e.value.avg_bytes();
            rows.push(
                TypeRow {
                    name: e.name.clone(),
                    keys: e.value.count,
                    total_bytes: e.value.total_bytes,
                    avg_bytes: avg,
                    data_types: data_types_str(&e.value),
                    persistent: e.value.persistent,
                    expiring: e.value.expiring,
                },
            );
            keys.push((e.value.count, e.value.total_bytes, avg));
        } else {
            assert(!p(i as int));
        }
        i = i + 1;
    }
    assert(keys@ =~= type_keys(*m, filter@));
    let r = sort_rows(rows, sort, &keys);
    proof {
        shown_types_in_range(*m, filter@, sort);
        assert(type_keys(*m, filter@).len() == keys.len());
        if filter@.len() == 0 {
            all_picked(s.len(), p);
        }
        crate::order::descending_is_complete(metrics(sort, type_keys(*m, filter@)));
        if m.wf() {
            types_are_listed(*m, filter@, sort, r@);
        }
    }
    r
}

/// The types of a namespace as they are shown, none for an unknown namespace.
pub open spec fn ns_types(stats: Stats, ns: Seq<char>, filter: Seq<char>, sort: Sort) -> Seq<
    Entry<TypeStat>,
> {
    if stats.namespaces@.contains_key(ns) {
        let m = stats.namespaces@[ns];
        shown_types(m, filter, sort).map_values(|k: int| m.listing()[k])
    } else {
        Seq::empty()
    }
}

/// The types of namespace `ns` that pass `filter`, sorted.
pub fn filtered_types(stats: &Stats, ns: &str, filter: &str, sort: Sort) -> (r: Vec<TypeRow>)
    requires
        stats.wf(),
    ensures
        r@.len() == ns_types(*stats, ns@, filter@, sort).len(),
        forall|i: int|
            0 <= i < r@.len() ==> is_type_row(
                #[trigger] r@[i],
                ns_types(*stats, ns@, filter@, sort)[i],
            ),
        filter@.len() == 0 && stats.namespaces@.contains_key(ns@) ==> r@.len()
            == stats.namespaces@[ns@].listing().len(),
        stats.namespaces@.contains_key(ns@) ==> lists_types(
            stats.namespaces@[ns@],
            filter@,
            sort,
            r@,
        ),
        !stats.namespaces@.contains_key(ns@) ==> r@.len() == 0,
{
    match stats.namespaces.get(ns) {
        Some(m) => {
            proof {
                let at = crate::names::position_of(stats.namespaces.listing(), ns@);
                assert(*m == stats.namespaces.listing()[at].value);
                assert(crate::stats::namespace_wf(stats.namespaces.listing()[at].value));
            }
            types_of(m, filter, sort)
        },
        None => Vec::new(),
    }
}

/// `a` stands above `b` in a listing of types: the figure that `sort` selects is
/// larger, or it is equal and `a` comes first by name.
pub open spec fn type_above(sort: Sort, a: TypeRow, b: TypeRow) -> bool {
    let (x, y) = match sort {
        Sort::Count => (a.keys, b.keys),
        Sort::TotalMem => (a.total_bytes, b.total_bytes),
        Sort::AvgMem => (a.avg_bytes, b.avg_bytes),
    };
    x > y || (x == y && lex_lt(a.name@, b.name@))
}

/// The text matches the filter, whatever the case.
pub open spec fn matches_filter(text: Seq<char>, filter: Seq<char>) -> bool {
    contains(lowercase(text), lowercase(filter))
}

/// `rows` lists the types of `m`: those whose stored or shown name matches the
/// filter, each once with its own figures, ordered by the selected figure.
pub open spec fn lists_types(
    m: NameMap<TypeStat>,
    filter: Seq<char>,
    sort: Sort,
    rows: Seq<TypeRow>,
) -> bool {
    &&& forall|i: int, j: int|
        #![trigger rows[i], rows[j]]
        0 <= i < j < rows.len() ==> type_above(sort, rows[i], rows[j])
    &&& forall|i: int|
        #![trigger rows[i]]
        0 <= i < rows.len() ==> {
            let r = rows[i];
            let t = m@[r.name@];
            &&& m@.contains_key(r.name@)
            &&& lowercase(filter).len() == 0 || matches_filter(r.name@, filter) || matches_filter(
                shown_type(r.name@),
                filter,
            )
            &&& r.keys == t.count
            &&& r.total_bytes == t.total_bytes
            &&& r.avg_bytes == (if t.measured == 0 {
                0
            } else {
                t.total_bytes as int / t.measured as int
            })
            &&& r.persistent == t.persistent
            &&& r.expiring == t.expiring
        }
    &&& forall|name: Seq<char>|
        #![trigger m@.contains_key(name)]
        m@.contains_key(name) && (lowercase(filter).len() == 0 || matches_filter(name, filter)
            || matches_filter(shown_type(name), filter)) ==> exists|i: int|
            0 <= i < rows.len() && (#[trigger] rows[i]).name@ == name
}

/// The rows shown list the types: what is shown, with which figures and in
/// which order.
pub proof fn types_are_listed(
    m: NameMap<TypeStat>,
    filter: Seq<char>,
    sort: Sort,
    rows: Seq<TypeRow>,
)
    requires
        m.wf(),
        m.listing().len() <= usize::MAX,
        rows.len() == shown_types(m, filter, sort).len(),
        forall|i: int|
            0 <= i < rows.len() ==> is_type_row(
                #[trigger] rows[i],
                m.listing()[shown_types(m, filter, sort)[i]],
            ),
    ensures
        lists_types(m, filter, sort, rows),
{
    let s = m.listing();
    let p = type_picks(m, filter);
    let k = metrics(sort, type_keys(m, filter));
    let o = descending(k);
    let at = shown_types(m, filter, sort);
    picks_are_right(s.len(), type_passes(m, filter));
    picks_ascend(s.len(), type_passes(m, filter));
    crate::order::descending_is_complete(k);
    shown_types_in_range(m, filter, sort);
    assert forall|i: int, j: int|
        #![trigger rows[i], rows[j]]
        0 <= i < j < rows.len() implies type_above(sort, rows[i], rows[j]) by {
        crate::order::descending_descends(k, i, j);
        assert(o[i] < p.len() && o[j] < p.len());
        assert(is_type_row(rows[i], s[at[i]]) && is_type_row(rows[j], s[at[j]]));
        if k[o[i] as int] == k[o[j] as int] {
            assert(p[o[i] as int] < p[o[j] as int]);
            assert(lex_lt(s[at[i]].name@, s[at[j]].name@));
        }
    }
    assert forall|i: int| #![trigger rows[i]] 0 <= i < rows.len() implies {
        &&& m@.contains_key(rows[i].name@)
        &&& m@[rows[i].name@] == s[at[i]].value
        &&& type_passes(m, filter)(at[i])
    } by {
        assert(is_type_row(rows[i], s[at[i]]));
        assert(o[i] < p.len());
        assert(type_passes(m, filter)(p[o[i] as int]));
        crate::names::position_is_unique(s, at[i]);
    }
    assert forall|name: Seq<char>|
        #![trigger m@.contains_key(name)]
        m@.contains_key(name) && (lowercase(filter).len() == 0 || matches_filter(name, filter)
            || matches_filter(shown_type(name), filter)) implies exists|i: int|
        0 <= i < rows.len() && (#[trigger] rows[i]).name@ == name by {
        let q = crate::names::position_of(s, name);
        assert(0 <= q < s.len() && s[q].name@ == name);
        assert(type_passes(m, filter)(q));
        assert(p.contains(q));
        let a = choose|a: int| 0 <= a < p.len() && p[a] == q;
        assert(o.contains(a as usize));
        let i = choose|i: int| 0 <= i < o.len() && o[i] == a as usize;
        assert(is_type_row(rows[i], s[at[i]]));
        assert(rows[i].name@ == name);
    }
}

/// Picked positions ascend.
proof fn picks_ascend(n: nat, p: spec_fn(int) -> bool)
    ensures
        forall|i: int, j: int|
            #![trigger picks(n, p)[i], picks(n, p)[j]]
            0 <= i < j < picks(n, p).len() ==> picks(n, p)[i] < picks(n, p)[j],
    decreases n,
{
    if n > 0 {
        picks_ascend((n - 1) as nat, p);
        picks_are_right((n - 1) as nat, p);
        let a = picks((n - 1) as nat, p);
        let b = picks(n, p);
        assert forall|i: int, j: int| #![trigger b[i], b[j]] 0 <= i < j < b.len() implies b[i]
            < b[j] by {
            if j < a.len() {
                assert(b[i] == a[i] && b[j] == a[j]);
            } else {
                assert(b[i] == a[i]);
            }
        }
    }
}


// ---------------------------------------------------------------------------
// Persistent keys
// ---------------------------------------------------------------------------

/// A type that holds keys without a TTL, and how much memory they take.
#[derive(Debug)]
pub struct PersistRow {
    pub namespace: String,
    pub key_type: String,
    pub keys: u64,
    pub bytes: u64,
}

/// A type of a namespace, by their positions in name order.
pub open spec fn type_at(stats: Stats, at: (int, int)) -> Entry<TypeStat> {
    stats.namespaces.listing()[at.0].value.listing()[at.1]
}

/// The first `k` types of namespace `ns` that hold persistent keys.
pub open spec fn persistent_in(m: NameMap<TypeStat>, ns: int, k: nat) -> Seq<(int, int)>
    decreases k,
{
    if k == 0 {
        Seq::empty()
    } else if m.listing()[k - 1].value.persistent > 0 {
        persistent_in(m, ns, (k - 1) as nat).push((ns, k - 1))
    } else {
        persistent_in(m, ns, (k - 1) as nat)
    }
}

/// The types of the first `k` namespaces that hold persistent keys.
pub open spec fn persistent_all(stats: Stats, k: nat) -> Seq<(int, int)>
    decreases k,
{
    if k == 0 {
        Seq::empty()
    } else {
        let m = stats.namespaces.listing()[k - 1].value;
        persistent_all(stats, (k - 1) as nat) + persistent_in(m, k - 1, m.listing().len())
    }
}

/// Memory and number of the persistent keys of each such type.
pub open spec fn persistent_metrics(stats: Stats, all: Seq<(int, int)>) -> Seq<(u64, u64)> {
    Seq::new(
        all.len(),
        |i: int|
            {
                let t = type_at(stats, all[i]).value;
                (t.persistent_bytes, t.persistent)
            },
    )
}

/// The types that hold persistent keys, those that hold most memory first.
pub open spec fn shown_persistent(stats: Stats) -> Seq<(int, int)> {
    let all = persistent_all(stats, stats.namespaces.listing().len());
    descending(persistent_metrics(stats, all)).map_values(|k: usize| all[k as int])
}

/// `r` shows the type at `at`.
pub open spec fn is_persist_row(r: PersistRow, stats: Stats, at: (int, int)) -> bool {
    &&& r.namespace@ == stats.namespaces.listing()[at.0].name@
    &&& r.key_type@ == type_at(stats, at).name@
    &&& r.keys == type_at(stats, at).value.persistent
    &&& r.bytes == type_at(stats, at).value.persistent_bytes
}

/// Every namespace and type that holds persistent keys, sorted by the memory
/// that expiry cannot free.
pub fn persistent_rows(stats: &Stats) -> (r: Vec<PersistRow>)
    ensures
        r@.len() == shown_persistent(*stats).len(),
        forall|i: int|
            0 <= i < r@.len() ==> is_persist_row(
                #[trigger] r@[i],
                *stats,
                shown_persistent(*stats)[i],
            ),
        stats.wf() ==> lists_persistent(*stats, r@),
{
    let ghost s = stats.namespaces.listing();
    let mut rows: Vec<PersistRow> = Vec::new();
    let mut keys: Vec<(u64, u64)> = Vec::new();
    let mut a: usize = 0;
    while a < stats.namespaces.len()
        invariant
            0 <= a <= s.len(),
            s == stats.namespaces.listing(),
            rows@.len() == persistent_all(*stats, a as nat).len(),
            forall|k: int|
                0 <= k < rows@.len() ==> is_persist_row(
                    #[trigger] rows@[k],
                    *stats,
                    persistent_all(*stats, a as nat)[k],
                ),
            keys@ == persistent_metrics(*stats, persistent_all(*stats, a as nat)),
        decreases s.len() - a,
    {
        let e = stats.namespaces.at(a);
        let ghost before = persistent_all(*stats, a as nat);
        let mut b: usize = 0;
        assert(before + persistent_in(e.value, a as int, 0) =~= before);
        while b < e.value.len()
            invariant
                0 <= a < s.len(),
                s == stats.namespaces.listing(),
                *e == s[a as int],
                0 <= b <= e.value.listing().len(),
                before == persistent_all(*stats, a as nat),
                rows@.len() == (before + persistent_in(e.value, a as int, b as nat)).len(),
                forall|k: int|
                    0 <= k < rows@.len() ==> is_persist_row(
                        #[trigger] rows@[k],
                        *stats,
                        (before + persistent_in(e.value, a as int, b as nat))[k],
                    ),
                keys@ == persistent_metrics(
                    *stats,
                    before + persistent_in(e.value, a as int, b as nat),
                ),
            decreases e.value.listing().len() - b,
        {
            let t = e.value.at(b);
            let ghost so_far = before + persistent_in(e.value, a as int, b as nat);
            let ghost rows_before = rows@;
            if t.value.persistent > 0 {
                rows.push(
                    PersistRow {
                        namespace: e.name.clone(),
                        key_type: t.name.clone(),
                        keys: t.value.persistent,
                        bytes: t.value.persistent_bytes,
                    },
                );
                keys.push((t.value.persistent_bytes, t.value.persistent));
                proof {
                    let now = before + persistent_in(e.value, a as int, (b + 1) as nat);
                    assert(now =~= so_far.push((a as int, b as int)));
                    assert forall|k: int| 0 <= k < rows@.len() implies is_persist_row(
                        #[trigger] rows@[k],
                        *stats,
                        now[k],
                    ) by {
                        if k < rows_before.len() {
                            assert(rows@[k] == rows_before[k]);
                        }
                    }
                    assert(keys@ =~= persistent_metrics(*stats, now));
                }
            }
            b = b + 1;
        }
        a = a + 1;
    }
    let n: usize = keys.len();
    let o = sort_descending(&keys);
    let ghost unsorted = rows@;
    let r = permute(rows, &o);
    assert forall|i: int| 0 <= i < r@.len() implies is_persist_row(
        #[trigger] r@[i],
        *stats,
        shown_persistent(*stats)[i],
    ) by {
        assert(o@[i] < keys@.len());
        assert(r@[i] == unsorted[o@[i] as int]);
    }
    proof {
        assert(persistent_all(*stats, s.len()).len() == n);
        if stats.wf() {
            persistent_types_are_listed(*stats, r@);
        }
    }
    r
}

/// `a` stands above `b` among the persistent keys: it holds more memory, or as
/// much in more keys, or it comes first by namespace and type.
pub open spec fn persist_above(a: PersistRow, b: PersistRow) -> bool {
    ||| a.bytes > b.bytes
    ||| a.bytes == b.bytes && a.keys > b.keys
    ||| a.bytes == b.bytes && a.keys == b.keys && (lex_lt(a.namespace@, b.namespace@) || (
    a.namespace@ == b.namespace@ && lex_lt(a.key_type@, b.key_type@)))
}

/// `rows` lists every type that holds keys without a TTL, each once with its
/// own figures, those that hold most memory first.
pub open spec fn lists_persistent(stats: Stats, rows: Seq<PersistRow>) -> bool {
    &&& forall|i: int, j: int|
        #![trigger rows[i], rows[j]]
        0 <= i < j < rows.len() ==> persist_above(rows[i], rows[j])
    &&& forall|i: int|
        #![trigger rows[i]]
        0 <= i < rows.len() ==> {
            let r = rows[i];
            let m = stats.namespaces@[r.namespace@];
            &&& stats.namespaces@.contains_key(r.namespace@)
            &&& m@.contains_key(r.key_type@)
            &&& r.keys > 0
            &&& r.keys == m@[r.key_type@].persistent
            &&& r.bytes == m@[r.key_type@].persistent_bytes
        }
    &&& forall|ns: Seq<char>, ty: Seq<char>|
        #![trigger stats.namespaces@[ns]@.contains_key(ty)]
        stats.namespaces@.contains_key(ns) && stats.namespaces@[ns]@.contains_key(ty)
            && stats.namespaces@[ns]@[ty].persistent > 0 ==> exists|i: int|
            0 <= i < rows.len() && (#[trigger] rows[i]).namespace@ == ns && rows[i].key_type@ == ty
}

/// What `persistent_in` lists: in range, with persistent keys, ascending, and
/// all of them.
proof fn persistent_in_is_right(m: NameMap<TypeStat>, ns: int, k: nat)
    requires
        k <= m.listing().len(),
    ensures
        ({
            let s = persistent_in(m, ns, k);
            &&& s.len() <= k
            &&& forall|i: int|
                #![trigger s[i]]
                0 <= i < s.len() ==> s[i].0 == ns && 0 <= s[i].1 < k
                    && m.listing()[s[i].1].value.persistent > 0
            &&& forall|i: int, j: int|
                #![trigger s[i], s[j]]
                0 <= i < j < s.len() ==> s[i].1 < s[j].1
            &&& forall|b: int|
                #![trigger m.listing()[b]]
                0 <= b < k && m.listing()[b].value.persistent > 0 ==> s.contains((ns, b))
        }),
    decreases k,
{
    if k > 0 {
        let p = (k - 1) as nat;
        persistent_in_is_right(m, ns, p);
        let t = persistent_in(m, ns, p);
        let s = persistent_in(m, ns, k);
        assert forall|b: int|
            #![trigger m.listing()[b]]
            0 <= b < k && m.listing()[b].value.persistent > 0 implies s.contains((ns, b)) by {
            if b < p {
                assert(t.contains((ns, b)));
                let i = choose|i: int| 0 <= i < t.len() && t[i] == (ns, b);
                assert(s[i] == (ns, b));
            } else {
                assert(s.last() == (ns, b));
            }
        }
    }
}

/// `a` comes before `b`: by namespace, then by type.
spec fn earlier(a: (int, int), b: (int, int)) -> bool {
    a.0 < b.0 || (a.0 == b.0 && a.1 < b.1)
}

/// A place of a type with persistent keys among the first `k` namespaces.
spec fn holds_persistent(stats: Stats, k: nat, at: (int, int)) -> bool {
    let s = stats.namespaces.listing();
    &&& 0 <= at.0 < k
    &&& 0 <= at.1 < s[at.0].value.listing().len()
    &&& s[at.0].value.listing()[at.1].value.persistent > 0
}

proof fn persistent_all_is_right(stats: Stats, k: nat)
    requires
        k <= stats.namespaces.listing().len(),
    ensures
        ({
            let s = persistent_all(stats, k);
            &&& forall|i: int| 0 <= i < s.len() ==> holds_persistent(stats, k, #[trigger] s[i])
            &&& forall|i: int, j: int|
                #![trigger s[i], s[j]]
                0 <= i < j < s.len() ==> earlier(s[i], s[j])
            &&& forall|at: (int, int)| #[trigger]
                holds_persistent(stats, k, at) ==> s.contains(at)
        }),
    decreases k,
{
    if k > 0 {
        let p = (k - 1) as nat;
        persistent_all_is_right(stats, p);
        let m = stats.namespaces.listing()[k - 1].value;
        persistent_in_is_right(m, k - 1, m.listing().len());
        let a = persistent_all(stats, p);
        let b = persistent_in(m, k - 1, m.listing().len());
        let s = persistent_all(stats, k);
        assert forall|i: int| 0 <= i < s.len() implies holds_persistent(stats, k, #[trigger] s[i]) by {
            if i < a.len() {
                assert(s[i] == a[i]);
                assert(holds_persistent(stats, p, a[i]));
            } else {
                assert(s[i] == b[i - a.len()]);
            }
        }
        assert forall|i: int, j: int| #![trigger s[i], s[j]] 0 <= i < j < s.len() implies earlier(
            s[i],
            s[j],
        ) by {
            if j < a.len() {
                assert(s[i] == a[i] && s[j] == a[j]);
            } else if i < a.len() {
                assert(s[i] == a[i] && s[j] == b[j - a.len()]);
                assert(holds_persistent(stats, p, a[i]));
            } else {
                assert(s[i] == b[i - a.len()] && s[j] == b[j - a.len()]);
            }
        }
        assert forall|at: (int, int)| #[trigger] holds_persistent(stats, k, at) implies s.contains(
            at,
        ) by {
            if at.0 < p {
                assert(holds_persistent(stats, p, at));
                let i = choose|i: int| 0 <= i < a.len() && a[i] == at;
                assert(s[i] == at);
            } else {
                assert(m.listing()[at.1].value.persistent > 0);
                assert(b.contains((k - 1, at.1)));
                let i = choose|i: int| 0 <= i < b.len() && b[i] == (k - 1, at.1);
                assert(s[a.len() + i] == at);
            }
        }
    }
}

/// The rows shown list the types that hold persistent keys: which ones, with
/// which figures and in which order.
pub proof fn persistent_types_are_listed(stats: Stats, rows: Seq<PersistRow>)
    requires
        stats.wf(),
        rows.len() == shown_persistent(stats).len(),
        persistent_all(stats, stats.namespaces.listing().len()).len() <= usize::MAX,
        forall|i: int|
            0 <= i < rows.len() ==> is_persist_row(
                #[trigger] rows[i],
                stats,
                shown_persistent(stats)[i],
            ),
    ensures
        lists_persistent(stats, rows),
{
    let s = stats.namespaces.listing();
    let n = s.len();
    let all = persistent_all(stats, n);
    let k = persistent_metrics(stats, all);
    let o = descending(k);
    let at = shown_persistent(stats);
    persistent_all_is_right(stats, n);
    crate::order::descending_is_complete(k);
    assert forall|i: int| #![trigger rows[i]] 0 <= i < rows.len() implies {
        let m = s[at[i].0].value;
        &&& holds_persistent(stats, n, at[i])
        &&& m.wf()
        &&& stats.namespaces@.contains_key(rows[i].namespace@)
        &&& stats.namespaces@[rows[i].namespace@] == m
        &&& m@.contains_key(rows[i].key_type@)
        &&& m@[rows[i].key_type@] == m.listing()[at[i].1].value
    } by {
        assert(o[i] < all.len());
        assert(at[i] == all[o[i] as int]);
        assert(is_persist_row(rows[i], stats, at[i]));
        crate::names::position_is_unique(s, at[i].0);
        assert(crate::stats::namespace_wf(s[at[i].0].value));
        crate::names::position_is_unique(s[at[i].0].value.listing(), at[i].1);
    }
    assert forall|i: int, j: int|
        #![trigger rows[i], rows[j]]
        0 <= i < j < rows.len() implies persist_above(rows[i], rows[j]) by {
        crate::order::descending_descends(k, i, j);
        assert(o[i] < all.len() && o[j] < all.len());
        assert(is_persist_row(rows[i], stats, at[i]) && is_persist_row(rows[j], stats, at[j]));
        if k[o[i] as int] == k[o[j] as int] {
            assert(earlier(all[o[i] as int], all[o[j] as int]));
            if at[i].0 < at[j].0 {
                assert(lex_lt(s[at[i].0].name@, s[at[j].0].name@));
            } else {
                let t = s[at[i].0].value.listing();
                assert(crate::stats::namespace_wf(s[at[i].0].value));
                assert(lex_lt(t[at[i].1].name@, t[at[j].1].name@));
            }
        }
    }
    assert forall|ns: Seq<char>, ty: Seq<char>|
        #![trigger stats.namespaces@[ns]@.contains_key(ty)]
        stats.namespaces@.contains_key(ns) && stats.namespaces@[ns]@.contains_key(ty)
            && stats.namespaces@[ns]@[ty].persistent > 0 implies exists|i: int|
        0 <= i < rows.len() && (#[trigger] rows[i]).namespace@ == ns && rows[i].key_type@ == ty by {
        let a = crate::names::position_of(s, ns);
        assert(0 <= a < s.len() && s[a].name@ == ns);
        let t = s[a].value.listing();
        let b = crate::names::position_of(t, ty);
        assert(0 <= b < t.len() && t[b].name@ == ty);
        assert(holds_persistent(stats, n, (a, b)));
        let c = choose|c: int| 0 <= c < all.len() && all[c] == (a, b);
        assert(o.contains(c as usize));
        let i = choose|i: int| 0 <= i < o.len() && o[i] == c as usize;
        assert(is_persist_row(rows[i], stats, at[i]));
        assert(rows[i].namespace@ == ns);
    }
}

/// Weighs a type by its persistent keys.
pub open spec fn by_persistent() -> spec_fn(TypeStat) -> nat {
    |t: TypeStat| t.persistent as nat
}

/// Weighs a type by the memory of its persistent keys.
pub open spec fn by_persistent_bytes() -> spec_fn(TypeStat) -> nat {
    |t: TypeStat| t.persistent_bytes as nat
}

/// Weighs a namespace by its persistent keys.
pub open spec fn by_ns_persistent() -> spec_fn(NameMap<TypeStat>) -> nat {
    |m: NameMap<TypeStat>| weigh(m.listing(), by_persistent())
}

/// Weighs a namespace by the memory of its persistent keys.
pub open spec fn by_ns_persistent_bytes() -> spec_fn(NameMap<TypeStat>) -> nat {
    |m: NameMap<TypeStat>| weigh(m.listing(), by_persistent_bytes())
}

/// All persistent keys.
pub open spec fn persistent_keys(stats: Stats) -> nat {
    weigh(stats.namespaces.listing(), by_ns_persistent())
}

/// The memory of all persistent keys.
pub open spec fn persistent_bytes(stats: Stats) -> nat {
    weigh(stats.namespaces.listing(), by_ns_persistent_bytes())
}

/// Persistent keys are part of all keys, and their memory is part of all
/// measured memory.
pub proof fn persistent_is_part(stats: Stats)
    requires
        stats.wf(),
    ensures
        persistent_keys(stats) <= stats.total_keys,
        persistent_bytes(stats) <= stats.measured_bytes,
{
    let s = stats.namespaces.listing();
    assert forall|i: int| 0 <= i < s.len() implies by_ns_persistent()((#[trigger] s[i]).value)
        <= by_ns_count()(s[i].value) by {
        crate::names::weigh_monotone(s[i].value.listing(), by_persistent(), by_count());
    }
    crate::names::weigh_monotone(s, by_ns_persistent(), by_ns_count());
    assert forall|i: int| 0 <= i < s.len() implies by_ns_persistent_bytes()(
        (#[trigger] s[i]).value,
    ) <= by_ns_bytes()(s[i].value) by {
        crate::names::weigh_monotone(s[i].value.listing(), by_persistent_bytes(), by_bytes());
    }
    crate::names::weigh_monotone(s, by_ns_persistent_bytes(), by_ns_bytes());
}

/// The number of all persistent keys, and their memory.
pub fn persistent_totals(stats: &Stats) -> (r: (u64, u64))
    requires
        stats.wf(),
    ensures
        r.0 == persistent_keys(*stats),
        r.1 == persistent_bytes(*stats),
{
    proof {
        persistent_is_part(*stats);
    }
    let ghost s = stats.namespaces.listing();
    let mut keys: u64 = 0;
    let mut bytes: u64 = 0;
    let mut a: usize = 0;
    while a < stats.namespaces.len()
        invariant
            0 <= a <= s.len(),
            s == stats.namespaces.listing(),
            weigh(s, by_ns_persistent()) <= u64::MAX,
            weigh(s, by_ns_persistent_bytes()) <= u64::MAX,
            keys == weigh(s.take(a as int), by_ns_persistent()),
            bytes == weigh(s.take(a as int), by_ns_persistent_bytes()),
        decreases s.len() - a,
    {
        let m = &stats.namespaces.at(a).value;
        let ghost t = m.listing();
        proof {
            crate::names::weigh_part(s, a + 1, by_ns_persistent());
            crate::names::weigh_part(s, a + 1, by_ns_persistent_bytes());
            assert(s.take(a + 1).drop_last() =~= s.take(a as int));
        }
        let mut some_keys: u64 = 0;
        let mut some_bytes: u64 = 0;
        let mut b: usize = 0;
        while b < m.len()
            invariant
                0 <= b <= t.len(),
                t == m.listing(),
                weigh(t, by_persistent()) <= u64::MAX,
                weigh(t, by_persistent_bytes()) <= u64::MAX,
                some_keys == weigh(t.take(b as int), by_persistent()),
                some_bytes == weigh(t.take(b as int), by_persistent_bytes()),
            decreases t.len() - b,
        {
            proof {
                crate::names::weigh_part(t, b + 1, by_persistent());
                crate::names::weigh_part(t, b + 1, by_persistent_bytes());
                assert(t.take(b + 1).drop_last() =~= t.take(b as int));
            }
            some_keys = some_keys + m.at(b).value.persistent;
            some_bytes = some_bytes + m.at(b).value.persistent_bytes;
            b = b + 1;
        }
        assert(t.take(b as int) =~= t);
        keys = keys + some_keys;
        bytes = bytes + some_bytes;
        a = a + 1;
    }
    assert(s.take(a as int) =~= s);
    (keys, bytes)
}


// ---------------------------------------------------------------------------
// Laws
// ---------------------------------------------------------------------------

/// Only the lower-case form of a filter counts.
pub proof fn filter_ignores_case(stats: Stats, m: NameMap<TypeStat>, f: Seq<char>, g: Seq<char>)
    requires
        lowercase(f) == lowercase(g),
    ensures
        ns_picks(stats, f) == ns_picks(stats, g),
        type_picks(m, f) == type_picks(m, g),
{
    same_picks(stats.namespaces.listing().len(), ns_passes(stats, f), ns_passes(stats, g));
    same_picks(m.listing().len(), type_passes(m, f), type_passes(m, g));
}

proof fn same_picks(n: nat, p: spec_fn(int) -> bool, q: spec_fn(int) -> bool)
    requires
        forall|i: int| #[trigger] p(i) == q(i),
    ensures
        picks(n, p) == picks(n, q),
    decreases n,
{
    if n > 0 {
        same_picks((n - 1) as nat, p, q);
        assert(p(n - 1) == q(n - 1));
    }
}

/// Namespaces are shown with the selected metric in descending order.
pub proof fn namespaces_descend(stats: Stats, filter: Seq<char>, sort: Sort, i: int, j: int)
    requires
        stats.namespaces.listing().len() <= usize::MAX,
        0 <= i < j < shown_ns(stats, filter, sort).len(),
    ensures
        metric(sort, ns_key(stats.namespaces.listing()[shown_ns(stats, filter, sort)[i]])).0
            >= metric(sort, ns_key(stats.namespaces.listing()[shown_ns(stats, filter, sort)[j]])).0,
{
    let m = metrics(sort, ns_keys(stats, filter));
    picks_are_right(stats.namespaces.listing().len(), ns_passes(stats, filter));
    crate::order::descending_is_complete(m);
    crate::order::descending_descends(m, i, j);
    let o = descending(m);
    assert(o[i] < m.len() && o[j] < m.len());
}

/// Types are shown with the selected metric in descending order.
pub proof fn types_descend(m: NameMap<TypeStat>, filter: Seq<char>, sort: Sort, i: int, j: int)
    requires
        m.listing().len() <= usize::MAX,
        0 <= i < j < shown_types(m, filter, sort).len(),
    ensures
        metric(sort, type_key(m.listing()[shown_types(m, filter, sort)[i]])).0 >= metric(
            sort,
            type_key(m.listing()[shown_types(m, filter, sort)[j]]),
        ).0,
{
    let k = metrics(sort, type_keys(m, filter));
    picks_are_right(m.listing().len(), type_passes(m, filter));
    crate::order::descending_is_complete(k);
    crate::order::descending_descends(k, i, j);
    let o = descending(k);
    assert(o[i] < k.len() && o[j] < k.len());
}

} // verus!
