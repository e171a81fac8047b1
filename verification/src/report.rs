//! Rendering of aggregated stats as terminal tables or a Markdown document.

use crate::binary64::{pct, pct_text};
use crate::leaderboard::{in_display_order, BigKey};
use crate::names::{weigh, weigh_one, Entry, NameMap};
use crate::order::{descending, sort_descending};
use crate::stats::{by_count, by_ns_bytes, by_ns_count, bytes_of, count_of, Stats, TypeStat};
use crate::text::{chars_of, contains, dec, decimal, join, joined, occurs_at, starts_with, texts};
use crate::value::{hex_of, hex_text};
use vstd::prelude::*;

verus! {

/// What a report shows.
#[derive(Debug, Clone, Copy)]
pub struct ReportOptions {
    pub show_memory: bool,
    pub show_types: bool,
    pub show_ttl: bool,
    /// Only print the top N types per namespace (0 = all).
    pub top: usize,
    /// How many biggest keys to list (0 = section omitted).
    pub biggest: usize,
}

// ---------------------------------------------------------------------------
// Sizes and labels
// ---------------------------------------------------------------------------

/// How `humansize::format_size` writes a size in its `DECIMAL` format.
pub uninterp spec fn size_text(bytes: u64) -> Seq<char>;

/// `humansize::format_size` with the `DECIMAL` options: the text depends on
/// the size alone.
#[verifier::external_body]
pub(crate) fn format_size(bytes: u64) -> (r: String)
    ensures
        r@ == size_text(bytes),
{
    humansize::format_size(bytes, humansize::DECIMAL)
}

/// How a key's remaining time is shown: keys that never expire are
/// `persistent`, an unknown or missing one is a dash.
pub open spec fn ttl_text(ttl: Option<i64>) -> Seq<char> {
    match ttl {
        Some(t) => if t == -1 {
            "persistent"@
        } else if t >= 0 {
            dec(t as nat) + "s"@
        } else {
            "-"@
        },
        None => "-"@,
    }
}

/// How a key's remaining time is shown.
pub fn ttl_label(ttl: Option<i64>) -> (r: String)
    ensures
        r@ == ttl_text(ttl),
{
    match ttl {
        Some(t) => if t == -1 {
            "persistent".to_owned()
        } else if t >= 0 {
            let mut r = decimal(t as u128);
            r.append("s");
            r
        } else {
            "-".to_owned()
        },
        None => "-".to_owned(),
    }
}

/// The mean size of a type's measured keys.
pub open spec fn avg_of(t: TypeStat) -> u64 {
    if t.measured == 0 {
        0
    } else {
        (t.total_bytes as int / t.measured as int) as u64
    }
}

// ---------------------------------------------------------------------------
// Orders
// ---------------------------------------------------------------------------

/// The keys of each namespace, as sort metrics.
pub open spec fn ns_metrics(stats: Stats) -> Seq<(u64, u64)> {
    let s = stats.namespaces.listing();
    Seq::new(s.len(), |i: int| (by_ns_count()(s[i].value) as u64, 0u64))
}

/// The namespaces, most keys first.
pub open spec fn ns_order(stats: Stats) -> Seq<usize> {
    descending(ns_metrics(stats))
}

/// The keys of each type, as sort metrics.
pub open spec fn type_metrics(s: Seq<Entry<TypeStat>>) -> Seq<(u64, u64)> {
    Seq::new(s.len(), |i: int| (s[i].value.count, 0u64))
}

/// The types, most keys first.
pub open spec fn type_order(s: Seq<Entry<TypeStat>>) -> Seq<usize> {
    descending(type_metrics(s))
}

/// Namespace, key count and total bytes, most keys first.
pub fn namespace_rows(stats: &Stats) -> (r: Vec<(usize, u64, u64)>)
    requires
        stats.wf(),
    ensures
        r@.len() == stats.namespaces.listing().len(),
        ns_order(*stats).len() == r@.len(),
        forall|i: int|
            0 <= i < r@.len() ==> {
                let at = ns_order(*stats)[i];
                &&& (#[trigger] r@[i]).0 == at
                &&& at < stats.namespaces.listing().len()
                &&& r@[i].1 == by_ns_count()(stats.namespaces.listing()[at as int].value)
                &&& r@[i].2 == by_ns_bytes()(stats.namespaces.listing()[at as int].value)
            },
{
    let ghost s = stats.namespaces.listing();
    let mut counts: Vec<(u64, u64)> = Vec::new();
    let mut sizes: Vec<u64> = Vec::new();
    let mut i: usize = 0;
    while i < stats.namespaces.len()
        invariant
            0 <= i <= s.len(),
            s == stats.namespaces.listing(),
            stats.wf(),
            counts@.len() == i,
            sizes@.len() == i,
            forall|k: int|
                0 <= k < i ==> #[trigger] counts@[k].0 == by_ns_count()(s[k].value) && counts@[k].1
                    == 0,
            forall|k: int| 0 <= k < i ==> #[trigger] sizes@[k] == by_ns_bytes()(s[k].value),
        decreases s.len() - i,
    {
        proof {
            weigh_one(s, i as int, by_ns_count());
            weigh_one(s, i as int, by_ns_bytes());
        }
        let types = &stats.namespaces.at(i).value;
        counts.push((count_of(types), 0));
        sizes.push(bytes_of(types));
        i = i + 1;
    }
    assert(counts@ =~= ns_metrics(*stats)) by {
        assert forall|k: int| 0 <= k < s.len() implies counts@[k] == ns_metrics(*stats)[k] by {}
    }
    let o = sort_descending(&counts);
    let mut r: Vec<(usize, u64, u64)> = Vec::new();
    let mut i: usize = 0;
    while i < o.len()
        invariant
            0 <= i <= o@.len(),
            o@ == ns_order(*stats),
            s == stats.namespaces.listing(),
            o@.len() == s.len(),
            counts@.len() == s.len(),
            sizes@.len() == s.len(),
            forall|k: int| 0 <= k < o@.len() ==> #[trigger] o@[k] < counts@.len(),
            forall|k: int|
                0 <= k < s.len() ==> #[trigger] counts@[k].0 == by_ns_count()(s[k].value),
            forall|k: int| 0 <= k < s.len() ==> #[trigger] sizes@[k] == by_ns_bytes()(s[k].value),
            r@.len() == i,
            forall|k: int|
                0 <= k < i ==> {
                    let at = o@[k];
                    &&& (#[trigger] r@[k]).0 == at
                    &&& at < s.len()
                    &&& r@[k].1 == by_ns_count()(s[at as int].value)
                    &&& r@[k].2 == by_ns_bytes()(s[at as int].value)
                },
        decreases o@.len() - i,
    {
        let at: usize = o[i];
        r.push((at, counts[at].0, sizes[at]));
        i = i + 1;
    }
    r
}

/// The types of a namespace, most keys first.
fn sorted_types(m: &NameMap<TypeStat>) -> (o: Vec<usize>)
    ensures
        o@ == type_order(m.listing()),
        o@.len() == m.listing().len(),
        forall|i: int| 0 <= i < o@.len() ==> #[trigger] o@[i] < m.listing().len(),
{
    let ghost s = m.listing();
    let mut counts: Vec<(u64, u64)> = Vec::new();
    let mut i: usize = 0;
    while i < m.len()
        invariant
            0 <= i <= s.len(),
            s == m.listing(),
            counts@ == type_metrics(s).take(i as int),
        decreases s.len() - i,
    {
        counts.push((m.at(i).value.count, 0));
        i = i + 1;
        assert(counts@ =~= type_metrics(s).take(i as int));
    }
    assert(counts@ =~= type_metrics(s));
    sort_descending(&counts)
}

/// How many of `n` types are shown.
pub open spec fn shown_of(top: usize, n: nat) -> nat {
    if top == 0 || n < top {
        n
    } else {
        top as nat
    }
}

/// The keys of the types that come at position `k` or later.
pub open spec fn hidden_keys(s: Seq<Entry<TypeStat>>, o: Seq<usize>, k: nat) -> nat
    decreases o.len() - k,
{
    if k >= o.len() {
        0
    } else {
        s[o[k as int] as int].value.count as nat + hidden_keys(s, o, k + 1)
    }
}

/// The keys of the types at the given positions.
pub open spec fn keys_at(s: Seq<Entry<TypeStat>>, o: Seq<usize>) -> nat
    decreases o.len(),
{
    if o.len() == 0 {
        0
    } else {
        keys_at(s, o.drop_last()) + s[o.last() as int].value.count as nat
    }
}

/// The keys of the types that are shown and of those that are hidden make up
/// all keys of the namespace.
pub proof fn shown_and_hidden_are_all(s: Seq<Entry<TypeStat>>, k: nat)
    requires
        s.len() <= usize::MAX,
        k <= s.len(),
    ensures
        keys_at(s, type_order(s).take(k as int)) + hidden_keys(s, type_order(s), k) == weigh(
            s,
            by_count(),
        ),
{
    let o = type_order(s);
    crate::order::descending_is_complete(type_metrics(s));
    front_and_rest(s, o, k);
    all_positions(s, o);
}

proof fn front_and_rest(s: Seq<Entry<TypeStat>>, o: Seq<usize>, k: nat)
    requires
        k <= o.len(),
    ensures
        keys_at(s, o.take(k as int)) + hidden_keys(s, o, k) == keys_at(s, o),
    decreases o.len() - k,
{
    if k == o.len() {
        assert(o.take(k as int) =~= o);
    } else {
        front_and_rest(s, o, k + 1);
        assert(o.take((k + 1) as int).drop_last() =~= o.take(k as int));
    }
}

proof fn keys_without(s: Seq<Entry<TypeStat>>, o: Seq<usize>, p: int)
    requires
        0 <= p < o.len(),
    ensures
        keys_at(s, o) == keys_at(s, o.remove(p)) + s[o[p] as int].value.count,
    decreases o.len(),
{
    if p == o.len() - 1 {
        assert(o.remove(p) =~= o.drop_last());
    } else {
        keys_without(s, o.drop_last(), p);
        assert(o.remove(p).drop_last() =~= o.drop_last().remove(p));
        assert(o.remove(p).last() == o.last());
    }
}

proof fn keys_of_front(s: Seq<Entry<TypeStat>>, o: Seq<usize>)
    requires
        s.len() > 0,
        forall|i: int| 0 <= i < o.len() ==> #[trigger] o[i] < s.len() - 1,
    ensures
        keys_at(s, o) == keys_at(s.drop_last(), o),
    decreases o.len(),
{
    if o.len() > 0 {
        assert(o[o.len() - 1] < s.len() - 1);
        keys_of_front(s, o.drop_last());
    }
}

proof fn all_positions(s: Seq<Entry<TypeStat>>, o: Seq<usize>)
    requires
        o.len() == s.len(),
        o.no_duplicates(),
        s.len() <= usize::MAX,
        forall|i: int| 0 <= i < o.len() ==> #[trigger] o[i] < s.len(),
        forall|k: usize| k < s.len() ==> #[trigger] o.contains(k),
    ensures
        keys_at(s, o) == weigh(s, by_count()),
    decreases s.len(),
{
    if s.len() > 0 {
        let last = (s.len() - 1) as usize;
        assert(o.contains(last));
        let p = choose|p: int| 0 <= p < o.len() && o[p] == last;
        let q = o.remove(p);
        keys_without(s, o, p);
        assert forall|i: int| 0 <= i < q.len() implies #[trigger] q[i] < s.len() - 1 by {
            let k = if i < p {
                i
            } else {
                i + 1
            };
            assert(q[i] == o[k] && o[k] != o[p]);
        }
        assert(q.no_duplicates()) by {
            assert forall|i: int, j: int| 0 <= i < q.len() && 0 <= j < q.len() && i != j implies q[i]
                != q[j] by {
                let a = if i < p {
                    i
                } else {
                    i + 1
                };
                let b = if j < p {
                    j
                } else {
                    j + 1
                };
                assert(o[a] != o[b]);
            }
        }
        assert forall|k: usize| k < s.drop_last().len() implies #[trigger] q.contains(k) by {
            assert(o.contains(k));
            let i = choose|i: int| 0 <= i < o.len() && o[i] == k;
            if i < p {
                assert(q[i] == k);
            } else {
                assert(q[i - 1] == k);
            }
        }
        keys_of_front(s, q);
        all_positions(s.drop_last(), q);
    }
}

/// The keys of the types that come at position `k` or later.
fn hidden_from(m: &NameMap<TypeStat>, o: &Vec<usize>, k: usize) -> (r: u128)
    requires
        k <= o@.len(),
        forall|i: int| 0 <= i < o@.len() ==> #[trigger] o@[i] < m.listing().len(),
    ensures
        r == hidden_keys(m.listing(), o@, k as nat),
        r <= (o@.len() - k) * u64::MAX,
    decreases o@.len() - k,
{
    if k >= o.len() {
        0
    } else {
        let rest = hidden_from(m, o, k + 1);
        let ghost left = o@.len() - k;
        assert((left - 1) * u64::MAX + u64::MAX == left * u64::MAX) by (nonlinear_arith);
        assert(left * u64::MAX <= usize::MAX * u64::MAX) by (nonlinear_arith)
            requires
                left <= usize::MAX,
        ;
        m.at(o[k]).value.count as u128 + rest
    }
}

// ---------------------------------------------------------------------------
// Data types
// ---------------------------------------------------------------------------

/// The tallies of a breakdown, as sort metrics.
pub open spec fn tally_metrics(s: Seq<Entry<u64>>) -> Seq<(u64, u64)> {
    Seq::new(s.len(), |i: int| (s[i].value, 0u64))
}

/// One entry of a breakdown.
pub open spec fn tally_text(e: Entry<u64>) -> Seq<char> {
    e.name@ + ":"@ + dec(e.value as nat)
}

/// A breakdown by data type, most keys first.
pub open spec fn data_types_text(s: Seq<Entry<u64>>) -> Seq<char> {
    let o = descending(tally_metrics(s));
    joined(Seq::new(o.len(), |i: int| tally_text(s[o[i] as int])), " "@)
}

/// A breakdown by data type, most keys first.
pub fn data_types_str(stat: &TypeStat) -> (r: String)
    ensures
        r@ == data_types_text(stat.data_types.listing()),
{
    let ghost s = stat.data_types.listing();
    let mut counts: Vec<(u64, u64)> = Vec::new();
    let mut i: usize = 0;
    while i < stat.data_types.len()
        invariant
            0 <= i <= s.len(),
            s == stat.data_types.listing(),
            counts@ == tally_metrics(s).take(i as int),
        decreases s.len() - i,
    {
        counts.push((stat.data_types.at(i).value, 0));
        i = i + 1;
        assert(counts@ =~= tally_metrics(s).take(i as int));
    }
    assert(counts@ =~= tally_metrics(s));
    let o = sort_descending(&counts);
    let mut parts: Vec<String> = Vec::new();
    let mut i: usize = 0;
    while i < o.len()
        invariant
            0 <= i <= o@.len(),
            s == stat.data_types.listing(),
            parts@.len() == i,
            forall|k: int| 0 <= k < o@.len() ==> #[trigger] o@[k] < s.len(),
            forall|k: int| 0 <= k < i ==> (#[trigger] parts@[k])@ == tally_text(s[o@[k] as int]),
        decreases o@.len() - i,
    {
        let e = stat.data_types.at(o[i]);
        let mut part = e.name.clone();
        part.append(":");
        part.append(decimal(e.value as u128).as_str());
        parts.push(part);
        i = i + 1;
    }
    assert(texts(parts@) =~= Seq::new(o@.len(), |i: int| tally_text(s[o@[i] as int])));
    join(&parts, " ")
}


// ---------------------------------------------------------------------------
// Markdown
// ---------------------------------------------------------------------------

/// `c` is a control character.
pub open spec fn is_control(c: char) -> bool {
    (c as u32) < 0x20 || 0x7f <= (c as u32) <= 0x9f
}

/// A character inside a Markdown table: a pipe is escaped, a line break becomes
/// a space, and any other control character is written as `\x` and two
/// hexadecimal digits.
pub open spec fn md_char(c: char) -> Seq<char> {
    if c == '|' {
        "\\|"@
    } else if c == '\n' || c == '\r' {
        " "@
    } else if is_control(c) {
        "\\x"@ + hex_of(c as u32 as nat, 2)
    } else {
        seq![c]
    }
}

/// `s` with its pipes and control characters escaped, so that it cannot break a
/// Markdown table.
pub open spec fn md_escaped(s: Seq<char>) -> Seq<char>
    decreases s.len(),
{
    if s.len() == 0 {
        Seq::empty()
    } else {
        md_escaped(s.drop_last()) + md_char(s.last())
    }
}

/// A key in backticks.
pub open spec fn md_key_text(s: Seq<char>) -> Seq<char> {
    "`"@ + md_escaped(s) + "`"@
}

/// Every pipe follows a backslash.
pub open spec fn pipes_escaped(s: Seq<char>) -> bool {
    forall|i: int| 0 <= i < s.len() && #[trigger] s[i] == '|' ==> i > 0 && s[i - 1] == '\\'
}

/// `s` has no control character.
pub open spec fn no_controls(s: Seq<char>) -> bool {
    forall|i: int| 0 <= i < s.len() ==> !is_control(#[trigger] s[i])
}

proof fn char_is_table_safe(c: char)
    ensures
        pipes_escaped(md_char(c)),
        no_controls(md_char(c)),
{
    reveal_strlit("\\|");
    reveal_strlit(" ");
    reveal_strlit("\\x");
    let n = c as u32 as nat;
    if is_control(c) && c != '\n' && c != '\r' {
        reveal_with_fuel(hex_of, 3);
        assert(hex_of(n, 2) =~= seq![
            crate::value::hex_digit(((n / 16) % 16) as int),
            crate::value::hex_digit((n % 16) as int),
        ]);
        let t = md_char(c);
        assert(t.len() == 4);
        assert(t[0] == '\\' && t[1] == 'x' && t[2] == hex_of(n, 2)[0] && t[3] == hex_of(n, 2)[1]);
    }
}

/// An escaped text cannot break a Markdown table: it has no control characters,
/// no line breaks among them, and every pipe in it follows a backslash.
pub proof fn escaped_is_table_safe(s: Seq<char>)
    ensures
        pipes_escaped(md_escaped(s)),
        no_controls(md_escaped(s)),
    decreases s.len(),
{
    if s.len() > 0 {
        let front = md_escaped(s.drop_last());
        let back = md_char(s.last());
        let all = md_escaped(s);
        escaped_is_table_safe(s.drop_last());
        char_is_table_safe(s.last());
        assert forall|i: int| 0 <= i < all.len() implies !is_control(#[trigger] all[i]) by {
            if i < front.len() {
                assert(all[i] == front[i]);
            } else {
                assert(all[i] == back[i - front.len()]);
            }
        }
        assert forall|i: int| 0 <= i < all.len() && #[trigger] all[i] == '|' implies i > 0
            && all[i - 1] == '\\' by {
            if i < front.len() {
                assert(front[i] == '|');
                assert(all[i - 1] == front[i - 1]);
            } else {
                assert(back[i - front.len()] == '|');
                assert(all[i - 1] == back[i - 1 - front.len()]);
            }
        }
    }
}

/// A text without pipes and control characters is not changed by escaping.
pub proof fn plain_text_is_kept(s: Seq<char>)
    requires
        no_controls(s),
        !s.contains('|'),
    ensures
        md_escaped(s) == s,
    decreases s.len(),
{
    if s.len() > 0 {
        let front = s.drop_last();
        assert forall|i: int| 0 <= i < front.len() implies !is_control(#[trigger] front[i]) by {
            assert(front[i] == s[i]);
        }
        assert(!front.contains('|')) by {
            if front.contains('|') {
                let i = choose|i: int| 0 <= i < front.len() && front[i] == '|';
                assert(s[i] == '|');
            }
        }
        plain_text_is_kept(front);
        assert(s[s.len() - 1] == s.last());
        assert(md_escaped(s) =~= s);
    }
}

/// Escape the pipe and control characters so a key cannot break a Markdown
/// table.
pub fn md_escape(s: &str) -> (r: String)
    ensures
        r@ == md_escaped(s@),
        pipes_escaped(r@),
        no_controls(r@),
{
    let mut r = String::new();
    let v = chars_of(s);
    let mut i: usize = 0;
    assert(v@.take(0) =~= Seq::<char>::empty());
    while i < v.len()
        invariant
            0 <= i <= v@.len(),
            r@ == md_escaped(v@.take(i as int)),
        decreases v@.len() - i,
    {
        let c = v[i];
        let n: u32 = c as u32;
        let ghost before = r@;
        if c == '|' {
            r.append("\\|");
        } else if c == '\n' || c == '\r' {
            r.append(" ");
        } else if n < 0x20 || (0x7f <= n && n <= 0x9f) {
            r.append("\\x");
            r.append(hex_text(n as u64, 2).as_str());
        } else {
            r.push(c);
        }
        i = i + 1;
        assert(v@.take(i as int).drop_last() =~= v@.take(i - 1));
        assert(r@ =~= before + md_char(c));
    }
    assert(v@.take(i as int) =~= s@);
    proof {
        escaped_is_table_safe(s@);
    }
    r
}

/// A key in backticks, so that it renders literally, control characters written
/// out.
pub fn md_key(s: &str) -> (r: String)
    ensures
        r@ == md_key_text(s@),
{
    let mut r = "`".to_owned();
    r.append(md_escape(s).as_str());
    r.append("`");
    r
}

/// The opening of the document.
pub open spec fn md_opening(stats: Stats, opts: ReportOptions) -> Seq<char> {
    let a = "# Redis Insights Report\n\n- **Total keys scanned:** "@ + dec(stats.total_keys as nat)
        + "\n- **Namespaces:** "@ + dec(stats.namespaces.listing().len()) + "\n"@;
    let b = if opts.show_memory {
        a + "- **Measured memory:** "@ + size_text(stats.measured_bytes) + "\n"@
    } else {
        a
    };
    b + "\n## Namespace summary\n\n"@ + (if opts.show_memory {
        "| Namespace | Keys | % | Memory |\n|---|--:|--:|--:|\n"@
    } else {
        "| Namespace | Keys | % |\n|---|--:|--:|\n"@
    })
}

fn opening_markdown(stats: &Stats, opts: &ReportOptions) -> (r: String)
    ensures
        r@ == md_opening(*stats, *opts),
{
    let mut r = "# Redis Insights Report\n\n- **Total keys scanned:** ".to_owned();
    r.append(decimal(stats.total_keys as u128).as_str());
    r.append("\n- **Namespaces:** ");
    r.append(decimal(stats.namespaces.len() as u128).as_str());
    r.append("\n");
    if opts.show_memory {
        r.append("- **Measured memory:** ");
        r.append(format_size(stats.measured_bytes).as_str());
        r.append("\n");
    }
    r.append("\n## Namespace summary\n\n");
    if opts.show_memory {
        r.append("| Namespace | Keys | % | Memory |\n|---|--:|--:|--:|\n");
    } else {
        r.append("| Namespace | Keys | % |\n|---|--:|--:|\n");
    }
    r
}

/// One row of the namespace summary.
pub open spec fn md_ns_row(
    e: Entry<NameMap<TypeStat>>,
    total: u64,
    opts: ReportOptions,
) -> Seq<char> {
    let count = by_ns_count()(e.value);
    let a = "| "@ + md_escaped(e.name@) + " | "@ + dec(count) + " | "@ + pct_text(
        count,
        total as nat,
    );
    let b = if opts.show_memory {
        a + " | "@ + size_text(by_ns_bytes()(e.value) as u64)
    } else {
        a
    };
    b + " |\n"@
}

/// The first `k` rows of the namespace summary.
pub open spec fn md_ns_rows(stats: Stats, opts: ReportOptions, k: nat) -> Seq<char>
    decreases k,
{
    if k == 0 {
        Seq::empty()
    } else {
        md_ns_rows(stats, opts, (k - 1) as nat) + md_ns_row(
            stats.namespaces.listing()[ns_order(stats)[k - 1] as int],
            stats.total_keys,
            opts,
        )
    }
}

/// The headline of a namespace's section.
pub open spec fn md_headline(e: Entry<NameMap<TypeStat>>) -> Seq<char> {
    "## `"@ + md_escaped(e.name@) + "` — "@ + dec(by_ns_count()(e.value)) + " keys, "@ + dec(
        e.value.listing().len(),
    ) + " types\n\n"@
}

/// The header rows of a type table.
pub open spec fn md_columns(opts: ReportOptions) -> Seq<char> {
    let h0 = "| Type | Keys | %"@;
    let s0 = "|---|--:|--:"@;
    let h1 = if opts.show_memory {
        h0 + " | Total mem | Avg mem"@
    } else {
        h0
    };
    let s1 = if opts.show_memory {
        s0 + "|--:|--:"@
    } else {
        s0
    };
    let h2 = if opts.show_types {
        h1 + " | Data types"@
    } else {
        h1
    };
    let s2 = if opts.show_types {
        s1 + "|---"@
    } else {
        s1
    };
    let h3 = if opts.show_ttl {
        h2 + " | Persist/Expire"@
    } else {
        h2
    };
    let s3 = if opts.show_ttl {
        s2 + "|---"@
    } else {
        s2
    };
    h3 + " |\n"@ + (s3 + "|\n"@)
}

fn columns_markdown(opts: &ReportOptions) -> (r: String)
    ensures
        r@ == md_columns(*opts),
{
    let mut head = "| Type | Keys | %".to_owned();
    let mut sep = "|---|--:|--:".to_owned();
    if opts.show_memory {
        head.append(" | Total mem | Avg mem");
        sep.append("|--:|--:");
    }
    if opts.show_types {
        head.append(" | Data types");
        sep.append("|---");
    }
    if opts.show_ttl {
        head.append(" | Persist/Expire");
        sep.append("|---");
    }
    head.append(" |\n");
    sep.append("|\n");
    head.append(sep.as_str());
    head
}

/// One row of a type table.
pub open spec fn md_type_row(e: Entry<TypeStat>, total: nat, opts: ReportOptions) -> Seq<char> {
    let a = "| "@ + md_key_text(e.name@) + " | "@ + dec(e.value.count as nat) + " | "@ + pct_text(
        e.value.count as nat,
        total,
    );
    let b = if opts.show_memory {
        a + " | "@ + size_text(e.value.total_bytes) + " | "@ + size_text(avg_of(e.value))
    } else {
        a
    };
    let c = if opts.show_types {
        b + " | "@ + md_escaped(data_types_text(e.value.data_types.listing()))
    } else {
        b
    };
    let d = if opts.show_ttl {
        c + " | "@ + dec(e.value.persistent as nat) + "/"@ + dec(e.value.expiring as nat)
    } else {
        c
    };
    d + " |\n"@
}

fn type_row_markdown(e: &Entry<TypeStat>, total: u64, opts: &ReportOptions) -> (r: String)
    ensures
        r@ == md_type_row(*e, total as nat, *opts),
{
    let stat = &e.value;
    let mut r = "| ".to_owned();
    r.append(md_key(e.name.as_str()).as_str());
    r.append(" | ");
    r.append(decimal(stat.count as u128).as_str());
    r.append(" | ");
    r.append(pct(stat.count, total).as_str());
    if opts.show_memory {
        r.append(" | ");
        r.append(format_size(stat.total_bytes).as_str());
        r.append(" | ");
        r.append(format_size(stat.avg_bytes()).as_str());
    }
    if opts.show_types {
        r.append(" | ");
        r.append(md_escape(data_types_str(stat).as_str()).as_str());
    }
    if opts.show_ttl {
        r.append(" | ");
        r.append(decimal(stat.persistent as u128).as_str());
        r.append("/");
        r.append(decimal(stat.expiring as u128).as_str());
    }
    r.append(" |\n");
    r
}

/// The first `k` rows of a type table.
pub open spec fn md_type_rows(m: NameMap<TypeStat>, opts: ReportOptions, k: nat) -> Seq<char>
    decreases k,
{
    if k == 0 {
        Seq::empty()
    } else {
        md_type_rows(m, opts, (k - 1) as nat) + md_type_row(
            m.listing()[type_order(m.listing())[k - 1] as int],
            by_ns_count()(m),
            opts,
        )
    }
}

/// The note below a shortened type table.
pub open spec fn md_note(m: NameMap<TypeStat>, opts: ReportOptions) -> Seq<char> {
    let n = m.listing().len();
    let shown = shown_of(opts.top, n);
    if shown < n {
        "\n_"@ + dec((n - shown) as nat) + " more types hidden ("@ + dec(
            hidden_keys(m.listing(), type_order(m.listing()), shown),
        ) + " keys)._\n"@
    } else {
        Seq::empty()
    }
}

/// A namespace's section.
pub open spec fn md_section(e: Entry<NameMap<TypeStat>>, opts: ReportOptions) -> Seq<char> {
    md_headline(e) + md_columns(opts) + md_type_rows(
        e.value,
        opts,
        shown_of(opts.top, e.value.listing().len()),
    ) + md_note(e.value, opts) + "\n"@
}

fn section_markdown(e: &Entry<NameMap<TypeStat>>, opts: &ReportOptions) -> (r: String)
    requires
        by_ns_count()(e.value) <= u64::MAX,
    ensures
        r@ == md_section(*e, *opts),
{
    let m = &e.value;
    let total = count_of(m);
    let o = sorted_types(m);
    let n: usize = o.len();
    let shown: usize = if opts.top == 0 || n < opts.top {
        n
    } else {
        opts.top
    };
    let mut r = "## `".to_owned();
    r.append(md_escape(e.name.as_str()).as_str());
    r.append("` — ");
    r.append(decimal(total as u128).as_str());
    r.append(" keys, ");
    r.append(decimal(n as u128).as_str());
    r.append(" types\n\n");
    r.append(columns_markdown(opts).as_str());
    let mut rows = String::new();
    let mut i: usize = 0;
    while i < shown
        invariant
            0 <= i <= shown <= n,
            n == o@.len(),
            o@ == type_order(m.listing()),
            forall|k: int| 0 <= k < o@.len() ==> #[trigger] o@[k] < m.listing().len(),
            total == by_ns_count()(*m),
            rows@ == md_type_rows(*m, *opts, i as nat),
        decreases shown - i,
    {
        rows.append(type_row_markdown(m.at(o[i]), total, opts).as_str());
        i = i + 1;
    }
    r.append(rows.as_str());
    if shown < n {
        let mut note = "\n_".to_owned();
        note.append(decimal((n - shown) as u128).as_str());
        note.append(" more types hidden (");
        note.append(decimal(hidden_from(m, &o, shown)).as_str());
        note.append(" keys)._\n");
        r.append(note.as_str());
    } else {
        assert(r@ =~= r@ + md_note(*m, *opts));
    }
    r.append("\n");
    r
}

/// The first `k` namespace sections.
pub open spec fn md_sections(stats: Stats, opts: ReportOptions, k: nat) -> Seq<char>
    decreases k,
{
    if k == 0 {
        Seq::empty()
    } else {
        md_sections(stats, opts, (k - 1) as nat) + md_section(
            stats.namespaces.listing()[ns_order(stats)[k - 1] as int],
            opts,
        )
    }
}

/// A data type, or a dash when it was not collected.
pub open spec fn or_dash(t: Option<String>) -> Seq<char> {
    match t {
        Some(s) => s@,
        None => "-"@,
    }
}

/// A data type, or a dash when it was not collected.
pub(crate) fn dashed(t: &Option<String>) -> (r: String)
    ensures
        r@ == or_dash(*t),
{
    match t {
        Some(s) => s.clone(),
        None => "-".to_owned(),
    }
}

/// The first `k` rows of the biggest-keys table.
pub open spec fn md_big_rows(big: Seq<BigKey>, k: nat) -> Seq<char>
    decreases k,
{
    if k == 0 {
        Seq::empty()
    } else {
        let b = big[k - 1];
        md_big_rows(big, (k - 1) as nat) + ("| "@ + dec(k) + " | "@ + size_text(b.bytes) + " | "@
            + or_dash(b.data_type) + " | "@ + ttl_text(b.ttl) + " | "@ + md_key_text(b.key@)
            + " |\n"@)
    }
}

/// The biggest-keys section.
pub open spec fn md_biggest(big: Seq<BigKey>, opts: ReportOptions) -> Seq<char> {
    if opts.biggest == 0 || big.len() == 0 {
        Seq::empty()
    } else {
        "## Biggest "@ + dec(big.len())
            + " keys\n\n| # | Size | Type | TTL | Key |\n|--:|--:|---|---|---|\n"@ + md_big_rows(
            big,
            big.len(),
        ) + "\n"@
    }
}

/// Append the biggest-keys section.
pub fn render_biggest_markdown(out: &mut String, big: &Vec<BigKey>, opts: &ReportOptions)
    ensures
        final(out)@ == old(out)@ + md_biggest(big@, *opts),
{
    if opts.biggest == 0 || big.len() == 0 {
        assert(out@ =~= out@ + md_biggest(big@, *opts));
        return;
    }
    let mut r = "## Biggest ".to_owned();
    r.append(decimal(big.len() as u128).as_str());
    r.append(" keys\n\n| # | Size | Type | TTL | Key |\n|--:|--:|---|---|---|\n");
    let mut rows = String::new();
    let mut i: usize = 0;
    while i < big.len()
        invariant
            0 <= i <= big@.len(),
            rows@ == md_big_rows(big@, i as nat),
        decreases big@.len() - i,
    {
        let b = &big[i];
        let mut row = "| ".to_owned();
        i = i + 1;
        row.append(decimal(i as u128).as_str());
        row.append(" | ");
        row.append(format_size(b.bytes).as_str());
        row.append(" | ");
        row.append(dashed(&b.data_type).as_str());
        row.append(" | ");
        row.append(ttl_label(b.ttl).as_str());
        row.append(" | ");
        row.append(md_key(b.key.as_str()).as_str());
        row.append(" |\n");
        rows.append(row.as_str());
    }
    r.append(rows.as_str());
    r.append("\n");
    out.append(r.as_str());
}

/// The whole document, with `big` as the biggest keys.
pub open spec fn md_document(stats: Stats, opts: ReportOptions, big: Seq<BigKey>) -> Seq<char> {
    let n = stats.namespaces.listing().len();
    md_opening(stats, opts) + md_ns_rows(stats, opts, n) + "\n"@ + md_sections(stats, opts, n)
        + md_biggest(big, opts)
}

/// `big` lists the leaderboard, largest first, equal sizes in name order.
pub open spec fn lists_biggest(stats: Stats, big: Seq<BigKey>) -> bool {
    big.to_multiset() == stats.retained() && in_display_order(big)
}

/// The report as a Markdown document.
pub fn render_markdown(stats: &Stats, opts: &ReportOptions) -> (r: String)
    requires
        stats.wf(),
    ensures
        lists_biggest(*stats, stats.ranking()),
        r@ == md_document(*stats, *opts, stats.ranking()),
{
    let ns_rows = namespace_rows(stats);
    let mut out = opening_markdown(stats, opts);
    let ghost s = stats.namespaces.listing();
    let ghost o = ns_order(*stats);
    let mut summary = String::new();
    let mut i: usize = 0;
    while i < ns_rows.len()
        invariant
            0 <= i <= ns_rows@.len(),
            s == stats.namespaces.listing(),
            o == ns_order(*stats),
            ns_rows@.len() == s.len(),
            o.len() == s.len(),
            forall|i: int|
                0 <= i < ns_rows@.len() ==> {
                    let at = o[i];
                    &&& (#[trigger] ns_rows@[i]).0 == at
                    &&& at < s.len()
                    &&& ns_rows@[i].1 == by_ns_count()(s[at as int].value)
                    &&& ns_rows@[i].2 == by_ns_bytes()(s[at as int].value)
                },
            summary@ == md_ns_rows(*stats, *opts, i as nat),
        decreases ns_rows@.len() - i,
    {
        let (at, count, bytes): (usize, u64, u64) = ns_rows[i];
        let mut row = "| ".to_owned();
        row.append(md_escape(stats.namespaces.at(at).name.as_str()).as_str());
        row.append(" | ");
        row.append(decimal(count as u128).as_str());
        row.append(" | ");
        row.append(pct(count, stats.total_keys).as_str());
        if opts.show_memory {
            row.append(" | ");
            row.append(format_size(bytes).as_str());
        }
        row.append(" |\n");
        summary.append(row.as_str());
        i = i + 1;
    }
    out.append(summary.as_str());
    out.append("\n");
    let mut sections = String::new();
    let mut i: usize = 0;
    while i < ns_rows.len()
        invariant
            0 <= i <= ns_rows@.len(),
            stats.wf(),
            s == stats.namespaces.listing(),
            o == ns_order(*stats),
            ns_rows@.len() == s.len(),
            o.len() == s.len(),
            forall|i: int|
                0 <= i < ns_rows@.len() ==> {
                    let at = o[i];
                    &&& (#[trigger] ns_rows@[i]).0 == at
                    &&& at < s.len()
                },
            sections@ == md_sections(*stats, *opts, i as nat),
        decreases ns_rows@.len() - i,
    {
        let at: usize = ns_rows[i].0;
        proof {
            weigh_one(s, at as int, by_ns_count());
        }
        sections.append(section_markdown(stats.namespaces.at(at), opts).as_str());
        i = i + 1;
    }
    out.append(sections.as_str());
    let big = stats.biggest();
    render_biggest_markdown(&mut out, &big, opts);
    out
}


// ---------------------------------------------------------------------------
// Terminal tables
// ---------------------------------------------------------------------------

/// The side of a column on which a cell's text stands.
#[derive(Debug, Clone, Copy, PartialEq, Eq)]
pub enum Side {
    Left,
    Right,
}

/// One cell of a terminal table.
#[derive(Debug)]
pub struct CellText {
    pub text: String,
    pub side: Side,
}

/// The text of each cell, and whether it stands on the right.
pub open spec fn cells_of(row: Seq<CellText>) -> Seq<(Seq<char>, bool)> {
    Seq::new(row.len(), |i: int| (row[i].text@, row[i].side is Right))
}

/// The cells of each row.
pub open spec fn rows_of(rows: Seq<Vec<CellText>>) -> Seq<Seq<(Seq<char>, bool)>> {
    Seq::new(rows.len(), |i: int| cells_of(rows[i]@))
}

/// How `comfy_table::Table` draws a table of these header texts and cells.
pub uninterp spec fn table_text(
    header: Seq<Seq<char>>,
    rows: Seq<Seq<(Seq<char>, bool)>>,
) -> Seq<char>;

/// `comfy_table::Table` in its default style, printed through `Display`. The
/// columns take the width of their contents, so the text depends on the
/// contents and their alignment alone.
#[verifier::external_body]
fn draw_table(header: Vec<String>, rows: Vec<Vec<CellText>>) -> (r: String)
    ensures
        r@ == table_text(texts(header@), rows_of(rows@)),
{
    let mut t = comfy_table::Table::new();
    t.set_header(header);
    for row in rows {
        t.add_row(row.into_iter().map(|c| comfy_table::Cell::new(c.text).set_alignment(match c.side {
            Side::Left => comfy_table::CellAlignment::Left,
            Side::Right => comfy_table::CellAlignment::Right,
        })));
    }
    t.to_string()
}

fn left(text: String) -> (r: CellText)
    ensures
        r.text@ == text@,
        r.side is Left,
{
    CellText { text, side: Side::Left }
}

fn right(text: String) -> (r: CellText)
    ensures
        r.text@ == text@,
        r.side is Right,
{
    CellText { text, side: Side::Right }
}

/// The header of the namespace table.
pub open spec fn ns_header(opts: ReportOptions) -> Seq<Seq<char>> {
    let h = seq!["Namespace"@, "Keys"@, "%"@];
    if opts.show_memory {
        h.push("Memory"@)
    } else {
        h
    }
}

/// One row of the namespace table.
pub open spec fn ns_cells(
    e: Entry<NameMap<TypeStat>>,
    total: u64,
    opts: ReportOptions,
) -> Seq<(Seq<char>, bool)> {
    let count = by_ns_count()(e.value);
    let c = seq![
        (e.name@, false),
        (dec(count), true),
        (pct_text(count, total as nat), true),
    ];
    if opts.show_memory {
        c.push((size_text(by_ns_bytes()(e.value) as u64), true))
    } else {
        c
    }
}

/// The header of a type table.
pub open spec fn type_header(opts: ReportOptions) -> Seq<Seq<char>> {
    let a = seq!["Type"@, "Keys"@, "%"@];
    let b = if opts.show_memory {
        a.push("Total mem"@).push("Avg mem"@)
    } else {
        a
    };
    let c = if opts.show_types {
        b.push("Data types"@)
    } else {
        b
    };
    if opts.show_ttl {
        c.push("Persist/Expire"@)
    } else {
        c
    }
}

/// One row of a type table.
pub open spec fn type_cells(
    e: Entry<TypeStat>,
    total: nat,
    opts: ReportOptions,
) -> Seq<(Seq<char>, bool)> {
    let t = e.value;
    let a = seq![
        (e.name@, false),
        (dec(t.count as nat), true),
        (pct_text(t.count as nat, total), true),
    ];
    let b = if opts.show_memory {
        a.push((size_text(t.total_bytes), true)).push((size_text(avg_of(t)), true))
    } else {
        a
    };
    let c = if opts.show_types {
        b.push((data_types_text(t.data_types.listing()), false))
    } else {
        b
    };
    if opts.show_ttl {
        c.push((dec(t.persistent as nat) + "/"@ + dec(t.expiring as nat), false))
    } else {
        c
    }
}

fn type_row_cells(e: &Entry<TypeStat>, total: u64, opts: &ReportOptions) -> (r: Vec<CellText>)
    ensures
        cells_of(r@) == type_cells(*e, total as nat, *opts),
        r@.len() == type_header(*opts).len(),
        r@[0].text@ == e.name@,
        r@[1].text@ == dec(e.value.count as nat),
        r@[2].text@ == pct_text(e.value.count as nat, total as nat),
        opts.show_memory ==> r@[3].text@ == size_text(e.value.total_bytes),
        opts.show_ttl ==> r@.last().text@ == dec(e.value.persistent as nat) + "/"@ + dec(
            e.value.expiring as nat,
        ),
{
    let stat = &e.value;
    let mut r: Vec<CellText> = Vec::new();
    r.push(left(e.name.clone()));
    r.push(right(decimal(stat.count as u128)));
    r.push(right(pct(stat.count, total)));
    if opts.show_memory {
        r.push(right(format_size(stat.total_bytes)));
        r.push(right(format_size(stat.avg_bytes())));
    }
    if opts.show_types {
        r.push(left(data_types_str(stat)));
    }
    if opts.show_ttl {
        let mut split = decimal(stat.persistent as u128);
        split.append("/");
        split.append(decimal(stat.expiring as u128).as_str());
        r.push(left(split));
    }
    assert(cells_of(r@) =~= type_cells(*e, total as nat, *opts));
    r
}

/// The namespace table.
pub open spec fn ns_table(stats: Stats, opts: ReportOptions) -> Seq<char> {
    let o = ns_order(stats);
    table_text(
        ns_header(opts),
        Seq::new(
            o.len(),
            |i: int|
                ns_cells(stats.namespaces.listing()[o[i] as int], stats.total_keys, opts),
        ),
    )
}

/// The type table of a namespace.
pub open spec fn type_table(m: NameMap<TypeStat>, opts: ReportOptions) -> Seq<char> {
    let o = type_order(m.listing());
    table_text(
        type_header(opts),
        Seq::new(
            shown_of(opts.top, m.listing().len()),
            |i: int| type_cells(m.listing()[o[i] as int], by_ns_count()(m), opts),
        ),
    )
}

/// The note below a shortened type table.
pub open spec fn term_note(m: NameMap<TypeStat>, opts: ReportOptions) -> Seq<char> {
    let n = m.listing().len();
    let shown = shown_of(opts.top, n);
    if shown < n {
        "  … "@ + dec((n - shown) as nat) + " more types hidden ("@ + dec(
            hidden_keys(m.listing(), type_order(m.listing()), shown),
        ) + " keys). Use --top 0 to show all.\n"@
    } else {
        Seq::empty()
    }
}

/// A namespace's section on the terminal.
pub open spec fn term_section(e: Entry<NameMap<TypeStat>>, opts: ReportOptions) -> Seq<char> {
    "\n--- "@ + e.name@ + " ("@ + dec(by_ns_count()(e.value)) + " keys, "@ + dec(
        e.value.listing().len(),
    ) + " types) ---\n"@ + type_table(e.value, opts) + "\n"@ + term_note(e.value, opts)
}

fn section_terminal(e: &Entry<NameMap<TypeStat>>, opts: &ReportOptions) -> (r: String)
    requires
        by_ns_count()(e.value) <= u64::MAX,
    ensures
        r@ == term_section(*e, *opts),
{
    let m = &e.value;
    let total = count_of(m);
    let o = sorted_types(m);
    let n: usize = o.len();
    let shown: usize = if opts.top == 0 || n < opts.top {
        n
    } else {
        opts.top
    };
    let mut r = "\n--- ".to_owned();
    r.append(e.name.as_str());
    r.append(" (");
    r.append(decimal(total as u128).as_str());
    r.append(" keys, ");
    r.append(decimal(n as u128).as_str());
    r.append(" types) ---\n");
    let mut header: Vec<String> = Vec::new();
    header.push("Type".to_owned());
    header.push("Keys".to_owned());
    header.push("%".to_owned());
    if opts.show_memory {
        header.push("Total mem".to_owned());
        header.push("Avg mem".to_owned());
    }
    if opts.show_types {
        header.push("Data types".to_owned());
    }
    if opts.show_ttl {
        header.push("Persist/Expire".to_owned());
    }
    assert(texts(header@) =~= type_header(*opts));
    let ghost want = Seq::new(
        shown as nat,
        |i: int| type_cells(m.listing()[o@[i] as int], by_ns_count()(*m), *opts),
    );
    let mut rows: Vec<Vec<CellText>> = Vec::new();
    let mut i: usize = 0;
    while i < shown
        invariant
            0 <= i <= shown <= n,
            n == o@.len(),
            o@ == type_order(m.listing()),
            forall|k: int| 0 <= k < o@.len() ==> #[trigger] o@[k] < m.listing().len(),
            total == by_ns_count()(*m),
            want == Seq::new(
                shown as nat,
                |i: int| type_cells(m.listing()[o@[i] as int], by_ns_count()(*m), *opts),
            ),
            rows_of(rows@) == want.take(i as int),
        decreases shown - i,
    {
        let ghost before = rows@;
        rows.push(type_row_cells(m.at(o[i]), total, opts));
        assert(rows_of(rows@) =~= rows_of(before).push(cells_of(rows@.last()@)));
        i = i + 1;
        assert(want.take(i as int) =~= want.take(i - 1).push(want[i - 1]));
    }
    assert(want.take(shown as int) =~= want);
    r.append(draw_table(header, rows).as_str());
    r.append("\n");
    if shown < n {
        let mut note = "  … ".to_owned();
        note.append(decimal((n - shown) as u128).as_str());
        note.append(" more types hidden (");
        note.append(decimal(hidden_from(m, &o, shown)).as_str());
        note.append(" keys). Use --top 0 to show all.\n");
        r.append(note.as_str());
    } else {
        assert(r@ =~= r@ + term_note(*m, *opts));
    }
    r
}

/// The first `k` namespace sections on the terminal.
pub open spec fn term_sections(stats: Stats, opts: ReportOptions, k: nat) -> Seq<char>
    decreases k,
{
    if k == 0 {
        Seq::empty()
    } else {
        term_sections(stats, opts, (k - 1) as nat) + term_section(
            stats.namespaces.listing()[ns_order(stats)[k - 1] as int],
            opts,
        )
    }
}

/// One row of the biggest-keys table.
pub open spec fn big_cells(b: BigKey, place: nat) -> Seq<(Seq<char>, bool)> {
    seq![
        (dec(place), true),
        (size_text(b.bytes), true),
        (or_dash(b.data_type), false),
        (ttl_text(b.ttl), false),
        (b.key@, false),
    ]
}

/// The biggest-keys section on the terminal.
pub open spec fn term_biggest(big: Seq<BigKey>, opts: ReportOptions) -> Seq<char> {
    if opts.biggest == 0 || big.len() == 0 {
        Seq::empty()
    } else {
        "\n=== Biggest "@ + dec(big.len()) + " keys ===\n"@ + table_text(
            seq!["#"@, "Size"@, "Type"@, "TTL"@, "Key"@],
            Seq::new(big.len(), |i: int| big_cells(big[i], (i + 1) as nat)),
        ) + "\n"@
    }
}

/// The biggest-keys section on the terminal.
fn render_biggest_terminal(big: &Vec<BigKey>, opts: &ReportOptions) -> (r: String)
    ensures
        r@ == term_biggest(big@, *opts),
{
    if opts.biggest == 0 || big.len() == 0 {
        return String::new();
    }
    let mut r = "\n=== Biggest ".to_owned();
    r.append(decimal(big.len() as u128).as_str());
    r.append(" keys ===\n");
    let mut header: Vec<String> = Vec::new();
    header.push("#".to_owned());
    header.push("Size".to_owned());
    header.push("Type".to_owned());
    header.push("TTL".to_owned());
    header.push("Key".to_owned());
    assert(texts(header@) =~= seq!["#"@, "Size"@, "Type"@, "TTL"@, "Key"@]);
    let ghost want = Seq::new(big@.len(), |i: int| big_cells(big@[i], (i + 1) as nat));
    let mut rows: Vec<Vec<CellText>> = Vec::new();
    let mut i: usize = 0;
    while i < big.len()
        invariant
            0 <= i <= big@.len(),
            want == Seq::new(big@.len(), |i: int| big_cells(big@[i], (i + 1) as nat)),
            rows_of(rows@) == want.take(i as int),
        decreases big@.len() - i,
    {
        let b = &big[i];
        i = i + 1;
        let mut row: Vec<CellText> = Vec::new();
        row.push(right(decimal(i as u128)));
        row.push(right(format_size(b.bytes)));
        row.push(left(dashed(&b.data_type)));
        row.push(left(ttl_label(b.ttl)));
        row.push(left(b.key.clone()));
        assert(cells_of(row@) =~= want[i - 1]);
        let ghost before = rows@;
        rows.push(row);
        assert(rows_of(rows@) =~= rows_of(before).push(cells_of(rows@.last()@)));
        assert(want.take(i as int) =~= want.take(i - 1).push(want[i - 1]));
    }
    assert(want.take(big@.len() as int) =~= want);
    r.append(draw_table(header, rows).as_str());
    r.append("\n");
    r
}

/// The whole terminal report, with `big` as the biggest keys.
pub open spec fn term_document(stats: Stats, opts: ReportOptions, big: Seq<BigKey>) -> Seq<char> {
    "\n=== Namespace summary ===\n"@ + ns_table(stats, opts) + "\nTotal keys: "@ + dec(
        stats.total_keys as nat,
    ) + "\n"@ + term_sections(stats, opts, stats.namespaces.listing().len()) + term_biggest(
        big,
        opts,
    )
}

/// The report as terminal tables.
pub fn render(stats: &Stats, opts: &ReportOptions) -> (r: String)
    requires
        stats.wf(),
    ensures
        lists_biggest(*stats, stats.ranking()),
        r@ == term_document(*stats, *opts, stats.ranking()),
{
    let ns_rows = namespace_rows(stats);
    let ghost s = stats.namespaces.listing();
    let ghost o = ns_order(*stats);
    let mut r = "\n=== Namespace summary ===\n".to_owned();
    let mut header: Vec<String> = Vec::new();
    header.push("Namespace".to_owned());
    header.push("Keys".to_owned());
    header.push("%".to_owned());
    if opts.show_memory {
        header.push("Memory".to_owned());
    }
    assert(texts(header@) =~= ns_header(*opts));
    let ghost want = Seq::new(
        o.len(),
        |i: int| ns_cells(s[o[i] as int], stats.total_keys, *opts),
    );
    let mut rows: Vec<Vec<CellText>> = Vec::new();
    let mut i: usize = 0;
    while i < ns_rows.len()
        invariant
            0 <= i <= ns_rows@.len(),
            s == stats.namespaces.listing(),
            ns_rows@.len() == s.len(),
            o.len() == s.len(),
            want == Seq::new(
                o.len(),
                |i: int| ns_cells(s[o[i] as int], stats.total_keys, *opts),
            ),
            forall|i: int|
                0 <= i < ns_rows@.len() ==> {
                    let at = o[i];
                    &&& (#[trigger] ns_rows@[i]).0 == at
                    &&& at < s.len()
                    &&& ns_rows@[i].1 == by_ns_count()(s[at as int].value)
                    &&& ns_rows@[i].2 == by_ns_bytes()(s[at as int].value)
                },
            rows_of(rows@) == want.take(i as int),
        decreases ns_rows@.len() - i,
    {
        let (at, count, bytes): (usize, u64, u64) = ns_rows[i];
        let mut row: Vec<CellText> = Vec::new();
        row.push(left(stats.namespaces.at(at).name.clone()));
        row.push(right(decimal(count as u128)));
        row.push(right(pct(count, stats.total_keys)));
        if opts.show_memory {
            row.push(right(format_size(bytes)));
        }
        assert(cells_of(row@) =~= want[i as int]);
        let ghost before = rows@;
        rows.push(row);
        assert(rows_of(rows@) =~= rows_of(before).push(cells_of(rows@.last()@)));
        i = i + 1;
        assert(want.take(i as int) =~= want.take(i - 1).push(want[i - 1]));
    }
    assert(want.take(o.len() as int) =~= want);
    r.append(draw_table(header, rows).as_str());
    r.append("\nTotal keys: ");
    r.append(decimal(stats.total_keys as u128).as_str());
    r.append("\n");
    let mut sections = String::new();
    let mut i: usize = 0;
    while i < ns_rows.len()
        invariant
            0 <= i <= ns_rows@.len(),
            stats.wf(),
            s == stats.namespaces.listing(),
            o == ns_order(*stats),
            ns_rows@.len() == s.len(),
            o.len() == s.len(),
            forall|i: int|
                0 <= i < ns_rows@.len() ==> {
                    let at = o[i];
                    &&& (#[trigger] ns_rows@[i]).0 == at
                    &&& at < s.len()
                },
            sections@ == term_sections(*stats, *opts, i as nat),
        decreases ns_rows@.len() - i,
    {
        let at: usize = ns_rows[i].0;
        proof {
            weigh_one(s, at as int, by_ns_count());
        }
        sections.append(section_terminal(stats.namespaces.at(at), opts).as_str());
        i = i + 1;
    }
    r.append(sections.as_str());
    let big = stats.biggest();
    r.append(render_biggest_terminal(&big, opts).as_str());
    r
}


/// Namespaces come with the most keys first.
pub proof fn namespaces_by_keys(stats: Stats, i: int, j: int)
    requires
        stats.wf(),
        stats.namespaces.listing().len() <= usize::MAX,
        0 <= i < j < stats.namespaces.listing().len(),
    ensures
        by_ns_count()(stats.namespaces.listing()[ns_order(stats)[i] as int].value)
            >= by_ns_count()(stats.namespaces.listing()[ns_order(stats)[j] as int].value),
        stats.keys_under(stats.namespaces.listing()[ns_order(stats)[i] as int].name@)
            > stats.keys_under(stats.namespaces.listing()[ns_order(stats)[j] as int].name@) || (
        stats.keys_under(stats.namespaces.listing()[ns_order(stats)[i] as int].name@)
            == stats.keys_under(stats.namespaces.listing()[ns_order(stats)[j] as int].name@)
            && crate::text::lex_lt(
            stats.namespaces.listing()[ns_order(stats)[i] as int].name@,
            stats.namespaces.listing()[ns_order(stats)[j] as int].name@,
        )),
{
    let s = stats.namespaces.listing();
    let m = ns_metrics(stats);
    crate::order::descending_is_complete(m);
    crate::order::descending_descends(m, i, j);
    let a = ns_order(stats)[i];
    let b = ns_order(stats)[j];
    assert(a < s.len() && b < s.len());
    weigh_one(s, a as int, by_ns_count());
    weigh_one(s, b as int, by_ns_count());
    crate::names::position_is_unique(s, a as int);
    crate::names::position_is_unique(s, b as int);
}

/// The types of a namespace come with the most keys first.
pub proof fn types_by_keys(s: Seq<Entry<TypeStat>>, i: int, j: int)
    requires
        s.len() <= usize::MAX,
        0 <= i < j < s.len(),
    ensures
        s[type_order(s)[i] as int].value.count >= s[type_order(s)[j] as int].value.count,
{
    let m = type_metrics(s);
    crate::order::descending_is_complete(m);
    crate::order::descending_descends(m, i, j);
    assert(type_order(s)[i] < s.len() && type_order(s)[j] < s.len());
}

// ---------------------------------------------------------------------------
// Laws
// ---------------------------------------------------------------------------

/// Every column of a type table shows what its header says, and the options
/// decide which columns there are.
pub proof fn type_columns_show_what_they_say(
    e: Entry<TypeStat>,
    total: nat,
    opts: ReportOptions,
    i: int,
)
    requires
        0 <= i < type_header(opts).len(),
    ensures
        type_cells(e, total, opts).len() == type_header(opts).len(),
        ({
            let h = type_header(opts)[i];
            let c = type_cells(e, total, opts)[i];
            let t = e.value;
            &&& h == "Type"@ ==> c == (e.name@, false)
            &&& h == "Keys"@ ==> c == (dec(t.count as nat), true)
            &&& h == "%"@ ==> c == (pct_text(t.count as nat, total), true)
            &&& h == "Total mem"@ ==> opts.show_memory && c == (size_text(t.total_bytes), true)
            &&& h == "Avg mem"@ && t.measured > 0 ==> opts.show_memory && c == (
                size_text((t.total_bytes as int / t.measured as int) as u64),
                true,
            )
            &&& h == "Avg mem"@ && t.measured == 0 ==> opts.show_memory && c == (
                size_text(0),
                true,
            )
            &&& h == "Data types"@ ==> opts.show_types && c == (
                data_types_text(t.data_types.listing()),
                false,
            )
            &&& h == "Persist/Expire"@ ==> opts.show_ttl && c == (
                dec(t.persistent as nat) + "/"@ + dec(t.expiring as nat),
                false,
            )
        }),
        type_header(opts).take(3) == seq!["Type"@, "Keys"@, "%"@],
        opts.show_memory ==> type_header(opts)[3] == "Total mem"@ && type_header(opts)[4]
            == "Avg mem"@,
        opts.show_types ==> type_header(opts)[if opts.show_memory {
            5
        } else {
            3
        }] == "Data types"@,
        opts.show_ttl ==> type_header(opts).last() == "Persist/Expire"@,
        type_header(opts).len() == 3 + (if opts.show_memory {
            2int
        } else {
            0
        }) + (if opts.show_types {
            1int
        } else {
            0
        }) + (if opts.show_ttl {
            1int
        } else {
            0
        }),
{
    headers_differ();
    assert(type_header(opts).take(3) =~= seq!["Type"@, "Keys"@, "%"@]);
}

/// Every column of the namespace table shows what its header says.
pub proof fn namespace_columns_show_what_they_say(
    e: Entry<NameMap<TypeStat>>,
    total: u64,
    opts: ReportOptions,
)
    ensures
        ({
            let h = ns_header(opts);
            let c = ns_cells(e, total, opts);
            let keys = weigh(e.value.listing(), |t: TypeStat| t.count as nat);
            let bytes = weigh(e.value.listing(), |t: TypeStat| t.total_bytes as nat);
            &&& h.len() == c.len()
            &&& h.len() == (if opts.show_memory {
                4int
            } else {
                3
            })
            &&& h[0] == "Namespace"@ && c[0] == (e.name@, false)
            &&& h[1] == "Keys"@ && c[1] == (dec(keys), true)
            &&& h[2] == "%"@ && c[2] == (pct_text(keys, total as nat), true)
            &&& opts.show_memory ==> h[3] == "Memory"@ && c[3] == (size_text(bytes as u64), true)
        }),
{
    sums_are_sums(e.value.listing());
}

/// The weights by which namespaces are counted and measured.
proof fn sums_are_sums(s: Seq<Entry<TypeStat>>)
    ensures
        weigh(s, by_count()) == weigh(s, |t: TypeStat| t.count as nat),
        weigh(s, crate::stats::by_bytes()) == weigh(s, |t: TypeStat| t.total_bytes as nat),
    decreases s.len(),
{
    if s.len() > 0 {
        sums_are_sums(s.drop_last());
    }
}

/// The rows of the biggest-keys table number the keys from one on and show
/// size, data type, TTL and key.
pub proof fn biggest_columns_show_what_they_say(b: BigKey, place: nat)
    ensures
        ({
            let c = big_cells(b, place);
            &&& c.len() == 5
            &&& c[0] == (dec(place), true)
            &&& c[1] == (size_text(b.bytes), true)
            &&& b.data_type is Some ==> c[2] == (b.data_type->0@, false)
            &&& b.data_type is None ==> c[2] == ("-"@, false)
            &&& c[3].0 == ttl_text(b.ttl) && !c[3].1
            &&& c[4] == (b.key@, false)
        }),
{
}

/// A TTL is shown in whole seconds, however long; a key without one is
/// persistent, and anything else is unknown.
pub proof fn ttl_is_shown_in_seconds(ttl: Option<i64>)
    ensures
        ttl is Some && ttl->0 >= 0 ==> ttl_text(ttl).last() == 's' && crate::text::value_of(
            ttl_text(ttl).drop_last(),
        ) == ttl->0 && ttl_text(ttl).drop_last() == dec(ttl->0 as nat),
        ttl_text(ttl) == "persistent"@ <==> ttl == Some(-1i64),
        ttl_text(ttl) == "-"@ <==> ttl is None || ttl->0 < -1,
{
    reveal_strlit("s");
    reveal_strlit("persistent");
    reveal_strlit("-");
    if ttl is Some && ttl->0 >= 0 {
        let n = ttl->0 as nat;
        crate::text::decimal_reads_back(n);
        assert(ttl_text(ttl).drop_last() =~= dec(n));
        assert('0' <= dec(n)[0] && dec(n)[0] <= '9');
        assert(ttl_text(ttl)[0] == dec(n)[0]);
        assert("persistent"@[0] == 'p' && "-"@[0] == '-');
    } else {
        assert("persistent"@.len() == 10 && "-"@.len() == 1);
    }
}

/// The cells of a type's row as Markdown writes them: the name in backticks,
/// names escaped, figures as they are.
pub open spec fn md_cells(e: Entry<TypeStat>, total: nat, opts: ReportOptions) -> Seq<Seq<char>> {
    let c = type_cells(e, total, opts);
    Seq::new(
        c.len(),
        |i: int|
            if type_header(opts)[i] == "Type"@ {
                "`"@ + md_escaped(c[i].0) + "`"@
            } else if type_header(opts)[i] == "Data types"@ {
                md_escaped(c[i].0)
            } else {
                c[i].0
            },
    )
}

/// The headers of a type table are pairwise different.
proof fn headers_differ()
    ensures
        "Type"@ != "Keys"@,
        "Type"@ != "%"@,
        "Type"@ != "Total mem"@,
        "Type"@ != "Avg mem"@,
        "Type"@ != "Data types"@,
        "Type"@ != "Persist/Expire"@,
        "Keys"@ != "%"@,
        "Keys"@ != "Total mem"@,
        "Keys"@ != "Avg mem"@,
        "Keys"@ != "Data types"@,
        "Keys"@ != "Persist/Expire"@,
        "%"@ != "Total mem"@,
        "%"@ != "Avg mem"@,
        "%"@ != "Data types"@,
        "%"@ != "Persist/Expire"@,
        "Total mem"@ != "Avg mem"@,
        "Total mem"@ != "Data types"@,
        "Total mem"@ != "Persist/Expire"@,
        "Avg mem"@ != "Data types"@,
        "Avg mem"@ != "Persist/Expire"@,
        "Data types"@ != "Persist/Expire"@,
{
    reveal_strlit("Type");
    reveal_strlit("Keys");
    reveal_strlit("%");
    reveal_strlit("Total mem");
    reveal_strlit("Avg mem");
    reveal_strlit("Data types");
    reveal_strlit("Persist/Expire");
    assert("Type"@[0] == 'T' && "Keys"@[0] == 'K');
    assert("Type"@.len() == 4 && "Keys"@.len() == 4 && "%"@.len() == 1 && "Total mem"@.len() == 9
        && "Avg mem"@.len() == 7 && "Data types"@.len() == 10 && "Persist/Expire"@.len() == 14);
}

/// The Markdown report and the terminal report show the same columns with the
/// same contents, up to Markdown's escaping.
pub proof fn markdown_rows_are_the_terminal_rows(
    e: Entry<TypeStat>,
    total: nat,
    opts: ReportOptions,
)
    ensures
        md_type_row(e, total, opts) == "| "@ + joined(md_cells(e, total, opts), " | "@) + " |\n"@,
        starts_with(md_columns(opts), "| "@ + joined(type_header(opts), " | "@) + " |\n"@),
{
    header_lines(opts);
    cells_in_markdown(e, total, opts);
    row_in_markdown(e, total, opts);
}

/// The cells of a row in the order in which Markdown writes them.
spec fn md_parts(e: Entry<TypeStat>, total: nat, opts: ReportOptions) -> Seq<Seq<char>> {
    let t = e.value;
    let c0 = seq![
        md_key_text(e.name@),
        dec(t.count as nat),
        pct_text(t.count as nat, total),
    ];
    let c1 = if opts.show_memory {
        c0.push(size_text(t.total_bytes)).push(size_text(avg_of(t)))
    } else {
        c0
    };
    let c2 = if opts.show_types {
        c1.push(md_escaped(data_types_text(t.data_types.listing())))
    } else {
        c1
    };
    if opts.show_ttl {
        c2.push(dec(t.persistent as nat) + "/"@ + dec(t.expiring as nat))
    } else {
        c2
    }
}

proof fn cells_in_markdown(e: Entry<TypeStat>, total: nat, opts: ReportOptions)
    ensures
        md_cells(e, total, opts) == md_parts(e, total, opts),
{
    headers_differ();
    assert(md_cells(e, total, opts) =~= md_parts(e, total, opts));
}

proof fn row_in_markdown(e: Entry<TypeStat>, total: nat, opts: ReportOptions)
    ensures
        md_type_row(e, total, opts) == "| "@ + joined(md_parts(e, total, opts), " | "@) + " |\n"@,
{
    let sep = " | "@;
    let bar = "| "@;
    let t = e.value;
    let name = md_key_text(e.name@);
    let keys = dec(t.count as nat);
    let pct = pct_text(t.count as nat, total);
    let c0 = seq![name, keys, pct];
    three_after(bar, name, keys, pct, sep);
    let total_mem = size_text(t.total_bytes);
    let avg_mem = size_text(avg_of(t));
    one_more_after(bar, c0, total_mem, sep);
    one_more_after(bar, c0.push(total_mem), avg_mem, sep);
    let c1 = if opts.show_memory {
        c0.push(total_mem).push(avg_mem)
    } else {
        c0
    };
    let kinds = md_escaped(data_types_text(t.data_types.listing()));
    one_more_after(bar, c1, kinds, sep);
    let c2 = if opts.show_types {
        c1.push(kinds)
    } else {
        c1
    };
    let p = dec(t.persistent as nat);
    let q = dec(t.expiring as nat);
    one_more_after(bar, c2, p + "/"@ + q, sep);
    slashed(bar + joined(c2, sep) + sep, p, q);
}

proof fn three_after(bar: Seq<char>, a: Seq<char>, b: Seq<char>, c: Seq<char>, sep: Seq<char>)
    ensures
        bar + joined(seq![a, b, c], sep) == bar + a + sep + b + sep + c,
{
    three(a, b, c, sep);
    assert(bar + (a + sep + b + sep + c) =~= bar + a + sep + b + sep + c);
}

proof fn one_more_after(bar: Seq<char>, parts: Seq<Seq<char>>, more: Seq<char>, sep: Seq<char>)
    requires
        parts.len() > 0,
    ensures
        bar + joined(parts.push(more), sep) == bar + joined(parts, sep) + sep + more,
{
    one_more(parts, more, sep);
    let j = joined(parts, sep);
    assert(bar + (j + sep + more) =~= bar + j + sep + more);
}

proof fn slashed(a: Seq<char>, p: Seq<char>, q: Seq<char>)
    ensures
        a + (p + "/"@ + q) == a + p + "/"@ + q,
{
    assert(a + (p + "/"@ + q) =~= a + p + "/"@ + q);
}

/// The header line of a Markdown table lists the headers of the terminal's.
proof fn header_lines(opts: ReportOptions)
    ensures
        starts_with(md_columns(opts), "| "@ + joined(type_header(opts), " | "@) + " |\n"@),
{
    reveal_strlit("Type");
    reveal_strlit("Keys");
    reveal_strlit("%");
    reveal_strlit("Total mem");
    reveal_strlit("Avg mem");
    reveal_strlit("Data types");
    reveal_strlit("Persist/Expire");
    reveal_strlit(" | ");
    reveal_strlit("| ");
    reveal_strlit("| Type | Keys | %");
    reveal_strlit(" | Total mem | Avg mem");
    reveal_strlit(" | Data types");
    reveal_strlit(" | Persist/Expire");
    let sep = " | "@;
    let bar = "| "@;
    let h0 = seq!["Type"@, "Keys"@, "%"@];
    three("Type"@, "Keys"@, "%"@, sep);
    let x0 = bar + joined(h0, sep);
    assert(x0 =~= "| Type | Keys | %"@);
    let h1 = if opts.show_memory {
        h0.push("Total mem"@).push("Avg mem"@)
    } else {
        h0
    };
    let x1 = bar + joined(h1, sep);
    if opts.show_memory {
        one_more(h0, "Total mem"@, sep);
        one_more(h0.push("Total mem"@), "Avg mem"@, sep);
        assert(sep + "Total mem"@ + sep + "Avg mem"@ =~= " | Total mem | Avg mem"@);
        assert(x1 =~= x0 + (sep + "Total mem"@ + sep + "Avg mem"@));
    }
    let h2 = if opts.show_types {
        h1.push("Data types"@)
    } else {
        h1
    };
    let x2 = bar + joined(h2, sep);
    if opts.show_types {
        one_more(h1, "Data types"@, sep);
        assert(sep + "Data types"@ =~= " | Data types"@);
        assert(x2 =~= x1 + (sep + "Data types"@));
    }
    let h3 = if opts.show_ttl {
        h2.push("Persist/Expire"@)
    } else {
        h2
    };
    let x3 = bar + joined(h3, sep);
    if opts.show_ttl {
        one_more(h2, "Persist/Expire"@, sep);
        assert(sep + "Persist/Expire"@ =~= " | Persist/Expire"@);
        assert(x3 =~= x2 + (sep + "Persist/Expire"@));
    }
    assert(type_header(opts) =~= h3);
    let line = x3 + " |\n"@;
    assert(md_columns(opts).subrange(0, line.len() as int) =~= line);
}

proof fn three(a: Seq<char>, b: Seq<char>, c: Seq<char>, sep: Seq<char>)
    ensures
        joined(seq![a, b, c], sep) == a + sep + b + sep + c,
{
    assert(seq![a, b, c].drop_last() =~= seq![a, b]);
    assert(seq![a, b].drop_last() =~= seq![a]);
    assert(joined(seq![a], sep) == a);
    assert(joined(seq![a, b], sep) == a + sep + b);
}

proof fn one_more(parts: Seq<Seq<char>>, more: Seq<char>, sep: Seq<char>)
    requires
        parts.len() > 0,
    ensures
        joined(parts.push(more), sep) == joined(parts, sep) + sep + more,
{
    assert(parts.push(more).drop_last() =~= parts);
}

/// What stands in a part stands in the whole.
proof fn in_the_whole(a: Seq<char>, b: Seq<char>, p: Seq<char>)
    ensures
        contains(a, p) ==> contains(a + b, p),
        contains(b, p) ==> contains(a + b, p),
        contains(p, p),
{
    if contains(a, p) {
        let i = choose|i: int| occurs_at(a, p, i);
        assert((a + b).subrange(i, i + p.len()) =~= p);
        assert(occurs_at(a + b, p, i));
    }
    if contains(b, p) {
        let i = choose|i: int| occurs_at(b, p, i);
        assert((a + b).subrange(a.len() + i, a.len() + i + p.len()) =~= b.subrange(i, i + p.len()));
        assert(occurs_at(a + b, p, a.len() + i));
    }
    assert(p.subrange(0, p.len() as int) =~= p);
    assert(occurs_at(p, p, 0));
}

/// The place of a namespace in the order of the reports.
proof fn place_of_namespace(stats: Stats, at: int) -> (k: int)
    requires
        stats.namespaces.listing().len() <= usize::MAX,
        0 <= at < stats.namespaces.listing().len(),
    ensures
        0 <= k < stats.namespaces.listing().len(),
        ns_order(stats)[k] == at,
{
    crate::order::descending_is_complete(ns_metrics(stats));
    assert(ns_order(stats).contains(at as usize));
    choose|k: int| 0 <= k < ns_order(stats).len() && ns_order(stats)[k] == at as usize
}

/// Every namespace has its row and its section in the Markdown report, and its
/// section and its row of cells in the terminal report.
pub proof fn reports_show_every_namespace(
    stats: Stats,
    opts: ReportOptions,
    big: Seq<BigKey>,
    at: int,
)
    requires
        stats.namespaces.listing().len() <= usize::MAX,
        0 <= at < stats.namespaces.listing().len(),
    ensures
        ({
            let e = stats.namespaces.listing()[at];
            &&& contains(md_document(stats, opts, big), md_ns_row(e, stats.total_keys, opts))
            &&& contains(md_document(stats, opts, big), md_section(e, opts))
            &&& contains(term_document(stats, opts, big), term_section(e, opts))
            &&& contains(
                term_document(stats, opts, big),
                table_text(
                    ns_header(opts),
                    Seq::new(
                        stats.namespaces.listing().len(),
                        |i: int|
                            ns_cells(
                                stats.namespaces.listing()[ns_order(stats)[i] as int],
                                stats.total_keys,
                                opts,
                            ),
                    ),
                ),
            )
            &&& exists|k: int|
                0 <= k < stats.namespaces.listing().len() && #[trigger] ns_order(stats)[k] == at
        }),
{
    let e = stats.namespaces.listing()[at];
    let n = stats.namespaces.listing().len();
    let k = place_of_namespace(stats, at);
    crate::order::descending_is_complete(ns_metrics(stats));
    rows_hold(stats, opts, n, k);
    let row = md_ns_row(e, stats.total_keys, opts);
    let section = md_section(e, opts);
    let a = md_opening(stats, opts);
    let b = md_ns_rows(stats, opts, n);
    let c = md_sections(stats, opts, n);
    in_the_whole(a, b, row);
    in_the_whole(a + b, "\n"@, row);
    in_the_whole(a + b + "\n"@, c, row);
    in_the_whole(a + b + "\n"@ + c, md_biggest(big, opts), row);
    in_the_whole(a + b + "\n"@, c, section);
    in_the_whole(a + b + "\n"@ + c, md_biggest(big, opts), section);
    let t = term_section(e, opts);
    let head = "\n=== Namespace summary ===\n"@ + ns_table(stats, opts) + "\nTotal keys: "@ + dec(
        stats.total_keys as nat,
    ) + "\n"@;
    let d = term_sections(stats, opts, n);
    in_the_whole(head, d, t);
    in_the_whole(head + d, term_biggest(big, opts), t);
    let table = ns_table(stats, opts);
    in_the_whole("\n=== Namespace summary ===\n"@, table, table);
    in_the_whole("\n=== Namespace summary ===\n"@ + table, "\nTotal keys: "@, table);
    in_the_whole(
        "\n=== Namespace summary ===\n"@ + table + "\nTotal keys: "@,
        dec(stats.total_keys as nat),
        table,
    );
    in_the_whole(
        "\n=== Namespace summary ===\n"@ + table + "\nTotal keys: "@ + dec(
            stats.total_keys as nat,
        ),
        "\n"@,
        table,
    );
    in_the_whole(head, d, table);
    in_the_whole(head + d, term_biggest(big, opts), table);
    assert(Seq::new(
        ns_order(stats).len(),
        |i: int|
            ns_cells(
                stats.namespaces.listing()[ns_order(stats)[i] as int],
                stats.total_keys,
                opts,
            ),
    ) =~= Seq::new(
        n,
        |i: int|
            ns_cells(
                stats.namespaces.listing()[ns_order(stats)[i] as int],
                stats.total_keys,
                opts,
            ),
    ));
}

proof fn rows_hold(stats: Stats, opts: ReportOptions, n: nat, k: int)
    requires
        0 <= k < n,
    ensures
        contains(
            md_ns_rows(stats, opts, n),
            md_ns_row(
                stats.namespaces.listing()[ns_order(stats)[k] as int],
                stats.total_keys,
                opts,
            ),
        ),
        contains(
            md_sections(stats, opts, n),
            md_section(stats.namespaces.listing()[ns_order(stats)[k] as int], opts),
        ),
        contains(
            term_sections(stats, opts, n),
            term_section(stats.namespaces.listing()[ns_order(stats)[k] as int], opts),
        ),
    decreases n,
{
    let m = (n - 1) as nat;
    let e = stats.namespaces.listing()[ns_order(stats)[k] as int];
    let last = stats.namespaces.listing()[ns_order(stats)[n - 1] as int];
    if k < m {
        rows_hold(stats, opts, m, k);
    }
    in_the_whole(
        md_ns_rows(stats, opts, m),
        md_ns_row(last, stats.total_keys, opts),
        md_ns_row(e, stats.total_keys, opts),
    );
    in_the_whole(md_sections(stats, opts, m), md_section(last, opts), md_section(e, opts));
    in_the_whole(term_sections(stats, opts, m), term_section(last, opts), term_section(e, opts));
}

/// A section names its namespace with all its keys and types, and shows the
/// types with the most keys: all of them, or the first `top`. Below it stand
/// how many types are hidden, and their keys.
pub proof fn sections_show_the_largest_types(
    e: Entry<NameMap<TypeStat>>,
    opts: ReportOptions,
    k: int,
)
    requires
        e.value.listing().len() <= usize::MAX,
        0 <= k < e.value.listing().len(),
        opts.top == 0 || k < opts.top,
    ensures
        ({
            let s = e.value.listing();
            let keys = weigh(s, |t: TypeStat| t.count as nat);
            let o = type_order(s);
            let shown = if opts.top == 0 || s.len() < opts.top {
                s.len()
            } else {
                opts.top as nat
            };
            &&& o[k] < s.len()
            &&& starts_with(
                md_section(e, opts),
                "## `"@ + md_escaped(e.name@) + "` — "@ + dec(keys) + " keys, "@ + dec(s.len())
                    + " types\n\n"@ + md_columns(opts),
            )
            &&& contains(md_section(e, opts), md_type_row(s[o[k] as int], keys, opts))
            &&& starts_with(
                term_section(e, opts),
                "\n--- "@ + e.name@ + " ("@ + dec(keys) + " keys, "@ + dec(s.len())
                    + " types) ---\n"@ + table_text(
                    type_header(opts),
                    Seq::new(shown, |i: int| type_cells(s[o[i] as int], keys, opts)),
                ),
            )
            &&& shown < s.len() ==> {
                let hidden = (keys - keys_at(s, o.take(shown as int))) as nat;
                &&& contains(
                    md_section(e, opts),
                    "\n_"@ + dec((s.len() - shown) as nat) + " more types hidden ("@ + dec(hidden)
                        + " keys)._\n"@,
                )
                &&& contains(
                    term_section(e, opts),
                    "  … "@ + dec((s.len() - shown) as nat) + " more types hidden ("@ + dec(hidden)
                        + " keys). Use --top 0 to show all.\n"@,
                )
            }
        }),
{
    let s = e.value.listing();
    let m = e.value;
    let o = type_order(s);
    let shown = shown_of(opts.top, s.len());
    crate::order::descending_is_complete(type_metrics(s));
    sums_are_sums(s);
    let keys = by_ns_count()(m);
    assert(o[k] < s.len());
    types_hold(m, opts, shown, k);
    let row = md_type_row(s[o[k] as int], keys, opts);
    let a = md_headline(e) + md_columns(opts);
    let b = md_type_rows(m, opts, shown);
    let c = md_note(m, opts);
    in_the_whole(a, b, row);
    in_the_whole(a + b, c, row);
    in_the_whole(a + b + c, "\n"@, row);
    assert(md_section(e, opts).subrange(0, a.len() as int) =~= a);
    let head = "\n--- "@ + e.name@ + " ("@ + dec(keys) + " keys, "@ + dec(s.len())
        + " types) ---\n"@;
    let table = type_table(m, opts);
    let start = head + table;
    assert(term_section(e, opts).subrange(0, start.len() as int) =~= start);
    shown_and_hidden_are_all(s, shown);
    in_the_whole(a + b, c, c);
    in_the_whole(a + b + c, "\n"@, c);
    let d = term_note(m, opts);
    in_the_whole(start + "\n"@, d, d);
}

proof fn types_hold(m: NameMap<TypeStat>, opts: ReportOptions, n: nat, k: int)
    requires
        0 <= k < n,
    ensures
        contains(
            md_type_rows(m, opts, n),
            md_type_row(m.listing()[type_order(m.listing())[k] as int], by_ns_count()(m), opts),
        ),
    decreases n,
{
    let p = (n - 1) as nat;
    let o = type_order(m.listing());
    if k < p {
        types_hold(m, opts, p, k);
    }
    in_the_whole(
        md_type_rows(m, opts, p),
        md_type_row(m.listing()[o[n - 1] as int], by_ns_count()(m), opts),
        md_type_row(m.listing()[o[k] as int], by_ns_count()(m), opts),
    );
}

/// The Markdown row of a namespace shows the cells of its terminal row, the
/// name escaped.
pub proof fn markdown_namespace_rows_are_the_terminal_rows(
    e: Entry<NameMap<TypeStat>>,
    total: u64,
    opts: ReportOptions,
)
    ensures
        ({
            let c = ns_cells(e, total, opts);
            md_ns_row(e, total, opts) == "| "@ + joined(
                Seq::new(
                    c.len(),
                    |i: int|
                        if i == 0 {
                            md_escaped(c[i].0)
                        } else {
                            c[i].0
                        },
                ),
                " | "@,
            ) + " |\n"@
        }),
{
    let c = ns_cells(e, total, opts);
    let parts = Seq::new(
        c.len(),
        |i: int|
            if i == 0 {
                md_escaped(c[i].0)
            } else {
                c[i].0
            },
    );
    let a = md_escaped(e.name@);
    let b = c[1].0;
    let d = c[2].0;
    three_after("| "@, a, b, d, " | "@);
    if opts.show_memory {
        one_more_after("| "@, seq![a, b, d], c[3].0, " | "@);
        assert(parts =~= seq![a, b, d].push(c[3].0));
    } else {
        assert(parts =~= seq![a, b, d]);
    }
}

/// Every one of the biggest keys has its row in the reports, at its place, if
/// they are asked for.
pub proof fn reports_show_every_big_key(
    stats: Stats,
    opts: ReportOptions,
    big: Seq<BigKey>,
    k: int,
)
    requires
        0 <= k < big.len(),
        opts.biggest > 0,
    ensures
        contains(
            md_document(stats, opts, big),
            "| "@ + dec((k + 1) as nat) + " | "@ + size_text(big[k].bytes) + " | "@ + or_dash(
                big[k].data_type,
            ) + " | "@ + ttl_text(big[k].ttl) + " | "@ + ("`"@ + md_escaped(big[k].key@) + "`"@)
                + " |\n"@,
        ),
        contains(
            term_document(stats, opts, big),
            "\n=== Biggest "@ + dec(big.len()) + " keys ===\n"@ + table_text(
                seq!["#"@, "Size"@, "Type"@, "TTL"@, "Key"@],
                Seq::new(big.len(), |i: int| big_cells(big[i], (i + 1) as nat)),
            ),
        ),
{
    let n = stats.namespaces.listing().len();
    let row = "| "@ + dec((k + 1) as nat) + " | "@ + size_text(big[k].bytes) + " | "@ + or_dash(
        big[k].data_type,
    ) + " | "@ + ttl_text(big[k].ttl) + " | "@ + ("`"@ + md_escaped(big[k].key@) + "`"@) + " |\n"@;
    big_hold(big, big.len(), k);
    let front = "## Biggest "@ + dec(big.len())
        + " keys\n\n| # | Size | Type | TTL | Key |\n|--:|--:|---|---|---|\n"@;
    let rows = md_big_rows(big, big.len());
    in_the_whole(front, rows, row);
    in_the_whole(front + rows, "\n"@, row);
    let doc = md_opening(stats, opts) + md_ns_rows(stats, opts, n) + "\n"@ + md_sections(
        stats,
        opts,
        n,
    );
    in_the_whole(doc, md_biggest(big, opts), row);
    let section = "\n=== Biggest "@ + dec(big.len()) + " keys ===\n"@ + table_text(
        seq!["#"@, "Size"@, "Type"@, "TTL"@, "Key"@],
        Seq::new(big.len(), |i: int| big_cells(big[i], (i + 1) as nat)),
    );
    in_the_whole(section, "\n"@, section);
    let head = "\n=== Namespace summary ===\n"@ + ns_table(stats, opts) + "\nTotal keys: "@ + dec(
        stats.total_keys as nat,
    ) + "\n"@ + term_sections(stats, opts, n);
    in_the_whole(head, term_biggest(big, opts), section);
}

proof fn big_hold(big: Seq<BigKey>, n: nat, k: int)
    requires
        0 <= k < n <= big.len(),
    ensures
        contains(
            md_big_rows(big, n),
            "| "@ + dec((k + 1) as nat) + " | "@ + size_text(big[k].bytes) + " | "@ + or_dash(
                big[k].data_type,
            ) + " | "@ + ttl_text(big[k].ttl) + " | "@ + ("`"@ + md_escaped(big[k].key@) + "`"@)
                + " |\n"@,
        ),
    decreases n,
{
    let p = (n - 1) as nat;
    let b = big[n - 1];
    let last = "| "@ + dec(n) + " | "@ + size_text(b.bytes) + " | "@ + or_dash(b.data_type) + " | "@
        + ttl_text(b.ttl) + " | "@ + md_key_text(b.key@) + " |\n"@;
    let row = "| "@ + dec((k + 1) as nat) + " | "@ + size_text(big[k].bytes) + " | "@ + or_dash(
        big[k].data_type,
    ) + " | "@ + ttl_text(big[k].ttl) + " | "@ + ("`"@ + md_escaped(big[k].key@) + "`"@) + " |\n"@;
    if k < p {
        big_hold(big, p, k);
    }
    in_the_whole(md_big_rows(big, p), last, row);
}

/// A document that is not asked for the biggest keys, or has none, does not
/// mention them.
pub proof fn biggest_keys_are_optional(opts: ReportOptions, big: Seq<BigKey>)
    ensures
        opts.biggest == 0 || big.len() == 0 ==> md_biggest(big, opts).len() == 0 && term_biggest(
            big,
            opts,
        ).len() == 0,
{
}

/// The terminal report states the number of all keys.
pub proof fn terminal_report_states_all_keys(stats: Stats, opts: ReportOptions, big: Seq<BigKey>)
    ensures
        contains(
            term_document(stats, opts, big),
            "\nTotal keys: "@ + dec(stats.total_keys as nat) + "\n"@,
        ),
{
    let n = stats.namespaces.listing().len();
    let a = "\n=== Namespace summary ===\n"@ + ns_table(stats, opts);
    let line = "\nTotal keys: "@ + dec(stats.total_keys as nat) + "\n"@;
    let b = term_sections(stats, opts, n);
    in_the_whole(a, line, line);
    in_the_whole(a + line, b, line);
    in_the_whole(a + line + b, term_biggest(big, opts), line);
    regrouped(a, "\nTotal keys: "@, dec(stats.total_keys as nat), "\n"@);
}

proof fn regrouped(a: Seq<char>, b: Seq<char>, c: Seq<char>, d: Seq<char>)
    ensures
        a + (b + c + d) == a + b + c + d,
{
    assert(a + (b + c + d) =~= a + b + c + d);
}

/// The Markdown report opens with the number of keys and namespaces, and with
/// the memory measured if that is asked for.
pub proof fn markdown_report_opens_with_the_totals(
    stats: Stats,
    opts: ReportOptions,
    big: Seq<BigKey>,
)
    ensures
        starts_with(
            md_document(stats, opts, big),
            "# Redis Insights Report\n\n- **Total keys scanned:** "@ + dec(
                stats.total_keys as nat,
            ) + "\n- **Namespaces:** "@ + dec(stats.namespaces.listing().len()) + "\n"@,
        ),
        opts.show_memory ==> starts_with(
            md_document(stats, opts, big),
            "# Redis Insights Report\n\n- **Total keys scanned:** "@ + dec(
                stats.total_keys as nat,
            ) + "\n- **Namespaces:** "@ + dec(stats.namespaces.listing().len()) + "\n"@
                + "- **Measured memory:** "@ + size_text(stats.measured_bytes) + "\n"@,
        ),
{
    let n = stats.namespaces.listing().len();
    let doc = md_document(stats, opts, big);
    let a = "# Redis Insights Report\n\n- **Total keys scanned:** "@ + dec(stats.total_keys as nat)
        + "\n- **Namespaces:** "@ + dec(n) + "\n"@;
    let b = a + "- **Measured memory:** "@ + size_text(stats.measured_bytes) + "\n"@;
    let open = md_opening(stats, opts);
    let x = md_ns_rows(stats, opts, n);
    let y = md_sections(stats, opts, n);
    starts_as(open, x);
    starts_as(open + x, "\n"@);
    starts_as(open + x + "\n"@, y);
    starts_as(open + x + "\n"@ + y, md_biggest(big, opts));
    assert(doc.take(open.len() as int) == open) by {
        assert(doc.take(open.len() as int) =~= (open + x + "\n"@ + y).take(open.len() as int));
        assert((open + x + "\n"@ + y).take(open.len() as int) =~= (open + x + "\n"@).take(
            open.len() as int,
        ));
        assert((open + x + "\n"@).take(open.len() as int) =~= (open + x).take(open.len() as int));
    }
    assert(open.take(a.len() as int) =~= a);
    assert(doc.subrange(0, a.len() as int) =~= open.take(a.len() as int));
    if opts.show_memory {
        assert(open.take(b.len() as int) =~= b);
        assert(doc.subrange(0, b.len() as int) =~= open.take(b.len() as int));
    }
}

proof fn starts_as(a: Seq<char>, b: Seq<char>)
    ensures
        (a + b).take(a.len() as int) == a,
        (a + b).len() >= a.len(),
{
    assert((a + b).take(a.len() as int) =~= a);
}

/// A breakdown lists every data type with its number of keys, most keys first;
/// equal ones by name.
pub proof fn breakdown_lists_every_data_type(s: Seq<Entry<u64>>, i: int, j: int)
    requires
        crate::names::in_name_order(s),
        s.len() <= usize::MAX,
        0 <= i < s.len(),
        0 <= j < s.len(),
    ensures
        ({
            let o = descending(tally_metrics(s));
            &&& o.len() == s.len()
            &&& o[i] < s.len() && o[j] < s.len() && (i != j ==> o[i] != o[j])
            &&& i < j ==> s[o[i] as int].value > s[o[j] as int].value || (s[o[i] as int].value
                == s[o[j] as int].value && crate::text::lex_lt(
                s[o[i] as int].name@,
                s[o[j] as int].name@,
            ))
            &&& data_types_text(s) == joined(
                Seq::new(
                    s.len(),
                    |k: int|
                        s[o[k] as int].name@ + ":"@ + dec(s[o[k] as int].value as nat),
                ),
                " "@,
            )
        }),
{
    let o = descending(tally_metrics(s));
    crate::order::descending_is_complete(tally_metrics(s));
    if i < j {
        crate::order::descending_descends(tally_metrics(s), i, j);
    }
    assert(o[i] < s.len() && o[j] < s.len());
    assert(Seq::new(o.len(), |i: int| tally_text(s[o[i] as int])) =~= Seq::new(
        s.len(),
        |k: int| s[o[k] as int].name@ + ":"@ + dec(s[o[k] as int].value as nat),
    ));
}

/// Escaping goes character by character: a pipe follows a backslash, a line
/// break is a space, any other control character is written as `\x` and two
/// hexadecimal digits that stand for it, and every other character stays.
pub proof fn escaping_goes_by_characters(a: Seq<char>, b: Seq<char>, c: char)
    ensures
        md_escaped(a + b) == md_escaped(a) + md_escaped(b),
        c == '|' ==> md_escaped(seq![c]) == seq!['\\', '|'],
        c == '\n' || c == '\r' ==> md_escaped(seq![c]) == seq![' '],
        c != '\n' && c != '\r' && ((c as u32) < 0x20 || 0x7f <= (c as u32) <= 0x9f) ==> {
            let e = md_escaped(seq![c]);
            &&& e.len() == 4
            &&& e[0] == '\\'
            &&& e[1] == 'x'
            &&& crate::value::hex_value(e.skip(2)) == c as u32
        },
        c != '|' && (c as u32) >= 0x20 && !(0x7f <= (c as u32) <= 0x9f) ==> md_escaped(seq![c])
            == seq![c],
    decreases b.len(),
{
    reveal_strlit("\\|");
    reveal_strlit(" ");
    reveal_strlit("\\x");
    assert(seq![c].drop_last() =~= Seq::<char>::empty());
    assert(md_escaped(Seq::<char>::empty()) =~= Seq::<char>::empty());
    assert(md_escaped(seq![c]) == md_escaped(Seq::<char>::empty()) + md_char(seq![c].last()));
    assert(md_escaped(seq![c]) =~= md_char(c));
    if is_control(c) {
        assert(crate::value::sixteens(2) == 256) by {
            reveal_with_fuel(crate::value::sixteens, 3);
        }
        crate::value::hex_reads_back(c as u32 as nat, 2);
        assert(("\\x"@ + hex_of(c as u32 as nat, 2)).skip(2) =~= hex_of(c as u32 as nat, 2));
    }
    if c == '|' {
        assert(md_char(c) =~= seq!['\\', '|']);
    } else if c == '\n' || c == '\r' {
        assert(md_char(c) =~= seq![' ']);
    }
    if b.len() == 0 {
        assert(a + b =~= a);
        assert(md_escaped(a) + md_escaped(b) =~= md_escaped(a));
    } else {
        escaping_goes_by_characters(a, b.drop_last(), c);
        assert((a + b).drop_last() =~= a + b.drop_last());
        assert((a + b).last() == b.last());
        assert(md_escaped(a) + md_escaped(b.drop_last()) + md_char(b.last()) =~= md_escaped(a) + (
        md_escaped(b.drop_last()) + md_char(b.last())));
    }
}

/// The line below a Markdown header: figures stand on the right, as they do on
/// the terminal, and names on the left.
pub open spec fn md_rule(cells: Seq<(Seq<char>, bool)>) -> Seq<char> {
    "|"@ + joined(
        Seq::new(
            cells.len(),
            |i: int|
                if cells[i].1 {
                    "--:"@
                } else {
                    "---"@
                },
        ),
        "|"@,
    ) + "|\n"@
}

/// The header of a Markdown type table is that of the terminal's, followed by a
/// line that aligns the columns as the terminal does.
pub proof fn markdown_columns_are_the_terminal_columns(
    e: Entry<TypeStat>,
    total: nat,
    opts: ReportOptions,
)
    ensures
        md_columns(opts) == "| "@ + joined(type_header(opts), " | "@) + " |\n"@ + md_rule(
            type_cells(e, total, opts),
        ),
{
    header_lines(opts);
    reveal_strlit("|---|--:|--:");
    reveal_strlit("|--:|--:");
    reveal_strlit("|---");
    reveal_strlit("|\n");
    reveal_strlit("|");
    reveal_strlit("--:");
    reveal_strlit("---");
    let cells = type_cells(e, total, opts);
    let marks = Seq::new(
        cells.len(),
        |i: int|
            if cells[i].1 {
                "--:"@
            } else {
                "---"@
            },
    );
    let bar = "|"@;
    let r = "--:"@;
    let l = "---"@;
    let m0 = seq![l, r, r];
    three_after(bar, l, r, r, bar);
    let x0 = bar + joined(m0, bar);
    assert(x0 =~= "|---|--:|--:"@);
    let m1 = if opts.show_memory {
        m0.push(r).push(r)
    } else {
        m0
    };
    let x1 = bar + joined(m1, bar);
    one_more_after(bar, m0, r, bar);
    one_more_after(bar, m0.push(r), r, bar);
    if opts.show_memory {
        assert(x1 =~= x0 + "|--:|--:"@);
    }
    let m2 = if opts.show_types {
        m1.push(l)
    } else {
        m1
    };
    let x2 = bar + joined(m2, bar);
    one_more_after(bar, m1, l, bar);
    if opts.show_types {
        assert(x2 =~= x1 + "|---"@);
    }
    let m3 = if opts.show_ttl {
        m2.push(l)
    } else {
        m2
    };
    let x3 = bar + joined(m3, bar);
    one_more_after(bar, m2, l, bar);
    if opts.show_ttl {
        assert(x3 =~= x2 + "|---"@);
    }
    assert(marks =~= m3);
    rule_follows(opts, x3);
}

proof fn rule_follows(opts: ReportOptions, rule: Seq<char>)
    requires
        rule == {
            let s0 = "|---|--:|--:"@;
            let s1 = if opts.show_memory {
                s0 + "|--:|--:"@
            } else {
                s0
            };
            let s2 = if opts.show_types {
                s1 + "|---"@
            } else {
                s1
            };
            if opts.show_ttl {
                s2 + "|---"@
            } else {
                s2
            }
        },
        starts_with(md_columns(opts), "| "@ + joined(type_header(opts), " | "@) + " |\n"@),
    ensures
        md_columns(opts) == "| "@ + joined(type_header(opts), " | "@) + " |\n"@ + (rule
            + "|\n"@),
{
    header_length(opts);
    let line = "| "@ + joined(type_header(opts), " | "@) + " |\n"@;
    let all = md_columns(opts);
    let n = line.len() as int;
    assert(all.subrange(0, n) == line);
    assert(all.skip(n) =~= rule + "|\n"@);
    assert(all =~= all.subrange(0, n) + all.skip(n));
}

/// How long the header line of a type table is.
proof fn header_length(opts: ReportOptions)
    ensures
        ({
            let h0 = "| Type | Keys | %"@.len();
            let h1 = h0 + (if opts.show_memory {
                " | Total mem | Avg mem"@.len()
            } else {
                0
            });
            let h2 = h1 + (if opts.show_types {
                " | Data types"@.len()
            } else {
                0
            });
            let h3 = h2 + (if opts.show_ttl {
                " | Persist/Expire"@.len()
            } else {
                0
            });
            ("| "@ + joined(type_header(opts), " | "@) + " |\n"@).len() == h3 + " |\n"@.len()
        }),
{
    reveal_strlit("Type");
    reveal_strlit("Keys");
    reveal_strlit("%");
    reveal_strlit("Total mem");
    reveal_strlit("Avg mem");
    reveal_strlit("Data types");
    reveal_strlit("Persist/Expire");
    reveal_strlit(" | ");
    reveal_strlit("| ");
    reveal_strlit("| Type | Keys | %");
    reveal_strlit(" | Total mem | Avg mem");
    reveal_strlit(" | Data types");
    reveal_strlit(" | Persist/Expire");
    let sep = " | "@;
    let h0 = seq!["Type"@, "Keys"@, "%"@];
    three("Type"@, "Keys"@, "%"@, sep);
    one_more(h0, "Total mem"@, sep);
    one_more(h0.push("Total mem"@), "Avg mem"@, sep);
    let h1 = if opts.show_memory {
        h0.push("Total mem"@).push("Avg mem"@)
    } else {
        h0
    };
    one_more(h1, "Data types"@, sep);
    let h2 = if opts.show_types {
        h1.push("Data types"@)
    } else {
        h1
    };
    one_more(h2, "Persist/Expire"@, sep);
}

/// The namespace summary of the Markdown report has the columns of the
/// terminal's.
pub proof fn markdown_summary_has_the_terminal_columns(stats: Stats, opts: ReportOptions)
    ensures
        opts.show_memory ==> crate::text::ends_with(
            md_opening(stats, opts),
            "\n## Namespace summary\n\n"@
                + "| Namespace | Keys | % | Memory |\n|---|--:|--:|--:|\n"@,
        ),
        !opts.show_memory ==> crate::text::ends_with(
            md_opening(stats, opts),
            "\n## Namespace summary\n\n"@ + "| Namespace | Keys | % |\n|---|--:|--:|\n"@,
        ),
{
    let o = md_opening(stats, opts);
    let a = "\n## Namespace summary\n\n"@
        + "| Namespace | Keys | % | Memory |\n|---|--:|--:|--:|\n"@;
    let b = "\n## Namespace summary\n\n"@ + "| Namespace | Keys | % |\n|---|--:|--:|\n"@;
    if opts.show_memory {
        assert(o.subrange(o.len() - a.len(), o.len() as int) =~= a);
    } else {
        assert(o.subrange(o.len() - b.len(), o.len() as int) =~= b);
    }
}

} // verus!
