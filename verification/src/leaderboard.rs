//! The biggest-keys leaderboard: a bounded min-heap of the largest keys seen.
//!
//! The heap keeps its smallest key on top, so a full leaderboard decides in
//! constant time whether a newcomer can enter, and memory stays bounded by the
//! capacity no matter how many keys are offered.

use crate::order::{
    arrange, arrangement, arrangement_exists, arrangement_is_complete, arranges, permute,
    permuted_multiset, strict_total,
};
use crate::text::{lex_irreflexive, lex_lt, lex_total, lex_transitive, rank, Rank};
use vstd::multiset::Multiset;
use vstd::prelude::*;

verus! {

/// A single key retained in the biggest-keys leaderboard.
#[derive(Debug, Clone, PartialEq, Eq)]
pub struct BigKey {
    pub key: String,
    pub bytes: u64,
    pub data_type: Option<String>,
    pub ttl: Option<i64>,
}

/// An optional text, copied.
pub fn copy_text(o: &Option<String>) -> (r: Option<String>)
    ensures
        r == *o,
{
    match o {
        Some(s) => Some(s.clone()),
        None => None,
    }
}

impl BigKey {
    /// The same key again.
    pub fn copy(&self) -> (r: BigKey)
        ensures
            r == *self,
    {
        BigKey {
            key: self.key.clone(),
            bytes: self.bytes,
            data_type: copy_text(&self.data_type),
            ttl: self.ttl,
        }
    }
}

/// The heap order: by size, then by key name.
pub open spec fn below(a: BigKey, b: BigKey) -> bool {
    a.bytes < b.bytes || (a.bytes == b.bytes && lex_lt(a.key@, b.key@))
}

/// The display order: larger keys first, equal sizes by key name.
pub open spec fn outranks(a: BigKey, b: BigKey) -> bool {
    a.bytes > b.bytes || (a.bytes == b.bytes && lex_lt(a.key@, b.key@))
}

/// No key of the listing outranks one before it.
pub open spec fn in_display_order(s: Seq<BigKey>) -> bool {
    forall|i: int, j: int|
        #![trigger s[i], s[j]]
        0 <= i < j < s.len() ==> !outranks(s[j], s[i])
}

/// Whether `a` comes before `b` in the heap order.
fn is_below(a: &BigKey, b: &BigKey) -> (r: bool)
    ensures
        r == below(*a, *b),
{
    if a.bytes != b.bytes {
        a.bytes < b.bytes
    } else {
        match rank(a.key.as_str(), b.key.as_str()) {
            Rank::Before => true,
            _ => false,
        }
    }
}

/// Whether `a` comes before `b` in the display order.
fn does_outrank(a: &BigKey, b: &BigKey) -> (r: bool)
    ensures
        r == outranks(*a, *b),
{
    if a.bytes != b.bytes {
        a.bytes > b.bytes
    } else {
        match rank(a.key.as_str(), b.key.as_str()) {
            Rank::Before => true,
            _ => false,
        }
    }
}

/// The heap order is a strict weak order.
proof fn below_laws(a: BigKey, b: BigKey, c: BigKey)
    ensures
        !below(a, a),
        below(a, b) ==> !below(b, a),
        !below(b, a) && !below(c, b) ==> !below(c, a),
{
    lex_irreflexive(a.key@);
    if a.bytes == b.bytes && lex_lt(a.key@, b.key@) && lex_lt(b.key@, a.key@) {
        lex_transitive(a.key@, b.key@, a.key@);
    }
    if !below(b, a) && !below(c, b) && below(c, a) {
        lex_total(a.key@, b.key@);
        lex_total(b.key@, c.key@);
        if lex_lt(a.key@, b.key@) && lex_lt(b.key@, c.key@) {
            lex_transitive(a.key@, b.key@, c.key@);
        }
        if lex_lt(a.key@, c.key@) && lex_lt(c.key@, a.key@) {
            lex_transitive(a.key@, c.key@, a.key@);
            lex_irreflexive(a.key@);
        }
    }
}

/// The position above `i` in the heap.
pub open spec fn parent(i: int) -> int {
    (i - 1) / 2
}

/// No key is below its parent.
pub open spec fn heap_ordered(s: Seq<BigKey>) -> bool {
    forall|i: int| 0 < i < s.len() ==> !below(#[trigger] s[i], s[parent(i)])
}

/// No key of `s` is below `m`.
pub open spec fn least(s: Multiset<BigKey>, m: BigKey) -> bool {
    forall|x: BigKey| #[trigger] s.contains(x) ==> !below(x, m)
}

/// What the leaderboard holds after `e` was offered to one that held `before`:
/// a leaderboard with room takes the key in, a full one replaces its smallest
/// key by a larger newcomer and turns any other newcomer away.
pub open spec fn offered(
    before: Multiset<BigKey>,
    cap: nat,
    e: BigKey,
    after: Multiset<BigKey>,
) -> bool {
    if cap == 0 {
        after == before
    } else if before.len() < cap {
        after == before.insert(e)
    } else {
        exists|m: BigKey|
            {
                &&& #[trigger] before.contains(m)
                &&& least(before, m)
                &&& after == (if e.bytes <= m.bytes {
                    before
                } else {
                    before.remove(m).insert(e)
                })
            }
    }
}

/// `kept` holds the `cap` largest of the keys in `history`: it is part of it,
/// as many as there is room for, and nothing left out is larger than anything
/// kept.
pub open spec fn keeps_largest(
    history: Multiset<BigKey>,
    cap: nat,
    kept: Multiset<BigKey>,
) -> bool {
    &&& kept.subset_of(history)
    &&& kept.len() == (if history.len() < cap {
        history.len()
    } else {
        cap
    })
    &&& forall|d: BigKey, k: BigKey|
        #![trigger history.count(d), kept.contains(k)]
        history.count(d) > kept.count(d) && kept.contains(k) ==> d.bytes <= k.bytes
}

/// The empty leaderboard keeps the largest of no keys.
pub proof fn empty_keeps_largest(cap: nat)
    ensures
        keeps_largest(Multiset::empty(), cap, Multiset::empty()),
{
}

/// Offering one more key to a leaderboard that keeps the largest keys leaves it
/// keeping the largest keys, the new one among the candidates. So whatever was
/// offered, in whatever order, the largest keys are the ones retained.
pub proof fn offering_keeps_largest(
    history: Multiset<BigKey>,
    cap: nat,
    kept: Multiset<BigKey>,
    e: BigKey,
    after: Multiset<BigKey>,
)
    requires
        keeps_largest(history, cap, kept),
        offered(kept, cap, e, after),
    ensures
        keeps_largest(history.insert(e), cap, after),
{
    let grown = history.insert(e);
    if cap == 0 {
        assert(kept.len() == 0);
        assert forall|d: BigKey, k: BigKey|
            #![trigger grown.count(d), after.contains(k)]
            grown.count(d) > after.count(d) && after.contains(k) implies d.bytes <= k.bytes by {}
    } else if kept.len() < cap {
        assert(kept.len() == history.len());
        assert forall|x: BigKey| kept.count(x) == history.count(x) by {
            subset_of_same_size(kept, history, x);
        }
        assert(kept =~= history);
    } else {
        let m = choose|m: BigKey|
            {
                &&& #[trigger] kept.contains(m)
                &&& least(kept, m)
                &&& after == (if e.bytes <= m.bytes {
                    kept
                } else {
                    kept.remove(m).insert(e)
                })
            };
        assert forall|d: BigKey, k: BigKey|
            #![trigger grown.count(d), after.contains(k)]
            grown.count(d) > after.count(d) && after.contains(k) implies d.bytes <= k.bytes by {
            assert(history.count(d) >= kept.count(d));
            if k != e {
                assert(kept.contains(k));
            }
            if kept.contains(k) {
                assert(!below(k, m));
            }
        }
        assert(after.len() == cap);
        assert(after.subset_of(grown)) by {
            assert forall|x: BigKey| after.count(x) <= grown.count(x) by {
                assert(kept.count(x) <= history.count(x));
            }
        }
    }
}

proof fn subset_of_same_size(a: Multiset<BigKey>, b: Multiset<BigKey>, x: BigKey)
    requires
        a.subset_of(b),
        a.len() == b.len(),
    ensures
        a.count(x) == b.count(x),
{
    let rest = b.sub(a);
    assert(rest.len() == 0);
    assert(rest.count(x) == b.count(x) - a.count(x));
}

/// `boards` is what a leaderboard for `cap` keys holds, from the empty one on,
/// as `entries` are offered to it one after the other.
pub open spec fn offers(
    boards: Seq<Multiset<BigKey>>,
    cap: nat,
    entries: Seq<BigKey>,
) -> bool {
    &&& boards.len() == entries.len() + 1
    &&& boards[0] == Multiset::<BigKey>::empty()
    &&& forall|i: int|
        0 <= i < entries.len() ==> offered(#[trigger] boards[i], cap, entries[i], boards[i + 1])
}

/// Whatever is offered, and in whatever order, the leaderboard keeps the
/// largest keys: as many as it has room for, and nothing it left out is larger
/// than anything it kept.
pub proof fn board_keeps_largest(
    boards: Seq<Multiset<BigKey>>,
    cap: nat,
    entries: Seq<BigKey>,
)
    requires
        offers(boards, cap, entries),
    ensures
        keeps_largest(entries.to_multiset(), cap, boards.last()),
    decreases entries.len(),
{
    if entries.len() == 0 {
        vstd::seq_lib::to_multiset_len(entries);
        assert(entries.to_multiset() =~= Multiset::<BigKey>::empty());
        empty_keeps_largest(cap);
    } else {
        let n = entries.len() - 1;
        let fewer = entries.drop_last();
        let earlier = boards.drop_last();
        assert(offers(earlier, cap, fewer)) by {
            assert forall|i: int| 0 <= i < fewer.len() implies offered(
                #[trigger] earlier[i],
                cap,
                fewer[i],
                earlier[i + 1],
            ) by {
                assert(offered(boards[i], cap, entries[i], boards[i + 1]));
            }
        }
        board_keeps_largest(earlier, cap, fewer);
        assert(offered(boards[n], cap, entries[n], boards[n + 1]));
        offering_keeps_largest(
            fewer.to_multiset(),
            cap,
            earlier.last(),
            entries.last(),
            boards.last(),
        );
        vstd::seq_lib::to_multiset_build(fewer, entries.last());
        assert(fewer.push(entries.last()) =~= entries);
    }
}

/// How many keys are at least `bytes` large.
pub open spec fn at_least(m: Multiset<BigKey>, bytes: u64) -> nat {
    m.filter(|e: BigKey| e.bytes >= bytes).len()
}

/// `a` and `b` hold keys of the same sizes: of any size there are as many at
/// least that large in one as in the other.
pub open spec fn same_sizes(a: Multiset<BigKey>, b: Multiset<BigKey>) -> bool {
    forall|bytes: u64| #[trigger] at_least(a, bytes) == at_least(b, bytes)
}

/// One more key counts where it is large enough.
pub proof fn at_least_insert(m: Multiset<BigKey>, e: BigKey, bytes: u64)
    ensures
        at_least(m.insert(e), bytes) == at_least(m, bytes) + (if e.bytes >= bytes {
            1nat
        } else {
            0
        }),
{
    filter_insert(m, e, |e: BigKey| e.bytes >= bytes);
}

proof fn filter_insert(m: Multiset<BigKey>, e: BigKey, f: spec_fn(BigKey) -> bool)
    ensures
        m.insert(e).filter(f).len() == m.filter(f).len() + (if f(e) {
            1nat
        } else {
            0
        }),
{
    if f(e) {
        assert(m.insert(e).filter(f) =~= m.filter(f).insert(e));
    } else {
        assert(m.insert(e).filter(f) =~= m.filter(f));
    }
}

/// The keys kept number as many above any size as were offered, up to the
/// capacity.
proof fn kept_at_least(
    history: Multiset<BigKey>,
    cap: nat,
    kept: Multiset<BigKey>,
    bytes: u64,
)
    requires
        keeps_largest(history, cap, kept),
    ensures
        at_least(kept, bytes) == (if at_least(history, bytes) < cap {
            at_least(history, bytes)
        } else {
            cap
        }),
{
    let f = |e: BigKey| e.bytes >= bytes;
    let h = history.filter(f);
    let k = kept.filter(f);
    assert(k.subset_of(h)) by {
        assert forall|x: BigKey| k.count(x) <= h.count(x) by {
            assert(kept.count(x) <= history.count(x));
        }
    }
    let gone = h.sub(k);
    assert(gone.len() == h.len() - k.len());
    assert(k.subset_of(kept));
    assert(kept.sub(k).len() == kept.len() - k.len());
    assert(h.subset_of(history));
    assert(history.sub(h).len() == history.len() - h.len());
    if gone.len() > 0 {
        let d = gone.choose();
        assert(gone.count(d) > 0);
        assert(h.count(d) > k.count(d));
        assert(f(d));
        assert(history.count(d) > kept.count(d));
        assert(k =~= kept) by {
            assert forall|x: BigKey| k.count(x) == kept.count(x) by {
                if kept.count(x) > 0 {
                    assert(kept.contains(x));
                    assert(d.bytes <= x.bytes);
                }
            }
        }
    }
}

/// The sizes kept are determined by the sizes offered: two leaderboards of one
/// capacity that were offered keys of the same sizes, in whatever order, keep
/// keys of the same sizes.
pub proof fn kept_sizes_are_determined(
    history1: Multiset<BigKey>,
    kept1: Multiset<BigKey>,
    history2: Multiset<BigKey>,
    kept2: Multiset<BigKey>,
    cap: nat,
)
    requires
        same_sizes(history1, history2),
        keeps_largest(history1, cap, kept1),
        keeps_largest(history2, cap, kept2),
    ensures
        same_sizes(kept1, kept2),
{
    assert forall|bytes: u64| #[trigger] at_least(kept1, bytes) == at_least(kept2, bytes) by {
        kept_at_least(history1, cap, kept1, bytes);
        kept_at_least(history2, cap, kept2, bytes);
        assert(at_least(history1, bytes) == at_least(history2, bytes));
    }
}

/// Of a listing in which the keys with a property come first, their number
/// says how far they reach.
proof fn leading_part(s: Seq<BigKey>, f: spec_fn(BigKey) -> bool, i: int)
    requires
        forall|i: int, j: int|
            #![trigger s[i], s[j]]
            0 <= i < j < s.len() && f(s[j]) ==> f(s[i]),
        0 <= i < s.len(),
    ensures
        f(s[i]) <==> i < s.to_multiset().filter(f).len(),
{
    counted_part(s, f);
    counted_part(s.take(i), f);
    counted_part(s.take(i + 1), f);
    part_is_fewer(s, f, i + 1);
    let front = s.take(i);
    assert(s.take(i + 1).drop_last() =~= front);
    if f(s[i]) {
        all_counted(s.take(i + 1), f);
    } else {
        none_counted(s, f, i);
    }
}

/// How many keys of the listing have the property.
spec fn having(s: Seq<BigKey>, f: spec_fn(BigKey) -> bool) -> nat
    decreases s.len(),
{
    if s.len() == 0 {
        0
    } else {
        having(s.drop_last(), f) + (if f(s.last()) {
            1nat
        } else {
            0
        })
    }
}

proof fn counted_part(s: Seq<BigKey>, f: spec_fn(BigKey) -> bool)
    ensures
        s.to_multiset().filter(f).len() == having(s, f),
    decreases s.len(),
{
    if s.len() == 0 {
        vstd::seq_lib::to_multiset_len(s);
        assert(s.to_multiset().filter(f) =~= Multiset::<BigKey>::empty()) by {
            assert(s.to_multiset() =~= Multiset::<BigKey>::empty());
        }
    } else {
        counted_part(s.drop_last(), f);
        vstd::seq_lib::to_multiset_build(s.drop_last(), s.last());
        assert(s.drop_last().push(s.last()) =~= s);
        filter_insert(s.drop_last().to_multiset(), s.last(), f);
    }
}

proof fn part_is_fewer(s: Seq<BigKey>, f: spec_fn(BigKey) -> bool, k: int)
    requires
        0 <= k <= s.len(),
    ensures
        having(s.take(k), f) <= having(s, f),
    decreases s.len(),
{
    if k == s.len() {
        assert(s.take(k) =~= s);
    } else {
        part_is_fewer(s.drop_last(), f, k);
        assert(s.drop_last().take(k) =~= s.take(k));
    }
}

proof fn all_counted(s: Seq<BigKey>, f: spec_fn(BigKey) -> bool)
    requires
        forall|i: int| 0 <= i < s.len() ==> f(#[trigger] s[i]),
    ensures
        having(s, f) == s.len(),
    decreases s.len(),
{
    if s.len() > 0 {
        assert(forall|i: int|
            0 <= i < s.drop_last().len() ==> #[trigger] s.drop_last()[i] == s[i]);
        all_counted(s.drop_last(), f);
        assert(f(s[s.len() - 1]));
    }
}

proof fn none_counted(s: Seq<BigKey>, f: spec_fn(BigKey) -> bool, k: int)
    requires
        0 <= k <= s.len(),
        forall|i: int| k <= i < s.len() ==> !f(#[trigger] s[i]),
    ensures
        having(s, f) <= k,
    decreases s.len(),
{
    if s.len() == 0 {
    } else if k == s.len() {
        none_counted(s.drop_last(), f, k - 1);
    } else {
        assert(forall|i: int|
            0 <= i < s.drop_last().len() ==> #[trigger] s.drop_last()[i] == s[i]);
        none_counted(s.drop_last(), f, k);
        assert(!f(s[s.len() - 1]));
    }
}

/// A listing in display order depends on the keys alone: two listings of the
/// same keys agree in size and key at every place.
pub proof fn listings_agree(x: Seq<BigKey>, y: Seq<BigKey>)
    requires
        in_display_order(x),
        in_display_order(y),
        x.to_multiset() == y.to_multiset(),
    ensures
        x.len() == y.len(),
        forall|i: int|
            #![trigger x[i]]
            #![trigger y[i]]
            0 <= i < x.len() ==> x[i].bytes == y[i].bytes && x[i].key@ == y[i].key@,
{
    vstd::seq_lib::to_multiset_len(x);
    vstd::seq_lib::to_multiset_len(y);
    assert forall|i: int|
        #![trigger x[i]]
        #![trigger y[i]]
        0 <= i < x.len() implies x[i].bytes == y[i].bytes && x[i].key@ == y[i].key@ by {
        reaches(x, y, i);
        reaches(y, x, i);
        outranks_laws(x[i], y[i], y[i]);
    }
}

/// What stands at a place in one listing is not outranked there in the other.
proof fn reaches(x: Seq<BigKey>, y: Seq<BigKey>, i: int)
    requires
        in_display_order(x),
        in_display_order(y),
        x.to_multiset() == y.to_multiset(),
        0 <= i < x.len(),
        0 <= i < y.len(),
    ensures
        !outranks(x[i], y[i]),
{
    let t = x[i];
    let f = |e: BigKey| !outranks(t, e);
    assert forall|a: int, b: int|
        #![trigger x[a], x[b]]
        0 <= a < b < x.len() && f(x[b]) implies f(x[a]) by {
        not_outranked(t, x[a], x[b]);
    }
    assert forall|a: int, b: int|
        #![trigger y[a], y[b]]
        0 <= a < b < y.len() && f(y[b]) implies f(y[a]) by {
        not_outranked(t, y[a], y[b]);
    }
    outranks_laws(t, t, t);
    leading_part(x, f, i);
    leading_part(y, f, i);
}

proof fn not_outranked(t: BigKey, a: BigKey, b: BigKey)
    requires
        !outranks(b, a),
        !outranks(t, b),
    ensures
        !outranks(t, a),
{
    outranks_laws(t, a, b);
    outranks_laws(a, b, t);
    outranks_laws(b, t, a);
    outranks_laws(b, a, t);
    outranks_laws(a, b, a);
}

/// Listings of keys of the same sizes show the same size at every place.
pub proof fn listed_sizes_agree(x: Seq<BigKey>, y: Seq<BigKey>)
    requires
        in_display_order(x),
        in_display_order(y),
        same_sizes(x.to_multiset(), y.to_multiset()),
    ensures
        x.len() == y.len(),
        forall|i: int|
            #![trigger x[i]]
            #![trigger y[i]]
            0 <= i < x.len() ==> x[i].bytes == y[i].bytes,
{
    all_at_least_zero(x);
    all_at_least_zero(y);
    assert(at_least(x.to_multiset(), 0) == at_least(y.to_multiset(), 0));
    assert forall|i: int|
        #![trigger x[i]]
        #![trigger y[i]]
        0 <= i < x.len() implies x[i].bytes == y[i].bytes by {
        large_part(x, x[i].bytes, i);
        large_part(y, x[i].bytes, i);
        large_part(x, y[i].bytes, i);
        large_part(y, y[i].bytes, i);
        assert(at_least(x.to_multiset(), x[i].bytes) == at_least(y.to_multiset(), x[i].bytes));
        assert(at_least(x.to_multiset(), y[i].bytes) == at_least(y.to_multiset(), y[i].bytes));
    }
}

proof fn all_at_least_zero(x: Seq<BigKey>)
    ensures
        at_least(x.to_multiset(), 0) == x.len(),
{
    let f = |e: BigKey| e.bytes >= 0u64;
    counted_part(x, f);
    all_counted(x, f);
}

proof fn large_part(x: Seq<BigKey>, bytes: u64, i: int)
    requires
        in_display_order(x),
        0 <= i < x.len(),
    ensures
        x[i].bytes >= bytes <==> i < at_least(x.to_multiset(), bytes),
{
    let f = |e: BigKey| e.bytes >= bytes;
    assert forall|a: int, b: int|
        #![trigger x[a], x[b]]
        0 <= a < b < x.len() && f(x[b]) implies f(x[a]) by {
        assert(!outranks(x[b], x[a]));
    }
    leading_part(x, f, i);
}

/// A bounded leaderboard of the largest keys.
#[derive(Debug, Clone)]
pub struct Leaderboard {
    heap: Vec<BigKey>,
    cap: usize,
}

impl Leaderboard {
    /// The heap as it lies in memory.
    pub closed spec fn slots(self) -> Seq<BigKey> {
        self.heap@
    }

    /// How many keys may be retained; zero disables the leaderboard.
    pub closed spec fn capacity(self) -> nat {
        self.cap as nat
    }

    /// The keys in display order: larger ones first, equal sizes by key name,
    /// and equal names as they lie in the heap.
    pub closed spec fn ranking(self) -> Seq<BigKey> {
        let s = self.slots();
        arrangement(display_before(s), s.len() as int).map_values(|k: usize| s[k as int])
    }

    /// The invariant: heap order, within capacity.
    pub open spec fn wf(self) -> bool {
        heap_ordered(self.slots()) && self.slots().len() <= self.capacity()
    }
}

impl View for Leaderboard {
    type V = Multiset<BigKey>;

    open spec fn view(&self) -> Multiset<BigKey> {
        self.slots().to_multiset()
    }
}

/// Exchange two elements.
fn exchange(v: &mut Vec<BigKey>, i: usize, j: usize)
    requires
        i < j < old(v)@.len(),
    ensures
        final(v)@ == old(v)@.update(i as int, old(v)@[j as int]).update(
            j as int,
            old(v)@[i as int],
        ),
{
    let (l, r) = v.as_mut_slice().split_at_mut(j);
    core::mem::swap(&mut l[i], &mut r[0]);
}


/// Exchanging two elements keeps what they are.
proof fn exchanged_multiset(s: Seq<BigKey>, i: int, j: int)
    requires
        0 <= i < j < s.len(),
    ensures
        s.update(i, s[j]).update(j, s[i]).to_multiset() == s.to_multiset(),
{
    let t = s.update(i, s[j]);
    vstd::seq_lib::to_multiset_update(s, i, s[j]);
    vstd::seq_lib::to_multiset_update(t, j, s[i]);
    vstd::seq_lib::to_multiset_contains(s, s[i]);
    vstd::seq_lib::to_multiset_contains(s, s[j]);
    assert(s.contains(s[i]));
    assert(s.contains(s[j]));
    assert(t.update(j, s[i]).to_multiset() =~= s.to_multiset());
}

/// In heap order nothing is below the top.
proof fn top_is_least(s: Seq<BigKey>, i: int)
    requires
        heap_ordered(s),
        0 <= i < s.len(),
    ensures
        !below(s[i], s[0]),
    decreases i,
{
    if i == 0 {
        below_laws(s[0], s[0], s[0]);
    } else {
        top_is_least(s, parent(i));
        assert(!below(s[i], s[parent(i)]));
        below_laws(s[0], s[parent(i)], s[i]);
    }
}

/// The same for the multiset of the keys.
proof fn top_is_least_of_all(s: Seq<BigKey>)
    requires
        heap_ordered(s),
        s.len() > 0,
    ensures
        least(s.to_multiset(), s[0]),
        s.to_multiset().contains(s[0]),
{
    assert(s.contains(s[0]));
    vstd::seq_lib::to_multiset_contains(s, s[0]);
    assert forall|x: BigKey| #[trigger] s.to_multiset().contains(x) implies !below(x, s[0]) by {
        vstd::seq_lib::to_multiset_contains(s, x);
        let i = choose|i: int| 0 <= i < s.len() && s[i] == x;
        top_is_least(s, i);
    }
}

/// Heap order everywhere but between `k` and its parent, while `k`'s children
/// are in order with `k`'s parent.
spec fn rising(s: Seq<BigKey>, k: int) -> bool {
    &&& forall|i: int| 0 < i < s.len() && i != k ==> !below(#[trigger] s[i], s[parent(i)])
    &&& forall|i: int|
        0 < i < s.len() && parent(i) == k && k > 0 ==> !below(#[trigger] s[i], s[parent(k)])
}

/// Heap order everywhere but between `k` and its children, which are in order
/// with `k`'s parent.
spec fn sinking(s: Seq<BigKey>, k: int) -> bool {
    &&& forall|i: int|
        0 < i < s.len() && parent(i) != k ==> !below(#[trigger] s[i], s[parent(i)])
    &&& forall|i: int|
        0 < i < s.len() && parent(i) == k && k > 0 ==> !below(#[trigger] s[i], s[parent(k)])
}

/// Restore heap order after an element was appended.
fn rise(v: &mut Vec<BigKey>)
    requires
        old(v)@.len() > 0,
        heap_ordered(old(v)@.drop_last()),
    ensures
        heap_ordered(final(v)@),
        final(v)@.to_multiset() == old(v)@.to_multiset(),
        final(v)@.len() == old(v)@.len(),
{
    let mut k: usize = v.len() - 1;
    proof {
        let s = v@;
        assert forall|i: int| 0 < i < s.len() && i != k implies !below(
            #[trigger] s[i],
            s[parent(i)],
        ) by {
            assert(s.drop_last()[i] == s[i]);
            assert(s.drop_last()[parent(i)] == s[parent(i)]);
        }
    }
    while k > 0
        invariant
            0 <= k < v@.len(),
            v@.len() == old(v)@.len(),
            v@.to_multiset() == old(v)@.to_multiset(),
            rising(v@, k as int),
        ensures
            heap_ordered(v@),
            v@.len() == old(v)@.len(),
            v@.to_multiset() == old(v)@.to_multiset(),
        decreases k,
    {
        let p: usize = (k - 1) / 2;
        let ghost s = v@;
        if !is_below(&v[k], &v[p]) {
            break;
        }
        exchange(v, p, k);
        proof {
            exchanged_multiset(s, p as int, k as int);
            let t = v@;
            assert forall|i: int| 0 < i < t.len() && i != p implies !below(
                #[trigger] t[i],
                t[parent(i)],
            ) by {
                assert(i != k ==> !below(s[i], s[parent(i)]));
                if i == k {
                    below_laws(s[k as int], s[p as int], s[p as int]);
                } else if parent(i) == p {
                    below_laws(s[k as int], s[p as int], s[i]);
                } else if parent(i) == k {
                    assert(!below(s[i], s[parent(k as int)]));
                }
            }
            assert forall|i: int| 0 < i < t.len() && parent(i) == p && p > 0 implies !below(
                #[trigger] t[i],
                t[parent(p as int)],
            ) by {
                assert(!below(s[p as int], s[parent(p as int)]));
                if i != k {
                    assert(!below(s[i], s[parent(i)]));
                    below_laws(s[parent(p as int)], s[p as int], s[i]);
                }
            }
        }
        k = p;
    }
}

/// Restore heap order after the top was replaced.
fn sink(v: &mut Vec<BigKey>)
    requires
        forall|i: int|
            0 < i < old(v)@.len() && parent(i) != 0 ==> !below(
                #[trigger] old(v)@[i],
                old(v)@[parent(i)],
            ),
    ensures
        heap_ordered(final(v)@),
        final(v)@.to_multiset() == old(v)@.to_multiset(),
        final(v)@.len() == old(v)@.len(),
{
    let mut k: usize = 0;
    let n: usize = v.len();
    while k < n / 2
        invariant
            0 <= k <= n,
            n == v@.len(),
            v@.len() == old(v)@.len(),
            v@.to_multiset() == old(v)@.to_multiset(),
            sinking(v@, k as int),
        ensures
            heap_ordered(v@),
            v@.len() == old(v)@.len(),
            v@.to_multiset() == old(v)@.to_multiset(),
        decreases n - k,
    {
        let l: usize = 2 * k + 1;
        let ghost s = v@;
        let c: usize = if l + 1 < n && is_below(&v[l + 1], &v[l]) {
            l + 1
        } else {
            l
        };
        proof {
            below_laws(s[l as int], s[c as int], s[c as int]);
            below_laws(s[c as int], s[l as int], s[l as int]);
        }
        if !is_below(&v[c], &v[k]) {
            proof {
                assert forall|i: int| 0 < i < s.len() implies !below(
                    #[trigger] s[i],
                    s[parent(i)],
                ) by {
                    if parent(i) == k {
                        assert(i == l || i == l + 1);
                        below_laws(s[k as int], s[c as int], s[i]);
                    }
                }
            }
            break;
        }
        exchange(v, k, c);
        proof {
            exchanged_multiset(s, k as int, c as int);
            let t = v@;
            assert forall|i: int| 0 < i < t.len() && parent(i) != c implies !below(
                #[trigger] t[i],
                t[parent(i)],
            ) by {
                if parent(i) == k {
                    assert(i == l || i == l + 1);
                    if i == c {
                        below_laws(s[c as int], s[k as int], s[k as int]);
                    }
                } else if i == k {
                    assert(!below(s[c as int], s[parent(k as int)]));
                } else {
                    assert(!below(s[i], s[parent(i)]));
                }
            }
            assert forall|i: int| 0 < i < t.len() && parent(i) == c && c > 0 implies !below(
                #[trigger] t[i],
                t[parent(c as int)],
            ) by {
                assert(!below(s[i], s[parent(i)]));
            }
        }
        k = c;
    }
}

impl Leaderboard {
    /// An empty leaderboard for at most `cap` keys.
    pub fn new(cap: usize) -> (r: Self)
        ensures
            r.wf(),
            r.capacity() == cap,
            r@ == Multiset::<BigKey>::empty(),
    {
        let r = Leaderboard { heap: Vec::new(), cap };
        proof {
            vstd::seq_lib::to_multiset_len(r.heap@);
            assert(r@ =~= Multiset::<BigKey>::empty());
        }
        r
    }

    /// The ranking lists what the leaderboard holds, in display order.
    pub proof fn ranking_is_listing(self)
        requires
            self.wf(),
        ensures
            self.ranking().to_multiset() == self@,
            self.ranking().len() == self@.len(),
            in_display_order(self.ranking()),
    {
        let s = self.slots();
        let n = s.len() as int;
        let rel = display_before(s);
        display_is_total(s);
        arrangement_exists(rel, s.len());
        let o = arrangement(rel, n);
        assert(arranges(rel, n, o));
        arrangement_is_complete(rel, n, o);
        permuted_multiset(s, o);
        vstd::seq_lib::to_multiset_len(s);
        let r = self.ranking();
        assert forall|i: int, j: int|
            #![trigger r[i], r[j]]
            0 <= i < j < r.len() implies !outranks(r[j], r[i]) by {
            assert(rel(o[i] as int, o[j] as int));
            outranks_laws(r[i], r[j], r[j]);
        }
    }

    /// Offer one more key.
    pub fn offer(&mut self, e: BigKey)
        requires
            old(self).wf(),
        ensures
            final(self).wf(),
            final(self).capacity() == old(self).capacity(),
            offered(old(self)@, old(self).capacity(), e, final(self)@),
    {
        if self.cap == 0 {
            return;
        }
        let ghost before = self.heap@;
        proof {
            vstd::seq_lib::to_multiset_len(before);
        }
        if self.heap.len() >= self.cap {
            proof {
                top_is_least_of_all(before);
                assert(before.to_multiset().contains(before[0]));
            }
            if e.bytes <= self.heap[0].bytes {
                return;
            }
            let ghost m = before[0];
            self.heap.swap_remove(0);
            let ghost short = self.heap@;
            proof {
                swap_removed_multiset(before, short);
                assert forall|i: int| 0 < i < short.len() && parent(i) != 0 implies !below(
                    #[trigger] short[i],
                    short[parent(i)],
                ) by {
                    assert(!below(before[i], before[parent(i)]));
                }
            }
            sink(&mut self.heap);
            proof {
                assert(self.heap@.to_multiset() == before.to_multiset().remove(m));
            }
        }
        let ghost room = self.heap@;
        self.heap.push(e);
        proof {
            assert(self.heap@.drop_last() =~= room);
            vstd::seq_lib::to_multiset_build(room, e);
        }
        rise(&mut self.heap);
    }

    /// The retained keys, largest first, equal sizes in name order.
    pub fn biggest(&self) -> (r: Vec<BigKey>)
        requires
            self.wf(),
        ensures
            r@ == self.ranking(),
            r@.to_multiset() == self@,
            r@.len() == self@.len(),
            r@.len() <= self.capacity(),
            in_display_order(r@),
    {
        let mut all: Vec<BigKey> = Vec::new();
        let mut i: usize = 0;
        while i < self.heap.len()
            invariant
                0 <= i <= self.heap@.len(),
                all@ == self.heap@.take(i as int),
            decreases self.heap@.len() - i,
        {
            all.push(self.heap[i].copy());
            i = i + 1;
            assert(self.heap@.take(i as int) =~= self.heap@.take(i - 1).push(self.heap@[i - 1]));
        }
        assert(all@ =~= self.heap@);
        let ghost s = all@;
        let ghost rel = display_before(s);
        let n: usize = all.len();
        proof {
            display_is_total(s);
        }
        let before = |i: usize, j: usize| -> (b: bool)
            requires
                i < all@.len(),
                j < all@.len(),
            ensures
                b == display_before(all@)(i as int, j as int),
            {
                does_outrank(&all[i], &all[j]) || (!does_outrank(&all[j], &all[i]) && i < j)
            };
        let o = arrange(n, &before, Ghost(rel));
        let r = permute(all, &o);
        proof {
            assert(r@ =~= self.ranking());
            permuted_multiset(s, o@);
            vstd::seq_lib::to_multiset_len(s);
            assert forall|i: int, j: int|
                #![trigger r@[i], r@[j]]
                0 <= i < j < r@.len() implies !outranks(r@[j], r@[i]) by {
                assert(rel(o@[i] as int, o@[j] as int));
                outranks_laws(r@[i], r@[j], r@[j]);
            }
        }
        r
    }
}

/// Removing the top and moving the last key there takes the top away.
proof fn swap_removed_multiset(before: Seq<BigKey>, after: Seq<BigKey>)
    requires
        before.len() > 0,
        after == before.update(0, before.last()).drop_last(),
    ensures
        after.to_multiset() == before.to_multiset().remove(before[0]),
{
    let t = before.update(0, before.last());
    vstd::seq_lib::to_multiset_update(before, 0, before.last());
    vstd::seq_lib::to_multiset_contains(before, before[0]);
    assert(before.contains(before[0]));
    vstd::seq_lib::to_multiset_build(after, before.last());
    assert(after.push(before.last()) =~= t);
    let x = after.to_multiset();
    let y = before.to_multiset().remove(before[0]);
    assert(x.insert(before.last()) =~= t.to_multiset());
    assert forall|k: BigKey| x.count(k) == y.count(k) by {
        assert(x.insert(before.last()).count(k) == t.to_multiset().count(k));
    }
    assert(after.to_multiset() =~= before.to_multiset().remove(before[0]));
}

/// The display order is a strict weak order.
proof fn outranks_laws(a: BigKey, b: BigKey, c: BigKey)
    ensures
        !outranks(a, a),
        outranks(a, b) ==> !outranks(b, a),
        outranks(a, b) && outranks(b, c) ==> outranks(a, c),
        !outranks(a, b) && !outranks(b, a) ==> a.bytes == b.bytes && a.key@ == b.key@,
{
    lex_irreflexive(a.key@);
    if lex_lt(a.key@, b.key@) && lex_lt(b.key@, a.key@) {
        lex_transitive(a.key@, b.key@, a.key@);
    }
    if lex_lt(a.key@, b.key@) && lex_lt(b.key@, c.key@) {
        lex_transitive(a.key@, b.key@, c.key@);
    }
    lex_total(a.key@, b.key@);
}

/// Position `i` is displayed before position `j`.
spec fn display_before(s: Seq<BigKey>) -> spec_fn(int, int) -> bool {
    |i: int, j: int| outranks(s[i], s[j]) || (!outranks(s[j], s[i]) && i < j)
}

proof fn display_is_total(s: Seq<BigKey>)
    ensures
        strict_total(display_before(s), s.len() as int),
{
    let rel = display_before(s);
    assert forall|i: int| 0 <= i < s.len() implies !#[trigger] rel(i, i) by {
        outranks_laws(s[i], s[i], s[i]);
    }
    assert forall|i: int, j: int, k: int|
        #![trigger rel(i, j), rel(j, k)]
        0 <= i < s.len() && 0 <= j < s.len() && 0 <= k < s.len() && rel(i, j) && rel(
            j,
            k,
        ) implies rel(i, k) by {
        outranks_laws(s[i], s[j], s[k]);
        outranks_laws(s[j], s[k], s[i]);
        outranks_laws(s[k], s[i], s[j]);
    }
}

} // verus!
