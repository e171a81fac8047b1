//! Sorting by a strict total order on positions.
//!
//! A listing is sorted by arranging the positions `0..n` so that each stands
//! before the next one in the wanted order. Ties are broken by position, which
//! makes every sort here stable and its outcome unique.

use vstd::prelude::*;

verus! {

/// `rel` is a strict total order on the positions below `n`.
pub open spec fn strict_total(rel: spec_fn(int, int) -> bool, n: int) -> bool {
    &&& forall|i: int| 0 <= i < n ==> !#[trigger] rel(i, i)
    &&& forall|i: int, j: int, k: int|
        #![trigger rel(i, j), rel(j, k)]
        0 <= i < n && 0 <= j < n && 0 <= k < n && rel(i, j) && rel(j, k) ==> rel(i, k)
    &&& forall|i: int, j: int|
        #![trigger rel(i, j)]
        0 <= i < n && 0 <= j < n && i != j ==> rel(i, j) || rel(j, i)
}

/// `o` lists positions of `lo..hi`, each one before all that follow it.
pub open spec fn ascends(
    rel: spec_fn(int, int) -> bool,
    lo: int,
    hi: int,
    o: Seq<usize>,
) -> bool {
    &&& forall|i: int| 0 <= i < o.len() ==> lo <= #[trigger] o[i] < hi
    &&& forall|i: int, j: int|
        #![trigger o[i], o[j]]
        0 <= i < j < o.len() ==> rel(o[i] as int, o[j] as int)
}

/// `o` lists all of `0..n` in the order `rel`.
pub open spec fn arranges(rel: spec_fn(int, int) -> bool, n: int, o: Seq<usize>) -> bool {
    &&& o.len() == n
    &&& ascends(rel, 0, n, o)
}

/// The one arrangement of `0..n` in the order `rel`.
pub open spec fn arrangement(rel: spec_fn(int, int) -> bool, n: int) -> Seq<usize> {
    choose|o: Seq<usize>| arranges(rel, n, o)
}

/// An arrangement names every position exactly once.
pub proof fn arrangement_is_complete(rel: spec_fn(int, int) -> bool, n: int, o: Seq<usize>)
    requires
        strict_total(rel, n),
        arranges(rel, n, o),
        n <= usize::MAX + 1,
    ensures
        o.no_duplicates(),
        forall|k: usize| k < n ==> #[trigger] o.contains(k),
{
    assert(o.no_duplicates()) by {
        assert forall|i: int, j: int| 0 <= i < o.len() && 0 <= j < o.len() && i != j implies o[i]
            != o[j] by {
            if o[i] == o[j] {
                if i < j {
                    assert(rel(o[i] as int, o[j] as int));
                } else {
                    assert(rel(o[j] as int, o[i] as int));
                }
            }
        }
    }
    o.unique_seq_to_set();
    let ints = o.map_values(|x: usize| x as int);
    assert(ints.no_duplicates());
    ints.unique_seq_to_set();
    vstd::set_lib::lemma_int_range(0, n);
    let range = vstd::set_lib::set_int_range(0, n);
    assert(ints.to_set().subset_of(range)) by {
        assert forall|x: int| ints.to_set().contains(x) implies range.contains(x) by {
            let i = choose|i: int| 0 <= i < ints.len() && ints[i] == x;
            assert(0 <= o[i] < n);
        }
    }
    vstd::set_lib::lemma_subset_equality(ints.to_set(), range);
    assert forall|k: usize| k < n implies #[trigger] o.contains(k) by {
        assert(range.contains(k as int));
        assert(ints.contains(k as int));
        let i = choose|i: int| 0 <= i < ints.len() && ints[i] == k as int;
        assert(o[i] == k);
    }
}

/// There is at most one arrangement in a strict total order.
pub proof fn arrangement_is_unique(
    rel: spec_fn(int, int) -> bool,
    n: int,
    a: Seq<usize>,
    b: Seq<usize>,
)
    requires
        strict_total(rel, n),
        arranges(rel, n, a),
        arranges(rel, n, b),
        n <= usize::MAX + 1,
    ensures
        a == b,
{
    arrangement_is_complete(rel, n, a);
    arrangement_is_complete(rel, n, b);
    assert forall|k: int| 0 <= k <= n implies #[trigger] a.take(k) == b.take(k) by {
        unique_up_to(rel, n, a, b, k);
    }
    assert(a.take(n) =~= a);
    assert(b.take(n) =~= b);
}

proof fn unique_up_to(
    rel: spec_fn(int, int) -> bool,
    n: int,
    a: Seq<usize>,
    b: Seq<usize>,
    k: int,
)
    requires
        strict_total(rel, n),
        arranges(rel, n, a),
        arranges(rel, n, b),
        a.no_duplicates(),
        b.no_duplicates(),
        forall|k: usize| k < n ==> #[trigger] a.contains(k),
        forall|k: usize| k < n ==> #[trigger] b.contains(k),
        0 <= k <= n,
    ensures
        a.take(k) == b.take(k),
    decreases k,
{
    if k == 0 {
        assert(a.take(0) =~= b.take(0));
    } else {
        unique_up_to(rel, n, a, b, k - 1);
        let x = a[k - 1];
        let y = b[k - 1];
        assert(forall|i: int| 0 <= i < k - 1 ==> a[i] == b[i]) by {
            assert forall|i: int| 0 <= i < k - 1 implies a[i] == b[i] by {
                assert(a.take(k - 1)[i] == b.take(k - 1)[i]);
            }
        }
        if x != y {
            assert(b.contains(x));
            let p = choose|p: int| 0 <= p < b.len() && b[p] == x;
            assert(p > k - 1);
            assert(rel(y as int, x as int));
            assert(a.contains(y));
            let q = choose|q: int| 0 <= q < a.len() && a[q] == y;
            assert(q > k - 1);
            assert(rel(x as int, y as int));
            assert(rel(x as int, x as int));
        }
        assert(a.take(k) =~= a.take(k - 1).push(x));
        assert(b.take(k) =~= b.take(k - 1).push(y));
    }
}

/// Merge sort of the positions `lo..hi`.
fn sorted_range<F: Fn(usize, usize) -> bool>(
    lo: usize,
    hi: usize,
    before: &F,
    Ghost(rel): Ghost<spec_fn(int, int) -> bool>,
    Ghost(n): Ghost<int>,
) -> (o: Vec<usize>)
    requires
        lo <= hi <= n,
        strict_total(rel, n),
        forall|i: usize, j: usize| i < n && j < n ==> call_requires(before, (i, j)),
        forall|i: usize, j: usize, r: bool|
            i < n && j < n && call_ensures(before, (i, j), r) ==> r == rel(i as int, j as int),
    ensures
        o@.len() == hi - lo,
        ascends(rel, lo as int, hi as int, o@),
    decreases hi - lo,
{
    let mut out: Vec<usize> = Vec::new();
    if hi - lo <= 1 {
        if lo < hi {
            out.push(lo);
        }
        return out;
    }
    let mid: usize = lo + (hi - lo) / 2;
    let a = sorted_range(lo, mid, before, Ghost(rel), Ghost(n));
    let b = sorted_range(mid, hi, before, Ghost(rel), Ghost(n));
    let mut i: usize = 0;
    let mut j: usize = 0;
    while i < a.len() || j < b.len()
        invariant
            lo <= mid <= hi <= n,
            0 <= i <= a@.len(),
            0 <= j <= b@.len(),
            a@.len() == mid - lo,
            b@.len() == hi - mid,
            strict_total(rel, n),
            ascends(rel, lo as int, mid as int, a@),
            ascends(rel, mid as int, hi as int, b@),
            forall|i: usize, j: usize| i < n && j < n ==> call_requires(before, (i, j)),
            forall|i: usize, j: usize, r: bool|
                i < n && j < n && call_ensures(before, (i, j), r) ==> r == rel(i as int, j as int),
            out@.len() == i + j,
            ascends(rel, lo as int, hi as int, out@),
            forall|p: int, q: int|
                #![trigger out@[p], a@[q]]
                0 <= p < out@.len() && i <= q < a@.len() ==> rel(out@[p] as int, a@[q] as int),
            forall|p: int, q: int|
                #![trigger out@[p], b@[q]]
                0 <= p < out@.len() && j <= q < b@.len() ==> rel(out@[p] as int, b@[q] as int),
        decreases a@.len() - i + b@.len() - j,
    {
        let from_a: bool = if j >= b.len() {
            true
        } else if i >= a.len() {
            false
        } else {
            before(a[i], b[j])
        };
        if from_a {
            let x = a[i];
            assert forall|q: int| j <= q < b@.len() implies rel(x as int, b@[q] as int) by {
                if q > j {
                    assert(rel(b@[j as int] as int, b@[q] as int));
                }
            }
            out.push(x);
            i = i + 1;
        } else {
            let x = b[j];
            assert forall|q: int| i <= q < a@.len() implies rel(x as int, a@[q] as int) by {
                assert(rel(b@[j as int] as int, a@[i as int] as int));
                if q > i {
                    assert(rel(a@[i as int] as int, a@[q] as int));
                }
            }
            out.push(x);
            j = j + 1;
        }
    }
    out
}

/// Arrange `0..n` in the order that `before` decides.
pub(crate) fn arrange<F: Fn(usize, usize) -> bool>(
    n: usize,
    before: &F,
    Ghost(rel): Ghost<spec_fn(int, int) -> bool>,
) -> (o: Vec<usize>)
    requires
        strict_total(rel, n as int),
        forall|i: usize, j: usize| i < n && j < n ==> call_requires(before, (i, j)),
        forall|i: usize, j: usize, r: bool|
            i < n && j < n && call_ensures(before, (i, j), r) ==> r == rel(i as int, j as int),
    ensures
        arranges(rel, n as int, o@),
        o@ == arrangement(rel, n as int),
        o@.no_duplicates(),
        forall|k: usize| k < n ==> #[trigger] o@.contains(k),
{
    let o = sorted_range(0, n, before, Ghost(rel), Ghost(n as int));
    proof {
        let chosen = arrangement(rel, n as int);
        assert(arranges(rel, n as int, o@));
        assert(arranges(rel, n as int, chosen));
        arrangement_is_unique(rel, n as int, o@, chosen);
        arrangement_is_complete(rel, n as int, o@);
    }
    o
}

/// Lay the elements of `v` out in the order of positions `o`.
pub(crate) fn permute<T>(v: Vec<T>, o: &Vec<usize>) -> (r: Vec<T>)
    requires
        o@.len() == v@.len(),
        o@.no_duplicates(),
        forall|i: int| 0 <= i < o@.len() ==> #[trigger] o@[i] < v@.len(),
    ensures
        r@ == o@.map_values(|k: usize| v@[k as int]),
{
    let ghost src = v@;
    let mut slots: Vec<Option<T>> = Vec::new();
    for x in it: v
        invariant
            it.seq() == src,
            slots@.len() == it.index(),
            forall|i: int| 0 <= i < slots@.len() ==> #[trigger] slots@[i] == Some(src[i]),
    {
        slots.push(Some(x));
    }
    let mut r: Vec<T> = Vec::new();
    let mut i: usize = 0;
    while i < o.len()
        invariant
            0 <= i <= o@.len(),
            o@.len() == src.len(),
            slots@.len() == src.len(),
            o@.no_duplicates(),
            forall|i: int| 0 <= i < o@.len() ==> #[trigger] o@[i] < src.len(),
            r@ == o@.take(i as int).map_values(|k: usize| src[k as int]),
            forall|k: int|
                i <= k < o@.len() ==> slots@[#[trigger] o@[k] as int] == Some(src[o@[k] as int]),
        decreases o@.len() - i,
    {
        let k = o[i];
        let taken = slots[k].take();
        if let Some(x) = taken {
            r.push(x);
        }
        i = i + 1;
        assert(o@.take(i as int) =~= o@.take(i - 1).push(k));
        assert(r@ =~= o@.take(i as int).map_values(|k: usize| src[k as int]));
    }
    assert(o@.take(i as int) =~= o@);
    r
}

/// Laying elements out in another order keeps what they are.
pub proof fn permuted_multiset<T>(v: Seq<T>, o: Seq<usize>)
    requires
        o.len() == v.len(),
        o.no_duplicates(),
        forall|i: int| 0 <= i < o.len() ==> #[trigger] o[i] < v.len(),
        forall|k: usize| k < v.len() ==> #[trigger] o.contains(k),
        v.len() <= usize::MAX,
    ensures
        o.map_values(|k: usize| v[k as int]).to_multiset() == v.to_multiset(),
    decreases v.len(),
{
    let f = |k: usize| v[k as int];
    if v.len() == 0 {
        assert(o.map_values(f) =~= v);
    } else {
        let last = (v.len() - 1) as usize;
        assert(o.contains(last));
        let p = choose|p: int| 0 <= p < o.len() && o[p] == last;
        let w = v.drop_last();
        let q = o.remove(p);
        let g = |k: usize| w[k as int];
        assert forall|i: int| 0 <= i < q.len() implies #[trigger] q[i] < w.len() by {
            let k = if i < p {
                i
            } else {
                i + 1
            };
            assert(q[i] == o[k]);
            assert(o[k] != o[p]);
        }
        assert(q.no_duplicates()) by {
            assert forall|i: int, j: int| 0 <= i < q.len() && 0 <= j < q.len() && i != j implies q[i]
                != q[j] by {
                let a = if i < p {
                    i
                } else {
                    i + 1
                };
                let b = if j < p {
                    j
                } else {
                    j + 1
                };
                assert(o[a] != o[b]);
            }
        }
        assert forall|k: usize| k < w.len() implies #[trigger] q.contains(k) by {
            assert(o.contains(k));
            let i = choose|i: int| 0 <= i < o.len() && o[i] == k;
            assert(i != p);
            if i < p {
                assert(q[i] == k);
            } else {
                assert(q[i - 1] == k);
            }
        }
        permuted_multiset(w, q);
        assert(o.map_values(f) =~= q.map_values(g).insert(p, v.last())) by {
            let l = o.map_values(f);
            let r = q.map_values(g).insert(p, v.last());
            assert forall|i: int| 0 <= i < l.len() implies l[i] == r[i] by {
                if i < p {
                    assert(q[i] == o[i]);
                } else if i > p {
                    assert(q[i - 1] == o[i]);
                }
            }
        }
        vstd::seq_lib::to_multiset_insert(q.map_values(g), p, v.last());
        vstd::seq_lib::to_multiset_build(w, v.last());
        assert(v =~= w.push(v.last()));
    }
}


/// `a` ranks above `b`: by the first number, then by the second.
pub open spec fn above(a: (u64, u64), b: (u64, u64)) -> bool {
    a.0 > b.0 || (a.0 == b.0 && a.1 > b.1)
}

/// Position `i` comes before position `j` when its metric is greater, or equal
/// and it stood first.
pub open spec fn descends(m: Seq<(u64, u64)>) -> spec_fn(int, int) -> bool {
    |i: int, j: int| above(m[i], m[j]) || (m[i] == m[j] && i < j)
}

/// The positions of `m`, greatest metric first; equal ones keep their order.
pub open spec fn descending(m: Seq<(u64, u64)>) -> Seq<usize> {
    arrangement(descends(m), m.len() as int)
}

/// The order of metrics is a strict total order on positions.
proof fn descends_is_total(m: Seq<(u64, u64)>)
    ensures
        strict_total(descends(m), m.len() as int),
{
}

/// There is an arrangement in every strict total order.
pub(crate) proof fn arrangement_exists(rel: spec_fn(int, int) -> bool, n: nat)
    requires
        strict_total(rel, n as int),
        n <= usize::MAX,
    ensures
        exists|o: Seq<usize>| arranges(rel, n as int, o),
    decreases n,
{
    if n == 0 {
        assert(arranges(rel, 0, Seq::empty()));
    } else {
        let m = (n - 1) as nat;
        arrangement_exists(rel, m);
        let o = choose|o: Seq<usize>| arranges(rel, m as int, o);
        let x = m as usize;
        let k = places_before(rel, o, x, o.len());
        placed_in_order(rel, m as int, o, x, o.len());
        let r = o.insert(k as int, x);
        assert(arranges(rel, n as int, r)) by {
            assert forall|i: int| 0 <= i < r.len() implies 0 <= #[trigger] r[i] < n by {
                if i < k {
                    assert(r[i] == o[i]);
                } else if i > k {
                    assert(r[i] == o[i - 1]);
                }
            }
            assert forall|i: int, j: int|
                #![trigger r[i], r[j]]
                0 <= i < j < r.len() implies rel(r[i] as int, r[j] as int) by {
                let a = if i < k {
                    i
                } else {
                    i - 1
                };
                let b = if j < k {
                    j
                } else {
                    j - 1
                };
                if i != k && j != k {
                    assert(r[i] == o[a] && r[j] == o[b]);
                } else if i == k {
                    assert(r[j] == o[j - 1]);
                } else {
                    assert(r[i] == o[i]);
                }
            }
        }
    }
}

/// How many of the first `n` positions of `o` come before `x`, counted from the
/// front without a gap.
spec fn places_before(rel: spec_fn(int, int) -> bool, o: Seq<usize>, x: usize, n: nat) -> nat
    decreases n,
{
    if n == 0 {
        0
    } else if rel(o[n - 1] as int, x as int) {
        n
    } else {
        places_before(rel, o, x, (n - 1) as nat)
    }
}

proof fn placed_in_order(
    rel: spec_fn(int, int) -> bool,
    m: int,
    o: Seq<usize>,
    x: usize,
    n: nat,
)
    requires
        strict_total(rel, m + 1),
        arranges(rel, m, o),
        x == m,
        n <= o.len(),
        forall|i: int| n <= i < o.len() ==> rel(x as int, #[trigger] o[i] as int),
    ensures
        places_before(rel, o, x, n) <= o.len(),
        forall|i: int|
            0 <= i < places_before(rel, o, x, n) ==> rel(#[trigger] o[i] as int, x as int),
        forall|i: int|
            places_before(rel, o, x, n) <= i < o.len() ==> rel(x as int, #[trigger] o[i] as int),
    decreases n,
{
    if n > 0 {
        let last = o[n - 1] as int;
        assert(0 <= last < m);
        if rel(last, x as int) {
            assert forall|i: int| 0 <= i < n implies rel(#[trigger] o[i] as int, x as int) by {
                if i < n - 1 {
                    assert(rel(o[i] as int, o[n - 1] as int));
                }
            }
        } else {
            assert(rel(x as int, last) || rel(last, x as int));
            placed_in_order(rel, m, o, x, (n - 1) as nat);
        }
    }
}

/// Every position occurs exactly once in the descending order.
pub proof fn descending_is_complete(m: Seq<(u64, u64)>)
    requires
        m.len() <= usize::MAX,
    ensures
        descending(m).len() == m.len(),
        descending(m).no_duplicates(),
        forall|i: int| 0 <= i < m.len() ==> #[trigger] descending(m)[i] < m.len(),
        forall|k: usize| k < m.len() ==> #[trigger] descending(m).contains(k),
{
    descends_is_total(m);
    arrangement_exists(descends(m), m.len());
    arrangement_is_complete(descends(m), m.len() as int, descending(m));
}

/// In the descending order no metric stands before a greater one.
pub proof fn descending_descends(m: Seq<(u64, u64)>, i: int, j: int)
    requires
        m.len() <= usize::MAX,
        0 <= i < j < m.len(),
    ensures
        !above(m[descending(m)[j] as int], m[descending(m)[i] as int]),
        ({
            let x = m[descending(m)[i] as int];
            let y = m[descending(m)[j] as int];
            ||| x.0 > y.0
            ||| x.0 == y.0 && x.1 > y.1
            ||| x.0 == y.0 && x.1 == y.1 && descending(m)[i] < descending(m)[j]
        }),
{
    descends_is_total(m);
    arrangement_exists(descends(m), m.len());
    let o = descending(m);
    assert(arranges(descends(m), m.len() as int, o));
    assert(descends(m)(o[i] as int, o[j] as int));
}

/// Sort positions by their metric, greatest first, stable.
pub fn sort_descending(m: &Vec<(u64, u64)>) -> (o: Vec<usize>)
    ensures
        o@ == descending(m@),
        arranges(descends(m@), m@.len() as int, o@),
        o@.no_duplicates(),
        forall|k: usize| k < m@.len() ==> #[trigger] o@.contains(k),
        forall|i: int| 0 <= i < o@.len() ==> #[trigger] o@[i] < m@.len(),
{
    let before = |i: usize, j: usize| -> (b: bool)
        requires
            i < m@.len(),
            j < m@.len(),
        ensures
            b == descends(m@)(i as int, j as int),
        {
            let (a, b): (u64, u64) = m[i];
            let (c, d): (u64, u64) = m[j];
            a > c || (a == c && (b > d || (b == d && i < j)))
        };
    let n: usize = m.len();
    let o = arrange(n, &before, Ghost(descends(m@)));
    o
}

} // verus!
