//! A map keyed by names, kept in name order.

use crate::text::{lex_irreflexive, lex_lt, lex_transitive, rank, Rank};
use vstd::prelude::*;

verus! {

/// One named value.
#[derive(Debug, Clone)]
pub struct Entry<V> {
    pub name: String,
    pub value: V,
}

/// A map from names to values. The entries stand in strictly ascending name
/// order, so no name occurs twice and a listing is always in the same order.
#[derive(Debug, Clone)]
pub struct NameMap<V> {
    entries: Vec<Entry<V>>,
}

/// The entries stand in strictly ascending name order.
pub open spec fn in_name_order<V>(s: Seq<Entry<V>>) -> bool {
    forall|i: int, j: int|
        #![trigger s[i], s[j]]
        0 <= i < j < s.len() ==> lex_lt(s[i].name@, s[j].name@)
}

/// Some entry carries `name`.
pub open spec fn has_name<V>(s: Seq<Entry<V>>, name: Seq<char>) -> bool {
    exists|i: int| 0 <= i < s.len() && (#[trigger] s[i]).name@ == name
}

/// The position of the entry that carries `name`.
pub open spec fn position_of<V>(s: Seq<Entry<V>>, name: Seq<char>) -> int {
    choose|i: int| 0 <= i < s.len() && (#[trigger] s[i]).name@ == name
}

/// The entries read as a map.
pub open spec fn as_map<V>(s: Seq<Entry<V>>) -> Map<Seq<char>, V> {
    Map::new(|k: Seq<char>| has_name(s, k), |k: Seq<char>| s[position_of(s, k)].value)
}

/// `b` is `a` with the value under `name` set to `v`.
pub open spec fn placed<V>(a: Seq<Entry<V>>, name: Seq<char>, v: V, b: Seq<Entry<V>>) -> bool {
    ||| exists|i: int| #[trigger] placed_over(a, name, v, b, i)
    ||| exists|i: int| #[trigger] placed_new(a, name, v, b, i)
}

/// `b` is `a` with the value of entry `i`, which carries `name`, set to `v`.
pub open spec fn placed_over<V>(
    a: Seq<Entry<V>>,
    name: Seq<char>,
    v: V,
    b: Seq<Entry<V>>,
    i: int,
) -> bool {
    &&& 0 <= i < a.len()
    &&& a[i].name@ == name
    &&& b == a.update(i, Entry { name: a[i].name, value: v })
}

/// `b` is `a` with a new entry at `i` that carries `name` and `v`.
pub open spec fn placed_new<V>(
    a: Seq<Entry<V>>,
    name: Seq<char>,
    v: V,
    b: Seq<Entry<V>>,
    i: int,
) -> bool {
    &&& 0 <= i <= a.len()
    &&& !has_name(a, name)
    &&& b.len() == a.len() + 1
    &&& b[i].name@ == name
    &&& b == a.insert(i, Entry { name: b[i].name, value: v })
}

/// The sum of `w` over the values.
pub open spec fn weigh<V>(s: Seq<Entry<V>>, w: spec_fn(V) -> nat) -> nat
    decreases s.len(),
{
    if s.len() == 0 {
        0
    } else {
        weigh(s.drop_last(), w) + w(s.last().value)
    }
}

/// In name order, an entry is found by its name alone.
pub proof fn position_is_unique<V>(s: Seq<Entry<V>>, i: int)
    requires
        in_name_order(s),
        0 <= i < s.len(),
    ensures
        has_name(s, s[i].name@),
        position_of(s, s[i].name@) == i,
        as_map(s).contains_key(s[i].name@),
        as_map(s)[s[i].name@] == s[i].value,
{
    let name = s[i].name@;
    let j = position_of(s, name);
    assert(0 <= j < s.len() && s[j].name@ == name);
    lex_irreflexive(name);
}

/// Setting a value in the entries sets it in the map.
pub proof fn placed_is_insert<V>(a: Seq<Entry<V>>, name: Seq<char>, v: V, b: Seq<Entry<V>>)
    requires
        in_name_order(a),
        in_name_order(b),
        placed(a, name, v, b),
    ensures
        as_map(b) == as_map(a).insert(name, v),
{
    assert forall|k: Seq<char>| as_map(b).contains_key(k) <==> #[trigger] as_map(a).insert(
        name,
        v,
    ).contains_key(k) by {
        placed_keeps_names(a, name, v, b, k);
    }
    assert forall|k: Seq<char>| #[trigger] as_map(b).contains_key(k) implies as_map(b)[k]
        == as_map(a).insert(name, v)[k] by {
        placed_keeps_names(a, name, v, b, k);
        let j = position_of(b, k);
        position_is_unique(b, j);
        if exists|i: int| #[trigger] placed_over(a, name, v, b, i) {
            let i = choose|i: int| #[trigger] placed_over(a, name, v, b, i);
            position_is_unique(a, i);
            if j != i {
                position_is_unique(a, j);
                assert(a[j].name@ == k);
                if k == name {
                    position_is_unique(a, i);
                }
            }
        } else {
            let i = choose|i: int| #[trigger] placed_new(a, name, v, b, i);
            if j < i {
                position_is_unique(a, j);
            } else if j > i {
                position_is_unique(a, j - 1);
                assert(b[j] == a[j - 1]);
            }
        }
    }
    assert(as_map(b) =~= as_map(a).insert(name, v));
}

proof fn placed_keeps_names<V>(
    a: Seq<Entry<V>>,
    name: Seq<char>,
    v: V,
    b: Seq<Entry<V>>,
    k: Seq<char>,
)
    requires
        placed(a, name, v, b),
    ensures
        has_name(b, k) <==> (has_name(a, k) || k == name),
{
    if exists|i: int| #[trigger] placed_over(a, name, v, b, i) {
        let i = choose|i: int| #[trigger] placed_over(a, name, v, b, i);
        if has_name(b, k) {
            let j = position_of(b, k);
            assert(a[j].name@ == k);
        }
        if has_name(a, k) {
            let j = position_of(a, k);
            assert(b[j].name@ == k);
        }
        assert(b[i].name@ == name);
    } else {
        let i = choose|i: int| #[trigger] placed_new(a, name, v, b, i);
        if has_name(b, k) {
            let j = position_of(b, k);
            if j < i {
                assert(a[j].name@ == k);
            } else if j > i {
                assert(a[j - 1].name@ == k);
            }
        }
        if has_name(a, k) {
            let j = position_of(a, k);
            if j < i {
                assert(b[j].name@ == k);
            } else {
                assert(b[j + 1].name@ == k);
            }
        }
        assert(b[i].name@ == name);
    }
}

/// Setting a value changes a sum by that value alone.
pub proof fn weigh_placed<V>(
    a: Seq<Entry<V>>,
    name: Seq<char>,
    v: V,
    b: Seq<Entry<V>>,
    w: spec_fn(V) -> nat,
)
    requires
        in_name_order(a),
        placed(a, name, v, b),
    ensures
        has_name(a, name) ==> weigh(b, w) + w(as_map(a)[name]) == weigh(a, w) + w(v),
        !has_name(a, name) ==> weigh(b, w) == weigh(a, w) + w(v),
{
    if exists|i: int| #[trigger] placed_over(a, name, v, b, i) {
        let i = choose|i: int| #[trigger] placed_over(a, name, v, b, i);
        position_is_unique(a, i);
        weigh_update(a, i, b[i], w);
    } else {
        let i = choose|i: int| #[trigger] placed_new(a, name, v, b, i);
        weigh_insert(a, i, b[i], w);
    }
}

proof fn weigh_update<V>(s: Seq<Entry<V>>, i: int, e: Entry<V>, w: spec_fn(V) -> nat)
    requires
        0 <= i < s.len(),
    ensures
        weigh(s.update(i, e), w) + w(s[i].value) == weigh(s, w) + w(e.value),
    decreases s.len(),
{
    let t = s.update(i, e);
    if i == s.len() - 1 {
        assert(t.drop_last() =~= s.drop_last());
    } else {
        weigh_update(s.drop_last(), i, e, w);
        assert(t.drop_last() =~= s.drop_last().update(i, e));
    }
}

proof fn weigh_insert<V>(s: Seq<Entry<V>>, i: int, e: Entry<V>, w: spec_fn(V) -> nat)
    requires
        0 <= i <= s.len(),
    ensures
        weigh(s.insert(i, e), w) == weigh(s, w) + w(e.value),
    decreases s.len(),
{
    let t = s.insert(i, e);
    if i == s.len() {
        assert(t.drop_last() =~= s);
    } else {
        weigh_insert(s.drop_last(), i, e, w);
        assert(t.drop_last() =~= s.drop_last().insert(i, e));
    }
}

/// A part of a sum is at most the whole.
pub proof fn weigh_part<V>(s: Seq<Entry<V>>, k: int, w: spec_fn(V) -> nat)
    requires
        0 <= k <= s.len(),
    ensures
        weigh(s.take(k), w) <= weigh(s, w),
    decreases s.len(),
{
    if k == s.len() {
        assert(s.take(k) =~= s);
    } else {
        weigh_part(s.drop_last(), k, w);
        assert(s.drop_last().take(k) =~= s.take(k));
    }
}

/// One summand is at most the whole sum.
pub proof fn weigh_one<V>(s: Seq<Entry<V>>, i: int, w: spec_fn(V) -> nat)
    requires
        0 <= i < s.len(),
    ensures
        w(s[i].value) <= weigh(s, w),
    decreases s.len(),
{
    if i < s.len() - 1 {
        weigh_one(s.drop_last(), i, w);
    }
}

/// A sum grows with its summands.
pub proof fn weigh_monotone<V>(s: Seq<Entry<V>>, w: spec_fn(V) -> nat, x: spec_fn(V) -> nat)
    requires
        forall|i: int| 0 <= i < s.len() ==> w((#[trigger] s[i]).value) <= x(s[i].value),
    ensures
        weigh(s, w) <= weigh(s, x),
    decreases s.len(),
{
    if s.len() > 0 {
        assert forall|i: int| 0 <= i < s.drop_last().len() implies w(
            (#[trigger] s.drop_last()[i]).value,
        ) <= x(s.drop_last()[i].value) by {
            assert(s.drop_last()[i] == s[i]);
        }
        weigh_monotone(s.drop_last(), w, x);
        assert(w(s[s.len() - 1].value) <= x(s[s.len() - 1].value));
    }
}

impl<V> NameMap<V> {
    /// The entries in name order.
    pub closed spec fn listing(self) -> Seq<Entry<V>> {
        self.entries@
    }

    /// The invariant: strictly ascending name order.
    pub open spec fn wf(self) -> bool {
        in_name_order(self.listing())
    }
}

impl<V> View for NameMap<V> {
    type V = Map<Seq<char>, V>;

    open spec fn view(&self) -> Map<Seq<char>, V> {
        as_map(self.listing())
    }
}

impl<V> NameMap<V> {
    /// A map without entries.
    pub fn new() -> (r: Self)
        ensures
            r.wf(),
            r.listing() == Seq::<Entry<V>>::empty(),
            r@ == Map::<Seq<char>, V>::empty(),
    {
        let r = NameMap { entries: Vec::new() };
        assert(r@ =~= Map::<Seq<char>, V>::empty());
        r
    }

    /// The number of entries.
    pub fn len(&self) -> (n: usize)
        ensures
            n == self.listing().len(),
    {
        self.entries.len()
    }

    /// The `i`th entry in name order.
    pub fn at(&self, i: usize) -> (e: &Entry<V>)
        requires
            i < self.listing().len(),
        ensures
            *e == self.listing()[i as int],
    {
        &self.entries[i]
    }

    /// Where `name` stands, or where it would have to be inserted.
    fn search(&self, name: &str) -> (r: Result<usize, usize>)
        requires
            self.wf(),
        ensures
            match r {
                Ok(i) => i < self.listing().len() && self.listing()[i as int].name@ == name@,
                Err(i) => {
                    &&& i <= self.listing().len()
                    &&& !has_name(self.listing(), name@)
                    &&& forall|j: int|
                        0 <= j < i ==> lex_lt((#[trigger] self.listing()[j]).name@, name@)
                    &&& forall|j: int|
                        i <= j < self.listing().len() ==> lex_lt(
                            name@,
                            (#[trigger] self.listing()[j]).name@,
                        )
                },
            },
    {
        let mut lo: usize = 0;
        let mut hi: usize = self.entries.len();
        while lo < hi
            invariant
                lo <= hi <= self.entries@.len(),
                self.wf(),
                forall|j: int| 0 <= j < lo ==> lex_lt((#[trigger] self.entries@[j]).name@, name@),
                forall|j: int|
                    hi <= j < self.entries@.len() ==> lex_lt(
                        name@,
                        (#[trigger] self.entries@[j]).name@,
                    ),
            decreases hi - lo,
        {
            let mid: usize = lo + (hi - lo) / 2;
            let ghost s = self.entries@;
            match rank(self.entries[mid].name.as_str(), name) {
                Rank::Same => {
                    return Ok(mid);
                },
                Rank::Before => {
                    assert forall|j: int| 0 <= j < mid + 1 implies lex_lt(
                        (#[trigger] self.entries@[j]).name@,
                        name@,
                    ) by {
                        if j < mid {
                            assert(lex_lt(self.listing()[j].name@, self.listing()[mid as int].name@));
                            lex_transitive(s[j].name@, s[mid as int].name@, name@);
                        }
                    }
                    lo = mid + 1;
                },
                Rank::After => {
                    assert forall|j: int| mid <= j < self.entries@.len() implies lex_lt(
                        name@,
                        (#[trigger] self.entries@[j]).name@,
                    ) by {
                        if j > mid {
                            assert(lex_lt(self.listing()[mid as int].name@, self.listing()[j].name@));
                            lex_transitive(name@, s[mid as int].name@, s[j].name@);
                        }
                    }
                    hi = mid;
                },
            }
        }
        proof {
            if has_name(self.listing(), name@) {
                let j = position_of(self.listing(), name@);
                lex_irreflexive(name@);
                assert(self.entries@[j].name@ == name@);
            }
        }
        Err(lo)
    }

    /// The value under `name`.
    pub fn get(&self, name: &str) -> (r: Option<&V>)
        requires
            self.wf(),
        ensures
            match r {
                Some(v) => self@.contains_key(name@) && *v == self@[name@],
                None => !self@.contains_key(name@),
            },
    {
        match self.search(name) {
            Ok(i) => {
                proof {
                    position_is_unique(self.listing(), i as int);
                }
                Some(&self.entries[i].value)
            },
            Err(_) => None,
        }
    }

    /// The value under `name`, entered as `default` if there was none.
    pub fn entry_or(&mut self, name: &str, default: V) -> (slot: &mut V)
        requires
            old(self).wf(),
        ensures
            *slot == (if old(self)@.contains_key(name@) {
                old(self)@[name@]
            } else {
                default
            }),
            final(self).wf(),
            placed(old(self).listing(), name@, *final(slot), final(self).listing()),
            final(self)@ == old(self)@.insert(name@, *final(slot)),
    {
        let ghost a = self.entries@;
        let i: usize = match self.search(name) {
            Ok(i) => {
                proof {
                    position_is_unique(a, i as int);
                }
                i
            },
            Err(i) => {
                self.entries.insert(i, Entry { name: name.to_owned(), value: default });
                i
            },
        };
        proof {
            let b = self.entries@;
            let at = i as int;
            assert forall|e: Entry<V>| #![trigger b.update(at, e)] e.name == b[at].name implies {
                &&& placed(a, name@, e.value, b.update(at, e))
                &&& in_name_order(b.update(at, e))
                &&& as_map(b.update(at, e)) == as_map(a).insert(name@, e.value)
            } by {
                let c = b.update(at, e);
                if has_name(a, name@) {
                    assert(placed_over(a, name@, e.value, c, at));
                    assert forall|p: int, q: int|
                        #![trigger c[p], c[q]]
                        0 <= p < q < c.len() implies lex_lt(c[p].name@, c[q].name@) by {
                        assert(lex_lt(a[p].name@, a[q].name@));
                    }
                } else {
                    assert(c =~= a.insert(at, Entry { name: c[at].name, value: e.value }));
                    assert(placed_new(a, name@, e.value, c, at));
                    assert forall|p: int, q: int|
                        #![trigger c[p], c[q]]
                        0 <= p < q < c.len() implies lex_lt(c[p].name@, c[q].name@) by {
                        if q < at {
                            assert(lex_lt(a[p].name@, a[q].name@));
                        } else if p > at {
                            assert(lex_lt(a[p - 1].name@, a[q - 1].name@));
                        } else if p < at && q > at {
                            assert(lex_lt(a[p].name@, a[q - 1].name@));
                        }
                    }
                }
                placed_is_insert(a, name@, e.value, c);
            }
        }
        &mut self.entries[i].value
    }
}

} // verus!
