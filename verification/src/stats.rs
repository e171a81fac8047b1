//! Aggregation of per-key observations into namespace -> type statistics.

use crate::leaderboard::{
    at_least, at_least_insert, copy_text, empty_keeps_largest, in_display_order, keeps_largest,
    kept_sizes_are_determined, listed_sizes_agree, offered, offering_keeps_largest, same_sizes,
    BigKey, Leaderboard,
};
use crate::names::{
    has_name, placed, position_is_unique, position_of, weigh, weigh_one, weigh_part,
    weigh_placed, Entry, NameMap,
};
use crate::rows::{
    by_ns_persistent, by_ns_persistent_bytes, by_persistent, by_persistent_bytes,
    persistent_bytes, persistent_keys,
};
use vstd::multiset::Multiset;
use vstd::prelude::*;

verus! {

/// Per-type accumulator.
#[derive(Debug, Clone)]
pub struct TypeStat {
    pub count: u64,
    /// Total memory in bytes (only populated when memory is measured).
    pub total_bytes: u64,
    /// Number of keys whose memory was measured (less than `count` when keys
    /// vanished between listing and measuring).
    pub measured: u64,
    /// Breakdown by Redis data type (only when types are collected).
    pub data_types: NameMap<u64>,
    /// Keys with no expiry set (only when TTLs are collected).
    pub persistent: u64,
    /// Keys with an expiry set.
    pub expiring: u64,
    /// Memory held by persistent keys: space that expiry will not free. Only
    /// populated when both memory and TTLs are collected.
    pub persistent_bytes: u64,
}

/// One observation gathered for a single key.
#[derive(Debug)]
pub struct KeyObservation {
    pub bytes: Option<u64>,
    pub data_type: Option<String>,
    /// `-1` without expiry, `-2` for a missing key, else the seconds to live.
    pub ttl: Option<i64>,
}

impl KeyObservation {
    /// Nothing was observed beyond the key itself.
    pub fn new() -> (r: Self)
        ensures
            r == (KeyObservation { bytes: None, data_type: None, ttl: None }),
    {
        KeyObservation { bytes: None, data_type: None, ttl: None }
    }
}

impl Default for KeyObservation {
    /// Nothing was observed beyond the key itself.
    fn default() -> (r: Self)
        ensures
            r == (KeyObservation { bytes: None, data_type: None, ttl: None }),
    {
        KeyObservation::new()
    }
}

/// Statistics of one keyspace: totals per namespace and type, and the biggest
/// keys.
#[derive(Debug, Clone)]
pub struct Stats {
    /// namespace -> (type -> stat)
    pub namespaces: NameMap<NameMap<TypeStat>>,
    pub total_keys: u64,
    /// All bytes measured so far.
    pub measured_bytes: u64,
    /// The largest keys seen. Empty unless memory is measured.
    pub board: Leaderboard,
}

/// What a `TypeStat` says.
#[verifier::ext_equal]
pub struct TypeModel {
    pub count: int,
    pub total_bytes: int,
    pub measured: int,
    pub data_types: Map<Seq<char>, int>,
    pub persistent: int,
    pub expiring: int,
    pub persistent_bytes: int,
}

/// What a `Stats` says about the keys of each namespace and type.
pub type KeyTotals = Map<Seq<char>, Map<Seq<char>, TypeModel>>;

/// A breakdown's counters as numbers.
pub open spec fn tallies(m: Map<Seq<char>, u64>) -> Map<Seq<char>, int> {
    Map::new(|k: Seq<char>| m.contains_key(k), |k: Seq<char>| m[k] as int)
}

impl View for TypeStat {
    type V = TypeModel;

    open spec fn view(&self) -> TypeModel {
        TypeModel {
            count: self.count as int,
            total_bytes: self.total_bytes as int,
            measured: self.measured as int,
            data_types: tallies(self.data_types@),
            persistent: self.persistent as int,
            expiring: self.expiring as int,
            persistent_bytes: self.persistent_bytes as int,
        }
    }
}

/// Nothing was seen yet.
pub open spec fn nothing() -> TypeModel {
    TypeModel {
        count: 0,
        total_bytes: 0,
        measured: 0,
        data_types: Map::empty(),
        persistent: 0,
        expiring: 0,
        persistent_bytes: 0,
    }
}

/// The measured size, or zero.
pub open spec fn size_of(o: KeyObservation) -> int {
    match o.bytes {
        Some(b) => b as int,
        None => 0,
    }
}

/// One more key of data type `d` in a breakdown.
pub open spec fn counted(m: Map<Seq<char>, int>, d: Seq<char>) -> Map<Seq<char>, int> {
    m.insert(
        d,
        if m.contains_key(d) {
            m[d] + 1
        } else {
            1
        },
    )
}

/// A type's totals after one more key was observed.
pub open spec fn observed(t: TypeModel, o: KeyObservation) -> TypeModel {
    TypeModel {
        count: t.count + 1,
        total_bytes: t.total_bytes + size_of(o),
        measured: t.measured + (if o.bytes is Some {
            1int
        } else {
            0
        }),
        data_types: match o.data_type {
            Some(d) => counted(t.data_types, d@),
            None => t.data_types,
        },
        persistent: t.persistent + (if o.ttl == Some(-1i64) {
            1int
        } else {
            0
        }),
        expiring: t.expiring + (if o.ttl is Some && o.ttl->0 >= 0 {
            1int
        } else {
            0
        }),
        persistent_bytes: t.persistent_bytes + (if o.ttl == Some(-1i64) {
            size_of(o)
        } else {
            0
        }),
    }
}

/// The totals of one type, zero if the type has not been seen.
pub open spec fn type_totals(m: Map<Seq<char>, TypeModel>, key_type: Seq<char>) -> TypeModel {
    if m.contains_key(key_type) {
        m[key_type]
    } else {
        nothing()
    }
}

/// The types of one namespace, none if the namespace has not been seen.
pub open spec fn types_in(t: KeyTotals, ns: Seq<char>) -> Map<Seq<char>, TypeModel> {
    if t.contains_key(ns) {
        t[ns]
    } else {
        Map::empty()
    }
}

/// All totals after one more key was observed: only those of its own
/// namespace and type move.
pub open spec fn recorded(t: KeyTotals, ns: Seq<char>, key_type: Seq<char>, o: KeyObservation) -> KeyTotals {
    let types = types_in(t, ns);
    t.insert(ns, types.insert(key_type, observed(type_totals(types, key_type), o)))
}

/// Aggregation does not depend on the order in which keys are observed.
pub proof fn recording_commutes(
    t: KeyTotals,
    ns1: Seq<char>,
    ty1: Seq<char>,
    o1: KeyObservation,
    ns2: Seq<char>,
    ty2: Seq<char>,
    o2: KeyObservation,
)
    ensures
        recorded(recorded(t, ns1, ty1, o1), ns2, ty2, o2) == recorded(
            recorded(t, ns2, ty2, o2),
            ns1,
            ty1,
            o1,
        ),
{
    let a = recorded(recorded(t, ns1, ty1, o1), ns2, ty2, o2);
    let b = recorded(recorded(t, ns2, ty2, o2), ns1, ty1, o1);
    if ns1 != ns2 {
        assert(a =~= b);
    } else {
        if ty1 == ty2 {
            let x = type_totals(types_in(t, ns1), ty1);
            let y = observed(observed(x, o1), o2);
            let z = observed(observed(x, o2), o1);
            assert(y.data_types =~= z.data_types);
            assert(y =~= z);
        }
        assert(a[ns1] =~= b[ns1]);
        assert(a =~= b);
    }
}

/// Sums a breakdown's counters.
pub open spec fn by_tally() -> spec_fn(u64) -> nat {
    |n: u64| n as nat
}

/// Weighs a type by its keys.
pub open spec fn by_count() -> spec_fn(TypeStat) -> nat {
    |t: TypeStat| t.count as nat
}

/// Weighs a type by its bytes.
pub open spec fn by_bytes() -> spec_fn(TypeStat) -> nat {
    |t: TypeStat| t.total_bytes as nat
}

/// Weighs a namespace by its keys.
pub open spec fn by_ns_count() -> spec_fn(NameMap<TypeStat>) -> nat {
    |m: NameMap<TypeStat>| weigh(m.listing(), by_count())
}

/// Weighs a namespace by its bytes.
pub open spec fn by_ns_bytes() -> spec_fn(NameMap<TypeStat>) -> nat {
    |m: NameMap<TypeStat>| weigh(m.listing(), by_bytes())
}

impl TypeStat {
    /// The invariant: no part exceeds its whole.
    pub open spec fn wf(self) -> bool {
        &&& self.data_types.wf()
        &&& self.measured <= self.count
        &&& self.measured == 0 ==> self.total_bytes == 0
        &&& self.persistent + self.expiring <= self.count
        &&& self.persistent_bytes <= self.total_bytes
        &&& self.persistent == 0 ==> self.persistent_bytes == 0
        &&& weigh(self.data_types.listing(), by_tally()) <= self.count
    }

    /// A type of which nothing was seen yet.
    pub fn new() -> (r: Self)
        ensures
            r.wf(),
            r@ == nothing(),
    {
        let r = TypeStat {
            count: 0,
            total_bytes: 0,
            measured: 0,
            data_types: NameMap::new(),
            persistent: 0,
            expiring: 0,
            persistent_bytes: 0,
        };
        assert(tallies(r.data_types@) =~= Map::empty());
        r
    }

    /// The mean size of a measured key, rounded down; zero when none was.
    pub fn avg_bytes(&self) -> (r: u64)
        ensures
            r == (if self.measured == 0 {
                0
            } else {
                self.total_bytes as int / self.measured as int
            }),
    {
        if self.measured == 0 {
            0
        } else {
            self.total_bytes / self.measured
        }
    }

    /// Count one more key.
    fn observe(&mut self, obs: &KeyObservation)
        requires
            old(self).wf(),
            old(self).count < u64::MAX,
            old(self).total_bytes + size_of(*obs) <= u64::MAX,
        ensures
            final(self).wf(),
            final(self)@ == observed(old(self)@, *obs),
    {
        self.count = self.count + 1;
        if let Some(bytes) = obs.bytes {
            self.total_bytes = self.total_bytes + bytes;
            self.measured = self.measured + 1;
        }
        if let Some(dt) = &obs.data_type {
            let ghost before = self.data_types.listing();
            let ghost was = self.data_types@;
            proof {
                if has_name(before, dt@) {
                    weigh_one(before, position_of(before, dt@), by_tally());
                    position_is_unique(before, position_of(before, dt@));
                }
            }
            let tally = self.data_types.entry_or(dt.as_str(), 0);
            *tally = *tally + 1;
            proof {
                let v = self.data_types@[dt@];
                assert(self.data_types@.contains_key(dt@));
                weigh_placed(before, dt@, v, self.data_types.listing(), by_tally());
                assert(tallies(self.data_types@) =~= counted(tallies(was), dt@));
            }
        }
        if let Some(ttl) = obs.ttl {
            if ttl == -1 {
                self.persistent = self.persistent + 1;
                // Space that expiry will not free.
                if let Some(bytes) = obs.bytes {
                    self.persistent_bytes = self.persistent_bytes + bytes;
                }
            } else if ttl >= 0 {
                self.expiring = self.expiring + 1;
            }
            // -2 means the key disappeared; it is neither.
        }
    }
}


/// The types of one namespace as totals.
pub open spec fn types_view(m: NameMap<TypeStat>) -> Map<Seq<char>, TypeModel> {
    Map::new(|k: Seq<char>| m@.contains_key(k), |k: Seq<char>| m@[k]@)
}

/// All types of a namespace are well formed, and none is listed without a key.
pub open spec fn types_wf(m: NameMap<TypeStat>) -> bool {
    &&& m.wf()
    &&& forall|i: int| 0 <= i < m.listing().len() ==> seen_wf((#[trigger] m.listing()[i]).value)
}

/// A well-formed type of which some key was seen.
pub open spec fn seen_wf(t: TypeStat) -> bool {
    t.wf() && t.count >= 1
}

/// A well-formed namespace of which some type was seen.
pub open spec fn namespace_wf(m: NameMap<TypeStat>) -> bool {
    types_wf(m) && m.listing().len() >= 1
}

/// The leaderboard entry for an observed key.
pub open spec fn entry_for(
    e: BigKey,
    key: Seq<char>,
    bytes: u64,
    data_type: Option<String>,
    ttl: Option<i64>,
) -> bool {
    &&& e.key@ == key
    &&& e.bytes == bytes
    &&& e.data_type == data_type
    &&& e.ttl == ttl
}

/// One observed key, with the namespace and type it belongs to.
pub struct KeyRecord {
    pub key: Seq<char>,
    pub namespace: Seq<char>,
    pub key_type: Seq<char>,
    pub obs: KeyObservation,
}

/// Nothing was recorded yet.
pub open spec fn unused(s: Stats) -> bool {
    &&& s.wf()
    &&& s.totals() == KeyTotals::empty()
    &&& s.total_keys == 0
    &&& s.byte_sum() == 0
    &&& s.retained() == Multiset::<BigKey>::empty()
    &&& forall|ns: Seq<char>| #[trigger] s.keys_under(ns) == 0
    &&& forall|ns: Seq<char>| #[trigger] s.bytes_under(ns) == 0
    &&& persistent_keys(s) == 0
    &&& persistent_bytes(s) == 0
}

/// `after` is `before` with one more key counted under its namespace and type,
/// and offered to the leaderboard if its size was measured.
pub open spec fn records(before: Stats, c: KeyRecord, after: Stats) -> bool {
    &&& after.wf()
    &&& after.total_keys == before.total_keys + 1
    &&& after.byte_sum() == before.byte_sum() + size_of(c.obs)
    &&& after.totals() == recorded(before.totals(), c.namespace, c.key_type, c.obs)
    &&& forall|ns: Seq<char>| #[trigger]
        after.keys_under(ns) == before.keys_under(ns) + (if ns == c.namespace {
            1nat
        } else {
            0
        })
    &&& forall|ns: Seq<char>| #[trigger]
        after.bytes_under(ns) == before.bytes_under(ns) + (if ns == c.namespace && c.obs.bytes is Some {
            c.obs.bytes->0 as nat
        } else {
            0
        })
    &&& persistent_keys(after) == persistent_keys(before) + (if c.obs.ttl == Some(-1i64) {
        1nat
    } else {
        0
    })
    &&& persistent_bytes(after) == persistent_bytes(before) + (if c.obs.ttl == Some(-1i64)
        && c.obs.bytes is Some {
        c.obs.bytes->0 as nat
    } else {
        0
    })
    &&& after.cap() == before.cap()
    &&& c.obs.bytes is None ==> after.retained() == before.retained() && after.ranking()
        == before.ranking()
    &&& c.obs.bytes is Some ==> exists|e: BigKey| #[trigger]
        entry_of(e, c) && offered(before.retained(), before.cap(), e, after.retained())
}

/// `e` is the leaderboard entry for a measured key.
pub open spec fn entry_of(e: BigKey, c: KeyRecord) -> bool {
    &&& c.obs.bytes is Some
    &&& entry_for(e, c.key, c.obs.bytes->0, c.obs.data_type, c.obs.ttl)
}

impl Stats {
    /// The totals per namespace and type.
    pub open spec fn totals(self) -> KeyTotals {
        Map::new(
            |k: Seq<char>| self.namespaces@.contains_key(k),
            |k: Seq<char>| types_view(self.namespaces@[k]),
        )
    }

    /// The keys on the leaderboard.
    pub open spec fn retained(self) -> Multiset<BigKey> {
        self.board@
    }

    /// How many keys the leaderboard may retain.
    pub open spec fn cap(self) -> nat {
        self.board.capacity()
    }

    /// Every key counted, over all namespaces and types.
    pub open spec fn key_sum(self) -> nat {
        weigh(self.namespaces.listing(), by_ns_count())
    }

    /// Every byte measured, over all namespaces and types.
    pub open spec fn byte_sum(self) -> nat {
        weigh(self.namespaces.listing(), by_ns_bytes())
    }

    /// The keys counted under a namespace.
    pub open spec fn keys_under(self, ns: Seq<char>) -> nat {
        if self.namespaces@.contains_key(ns) {
            weigh(self.namespaces@[ns].listing(), by_count())
        } else {
            0
        }
    }

    /// The bytes measured under a namespace.
    pub open spec fn bytes_under(self, ns: Seq<char>) -> nat {
        if self.namespaces@.contains_key(ns) {
            weigh(self.namespaces@[ns].listing(), by_bytes())
        } else {
            0
        }
    }

    /// The biggest keys in display order.
    pub open spec fn ranking(self) -> Seq<BigKey> {
        self.board.ranking()
    }

    /// The invariant that every operation keeps. The keys and bytes of all
    /// types add up to the totals.
    pub open spec fn wf(self) -> bool {
        &&& self.namespaces.wf()
        &&& forall|i: int|
            0 <= i < self.namespaces.listing().len() ==> namespace_wf(
                (#[trigger] self.namespaces.listing()[i]).value,
            )
        &&& self.key_sum() == self.total_keys
        &&& self.byte_sum() == self.measured_bytes
        &&& self.board.wf()
    }

    /// Statistics that retain the `cap` largest keys (0 disables tracking).
    pub fn with_biggest_cap(cap: usize) -> (r: Self)
        ensures
            r.wf(),
            r.cap() == cap,
            unused(r),
            keeps_largest(Multiset::empty(), r.cap(), r.retained()),
    {
        let r = Stats {
            namespaces: NameMap::new(),
            total_keys: 0,
            measured_bytes: 0,
            board: Leaderboard::new(cap),
        };
        assert(r.totals() =~= KeyTotals::empty());
        r
    }

    /// Whether one more key, of the given size, still fits the counters.
    pub fn has_room(&self, bytes: Option<u64>) -> (r: bool)
        requires
            self.wf(),
        ensures
            r == (self.total_keys < u64::MAX && self.byte_sum() + (match bytes {
                Some(b) => b as int,
                None => 0,
            }) <= u64::MAX),
    {
        match bytes {
            Some(b) => self.total_keys < u64::MAX && b <= u64::MAX - self.measured_bytes,
            None => self.total_keys < u64::MAX,
        }
    }

    /// Count one observed key under its namespace and type, and offer it to the
    /// leaderboard if its size was measured.
    pub fn record(&mut self, key: &str, namespace: &str, key_type: &str, obs: &KeyObservation)
        requires
            old(self).wf(),
            old(self).total_keys < u64::MAX,
            old(self).byte_sum() + size_of(*obs) <= u64::MAX,
        ensures
            records(
                *old(self),
                (KeyRecord { key: key@, namespace: namespace@, key_type: key_type@, obs: *obs }),
                *final(self),
            ),
    {
        let ghost was = self.namespaces.listing();
        let ghost map = self.namespaces@;
        let ghost totals = self.totals();
        let fresh_types: NameMap<TypeStat> = NameMap::new();
        let ghost was_types = if map.contains_key(namespace@) {
            map[namespace@]
        } else {
            fresh_types
        };
        proof {
            if map.contains_key(namespace@) {
                let at = position_of(was, namespace@);
                position_is_unique(was, at);
                weigh_one(was, at, by_ns_count());
                weigh_one(was, at, by_ns_bytes());
            }
            assert(types_wf(was_types));
            assert(types_view(was_types) =~= types_in(totals, namespace@));
        }
        self.total_keys = self.total_keys + 1;
        let types = self.namespaces.entry_or(namespace, fresh_types);
        assert(*types == was_types);
        let fresh = TypeStat::new();
        let ghost was_stat = if was_types@.contains_key(key_type@) {
            was_types@[key_type@]
        } else {
            fresh
        };
        proof {
            if was_types@.contains_key(key_type@) {
                let at = position_of(was_types.listing(), key_type@);
                position_is_unique(was_types.listing(), at);
                weigh_one(was_types.listing(), at, by_count());
                weigh_one(was_types.listing(), at, by_bytes());
            }
        }
        let stat = types.entry_or(key_type, fresh);
        assert(*stat == was_stat);
        stat.observe(obs);
        let ghost now_types = self.namespaces@[namespace@];
        let ghost now_stat = now_types@[key_type@];
        proof {
            assert(self.namespaces@.contains_key(namespace@));
            assert(now_types@.contains_key(key_type@));
            let a = was_types.listing();
            let b = now_types.listing();
            assert(placed(a, key_type@, now_stat, b));
            weigh_placed(a, key_type@, now_stat, b, by_count());
            weigh_placed(a, key_type@, now_stat, b, by_bytes());
            weigh_placed(a, key_type@, now_stat, b, by_persistent());
            weigh_placed(a, key_type@, now_stat, b, by_persistent_bytes());
            let c = self.namespaces.listing();
            assert(placed(was, namespace@, now_types, c));
            weigh_placed(was, namespace@, now_types, c, by_ns_count());
            weigh_placed(was, namespace@, now_types, c, by_ns_bytes());
            weigh_placed(was, namespace@, now_types, c, by_ns_persistent());
            weigh_placed(was, namespace@, now_types, c, by_ns_persistent_bytes());
            placed_keeps(a, key_type@, now_stat, b, |t: TypeStat| seen_wf(t));
            placed_keeps(was, namespace@, now_types, c, |m: NameMap<TypeStat>| namespace_wf(m));
            assert(types_view(now_types) =~= types_view(was_types).insert(key_type@, now_stat@));
            assert(self.totals() =~= totals.insert(namespace@, types_view(now_types)));
        }
        if let Some(bytes) = obs.bytes {
            self.measured_bytes = self.measured_bytes + bytes;
            self.record_big_key(key, bytes, &obs.data_type, obs.ttl);
        }
        proof {
            let c = KeyRecord { key: key@, namespace: namespace@, key_type: key_type@, obs: *obs };
            if obs.bytes is Some {
                let e = choose|e: BigKey| #[trigger]
                    entry_for(e, key@, obs.bytes->0, obs.data_type, obs.ttl) && offered(
                        old(self).retained(),
                        old(self).cap(),
                        e,
                        self.retained(),
                    );
                assert(entry_of(e, c));
            }
        }
    }

    /// Offer a measured key to the leaderboard.
    fn record_big_key(
        &mut self,
        key: &str,
        bytes: u64,
        data_type: &Option<String>,
        ttl: Option<i64>,
    )
        requires
            old(self).board.wf(),
        ensures
            final(self).board.wf(),
            final(self).namespaces == old(self).namespaces,
            final(self).total_keys == old(self).total_keys,
            final(self).measured_bytes == old(self).measured_bytes,
            final(self).cap() == old(self).cap(),
            exists|e: BigKey| #[trigger]
                entry_for(e, key@, bytes, *data_type, ttl) && offered(
                    old(self).retained(),
                    old(self).cap(),
                    e,
                    final(self).retained(),
                ),
    {
        let e = BigKey { key: key.to_owned(), bytes, data_type: copy_text(data_type), ttl };
        let ghost g = e;
        self.board.offer(e);
        assert(entry_for(g, key@, bytes, *data_type, ttl));
    }

    /// The retained biggest keys, largest first, equal sizes in name order.
    pub fn biggest(&self) -> (r: Vec<BigKey>)
        requires
            self.wf(),
        ensures
            r@ == self.ranking(),
            r@.to_multiset() == self.retained(),
            r@.len() == self.retained().len(),
            r@.len() <= self.cap(),
            in_display_order(r@),
    {
        self.board.biggest()
    }

    /// Total key count of a namespace.
    pub fn namespace_count(&self, ns: &str) -> (r: u64)
        requires
            self.wf(),
        ensures
            r == self.keys_under(ns@),
    {
        match self.namespaces.get(ns) {
            Some(m) => {
                proof {
                    let at = position_of(self.namespaces.listing(), ns@);
                    weigh_one(self.namespaces.listing(), at, by_ns_count());
                }
                count_of(m)
            },
            None => 0,
        }
    }

    /// Total memory of a namespace.
    pub fn namespace_bytes(&self, ns: &str) -> (r: u64)
        requires
            self.wf(),
        ensures
            r == self.bytes_under(ns@),
    {
        match self.namespaces.get(ns) {
            Some(m) => {
                proof {
                    let at = position_of(self.namespaces.listing(), ns@);
                    weigh_one(self.namespaces.listing(), at, by_ns_bytes());
                }
                bytes_of(m)
            },
            None => 0,
        }
    }
}

impl Default for Stats {
    /// Statistics without a leaderboard.
    fn default() -> (r: Self)
        ensures
            r.wf(),
            r.cap() == 0,
            unused(r),
    {
        Stats::with_biggest_cap(0)
    }
}

/// `states` are statistics as `calls` are recorded one after the other.
pub open spec fn turns(states: Seq<Stats>, calls: Seq<KeyRecord>) -> bool {
    &&& states.len() == calls.len() + 1
    &&& forall|i: int|
        0 <= i < calls.len() ==> records(#[trigger] states[i], calls[i], states[i + 1])
}

/// `to` arises from `from` by recording `calls` one after the other.
pub open spec fn records_in_turn(from: Stats, calls: Seq<KeyRecord>, to: Stats) -> bool {
    exists|states: Seq<Stats>| #[trigger]
        turns(states, calls) && states[0] == from && states.last() == to
}

/// No call leaves the statistics as they are.
pub proof fn no_turns(s: Stats)
    ensures
        records_in_turn(s, Seq::empty(), s),
{
    assert(turns(seq![s], Seq::<KeyRecord>::empty()));
}

/// Recording a row of calls and then one more records the longer row.
pub proof fn one_more_turn(a: Stats, calls: Seq<KeyRecord>, b: Stats, c: KeyRecord, to: Stats)
    requires
        records_in_turn(a, calls, b),
        records(b, c, to),
    ensures
        records_in_turn(a, calls.push(c), to),
{
    let x = choose|states: Seq<Stats>| #[trigger]
        turns(states, calls) && states[0] == a && states.last() == b;
    let y = x.push(to);
    let all = calls.push(c);
    assert forall|i: int| 0 <= i < all.len() implies records(#[trigger] y[i], all[i], y[i + 1]) by {
        if i < calls.len() {
            assert(records(x[i], calls[i], x[i + 1]));
        }
    }
    assert(turns(y, all));
}

/// Recording one row of calls and then another records both in a row.
pub proof fn turns_join(
    a: Stats,
    first: Seq<KeyRecord>,
    b: Stats,
    second: Seq<KeyRecord>,
    c: Stats,
)
    requires
        records_in_turn(a, first, b),
        records_in_turn(b, second, c),
    ensures
        records_in_turn(a, first + second, c),
{
    let x = choose|states: Seq<Stats>| #[trigger]
        turns(states, first) && states[0] == a && states.last() == b;
    let y = choose|states: Seq<Stats>| #[trigger]
        turns(states, second) && states[0] == b && states.last() == c;
    let z = x + y.skip(1);
    let all = first + second;
    let n = first.len() as int;
    assert forall|i: int| 0 <= i < all.len() implies records(#[trigger] z[i], all[i], z[i + 1]) by {
        if i < n {
            assert(records(x[i], first[i], x[i + 1]));
        } else {
            assert(records(y[i - n], second[i - n], y[i - n + 1]));
            assert(z[i + 1] == y[i + 1 - n]);
            if i == n {
                assert(z[i] == x.last());
            } else {
                assert(z[i] == y[i - n]);
            }
        }
    }
    assert(turns(z, all));
    if second.len() == 0 {
        assert(z =~= x);
    }
}

/// `states` are the statistics from an unused one on, as `calls` are recorded
/// one after the other.
pub open spec fn recording(states: Seq<Stats>, calls: Seq<KeyRecord>) -> bool {
    turns(states, calls) && unused(states[0])
}

/// The keys among `calls` that were recorded under a namespace.
pub open spec fn calls_under(calls: Seq<KeyRecord>, ns: Seq<char>) -> nat
    decreases calls.len(),
{
    if calls.len() == 0 {
        0
    } else {
        calls_under(calls.drop_last(), ns) + (if calls.last().namespace == ns {
            1nat
        } else {
            0
        })
    }
}

/// The keys among `calls` whose size was measured.
pub open spec fn measured_calls(calls: Seq<KeyRecord>) -> Seq<KeyRecord> {
    calls.filter(|c: KeyRecord| c.obs.bytes is Some)
}

/// `entries` are the leaderboard entries for `calls`, one for one.
pub open spec fn entries_of(entries: Seq<BigKey>, calls: Seq<KeyRecord>) -> bool {
    &&& entries.len() == calls.len()
    &&& forall|i: int| 0 <= i < calls.len() ==> entry_of(#[trigger] entries[i], calls[i])
}

/// A recording without its last call is a recording.
proof fn shorter_recording(states: Seq<Stats>, calls: Seq<KeyRecord>)
    requires
        recording(states, calls),
        calls.len() > 0,
    ensures
        recording(states.drop_last(), calls.drop_last()),
        records(states.drop_last().last(), calls.last(), states.last()),
{
    let s = states.drop_last();
    let c = calls.drop_last();
    assert forall|i: int| 0 <= i < c.len() implies records(#[trigger] s[i], c[i], s[i + 1]) by {
        assert(records(states[i], calls[i], states[i + 1]));
    }
    let n = calls.len() - 1;
    assert(records(states[n], calls[n], states[n + 1]));
}

/// Whatever is recorded, the totals are those of the calls: every state is well
/// formed, every call counts one key, and every namespace has as many keys as
/// calls named it.
pub proof fn recorded_keys_are_counted(
    states: Seq<Stats>,
    calls: Seq<KeyRecord>,
    ns: Seq<char>,
)
    requires
        recording(states, calls),
    ensures
        states.last().wf(),
        states.last().cap() == states[0].cap(),
        states.last().total_keys == calls.len(),
        states.last().keys_under(ns) == calls_under(calls, ns),
    decreases calls.len(),
{
    if calls.len() > 0 {
        shorter_recording(states, calls);
        recorded_keys_are_counted(states.drop_last(), calls.drop_last(), ns);
    }
}

/// How many of `calls` satisfy `p`.
pub open spec fn count_calls(calls: Seq<KeyRecord>, p: spec_fn(KeyRecord) -> bool) -> nat
    decreases calls.len(),
{
    if calls.len() == 0 {
        0
    } else {
        count_calls(calls.drop_last(), p) + (if p(calls.last()) {
            1nat
        } else {
            0
        })
    }
}

/// The measured sizes of those of `calls` that satisfy `p`, added up.
pub open spec fn add_sizes(calls: Seq<KeyRecord>, p: spec_fn(KeyRecord) -> bool) -> nat
    decreases calls.len(),
{
    if calls.len() == 0 {
        0
    } else {
        let c = calls.last();
        add_sizes(calls.drop_last(), p) + (if p(c) && c.obs.bytes is Some {
            c.obs.bytes->0 as nat
        } else {
            0
        })
    }
}

/// The call belongs to namespace `ns` and type `ty`.
pub open spec fn belongs(c: KeyRecord, ns: Seq<char>, ty: Seq<char>) -> bool {
    c.namespace == ns && c.key_type == ty
}

/// `t` holds the figures of those of `calls` that belong to `ns` and `ty`.
spec fn sums_up(t: TypeModel, calls: Seq<KeyRecord>, ns: Seq<char>, ty: Seq<char>) -> bool {
    &&& t.count == count_calls(calls, |c: KeyRecord| belongs(c, ns, ty))
    &&& t.measured == count_calls(calls, |c: KeyRecord| belongs(c, ns, ty) && c.obs.bytes is Some)
    &&& t.total_bytes == add_sizes(calls, |c: KeyRecord| belongs(c, ns, ty))
    &&& t.persistent == count_calls(
        calls,
        |c: KeyRecord| belongs(c, ns, ty) && c.obs.ttl == Some(-1i64),
    )
    &&& t.expiring == count_calls(
        calls,
        |c: KeyRecord| belongs(c, ns, ty) && c.obs.ttl is Some && c.obs.ttl->0 >= 0,
    )
    &&& t.persistent_bytes == add_sizes(
        calls,
        |c: KeyRecord| belongs(c, ns, ty) && c.obs.ttl == Some(-1i64),
    )
}

/// How many of `calls` belong to `ns` and `ty` and have the data type `d`.
pub open spec fn count_kind(
    calls: Seq<KeyRecord>,
    ns: Seq<char>,
    ty: Seq<char>,
    d: Seq<char>,
) -> nat {
    count_calls(
        calls,
        |c: KeyRecord| belongs(c, ns, ty) && c.obs.data_type is Some && c.obs.data_type->0@ == d,
    )
}

/// The breakdown by data type counts those of `calls` that belong to `ns` and
/// `ty`.
spec fn kinds_add_up(
    m: Map<Seq<char>, int>,
    calls: Seq<KeyRecord>,
    ns: Seq<char>,
    ty: Seq<char>,
) -> bool {
    forall|d: Seq<char>| #[trigger]
        count_kind(calls, ns, ty, d) == (if m.contains_key(d) {
            m[d]
        } else {
            0
        })
}

proof fn totals_sum_up(
    states: Seq<Stats>,
    calls: Seq<KeyRecord>,
    ns: Seq<char>,
    ty: Seq<char>,
)
    requires
        recording(states, calls),
    ensures
        sums_up(type_totals(types_in(states.last().totals(), ns), ty), calls, ns, ty),
        kinds_add_up(
            type_totals(types_in(states.last().totals(), ns), ty).data_types,
            calls,
            ns,
            ty,
        ),
        types_in(states.last().totals(), ns).contains_key(ty) <==> count_calls(
            calls,
            |c: KeyRecord| belongs(c, ns, ty),
        ) > 0,
        forall|d: Seq<char>| #[trigger]
            type_totals(types_in(states.last().totals(), ns), ty).data_types.contains_key(d)
                ==> type_totals(types_in(states.last().totals(), ns), ty).data_types[d] > 0,
    decreases calls.len(),
{
    if calls.len() > 0 {
        shorter_recording(states, calls);
        totals_sum_up(states.drop_last(), calls.drop_last(), ns, ty);
        let c = calls.last();
        let fewer = calls.drop_last();
        let before = type_totals(types_in(states.drop_last().last().totals(), ns), ty);
        let after = type_totals(types_in(states.last().totals(), ns), ty);
        if belongs(c, ns, ty) {
            assert(after == observed(before, c.obs));
        } else {
            assert(after == before);
        }
        assert forall|d: Seq<char>| #[trigger]
            count_kind(calls, ns, ty, d) == (if after.data_types.contains_key(d) {
                after.data_types[d]
            } else {
                0
            }) by {
            assert(count_kind(fewer, ns, ty, d) == (if before.data_types.contains_key(d) {
                before.data_types[d]
            } else {
                0
            }));
        }
    }
}

/// Whatever is recorded, a type's figures are those of the calls that belong to
/// it, each figure on its own: all keys, the measured ones and their sizes, the
/// keys without a TTL and their sizes, the keys with one, and the keys of every
/// data type. A type is listed exactly if a call belongs to it.
pub proof fn recorded_types_are_counted(
    states: Seq<Stats>,
    calls: Seq<KeyRecord>,
    ns: Seq<char>,
    ty: Seq<char>,
)
    requires
        recording(states, calls),
    ensures
        ({
            let m = states.last().namespaces@;
            let listed = m.contains_key(ns) && m[ns]@.contains_key(ty);
            let t = m[ns]@[ty];
            &&& listed <==> count_calls(calls, |c: KeyRecord| belongs(c, ns, ty)) > 0
            &&& listed ==> {
                &&& t.count == count_calls(calls, |c: KeyRecord| belongs(c, ns, ty))
                &&& t.measured == count_calls(
                    calls,
                    |c: KeyRecord| belongs(c, ns, ty) && c.obs.bytes is Some,
                )
                &&& t.total_bytes == add_sizes(calls, |c: KeyRecord| belongs(c, ns, ty))
                &&& t.persistent == count_calls(
                    calls,
                    |c: KeyRecord| belongs(c, ns, ty) && c.obs.ttl == Some(-1i64),
                )
                &&& t.expiring == count_calls(
                    calls,
                    |c: KeyRecord| belongs(c, ns, ty) && c.obs.ttl is Some && c.obs.ttl->0 >= 0,
                )
                &&& t.persistent_bytes == add_sizes(
                    calls,
                    |c: KeyRecord| belongs(c, ns, ty) && c.obs.ttl == Some(-1i64),
                )
                &&& forall|d: Seq<char>| #[trigger]
                    t.data_types@.contains_key(d) <==> count_kind(calls, ns, ty, d) > 0
                &&& forall|d: Seq<char>| #[trigger]
                    t.data_types@.contains_key(d) ==> t.data_types@[d] == count_kind(
                        calls,
                        ns,
                        ty,
                        d,
                    )
            }
        }),
{
    totals_sum_up(states, calls, ns, ty);
    let s = states.last();
    let model = type_totals(types_in(s.totals(), ns), ty);
    if s.namespaces@.contains_key(ns) && s.namespaces@[ns]@.contains_key(ty) {
        let t = s.namespaces@[ns]@[ty];
        assert(types_in(s.totals(), ns).contains_key(ty));
        assert(model == t@);
        assert forall|d: Seq<char>| #[trigger]
            t.data_types@.contains_key(d) <==> count_kind(calls, ns, ty, d) > 0 by {
            assert(model.data_types.contains_key(d) == t.data_types@.contains_key(d));
        }
        assert forall|d: Seq<char>| #[trigger] t.data_types@.contains_key(d) implies t.data_types@[d]
            == count_kind(calls, ns, ty, d) by {
            assert(model.data_types.contains_key(d));
            assert(model.data_types[d] == t.data_types@[d]);
        }
    } else {
        assert(!types_in(s.totals(), ns).contains_key(ty));
    }
}

/// Whatever is recorded, a namespace has the bytes that were measured under it,
/// and all namespaces together those that were measured at all.
pub proof fn recorded_bytes_are_added_up(
    states: Seq<Stats>,
    calls: Seq<KeyRecord>,
    ns: Seq<char>,
)
    requires
        recording(states, calls),
    ensures
        states.last().bytes_under(ns) == add_sizes(calls, |c: KeyRecord| c.namespace == ns),
        states.last().measured_bytes == add_sizes(calls, |c: KeyRecord| true),
{
    bytes_add_up(states, calls, ns);
    assert(states.last().wf()) by {
        recorded_keys_are_counted(states, calls, ns);
    }
}

proof fn bytes_add_up(states: Seq<Stats>, calls: Seq<KeyRecord>, ns: Seq<char>)
    requires
        recording(states, calls),
    ensures
        states.last().bytes_under(ns) == add_sizes(calls, |c: KeyRecord| c.namespace == ns),
        states.last().byte_sum() == add_sizes(calls, |c: KeyRecord| true),
    decreases calls.len(),
{
    let p = |c: KeyRecord| c.namespace == ns;
    let q = |c: KeyRecord| true;
    if calls.len() > 0 {
        let c = calls.last();
        let before = states.drop_last().last();
        shorter_recording(states, calls);
        bytes_add_up(states.drop_last(), calls.drop_last(), ns);
        step_adds_bytes(before, c, states.last(), ns);
        assert(add_sizes(calls, p) == add_sizes(calls.drop_last(), p) + (if p(c)
            && c.obs.bytes is Some {
            c.obs.bytes->0 as nat
        } else {
            0
        }));
    } else {
        nothing_has_no_bytes(states.last(), ns);
    }
}

proof fn step_adds_bytes(before: Stats, c: KeyRecord, after: Stats, ns: Seq<char>)
    requires
        records(before, c, after),
    ensures
        after.byte_sum() == before.byte_sum() + size_of(c.obs),
        after.bytes_under(ns) == before.bytes_under(ns) + (if ns == c.namespace
            && c.obs.bytes is Some {
            c.obs.bytes->0 as nat
        } else {
            0
        }),
{
}

proof fn nothing_has_no_bytes(s: Stats, ns: Seq<char>)
    requires
        unused(s),
    ensures
        s.byte_sum() == 0,
        s.bytes_under(ns) == 0,
{
}

/// Whatever is recorded, the persistent keys are the calls without a TTL, and
/// their memory what was measured of those.
pub proof fn recorded_persistent_keys_are_counted(states: Seq<Stats>, calls: Seq<KeyRecord>)
    requires
        recording(states, calls),
    ensures
        persistent_keys(states.last()) == count_calls(
            calls,
            |c: KeyRecord| c.obs.ttl == Some(-1i64),
        ),
        persistent_bytes(states.last()) == add_sizes(
            calls,
            |c: KeyRecord| c.obs.ttl == Some(-1i64),
        ),
    decreases calls.len(),
{
    if calls.len() > 0 {
        shorter_recording(states, calls);
        recorded_persistent_keys_are_counted(states.drop_last(), calls.drop_last());
    }
}

/// Whatever is recorded, and in whatever order, the leaderboard retains the
/// largest of the measured keys: each entry is that of a call of its own, there
/// are as many as the capacity admits, and no measured key that is left out is
/// larger than one retained.
pub proof fn largest_records_are_retained(
    states: Seq<Stats>,
    calls: Seq<KeyRecord>,
) -> (entries: Seq<BigKey>)
    requires
        recording(states, calls),
    ensures
        entries_of(entries, measured_calls(calls)),
        keeps_largest(entries.to_multiset(), states.last().cap(), states.last().retained()),
        states.last().cap() == states[0].cap(),
    decreases calls.len(),
{
    let f = |c: KeyRecord| c.obs.bytes is Some;
    reveal(Seq::filter);
    if calls.len() == 0 {
        let none = Seq::<BigKey>::empty();
        vstd::seq_lib::to_multiset_len(none);
        assert(none.to_multiset() =~= Multiset::<BigKey>::empty());
        empty_keeps_largest(states.last().cap());
        none
    } else {
        let c = calls.last();
        let before = states.drop_last().last();
        let after = states.last();
        shorter_recording(states, calls);
        let entries = largest_records_are_retained(states.drop_last(), calls.drop_last());
        if c.obs.bytes is Some {
            let e = choose|e: BigKey| #[trigger]
                entry_of(e, c) && offered(before.retained(), before.cap(), e, after.retained());
            offering_keeps_largest(
                entries.to_multiset(),
                before.cap(),
                before.retained(),
                e,
                after.retained(),
            );
            vstd::seq_lib::to_multiset_build(entries, e);
            let more = entries.push(e);
            let m = measured_calls(calls);
            assert(m == measured_calls(calls.drop_last()).push(c));
            assert forall|i: int| 0 <= i < m.len() implies entry_of(#[trigger] more[i], m[i]) by {
                if i < entries.len() {
                    assert(entry_of(entries[i], measured_calls(calls.drop_last())[i]));
                }
            }
            more
        } else {
            entries
        }
    }
}

/// The same in full: the leaderboard has as many keys as were measured, or as
/// it has room for, each of them one of those measured, and none that it left
/// out is larger than one that it has.
pub proof fn no_larger_key_is_left_out(
    states: Seq<Stats>,
    calls: Seq<KeyRecord>,
) -> (entries: Seq<BigKey>)
    requires
        recording(states, calls),
    ensures
        entries.len() == measured_calls(calls).len(),
        forall|i: int|
            #![trigger entries[i]]
            0 <= i < entries.len() ==> {
                let c = measured_calls(calls)[i];
                &&& entries[i].key@ == c.key
                &&& c.obs.bytes == Some(entries[i].bytes)
                &&& entries[i].data_type == c.obs.data_type
                &&& entries[i].ttl == c.obs.ttl
            },
        ({
            let kept = states.last().retained();
            let all = entries.to_multiset();
            let cap = states[0].cap();
            &&& kept.len() == (if entries.len() < cap {
                entries.len()
            } else {
                cap
            })
            &&& forall|e: BigKey| #[trigger] kept.count(e) <= all.count(e)
            &&& forall|d: BigKey, k: BigKey|
                #![trigger all.count(d), kept.count(k)]
                all.count(d) > kept.count(d) && kept.count(k) > 0 ==> d.bytes <= k.bytes
        }),
{
    let entries = largest_records_are_retained(states, calls);
    let kept = states.last().retained();
    let all = entries.to_multiset();
    vstd::seq_lib::to_multiset_len(entries);
    assert forall|e: BigKey| #[trigger] kept.count(e) <= all.count(e) by {}
    assert forall|d: BigKey, k: BigKey|
        #![trigger all.count(d), kept.count(k)]
        all.count(d) > kept.count(d) && kept.count(k) > 0 implies d.bytes <= k.bytes by {
        assert(kept.contains(k));
    }
    assert forall|i: int| #![trigger entries[i]] 0 <= i < entries.len() implies {
        let c = measured_calls(calls)[i];
        &&& entries[i].key@ == c.key
        &&& c.obs.bytes == Some(entries[i].bytes)
        &&& entries[i].data_type == c.obs.data_type
        &&& entries[i].ttl == c.obs.ttl
    } by {
        assert(entry_of(entries[i], measured_calls(calls)[i]));
    }
    entries
}

/// What a leaderboard that holds no more than it may retains after a call, as
/// the largest of its keys and the call's.
proof fn record_keeps_largest(
    history: Multiset<BigKey>,
    before: Stats,
    c: KeyRecord,
    after: Stats,
) -> (grown: Multiset<BigKey>)
    requires
        keeps_largest(history, before.cap(), before.retained()),
        records(before, c, after),
    ensures
        keeps_largest(grown, before.cap(), after.retained()),
        forall|bytes: u64| #[trigger]
            at_least(grown, bytes) == at_least(history, bytes) + (if c.obs.bytes is Some
                && c.obs.bytes->0 >= bytes {
                1nat
            } else {
                0
            }),
{
    if c.obs.bytes is Some {
        let e = choose|e: BigKey| #[trigger]
            entry_of(e, c) && offered(before.retained(), before.cap(), e, after.retained());
        offering_keeps_largest(history, before.cap(), before.retained(), e, after.retained());
        assert forall|bytes: u64| #[trigger]
            at_least(history.insert(e), bytes) == at_least(history, bytes) + (if c.obs.bytes->0
                >= bytes {
                1nat
            } else {
                0
            }) by {
            at_least_insert(history, e, bytes);
        }
        history.insert(e)
    } else {
        history
    }
}

/// Two keys may be recorded in either order: the totals agree, and the biggest
/// keys have the same sizes, place by place.
pub proof fn records_commute(
    start: Stats,
    c1: KeyRecord,
    c2: KeyRecord,
    a: Stats,
    a2: Stats,
    b: Stats,
    b2: Stats,
)
    requires
        start.wf(),
        records(start, c1, a),
        records(a, c2, a2),
        records(start, c2, b),
        records(b, c1, b2),
    ensures
        a2.total_keys == b2.total_keys,
        a2.byte_sum() == b2.byte_sum(),
        a2.totals() == b2.totals(),
        a2.cap() == b2.cap(),
        same_sizes(a2.retained(), b2.retained()),
        a2.ranking().len() == b2.ranking().len(),
        forall|i: int|
            0 <= i < a2.ranking().len() ==> (#[trigger] a2.ranking()[i]).bytes
                == b2.ranking()[i].bytes,
{
    recording_commutes(
        start.totals(),
        c1.namespace,
        c1.key_type,
        c1.obs,
        c2.namespace,
        c2.key_type,
        c2.obs,
    );
    let m = start.retained();
    vstd::seq_lib::to_multiset_len(start.board.slots());
    assert(keeps_largest(m, start.cap(), m));
    let x1 = record_keeps_largest(m, start, c1, a);
    let x = record_keeps_largest(x1, a, c2, a2);
    let y1 = record_keeps_largest(m, start, c2, b);
    let y = record_keeps_largest(y1, b, c1, b2);
    assert(same_sizes(x, y));
    kept_sizes_are_determined(x, a2.retained(), y, b2.retained(), start.cap());
    a2.board.ranking_is_listing();
    b2.board.ranking_is_listing();
    listed_sizes_agree(a2.ranking(), b2.ranking());
}

/// What holds of all old values and of the new one holds of all values.
proof fn placed_keeps<V>(
    a: Seq<Entry<V>>,
    name: Seq<char>,
    v: V,
    b: Seq<Entry<V>>,
    p: spec_fn(V) -> bool,
)
    requires
        placed(a, name, v, b),
        forall|i: int| 0 <= i < a.len() ==> p((#[trigger] a[i]).value),
        p(v),
    ensures
        forall|i: int| 0 <= i < b.len() ==> p((#[trigger] b[i]).value),
{
    assert forall|i: int| 0 <= i < b.len() implies p((#[trigger] b[i]).value) by {
        if exists|k: int| #[trigger] crate::names::placed_over(a, name, v, b, k) {
            let k = choose|k: int| #[trigger] crate::names::placed_over(a, name, v, b, k);
            assert(p(a[i].value));
        } else {
            let k = choose|k: int| #[trigger] crate::names::placed_new(a, name, v, b, k);
            if i < k {
                assert(b[i] == a[i]);
            } else if i > k {
                assert(b[i] == a[i - 1]);
            }
        }
    }
}

/// The keys of all types of a namespace.
pub(crate) fn count_of(m: &NameMap<TypeStat>) -> (r: u64)
    requires
        weigh(m.listing(), by_count()) <= u64::MAX,
    ensures
        r == weigh(m.listing(), by_count()),
{
    let mut n: u64 = 0;
    let mut i: usize = 0;
    let ghost s = m.listing();
    while i < m.len()
        invariant
            0 <= i <= s.len(),
            s == m.listing(),
            weigh(s, by_count()) <= u64::MAX,
            n == weigh(s.take(i as int), by_count()),
        decreases s.len() - i,
    {
        proof {
            weigh_part(s, i + 1, by_count());
            assert(s.take(i + 1).drop_last() =~= s.take(i as int));
        }
        n = n + m.at(i).value.count;
        i = i + 1;
    }
    assert(s.take(i as int) =~= s);
    n
}

/// The bytes of all types of a namespace.
pub(crate) fn bytes_of(m: &NameMap<TypeStat>) -> (r: u64)
    requires
        weigh(m.listing(), by_bytes()) <= u64::MAX,
    ensures
        r == weigh(m.listing(), by_bytes()),
{
    let mut n: u64 = 0;
    let mut i: usize = 0;
    let ghost s = m.listing();
    while i < m.len()
        invariant
            0 <= i <= s.len(),
            s == m.listing(),
            weigh(s, by_bytes()) <= u64::MAX,
            n == weigh(s.take(i as int), by_bytes()),
        decreases s.len() - i,
    {
        proof {
            weigh_part(s, i + 1, by_bytes());
            assert(s.take(i + 1).drop_last() =~= s.take(i as int));
        }
        n = n + m.at(i).value.total_bytes;
        i = i + 1;
    }
    assert(s.take(i as int) =~= s);
    n
}

} // verus!
