//! The SCAN driver as a state machine.
//!
//! The keyspace is walked with SCAN, never with KEYS (which would block Redis).
//! Each batch is optionally enriched with MEMORY USAGE, TYPE and TTL in one
//! pipeline. Whoever holds the connection sends the commands that are built
//! here and hands the replies back.

use crate::grouping::{cuts_cleanly, body_of, is_cut_clean, namespace_of, parse_key, type_of};
use crate::leaderboard::{keeps_largest, offering_keeps_largest, offered, BigKey};
use crate::stats::{
    entry_of, no_turns, one_more_turn, recorded, records, records_in_turn, size_of, turns_join,
    unused, KeyObservation, KeyRecord, KeyTotals, Stats,
};
use crate::text::{dec, decimal, from_utf8_lossy, lossy, text_of, texts};
use vstd::multiset::Multiset;
use vstd::prelude::*;

verus! {

/// What a scan collects.
#[derive(Debug, Clone, Copy)]
pub struct ScanOptions {
    /// COUNT hint for SCAN: keys per server-side step.
    pub count: usize,
    /// Treat the first N bytes as the namespace when a key has no ':'.
    pub namespace_len: usize,
    /// Stop after this many keys (0 = unlimited). Used for sampling.
    pub limit: u64,
    pub want_memory: bool,
    pub want_types: bool,
    pub want_ttl: bool,
    /// Retain this many largest keys (by memory). 0 disables the leaderboard.
    pub biggest: usize,
}

/// One reply of a pipeline.
#[derive(Debug, Clone)]
pub enum Reply {
    Int(i64),
    SimpleString(String),
    BulkString(Vec<u8>),
    /// Anything else, such as a nil.
    Other,
}

// ---------------------------------------------------------------------------
// Commands
// ---------------------------------------------------------------------------

/// The words of `SCAN cursor COUNT count [MATCH pattern]`.
pub open spec fn scan_words(cursor: u64, count: usize, pattern: Option<&str>) -> Seq<Seq<char>> {
    let words = seq!["SCAN"@, dec(cursor as nat), "COUNT"@, dec(count as nat)];
    match pattern {
        Some(p) => words.push("MATCH"@).push(p@),
        None => words,
    }
}

/// The next SCAN command.
pub fn scan_command(cursor: u64, count: usize, pattern: Option<&str>) -> (r: Vec<String>)
    ensures
        texts(r@) == scan_words(cursor, count, pattern),
{
    let mut r: Vec<String> = Vec::new();
    r.push("SCAN".to_owned());
    r.push(decimal(cursor as u128));
    r.push("COUNT".to_owned());
    r.push(decimal(count as u128));
    if let Some(p) = pattern {
        r.push("MATCH".to_owned());
        r.push(p.to_owned());
    }
    assert(texts(r@) =~= scan_words(cursor, count, pattern));
    r
}

/// How many commands each key of a batch takes.
pub open spec fn stride(opts: ScanOptions) -> nat {
    (if opts.want_memory {
        1nat
    } else {
        0
    }) + (if opts.want_types {
        1nat
    } else {
        0
    }) + (if opts.want_ttl {
        1nat
    } else {
        0
    })
}

/// The commands that enrich one key, in order.
pub open spec fn key_commands(key: Seq<char>, opts: ScanOptions) -> Seq<Seq<Seq<char>>> {
    let a = if opts.want_memory {
        seq![seq!["MEMORY"@, "USAGE"@, key]]
    } else {
        Seq::empty()
    };
    let b = if opts.want_types {
        a.push(seq!["TYPE"@, key])
    } else {
        a
    };
    if opts.want_ttl {
        b.push(seq!["TTL"@, key])
    } else {
        b
    }
}

/// The commands that enrich a batch, in order.
pub open spec fn batch_commands(keys: Seq<Seq<char>>, opts: ScanOptions) -> Seq<Seq<Seq<char>>>
    decreases keys.len(),
{
    if keys.len() == 0 {
        Seq::empty()
    } else {
        batch_commands(keys.drop_last(), opts) + key_commands(keys.last(), opts)
    }
}

/// The words of each command.
pub open spec fn command_words(v: Seq<Vec<String>>) -> Seq<Seq<Seq<char>>> {
    Seq::new(v.len(), |i: int| texts(v[i]@))
}

/// The pipeline that enriches a batch; empty when nothing is collected.
pub fn enrichment(keys: &Vec<String>, opts: &ScanOptions) -> (r: Vec<Vec<String>>)
    ensures
        command_words(r@) == batch_commands(texts(keys@), *opts),
{
    let mut r: Vec<Vec<String>> = Vec::new();
    let ghost t = texts(keys@);
    let mut i: usize = 0;
    assert(command_words(r@) =~= batch_commands(t.take(0), *opts));
    while i < keys.len()
        invariant
            0 <= i <= keys@.len(),
            t == texts(keys@),
            command_words(r@) == batch_commands(t.take(i as int), *opts),
        decreases keys@.len() - i,
    {
        let key = &keys[i];
        let ghost r0 = r@;
        if opts.want_memory {
            let mut c: Vec<String> = Vec::new();
            c.push("MEMORY".to_owned());
            c.push("USAGE".to_owned());
            c.push(key.clone());
            assert(texts(c@) =~= seq!["MEMORY"@, "USAGE"@, key@]);
            r.push(c);
        }
        if opts.want_types {
            let mut c: Vec<String> = Vec::new();
            c.push("TYPE".to_owned());
            c.push(key.clone());
            assert(texts(c@) =~= seq!["TYPE"@, key@]);
            r.push(c);
        }
        if opts.want_ttl {
            let mut c: Vec<String> = Vec::new();
            c.push("TTL".to_owned());
            c.push(key.clone());
            assert(texts(c@) =~= seq!["TTL"@, key@]);
            r.push(c);
        }
        i = i + 1;
        assert(t.take(i as int).drop_last() =~= t.take(i - 1));
        assert(command_words(r@) =~= command_words(r0) + key_commands(key@, *opts));
    }
    assert(t.take(i as int) =~= t);
    r
}

// ---------------------------------------------------------------------------
// Replies
// ---------------------------------------------------------------------------

/// The reply at `i`, if there is one.
pub open spec fn reply_at(replies: Seq<Reply>, i: int) -> Reply {
    if 0 <= i < replies.len() {
        replies[i]
    } else {
        Reply::Other
    }
}

/// The size in a MEMORY USAGE reply. A missing key has none.
pub open spec fn bytes_in(r: Reply) -> Option<u64> {
    match r {
        Reply::Int(n) => if n >= 0 {
            Some(n as u64)
        } else {
            None
        },
        _ => None,
    }
}

/// The data type in a TYPE reply.
pub open spec fn type_in(r: Reply) -> Option<Seq<char>> {
    match r {
        Reply::SimpleString(s) => Some(s@),
        Reply::BulkString(b) => Some(lossy(b@)),
        _ => None,
    }
}

/// The seconds in a TTL reply.
pub open spec fn ttl_in(r: Reply) -> Option<i64> {
    match r {
        Reply::Int(n) => Some(n),
        _ => None,
    }
}

/// `o` is what the replies say about the `i`th key of the batch. Replies come
/// in command order.
pub open spec fn observes(
    o: KeyObservation,
    i: int,
    replies: Seq<Reply>,
    opts: ScanOptions,
) -> bool {
    let at = i * stride(opts);
    let types_at = at + (if opts.want_memory {
        1int
    } else {
        0
    });
    let ttl_at = types_at + (if opts.want_types {
        1int
    } else {
        0
    });
    &&& o.bytes == (if opts.want_memory {
        bytes_in(reply_at(replies, at))
    } else {
        None
    })
    &&& text_of(o.data_type) == (if opts.want_types {
        type_in(reply_at(replies, types_at))
    } else {
        None
    })
    &&& o.ttl == (if opts.want_ttl {
        ttl_in(reply_at(replies, ttl_at))
    } else {
        None
    })
}

/// Decode the replies to a batch of `n` keys, one observation per key. A key
/// that vanished leaves its fields empty; it does not spoil the batch.
pub fn observations(n: usize, replies: &Vec<Reply>, opts: &ScanOptions) -> (r: Vec<KeyObservation>)
    ensures
        r@.len() == n,
        forall|i: int|
            0 <= i < n ==> observes(#[trigger] r@[i], i, replies@, *opts),
{
    let mut r: Vec<KeyObservation> = Vec::new();
    let mut idx: usize = 0;
    let mut i: usize = 0;
    while i < n
        invariant
            0 <= i <= n,
            r@.len() == i,
            idx == i * stride(*opts) || (idx == replies@.len() && i * stride(*opts) >= idx),
            idx <= replies@.len(),
            forall|k: int|
                0 <= k < i ==> observes(#[trigger] r@[k], k, replies@, *opts),
        decreases n - i,
    {
        let ghost at = i * stride(*opts);
        let mut obs = KeyObservation::new();
        if opts.want_memory {
            if idx < replies.len() {
                obs.bytes = match &replies[idx] {
                    Reply::Int(n) => if *n >= 0 {
                        Some(*n as u64)
                    } else {
                        None
                    },
                    _ => None,
                };
                idx = idx + 1;
            }
        }
        if opts.want_types {
            if idx < replies.len() {
                obs.data_type = match &replies[idx] {
                    Reply::SimpleString(s) => Some(s.clone()),
                    Reply::BulkString(b) => Some(from_utf8_lossy(b)),
                    _ => None,
                };
                idx = idx + 1;
            }
        }
        if opts.want_ttl {
            if idx < replies.len() {
                obs.ttl = match &replies[idx] {
                    Reply::Int(n) => Some(*n),
                    _ => None,
                };
                idx = idx + 1;
            }
        }
        assert((i + 1) * stride(*opts) == at + stride(*opts)) by (nonlinear_arith)
            requires
                at == i * stride(*opts),
        ;
        r.push(obs);
        i = i + 1;
    }
    r
}


// ---------------------------------------------------------------------------
// The scan
// ---------------------------------------------------------------------------

/// The totals after the first `k` keys of a batch.
pub open spec fn batch_totals(
    t: KeyTotals,
    keys: Seq<Seq<char>>,
    obs: Seq<KeyObservation>,
    namespace_len: nat,
    k: nat,
) -> KeyTotals
    decreases k,
{
    if k == 0 {
        t
    } else {
        recorded(
            batch_totals(t, keys, obs, namespace_len, (k - 1) as nat),
            namespace_of(keys[k - 1], namespace_len),
            type_of(body_of(keys[k - 1])),
            obs[k - 1],
        )
    }
}

/// What is recorded for a key: its namespace, its type and its observation.
pub open spec fn record_of(key: Seq<char>, o: KeyObservation, namespace_len: nat) -> KeyRecord {
    KeyRecord {
        key,
        namespace: namespace_of(key, namespace_len),
        key_type: type_of(body_of(key)),
        obs: o,
    }
}

/// What is recorded for the first `k` keys of a batch, in order.
pub open spec fn batch_records(
    keys: Seq<Seq<char>>,
    obs: Seq<KeyObservation>,
    namespace_len: nat,
    k: nat,
) -> Seq<KeyRecord> {
    Seq::new(k, |i: int| record_of(keys[i], obs[i], namespace_len))
}

/// The bytes of the first `k` keys of a batch.
pub open spec fn batch_bytes(obs: Seq<KeyObservation>, k: nat) -> int
    decreases k,
{
    if k == 0 {
        0
    } else {
        batch_bytes(obs, (k - 1) as nat) + size_of(obs[k - 1])
    }
}

proof fn batch_bytes_grow(obs: Seq<KeyObservation>, i: nat, j: nat)
    requires
        i <= j,
    ensures
        batch_bytes(obs, i) <= batch_bytes(obs, j),
    decreases j,
{
    if i < j {
        batch_bytes_grow(obs, i, (j - 1) as nat);
    }
}

/// Key, size, data type and TTL of a leaderboard candidate.
pub type Candidate = (Seq<char>, u64, Option<Seq<char>>, Option<i64>);

/// The candidate that an entry stands for.
pub open spec fn candidate(e: BigKey) -> Candidate {
    (e.key@, e.bytes, text_of(e.data_type), e.ttl)
}

/// The candidates that a row of entries stands for.
pub open spec fn candidates(s: Seq<BigKey>) -> Seq<Candidate> {
    Seq::new(s.len(), |i: int| candidate(s[i]))
}

/// The measured keys among the first `k` of a batch.
pub open spec fn measured(keys: Seq<Seq<char>>, obs: Seq<KeyObservation>, k: nat) -> Seq<Candidate>
    decreases k,
{
    if k == 0 {
        Seq::empty()
    } else {
        let before = measured(keys, obs, (k - 1) as nat);
        let o = obs[k - 1];
        match o.bytes {
            Some(b) => before.push(
                (keys[k - 1], b, text_of(o.data_type), o.ttl),
            ),
            None => before,
        }
    }
}

/// Why a key cannot be recorded.
#[derive(Debug, Clone, Copy, PartialEq, Eq, Structural)]
pub enum Fault {
    /// The key has no colon and its namespace would end inside a character.
    SplitsCharacter,
    /// A counter would exceed its range.
    Overflow,
}

/// Whether a scan goes on.
#[derive(Debug, Clone, Copy, PartialEq, Eq, Structural)]
pub enum Step {
    More,
    Done,
}

/// A scan in progress.
pub struct Scan {
    pub opts: ScanOptions,
    pub cursor: u64,
    pub stats: Stats,
    /// Every measured key so far, in order.
    pub seen: Ghost<Seq<BigKey>>,
}

/// A scan is over when the cursor comes back to zero or the limit is reached.
pub open spec fn is_over(cursor: u64, limit: u64, total: u64) -> bool {
    cursor == 0 || (limit != 0 && total >= limit)
}

/// Every key of the batch can be recorded.
pub open spec fn recordable(
    stats: Stats,
    keys: Seq<Seq<char>>,
    obs: Seq<KeyObservation>,
    namespace_len: nat,
) -> bool {
    &&& forall|i: int| 0 <= i < keys.len() ==> cuts_cleanly(#[trigger] keys[i], namespace_len)
    &&& stats.total_keys + keys.len() <= u64::MAX
    &&& stats.byte_sum() + batch_bytes(obs, keys.len()) <= u64::MAX
}

/// Key `i` is the first that cannot be recorded, for the given reason.
pub open spec fn fails_at(
    stats: Stats,
    keys: Seq<Seq<char>>,
    obs: Seq<KeyObservation>,
    namespace_len: nat,
    i: int,
    fault: Fault,
) -> bool {
    &&& 0 <= i < keys.len()
    &&& recordable(stats, keys.take(i), obs, namespace_len)
    &&& fault == (if cuts_cleanly(keys[i], namespace_len) {
        Fault::Overflow
    } else {
        Fault::SplitsCharacter
    })
    &&& !recordable(stats, keys.take(i + 1), obs, namespace_len)
}

impl Scan {
    /// The invariant: the leaderboard holds the largest of all measured keys.
    pub open spec fn wf(self) -> bool {
        &&& self.stats.wf()
        &&& keeps_largest(self.seen@.to_multiset(), self.stats.cap(), self.stats.retained())
    }

    /// A scan that has yet to begin.
    pub fn new(opts: ScanOptions) -> (r: Self)
        ensures
            r.wf(),
            r.opts == opts,
            r.cursor == 0,
            unused(r.stats),
            r.stats.cap() == opts.biggest,
            r.seen@ == Seq::<BigKey>::empty(),
    {
        let r = Scan {
            opts,
            cursor: 0,
            stats: Stats::with_biggest_cap(opts.biggest),
            seen: Ghost(Seq::empty()),
        };
        proof {
            assert(r.seen@.to_multiset() =~= Multiset::empty()) by {
                vstd::seq_lib::to_multiset_len(r.seen@);
            }
        }
        r
    }

    /// Record one key.
    fn record_key(&mut self, key: &String, obs: &KeyObservation) -> (r: Result<(), Fault>)
        requires
            old(self).wf(),
        ensures
            final(self).wf(),
            final(self).opts == old(self).opts,
            final(self).cursor == old(self).cursor,
            final(self).stats.cap() == old(self).stats.cap(),
            match r {
                Ok(_) => {
                    let n = old(self).opts.namespace_len as nat;
                    &&& cuts_cleanly(key@, n)
                    &&& old(self).stats.total_keys < u64::MAX
                    &&& old(self).stats.byte_sum() + size_of(*obs) <= u64::MAX
                    &&& records(old(self).stats, record_of(key@, *obs, n), final(self).stats)
                    &&& candidates(final(self).seen@) == (match obs.bytes {
                        Some(b) => candidates(old(self).seen@).push(
                            (key@, b, text_of(obs.data_type), obs.ttl),
                        ),
                        None => candidates(old(self).seen@),
                    })
                },
                Err(fault) => {
                    &&& *final(self) == *old(self)
                    &&& fault is SplitsCharacter <==> !cuts_cleanly(
                        key@,
                        old(self).opts.namespace_len as nat,
                    )
                    &&& fault is Overflow ==> old(self).stats.total_keys == u64::MAX || old(
                        self,
                    ).stats.byte_sum() + size_of(*obs) > u64::MAX
                },
            },
    {
        if !is_cut_clean(key.as_str(), self.opts.namespace_len) {
            return Err(Fault::SplitsCharacter);
        }
        if !self.stats.has_room(obs.bytes) {
            return Err(Fault::Overflow);
        }
        let parsed = parse_key(key.as_str(), self.opts.namespace_len);
        let ghost kept = self.stats.retained();
        let ghost seen = self.seen@;
        let ghost cap = self.stats.cap();
        self.stats.record(key.as_str(), parsed.namespace.as_str(), parsed.key_type.as_str(), obs);
        proof {
            if obs.bytes is Some {
                let c = record_of(key@, *obs, self.opts.namespace_len as nat);
                let e = choose|e: BigKey| #[trigger]
                    entry_of(e, c) && offered(kept, cap, e, self.stats.retained());
                offering_keeps_largest(seen.to_multiset(), cap, kept, e, self.stats.retained());
                vstd::seq_lib::to_multiset_build(seen, e);
                self.seen@ = seen.push(e);
                assert(candidates(self.seen@) =~= candidates(seen).push(candidate(e)));
            }
        }
        Ok(())
    }

    /// Take in one SCAN batch: its observations are counted, the cursor moves
    /// on, and the scan goes on unless the keyspace or the limit is exhausted.
    /// A key that cannot be recorded stops the scan before it is counted.
    #[verifier::spinoff_prover]
    #[verifier::rlimit(60)]
    pub fn take_in(
        &mut self,
        next: u64,
        keys: &Vec<String>,
        obs: &Vec<KeyObservation>,
    ) -> (r: Result<Step, Fault>)
        requires
            old(self).wf(),
            keys@.len() == obs@.len(),
        ensures
            final(self).wf(),
            final(self).opts == old(self).opts,
            final(self).stats.cap() == old(self).stats.cap(),
            r is Ok <==> recordable(
                old(self).stats,
                texts(keys@),
                obs@,
                old(self).opts.namespace_len as nat,
            ),
            match r {
                Ok(step) => {
                    &&& final(self).cursor == next
                    &&& records_in_turn(
                        old(self).stats,
                        batch_records(
                            texts(keys@),
                            obs@,
                            old(self).opts.namespace_len as nat,
                            keys@.len(),
                        ),
                        final(self).stats,
                    )
                    &&& final(self).stats.total_keys == old(self).stats.total_keys + keys@.len()
                    &&& final(self).stats.totals() == batch_totals(
                        old(self).stats.totals(),
                        texts(keys@),
                        obs@,
                        old(self).opts.namespace_len as nat,
                        keys@.len(),
                    )
                    &&& candidates(final(self).seen@) == candidates(old(self).seen@) + measured(
                        texts(keys@),
                        obs@,
                        keys@.len(),
                    )
                    &&& step is Done <==> is_over(
                        next,
                        old(self).opts.limit,
                        final(self).stats.total_keys,
                    )
                },
                Err(fault) => {
                    &&& final(self).cursor == old(self).cursor
                    &&& exists|i: int|
                        {
                            &&& #[trigger] fails_at(
                                old(self).stats,
                                texts(keys@),
                                obs@,
                                old(self).opts.namespace_len as nat,
                                i,
                                fault,
                            )
                            &&& records_in_turn(
                                old(self).stats,
                                batch_records(
                                    texts(keys@),
                                    obs@,
                                    old(self).opts.namespace_len as nat,
                                    i as nat,
                                ),
                                final(self).stats,
                            )
                            &&& final(self).stats.totals() == batch_totals(
                                old(self).stats.totals(),
                                texts(keys@),
                                obs@,
                                old(self).opts.namespace_len as nat,
                                i as nat,
                            )
                        }
                },
            },
    {
        let ghost t = texts(keys@);
        let ghost n = self.opts.namespace_len as nat;
        let ghost was = *self;
        let mut i: usize = 0;
        proof {
            assert(candidates(was.seen@) + measured(t, obs@, 0) =~= candidates(was.seen@));
            no_turns(was.stats);
            assert(batch_records(t, obs@, n, 0) =~= Seq::<KeyRecord>::empty());
        }
        while i < keys.len()
            invariant
                0 <= i <= keys@.len(),
                keys@.len() == obs@.len(),
                t == texts(keys@),
                self.wf(),
                self.opts == was.opts,
                n == was.opts.namespace_len,
                self.cursor == was.cursor,
                self.stats.cap() == was.stats.cap(),
                records_in_turn(was.stats, batch_records(t, obs@, n, i as nat), self.stats),
                self.stats.total_keys == was.stats.total_keys + i,
                self.stats.byte_sum() == was.stats.byte_sum() + batch_bytes(obs@, i as nat),
                self.stats.totals() == batch_totals(was.stats.totals(), t, obs@, n, i as nat),
                candidates(self.seen@) == candidates(was.seen@) + measured(t, obs@, i as nat),
                forall|k: int| 0 <= k < i ==> cuts_cleanly(#[trigger] t[k], n),
                was == *old(self),
            decreases keys@.len() - i,
        {
            let ghost before = self.stats;
            match self.record_key(&keys[i], &obs[i]) {
                Ok(_) => {},
                Err(fault) => {
                    proof {
                        assert(t[i as int] == keys@[i as int]@);
                        assert(t.take(i + 1)[i as int] == t[i as int]);
                        assert(forall|k: int|
                            0 <= k < i ==> #[trigger] t.take(i as int)[k] == t[k]);
                        batch_bytes_grow(obs@, (i + 1) as nat, keys@.len());
                        assert(fails_at(was.stats, t, obs@, n, i as int, fault));
                    }
                    return Err(fault);
                },
            }
            proof {
                assert(t[i as int] == keys@[i as int]@);
                let c = record_of(t[i as int], obs@[i as int], n);
                let done = batch_records(t, obs@, n, i as nat);
                one_more_turn(was.stats, done, before, c, self.stats);
                assert(batch_records(t, obs@, n, (i + 1) as nat) =~= done.push(c));
                assert(measured(t, obs@, (i + 1) as nat) == (match obs@[i as int].bytes {
                    Some(b) => measured(t, obs@, i as nat).push(
                        (
                            t[i as int],
                            b,
                            text_of(obs@[i as int].data_type),
                            obs@[i as int].ttl,
                        ),
                    ),
                    None => measured(t, obs@, i as nat),
                }));
                assert(candidates(self.seen@) =~= candidates(was.seen@) + measured(
                    t,
                    obs@,
                    (i + 1) as nat,
                ));
            }
            i = i + 1;
        }
        self.cursor = next;
        if next == 0 || (self.opts.limit != 0 && self.stats.total_keys >= self.opts.limit) {
            Ok(Step::Done)
        } else {
            Ok(Step::More)
        }
    }
}

/// `states` are the statistics of a scan from its beginning on, and `batches`
/// what each SCAN reply had it record.
pub open spec fn scan_run(states: Seq<Stats>, batches: Seq<Seq<KeyRecord>>) -> bool {
    &&& states.len() == batches.len() + 1
    &&& unused(states[0])
    &&& forall|i: int|
        0 <= i < batches.len() ==> records_in_turn(
            #[trigger] states[i],
            batches[i],
            states[i + 1],
        )
}

/// A scan's result is what recording every key of every batch in order gives:
/// how the keys were spread over the batches does not matter.
pub proof fn scan_records_every_key(states: Seq<Stats>, batches: Seq<Seq<KeyRecord>>)
    requires
        scan_run(states, batches),
    ensures
        unused(states[0]),
        records_in_turn(states[0], batches.flatten(), states.last()),
    decreases batches.len(),
{
    if batches.len() == 0 {
        no_turns(states[0]);
        assert(batches.flatten() =~= Seq::<KeyRecord>::empty());
    } else {
        let n = batches.len() - 1;
        let s = states.drop_last();
        let b = batches.drop_last();
        assert(scan_run(s, b)) by {
            assert forall|i: int| 0 <= i < b.len() implies records_in_turn(
                #[trigger] s[i],
                b[i],
                s[i + 1],
            ) by {
                assert(records_in_turn(states[i], batches[i], states[i + 1]));
            }
        }
        scan_records_every_key(s, b);
        assert(records_in_turn(states[n], batches[n], states[n + 1]));
        turns_join(states[0], b.flatten(), states[n], batches[n], states[n + 1]);
        batches.lemma_flatten_and_flatten_alt_are_equivalent();
        b.lemma_flatten_and_flatten_alt_are_equivalent();
        assert(batches.flatten() =~= b.flatten() + batches[n]);
    }
}

/// The commands for one key follow each other, and those for the next key come
/// after them: every key is asked for its memory, its type and its TTL, as far
/// as they are wanted, and nothing else is asked.
pub proof fn every_key_is_asked_in_turn(keys: Seq<Seq<char>>, opts: ScanOptions, i: int)
    requires
        0 <= i < keys.len(),
    ensures
        ({
            let c = batch_commands(keys, opts);
            let n = (if opts.want_memory {
                1int
            } else {
                0
            }) + (if opts.want_types {
                1int
            } else {
                0
            }) + (if opts.want_ttl {
                1int
            } else {
                0
            });
            let types_at = i * n + (if opts.want_memory {
                1int
            } else {
                0
            });
            let ttl_at = types_at + (if opts.want_types {
                1int
            } else {
                0
            });
            &&& n == stride(opts)
            &&& c.len() == keys.len() * n
            &&& opts.want_memory ==> c[i * n] == seq!["MEMORY"@, "USAGE"@, keys[i]]
            &&& opts.want_types ==> c[types_at] == seq!["TYPE"@, keys[i]]
            &&& opts.want_ttl ==> c[ttl_at] == seq!["TTL"@, keys[i]]
        }),
    decreases keys.len(),
{
    let front = keys.drop_last();
    let a = batch_commands(front, opts);
    let b = key_commands(keys.last(), opts);
    let n = stride(opts) as int;
    commands_fill(front, opts);
    assert(keys.len() * n == front.len() * n + n) by (nonlinear_arith)
        requires
            keys.len() == front.len() + 1,
    ;
    if i < front.len() {
        every_key_is_asked_in_turn(front, opts, i);
        assert(i * n + n <= front.len() * n) by (nonlinear_arith)
            requires
                i + 1 <= front.len(),
                n >= 0,
        ;
        assert(0 <= i * n) by (nonlinear_arith)
            requires
                0 <= i,
                n >= 0,
        ;
        assert(front[i] == keys[i]);
    }
}

proof fn commands_fill(keys: Seq<Seq<char>>, opts: ScanOptions)
    ensures
        batch_commands(keys, opts).len() == keys.len() * stride(opts),
    decreases keys.len(),
{
    if keys.len() > 0 {
        commands_fill(keys.drop_last(), opts);
        assert(keys.len() * stride(opts) == keys.drop_last().len() * stride(opts) + stride(opts))
            by (nonlinear_arith)
            requires
                keys.len() == keys.drop_last().len() + 1,
        ;
    }
}

/// What is observed of a key comes from the replies to the commands that name
/// it: a size that is no negative number, the data type, the TTL. What was not
/// asked for, or not answered, is not known.
pub proof fn replies_belong_to_their_key(
    keys: Seq<Seq<char>>,
    opts: ScanOptions,
    replies: Seq<Reply>,
    o: KeyObservation,
    i: int,
    at: int,
)
    requires
        0 <= i < keys.len(),
        replies.len() == batch_commands(keys, opts).len(),
        observes(o, i, replies, opts),
        0 <= at < replies.len(),
        i * stride(opts) <= at < i * stride(opts) + stride(opts),
    ensures
        batch_commands(keys, opts)[at].last() == keys[i],
        batch_commands(keys, opts)[at] == seq!["MEMORY"@, "USAGE"@, keys[i]] ==> match replies[at] {
            Reply::Int(n) => n >= 0 ==> o.bytes is Some && o.bytes->0 == n,
            _ => o.bytes is None,
        },
        batch_commands(keys, opts)[at] == seq!["MEMORY"@, "USAGE"@, keys[i]] && replies[at] is Int
            && replies[at]->Int_0 < 0 ==> o.bytes is None,
        batch_commands(keys, opts)[at] == seq!["TYPE"@, keys[i]] ==> match replies[at] {
            Reply::SimpleString(s) => o.data_type is Some && o.data_type->0@ == s@,
            Reply::BulkString(b) => o.data_type is Some && o.data_type->0@ == lossy(b@),
            _ => o.data_type is None,
        },
        batch_commands(keys, opts)[at] == seq!["TTL"@, keys[i]] ==> match replies[at] {
            Reply::Int(n) => o.ttl == Some(n),
            _ => o.ttl is None,
        },
        !opts.want_memory ==> o.bytes is None,
        !opts.want_types ==> o.data_type is None,
        !opts.want_ttl ==> o.ttl is None,
{
    reveal_strlit("TYPE");
    reveal_strlit("TTL");
    every_key_is_asked_in_turn(keys, opts, i);
    let k = keys[i];
    assert(seq!["MEMORY"@, "USAGE"@, k].len() == 3);
    assert(seq!["TYPE"@, k].len() == 2 && seq!["TTL"@, k].len() == 2);
    assert("TYPE"@.len() == 4 && "TTL"@.len() == 3);
    assert(seq!["TYPE"@, k][0] == "TYPE"@ && seq!["TTL"@, k][0] == "TTL"@);
}

/// A SCAN command names its cursor and the page size, and the pattern if there
/// is one.
pub proof fn scan_names_cursor_and_pattern(cursor: u64, count: usize, pattern: Option<&str>)
    ensures
        scan_words(cursor, count, pattern).take(4) == seq![
            "SCAN"@,
            dec(cursor as nat),
            "COUNT"@,
            dec(count as nat),
        ],
        pattern is None ==> scan_words(cursor, count, pattern).len() == 4,
        pattern is Some ==> scan_words(cursor, count, pattern).skip(4) == seq![
            "MATCH"@,
            pattern->0@,
        ],
{
    assert(scan_words(cursor, count, pattern).take(4) =~= seq![
        "SCAN"@,
        dec(cursor as nat),
        "COUNT"@,
        dec(count as nat),
    ]);
    if pattern is Some {
        assert(scan_words(cursor, count, pattern).skip(4) =~= seq!["MATCH"@, pattern->0@]);
    }
}

/// Every key of a batch is recorded under its own namespace and type, with its
/// own observation.
pub proof fn keys_are_recorded_under_their_names(
    keys: Seq<Seq<char>>,
    obs: Seq<KeyObservation>,
    namespace_len: nat,
    i: int,
)
    requires
        0 <= i < keys.len(),
        keys.len() == obs.len(),
    ensures
        ({
            let c = batch_records(keys, obs, namespace_len, keys.len());
            &&& c.len() == keys.len()
            &&& c[i].key == keys[i]
            &&& c[i].namespace == namespace_of(keys[i], namespace_len)
            &&& c[i].key_type == type_of(body_of(keys[i]))
            &&& c[i].obs == obs[i]
        }),
{
}

/// A scan ends with the keyspace, or with the first batch that reaches the
/// limit, if there is one.
pub proof fn a_scan_ends_with_the_keyspace_or_the_limit(cursor: u64, limit: u64, total: u64)
    ensures
        is_over(0, limit, total),
        cursor != 0 && limit == 0 ==> !is_over(cursor, limit, total),
        cursor != 0 && limit > 0 ==> (is_over(cursor, limit, total) <==> total >= limit),
{
}

} // verus!
