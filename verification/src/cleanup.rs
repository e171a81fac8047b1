//! The `cleanup` command: remove orphaned Symfony cache tags.
//!
//! Symfony's cache tagging stores, for every tag, a Redis set whose members are
//! the cache keys carrying that tag. Those keys expire on their own, but the
//! tag set is not pruned, so over time the sets fill up with members pointing
//! at keys that no longer exist. The command scans the tag sets and drops such
//! members, deleting sets that become empty. One producer walks the keyspace
//! and cuts the tag keys into batches; workers run a script over each batch.

use crate::text::{dec, decimal, text_of, texts};
use vstd::prelude::*;

verus! {

/// KEYS = the tag set keys of a batch. ARGV[1] = "1" for a dry run.
///
/// A single variadic EXISTS counts how many members still exist, so a healthy
/// tag costs few calls regardless of its size. Only when some are missing does
/// it look at each member, chunking SREM to stay under Lua's unpack limits.
pub const LUA_CLEANUP: &'static str = r#"
local dry_run = ARGV[1] == '1'
local CHUNK = 4000

local deleted_keys = 0
local removed_members = 0
local processed_keys = 0

for _, tag_key in ipairs(KEYS) do
    processed_keys = processed_keys + 1
    local members = redis.call('SMEMBERS', tag_key)
    local total = #members

    if total == 0 then
        if not dry_run then
            redis.call('DEL', tag_key)
        end
        deleted_keys = deleted_keys + 1
    else
        local alive = 0
        for i = 1, total, CHUNK do
            local args = {}
            for j = i, math.min(i + CHUNK - 1, total) do
                args[#args + 1] = members[j]
            end
            alive = alive + redis.call('EXISTS', unpack(args))
        end

        local missing = total - alive
        if missing > 0 then
            local to_remove = {}
            for _, member in ipairs(members) do
                if redis.call('EXISTS', member) == 0 then
                    to_remove[#to_remove + 1] = member
                end
            end

            if not dry_run then
                for i = 1, #to_remove, CHUNK do
                    local args = {}
                    for j = i, math.min(i + CHUNK - 1, #to_remove) do
                        args[#args + 1] = to_remove[j]
                    end
                    redis.call('SREM', tag_key, unpack(args))
                end
            end
            removed_members = removed_members + #to_remove

            if missing == total then
                if not dry_run then
                    redis.call('DEL', tag_key)
                end
                deleted_keys = deleted_keys + 1
            end
        end
    end
end

return {processed_keys, removed_members, deleted_keys}
"#;

/// The Symfony tag-set marker: keys look like `<namespace>:\x01tags\x01<name>`
/// where the `\x01` are literal 0x01 control bytes.
pub const TAG_INFIX: &'static str = "\u{1}tags\u{1}";

/// Options of the `cleanup` command.
#[derive(Debug)]
pub struct CleanupArgs {
    /// Scope to a single namespace prefix. Default: every namespace.
    pub namespace: Option<String>,
    /// Actually delete orphaned members and empty sets. Without this the
    /// command is a dry run and only reports what it would do.
    pub apply: bool,
    /// Number of concurrent workers processing tag batches.
    pub concurrency: usize,
    /// COUNT hint for SCAN: tag keys discovered per server-side step.
    pub count: usize,
    /// Tag keys handed to each script invocation.
    pub batch_size: usize,
    /// Emit a machine-readable JSON summary instead of text.
    pub json: bool,
}

// ---------------------------------------------------------------------------
// Totals
// ---------------------------------------------------------------------------

/// Running totals returned by the script, summed across all batches.
#[derive(Debug, Clone, Copy)]
pub struct Totals {
    pub processed_keys: u64,
    pub removed_members: u64,
    pub deleted_keys: u64,
}

/// What totals say, without a bound.
pub open spec fn tally(t: Totals) -> (int, int, int) {
    (t.processed_keys as int, t.removed_members as int, t.deleted_keys as int)
}

/// Two tallies together.
pub open spec fn plus(a: (int, int, int), b: (int, int, int)) -> (int, int, int) {
    (a.0 + b.0, a.1 + b.1, a.2 + b.2)
}

/// The sum of many tallies.
pub open spec fn sum(s: Seq<(int, int, int)>) -> (int, int, int)
    decreases s.len(),
{
    if s.len() == 0 {
        (0, 0, 0)
    } else {
        plus(sum(s.drop_last()), s.last())
    }
}

/// The counters of `a` and `b` together are in range.
pub open spec fn fit(a: Totals, b: Totals) -> bool {
    &&& a.processed_keys + b.processed_keys <= u64::MAX
    &&& a.removed_members + b.removed_members <= u64::MAX
    &&& a.deleted_keys + b.deleted_keys <= u64::MAX
}

impl Totals {
    /// No batch was processed yet.
    pub fn new() -> (r: Self)
        ensures
            tally(r) == (0int, 0int, 0int),
    {
        Totals { processed_keys: 0, removed_members: 0, deleted_keys: 0 }
    }

    /// Whether the counters stay in range when `t` is added.
    pub fn fits(&self, t: &Totals) -> (r: bool)
        ensures
            r == fit(*self, *t),
    {
        t.processed_keys <= u64::MAX - self.processed_keys && t.removed_members <= u64::MAX
            - self.removed_members && t.deleted_keys <= u64::MAX - self.deleted_keys
    }

    /// Add the totals of one more batch or worker.
    pub fn add(&mut self, t: Totals)
        requires
            fit(*old(self), t),
        ensures
            tally(*final(self)) == plus(tally(*old(self)), tally(t)),
    {
        self.processed_keys = self.processed_keys + t.processed_keys;
        self.removed_members = self.removed_members + t.removed_members;
        self.deleted_keys = self.deleted_keys + t.deleted_keys;
    }
}

impl Default for Totals {
    /// No batch was processed yet.
    fn default() -> (r: Self)
        ensures
            tally(r) == (0int, 0int, 0int),
    {
        Totals::new()
    }
}

/// Handing the batches to one worker or to two gives the same totals: the
/// number of workers does not change the result.
pub proof fn workers_do_not_matter(a: Seq<(int, int, int)>, b: Seq<(int, int, int)>)
    ensures
        sum(a + b) == plus(sum(a), sum(b)),
    decreases b.len(),
{
    if b.len() == 0 {
        assert(a + b =~= a);
    } else {
        workers_do_not_matter(a, b.drop_last());
        assert((a + b).drop_last() =~= a + b.drop_last());
    }
}

/// The order in which batches come in does not change the totals.
pub proof fn batch_order_does_not_matter(s: Seq<(int, int, int)>, i: int, j: int)
    requires
        0 <= i < j < s.len(),
    ensures
        sum(s.update(i, s[j]).update(j, s[i])) == sum(s),
    decreases s.len(),
{
    let t = s.update(i, s[j]).update(j, s[i]);
    if j < s.len() - 1 {
        batch_order_does_not_matter(s.drop_last(), i, j);
        assert(t.drop_last() =~= s.drop_last().update(i, s[j]).update(j, s[i]));
    } else {
        let front = s.drop_last();
        sum_update(front, i, s[j]);
        assert(t.drop_last() =~= front.update(i, s[j]));
    }
}

proof fn sum_update(s: Seq<(int, int, int)>, i: int, x: (int, int, int))
    requires
        0 <= i < s.len(),
    ensures
        plus(sum(s.update(i, x)), s[i]) == plus(sum(s), x),
    decreases s.len(),
{
    let t = s.update(i, x);
    if i == s.len() - 1 {
        assert(t.drop_last() =~= s.drop_last());
    } else {
        sum_update(s.drop_last(), i, x);
        assert(t.drop_last() =~= s.drop_last().update(i, x));
    }
}

// ---------------------------------------------------------------------------
// The plan
// ---------------------------------------------------------------------------

/// The SCAN MATCH pattern for a scope.
pub open spec fn pattern_text(namespace: Option<&str>) -> Seq<char> {
    match namespace {
        Some(ns) => ns@ + ":"@ + TAG_INFIX@ + "*"@,
        None => "*"@ + TAG_INFIX@ + "*"@,
    }
}

/// Build the SCAN MATCH pattern (with real control bytes) for the chosen scope.
pub fn match_pattern(namespace: Option<&str>) -> (r: String)
    ensures
        r@ == pattern_text(namespace),
{
    match namespace {
        Some(ns) => {
            let mut r = ns.to_owned();
            r.append(":");
            r.append(TAG_INFIX);
            r.append("*");
            r
        },
        None => {
            let mut r = "*".to_owned();
            r.append(TAG_INFIX);
            r.append("*");
            r
        },
    }
}

/// What a run will do.
#[derive(Debug)]
pub struct Plan {
    pub pattern: String,
    pub dry_run: bool,
    pub workers: usize,
    /// What is announced first; nothing when the summary is JSON.
    pub notice: Option<String>,
}

/// The announcement of a run.
pub open spec fn notice_text(namespace: Option<String>, dry_run: bool) -> Seq<char> {
    let scope = match namespace {
        Some(n) => "namespace '"@ + n@ + "'"@,
        None => "all namespaces"@,
    };
    let line = "Redis tag cleanup — "@ + scope;
    if dry_run {
        line + " (DRY RUN)\nNo keys will be modified. Re-run with --apply to clean.\n"@
    } else {
        line + "\n"@
    }
}

/// Decide what a run does. Without `apply` nothing is modified, and there is
/// always at least one worker.
pub fn plan(args: &CleanupArgs) -> (r: Plan)
    ensures
        r.pattern@ == (match args.namespace {
            Some(ns) => ns@ + ":"@ + TAG_INFIX@ + "*"@,
            None => "*"@ + TAG_INFIX@ + "*"@,
        }),
        r.dry_run == !args.apply,
        r.workers == (if args.concurrency == 0 {
            1
        } else {
            args.concurrency
        }),
        text_of(r.notice) == (if args.json {
            None
        } else {
            Some(notice_text(args.namespace, !args.apply))
        }),
{
    let pattern = match &args.namespace {
        Some(ns) => match_pattern(Some(ns.as_str())),
        None => match_pattern(None),
    };
    let dry_run = !args.apply;
    let workers: usize = if args.concurrency == 0 {
        1
    } else {
        args.concurrency
    };
    let notice = if args.json {
        None
    } else {
        let scope = match &args.namespace {
            Some(n) => {
                let mut scope = "namespace '".to_owned();
                scope.append(n.as_str());
                scope.append("'");
                scope
            },
            None => "all namespaces".to_owned(),
        };
        let mut line = "Redis tag cleanup — ".to_owned();
        line.append(scope.as_str());
        if dry_run {
            line.append(" (DRY RUN)\nNo keys will be modified. Re-run with --apply to clean.\n");
        } else {
            line.append("\n");
        }
        Some(line)
    };
    Plan { pattern, dry_run, workers, notice }
}

/// The words of `SCAN cursor MATCH pattern COUNT count`.
pub fn scan_command(cursor: u64, pattern: &str, count: usize) -> (r: Vec<String>)
    ensures
        texts(r@) == seq![
            "SCAN"@,
            dec(cursor as nat),
            "MATCH"@,
            pattern@,
            "COUNT"@,
            dec(count as nat),
        ],
{
    let mut r: Vec<String> = Vec::new();
    r.push("SCAN".to_owned());
    r.push(decimal(cursor as u128));
    r.push("MATCH".to_owned());
    r.push(pattern.to_owned());
    r.push("COUNT".to_owned());
    r.push(decimal(count as u128));
    assert(texts(r@) =~= seq![
        "SCAN"@,
        dec(cursor as nat),
        "MATCH"@,
        pattern@,
        "COUNT"@,
        dec(count as nat),
    ]);
    r
}

/// The script's only argument: whether to leave everything as it is.
pub fn script_flag(dry_run: bool) -> (r: String)
    ensures
        r@ == (if dry_run {
            "1"@
        } else {
            "0"@
        }),
{
    if dry_run {
        "1".to_owned()
    } else {
        "0".to_owned()
    }
}

// ---------------------------------------------------------------------------
// Batches
// ---------------------------------------------------------------------------

/// Collects tag keys into batches of a fixed size.
#[derive(Debug)]
pub struct Batcher {
    pub pending: Vec<Vec<u8>>,
    pub size: usize,
}

/// A batch is handed over once it holds this many keys.
pub open spec fn batch_len(size: usize) -> nat {
    if size == 0 {
        1
    } else {
        size as nat
    }
}

/// The batches that come of keys following `pending`, and what is left over.
pub open spec fn cut(pending: Seq<Vec<u8>>, size: usize, keys: Seq<Vec<u8>>) -> (
    Seq<Seq<Vec<u8>>>,
    Seq<Vec<u8>>,
)
    decreases keys.len(),
{
    if keys.len() == 0 {
        (Seq::empty(), pending)
    } else {
        let (batches, rest) = cut(pending, size, keys.drop_last());
        let grown = rest.push(keys.last());
        if grown.len() >= batch_len(size) {
            (batches.push(grown), Seq::empty())
        } else {
            (batches, grown)
        }
    }
}

/// The batches one after the other.
pub open spec fn laid_out(batches: Seq<Seq<Vec<u8>>>) -> Seq<Vec<u8>>
    decreases batches.len(),
{
    if batches.len() == 0 {
        Seq::empty()
    } else {
        laid_out(batches.drop_last()) + batches.last()
    }
}

/// Batching loses no key, repeats none and keeps their order; every batch but
/// the last has the same length.
pub proof fn batches_hold_every_key(pending: Seq<Vec<u8>>, size: usize, keys: Seq<Vec<u8>>)
    requires
        pending.len() < batch_len(size),
    ensures
        laid_out(cut(pending, size, keys).0) + cut(pending, size, keys).1 == pending + keys,
        forall|i: int|
            0 <= i < cut(pending, size, keys).0.len() ==> (#[trigger] cut(
                pending,
                size,
                keys,
            ).0[i]).len() == batch_len(size),
        cut(pending, size, keys).1.len() < batch_len(size),
    decreases keys.len(),
{
    if keys.len() == 0 {
        assert(laid_out(cut(pending, size, keys).0) + pending =~= pending + keys);
    } else {
        batches_hold_every_key(pending, size, keys.drop_last());
        let (batches, rest) = cut(pending, size, keys.drop_last());
        let grown = rest.push(keys.last());
        assert(pending + keys =~= (pending + keys.drop_last()).push(keys.last()));
        if grown.len() >= batch_len(size) {
            assert(batches.push(grown).drop_last() =~= batches);
            assert(laid_out(batches.push(grown)) + Seq::<Vec<u8>>::empty() =~= laid_out(batches)
                + grown);
            assert(laid_out(batches) + grown =~= (laid_out(batches) + rest).push(keys.last()));
        } else {
            assert(laid_out(batches) + grown =~= (laid_out(batches) + rest).push(keys.last()));
        }
    }
}

impl Batcher {
    /// The invariant: what is pending does not fill a batch.
    pub open spec fn wf(self) -> bool {
        self.pending@.len() < batch_len(self.size)
    }

    /// Nothing is pending yet.
    pub fn new(size: usize) -> (r: Self)
        ensures
            r.wf(),
            r.size == size,
            r.pending@ == Seq::<Vec<u8>>::empty(),
    {
        Batcher { pending: Vec::new(), size }
    }

    /// Take one more key; a batch that is full with it is handed over.
    pub fn push(&mut self, key: Vec<u8>) -> (r: Option<Vec<Vec<u8>>>)
        requires
            old(self).wf(),
        ensures
            final(self).wf(),
            final(self).size == old(self).size,
            match r {
                Some(batch) => {
                    &&& cut(old(self).pending@, old(self).size, seq![key]).0 == seq![batch@]
                    &&& batch@ == old(self).pending@.push(key)
                    &&& batch@.len() == batch_len(old(self).size)
                },
                None => cut(old(self).pending@, old(self).size, seq![key]).0.len() == 0,
            },
            final(self).pending@ == cut(old(self).pending@, old(self).size, seq![key]).1,
    {
        let ghost before = self.pending@;
        let ghost one = seq![key];
        proof {
            assert(one.drop_last() =~= Seq::<Vec<u8>>::empty());
            assert(one.last() == key);
            assert(cut(before, self.size, one.drop_last()) == (
                Seq::<Seq<Vec<u8>>>::empty(),
                before,
            ));
        }
        self.pending.push(key);
        if self.pending.len() >= self.size {
            let mut batch: Vec<Vec<u8>> = Vec::new();
            core::mem::swap(&mut batch, &mut self.pending);
            assert(Seq::<Seq<Vec<u8>>>::empty().push(batch@) =~= seq![batch@]);
            Some(batch)
        } else {
            None
        }
    }

    /// The last, shorter batch, if anything is left over.
    pub fn finish(self) -> (r: Option<Vec<Vec<u8>>>)
        ensures
            match r {
                Some(batch) => self.pending@.len() > 0 && batch@ == self.pending@,
                None => self.pending@.len() == 0,
            },
    {
        if self.pending.len() == 0 {
            None
        } else {
            Some(self.pending)
        }
    }
}

/// Cutting keys page by page gives the same batches as cutting them all at
/// once: it does not matter how the server pages its answers.
pub proof fn pages_do_not_matter(
    pending: Seq<Vec<u8>>,
    size: usize,
    a: Seq<Vec<u8>>,
    b: Seq<Vec<u8>>,
)
    ensures
        cut(pending, size, a + b).0 == cut(pending, size, a).0 + cut(
            cut(pending, size, a).1,
            size,
            b,
        ).0,
        cut(pending, size, a + b).1 == cut(cut(pending, size, a).1, size, b).1,
    decreases b.len(),
{
    if b.len() == 0 {
        assert(a + b =~= a);
        assert(cut(pending, size, a).0 + Seq::<Seq<Vec<u8>>>::empty() =~= cut(pending, size, a).0);
    } else {
        pages_do_not_matter(pending, size, a, b.drop_last());
        assert((a + b).drop_last() =~= a + b.drop_last());
        assert((a + b).last() == b.last());
        let first = cut(pending, size, a).0;
        let (batches, rest) = cut(cut(pending, size, a).1, size, b.drop_last());
        let grown = rest.push(b.last());
        assert(first + batches.push(grown) =~= (first + batches).push(grown));
    }
}

/// The producer: walks the keyspace and cuts the tag keys into batches.
#[derive(Debug)]
pub struct Producer {
    pub cursor: u64,
    pub batcher: Batcher,
}

/// The keys of each batch.
pub open spec fn batches_of(v: Seq<Vec<Vec<u8>>>) -> Seq<Seq<Vec<u8>>> {
    Seq::new(v.len(), |i: int| v[i]@)
}

impl Producer {
    /// The invariant: what is pending does not fill a batch.
    pub open spec fn wf(self) -> bool {
        self.batcher.wf()
    }

    /// A producer at the beginning of the keyspace.
    pub fn new(batch_size: usize) -> (r: Self)
        ensures
            r.wf(),
            r.cursor == 0,
            r.batcher.size == batch_size,
            r.batcher.pending@ == Seq::<Vec<u8>>::empty(),
    {
        Producer { cursor: 0, batcher: Batcher::new(batch_size) }
    }

    /// Take in one page of the keyspace: the batches that it fills, and whether
    /// it was the last page.
    pub fn take_in(&mut self, next: u64, keys: Vec<Vec<u8>>) -> (r: (Vec<Vec<Vec<u8>>>, bool))
        requires
            old(self).wf(),
        ensures
            final(self).wf(),
            final(self).cursor == next,
            final(self).batcher.size == old(self).batcher.size,
            batches_of(r.0@) == cut(old(self).batcher.pending@, old(self).batcher.size, keys@).0,
            final(self).batcher.pending@ == cut(
                old(self).batcher.pending@,
                old(self).batcher.size,
                keys@,
            ).1,
            r.1 == (next == 0),
    {
        let ghost pending = self.batcher.pending@;
        let ghost size = self.batcher.size;
        let ghost all = keys@;
        let mut batches: Vec<Vec<Vec<u8>>> = Vec::new();
        assert(all.take(0) =~= Seq::<Vec<u8>>::empty());
        assert(batches_of(batches@) =~= cut(pending, size, all.take(0)).0);
        for key in it: keys
            invariant
                it.seq() == all,
                self.batcher.wf(),
                self.batcher.size == size,
                batches_of(batches@) == cut(pending, size, all.take(it.index())).0,
                self.batcher.pending@ == cut(pending, size, all.take(it.index())).1,
        {
            let ghost i = it.index();
            let ghost before = batches@;
            let ghost rest = self.batcher.pending@;
            proof {
                assert(all.take(i + 1).drop_last() =~= all.take(i as int));
                assert(all.take(i + 1).last() == key);
                let one = seq![key];
                assert(one.drop_last() =~= Seq::<Vec<u8>>::empty());
                assert(one.last() == key);
                assert(cut(rest, size, one.drop_last()) == (Seq::<Seq<Vec<u8>>>::empty(), rest));
            }
            if let Some(batch) = self.batcher.push(key) {
                batches.push(batch);
                assert(batches_of(batches@) =~= batches_of(before).push(batch@));
            }
        }
        assert(all.take(all.len() as int) =~= all);
        self.cursor = next;
        (batches, next == 0)
    }

    /// The last, shorter batch, if anything is left over.
    pub fn finish(self) -> (r: Option<Vec<Vec<u8>>>)
        ensures
            match r {
                Some(batch) => self.batcher.pending@.len() > 0 && batch@
                    == self.batcher.pending@,
                None => self.batcher.pending@.len() == 0,
            },
    {
        self.batcher.finish()
    }
}

// ---------------------------------------------------------------------------
// The summary
// ---------------------------------------------------------------------------

/// The summary of a run as text.
pub open spec fn summary_text(dry_run: bool, t: Totals) -> Seq<char> {
    let head = "\nTag keys processed:  "@ + dec(t.processed_keys as nat);
    if dry_run {
        head + "\nOrphaned members:    "@ + dec(t.removed_members as nat)
            + " (would remove)\nEmpty tag sets:      "@ + dec(t.deleted_keys as nat)
            + " (would delete)\n\nDry run complete — re-run with --apply to perform the cleanup.\n"@
    } else {
        head + "\nOrphaned members removed: "@ + dec(t.removed_members as nat)
            + "\nEmpty tag sets deleted:   "@ + dec(t.deleted_keys as nat)
            + "\n\nCleanup complete.\n"@
    }
}

/// The summary of a run as text.
pub fn report(dry_run: bool, t: &Totals) -> (r: String)
    ensures
        r@ == summary_text(dry_run, *t),
{
    let mut r = "\nTag keys processed:  ".to_owned();
    r.append(decimal(t.processed_keys as u128).as_str());
    if dry_run {
        r.append("\nOrphaned members:    ");
        r.append(decimal(t.removed_members as u128).as_str());
        r.append(" (would remove)\nEmpty tag sets:      ");
        r.append(decimal(t.deleted_keys as u128).as_str());
        r.append(
            " (would delete)\n\nDry run complete — re-run with --apply to perform the cleanup.\n",
        );
    } else {
        r.append("\nOrphaned members removed: ");
        r.append(decimal(t.removed_members as u128).as_str());
        r.append("\nEmpty tag sets deleted:   ");
        r.append(decimal(t.deleted_keys as u128).as_str());
        r.append("\n\nCleanup complete.\n");
    }
    r
}

/// The line about a batch that failed; the others go on.
pub fn batch_error(e: &str) -> (r: String)
    ensures
        r@ == "batch error: "@ + e@,
{
    let mut r = "batch error: ".to_owned();
    r.append(e);
    r
}

} // verus!
