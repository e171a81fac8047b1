//! Live server stats: the fields of the `INFO` reply that are displayed.

use crate::binary64::{at_least, one, reaches, share, share_of, Binary64, Real, LEAST, LIMIT};
use crate::text::{
    chars_of, find_char, next_of, number, parse_number, string_of, text_of, trim_bounds, trimmed,
};
use vstd::prelude::*;

verus! {

/// A parsed snapshot of the relevant `INFO` fields plus `DBSIZE`.
#[derive(Debug, Clone)]
pub struct ServerInfo {
    pub redis_version: Option<String>,
    pub used_memory: Option<u64>,
    /// 0 means no limit (the server has no configured ceiling).
    pub maxmemory: Option<u64>,
    pub maxmemory_policy: Option<String>,
    pub evicted_keys: Option<u64>,
    /// The ratio as the server writes it.
    pub mem_fragmentation_ratio: Option<String>,
    pub connected_clients: Option<u64>,
    /// Number of keys in the scanned DB (`DBSIZE`).
    pub db_keys: Option<u64>,
}

/// The value of a `key:value` line that carries `key`.
pub open spec fn value_in(line: Seq<char>, key: Seq<char>) -> Option<Seq<char>> {
    let i = next_of(line, ':', 0);
    if i < line.len() && line.take(i) == key {
        Some(line.skip(i + 1))
    } else {
        None
    }
}

/// The value of the last line of `text` that carries `key`; `so_far` if none
/// does. Blanks around a line do not count.
pub open spec fn last_value(text: Seq<char>, key: Seq<char>, so_far: Option<Seq<char>>) -> Option<
    Seq<char>,
>
    decreases text.len(),
{
    let i = next_of(text, '\n', 0);
    let found = value_in(trimmed(text.take(i)), key);
    let now = if found is Some {
        found
    } else {
        so_far
    };
    if i < text.len() && i >= 0 {
        last_value(text.skip(i + 1), key, now)
    } else {
        now
    }
}

/// Section headers and blank lines carry no value.
pub proof fn headers_carry_nothing(line: Seq<char>, key: Seq<char>)
    requires
        line.len() == 0 || line[0] == '#',
        key.len() > 0 ==> key[0] != '#',
    ensures
        value_in(line, key) is None,
{
    let i = next_of(line, ':', 0);
    crate::text::next_of_is_first(line, ':', 0);
    if i < line.len() && line.take(i) == key {
        assert(i > 0);
        assert(line.take(i)[0] == '#');
    }
}

/// The value that `key` has in an `INFO` reply.
pub open spec fn field(text: Seq<char>, key: Seq<char>) -> Option<Seq<char>> {
    last_value(text, key, None)
}

/// The number that a value denotes, if it denotes one.
pub open spec fn number_of(s: Option<Seq<char>>) -> Option<u64> {
    match s {
        Some(t) => number(t),
        None => None,
    }
}

/// The share of `max` that `used` takes up, at most one.
pub open spec fn fullness(used: u64, max: u64) -> Real {
    let x = share(used as nat, max as nat);
    if at_least(x, LIMIT as nat) {
        one()
    } else {
        x
    }
}

impl Default for ServerInfo {
    /// A snapshot in which nothing is known.
    fn default() -> (r: Self)
        ensures
            r == (ServerInfo {
                redis_version: None,
                used_memory: None,
                maxmemory: None,
                maxmemory_policy: None,
                evicted_keys: None,
                mem_fragmentation_ratio: None,
                connected_clients: None,
                db_keys: None,
            }),
    {
        ServerInfo {
            redis_version: None,
            used_memory: None,
            maxmemory: None,
            maxmemory_policy: None,
            evicted_keys: None,
            mem_fragmentation_ratio: None,
            connected_clients: None,
            db_keys: None,
        }
    }
}

impl ServerInfo {
    /// Fraction of the memory ceiling in use, at most one. `None` when there is
    /// no ceiling or either number is unknown.
    pub fn memory_fullness(&self) -> (r: Option<Binary64>)
        ensures
            match (self.used_memory, self.maxmemory) {
                (Some(used), Some(max)) => if max > 0 {
                    r is Some && r->0@ == fullness(used, max)
                } else {
                    r is None
                },
                _ => r is None,
            },
            r is Some ==> r->0.mantissa <= LIMIT && -180 <= r->0.exponent <= 52,
    {
        match (self.used_memory, self.maxmemory) {
            (Some(used), Some(max)) => {
                if max == 0 {
                    return None;
                }
                let x = share_of(used, max);
                if reaches(x, LIMIT) {
                    Some(Binary64 { mantissa: LEAST, exponent: -52 })
                } else {
                    Some(x)
                }
            },
            _ => None,
        }
    }
}

/// Whether `v[from..to]` is the text `key`.
fn key_is(v: &Vec<char>, from: usize, to: usize, key: &str) -> (r: bool)
    requires
        from <= to <= v@.len(),
    ensures
        r == (v@.subrange(from as int, to as int) == key@),
{
    let k = string_of(v, from, to);
    crate::text::same(k.as_str(), key)
}

/// The numeric value `v[from..to]`.
fn numeric(v: &Vec<char>, from: usize, to: usize) -> (r: Option<u64>)
    requires
        from <= to <= v@.len(),
    ensures
        r == number(v@.subrange(from as int, to as int)),
{
    let digits = chars_of(string_of(v, from, to).as_str());
    parse_number(&digits)
}

/// Every displayed field of `info` has the value that `text` gives it.
pub open spec fn reads(info: ServerInfo, text: Seq<char>) -> bool {
    &&& text_of(info.redis_version) == field(text, "redis_version"@)
    &&& info.used_memory == number_of(field(text, "used_memory"@))
    &&& info.maxmemory == number_of(field(text, "maxmemory"@))
    &&& text_of(info.maxmemory_policy) == field(text, "maxmemory_policy"@)
    &&& info.evicted_keys == number_of(field(text, "evicted_keys"@))
    &&& text_of(info.mem_fragmentation_ratio) == field(text, "mem_fragmentation_ratio"@)
    &&& info.connected_clients == number_of(field(text, "connected_clients"@))
    &&& info.db_keys is None
}

/// The values found so far, per displayed key.
struct Found {
    version: Option<Seq<char>>,
    used: Option<Seq<char>>,
    max: Option<Seq<char>>,
    policy: Option<Seq<char>>,
    evicted: Option<Seq<char>>,
    frag: Option<Seq<char>>,
    clients: Option<Seq<char>>,
}

/// `info` holds what was found.
spec fn holds(info: ServerInfo, f: Found) -> bool {
    &&& text_of(info.redis_version) == f.version
    &&& info.used_memory == number_of(f.used)
    &&& info.maxmemory == number_of(f.max)
    &&& text_of(info.maxmemory_policy) == f.policy
    &&& info.evicted_keys == number_of(f.evicted)
    &&& text_of(info.mem_fragmentation_ratio) == f.frag
    &&& info.connected_clients == number_of(f.clients)
    &&& info.db_keys is None
}

/// What is found in all of `text` is what is found in `rest` after `f`.
spec fn continues(text: Seq<char>, rest: Seq<char>, f: Found) -> bool {
    &&& field(text, "redis_version"@) == last_value(rest, "redis_version"@, f.version)
    &&& field(text, "used_memory"@) == last_value(rest, "used_memory"@, f.used)
    &&& field(text, "maxmemory"@) == last_value(rest, "maxmemory"@, f.max)
    &&& field(text, "maxmemory_policy"@) == last_value(rest, "maxmemory_policy"@, f.policy)
    &&& field(text, "evicted_keys"@) == last_value(rest, "evicted_keys"@, f.evicted)
    &&& field(text, "mem_fragmentation_ratio"@) == last_value(
        rest,
        "mem_fragmentation_ratio"@,
        f.frag,
    )
    &&& field(text, "connected_clients"@) == last_value(rest, "connected_clients"@, f.clients)
}

/// `value_in` the line, or else what was known.
spec fn update(line: Seq<char>, key: Seq<char>, so_far: Option<Seq<char>>) -> Option<Seq<char>> {
    if value_in(line, key) is Some {
        value_in(line, key)
    } else {
        so_far
    }
}

spec fn after_line(line: Seq<char>, f: Found) -> Found {
    Found {
        version: update(line, "redis_version"@, f.version),
        used: update(line, "used_memory"@, f.used),
        max: update(line, "maxmemory"@, f.max),
        policy: update(line, "maxmemory_policy"@, f.policy),
        evicted: update(line, "evicted_keys"@, f.evicted),
        frag: update(line, "mem_fragmentation_ratio"@, f.frag),
        clients: update(line, "connected_clients"@, f.clients),
    }
}

/// The displayed keys differ from each other.
proof fn keys_differ()
    ensures
        "redis_version"@.len() == 13,
        "used_memory"@.len() == 11,
        "maxmemory"@.len() == 9,
        "maxmemory_policy"@.len() == 16,
        "evicted_keys"@.len() == 12,
        "mem_fragmentation_ratio"@.len() == 23,
        "connected_clients"@.len() == 17,
{
    reveal_strlit("redis_version");
    reveal_strlit("used_memory");
    reveal_strlit("maxmemory");
    reveal_strlit("maxmemory_policy");
    reveal_strlit("evicted_keys");
    reveal_strlit("mem_fragmentation_ratio");
    reveal_strlit("connected_clients");
}

/// Take in the line `v[from..to]`.
fn read_line(v: &Vec<char>, from: usize, to: usize, info: &mut ServerInfo, Ghost(f): Ghost<Found>)
    requires
        from <= to <= v@.len(),
        holds(*old(info), f),
    ensures
        holds(*final(info), after_line(v@.subrange(from as int, to as int), f)),
{
    let ghost line = v@.subrange(from as int, to as int);
    let colon = find_from(v, from, to);
    proof {
        keys_differ();
    }
    if colon == to {
        return;
    }
    assert(line.take(colon - from) =~= v@.subrange(from as int, colon as int));
    assert(line.skip(colon - from + 1) =~= v@.subrange(colon + 1, to as int));
    let start: usize = colon + 1;
    if key_is(v, from, colon, "redis_version") {
        info.redis_version = Some(string_of(v, start, to));
    } else if key_is(v, from, colon, "used_memory") {
        info.used_memory = numeric(v, start, to);
    } else if key_is(v, from, colon, "maxmemory") {
        info.maxmemory = numeric(v, start, to);
    } else if key_is(v, from, colon, "maxmemory_policy") {
        info.maxmemory_policy = Some(string_of(v, start, to));
    } else if key_is(v, from, colon, "evicted_keys") {
        info.evicted_keys = numeric(v, start, to);
    } else if key_is(v, from, colon, "mem_fragmentation_ratio") {
        info.mem_fragmentation_ratio = Some(string_of(v, start, to));
    } else if key_is(v, from, colon, "connected_clients") {
        info.connected_clients = numeric(v, start, to);
    }
}

/// The first colon in `v[from..to]`, or `to`.
fn find_from(v: &Vec<char>, from: usize, to: usize) -> (r: usize)
    requires
        from <= to <= v@.len(),
    ensures
        from <= r <= to,
        r - from == next_of(v@.subrange(from as int, to as int), ':', 0),
{
    let ghost line = v@.subrange(from as int, to as int);
    let mut i: usize = from;
    while i < to && v[i] != ':'
        invariant
            from <= i <= to <= v@.len(),
            line == v@.subrange(from as int, to as int),
            next_of(line, ':', 0) == next_of(line, ':', i - from),
        decreases to - i,
    {
        i = i + 1;
    }
    i
}

/// Parse the textual `INFO` reply: `key:value` lines in sections. Only the
/// displayed fields are kept; a later line overrides an earlier one.
pub fn parse_info(text: &str) -> (r: ServerInfo)
    ensures
        reads(r, text@),
{
    let v = chars_of(text);
    let mut info = ServerInfo::default();
    let ghost mut f = Found {
        version: None,
        used: None,
        max: None,
        policy: None,
        evicted: None,
        frag: None,
        clients: None,
    };
    let mut start: usize = 0;
    assert(v@.skip(0) =~= text@);
    loop
        invariant
            0 <= start <= v@.len(),
            v@ == text@,
            holds(info, f),
            continues(text@, v@.skip(start as int), f),
        decreases v@.len() - start,
    {
        let ghost rest = v@.skip(start as int);
        let end = find_char(&v, '\n', start);
        proof {
            next_of_skip(v@, '\n', start as int);
            assert(rest.take(end - start) =~= v@.subrange(start as int, end as int));
        }
        let (a, b) = trim_bounds(&v, start, end);
        read_line(&v, a, b, &mut info, Ghost(f));
        proof {
            f = after_line(trimmed(rest.take(end - start)), f);
        }
        if end >= v.len() {
            return info;
        }
        assert(rest.skip(end - start + 1) =~= v@.skip(end + 1));
        start = end + 1;
    }
}

/// Searching from a position is searching what follows it.
proof fn next_of_skip(s: Seq<char>, c: char, from: int)
    requires
        0 <= from <= s.len(),
    ensures
        next_of(s.skip(from), c, 0) == next_of(s, c, from) - from,
{
    crate::text::next_of_is_first(s, c, from);
    crate::text::next_of_is_first(s.skip(from), c, 0);
    let a = next_of(s, c, from) - from;
    let b = next_of(s.skip(from), c, 0);
    if a < b {
        assert(s.skip(from)[a] == s[a + from]);
    } else if b < a {
        assert(s.skip(from)[b] == s[b + from]);
    }
}

/// A line `key:value` gives the key that value, and no other key one.
pub proof fn a_line_gives_its_key_its_value(key: Seq<char>, value: Seq<char>, other: Seq<char>)
    requires
        !key.contains(':'),
    ensures
        value_in(key.push(':') + value, key) == Some(value),
        other != key ==> value_in(key.push(':') + value, other) is None,
        value_in(key, other) is None,
{
    let line = key.push(':') + value;
    let k = key.len() as int;
    crate::text::next_of_is_first(line, ':', 0);
    crate::text::next_of_is_first(key, ':', 0);
    let d = next_of(line, ':', 0);
    assert(line[k] == ':');
    if d < k {
        assert(key.contains(key[d]));
    }
    assert(line.take(k) =~= key);
    assert(line.skip(k + 1) =~= value);
    let e = next_of(key, ':', 0);
    if e < key.len() {
        assert(key.contains(key[e]));
    }
}

/// One more line changes what a key has only if it carries the key, and then
/// its value is the one that counts.
pub proof fn the_last_line_counts(text: Seq<char>, line: Seq<char>, key: Seq<char>)
    requires
        !line.contains('\n'),
    ensures
        field(line, key) == value_in(trimmed(line), key),
        field(text.push('\n') + line, key) == (if value_in(trimmed(line), key) is Some {
            value_in(trimmed(line), key)
        } else {
            field(text, key)
        }),
{
    lines_add_up(text, line, key, None);
    single_line(line, key, None);
}

proof fn single_line(line: Seq<char>, key: Seq<char>, so_far: Option<Seq<char>>)
    requires
        !line.contains('\n'),
    ensures
        last_value(line, key, so_far) == (if value_in(trimmed(line), key) is Some {
            value_in(trimmed(line), key)
        } else {
            so_far
        }),
{
    crate::text::next_of_is_first(line, '\n', 0);
    let i = next_of(line, '\n', 0);
    if i < line.len() {
        assert(line.contains(line[i]));
    }
    assert(line.take(i) =~= line);
}

proof fn lines_add_up(text: Seq<char>, line: Seq<char>, key: Seq<char>, so_far: Option<Seq<char>>)
    requires
        !line.contains('\n'),
    ensures
        last_value(text.push('\n') + line, key, so_far) == (if value_in(trimmed(line), key) is Some {
            value_in(trimmed(line), key)
        } else {
            last_value(text, key, so_far)
        }),
    decreases text.len(),
{
    let all = text.push('\n') + line;
    let i = next_of(text, '\n', 0);
    let j = next_of(all, '\n', 0);
    crate::text::next_of_is_first(text, '\n', 0);
    crate::text::next_of_is_first(all, '\n', 0);
    assert(all[text.len() as int] == '\n');
    assert(i == j) by {
        if j < i {
            assert(all[j] == text[j]);
        } else if i < j {
            assert(all[i] == '\n');
        }
    }
    assert(all.take(i) =~= text.take(i));
    let found = value_in(trimmed(text.take(i)), key);
    let now = if found is Some {
        found
    } else {
        so_far
    };
    if i < text.len() {
        assert(all.skip(i + 1) =~= text.skip(i + 1).push('\n') + line);
        lines_add_up(text.skip(i + 1), line, key, now);
    } else {
        assert(all.skip(i + 1) =~= line);
        single_line(line, key, now);
    }
}

} // verus!
