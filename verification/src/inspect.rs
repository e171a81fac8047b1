//! On-demand drill-down: list a type's keys, and inspect a key's value.
//!
//! The decisions of both live here: which commands to send, what the replies
//! mean, and how the shared slot that the UI reads changes. Whoever holds the
//! connection sends the commands and hands the replies back.

use crate::cleanup::scan_command;
use crate::grouping::{
    body_of, is_hash, last_of, marked, namespace_of, stripped, stripped_ends_at_dash, tag_prefix,
    type_of,
};
use crate::moment::{
    clock_gave, expiry_instant, in_calendar, instant_after, is_offset, local_text, now, offset_at,
    write_local, zone_gave, LAST_SECOND,
};
use crate::order::{arrange, permute, permuted_multiset, strict_total};
use crate::scanner::Step;
use crate::text::{
    chars_of, contains, dec, decimal, ends_with, from_utf8_lossy, join, joined, lex_irreflexive, lex_lt, lex_total,
    lex_transitive, lossy, next_of, next_of_is_first, occurs, occurs_at, rank, replace_all, replace_all_in, replace_char,
    replace_char_in, same, starts_with, string_of, text_of, texts, Rank,
};
use crate::value::{decode, first_stream, magic_at, payload, views, Decoded, Encoding};
use vstd::prelude::*;
use vstd::utf8::{decode_utf8, decode_utf8_encode_utf8, encode_utf8, valid_utf8};

verus! {

/// How many keys a drill-down lists at most (a sample, not the full set).
pub const KEY_SAMPLE_CAP: usize = 1000;

/// How many characters or bytes of a value are rendered.
pub const VALUE_DISPLAY_CAP: usize = 20_000;

/// How many elements of a collection (set/hash/list/zset) are shown.
pub const COLLECTION_CAP: usize = 500;

/// A request from the UI to the fetcher.
#[derive(Debug)]
pub enum Request {
    /// List sample keys belonging to a (namespace, type).
    ListKeys { namespace: String, key_type: String },
    /// Fetch and decode a single key's value.
    GetValue { key: String },
}

/// Result of a key listing.
#[derive(Debug, Clone)]
pub struct KeyList {
    pub namespace: String,
    pub key_type: String,
    pub keys: Vec<String>,
    /// True if the sample cap was hit (more keys exist than shown).
    pub capped: bool,
    pub error: Option<String>,
}

/// Result of a value fetch.
#[derive(Debug, Clone)]
pub struct KeyValue {
    pub key: String,
    pub redis_type: String,
    pub ttl: Option<i64>,
    pub size_bytes: Option<u64>,
    /// Number of elements for a collection type (None for strings/missing).
    pub elements: Option<u64>,
    /// Text rendering of the body (decoded string, or a collection listing).
    pub body: String,
    /// Hex rendering of a string value (None for collections).
    pub hex: Option<String>,
    /// True when the string value is binary (the UI defaults to the hex view).
    pub is_binary: bool,
    /// Compression encoding detected for a string value.
    pub encoding: Option<Encoding>,
    /// Byte offset at which a compressed stream started.
    pub stream_offset: Option<usize>,
    pub error: Option<String>,
}

/// Shared slot the fetcher writes into and the UI reads. `generation` grows
/// with every result so the UI can tell a fresh reply from a stale one.
#[derive(Debug, Clone)]
pub struct Inbox {
    pub key_list: Option<KeyList>,
    pub key_value: Option<KeyValue>,
    /// True while a request is in flight.
    pub loading: bool,
    pub generation: u64,
    /// The generation that brought the key list.
    pub list_generation: u64,
    /// The generation that brought the value.
    pub value_generation: u64,
}

/// The two slots of the inbox.
#[derive(Debug, Clone, Copy, PartialEq, Eq, Structural)]
pub enum Slot {
    List,
    Value,
}

// ---------------------------------------------------------------------------
// Expiry
// ---------------------------------------------------------------------------

/// A TTL with the moment at which it runs out.
pub open spec fn ttl_at(ttl: Option<i64>, when: Option<Seq<char>>) -> Seq<char> {
    match ttl {
        Some(t) => if t == -1 {
            "persistent"@
        } else if t >= 0 {
            match when {
                Some(w) => dec(t as nat) + "s (expires "@ + w + ")"@,
                None => dec(t as nat) + "s"@,
            }
        } else {
            "-"@
        },
        None => "-"@,
    }
}

/// A TTL with the moment `when` at which it runs out, if that is known.
pub fn ttl_with_moment(ttl: Option<i64>, when: &Option<String>) -> (r: String)
    ensures
        r@ == ttl_at(ttl, text_of(*when)),
{
    match ttl {
        Some(t) => if t == -1 {
            "persistent".to_owned()
        } else if t >= 0 {
            let mut r = decimal(t as u128);
            match when {
                Some(w) => {
                    r.append("s (expires ");
                    r.append(w.as_str());
                    r.append(")");
                },
                None => {
                    r.append("s");
                },
            }
            r
        } else {
            "-".to_owned()
        },
        None => "-".to_owned(),
    }
}

/// The local date and time at which a TTL runs out, read at `now`, if the
/// calendar holds that moment.
pub open spec fn local_moment(ttl: Option<i64>, now: i64, offset: i32) -> Option<Seq<char>> {
    if ttl is Some && ttl->0 >= 0 && instant_after(now, ttl->0) is Some {
        Some(local_text(instant_after(now, ttl->0)->0, offset))
    } else {
        None
    }
}

/// A TTL read at `now`, with the moment at which it runs out.
pub open spec fn ttl_text_from(ttl: Option<i64>, now: i64, offset: i32) -> Seq<char> {
    ttl_at(ttl, local_moment(ttl, now, offset))
}

/// Format a TTL that was read at `now`, in seconds since the epoch, where the
/// local time is `offset` seconds ahead of UTC when it runs out.
pub fn ttl_from(ttl: Option<i64>, now: i64, offset: i32) -> (r: String)
    requires
        in_calendar(now),
        is_offset(offset),
    ensures
        r@ == ttl_text_from(ttl, now, offset),
{
    let when = match ttl {
        Some(secs) => if secs >= 0 {
            match expiry_instant(now, secs) {
                Some(at) => Some(write_local(at, offset)),
                None => None,
            }
        } else {
            None
        },
        None => None,
    };
    ttl_with_moment(ttl, &when)
}

/// `offset` is what the time zone gave for the moment at which a TTL read at
/// `now` runs out, if there is such a moment.
pub open spec fn offset_of_expiry(ttl: Option<i64>, now: i64, offset: i32) -> bool {
    &&& is_offset(offset)
    &&& ttl is Some && ttl->0 >= 0 && now + ttl->0 <= LAST_SECOND ==> zone_gave(
        (now + ttl->0) as i64,
        offset,
    )
}

/// The local offset at the moment at which a TTL read at `now` runs out.
pub(crate) fn offset_then(ttl: Option<i64>, now: i64) -> (r: i32)
    requires
        in_calendar(now),
    ensures
        is_offset(r),
        offset_of_expiry(ttl, now, r),
{
    match ttl {
        Some(secs) => if secs >= 0 {
            match expiry_instant(now, secs) {
                Some(at) => offset_at(at),
                None => 0,
            }
        } else {
            0
        },
        None => 0,
    }
}

/// Format a TTL for a single key: the remaining time plus, in parentheses, the
/// local date and time at which it expires. `-1` is no expiry, `-2` or none a
/// missing key. The date is what the clock gave in this call plus the TTL, at
/// the offset that the time zone gave for that moment.
pub fn ttl_with_expiry(ttl: Option<i64>) -> (r: String)
    ensures
        ttl is None || ttl->0 < -1 ==> r@ == "-"@,
        ttl == Some(-1i64) ==> r@ == "persistent"@,
        exists|now: i64, nanos: u32, offset: i32|
            {
                &&& #[trigger] clock_gave(now, nanos)
                &&& in_calendar(now)
                &&& #[trigger] offset_of_expiry(ttl, now, offset)
                &&& r@ == ttl_text_from(ttl, now, offset)
                &&& ttl is Some && ttl->0 >= 0 ==> r@ == dec(ttl->0 as nat) + "s"@ + (if now
                    + ttl->0 <= LAST_SECOND {
                    " (expires "@ + local_text((now + ttl->0) as i64, offset) + ")"@
                } else {
                    ""@
                })
            },
{
    let (secs, nanos) = now();
    let offset: i32 = offset_then(ttl, secs);
    let r = ttl_from(ttl, secs, offset);
    proof {
        ttl_shows_when_it_runs_out(ttl, secs, offset);
        assert(clock_gave(secs, nanos) && offset_of_expiry(ttl, secs, offset));
    }
    r
}

/// A TTL of zero or more is shown in seconds, followed by the local date and
/// time that lie so many seconds after the reading, if the calendar holds it.
pub proof fn ttl_shows_when_it_runs_out(ttl: Option<i64>, now: i64, offset: i32)
    requires
        in_calendar(now),
    ensures
        ttl is Some && ttl->0 >= 0 && now + ttl->0 <= LAST_SECOND ==> ttl_text_from(
            ttl,
            now,
            offset,
        ) == dec(ttl->0 as nat) + "s"@ + (" (expires "@ + local_text(
            (now + ttl->0) as i64,
            offset,
        ) + ")"@),
        ttl is Some && ttl->0 >= 0 && now + ttl->0 > LAST_SECOND ==> ttl_text_from(
            ttl,
            now,
            offset,
        ) == dec(ttl->0 as nat) + "s"@ + ""@,
        ttl == Some(-1i64) ==> ttl_text_from(ttl, now, offset) == "persistent"@,
        ttl is None || ttl->0 < -1 ==> ttl_text_from(ttl, now, offset) == "-"@,
{
    reveal_strlit("s (expires ");
    reveal_strlit("s");
    reveal_strlit(" (expires ");
    reveal_strlit(")");
    reveal_strlit("");
    if ttl is Some && ttl->0 >= 0 {
        let d = dec(ttl->0 as nat);
        if now + ttl->0 <= LAST_SECOND {
            let w = local_text((now + ttl->0) as i64, offset);
            assert(d + "s (expires "@ + w + ")"@ =~= d + "s"@ + (" (expires "@ + w + ")"@));
        } else {
            assert(d + "s"@ =~= d + "s"@ + ""@);
        }
    }
}

// ---------------------------------------------------------------------------
// Key names
// ---------------------------------------------------------------------------

/// A key as it is shown: the tag marker byte written as `\x01`.
pub open spec fn escaped(bytes: Seq<u8>) -> Seq<char> {
    replace_char(lossy(bytes), '\u{1}', "\\x01"@)
}

/// The key that a shown key stands for.
pub open spec fn unescaped(key: Seq<char>) -> Seq<u8> {
    encode_utf8(replace_all(key, "\\x01"@, "\u{1}"@))
}

/// Render the tag marker byte in a key name readably.
pub fn escape_key(bytes: &Vec<u8>) -> (r: String)
    ensures
        r@ == escaped(bytes@),
        valid_utf8(bytes@) ==> r@ == replace_char(decode_utf8(bytes@), '\u{1}', "\\x01"@),
{
    replace_char_in(from_utf8_lossy(bytes).as_str(), '\u{1}', "\\x01")
}

/// Undo `escape_key` so that the real bytes are sent back to Redis.
pub fn unescape_key(key: &str) -> (r: Vec<u8>)
    ensures
        r@ == unescaped(key@),
{
    proof {
        reveal_strlit("\\x01");
    }
    replace_all_in(key, "\\x01", "\u{1}").as_str().as_bytes_vec()
}

/// A key that is shown and sent back is the same key, as long as it is valid
/// UTF-8 and does not hold the marker's readable form itself.
pub proof fn escaping_is_undone(bytes: Seq<u8>)
    requires
        valid_utf8(bytes),
        !contains(decode_utf8(bytes), "\\x01"@),
    ensures
        unescaped(replace_char(decode_utf8(bytes), '\u{1}', "\\x01"@)) == bytes,
{
    let s = decode_utf8(bytes);
    marker_is_restored(s);
    decode_utf8_encode_utf8(bytes);
}

/// What `replace_char` does to the first character.
proof fn replace_char_front(s: Seq<char>, c: char, with: Seq<char>)
    requires
        s.len() > 0,
    ensures
        replace_char(s, c, with) == (if s[0] == c {
            with
        } else {
            seq![s[0]]
        }) + replace_char(s.skip(1), c, with),
    decreases s.len(),
{
    let head = if s[0] == c {
        with
    } else {
        seq![s[0]]
    };
    if s.len() == 1 {
        assert(s.drop_last() =~= Seq::<char>::empty());
        assert(s.skip(1) =~= Seq::<char>::empty());
        assert(replace_char(s, c, with) =~= head + replace_char(s.skip(1), c, with));
    } else {
        replace_char_front(s.drop_last(), c, with);
        assert(s.drop_last().skip(1) =~= s.skip(1).drop_last());
        assert(s.skip(1).last() == s.last());
        let mid = replace_char(s.skip(1).drop_last(), c, with);
        if s.last() == c {
            assert((head + mid) + with =~= head + (mid + with));
        } else {
            assert((head + mid).push(s.last()) =~= head + mid.push(s.last()));
        }
    }
}

proof fn marker_is_restored(s: Seq<char>)
    requires
        !contains(s, "\\x01"@),
    ensures
        replace_all(replace_char(s, '\u{1}', "\\x01"@), "\\x01"@, "\u{1}"@) == s,
    decreases s.len(),
{
    let t = "\\x01"@;
    let m = "\u{1}"@;
    reveal_strlit("\\x01");
    reveal_strlit("\u{1}");
    let esc = replace_char(s, '\u{1}', t);
    if s.len() > 0 {
        let rest = s.skip(1);
        assert(!contains(rest, t)) by {
            if contains(rest, t) {
                let i = choose|i: int| occurs_at(rest, t, i);
                assert(s.subrange(i + 1, i + 1 + t.len()) =~= rest.subrange(i, i + t.len()));
                assert(occurs_at(s, t, i + 1));
            }
        }
        marker_is_restored(rest);
        replace_char_front(s, '\u{1}', t);
        let tail = replace_char(rest, '\u{1}', t);
        if s[0] == '\u{1}' {
            assert(esc =~= t + tail);
            assert(esc.subrange(0, t.len() as int) =~= t);
            assert(esc.skip(t.len() as int) =~= tail);
            assert(m + rest =~= s);
        } else {
            assert(esc =~= seq![s[0]] + tail);
            assert(!starts_with(esc, t)) by {
                if starts_with(esc, t) {
                    let front = esc.subrange(0, 4);
                    assert(front == t);
                    assert(esc[0] == front[0] && esc[1] == front[1] && esc[2] == front[2] && esc[3]
                        == front[3]);
                    assert(tail[0] == 'x' && tail[1] == '0' && tail[2] == '1');
                    plain_prefix(rest, seq!['x', '0', '1']);
                    assert(s.subrange(0, 4) =~= t) by {
                        assert(rest[0] == 'x' && rest[1] == '0' && rest[2] == '1');
                        assert(s[1] == rest[0] && s[2] == rest[1] && s[3] == rest[2]);
                    }
                    assert(occurs_at(s, t, 0));
                }
            }
            assert(esc.skip(1) =~= tail);
            assert(seq![s[0]] + rest =~= s);
        }
    } else {
        assert(esc =~= s);
    }
}

/// If the escaped text begins with `p`, and `p` has no backslash, then so does
/// the text itself.
proof fn plain_prefix(s: Seq<char>, p: Seq<char>)
    requires
        replace_char(s, '\u{1}', "\\x01"@).len() >= p.len(),
        forall|i: int| 0 <= i < p.len() ==> replace_char(s, '\u{1}', "\\x01"@)[i] == p[i],
        forall|i: int| 0 <= i < p.len() ==> p[i] != '\\',
    ensures
        s.len() >= p.len(),
        forall|i: int| 0 <= i < p.len() ==> s[i] == p[i],
    decreases p.len(),
{
    if p.len() > 0 {
        reveal_strlit("\\x01");
        let t = "\\x01"@;
        let esc = replace_char(s, '\u{1}', t);
        assert(esc.len() > 0);
        assert(s.len() > 0);
        replace_char_front(s, '\u{1}', t);
        let tail = replace_char(s.skip(1), '\u{1}', t);
        assert(esc[0] == p[0]);
        if s[0] == '\u{1}' {
            assert(esc[0] == t[0]);
            assert(false);
        }
        assert(esc =~= seq![s[0]] + tail);
        let q = p.skip(1);
        assert forall|i: int| 0 <= i < q.len() implies tail[i] == q[i] by {
            assert(esc[i + 1] == p[i + 1]);
        }
        plain_prefix(s.skip(1), q);
        assert forall|i: int| 0 <= i < p.len() implies s[i] == p[i] by {
            if i > 0 {
                assert(s.skip(1)[i - 1] == q[i - 1]);
            }
        }
    }
}

// ---------------------------------------------------------------------------
// Listing keys
// ---------------------------------------------------------------------------

/// The SCAN MATCH pattern for the keys of a type: the type's readable marker
/// becomes the real control byte again. The buckets for keys without a type and
/// for bare hashes match what surrounds the bucket.
pub open spec fn pattern_for(namespace: Seq<char>, key_type: Seq<char>) -> Seq<char> {
    let body = replace_all(key_type, "\\x01"@, "\u{1}"@);
    if body == "(no-type)"@ {
        namespace + ":*"@
    } else if ends_with(body, "(hash)"@) {
        namespace + ":"@ + body.take(body.len() - "(hash)"@.len()) + "*"@
    } else {
        namespace + ":"@ + body + "*"@
    }
}

/// Reconstruct the SCAN MATCH pattern for a (namespace, type).
pub fn match_pattern_for(namespace: &str, key_type: &str) -> (r: String)
    ensures
        r@ == pattern_for(namespace@, key_type@),
{
    proof {
        reveal_strlit("\\x01");
        reveal_strlit("(hash)");
    }
    let body = replace_all_in(key_type, "\\x01", "\u{1}");
    let mut r = namespace.to_owned();
    if same(body.as_str(), "(no-type)") {
        r.append(":*");
        return r;
    }
    let v = chars_of(body.as_str());
    let bucket = chars_of("(hash)");
    r.append(":");
    if v.len() >= bucket.len() && occurs(&v, &bucket, v.len() - bucket.len()) {
        let stripped = string_of(&v, 0, v.len() - bucket.len());
        assert(stripped@ =~= body@.take(body@.len() - bucket@.len()));
        r.append(stripped.as_str());
    } else {
        r.append(body.as_str());
    }
    r.append("*");
    r
}

/// Replacing a character works on the parts of a text.
proof fn replace_char_parts(a: Seq<char>, b: Seq<char>, c: char, with: Seq<char>)
    ensures
        replace_char(a + b, c, with) == replace_char(a, c, with) + replace_char(b, c, with),
    decreases b.len(),
{
    let x = replace_char(a, c, with);
    if b.len() == 0 {
        assert(a + b =~= a);
        assert(x + replace_char(b, c, with) =~= x);
    } else {
        replace_char_parts(a, b.drop_last(), c, with);
        assert((a + b).drop_last() =~= a + b.drop_last());
        assert((a + b).last() == b.last());
        let y = replace_char(b.drop_last(), c, with);
        assert((x + y) + with =~= x + (y + with));
        assert((x + y).push(b.last()) =~= x + y.push(b.last()));
    }
}

/// A text without the character stays as it is.
proof fn replace_char_absent(s: Seq<char>, c: char, with: Seq<char>)
    requires
        forall|i: int| 0 <= i < s.len() ==> s[i] != c,
    ensures
        replace_char(s, c, with) == s,
    decreases s.len(),
{
    if s.len() > 0 {
        replace_char_absent(s.drop_last(), c, with);
        assert(s.drop_last().push(s.last()) =~= s);
    }
}

/// If the readable form of `s` begins with `t`, and `t` does not end inside a
/// marker, then `t` is the readable form of how `s` begins.
proof fn readable_prefix(s: Seq<char>, t: Seq<char>) -> (k: int)
    requires
        starts_with(marked(s), t),
        ({
            ||| marked(s).len() == t.len()
            ||| marked(s)[t.len() as int] == '-'
            ||| t.len() == 0
            ||| t.last() == '1'
        }),
    ensures
        0 <= k <= s.len(),
        marked(s.take(k)) == t,
    decreases s.len(),
{
    let m = marked(s);
    let n = t.len() as int;
    assert(m.subrange(0, n) == t);
    if m.len() == n {
        assert(m =~= t);
        assert(s.take(s.len() as int) =~= s);
        s.len() as int
    } else {
        assert(s.len() > 0);
        let front = s.drop_last();
        let f = marked(front);
        let token = "\\x01"@;
        reveal_strlit("\\x01");
        if f.len() >= n {
            assert(f.subrange(0, n) =~= t) by {
                assert forall|i: int| 0 <= i < n implies f.subrange(0, n)[i] == t[i] by {
                    assert(m.subrange(0, n)[i] == m[i]);
                    assert(f[i] == m[i]);
                }
            }
            if f.len() > n {
                assert(f[n] == m[n]);
            }
            let k = readable_prefix(front, t);
            assert(s.take(k) =~= front.take(k));
            k
        } else {
            // `t` would end inside the marker that the last character becomes.
            assert(s.last() == '\u{1}');
            assert(m =~= f + token);
            assert(m[n] == token[n - f.len()]);
            assert(t.last() == m.subrange(0, n)[n - 1]);
            assert(m[n - 1] == token[n - 1 - f.len()]);
            assert(false);
            0
        }
    }
}

/// A key that belongs to a type is found by the type's pattern: up to its final
/// star, the pattern is how the key begins. This holds of keys with a colon
/// whose namespace has no marker byte, as long as the key does not hold the
/// marker's readable form itself.
pub proof fn pattern_finds_its_keys(key: Seq<char>, namespace_len: nat)
    requires
        next_of(key, ':', 0) < key.len(),
        forall|i: int| 0 <= i < next_of(key, ':', 0) ==> key[i] != '\u{1}',
        !contains(key, "\\x01"@),
    ensures
        ({
            let p = pattern_for(namespace_of(key, namespace_len), type_of(body_of(key)));
            &&& p.len() > 0
            &&& p.last() == '*'
            &&& starts_with(key, p.drop_last())
        }),
{
    reveal_strlit("*");
    reveal_strlit(":");
    reveal_strlit(":*");
    reveal_strlit("(hash)");
    let c = next_of(key, ':', 0);
    next_of_is_first(key, ':', 0);
    let ns = key.take(c);
    let rest = key.skip(c + 1);
    let m = marked(key);
    // The namespace is unchanged, and the body is the readable rest.
    let token = "\\x01"@;
    assert(key =~= key.take(c + 1) + rest);
    replace_char_parts(key.take(c + 1), rest, '\u{1}', token);
    replace_char_absent(key.take(c + 1), '\u{1}', token);
    assert(m == key.take(c + 1) + marked(rest));
    next_of_is_first(m, ':', 0);
    assert(m[c] == ':');
    assert(next_of(m, ':', 0) == c) by {
        let d = next_of(m, ':', 0);
        if d < c {
            assert(m[d] == key[d]);
        }
    }
    assert(namespace_of(key, namespace_len) =~= ns);
    let body = body_of(key);
    assert(body =~= marked(rest));
    let t = type_of(body);
    let p = pattern_for(ns, t);
    assert(!contains(rest, token)) by {
        if contains(rest, token) {
            let i = choose|i: int| occurs_at(rest, token, i);
            assert(key.subrange(c + 1 + i, c + 1 + i + token.len()) =~= rest.subrange(
                i,
                i + token.len(),
            ));
            assert(occurs_at(key, token, c + 1 + i));
        }
    }
    let raw = replace_all(t, token, "\u{1}"@);
    if raw == "(no-type)"@ {
        assert(p.drop_last() =~= key.take(c + 1));
        assert(key.subrange(0, c + 1) =~= key.take(c + 1));
    } else {
        if body.len() == 0 {
            assert(t == "(no-type)"@);
            no_token_stays(t);
            assert(false);
        }
        let a = type_beginning(rest);
        // `raw` is how the rest begins, with the bucket's name in its place.
        assert(starts_with(rest, a.0));
        assert(raw == a.0 + a.1);
        let stem = if ends_with(raw, "(hash)"@) {
            raw.take(raw.len() - 6)
        } else {
            raw
        };
        assert(p =~= ns + ":"@ + stem + "*"@);
        assert(p.drop_last() =~= ns + ":"@ + stem);
        assert(stem.len() <= a.0.len()) by {
            if a.1.len() > 0 {
                assert(a.1 == "(hash)"@);
                assert(raw.subrange(raw.len() - 6, raw.len() as int) =~= "(hash)"@);
            }
        }
        let n = p.drop_last().len() as int;
        assert(key.subrange(0, n) =~= p.drop_last()) by {
            assert(rest.subrange(0, a.0.len() as int) == a.0);
            assert forall|i: int| 0 <= i < n implies key.subrange(0, n)[i] == p.drop_last()[i] by {
                if i > c {
                    let j = i - c - 1;
                    assert(p.drop_last()[i] == stem[j]);
                    assert(stem[j] == raw[j]);
                    assert(raw[j] == a.0[j]);
                    assert(rest.subrange(0, a.0.len() as int)[j] == rest[j]);
                }
            }
        }
    }
}

/// A text that does not hold the marker's readable form is not changed by
/// restoring markers.
proof fn no_token_stays(s: Seq<char>)
    requires
        s == "(no-type)"@,
    ensures
        replace_all(s, "\\x01"@, "\u{1}"@) == s,
{
    reveal_strlit("(no-type)");
    reveal_strlit("\\x01");
    let token = "\\x01"@;
    assert(!contains(s, token)) by {
        if contains(s, token) {
            let i = choose|i: int| occurs_at(s, token, i);
            assert(s.subrange(i, i + 4)[0] == s[i]);
        }
    }
    replace_char_absent(s, '\u{1}', token);
    marker_is_restored(s);
}

/// With its markers restored, a type name is how the bodies of its keys begin,
/// followed by the name of the bucket for bare hashes or by nothing.
proof fn type_beginning(rest: Seq<char>) -> (r: (Seq<char>, Seq<char>))
    requires
        marked(rest).len() > 0,
        !contains(rest, "\\x01"@),
    ensures
        starts_with(rest, r.0),
        r.1.len() == 0 || r.1 == "(hash)"@,
        replace_all(type_of(marked(rest)), "\\x01"@, "\u{1}"@) == r.0 + r.1,
{
    let token = "\\x01"@;
    let hash = "(hash)"@;
    let tag = tag_prefix();
    reveal_strlit("\\x01tags\\x01");
    reveal_strlit("(hash)");
    reveal_strlit("\\x01");
    let body = marked(rest);
    let t = type_of(body);
    let tagged = starts_with(body, tag);
    let n = if tagged {
        tag.len() as int
    } else {
        0
    };
    let inner = if tagged {
        body.skip(n)
    } else {
        body
    };
    let s = stripped(inner);
    stripped_ends_at_dash(inner);
    if (!tagged && s.len() == 0) || (last_of(s, '-') < 0 && is_hash(s)) {
        let head = body.take(n);
        assert(head =~= if tagged {
            tag
        } else {
            Seq::<char>::empty()
        }) by {
            if tagged {
                assert(body.subrange(0, n) =~= body.take(n));
            }
        }
        assert(body.subrange(0, n) =~= head);
        let k = readable_prefix(rest, head);
        let a = rest.take(k);
        let whole = a + hash;
        replace_char_parts(a, hash, '\u{1}', token);
        replace_char_absent(hash, '\u{1}', token);
        assert(marked(whole) =~= t);
        assert(!contains(whole, token)) by {
            if contains(whole, token) {
                let i = choose|i: int| occurs_at(whole, token, i);
                let w = whole.subrange(i, i + 4);
                assert(w[0] == whole[i] && w[1] == whole[i + 1] && w[2] == whole[i + 2] && w[3]
                    == whole[i + 3]);
                assert(i + 4 <= a.len());
                assert(rest.subrange(i, i + 4) =~= w);
                assert(occurs_at(rest, token, i));
            }
        }
        marker_is_restored(whole);
        assert(rest.subrange(0, k) =~= a);
        (a, hash)
    } else {
        let len = t.len() as int;
        assert(t =~= body.take(len)) by {
            if tagged {
                assert(t =~= tag + s);
                assert(body.subrange(0, n) == tag);
                assert forall|i: int| 0 <= i < len implies t[i] == body.take(len)[i] by {
                    if i < n {
                        assert(body.subrange(0, n)[i] == body[i]);
                    } else {
                        assert(s[i - n] == inner.take(s.len() as int)[i - n]);
                    }
                }
            }
        }
        assert(body.subrange(0, len) =~= t);
        if len < body.len() {
            assert(body[len] == inner[s.len() as int]);
        }
        let k = readable_prefix(rest, t);
        let a = rest.take(k);
        assert(!contains(a, token)) by {
            if contains(a, token) {
                let i = choose|i: int| occurs_at(a, token, i);
                assert(rest.subrange(i, i + 4) =~= a.subrange(i, i + 4));
                assert(occurs_at(rest, token, i));
            }
        }
        marker_is_restored(a);
        assert(rest.subrange(0, k) =~= a);
        assert(a + Seq::<char>::empty() =~= a);
        (a, Seq::empty())
    }
}

/// A key listing in progress.
#[derive(Debug)]
pub struct Listing {
    pub namespace: String,
    pub key_type: String,
    pub keys: Vec<String>,
    pub capped: bool,
    pub cursor: u64,
}

/// The shown names of raw keys.
pub open spec fn shown_keys(batch: Seq<Vec<u8>>) -> Seq<Seq<char>> {
    Seq::new(batch.len(), |i: int| escaped(batch[i]@))
}

/// The first `n` of `s`, or all of it.
pub open spec fn at_most<T>(s: Seq<T>, n: nat) -> Seq<T> {
    if s.len() > n {
        s.take(n as int)
    } else {
        s
    }
}

/// `a` comes before `b` in name order; equal names keep their order.
spec fn name_before(s: Seq<String>) -> spec_fn(int, int) -> bool {
    |i: int, j: int| lex_lt(s[i]@, s[j]@) || (s[i]@ == s[j]@ && i < j)
}

proof fn name_order_is_total(s: Seq<String>)
    ensures
        strict_total(name_before(s), s.len() as int),
{
    let rel = name_before(s);
    assert forall|i: int| 0 <= i < s.len() implies !#[trigger] rel(i, i) by {
        lex_irreflexive(s[i]@);
    }
    assert forall|i: int, j: int, k: int|
        #![trigger rel(i, j), rel(j, k)]
        0 <= i < s.len() && 0 <= j < s.len() && 0 <= k < s.len() && rel(i, j) && rel(
            j,
            k,
        ) implies rel(i, k) by {
        if lex_lt(s[i]@, s[j]@) && lex_lt(s[j]@, s[k]@) {
            lex_transitive(s[i]@, s[j]@, s[k]@);
        }
    }
    assert forall|i: int, j: int|
        #![trigger rel(i, j)]
        0 <= i < s.len() && 0 <= j < s.len() && i != j implies rel(i, j) || rel(j, i) by {
        lex_total(s[i]@, s[j]@);
    }
}

/// Sort names.
fn sort_names(v: Vec<String>) -> (r: Vec<String>)
    ensures
        texts(r@).to_multiset() == texts(v@).to_multiset(),
        r@.len() == v@.len(),
        forall|i: int, j: int|
            #![trigger r@[i], r@[j]]
            0 <= i < j < r@.len() ==> !lex_lt(r@[j]@, r@[i]@),
{
    let ghost s = v@;
    proof {
        name_order_is_total(s);
    }
    let n: usize = v.len();
    let before = |i: usize, j: usize| -> (b: bool)
        requires
            i < v@.len(),
            j < v@.len(),
        ensures
            b == name_before(v@)(i as int, j as int),
        {
            proof {
                lex_irreflexive(v@[i as int]@);
            }
            match rank(v[i].as_str(), v[j].as_str()) {
                Rank::Before => true,
                Rank::Same => i < j,
                Rank::After => false,
            }
        };
    let o = arrange(n, &before, Ghost(name_before(s)));
    let r = permute(v, &o);
    proof {
        permuted_multiset(texts(s), o@);
        assert(texts(r@) =~= o@.map_values(|k: usize| texts(s)[k as int]));
        assert forall|i: int, j: int|
            #![trigger r@[i], r@[j]]
            0 <= i < j < r@.len() implies !lex_lt(r@[j]@, r@[i]@) by {
            assert(name_before(s)(o@[i] as int, o@[j] as int));
            if lex_lt(r@[j]@, r@[i]@) {
                if lex_lt(r@[i]@, r@[j]@) {
                    lex_transitive(r@[i]@, r@[j]@, r@[i]@);
                }
                lex_irreflexive(r@[i]@);
            }
        }
    }
    r
}

/// `b` is the listing `a` after `more` keys came in: the sample cap bounds what
/// is shown, and the listing is capped exactly if a key was left out.
pub open spec fn lists_more(a: Listing, more: Seq<Seq<char>>, b: Listing) -> bool {
    &&& b.namespace == a.namespace
    &&& b.key_type == a.key_type
    &&& texts(b.keys@) == at_most(texts(a.keys@) + more, KEY_SAMPLE_CAP as nat)
    &&& b.capped == (a.keys@.len() + more.len() > KEY_SAMPLE_CAP)
}

/// `states` are a listing's states from the beginning on, as `pages` come in
/// one after the other; only the last page can exceed the sample cap.
pub open spec fn listing_run(states: Seq<Listing>, pages: Seq<Seq<Seq<char>>>) -> bool {
    &&& states.len() == pages.len() + 1
    &&& states[0].keys@.len() == 0
    &&& !states[0].capped
    &&& forall|i: int|
        0 <= i < pages.len() ==> !(#[trigger] states[i]).capped && lists_more(
            states[i],
            pages[i],
            states[i + 1],
        )
}

/// A listing shows the keys in the order in which they came, up to the sample
/// cap, and is capped exactly if more keys came than it shows.
pub proof fn capped_means_more_exist(states: Seq<Listing>, pages: Seq<Seq<Seq<char>>>)
    requires
        listing_run(states, pages),
    ensures
        texts(states.last().keys@) == at_most(pages.flatten(), KEY_SAMPLE_CAP as nat),
        states.last().capped <==> pages.flatten().len() > states.last().keys@.len(),
    decreases pages.len(),
{
    if pages.len() == 0 {
        assert(pages.flatten() =~= Seq::<Seq<char>>::empty());
        assert(texts(states.last().keys@) =~= Seq::<Seq<char>>::empty());
    } else {
        let n = pages.len() - 1;
        let s = states.drop_last();
        let p = pages.drop_last();
        assert(listing_run(s, p)) by {
            assert forall|i: int| 0 <= i < p.len() implies !(#[trigger] s[i]).capped && lists_more(
                s[i],
                p[i],
                s[i + 1],
            ) by {
                assert(lists_more(states[i], pages[i], states[i + 1]));
            }
        }
        capped_means_more_exist(s, p);
        assert(!states[n].capped && lists_more(states[n], pages[n], states[n + 1]));
        pages.lemma_flatten_and_flatten_alt_are_equivalent();
        p.lemma_flatten_and_flatten_alt_are_equivalent();
        let sofar = texts(states[n].keys@);
        assert(sofar.len() == states[n].keys@.len());
        assert(sofar =~= p.flatten());
        assert(pages.flatten() =~= p.flatten() + pages[n]);
        assert(texts(states.last().keys@).len() == states.last().keys@.len());
    }
}

impl Listing {
    /// The invariant: never more keys than the sample cap, and a capped listing
    /// is full.
    pub open spec fn wf(self) -> bool {
        &&& self.keys@.len() <= KEY_SAMPLE_CAP
        &&& self.capped ==> self.keys@.len() == KEY_SAMPLE_CAP
    }

    /// A listing that has yet to begin.
    pub fn new(namespace: &str, key_type: &str) -> (r: Self)
        ensures
            r.wf(),
            r.namespace@ == namespace@,
            r.key_type@ == key_type@,
            r.keys@.len() == 0,
            !r.capped,
            r.cursor == 0,
    {
        Listing {
            namespace: namespace.to_owned(),
            key_type: key_type.to_owned(),
            keys: Vec::new(),
            capped: false,
            cursor: 0,
        }
    }

    /// The next SCAN command.
    pub fn command(&self) -> (r: Vec<String>)
        ensures
            texts(r@) == seq![
                "SCAN"@,
                dec(self.cursor as nat),
                "MATCH"@,
                pattern_for(self.namespace@, self.key_type@),
                "COUNT"@,
                dec(500),
            ],
    {
        let pattern = match_pattern_for(self.namespace.as_str(), self.key_type.as_str());
        scan_command(self.cursor, pattern.as_str(), 500)
    }

    /// Take in one SCAN batch. The listing ends with the keyspace or with the
    /// first key beyond the sample cap, whichever comes first.
    pub fn take_in(&mut self, next: u64, batch: &Vec<Vec<u8>>) -> (r: Step)
        requires
            old(self).wf(),
            !old(self).capped,
        ensures
            final(self).wf(),
            final(self).cursor == next,
            lists_more(*old(self), shown_keys(batch@), *final(self)),
            r is Done <==> next == 0 || final(self).capped,
    {
        let ghost before = texts(self.keys@);
        let ghost more = shown_keys(batch@);
        let mut i: usize = 0;
        assert(before + more.take(0) =~= before);
        while i < batch.len() && !self.capped
            invariant
                0 <= i <= batch@.len(),
                more == shown_keys(batch@),
                self.wf(),
                self.namespace == old(self).namespace,
                self.key_type == old(self).key_type,
                texts(self.keys@) == before + more.take(i as int),
                self.capped ==> i < batch@.len(),
            decreases
                batch@.len() - i,
                if self.capped {
                    0int
                } else {
                    1
                },
        {
            if self.keys.len() >= KEY_SAMPLE_CAP {
                self.capped = true;
            } else {
                let ghost so_far = self.keys@;
                self.keys.push(escape_key(&batch[i]));
                assert(texts(self.keys@) =~= texts(so_far).push(more[i as int]));
                i = i + 1;
                assert(more.take(i as int) =~= more.take(i - 1).push(more[i - 1]));
                assert(texts(self.keys@) =~= before + more.take(i as int));
            }
        }
        proof {
            let all = before + more;
            assert(texts(self.keys@).len() == self.keys@.len());
            if self.capped {
                assert(texts(self.keys@) =~= all.take(KEY_SAMPLE_CAP as int));
            } else {
                assert(more.take(i as int) =~= more);
            }
        }
        self.cursor = next;
        if next == 0 || self.capped {
            Step::Done
        } else {
            Step::More
        }
    }

    /// The listing's result: the keys in name order.
    pub fn finish(self) -> (r: KeyList)
        ensures
            r.namespace == self.namespace,
            r.key_type == self.key_type,
            r.capped == self.capped,
            r.error is None,
            texts(r.keys@).to_multiset() == texts(self.keys@).to_multiset(),
            r.keys@.len() == self.keys@.len(),
            forall|i: int, j: int|
                #![trigger r.keys@[i], r.keys@[j]]
                0 <= i < j < r.keys@.len() ==> !lex_lt(r.keys@[j]@, r.keys@[i]@),
    {
        KeyList {
            namespace: self.namespace,
            key_type: self.key_type,
            keys: sort_names(self.keys),
            capped: self.capped,
            error: None,
        }
    }

    /// The result of a listing that failed: the keys found so far.
    pub fn fail(self, error: String) -> (r: KeyList)
        ensures
            r == (KeyList {
                namespace: self.namespace,
                key_type: self.key_type,
                keys: self.keys,
                capped: self.capped,
                error: Some(error),
            }),
    {
        KeyList {
            namespace: self.namespace,
            key_type: self.key_type,
            keys: self.keys,
            capped: self.capped,
            error: Some(error),
        }
    }
}


// ---------------------------------------------------------------------------
// Reading a value
// ---------------------------------------------------------------------------

/// The commands that describe a key: its type, its TTL and its size.
pub open spec fn probe_words(raw_key: Seq<u8>) -> Seq<Seq<Seq<u8>>> {
    seq![
        seq![encode_utf8("TYPE"@), raw_key],
        seq![encode_utf8("TTL"@), raw_key],
        seq![encode_utf8("MEMORY"@), encode_utf8("USAGE"@), raw_key],
    ]
}

/// The words of a command.
pub open spec fn words_of(v: Seq<Vec<u8>>) -> Seq<Seq<u8>> {
    Seq::new(v.len(), |i: int| v[i]@)
}

/// The words of each command.
pub open spec fn commands_of(v: Seq<Vec<Vec<u8>>>) -> Seq<Seq<Seq<u8>>> {
    Seq::new(v.len(), |i: int| words_of(v[i]@))
}

fn word(s: &str) -> (r: Vec<u8>)
    ensures
        r@ == encode_utf8(s@),
{
    s.as_bytes_vec()
}

fn copy_bytes(b: &Vec<u8>) -> (r: Vec<u8>)
    ensures
        r@ == b@,
{
    let mut r: Vec<u8> = Vec::new();
    let mut i: usize = 0;
    while i < b.len()
        invariant
            0 <= i <= b@.len(),
            r@ == b@.take(i as int),
        decreases b@.len() - i,
    {
        r.push(b[i]);
        i = i + 1;
        assert(b@.take(i as int) =~= b@.take(i - 1).push(b@[i - 1]));
    }
    assert(b@.take(i as int) =~= b@);
    r
}

/// The commands that describe a key: its type, its TTL and its size.
pub fn probe_commands(raw_key: &Vec<u8>) -> (r: Vec<Vec<Vec<u8>>>)
    ensures
        commands_of(r@) == probe_words(raw_key@),
{
    let mut a: Vec<Vec<u8>> = Vec::new();
    a.push(word("TYPE"));
    a.push(copy_bytes(raw_key));
    let mut b: Vec<Vec<u8>> = Vec::new();
    b.push(word("TTL"));
    b.push(copy_bytes(raw_key));
    let mut c: Vec<Vec<u8>> = Vec::new();
    c.push(word("MEMORY"));
    c.push(word("USAGE"));
    c.push(copy_bytes(raw_key));
    assert(words_of(a@) =~= probe_words(raw_key@)[0]);
    assert(words_of(b@) =~= probe_words(raw_key@)[1]);
    assert(words_of(c@) =~= probe_words(raw_key@)[2]);
    let mut r: Vec<Vec<Vec<u8>>> = Vec::new();
    r.push(a);
    r.push(b);
    r.push(c);
    assert(commands_of(r@) =~= probe_words(raw_key@));
    r
}

/// How a value of some type is read.
#[derive(Debug, Clone, Copy, PartialEq, Eq, Structural)]
pub enum Reading {
    Bytes,
    Members,
    Items,
    Fields,
    Scores,
    Missing,
    Unsupported,
}

/// How a value of the given Redis type is read.
pub open spec fn reading_of(redis_type: Seq<char>) -> Reading {
    if redis_type == "string"@ {
        Reading::Bytes
    } else if redis_type == "set"@ {
        Reading::Members
    } else if redis_type == "list"@ {
        Reading::Items
    } else if redis_type == "hash"@ {
        Reading::Fields
    } else if redis_type == "zset"@ {
        Reading::Scores
    } else if redis_type == "none"@ {
        Reading::Missing
    } else {
        Reading::Unsupported
    }
}

/// How a value of the given Redis type is read.
pub fn reading(redis_type: &str) -> (r: Reading)
    ensures
        r == reading_of(redis_type@),
{
    if same(redis_type, "string") {
        Reading::Bytes
    } else if same(redis_type, "set") {
        Reading::Members
    } else if same(redis_type, "list") {
        Reading::Items
    } else if same(redis_type, "hash") {
        Reading::Fields
    } else if same(redis_type, "zset") {
        Reading::Scores
    } else if same(redis_type, "none") {
        Reading::Missing
    } else {
        Reading::Unsupported
    }
}

/// The element cap for a collection: a share of the character cap, but never
/// below the display default.
pub open spec fn element_cap(cap: usize) -> nat {
    if cap / 32 > COLLECTION_CAP {
        (cap / 32) as nat
    } else {
        COLLECTION_CAP as nat
    }
}

/// The element cap for a collection given a body-character `cap`.
pub fn coll_cap(cap: usize) -> (r: usize)
    ensures
        r == element_cap(cap),
        COLLECTION_CAP <= r,
{
    let scaled: usize = cap / 32;
    if scaled > COLLECTION_CAP {
        scaled
    } else {
        COLLECTION_CAP
    }
}

/// The command that reads a value; none for a missing or unsupported one.
pub open spec fn read_words(how: Reading, raw_key: Seq<u8>, cap: usize) -> Seq<Seq<u8>> {
    let last = encode_utf8(dec((element_cap(cap) - 1) as nat));
    match how {
        Reading::Bytes => seq![encode_utf8("GET"@), raw_key],
        Reading::Members => seq![encode_utf8("SMEMBERS"@), raw_key],
        Reading::Items => seq![encode_utf8("LRANGE"@), raw_key, encode_utf8("0"@), last],
        Reading::Fields => seq![encode_utf8("HGETALL"@), raw_key],
        Reading::Scores => seq![
            encode_utf8("ZRANGE"@),
            raw_key,
            encode_utf8("0"@),
            last,
            encode_utf8("WITHSCORES"@),
        ],
        Reading::Missing => Seq::empty(),
        Reading::Unsupported => Seq::empty(),
    }
}

/// The command that reads a value; empty for a missing or unsupported one.
pub fn read_command(how: Reading, raw_key: &Vec<u8>, cap: usize) -> (r: Vec<Vec<u8>>)
    ensures
        words_of(r@) == read_words(how, raw_key@, cap),
{
    let last = word(decimal((coll_cap(cap) - 1) as u128).as_str());
    let mut r: Vec<Vec<u8>> = Vec::new();
    match how {
        Reading::Bytes => {
            r.push(word("GET"));
            r.push(copy_bytes(raw_key));
        },
        Reading::Members => {
            r.push(word("SMEMBERS"));
            r.push(copy_bytes(raw_key));
        },
        Reading::Items => {
            r.push(word("LRANGE"));
            r.push(copy_bytes(raw_key));
            r.push(word("0"));
            r.push(last);
        },
        Reading::Fields => {
            r.push(word("HGETALL"));
            r.push(copy_bytes(raw_key));
        },
        Reading::Scores => {
            r.push(word("ZRANGE"));
            r.push(copy_bytes(raw_key));
            r.push(word("0"));
            r.push(last);
            r.push(word("WITHSCORES"));
        },
        Reading::Missing => {},
        Reading::Unsupported => {},
    }
    assert(words_of(r@) =~= read_words(how, raw_key@, cap));
    r
}

/// The command that counts the elements of a value that is read in part only;
/// none for a value that is read whole.
pub open spec fn count_words(how: Reading, raw_key: Seq<u8>) -> Seq<Seq<u8>> {
    match how {
        Reading::Items => seq![encode_utf8("LLEN"@), raw_key],
        Reading::Scores => seq![encode_utf8("ZCARD"@), raw_key],
        _ => Seq::empty(),
    }
}

/// The command that counts the elements of a list or sorted set, of which only
/// the beginning is read; empty for any other value.
pub fn count_command(how: Reading, raw_key: &Vec<u8>) -> (r: Vec<Vec<u8>>)
    ensures
        words_of(r@) == count_words(how, raw_key@),
{
    let mut r: Vec<Vec<u8>> = Vec::new();
    match how {
        Reading::Items => {
            r.push(word("LLEN"));
            r.push(copy_bytes(raw_key));
        },
        Reading::Scores => {
            r.push(word("ZCARD"));
            r.push(copy_bytes(raw_key));
        },
        _ => {},
    }
    assert(words_of(r@) =~= count_words(how, raw_key@));
    r
}

/// A member of a sorted set and its score as text.
#[derive(Debug)]
pub struct Scored {
    pub member: Vec<u8>,
    pub score: String,
}

/// The note about the elements that a listing leaves out.
pub open spec fn rest_note(total: nat, shown: nat) -> Seq<char> {
    if total > shown {
        "\n… "@ + dec((total - shown) as nat) + " more (truncated)"@
    } else {
        Seq::empty()
    }
}

/// The listing of a set or list of `total` members that begins with `items`: at
/// most `limit` of them, one per line, and a note about the rest.
pub open spec fn members_text(items: Seq<Vec<u8>>, total: nat, limit: nat) -> Seq<char> {
    let shown = at_most(shown_keys(items), limit);
    joined(shown, "\n"@) + rest_note(total, shown.len())
}

/// The line of field `i` of a hash, given as fields and values in turn.
pub open spec fn field_line(flat: Seq<Vec<u8>>, i: int) -> Seq<char> {
    let name = lossy(flat[2 * i]@) + " = "@;
    if 2 * i + 1 < flat.len() {
        name + lossy(flat[2 * i + 1]@)
    } else {
        name
    }
}

/// The listing of a hash: at most `limit` fields, one per line, and a note
/// about the rest.
pub open spec fn fields_text(flat: Seq<Vec<u8>>, limit: nat) -> Seq<char> {
    let lines = Seq::new((flat.len() + 1) / 2, |i: int| field_line(flat, i));
    let body = joined(at_most(lines, limit), "\n"@);
    let n = flat.len() / 2;
    if n > limit {
        body + "\n… "@ + dec((n - limit) as nat) + " more fields (truncated)"@
    } else {
        body
    }
}

/// The listing of a sorted set of `total` members that begins with `items`:
/// score and member, one per line, and a note about the rest.
pub open spec fn scores_text(items: Seq<Scored>, total: nat) -> Seq<char> {
    joined(
        Seq::new(items.len(), |i: int| items[i].score@ + "  "@ + lossy(items[i].member@)),
        "\n"@,
    ) + rest_note(total, items.len())
}

fn rest_of(total: u64, shown: usize) -> (r: String)
    ensures
        r@ == rest_note(total as nat, shown as nat),
{
    let mut r = String::new();
    if total > shown as u64 {
        r.append("\n… ");
        r.append(decimal((total - shown as u64) as u128).as_str());
        r.append(" more (truncated)");
        assert(r@ =~= rest_note(total as nat, shown as nat));
    }
    r
}

fn members_body(items: &Vec<Vec<u8>>, total: u64, limit: usize) -> (r: String)
    ensures
        r@ == members_text(items@, total as nat, limit as nat),
{
    let n: usize = if items.len() > limit {
        limit
    } else {
        items.len()
    };
    let ghost want = at_most(shown_keys(items@), limit as nat);
    let mut lines: Vec<String> = Vec::new();
    let mut i: usize = 0;
    while i < n
        invariant
            0 <= i <= n <= items@.len(),
            lines@.len() == i,
            forall|k: int| 0 <= k < i ==> (#[trigger] lines@[k])@ == escaped(items@[k]@),
        decreases n - i,
    {
        lines.push(escape_key(&items[i]));
        i = i + 1;
    }
    assert(texts(lines@) =~= want);
    let mut r = join(&lines, "\n");
    r.append(rest_of(total, n).as_str());
    r
}

fn fields_body(flat: &Vec<Vec<u8>>, limit: usize) -> (r: String)
    ensures
        r@ == fields_text(flat@, limit as nat),
{
    let all: usize = flat.len() / 2 + flat.len() % 2;
    let n: usize = if all > limit {
        limit
    } else {
        all
    };
    let ghost want = at_most(
        Seq::new((flat@.len() + 1) / 2, |i: int| field_line(flat@, i)),
        limit as nat,
    );
    let mut lines: Vec<String> = Vec::new();
    let mut i: usize = 0;
    while i < n
        invariant
            0 <= i <= n <= all,
            all == flat@.len() / 2 + flat@.len() % 2,
            flat@.len() <= usize::MAX,
            lines@.len() == i,
            forall|k: int| 0 <= k < i ==> (#[trigger] lines@[k])@ == field_line(flat@, k),
        decreases n - i,
    {
        let mut line = from_utf8_lossy(&flat[2 * i]);
        line.append(" = ");
        if flat.len() - 2 * i > 1 {
            line.append(from_utf8_lossy(&flat[2 * i + 1]).as_str());
        }
        lines.push(line);
        i = i + 1;
    }
    assert(texts(lines@) =~= want);
    let mut r = join(&lines, "\n");
    let fields: usize = flat.len() / 2;
    if fields > limit {
        r.append("\n… ");
        r.append(decimal((fields - limit) as u128).as_str());
        r.append(" more fields (truncated)");
    }
    r
}

fn scores_body(items: &Vec<Scored>, total: u64) -> (r: String)
    ensures
        r@ == scores_text(items@, total as nat),
{
    let mut lines: Vec<String> = Vec::new();
    let mut i: usize = 0;
    while i < items.len()
        invariant
            0 <= i <= items@.len(),
            lines@.len() == i,
            forall|k: int|
                0 <= k < i ==> (#[trigger] lines@[k])@ == items@[k].score@ + "  "@ + lossy(
                    items@[k].member@,
                ),
        decreases items@.len() - i,
    {
        let mut line = items[i].score.clone();
        line.append("  ");
        line.append(from_utf8_lossy(&items[i].member).as_str());
        lines.push(line);
        i = i + 1;
    }
    assert(texts(lines@) =~= Seq::new(
        items@.len(),
        |i: int| items@[i].score@ + "  "@ + lossy(items@[i].member@),
    ));
    let mut r = join(&lines, "\n");
    r.append(rest_of(total, items.len()).as_str());
    r
}

/// `b` describes the same key as `a`.
pub open spec fn same_key(a: KeyValue, b: KeyValue) -> bool {
    &&& b.key == a.key
    &&& b.redis_type == a.redis_type
    &&& b.ttl == a.ttl
    &&& b.size_bytes == a.size_bytes
}

/// `b` is `a` with a listing of `n` elements.
pub open spec fn lists(a: KeyValue, b: KeyValue, n: nat, body: Seq<char>) -> bool {
    &&& same_key(a, b)
    &&& b.elements is Some
    &&& b.elements->0 == n
    &&& b.body@ == body
    &&& b.hex == a.hex
    &&& b.is_binary == a.is_binary
    &&& b.encoding == a.encoding
    &&& b.stream_offset == a.stream_offset
    &&& b.error == a.error
}

/// The error of a value that cannot be read.
pub open spec fn refusal(redis_type: Seq<char>) -> Option<Seq<char>> {
    match reading_of(redis_type) {
        Reading::Missing => Some("key does not exist (it may have expired)"@),
        Reading::Unsupported => Some("unsupported type: "@ + redis_type),
        _ => None,
    }
}

impl KeyValue {
    /// Nothing but the key's description is known yet. A value that cannot be
    /// read carries its error from the start.
    pub fn new(key: &str, redis_type: &str, ttl: Option<i64>, size_bytes: Option<u64>) -> (r: Self)
        ensures
            r.key@ == key@,
            r.redis_type@ == redis_type@,
            r.ttl == ttl,
            r.size_bytes == size_bytes,
            r.elements is None,
            r.body@ == Seq::<char>::empty(),
            r.hex is None,
            !r.is_binary,
            r.encoding is None,
            r.stream_offset is None,
            text_of(r.error) == refusal(redis_type@),
    {
        let error = match reading(redis_type) {
            Reading::Missing => Some("key does not exist (it may have expired)".to_owned()),
            Reading::Unsupported => {
                let mut e = "unsupported type: ".to_owned();
                e.append(redis_type);
                Some(e)
            },
            _ => None,
        };
        KeyValue {
            key: key.to_owned(),
            redis_type: redis_type.to_owned(),
            ttl,
            size_bytes,
            elements: None,
            body: String::new(),
            hex: None,
            is_binary: false,
            encoding: None,
            stream_offset: None,
            error,
        }
    }

    /// Take in a decoded string. Both renderings are kept; the UI picks one.
    pub fn take_decoded(&mut self, d: Decoded)
        ensures
            same_key(*old(self), *final(self)),
            final(self).elements == old(self).elements,
            final(self).body == d.text,
            final(self).hex == Some(d.hex),
            final(self).is_binary == d.is_binary,
            final(self).encoding == Some(d.encoding),
            final(self).stream_offset == d.stream_offset,
            final(self).error == old(self).error,
    {
        self.encoding = Some(d.encoding);
        self.stream_offset = d.stream_offset;
        self.is_binary = d.is_binary;
        self.body = d.text;
        self.hex = Some(d.hex);
    }

    /// Take in the bytes of a string value.
    pub fn take_bytes(&mut self, bytes: &Vec<u8>, cap: usize)
        ensures
            same_key(*old(self), *final(self)),
            final(self).elements == old(self).elements,
            final(self).error == old(self).error,
            final(self).encoding is Some,
            final(self).hex is Some,
            views(
                final(self).is_binary,
                final(self).body@,
                final(self).hex->0@,
                payload(bytes@),
                cap,
            ),
            match first_stream(bytes@, 0) {
                Some(at) => {
                    &&& final(self).encoding->0 == magic_at(bytes@, at as int)
                    &&& final(self).stream_offset is Some
                    &&& final(self).stream_offset->0 == at
                },
                None => {
                    &&& final(self).encoding->0 == Encoding::Plain
                    &&& final(self).stream_offset is None
                },
            },
    {
        let d = decode(bytes, cap);
        self.take_decoded(d);
    }

    /// Take in the members of a set.
    pub fn take_members(&mut self, items: &Vec<Vec<u8>>, cap: usize)
        ensures
            lists(
                *old(self),
                *final(self),
                items@.len(),
                members_text(items@, items@.len(), element_cap(cap)),
            ),
    {
        self.take_items(items, items.len() as u64, cap);
    }

    /// Take in the beginning of a list of `total` elements.
    pub fn take_items(&mut self, items: &Vec<Vec<u8>>, total: u64, cap: usize)
        ensures
            lists(
                *old(self),
                *final(self),
                total as nat,
                members_text(items@, total as nat, element_cap(cap)),
            ),
    {
        self.elements = Some(total);
        self.body = members_body(items, total, coll_cap(cap));
    }

    /// Take in the fields of a hash: names and values in turn.
    pub fn take_fields(&mut self, flat: &Vec<Vec<u8>>, cap: usize)
        ensures
            lists(
                *old(self),
                *final(self),
                flat@.len() / 2,
                fields_text(flat@, element_cap(cap)),
            ),
    {
        self.elements = Some((flat.len() / 2) as u64);
        self.body = fields_body(flat, coll_cap(cap));
    }

    /// Take in the beginning of a sorted set of `total` members.
    pub fn take_scores(&mut self, items: &Vec<Scored>, total: u64)
        ensures
            lists(*old(self), *final(self), total as nat, scores_text(items@, total as nat)),
    {
        self.elements = Some(total);
        self.body = scores_body(items, total);
    }

    /// Reading the value failed.
    pub fn take_error(&mut self, e: String)
        ensures
            *final(self) == (KeyValue { error: Some(e), ..*old(self) }),
    {
        self.error = Some(e);
    }
}

// ---------------------------------------------------------------------------
// The inbox
// ---------------------------------------------------------------------------

/// Nothing was requested yet.
pub open spec fn empty_inbox() -> Inbox {
    Inbox {
        key_list: None,
        key_value: None,
        loading: false,
        generation: 0,
        list_generation: 0,
        value_generation: 0,
    }
}

/// The slot that a request targets.
pub open spec fn target(req: Request) -> Slot {
    match req {
        Request::ListKeys { .. } => Slot::List,
        Request::GetValue { .. } => Slot::Value,
    }
}

/// The inbox after the request for `slot` was answered: nothing is in flight,
/// and the slot belongs to a new generation.
pub open spec fn closed(i: Inbox, slot: Slot) -> Inbox {
    let next = (i.generation + 1) as u64;
    Inbox {
        loading: false,
        generation: next,
        list_generation: if slot == Slot::List {
            next
        } else {
            i.list_generation
        },
        value_generation: if slot == Slot::Value {
            next
        } else {
            i.value_generation
        },
        ..i
    }
}

impl Request {
    /// The slot that the request targets.
    pub fn slot(&self) -> (r: Slot)
        ensures
            r == target(*self),
    {
        match self {
            Request::ListKeys { .. } => Slot::List,
            Request::GetValue { .. } => Slot::Value,
        }
    }
}

impl Inbox {
    /// Nothing was requested yet.
    pub fn new() -> (r: Self)
        ensures
            r == empty_inbox(),
    {
        Inbox {
            key_list: None,
            key_value: None,
            loading: false,
            generation: 0,
            list_generation: 0,
            value_generation: 0,
        }
    }

    /// A request was taken up.
    pub fn begin(&mut self)
        ensures
            *final(self) == (Inbox { loading: true, ..*old(self) }),
    {
        self.loading = true;
    }

    /// The request for `slot` was answered.
    pub fn close(&mut self, slot: Slot)
        requires
            old(self).generation < u64::MAX,
        ensures
            *final(self) == closed(*old(self), slot),
    {
        self.loading = false;
        self.generation = self.generation + 1;
        match slot {
            Slot::List => {
                self.list_generation = self.generation;
            },
            Slot::Value => {
                self.value_generation = self.generation;
            },
        }
    }

    /// A listing came back.
    pub fn put_list(&mut self, list: KeyList)
        requires
            old(self).generation < u64::MAX,
        ensures
            *final(self) == closed(
                (Inbox { key_list: Some(list), ..*old(self) }),
                Slot::List,
            ),
    {
        self.key_list = Some(list);
        self.close(Slot::List);
    }

    /// A value came back.
    pub fn put_value(&mut self, value: KeyValue)
        requires
            old(self).generation < u64::MAX,
        ensures
            *final(self) == closed(
                (Inbox { key_value: Some(value), ..*old(self) }),
                Slot::Value,
            ),
    {
        self.key_value = Some(value);
        self.close(Slot::Value);
    }
}

impl Default for Inbox {
    /// Nothing was requested yet.
    fn default() -> (r: Self)
        ensures
            r == empty_inbox(),
    {
        Inbox::new()
    }
}

/// A key list that carries nothing but an error.
pub open spec fn failed_list(
    l: KeyList,
    namespace: Seq<char>,
    key_type: Seq<char>,
    err: Seq<char>,
) -> bool {
    &&& l.namespace@ == namespace
    &&& l.key_type@ == key_type
    &&& l.keys@.len() == 0
    &&& !l.capped
    &&& text_of(l.error) == Some(err)
}

/// A value that carries nothing but an error.
pub open spec fn failed_value(v: KeyValue, key: Seq<char>, err: Seq<char>) -> bool {
    &&& v.key@ == key
    &&& v.redis_type@ == "unknown"@
    &&& v.ttl is None
    &&& v.size_bytes is None
    &&& v.elements is None
    &&& v.body@.len() == 0
    &&& v.hex is None
    &&& !v.is_binary
    &&& v.encoding is None
    &&& v.stream_offset is None
    &&& text_of(v.error) == Some(err)
}

/// The inbox after a request failed before it could be sent: the slot that the
/// request targets carries the error, and nothing else has changed.
pub open spec fn error_reported(before: Inbox, req: Request, err: Seq<char>, after: Inbox) -> bool {
    match req {
        Request::ListKeys { namespace, key_type } => {
            &&& after.key_list is Some
            &&& failed_list(after.key_list->0, namespace@, key_type@, err)
            &&& after == (Inbox { key_list: after.key_list, ..before })
        },
        Request::GetValue { key } => {
            &&& after.key_value is Some
            &&& failed_value(after.key_value->0, key@, err)
            &&& after == (Inbox { key_value: after.key_value, ..before })
        },
    }
}

/// Surface a connection error in whichever slot the request targets.
pub fn report_error(inbox: &mut Inbox, req: &Request, err: String)
    ensures
        error_reported(*old(inbox), *req, err@, *final(inbox)),
{
    match req {
        Request::ListKeys { namespace, key_type } => {
            inbox.key_list = Some(
                KeyList {
                    namespace: namespace.clone(),
                    key_type: key_type.clone(),
                    keys: Vec::new(),
                    capped: false,
                    error: Some(err),
                },
            );
        },
        Request::GetValue { key } => {
            let mut v = KeyValue::new(key.as_str(), "unknown", None, None);
            v.take_error(err);
            inbox.key_value = Some(v);
        },
    }
}

/// A text without the marker's readable form stays as it is when markers are
/// restored.
pub proof fn no_marker_to_restore(s: Seq<char>)
    requires
        !contains(s, "\\x01"@),
    ensures
        replace_all(s, "\\x01"@, "\u{1}"@) == s,
    decreases s.len(),
{
    let token = "\\x01"@;
    reveal_strlit("\\x01");
    if s.len() > 0 {
        assert(!starts_with(s, token)) by {
            if starts_with(s, token) {
                assert(occurs_at(s, token, 0));
            }
        }
        let rest = s.skip(1);
        assert(!contains(rest, token)) by {
            if contains(rest, token) {
                let i = choose|i: int| occurs_at(rest, token, i);
                assert(s.subrange(i + 1, i + 1 + token.len()) =~= rest.subrange(
                    i,
                    i + token.len(),
                ));
                assert(occurs_at(s, token, i + 1));
            }
        }
        no_marker_to_restore(rest);
        assert(seq![s[0]] + rest =~= s);
    }
}

} // verus!
