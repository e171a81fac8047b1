//! Key parsing: split a Redis key into a `namespace` and a normalized `type`.
//!
//! Shopware (and the Symfony cache it wraps) produce keys shaped like:
//!
//! ```text
//! WpDcVyo5fP:product-detail-route-1195e812ffd3266c2ed02a5d603d26f5-481ce4e8cb0b80a09beac0aaeea37457
//! WpDcVyo5fP:\x01tags\x01product-0f483ff8ad7735e5e2dc0f44728d7bdb
//! ```
//!
//! The first colon-delimited segment is the namespace (a random prefix per
//! install). What follows identifies the cache type; it is normalized by
//! stripping the trailing hash segments, so that the thousands of individual
//! product caches collapse into one `product-detail-route` bucket.

use crate::text::{
    chars_of, find_char, next_of, occurs, replace_char,
    replace_char_in, starts_with, string_of,
};
use vstd::prelude::*;
use vstd::utf8::{decode_utf8, encode_utf8, encode_utf8_decode_utf8, is_char_boundary};

verus! {

/// Result of parsing a single key.
#[derive(Debug, Clone, PartialEq, Eq)]
pub struct ParsedKey {
    pub namespace: String,
    pub key_type: String,
}

/// The readable form of a tag set's marker, kept in front of its type.
pub open spec fn tag_prefix() -> Seq<char> {
    "\\x01tags\\x01"@
}

/// `c` is an ASCII hexadecimal digit.
pub open spec fn is_hex(c: char) -> bool {
    ('0' <= c <= '9') || ('a' <= c <= 'f') || ('A' <= c <= 'F')
}

/// `s` looks like a hash: hex digits only, and long enough that short words
/// which happen to be hex ("face", "dead") are no hashes.
pub open spec fn is_hash(s: Seq<char>) -> bool {
    &&& s.len() >= 16
    &&& forall|i: int| 0 <= i < s.len() ==> is_hex(#[trigger] s[i])
}

/// The last position of `s` that holds `c`, or -1.
pub open spec fn last_of(s: Seq<char>, c: char) -> int
    decreases s.len(),
{
    if s.len() == 0 {
        -1
    } else if s.last() == c {
        s.len() - 1
    } else {
        last_of(s.drop_last(), c)
    }
}

/// `last_of` is the greatest position that holds the character.
proof fn last_of_is_last(s: Seq<char>, c: char)
    ensures
        -1 <= last_of(s, c) < s.len(),
        last_of(s, c) >= 0 ==> s[last_of(s, c)] == c,
        forall|j: int| last_of(s, c) < j < s.len() ==> s[j] != c,
    decreases s.len(),
{
    if s.len() > 0 && s.last() != c {
        last_of_is_last(s.drop_last(), c);
        assert forall|j: int| last_of(s, c) < j < s.len() implies s[j] != c by {
            if j < s.len() - 1 {
                assert(s.drop_last()[j] == s[j]);
            }
        }
    }
}

/// The characterisation determines `last_of`.
proof fn last_of_is_unique(s: Seq<char>, c: char, p: int)
    requires
        -1 <= p < s.len(),
        p >= 0 ==> s[p] == c,
        forall|j: int| p < j < s.len() ==> s[j] != c,
    ensures
        last_of(s, c) == p,
{
    last_of_is_last(s, c);
}

/// `s` without its trailing `-<hash>` segments; the first segment stays.
pub open spec fn stripped(s: Seq<char>) -> Seq<char>
    decreases s.len(),
{
    let p = last_of(s, '-');
    if 0 <= p < s.len() && is_hash(s.skip(p + 1)) {
        stripped(s.take(p))
    } else {
        s
    }
}

/// The bucket name for what stripping left over: a bare hash gets a generic
/// bucket, which keeps the number of buckets small.
pub open spec fn bucket(s: Seq<char>) -> Seq<char> {
    if last_of(s, '-') < 0 && is_hash(s) {
        "(hash)"@
    } else {
        s
    }
}

/// The stable type name of a key body. It is never empty: a body of nothing but
/// hashes goes to their bucket.
pub open spec fn type_of(body: Seq<char>) -> Seq<char> {
    if body.len() == 0 {
        "(no-type)"@
    } else if starts_with(body, tag_prefix()) {
        tag_prefix() + bucket(stripped(body.skip(tag_prefix().len() as int)))
    } else if stripped(body).len() == 0 {
        "(hash)"@
    } else {
        bucket(stripped(body))
    }
}

/// The key with the tag marker byte written as the readable token `\x01`.
pub open spec fn marked(key: Seq<char>) -> Seq<char> {
    replace_char(key, '\u{1}', "\\x01"@)
}

/// Where the namespace of a key without a colon ends, in bytes.
pub open spec fn cut_at(key: Seq<char>, namespace_len: nat) -> int {
    let n = encode_utf8(marked(key)).len();
    if namespace_len < n {
        namespace_len as int
    } else {
        n as int
    }
}

/// The namespace is what stands before the first colon; without a colon it is
/// the first `namespace_len` bytes.
pub open spec fn namespace_of(key: Seq<char>, namespace_len: nat) -> Seq<char> {
    let m = marked(key);
    let colon = next_of(m, ':', 0);
    if colon < m.len() {
        m.take(colon)
    } else {
        decode_utf8(encode_utf8(m).subrange(0, cut_at(key, namespace_len)))
    }
}

/// The body is what stands after the first colon.
pub open spec fn body_of(key: Seq<char>) -> Seq<char> {
    let m = marked(key);
    let colon = next_of(m, ':', 0);
    if colon < m.len() {
        m.skip(colon + 1)
    } else {
        Seq::empty()
    }
}

/// A key without a colon is cut between two characters.
pub open spec fn cuts_cleanly(key: Seq<char>, namespace_len: nat) -> bool {
    next_of(marked(key), ':', 0) < marked(key).len() || is_char_boundary(
        encode_utf8(marked(key)),
        cut_at(key, namespace_len),
    )
}

/// One more trailing hash changes nothing: all caches of one kind share a type.
pub proof fn hash_suffix_is_ignored(body: Seq<char>, hash: Seq<char>)
    requires
        body.len() > 0,
        is_hash(hash),
    ensures
        type_of(body.push('-') + hash) == type_of(body),
{
    let longer = body.push('-') + hash;
    let tag = tag_prefix();
    reveal_strlit("\\x01tags\\x01");
    if starts_with(longer, tag) {
        let k = tag.len() as int;
        if body.len() < k {
            assert(longer[body.len() as int] == '-');
            assert(longer.subrange(0, k)[body.len() as int] == '-');
            assert(false);
        }
        assert(body.subrange(0, k) =~= longer.subrange(0, k));
        assert(longer.skip(k) =~= body.skip(k).push('-') + hash);
        hash_is_stripped(body.skip(k), hash);
    } else {
        if starts_with(body, tag) {
            let k = tag.len() as int;
            assert(longer.subrange(0, k) =~= body.subrange(0, k));
        }
        hash_is_stripped(body, hash);
    }
}

proof fn hash_is_stripped(s: Seq<char>, hash: Seq<char>)
    requires
        is_hash(hash),
    ensures
        stripped(s.push('-') + hash) == stripped(s),
{
    let t = s.push('-') + hash;
    let p = s.len() as int;
    assert(t[p] == '-');
    assert forall|j: int| p < j < t.len() implies t[j] != '-' by {
        assert(t[j] == hash[j - p - 1]);
        assert(is_hex(hash[j - p - 1]));
    }
    last_of_is_unique(t, '-', p);
    assert(t.skip(p + 1) =~= hash);
    assert(t.take(p) =~= s);
}

/// Stripping leaves nothing more to strip.
proof fn stripped_is_stable(s: Seq<char>)
    ensures
        stripped(stripped(s)) == stripped(s),
        stripped(s).len() <= s.len(),
        stripped(s) == s.take(stripped(s).len() as int),
    decreases s.len(),
{
    let p = last_of(s, '-');
    if 0 <= p < s.len() && is_hash(s.skip(p + 1)) {
        stripped_is_stable(s.take(p));
        assert(s.take(p).take(stripped(s).len() as int) =~= s.take(stripped(s).len() as int));
    } else {
        assert(s.take(s.len() as int) =~= s);
    }
}

/// What stripping takes away begins with a dash.
pub proof fn stripped_ends_at_dash(s: Seq<char>)
    ensures
        stripped(s).len() <= s.len(),
        stripped(s) == s.take(stripped(s).len() as int),
        stripped(s).len() < s.len() ==> s[stripped(s).len() as int] == '-',
    decreases s.len(),
{
    stripped_is_stable(s);
    let p = last_of(s, '-');
    last_of_is_last(s, '-');
    if 0 <= p < s.len() && is_hash(s.skip(p + 1)) {
        stripped_ends_at_dash(s.take(p));
    }
}

/// A type name is its own type name: normalizing twice changes nothing.
pub proof fn type_of_is_stable(body: Seq<char>)
    ensures
        type_of(type_of(body)) == type_of(body),
{
    let tag = tag_prefix();
    reveal_strlit("\\x01tags\\x01");
    reveal_strlit("(hash)");
    reveal_strlit("(no-type)");
    let t = type_of(body);
    if body.len() == 0 {
        let s = "(no-type)"@;
        last_of_is_unique(s, '-', 3);
        assert(s.skip(4).len() < 16);
        assert(s.subrange(0, 9)[0] == '(');
        assert(!starts_with(s, tag));
    } else {
        let tagged = starts_with(body, tag);
        let k = tag.len() as int;
        let rest = if tagged {
            body.skip(k)
        } else {
            body
        };
        let s = stripped(rest);
        stripped_is_stable(rest);
        let b = if !tagged && s.len() == 0 {
            "(hash)"@
        } else {
            bucket(s)
        };
        bucket_is_stable(s);
        bucket_of_hashes_is_stable();
        if tagged {
            assert(t.subrange(0, k) =~= tag);
            assert(t.skip(k) =~= b);
        } else {
            assert(!starts_with(b, tag)) by {
                if starts_with(b, tag) {
                    if b == s {
                        assert(body.subrange(0, k) =~= s.subrange(0, k));
                    } else {
                        assert(b.len() < k);
                    }
                }
            }
        }
    }
}

proof fn bucket_of_hashes_is_stable()
    ensures
        stripped("(hash)"@) == "(hash)"@,
        bucket("(hash)"@) == "(hash)"@,
{
    reveal_strlit("(hash)");
    last_of_is_unique("(hash)"@, '-', -1);
}

proof fn bucket_is_stable(s: Seq<char>)
    requires
        stripped(s) == s,
    ensures
        bucket(stripped(bucket(s))) == bucket(s),
{
    bucket_of_hashes_is_stable();
}

/// A type name is how the key bodies of that type begin, so that they can be
/// found again by it. The buckets for bare hashes and for keys without a body
/// are the exceptions.
pub proof fn type_begins_its_bodies(body: Seq<char>)
    requires
        body.len() > 0,
        !crate::text::ends_with(type_of(body), "(hash)"@),
    ensures
        starts_with(body, type_of(body)),
{
    let tag = tag_prefix();
    let h = "(hash)"@;
    let tagged = starts_with(body, tag);
    let k = if tagged {
        tag.len() as int
    } else {
        0
    };
    let rest = if tagged {
        body.skip(k)
    } else {
        body
    };
    let s = stripped(rest);
    stripped_is_stable(rest);
    let t = type_of(body);
    if (!tagged && s.len() == 0) || (last_of(s, '-') < 0 && is_hash(s)) {
        assert(t.subrange(t.len() - h.len(), t.len() as int) =~= h);
    }
    let n = t.len() as int;
    if tagged {
        assert(body.subrange(0, n) =~= tag + s) by {
            assert(body.subrange(0, k) == tag);
            assert forall|i: int| 0 <= i < n implies body.subrange(0, n)[i] == (tag + s)[i] by {
                if i < k {
                    assert(body.subrange(0, k)[i] == body[i]);
                } else {
                    assert(s[i - k] == rest.take(s.len() as int)[i - k]);
                }
            }
        }
    } else {
        assert(body.subrange(0, n) =~= body.take(n));
    }
}

/// The readable form of a key parses as the raw key does: an already escaped
/// marker passes through unchanged.
pub proof fn marked_is_stable(key: Seq<char>)
    ensures
        marked(marked(key)) == marked(key),
{
    reveal_strlit("\\x01");
    no_marker_left(key);
    without_marker_unchanged(marked(key));
}

pub(crate) proof fn no_marker_left(key: Seq<char>)
    ensures
        forall|i: int| 0 <= i < marked(key).len() ==> marked(key)[i] != '\u{1}',
    decreases key.len(),
{
    reveal_strlit("\\x01");
    if key.len() > 0 {
        let front = marked(key.drop_last());
        no_marker_left(key.drop_last());
        assert forall|i: int| 0 <= i < marked(key).len() implies marked(key)[i] != '\u{1}' by {
            if i < front.len() {
                assert(marked(key)[i] == front[i]);
            } else if key.last() == '\u{1}' {
                assert(marked(key)[i] == "\\x01"@[i - front.len()]);
            }
        }
    }
}

proof fn without_marker_unchanged(key: Seq<char>)
    requires
        forall|i: int| 0 <= i < key.len() ==> key[i] != '\u{1}',
    ensures
        marked(key) == key,
    decreases key.len(),
{
    if key.len() > 0 {
        without_marker_unchanged(key.drop_last());
        assert(key.drop_last().push(key.last()) =~= key);
    }
}

/// Whether `v[from..to]` looks like a hash.
fn hash_between(v: &Vec<char>, from: usize, to: usize) -> (r: bool)
    requires
        from <= to <= v@.len(),
    ensures
        r == is_hash(v@.subrange(from as int, to as int)),
{
    if to - from < 16 {
        return false;
    }
    let ghost s = v@.subrange(from as int, to as int);
    let mut i: usize = from;
    while i < to
        invariant
            from <= i <= to <= v@.len(),
            s == v@.subrange(from as int, to as int),
            forall|j: int| 0 <= j < i - from ==> is_hex(#[trigger] s[j]),
        decreases to - i,
    {
        let c = v[i];
        assert(s[i - from] == c);
        let hex: bool = ('0' <= c && c <= '9') || ('a' <= c && c <= 'f') || ('A' <= c && c <= 'F');
        if !hex {
            return false;
        }
        i = i + 1;
    }
    true
}

/// Whether `s` looks like a hash segment.
pub fn is_hash_segment(s: &str) -> (r: bool)
    ensures
        r == is_hash(s@),
{
    let v = chars_of(s);
    assert(v@.subrange(0, v@.len() as int) =~= s@);
    let n: usize = v.len();
    hash_between(&v, 0, n)
}

/// Where `v[from..to]` ends once its trailing hash segments are gone, and
/// whether it holds a dash.
fn strip(v: &Vec<char>, from: usize) -> (r: (usize, bool))
    requires
        from <= v@.len(),
    ensures
        from <= r.0 <= v@.len(),
        v@.subrange(from as int, r.0 as int) == stripped(v@.skip(from as int)),
        r.1 == (last_of(stripped(v@.skip(from as int)), '-') >= 0),
{
    let mut to: usize = v.len();
    assert(v@.subrange(from as int, to as int) =~= v@.skip(from as int));
    loop
        invariant
            from <= to <= v@.len(),
            stripped(v@.subrange(from as int, to as int)) == stripped(v@.skip(from as int)),
        decreases to,
    {
        let ghost s = v@.subrange(from as int, to as int);
        // Find the last dash.
        let mut p: usize = to;
        while p > from && v[p - 1] != '-'
            invariant
                from <= p <= to <= v@.len(),
                s == v@.subrange(from as int, to as int),
                forall|j: int| p - from <= j < s.len() ==> s[j] != '-',
            decreases p,
        {
            p = p - 1;
        }
        if p == from {
            proof {
                last_of_is_unique(s, '-', -1);
            }
            return (to, false);
        }
        proof {
            last_of_is_unique(s, '-', p - from - 1);
            assert(s.skip(p - from) =~= v@.subrange(p as int, to as int));
            assert(s.take(p - from - 1) =~= v@.subrange(from as int, p - 1));
        }
        if !hash_between(v, p, to) {
            return (to, true);
        }
        to = p - 1;
    }
}

/// Strip trailing hash segments from the key body to derive a stable type name.
///
/// `product-detail-route-<hash>-<hash>` -> `product-detail-route`
/// `\x01tags\x01product-<hash>`         -> `\x01tags\x01product`
pub fn normalize_type(body: &str) -> (r: String)
    ensures
        r@ == type_of(body@),
        r@.len() > 0,
{
    proof {
        reveal_strlit("(hash)");
        reveal_strlit("(no-type)");
        reveal_strlit("\\x01tags\\x01");
    }
    let v = chars_of(body);
    if v.len() == 0 {
        return "(no-type)".to_owned();
    }
    let tag = chars_of("\\x01tags\\x01");
    let tagged = occurs(&v, &tag, 0);
    let from: usize = if tagged {
        tag.len()
    } else {
        0
    };
    let mut r = if tagged {
        "\\x01tags\\x01".to_owned()
    } else {
        String::new()
    };
    let (to, dashed) = strip(&v, from);
    assert(v@.skip(0) =~= v@);
    if (!tagged && to == 0) || (!dashed && hash_between(&v, from, to)) {
        r.append("(hash)");
    } else {
        r.append(string_of(&v, from, to).as_str());
    }
    assert(r@ =~= type_of(body@));
    r
}

/// Whether a key without a colon is cut between two characters.
pub fn is_cut_clean(key: &str, namespace_len: usize) -> (r: bool)
    ensures
        r == cuts_cleanly(key@, namespace_len as nat),
{
    let text = replace_char_in(key, '\u{1}', "\\x01");
    let v = chars_of(text.as_str());
    if find_char(&v, ':', 0) < v.len() {
        return true;
    }
    let n: usize = text.as_str().as_bytes().len();
    let k: usize = if namespace_len < n {
        namespace_len
    } else {
        n
    };
    text.as_str().is_char_boundary(k)
}

/// Split a raw key into namespace and normalized type.
///
/// `namespace_len` is how many leading bytes of the key are the namespace when
/// there is no colon.
pub fn parse_key(key: &str, namespace_len: usize) -> (r: ParsedKey)
    requires
        cuts_cleanly(key@, namespace_len as nat),
    ensures
        r.namespace@ == namespace_of(key@, namespace_len as nat),
        r.key_type@ == type_of(body_of(key@)),
{
    let text = replace_char_in(key, '\u{1}', "\\x01");
    let v = chars_of(text.as_str());
    let colon = find_char(&v, ':', 0);
    if colon < v.len() {
        let namespace = string_of(&v, 0, colon);
        let body = string_of(&v, colon + 1, v.len());
        assert(namespace@ =~= namespace_of(key@, namespace_len as nat));
        assert(body@ =~= body_of(key@));
        ParsedKey { namespace, key_type: normalize_type(body.as_str()) }
    } else {
        let n: usize = text.as_str().as_bytes().len();
        let k: usize = if namespace_len < n {
            namespace_len
        } else {
            n
        };
        let (head, _) = text.as_str().split_at(k);
        proof {
            encode_utf8_decode_utf8(head@);
            reveal_strlit("");
        }
        let namespace = head.to_owned();
        assert(""@ =~= body_of(key@));
        ParsedKey { namespace, key_type: normalize_type("") }
    }
}

// ---------------------------------------------------------------------------
// Laws
// ---------------------------------------------------------------------------

/// A body whose last segment is no hash keeps all of its segments: nothing but
/// trailing hashes of at least sixteen hexadecimal digits is taken away.
pub proof fn only_hashes_are_stripped(front: Seq<char>, segment: Seq<char>)
    requires
        !segment.contains('-'),
        segment.len() < 16 || exists|i: int|
            0 <= i < segment.len() && !({
                let c = #[trigger] segment[i];
                ('0' <= c <= '9') || ('a' <= c <= 'f') || ('A' <= c <= 'F')
            }),
    ensures
        ({
            let body = front.push('-') + segment;
            &&& !starts_with(body, "\\x01tags\\x01"@) ==> type_of(body) == body
            &&& starts_with(body, "\\x01tags\\x01"@) && front.len() >= 12 ==> type_of(body) == body
        }),
        segment.len() > 0 && !starts_with(segment, "\\x01tags\\x01"@) ==> type_of(segment) == segment,
{
    reveal_strlit("\\x01tags\\x01");
    let body = front.push('-') + segment;
    let p = front.len() as int;
    assert(!is_hash(segment)) by {
        if segment.len() >= 16 {
            let i = choose|i: int|
                0 <= i < segment.len() && !({
                    let c = #[trigger] segment[i];
                    ('0' <= c <= '9') || ('a' <= c <= 'f') || ('A' <= c <= 'F')
                });
            assert(!is_hex(segment[i]));
        }
    }
    no_dash_in(segment);
    assert(body[p] == '-');
    assert forall|j: int| p < j < body.len() implies body[j] != '-' by {
        assert(body[j] == segment[j - p - 1]);
        assert(segment.contains(segment[j - p - 1]));
    }
    last_of_is_unique(body, '-', p);
    assert(body.skip(p + 1) =~= segment);
    assert(stripped(body) == body);
    assert(stripped(segment) == segment);
    if starts_with(body, tag_prefix()) && front.len() >= 12 {
        let k = tag_prefix().len() as int;
        let rest = body.skip(k);
        assert(rest[p - k] == '-');
        assert forall|j: int| p - k < j < rest.len() implies rest[j] != '-' by {
            assert(rest[j] == body[j + k]);
        }
        last_of_is_unique(rest, '-', p - k);
        assert(rest.skip(p - k + 1) =~= segment);
        assert(stripped(rest) == rest);
        assert(tag_prefix() + rest =~= body) by {
            assert(body.subrange(0, k) =~= tag_prefix());
            assert(body =~= body.subrange(0, k) + rest);
        }
    }
}

proof fn no_dash_in(s: Seq<char>)
    requires
        !s.contains('-'),
    ensures
        last_of(s, '-') == -1,
{
    assert forall|j: int| -1 < j < s.len() implies s[j] != '-' by {
        assert(s.contains(s[j]));
    }
    last_of_is_unique(s, '-', -1);
}

/// At least sixteen hexadecimal digits are a hash, and a body that is one goes
/// to the bucket for hashes, behind the tag marker too.
pub proof fn hashes_share_a_bucket(hash: Seq<char>)
    requires
        hash.len() >= 16,
        forall|i: int|
            0 <= i < hash.len() ==> ({
                let c = #[trigger] hash[i];
                ('0' <= c <= '9') || ('a' <= c <= 'f') || ('A' <= c <= 'F')
            }),
    ensures
        is_hash(hash),
        type_of(hash) == "(hash)"@,
        type_of("\\x01tags\\x01"@ + hash) == "\\x01tags\\x01"@ + "(hash)"@,
        type_of(Seq::<char>::empty()) == "(no-type)"@,
{
    reveal_strlit("\\x01tags\\x01");
    let tag = tag_prefix();
    assert forall|i: int| 0 <= i < hash.len() implies is_hex(#[trigger] hash[i]) by {
        let c = hash[i];
        assert(('0' <= c <= '9') || ('a' <= c <= 'f') || ('A' <= c <= 'F'));
    }
    assert forall|j: int| -1 < j < hash.len() implies hash[j] != '-' by {
        assert(is_hex(hash[j]));
    }
    last_of_is_unique(hash, '-', -1);
    assert(stripped(hash) == hash);
    assert(!starts_with(hash, tag)) by {
        if starts_with(hash, tag) {
            assert(hash.subrange(0, 12)[0] == hash[0]);
            assert(is_hex(hash[0]));
        }
    }
    assert((tag + hash).subrange(0, 12) =~= tag);
    assert((tag + hash).skip(12) =~= hash);
}

/// Hash after hash is taken away, down to what stands before the first of them,
/// behind the tag marker too.
pub proof fn tagged_types_keep_their_marker(body: Seq<char>, hash: Seq<char>)
    requires
        is_hash(hash),
        body.len() > 0,
    ensures
        type_of(body.push('-') + hash) == type_of(body),
        type_of(("\\x01tags\\x01"@ + body).push('-') + hash) == type_of("\\x01tags\\x01"@ + body),
{
    reveal_strlit("\\x01tags\\x01");
    hash_suffix_is_ignored(body, hash);
    hash_suffix_is_ignored("\\x01tags\\x01"@ + body, hash);
}

/// What stands before the first colon of a key is its namespace, and what
/// follows is its body; without a colon there is no body.
pub proof fn first_colon_ends_the_namespace(
    ns: Seq<char>,
    body: Seq<char>,
    namespace_len: nat,
    bare: Seq<char>,
)
    requires
        !ns.contains(':'),
        !ns.contains('\u{1}'),
        !body.contains('\u{1}'),
        !bare.contains(':'),
    ensures
        namespace_of(ns.push(':') + body, namespace_len) == ns,
        body_of(ns.push(':') + body) == body,
        body_of(bare).len() == 0,
{
    let key = ns.push(':') + body;
    assert forall|i: int| 0 <= i < key.len() implies key[i] != '\u{1}' by {
        if i < ns.len() {
            assert(ns.contains(ns[i]));
        } else if i > ns.len() {
            assert(body.contains(body[i - ns.len() - 1]));
        }
    }
    without_marker_unchanged(key);
    crate::text::next_of_is_first(key, ':', 0);
    let d = next_of(key, ':', 0);
    assert(key[ns.len() as int] == ':');
    if d < ns.len() {
        assert(ns.contains(ns[d]));
    }
    assert(key.take(ns.len() as int) =~= ns);
    assert(key.skip(ns.len() as int + 1) =~= body);
    let m = marked(bare);
    crate::text::next_of_is_first(m, ':', 0);
    if next_of(m, ':', 0) < m.len() {
        no_colon_comes(bare, next_of(m, ':', 0));
    }
}

/// Writing out markers brings no colon in.
proof fn no_colon_comes(key: Seq<char>, i: int)
    requires
        !key.contains(':'),
        0 <= i < marked(key).len(),
    ensures
        marked(key)[i] != ':',
    decreases key.len(),
{
    reveal_strlit("\\x01");
    if key.len() > 0 {
        let front = key.drop_last();
        assert(!front.contains(':')) by {
            if front.contains(':') {
                let j = choose|j: int| 0 <= j < front.len() && front[j] == ':';
                assert(key[j] == ':');
            }
        }
        assert(key[key.len() - 1] == key.last());
        if i < marked(front).len() {
            no_colon_comes(front, i);
            assert(marked(key)[i] == marked(front)[i]);
        } else if key.last() == '\u{1}' {
            assert(marked(key)[i] == "\\x01"@[i - marked(front).len()]);
        }
    }
}

/// Without a colon the namespace is the first `namespace_len` bytes of the key,
/// or the whole key if it is shorter.
pub proof fn bare_keys_are_cut_by_length(key: Seq<char>, namespace_len: nat)
    requires
        !key.contains(':'),
        !key.contains('\u{1}'),
    ensures
        namespace_len >= encode_utf8(key).len() ==> encode_utf8(
            namespace_of(key, namespace_len),
        ) == encode_utf8(key),
        namespace_len < encode_utf8(key).len() ==> namespace_of(key, namespace_len) == decode_utf8(
            encode_utf8(key).take(namespace_len as int),
        ),
{
    assert forall|i: int| 0 <= i < key.len() implies key[i] != '\u{1}' by {
        assert(key.contains(key[i]));
    }
    without_marker_unchanged(key);
    crate::text::next_of_is_first(key, ':', 0);
    if next_of(key, ':', 0) < key.len() {
        assert(key.contains(key[next_of(key, ':', 0)]));
    }
    let e = encode_utf8(key);
    assert(e.subrange(0, e.len() as int) =~= e);
    encode_utf8_decode_utf8(key);
    if namespace_len < e.len() {
        assert(e.subrange(0, namespace_len as int) =~= e.take(namespace_len as int));
    }
}

/// A key with a colon can always be cut.
pub proof fn keys_with_a_colon_are_cut_cleanly(
    ns: Seq<char>,
    body: Seq<char>,
    namespace_len: nat,
)
    ensures
        cuts_cleanly(ns.push(':') + body, namespace_len),
{
    let key = ns.push(':') + body;
    let m = marked(key);
    crate::text::next_of_is_first(m, ':', 0);
    colon_stays(key, ns.len() as int);
}

/// Writing out markers keeps the colons.
proof fn colon_stays(key: Seq<char>, i: int)
    requires
        0 <= i < key.len(),
        key[i] == ':',
    ensures
        marked(key).contains(':'),
        next_of(marked(key), ':', 0) < marked(key).len(),
    decreases key.len(),
{
    let m = marked(key);
    crate::text::next_of_is_first(m, ':', 0);
    if i == key.len() - 1 {
        assert(m.last() == ':');
        assert(m[m.len() - 1] == ':');
    } else {
        let f = key.drop_last();
        colon_stays(f, i);
        let j = choose|j: int| 0 <= j < marked(f).len() && marked(f)[j] == ':';
        assert(m[j] == ':');
    }
}

} // verus!
