//! Text primitives over sequences of characters.
//!
//! Every function here is specified on the `Seq<char>` view of a string, so the
//! rest of the crate can state its contracts without talking about bytes.

use vstd::prelude::*;
use vstd::utf8::{decode_utf8, valid_utf8};

verus! {

/// `String::push` appends the given character to the end of the string.
pub assume_specification[ String::push ](s: &mut String, c: char)
    ensures
        final(s)@ == old(s)@.push(c),
;

// ---------------------------------------------------------------------------
// Comparison
// ---------------------------------------------------------------------------

/// Lexicographic order by code point, the order of Rust strings.
pub open spec fn lex_lt(a: Seq<char>, b: Seq<char>) -> bool
    decreases a.len(),
{
    if b.len() == 0 {
        false
    } else if a.len() == 0 {
        true
    } else if a[0] != b[0] {
        a[0] < b[0]
    } else {
        lex_lt(a.drop_first(), b.drop_first())
    }
}

/// No string comes before itself.
pub proof fn lex_irreflexive(a: Seq<char>)
    ensures
        !lex_lt(a, a),
    decreases a.len(),
{
    if a.len() > 0 {
        lex_irreflexive(a.drop_first());
    }
}

/// The order is transitive.
pub proof fn lex_transitive(a: Seq<char>, b: Seq<char>, c: Seq<char>)
    requires
        lex_lt(a, b),
        lex_lt(b, c),
    ensures
        lex_lt(a, c),
    decreases a.len(),
{
    if a.len() > 0 && a[0] == b[0] && b[0] == c[0] {
        lex_transitive(a.drop_first(), b.drop_first(), c.drop_first());
    }
}

/// Two different strings are always ordered one way or the other.
pub proof fn lex_total(a: Seq<char>, b: Seq<char>)
    ensures
        lex_lt(a, b) || lex_lt(b, a) || a == b,
    decreases a.len(),
{
    if a.len() > 0 && b.len() > 0 {
        if a[0] == b[0] {
            lex_total(a.drop_first(), b.drop_first());
            assert(a =~= seq![a[0]] + a.drop_first());
            assert(b =~= seq![b[0]] + b.drop_first());
        }
    } else if a.len() == 0 && b.len() == 0 {
        assert(a =~= b);
    }
}

/// How one string relates to another in the lexicographic order.
#[derive(Clone, Copy, PartialEq, Eq, Structural, Debug)]
pub enum Rank {
    Before,
    Same,
    After,
}

/// Compare two strings.
pub fn rank(a: &str, b: &str) -> (r: Rank)
    ensures
        r is Before <==> lex_lt(a@, b@),
        r is Same <==> a@ == b@,
        r is After <==> lex_lt(b@, a@),
{
    let mut x = a.chars();
    let mut y = b.chars();
    let ghost mut left: nat = a@.len();
    loop
        invariant
            lex_lt(
                vstd::std_specs::iter::IteratorSpec::remaining(&x),
                vstd::std_specs::iter::IteratorSpec::remaining(&y),
            ) == lex_lt(a@, b@),
            lex_lt(
                vstd::std_specs::iter::IteratorSpec::remaining(&y),
                vstd::std_specs::iter::IteratorSpec::remaining(&x),
            ) == lex_lt(b@, a@),
            (vstd::std_specs::iter::IteratorSpec::remaining(&x)
                == vstd::std_specs::iter::IteratorSpec::remaining(&y)) == (a@ == b@),
            vstd::std_specs::iter::IteratorSpec::remaining(&x).len() == left,
        decreases left,
    {
        let ghost xs = vstd::std_specs::iter::IteratorSpec::remaining(&x);
        let ghost ys = vstd::std_specs::iter::IteratorSpec::remaining(&y);
        let p = x.next();
        let q = y.next();
        match (p, q) {
            (None, None) => {
                assert(xs =~= ys);
                proof {
                    lex_irreflexive(a@);
                }
                return Rank::Same;
            },
            (None, Some(_)) => {
                return Rank::Before;
            },
            (Some(_), None) => {
                return Rank::After;
            },
            (Some(c), Some(d)) => {
                if c != d {
                    assert(xs[0] != ys[0]);
                    return if c < d {
                        Rank::Before
                    } else {
                        Rank::After
                    };
                }
                assert(xs =~= seq![c] + xs.drop_first());
                assert(ys =~= seq![d] + ys.drop_first());
                proof {
                    left = (left - 1) as nat;
                }
            },
        }
    }
}

/// Whether two strings hold the same characters.
pub fn same(a: &str, b: &str) -> (r: bool)
    ensures
        r == (a@ == b@),
{
    match rank(a, b) {
        Rank::Same => true,
        _ => false,
    }
}

// ---------------------------------------------------------------------------
// Characters in and out
// ---------------------------------------------------------------------------

/// The characters of a string.
pub fn chars_of(s: &str) -> (r: Vec<char>)
    ensures
        r@ == s@,
{
    let mut r: Vec<char> = Vec::new();
    for c in it: s.chars()
        invariant
            r@ == s@.take(it.index()),
            it.seq() == s@,
    {
        r.push(c);
        assert(s@.take(it.index() + 1) =~= s@.take(it.index() as int).push(c));
    }
    assert(s@.take(s@.len() as int) =~= s@);
    r
}

/// The string made of `v[from..to]`.
pub fn string_of(v: &Vec<char>, from: usize, to: usize) -> (r: String)
    requires
        from <= to <= v@.len(),
    ensures
        r@ == v@.subrange(from as int, to as int),
{
    let mut r = String::new();
    let mut i: usize = from;
    while i < to
        invariant
            from <= i <= to <= v@.len(),
            r@ == v@.subrange(from as int, i as int),
        decreases to - i,
    {
        r.push(v[i]);
        i = i + 1;
        assert(v@.subrange(from as int, i as int) =~= v@.subrange(from as int, i - 1).push(
            v@[i - 1],
        ));
    }
    r
}

// ---------------------------------------------------------------------------
// Searching
// ---------------------------------------------------------------------------

/// `p` stands in `s` at position `i`.
pub open spec fn occurs_at(s: Seq<char>, p: Seq<char>, i: int) -> bool {
    &&& 0 <= i
    &&& i + p.len() <= s.len()
    &&& s.subrange(i, i + p.len()) == p
}

/// `s` begins with `p`.
pub open spec fn starts_with(s: Seq<char>, p: Seq<char>) -> bool {
    occurs_at(s, p, 0)
}

/// `s` ends with `p`.
pub open spec fn ends_with(s: Seq<char>, p: Seq<char>) -> bool {
    occurs_at(s, p, s.len() - p.len())
}

/// `p` stands somewhere in `s`.
pub open spec fn contains(s: Seq<char>, p: Seq<char>) -> bool {
    exists|i: int| occurs_at(s, p, i)
}

/// Whether `p` stands in `s` at position `i`.
pub fn occurs(s: &Vec<char>, p: &Vec<char>, i: usize) -> (r: bool)
    ensures
        r == occurs_at(s@, p@, i as int),
{
    if p.len() > s.len() || i > s.len() - p.len() {
        return false;
    }
    let mut k: usize = 0;
    while k < p.len()
        invariant
            i + p@.len() <= s.len(),
            0 <= k <= p@.len(),
            forall|j: int| 0 <= j < k ==> s@[i + j] == #[trigger] p@[j],
        decreases p@.len() - k,
    {
        if s[i + k] != p[k] {
            assert(s@.subrange(i as int, i + p@.len())[k as int] != p@[k as int]);
            return false;
        }
        k = k + 1;
    }
    assert(s@.subrange(i as int, i + p@.len()) =~= p@);
    true
}

/// The first position at or after `from` where `p` stands in `s`.
pub fn find(s: &Vec<char>, p: &Vec<char>, from: usize) -> (r: Option<usize>)
    requires
        from <= s@.len(),
    ensures
        match r {
            Some(i) => from <= i && occurs_at(s@, p@, i as int) && forall|j: int|
                from <= j < i ==> !occurs_at(s@, p@, j),
            None => forall|j: int| from <= j ==> !occurs_at(s@, p@, j),
        },
{
    let mut i: usize = from;
    while i < s.len()
        invariant
            from <= i <= s@.len(),
            forall|j: int| from <= j < i ==> !occurs_at(s@, p@, j),
        decreases s@.len() - i,
    {
        if occurs(s, p, i) {
            return Some(i);
        }
        i = i + 1;
    }
    if occurs(s, p, i) {
        return Some(i);
    }
    None
}

/// Whether `p` stands somewhere in `s`.
pub fn contains_text(s: &str, p: &str) -> (r: bool)
    ensures
        r == contains(s@, p@),
{
    let v = chars_of(s);
    let w = chars_of(p);
    match find(&v, &w, 0) {
        Some(i) => {
            assert(occurs_at(s@, p@, i as int));
            true
        },
        None => false,
    }
}

/// The first position at or after `from` that holds `c`, or `s.len()`.
pub open spec fn next_of(s: Seq<char>, c: char, from: int) -> int
    decreases s.len() - from,
{
    if from >= s.len() || from < 0 {
        s.len() as int
    } else if s[from] == c {
        from
    } else {
        next_of(s, c, from + 1)
    }
}

/// `next_of` is the least position that holds the character.
pub proof fn next_of_is_first(s: Seq<char>, c: char, from: int)
    requires
        0 <= from <= s.len(),
    ensures
        from <= next_of(s, c, from) <= s.len(),
        next_of(s, c, from) < s.len() ==> s[next_of(s, c, from)] == c,
        forall|j: int| from <= j < next_of(s, c, from) ==> s[j] != c,
    decreases s.len() - from,
{
    if from < s.len() && s[from] != c {
        next_of_is_first(s, c, from + 1);
    }
}

/// The first position at or after `from` that holds `c`, or the length.
pub fn find_char(s: &Vec<char>, c: char, from: usize) -> (r: usize)
    requires
        from <= s@.len(),
    ensures
        r == next_of(s@, c, from as int),
        from <= r <= s@.len(),
        r < s@.len() ==> s@[r as int] == c,
        forall|j: int| from <= j < r ==> s@[j] != c,
{
    let mut i: usize = from;
    while i < s.len() && s[i] != c
        invariant
            from <= i <= s@.len(),
            next_of(s@, c, from as int) == next_of(s@, c, i as int),
        decreases s@.len() - i,
    {
        i = i + 1;
    }
    proof {
        next_of_is_first(s@, c, from as int);
    }
    i
}

// ---------------------------------------------------------------------------
// Replacing
// ---------------------------------------------------------------------------

/// `s` with every `c` turned into `with`.
pub open spec fn replace_char(s: Seq<char>, c: char, with: Seq<char>) -> Seq<char>
    decreases s.len(),
{
    if s.len() == 0 {
        Seq::empty()
    } else if s.last() == c {
        replace_char(s.drop_last(), c, with) + with
    } else {
        replace_char(s.drop_last(), c, with).push(s.last())
    }
}

/// Turn every `c` of `s` into `with`.
pub fn replace_char_in(s: &str, c: char, with: &str) -> (r: String)
    ensures
        r@ == replace_char(s@, c, with@),
{
    let mut r = String::new();
    let v = chars_of(s);
    let mut i: usize = 0;
    assert(v@.take(0) =~= Seq::<char>::empty());
    while i < v.len()
        invariant
            0 <= i <= v@.len(),
            r@ == replace_char(v@.take(i as int), c, with@),
        decreases v@.len() - i,
    {
        if v[i] == c {
            r.append(with);
        } else {
            r.push(v[i]);
        }
        i = i + 1;
        assert(v@.take(i as int).drop_last() =~= v@.take(i - 1));
    }
    assert(v@.take(i as int) =~= s@);
    r
}

/// `s` with every occurrence of `pat`, taken from the left without overlap,
/// turned into `with`.
pub open spec fn replace_all(s: Seq<char>, pat: Seq<char>, with: Seq<char>) -> Seq<char>
    decreases s.len(),
{
    if s.len() == 0 || pat.len() == 0 {
        s
    } else if starts_with(s, pat) {
        with + replace_all(s.skip(pat.len() as int), pat, with)
    } else {
        seq![s[0]] + replace_all(s.skip(1), pat, with)
    }
}

/// Turn every occurrence of `pat` in `s` into `with`.
pub fn replace_all_in(s: &str, pat: &str, with: &str) -> (r: String)
    requires
        pat@.len() > 0,
    ensures
        r@ == replace_all(s@, pat@, with@),
{
    let mut r = String::new();
    let v = chars_of(s);
    let p = chars_of(pat);
    let mut i: usize = 0;
    assert(v@.skip(0) =~= v@);
    assert(r@ + replace_all(v@.skip(0), p@, with@) =~= replace_all(v@, p@, with@));
    while i < v.len()
        invariant
            0 <= i <= v@.len(),
            p@ == pat@,
            p@.len() > 0,
            r@ + replace_all(v@.skip(i as int), p@, with@) == replace_all(v@, p@, with@),
        decreases v@.len() - i,
    {
        let ghost rest = v@.skip(i as int);
        let ghost before = r@;
        if occurs(&v, &p, i) {
            assert(rest.subrange(0, p@.len() as int) =~= v@.subrange(i as int, i + p@.len()));
            assert(rest.skip(p@.len() as int) =~= v@.skip(i + p@.len()));
            r.append(with);
            i = i + p.len();
            assert(r@ + replace_all(v@.skip(i as int), p@, with@) =~= before + (with@
                + replace_all(v@.skip(i as int), p@, with@)));
        } else {
            proof {
                if starts_with(rest, p@) {
                    assert(v@.subrange(i as int, i + p@.len()) =~= rest.subrange(
                        0,
                        p@.len() as int,
                    ));
                }
            }
            assert(rest.skip(1) =~= v@.skip(i + 1));
            r.push(v[i]);
            i = i + 1;
            assert(r@ + replace_all(v@.skip(i as int), p@, with@) =~= before + (seq![rest[0]]
                + replace_all(v@.skip(i as int), p@, with@)));
        }
    }
    assert(r@ + replace_all(v@.skip(i as int), p@, with@) =~= r@);
    r
}

// ---------------------------------------------------------------------------
// Numbers
// ---------------------------------------------------------------------------

/// The decimal digit `d`, for `d` below ten.
pub open spec fn digit(d: nat) -> char {
    (48 + d) as char
}

/// `n` in decimal, without leading zeros.
pub open spec fn dec(n: nat) -> Seq<char>
    decreases n,
{
    if n < 10 {
        seq![digit(n)]
    } else {
        dec(n / 10).push(digit(n % 10))
    }
}

/// Write `n` in decimal.
pub fn decimal(n: u128) -> (r: String)
    ensures
        r@ == dec(n as nat),
    decreases n,
{
    let last: u8 = (n % 10) as u8;
    let mut r = if n < 10 {
        String::new()
    } else {
        decimal(n / 10)
    };
    r.push((48u8 + last) as char);
    assert(n < 10 ==> r@ =~= seq![digit(n as nat)]);
    r
}

/// `c` is an ASCII decimal digit.
pub open spec fn is_digit(c: char) -> bool {
    '0' <= c <= '9'
}

/// The number that a row of decimal digits denotes.
pub open spec fn value_of(s: Seq<char>) -> nat
    decreases s.len(),
{
    if s.len() == 0 {
        0
    } else {
        value_of(s.drop_last()) * 10 + (s.last() as int - 48) as nat
    }
}

/// The digits of `s` after an optional leading plus sign.
pub open spec fn unsigned(s: Seq<char>) -> Seq<char> {
    if s.len() > 0 && s[0] == '+' {
        s.skip(1)
    } else {
        s
    }
}

/// The `u64` that `s` denotes: an optional plus sign and at least one decimal
/// digit, in range. Anything else is not a number.
pub open spec fn number(s: Seq<char>) -> Option<u64> {
    let d = unsigned(s);
    if d.len() > 0 && (forall|i: int| 0 <= i < d.len() ==> is_digit(#[trigger] d[i])) && value_of(d)
        <= u64::MAX {
        Some(value_of(d) as u64)
    } else {
        None
    }
}

proof fn value_of_grows(s: Seq<char>, k: int)
    requires
        0 <= k <= s.len(),
    ensures
        value_of(s.take(k)) <= value_of(s),
    decreases s.len(),
{
    if k == s.len() {
        assert(s.take(k) =~= s);
    } else {
        value_of_grows(s.drop_last(), k);
        assert(s.drop_last().take(k) =~= s.take(k));
    }
}

/// Read a `u64` written in decimal.
pub fn parse_number(v: &Vec<char>) -> (r: Option<u64>)
    ensures
        r == number(v@),
{
    let start: usize = if v.len() > 0 && v[0] == '+' {
        1
    } else {
        0
    };
    let ghost d = unsigned(v@);
    assert(d =~= v@.skip(start as int));
    if v.len() == start {
        return None;
    }
    let mut n: u64 = 0;
    let mut i: usize = start;
    assert(d.take(0) =~= Seq::<char>::empty());
    while i < v.len()
        invariant
            start <= i <= v@.len(),
            d == v@.skip(start as int),
            d == unsigned(v@),
            d.len() > 0,
            forall|j: int| 0 <= j < i - start ==> is_digit(#[trigger] d[j]),
            n == value_of(d.take(i - start)),
        decreases v@.len() - i,
    {
        let c = v[i];
        let ghost k = i - start;
        assert(d[k] == c);
        if c < '0' || c > '9' {
            return None;
        }
        let x: u64 = (c as u32 - 48) as u64;
        assert(d.take(k + 1).drop_last() =~= d.take(k));
        assert(value_of(d.take(k + 1)) == n * 10 + x);
        if n > (u64::MAX - x) / 10 {
            proof {
                value_of_grows(d, k + 1);
            }
            return None;
        }
        n = n * 10 + x;
        i = i + 1;
    }
    assert(d.take(i - start) =~= d);
    Some(n)
}


// ---------------------------------------------------------------------------
// Joining
// ---------------------------------------------------------------------------

/// The text of an optional string.
pub open spec fn text_of(s: Option<String>) -> Option<Seq<char>> {
    match s {
        Some(t) => Some(t@),
        None => None,
    }
}

/// The texts of a row of strings.
pub open spec fn texts(v: Seq<String>) -> Seq<Seq<char>> {
    Seq::new(v.len(), |i: int| v[i]@)
}

/// `parts` with `sep` between each two.
pub open spec fn joined(parts: Seq<Seq<char>>, sep: Seq<char>) -> Seq<char>
    decreases parts.len(),
{
    if parts.len() == 0 {
        Seq::empty()
    } else if parts.len() == 1 {
        parts[0]
    } else {
        joined(parts.drop_last(), sep) + sep + parts.last()
    }
}

/// Join `parts` with `sep` between each two.
pub fn join(parts: &Vec<String>, sep: &str) -> (r: String)
    ensures
        r@ == joined(texts(parts@), sep@),
{
    let mut r = String::new();
    let mut i: usize = 0;
    let ghost t = texts(parts@);
    while i < parts.len()
        invariant
            0 <= i <= parts@.len(),
            t == texts(parts@),
            r@ == joined(t.take(i as int), sep@),
        decreases parts@.len() - i,
    {
        if i > 0 {
            r.append(sep);
        }
        r.append(parts[i].as_str());
        i = i + 1;
        assert(t.take(i as int).drop_last() =~= t.take(i - 1));
        assert(r@ =~= joined(t.take(i as int), sep@));
    }
    assert(t.take(i as int) =~= t);
    r
}


// ---------------------------------------------------------------------------
// Blanks
// ---------------------------------------------------------------------------

/// `c` has the Unicode property `White_Space`.
pub open spec fn is_space(c: char) -> bool {
    let n = c as u32;
    ||| 9 <= n <= 13
    ||| n == 0x20
    ||| n == 0x85
    ||| n == 0xA0
    ||| n == 0x1680
    ||| 0x2000 <= n <= 0x200A
    ||| n == 0x2028
    ||| n == 0x2029
    ||| n == 0x202F
    ||| n == 0x205F
    ||| n == 0x3000
}

/// `s` without its leading blanks.
pub open spec fn trim_left(s: Seq<char>) -> Seq<char>
    decreases s.len(),
{
    if s.len() > 0 && is_space(s[0]) {
        trim_left(s.skip(1))
    } else {
        s
    }
}

/// `s` without its trailing blanks.
pub open spec fn trim_right(s: Seq<char>) -> Seq<char>
    decreases s.len(),
{
    if s.len() > 0 && is_space(s.last()) {
        trim_right(s.drop_last())
    } else {
        s
    }
}

/// `s` without blanks at either end.
pub open spec fn trimmed(s: Seq<char>) -> Seq<char> {
    trim_right(trim_left(s))
}

fn blank(c: char) -> (r: bool)
    ensures
        r == is_space(c),
{
    let n: u32 = c as u32;
    (9 <= n && n <= 13) || n == 0x20 || n == 0x85 || n == 0xA0 || n == 0x1680 || (0x2000 <= n && n
        <= 0x200A) || n == 0x2028 || n == 0x2029 || n == 0x202F || n == 0x205F || n == 0x3000
}

/// The bounds of `v[from..to]` without blanks at either end.
pub fn trim_bounds(v: &Vec<char>, from: usize, to: usize) -> (r: (usize, usize))
    requires
        from <= to <= v@.len(),
    ensures
        from <= r.0 <= r.1 <= to,
        v@.subrange(r.0 as int, r.1 as int) == trimmed(v@.subrange(from as int, to as int)),
{
    let mut i: usize = from;
    while i < to && blank(v[i])
        invariant
            from <= i <= to <= v@.len(),
            trim_left(v@.subrange(from as int, to as int)) == trim_left(
                v@.subrange(i as int, to as int),
            ),
        decreases to - i,
    {
        assert(v@.subrange(i as int, to as int).skip(1) =~= v@.subrange(i + 1, to as int));
        i = i + 1;
    }
    assert(trim_left(v@.subrange(from as int, to as int)) == v@.subrange(i as int, to as int));
    let mut j: usize = to;
    while j > i && blank(v[j - 1])
        invariant
            i <= j <= to <= v@.len(),
            trim_right(v@.subrange(i as int, to as int)) == trim_right(
                v@.subrange(i as int, j as int),
            ),
        decreases j,
    {
        assert(v@.subrange(i as int, j as int).drop_last() =~= v@.subrange(i as int, j - 1));
        j = j - 1;
    }
    (i, j)
}


// ---------------------------------------------------------------------------
// Padding
// ---------------------------------------------------------------------------

/// `n` blanks.
pub open spec fn blanks(n: nat) -> Seq<char> {
    Seq::new(n, |i: int| ' ')
}

/// `n` blanks.
pub fn spaces(n: usize) -> (r: String)
    ensures
        r@ == blanks(n as nat),
{
    let mut r = String::new();
    let mut i: usize = 0;
    while i < n
        invariant
            0 <= i <= n,
            r@ == blanks(i as nat),
        decreases n - i,
    {
        r.push(' ');
        i = i + 1;
        assert(r@ =~= blanks(i as nat));
    }
    r
}


/// `s` with blanks after it up to a width of `n` characters.
pub open spec fn padded_right(s: Seq<char>, n: nat) -> Seq<char> {
    if s.len() < n {
        s + blanks((n - s.len()) as nat)
    } else {
        s
    }
}

/// `s` with blanks before it up to a width of `n` characters.
pub open spec fn padded_left(s: Seq<char>, n: nat) -> Seq<char> {
    if s.len() < n {
        blanks((n - s.len()) as nat) + s
    } else {
        s
    }
}

/// `s` if it has at most `max` characters, else its beginning and an ellipsis.
pub open spec fn truncated(s: Seq<char>, max: nat) -> Seq<char> {
    if s.len() <= max {
        s
    } else if max == 0 {
        "…"@
    } else {
        s.take(max - 1) + "…"@
    }
}

/// Put blanks after `s` up to a width of `n` characters.
pub fn pad_right(s: &str, n: usize) -> (r: String)
    ensures
        r@ == padded_right(s@, n as nat),
{
    let len: usize = chars_of(s).len();
    let mut r = s.to_owned();
    if len < n {
        r.append(spaces(n - len).as_str());
    }
    r
}

/// Put blanks before `s` up to a width of `n` characters.
pub fn pad_left(s: &str, n: usize) -> (r: String)
    ensures
        r@ == padded_left(s@, n as nat),
{
    let len: usize = chars_of(s).len();
    if len < n {
        let mut r = spaces(n - len);
        r.append(s);
        r
    } else {
        s.to_owned()
    }
}

/// Keep `s` if it has at most `max` characters, else cut it with an ellipsis.
pub fn truncate(s: &str, max: usize) -> (r: String)
    ensures
        r@ == truncated(s@, max as nat),
{
    let v = chars_of(s);
    if v.len() <= max {
        s.to_owned()
    } else if max == 0 {
        "…".to_owned()
    } else {
        let mut r = string_of(&v, 0, max - 1);
        assert(r@ =~= s@.take(max - 1));
        r.append("…");
        r
    }
}

/// A shortened text is never wider than it may be, unless there is no room for
/// the ellipsis.
pub proof fn truncated_fits(s: Seq<char>, max: nat)
    requires
        max > 0,
    ensures
        truncated(s, max).len() <= max,
        s.len() <= max ==> truncated(s, max) == s,
{
    reveal_strlit("…");
}

/// What `str::to_lowercase` makes of `s`.
pub uninterp spec fn lowercase(s: Seq<char>) -> Seq<char>;

/// `str::to_lowercase`: the text depends on the string alone, and nothing comes
/// of nothing.
#[verifier::external_body]
pub(crate) fn to_lowercase(s: &str) -> (r: String)
    ensures
        r@ == lowercase(s@),
        s@.len() == 0 ==> r@.len() == 0,
{
    s.to_lowercase()
}

/// What `String::from_utf8_lossy` makes of `bytes`.
pub uninterp spec fn lossy(bytes: Seq<u8>) -> Seq<char>;

/// `String::from_utf8_lossy`: the text depends on the bytes alone, and valid
/// UTF-8 is decoded without loss.
#[verifier::external_body]
pub(crate) fn from_utf8_lossy(bytes: &Vec<u8>) -> (r: String)
    ensures
        r@ == lossy(bytes@),
        valid_utf8(bytes@) ==> r@ == decode_utf8(bytes@),
{
    String::from_utf8_lossy(bytes).into_owned()
}

// ---------------------------------------------------------------------------
// Laws
// ---------------------------------------------------------------------------

/// The first difference decides which of two strings comes first, and without
/// one the shorter string does.
pub proof fn first_difference_decides(a: Seq<char>, b: Seq<char>, k: int)
    requires
        0 <= k <= a.len(),
        k <= b.len(),
        forall|j: int| 0 <= j < k ==> a[j] == b[j],
        k == a.len() || k == b.len() || a[k] != b[k],
    ensures
        k < a.len() && k < b.len() ==> lex_lt(a, b) == (a[k] < b[k]),
        k == a.len() ==> lex_lt(a, b) == (a.len() < b.len()),
        k == b.len() ==> !lex_lt(a, b),
    decreases k,
{
    if k > 0 {
        assert(a[0] == b[0]);
        assert forall|j: int| 0 <= j < k - 1 implies a.drop_first()[j] == b.drop_first()[j] by {
            assert(a[j + 1] == b[j + 1]);
        }
        first_difference_decides(a.drop_first(), b.drop_first(), k - 1);
    }
}

/// A number in decimal has digits alone, no zero in front of others, and reads
/// back as the number.
pub proof fn decimal_reads_back(n: nat)
    ensures
        dec(n).len() > 0,
        forall|i: int| 0 <= i < dec(n).len() ==> '0' <= #[trigger] dec(n)[i] && dec(n)[i] <= '9',
        n > 0 ==> dec(n)[0] != '0',
        value_of(dec(n)) == n,
        n < 10 ==> dec(n).len() == 1 && dec(n)[0] as u32 == 48 + n,
    decreases n,
{
    if n >= 10 {
        decimal_reads_back(n / 10);
        let front = dec(n / 10);
        assert(dec(n).drop_last() =~= front);
        assert(dec(n)[0] == front[0]);
        assert forall|i: int| 0 <= i < dec(n).len() implies '0' <= #[trigger] dec(n)[i] && dec(n)[i]
            <= '9' by {
            if i < front.len() {
                assert(dec(n)[i] == front[i]);
            }
        }
    } else {
        assert(dec(n).drop_last() =~= Seq::<char>::empty());
        assert(value_of(dec(n).drop_last()) == 0);
    }
}

/// One more digit makes a number ten times as large, and adds the digit.
pub proof fn digits_count_tenfold(s: Seq<char>, c: char)
    requires
        '0' <= c <= '9',
    ensures
        value_of(s.push(c)) == 10 * value_of(s) + (c as u32 - '0' as u32),
        value_of(Seq::<char>::empty()) == 0,
{
    assert(s.push(c).drop_last() =~= s);
}

/// What is written in decimal is read as the same number, with or without a
/// plus sign; nothing else than digits is a number, nor is nothing.
pub proof fn numbers_are_read_back(n: u64, s: Seq<char>)
    ensures
        number(dec(n as nat)) == Some(n),
        number(seq!['+'] + dec(n as nat)) == Some(n),
        number(s) is Some ==> s.len() > 0 && forall|i: int|
            0 <= i < s.len() ==> ('0' <= #[trigger] s[i] && s[i] <= '9') || (i == 0 && s[i] == '+'),
{
    let d = dec(n as nat);
    decimal_reads_back(n as nat);
    assert forall|i: int| 0 <= i < d.len() implies is_digit(#[trigger] d[i]) by {
        assert('0' <= d[i] && d[i] <= '9');
    }
    assert(d[0] != '+') by {
        assert('0' <= d[0] && d[0] <= '9');
    }
    assert((seq!['+'] + d).skip(1) =~= d);
    if number(s) is Some {
        let u = unsigned(s);
        assert forall|i: int| 0 <= i < s.len() implies ('0' <= #[trigger] s[i] && s[i] <= '9') || (i
            == 0 && s[i] == '+') by {
            if s[0] == '+' {
                if i > 0 {
                    assert(is_digit(u[i - 1]));
                }
            } else {
                assert(is_digit(u[i]));
            }
        }
    }
}

/// Replacing a character goes character by character: every other one stays,
/// and each occurrence becomes the replacement.
pub proof fn replacing_goes_by_characters(a: Seq<char>, b: Seq<char>, x: char, c: char, with: Seq<char>)
    ensures
        replace_char(a + b, c, with) == replace_char(a, c, with) + replace_char(b, c, with),
        replace_char(seq![x], c, with) == (if x == c {
            with
        } else {
            seq![x]
        }),
        replace_char(Seq::<char>::empty(), c, with) == Seq::<char>::empty(),
    decreases b.len(),
{
    let r = replace_char(a, c, with);
    assert(seq![x].drop_last() =~= Seq::<char>::empty());
    assert(replace_char(Seq::<char>::empty(), c, with) =~= Seq::<char>::empty());
    assert(Seq::<char>::empty() + with =~= with);
    assert(replace_char(seq![x], c, with) =~= (if x == c {
        with
    } else {
        seq![x]
    }));
    if b.len() == 0 {
        assert(a + b =~= a);
        assert(r + replace_char(b, c, with) =~= r);
    } else {
        replacing_goes_by_characters(a, b.drop_last(), x, c, with);
        assert((a + b).drop_last() =~= a + b.drop_last());
        assert((a + b).last() == b.last());
        let y = replace_char(b.drop_last(), c, with);
        assert((r + y) + with =~= r + (y + with));
        assert((r + y).push(b.last()) =~= r + y.push(b.last()));
    }
}

/// Joined parts are the parts in order with the separator between each two.
pub proof fn joining_goes_part_by_part(parts: Seq<Seq<char>>, more: Seq<char>, sep: Seq<char>)
    ensures
        joined(Seq::<Seq<char>>::empty(), sep) == Seq::<char>::empty(),
        parts.len() == 0 ==> joined(parts.push(more), sep) == more,
        parts.len() > 0 ==> joined(parts.push(more), sep) == joined(parts, sep) + sep + more,
{
    assert(parts.push(more).drop_last() =~= parts);
}

/// Trimming leaves a part of the text that neither begins nor ends with a
/// blank, and takes away blanks alone.
pub proof fn trimming_takes_blanks(s: Seq<char>) -> (r: (int, int))
    ensures
        0 <= r.0 <= r.1 <= s.len(),
        trimmed(s) == s.subrange(r.0, r.1),
        forall|i: int| 0 <= i < r.0 ==> is_space(#[trigger] s[i]),
        forall|i: int| r.1 <= i < s.len() ==> is_space(#[trigger] s[i]),
        r.0 < r.1 ==> !is_space(s[r.0]) && !is_space(s[r.1 - 1]),
{
    let a = left_end(s);
    let t = trim_left(s);
    let b = right_end(t);
    assert(t == s.skip(a));
    assert(t.take(b) =~= s.subrange(a, a + b));
    assert forall|i: int| a + b <= i < s.len() implies is_space(#[trigger] s[i]) by {
        assert(t[i - a] == s[i]);
    }
    (a, a + b)
}

proof fn left_end(s: Seq<char>) -> (k: int)
    ensures
        0 <= k <= s.len(),
        trim_left(s) == s.skip(k),
        forall|i: int| 0 <= i < k ==> is_space(#[trigger] s[i]),
        k < s.len() ==> !is_space(s[k]),
    decreases s.len(),
{
    if s.len() > 0 && is_space(s[0]) {
        let k = left_end(s.skip(1));
        assert(s.skip(1).skip(k) =~= s.skip(k + 1));
        assert forall|i: int| 0 <= i < k + 1 implies is_space(#[trigger] s[i]) by {
            if i > 0 {
                assert(s.skip(1)[i - 1] == s[i]);
            }
        }
        k + 1
    } else {
        assert(s.skip(0) =~= s);
        0
    }
}

proof fn right_end(s: Seq<char>) -> (k: int)
    ensures
        0 <= k <= s.len(),
        trim_right(s) == s.take(k),
        forall|i: int| k <= i < s.len() ==> is_space(#[trigger] s[i]),
        0 < k ==> !is_space(s[k - 1]),
    decreases s.len(),
{
    if s.len() > 0 && is_space(s.last()) {
        let k = right_end(s.drop_last());
        assert(s.drop_last().take(k) =~= s.take(k));
        assert forall|i: int| k <= i < s.len() implies is_space(#[trigger] s[i]) by {
            if i < s.len() - 1 {
                assert(s.drop_last()[i] == s[i]);
            }
        }
        k
    } else {
        assert(s.take(s.len() as int) =~= s);
        s.len() as int
    }
}

/// Padding keeps the text at its side, fills with blanks, and reaches exactly
/// the width unless the text is wider.
pub proof fn padding_fills_with_blanks(s: Seq<char>, n: nat)
    ensures
        padded_right(s, n).len() == (if s.len() < n {
            n
        } else {
            s.len()
        }),
        padded_left(s, n).len() == padded_right(s, n).len(),
        padded_right(s, n).take(s.len() as int) == s,
        padded_left(s, n).skip(padded_left(s, n).len() - s.len()) == s,
        forall|i: int| s.len() <= i < n ==> #[trigger] padded_right(s, n)[i] == ' ',
        forall|i: int| 0 <= i < n - s.len() ==> #[trigger] padded_left(s, n)[i] == ' ',
{
    assert(padded_right(s, n).take(s.len() as int) =~= s);
    assert(padded_left(s, n).skip(padded_left(s, n).len() - s.len()) =~= s);
}

/// A shortened text is as wide as it may be, begins as the text does, and ends
/// in an ellipsis; one that fits is kept.
pub proof fn shortened_text_keeps_its_beginning(s: Seq<char>, max: nat)
    requires
        max > 0,
    ensures
        s.len() <= max ==> truncated(s, max) == s,
        s.len() > max ==> {
            &&& truncated(s, max).len() == max
            &&& truncated(s, max).take(max - 1) == s.take(max - 1)
            &&& truncated(s, max)[max - 1] == '…'
        },
{
    reveal_strlit("…");
    if s.len() > max {
        assert(truncated(s, max).take(max - 1) =~= s.take(max - 1));
    }
}

} // verus!
