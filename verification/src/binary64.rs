//! Ratios and percentages in IEEE 754 double precision, on integers alone.
//!
//! A double is a mantissa of 53 bits and a power of two. The quotient of two
//! counters is rounded to the nearest such number, ties to the even mantissa,
//! and a percentage is printed from its exact value, so the text is the same
//! wherever it is computed. The values that occur here are far from the ends
//! of the exponent range.

use crate::text::{dec, decimal};
use vstd::arithmetic::power2::{
    lemma2_to64, lemma_pow2_adds, lemma_pow2_pos, lemma_pow2_strictly_increases,
    lemma_pow2_unfold, pow2,
};
use vstd::prelude::*;

verus! {

/// The least mantissa of a normal number.
pub const LEAST: u64 = 0x10_0000_0000_0000;

/// Every mantissa is below this.
pub const LIMIT: u64 = 0x20_0000_0000_0000;

/// `m` times two to the power of `e`.
pub struct Real {
    pub m: nat,
    pub e: int,
}

/// A double: `mantissa` times two to the power of `exponent`.
#[derive(Debug, Clone, Copy, PartialEq, Eq)]
pub struct Binary64 {
    pub mantissa: u64,
    pub exponent: i32,
}

impl View for Binary64 {
    type V = Real;

    open spec fn view(&self) -> Real {
        Real { m: self.mantissa as nat, e: self.exponent as int }
    }
}

/// The integer nearest to `n / d`, ties to even.
pub open spec fn round_even(n: nat, d: nat) -> nat {
    let q = n / d;
    let r = n % d;
    if 2 * r < d || (2 * r == d && q % 2 == 0) {
        q
    } else {
        q + 1
    }
}

/// The double nearest to `n / d`, ties to the even mantissa.
pub open spec fn nearest(n: nat, d: nat) -> Real
    decreases
            (if n == 0 || d == 0 {
                0
            } else if n < LEAST * d {
                LEAST * d - n
            } else if n >= LIMIT * d {
                n - LIMIT * d + 1
            } else {
                0
            }),
{
    if n == 0 || d == 0 {
        Real { m: 0, e: 0 }
    } else if n < LEAST * d {
        let r = nearest(2 * n, d);
        Real { m: r.m, e: r.e - 1 }
    } else if n >= LIMIT * d {
        let r = nearest(n, 2 * d);
        Real { m: r.m, e: r.e + 1 }
    } else {
        Real { m: round_even(n, d), e: 0 }
    }
}

/// The double nearest to the quotient of two doubles.
pub open spec fn quotient(x: Real, y: Real) -> Real {
    let r = nearest(x.m, y.m);
    Real { m: r.m, e: r.e + x.e - y.e }
}

/// The double nearest to a multiple of a double.
pub open spec fn multiple(x: Real, k: nat) -> Real {
    let r = nearest(x.m * k, 1);
    Real { m: r.m, e: r.e + x.e }
}

/// The share of `part` in `whole`.
pub open spec fn share(part: nat, whole: nat) -> Real {
    quotient(nearest(part, 1), nearest(whole, 1))
}

/// The integer nearest to `n` times two to the power of `e`, ties to even.
pub open spec fn round_scaled(n: nat, e: int) -> nat {
    if e >= 0 {
        n * pow2(e as nat)
    } else {
        round_even(n, pow2((-e) as nat))
    }
}

/// `x` with one decimal.
pub open spec fn one_decimal(x: Real) -> Seq<char> {
    let t = round_scaled(10 * x.m, x.e);
    dec(t / 10) + "."@ + dec(t % 10)
}

/// `x` without decimals.
pub open spec fn no_decimals(x: Real) -> Seq<char> {
    dec(round_scaled(x.m, x.e))
}

/// `part` as a percentage of `whole`, with one decimal.
pub open spec fn pct_text(part: nat, whole: nat) -> Seq<char> {
    if whole == 0 {
        "0.0%"@
    } else {
        one_decimal(multiple(share(part, whole), 100)) + "%"@
    }
}

/// `x` is at least `m` times two to the power of minus 53.
pub open spec fn at_least(x: Real, m: nat) -> bool {
    if x.e >= -53 {
        x.m * pow2((x.e + 53) as nat) >= m
    } else {
        x.m >= m * pow2((-53 - x.e) as nat)
    }
}

/// The number one.
pub open spec fn one() -> Real {
    Real { m: LEAST as nat, e: -52 }
}

/// A bound on an exponent from a bound on its power.
proof fn exponent_below(k: nat, bound: nat)
    requires
        pow2(k) < pow2(bound),
    ensures
        k < bound,
{
    if k > bound {
        lemma_pow2_strictly_increases(bound, k);
    }
}

proof fn known_powers()
    ensures
        pow2(0) == 1,
        pow2(11) == 0x800,
        pow2(52) == LEAST,
        pow2(53) == LIMIT,
        pow2(64) == 0x1_0000_0000_0000_0000,
        pow2(116) == 0x10_0000_0000_0000 * 0x1_0000_0000_0000_0000,
{
    lemma2_to64();
    lemma_pow2_adds(32, 20);
    lemma_pow2_adds(32, 21);
    lemma_pow2_adds(52, 64);
    assert(0x100000000 * 0x100000 == 0x10_0000_0000_0000) by (nonlinear_arith);
    assert(0x100000000 * 0x200000 == 0x20_0000_0000_0000) by (nonlinear_arith);
}

/// Round `a / b` to an integer, ties to even.
fn rounded(a: u128, b: u128) -> (r: u128)
    requires
        0 < b,
        a < u128::MAX,
    ensures
        r == round_even(a as nat, b as nat),
        r <= a / b + 1,
        r >= a / b,
{
    let q: u128 = a / b;
    let rest: u128 = a % b;
    assert(q <= a) by (nonlinear_arith)
        requires
            q == a / b,
            b > 0,
    ;
    if rest < b - rest || (rest == b - rest && q % 2 == 0) {
        q
    } else {
        q + 1
    }
}

/// The double nearest to `n / d`.
fn nearest_to(n: u64, d: u64) -> (r: Binary64)
    requires
        d > 0,
    ensures
        r@ == nearest(n as nat, d as nat),
        r.mantissa <= LIMIT,
        n > 0 ==> r.mantissa >= LEAST,
        -116 <= r.exponent <= 11,
        d == 1 ==> r.exponent >= -52,
        n <= LIMIT && d >= LEAST ==> r.exponent <= -51 || n == 0,
{
    if n == 0 {
        return Binary64 { mantissa: 0, exponent: 0 };
    }
    let mut a: u128 = n as u128;
    let mut b: u128 = d as u128;
    let mut e: i32 = 0;
    let least: u128 = LEAST as u128;
    let limit: u128 = LIMIT as u128;
    let ghost goal = nearest(n as nat, d as nat);
    proof {
        known_powers();
        assert((-e) as nat == 0);
        assert(n * pow2(0) == n);
    }
    while a < least * b
        invariant
            least == LEAST,
            limit == LIMIT,
            b == d,
            0 < d,
            a > 0,
            e == 0 ==> a == n,
            -116 <= e <= 0,
            e < 0 ==> a < limit * b,
            a == n * pow2((-e) as nat),
            n > 0,
            goal == (Real {
                m: nearest(a as nat, b as nat).m,
                e: nearest(a as nat, b as nat).e + e,
            }),
        decreases limit * b - a,
    {
        let ghost k = (-e) as nat;
        proof {
            known_powers();
            lemma_pow2_unfold(k + 1);
            let p = pow2(k);
            assert(p <= n * p && 2 * (n * p) == n * (2 * p)) by (nonlinear_arith)
                requires
                    n >= 1,
                    p >= 0,
            ;
            exponent_below(k, 116);
        }
        a = 2 * a;
        e = e - 1;
    }
    let ghost up = e;
    let ghost a0 = a;
    proof {
        known_powers();
        assert(d * pow2(0) == d);
        let k = (-e) as nat;
        let p = pow2(k);
        if d == 1 && k > 52 {
            if k > 53 {
                lemma_pow2_strictly_increases(53, k);
            }
            assert(n * p >= p) by (nonlinear_arith)
                requires
                    n >= 1,
                    p >= 0,
            ;
        }
        if n <= LIMIT && d >= LEAST && k < 51 {
            lemma_pow2_unfold(52);
            lemma_pow2_strictly_increases(k, 51);
            assert(n * p < LIMIT * 0x8_0000_0000_0000) by (nonlinear_arith)
                requires
                    n <= LIMIT,
                    p < 0x8_0000_0000_0000,
                    n >= 1,
                    LIMIT > 0,
            ;
        }
    }
    while a >= limit * b
        invariant
            least == LEAST,
            limit == LIMIT,
            a == a0,
            d == 1 ==> up >= -52,
            n <= LIMIT && d >= LEAST ==> up <= -51,
            up < 0 ==> a0 < limit * d && e == up,
            up == 0 ==> a0 == n && 0 <= e <= 11 && b == d * pow2(e as nat),
            -116 <= up <= 0,
            0 < d,
            b > 0,
            b <= 0x8000_0000_0000_0000_0000,
            a < 0x80_0000_0000_0000_0000_0000_0000_0000,
            b == d || up == 0,
            a >= least * b,
            goal == (Real {
                m: nearest(a as nat, b as nat).m,
                e: nearest(a as nat, b as nat).e + e,
            }),
        decreases a - b,
    {
        proof {
            known_powers();
            let p = pow2(e as nat);
            lemma_pow2_pos(e as nat);
            assert(d * p >= p) by (nonlinear_arith)
                requires
                    d >= 1,
                    p >= 0,
            ;
            exponent_below(e as nat, 11);
            lemma_pow2_unfold((e + 1) as nat);
            assert(2 * (d * p) == d * (2 * p)) by (nonlinear_arith);
        }
        b = 2 * b;
        e = e + 1;
    }
    let m: u128 = rounded(a, b);
    assert(a / b < limit && a / b >= least) by (nonlinear_arith)
        requires
            least * b <= a < limit * b,
            b > 0,
    ;
    Binary64 { mantissa: m as u64, exponent: e }
}

/// The share of `part` in `whole`, in double precision.
pub fn share_of(part: u64, whole: u64) -> (r: Binary64)
    requires
        whole > 0,
    ensures
        r@ == share(part as nat, whole as nat),
        r.mantissa <= LIMIT,
        -180 <= r.exponent <= 52,
        part > 0 ==> r.exponent <= 12,
{
    let x = nearest_to(part, 1);
    let y = nearest_to(whole, 1);
    let r = nearest_to(x.mantissa, y.mantissa);
    Binary64 { mantissa: r.mantissa, exponent: r.exponent + x.exponent - y.exponent }
}


/// The double nearest to a small multiple of a double.
fn multiple_of(x: Binary64, k: u64) -> (r: Binary64)
    requires
        x.mantissa <= LIMIT,
        k <= 100,
        -200 <= x.exponent <= 100,
    ensures
        r@ == multiple(x@, k as nat),
        r.mantissa <= LIMIT,
        -400 <= r.exponent <= x.exponent + 11,
{
    assert(x.mantissa * k <= LIMIT * 100) by (nonlinear_arith)
        requires
            x.mantissa <= LIMIT,
            k <= 100,
    ;
    let r = nearest_to(x.mantissa * k, 1);
    Binary64 { mantissa: r.mantissa, exponent: r.exponent + x.exponent }
}

/// Two to the power of `k`.
fn power_of_two(k: u32) -> (r: u128)
    requires
        k <= 64,
    ensures
        r == pow2(k as nat),
        r > 0,
        r <= 0x1_0000_0000_0000_0000,
{
    let mut r: u128 = 1;
    let mut i: u32 = 0;
    proof {
        known_powers();
    }
    while i < k
        invariant
            0 <= i <= k <= 64,
            r == pow2(i as nat),
            r <= 0x1_0000_0000_0000_0000,
            r > 0,
        decreases k - i,
    {
        proof {
            known_powers();
            lemma_pow2_unfold((i + 1) as nat);
            if i + 1 < 64 {
                lemma_pow2_strictly_increases((i + 1) as nat, 64);
            }
        }
        r = 2 * r;
        i = i + 1;
    }
    r
}

/// The integer nearest to `n` times two to the power of `e`.
fn scaled(n: u64, e: i32) -> (r: u128)
    requires
        n <= 10 * LIMIT,
        e <= 64,
        e > i32::MIN,
    ensures
        r == round_scaled(n as nat, e as int),
{
    if e >= 0 {
        let p = power_of_two(e as u32);
        assert(n * p <= 10 * LIMIT * 0x1_0000_0000_0000_0000) by (nonlinear_arith)
            requires
                n <= 10 * LIMIT,
                p <= 0x1_0000_0000_0000_0000,
        ;
        n as u128 * p
    } else {
        let k: u32 = (-e) as u32;
        if k > 64 {
            proof {
                known_powers();
                lemma_pow2_strictly_increases(64, k as nat);
                let d = pow2(k as nat) as int;
                assert(n as int / d == 0 && n as int % d == n) by (nonlinear_arith)
                    requires
                        0 <= n < d,
                ;
            }
            0
        } else {
            let p = power_of_two(k);
            rounded(n as u128, p)
        }
    }
}

/// `x` with one decimal.
pub fn with_one_decimal(x: Binary64) -> (r: String)
    requires
        x.mantissa <= LIMIT,
        i32::MIN < x.exponent <= 64,
    ensures
        r@ == one_decimal(x@),
{
    let t = scaled(10 * x.mantissa, x.exponent);
    let mut r = decimal(t / 10);
    r.append(".");
    r.append(decimal(t % 10).as_str());
    r
}

/// `x` without decimals.
pub fn without_decimals(x: Binary64) -> (r: String)
    requires
        x.mantissa <= LIMIT,
        i32::MIN < x.exponent <= 64,
    ensures
        r@ == no_decimals(x@),
{
    decimal(scaled(x.mantissa, x.exponent))
}

/// `part` as a percentage of `whole`, with one decimal.
pub fn pct(part: u64, whole: u64) -> (r: String)
    ensures
        r@ == pct_text(part as nat, whole as nat),
{
    if whole == 0 {
        return "0.0%".to_owned();
    }
    let x = share_of(part, whole);
    if part == 0 {
        proof {
            nothing_is_zero(whole as nat);
        }
        return "0.0%".to_owned();
    }
    let mut r = with_one_decimal(multiple_of(x, 100));
    r.append("%");
    r
}

/// Nothing of something is zero percent.
pub proof fn nothing_is_zero(whole: nat)
    ensures
        pct_text(0, whole) == "0.0%"@,
{
    if whole > 0 {
        let p = multiple(share(0, whole), 100);
        assert(p.m == 0);
        assert(round_scaled(0, p.e) == 0) by {
            if p.e < 0 {
                lemma_pow2_pos((-p.e) as nat);
                assert(0int / pow2((-p.e) as nat) as int == 0) by (nonlinear_arith)
                    requires
                        pow2((-p.e) as nat) > 0,
                ;
                assert(0int % pow2((-p.e) as nat) as int == 0) by (nonlinear_arith)
                    requires
                        pow2((-p.e) as nat) > 0,
                ;
            }
        }
        reveal_strlit("0.0%");
        reveal_strlit(".");
        reveal_strlit("%");
        assert(pct_text(0, whole) =~= "0.0%"@);
    }
}


/// A positive number has a normal mantissa.
proof fn nearest_is_normal(n: nat, d: nat)
    requires
        n > 0,
        d > 0,
    ensures
        LEAST <= nearest(n, d).m <= LIMIT,
    decreases
            (if n < LEAST * d {
                LEAST * d - n
            } else if n >= LIMIT * d {
                n - LIMIT * d + 1
            } else {
                0
            }),
{
    if n < LEAST * d {
        nearest_is_normal(2 * n, d);
    } else if n >= LIMIT * d {
        nearest_is_normal(n, 2 * d);
    } else {
        assert(LEAST <= n / d < LIMIT) by (nonlinear_arith)
            requires
                LEAST * d <= n < LIMIT * d,
                d > 0,
        ;
    }
}

proof fn equal_numbers(m: nat, k: nat)
    requires
        m > 0,
        k <= 52,
    ensures
        nearest(m * pow2(k), m) == (Real { m: LEAST as nat, e: k - 52 }),
    decreases 52 - k,
{
    known_powers();
    let p = pow2(k);
    lemma_pow2_pos(k);
    if k == 52 {
        assert((m * LEAST) as int / m as int == LEAST && (m * LEAST) as int % m as int == 0)
            by (nonlinear_arith)
            requires
                m > 0,
        ;
        assert(m * p == LEAST * m) by (nonlinear_arith)
            requires
                p == LEAST,
        ;
    } else {
        lemma_pow2_strictly_increases(k, 52);
        lemma_pow2_unfold(k + 1);
        equal_numbers(m, k + 1);
        assert(m * p > 0 && m * p < LEAST * m && 2 * (m * p) == m * (2 * p)) by (nonlinear_arith)
            requires
                0 < p < LEAST,
                m > 0,
        ;
    }
}

/// All of something is a hundred percent.
pub proof fn whole_is_hundred(whole: nat)
    requires
        whole > 0,
    ensures
        pct_text(whole, whole) == "100.0%"@,
{
    known_powers();
    let x = nearest(whole, 1);
    nearest_is_normal(whole, 1);
    equal_numbers(x.m, 0);
    assert(x.m * pow2(0) == x.m);
    assert(share(whole, whole) == one());
    assert(nearest(0x64_0000_0000_0000 * 16, 1) == (Real { m: 0x19_0000_0000_0000, e: 6 })) by {
        reveal_with_fuel(nearest, 8);
    }
    let p = multiple(one(), 100);
    assert(p == (Real { m: 0x19_0000_0000_0000, e: -46 }));
    assert(pow2(46) == 0x4000_0000_0000) by {
        lemma2_to64();
        lemma_pow2_adds(32, 14);
    }
    assert(round_scaled(10 * p.m, p.e) == 1000);
    assert(dec(100) =~= seq!['1', '0', '0']) by {
        reveal_with_fuel(dec, 4);
    }
    reveal_strlit("100.0%");
    reveal_strlit(".");
    reveal_strlit("%");
    assert(pct_text(whole, whole) =~= "100.0%"@);
}

/// Whether a share is at least `m` times two to the power of minus 53.
pub fn reaches(x: Binary64, m: u64) -> (r: bool)
    requires
        x.mantissa <= LIMIT,
        LEAST < m <= LIMIT,
        i32::MIN + 64 < x.exponent <= 64,
    ensures
        r == at_least(x@, m as nat),
{
    proof {
        known_powers();
    }
    if x.exponent >= 0 {
        proof {
            let k = (x.exponent + 53) as nat;
            if k > 53 {
                lemma_pow2_strictly_increases(53, k);
            }
            assert(x.mantissa > 0 ==> x.mantissa * pow2(k) >= pow2(k)) by (nonlinear_arith)
                requires
                    pow2(k) >= 0,
            ;
            assert(x.mantissa == 0 ==> x.mantissa * pow2(k) == 0) by (nonlinear_arith);
        }
        x.mantissa > 0
    } else if x.exponent >= -53 {
        let p = power_of_two((x.exponent + 53) as u32);
        assert(x.mantissa * p <= LIMIT * 0x1_0000_0000_0000_0000) by (nonlinear_arith)
            requires
                x.mantissa <= LIMIT,
                p <= 0x1_0000_0000_0000_0000,
        ;
        x.mantissa as u128 * p >= m as u128
    } else {
        proof {
            let k = (-53 - x.exponent) as nat;
            lemma_pow2_unfold(k);
            lemma_pow2_pos((k - 1) as nat);
            assert(m * pow2(k) > LIMIT) by (nonlinear_arith)
                requires
                    m > LEAST,
                    pow2(k) >= 2,
                    LIMIT == 2 * LEAST,
            ;
        }
        false
    }
}

/// `x` in percent, without decimals.
pub open spec fn whole_percent(x: Real) -> Seq<char> {
    no_decimals(multiple(x, 100))
}

/// `x` in percent, without decimals.
pub fn in_whole_percent(x: Binary64) -> (r: String)
    requires
        x.mantissa <= LIMIT,
        -200 <= x.exponent <= 53,
    ensures
        r@ == whole_percent(x@),
{
    without_decimals(multiple_of(x, 100))
}

} // verus!
