//! Rounding of fractions: to the nearest whole number, and to 53 significant bits.

use vstd::arithmetic::div_mod::*;
use vstd::arithmetic::mul::*;
use vstd::arithmetic::power2::*;
use vstd::prelude::*;

verus! {

/// The whole number nearest to `n / d`; halfway between two, the even one.
pub open spec fn nearest(n: nat, d: nat) -> nat {
    let q = n / d;
    let r = n % d;
    if 2 * r < d || (2 * r == d && q % 2 == 0) {
        q
    } else {
        q + 1
    }
}

/// How many low bits the whole part of `n / d` has beyond 53.
pub open spec fn excess(n: nat, d: nat) -> nat
    decreases n - d,
{
    if d == 0 || n < d * 0x20_0000_0000_0000 {
        0
    } else {
        1 + excess(n, 2 * d)
    }
}

/// `n / d` rounded to a whole number of at most 53 significant bits, ties to the even one: the
/// result of a double-precision operation whose exact result is `n / d` of the smallest positive
/// number.
pub open spec fn round53(n: nat, d: nat) -> nat {
    nearest(n, d * pow2(excess(n, d))) * pow2(excess(n, d))
}

pub(crate) proof fn lemma_nearest_scaled(n: nat, d: nat, c: nat)
    requires
        d > 0,
        c > 0,
    ensures
        nearest(n * c, d * c) == nearest(n, d),
{
    let (q, r) = (n / d, n % d);
    assert(0 <= r * c < d * c && d * c > 0) by (nonlinear_arith)
        requires
            0 <= r < d,
            c > 0,
    ;
    lemma_fundamental_div_mod(n as int, d as int);
    assert(n * c == q * (d * c) + r * c) by (nonlinear_arith)
        requires
            n == d * q + r,
    ;
    lemma_fundamental_div_mod_converse((n * c) as int, (d * c) as int, q as int, (r * c) as int);
    assert((2 * r < d <==> 2 * (r * c) < d * c) && (2 * r == d <==> 2 * (r * c) == d * c))
        by (nonlinear_arith)
        requires
            c > 0,
    ;
}

/// `nearest` of a whole number.
pub(crate) proof fn lemma_nearest_whole(q: nat, d: nat)
    requires
        d > 0,
    ensures
        nearest(q * d, d) == q,
{
    lemma_fundamental_div_mod_converse((q * d) as int, d as int, q as int, 0);
}

pub(crate) proof fn lemma_nearest_monotone(m: nat, n: nat, d: nat)
    requires
        d > 0,
        m <= n,
    ensures
        nearest(m, d) <= nearest(n, d),
{
    lemma_div_is_ordered(m as int, n as int, d as int);
    if m / d == n / d {
        lemma_fundamental_div_mod(m as int, d as int);
        lemma_fundamental_div_mod(n as int, d as int);
    }
}

/// Between whole numbers, `nearest` stays between them.
pub(crate) proof fn lemma_nearest_between(n: nat, d: nat, a: nat, b: nat)
    requires
        d > 0,
        a * d <= n <= b * d,
    ensures
        a <= nearest(n, d) <= b,
{
    lemma_nearest_whole(a, d);
    lemma_nearest_whole(b, d);
    lemma_nearest_monotone(a * d, n, d);
    lemma_nearest_monotone(n, b * d, d);
}

/// What determines `excess`.
pub(crate) proof fn lemma_excess_is(n: nat, d: nat, k: nat)
    requires
        d > 0,
        n < d * pow2(k) * 0x20_0000_0000_0000,
        k > 0 ==> d * pow2(k) * 0x10_0000_0000_0000 <= n,
    ensures
        excess(n, d) == k,
    decreases k,
{
    lemma2_to64();
    lemma_mul_basics(d as int);
    assert(d * pow2(0) == d);
    if k > 0 {
        let j = (k - 1) as nat;
        lemma_pow2_unfold(k);
        lemma_pow2_pos(j);
        assert(d * pow2(k) == (2 * d) * pow2(j)) by (nonlinear_arith)
            requires
                pow2(k) == 2 * pow2(j),
        ;
        assert(d <= d * pow2(j)) by (nonlinear_arith)
            requires
                pow2(j) >= 1,
        ;
        assert(d * pow2(k) == 2 * (d * pow2(j))) by (nonlinear_arith)
            requires
                pow2(k) == 2 * pow2(j),
        ;
        lemma_excess_is(n, 2 * d, j);
    }
}

pub(crate) proof fn lemma_excess_bounds(n: nat, d: nat)
    requires
        d > 0,
    ensures
        n < d * pow2(excess(n, d)) * 0x20_0000_0000_0000,
        excess(n, d) > 0 ==> d * pow2(excess(n, d)) * 0x10_0000_0000_0000 <= n,
    decreases n - d,
{
    lemma2_to64();
    lemma_mul_basics(d as int);
    assert(d * pow2(0) == d);
    if n >= d * 0x20_0000_0000_0000 {
        let j = excess(n, 2 * d);
        lemma_excess_bounds(n, 2 * d);
        lemma_pow2_unfold(j + 1);
        assert(d * pow2(j + 1) == (2 * d) * pow2(j)) by (nonlinear_arith)
            requires
                pow2(j + 1) == 2 * pow2(j),
        ;
        if j == 0 {
            lemma_mul_basics((2 * d) as int);
            assert((2 * d) * pow2(j) == 2 * d);
        }
    }
}

/// A common power of two passes through the rounding, unless the result has under 53 bits.
pub(crate) proof fn lemma_round53_scaled(n: nat, d: nat, j: nat)
    requires
        d > 0,
        d * 0x10_0000_0000_0000 <= n,
    ensures
        round53(n * pow2(j), d) == round53(n, d) * pow2(j),
{
    let e = excess(n, d);
    let (a, b) = (pow2(e), pow2(j));
    lemma_excess_bounds(n, d);
    lemma_pow2_pos(e);
    lemma_pow2_pos(j);
    lemma_pow2_adds(e, j);
    lemma2_to64();
    assert(n * b < d * (a * b) * 0x20_0000_0000_0000) by (nonlinear_arith)
        requires
            n < d * a * 0x20_0000_0000_0000,
            b > 0,
    ;
    assert(d * a * 0x10_0000_0000_0000 <= n) by {
        if e == 0 {
            assert(d * 1 == d);
        }
    }
    assert(d * (a * b) * 0x10_0000_0000_0000 <= n * b) by (nonlinear_arith)
        requires
            d * a * 0x10_0000_0000_0000 <= n,
            b > 0,
    ;
    lemma_excess_is(n * b, d, e + j);
    assert(d * (a * b) == (d * a) * b) by (nonlinear_arith);
    assert(d * a > 0) by (nonlinear_arith)
        requires
            d > 0,
            a > 0,
    ;
    lemma_nearest_scaled(n, d * a, b);
    lemma_mul_is_associative(nearest(n, d * a) as int, a as int, b as int);
}

/// The significand that `round53` keeps.
pub(crate) proof fn lemma_round53_significand(n: nat, d: nat)
    requires
        d > 0,
    ensures
        nearest(n, d * pow2(excess(n, d))) <= 0x20_0000_0000_0000,
        d * 0x10_0000_0000_0000 <= n ==> 0x10_0000_0000_0000 <= nearest(
            n,
            d * pow2(excess(n, d)),
        ),
{
    let e = excess(n, d);
    let m = d * pow2(e);
    lemma_excess_bounds(n, d);
    lemma_pow2_pos(e);
    assert(m > 0) by (nonlinear_arith)
        requires
            m == d * pow2(e),
            d > 0,
            pow2(e) > 0,
    ;
    lemma_nearest_between(n, m, 0, 0x20_0000_0000_0000);
    if d * 0x10_0000_0000_0000 <= n {
        lemma2_to64();
        if e == 0 {
            assert(m == d);
        }
        lemma_nearest_between(n, m, 0x10_0000_0000_0000, 0x20_0000_0000_0000);
    }
}

pub(crate) proof fn lemma_round53_bound(n: nat, d: nat)
    requires
        d > 0,
    ensures
        round53(n, d) <= 2 * n + 1,
{
    let e = excess(n, d);
    let m = d * pow2(e);
    lemma_excess_bounds(n, d);
    lemma_pow2_pos(e);
    assert(m >= pow2(e)) by (nonlinear_arith)
        requires
            m == d * pow2(e),
            d > 0,
    ;
    lemma_fundamental_div_mod(n as int, m as int);
    let q = n / m;
    assert(q * pow2(e) <= n) by (nonlinear_arith)
        requires
            m * q <= n,
            m >= pow2(e),
            q >= 0,
    ;
    lemma2_to64();
    assert(nearest(n, m) * pow2(e) <= q * pow2(e) + pow2(e)) by (nonlinear_arith)
        requires
            nearest(n, m) <= q + 1,
            pow2(e) > 0,
    ;
    if e == 0 {
        assert(pow2(e) == 1);
    }
}

pub(crate) proof fn lemma_round53_monotone(m: nat, n: nat, d: nat)
    requires
        d > 0,
        m <= n,
    ensures
        round53(m, d) <= round53(n, d),
{
    let (i, j) = (excess(m, d), excess(n, d));
    let (a, b) = (nearest(m, d * pow2(i)), nearest(n, d * pow2(j)));
    lemma_excess_bounds(m, d);
    lemma_excess_bounds(n, d);
    lemma_pow2_pos(i);
    lemma_pow2_pos(j);
    lemma_round53_significand(m, d);
    lemma_round53_significand(n, d);
    if i == j {
        assert(d * pow2(i) > 0) by (nonlinear_arith)
            requires
                d > 0,
                pow2(i) > 0,
        ;
        lemma_nearest_monotone(m, n, d * pow2(i));
        lemma_mul_inequality(a as int, b as int, pow2(i) as int);
    } else if i < j {
        lemma_pow2_unfold(i + 1);
        if i + 1 < j {
            lemma_pow2_strictly_increases(i + 1, j);
        }
        assert(d <= d * pow2(j)) by (nonlinear_arith)
            requires
                pow2(j) >= 1,
        ;
        assert(b >= 0x10_0000_0000_0000);
        assert(a * pow2(i) <= b * pow2(j)) by (nonlinear_arith)
            requires
                a <= 0x20_0000_0000_0000,
                b >= 0x10_0000_0000_0000,
                pow2(j) >= 2 * pow2(i),
                pow2(i) > 0,
        ;
    } else {
        lemma_pow2_unfold(j + 1);
        if j + 1 < i {
            lemma_pow2_strictly_increases(j + 1, i);
        }
        assert(d * pow2(i) >= 2 * (d * pow2(j))) by (nonlinear_arith)
            requires
                pow2(i) >= 2 * pow2(j),
                d > 0,
        ;
    }
}

/// What has no more than 53 bits is not rounded.
pub(crate) proof fn lemma_round53_exact(w: nat, d: nat, j: nat)
    requires
        d > 0,
        w <= 0x20_0000_0000_0000,
    ensures
        round53(d * (w * pow2(j)), d) == w * pow2(j),
{
    lemma_pow2_unfold(j + 1);
    if w == 0x20_0000_0000_0000 {
        let half: nat = 0x10_0000_0000_0000;
        let (p, p2) = (pow2(j), pow2(j + 1));
        assert(half * p2 == w * p) by (nonlinear_arith)
            requires
                p2 == 2 * p,
                w == 2 * half,
        ;
        lemma_round53_smaller(half, d, j + 1);
    } else {
        lemma_round53_smaller(w, d, j);
    }
}

proof fn lemma_round53_smaller(w: nat, d: nat, j: nat)
    requires
        d > 0,
        w < 0x20_0000_0000_0000,
    ensures
        round53(d * (w * pow2(j)), d) == w * pow2(j),
{
    let n = d * (w * pow2(j));
    let e = excess(n, d);
    lemma_excess_bounds(n, d);
    lemma_pow2_pos(j);
    lemma_pow2_pos(e);
    if e > j {
        let (p, q) = (pow2(j), pow2(e));
        lemma_pow2_unfold(j + 1);
        if e > j + 1 {
            lemma_pow2_strictly_increases(j + 1, e);
        }
        assert(n < d * q * 0x10_0000_0000_0000) by (nonlinear_arith)
            requires
                n == d * (w * p),
                w < 0x20_0000_0000_0000,
                q >= 2 * p,
                p > 0,
                d > 0,
        ;
    }
    let i = (j - e) as nat;
    lemma_pow2_adds(i, e);
    let whole = w * pow2(i);
    let m = d * pow2(e);
    assert(whole * m == n) by (nonlinear_arith)
        requires
            whole == w * pow2(i),
            m == d * pow2(e),
            pow2(j) == pow2(i) * pow2(e),
            n == d * (w * pow2(j)),
    ;
    assert(m > 0) by (nonlinear_arith)
        requires
            m == d * pow2(e),
            d > 0,
            pow2(e) > 0,
    ;
    lemma_nearest_whole(whole, m);
    lemma_mul_is_associative(w as int, pow2(i) as int, pow2(e) as int);
}

/// Two to the power of `k`.
pub(crate) fn power_of_two(k: u32) -> (r: u128)
    requires
        k < 128,
    ensures
        r == pow2(k as nat),
{
    let mut r: u128 = 1;
    let mut i: u32 = 0;
    proof {
        lemma2_to64();
    }
    while i < k
        invariant
            i <= k < 128,
            r == pow2(i as nat),
            r < 0x8000_0000_0000_0000_0000_0000_0000_0000 || i == 127,
        decreases k - i,
    {
        proof {
            lemma_pow2_unfold((i + 1) as nat);
            lemma2_to64();
            lemma2_to64_rest();
            lemma_pow2_adds(64, 63);
            if i + 1 < 127 {
                lemma_pow2_strictly_increases((i + 1) as nat, 127);
            }
        }
        r = 2 * r;
        i = i + 1;
    }
    r
}

/// `round53` as a significand and a power of two.
pub(crate) fn round_to_53_bits(n: u128, d: u64) -> (r: (u64, u32))
    requires
        d > 0,
    ensures
        round53(n as nat, d as nat) == r.0 * pow2(r.1 as nat),
        r.0 <= 0x20_0000_0000_0000,
        d * 0x10_0000_0000_0000 <= n ==> r.0 >= 0x10_0000_0000_0000,
        r.1 < 128,
{
    let mut m: u128 = d as u128;
    let mut k: u32 = 0;
    proof {
        lemma2_to64();
    }
    while m <= n / 0x20_0000_0000_0000
        invariant
            d > 0,
            m == d * pow2(k as nat),
            excess(n as nat, d as nat) == k + excess(n as nat, m as nat),
            m > 0,
            k < 128,
            m >= pow2(k as nat),
            k > 0 ==> m <= n / 0x10_0000_0000_0000,
        decreases n - m,
    {
        proof {
            lemma_pow2_unfold((k + 1) as nat);
            assert(2 * (d * pow2(k as nat)) == d * pow2((k + 1) as nat)) by (nonlinear_arith)
                requires
                    pow2((k + 1) as nat) == 2 * pow2(k as nat),
            ;
            if k >= 127 {
                lemma2_to64();
                lemma2_to64_rest();
                lemma_pow2_adds(64, 63);
            }
        }
        m = 2 * m;
        k = k + 1;
    }
    assert(excess(n as nat, m as nat) == 0);
    proof {
        lemma_round53_significand(n as nat, d as nat);
    }
    let q: u128 = n / m;
    let rest: u128 = n % m;
    let half: u128 = m - rest;
    let near: u128 = if rest < half || (rest == half && q % 2 == 0) {
        q
    } else {
        q + 1
    };
    assert(near == nearest(n as nat, m as nat));
    (near as u64, k)
}

} // verus!
