//! Double-precision numbers by their bits: order, rounding to whole numbers, and scaling to a
//! count of cells.
//!
//! A finite number is a whole multiple of the smallest positive one, two to the power of -1074.
//! Counting in that unit makes every statement here one about whole numbers.

use vstd::arithmetic::div_mod::*;
use vstd::arithmetic::mul::*;
use vstd::arithmetic::power2::*;
use vstd::prelude::*;
use vstd::string::*;

use crate::decimal::{decimal, digits_of, double, is_canonical, low_first_value, text_of};
use crate::rounding::{
    excess, lemma_nearest_between, lemma_nearest_scaled, lemma_nearest_whole, lemma_round53_bound,
    lemma_round53_exact, lemma_round53_monotone, lemma_round53_scaled, nearest, power_of_two,
    round53, round_to_53_bits,
};

verus! {

/// One, in units.
pub open spec fn one() -> nat {
    pow2(1074)
}

/// A double-precision number, held as its bits: one of sign, eleven of exponent, 52 of fraction.
/// Equality compares the bits.
#[derive(Clone, Copy, Debug, PartialEq, Eq, Structural)]
pub struct Binary64 {
    pub bits: u64,
}

impl Binary64 {
    pub open spec fn is_negative(self) -> bool {
        self.bits >= 0x8000_0000_0000_0000
    }

    /// The bits without the sign.
    pub open spec fn magnitude(self) -> nat {
        (self.bits % 0x8000_0000_0000_0000) as nat
    }

    pub open spec fn exponent(self) -> nat {
        self.magnitude() / 0x10_0000_0000_0000
    }

    pub open spec fn fraction(self) -> nat {
        self.magnitude() % 0x10_0000_0000_0000
    }

    pub open spec fn is_nan(self) -> bool {
        self.exponent() == 2047 && self.fraction() != 0
    }

    pub open spec fn is_infinite(self) -> bool {
        self.exponent() == 2047 && self.fraction() == 0
    }

    pub open spec fn is_finite(self) -> bool {
        self.exponent() < 2047
    }

    /// The digits that the exponent scales: the fraction, with its implied leading bit unless
    /// the number is subnormal.
    pub open spec fn significand(self) -> nat {
        if self.exponent() == 0 {
            self.fraction()
        } else {
            0x10_0000_0000_0000 + self.fraction()
        }
    }

    /// The power of two that scales the significand to units.
    pub open spec fn scale(self) -> nat {
        if self.exponent() == 0 {
            0
        } else {
            (self.exponent() - 1) as nat
        }
    }

    /// The absolute value, in units. For an infinity, a number above that of every finite one.
    pub open spec fn units(self) -> nat {
        self.significand() * pow2(self.scale())
    }

    /// The value, in units.
    pub open spec fn value(self) -> int {
        if self.is_negative() {
            -(self.units() as int)
        } else {
            self.units() as int
        }
    }

    /// `self >= other` as numbers: false where either is not a number.
    pub open spec fn is_at_least(self, other: Binary64) -> bool {
        !self.is_nan() && !other.is_nan() && self.value() >= other.value()
    }

    /// The absolute value to the nearest whole number, ties to the even one.
    pub open spec fn rounded(self) -> nat {
        nearest(self.units(), one())
    }

    /// The text of the number with no decimal places.
    pub open spec fn rounded_text(self) -> Seq<char> {
        if self.is_nan() {
            "NaN"@
        } else {
            let sign = if self.is_negative() {
                "-"@
            } else {
                ""@
            };
            let digits = if self.is_infinite() {
                "inf"@
            } else {
                decimal(self.rounded())
            };
            sign + digits
        }
    }

    /// The number as a percentage: no lower than zero, no higher than one hundred, in units.
    pub open spec fn clamped(self) -> nat {
        if self.value() <= 0 {
            0
        } else if self.units() >= 100 * one() {
            100 * one()
        } else {
            self.units()
        }
    }

    /// How many of `width` cells the number fills as a percentage, computed in double precision:
    /// the clamped number divided by one hundred, then multiplied by the width, then rounded to
    /// a whole number with halves going up.
    pub open spec fn filled(self, width: nat) -> nat {
        if self.is_nan() {
            0
        } else {
            let share = round53(self.clamped(), 100);
            let cells = round53(share * round53(width, 1), 1);
            let count = (cells + pow2(1073)) / one();
            if count <= width {
                count
            } else {
                width
            }
        }
    }

    /// The order of magnitudes is that of their bits.
    pub(crate) proof fn lemma_units_ordered(self, other: Binary64)
        ensures
            self.magnitude() < other.magnitude() ==> self.units() < other.units(),
            self.magnitude() == other.magnitude() ==> self.units() == other.units(),
    {
        if self.magnitude() < other.magnitude() {
            let (a, b) = (self.significand(), other.significand());
            let (i, j) = (self.scale(), other.scale());
            lemma_pow2_pos(i);
            lemma_pow2_pos(j);
            if self.exponent() == other.exponent() {
                lemma_mul_strict_inequality(a as int, b as int, pow2(i) as int);
            } else {
                assert(self.exponent() < other.exponent());
                assert(b >= 0x10_0000_0000_0000);
                if self.exponent() == 0 {
                    lemma2_to64();
                    assert(pow2(0) == 1);
                    lemma_mul_ordering(b as int, pow2(j) as int);
                } else {
                    assert(a < 0x20_0000_0000_0000);
                    lemma_mul_strict_inequality(a as int, 0x20_0000_0000_0000, pow2(i) as int);
                    lemma_pow2_unfold(i + 1);
                    if i + 1 < j {
                        lemma_pow2_strictly_increases(i + 1, j);
                    }
                    lemma_mul_inequality(pow2(i + 1) as int, pow2(j) as int, 0x10_0000_0000_0000);
                    lemma_mul_inequality(0x10_0000_0000_0000, b as int, pow2(j) as int);
                }
            }
        }
    }

    /// `self >= other` as numbers.
    pub fn at_least(self, other: Binary64) -> (r: bool)
        ensures
            r == self.is_at_least(other),
    {
        let a: u64 = self.bits % 0x8000_0000_0000_0000;
        let b: u64 = other.bits % 0x8000_0000_0000_0000;
        proof {
            self.lemma_units_ordered(other);
            other.lemma_units_ordered(self);
            lemma_zero_units(self);
            lemma_zero_units(other);
        }
        if a > 0x7ff0_0000_0000_0000 || b > 0x7ff0_0000_0000_0000 {
            return false;
        }
        let a_negative: bool = self.bits >= 0x8000_0000_0000_0000;
        let b_negative: bool = other.bits >= 0x8000_0000_0000_0000;
        if a_negative {
            if b_negative {
                a <= b
            } else {
                a == 0 && b == 0
            }
        } else {
            b_negative || a >= b
        }
    }
}

impl Binary64 {
    /// The significand and the power of two that scales it to units.
    fn parts(self) -> (r: (u64, u32))
        ensures
            r.0 == self.significand(),
            r.1 == self.scale(),
            r.0 < 0x20_0000_0000_0000,
            r.1 <= 2046,
            self.is_finite() ==> r.1 <= 2045,
            r.1 > 0 ==> r.0 >= 0x10_0000_0000_0000,
    {
        let magnitude: u64 = self.bits % 0x8000_0000_0000_0000;
        let exponent: u64 = magnitude / 0x10_0000_0000_0000;
        let fraction: u64 = magnitude % 0x10_0000_0000_0000;
        if exponent == 0 {
            (fraction, 0)
        } else {
            (0x10_0000_0000_0000 + fraction, exponent as u32 - 1)
        }
    }

    /// The decimal digits of the nearest whole number, lowest first.
    fn rounded_digits(self) -> (d: Vec<u8>)
        requires
            self.is_finite(),
        ensures
            is_canonical(d@),
            low_first_value(d@) == self.rounded(),
    {
        let (m, k) = self.parts();
        proof {
            lemma_pow2_pos(k as nat);
        }
        if k <= 1074 {
            let s: u32 = 1074 - k;
            proof {
                lemma_pow2_pos(s as nat);
                lemma_pow2_adds(s as nat, k as nat);
                lemma_nearest_scaled(m as nat, pow2(s as nat), pow2(k as nat));
            }
            if s >= 55 {
                proof {
                    lemma2_to64();
                    lemma2_to64_rest();
                    if s > 55 {
                        lemma_pow2_strictly_increases(55, s as nat);
                    }
                    lemma_small_mod(m as nat, pow2(s as nat));
                    lemma_basic_div(m as int, pow2(s as nat) as int);
                }
                digits_of(0)
            } else {
                let d: u128 = power_of_two(s);
                let q: u128 = m as u128 / d;
                let rest: u128 = m as u128 % d;
                let half: u128 = d - rest;
                let near: u128 = if rest < half || (rest == half && q % 2 == 0) {
                    q
                } else {
                    q + 1
                };
                proof {
                    lemma_mul_inequality(1, d as int, 0x20_0000_0000_0000);
                    lemma_nearest_between(m as nat, d as nat, 0, 0x20_0000_0000_0000);
                }
                digits_of(near as u64)
            }
        } else {
            let mut d: Vec<u8> = digits_of(m);
            let mut i: u32 = 1074;
            proof {
                lemma2_to64();
                lemma_mul_basics(m as int);
            }
            while i < k
                invariant
                    1074 <= i <= k,
                    is_canonical(d@),
                    low_first_value(d@) == m * pow2((i - 1074) as nat),
                decreases k - i,
            {
                d = double(&d);
                proof {
                    lemma_pow2_unfold((i + 1 - 1074) as nat);
                    let p = pow2((i - 1074) as nat);
                    assert(2 * (m * p) == m * (2 * p)) by (nonlinear_arith);
                }
                i = i + 1;
            }
            proof {
                let q = m as nat * pow2((k - 1074) as nat);
                lemma_pow2_adds((k - 1074) as nat, 1074);
                lemma_mul_is_associative(m as int, pow2((k - 1074) as nat) as int, one() as int);
                lemma_pow2_pos(1074);
                lemma_nearest_whole(q, one());
            }
            d
        }
    }

    /// The text of the number with no decimal places.
    pub fn to_rounded_text(self) -> (r: String)
        ensures
            r@ == self.rounded_text(),
    {
        let magnitude: u64 = self.bits % 0x8000_0000_0000_0000;
        if magnitude > 0x7ff0_0000_0000_0000 {
            return "NaN".to_owned();
        }
        let mut r: String = if self.bits >= 0x8000_0000_0000_0000 {
            "-".to_owned()
        } else {
            "".to_owned()
        };
        if magnitude == 0x7ff0_0000_0000_0000 {
            r.append("inf");
        } else {
            let digits = text_of(&self.rounded_digits());
            r.append(digits.as_str());
        }
        r
    }
}

/// The bits of the number one hundred.
const HUNDRED_BITS: u64 = 0x4059_0000_0000_0000;

spec fn hundred() -> Binary64 {
    Binary64 { bits: HUNDRED_BITS }
}

proof fn lemma_hundred()
    ensures
        hundred().units() == 100 * one(),
        hundred().scale() == 1028,
        !hundred().is_negative(),
{
    assert(hundred().magnitude() == 0x4059_0000_0000_0000);
    assert(hundred().exponent() == 1029);
    assert(hundred().significand() == 25 * 0x1_0000_0000_0000);
    lemma2_to64();
    lemma2_to64_rest();
    assert(pow2(48) == 0x1_0000_0000_0000);
    lemma_pow2_adds(48, 1028);
    lemma_pow2_adds(2, 1074);
    assert(pow2(2) == 4);
    lemma_mul_is_associative(25, pow2(48) as int, pow2(1028) as int);
}

/// Halves going up: the part of the count that is a whole multiple of one.
proof fn lemma_round_half_up_large(p: nat, t: nat)
    ensures
        (p * pow2(t + 1074) + pow2(1073)) / one() == p * pow2(t),
{
    lemma_pow2_adds(t, 1074);
    lemma_pow2_pos(1073);
    lemma_pow2_unfold(1074);
    lemma_mul_is_associative(p as int, pow2(t) as int, one() as int);
    lemma_fundamental_div_mod_converse(
        (p * pow2(t + 1074) + pow2(1073)) as int,
        one() as int,
        (p * pow2(t)) as int,
        pow2(1073) as int,
    );
}

/// Halves going up: the power of two that both sides share drops out.
proof fn lemma_round_half_up_small(p: nat, t: nat)
    requires
        t < 1074,
    ensures
        (p * pow2(t) + pow2(1073)) / one() == (p + pow2((1073 - t) as nat)) / pow2(
            (1074 - t) as nat,
        ),
{
    let c = pow2(t);
    let h = pow2((1073 - t) as nat);
    let d = pow2((1074 - t) as nat);
    lemma_pow2_adds((1073 - t) as nat, t);
    lemma_pow2_adds((1074 - t) as nat, t);
    lemma_pow2_pos(t);
    lemma_pow2_pos((1074 - t) as nat);
    assert(p * c + h * c == c * (p + h)) by (nonlinear_arith);
    assert(d * c == c * d) by (nonlinear_arith);
    lemma_div_multiples_vanish_quotient(c as int, (p + h) as int, d as int);
}

/// A number this small fills nothing.
proof fn lemma_filled_tiny(x: Binary64, width: usize)
    requires
        !x.is_nan(),
        x.scale() < 60,
    ensures
        x.filled(width as nat) == 0,
{
    let c = x.clamped();
    let k = x.scale();
    lemma2_to64();
    lemma2_to64_rest();
    lemma_pow2_strictly_increases(k, 60);
    lemma_pow2_pos(k);
    assert(x.units() < 0x20_0000_0000_0000 * 0x1000_0000_0000_0000) by (nonlinear_arith)
        requires
            x.units() == x.significand() * pow2(k),
            x.significand() < 0x20_0000_0000_0000,
            0 < pow2(k) < 0x1000_0000_0000_0000,
    ;
    let share = round53(c, 100);
    let w = round53(width as nat, 1);
    let cells = round53(share * w, 1);
    lemma_round53_bound(c, 100);
    lemma_round53_bound(width as nat, 1);
    lemma_round53_bound(share * w, 1);
    let big: nat = 0x8000_0000_0000_0000_0000_0000_0000_0000;
    assert(share < big && w < big);
    assert(share * w < big * big) by (nonlinear_arith)
        requires
            share < big,
            w < big,
    ;
    lemma_pow2_adds(64, 63);
    lemma_pow2_adds(127, 127);
    lemma_pow2_adds(254, 2);
    lemma_pow2_strictly_increases(256, 1073);
    lemma_pow2_unfold(1074);
    lemma_basic_div((cells + pow2(1073)) as int, one() as int);
}

impl Binary64 {
    /// How many of `width` cells the number fills as a percentage.
    pub fn filled_cells(self, width: usize) -> (r: usize)
        ensures
            r == self.filled(width as nat),
    {
        let magnitude: u64 = self.bits % 0x8000_0000_0000_0000;
        if magnitude > 0x7ff0_0000_0000_0000 {
            return 0;
        }
        proof {
            lemma_hundred();
            lemma_pow2_pos(1074);
            lemma_pow2_unfold(1074);
        }
        if width == 0 {
            return 0;
        }
        if self.bits >= 0x8000_0000_0000_0000 {
            proof {
                let zero = Binary64 { bits: 0 };
                lemma_zero_units(zero);
                lemma_filled_tiny(zero, width);
                assert(self.clamped() == zero.clamped());
            }
            return 0;
        }
        let most = Binary64 { bits: HUNDRED_BITS };
        let capped: Binary64 = if self.at_least(most) {
            most
        } else {
            self
        };
        assert(capped.clamped() == self.clamped());
        assert(capped.filled(width as nat) == self.filled(width as nat));
        let (m, k) = capped.parts();
        if k < 60 {
            proof {
                lemma_filled_tiny(capped, width);
            }
            return 0;
        }
        let j: u32 = k - 60;
        let n: u128 = m as u128 * 0x1000_0000_0000_0000;
        let (q, kq) = round_to_53_bits(n, 100);
        let (w, kw) = round_to_53_bits(width as u128, 1);
        assert(q * w <= 0x20_0000_0000_0000 * 0x20_0000_0000_0000) by (nonlinear_arith)
            requires
                q <= 0x20_0000_0000_0000,
                w <= 0x20_0000_0000_0000,
        ;
        let product: u128 = q as u128 * w as u128;
        let (p, kp) = round_to_53_bits(product, 1);
        let t: u32 = kp + kq + kw + j;
        proof {
            capped.lemma_filled_parts(width, m, k, q, kq, w, kw, p, kp);
        }
        if t >= 1074 {
            let s: u32 = t - 1074;
            proof {
                lemma_round_half_up_large(p as nat, s as nat);
            }
            if s >= 12 {
                proof {
                    lemma2_to64();
                    if s > 12 {
                        lemma_pow2_strictly_increases(12, s as nat);
                    }
                    assert(p * pow2(s as nat) >= 0x10_0000_0000_0000 * 4096) by (nonlinear_arith)
                        requires
                            p >= 0x10_0000_0000_0000,
                            pow2(s as nat) >= 4096,
                    ;
                }
                return width;
            }
            let scale: u128 = power_of_two(s);
            proof {
                lemma2_to64();
                lemma_pow2_strictly_increases(s as nat, 12);
                assert(p * scale < 0x1_0000_0000_0000_0000_0000) by (nonlinear_arith)
                    requires
                        p <= 0x20_0000_0000_0000,
                        scale < 4096,
                ;
            }
            let count: u128 = p as u128 * scale;
            if count <= width as u128 {
                count as usize
            } else {
                width
            }
        } else {
            let s: u32 = 1074 - t;
            proof {
                lemma_round_half_up_small(p as nat, t as nat);
                lemma_pow2_unfold(s as nat);
                lemma2_to64();
                lemma2_to64_rest();
            }
            if s >= 55 {
                proof {
                    if s > 55 {
                        lemma_pow2_strictly_increases(54, (s - 1) as nat);
                    }
                    lemma_basic_div(p as int + pow2((s - 1) as nat), pow2(s as nat) as int);
                }
                return 0;
            }
            let d: u128 = power_of_two(s);
            proof {
                if s < 54 {
                    lemma_pow2_strictly_increases(s as nat, 54);
                }
            }
            let count: u128 = (p as u128 + d / 2) / d;
            if count <= width as u128 {
                count as usize
            } else {
                width
            }
        }
    }

    /// The steps of `filled` on significands and powers of two.
    proof fn lemma_filled_parts(
        self,
        width: usize,
        m: u64,
        k: u32,
        q: u64,
        kq: u32,
        w: u64,
        kw: u32,
        p: u64,
        kp: u32,
    )
        requires
            width > 0,
            !self.is_negative(),
            self.units() <= 100 * one(),
            m == self.significand(),
            k == self.scale(),
            k >= 60,
            m >= 0x10_0000_0000_0000,
            round53(m as nat * 0x1000_0000_0000_0000, 100) == q * pow2(kq as nat),
            q >= 0x10_0000_0000_0000,
            round53(width as nat, 1) == w * pow2(kw as nat),
            round53(q as nat * w as nat, 1) == p * pow2(kp as nat),
        ensures
            round53(round53(self.clamped(), 100) * round53(width as nat, 1), 1) == p * pow2(
                (kp + kq + kw + (k - 60)) as nat,
            ),
            q * w >= 0x10_0000_0000_0000,
    {
        let j = (k - 60) as nat;
        let n = m as nat * 0x1000_0000_0000_0000;
        lemma2_to64();
        lemma2_to64_rest();
        lemma_pow2_adds(60, j);
        lemma_mul_is_associative(m as int, pow2(60) as int, pow2(j) as int);
        assert(self.units() == n * pow2(j));
        lemma_pow2_pos(k as nat);
        assert(self.units() > 0) by (nonlinear_arith)
            requires
                self.units() == m * pow2(k as nat),
                m > 0,
                pow2(k as nat) > 0,
        ;
        assert(self.clamped() == n * pow2(j));
        lemma_round53_scaled(n, 100, j);
        let share = round53(self.clamped(), 100);
        let x = pow2((kq + j) as nat);
        lemma_pow2_adds(kq as nat, j);
        lemma_mul_is_associative(q as int, pow2(kq as nat) as int, pow2(j) as int);
        assert(share == q * x);
        lemma_round53_positive(width as nat);
        assert(w > 0) by (nonlinear_arith)
            requires
                w * pow2(kw as nat) > 0,
                pow2(kw as nat) >= 0,
        ;
        assert(q * w >= 0x10_0000_0000_0000) by (nonlinear_arith)
            requires
                q >= 0x10_0000_0000_0000,
                w > 0,
        ;
        let y = pow2(kw as nat);
        let e = (kq + j + kw) as nat;
        lemma_pow2_adds((kq + j) as nat, kw as nat);
        assert((q * x) * (w * y) == (q * w) * (x * y)) by (nonlinear_arith);
        lemma_round53_scaled(q as nat * w as nat, 1, e);
        lemma_pow2_adds(kp as nat, e);
        lemma_mul_is_associative(p as int, pow2(kp as nat) as int, pow2(e) as int);
        assert(kp + e == kp + kq + kw + (k - 60));
    }
}

/// More usage never fills fewer cells.
pub proof fn filled_is_monotone(low: Binary64, high: Binary64, width: nat)
    requires
        high.is_at_least(low),
    ensures
        low.filled(width) <= high.filled(width),
{
    let (a, b) = (low.clamped(), high.clamped());
    let w = round53(width, 1);
    let (x, y) = (round53(a, 100), round53(b, 100));
    lemma_round53_monotone(a, b, 100);
    lemma_mul_inequality(x as int, y as int, w as int);
    lemma_round53_monotone(x * w, y * w, 1);
    lemma_pow2_pos(1074);
    lemma_div_is_ordered(
        (round53(x * w, 1) + pow2(1073)) as int,
        (round53(y * w, 1) + pow2(1073)) as int,
        one() as int,
    );
}

/// Nothing used fills no cell, and everything used fills them all.
pub proof fn filled_at_the_ends(x: Binary64, width: nat)
    requires
        !x.is_nan(),
        width <= 0x20_0000_0000_0000,
    ensures
        x.value() <= 0 ==> x.filled(width) == 0,
        x.value() >= 100 * one() ==> x.filled(width) == width,
{
    lemma_pow2_pos(1073);
    lemma_pow2_unfold(1074);
    lemma2_to64();
    if x.value() <= 0 {
        lemma_mul_basics(pow2(0) as int);
        lemma_mul_basics(round53(width, 1) as int);
        lemma_round53_exact(0, 100, 0);
        lemma_round53_exact(0, 1, 0);
        lemma_basic_div(pow2(1073) as int, one() as int);
    }
    if x.value() >= 100 * one() {
        lemma_mul_basics(one() as int);
        lemma_mul_basics(width as int);
        lemma_round53_exact(1, 100, 1074);
        lemma_round53_exact(width, 1, 0);
        lemma_round53_exact(width, 1, 1074);
        assert(round53(100 * one(), 100) == one());
        assert(round53(width, 1) == width);
        lemma_mul_is_commutative(one() as int, width as int);
        assert(round53(one() * width, 1) == width * one());
        lemma_round_half_up_large(width, 0);
    }
}

/// A positive whole number does not round to zero.
proof fn lemma_round53_positive(n: nat)
    requires
        n > 0,
    ensures
        round53(n, 1) > 0,
{
    lemma_round53_monotone(1, n, 1);
    lemma2_to64();
    assert(excess(1, 1) == 0);
    assert(round53(1, 1) == 1) by {
        lemma_nearest_whole(1, 1);
    }
}

pub(crate) proof fn lemma_zero_units(x: Binary64)
    ensures
        x.units() == 0 <==> x.magnitude() == 0,
{
    let zero = Binary64 { bits: 0 };
    zero.lemma_units_ordered(x);
    x.lemma_units_ordered(zero);
    assert(zero.units() == 0) by {
        lemma_mul_basics(pow2(0) as int);
    }
}

} // verus!
