//! What the bits of a number mean, and what becomes of them when the number is shown.

use vstd::arithmetic::div_mod::*;
use vstd::arithmetic::mul::*;
use vstd::arithmetic::power2::*;
use vstd::prelude::*;

use crate::binary64::{lemma_zero_units, Binary64};
use crate::decimal::{decimal, digit_char};
use crate::rounding::{excess, lemma_excess_bounds, lemma_round53_exact, nearest, round53};
use crate::text::{digits_value, is_number, parse_bounded};

verus! {

/// The bits tell what is a number: without the sign, those of an infinity are the highest that
/// are, and all above them are not a number.
pub proof fn the_highest_bits_are_no_numbers(x: Binary64)
    ensures
        ({
            let magnitude = x.bits % 0x8000_0000_0000_0000;
            &&& x.is_nan() <==> magnitude > 0x7ff0_0000_0000_0000
            &&& x.is_infinite() <==> magnitude == 0x7ff0_0000_0000_0000
            &&& x.is_finite() <==> magnitude < 0x7ff0_0000_0000_0000
            &&& x.is_negative() <==> x.bits >= 0x8000_0000_0000_0000
        }),
{
}

/// Numbers are compared as their bits are: those of one sign by their magnitudes, and the other
/// way round below zero; a positive number is above every negative one; the two zeros are alike;
/// and what is not a number is neither above nor below anything.
pub proof fn numbers_are_compared_as_their_bits_are(x: Binary64, y: Binary64)
    ensures
        ({
            let (a, b) = (x.bits % 0x8000_0000_0000_0000, y.bits % 0x8000_0000_0000_0000);
            let (below_a, below_b) = (
                x.bits >= 0x8000_0000_0000_0000,
                y.bits >= 0x8000_0000_0000_0000,
            );
            let inf = 0x7ff0_0000_0000_0000u64;
            &&& a > inf || b > inf ==> !x.is_at_least(y)
            &&& a <= inf && b <= inf && !below_a && !below_b ==> (x.is_at_least(y) <==> a >= b)
            &&& a <= inf && b <= inf && below_a && below_b ==> (x.is_at_least(y) <==> a <= b)
            &&& a <= inf && b <= inf && !below_a && below_b ==> x.is_at_least(y)
            &&& a <= inf && b <= inf && below_a && !below_b ==> (x.is_at_least(y) <==> a == 0 && b
                == 0)
        }),
{
    x.lemma_units_ordered(y);
    y.lemma_units_ordered(x);
    lemma_zero_units(x);
    lemma_zero_units(y);
}

/// Every step of the bits is a step of the number: counted from zero, the first steps are one unit
/// each, and the steps are twice as long with each power of two that is reached.
pub proof fn every_step_of_the_bits_is_a_step_of_the_number(x: Binary64, next: Binary64)
    requires
        next.bits == x.bits + 1,
        x.bits != 0x7fff_ffff_ffff_ffff,
    ensures
        ({
            let magnitude = x.bits % 0x8000_0000_0000_0000;
            let step = if magnitude < 0x20_0000_0000_0000 {
                1
            } else {
                pow2((magnitude / 0x10_0000_0000_0000 - 1) as nat)
            };
            &&& next.value() == x.value() + if x.bits < 0x8000_0000_0000_0000 {
                step as int
            } else {
                -(step as int)
            }
        }),
        x.bits == 0 || x.bits == 0x8000_0000_0000_0000 ==> x.value() == 0,
{
    lemma2_to64();
    lemma_zero_units(x);
    let (s, k) = (x.significand(), x.scale());
    let p = pow2(k);
    assert(x.magnitude() + 1 == next.magnitude());
    if next.exponent() == x.exponent() {
        assert(next.significand() == s + 1);
        assert((s + 1) * p == s * p + p) by (nonlinear_arith);
    } else {
        assert(next.exponent() == x.exponent() + 1);
        assert(x.fraction() == 0xf_ffff_ffff_ffff);
        assert(next.fraction() == 0);
        if x.exponent() == 0 {
            assert(next.scale() == 0);
            assert((s + 1) * p == s * p + p) by (nonlinear_arith);
        } else {
            lemma_pow2_unfold(k + 1);
            assert(next.scale() == k + 1);
            assert(s + 1 == 2 * 0x10_0000_0000_0000);
            let p2 = pow2(k + 1);
            assert(0x10_0000_0000_0000 * p2 == s * p + p) by (nonlinear_arith)
                requires
                    p2 == 2 * p,
                    s + 1 == 2 * 0x10_0000_0000_0000,
            ;
        }
    }
}

/// A rounded fraction is off by half at most, and where it is off by half it is even.
pub proof fn a_rounded_fraction_is_the_nearest(n: nat, d: nat)
    requires
        d > 0,
    ensures
        2 * n <= 2 * (nearest(n, d) * d) + d,
        2 * (nearest(n, d) * d) <= 2 * n + d,
        2 * n == 2 * (nearest(n, d) * d) + d ==> nearest(n, d) % 2 == 0,
        2 * (nearest(n, d) * d) == 2 * n + d ==> nearest(n, d) % 2 == 0,
{
    lemma_fundamental_div_mod(n as int, d as int);
    let q = n / d;
    lemma_mul_is_commutative(d as int, q as int);
    assert((q + 1) * d == q * d + d) by (nonlinear_arith);
}

/// The whole number that is shown is the nearest one: the number is off it by half at most, and
/// where it is off by half, what is shown is even.
pub proof fn the_number_shown_is_the_nearest(x: Binary64)
    ensures
        ({
            let shown = x.rounded() * pow2(1074);
            let magnitude = if x.value() < 0 {
                -x.value()
            } else {
                x.value()
            };
            &&& 2 * magnitude <= 2 * shown + pow2(1074)
            &&& 2 * shown <= 2 * magnitude + pow2(1074)
            &&& 2 * magnitude == 2 * shown + pow2(1074) ==> x.rounded() % 2 == 0
            &&& 2 * shown == 2 * magnitude + pow2(1074) ==> x.rounded() % 2 == 0
        }),
{
    lemma_pow2_pos(1074);
    a_rounded_fraction_is_the_nearest(x.units(), pow2(1074));
}

/// The text of a number: its sign, where there is one, and the digits of the nearest whole number.
pub proof fn the_text_of_a_number_is_sign_and_digits(x: Binary64)
    ensures
        ({
            let magnitude = x.bits % 0x8000_0000_0000_0000;
            let negative = x.bits >= 0x8000_0000_0000_0000;
            let inf = 0x7ff0_0000_0000_0000u64;
            &&& magnitude > inf ==> x.rounded_text() == "NaN"@
            &&& magnitude == inf && !negative ==> x.rounded_text() == "inf"@
            &&& magnitude == inf && negative ==> x.rounded_text() == seq!['-'] + "inf"@
            &&& magnitude < inf && !negative ==> x.rounded_text() == decimal(x.rounded())
            &&& magnitude < inf && negative ==> x.rounded_text() == seq!['-'] + decimal(x.rounded())
        }),
{
    reveal_strlit("-");
    reveal_strlit("");
    assert("-"@ == seq!['-']);
    assert(""@ + "inf"@ == "inf"@);
    assert(""@ + decimal(x.rounded()) == decimal(x.rounded()));
}

/// A whole number is shown in decimal digits that spell it, without a zero in front.
pub proof fn decimal_digits_spell_the_number(n: nat)
    ensures
        decimal(n).len() > 0,
        forall|i: int| 0 <= i < decimal(n).len() ==> '0' <= #[trigger] decimal(n)[i] <= '9',
        n > 0 ==> decimal(n)[0] != '0',
        n < 10 ==> decimal(n).len() == 1,
        digits_value(decimal(n)) == n,
    decreases n,
{
    let text = decimal(n);
    if n < 10 {
        assert(text.drop_last().len() == 0);
        assert(digits_value(text.drop_last()) == 0);
        assert(digit_char(n as int) as nat == '0' as nat + n);
    } else {
        decimal_digits_spell_the_number(n / 10);
        assert(text.drop_last() == decimal(n / 10));
        assert(digit_char((n % 10) as int) as nat == '0' as nat + n % 10);
        assert(text[0] == decimal(n / 10)[0]);
        assert forall|i: int| 0 <= i < text.len() implies '0' <= #[trigger] text[i] <= '9' by {
            if i < decimal(n / 10).len() {
                assert(text[i] == decimal(n / 10)[i]);
            }
        }
    }
}

/// What is shown can be read back.
pub proof fn what_is_shown_can_be_read_back(n: nat, max: nat)
    requires
        n <= max,
    ensures
        parse_bounded(decimal(n), max) == Some(n),
{
    decimal_digits_spell_the_number(n);
    assert('0' <= decimal(n)[0]);
    assert(is_number(decimal(n)));
}

/// Rounding to 53 bits is off by half of the last bit at most.
proof fn lemma_round53_error(n: nat, d: nat)
    requires
        d > 0,
    ensures
        0x20_0000_0000_0000 * (d * round53(n, d)) <= 0x20_0000_0000_0000 * n + n
            + 0x10_0000_0000_0000 * d,
        0x20_0000_0000_0000 * n <= 0x20_0000_0000_0000 * (d * round53(n, d)) + n
            + 0x10_0000_0000_0000 * d,
{
    let e = excess(n, d);
    let p = pow2(e);
    let m = d * p;
    let q = nearest(n, m);
    lemma_excess_bounds(n, d);
    lemma_pow2_pos(e);
    assert(m > 0) by (nonlinear_arith)
        requires
            m == d * p,
            d > 0,
            p > 0,
    ;
    a_rounded_fraction_is_the_nearest(n, m);
    assert(d * (q * p) == q * m) by (nonlinear_arith)
        requires
            m == d * p,
    ;
    if e == 0 {
        lemma2_to64();
        lemma_mul_basics(d as int);
    }
}

/// `r` is `n / d` in double precision: `m` times two to the power of `e`, with `m` of 53 bits, or
/// fewer where no power is needed; off by half of the last bit at most, and even at half.
pub open spec fn is_double_of(r: nat, n: nat, d: nat, m: nat, e: nat) -> bool {
    let unit = d * pow2(e);
    &&& r == m * pow2(e)
    &&& n < unit * 0x20_0000_0000_0000
    &&& e > 0 ==> unit * 0x10_0000_0000_0000 <= n
    &&& 2 * n <= 2 * (m * unit) + unit
    &&& 2 * (m * unit) <= 2 * n + unit
    &&& 2 * n == 2 * (m * unit) + unit || 2 * (m * unit) == 2 * n + unit ==> m % 2 == 0
}

/// `r` is `n / d` in double precision.
pub open spec fn is_double(r: nat, n: nat, d: nat) -> bool {
    exists|m: nat, e: nat| is_double_of(r, n, d, m, e)
}

proof fn lemma_round53_is_double(n: nat, d: nat)
    requires
        d > 0,
    ensures
        is_double(round53(n, d), n, d),
{
    let e = excess(n, d);
    let unit = d * pow2(e);
    lemma_excess_bounds(n, d);
    lemma_pow2_pos(e);
    assert(unit > 0) by (nonlinear_arith)
        requires
            unit == d * pow2(e),
            d > 0,
            pow2(e) > 0,
    ;
    a_rounded_fraction_is_the_nearest(n, unit);
    assert(is_double_of(round53(n, d), n, d, nearest(n, unit), e));
}

/// A bar is computed in double precision: the percentage, kept between nothing and everything, is
/// divided by one hundred and multiplied by the width, and what comes out is rounded to a whole
/// number of cells, a half going up, and no more than there are.
pub proof fn a_bar_is_computed_in_double_precision(x: Binary64, width: nat, kept: nat)
    requires
        !x.is_nan(),
        x.value() <= 0 ==> kept == 0,
        0 <= x.value() <= 100 * pow2(1074) ==> kept == x.value(),
        x.value() >= 100 * pow2(1074) ==> kept == 100 * pow2(1074),
    ensures
        ({
            let one = pow2(1074);
            exists|share: nat, wide: nat, cells: nat|
                {
                    &&& #[trigger] is_double(share, kept, 100)
                    &&& #[trigger] is_double(wide, width, 1)
                    &&& #[trigger] is_double(cells, share * wide, 1)
                    &&& x.filled(width) <= width
                    &&& 2 * (x.filled(width) * one) <= 2 * cells + one
                    &&& x.filled(width) < width ==> 2 * cells + one < 2 * (x.filled(width) * one)
                        + 2 * one
                }
        }),
{
    let one = pow2(1074);
    assert(x.clamped() == kept);
    let share = round53(kept, 100);
    let wide = round53(width, 1);
    let cells = round53(share * wide, 1);
    lemma_round53_is_double(kept, 100);
    lemma_round53_is_double(width, 1);
    lemma_round53_is_double(share * wide, 1);
    lemma_pow2_unfold(1074);
    lemma_pow2_pos(1074);
    let count = (cells + pow2(1073)) / one;
    lemma_fundamental_div_mod((cells + pow2(1073)) as int, one as int);
    lemma_mul_is_commutative(one as int, count as int);
    lemma_mul_is_commutative(one as int, x.filled(width) as int);
    if count > width {
        lemma_mul_inequality(width as int, count as int, one as int);
    }
    assert(x.filled(width) == if count <= width {
        count
    } else {
        width
    });
}

/// A bar shows the share: the cells that are filled are off the percentage of all cells by half a
/// cell at most, but for what is lost in the last bits, far less than a millionth of the bar.
pub proof fn a_bar_shows_the_share(x: Binary64, width: nat)
    requires
        !x.is_nan(),
        0 <= x.value() <= 100 * pow2(1074),
        width <= 0x20_0000_0000_0000,
    ensures
        100 * pow2(1074) * x.filled(width) <= x.value() * width + 50 * pow2(1074) + pow2(1030)
            * width,
        x.value() * width <= 100 * pow2(1074) * x.filled(width) + 50 * pow2(1074) + pow2(1030)
            * width,
{
    let one = pow2(1074);
    let half = pow2(1073);
    let small = pow2(1030);
    let v = x.units();
    if width == 0 {
        assert(x.filled(width) == 0);
        lemma_mul_basics(x.value());
        lemma_mul_basics((100 * one) as int);
        lemma_mul_basics(small as int);
    } else {
        lemma_pow2_unfold(1074);
        lemma_pow2_adds(44, 1030);
        lemma2_to64();
        lemma2_to64_rest();
        assert(one == 0x1000_0000_0000 * small);
        lemma_pow2_adds(64, 966);
        lemma_pow2_pos(966);
        assert(small >= 0x1_0000_0000_0000_0000) by (nonlinear_arith)
            requires
                small == 0x1_0000_0000_0000_0000 * pow2(966),
                pow2(966) >= 1,
        ;
        assert(x.value() == v);
        assert(x.clamped() == v);
        let share = round53(v, 100);
        lemma_mul_basics(width as int);
        lemma_round53_exact(width, 1, 0);
        assert(round53(width, 1) == width);
        let n = share * width;
        let cells = round53(n, 1);
        lemma_round53_error(v, 100);
        lemma_round53_error(n, 1);
        let count = (cells + half) / one;
        lemma_fundamental_div_mod((cells + half) as int, one as int);
        lemma_bar_bounds(
            v as int,
            width as int,
            share as int,
            n as int,
            cells as int,
            count as int,
            one as int,
            half as int,
            small as int,
        );
        assert(x.filled(width) == if count <= width {
            count
        } else {
            width
        });
        if count > width {
            assert(100 * one * width <= 100 * one * count) by (nonlinear_arith)
                requires
                    width <= count,
                    one >= 0,
            ;
            assert(v * width <= 100 * one * width) by (nonlinear_arith)
                requires
                    v <= 100 * one,
                    width >= 0,
            ;
        }
    }
}

/// What is not a number fills nothing.
pub proof fn what_is_no_number_fills_nothing(x: Binary64, width: nat)
    requires
        x.bits % 0x8000_0000_0000_0000 > 0x7ff0_0000_0000_0000,
    ensures
        x.filled(width) == 0,
{
}

/// The errors of the three steps together.
proof fn lemma_bar_bounds(
    v: int,
    w: int,
    share: int,
    n: int,
    cells: int,
    count: int,
    one: int,
    half: int,
    small: int,
)
    requires
        0 <= v <= 100 * one,
        1 <= w,
        share >= 0,
        n == share * w,
        one == 2 * half,
        one == 0x1000_0000_0000 * small,
        small >= 0x1_0000_0000_0000_0000,
        0x20_0000_0000_0000 * (100 * share) <= 0x20_0000_0000_0000 * v + v + 0x10_0000_0000_0000
            * 100,
        0x20_0000_0000_0000 * v <= 0x20_0000_0000_0000 * (100 * share) + v + 0x10_0000_0000_0000
            * 100,
        0x20_0000_0000_0000 * (1 * cells) <= 0x20_0000_0000_0000 * n + n + 0x10_0000_0000_0000,
        0x20_0000_0000_0000 * n <= 0x20_0000_0000_0000 * (1 * cells) + n + 0x10_0000_0000_0000,
        one * count <= cells + half < one * count + one,
    ensures
        100 * one * count <= v * w + 50 * one + small * w,
        v * w <= 100 * one * count + 50 * one + small * w,
        small * w >= 0,
{
    let k: int = 0x20_0000_0000_0000;
    let h: int = 0x10_0000_0000_0000;
    assert(k * (100 * n) <= k * (v * w) + v * w + h * 100 * w) by (nonlinear_arith)
        requires
            k * (100 * share) <= k * v + v + h * 100,
            n == share * w,
            w >= 0,
    ;
    assert(k * (v * w) <= k * (100 * n) + v * w + h * 100 * w) by (nonlinear_arith)
        requires
            k * v <= k * (100 * share) + v + h * 100,
            n == share * w,
            w >= 0,
    ;
    let vw = v * w;
    let sw = small * w;
    assert(0 <= vw <= 100 * (0x1000_0000_0000 * sw)) by (nonlinear_arith)
        requires
            vw == v * w,
            sw == small * w,
            0 <= v <= 100 * (0x1000_0000_0000 * small),
            w >= 1,
    ;
    assert(sw >= 0x1_0000_0000_0000_0000 * w) by (nonlinear_arith)
        requires
            sw == small * w,
            small >= 0x1_0000_0000_0000_0000,
            w >= 1,
    ;
    assert(100 * one * count == 100 * (one * count)) by (nonlinear_arith);
}

} // verus!
