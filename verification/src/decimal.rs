//! Whole numbers of any size in decimal.

use vstd::prelude::*;
use vstd::string::*;

verus! {

pub open spec fn digit_char(d: int) -> char {
    ('0' as u32 + d) as char
}

/// The decimal text of `n`, without leading zeros.
pub open spec fn decimal(n: nat) -> Seq<char>
    decreases n,
{
    if n < 10 {
        seq![digit_char(n as int)]
    } else {
        decimal(n / 10).push(digit_char((n % 10) as int))
    }
}

/// The number whose decimal digits are `d`, the lowest first.
pub open spec fn low_first_value(d: Seq<u8>) -> nat
    decreases d.len(),
{
    if d.len() == 0 {
        0
    } else {
        d.first() as nat + 10 * low_first_value(d.drop_first())
    }
}

pub open spec fn all_digits(d: Seq<u8>) -> bool {
    forall|i: int| 0 <= i < d.len() ==> #[trigger] d[i] < 10
}

/// Digits without a leading zero, but for zero itself.
pub open spec fn is_canonical(d: Seq<u8>) -> bool {
    &&& all_digits(d)
    &&& d.len() > 0
    &&& d.len() > 1 ==> d.last() != 0
}

/// The text of digits given lowest first.
pub open spec fn high_first_text(d: Seq<u8>) -> Seq<char> {
    Seq::new(d.len(), |i: int| digit_char(d[d.len() - 1 - i] as int))
}

proof fn lemma_nonzero(d: Seq<u8>)
    requires
        d.len() > 0,
        d.last() != 0,
    ensures
        low_first_value(d) > 0,
    decreases d.len(),
{
    if d.len() > 1 {
        lemma_nonzero(d.drop_first());
    }
}

/// Canonical digits spell the decimal text of their value.
proof fn lemma_high_first_text(d: Seq<u8>)
    requires
        is_canonical(d),
    ensures
        high_first_text(d) == decimal(low_first_value(d)),
    decreases d.len(),
{
    reveal_with_fuel(low_first_value, 2);
    if d.len() == 1 {
        assert(low_first_value(d.drop_first()) == 0);
        assert(high_first_text(d) == seq![digit_char(d[0] as int)]);
    } else {
        let rest = d.drop_first();
        lemma_nonzero(rest);
        assert forall|i: int| 0 <= i < rest.len() implies #[trigger] rest[i] < 10 by {
            assert(rest[i] == d[i + 1]);
        }
        lemma_high_first_text(rest);
        assert(d[0] < 10);
        assert(high_first_text(d) == high_first_text(rest).push(digit_char(d[0] as int)));
    }
}

/// The digits of `n`, lowest first.
pub(crate) fn digits_of(n: u64) -> (d: Vec<u8>)
    ensures
        is_canonical(d@),
        low_first_value(d@) == n,
    decreases n,
{
    if n < 10 {
        let mut d: Vec<u8> = Vec::new();
        d.push(n as u8);
        proof {
            reveal_with_fuel(low_first_value, 2);
            assert(d@.drop_first() == Seq::<u8>::empty());
        }
        d
    } else {
        let mut d: Vec<u8> = digits_of(n / 10);
        let ghost high = d@;
        d.insert(0, (n % 10) as u8);
        assert(d@.drop_first() == high);
        proof {
            if high.len() == 1 {
                reveal_with_fuel(low_first_value, 2);
                assert(low_first_value(high.drop_first()) == 0);
            }
        }
        d
    }
}

/// The digits of twice `d[i..]`, plus `carry`.
fn double_from(d: &Vec<u8>, i: usize, carry: u8) -> (r: Vec<u8>)
    requires
        i <= d@.len(),
        all_digits(d@),
        carry <= 1,
    ensures
        all_digits(r@),
        low_first_value(r@) == 2 * low_first_value(d@.skip(i as int)) + carry,
        i < d@.len() ==> r@.len() > 0,
        i < d@.len() && d@.last() != 0 ==> r@.last() != 0,
        i == d@.len() && carry != 0 ==> r@.len() > 0 && r@.last() != 0,
        i + 1 == d@.len() && d@.last() == 0 ==> r@.len() == 1,
        i == d@.len() && carry == 0 ==> r@.len() == 0,
    decreases d@.len() - i,
{
    if i == d.len() {
        let mut r: Vec<u8> = Vec::new();
        if carry != 0 {
            r.push(carry);
        }
        proof {
            reveal_with_fuel(low_first_value, 2);
            if carry != 0 {
                assert(r@.drop_first() == Seq::<u8>::empty());
            }
        }
        r
    } else {
        let t: u8 = 2 * d[i] + carry;
        let mut r: Vec<u8> = double_from(d, i + 1, t / 10);
        let ghost high = r@;
        r.insert(0, t % 10);
        assert(r@.drop_first() == high);
        assert(d@.skip(i as int).drop_first() == d@.skip(i + 1));
        r
    }
}

/// The digits of twice `d`.
pub(crate) fn double(d: &Vec<u8>) -> (r: Vec<u8>)
    requires
        is_canonical(d@),
    ensures
        is_canonical(r@),
        low_first_value(r@) == 2 * low_first_value(d@),
{
    assert(d@.skip(0) == d@);
    double_from(d, 0, 0)
}

fn digit_text(d: u8) -> (s: &'static str)
    requires
        d < 10,
    ensures
        s@ == seq![digit_char(d as int)],
{
    proof {
        reveal_strlit("0");
        reveal_strlit("1");
        reveal_strlit("2");
        reveal_strlit("3");
        reveal_strlit("4");
        reveal_strlit("5");
        reveal_strlit("6");
        reveal_strlit("7");
        reveal_strlit("8");
        reveal_strlit("9");
    }
    match d {
        0 => "0",
        1 => "1",
        2 => "2",
        3 => "3",
        4 => "4",
        5 => "5",
        6 => "6",
        7 => "7",
        8 => "8",
        _ => "9",
    }
}

/// The decimal text of the number whose digits are `d`.
pub(crate) fn text_of(d: &Vec<u8>) -> (s: String)
    requires
        is_canonical(d@),
    ensures
        s@ == decimal(low_first_value(d@)),
{
    let mut s: String = String::new();
    let mut i: usize = d.len();
    while i > 0
        invariant
            i <= d@.len(),
            all_digits(d@),
            s@ == high_first_text(d@).take(d@.len() - i),
        decreases i,
    {
        i = i - 1;
        s.append(digit_text(d[i]));
        assert(s@ == high_first_text(d@).take(d@.len() - i));
    }
    proof {
        lemma_high_first_text(d@);
        assert(s@ == high_first_text(d@));
    }
    s
}

} // verus!
