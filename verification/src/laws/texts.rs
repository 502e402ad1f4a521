//! What the operations on texts leave of a text.

use vstd::prelude::*;

use crate::text::{
    ascii_lower, digits_value, is_digit, is_whitespace, parse_bounded, parse_decimal, strip_prefix,
    to_ascii_lowercase, trim, trim_end, trim_start, truncate, without_plus,
};

verus! {

/// `part` is what `s` has from `a` to `b`.
pub open spec fn is_part(part: Seq<char>, s: Seq<char>, a: int, b: int) -> bool {
    0 <= a <= b <= s.len() && part == s.subrange(a, b)
}

/// Trimming at the end takes off whitespace there, all of it and nothing else.
pub proof fn trimming_the_end_takes_off_whitespace(s: Seq<char>)
    ensures
        exists|b: int|
            {
                &&& #[trigger] is_part(trim_end(s), s, 0, b)
                &&& forall|i: int| b <= i < s.len() ==> is_whitespace(#[trigger] s[i])
                &&& b > 0 ==> !is_whitespace(s[b - 1])
            },
    decreases s.len(),
{
    if s.len() > 0 && is_whitespace(s.last()) {
        let rest = s.drop_last();
        trimming_the_end_takes_off_whitespace(rest);
        let b = choose|b: int|
            {
                &&& #[trigger] is_part(trim_end(rest), rest, 0, b)
                &&& forall|i: int| b <= i < rest.len() ==> is_whitespace(#[trigger] rest[i])
                &&& b > 0 ==> !is_whitespace(rest[b - 1])
            };
        assert(rest.subrange(0, b) == s.subrange(0, b));
        assert forall|i: int| b <= i < s.len() implies is_whitespace(#[trigger] s[i]) by {
            if i < rest.len() {
                assert(rest[i] == s[i]);
            }
        }
        assert(is_part(trim_end(s), s, 0, b));
    } else {
        assert(s.subrange(0, s.len() as int) == s);
        assert(is_part(trim_end(s), s, 0, s.len() as int));
    }
}

proof fn lemma_trim_start(s: Seq<char>)
    ensures
        exists|a: int|
            {
                &&& #[trigger] is_part(trim_start(s), s, a, s.len() as int)
                &&& forall|i: int| 0 <= i < a ==> is_whitespace(#[trigger] s[i])
                &&& a < s.len() ==> !is_whitespace(s[a])
            },
    decreases s.len(),
{
    if s.len() > 0 && is_whitespace(s.first()) {
        let rest = s.drop_first();
        let n = rest.len() as int;
        lemma_trim_start(rest);
        let a = choose|a: int|
            {
                &&& #[trigger] is_part(trim_start(rest), rest, a, n)
                &&& forall|i: int| 0 <= i < a ==> is_whitespace(#[trigger] rest[i])
                &&& a < rest.len() ==> !is_whitespace(rest[a])
            };
        assert(rest.subrange(a, n) == s.subrange(a + 1, s.len() as int));
        assert forall|i: int| 0 <= i < a + 1 implies is_whitespace(#[trigger] s[i]) by {
            if i > 0 {
                assert(rest[i - 1] == s[i]);
            }
        }
        assert(is_part(trim_start(s), s, a + 1, s.len() as int));
    } else {
        assert(s.subrange(0, s.len() as int) == s);
        assert(is_part(trim_start(s), s, 0, s.len() as int));
    }
}

/// Trimming takes off whitespace at both ends, all of it and nothing else.
pub proof fn trimming_takes_off_whitespace(s: Seq<char>)
    ensures
        exists|a: int, b: int|
            {
                &&& #[trigger] is_part(trim(s), s, a, b)
                &&& forall|i: int| 0 <= i < a ==> is_whitespace(#[trigger] s[i])
                &&& forall|i: int| b <= i < s.len() ==> is_whitespace(#[trigger] s[i])
                &&& a < b ==> !is_whitespace(s[a]) && !is_whitespace(s[b - 1])
            },
{
    let n = s.len() as int;
    lemma_trim_start(s);
    let a = choose|a: int|
        {
            &&& #[trigger] is_part(trim_start(s), s, a, n)
            &&& forall|i: int| 0 <= i < a ==> is_whitespace(#[trigger] s[i])
            &&& a < s.len() ==> !is_whitespace(s[a])
        };
    let rest = trim_start(s);
    trimming_the_end_takes_off_whitespace(rest);
    let b = choose|b: int|
        {
            &&& #[trigger] is_part(trim_end(rest), rest, 0, b)
            &&& forall|i: int| b <= i < rest.len() ==> is_whitespace(#[trigger] rest[i])
            &&& b > 0 ==> !is_whitespace(rest[b - 1])
        };
    assert(rest.subrange(0, b) == s.subrange(a, a + b));
    assert forall|i: int| a + b <= i < s.len() implies is_whitespace(#[trigger] s[i]) by {
        assert(rest[i - a] == s[i]);
    }
    assert(is_part(trim(s), s, a, a + b));
}

/// Nothing is left of a text by trimming exactly where it is all whitespace.
pub proof fn nothing_is_left_of_whitespace(s: Seq<char>)
    ensures
        trim(s).len() == 0 <==> forall|i: int| 0 <= i < s.len() ==> is_whitespace(#[trigger] s[i]),
        trim_end(s).len() == 0 <==> forall|i: int|
            0 <= i < s.len() ==> is_whitespace(#[trigger] s[i]),
{
    trimming_takes_off_whitespace(s);
    trimming_the_end_takes_off_whitespace(s);
}

/// The characters that count as whitespace are the twenty-five of Unicode.
pub proof fn whitespace_is_that_of_unicode(c: char)
    ensures
        is_whitespace(c) <==> seq![
            0x9u32,
            0xa,
            0xb,
            0xc,
            0xd,
            0x20,
            0x85,
            0xa0,
            0x1680,
            0x2000,
            0x2001,
            0x2002,
            0x2003,
            0x2004,
            0x2005,
            0x2006,
            0x2007,
            0x2008,
            0x2009,
            0x200a,
            0x2028,
            0x2029,
            0x202f,
            0x205f,
            0x3000,
        ].contains(c as u32),
{
    let all = seq![
        0x9u32,
        0xa,
        0xb,
        0xc,
        0xd,
        0x20,
        0x85,
        0xa0,
        0x1680,
        0x2000,
        0x2001,
        0x2002,
        0x2003,
        0x2004,
        0x2005,
        0x2006,
        0x2007,
        0x2008,
        0x2009,
        0x200a,
        0x2028,
        0x2029,
        0x202f,
        0x205f,
        0x3000,
    ];
    let n = c as u32;
    if is_whitespace(c) {
        let k: int = if n <= 0xd {
            n - 0x9
        } else if 0x2000 <= n <= 0x200a {
            n - 0x2000 + 9
        } else if n == 0x20 {
            5
        } else if n == 0x85 {
            6
        } else if n == 0xa0 {
            7
        } else if n == 0x1680 {
            8
        } else if n == 0x2028 {
            20
        } else if n == 0x2029 {
            21
        } else if n == 0x202f {
            22
        } else if n == 0x205f {
            23
        } else {
            24
        };
        assert(all[k] == n);
    }
}

/// A prefix comes off exactly where the text starts with it, and what is left is the rest.
pub proof fn a_prefix_comes_off(s: Seq<char>, prefix: Seq<char>, rest: Seq<char>)
    ensures
        strip_prefix(s, prefix) == Some(rest) <==> s == prefix + rest,
        strip_prefix(s, prefix) is None ==> s != prefix + rest,
{
    let n = prefix.len() as int;
    if s == prefix + rest {
        assert(s.take(n) == prefix);
        assert(s.skip(n) == rest);
    }
    if prefix.len() <= s.len() {
        assert(s.take(n) + s.skip(n) == s);
    }
}

/// A text is cut to its first characters where it is longer, and kept where it is not.
pub proof fn a_text_is_cut_to_its_start(s: Seq<char>, n: nat, i: int)
    ensures
        s.len() <= n ==> truncate(s, n) == s,
        s.len() > n ==> truncate(s, n).len() == n,
        0 <= i < n && i < s.len() ==> truncate(s, n)[i] == s[i],
{
}

/// Small letters stand in for the capital ones of ASCII, letter by letter; nothing else changes.
pub proof fn capitals_become_small(s: Seq<char>, i: int)
    requires
        0 <= i < s.len(),
    ensures
        to_ascii_lowercase(s).len() == s.len(),
        'A' <= s[i] <= 'Z' ==> to_ascii_lowercase(s)[i] as u32 == s[i] as u32 + 32,
        !('A' <= s[i] <= 'Z') ==> to_ascii_lowercase(s)[i] == s[i],
        to_ascii_lowercase(s)[i] == ascii_lower(s[i]),
{
}

/// Digits are read from the left, each worth ten of the next.
pub proof fn digits_are_read_from_the_left(s: Seq<char>, c: char)
    requires
        '0' <= c <= '9',
    ensures
        digits_value(seq![]) == 0,
        digits_value(s.push(c)) == 10 * digits_value(s) + (c as u32 - 48),
{
    assert(s.push(c).drop_last() == s);
}

/// What is read as a number is digits, with at most one plus in front, and nothing else.
pub proof fn a_number_is_digits_after_one_plus(s: Seq<char>, digits: Seq<char>)
    requires
        s == seq!['+'] + digits || (s == digits && !(s.len() > 0 && s[0] == '+')),
    ensures
        parse_decimal(s) == if digits.len() > 0 && forall|i: int|
            0 <= i < digits.len() ==> '0' <= #[trigger] digits[i] <= '9' {
            Some(digits_value(digits))
        } else {
            None
        },
{
    if s == seq!['+'] + digits {
        assert(s[0] == '+');
        assert(s.drop_first() == digits);
    }
    assert(without_plus(s) == digits);
    if exists|i: int| 0 <= i < digits.len() && !('0' <= #[trigger] digits[i] <= '9') {
        let i = choose|i: int| 0 <= i < digits.len() && !('0' <= #[trigger] digits[i] <= '9');
        assert(!is_digit(digits[i]));
    }
}

/// A number counts exactly where it is no higher than the bound.
pub proof fn a_number_counts_up_to_its_bound(s: Seq<char>, max: nat, n: nat)
    ensures
        parse_bounded(s, max) == Some(n) <==> parse_decimal(s) == Some(n) && n <= max,
        parse_decimal(s) is None ==> parse_bounded(s, max) is None,
{
}

} // verus!
