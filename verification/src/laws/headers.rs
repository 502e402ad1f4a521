//! What is read from the headers of a usage report that comes by HTTP.

use vstd::prelude::*;

use crate::decimal::decimal;
use crate::http::{announced, is_blank, length_with, port_of, HttpHead, HTTP_OK};
use crate::laws::numbers::{decimal_digits_spell_the_number, what_is_shown_can_be_read_back};
use crate::laws::texts::{
    a_prefix_comes_off, is_part, nothing_is_left_of_whitespace, trimming_takes_off_whitespace,
    trimming_the_end_takes_off_whitespace,
};
use crate::text::{
    ascii_lower, is_digit, is_number, is_whitespace, parse_bounded, parse_decimal, strip_prefix,
    to_ascii_lowercase, trim, trim_end, without_plus,
};

verus! {

/// The port is the configured one where that is the number of a port, and 27182 otherwise.
pub proof fn the_port_is_the_configured_one(text: Seq<char>, port: nat)
    ensures
        port_of(None) == 27182,
        port <= 65535 && parse_decimal(text) == Some(port) ==> port_of(Some(text)) == port,
        port > 65535 && parse_decimal(text) == Some(port) ==> port_of(Some(text)) == 27182,
        parse_decimal(text) is None ==> port_of(Some(text)) == 27182,
        port <= 65535 ==> port_of(Some(decimal(port))) == port,
{
    if port <= 65535 {
        what_is_shown_can_be_read_back(port, 65535);
    }
}

/// A line ends the headers exactly where it is all whitespace.
pub proof fn a_blank_line_is_all_whitespace(line: Seq<char>)
    ensures
        is_blank(line) <==> forall|i: int| 0 <= i < line.len() ==> is_whitespace(#[trigger] line[i]),
{
    nothing_is_left_of_whitespace(line);
}

/// A header that speaks of the length replaces what the ones before it said, even where it gives
/// no number; any other leaves it.
pub proof fn a_length_replaces_the_one_before(length: Option<nat>, line: Seq<char>)
    ensures
        announced(line) matches Some(given) ==> length_with(length, line) == given,
        announced(line) is None ==> length_with(length, line) == length,
{
}

/// The length that was read is the one that is kept.
pub proof fn the_length_read_is_kept(head: HttpHead)
    ensures
        head.length() is None <==> head.content_length is None,
        head.content_length matches Some(n) ==> head.length() == Some(n as nat),
{
}

/// Every body that was read is answered alike.
pub proof fn the_answer_is_ok()
    ensures
        HTTP_OK@ == "HTTP/1.1 200 OK\r\nContent-Length: 0\r\nConnection: close\r\n\r\n"@,
{
}

/// What makes a part of a text the one that trimming leaves.
proof fn lemma_trimmed(s: Seq<char>, a: int, b: int)
    requires
        0 <= a <= b <= s.len(),
        forall|i: int| 0 <= i < a ==> is_whitespace(#[trigger] s[i]),
        forall|i: int| b <= i < s.len() ==> is_whitespace(#[trigger] s[i]),
        a < b ==> !is_whitespace(s[a]) && !is_whitespace(s[b - 1]),
    ensures
        trim(s) == s.subrange(a, b),
{
    trimming_takes_off_whitespace(s);
    let (c, d) = choose|c: int, d: int|
        {
            &&& #[trigger] is_part(trim(s), s, c, d)
            &&& forall|i: int| 0 <= i < c ==> is_whitespace(#[trigger] s[i])
            &&& forall|i: int| d <= i < s.len() ==> is_whitespace(#[trigger] s[i])
            &&& c < d ==> !is_whitespace(s[c]) && !is_whitespace(s[d - 1])
        };
    if a < b && c < d {
        assert(a == c && b == d);
    } else {
        assert(a == b && c == d);
    }
}

/// The case of letters makes no difference to whitespace.
proof fn lemma_trim_lowered(s: Seq<char>)
    ensures
        trim(to_ascii_lowercase(s)) == to_ascii_lowercase(trim(s)),
{
    trimming_takes_off_whitespace(s);
    let (a, b) = choose|a: int, b: int|
        {
            &&& #[trigger] is_part(trim(s), s, a, b)
            &&& forall|i: int| 0 <= i < a ==> is_whitespace(#[trigger] s[i])
            &&& forall|i: int| b <= i < s.len() ==> is_whitespace(#[trigger] s[i])
            &&& a < b ==> !is_whitespace(s[a]) && !is_whitespace(s[b - 1])
        };
    let t = to_ascii_lowercase(s);
    assert forall|i: int| 0 <= i < s.len() implies is_whitespace(#[trigger] t[i]) == is_whitespace(
        s[i],
    ) by {}
    assert forall|i: int| 0 <= i < a implies is_whitespace(#[trigger] t[i]) by {
        assert(is_whitespace(s[i]));
    }
    assert forall|i: int| b <= i < t.len() implies is_whitespace(#[trigger] t[i]) by {
        assert(is_whitespace(s[i]));
    }
    lemma_trimmed(t, a, b);
    assert(t.subrange(a, b) == to_ascii_lowercase(s.subrange(a, b)));
}

/// The case of letters makes no difference to numbers.
proof fn lemma_parse_lowered(s: Seq<char>)
    ensures
        parse_decimal(to_ascii_lowercase(s)) == parse_decimal(s),
{
    let t = to_ascii_lowercase(s);
    let (d, e) = (without_plus(s), without_plus(t));
    assert(e == to_ascii_lowercase(d));
    if is_number(d) {
        assert forall|i: int| 0 <= i < d.len() implies #[trigger] e[i] == d[i] by {
            assert(is_digit(d[i]));
        }
        assert(e == d);
    } else if is_number(e) {
        assert forall|i: int| 0 <= i < d.len() implies is_digit(#[trigger] d[i]) by {
            assert(is_digit(e[i]));
        }
    }
}

/// A header speaks of the length exactly where it starts with the name of that header, in capital
/// or small letters; then the length is the number in the rest of the line, whitespace around it
/// aside, and no number where the rest is none.
pub proof fn the_length_is_the_number_behind_the_name(line: Seq<char>)
    ensures
        ({
            let named = line.len() >= 15 && to_ascii_lowercase(line.take(15))
                == "content-length:"@;
            &&& named ==> announced(line) == Some(
                parse_bounded(trim(line.skip(15)), usize::MAX as nat),
            )
            &&& !named ==> announced(line) is None
        }),
{
    reveal_strlit("content-length:");
    let name = "content-length:"@;
    assert(name.len() == 15);
    trimming_the_end_takes_off_whitespace(line);
    let b = choose|b: int|
        {
            &&& #[trigger] is_part(trim_end(line), line, 0, b)
            &&& forall|i: int| b <= i < line.len() ==> is_whitespace(#[trigger] line[i])
            &&& b > 0 ==> !is_whitespace(line[b - 1])
        };
    let header = to_ascii_lowercase(trim_end(line));
    if line.len() >= 15 && to_ascii_lowercase(line.take(15)) == name {
        assert(to_ascii_lowercase(line.take(15))[14] == ':');
        assert(ascii_lower(line[14]) == ':');
        assert(line[14] == ':');
        assert(b >= 15);
        let (rest, whole) = (line.subrange(15, b), line.skip(15));
        assert(header == name + to_ascii_lowercase(rest)) by {
            assert forall|i: int| 0 <= i < 15 implies #[trigger] name[i] == header[i] by {
                assert(to_ascii_lowercase(line.take(15))[i] == name[i]);
            }
            assert(header =~= name + to_ascii_lowercase(rest));
        }
        a_prefix_comes_off(header, name, to_ascii_lowercase(rest));
        lemma_trim_lowered(rest);
        lemma_parse_lowered(trim(rest));
        trimming_takes_off_whitespace(rest);
        let (c, d) = choose|c: int, d: int|
            {
                &&& #[trigger] is_part(trim(rest), rest, c, d)
                &&& forall|i: int| 0 <= i < c ==> is_whitespace(#[trigger] rest[i])
                &&& forall|i: int| d <= i < rest.len() ==> is_whitespace(#[trigger] rest[i])
                &&& c < d ==> !is_whitespace(rest[c]) && !is_whitespace(rest[d - 1])
            };
        assert forall|i: int| 0 <= i < c implies is_whitespace(#[trigger] whole[i]) by {
            assert(whole[i] == rest[i]);
        }
        assert forall|i: int| d <= i < whole.len() implies is_whitespace(#[trigger] whole[i]) by {
            if i < rest.len() {
                assert(whole[i] == rest[i]);
            } else {
                assert(whole[i] == line[i + 15]);
            }
        }
        lemma_trimmed(whole, c, d);
        assert(whole.subrange(c, d) == rest.subrange(c, d));
    } else if let Some(value) = strip_prefix(header, name) {
        a_prefix_comes_off(header, name, value);
        assert(to_ascii_lowercase(line.take(15)) == name) by {
            assert forall|i: int| 0 <= i < 15 implies #[trigger] to_ascii_lowercase(
                line.take(15),
            )[i] == name[i] by {
                assert(header[i] == name[i]);
            }
            assert(to_ascii_lowercase(line.take(15)) =~= name);
        }
    }
}

/// A length that is announced is read: every number that fits, in the usual form of the header.
pub proof fn an_announced_length_is_read(n: nat)
    requires
        n <= usize::MAX,
    ensures
        announced("Content-Length: "@ + decimal(n) + "\r\n"@) == Some(Some(n)),
{
    reveal_strlit("Content-Length: ");
    reveal_strlit("content-length:");
    reveal_strlit("\r\n");
    let digits = decimal(n);
    let line = "Content-Length: "@ + digits + "\r\n"@;
    decimal_digits_spell_the_number(n);
    what_is_shown_can_be_read_back(n, usize::MAX as nat);
    assert(to_ascii_lowercase(line.take(15)) =~= "content-length:"@);
    the_length_is_the_number_behind_the_name(line);
    let rest = line.skip(15);
    let end = 1 + digits.len() as int;
    assert(rest[0] == ' ');
    assert(rest[1] == digits[0]);
    assert(rest[end - 1] == digits[digits.len() - 1]);
    assert(rest[end] == '\r' && rest[end + 1] == '\n');
    lemma_trimmed(rest, 1, end);
    assert(rest.subrange(1, end) =~= digits);
}

} // verus!
