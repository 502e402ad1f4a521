//! The little of HTTP that usage reports from other machines need: the length of a body, and the
//! body.

use vstd::prelude::*;
use vstd::string::*;
use vstd::utf8::*;

use crate::protocol::text_view;
use crate::text::{
    ascii_lowercase_chars, chars_of, parse_bounded, parse_text, parse_trimmed_rest, starts_with,
    strip_prefix, to_ascii_lowercase, trim, trim_end, trim_end_text,
};

verus! {

/// The port where nothing else is configured.
pub const DEFAULT_HTTP_PORT: u16 = 27182;

/// The header that gives the length of the body, in small letters.
pub const LENGTH_HEADER: &'static str = "content-length:";

/// The answer to every request whose body could be read.
pub const HTTP_OK: &'static str =
    "HTTP/1.1 200 OK\r\nContent-Length: 0\r\nConnection: close\r\n\r\n";

#[verifier::external_type_specification]
#[verifier::external_body]
pub struct ExFromUtf8Error(std::string::FromUtf8Error);

/// `String::from_utf8`: the text whose UTF-8 encoding the bytes are, or an error exactly where
/// they are none.
pub assume_specification[ String::from_utf8 ](bytes: Vec<u8>) -> (r: Result<
    String,
    std::string::FromUtf8Error,
>)
    ensures
        r is Ok <==> valid_utf8(bytes@),
        r matches Ok(s) ==> s@ == decode_utf8(bytes@),
;

/// The port that a configured text names, where it is the number of one.
pub open spec fn port_of(configured: Option<Seq<char>>) -> nat {
    match configured {
        Some(text) => match parse_bounded(text, u16::MAX as nat) {
            Some(port) => port,
            None => DEFAULT_HTTP_PORT as nat,
        },
        None => DEFAULT_HTTP_PORT as nat,
    }
}

/// The port to listen on.
pub fn http_port(configured: Option<String>) -> (r: u16)
    ensures
        r == port_of(text_view(configured)),
{
    match configured {
        Some(text) => match parse_text(text.as_str(), u16::MAX as u64) {
            Some(port) => port as u16,
            None => DEFAULT_HTTP_PORT,
        },
        None => DEFAULT_HTTP_PORT,
    }
}

/// What a header line says of the length of the body: nothing where it is another header, and no
/// number where it does not give one.
pub open spec fn announced(line: Seq<char>) -> Option<Option<nat>> {
    match strip_prefix(to_ascii_lowercase(trim_end(line)), LENGTH_HEADER@) {
        Some(value) => Some(parse_bounded(trim(value), usize::MAX as nat)),
        None => None,
    }
}

/// A line that ends the headers.
pub open spec fn is_blank(line: Seq<char>) -> bool {
    trim_end(line).len() == 0
}

/// What the headers so far say of the length of the body, after one more line.
pub open spec fn length_with(length: Option<nat>, line: Seq<char>) -> Option<nat> {
    match announced(line) {
        Some(n) => n,
        None => length,
    }
}

/// The headers of a request, as far as they were read.
#[derive(Debug, PartialEq, Eq)]
pub struct HttpHead {
    pub content_length: Option<usize>,
}

/// What to do after a line: read the next one, give up, or read a body of so many bytes.
#[derive(Debug, PartialEq, Eq)]
pub enum HeadStep {
    More,
    Reject,
    Body(usize),
}

impl HttpHead {
    pub open spec fn length(self) -> Option<nat> {
        match self.content_length {
            Some(n) => Some(n as nat),
            None => None,
        }
    }

    /// Nothing was read.
    pub fn new() -> (r: Self)
        ensures
            r.length() is None,
    {
        HttpHead { content_length: None }
    }

    /// Takes the next line, or the end of the stream. Headers that end with the stream and not
    /// with a blank line are given up, as are headers that do not say how long the body is.
    pub fn feed(&mut self, line: Option<String>) -> (r: HeadStep)
        ensures
            match line {
                None => r == HeadStep::Reject && final(self).length() == old(self).length(),
                Some(line) => if is_blank(line@) {
                    &&& final(self).length() == old(self).length()
                    &&& match old(self).length() {
                        Some(n) => r matches HeadStep::Body(m) && m == n,
                        None => r == HeadStep::Reject,
                    }
                } else {
                    &&& r == HeadStep::More
                    &&& final(self).length() == length_with(old(self).length(), line@)
                },
            },
    {
        let line: String = match line {
            Some(line) => line,
            None => {
                return HeadStep::Reject;
            },
        };
        let header = trim_end_text(line.as_str());
        if header.as_str().is_empty() {
            return match self.content_length {
                Some(n) => HeadStep::Body(n),
                None => HeadStep::Reject,
            };
        }
        let lowered = ascii_lowercase_chars(header.as_str());
        let name = chars_of(LENGTH_HEADER);
        if starts_with(&lowered, &name) {
            self.content_length =
            match parse_trimmed_rest(&lowered, name.len(), usize::MAX as u64) {
                Some(n) => Some(n as usize),
                None => None,
            };
        }
        HeadStep::More
    }
}

/// The text of a body, where it is valid UTF-8.
pub fn body_text(bytes: Vec<u8>) -> (r: Option<String>)
    ensures
        r is Some <==> valid_utf8(bytes@),
        r matches Some(s) ==> s@ == decode_utf8(bytes@),
{
    match String::from_utf8(bytes) {
        Ok(s) => Some(s),
        Err(_) => None,
    }
}

/// The answer to a request: none where its body could not be read. What the body holds does not
/// matter.
pub fn http_answer(body: &Option<String>) -> (r: Option<String>)
    ensures
        match *body {
            Some(_) => r matches Some(s) && s@ == HTTP_OK@,
            None => r is None,
        },
{
    match body {
        Some(_) => Some(HTTP_OK.to_owned()),
        None => None,
    }
}

/// What a series of header lines says of the length of the body.
pub open spec fn length_after(lines: Seq<Seq<char>>) -> Option<nat>
    decreases lines.len(),
{
    if lines.len() == 0 {
        None
    } else {
        length_with(length_after(lines.drop_last()), lines.last())
    }
}

/// The last line that gives the length counts, even where it gives no number.
pub proof fn the_last_length_counts(lines: Seq<Seq<char>>, k: int)
    requires
        0 <= k < lines.len(),
        announced(lines[k]) is Some,
        forall|j: int| k < j < lines.len() ==> announced(#[trigger] lines[j]) is None,
    ensures
        length_after(lines) == announced(lines[k])->0,
    decreases lines.len(),
{
    if k < lines.len() - 1 {
        assert(announced(lines[lines.len() - 1]) is None);
        the_last_length_counts(lines.drop_last(), k);
    }
}

/// Headers without a length lead to no body.
pub proof fn no_length_no_body(lines: Seq<Seq<char>>)
    requires
        forall|j: int| 0 <= j < lines.len() ==> announced(#[trigger] lines[j]) is None,
    ensures
        length_after(lines) is None,
    decreases lines.len(),
{
    if lines.len() > 0 {
        assert(announced(lines[lines.len() - 1]) is None);
        assert forall|j: int| 0 <= j < lines.drop_last().len() implies announced(
            #[trigger] lines.drop_last()[j],
        ) is None by {
            assert(lines.drop_last()[j] == lines[j]);
        }
        no_length_no_body(lines.drop_last());
    }
}

proof fn lemma_trim_end_lowercase(line: Seq<char>)
    ensures
        to_ascii_lowercase(trim_end(line)) == trim_end(to_ascii_lowercase(line)),
    decreases line.len(),
{
    let lowered = to_ascii_lowercase(line);
    if line.len() > 0 && crate::text::is_whitespace(line.last()) {
        lemma_trim_end_lowercase(line.drop_last());
        assert(lowered.drop_last() == to_ascii_lowercase(line.drop_last()));
    }
}

/// Capital and small letters make no difference in a header.
pub proof fn headers_ignore_case(a: Seq<char>, b: Seq<char>)
    requires
        to_ascii_lowercase(a) == to_ascii_lowercase(b),
    ensures
        announced(a) == announced(b),
{
    lemma_trim_end_lowercase(a);
    lemma_trim_end_lowercase(b);
}

} // verus!
