//! How the daemon tells messages apart.

use serde_json::Value;
use vstd::prelude::*;

use crate::json::{json_members, json_parse, json_string, text_member};
use crate::protocol::{classified, kind_of, IncomingView, MessageKind, DEFAULT_PIPE_NAME};
use crate::text::{is_whitespace, trim};

verus! {

/// The text of a member is there exactly where the value is an object that has the member, and
/// the member is a text.
pub proof fn a_text_member_is_a_member_that_is_a_text(
    value: Value,
    name: Seq<char>,
    text: Seq<char>,
)
    ensures
        text_member(value, name) == Some(text) <==> (json_members(value) matches Some(members)
            && members.contains_key(name) && json_string(members[name]) == Some(text)),
{
}

/// The pipe is named after the program where nothing else is configured.
pub proof fn the_pipe_is_named_spec()
    ensures
        DEFAULT_PIPE_NAME@ == "spec"@,
{
}

/// A message is a request or a report exactly where its tag says so.
pub proof fn a_message_is_what_its_tag_says(tag: Option<Seq<char>>)
    ensures
        kind_of(tag) == MessageKind::Request <==> tag == Some("request"@),
        kind_of(tag) == MessageKind::Usage <==> tag == Some("usage"@),
        tag != Some("request"@) && tag != Some("usage"@) ==> kind_of(tag) == MessageKind::Unknown,
{
    reveal_strlit("request");
    reveal_strlit("usage");
    assert("request"@[0] != "usage"@[0]);
}

/// What a line is taken for: nothing where it is all whitespace; no message where what is left of
/// it without outer whitespace is not JSON; a request or a report where that is an object whose
/// `type` says so, in which case it is handed on as it is; and an unknown message otherwise.
pub proof fn a_line_is_taken_for_what_it_says(raw: Seq<char>)
    ensures
        ({
            let line = trim(raw);
            let blank = forall|i: int| 0 <= i < raw.len() ==> is_whitespace(#[trigger] raw[i]);
            let tagged = |tag: Seq<char>|
                {
                    &&& json_parse(line) matches Some(value)
                    &&& json_members(value) matches Some(members)
                    &&& members.contains_key("type"@)
                    &&& json_string(members["type"@]) == Some(tag)
                };
            &&& classified(raw) == IncomingView::Empty <==> blank
            &&& classified(raw) == IncomingView::NotJson <==> !blank && json_parse(line) is None
            &&& classified(raw) == IncomingView::Request(line) <==> !blank && tagged("request"@)
            &&& classified(raw) == IncomingView::Usage(line) <==> !blank && tagged("usage"@)
            &&& classified(raw) is Request ==> classified(raw) == IncomingView::Request(line)
            &&& classified(raw) is Usage ==> classified(raw) == IncomingView::Usage(line)
        }),
{
    crate::laws::texts::nothing_is_left_of_whitespace(raw);
    reveal_strlit("request");
    reveal_strlit("usage");
    assert("request"@[0] != "usage"@[0]);
}

} // verus!
