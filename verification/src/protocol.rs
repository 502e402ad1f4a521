//! Messages of the pipe: newline-delimited JSON, one message to a line.

use serde_json::Value;
use vstd::prelude::*;
use vstd::string::*;

use crate::binary64::Binary64;
use crate::json::{get_text, json_parse, parse, text_member};
use crate::text::{is_whitespace, trim, trim_end, trim_start, trim_text};

verus! {

/// The name of the pipe where nothing else is configured.
pub const DEFAULT_PIPE_NAME: &'static str = "spec";

/// The characters of an optional text.
pub open spec fn text_view(text: Option<String>) -> Option<Seq<char>> {
    match text {
        Some(s) => Some(s@),
        None => None,
    }
}

/// The name of the pipe: `configured` where it is given.
pub fn pipe_name(configured: Option<String>) -> (r: String)
    ensures
        r@ == match configured {
            Some(name) => name@,
            None => DEFAULT_PIPE_NAME@,
        },
{
    match configured {
        Some(name) => name,
        None => DEFAULT_PIPE_NAME.to_owned(),
    }
}

/// A request for permission: from the hook to the daemon.
#[derive(Debug, PartialEq)]
pub struct Request {
    pub msg_type: String,
    pub request_id: String,
    pub session_id: String,
    pub cwd: String,
    pub tool_name: String,
    pub tool_input: Value,
}

/// `Request` with its texts as sequences of characters.
pub struct RequestView {
    pub msg_type: Seq<char>,
    pub request_id: Seq<char>,
    pub session_id: Seq<char>,
    pub cwd: Seq<char>,
    pub tool_name: Seq<char>,
    pub tool_input: Value,
}

impl View for Request {
    type V = RequestView;

    open spec fn view(&self) -> RequestView {
        RequestView {
            msg_type: self.msg_type@,
            request_id: self.request_id@,
            session_id: self.session_id@,
            cwd: self.cwd@,
            tool_name: self.tool_name@,
            tool_input: self.tool_input,
        }
    }
}

impl Request {
    pub fn new(
        request_id: String,
        session_id: String,
        cwd: String,
        tool_name: String,
        tool_input: Value,
    ) -> (r: Self)
        ensures
            r.msg_type@ == "request"@,
            r.request_id == request_id,
            r.session_id == session_id,
            r.cwd == cwd,
            r.tool_name == tool_name,
            r.tool_input == tool_input,
    {
        Self {
            msg_type: "request".to_owned(),
            request_id,
            session_id,
            cwd,
            tool_name,
            tool_input,
        }
    }
}

/// An answer to a request: from the daemon to the hook. The acknowledgement comes first, the
/// decision second.
#[derive(Debug, PartialEq, Eq)]
pub enum Response {
    Ack { request_id: String },
    Decision { request_id: String, decision: String, reason: Option<String> },
}

/// `Response` with its texts as sequences of characters.
pub enum ResponseView {
    Ack { request_id: Seq<char> },
    Decision { request_id: Seq<char>, decision: Seq<char>, reason: Option<Seq<char>> },
}

impl View for Response {
    type V = ResponseView;

    open spec fn view(&self) -> ResponseView {
        match *self {
            Response::Ack { request_id } => ResponseView::Ack { request_id: request_id@ },
            Response::Decision { request_id, decision, reason } => ResponseView::Decision {
                request_id: request_id@,
                decision: decision@,
                reason: text_view(reason),
            },
        }
    }
}

/// How much of an account's quota is used up: from a status line to the daemon, which does not
/// answer it.
#[derive(Debug, PartialEq, Eq)]
pub struct Usage {
    pub msg_type: String,
    pub five_hour_pct: Option<Binary64>,
    pub five_hour_resets_at: Option<i64>,
    pub seven_day_pct: Option<Binary64>,
    pub seven_day_resets_at: Option<i64>,
}

impl Usage {
    pub fn new(
        five_hour_pct: Option<Binary64>,
        five_hour_resets_at: Option<i64>,
        seven_day_pct: Option<Binary64>,
        seven_day_resets_at: Option<i64>,
    ) -> (r: Self)
        ensures
            r.msg_type@ == "usage"@,
            r.five_hour_pct == five_hour_pct,
            r.five_hour_resets_at == five_hour_resets_at,
            r.seven_day_pct == seven_day_pct,
            r.seven_day_resets_at == seven_day_resets_at,
    {
        Self {
            msg_type: "usage".to_owned(),
            five_hour_pct,
            five_hour_resets_at,
            seven_day_pct,
            seven_day_resets_at,
        }
    }
}

/// A message as it is written to the pipe: its JSON text, then the end of the line.
pub fn frame_line(json: &str) -> (r: String)
    ensures
        r@ == json@.push('\n'),
{
    proof {
        reveal_strlit("\n");
    }
    let mut r: String = json.to_owned();
    r.append("\n");
    assert(r@ == json@.push('\n'));
    r
}

/// The JSON text of a message that came as a raw line.
pub fn message_text(raw: &str) -> (r: String)
    ensures
        r@ == trim(raw@),
{
    trim_text(raw)
}

/// What a message is, by its `type` member.
#[derive(Debug, PartialEq, Eq)]
pub enum MessageKind {
    Request,
    Usage,
    Unknown,
}

pub open spec fn kind_of(tag: Option<Seq<char>>) -> MessageKind {
    if tag == Some("request"@) {
        MessageKind::Request
    } else if tag == Some("usage"@) {
        MessageKind::Usage
    } else {
        MessageKind::Unknown
    }
}

/// What a message is whose `type` member is the text `tag`; `None` stands for one without such a
/// member.
pub fn message_kind(tag: Option<String>) -> (r: MessageKind)
    ensures
        r == kind_of(text_view(tag)),
{
    match tag {
        Some(tag) => {
            if tag == "request".to_owned() {
                MessageKind::Request
            } else if tag == "usage".to_owned() {
                MessageKind::Usage
            } else {
                MessageKind::Unknown
            }
        },
        None => MessageKind::Unknown,
    }
}

/// A line that came in on the pipe. The texts are the line without its outer whitespace.
#[derive(Debug, PartialEq, Eq)]
pub enum Incoming {
    Empty,
    NotJson,
    Request(String),
    Usage(String),
    Unknown,
}

/// `Incoming` with its texts as sequences of characters.
pub enum IncomingView {
    Empty,
    NotJson,
    Request(Seq<char>),
    Usage(Seq<char>),
    Unknown,
}

impl View for Incoming {
    type V = IncomingView;

    open spec fn view(&self) -> IncomingView {
        match *self {
            Incoming::Empty => IncomingView::Empty,
            Incoming::NotJson => IncomingView::NotJson,
            Incoming::Request(line) => IncomingView::Request(line@),
            Incoming::Usage(line) => IncomingView::Usage(line@),
            Incoming::Unknown => IncomingView::Unknown,
        }
    }
}

/// A line of some kind.
pub open spec fn incoming_of(line: Seq<char>, kind: MessageKind) -> IncomingView {
    match kind {
        MessageKind::Request => IncomingView::Request(line),
        MessageKind::Usage => IncomingView::Usage(line),
        MessageKind::Unknown => IncomingView::Unknown,
    }
}

/// What a raw line is: nothing but whitespace, not JSON, or a message of some kind.
pub open spec fn classified(raw: Seq<char>) -> IncomingView {
    let line = trim(raw);
    if line.len() == 0 {
        IncomingView::Empty
    } else {
        match json_parse(line) {
            None => IncomingView::NotJson,
            Some(value) => incoming_of(line, kind_of(text_member(value, "type"@))),
        }
    }
}

/// What a raw line that came in on the pipe is.
pub fn classify_line(raw: &str) -> (r: Incoming)
    ensures
        r@ == classified(raw@),
{
    let line = message_text(raw);
    if line.as_str().is_empty() {
        return Incoming::Empty;
    }
    match parse(line.as_str()) {
        Err(_) => Incoming::NotJson,
        Ok(value) => match message_kind(get_text(&value, "type")) {
            MessageKind::Request => Incoming::Request(line),
            MessageKind::Usage => Incoming::Usage(line),
            MessageKind::Unknown => Incoming::Unknown,
        },
    }
}


proof fn lemma_trim_start_push(s: Seq<char>, c: char)
    requires
        is_whitespace(c),
    ensures
        trim_start(s.push(c)) == if trim_start(s).len() == 0 {
            Seq::<char>::empty()
        } else {
            trim_start(s).push(c)
        },
    decreases s.len(),
{
    let t = s.push(c);
    if s.len() == 0 {
        assert(t.drop_first() == Seq::<char>::empty());
        assert(trim_start(t.drop_first()) == Seq::<char>::empty());
    } else {
        assert(t.first() == s.first());
        if is_whitespace(s.first()) {
            assert(t.drop_first() == s.drop_first().push(c));
            lemma_trim_start_push(s.drop_first(), c);
        }
    }
}

/// A message comes off the pipe as it went on: the end of its line makes no difference.
pub proof fn a_framed_message_is_read_as_it_was(json: Seq<char>)
    ensures
        trim(json.push('\n')) == trim(json),
        classified(json.push('\n')) == classified(json),
{
    lemma_trim_start_push(json, '\n');
    let s = trim_start(json);
    if s.len() > 0 {
        assert(s.push('\n').drop_last() == s);
    }
}

} // verus!
