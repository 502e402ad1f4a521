//! One connection to the daemon that carries a request: acknowledge it, hand it to the tray, wait
//! for the user, send the decision back.

use serde_json::Value;
use vstd::prelude::*;
use vstd::string::*;

use crate::json::{json_text, to_text};
use crate::protocol::{text_view, Request, RequestView, Response, ResponseView};
use crate::text::{truncate, truncate_text};

verus! {

/// How long an unanswered request is kept.
pub const PENDING_SAFETY_TIMEOUT_MS: u64 = 600_000;

/// How many characters of a tool's input are shown.
pub const PREVIEW_LENGTH: usize = 60;

/// A request that waits for the user. `reply` stands for the connection that waits for the
/// decision.
#[derive(Debug, PartialEq, Eq)]
pub struct PendingRequest {
    pub request_id: String,
    pub tool_name: String,
    pub tool_input_preview: String,
    pub reply: u64,
}

/// `PendingRequest` with its texts as sequences of characters.
pub struct PendingView {
    pub request_id: Seq<char>,
    pub tool_name: Seq<char>,
    pub tool_input_preview: Seq<char>,
    pub reply: u64,
}

impl View for PendingRequest {
    type V = PendingView;

    open spec fn view(&self) -> PendingView {
        PendingView {
            request_id: self.request_id@,
            tool_name: self.tool_name@,
            tool_input_preview: self.tool_input_preview@,
            reply: self.reply,
        }
    }
}

/// The start of the JSON text of a tool's input.
pub fn preview(tool_input: &Value) -> (r: String)
    ensures
        r@ == truncate(json_text(*tool_input), PREVIEW_LENGTH as nat),
{
    let text: String = match to_text(tool_input) {
        Ok(text) => text,
        Err(_) => String::new(),
    };
    truncate_text(text.as_str(), PREVIEW_LENGTH)
}

/// What the tray keeps of a request.
pub open spec fn pending_of(request: RequestView, reply: u64) -> PendingView {
    PendingView {
        request_id: request.request_id,
        tool_name: request.tool_name,
        tool_input_preview: truncate(json_text(request.tool_input), PREVIEW_LENGTH as nat),
        reply,
    }
}

/// How far a connection has come.
#[derive(Debug, PartialEq)]
pub enum SessionState {
    Opened,
    Acknowledging(Request, u64),
    Registering(String),
    Waiting(String),
    Closing,
    Closed,
}

/// What happened: a request was read, the last action succeeded, the user decided, or the last
/// action failed. A time limit that ran out is a failure of waiting.
#[derive(Debug, PartialEq)]
pub enum SessionEvent {
    Arrived { request: Request, reply: u64 },
    Sent,
    Registered,
    Decided { decision: String, reason: Option<String> },
    Failed,
}

/// What to do next. `Expire` tells the tray that the request went unanswered.
#[derive(Debug, PartialEq, Eq)]
pub enum SessionAction {
    Send(Response),
    Register(PendingRequest),
    Wait { timeout_ms: u64 },
    Expire(String),
    Close,
}

pub enum SessionStateView {
    Opened,
    Acknowledging(RequestView, u64),
    Registering(Seq<char>),
    Waiting(Seq<char>),
    Closing,
    Closed,
}

pub enum SessionEventView {
    Arrived { request: RequestView, reply: u64 },
    Sent,
    Registered,
    Decided { decision: Seq<char>, reason: Option<Seq<char>> },
    Failed,
}

pub enum SessionActionView {
    Send(ResponseView),
    Register(PendingView),
    Wait { timeout_ms: u64 },
    Expire(Seq<char>),
    Close,
}

impl View for SessionState {
    type V = SessionStateView;

    open spec fn view(&self) -> SessionStateView {
        match *self {
            SessionState::Opened => SessionStateView::Opened,
            SessionState::Acknowledging(request, reply) => SessionStateView::Acknowledging(
                request@,
                reply,
            ),
            SessionState::Registering(id) => SessionStateView::Registering(id@),
            SessionState::Waiting(id) => SessionStateView::Waiting(id@),
            SessionState::Closing => SessionStateView::Closing,
            SessionState::Closed => SessionStateView::Closed,
        }
    }
}

impl View for SessionEvent {
    type V = SessionEventView;

    open spec fn view(&self) -> SessionEventView {
        match *self {
            SessionEvent::Arrived { request, reply } => SessionEventView::Arrived {
                request: request@,
                reply,
            },
            SessionEvent::Sent => SessionEventView::Sent,
            SessionEvent::Registered => SessionEventView::Registered,
            SessionEvent::Decided { decision, reason } => SessionEventView::Decided {
                decision: decision@,
                reason: text_view(reason),
            },
            SessionEvent::Failed => SessionEventView::Failed,
        }
    }
}

impl View for SessionAction {
    type V = SessionActionView;

    open spec fn view(&self) -> SessionActionView {
        match *self {
            SessionAction::Send(response) => SessionActionView::Send(response@),
            SessionAction::Register(pending) => SessionActionView::Register(pending@),
            SessionAction::Wait { timeout_ms } => SessionActionView::Wait { timeout_ms },
            SessionAction::Expire(id) => SessionActionView::Expire(id@),
            SessionAction::Close => SessionActionView::Close,
        }
    }
}

/// The next state and action of a connection. A failure closes it; one of waiting is first told
/// to the tray.
pub open spec fn session_step(state: SessionStateView, event: SessionEventView) -> (
    SessionStateView,
    SessionActionView,
) {
    match (state, event) {
        (SessionStateView::Opened, SessionEventView::Arrived { request, reply }) => (
            SessionStateView::Acknowledging(request, reply),
            SessionActionView::Send(ResponseView::Ack { request_id: request.request_id }),
        ),
        (SessionStateView::Acknowledging(request, reply), SessionEventView::Sent) => (
            SessionStateView::Registering(request.request_id),
            SessionActionView::Register(pending_of(request, reply)),
        ),
        (SessionStateView::Registering(id), SessionEventView::Registered) => (
            SessionStateView::Waiting(id),
            SessionActionView::Wait { timeout_ms: PENDING_SAFETY_TIMEOUT_MS },
        ),
        (SessionStateView::Waiting(id), SessionEventView::Decided { decision, reason }) => (
            SessionStateView::Closing,
            SessionActionView::Send(ResponseView::Decision { request_id: id, decision, reason }),
        ),
        (SessionStateView::Waiting(id), SessionEventView::Failed) => (
            SessionStateView::Closing,
            SessionActionView::Expire(id),
        ),
        _ => (SessionStateView::Closed, SessionActionView::Close),
    }
}

/// Moves a connection on by one event.
pub fn step(state: SessionState, event: SessionEvent) -> (r: (SessionState, SessionAction))
    ensures
        (r.0@, r.1@) == session_step(state@, event@),
{
    match (state, event) {
        (SessionState::Opened, SessionEvent::Arrived { request, reply }) => {
            let ack = Response::Ack { request_id: request.request_id.clone() };
            (SessionState::Acknowledging(request, reply), SessionAction::Send(ack))
        },
        (SessionState::Acknowledging(request, reply), SessionEvent::Sent) => {
            let pending = PendingRequest {
                request_id: request.request_id.clone(),
                tool_name: request.tool_name,
                tool_input_preview: preview(&request.tool_input),
                reply,
            };
            (SessionState::Registering(request.request_id), SessionAction::Register(pending))
        },
        (SessionState::Registering(id), SessionEvent::Registered) => {
            (
                SessionState::Waiting(id),
                SessionAction::Wait { timeout_ms: PENDING_SAFETY_TIMEOUT_MS },
            )
        },
        (SessionState::Waiting(id), SessionEvent::Decided { decision, reason }) => {
            let answer = Response::Decision { request_id: id, decision, reason };
            (SessionState::Closing, SessionAction::Send(answer))
        },
        (SessionState::Waiting(id), SessionEvent::Failed) => {
            (SessionState::Closing, SessionAction::Expire(id))
        },
        _ => (SessionState::Closed, SessionAction::Close),
    }
}

/// The state of a connection after a series of events.
pub open spec fn state_after(events: Seq<SessionEventView>) -> SessionStateView
    decreases events.len(),
{
    if events.len() == 0 {
        SessionStateView::Opened
    } else {
        session_step(state_after(events.drop_last()), events.last()).0
    }
}

/// What the last of a series of events makes a connection do.
pub open spec fn last_action(events: Seq<SessionEventView>) -> SessionActionView {
    session_step(state_after(events.drop_last()), events.last()).1
}

/// A request of the name `id` arrived.
pub open spec fn is_opened_by(events: Seq<SessionEventView>, id: Seq<char>) -> bool {
    &&& events.len() >= 1
    &&& events[0] matches SessionEventView::Arrived { request, reply }
    &&& request.request_id == id
}

/// The request of the name `id` was acknowledged and handed to the tray.
pub open spec fn is_registered(events: Seq<SessionEventView>, id: Seq<char>) -> bool {
    &&& events.len() >= 3
    &&& is_opened_by(events, id)
    &&& events[1] is Sent
    &&& events[2] is Registered
}

/// What lies behind a connection in each state.
proof fn lemma_history(events: Seq<SessionEventView>)
    ensures
        match state_after(events) {
            SessionStateView::Opened => events.len() == 0,
            SessionStateView::Acknowledging(request, reply) => events.len() == 1 && events[0]
                == (SessionEventView::Arrived { request, reply }),
            SessionStateView::Registering(id) => events.len() == 2 && is_opened_by(events, id)
                && events[1] is Sent,
            SessionStateView::Waiting(id) => events.len() == 3 && is_registered(events, id),
            SessionStateView::Closing => events.len() == 4,
            SessionStateView::Closed => events.len() > 0,
        },
    decreases events.len(),
{
    if events.len() > 0 {
        lemma_history(events.drop_last());
    }
}

proof fn lemma_waiting(events: Seq<SessionEventView>, id: Seq<char>)
    requires
        events.len() == 3,
        is_registered(events, id),
    ensures
        state_after(events) == SessionStateView::Waiting(id),
{
    reveal_with_fuel(state_after, 4);
    let (two, one) = (events.drop_last(), events.drop_last().drop_last());
    assert(two.last() == events[1]);
    assert(one.last() == events[0]);
    assert(one.drop_last().len() == 0);
}

/// A connection sends a decision exactly where its request was acknowledged and handed to the
/// tray, and the user decided; the decision goes out as it was made, under the request's name.
pub proof fn sends_exactly_the_decision(
    events: Seq<SessionEventView>,
    id: Seq<char>,
    decision: Seq<char>,
    reason: Option<Seq<char>>,
)
    requires
        events.len() > 0,
    ensures
        last_action(events) == SessionActionView::Send(
            ResponseView::Decision { request_id: id, decision, reason },
        ) <==> {
            &&& events.len() == 4
            &&& is_registered(events, id)
            &&& events[3] == SessionEventView::Decided { decision, reason }
        },
{
    let before = events.drop_last();
    lemma_history(before);
    if events.len() == 4 && is_registered(events, id) {
        assert(is_registered(before, id));
        lemma_waiting(before, id);
    }
}

/// A connection tells the tray that its request expired exactly where it waited for the user in
/// vain.
pub proof fn expires_exactly_when_unanswered(events: Seq<SessionEventView>, id: Seq<char>)
    requires
        events.len() > 0,
    ensures
        last_action(events) == SessionActionView::Expire(id) <==> {
            &&& events.len() == 4
            &&& is_registered(events, id)
            &&& events[3] is Failed
        },
{
    let before = events.drop_last();
    lemma_history(before);
    if events.len() == 4 && is_registered(events, id) {
        assert(is_registered(before, id));
        lemma_waiting(before, id);
    }
}

/// The acknowledgement is the first thing that a connection sends, it is sent once, and it names
/// the request.
pub proof fn the_ack_comes_first(events: Seq<SessionEventView>, id: Seq<char>)
    requires
        events.len() > 0,
    ensures
        last_action(events) == SessionActionView::Send(ResponseView::Ack { request_id: id })
            <==> events.len() == 1 && is_opened_by(events, id),
{
    lemma_history(events.drop_last());
}

/// A connection is closed after five events at most.
pub proof fn the_session_ends(events: Seq<SessionEventView>)
    requires
        events.len() >= 5,
    ensures
        state_after(events) is Closed,
{
    lemma_history(events);
}

} // verus!
