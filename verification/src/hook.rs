//! The hook: it asks the daemon about one tool call and prints the user's decision.
//!
//! Whatever goes wrong on the way, the hook ends without a word, and the session falls back to
//! its own prompt.

use serde_json::Value;
use vstd::prelude::*;
use vstd::string::*;

use crate::protocol::{text_view, Request, RequestView};

verus! {

/// How long the daemon has to acknowledge a request.
pub const CONNECT_ACK_TIMEOUT_MS: u64 = 300;

/// How long the user has to decide.
pub const DECISION_TIMEOUT_MS: u64 = 55_000;

/// The event that the printed decision is for.
pub const HOOK_EVENT_NAME: &'static str = "PreToolUse";

pub const DENIED_REASON: &'static str = "Negado pela bandeja do Spec";

pub const ALLOWED_REASON: &'static str = "Aprovado pela bandeja do Spec";

/// What the session says of the tool call.
#[derive(Debug, PartialEq)]
pub struct HookInput {
    pub session_id: Option<String>,
    pub prompt_id: Option<String>,
    pub tool_use_id: Option<String>,
    pub cwd: Option<String>,
    pub tool_name: Option<String>,
    pub permission_mode: Option<String>,
    pub tool_input: Value,
}

/// `HookInput` with its texts as sequences of characters.
pub struct HookInputView {
    pub session_id: Option<Seq<char>>,
    pub prompt_id: Option<Seq<char>>,
    pub tool_use_id: Option<Seq<char>>,
    pub cwd: Option<Seq<char>>,
    pub tool_name: Option<Seq<char>>,
    pub permission_mode: Option<Seq<char>>,
    pub tool_input: Value,
}

impl View for HookInput {
    type V = HookInputView;

    open spec fn view(&self) -> HookInputView {
        HookInputView {
            session_id: text_view(self.session_id),
            prompt_id: text_view(self.prompt_id),
            tool_use_id: text_view(self.tool_use_id),
            cwd: text_view(self.cwd),
            tool_name: text_view(self.tool_name),
            permission_mode: text_view(self.permission_mode),
            tool_input: self.tool_input,
        }
    }
}

/// `text`, or the empty text.
pub open spec fn or_empty(text: Option<Seq<char>>) -> Seq<char> {
    match text {
        Some(s) => s,
        None => ""@,
    }
}

impl HookInputView {
    /// The hook steps in only where the session asks interactively.
    pub open spec fn asks(self) -> bool {
        self.permission_mode == Some("default"@)
    }

    /// What names the request. One prompt can lead to several tool calls at a time, so the call
    /// itself comes first.
    pub open spec fn request_id(self) -> Seq<char> {
        match (self.tool_use_id, self.prompt_id) {
            (Some(id), _) => id,
            (None, Some(id)) => id,
            (None, None) => or_empty(self.session_id) + "-"@ + or_empty(self.tool_name),
        }
    }

    /// The request that goes to the daemon.
    pub open spec fn request(self) -> RequestView {
        RequestView {
            msg_type: "request"@,
            request_id: self.request_id(),
            session_id: or_empty(self.session_id),
            cwd: or_empty(self.cwd),
            tool_name: or_empty(self.tool_name),
            tool_input: self.tool_input,
        }
    }
}

fn text_or_empty(text: Option<String>) -> (r: String)
    ensures
        r@ == or_empty(text_view(text)),
{
    match text {
        Some(s) => s,
        None => "".to_owned(),
    }
}

impl HookInput {
    /// Whether the hook steps in.
    pub fn asks(&self) -> (r: bool)
        ensures
            r == self@.asks(),
    {
        match &self.permission_mode {
            Some(mode) => *mode == "default".to_owned(),
            None => false,
        }
    }

    /// The request that goes to the daemon.
    pub fn into_request(self) -> (r: Request)
        ensures
            r@ == self@.request(),
    {
        let session_id = text_or_empty(self.session_id);
        let tool_name = text_or_empty(self.tool_name);
        let request_id = match self.tool_use_id {
            Some(id) => id,
            None => match self.prompt_id {
                Some(id) => id,
                None => {
                    let mut id: String = session_id.clone();
                    id.append("-");
                    id.append(tool_name.as_str());
                    id
                },
            },
        };
        Request::new(request_id, session_id, text_or_empty(self.cwd), tool_name, self.tool_input)
    }
}

/// A message of the daemon, as far as the hook reads it.
#[derive(Debug, PartialEq, Eq)]
pub struct SpecResponse {
    pub msg_type: String,
    pub decision: Option<String>,
    pub reason: Option<String>,
}

/// `SpecResponse` with its texts as sequences of characters.
pub struct SpecResponseView {
    pub msg_type: Seq<char>,
    pub decision: Option<Seq<char>>,
    pub reason: Option<Seq<char>>,
}

impl View for SpecResponse {
    type V = SpecResponseView;

    open spec fn view(&self) -> SpecResponseView {
        SpecResponseView {
            msg_type: self.msg_type@,
            decision: text_view(self.decision),
            reason: text_view(self.reason),
        }
    }
}

/// What the hook prints.
#[derive(Debug, PartialEq, Eq)]
pub struct HookOutput {
    pub hook_event_name: String,
    pub permission_decision: String,
    pub permission_decision_reason: String,
}

/// `HookOutput` with its texts as sequences of characters.
pub struct HookOutputView {
    pub hook_event_name: Seq<char>,
    pub permission_decision: Seq<char>,
    pub permission_decision_reason: Seq<char>,
}

impl View for HookOutput {
    type V = HookOutputView;

    open spec fn view(&self) -> HookOutputView {
        HookOutputView {
            hook_event_name: self.hook_event_name@,
            permission_decision: self.permission_decision@,
            permission_decision_reason: self.permission_decision_reason@,
        }
    }
}

/// What the hook prints for a decision, with the reason that came with it or a stock one;
/// nothing where the decision is neither to allow nor to deny.
pub open spec fn output(decision: Option<Seq<char>>, reason: Option<Seq<char>>) -> Option<
    HookOutputView,
> {
    match decision {
        Some(d) => if d == "allow"@ || d == "deny"@ {
            Some(
                HookOutputView {
                    hook_event_name: HOOK_EVENT_NAME@,
                    permission_decision: d,
                    permission_decision_reason: match reason {
                        Some(r) => r,
                        None => if d == "deny"@ {
                            DENIED_REASON@
                        } else {
                            ALLOWED_REASON@
                        },
                    },
                },
            )
        } else {
            None
        },
        None => None,
    }
}

/// What the hook prints for a decision.
pub fn hook_output(decision: Option<String>, reason: Option<String>) -> (r: Option<HookOutput>)
    ensures
        match output(text_view(decision), text_view(reason)) {
            Some(o) => r matches Some(p) && p@ == o,
            None => r is None,
        },
{
    let decision: String = match decision {
        Some(d) => d,
        None => {
            return None;
        },
    };
    let denied: bool = decision == "deny".to_owned();
    if !denied && !(decision == "allow".to_owned()) {
        return None;
    }
    let reason: String = match reason {
        Some(reason) => reason,
        None => if denied {
            DENIED_REASON.to_owned()
        } else {
            ALLOWED_REASON.to_owned()
        },
    };
    Some(
        HookOutput {
            hook_event_name: HOOK_EVENT_NAME.to_owned(),
            permission_decision: decision,
            permission_decision_reason: reason,
        },
    )
}

/// How far the hook has come.
#[derive(Debug, PartialEq)]
pub enum HookState {
    Idle,
    Connecting(Request),
    Sending,
    AwaitingAck,
    AwaitingDecision,
    Done,
}

/// What happened: the session's input was read, the last action succeeded, or it failed. Input
/// or a message that cannot be read, no daemon, and a time limit that ran out are all failures.
#[derive(Debug, PartialEq)]
pub enum HookEvent {
    Payload(HookInput),
    Connected,
    Sent,
    Received(SpecResponse),
    Failed,
}

/// What to do next. `Exit` ends the hook without a word, and `Print` ends it with a decision.
#[derive(Debug, PartialEq)]
pub enum HookAction {
    Connect,
    Send(Request),
    Receive { timeout_ms: u64 },
    Print(HookOutput),
    Exit,
}

pub enum HookStateView {
    Idle,
    Connecting(RequestView),
    Sending,
    AwaitingAck,
    AwaitingDecision,
    Done,
}

pub enum HookEventView {
    Payload(HookInputView),
    Connected,
    Sent,
    Received(SpecResponseView),
    Failed,
}

pub enum HookActionView {
    Connect,
    Send(RequestView),
    Receive { timeout_ms: u64 },
    Print(HookOutputView),
    Exit,
}

impl View for HookState {
    type V = HookStateView;

    open spec fn view(&self) -> HookStateView {
        match *self {
            HookState::Idle => HookStateView::Idle,
            HookState::Connecting(request) => HookStateView::Connecting(request@),
            HookState::Sending => HookStateView::Sending,
            HookState::AwaitingAck => HookStateView::AwaitingAck,
            HookState::AwaitingDecision => HookStateView::AwaitingDecision,
            HookState::Done => HookStateView::Done,
        }
    }
}

impl View for HookEvent {
    type V = HookEventView;

    open spec fn view(&self) -> HookEventView {
        match *self {
            HookEvent::Payload(input) => HookEventView::Payload(input@),
            HookEvent::Connected => HookEventView::Connected,
            HookEvent::Sent => HookEventView::Sent,
            HookEvent::Received(message) => HookEventView::Received(message@),
            HookEvent::Failed => HookEventView::Failed,
        }
    }
}

impl View for HookAction {
    type V = HookActionView;

    open spec fn view(&self) -> HookActionView {
        match *self {
            HookAction::Connect => HookActionView::Connect,
            HookAction::Send(request) => HookActionView::Send(request@),
            HookAction::Receive { timeout_ms } => HookActionView::Receive { timeout_ms },
            HookAction::Print(out) => HookActionView::Print(out@),
            HookAction::Exit => HookActionView::Exit,
        }
    }
}

/// The next state and action of the hook: connect, send the request, wait a moment for the
/// acknowledgement, wait long for the decision, print it. Anything else ends the hook silently.
pub open spec fn hook_step(state: HookStateView, event: HookEventView) -> (
    HookStateView,
    HookActionView,
) {
    match (state, event) {
        (HookStateView::Idle, HookEventView::Payload(input)) if input.asks() => (
            HookStateView::Connecting(input.request()),
            HookActionView::Connect,
        ),
        (HookStateView::Connecting(request), HookEventView::Connected) => (
            HookStateView::Sending,
            HookActionView::Send(request),
        ),
        (HookStateView::Sending, HookEventView::Sent) => (
            HookStateView::AwaitingAck,
            HookActionView::Receive { timeout_ms: CONNECT_ACK_TIMEOUT_MS },
        ),
        (HookStateView::AwaitingAck, HookEventView::Received(message)) if message.msg_type
            == "ack"@ => (
            HookStateView::AwaitingDecision,
            HookActionView::Receive { timeout_ms: DECISION_TIMEOUT_MS },
        ),
        (HookStateView::AwaitingDecision, HookEventView::Received(message)) if message.msg_type
            == "decision"@ && output(message.decision, message.reason) is Some => (
            HookStateView::Done,
            HookActionView::Print(output(message.decision, message.reason)->0),
        ),
        _ => (HookStateView::Done, HookActionView::Exit),
    }
}

/// Moves the hook on by one event.
pub fn step(state: HookState, event: HookEvent) -> (r: (HookState, HookAction))
    ensures
        (r.0@, r.1@) == hook_step(state@, event@),
{
    match (state, event) {
        (HookState::Idle, HookEvent::Payload(input)) => {
            if input.asks() {
                (HookState::Connecting(input.into_request()), HookAction::Connect)
            } else {
                (HookState::Done, HookAction::Exit)
            }
        },
        (HookState::Connecting(request), HookEvent::Connected) => {
            (HookState::Sending, HookAction::Send(request))
        },
        (HookState::Sending, HookEvent::Sent) => {
            (HookState::AwaitingAck, HookAction::Receive { timeout_ms: CONNECT_ACK_TIMEOUT_MS })
        },
        (HookState::AwaitingAck, HookEvent::Received(message)) => {
            if message.msg_type == "ack".to_owned() {
                (
                    HookState::AwaitingDecision,
                    HookAction::Receive { timeout_ms: DECISION_TIMEOUT_MS },
                )
            } else {
                (HookState::Done, HookAction::Exit)
            }
        },
        (HookState::AwaitingDecision, HookEvent::Received(message)) => {
            if !(message.msg_type == "decision".to_owned()) {
                return (HookState::Done, HookAction::Exit);
            }
            match hook_output(message.decision, message.reason) {
                Some(out) => (HookState::Done, HookAction::Print(out)),
                None => (HookState::Done, HookAction::Exit),
            }
        },
        _ => (HookState::Done, HookAction::Exit),
    }
}


/// The state of a hook after a series of events.
pub open spec fn state_after(events: Seq<HookEventView>) -> HookStateView
    decreases events.len(),
{
    if events.len() == 0 {
        HookStateView::Idle
    } else {
        hook_step(state_after(events.drop_last()), events.last()).0
    }
}

/// What the last of a series of events makes a hook do.
pub open spec fn last_action(events: Seq<HookEventView>) -> HookActionView {
    hook_step(state_after(events.drop_last()), events.last()).1
}

/// The session asked, and its request reached the daemon.
pub open spec fn is_asked(events: Seq<HookEventView>, request: RequestView) -> bool {
    &&& events.len() >= 1
    &&& events[0] matches HookEventView::Payload(input)
    &&& input.asks()
    &&& input.request() == request
}

/// The daemon acknowledged the request.
pub open spec fn is_acknowledged(events: Seq<HookEventView>) -> bool {
    &&& events.len() >= 4
    &&& exists|request: RequestView| is_asked(events, request)
    &&& events[1] is Connected
    &&& events[2] is Sent
    &&& events[3] matches HookEventView::Received(ack)
    &&& ack.msg_type == "ack"@
}

/// The user decided, and `out` is what to print of it.
pub open spec fn is_decided(events: Seq<HookEventView>, out: HookOutputView) -> bool {
    &&& events.len() == 5
    &&& is_acknowledged(events)
    &&& events[4] matches HookEventView::Received(message)
    &&& message.msg_type == "decision"@
    &&& output(message.decision, message.reason) == Some(out)
}

/// What lies behind a hook in each state.
proof fn lemma_history(events: Seq<HookEventView>)
    ensures
        match state_after(events) {
            HookStateView::Idle => events.len() == 0,
            HookStateView::Connecting(request) => events.len() == 1 && is_asked(events, request),
            HookStateView::Sending => events.len() == 2 && events[1] is Connected && exists|
                request: RequestView,
            |
                is_asked(events, request),
            HookStateView::AwaitingAck => events.len() == 3 && events[1] is Connected
                && events[2] is Sent && exists|request: RequestView| is_asked(events, request),
            HookStateView::AwaitingDecision => events.len() == 4 && is_acknowledged(events),
            HookStateView::Done => events.len() > 0,
        },
    decreases events.len(),
{
    if events.len() > 0 {
        let before = events.drop_last();
        lemma_history(before);
        assert forall|request: RequestView| is_asked(before, request) implies is_asked(
            events,
            request,
        ) by {}
        if let (HookStateView::Idle, HookEventView::Payload(input)) = (
            state_after(before),
            events.last(),
        ) {
            if input.asks() {
                assert(is_asked(events, input.request()));
            }
        }
    }
}

/// The hook prints exactly where the session asked, the daemon acknowledged, and the user's
/// decision came next; it prints that decision.
pub proof fn prints_exactly_the_decision(events: Seq<HookEventView>, out: HookOutputView)
    requires
        events.len() > 0,
    ensures
        last_action(events) == HookActionView::Print(out) <==> is_decided(events, out),
{
    let before = events.drop_last();
    lemma_history(before);
    if is_decided(events, out) {
        let request = choose|request: RequestView| is_asked(events, request);
        reveal_with_fuel(state_after, 5);
        assert(before.last() == events[3]);
        assert(before.drop_last().last() == events[2]);
        assert(before.drop_last().drop_last().last() == events[1]);
        assert(before.drop_last().drop_last().drop_last().last() == events[0]);
        assert(state_after(before) == HookStateView::AwaitingDecision);
    } else if last_action(events) == HookActionView::Print(out) {
        assert forall|request: RequestView| is_asked(before, request) implies is_asked(
            events,
            request,
        ) by {}
        assert(is_acknowledged(events));
    }
}

/// What is printed is a decision to allow or to deny.
pub proof fn prints_only_allow_or_deny(events: Seq<HookEventView>, out: HookOutputView)
    requires
        events.len() > 0,
        last_action(events) == HookActionView::Print(out),
    ensures
        out.permission_decision == "allow"@ || out.permission_decision == "deny"@,
        out.hook_event_name == HOOK_EVENT_NAME@,
{
}

/// Fail-open: a failure ends the hook without a word, however far it has come.
pub proof fn a_failure_is_silent(state: HookStateView)
    ensures
        hook_step(state, HookEventView::Failed) == (HookStateView::Done, HookActionView::Exit),
{
}

/// Once the hook is done, nothing makes it speak again.
pub proof fn the_end_is_final(event: HookEventView)
    ensures
        hook_step(HookStateView::Done, event) == (HookStateView::Done, HookActionView::Exit),
{
}

/// A session that does not ask interactively is left alone: the hook does not even connect.
pub proof fn other_modes_are_left_alone(input: HookInputView)
    requires
        input.permission_mode != Some("default"@),
    ensures
        hook_step(HookStateView::Idle, HookEventView::Payload(input)) == (
            HookStateView::Done,
            HookActionView::Exit,
        ),
{
}

/// What goes to the daemon is the request of the session that asked.
pub proof fn sends_only_the_request_asked_for(events: Seq<HookEventView>, request: RequestView)
    requires
        events.len() > 0,
        last_action(events) == HookActionView::Send(request),
    ensures
        is_asked(events, request),
{
    lemma_history(events.drop_last());
}

/// The hook is done after five events at most.
pub proof fn the_hook_ends(events: Seq<HookEventView>)
    requires
        events.len() >= 5,
    ensures
        state_after(events) is Done,
{
    lemma_history(events);
}

/// Two calls that the session names apart have requests that are named apart.
pub proof fn calls_are_named_apart(a: HookInputView, b: HookInputView)
    requires
        a.tool_use_id is Some,
        b.tool_use_id is Some,
        a.tool_use_id != b.tool_use_id,
    ensures
        a.request().request_id != b.request().request_id,
{
}

} // verus!
