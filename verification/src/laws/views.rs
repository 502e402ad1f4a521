//! A view shows a value as it is: each text by its characters, and everything else unchanged. What
//! is stated over views is therefore stated of the values themselves.

use vstd::prelude::*;

use crate::hook::{
    HookAction, HookActionView, HookEvent, HookEventView, HookInput, HookOutput, HookState,
    HookStateView, SpecResponse,
};
use crate::icon::{layer_views, line_views, Layer, LayerView, Point};
use crate::menu::{
    entry_views, pending_views, Click, ClickView, MenuEntry, MenuEntryView,
};
use crate::protocol::{text_view, Incoming, IncomingView, Request, Response, ResponseView};
use crate::session::{
    PendingRequest, SessionAction, SessionActionView, SessionEvent, SessionEventView, SessionState,
    SessionStateView,
};
use crate::tray::{
    action_views, event_views, DaemonEvent, DaemonEventView, Tray, TrayAction, TrayActionView,
};

verus! {

/// An optional text shows whether it is there, and its characters.
pub proof fn optional_texts_show_their_characters(text: Option<String>)
    ensures
        text is None <==> text_view(text) is None,
        text matches Some(s) ==> text_view(text) == Some(s@),
{
}

/// What the session says is shown field by field.
pub proof fn inputs_are_shown_as_they_are(input: HookInput)
    ensures
        input@.session_id == text_view(input.session_id),
        input@.prompt_id == text_view(input.prompt_id),
        input@.tool_use_id == text_view(input.tool_use_id),
        input@.cwd == text_view(input.cwd),
        input@.tool_name == text_view(input.tool_name),
        input@.permission_mode == text_view(input.permission_mode),
        input@.tool_input == input.tool_input,
{
}

/// So is a request.
pub proof fn requests_are_shown_as_they_are(request: Request)
    ensures
        request@.msg_type == request.msg_type@,
        request@.request_id == request.request_id@,
        request@.session_id == request.session_id@,
        request@.cwd == request.cwd@,
        request@.tool_name == request.tool_name@,
        request@.tool_input == request.tool_input,
{
}

/// So are the answers to it, as they are sent and as they are read.
pub proof fn answers_are_shown_as_they_are(response: Response, message: SpecResponse)
    ensures
        match response {
            Response::Ack { request_id } => response@ == ResponseView::Ack {
                request_id: request_id@,
            },
            Response::Decision { request_id, decision, reason } => response@
                == ResponseView::Decision {
                request_id: request_id@,
                decision: decision@,
                reason: text_view(reason),
            },
        },
        message@.msg_type == message.msg_type@,
        message@.decision == text_view(message.decision),
        message@.reason == text_view(message.reason),
{
}

/// So is what the hook prints.
pub proof fn outputs_are_shown_as_they_are(out: HookOutput)
    ensures
        out@.hook_event_name == out.hook_event_name@,
        out@.permission_decision == out.permission_decision@,
        out@.permission_decision_reason == out.permission_decision_reason@,
{
}

/// So is everything that drives the hook.
pub proof fn the_hook_is_shown_as_it_is(state: HookState, event: HookEvent, action: HookAction)
    ensures
        match state {
            HookState::Idle => state@ == HookStateView::Idle,
            HookState::Connecting(request) => state@ == HookStateView::Connecting(request@),
            HookState::Sending => state@ == HookStateView::Sending,
            HookState::AwaitingAck => state@ == HookStateView::AwaitingAck,
            HookState::AwaitingDecision => state@ == HookStateView::AwaitingDecision,
            HookState::Done => state@ == HookStateView::Done,
        },
        match event {
            HookEvent::Payload(input) => event@ == HookEventView::Payload(input@),
            HookEvent::Connected => event@ == HookEventView::Connected,
            HookEvent::Sent => event@ == HookEventView::Sent,
            HookEvent::Received(message) => event@ == HookEventView::Received(message@),
            HookEvent::Failed => event@ == HookEventView::Failed,
        },
        match action {
            HookAction::Connect => action@ == HookActionView::Connect,
            HookAction::Send(request) => action@ == HookActionView::Send(request@),
            HookAction::Receive { timeout_ms } => action@ == HookActionView::Receive { timeout_ms },
            HookAction::Print(out) => action@ == HookActionView::Print(out@),
            HookAction::Exit => action@ == HookActionView::Exit,
        },
{
}

/// So is a request that waits.
pub proof fn pending_requests_are_shown_as_they_are(request: PendingRequest)
    ensures
        request@.request_id == request.request_id@,
        request@.tool_name == request.tool_name@,
        request@.tool_input_preview == request.tool_input_preview@,
        request@.reply == request.reply,
{
}

/// So is everything that drives a connection.
pub proof fn connections_are_shown_as_they_are(
    state: SessionState,
    event: SessionEvent,
    action: SessionAction,
)
    ensures
        match state {
            SessionState::Opened => state@ == SessionStateView::Opened,
            SessionState::Acknowledging(request, reply) => state@
                == SessionStateView::Acknowledging(request@, reply),
            SessionState::Registering(id) => state@ == SessionStateView::Registering(id@),
            SessionState::Waiting(id) => state@ == SessionStateView::Waiting(id@),
            SessionState::Closing => state@ == SessionStateView::Closing,
            SessionState::Closed => state@ == SessionStateView::Closed,
        },
        match event {
            SessionEvent::Arrived { request, reply } => event@ == SessionEventView::Arrived {
                request: request@,
                reply,
            },
            SessionEvent::Sent => event@ == SessionEventView::Sent,
            SessionEvent::Registered => event@ == SessionEventView::Registered,
            SessionEvent::Decided { decision, reason } => event@ == SessionEventView::Decided {
                decision: decision@,
                reason: text_view(reason),
            },
            SessionEvent::Failed => event@ == SessionEventView::Failed,
        },
        match action {
            SessionAction::Send(response) => action@ == SessionActionView::Send(response@),
            SessionAction::Register(pending) => action@ == SessionActionView::Register(pending@),
            SessionAction::Wait { timeout_ms } => action@ == SessionActionView::Wait { timeout_ms },
            SessionAction::Expire(id) => action@ == SessionActionView::Expire(id@),
            SessionAction::Close => action@ == SessionActionView::Close,
        },
{
}

/// So are lines that come in, lines of the menu, and clicks on them.
pub proof fn lines_are_shown_as_they_are(line: Incoming, entry: MenuEntry, click: Click)
    ensures
        match line {
            Incoming::Empty => line@ == IncomingView::Empty,
            Incoming::NotJson => line@ == IncomingView::NotJson,
            Incoming::Request(text) => line@ == IncomingView::Request(text@),
            Incoming::Usage(text) => line@ == IncomingView::Usage(text@),
            Incoming::Unknown => line@ == IncomingView::Unknown,
        },
        match entry {
            MenuEntry::Label(text) => entry@ == MenuEntryView::Label(text@),
            MenuEntry::Button { id, text } => entry@ == MenuEntryView::Button {
                id: id@,
                text: text@,
            },
            MenuEntry::Separator => entry@ == MenuEntryView::Separator,
        },
        match click {
            Click::Quit => click@ == ClickView::Quit,
            Click::Allow(id) => click@ == ClickView::Allow(id@),
            Click::Deny(id) => click@ == ClickView::Deny(id@),
            Click::Unknown => click@ == ClickView::Unknown,
        },
{
}

/// So is everything that drives the tray.
pub proof fn the_tray_is_shown_as_it_is(tray: Tray, event: DaemonEvent, action: TrayAction)
    ensures
        tray@.pending == pending_views(tray.pending@),
        tray@.usage == tray.usage,
        tray@.eyes_open == tray.eyes_open,
        tray@.last_blink_ns == tray.last_blink_ns,
        match event {
            DaemonEvent::NewRequest(request) => event@ == DaemonEventView::NewRequest(request@),
            DaemonEvent::Expired(id) => event@ == DaemonEventView::Expired(id@),
            DaemonEvent::Usage(usage) => event@ == DaemonEventView::Usage(usage.snapshot()),
        },
        match action {
            TrayAction::Notify { tool_name, preview } => action@ == TrayActionView::Notify {
                tool_name: tool_name@,
                preview: preview@,
            },
            TrayAction::Reply { reply, decision, reason } => action@ == TrayActionView::Reply {
                reply,
                decision: decision@,
                reason: text_view(reason),
            },
            TrayAction::Forget { reply } => action@ == TrayActionView::Forget { reply },
            TrayAction::SetTooltip(text) => action@ == TrayActionView::SetTooltip(text@),
            TrayAction::SetMenu(entries) => action@ == TrayActionView::SetMenu(
                entry_views(entries@),
            ),
            TrayAction::SetIcon { eyes_open } => action@ == TrayActionView::SetIcon { eyes_open },
            TrayAction::Exit => action@ == TrayActionView::Exit,
        },
{
}

/// So is a layer of the icon.
pub proof fn layers_are_shown_as_they_are(layer: Layer)
    ensures
        match layer {
            Layer::Fill { color, rects } => layer@ == LayerView::Fill { color, rects: rects@ },
            Layer::Stroke { color, width, lines } => layer@ == LayerView::Stroke {
                color,
                width,
                lines: line_views(lines@),
            },
        },
{
}

/// A series of values is shown one by one, in order.
pub proof fn series_are_shown_one_by_one(
    pending: Seq<PendingRequest>,
    entries: Seq<MenuEntry>,
    events: Seq<DaemonEvent>,
    actions: Seq<TrayAction>,
    lines: Seq<Vec<Point>>,
    layers: Seq<Layer>,
    i: int,
)
    ensures
        pending_views(pending).len() == pending.len(),
        entry_views(entries).len() == entries.len(),
        event_views(events).len() == events.len(),
        action_views(actions).len() == actions.len(),
        line_views(lines).len() == lines.len(),
        layer_views(layers).len() == layers.len(),
        0 <= i < pending.len() ==> pending_views(pending)[i] == pending[i]@,
        0 <= i < entries.len() ==> entry_views(entries)[i] == entries[i]@,
        0 <= i < events.len() ==> event_views(events)[i] == events[i]@,
        0 <= i < actions.len() ==> action_views(actions)[i] == actions[i]@,
        0 <= i < lines.len() ==> line_views(lines)[i] == lines[i]@,
        0 <= i < layers.len() ==> layer_views(layers)[i] == layers[i]@,
{
}

} // verus!
