//! What a connection to the daemon does for the hook at its other end.

use vstd::prelude::*;

use crate::json::json_text;
use crate::protocol::{RequestView, ResponseView};
use crate::session::{
    last_action, pending_of, session_step, state_after, PendingView, SessionActionView,
    SessionEventView, SessionStateView,
};

verus! {

/// What the tray is told of a request: its name, its tool, the first sixty characters of the text
/// of its input, and the way back to the connection that it came on.
pub open spec fn tells_of(pending: PendingView, request: RequestView, reply: u64) -> bool {
    &&& pending.request_id == request.request_id
    &&& pending.tool_name == request.tool_name
    &&& pending.reply == reply
    &&& pending.tool_input_preview.is_prefix_of(json_text(request.tool_input))
    &&& json_text(request.tool_input).len() <= 60 ==> pending.tool_input_preview == json_text(
        request.tool_input,
    )
    &&& json_text(request.tool_input).len() > 60 ==> pending.tool_input_preview.len() == 60
}

/// A connection hands a request to the tray exactly where that request arrived and was
/// acknowledged, and hands it over with the way back to this very connection.
pub proof fn a_connection_registers_its_own_request(
    events: Seq<SessionEventView>,
    pending: PendingView,
)
    requires
        events.len() > 0,
    ensures
        last_action(events) == SessionActionView::Register(pending) ==> events.len() == 2
            && events[1] is Sent && (events[0] matches SessionEventView::Arrived { request, reply }
            && pending.request_id == request.request_id && pending.tool_name == request.tool_name
            && pending.reply == reply && tells_of(pending, request, reply)),
        events.len() == 2 && events[0] is Arrived && events[1] is Sent ==> last_action(
            events,
        ) is Register,
{
    reveal_with_fuel(state_after, 3);
    let before = events.drop_last();
    if events.len() == 2 {
        assert(before.last() == events[0]);
        assert(before.drop_last().len() == 0);
    } else {
        lemma_acknowledging(before);
    }
}

/// Only the request itself leads to acknowledging it.
proof fn lemma_acknowledging(events: Seq<SessionEventView>)
    ensures
        state_after(events) is Acknowledging ==> events.len() == 1,
        state_after(events) is Opened ==> events.len() == 0,
    decreases events.len(),
{
    if events.len() > 0 {
        lemma_acknowledging(events.drop_last());
    }
}

/// Requests of two connections keep their ways back: what one registers never leads to the other.
pub proof fn connections_are_not_mixed_up(
    one: RequestView,
    other: RequestView,
    to_one: u64,
    to_other: u64,
)
    requires
        to_one != to_other,
    ensures
        pending_of(one, to_one).reply != pending_of(other, to_other).reply,
        pending_of(one, to_one).reply == to_one,
        pending_of(other, to_other).reply == to_other,
{
}

/// From the request to the answer: a connection acknowledges the request by its name, hands it to
/// the tray, waits for the user, and sends what the user decided, under the name of the request.
pub proof fn a_decided_request_is_answered(
    request: RequestView,
    reply: u64,
    decision: Seq<char>,
    reason: Option<Seq<char>>,
    last: SessionEventView,
)
    ensures
        ({
            let (acknowledging, first) = session_step(
                SessionStateView::Opened,
                SessionEventView::Arrived { request, reply },
            );
            let (registering, second) = session_step(acknowledging, SessionEventView::Sent);
            let (waiting, third) = session_step(registering, SessionEventView::Registered);
            let (closing, fourth) = session_step(
                waiting,
                SessionEventView::Decided { decision, reason },
            );
            let (closed, fifth) = session_step(closing, last);
            &&& first == SessionActionView::Send(
                ResponseView::Ack { request_id: request.request_id },
            )
            &&& second matches SessionActionView::Register(pending)
            &&& tells_of(pending, request, reply)
            &&& third == SessionActionView::Wait { timeout_ms: 600_000 }
            &&& fourth == SessionActionView::Send(
                ResponseView::Decision { request_id: request.request_id, decision, reason },
            )
            &&& fifth == SessionActionView::Close
            &&& closed == SessionStateView::Closed
        }),
{
}

/// A request that nobody decides on in time is taken back from the tray by its name, and then the
/// connection closes.
pub proof fn an_undecided_request_expires(
    request: RequestView,
    reply: u64,
    last: SessionEventView,
)
    ensures
        ({
            let (acknowledging, first) = session_step(
                SessionStateView::Opened,
                SessionEventView::Arrived { request, reply },
            );
            let (registering, second) = session_step(acknowledging, SessionEventView::Sent);
            let (waiting, third) = session_step(registering, SessionEventView::Registered);
            let (closing, fourth) = session_step(waiting, SessionEventView::Failed);
            let (closed, fifth) = session_step(closing, last);
            &&& fourth == SessionActionView::Expire(request.request_id)
            &&& fifth == SessionActionView::Close
            &&& closed == SessionStateView::Closed
        }),
{
}

/// Each state of a connection leads on by exactly what it waits for, with what it carries.
pub proof fn what_is_carried_is_kept(
    request: RequestView,
    reply: u64,
    id: Seq<char>,
    decision: Seq<char>,
    reason: Option<Seq<char>>,
)
    ensures
        session_step(SessionStateView::Opened, SessionEventView::Arrived { request, reply }).0
            == SessionStateView::Acknowledging(request, reply),
        session_step(SessionStateView::Acknowledging(request, reply), SessionEventView::Sent).0
            == SessionStateView::Registering(request.request_id),
        session_step(
            SessionStateView::Acknowledging(request, reply),
            SessionEventView::Sent,
        ).1 matches SessionActionView::Register(pending) && tells_of(pending, request, reply),
        session_step(SessionStateView::Registering(id), SessionEventView::Registered) == (
            SessionStateView::Waiting(id),
            SessionActionView::Wait { timeout_ms: 600_000 },
        ),
        session_step(
            SessionStateView::Waiting(id),
            SessionEventView::Decided { decision, reason },
        ) == (
            SessionStateView::Closing,
            SessionActionView::Send(ResponseView::Decision { request_id: id, decision, reason }),
        ),
        session_step(SessionStateView::Waiting(id), SessionEventView::Failed) == (
            SessionStateView::Closing,
            SessionActionView::Expire(id),
        ),
{
}

/// Anything but the next thing that was waited for closes the connection.
pub proof fn anything_else_closes(state: SessionStateView, event: SessionEventView)
    requires
        !(state is Opened && event is Arrived),
        !(state is Acknowledging && event is Sent),
        !(state is Registering && event is Registered),
        !(state is Waiting && (event is Decided || event is Failed)),
    ensures
        session_step(state, event) == (SessionStateView::Closed, SessionActionView::Close),
{
}

} // verus!
