//! What holds of the tray across turns, and of the tray, the connections and the hook together.

use vstd::prelude::*;

use crate::hook::{
    hook_step, output, HookActionView, HookEventView, HookInputView, HookOutputView, HookStateView,
    SpecResponseView, ALLOWED_REASON, CONNECT_ACK_TIMEOUT_MS, DECISION_TIMEOUT_MS, DENIED_REASON,
    HOOK_EVENT_NAME,
};
use crate::menu::{
    buttons_are_read_back, click_of, menu, ClickView, ALLOW_PREFIX, DENY_PREFIX,
};
use crate::protocol::ResponseView;
use crate::session::{
    pending_of, session_step, PendingView, SessionActionView, SessionEventView, SessionStateView,
    PENDING_SAFETY_TIMEOUT_MS,
};
use crate::tray::{
    after_blink, after_click, after_decision, after_event, after_events, after_icon, after_menu,
    inserted, is_pending, lemma_position, named_apart, position, removed, turn_begun, turned,
    DaemonEventView, TrayActionView, TrayView, Turn, IDLE_BLINK_INTERVAL_NS,
};
use crate::usage::{merged_all, tooltip, Quota};

verus! {

/// A name is pending exactly where some pending request has it.
pub proof fn pending_names(pending: Seq<PendingView>, id: Seq<char>)
    ensures
        is_pending(pending, id) <==> exists|i: int|
            0 <= i < pending.len() && (#[trigger] pending[i]).request_id == id,
{
    lemma_position(pending, id);
    if is_pending(pending, id) {
        assert(pending[position(pending, id)].request_id == id);
    }
}

pub(crate) proof fn lemma_position_unique(pending: Seq<PendingView>, i: int)
    requires
        named_apart(pending),
        0 <= i < pending.len(),
    ensures
        position(pending, pending[i].request_id) == i,
{
    lemma_position(pending, pending[i].request_id);
    pending_names(pending, pending[i].request_id);
}

/// A request that comes in is pending from then on, and requests of other names stay as they
/// were: none is overwritten.
pub proof fn an_arrival_keeps_the_others(pending: Seq<PendingView>, request: PendingView)
    requires
        named_apart(pending),
    ensures
        named_apart(inserted(pending, request)),
        inserted(pending, request).contains(request),
        forall|other: PendingView|
            other.request_id != request.request_id ==> (#[trigger] inserted(
                pending,
                request,
            ).contains(other) <==> pending.contains(other)),
{
    let id = request.request_id;
    let after = inserted(pending, request);
    let k = position(pending, id);
    lemma_position(pending, id);
    pending_names(pending, id);
    if is_pending(pending, id) {
        assert(after[k] == request);
    } else {
        assert(after[pending.len() as int] == request);
    }
    assert forall|other: PendingView| other.request_id != id implies (#[trigger] after.contains(
        other,
    ) <==> pending.contains(other)) by {
        if pending.contains(other) {
            let i = pending.index_of(other);
            assert(after[i] == other);
        }
        if after.contains(other) {
            let i = after.index_of(other);
            assert(pending[i] == other);
        }
    }
}

/// A request that leaves takes no other with it.
pub proof fn a_departure_keeps_the_others(pending: Seq<PendingView>, id: Seq<char>)
    requires
        named_apart(pending),
    ensures
        named_apart(removed(pending, id)),
        !is_pending(removed(pending, id), id),
        forall|other: PendingView|
            other.request_id != id ==> (#[trigger] removed(pending, id).contains(other)
                <==> pending.contains(other)),
{
    let after = removed(pending, id);
    let k = position(pending, id);
    lemma_position(pending, id);
    pending_names(pending, id);
    pending_names(after, id);
    if is_pending(pending, id) {
        assert forall|i: int| 0 <= i < after.len() implies #[trigger] after[i] == pending[if i < k {
            i
        } else {
            i + 1
        }] by {}
        assert(forall|i: int|
            0 <= i < after.len() ==> (#[trigger] after[i]).request_id != pending[k].request_id);
    }
    assert forall|other: PendingView| other.request_id != id implies (#[trigger] after.contains(
        other,
    ) <==> pending.contains(other)) by {
        if is_pending(pending, id) {
            if pending.contains(other) {
                let i = pending.index_of(other);
                assert(after[if i < k { i } else { i - 1 }] == other);
            }
            if after.contains(other) {
                let i = after.index_of(other);
                assert(pending[if i < k { i } else { i + 1 }] == other);
            }
        }
    }
}

proof fn lemma_event_keeps_names(turn: Turn, event: DaemonEventView)
    requires
        named_apart(turn.tray.pending),
    ensures
        named_apart(after_event(turn, event).tray.pending),
{
    match event {
        DaemonEventView::NewRequest(request) => an_arrival_keeps_the_others(
            turn.tray.pending,
            request,
        ),
        DaemonEventView::Expired(id) => a_departure_keeps_the_others(turn.tray.pending, id),
        DaemonEventView::Usage(_) => {},
    }
}

proof fn lemma_events_keep_names(turn: Turn, events: Seq<DaemonEventView>)
    requires
        named_apart(turn.tray.pending),
    ensures
        named_apart(after_events(turn, events).tray.pending),
    decreases events.len(),
{
    if events.len() > 0 {
        lemma_event_keeps_names(turn, events.first());
        lemma_events_keep_names(after_event(turn, events.first()), events.drop_first());
    }
}

/// The tray's invariant: in every turn, whatever comes, no two pending requests get the same
/// name.
pub proof fn requests_stay_named_apart(
    tray: TrayView,
    events: Seq<DaemonEventView>,
    button: Option<Seq<char>>,
    now_ns: u64,
)
    requires
        named_apart(tray.pending),
    ensures
        named_apart(turned(tray, events, button, now_ns).tray.pending),
{
    let received = after_events(turn_begun(tray), events);
    lemma_events_keep_names(turn_begun(tray), events);
    let pending = received.tray.pending;
    if let Some(id) = button {
        match click_of(id) {
            ClickView::Allow(id) => a_departure_keeps_the_others(pending, id),
            ClickView::Deny(id) => a_departure_keeps_the_others(pending, id),
            _ => {},
        }
    }
}

/// A click on a request's button answers the connection that the request came from, with what
/// the button says, and takes the request out of the menu.
pub proof fn a_click_answers_its_request(turn: Turn, i: int)
    requires
        named_apart(turn.tray.pending),
        0 <= i < turn.tray.pending.len(),
    ensures
        after_click(turn, ALLOW_PREFIX@ + turn.tray.pending[i].request_id) == (Turn {
            tray: TrayView { pending: turn.tray.pending.remove(i), ..turn.tray },
            actions: turn.actions.push(
                TrayActionView::Reply {
                    reply: turn.tray.pending[i].reply,
                    decision: "allow"@,
                    reason: None,
                },
            ),
            menu_dirty: true,
            ..turn
        }),
        after_click(turn, DENY_PREFIX@ + turn.tray.pending[i].request_id) == (Turn {
            tray: TrayView { pending: turn.tray.pending.remove(i), ..turn.tray },
            actions: turn.actions.push(
                TrayActionView::Reply {
                    reply: turn.tray.pending[i].reply,
                    decision: "deny"@,
                    reason: None,
                },
            ),
            menu_dirty: true,
            ..turn
        }),
{
    buttons_are_read_back(turn.tray.pending[i].request_id);
    lemma_position_unique(turn.tray.pending, i);
}

/// A request is decided once: a second decision changes nothing.
pub proof fn a_second_decision_changes_nothing(
    turn: Turn,
    id: Seq<char>,
    first: Seq<char>,
    second: Seq<char>,
)
    requires
        named_apart(turn.tray.pending),
    ensures
        after_decision(after_decision(turn, id, first), id, second) == after_decision(
            turn,
            id,
            first,
        ),
{
    a_departure_keeps_the_others(turn.tray.pending, id);
}

/// How many pending requests wait on the connection `reply`.
pub open spec fn waiting(pending: Seq<PendingView>, reply: u64) -> nat
    decreases pending.len(),
{
    if pending.len() == 0 {
        0
    } else {
        waiting(pending.drop_last(), reply) + if pending.last().reply == reply {
            1nat
        } else {
            0
        }
    }
}

/// How often the connection `reply` is answered or let go.
pub open spec fn settled(actions: Seq<TrayActionView>, reply: u64) -> nat
    decreases actions.len(),
{
    if actions.len() == 0 {
        0
    } else {
        settled(actions.drop_last(), reply) + match actions.last() {
            TrayActionView::Reply { reply: r, decision, reason } if r == reply => 1nat,
            TrayActionView::Forget { reply: r } if r == reply => 1,
            _ => 0,
        }
    }
}

/// How many requests come in from the connection `reply`.
pub open spec fn arrivals(events: Seq<DaemonEventView>, reply: u64) -> nat
    decreases events.len(),
{
    if events.len() == 0 {
        0
    } else {
        arrivals(events.drop_first(), reply) + match events.first() {
            DaemonEventView::NewRequest(request) if request.reply == reply => 1nat,
            _ => 0,
        }
    }
}

proof fn lemma_waiting_push(pending: Seq<PendingView>, request: PendingView, reply: u64)
    ensures
        waiting(pending.push(request), reply) == waiting(pending, reply) + if request.reply
            == reply {
            1nat
        } else {
            0
        },
{
    assert(pending.push(request).drop_last() == pending);
}

proof fn lemma_waiting_remove(pending: Seq<PendingView>, k: int, reply: u64)
    requires
        0 <= k < pending.len(),
    ensures
        waiting(pending.remove(k), reply) + (if pending[k].reply == reply {
            1nat
        } else {
            0
        }) == waiting(pending, reply),
    decreases pending.len(),
{
    let before = pending.drop_last();
    if k == before.len() {
        assert(pending.remove(k) == before);
    } else {
        lemma_waiting_remove(before, k, reply);
        assert(pending.remove(k).drop_last() == before.remove(k));
        assert(pending.remove(k).last() == pending.last());
    }
}

proof fn lemma_waiting_update(pending: Seq<PendingView>, k: int, request: PendingView, reply: u64)
    requires
        0 <= k < pending.len(),
    ensures
        waiting(pending.update(k, request), reply) + (if pending[k].reply == reply {
            1nat
        } else {
            0
        }) == waiting(pending, reply) + (if request.reply == reply {
            1nat
        } else {
            0
        }),
    decreases pending.len(),
{
    let before = pending.drop_last();
    if k == before.len() {
        assert(pending.update(k, request).drop_last() == before);
    } else {
        lemma_waiting_update(before, k, request, reply);
        assert(pending.update(k, request).drop_last() == before.update(k, request));
    }
}

proof fn lemma_settled_push(actions: Seq<TrayActionView>, action: TrayActionView, reply: u64)
    ensures
        settled(actions.push(action), reply) == settled(actions, reply) + match action {
            TrayActionView::Reply { reply: r, decision, reason } if r == reply => 1nat,
            TrayActionView::Forget { reply: r } if r == reply => 1,
            _ => 0,
        },
{
    assert(actions.push(action).drop_last() == actions);
}

/// What is waiting or settled in a turn so far.
spec fn accounted(turn: Turn, reply: u64) -> nat {
    waiting(turn.tray.pending, reply) + settled(turn.actions, reply)
}

proof fn lemma_event_accounted(turn: Turn, event: DaemonEventView, reply: u64)
    ensures
        accounted(after_event(turn, event), reply) == accounted(turn, reply) + match event {
            DaemonEventView::NewRequest(request) if request.reply == reply => 1nat,
            _ => 0,
        },
{
    let pending = turn.tray.pending;
    let actions = turn.actions;
    match event {
        DaemonEventView::NewRequest(request) => {
            let id = request.request_id;
            let k = position(pending, id);
            let notify = TrayActionView::Notify {
                tool_name: request.tool_name,
                preview: request.tool_input_preview,
            };
            lemma_position(pending, id);
            lemma_settled_push(actions, notify, reply);
            if is_pending(pending, id) {
                let forget = TrayActionView::Forget { reply: pending[k].reply };
                lemma_settled_push(actions.push(notify), forget, reply);
                lemma_waiting_update(pending, k, request, reply);
            } else {
                lemma_waiting_push(pending, request, reply);
            }
        },
        DaemonEventView::Expired(id) => {
            lemma_position(pending, id);
            if is_pending(pending, id) {
                let k = position(pending, id);
                let forget = TrayActionView::Forget { reply: pending[k].reply };
                lemma_settled_push(actions, forget, reply);
                lemma_waiting_remove(pending, k, reply);
            }
        },
        DaemonEventView::Usage(report) => {
            let usage = turn.tray.usage.recorded(report);
            lemma_settled_push(actions, TrayActionView::SetTooltip(tooltip(usage)), reply);
        },
    }
}

proof fn lemma_events_accounted(turn: Turn, events: Seq<DaemonEventView>, reply: u64)
    ensures
        accounted(after_events(turn, events), reply) == accounted(turn, reply) + arrivals(
            events,
            reply,
        ),
    decreases events.len(),
{
    if events.len() > 0 {
        lemma_event_accounted(turn, events.first(), reply);
        lemma_events_accounted(after_event(turn, events.first()), events.drop_first(), reply);
    }
}

proof fn lemma_decision_accounted(turn: Turn, id: Seq<char>, decision: Seq<char>, reply: u64)
    ensures
        accounted(after_decision(turn, id, decision), reply) == accounted(turn, reply),
{
    let pending = turn.tray.pending;
    lemma_position(pending, id);
    if is_pending(pending, id) {
        let k = position(pending, id);
        let answer = TrayActionView::Reply { reply: pending[k].reply, decision, reason: None };
        lemma_settled_push(turn.actions, answer, reply);
        lemma_waiting_remove(pending, k, reply);
    }
}

/// No connection is lost and none is answered twice: in every turn, each request that was
/// pending or came in is either still pending at the end, or its connection was answered or let
/// go, once.
pub proof fn every_connection_is_settled_once(
    tray: TrayView,
    events: Seq<DaemonEventView>,
    button: Option<Seq<char>>,
    now_ns: u64,
    reply: u64,
)
    ensures
        waiting(turned(tray, events, button, now_ns).tray.pending, reply) + settled(
            turned(tray, events, button, now_ns).actions,
            reply,
        ) == waiting(tray.pending, reply) + arrivals(events, reply),
{
    let begun = turn_begun(tray);
    let received = after_events(begun, events);
    lemma_events_accounted(begun, events, reply);
    let clicked = match button {
        Some(id) => after_click(received, id),
        None => received,
    };
    if let Some(id) = button {
        match click_of(id) {
            ClickView::Quit => lemma_settled_push(
                received.actions,
                TrayActionView::Exit,
                reply,
            ),
            ClickView::Allow(id) => lemma_decision_accounted(
                received,
                id,
                "allow"@,
                reply,
            ),
            ClickView::Deny(id) => lemma_decision_accounted(
                received,
                id,
                "deny"@,
                reply,
            ),
            _ => {},
        }
    }
    let drawn = after_menu(clicked);
    lemma_settled_push(
        clicked.actions,
        TrayActionView::SetMenu(menu(clicked.tray.usage, clicked.tray.pending)),
        reply,
    );
    let blinked = after_blink(drawn, now_ns);
    lemma_settled_push(
        blinked.actions,
        TrayActionView::SetIcon { eyes_open: blinked.tray.eyes_open },
        reply,
    );
}


proof fn lemma_events_clean(turn: Turn, events: Seq<DaemonEventView>)
    requires
        !after_events(turn, events).menu_dirty,
    ensures
        !turn.menu_dirty,
        after_events(turn, events).tray == turn.tray,
    decreases events.len(),
{
    if events.len() > 0 {
        lemma_events_clean(after_event(turn, events.first()), events.drop_first());
    }
}

/// The menu is never stale: a turn that changes the pending requests or the usage ends with a
/// menu that shows them as they are then.
pub proof fn the_menu_is_never_stale(
    tray: TrayView,
    events: Seq<DaemonEventView>,
    button: Option<Seq<char>>,
    now_ns: u64,
)
    requires
        ({
            let end = turned(tray, events, button, now_ns).tray;
            end.pending != tray.pending || end.usage != tray.usage
        }),
    ensures
        ({
            let end = turned(tray, events, button, now_ns);
            end.actions.contains(
                TrayActionView::SetMenu(menu(end.tray.usage, end.tray.pending)),
            )
        }),
{
    let begun = turn_begun(tray);
    let received = after_events(begun, events);
    if !received.menu_dirty {
        lemma_events_clean(begun, events);
    }
    let clicked = match button {
        Some(id) => after_click(received, id),
        None => received,
    };
    assert(clicked.menu_dirty);
    let drawn = TrayActionView::SetMenu(menu(clicked.tray.usage, clicked.tray.pending));
    let end = turned(tray, events, button, now_ns);
    assert(end.actions[clicked.actions.len() as int] == drawn);
}

/// Some action draws the icon.
pub open spec fn draws_icon(actions: Seq<TrayActionView>) -> bool {
    exists|i: int| 0 <= i < actions.len() && (#[trigger] actions[i]) is SetIcon
}

/// Some event reports usage.
pub open spec fn reports_usage(events: Seq<DaemonEventView>) -> bool {
    exists|i: int| 0 <= i < events.len() && (#[trigger] events[i]) is Usage
}

proof fn lemma_events_icon(turn: Turn, events: Seq<DaemonEventView>)
    requires
        !draws_icon(turn.actions),
    ensures
        !draws_icon(after_events(turn, events).actions),
        after_events(turn, events).icon_dirty == (turn.icon_dirty || reports_usage(events)),
        after_events(turn, events).tray.last_blink_ns == turn.tray.last_blink_ns,
        after_events(turn, events).tray.eyes_open == turn.tray.eyes_open,
    decreases events.len(),
{
    if events.len() > 0 {
        let rest = events.drop_first();
        let next = after_event(turn, events.first());
        assert(!draws_icon(next.actions));
        lemma_events_icon(next, rest);
        if reports_usage(rest) {
            let i = choose|i: int| 0 <= i < rest.len() && (#[trigger] rest[i]) is Usage;
            assert(events[i + 1] == rest[i]);
        }
        if reports_usage(events) {
            let i = choose|i: int| 0 <= i < events.len() && (#[trigger] events[i]) is Usage;
            if i > 0 {
                assert(rest[i - 1] == events[i]);
            }
        } else {
            assert(!(events[0] is Usage));
        }
    }
}

/// The icon is drawn anew exactly when usage was reported or the eyes blink; pending requests do
/// not touch it. The eyes open or close exactly when they did not for the length of the interval.
pub proof fn the_icon_is_about_blinking_and_usage(
    tray: TrayView,
    events: Seq<DaemonEventView>,
    button: Option<Seq<char>>,
    now_ns: u64,
)
    ensures
        ({
            let end = turned(tray, events, button, now_ns);
            let due = now_ns - tray.last_blink_ns >= IDLE_BLINK_INTERVAL_NS;
            &&& draws_icon(end.actions) <==> due || reports_usage(events)
            &&& end.tray.eyes_open == (tray.eyes_open != due)
            &&& end.tray.last_blink_ns == if due {
                now_ns
            } else {
                tray.last_blink_ns
            }
        }),
{
    let begun = turn_begun(tray);
    let received = after_events(begun, events);
    lemma_events_icon(begun, events);
    let clicked = match button {
        Some(id) => after_click(received, id),
        None => received,
    };
    assert(!draws_icon(clicked.actions));
    let drawn = after_menu(clicked);
    assert(!draws_icon(drawn.actions));
    let blinked = after_blink(drawn, now_ns);
    let end = after_icon(blinked);
    if blinked.icon_dirty {
        assert(end.actions[blinked.actions.len() as int] is SetIcon);
    }
}

/// `message` is what the hook reads of `response`.
pub open spec fn carries(message: SpecResponseView, response: ResponseView) -> bool {
    match response {
        ResponseView::Ack { request_id } => message.msg_type == "ack"@,
        ResponseView::Decision { request_id, decision, reason } => {
            &&& message.msg_type == "decision"@
            &&& message.decision == Some(decision)
            &&& message.reason == reason
        },
    }
}

/// What the hook prints for a click without a reason.
pub open spec fn printed_for(denied: bool) -> HookOutputView {
    HookOutputView {
        hook_event_name: HOOK_EVENT_NAME@,
        permission_decision: if denied {
            "deny"@
        } else {
            "allow"@
        },
        permission_decision_reason: if denied {
            DENIED_REASON@
        } else {
            ALLOWED_REASON@
        },
    }
}

/// The daemon's first answer takes the hook on to waiting for the user.
pub proof fn the_ack_is_understood(
    request_id: Seq<char>,
    message: SpecResponseView,
)
    requires
        carries(message, ResponseView::Ack { request_id }),
    ensures
        hook_step(HookStateView::AwaitingAck, HookEventView::Received(message)).0
            == HookStateView::AwaitingDecision,
{
}

/// From click to answer: the user clicks a button of a pending request; the tray answers the
/// connection that the request came from; the connection sends that decision; and the hook that
/// waits there prints it.
pub proof fn the_click_is_what_the_hook_prints(
    turn: Turn,
    i: int,
    denied: bool,
    message: SpecResponseView,
)
    requires
        named_apart(turn.tray.pending),
        0 <= i < turn.tray.pending.len(),
        carries(
            message,
            ResponseView::Decision {
                request_id: turn.tray.pending[i].request_id,
                decision: printed_for(denied).permission_decision,
                reason: None,
            },
        ),
    ensures
        ({
            let request = turn.tray.pending[i];
            let decision = printed_for(denied).permission_decision;
            let button = if denied {
                DENY_PREFIX@
            } else {
                ALLOW_PREFIX@
            } + request.request_id;
            &&& after_click(turn, button).actions.last() == TrayActionView::Reply {
                reply: request.reply,
                decision,
                reason: None,
            }
            &&& session_step(
                SessionStateView::Waiting(request.request_id),
                SessionEventView::Decided { decision, reason: None },
            ).1 == SessionActionView::Send(
                ResponseView::Decision {
                    request_id: request.request_id,
                    decision,
                    reason: None,
                },
            )
            &&& hook_step(HookStateView::AwaitingDecision, HookEventView::Received(message)) == (
                HookStateView::Done,
                HookActionView::Print(printed_for(denied)),
            )
        }),
{
    a_click_answers_its_request(turn, i);
    reveal_strlit("allow");
    reveal_strlit("deny");
    assert("allow"@[0] != "deny"@[0]);
    assert(output(message.decision, message.reason) == Some(printed_for(denied)));
}

/// Several calls of one prompt wait side by side: each keeps its own entry, because each has a
/// name of its own.
pub proof fn calls_of_one_prompt_wait_side_by_side(
    pending: Seq<PendingView>,
    a: HookInputView,
    b: HookInputView,
    reply_a: u64,
    reply_b: u64,
)
    requires
        named_apart(pending),
        a.prompt_id == b.prompt_id,
        a.tool_use_id is Some,
        b.tool_use_id is Some,
        a.tool_use_id != b.tool_use_id,
    ensures
        ({
            let first = pending_of(a.request(), reply_a);
            let second = pending_of(b.request(), reply_b);
            let both = inserted(inserted(pending, first), second);
            both.contains(first) && both.contains(second)
        }),
{
    let first = pending_of(a.request(), reply_a);
    let second = pending_of(b.request(), reply_b);
    an_arrival_keeps_the_others(pending, first);
    an_arrival_keeps_the_others(inserted(pending, first), second);
}


/// The time limits of the hook together are shorter than that of the daemon.
pub proof fn the_hook_gives_up_before_the_daemon()
    ensures
        CONNECT_ACK_TIMEOUT_MS + DECISION_TIMEOUT_MS < PENDING_SAFETY_TIMEOUT_MS,
{
}

/// What the events report on the quota of five hours.
pub open spec fn five_hour_reports(events: Seq<DaemonEventView>) -> Seq<Quota>
    decreases events.len(),
{
    if events.len() == 0 {
        seq![]
    } else {
        let before = five_hour_reports(events.drop_last());
        match events.last() {
            DaemonEventView::Usage(report) => before.push(report.five_hour()),
            _ => before,
        }
    }
}

/// What the events report on the quota of seven days.
pub open spec fn seven_day_reports(events: Seq<DaemonEventView>) -> Seq<Quota>
    decreases events.len(),
{
    if events.len() == 0 {
        seq![]
    } else {
        let before = seven_day_reports(events.drop_last());
        match events.last() {
            DaemonEventView::Usage(report) => before.push(report.seven_day()),
            _ => before,
        }
    }
}

pub(crate) proof fn lemma_last_event(turn: Turn, events: Seq<DaemonEventView>)
    requires
        events.len() > 0,
    ensures
        after_events(turn, events) == after_event(
            after_events(turn, events.drop_last()),
            events.last(),
        ),
    decreases events.len(),
{
    let rest = events.drop_first();
    let next = after_event(turn, events.first());
    if rest.len() == 0 {
        assert(events.drop_last().len() == 0);
        assert(after_events(next, rest) == next);
    } else {
        lemma_last_event(next, rest);
        assert(events.drop_last().drop_first() == rest.drop_last());
        assert(events.drop_last().first() == events.first());
    }
}

proof fn lemma_usage_merged(turn: Turn, events: Seq<DaemonEventView>)
    ensures
        after_events(turn, events).tray.usage.five_hour() == merged_all(
            turn.tray.usage.five_hour(),
            five_hour_reports(events),
        ),
        after_events(turn, events).tray.usage.seven_day() == merged_all(
            turn.tray.usage.seven_day(),
            seven_day_reports(events),
        ),
    decreases events.len(),
{
    if events.len() > 0 {
        let before = events.drop_last();
        lemma_last_event(turn, events);
        lemma_usage_merged(turn, before);
        if let DaemonEventView::Usage(report) = events.last() {
            assert(five_hour_reports(events).drop_last() == five_hour_reports(before));
            assert(seven_day_reports(events).drop_last() == seven_day_reports(before));
        }
    }
}

/// What the tray knows of usage after a turn is what it knew, with every report of the turn taken
/// into account in order, and nothing else.
pub proof fn usage_is_what_was_reported(
    tray: TrayView,
    events: Seq<DaemonEventView>,
    button: Option<Seq<char>>,
    now_ns: u64,
)
    ensures
        turned(tray, events, button, now_ns).tray.usage.five_hour() == merged_all(
            tray.usage.five_hour(),
            five_hour_reports(events),
        ),
        turned(tray, events, button, now_ns).tray.usage.seven_day() == merged_all(
            tray.usage.seven_day(),
            seven_day_reports(events),
        ),
{
    lemma_usage_merged(turn_begun(tray), events);
}

} // verus!
