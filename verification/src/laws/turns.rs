//! What the tray does in its turns: whom it tells, whom it answers, and what it shows.

use vstd::prelude::*;

use crate::guarantees::{lemma_last_event, pending_names};
use crate::laws::menus::{
    a_click_is_read_by_the_name_of_its_button, buttons_do_what_they_say,
    other_names_ask_for_nothing,
};
use crate::menu::{click_of, menu, ClickView, MenuEntryView};
use crate::session::PendingView;
use crate::tray::{
    after_click, after_event, after_events, is_pending, lemma_position, position, turned,
    DaemonEventView, TrayActionView, TrayView, Turn, TURN_INTERVAL_MS,
};
use crate::usage::{tooltip, UsageSnapshot};

verus! {

/// Where a request of a name that comes first stands.
proof fn lemma_first(pending: Seq<PendingView>, id: Seq<char>, i: int)
    requires
        0 <= i < pending.len(),
        pending[i].request_id == id,
        forall|j: int| 0 <= j < i ==> (#[trigger] pending[j]).request_id != id,
    ensures
        position(pending, id) == i,
        is_pending(pending, id),
{
    lemma_position(pending, id);
    pending_names(pending, id);
}

/// A request of a new name: the user is told of it, and it waits behind the others.
pub proof fn an_arrival_is_told_and_waits(turn: Turn, request: PendingView)
    requires
        forall|i: int|
            0 <= i < turn.tray.pending.len() ==> (#[trigger] turn.tray.pending[i]).request_id
                != request.request_id,
    ensures
        ({
            let after = after_event(turn, DaemonEventView::NewRequest(request));
            &&& after.tray.pending == turn.tray.pending.push(request)
            &&& after.tray.usage == turn.tray.usage
            &&& after.tray.eyes_open == turn.tray.eyes_open
            &&& after.tray.last_blink_ns == turn.tray.last_blink_ns
            &&& after.actions == turn.actions.push(
                TrayActionView::Notify {
                    tool_name: request.tool_name,
                    preview: request.tool_input_preview,
                },
            )
            &&& after.menu_dirty
            &&& after.icon_dirty == turn.icon_dirty
        }),
{
    pending_names(turn.tray.pending, request.request_id);
}

/// A request of a name that waits already: the user is told of it, it takes the place of the one
/// before, and the connection of that one is let go.
pub proof fn an_arrival_of_a_known_name_takes_its_place(
    turn: Turn,
    request: PendingView,
    i: int,
)
    requires
        0 <= i < turn.tray.pending.len(),
        turn.tray.pending[i].request_id == request.request_id,
        forall|j: int|
            0 <= j < i ==> (#[trigger] turn.tray.pending[j]).request_id != request.request_id,
    ensures
        ({
            let after = after_event(turn, DaemonEventView::NewRequest(request));
            &&& after.tray.pending == turn.tray.pending.update(i, request)
            &&& after.tray.usage == turn.tray.usage
            &&& after.tray.eyes_open == turn.tray.eyes_open
            &&& after.tray.last_blink_ns == turn.tray.last_blink_ns
            &&& after.actions == turn.actions.push(
                TrayActionView::Notify {
                    tool_name: request.tool_name,
                    preview: request.tool_input_preview,
                },
            ).push(TrayActionView::Forget { reply: turn.tray.pending[i].reply })
            &&& after.menu_dirty
            &&& after.icon_dirty == turn.icon_dirty
        }),
{
    lemma_first(turn.tray.pending, request.request_id, i);
}

/// A request that expired leaves, and its connection is let go.
pub proof fn an_expired_request_leaves(turn: Turn, i: int)
    requires
        0 <= i < turn.tray.pending.len(),
        forall|j: int|
            0 <= j < i ==> (#[trigger] turn.tray.pending[j]).request_id
                != turn.tray.pending[i].request_id,
    ensures
        ({
            let after = after_event(turn, DaemonEventView::Expired(turn.tray.pending[i].request_id));
            &&& after.tray.pending == turn.tray.pending.remove(i)
            &&& after.tray.usage == turn.tray.usage
            &&& after.tray.eyes_open == turn.tray.eyes_open
            &&& after.tray.last_blink_ns == turn.tray.last_blink_ns
            &&& after.actions == turn.actions.push(
                TrayActionView::Forget { reply: turn.tray.pending[i].reply },
            )
            &&& after.menu_dirty
            &&& after.icon_dirty == turn.icon_dirty
        }),
{
    lemma_first(turn.tray.pending, turn.tray.pending[i].request_id, i);
}

/// An expiry of a name that does not wait any more changes nothing.
pub proof fn an_expiry_of_no_request_is_nothing(turn: Turn, id: Seq<char>)
    requires
        forall|i: int|
            0 <= i < turn.tray.pending.len() ==> (#[trigger] turn.tray.pending[i]).request_id
                != id,
    ensures
        after_event(turn, DaemonEventView::Expired(id)) == turn,
{
    pending_names(turn.tray.pending, id);
}

/// A usage report is recorded, the tooltip shows at once what is known with it, and menu and icon
/// have to be drawn.
pub proof fn a_report_is_recorded_and_shown(turn: Turn, report: UsageSnapshot)
    ensures
        ({
            let after = after_event(turn, DaemonEventView::Usage(report));
            &&& after.tray.usage == turn.tray.usage.recorded(report)
            &&& after.tray.pending == turn.tray.pending
            &&& after.tray.eyes_open == turn.tray.eyes_open
            &&& after.tray.last_blink_ns == turn.tray.last_blink_ns
            &&& after.actions == turn.actions.push(
                TrayActionView::SetTooltip(tooltip(after.tray.usage)),
            )
            &&& after.menu_dirty
            &&& after.icon_dirty
        }),
{
}

/// Events are taken one after the other, as they came, and none is left out.
pub proof fn events_are_taken_as_they_came(
    turn: Turn,
    events: Seq<DaemonEventView>,
    last: DaemonEventView,
)
    ensures
        after_events(turn, seq![]) == turn,
        after_events(turn, events.push(last)) == after_event(after_events(turn, events), last),
{
    lemma_last_event(turn, events.push(last));
    assert(events.push(last).drop_last() == events);
}

/// A turn before anything came.
pub open spec fn untouched(tray: TrayView) -> Turn {
    Turn { tray, actions: seq![], menu_dirty: false, icon_dirty: false }
}

/// What taking the events of a turn does and does not do.
proof fn lemma_received(turn: Turn, events: Seq<DaemonEventView>)
    ensures
        ({
            let after = after_events(turn, events);
            &&& after.tray.eyes_open == turn.tray.eyes_open
            &&& after.tray.last_blink_ns == turn.tray.last_blink_ns
            &&& after.icon_dirty == (turn.icon_dirty || exists|i: int|
                0 <= i < events.len() && (#[trigger] events[i]) is Usage)
            &&& turn.menu_dirty ==> after.menu_dirty
            &&& forall|i: int|
                0 <= i < events.len() && !((#[trigger] events[i]) is Expired) ==> after.menu_dirty
            &&& after.actions.len() >= turn.actions.len()
            &&& forall|k: int|
                0 <= k < turn.actions.len() ==> (#[trigger] after.actions[k]) == turn.actions[k]
            &&& forall|k: int|
                turn.actions.len() <= k < after.actions.len() ==> (#[trigger] after.actions[k])
                    is Notify || after.actions[k] is Forget || after.actions[k] is SetTooltip
            &&& !after.menu_dirty ==> after.actions == turn.actions && after.tray == turn.tray
        }),
    decreases events.len(),
{
    if events.len() > 0 {
        let before = events.drop_last();
        let last = events.last();
        lemma_last_event(turn, events);
        lemma_received(turn, before);
        assert forall|i: int| 0 <= i < events.len() && !((#[trigger] events[i]) is Expired) implies
            after_events(turn, events).menu_dirty by {
            if i < before.len() {
                assert(before[i] == events[i]);
            }
        }
        if last is Usage {
            assert(events[events.len() - 1] is Usage);
        } else {
            if exists|i: int| 0 <= i < events.len() && (#[trigger] events[i]) is Usage {
                let i = choose|i: int| 0 <= i < events.len() && (#[trigger] events[i]) is Usage;
                assert(before[i] == events[i]);
            }
            if exists|i: int| 0 <= i < before.len() && (#[trigger] before[i]) is Usage {
                let i = choose|i: int| 0 <= i < before.len() && (#[trigger] before[i]) is Usage;
                assert(events[i] == before[i]);
            }
        }
    }
}

/// What is drawn at the end of a turn: the menu, then the icon, each where it has to be.
pub open spec fn drawn(
    menu_dirty: bool,
    icon_dirty: bool,
    usage: UsageSnapshot,
    pending: Seq<PendingView>,
    eyes_open: bool,
) -> Seq<TrayActionView> {
    let menus = if menu_dirty {
        seq![TrayActionView::SetMenu(menu(usage, pending))]
    } else {
        seq![]
    };
    let icons = if icon_dirty {
        seq![TrayActionView::SetIcon { eyes_open }]
    } else {
        seq![]
    };
    menus + icons
}

/// A turn takes its events and then draws what they changed: the menu where they did, and the icon
/// where usage was reported or the eyes moved, which they do every five seconds and no sooner.
pub proof fn a_turn_takes_events_and_draws(
    tray: TrayView,
    events: Seq<DaemonEventView>,
    now_ns: u64,
)
    ensures
        ({
            let received = after_events(untouched(tray), events);
            let due = now_ns - tray.last_blink_ns >= 5_000_000_000;
            let end = turned(tray, events, None, now_ns);
            &&& end.tray.pending == received.tray.pending
            &&& end.tray.usage == received.tray.usage
            &&& end.tray.eyes_open == (tray.eyes_open != due)
            &&& end.tray.last_blink_ns == if due {
                now_ns
            } else {
                tray.last_blink_ns
            }
            &&& end.actions == received.actions + drawn(
                received.menu_dirty,
                received.icon_dirty || due,
                end.tray.usage,
                end.tray.pending,
                end.tray.eyes_open,
            )
        }),
{
    lemma_received(untouched(tray), events);
    let end = turned(tray, events, None, now_ns);
    let received = after_events(untouched(tray), events);
    let due = now_ns - tray.last_blink_ns >= 5_000_000_000;
    assert(end.actions == received.actions + drawn(
        received.menu_dirty,
        received.icon_dirty || due,
        end.tray.usage,
        end.tray.pending,
        end.tray.eyes_open,
    ));
}

/// A click on a button of a request that waits, whether since long or since this turn, answers the
/// connection that the request came on, with what the button is for and without a reason; the
/// request leaves, and the menu is drawn without it. All else in the turn is as without the click.
pub proof fn a_click_answers_the_request_it_is_for(
    tray: TrayView,
    events: Seq<DaemonEventView>,
    now_ns: u64,
    i: int,
    denied: bool,
)
    requires
        ({
            let waiting = after_events(untouched(tray), events).tray.pending;
            &&& 0 <= i < waiting.len()
            &&& forall|j: int|
                0 <= j < i ==> (#[trigger] waiting[j]).request_id != waiting[i].request_id
        }),
    ensures
        ({
            let received = after_events(untouched(tray), events);
            let request = received.tray.pending[i];
            let button = if denied {
                "deny:"@ + request.request_id
            } else {
                "allow:"@ + request.request_id
            };
            let due = now_ns - tray.last_blink_ns >= 5_000_000_000;
            let end = turned(tray, events, Some(button), now_ns);
            &&& end.tray.pending == received.tray.pending.remove(i)
            &&& end.tray.usage == received.tray.usage
            &&& end.tray.eyes_open == (tray.eyes_open != due)
            &&& end.tray.last_blink_ns == if due {
                now_ns
            } else {
                tray.last_blink_ns
            }
            &&& end.actions == received.actions.push(
                TrayActionView::Reply {
                    reply: request.reply,
                    decision: if denied {
                        "deny"@
                    } else {
                        "allow"@
                    },
                    reason: None,
                },
            ) + drawn(
                true,
                received.icon_dirty || due,
                end.tray.usage,
                end.tray.pending,
                end.tray.eyes_open,
            )
        }),
{
    let received = after_events(untouched(tray), events);
    let request = received.tray.pending[i];
    let (allow, deny) = ("allow:"@ + request.request_id, "deny:"@ + request.request_id);
    lemma_received(untouched(tray), events);
    lemma_first(received.tray.pending, request.request_id, i);
    a_click_is_read_by_the_name_of_its_button(allow, request.request_id);
    a_click_is_read_by_the_name_of_its_button(deny, request.request_id);
    let due = now_ns - tray.last_blink_ns >= 5_000_000_000;
    let end = turned(tray, events, Some(if denied { deny } else { allow }), now_ns);
    let answer = TrayActionView::Reply {
        reply: request.reply,
        decision: if denied {
            "deny"@
        } else {
            "allow"@
        },
        reason: None,
    };
    assert(end.actions == received.actions.push(answer) + drawn(
        true,
        received.icon_dirty || due,
        end.tray.usage,
        end.tray.pending,
        end.tray.eyes_open,
    ));
}

/// A click on the way out ends the program, and the turn is as without the click otherwise.
pub proof fn a_click_on_the_way_out_ends_the_program(
    tray: TrayView,
    events: Seq<DaemonEventView>,
    now_ns: u64,
)
    ensures
        ({
            let received = after_events(untouched(tray), events);
            let due = now_ns - tray.last_blink_ns >= 5_000_000_000;
            let end = turned(tray, events, Some("quit"@), now_ns);
            &&& end.tray == turned(tray, events, None, now_ns).tray
            &&& end.actions == received.actions.push(TrayActionView::Exit) + drawn(
                received.menu_dirty,
                received.icon_dirty || due,
                end.tray.usage,
                end.tray.pending,
                end.tray.eyes_open,
            )
        }),
{
    lemma_received(untouched(tray), events);
    a_click_is_read_by_the_name_of_its_button("quit"@, "quit"@);
    let received = after_events(untouched(tray), events);
    let due = now_ns - tray.last_blink_ns >= 5_000_000_000;
    let end = turned(tray, events, Some("quit"@), now_ns);
    assert(end.actions == received.actions.push(TrayActionView::Exit) + drawn(
        received.menu_dirty,
        received.icon_dirty || due,
        end.tray.usage,
        end.tray.pending,
        end.tray.eyes_open,
    ));
}

/// A click on a button of a request that does not wait any more is as no click at all.
pub proof fn a_click_for_no_request_is_nothing(
    tray: TrayView,
    events: Seq<DaemonEventView>,
    now_ns: u64,
    id: Seq<char>,
)
    requires
        ({
            let waiting = after_events(untouched(tray), events).tray.pending;
            forall|i: int| 0 <= i < waiting.len() ==> (#[trigger] waiting[i]).request_id != id
        }),
    ensures
        turned(tray, events, Some("allow:"@ + id), now_ns) == turned(tray, events, None, now_ns),
        turned(tray, events, Some("deny:"@ + id), now_ns) == turned(tray, events, None, now_ns),
{
    pending_names(after_events(untouched(tray), events).tray.pending, id);
    a_click_is_read_by_the_name_of_its_button("allow:"@ + id, id);
    a_click_is_read_by_the_name_of_its_button("deny:"@ + id, id);
}

/// A click on a button that is neither to allow, nor to deny, nor the way out is as no click at
/// all.
pub proof fn a_click_on_anything_else_is_nothing(
    tray: TrayView,
    events: Seq<DaemonEventView>,
    now_ns: u64,
    button: Seq<char>,
)
    requires
        button != "quit"@,
        forall|rest: Seq<char>| button != #[trigger] ("allow:"@ + rest),
        forall|rest: Seq<char>| button != #[trigger] ("deny:"@ + rest),
    ensures
        turned(tray, events, Some(button), now_ns) == turned(tray, events, None, now_ns),
{
    other_names_ask_for_nothing(button);
}

/// The tooltip is never stale: in a turn with a usage report, whatever else comes, the last
/// tooltip that is set shows what the tray knows at the end of the turn. A turn without a report
/// leaves the tooltip alone.
pub proof fn the_tooltip_is_never_stale(
    tray: TrayView,
    events: Seq<DaemonEventView>,
    button: Option<Seq<char>>,
    now_ns: u64,
)
    ensures
        ({
            let end = turned(tray, events, button, now_ns);
            let reported = exists|i: int| 0 <= i < events.len() && (#[trigger] events[i]) is Usage;
            &&& reported ==> exists|k: int|
                {
                    &&& 0 <= k < end.actions.len()
                    &&& #[trigger] end.actions[k] == TrayActionView::SetTooltip(
                        tooltip(end.tray.usage),
                    )
                    &&& forall|j: int|
                        k < j < end.actions.len() ==> !((#[trigger] end.actions[j]) is SetTooltip)
                }
            &&& !reported ==> forall|k: int|
                0 <= k < end.actions.len() ==> !((#[trigger] end.actions[k]) is SetTooltip)
        }),
{
    let received = after_events(untouched(tray), events);
    let end = turned(tray, events, button, now_ns);
    lemma_tooltip(untouched(tray), events);
    lemma_tail(tray, events, button, now_ns);
    if exists|i: int| 0 <= i < events.len() && (#[trigger] events[i]) is Usage {
        let k = choose|k: int|
            {
                &&& 0 <= k < received.actions.len()
                &&& #[trigger] received.actions[k] == TrayActionView::SetTooltip(
                    tooltip(received.tray.usage),
                )
                &&& forall|j: int|
                    k < j < received.actions.len() ==> !((
                    #[trigger] received.actions[j]) is SetTooltip)
            };
        assert(end.actions[k] == received.actions[k]);
        assert forall|j: int| k < j < end.actions.len() implies !((
        #[trigger] end.actions[j]) is SetTooltip) by {
            if j < received.actions.len() {
                assert(end.actions[j] == received.actions[j]);
            }
        }
    } else {
        assert forall|j: int| 0 <= j < end.actions.len() implies !((
        #[trigger] end.actions[j]) is SetTooltip) by {
            if j < received.actions.len() {
                assert(end.actions[j] == received.actions[j]);
            }
        }
    }
}

proof fn lemma_tooltip(turn: Turn, events: Seq<DaemonEventView>)
    requires
        forall|k: int| 0 <= k < turn.actions.len() ==> !((#[trigger] turn.actions[k]) is SetTooltip),
    ensures
        ({
            let after = after_events(turn, events);
            let reported = exists|i: int| 0 <= i < events.len() && (#[trigger] events[i]) is Usage;
            &&& reported ==> exists|k: int|
                {
                    &&& 0 <= k < after.actions.len()
                    &&& #[trigger] after.actions[k] == TrayActionView::SetTooltip(
                        tooltip(after.tray.usage),
                    )
                    &&& forall|j: int|
                        k < j < after.actions.len() ==> !((
                        #[trigger] after.actions[j]) is SetTooltip)
                }
            &&& !reported ==> forall|k: int|
                0 <= k < after.actions.len() ==> !((#[trigger] after.actions[k]) is SetTooltip)
        }),
    decreases events.len(),
{
    if events.len() > 0 {
        let before = events.drop_last();
        let last = events.last();
        let (middle, after) = (after_events(turn, before), after_events(turn, events));
        lemma_last_event(turn, events);
        lemma_tooltip(turn, before);
        if let DaemonEventView::Usage(report) = last {
            assert(events[events.len() - 1] is Usage);
            assert(after.actions[middle.actions.len() as int] == TrayActionView::SetTooltip(
                tooltip(after.tray.usage),
            ));
        } else {
            assert forall|k: int| 0 <= k < middle.actions.len() implies #[trigger] after.actions[k]
                == middle.actions[k] by {}
            assert forall|k: int| middle.actions.len() <= k < after.actions.len() implies !((
            #[trigger] after.actions[k]) is SetTooltip) by {}
            if exists|i: int| 0 <= i < events.len() && (#[trigger] events[i]) is Usage {
                let i = choose|i: int| 0 <= i < events.len() && (#[trigger] events[i]) is Usage;
                assert(before[i] == events[i]);
                let k = choose|k: int|
                    {
                        &&& 0 <= k < middle.actions.len()
                        &&& #[trigger] middle.actions[k] == TrayActionView::SetTooltip(
                            tooltip(middle.tray.usage),
                        )
                        &&& forall|j: int|
                            k < j < middle.actions.len() ==> !((
                            #[trigger] middle.actions[j]) is SetTooltip)
                    };
                assert(after.actions[k] == middle.actions[k]);
                assert forall|j: int| k < j < after.actions.len() implies !((
                #[trigger] after.actions[j]) is SetTooltip) by {
                    if j < middle.actions.len() {
                        assert(after.actions[j] == middle.actions[j]);
                    }
                }
            } else {
                assert forall|i: int| 0 <= i < before.len() implies !((
                #[trigger] before[i]) is Usage) by {
                    assert(events[i] == before[i]);
                }
            }
        }
    }
}

/// After its events, a turn does no more than answer or end, and draw.
proof fn lemma_tail(
    tray: TrayView,
    events: Seq<DaemonEventView>,
    button: Option<Seq<char>>,
    now_ns: u64,
)
    ensures
        ({
            let received = after_events(untouched(tray), events);
            let end = turned(tray, events, button, now_ns);
            &&& end.tray.usage == received.tray.usage
            &&& end.actions.len() >= received.actions.len()
            &&& forall|k: int|
                0 <= k < received.actions.len() ==> (#[trigger] end.actions[k])
                    == received.actions[k]
            &&& forall|k: int|
                received.actions.len() <= k < end.actions.len() ==> (#[trigger] end.actions[k])
                    is Reply || end.actions[k] is Exit || end.actions[k] is SetMenu
                    || end.actions[k] is SetIcon
        }),
{
}

/// The menu shows the end of the turn: whatever menu a turn sets shows the requests that wait and
/// the usage that is known when the turn is over. One is set exactly where a request or a report
/// came in, or a connection was answered or let go.
pub proof fn the_menu_shows_the_end_of_the_turn(
    tray: TrayView,
    events: Seq<DaemonEventView>,
    button: Option<Seq<char>>,
    now_ns: u64,
)
    ensures
        ({
            let end = turned(tray, events, button, now_ns);
            &&& forall|k: int|
                0 <= k < end.actions.len() ==> ((#[trigger] end.actions[k]) matches
                TrayActionView::SetMenu(shown) ==> shown == menu(
                    end.tray.usage,
                    end.tray.pending,
                ))
            &&& (exists|k: int| 0 <= k < end.actions.len() && (#[trigger] end.actions[k]) is SetMenu)
                <==> (exists|i: int|
                0 <= i < events.len() && !((#[trigger] events[i]) is Expired)) || (exists|k: int|
                0 <= k < end.actions.len() && ((#[trigger] end.actions[k]) is Reply
                    || end.actions[k] is Forget))
        }),
{
    let received = after_events(untouched(tray), events);
    let end = turned(tray, events, button, now_ns);
    lemma_received(untouched(tray), events);
    lemma_menu_dirty(untouched(tray), events);
    lemma_tail(tray, events, button, now_ns);
    let clicked = match button {
        Some(id) => after_click(received, id),
        None => received,
    };
    let n = clicked.actions.len() as int;
    if clicked.menu_dirty {
        assert(end.actions[n] is SetMenu);
        if received.menu_dirty {
            if !(exists|i: int| 0 <= i < events.len() && !((#[trigger] events[i]) is Expired)) {
                let k = choose|k: int|
                    0 <= k < received.actions.len() && (#[trigger] received.actions[k]) is Forget;
                assert(end.actions[k] == received.actions[k]);
                assert(end.actions[k] is Forget);
            }
        } else {
            assert(clicked.actions[received.actions.len() as int] is Reply);
            assert(end.actions[received.actions.len() as int] is Reply);
        }
    } else {
        assert(received.actions == untouched(tray).actions);
        assert forall|k: int| 0 <= k < end.actions.len() implies !((
        #[trigger] end.actions[k]) is SetMenu || end.actions[k] is Reply
            || end.actions[k] is Forget) by {}
    }
}

/// A menu has to be drawn anew exactly where something came in or was let go.
proof fn lemma_menu_dirty(turn: Turn, events: Seq<DaemonEventView>)
    requires
        !turn.menu_dirty,
    ensures
        after_events(turn, events).menu_dirty ==> (exists|i: int|
            0 <= i < events.len() && !((#[trigger] events[i]) is Expired)) || (exists|k: int|
            0 <= k < after_events(turn, events).actions.len() && (#[trigger] after_events(
                turn,
                events,
            ).actions[k]) is Forget),
    decreases events.len(),
{
    if events.len() > 0 {
        let before = events.drop_last();
        let (middle, after) = (after_events(turn, before), after_events(turn, events));
        lemma_last_event(turn, events);
        lemma_menu_dirty(turn, before);
        if !(events.last() is Expired) {
            assert(!(events[events.len() - 1] is Expired));
        } else if middle.menu_dirty {
            if exists|i: int| 0 <= i < before.len() && !((#[trigger] before[i]) is Expired) {
                let i = choose|i: int|
                    0 <= i < before.len() && !((#[trigger] before[i]) is Expired);
                assert(events[i] == before[i]);
            } else {
                let k = choose|k: int|
                    0 <= k < middle.actions.len() && (#[trigger] middle.actions[k]) is Forget;
                assert(after.actions[k] == middle.actions[k]);
            }
        } else if after.menu_dirty {
            assert(after.actions[middle.actions.len() as int] is Forget);
        }
    }
}

/// The icon shows the eyes as they are at the end of the turn, and is the last thing drawn. It is
/// drawn exactly where usage was reported or the eyes moved.
pub proof fn the_icon_shows_the_end_of_the_turn(
    tray: TrayView,
    events: Seq<DaemonEventView>,
    button: Option<Seq<char>>,
    now_ns: u64,
)
    ensures
        ({
            let end = turned(tray, events, button, now_ns);
            let reported = exists|i: int| 0 <= i < events.len() && (#[trigger] events[i]) is Usage;
            &&& end.tray.eyes_open != tray.eyes_open <==> now_ns - tray.last_blink_ns
                >= 5_000_000_000
            &&& end.tray.last_blink_ns == if end.tray.eyes_open != tray.eyes_open {
                now_ns
            } else {
                tray.last_blink_ns
            }
            &&& reported || end.tray.eyes_open != tray.eyes_open ==> end.actions.len() > 0
                && end.actions.last() == TrayActionView::SetIcon { eyes_open: end.tray.eyes_open }
            &&& forall|k: int|
                0 <= k < end.actions.len() ==> ((#[trigger] end.actions[k]) is SetIcon ==> k
                    == end.actions.len() - 1 && (reported || end.tray.eyes_open != tray.eyes_open))
        }),
{
    lemma_received(untouched(tray), events);
    lemma_tail(tray, events, button, now_ns);
}

/// The user is told of every request that comes in, in the words of that request, and of nothing
/// else.
pub proof fn the_user_is_told_of_every_request(
    tray: TrayView,
    events: Seq<DaemonEventView>,
    button: Option<Seq<char>>,
    now_ns: u64,
)
    ensures
        ({
            let end = turned(tray, events, button, now_ns);
            &&& forall|i: int|
                0 <= i < events.len() ==> ((#[trigger] events[i]) matches
                DaemonEventView::NewRequest(request) ==> end.actions.contains(
                    TrayActionView::Notify {
                        tool_name: request.tool_name,
                        preview: request.tool_input_preview,
                    },
                ))
            &&& forall|k: int|
                0 <= k < end.actions.len() ==> ((#[trigger] end.actions[k]) is Notify ==> exists|
                    i: int,
                |
                    0 <= i < events.len() && ((#[trigger] events[i]) matches
                    DaemonEventView::NewRequest(request) && end.actions[k]
                        == TrayActionView::Notify {
                        tool_name: request.tool_name,
                        preview: request.tool_input_preview,
                    }))
        }),
{
    let received = after_events(untouched(tray), events);
    let end = turned(tray, events, button, now_ns);
    lemma_told(untouched(tray), events);
    lemma_tail(tray, events, button, now_ns);
    assert forall|i: int| 0 <= i < events.len() implies ((#[trigger] events[i]) matches
        DaemonEventView::NewRequest(request) ==> end.actions.contains(
            TrayActionView::Notify {
                tool_name: request.tool_name,
                preview: request.tool_input_preview,
            },
        )) by {
        if let DaemonEventView::NewRequest(request) = events[i] {
            let told = TrayActionView::Notify {
                tool_name: request.tool_name,
                preview: request.tool_input_preview,
            };
            let k = received.actions.index_of(told);
            assert(received.actions.contains(told));
            assert(end.actions[k] == told);
        }
    }
}

proof fn lemma_told(turn: Turn, events: Seq<DaemonEventView>)
    requires
        forall|k: int| 0 <= k < turn.actions.len() ==> !((#[trigger] turn.actions[k]) is Notify),
    ensures
        ({
            let after = after_events(turn, events);
            &&& forall|i: int|
                0 <= i < events.len() ==> ((#[trigger] events[i]) matches
                DaemonEventView::NewRequest(request) ==> after.actions.contains(
                    TrayActionView::Notify {
                        tool_name: request.tool_name,
                        preview: request.tool_input_preview,
                    },
                ))
            &&& forall|k: int|
                0 <= k < after.actions.len() ==> ((#[trigger] after.actions[k]) is Notify ==> exists|
                    i: int,
                |
                    0 <= i < events.len() && ((#[trigger] events[i]) matches
                    DaemonEventView::NewRequest(request) && after.actions[k]
                        == TrayActionView::Notify {
                        tool_name: request.tool_name,
                        preview: request.tool_input_preview,
                    }))
        }),
    decreases events.len(),
{
    if events.len() > 0 {
        let before = events.drop_last();
        let (middle, after) = (after_events(turn, before), after_events(turn, events));
        let n = middle.actions.len() as int;
        lemma_last_event(turn, events);
        lemma_told(turn, before);
        assert forall|k: int| 0 <= k < n implies #[trigger] after.actions[k]
            == middle.actions[k] by {}
        assert forall|i: int| 0 <= i < events.len() implies ((#[trigger] events[i]) matches
            DaemonEventView::NewRequest(request) ==> after.actions.contains(
                TrayActionView::Notify {
                    tool_name: request.tool_name,
                    preview: request.tool_input_preview,
                },
            )) by {
            if let DaemonEventView::NewRequest(request) = events[i] {
                let told = TrayActionView::Notify {
                    tool_name: request.tool_name,
                    preview: request.tool_input_preview,
                };
                if i < before.len() {
                    assert(before[i] == events[i]);
                    let k = middle.actions.index_of(told);
                    assert(middle.actions.contains(told));
                    assert(after.actions[k] == told);
                } else {
                    assert(after.actions[n] == told);
                }
            }
        }
        assert forall|k: int|
            0 <= k < after.actions.len() && (#[trigger] after.actions[k]) is Notify implies exists|
            i: int,
        |
            0 <= i < events.len() && ((#[trigger] events[i]) matches
            DaemonEventView::NewRequest(request) && after.actions[k] == TrayActionView::Notify {
                tool_name: request.tool_name,
                preview: request.tool_input_preview,
            }) by {
            if k < n {
                assert(middle.actions[k] is Notify);
                let i = choose|i: int|
                    0 <= i < before.len() && ((#[trigger] before[i]) matches
                    DaemonEventView::NewRequest(request) && middle.actions[k]
                        == TrayActionView::Notify {
                        tool_name: request.tool_name,
                        preview: request.tool_input_preview,
                    });
                assert(events[i] == before[i]);
            } else {
                assert(events[events.len() - 1] is NewRequest);
            }
        }
    }
}

/// A turn in which nothing comes, nothing is clicked and the eyes stay does nothing.
pub proof fn an_idle_turn_does_nothing(tray: TrayView, now_ns: u64)
    requires
        now_ns - tray.last_blink_ns < 5_000_000_000,
    ensures
        turned(tray, seq![], None, now_ns).tray == tray,
        turned(tray, seq![], None, now_ns).actions.len() == 0,
{
}

/// The tray turns five times a second.
pub proof fn the_tray_turns_five_times_a_second()
    ensures
        5 * TURN_INTERVAL_MS == 1000,
{
}

/// It makes no difference to what the tray knows in the end whether events come in one turn or are
/// spread over two.
pub proof fn events_may_be_spread_over_turns(
    tray: TrayView,
    first: Seq<DaemonEventView>,
    second: Seq<DaemonEventView>,
    between_ns: u64,
    now_ns: u64,
)
    ensures
        ({
            let halfway = turned(tray, first, None, between_ns).tray;
            let at_once = turned(tray, first + second, None, now_ns).tray;
            let spread = turned(halfway, second, None, now_ns).tray;
            at_once.pending == spread.pending && at_once.usage == spread.usage
        }),
{
    let halfway = turned(tray, first, None, between_ns).tray;
    lemma_spread(untouched(tray), first, second);
    let received = after_events(untouched(tray), first);
    lemma_same_knowledge(received, untouched(halfway), second);
}

proof fn lemma_spread(turn: Turn, first: Seq<DaemonEventView>, second: Seq<DaemonEventView>)
    ensures
        after_events(turn, first + second) == after_events(after_events(turn, first), second),
    decreases second.len(),
{
    if second.len() == 0 {
        assert(first + second == first);
    } else {
        let all = first + second;
        assert(all.drop_last() == first + second.drop_last());
        lemma_last_event(turn, all);
        lemma_last_event(after_events(turn, first), second);
        lemma_spread(turn, first, second.drop_last());
    }
}

proof fn lemma_same_knowledge(one: Turn, other: Turn, events: Seq<DaemonEventView>)
    requires
        one.tray.pending == other.tray.pending,
        one.tray.usage == other.tray.usage,
    ensures
        after_events(one, events).tray.pending == after_events(other, events).tray.pending,
        after_events(one, events).tray.usage == after_events(other, events).tray.usage,
    decreases events.len(),
{
    if events.len() > 0 {
        lemma_same_knowledge(
            after_event(one, events.first()),
            after_event(other, events.first()),
            events.drop_first(),
        );
    }
}

/// What is clicked is what happens: a click on any button of the menu as the tray shows it answers
/// the request that the button is for, on its own connection, with what the button says; or ends
/// the program where it says so.
pub proof fn what_is_clicked_is_what_happens(
    tray: TrayView,
    now_ns: u64,
    k: int,
    id: Seq<char>,
    text: Seq<char>,
)
    requires
        0 <= k < menu(tray.usage, tray.pending).len(),
        menu(tray.usage, tray.pending)[k] == (MenuEntryView::Button { id, text }),
        forall|i: int, j: int|
            0 <= i < j < tray.pending.len() ==> (#[trigger] tray.pending[i]).request_id != (
            #[trigger] tray.pending[j]).request_id,
    ensures
        ({
            let end = turned(tray, seq![], Some(id), now_ns);
            &&& text == "  \u{2713} Permitir"@ ==> exists|i: int|
                0 <= i < tray.pending.len() && end.tray.pending == tray.pending.remove(i)
                    && end.actions[0] == (TrayActionView::Reply {
                    reply: (#[trigger] tray.pending[i]).reply,
                    decision: "allow"@,
                    reason: None,
                })
            &&& text == "  \u{2717} Negar"@ ==> exists|i: int|
                0 <= i < tray.pending.len() && end.tray.pending == tray.pending.remove(i)
                    && end.actions[0] == (TrayActionView::Reply {
                    reply: (#[trigger] tray.pending[i]).reply,
                    decision: "deny"@,
                    reason: None,
                })
            &&& text == "Sair"@ ==> end.actions[0] == TrayActionView::Exit
        }),
{
    buttons_do_what_they_say(tray.usage, tray.pending, k, id, text);
    let none: Seq<DaemonEventView> = seq![];
    assert(after_events(untouched(tray), none) == untouched(tray));
    match click_of(id) {
        ClickView::Allow(request_id) => {
            let i = choose|i: int|
                0 <= i < tray.pending.len() && (#[trigger] tray.pending[i]).request_id
                    == request_id;
            a_click_is_read_by_the_name_of_its_button(id, request_id);
            a_click_answers_the_request_it_is_for(tray, none, now_ns, i, false);
        },
        ClickView::Deny(request_id) => {
            let i = choose|i: int|
                0 <= i < tray.pending.len() && (#[trigger] tray.pending[i]).request_id
                    == request_id;
            a_click_is_read_by_the_name_of_its_button(id, request_id);
            a_click_answers_the_request_it_is_for(tray, none, now_ns, i, true);
        },
        _ => {
            a_click_is_read_by_the_name_of_its_button(id, id);
            a_click_on_the_way_out_ends_the_program(tray, none, now_ns);
        },
    }
    reveal_strlit("  \u{2713} Permitir");
    reveal_strlit("  \u{2717} Negar");
    reveal_strlit("Sair");
    assert("  \u{2713} Permitir"@[2] != "  \u{2717} Negar"@[2]);
    assert("Sair"@[0] != "  \u{2713} Permitir"@[0]);
    assert("Sair"@[0] != "  \u{2717} Negar"@[0]);
}

/// The answer goes back where the question came from: whatever else waits, a click on a button of
/// a request answers the connection that handed this request over.
pub proof fn the_answer_goes_back_where_the_question_came_from(
    tray: TrayView,
    request: PendingView,
    now_ns: u64,
    denied: bool,
)
    requires
        forall|i: int, j: int|
            0 <= i < j < tray.pending.len() ==> (#[trigger] tray.pending[i]).request_id != (
            #[trigger] tray.pending[j]).request_id,
    ensures
        ({
            let button = if denied {
                "deny:"@ + request.request_id
            } else {
                "allow:"@ + request.request_id
            };
            let end = turned(tray, seq![DaemonEventView::NewRequest(request)], Some(button), now_ns);
            end.actions.contains(
                TrayActionView::Reply {
                    reply: request.reply,
                    decision: if denied {
                        "deny"@
                    } else {
                        "allow"@
                    },
                    reason: None,
                },
            )
        }),
{
    let events = seq![DaemonEventView::NewRequest(request)];
    let begun = untouched(tray);
    let received = after_events(begun, events);
    assert(events.drop_first().len() == 0);
    assert(after_events(after_event(begun, events.first()), events.drop_first()) == after_event(
        begun,
        events.first(),
    ));
    let i = position(tray.pending, request.request_id);
    lemma_position(tray.pending, request.request_id);
    pending_names(tray.pending, request.request_id);
    if is_pending(tray.pending, request.request_id) {
        an_arrival_of_a_known_name_takes_its_place(begun, request, i);
    } else {
        an_arrival_is_told_and_waits(begun, request);
    }
    assert(received.tray.pending[i] == request);
    assert forall|j: int| 0 <= j < i implies (#[trigger] received.tray.pending[j]).request_id
        != request.request_id by {
        assert(received.tray.pending[j] == tray.pending[j]);
    }
    a_click_answers_the_request_it_is_for(tray, events, now_ns, i, denied);
    let end = turned(
        tray,
        events,
        Some(
            if denied {
                "deny:"@ + request.request_id
            } else {
                "allow:"@ + request.request_id
            },
        ),
        now_ns,
    );
    assert(end.actions[received.actions.len() as int] is Reply);
}

} // verus!
