//! The tray: it keeps the pending requests and the usage, and decides in each turn of the event
//! loop what to show and whom to answer.

use vstd::prelude::*;
use vstd::string::*;

use crate::menu::{
    click_of, entry_views, menu, menu_entries, pending_views, read_click, Click, ClickView,
    MenuEntry, MenuEntryView,
};
use crate::protocol::{text_view, Usage};
use crate::session::{PendingRequest, PendingView};
use crate::usage::{tooltip, tooltip_text, UsageSnapshot};

verus! {

/// How often the event loop turns.
pub const TURN_INTERVAL_MS: u64 = 200;

/// How often the icon's eyes open or close.
pub const IDLE_BLINK_INTERVAL_NS: u64 = 5_000_000_000;

/// What the connections tell the tray.
#[derive(Debug, PartialEq, Eq)]
pub enum DaemonEvent {
    NewRequest(PendingRequest),
    Expired(String),
    Usage(Usage),
}

pub enum DaemonEventView {
    NewRequest(PendingView),
    Expired(Seq<char>),
    Usage(UsageSnapshot),
}

impl View for DaemonEvent {
    type V = DaemonEventView;

    open spec fn view(&self) -> DaemonEventView {
        match *self {
            DaemonEvent::NewRequest(request) => DaemonEventView::NewRequest(request@),
            DaemonEvent::Expired(id) => DaemonEventView::Expired(id@),
            DaemonEvent::Usage(usage) => DaemonEventView::Usage(usage.snapshot()),
        }
    }
}

/// The views of a series of events.
pub open spec fn event_views(events: Seq<DaemonEvent>) -> Seq<DaemonEventView> {
    events.map_values(|e: DaemonEvent| e@)
}

/// What a turn of the event loop asks for. `Reply` answers the connection that a request came
/// from, and `Forget` lets go of one without an answer.
#[derive(Debug, PartialEq, Eq)]
pub enum TrayAction {
    Notify { tool_name: String, preview: String },
    Reply { reply: u64, decision: String, reason: Option<String> },
    Forget { reply: u64 },
    SetTooltip(String),
    SetMenu(Vec<MenuEntry>),
    SetIcon { eyes_open: bool },
    Exit,
}

pub enum TrayActionView {
    Notify { tool_name: Seq<char>, preview: Seq<char> },
    Reply { reply: u64, decision: Seq<char>, reason: Option<Seq<char>> },
    Forget { reply: u64 },
    SetTooltip(Seq<char>),
    SetMenu(Seq<MenuEntryView>),
    SetIcon { eyes_open: bool },
    Exit,
}

impl View for TrayAction {
    type V = TrayActionView;

    open spec fn view(&self) -> TrayActionView {
        match *self {
            TrayAction::Notify { tool_name, preview } => TrayActionView::Notify {
                tool_name: tool_name@,
                preview: preview@,
            },
            TrayAction::Reply { reply, decision, reason } => TrayActionView::Reply {
                reply,
                decision: decision@,
                reason: text_view(reason),
            },
            TrayAction::Forget { reply } => TrayActionView::Forget { reply },
            TrayAction::SetTooltip(text) => TrayActionView::SetTooltip(text@),
            TrayAction::SetMenu(entries) => TrayActionView::SetMenu(entry_views(entries@)),
            TrayAction::SetIcon { eyes_open } => TrayActionView::SetIcon { eyes_open },
            TrayAction::Exit => TrayActionView::Exit,
        }
    }
}

/// The views of a series of actions.
pub open spec fn action_views(actions: Seq<TrayAction>) -> Seq<TrayActionView> {
    actions.map_values(|a: TrayAction| a@)
}

/// What the tray keeps. Times are in nanoseconds since some start.
#[derive(Debug, PartialEq, Eq)]
pub struct Tray {
    pub pending: Vec<PendingRequest>,
    pub usage: UsageSnapshot,
    pub eyes_open: bool,
    pub last_blink_ns: u64,
}

/// `Tray` with its texts as sequences of characters.
pub struct TrayView {
    pub pending: Seq<PendingView>,
    pub usage: UsageSnapshot,
    pub eyes_open: bool,
    pub last_blink_ns: u64,
}

impl View for Tray {
    type V = TrayView;

    open spec fn view(&self) -> TrayView {
        TrayView {
            pending: pending_views(self.pending@),
            usage: self.usage,
            eyes_open: self.eyes_open,
            last_blink_ns: self.last_blink_ns,
        }
    }
}

/// Where the first pending request of the name `id` stands; the length where there is none.
pub open spec fn position(pending: Seq<PendingView>, id: Seq<char>) -> int
    decreases pending.len(),
{
    if pending.len() == 0 || pending.first().request_id == id {
        0
    } else {
        1 + position(pending.drop_first(), id)
    }
}

/// Whether a request of the name `id` is pending.
pub open spec fn is_pending(pending: Seq<PendingView>, id: Seq<char>) -> bool {
    position(pending, id) < pending.len()
}

/// No two pending requests have the same name.
pub open spec fn named_apart(pending: Seq<PendingView>) -> bool {
    forall|i: int, j: int|
        0 <= i < j < pending.len() ==> (#[trigger] pending[i]).request_id != (
        #[trigger] pending[j]).request_id
}

/// What follows from one turn so far: the tray, the actions, and whether the menu and the icon
/// have to be drawn anew.
pub struct Turn {
    pub tray: TrayView,
    pub actions: Seq<TrayActionView>,
    pub menu_dirty: bool,
    pub icon_dirty: bool,
}

/// A turn begins with nothing to do.
pub open spec fn turn_begun(tray: TrayView) -> Turn {
    Turn { tray, actions: seq![], menu_dirty: false, icon_dirty: false }
}

/// The pending requests with `request` among them, in the place of one with its name.
pub open spec fn inserted(pending: Seq<PendingView>, request: PendingView) -> Seq<PendingView> {
    if is_pending(pending, request.request_id) {
        pending.update(position(pending, request.request_id), request)
    } else {
        pending.push(request)
    }
}

/// The pending requests without the one of the name `id`.
pub open spec fn removed(pending: Seq<PendingView>, id: Seq<char>) -> Seq<PendingView> {
    if is_pending(pending, id) {
        pending.remove(position(pending, id))
    } else {
        pending
    }
}

/// A request comes in: the user is told, and the menu has to show it. One of the same name that
/// was pending is let go.
pub open spec fn after_request(turn: Turn, request: PendingView) -> Turn {
    let pending = turn.tray.pending;
    let id = request.request_id;
    let told = turn.actions.push(
        TrayActionView::Notify {
            tool_name: request.tool_name,
            preview: request.tool_input_preview,
        },
    );
    Turn {
        tray: TrayView { pending: inserted(pending, request), ..turn.tray },
        actions: if is_pending(pending, id) {
            told.push(TrayActionView::Forget { reply: pending[position(pending, id)].reply })
        } else {
            told
        },
        menu_dirty: true,
        ..turn
    }
}

/// A request went unanswered: it leaves the menu.
pub open spec fn after_expiry(turn: Turn, id: Seq<char>) -> Turn {
    let pending = turn.tray.pending;
    if is_pending(pending, id) {
        Turn {
            tray: TrayView { pending: removed(pending, id), ..turn.tray },
            actions: turn.actions.push(
                TrayActionView::Forget { reply: pending[position(pending, id)].reply },
            ),
            menu_dirty: true,
            ..turn
        }
    } else {
        turn
    }
}

/// Usage was reported: tooltip, menu and icon are drawn anew.
pub open spec fn after_usage(turn: Turn, report: UsageSnapshot) -> Turn {
    let usage = turn.tray.usage.recorded(report);
    Turn {
        tray: TrayView { usage, ..turn.tray },
        actions: turn.actions.push(TrayActionView::SetTooltip(tooltip(usage))),
        menu_dirty: true,
        icon_dirty: true,
    }
}

pub open spec fn after_event(turn: Turn, event: DaemonEventView) -> Turn {
    match event {
        DaemonEventView::NewRequest(request) => after_request(turn, request),
        DaemonEventView::Expired(id) => after_expiry(turn, id),
        DaemonEventView::Usage(report) => after_usage(turn, report),
    }
}

/// Events are taken in the order in which they came.
pub open spec fn after_events(turn: Turn, events: Seq<DaemonEventView>) -> Turn
    decreases events.len(),
{
    if events.len() == 0 {
        turn
    } else {
        after_events(after_event(turn, events.first()), events.drop_first())
    }
}

/// The user decided: the connection of the request of the name `id` is answered, and the request
/// leaves the menu. A request that is not pending any more cannot be answered.
pub open spec fn after_decision(turn: Turn, id: Seq<char>, decision: Seq<char>) -> Turn {
    let pending = turn.tray.pending;
    if is_pending(pending, id) {
        Turn {
            tray: TrayView { pending: removed(pending, id), ..turn.tray },
            actions: turn.actions.push(
                TrayActionView::Reply {
                    reply: pending[position(pending, id)].reply,
                    decision,
                    reason: None,
                },
            ),
            menu_dirty: true,
            ..turn
        }
    } else {
        turn
    }
}

/// The user clicked the button named `button`.
pub open spec fn after_click(turn: Turn, button: Seq<char>) -> Turn {
    match click_of(button) {
        ClickView::Quit => Turn { actions: turn.actions.push(TrayActionView::Exit), ..turn },
        ClickView::Allow(id) => after_decision(turn, id, "allow"@),
        ClickView::Deny(id) => after_decision(turn, id, "deny"@),
        ClickView::Unknown => turn,
    }
}

/// The menu is drawn, where it has to be.
pub open spec fn after_menu(turn: Turn) -> Turn {
    if turn.menu_dirty {
        Turn {
            actions: turn.actions.push(
                TrayActionView::SetMenu(menu(turn.tray.usage, turn.tray.pending)),
            ),
            ..turn
        }
    } else {
        turn
    }
}

/// Where it is time, the eyes open or close.
pub open spec fn after_blink(turn: Turn, now_ns: u64) -> Turn {
    if now_ns - turn.tray.last_blink_ns >= IDLE_BLINK_INTERVAL_NS {
        Turn {
            tray: TrayView {
                eyes_open: !turn.tray.eyes_open,
                last_blink_ns: now_ns,
                ..turn.tray
            },
            icon_dirty: true,
            ..turn
        }
    } else {
        turn
    }
}

/// The icon is drawn, where it has to be.
pub open spec fn after_icon(turn: Turn) -> Turn {
    if turn.icon_dirty {
        Turn {
            actions: turn.actions.push(
                TrayActionView::SetIcon { eyes_open: turn.tray.eyes_open },
            ),
            ..turn
        }
    } else {
        turn
    }
}

/// A whole turn of the event loop: the events that came, at most one click, then what has to be
/// drawn.
pub open spec fn turned(
    tray: TrayView,
    events: Seq<DaemonEventView>,
    button: Option<Seq<char>>,
    now_ns: u64,
) -> Turn {
    let received = after_events(turn_begun(tray), events);
    let clicked = match button {
        Some(id) => after_click(received, id),
        None => received,
    };
    after_icon(after_blink(after_menu(clicked), now_ns))
}

/// A turn in the making.
struct TurnWork {
    actions: Vec<TrayAction>,
    menu_dirty: bool,
    icon_dirty: bool,
}

impl TurnWork {
    spec fn of(self, tray: Tray) -> Turn {
        Turn {
            tray: tray@,
            actions: action_views(self.actions@),
            menu_dirty: self.menu_dirty,
            icon_dirty: self.icon_dirty,
        }
    }

    fn act(&mut self, action: TrayAction)
        ensures
            action_views(final(self).actions@) == action_views(old(self).actions@).push(action@),
            final(self).menu_dirty == old(self).menu_dirty,
            final(self).icon_dirty == old(self).icon_dirty,
    {
        self.actions.push(action);
        assert(action_views(self.actions@) == action_views(old(self).actions@).push(action@));
    }
}

pub(crate) proof fn lemma_position(pending: Seq<PendingView>, id: Seq<char>)
    ensures
        0 <= position(pending, id) <= pending.len(),
        forall|i: int|
            0 <= i < position(pending, id) ==> (#[trigger] pending[i]).request_id != id,
        is_pending(pending, id) ==> pending[position(pending, id)].request_id == id,
    decreases pending.len(),
{
    if pending.len() > 0 && pending.first().request_id != id {
        let rest = pending.drop_first();
        lemma_position(rest, id);
        assert forall|i: int| 0 <= i < position(pending, id) implies (
        #[trigger] pending[i]).request_id != id by {
            if i > 0 {
                assert(pending[i] == rest[i - 1]);
            }
        }
    }
}

impl Tray {
    /// A tray that knows of nothing, at the time `now_ns`.
    pub fn new(now_ns: u64) -> (r: Self)
        ensures
            r@ == (TrayView {
                pending: seq![],
                usage: UsageSnapshot::unknown(),
                eyes_open: true,
                last_blink_ns: now_ns,
            }),
    {
        let r = Tray {
            pending: Vec::new(),
            usage: UsageSnapshot::default(),
            eyes_open: true,
            last_blink_ns: now_ns,
        };
        assert(r@.pending == Seq::<PendingView>::empty());
        r
    }

    fn find(&self, id: &String) -> (r: usize)
        ensures
            r == position(self@.pending, id@),
    {
        let ghost views = self@.pending;
        proof {
            lemma_position(views, id@);
        }
        let mut i: usize = 0;
        while i < self.pending.len()
            invariant
                i <= self.pending@.len(),
                views == pending_views(self.pending@),
                i <= position(views, id@) <= views.len(),
                is_pending(views, id@) ==> views[position(views, id@)].request_id == id@,
                forall|j: int|
                    0 <= j < position(views, id@) ==> (#[trigger] views[j]).request_id != id@,
            decreases self.pending@.len() - i,
        {
            assert(views[i as int] == self.pending@[i as int]@);
            if self.pending[i].request_id == *id {
                return i;
            }
            i = i + 1;
        }
        i
    }

    fn take_request(&mut self, work: &mut TurnWork, request: PendingRequest)
        ensures
            final(work).of(*final(self)) == after_request(old(work).of(*old(self)), request@),
    {
        work.act(
            TrayAction::Notify {
                tool_name: request.tool_name.clone(),
                preview: request.tool_input_preview.clone(),
            },
        );
        work.menu_dirty = true;
        let ghost before = self@.pending;
        let i: usize = self.find(&request.request_id);
        if i < self.pending.len() {
            let reply: u64 = self.pending[i].reply;
            assert(before[i as int] == self.pending@[i as int]@);
            work.act(TrayAction::Forget { reply });
            self.pending.set(i, request);
            assert(self@.pending == before.update(i as int, request@));
        } else {
            self.pending.push(request);
            assert(self@.pending == before.push(request@));
        }
    }

    /// Takes the request at `i` out of the pending ones.
    fn remove_at(&mut self, i: usize) -> (reply: u64)
        requires
            i < old(self)@.pending.len(),
        ensures
            final(self)@ == (TrayView { pending: old(self)@.pending.remove(i as int), ..old(self)@
            }),
            reply == old(self)@.pending[i as int].reply,
    {
        let ghost before = self@.pending;
        assert(before[i as int] == self.pending@[i as int]@);
        let request = self.pending.remove(i);
        assert(self@.pending == before.remove(i as int));
        request.reply
    }

    fn take_expiry(&mut self, work: &mut TurnWork, id: String)
        ensures
            final(work).of(*final(self)) == after_expiry(old(work).of(*old(self)), id@),
    {
        let i: usize = self.find(&id);
        if i < self.pending.len() {
            let reply: u64 = self.remove_at(i);
            work.act(TrayAction::Forget { reply });
            work.menu_dirty = true;
        }
    }

    fn take_usage(&mut self, work: &mut TurnWork, report: Usage)
        ensures
            final(work).of(*final(self)) == after_usage(old(work).of(*old(self)), report.snapshot()),
    {
        self.usage.record(&report);
        work.menu_dirty = true;
        work.icon_dirty = true;
        work.act(TrayAction::SetTooltip(tooltip_text(&self.usage)));
    }

    fn take_event(&mut self, work: &mut TurnWork, event: DaemonEvent)
        ensures
            final(work).of(*final(self)) == after_event(old(work).of(*old(self)), event@),
    {
        match event {
            DaemonEvent::NewRequest(request) => self.take_request(work, request),
            DaemonEvent::Expired(id) => self.take_expiry(work, id),
            DaemonEvent::Usage(report) => self.take_usage(work, report),
        }
    }

    fn decide(&mut self, work: &mut TurnWork, id: String, decision: &str)
        ensures
            final(work).of(*final(self)) == after_decision(
                old(work).of(*old(self)),
                id@,
                decision@,
            ),
    {
        let i: usize = self.find(&id);
        if i < self.pending.len() {
            let reply: u64 = self.remove_at(i);
            work.act(TrayAction::Reply { reply, decision: decision.to_owned(), reason: None });
            work.menu_dirty = true;
        }
    }

    fn take_click(&mut self, work: &mut TurnWork, button: String)
        ensures
            final(work).of(*final(self)) == after_click(old(work).of(*old(self)), button@),
    {
        match read_click(button.as_str()) {
            Click::Quit => work.act(TrayAction::Exit),
            Click::Allow(id) => self.decide(work, id, "allow"),
            Click::Deny(id) => self.decide(work, id, "deny"),
            Click::Unknown => {},
        }
    }

    /// Turns the event loop once: takes the events that came and at most one click on a button,
    /// and returns what to do, in order.
    pub fn turn(
        &mut self,
        events: Vec<DaemonEvent>,
        button: Option<String>,
        now_ns: u64,
    ) -> (r: Vec<TrayAction>)
        ensures
            final(self)@ == turned(
                old(self)@,
                event_views(events@),
                text_view(button),
                now_ns,
            ).tray,
            action_views(r@) == turned(
                old(self)@,
                event_views(events@),
                text_view(button),
                now_ns,
            ).actions,
    {
        let mut work = TurnWork { actions: Vec::new(), menu_dirty: false, icon_dirty: false };
        let ghost begun = turn_begun(self@);
        assert(action_views(work.actions@) == begun.actions);
        assert(work.of(*self) == begun);
        let ghost all = event_views(events@);
        let mut queue: Vec<DaemonEvent> = events;
        while queue.len() > 0
            invariant
                after_events(work.of(*self), event_views(queue@)) == after_events(begun, all),
            decreases queue@.len(),
        {
            let ghost before = event_views(queue@);
            let event = queue.remove(0);
            assert(event_views(queue@) == before.drop_first());
            assert(event@ == before.first());
            self.take_event(&mut work, event);
        }
        assert(event_views(queue@).len() == 0);
        match button {
            Some(button) => self.take_click(&mut work, button),
            None => {},
        }
        if work.menu_dirty {
            work.act(TrayAction::SetMenu(menu_entries(&self.usage, &self.pending)));
        }
        if now_ns >= self.last_blink_ns && now_ns - self.last_blink_ns >= IDLE_BLINK_INTERVAL_NS {
            self.eyes_open = !self.eyes_open;
            self.last_blink_ns = now_ns;
            work.icon_dirty = true;
        }
        if work.icon_dirty {
            work.act(TrayAction::SetIcon { eyes_open: self.eyes_open });
        }
        work.actions
    }
}

} // verus!
