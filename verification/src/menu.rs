//! The menu of the tray icon: usage on top, then the pending requests, each with a button to
//! allow it and one to deny it.

use vstd::prelude::*;
use vstd::string::*;

use crate::session::{PendingRequest, PendingView};
use crate::text::{strip_prefix, strip_prefix_text};
use crate::usage::{
    usage_line, usage_line_text, UsageSnapshot, SESSION_LABEL, WEEK_LABEL,
};

verus! {

/// What names the button that ends the program.
pub const QUIT_ID: &'static str = "quit";

pub const QUIT_TEXT: &'static str = "Sair";

/// What the name of a button to allow a request starts with.
pub const ALLOW_PREFIX: &'static str = "allow:";

pub const ALLOW_TEXT: &'static str = "  \u{2713} Permitir";

/// What the name of a button to deny a request starts with.
pub const DENY_PREFIX: &'static str = "deny:";

pub const DENY_TEXT: &'static str = "  \u{2717} Negar";

/// A line of the menu. Only a button can be clicked.
#[derive(Debug, PartialEq, Eq)]
pub enum MenuEntry {
    Label(String),
    Button { id: String, text: String },
    Separator,
}

/// `MenuEntry` with its texts as sequences of characters.
pub enum MenuEntryView {
    Label(Seq<char>),
    Button { id: Seq<char>, text: Seq<char> },
    Separator,
}

impl View for MenuEntry {
    type V = MenuEntryView;

    open spec fn view(&self) -> MenuEntryView {
        match *self {
            MenuEntry::Label(text) => MenuEntryView::Label(text@),
            MenuEntry::Button { id, text } => MenuEntryView::Button { id: id@, text: text@ },
            MenuEntry::Separator => MenuEntryView::Separator,
        }
    }
}

/// The views of the lines of a menu.
pub open spec fn entry_views(entries: Seq<MenuEntry>) -> Seq<MenuEntryView> {
    entries.map_values(|e: MenuEntry| e@)
}

/// The views of the pending requests.
pub open spec fn pending_views(pending: Seq<PendingRequest>) -> Seq<PendingView> {
    pending.map_values(|p: PendingRequest| p@)
}

pub open spec fn usage_entries(usage: UsageSnapshot) -> Seq<MenuEntryView> {
    if usage.is_known() {
        seq![
            MenuEntryView::Label(usage_line_text(SESSION_LABEL@, usage.five_hour_pct)),
            MenuEntryView::Label(usage_line_text(WEEK_LABEL@, usage.seven_day_pct)),
            MenuEntryView::Separator,
        ]
    } else {
        seq![]
    }
}

pub open spec fn allow_button(request_id: Seq<char>) -> MenuEntryView {
    MenuEntryView::Button { id: ALLOW_PREFIX@ + request_id, text: ALLOW_TEXT@ }
}

pub open spec fn deny_button(request_id: Seq<char>) -> MenuEntryView {
    MenuEntryView::Button { id: DENY_PREFIX@ + request_id, text: DENY_TEXT@ }
}

pub open spec fn quit_button() -> MenuEntryView {
    MenuEntryView::Button { id: QUIT_ID@, text: QUIT_TEXT@ }
}

pub open spec fn request_entries(request: PendingView) -> Seq<MenuEntryView> {
    seq![
        MenuEntryView::Label(request.tool_name + " \u{2014} "@ + request.tool_input_preview),
        allow_button(request.request_id),
        deny_button(request.request_id),
    ]
}

pub open spec fn all_request_entries(pending: Seq<PendingView>) -> Seq<MenuEntryView>
    decreases pending.len(),
{
    if pending.len() == 0 {
        seq![]
    } else {
        all_request_entries(pending.drop_last()) + request_entries(pending.last())
    }
}

/// The whole menu.
pub open spec fn menu(usage: UsageSnapshot, pending: Seq<PendingView>) -> Seq<MenuEntryView> {
    let separator = if pending.len() > 0 {
        seq![MenuEntryView::Separator]
    } else {
        seq![]
    };
    usage_entries(usage) + all_request_entries(pending) + separator + seq![quit_button()]
}

fn joined(a: &str, b: &str) -> (r: String)
    ensures
        r@ == a@ + b@,
{
    let mut r: String = a.to_owned();
    r.append(b);
    r
}

fn push_request(entries: &mut Vec<MenuEntry>, request: &PendingRequest)
    ensures
        entry_views(final(entries)@) == entry_views(old(entries)@) + request_entries(request@),
{
    let mut label: String = joined(request.tool_name.as_str(), " \u{2014} ");
    label.append(request.tool_input_preview.as_str());
    entries.push(MenuEntry::Label(label));
    entries.push(
        MenuEntry::Button {
            id: joined(ALLOW_PREFIX, request.request_id.as_str()),
            text: ALLOW_TEXT.to_owned(),
        },
    );
    entries.push(
        MenuEntry::Button {
            id: joined(DENY_PREFIX, request.request_id.as_str()),
            text: DENY_TEXT.to_owned(),
        },
    );
    assert(entry_views(entries@) == entry_views(old(entries)@) + request_entries(request@));
}

/// The lines of the menu.
pub fn menu_entries(usage: &UsageSnapshot, pending: &Vec<PendingRequest>) -> (r: Vec<MenuEntry>)
    ensures
        entry_views(r@) == menu(*usage, pending_views(pending@)),
{
    let mut r: Vec<MenuEntry> = Vec::new();
    if usage.five_hour_pct.is_some() || usage.seven_day_pct.is_some() {
        r.push(MenuEntry::Label(usage_line(SESSION_LABEL, usage.five_hour_pct)));
        r.push(MenuEntry::Label(usage_line(WEEK_LABEL, usage.seven_day_pct)));
        r.push(MenuEntry::Separator);
    }
    assert(entry_views(r@) == usage_entries(*usage));
    let ghost views = pending_views(pending@);
    let mut i: usize = 0;
    while i < pending.len()
        invariant
            i <= pending@.len(),
            views == pending_views(pending@),
            entry_views(r@) == usage_entries(*usage) + all_request_entries(views.take(i as int)),
        decreases pending@.len() - i,
    {
        push_request(&mut r, &pending[i]);
        assert(views.take(i + 1).drop_last() == views.take(i as int));
        assert(entry_views(r@) == usage_entries(*usage) + all_request_entries(views.take(i + 1)));
        i = i + 1;
    }
    assert(views.take(i as int) == views);
    let ghost before = entry_views(r@);
    if pending.len() > 0 {
        r.push(MenuEntry::Separator);
    }
    r.push(MenuEntry::Button { id: QUIT_ID.to_owned(), text: QUIT_TEXT.to_owned() });
    assert(entry_views(r@) == menu(*usage, views));
    r
}

/// What a click on a button asks for.
#[derive(Debug, PartialEq, Eq)]
pub enum Click {
    Quit,
    Allow(String),
    Deny(String),
    Unknown,
}

pub enum ClickView {
    Quit,
    Allow(Seq<char>),
    Deny(Seq<char>),
    Unknown,
}

impl View for Click {
    type V = ClickView;

    open spec fn view(&self) -> ClickView {
        match *self {
            Click::Quit => ClickView::Quit,
            Click::Allow(id) => ClickView::Allow(id@),
            Click::Deny(id) => ClickView::Deny(id@),
            Click::Unknown => ClickView::Unknown,
        }
    }
}

/// What a click on the button named `id` asks for.
pub open spec fn click_of(id: Seq<char>) -> ClickView {
    if id == QUIT_ID@ {
        ClickView::Quit
    } else {
        match (strip_prefix(id, ALLOW_PREFIX@), strip_prefix(id, DENY_PREFIX@)) {
            (Some(request_id), _) => ClickView::Allow(request_id),
            (None, Some(request_id)) => ClickView::Deny(request_id),
            (None, None) => ClickView::Unknown,
        }
    }
}

/// What a click on the button named `id` asks for.
pub fn read_click(id: &str) -> (r: Click)
    ensures
        r@ == click_of(id@),
{
    if id.to_owned() == QUIT_ID.to_owned() {
        return Click::Quit;
    }
    match strip_prefix_text(id, ALLOW_PREFIX) {
        Some(request_id) => Click::Allow(request_id),
        None => match strip_prefix_text(id, DENY_PREFIX) {
            Some(request_id) => Click::Deny(request_id),
            None => Click::Unknown,
        },
    }
}

/// A click on a request's button is read as a click for that request, whatever its name.
pub proof fn buttons_are_read_back(request_id: Seq<char>)
    ensures
        click_of(ALLOW_PREFIX@ + request_id) == ClickView::Allow(request_id),
        click_of(DENY_PREFIX@ + request_id) == ClickView::Deny(request_id),
        click_of(QUIT_ID@) == ClickView::Quit,
{
    reveal_strlit("quit");
    reveal_strlit("allow:");
    reveal_strlit("deny:");
    let (allow, deny) = (ALLOW_PREFIX@ + request_id, DENY_PREFIX@ + request_id);
    assert(allow[0] == 'a');
    assert(deny[0] == 'd');
    assert(QUIT_ID@[0] == 'q');
    assert(allow.take(6) == ALLOW_PREFIX@);
    assert(allow.skip(6) == request_id);
    assert(deny.take(5) == DENY_PREFIX@);
    assert(deny.skip(5) == request_id);
    if deny.len() >= 6 {
        assert(deny.take(6)[0] == 'd');
    }
}

/// Every pending request has its two buttons in the menu.
pub proof fn every_request_has_its_buttons(
    usage: UsageSnapshot,
    pending: Seq<PendingView>,
    i: int,
)
    requires
        0 <= i < pending.len(),
    ensures
        menu(usage, pending).contains(allow_button(pending[i].request_id)),
        menu(usage, pending).contains(deny_button(pending[i].request_id)),
{
    let k = usage_entries(usage).len();
    lemma_request_entries_at(pending, i);
    let entries = all_request_entries(pending);
    assert(menu(usage, pending)[k + 3 * i + 1] == entries[3 * i + 1]);
    assert(menu(usage, pending)[k + 3 * i + 2] == entries[3 * i + 2]);
}

proof fn lemma_request_entries_at(pending: Seq<PendingView>, i: int)
    requires
        0 <= i < pending.len(),
    ensures
        all_request_entries(pending).len() == 3 * pending.len(),
        all_request_entries(pending)[3 * i + 1] == allow_button(pending[i].request_id),
        all_request_entries(pending)[3 * i + 2] == deny_button(pending[i].request_id),
    decreases pending.len(),
{
    reveal_with_fuel(all_request_entries, 2);
    let before = pending.drop_last();
    if before.len() > 0 {
        lemma_request_entries_at(before, if i < before.len() { i } else { 0 });
    }
}

/// No button in the menu is for a request that is not pending.
pub proof fn every_button_is_for_a_pending_request(
    usage: UsageSnapshot,
    pending: Seq<PendingView>,
    k: int,
    request_id: Seq<char>,
)
    requires
        0 <= k < menu(usage, pending).len(),
        menu(usage, pending)[k] matches MenuEntryView::Button { id, text } && (click_of(id)
            == ClickView::Allow(request_id) || click_of(id) == ClickView::Deny(request_id)),
    ensures
        exists|i: int| 0 <= i < pending.len() && (#[trigger] pending[i]).request_id == request_id,
{
    let u = usage_entries(usage).len();
    let n = all_request_entries(pending).len();
    buttons_are_read_back(request_id);
    if u <= k < u + n {
        lemma_buttons_among(pending, k - u, request_id);
    }
}

proof fn lemma_buttons_among(pending: Seq<PendingView>, k: int, request_id: Seq<char>)
    requires
        0 <= k < all_request_entries(pending).len(),
        all_request_entries(pending)[k] matches MenuEntryView::Button { id, text } && (click_of(id)
            == ClickView::Allow(request_id) || click_of(id) == ClickView::Deny(request_id)),
    ensures
        exists|i: int| 0 <= i < pending.len() && (#[trigger] pending[i]).request_id == request_id,
    decreases pending.len(),
{
    let before = pending.drop_last();
    let m = all_request_entries(before).len();
    if k < m {
        lemma_buttons_among(before, k, request_id);
        let i = choose|i: int|
            0 <= i < before.len() && (#[trigger] before[i]).request_id == request_id;
        assert(pending[i] == before[i]);
    } else {
        buttons_are_read_back(pending.last().request_id);
        assert(pending[pending.len() - 1].request_id == request_id);
    }
}

} // verus!
