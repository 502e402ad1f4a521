//! What the menu of the tray shows, and what a click in it does.

use vstd::prelude::*;

use crate::menu::{
    all_request_entries, click_of, menu, usage_entries, ClickView, MenuEntryView,
};
use crate::session::PendingView;
use crate::usage::{usage_line_text, UsageSnapshot};

verus! {

/// How a button's name is read: each name in exactly one way, and each request by its own name.
pub proof fn a_click_is_read_by_the_name_of_its_button(id: Seq<char>, request_id: Seq<char>)
    ensures
        click_of(id) == ClickView::Quit <==> id == "quit"@,
        click_of(id) == ClickView::Allow(request_id) <==> id == "allow:"@ + request_id,
        click_of(id) == ClickView::Deny(request_id) <==> id == "deny:"@ + request_id,
{
    reveal_strlit("quit");
    reveal_strlit("allow:");
    reveal_strlit("deny:");
    let (allow, deny) = ("allow:"@ + request_id, "deny:"@ + request_id);
    assert(allow[0] == 'a');
    assert(deny[0] == 'd');
    assert("quit"@[0] == 'q');
    assert(allow.take(6) == "allow:"@);
    assert(allow.skip(6) == request_id);
    assert(deny.take(5) == "deny:"@);
    assert(deny.skip(5) == request_id);
    if deny.len() >= 6 {
        assert(deny.take(6)[0] == 'd');
    }
    if id.len() >= 6 {
        assert(id.take(6) + id.skip(6) == id);
    }
    if id.len() >= 5 {
        assert(id.take(5) + id.skip(5) == id);
    }
}

/// A click on a button of any other name asks for nothing.
pub proof fn other_names_ask_for_nothing(id: Seq<char>)
    requires
        id != "quit"@,
        forall|rest: Seq<char>| id != #[trigger] ("allow:"@ + rest),
        forall|rest: Seq<char>| id != #[trigger] ("deny:"@ + rest),
    ensures
        click_of(id) == ClickView::Unknown,
{
    match click_of(id) {
        ClickView::Quit => a_click_is_read_by_the_name_of_its_button(id, id),
        ClickView::Allow(rest) => a_click_is_read_by_the_name_of_its_button(id, rest),
        ClickView::Deny(rest) => a_click_is_read_by_the_name_of_its_button(id, rest),
        ClickView::Unknown => {},
    }
}

/// Where the lines of each request stand among those of all requests.
proof fn lemma_lines_of_requests(pending: Seq<PendingView>)
    ensures
        all_request_entries(pending).len() == 3 * pending.len(),
        forall|i: int|
            #![trigger pending[i]]
            0 <= i < pending.len() ==> {
                &&& all_request_entries(pending)[3 * i] == MenuEntryView::Label(
                    pending[i].tool_name + " \u{2014} "@ + pending[i].tool_input_preview,
                )
                &&& all_request_entries(pending)[3 * i + 1] == MenuEntryView::Button {
                    id: "allow:"@ + pending[i].request_id,
                    text: "  \u{2713} Permitir"@,
                }
                &&& all_request_entries(pending)[3 * i + 2] == MenuEntryView::Button {
                    id: "deny:"@ + pending[i].request_id,
                    text: "  \u{2717} Negar"@,
                }
            },
    decreases pending.len(),
{
    if pending.len() > 0 {
        let before = pending.drop_last();
        lemma_lines_of_requests(before);
        assert forall|i: int|
            #![trigger pending[i]]
            0 <= i < pending.len() implies {
            &&& all_request_entries(pending)[3 * i] == MenuEntryView::Label(
                pending[i].tool_name + " \u{2014} "@ + pending[i].tool_input_preview,
            )
            &&& all_request_entries(pending)[3 * i + 1] == MenuEntryView::Button {
                id: "allow:"@ + pending[i].request_id,
                text: "  \u{2713} Permitir"@,
            }
            &&& all_request_entries(pending)[3 * i + 2] == MenuEntryView::Button {
                id: "deny:"@ + pending[i].request_id,
                text: "  \u{2717} Negar"@,
            }
        } by {
            if i < before.len() {
                assert(before[i] == pending[i]);
            }
        }
    }
}

/// How many lines of usage stand on top of the menu.
pub open spec fn lines_on_top(usage: UsageSnapshot) -> int {
    if usage.five_hour_pct is Some || usage.seven_day_pct is Some {
        3
    } else {
        0
    }
}

/// The menu has nothing but the lines of usage, three for each request, a line between the
/// requests and the end, and the end.
pub proof fn the_menu_is_as_long_as_it_has_to_be(usage: UsageSnapshot, pending: Seq<PendingView>)
    ensures
        menu(usage, pending).len() == lines_on_top(usage) + 3 * pending.len() + if pending.len()
            > 0 {
            2int
        } else {
            1
        },
{
    lemma_lines_of_requests(pending);
}

/// Each request has three lines, in the order in which the requests wait: what it is about, a
/// button to allow it, and one to deny it.
pub proof fn each_request_has_three_lines(
    usage: UsageSnapshot,
    pending: Seq<PendingView>,
    i: int,
)
    requires
        0 <= i < pending.len(),
    ensures
        ({
            let k = lines_on_top(usage) + 3 * i;
            &&& menu(usage, pending)[k] == MenuEntryView::Label(
                pending[i].tool_name + " \u{2014} "@ + pending[i].tool_input_preview,
            )
            &&& menu(usage, pending)[k + 1] == MenuEntryView::Button {
                id: "allow:"@ + pending[i].request_id,
                text: "  \u{2713} Permitir"@,
            }
            &&& menu(usage, pending)[k + 2] == MenuEntryView::Button {
                id: "deny:"@ + pending[i].request_id,
                text: "  \u{2717} Negar"@,
            }
        }),
{
    lemma_lines_of_requests(pending);
    let k = lines_on_top(usage) + 3 * i;
    let entries = all_request_entries(pending);
    assert(usage_entries(usage).len() == lines_on_top(usage));
    assert(menu(usage, pending)[k] == entries[3 * i]);
    assert(menu(usage, pending)[k + 1] == entries[3 * i + 1]);
    assert(menu(usage, pending)[k + 2] == entries[3 * i + 2]);
}

/// Usage stands on top as soon as one of the quotas is known: a line for each, and a line below.
pub proof fn usage_stands_on_top(usage: UsageSnapshot, pending: Seq<PendingView>)
    requires
        usage.five_hour_pct is Some || usage.seven_day_pct is Some,
    ensures
        menu(usage, pending)[0] == MenuEntryView::Label(
            usage_line_text("Sess\u{e3}o"@, usage.five_hour_pct),
        ),
        menu(usage, pending)[1] == MenuEntryView::Label(
            usage_line_text("Semana"@, usage.seven_day_pct),
        ),
        menu(usage, pending)[2] is Separator,
{
    assert(usage_entries(usage).len() == 3);
}

/// The button that ends the program comes last, below a line where there are requests.
pub proof fn the_way_out_comes_last(usage: UsageSnapshot, pending: Seq<PendingView>)
    ensures
        menu(usage, pending).last() == (MenuEntryView::Button { id: "quit"@, text: "Sair"@ }),
        pending.len() > 0 ==> menu(usage, pending)[menu(usage, pending).len() - 2] is Separator,
{
    lemma_lines_of_requests(pending);
}

/// Where a button stands in the menu, and whose it is.
proof fn lemma_whose_button(usage: UsageSnapshot, pending: Seq<PendingView>, k: int)
    requires
        0 <= k < menu(usage, pending).len(),
        menu(usage, pending)[k] is Button,
    ensures
        menu(usage, pending)[k] == (MenuEntryView::Button { id: "quit"@, text: "Sair"@ }) || (
        exists|i: int|
            #![trigger pending[i]]
            0 <= i < pending.len() && (menu(usage, pending)[k] == (MenuEntryView::Button {
                id: "allow:"@ + pending[i].request_id,
                text: "  \u{2713} Permitir"@,
            }) || menu(usage, pending)[k] == (MenuEntryView::Button {
                id: "deny:"@ + pending[i].request_id,
                text: "  \u{2717} Negar"@,
            }))),
{
    lemma_lines_of_requests(pending);
    let u = lines_on_top(usage);
    assert(usage_entries(usage).len() == u);
    if u <= k < u + 3 * pending.len() {
        let i = (k - u) / 3;
        each_request_has_three_lines(usage, pending, i);
        assert(k == u + 3 * i || k == u + 3 * i + 1 || k == u + 3 * i + 2);
        assert(0 <= i < pending.len());
        let request = pending[i];
        assert(menu(usage, pending)[k] == (MenuEntryView::Button {
            id: "allow:"@ + request.request_id,
            text: "  \u{2713} Permitir"@,
        }) || menu(usage, pending)[k] == (MenuEntryView::Button {
            id: "deny:"@ + request.request_id,
            text: "  \u{2717} Negar"@,
        }));
    }
}

/// Buttons do what they say: in every menu, a click on a button that says to allow allows a
/// pending request, one on a button that says to deny denies one, and one on the button that says
/// to leave ends the program. There are no other buttons.
pub proof fn buttons_do_what_they_say(
    usage: UsageSnapshot,
    pending: Seq<PendingView>,
    k: int,
    id: Seq<char>,
    text: Seq<char>,
)
    requires
        0 <= k < menu(usage, pending).len(),
        menu(usage, pending)[k] == (MenuEntryView::Button { id, text }),
    ensures
        text == "  \u{2713} Permitir"@ || text == "  \u{2717} Negar"@ || text == "Sair"@,
        text == "  \u{2713} Permitir"@ <==> click_of(id) is Allow,
        text == "  \u{2717} Negar"@ <==> click_of(id) is Deny,
        text == "Sair"@ <==> click_of(id) is Quit,
        click_of(id) matches ClickView::Allow(request_id) ==> exists|i: int|
            0 <= i < pending.len() && (#[trigger] pending[i]).request_id == request_id,
        click_of(id) matches ClickView::Deny(request_id) ==> exists|i: int|
            0 <= i < pending.len() && (#[trigger] pending[i]).request_id == request_id,
{
    lemma_whose_button(usage, pending, k);
    reveal_strlit("  \u{2713} Permitir");
    reveal_strlit("  \u{2717} Negar");
    reveal_strlit("Sair");
    assert("  \u{2713} Permitir"@[2] != "  \u{2717} Negar"@[2]);
    assert("Sair"@[0] != "  \u{2713} Permitir"@[0]);
    assert("Sair"@[0] != "  \u{2717} Negar"@[0]);
    a_click_is_read_by_the_name_of_its_button(id, id);
    if menu(usage, pending)[k] != (MenuEntryView::Button { id: "quit"@, text: "Sair"@ }) {
        let i = choose|i: int|
            #![trigger pending[i]]
            0 <= i < pending.len() && (menu(usage, pending)[k] == (MenuEntryView::Button {
                id: "allow:"@ + pending[i].request_id,
                text: "  \u{2713} Permitir"@,
            }) || menu(usage, pending)[k] == (MenuEntryView::Button {
                id: "deny:"@ + pending[i].request_id,
                text: "  \u{2717} Negar"@,
            }));
        a_click_is_read_by_the_name_of_its_button(id, pending[i].request_id);
    }
}

/// Every pending request can be allowed and can be denied: the menu has a button that says so and
/// whose click is read as that, for that request.
pub proof fn every_request_can_be_decided(
    usage: UsageSnapshot,
    pending: Seq<PendingView>,
    i: int,
)
    requires
        0 <= i < pending.len(),
    ensures
        exists|k: int|
            0 <= k < menu(usage, pending).len() && ((#[trigger] menu(usage, pending)[k]) matches
            MenuEntryView::Button { id, text } && text == "  \u{2713} Permitir"@ && click_of(id)
                == ClickView::Allow(pending[i].request_id)),
        exists|k: int|
            0 <= k < menu(usage, pending).len() && ((#[trigger] menu(usage, pending)[k]) matches
            MenuEntryView::Button { id, text } && text == "  \u{2717} Negar"@ && click_of(id)
                == ClickView::Deny(pending[i].request_id)),
{
    let request_id = pending[i].request_id;
    let k = lines_on_top(usage) + 3 * i;
    each_request_has_three_lines(usage, pending, i);
    the_menu_is_as_long_as_it_has_to_be(usage, pending);
    a_click_is_read_by_the_name_of_its_button("allow:"@ + request_id, request_id);
    a_click_is_read_by_the_name_of_its_button("deny:"@ + request_id, request_id);
    assert(menu(usage, pending)[k + 1] is Button);
    assert(menu(usage, pending)[k + 2] is Button);
}

} // verus!
