use spec_windows::binary64::Binary64;
use spec_windows::icon::{
    eyes_closed_lines, eyes_open_rects, icon_layers, mascot_rects, Layer, Point, Rect, Rgba,
};
use spec_windows::menu::{menu_entries, read_click, Click, MenuEntry};
use spec_windows::promote::{first_match, own_entry};
use spec_windows::protocol::Usage;
use spec_windows::session::PendingRequest;
use spec_windows::tray::{DaemonEvent, Tray, TrayAction};
use spec_windows::usage::UsageSnapshot;

const SECOND: u64 = 1_000_000_000;

fn number(x: f64) -> Binary64 {
    Binary64 { bits: x.to_bits() }
}

fn pending(id: &str, reply: u64) -> PendingRequest {
    PendingRequest {
        request_id: id.to_string(),
        tool_name: "Bash".to_string(),
        tool_input_preview: format!("<{id}>"),
        reply,
    }
}

fn arrival(id: &str, reply: u64) -> DaemonEvent {
    DaemonEvent::NewRequest(pending(id, reply))
}

fn notify(id: &str) -> TrayAction {
    TrayAction::Notify { tool_name: "Bash".to_string(), preview: format!("<{id}>") }
}

fn reply(reply: u64, decision: &str) -> TrayAction {
    TrayAction::Reply { reply, decision: decision.to_string(), reason: None }
}

fn label(text: &str) -> MenuEntry {
    MenuEntry::Label(text.to_string())
}

fn button(id: &str, text: &str) -> MenuEntry {
    MenuEntry::Button { id: id.to_string(), text: text.to_string() }
}

fn entries(id: &str) -> Vec<MenuEntry> {
    vec![
        label(&format!("Bash — <{id}>")),
        button(&format!("allow:{id}"), "  ✓ Permitir"),
        button(&format!("deny:{id}"), "  ✗ Negar"),
    ]
}

fn menu(ids: &[&str]) -> TrayAction {
    let mut all = Vec::new();
    for id in ids {
        all.extend(entries(id));
    }
    if !ids.is_empty() {
        all.push(MenuEntry::Separator);
    }
    all.push(button("quit", "Sair"));
    TrayAction::SetMenu(all)
}

fn click(id: &str) -> Option<String> {
    Some(id.to_string())
}

#[test]
fn an_idle_turn_does_nothing() {
    let mut tray = Tray::new(0);
    assert_eq!(tray.turn(vec![], None, SECOND), vec![]);
    assert_eq!(tray, Tray::new(0));
}

#[test]
fn a_request_is_announced_and_listed() {
    let mut tray = Tray::new(0);
    let actions = tray.turn(vec![arrival("a", 1), arrival("b", 2)], None, 0);
    assert_eq!(actions, vec![notify("a"), notify("b"), menu(&["a", "b"])]);
}

#[test]
fn a_click_answers_its_request_once() {
    let mut tray = Tray::new(0);
    tray.turn(vec![arrival("a", 1), arrival("b", 2)], None, 0);
    assert_eq!(tray.turn(vec![], click("deny:a"), 0), vec![reply(1, "deny"), menu(&["b"])]);
    assert_eq!(tray.turn(vec![], click("allow:a"), 0), vec![]);
    assert_eq!(tray.turn(vec![], click("allow:b"), 0), vec![reply(2, "allow"), menu(&[])]);
}

#[test]
fn a_request_can_arrive_and_be_answered_in_one_turn() {
    let mut tray = Tray::new(0);
    let actions = tray.turn(vec![arrival("a", 1)], click("allow:a"), 0);
    assert_eq!(actions, vec![notify("a"), reply(1, "allow"), menu(&[])]);
}

#[test]
fn clicks_on_nothing_known_are_ignored() {
    let mut tray = Tray::new(0);
    tray.turn(vec![arrival("a", 1)], None, 0);
    for id in ["allow:x", "deny:", "a", "Allow:a", ""] {
        assert_eq!(tray.turn(vec![], click(id), 0), vec![]);
    }
    assert_eq!(tray.pending, vec![pending("a", 1)]);
}

#[test]
fn quitting_ends_the_loop() {
    let mut tray = Tray::new(0);
    assert_eq!(tray.turn(vec![], click("quit"), 0), vec![TrayAction::Exit]);
}

#[test]
fn a_request_of_the_same_name_replaces_the_old_one() {
    let mut tray = Tray::new(0);
    tray.turn(vec![arrival("a", 1), arrival("b", 2)], None, 0);
    let actions = tray.turn(vec![arrival("a", 3)], None, 0);
    assert_eq!(actions, vec![notify("a"), TrayAction::Forget { reply: 1 }, menu(&["a", "b"])]);
    assert_eq!(tray.turn(vec![], click("allow:a"), 0), vec![reply(3, "allow"), menu(&["b"])]);
}

#[test]
fn an_expired_request_leaves() {
    let mut tray = Tray::new(0);
    tray.turn(vec![arrival("a", 1)], None, 0);
    let expired = || DaemonEvent::Expired("a".to_string());
    assert_eq!(
        tray.turn(vec![expired()], None, 0),
        vec![TrayAction::Forget { reply: 1 }, menu(&[])]
    );
    assert_eq!(tray.turn(vec![expired()], None, 0), vec![]);
}

#[test]
fn every_connection_is_settled_exactly_once() {
    let mut tray = Tray::new(0);
    let mut settled = vec![];
    let turns = vec![
        (vec![arrival("a", 1), arrival("b", 2), arrival("a", 3)], None),
        (vec![DaemonEvent::Expired("a".to_string())], click("allow:a")),
        (vec![arrival("c", 4)], click("deny:b")),
        (vec![DaemonEvent::Expired("b".to_string())], click("allow:c")),
    ];
    for (events, button) in turns {
        for action in tray.turn(events, button, 0) {
            match action {
                TrayAction::Reply { reply, .. } => settled.push(reply),
                TrayAction::Forget { reply } => settled.push(reply),
                _ => {}
            }
        }
    }
    settled.sort();
    assert_eq!(settled, vec![1, 2, 3, 4]);
    assert!(tray.pending.is_empty());
}

#[test]
fn usage_shows_in_tooltip_menu_and_icon() {
    let mut tray = Tray::new(0);
    let usage = Usage::new(Some(number(51.0)), Some(1), None, None);
    let actions = tray.turn(vec![DaemonEvent::Usage(usage)], None, 0);
    let session = "Sessão\t█████░░░░░ 51%";
    assert_eq!(
        actions,
        vec![
            TrayAction::SetTooltip(format!("{session}\nSemana\t?")),
            TrayAction::SetMenu(vec![
                label(session),
                label("Semana\t?"),
                MenuEntry::Separator,
                button("quit", "Sair"),
            ]),
            TrayAction::SetIcon { eyes_open: true },
        ]
    );
    let usage = Usage::new(Some(number(49.0)), Some(1), None, None);
    let actions = tray.turn(vec![DaemonEvent::Usage(usage)], None, 0);
    assert_eq!(actions[0], TrayAction::SetTooltip(format!("{session}\nSemana\t?")));
}

#[test]
fn the_eyes_blink_every_five_seconds() {
    let mut tray = Tray::new(SECOND);
    assert_eq!(tray.turn(vec![], None, 6 * SECOND - 1), vec![]);
    assert_eq!(
        tray.turn(vec![], None, 6 * SECOND),
        vec![TrayAction::SetIcon { eyes_open: false }]
    );
    assert_eq!(tray.turn(vec![], None, 10 * SECOND), vec![]);
    assert_eq!(
        tray.turn(vec![arrival("a", 1)], None, 12 * SECOND),
        vec![notify("a"), menu(&["a"]), TrayAction::SetIcon { eyes_open: true }]
    );
    assert_eq!(tray.turn(vec![], None, 0), vec![]);
}

#[test]
fn the_menu_has_usage_requests_and_quit() {
    let usage = UsageSnapshot {
        five_hour_pct: None,
        five_hour_resets_at: None,
        seven_day_pct: Some(number(10.0)),
        seven_day_resets_at: None,
    };
    let mut expected = vec![
        label("Sessão\t?"),
        label("Semana\t█░░░░░░░░░ 10%"),
        MenuEntry::Separator,
    ];
    expected.extend(entries("x"));
    expected.push(MenuEntry::Separator);
    expected.push(button("quit", "Sair"));
    assert_eq!(menu_entries(&usage, &vec![pending("x", 0)]), expected);
    assert_eq!(
        menu_entries(&UsageSnapshot::default(), &vec![]),
        vec![button("quit", "Sair")]
    );
}

#[test]
fn buttons_are_read_back_as_drawn() {
    for id in ["a", "", "deny:a", "allow:", "quit", "é"] {
        for entry in entries(id) {
            if let MenuEntry::Button { id: name, .. } = entry {
                let expected = if name.starts_with('a') {
                    Click::Allow(id.to_string())
                } else {
                    Click::Deny(id.to_string())
                };
                assert_eq!(read_click(&name), expected);
            }
        }
    }
    assert_eq!(read_click("quit"), Click::Quit);
    assert_eq!(read_click("quit:"), Click::Unknown);
}

#[test]
fn the_icon_is_the_mascot_and_its_eyes() {
    let orange = Rgba { r: 0xd9, g: 0x77, b: 0x57, a: 0xff };
    let black = Rgba { r: 0, g: 0, b: 0, a: 0xff };
    let mascot = || Layer::Fill { color: orange, rects: mascot_rects() };
    assert_eq!(
        icon_layers(true),
        vec![mascot(), Layer::Fill { color: black, rects: eyes_open_rects() }]
    );
    assert_eq!(
        icon_layers(false),
        vec![mascot(), Layer::Stroke { color: black, width: 11, lines: eyes_closed_lines() }]
    );
    assert_eq!(mascot_rects().len(), 7);
    assert_eq!(mascot_rects()[4], Rect { x0: 54, y0: 138, x1: 72, y1: 180 });
    assert_eq!(eyes_open_rects()[0], Rect { x0: 47, y0: 27, x1: 73, y1: 53 });
    assert_eq!(
        eyes_closed_lines()[1],
        vec![Point { x: 153, y: 27 }, Point { x: 127, y: 40 }, Point { x: 153, y: 53 }]
    );
}

#[test]
fn a_blink_keeps_the_eyes_in_place() {
    for (line, rect) in eyes_closed_lines().iter().zip(eyes_open_rects()) {
        assert_eq!(line.iter().map(|p| p.x).min(), Some(rect.x0));
        assert_eq!(line.iter().map(|p| p.x).max(), Some(rect.x1));
        assert_eq!(line.iter().map(|p| p.y).min(), Some(rect.y0));
        assert_eq!(line.iter().map(|p| p.y).max(), Some(rect.y1));
    }
}

#[test]
fn the_own_entry_is_the_first_of_its_path() {
    let path = |s: &str| Some(s.to_string());
    let paths = vec![None, path("C:\\X\\other.exe"), path("c:\\x\\SPECD.exe"), path("C:\\X\\specd.exe")];
    assert_eq!(own_entry("C:\\X\\Specd.EXE", &paths), Some(2));
    assert_eq!(own_entry("C:\\Y\\specd.exe", &paths), None);
    assert_eq!(own_entry("É", &vec![path("é")]), Some(0));
    assert_eq!(own_entry("x", &vec![]), None);
    assert_eq!(first_match(&"a".to_string(), &vec![path("A"), path("a")]), Some(1));
    assert_eq!(first_match(&"a".to_string(), &vec![path("A"), None]), None);
}
