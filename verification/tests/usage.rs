use spec_windows::binary64::Binary64;
use spec_windows::protocol::Usage;
use spec_windows::statusline::{
    render_status_line, strip_mark, usage_report, RateLimitWindow, RateLimits, StatusLineInput,
};
use spec_windows::usage::{
    bar, merge_usage_field, tooltip_text, usage_line, UsageSnapshot, SESSION_LABEL, WEEK_LABEL,
};

fn number(x: f64) -> Binary64 {
    Binary64 { bits: x.to_bits() }
}

fn merge(current: (Option<f64>, Option<i64>), new: (Option<f64>, Option<i64>)) -> (Option<f64>, Option<i64>) {
    let mut pct = current.0.map(number);
    let mut resets_at = current.1;
    merge_usage_field(&mut pct, &mut resets_at, new.0.map(number), new.1);
    (pct.map(|p| f64::from_bits(p.bits)), resets_at)
}

#[test]
fn a_stale_lower_figure_is_ignored() {
    assert_eq!(merge((Some(51.0), Some(7)), (Some(49.0), Some(7))), (Some(51.0), Some(7)));
}

#[test]
fn a_higher_figure_is_taken() {
    assert_eq!(merge((Some(49.0), Some(7)), (Some(51.0), Some(7))), (Some(51.0), Some(7)));
    assert_eq!(merge((Some(49.0), Some(7)), (Some(49.0), Some(7))), (Some(49.0), Some(7)));
}

#[test]
fn a_new_window_may_be_lower() {
    assert_eq!(merge((Some(90.0), Some(7)), (Some(1.5), Some(8))), (Some(1.5), Some(8)));
    assert_eq!(merge((Some(90.0), Some(7)), (Some(1.5), None)), (Some(1.5), None));
}

#[test]
fn a_report_without_a_figure_changes_nothing() {
    assert_eq!(merge((Some(90.0), Some(7)), (None, Some(8))), (Some(90.0), Some(7)));
    assert_eq!(merge((None, None), (None, Some(8))), (None, None));
    assert_eq!(merge((None, None), (Some(3.0), None)), (Some(3.0), None));
}

#[test]
fn what_is_not_a_number_does_not_replace_a_figure() {
    assert_eq!(merge((Some(9.0), None), (Some(f64::NAN), None)), (Some(9.0), None));
}

#[test]
fn reports_on_one_window_commute() {
    for (a, b) in [(1.0, 2.0), (2.0, 1.0), (5.0, 5.0)] {
        for start in [(None, None), (Some(1.5), Some(7)), (Some(60.0), Some(6))] {
            let ab = merge(merge(start, (Some(a), Some(7))), (Some(b), Some(7)));
            let ba = merge(merge(start, (Some(b), Some(7))), (Some(a), Some(7)));
            assert_eq!(ab, ba);
            let again = merge(ab, (Some(b), Some(7)));
            assert_eq!(again, ab);
        }
    }
}

#[test]
fn each_quota_is_recorded_on_its_own() {
    let mut usage = UsageSnapshot::default();
    usage.record(&Usage::new(Some(number(10.0)), Some(1), Some(number(20.0)), Some(2)));
    usage.record(&Usage::new(Some(number(5.0)), Some(3), Some(number(15.0)), Some(2)));
    assert_eq!(usage.five_hour_pct, Some(number(5.0)));
    assert_eq!(usage.five_hour_resets_at, Some(3));
    assert_eq!(usage.seven_day_pct, Some(number(20.0)));
    assert_eq!(usage.seven_day_resets_at, Some(2));
}

#[test]
fn bars_show_the_share() {
    assert_eq!(bar(number(60.0), 10), "██████░░░░");
    assert_eq!(bar(number(0.0), 4), "░░░░");
    assert_eq!(bar(number(100.0), 4), "████");
    assert_eq!(bar(number(50.0), 0), "");
}

#[test]
fn usage_lines_have_label_bar_and_percentage() {
    assert_eq!(SESSION_LABEL, "Sessão");
    assert_eq!(WEEK_LABEL, "Semana");
    assert_eq!(usage_line(SESSION_LABEL, Some(number(51.2))), "Sessão\t█████░░░░░ 51%");
    assert_eq!(usage_line("x", Some(number(12.5))), "x\t█░░░░░░░░░ 12%");
    assert_eq!(usage_line(WEEK_LABEL, None), "Semana\t?");
}

#[test]
fn the_tooltip_has_both_quotas_once_one_is_known() {
    let mut usage = UsageSnapshot::default();
    assert_eq!(tooltip_text(&usage), "spec-windows");
    usage.seven_day_pct = Some(number(100.0));
    assert_eq!(tooltip_text(&usage), "Sessão\t?\nSemana\t██████████ 100%");
    usage.five_hour_pct = Some(number(3.0));
    assert_eq!(tooltip_text(&usage), "Sessão\t░░░░░░░░░░ 3%\nSemana\t██████████ 100%");
}

fn window(x: Option<f64>, resets_at: Option<i64>) -> Option<RateLimitWindow> {
    Some(RateLimitWindow { used_percentage: x.map(number), resets_at })
}

#[test]
fn the_status_line_needs_both_figures() {
    let a = window(Some(12.4), Some(1));
    let b = window(Some(98.5), None);
    assert_eq!(render_status_line(&a, &b), Some("\u{1FAA8} sessão 12% · semana 98%".to_string()));
    assert_eq!(render_status_line(&a, &None), None);
    assert_eq!(render_status_line(&window(None, Some(1)), &b), None);
}

#[test]
fn the_report_has_what_is_known() {
    let r = usage_report(&window(Some(12.4), Some(1)), &None);
    assert_eq!(r, Usage::new(Some(number(12.4)), Some(1), None, None));
    assert_eq!(r.msg_type, "usage");
    let r = usage_report(&window(None, Some(1)), &window(Some(2.0), None));
    assert_eq!(r, Usage::new(None, Some(1), Some(number(2.0)), None));
}

#[test]
fn windows_come_from_the_limits() {
    let none = StatusLineInput { rate_limits: None };
    assert_eq!(none.five_hour(), None);
    assert_eq!(none.seven_day(), None);
    let limits = RateLimits { five_hour: window(Some(1.0), None), seven_day: None };
    let some = StatusLineInput { rate_limits: Some(limits) };
    assert_eq!(some.five_hour(), window(Some(1.0), None));
    assert_eq!(some.seven_day(), None);
}

#[test]
fn a_byte_order_mark_is_dropped_once() {
    assert_eq!(strip_mark("\u{feff}{}"), "{}");
    assert_eq!(strip_mark("\u{feff}\u{feff}"), "\u{feff}");
    assert_eq!(strip_mark("{}"), "{}");
    assert_eq!(strip_mark(""), "");
}
