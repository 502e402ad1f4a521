//! What becomes of usage reports: which figure counts, and how it is shown.

use vstd::prelude::*;

use crate::binary64::Binary64;
use crate::protocol::Usage;
use crate::statusline::{
    end, percentage, status_line_text, without_mark, RateLimitWindow, StatusLineInput,
};
use crate::usage::{bar_text, merged, tooltip, usage_line_text, Quota, UsageSnapshot};

verus! {

/// A report with a percentage on another window always counts, whether it is higher or lower and
/// whichever window ends first: the window has rolled over.
pub proof fn another_window_always_counts(current: Quota, new: Quota)
    requires
        new.pct is Some,
        new.resets_at != current.resets_at,
    ensures
        merged(current, new) == new,
{
}

/// The first percentage counts, on whatever window it is.
pub proof fn the_first_figure_counts(current: Quota, new: Quota)
    requires
        current.pct is None,
        new.pct is Some,
    ensures
        merged(current, new) == new,
{
}

/// A report without a percentage changes nothing, not even the window.
pub proof fn a_report_without_a_figure_is_no_report(current: Quota, new: Quota)
    requires
        new.pct is None,
    ensures
        merged(current, new) == current,
{
}

/// Within a window the newer percentage counts exactly where it is a number that is no lower than
/// the one before, which has to be a number too.
pub proof fn within_a_window_the_higher_figure_counts(current: Quota, new: Quota)
    requires
        current.pct is Some,
        new.pct is Some,
        current.resets_at == new.resets_at,
    ensures
        ({
            let (c, n) = (current.pct->0, new.pct->0);
            let counts = !c.is_nan() && !n.is_nan() && c.value() <= n.value();
            merged(current, new) == if counts {
                new
            } else {
                current
            }
        }),
{
}

/// After a rollover the new window counts for itself: what was reported before leaves no trace.
pub proof fn a_rollover_forgets_the_old_window(one: Quota, other: Quota, new: Quota)
    requires
        new.pct is Some,
        new.resets_at != one.resets_at,
        new.resets_at != other.resets_at,
    ensures
        merged(one, new) == merged(other, new),
{
}

/// The two quotas do not touch each other: what is known of each afterwards depends on what was
/// known and reported of that one alone, and is what its reports make of it.
pub proof fn quotas_are_kept_apart(known: UsageSnapshot, report: UsageSnapshot)
    ensures
        ({
            let after = known.recorded(report);
            let five_hour = merged(
                Quota { pct: known.five_hour_pct, resets_at: known.five_hour_resets_at },
                Quota { pct: report.five_hour_pct, resets_at: report.five_hour_resets_at },
            );
            let seven_day = merged(
                Quota { pct: known.seven_day_pct, resets_at: known.seven_day_resets_at },
                Quota { pct: report.seven_day_pct, resets_at: report.seven_day_resets_at },
            );
            &&& after.five_hour_pct == five_hour.pct
            &&& after.five_hour_resets_at == five_hour.resets_at
            &&& after.seven_day_pct == seven_day.pct
            &&& after.seven_day_resets_at == seven_day.resets_at
        }),
{
}

/// A report is taken by its own figures, each quota from its own fields.
pub proof fn a_report_is_taken_at_its_word(report: Usage)
    ensures
        report.snapshot().five_hour_pct == report.five_hour_pct,
        report.snapshot().five_hour_resets_at == report.five_hour_resets_at,
        report.snapshot().seven_day_pct == report.seven_day_pct,
        report.snapshot().seven_day_resets_at == report.seven_day_resets_at,
{
}

/// At first nothing is known.
pub proof fn nothing_is_known_at_first()
    ensures
        UsageSnapshot::unknown().five_hour_pct is None,
        UsageSnapshot::unknown().five_hour_resets_at is None,
        UsageSnapshot::unknown().seven_day_pct is None,
        UsageSnapshot::unknown().seven_day_resets_at is None,
{
}

/// A bar has as many cells as it is wide: full ones first, then empty ones.
pub proof fn a_bar_is_full_cells_then_empty_ones(filled: nat, width: nat, i: int)
    ensures
        bar_text(filled, width).len() == width,
        0 <= i < width && i < filled ==> bar_text(filled, width)[i] == '█',
        0 <= i < width && i >= filled ==> bar_text(filled, width)[i] == '░',
{
}

/// A usage line is the label, a tab, ten cells, a space, the rounded percentage and a percent
/// sign, one after the other.
pub proof fn a_usage_line_reads_from_label_to_percentage(
    label: Seq<char>,
    pct: Binary64,
    i: int,
)
    ensures
        ({
            let line = usage_line_text(label, Some(pct));
            let cells = label.len() as int + 1;
            let number = pct.rounded_text();
            &&& line.len() == label.len() + 13 + number.len()
            &&& line.take(label.len() as int) == label
            &&& line[label.len() as int] == '\t'
            &&& 0 <= i < 10 && i < pct.filled(10) ==> line[cells + i] == '█'
            &&& 0 <= i < 10 && i >= pct.filled(10) ==> line[cells + i] == '░'
            &&& line[cells + 10] == ' '
            &&& line.subrange(cells + 11, line.len() - 1) == number
            &&& line.last() == '%'
        }),
{
    reveal_strlit("\t");
    reveal_strlit(" ");
    reveal_strlit("%");
    let line = usage_line_text(label, Some(pct));
    let cells = label.len() as int + 1;
    assert(line.take(label.len() as int) == label);
    assert(line.subrange(cells + 11, line.len() - 1) == pct.rounded_text());
}

/// A quota that is not known has a question mark in place of bar and percentage.
pub proof fn an_unknown_quota_is_a_question_mark(label: Seq<char>)
    ensures
        usage_line_text(label, None) == label.push('\t').push('?'),
{
    reveal_strlit("\t?");
    assert(usage_line_text(label, None) == label.push('\t').push('?'));
}

/// The tooltip has a line for each quota as soon as one of them is known, and the name of the
/// program until then.
pub proof fn the_tooltip_has_a_line_for_each_quota(usage: UsageSnapshot)
    ensures
        usage.five_hour_pct is None && usage.seven_day_pct is None ==> tooltip(usage)
            == "spec-windows"@,
        usage.five_hour_pct is Some || usage.seven_day_pct is Some ==> tooltip(usage)
            == usage_line_text("Sess\u{e3}o"@, usage.five_hour_pct).push('\n') + usage_line_text(
            "Semana"@,
            usage.seven_day_pct,
        ),
{
    reveal_strlit("\n");
    let first = usage_line_text("Sess\u{e3}o"@, usage.five_hour_pct);
    assert(first + "\n"@ == first.push('\n'));
}

/// A window counts with the percentage and the end that the session gave; of one that it did not
/// give, neither is known.
pub proof fn a_window_counts_as_given(window: Option<RateLimitWindow>)
    ensures
        window matches Some(w) ==> percentage(window) == w.used_percentage && end(window)
            == w.resets_at,
        window is None ==> percentage(window) is None && end(window) is None,
{
}

/// The windows of an account are those of its limits.
pub proof fn windows_are_those_of_the_limits(input: StatusLineInput)
    ensures
        input.rate_limits matches Some(limits) ==> input.five_hour_window() == limits.five_hour
            && input.seven_day_window() == limits.seven_day,
        input.rate_limits is None ==> input.five_hour_window() is None
            && input.seven_day_window() is None,
{
}

/// The status line gives the rounded percentages of both quotas, the shorter one first, and is
/// there exactly where both are known.
pub proof fn the_status_line_gives_both_figures(
    five_hour: Option<RateLimitWindow>,
    seven_day: Option<RateLimitWindow>,
)
    ensures
        status_line_text(five_hour, seven_day) is Some <==> (five_hour matches Some(w)
            && w.used_percentage is Some) && (seven_day matches Some(w)
            && w.used_percentage is Some),
        five_hour matches Some(session) ==> (session.used_percentage matches Some(x)
            ==> (seven_day matches Some(week) ==> (week.used_percentage matches Some(y)
            ==> status_line_text(five_hour, seven_day) == Some(
            ("\u{1FAA8} sess\u{e3}o "@ + x.rounded_text()) + ("% \u{b7} semana "@
                + y.rounded_text()).push('%'),
        )))),
{
    reveal_strlit("%");
    if let (Some(session), Some(week)) = (five_hour, seven_day) {
        if let (Some(x), Some(y)) = (session.used_percentage, week.used_percentage) {
            let (a, b) = ("\u{1FAA8} sess\u{e3}o "@, "% \u{b7} semana "@);
            let (m, n) = (x.rounded_text(), y.rounded_text());
            assert(a + m + b + n + "%"@ == (a + m) + (b + n).push('%'));
        }
    }
}

/// A byte order mark in front of a text is dropped, one and no more; any other text is kept.
pub proof fn one_mark_is_dropped(text: Seq<char>)
    ensures
        text.len() > 0 && text[0] == '\u{feff}' ==> without_mark(text) == text.skip(1),
        text.len() == 0 || text[0] != '\u{feff}' ==> without_mark(text) == text,
{
    reveal_strlit("\u{feff}");
    if text.len() > 0 {
        assert(text.take(1)[0] == text[0]);
        if text[0] == '\u{feff}' {
            assert(text.take(1) == "\u{feff}"@);
        }
    }
}

} // verus!
