//! Account usage: what the tray keeps of the reports that come in, and how it shows it.

use vstd::prelude::*;
use vstd::string::*;

use crate::binary64::Binary64;
use crate::protocol::Usage;

verus! {

pub const SESSION_LABEL: &'static str = "Sess\u{e3}o";

pub const WEEK_LABEL: &'static str = "Semana";

/// The tooltip of a tray that knows of no usage yet.
pub const PLAIN_TOOLTIP: &'static str = "spec-windows";

/// How many cells a usage bar has.
pub const BAR_WIDTH: usize = 10;

/// What is known of the two quotas: how much is used up, in percent, and when the window ends.
#[derive(Clone, Copy, Debug, PartialEq, Eq)]
pub struct UsageSnapshot {
    pub five_hour_pct: Option<Binary64>,
    pub five_hour_resets_at: Option<i64>,
    pub seven_day_pct: Option<Binary64>,
    pub seven_day_resets_at: Option<i64>,
}

impl Default for UsageSnapshot {
    fn default() -> (r: Self)
        ensures
            r == UsageSnapshot::unknown(),
    {
        UsageSnapshot {
            five_hour_pct: None,
            five_hour_resets_at: None,
            seven_day_pct: None,
            seven_day_resets_at: None,
        }
    }
}

/// A quota in one window: the percentage that is used up, and when the window ends.
pub struct Quota {
    pub pct: Option<Binary64>,
    pub resets_at: Option<i64>,
}

/// What is known of a quota once `new` was reported. A report without a percentage changes
/// nothing. Usage only grows within a window, so a lower percentage counts only where it is for
/// another window.
pub open spec fn merged(current: Quota, new: Quota) -> Quota {
    match new.pct {
        None => current,
        Some(p) => {
            let new_window = current.resets_at != new.resets_at;
            let is_higher = match current.pct {
                None => true,
                Some(c) => p.is_at_least(c),
            };
            if new_window || is_higher {
                new
            } else {
                current
            }
        },
    }
}

/// Takes a report on a quota into account.
pub fn merge_usage_field(
    current_pct: &mut Option<Binary64>,
    current_resets_at: &mut Option<i64>,
    new_pct: Option<Binary64>,
    new_resets_at: Option<i64>,
)
    ensures
        (Quota { pct: *final(current_pct), resets_at: *final(current_resets_at) }) == merged(
            Quota { pct: *old(current_pct), resets_at: *old(current_resets_at) },
            Quota { pct: new_pct, resets_at: new_resets_at },
        ),
{
    let p: Binary64 = match new_pct {
        Some(p) => p,
        None => {
            return;
        },
    };
    let new_window: bool = *current_resets_at != new_resets_at;
    let is_higher: bool = match *current_pct {
        None => true,
        Some(c) => p.at_least(c),
    };
    if new_window || is_higher {
        *current_pct = Some(p);
        *current_resets_at = new_resets_at;
    }
}

impl UsageSnapshot {
    /// Nothing is known.
    pub open spec fn unknown() -> UsageSnapshot {
        UsageSnapshot {
            five_hour_pct: None,
            five_hour_resets_at: None,
            seven_day_pct: None,
            seven_day_resets_at: None,
        }
    }

    pub open spec fn five_hour(self) -> Quota {
        Quota { pct: self.five_hour_pct, resets_at: self.five_hour_resets_at }
    }

    pub open spec fn seven_day(self) -> Quota {
        Quota { pct: self.seven_day_pct, resets_at: self.seven_day_resets_at }
    }

    /// What is known once `report` was taken into account.
    pub open spec fn recorded(self, report: UsageSnapshot) -> UsageSnapshot {
        let five_hour = merged(self.five_hour(), report.five_hour());
        let seven_day = merged(self.seven_day(), report.seven_day());
        UsageSnapshot {
            five_hour_pct: five_hour.pct,
            five_hour_resets_at: five_hour.resets_at,
            seven_day_pct: seven_day.pct,
            seven_day_resets_at: seven_day.resets_at,
        }
    }

    /// Takes a report into account, each quota on its own.
    pub fn record(&mut self, report: &Usage)
        ensures
            *final(self) == old(self).recorded(report.snapshot()),
    {
        merge_usage_field(
            &mut self.five_hour_pct,
            &mut self.five_hour_resets_at,
            report.five_hour_pct,
            report.five_hour_resets_at,
        );
        merge_usage_field(
            &mut self.seven_day_pct,
            &mut self.seven_day_resets_at,
            report.seven_day_pct,
            report.seven_day_resets_at,
        );
    }

    /// Whether there is a percentage to show.
    pub open spec fn is_known(self) -> bool {
        self.five_hour_pct is Some || self.seven_day_pct is Some
    }
}

impl Usage {
    /// The figures of the report.
    pub open spec fn snapshot(self) -> UsageSnapshot {
        UsageSnapshot {
            five_hour_pct: self.five_hour_pct,
            five_hour_resets_at: self.five_hour_resets_at,
            seven_day_pct: self.seven_day_pct,
            seven_day_resets_at: self.seven_day_resets_at,
        }
    }
}

pub open spec fn bar_text(filled: nat, width: nat) -> Seq<char> {
    Seq::new(width, |i: int| if i < filled { '\u{2588}' } else { '\u{2591}' })
}

/// A progress bar of `width` cells.
pub fn bar(pct: Binary64, width: usize) -> (r: String)
    ensures
        r@ == bar_text(pct.filled(width as nat), width as nat),
{
    let filled: usize = pct.filled_cells(width);
    proof {
        reveal_strlit("\u{2588}");
        reveal_strlit("\u{2591}");
    }
    let mut r: String = String::new();
    let mut i: usize = 0;
    while i < width
        invariant
            i <= width,
            r@ == bar_text(filled as nat, width as nat).take(i as int),
            "\u{2588}"@ == seq!['\u{2588}'],
            "\u{2591}"@ == seq!['\u{2591}'],
        decreases width - i,
    {
        if i < filled {
            r.append("\u{2588}");
        } else {
            r.append("\u{2591}");
        }
        i = i + 1;
        assert(r@ == bar_text(filled as nat, width as nat).take(i as int));
    }
    assert(r@ == bar_text(filled as nat, width as nat));
    r
}

pub open spec fn usage_line_text(label: Seq<char>, pct: Option<Binary64>) -> Seq<char> {
    match pct {
        Some(p) => label + "\t"@ + bar_text(p.filled(BAR_WIDTH as nat), BAR_WIDTH as nat) + " "@
            + p.rounded_text() + "%"@,
        None => label + "\t?"@,
    }
}

/// A quota in words: its label, a bar, and the percentage to the nearest whole number. The tab
/// lines up the bars of labels of different widths.
pub fn usage_line(label: &str, pct: Option<Binary64>) -> (r: String)
    ensures
        r@ == usage_line_text(label@, pct),
{
    let mut r: String = label.to_owned();
    match pct {
        Some(p) => {
            r.append("\t");
            r.append(bar(p, BAR_WIDTH).as_str());
            r.append(" ");
            r.append(p.to_rounded_text().as_str());
            r.append("%");
        },
        None => {
            r.append("\t?");
        },
    }
    r
}

pub open spec fn tooltip(usage: UsageSnapshot) -> Seq<char> {
    if usage.is_known() {
        usage_line_text(SESSION_LABEL@, usage.five_hour_pct) + "\n"@ + usage_line_text(
            WEEK_LABEL@,
            usage.seven_day_pct,
        )
    } else {
        PLAIN_TOOLTIP@
    }
}

/// The tooltip of the tray icon.
pub fn tooltip_text(usage: &UsageSnapshot) -> (r: String)
    ensures
        r@ == tooltip(*usage),
{
    if usage.five_hour_pct.is_none() && usage.seven_day_pct.is_none() {
        return PLAIN_TOOLTIP.to_owned();
    }
    let mut r: String = usage_line(SESSION_LABEL, usage.five_hour_pct);
    r.append("\n");
    r.append(usage_line(WEEK_LABEL, usage.seven_day_pct).as_str());
    r
}


/// A report that gives a percentage: one that is a number.
pub open spec fn is_figure(q: Quota) -> bool {
    q.pct matches Some(p) && !p.is_nan()
}

/// Two figures for one window: the higher one stays, whichever came last.
pub proof fn the_higher_figure_stays(current: Quota, new: Quota)
    requires
        is_figure(current),
        is_figure(new),
        current.resets_at == new.resets_at,
    ensures
        merged(current, new) == current || merged(current, new) == new,
        merged(current, new).pct->0.is_at_least(current.pct->0),
        merged(current, new).pct->0.is_at_least(new.pct->0),
{
}

/// What is shown goes down only where another window was reported, and then to that report.
pub proof fn usage_falls_only_with_the_window(current: Quota, new: Quota)
    requires
        is_figure(current),
        is_figure(merged(current, new)),
        merged(current, new).pct->0.value() < current.pct->0.value(),
    ensures
        current.resets_at != new.resets_at,
        merged(current, new) == new,
{
}

/// A report that comes twice counts once.
pub proof fn a_repeated_report_changes_nothing(current: Quota, new: Quota)
    ensures
        merged(merged(current, new), new) == merged(current, new),
{
}

/// The same window, and percentages of the same value.
pub open spec fn same_reading(a: Quota, b: Quota) -> bool {
    &&& a.resets_at == b.resets_at
    &&& match (a.pct, b.pct) {
        (Some(x), Some(y)) => x.value() == y.value(),
        (None, None) => true,
        _ => false,
    }
}

/// The order in which two sessions report on one window does not matter.
pub proof fn reports_on_a_window_commute(current: Quota, a: Quota, b: Quota)
    requires
        is_figure(a),
        is_figure(b),
        a.resets_at == b.resets_at,
    ensures
        same_reading(merged(merged(current, a), b), merged(merged(current, b), a)),
{
}

/// What is known of a quota after a series of reports.
pub open spec fn merged_all(current: Quota, reports: Seq<Quota>) -> Quota
    decreases reports.len(),
{
    if reports.len() == 0 {
        current
    } else {
        merged(merged_all(current, reports.drop_last()), reports.last())
    }
}

/// After a series of reports on one window, what is known is one of them or what was known
/// before, and no report is higher than it.
pub proof fn no_report_on_the_window_is_higher(current: Quota, reports: Seq<Quota>)
    requires
        is_figure(current),
        forall|i: int| 0 <= i < reports.len() ==> is_figure(#[trigger] reports[i]),
        forall|i: int|
            0 <= i < reports.len() ==> (#[trigger] reports[i]).resets_at == current.resets_at,
    ensures
        is_figure(merged_all(current, reports)),
        merged_all(current, reports).resets_at == current.resets_at,
        merged_all(current, reports) == current || reports.contains(merged_all(current, reports)),
        merged_all(current, reports).pct->0.is_at_least(current.pct->0),
        forall|i: int|
            0 <= i < reports.len() ==> merged_all(current, reports).pct->0.is_at_least(
                (#[trigger] reports[i]).pct->0,
            ),
    decreases reports.len(),
{
    if reports.len() > 0 {
        let before = reports.drop_last();
        let (x, y) = (merged_all(current, before), merged_all(current, reports));
        assert forall|i: int| 0 <= i < before.len() implies is_figure(#[trigger] before[i])
            && before[i].resets_at == current.resets_at by {
            assert(before[i] == reports[i]);
        }
        no_report_on_the_window_is_higher(current, before);
        assert(is_figure(reports[reports.len() - 1]));
        the_higher_figure_stays(x, reports.last());
        if y == reports.last() {
            assert(reports[reports.len() - 1] == y);
        } else if x != current {
            let i = before.index_of(x);
            assert(before.contains(x));
            assert(reports[i] == x);
        }
        assert forall|i: int| 0 <= i < reports.len() implies y.pct->0.is_at_least(
            (#[trigger] reports[i]).pct->0,
        ) by {
            if i < before.len() {
                assert(before[i] == reports[i]);
            }
        }
    }
}

} // verus!
