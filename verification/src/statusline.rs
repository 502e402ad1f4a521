//! The status line of a terminal session: what it prints, and the usage that it reports.

use vstd::prelude::*;
use vstd::string::*;

use crate::binary64::Binary64;
use crate::protocol::Usage;
use crate::text::{strip_prefix, strip_prefix_text};

verus! {

/// The mark that some programs put in front of a text.
pub const BYTE_ORDER_MARK: &'static str = "\u{feff}";

/// A quota as a session knows it.
#[derive(Clone, Copy, Debug, PartialEq, Eq)]
pub struct RateLimitWindow {
    pub used_percentage: Option<Binary64>,
    pub resets_at: Option<i64>,
}

/// The two quotas of an account.
#[derive(Clone, Copy, Debug, PartialEq, Eq)]
pub struct RateLimits {
    pub five_hour: Option<RateLimitWindow>,
    pub seven_day: Option<RateLimitWindow>,
}

/// What a session says of itself; not every account has quotas.
#[derive(Clone, Copy, Debug, PartialEq, Eq)]
pub struct StatusLineInput {
    pub rate_limits: Option<RateLimits>,
}

/// `text` without a leading byte order mark.
pub open spec fn without_mark(text: Seq<char>) -> Seq<char> {
    match strip_prefix(text, BYTE_ORDER_MARK@) {
        Some(rest) => rest,
        None => text,
    }
}

/// `text` without a leading byte order mark.
pub fn strip_mark(text: &str) -> (r: String)
    ensures
        r@ == without_mark(text@),
{
    match strip_prefix_text(text, BYTE_ORDER_MARK) {
        Some(rest) => rest,
        None => text.to_owned(),
    }
}

/// The percentage of a window that is known.
pub open spec fn percentage(window: Option<RateLimitWindow>) -> Option<Binary64> {
    match window {
        Some(w) => w.used_percentage,
        None => None,
    }
}

/// The end of a window that is known.
pub open spec fn end(window: Option<RateLimitWindow>) -> Option<i64> {
    match window {
        Some(w) => w.resets_at,
        None => None,
    }
}

fn percentage_of(window: &Option<RateLimitWindow>) -> (r: Option<Binary64>)
    ensures
        r == percentage(*window),
{
    match window {
        Some(w) => w.used_percentage,
        None => None,
    }
}

fn end_of(window: &Option<RateLimitWindow>) -> (r: Option<i64>)
    ensures
        r == end(*window),
{
    match window {
        Some(w) => w.resets_at,
        None => None,
    }
}

/// The text of a status line with both percentages to the nearest whole number; nothing where
/// one of them is not known.
pub open spec fn status_line_text(
    five_hour: Option<RateLimitWindow>,
    seven_day: Option<RateLimitWindow>,
) -> Option<Seq<char>> {
    match (percentage(five_hour), percentage(seven_day)) {
        (Some(fh), Some(wk)) => Some(
            "\u{1FAA8} sess\u{e3}o "@ + fh.rounded_text() + "% \u{b7} semana "@ + wk.rounded_text()
                + "%"@,
        ),
        _ => None,
    }
}

/// The status line, where both percentages are known.
pub fn render_status_line(
    five_hour: &Option<RateLimitWindow>,
    seven_day: &Option<RateLimitWindow>,
) -> (r: Option<String>)
    ensures
        match status_line_text(*five_hour, *seven_day) {
            Some(text) => r matches Some(s) && s@ == text,
            None => r is None,
        },
{
    match (percentage_of(five_hour), percentage_of(seven_day)) {
        (Some(fh), Some(wk)) => {
            let mut r: String = "\u{1FAA8} sess\u{e3}o ".to_owned();
            r.append(fh.to_rounded_text().as_str());
            r.append("% \u{b7} semana ");
            r.append(wk.to_rounded_text().as_str());
            r.append("%");
            Some(r)
        },
        _ => None,
    }
}

/// The report that goes to the daemon, whether or not there is a line to print.
pub fn usage_report(
    five_hour: &Option<RateLimitWindow>,
    seven_day: &Option<RateLimitWindow>,
) -> (r: Usage)
    ensures
        r.msg_type@ == "usage"@,
        r.five_hour_pct == percentage(*five_hour),
        r.five_hour_resets_at == end(*five_hour),
        r.seven_day_pct == percentage(*seven_day),
        r.seven_day_resets_at == end(*seven_day),
{
    Usage::new(
        percentage_of(five_hour),
        end_of(five_hour),
        percentage_of(seven_day),
        end_of(seven_day),
    )
}

impl StatusLineInput {
    pub open spec fn five_hour_window(self) -> Option<RateLimitWindow> {
        match self.rate_limits {
            Some(limits) => limits.five_hour,
            None => None,
        }
    }

    pub open spec fn seven_day_window(self) -> Option<RateLimitWindow> {
        match self.rate_limits {
            Some(limits) => limits.seven_day,
            None => None,
        }
    }

    /// The window of five hours.
    pub fn five_hour(&self) -> (r: Option<RateLimitWindow>)
        ensures
            r == self.five_hour_window(),
    {
        match self.rate_limits {
            Some(limits) => limits.five_hour,
            None => None,
        }
    }

    /// The window of seven days.
    pub fn seven_day(&self) -> (r: Option<RateLimitWindow>)
        ensures
            r == self.seven_day_window(),
    {
        match self.rate_limits {
            Some(limits) => limits.seven_day,
            None => None,
        }
    }
}

} // verus!
