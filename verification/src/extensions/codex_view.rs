//! What the usage of Codex looks like: the indicator in the status bar, and the
//! popover with a row for each limit.

use crate::extensions::codex_usage::{
    abs_severity, format_reset_time, format_window_label, pace_message, pace_text, reset_text,
    segments_for_window, segments_model, severity_of, window_label, window_row_label, CreditsInfo,
    RateLimitWindow, Severity, UsageData, UsageModel,
};
use crate::json::JsonNumber;
use crate::text::{concat, decimal, decimal_string};
use vstd::prelude::*;

verus! {

broadcast use vstd::string::group_string_axioms;

/// The worse of two severities.
pub open spec fn worse_of(a: Severity, b: Severity) -> Severity {
    if a == Severity::Critical || b == Severity::Critical {
        Severity::Critical
    } else if a == Severity::Warning || b == Severity::Warning {
        Severity::Warning
    } else {
        Severity::Normal
    }
}

/// The worse of two severities.
pub fn worse(a: Severity, b: Severity) -> (r: Severity)
    ensures
        r == worse_of(a, b),
{
    if a == Severity::Critical || b == Severity::Critical {
        Severity::Critical
    } else if a == Severity::Warning || b == Severity::Warning {
        Severity::Warning
    } else {
        Severity::Normal
    }
}

/// A row of the popover.
#[derive(Clone, Debug, PartialEq, Eq)]
pub struct WindowRow {
    pub label: String,
    pub percent: String,
    /// The colour of the percentage: of the share or of the pace, whichever is worse.
    pub tone: Severity,
    pub reset: Option<String>,
    /// The colour of the bar.
    pub bar: Severity,
    pub segments: u32,
    pub message: Option<&'static str>,
}

/// A [`WindowRow`] with its texts as sequences.
pub struct RowModel {
    pub label: Seq<char>,
    pub percent: Seq<char>,
    pub tone: Severity,
    pub reset: Option<Seq<char>>,
    pub bar: Severity,
    pub segments: nat,
    pub message: Option<Seq<char>>,
}

impl DeepView for WindowRow {
    type V = RowModel;

    open spec fn deep_view(&self) -> RowModel {
        RowModel {
            label: self.label@,
            percent: self.percent@,
            tone: self.tone,
            reset: self.reset.deep_view(),
            bar: self.bar,
            segments: self.segments as nat,
            message: self.message.deep_view(),
        }
    }
}

/// The row of a window whose pace is `pace`.
pub open spec fn row_model(
    label: Seq<char>,
    window: RateLimitWindow,
    pace: Severity,
    now: nat,
) -> RowModel {
    let left = reset_text(window.reset_at as nat, now);
    RowModel {
        label: label + " ("@ + window_label(window.window_seconds as nat) + ")"@,
        percent: decimal(window.used_percent as nat) + "%"@,
        tone: worse_of(severity_of(window.used_percent), pace),
        reset: if left.len() > 0 {
            Some("resets in "@ + left)
        } else {
            None
        },
        bar: severity_of(window.used_percent),
        segments: segments_model(window.window_seconds as nat),
        message: pace_text(pace),
    }
}

/// The row of a window whose pace is `pace`.
pub fn render_window_row(label: &str, window: &RateLimitWindow, pace: Severity, now: u64) -> (r:
    WindowRow)
    ensures
        r.deep_view() == row_model(label@, *window, pace, now as nat),
{
    let left: String = format_reset_time(window.reset_at, now);
    let share: Severity = abs_severity(window.used_percent);
    WindowRow {
        label: window_row_label(label, window),
        percent: concat(decimal_string(window.used_percent).as_str(), "%"),
        tone: worse(share, pace),
        reset: if left.as_str().is_empty() {
            None
        } else {
            Some(concat("resets in ", left.as_str()))
        },
        bar: share,
        segments: segments_for_window(window.window_seconds),
        message: pace_message(pace),
    }
}

/// The paces of the windows, in the order of the rows.
#[derive(Clone, Copy, Debug, PartialEq, Eq)]
pub struct Paces {
    pub primary: Severity,
    pub secondary: Severity,
    pub review: Severity,
}

/// What is told of the credits.
#[derive(Clone, Copy, Debug, PartialEq, Eq)]
pub enum CreditsRow {
    Unlimited,
    /// Dollars; `None` where the balance is not told and shows as 0.
    Balance(Option<JsonNumber>),
}

/// What the popover shows.
#[derive(Debug, PartialEq, Eq)]
pub struct UsagePopover {
    pub plan: String,
    pub rows: Vec<WindowRow>,
    /// Whether it says how to read the bars.
    pub legend: bool,
    pub credits: Option<CreditsRow>,
}

/// A [`UsagePopover`] with its texts as sequences.
pub struct PopoverModel {
    pub plan: Seq<char>,
    pub rows: Seq<RowModel>,
    pub legend: bool,
    pub credits: Option<CreditsRow>,
}

impl DeepView for UsagePopover {
    type V = PopoverModel;

    open spec fn deep_view(&self) -> PopoverModel {
        PopoverModel {
            plan: self.plan@,
            rows: self.rows.deep_view(),
            legend: self.legend,
            credits: self.credits,
        }
    }
}

/// The row of a window, where there is one.
pub open spec fn row_of(
    label: Seq<char>,
    window: Option<RateLimitWindow>,
    pace: Severity,
    now: nat,
) -> Seq<RowModel> {
    match window {
        Some(window) => seq![row_model(label, window, pace, now)],
        None => Seq::empty(),
    }
}

/// Whether a window tells how much of it has passed.
pub open spec fn tells_time(window: Option<RateLimitWindow>) -> bool {
    window matches Some(window) && window.elapsed_seconds is Some
}

/// What is told of the credits, if anything.
pub open spec fn credits_row(credits: Option<CreditsInfo>) -> Option<CreditsRow> {
    match credits {
        Some(credits) => if credits.unlimited {
            Some(CreditsRow::Unlimited)
        } else if credits.has_credits {
            Some(CreditsRow::Balance(credits.balance))
        } else {
            None
        },
        None => None,
    }
}

/// What the popover shows: nothing while it is hidden or nothing is known.
pub open spec fn popover_model(
    usage: Option<UsageModel>,
    visible: bool,
    paces: Paces,
    now: nat,
) -> Option<PopoverModel> {
    match usage {
        Some(usage) => if visible {
            Some(
                PopoverModel {
                    plan: usage.plan_type,
                    rows: row_of("Rate Limit"@, usage.primary_window, paces.primary, now) + row_of(
                        "Secondary"@,
                        usage.secondary_window,
                        paces.secondary,
                        now,
                    ) + row_of("Code Review"@, usage.review_primary, paces.review, now),
                    legend: tells_time(usage.primary_window) || tells_time(usage.secondary_window),
                    credits: credits_row(usage.credits),
                },
            )
        } else {
            None
        },
        None => None,
    }
}

fn push_row(
    rows: &mut Vec<WindowRow>,
    label: &str,
    window: &Option<RateLimitWindow>,
    pace: Severity,
    now: u64,
)
    ensures
        final(rows).deep_view() == old(rows).deep_view() + row_of(label@, *window, pace, now as nat),
{
    let ghost before = rows.deep_view();
    if let Some(window) = window {
        let row: WindowRow = render_window_row(label, window, pace, now);
        let ghost model = row.deep_view();
        rows.push(row);
        assert(rows.deep_view() == before + seq![model]);
    }
    assert(before + Seq::<RowModel>::empty() == before);
}

fn has_time(window: &Option<RateLimitWindow>) -> (r: bool)
    ensures
        r == tells_time(*window),
{
    match window {
        Some(window) => window.elapsed_seconds.is_some(),
        None => false,
    }
}

/// What the popover shows.
pub fn render_popover(usage: &Option<UsageData>, visible: bool, paces: Paces, now: u64) -> (r:
    Option<UsagePopover>)
    ensures
        r.deep_view() == popover_model(usage.deep_view(), visible, paces, now as nat),
{
    let usage: &UsageData = match usage {
        Some(usage) => usage,
        None => return None,
    };
    if !visible {
        return None;
    }
    let mut rows: Vec<WindowRow> = Vec::new();
    assert(rows.deep_view() == Seq::<RowModel>::empty());
    push_row(&mut rows, "Rate Limit", &usage.primary_window, paces.primary, now);
    push_row(&mut rows, "Secondary", &usage.secondary_window, paces.secondary, now);
    push_row(&mut rows, "Code Review", &usage.review_primary, paces.review, now);
    let credits: Option<CreditsRow> = match &usage.credits {
        Some(credits) => if credits.unlimited {
            Some(CreditsRow::Unlimited)
        } else if credits.has_credits {
            Some(CreditsRow::Balance(credits.balance))
        } else {
            None
        },
        None => None,
    };
    let r: UsagePopover = UsagePopover {
        plan: usage.plan_type.clone(),
        rows,
        legend: has_time(&usage.primary_window) || has_time(&usage.secondary_window),
        credits,
    };
    assert(r.deep_view().rows == popover_model(
        Some(usage.deep_view()),
        visible,
        paces,
        now as nat,
    )->0.rows);
    Some(r)
}

/// A window in the indicator: its name, its percentage and its colour.
pub open spec fn badge_model(window: RateLimitWindow) -> (Seq<char>, Seq<char>, Severity) {
    (
        window_label(window.window_seconds as nat),
        decimal(window.used_percent as nat) + "%"@,
        severity_of(window.used_percent),
    )
}

/// The window in the indicator, where there is one.
pub open spec fn badge_of(window: Option<RateLimitWindow>) -> Option<
    (Seq<char>, Seq<char>, Severity),
> {
    match window {
        Some(window) => Some(badge_model(window)),
        None => None,
    }
}

/// Whether `r` shows a window.
pub open spec fn is_badge(
    r: Option<(&'static str, String, Severity)>,
    window: Option<RateLimitWindow>,
) -> bool {
    match r {
        Some((name, percent, tone)) => badge_of(window) == Some((name@, percent@, tone)),
        None => badge_of(window) is None,
    }
}

fn badge(window: &Option<RateLimitWindow>) -> (r: Option<(&'static str, String, Severity)>)
    ensures
        is_badge(r, *window),
{
    match window {
        Some(window) => Some(
            (
                format_window_label(window.window_seconds),
                concat(decimal_string(window.used_percent).as_str(), "%"),
                abs_severity(window.used_percent),
            ),
        ),
        None => None,
    }
}

/// What the indicator shows: the first window, then the second behind a bar;
/// `None`, nothing at all, while no usage is known.
pub fn render(usage: &Option<UsageData>) -> (r: Option<
    (Option<(&'static str, String, Severity)>, Option<(&'static str, String, Severity)>),
>)
    ensures
        match usage {
            Some(usage) => {
                &&& r matches Some((first, second))
                &&& is_badge(first, usage.primary_window)
                &&& is_badge(second, usage.secondary_window)
            },
            None => r is None,
        },
{
    match usage {
        Some(usage) => Some((badge(&usage.primary_window), badge(&usage.secondary_window))),
        None => None,
    }
}

// ---------------------------------------------------------------------------
// Laws
// ---------------------------------------------------------------------------

/// The worse of two severities is one of them, and neither is worse than it.
pub proof fn the_worse_one_wins(a: Severity, b: Severity)
    ensures
        worse_of(a, b) == a || worse_of(a, b) == b,
        worse_of(a, b) == worse_of(b, a),
        worse_of(a, Severity::Normal) == a,
        worse_of(a, Severity::Critical) is Critical,
        worse_of(a, a) == a,
{
}

/// A row shows the share of its window, calls for attention where the share or the
/// pace does, and warns just where the pace does.
pub proof fn rows_show_their_windows(
    label: Seq<char>,
    window: RateLimitWindow,
    pace: Severity,
    now: nat,
)
    ensures
        ({
            let row = row_model(label, window, pace, now);
            &&& label.is_prefix_of(row.label)
            &&& row.percent == decimal(window.used_percent as nat) + "%"@
            &&& row.bar is Critical <==> window.used_percent > 80
            &&& row.bar is Normal <==> window.used_percent <= 60
            &&& window.used_percent > 80 || pace is Critical <==> row.tone is Critical
            &&& window.used_percent <= 60 && pace is Normal <==> row.tone is Normal
            &&& row.message is Some <==> !(pace is Normal)
            &&& window.reset_at == 0 ==> row.reset is None
            &&& 0 < window.reset_at <= now ==> row.reset == Some("resets in "@ + "now"@)
        }),
{
    reveal_strlit("");
    reveal_strlit("now");
    assert("now"@.len() == 3);
    assert(""@.len() == 0);
    assert(label.is_prefix_of(row_model(label, window, pace, now).label));
}

/// Every window that is known has its row, under its own name and in a fixed order,
/// and the plan is told as it is.
pub proof fn known_windows_have_rows(usage: UsageModel, paces: Paces, now: nat)
    ensures
        popover_model(Some(usage), true, paces, now) matches Some(popover) && {
            &&& popover.plan == usage.plan_type
            &&& popover.rows.len() == (if usage.primary_window is Some {
                1int
            } else {
                0
            }) + (if usage.secondary_window is Some {
                1int
            } else {
                0
            }) + (if usage.review_primary is Some {
                1int
            } else {
                0
            })
            &&& usage.primary_window matches Some(window) ==> popover.rows[0] == row_model(
                "Rate Limit"@,
                window,
                paces.primary,
                now,
            )
            &&& usage.primary_window is Some && usage.secondary_window is Some ==> popover.rows[1]
                == row_model("Secondary"@, usage.secondary_window->0, paces.secondary, now)
            &&& usage.review_primary matches Some(window) ==> popover.rows.last() == row_model(
                "Code Review"@,
                window,
                paces.review,
                now,
            )
            &&& popover.legend <==> (usage.primary_window is Some
                && usage.primary_window->0.elapsed_seconds is Some) || (
            usage.secondary_window is Some && usage.secondary_window->0.elapsed_seconds is Some)
        },
        popover_model(Some(usage), false, paces, now) is None,
        popover_model(None, true, paces, now) is None,
{
}

/// Credits without a limit are told as such whatever else is known of them, a
/// balance is told as it is, and no credits are not told.
pub proof fn credits_are_told(credits: CreditsInfo)
    ensures
        credits.unlimited ==> credits_row(Some(credits)) == Some(CreditsRow::Unlimited),
        !credits.unlimited && credits.has_credits ==> credits_row(Some(credits)) == Some(
            CreditsRow::Balance(credits.balance),
        ),
        !credits.unlimited && !credits.has_credits ==> credits_row(Some(credits)) is None,
        credits_row(None) is None,
{
}

/// A badge shows the share of its own window.
pub proof fn badges_show_their_windows(window: RateLimitWindow)
    ensures
        badge_of(Some(window)) == Some(
            (
                window_label(window.window_seconds as nat),
                decimal(window.used_percent as nat) + "%"@,
                severity_of(window.used_percent),
            ),
        ),
        badge_of(None) is None,
{
}

} // verus!
