//! What the usage of the assistant looks like: the indicator in the status bar,
//! and the popover with a row for each limit.

use crate::extensions::claude::{AssistantNames, ExtraUsage, Tier, UsageData};
use crate::extensions::codex_usage::{pace_message, pace_text, Severity};
use crate::extensions::codex_view::{worse, worse_of};
use crate::extensions::numbers::{
    above, at_least_half, bounds_are_ordered, is_above, is_half, rounded, rounding_is_true,
};
use crate::json::JsonNumber;
use crate::text::{concat, concat3};
use vstd::prelude::*;

verus! {

broadcast use vstd::string::group_string_axioms;

/// How close a limit is, by the share that is used in percent; `None` is 0.
pub open spec fn severity_of(share: Option<JsonNumber>) -> Severity {
    match share {
        Some(n) => if is_above(n, 80) {
            Severity::Critical
        } else if is_above(n, 60) {
            Severity::Warning
        } else {
            Severity::Normal
        },
        None => Severity::Normal,
    }
}

/// How close a limit is.
pub fn abs_severity(share: Option<JsonNumber>) -> (r: Severity)
    ensures
        r == severity_of(share),
{
    match share {
        Some(n) => if above(n, 80) {
            Severity::Critical
        } else if above(n, 60) {
            Severity::Warning
        } else {
            Severity::Normal
        },
        None => Severity::Normal,
    }
}

/// What is known of a tier besides the service's answer.
#[derive(Clone, Debug, PartialEq, Eq)]
pub struct TierLook {
    /// How the share that is used goes with the time that has passed.
    pub pace: Severity,
    /// When the limit is lifted, for the reader; empty where that is unknown.
    pub reset: String,
}

/// A row of the popover.
#[derive(Clone, Debug, PartialEq, Eq)]
pub struct TierRow {
    pub label: &'static str,
    pub period: &'static str,
    /// The share that is used, in percent; `None` is 0.
    pub share: Option<JsonNumber>,
    /// The colour of the percentage: of the share or of the pace, whichever is worse.
    pub tone: Severity,
    /// The colour of the bar.
    pub bar: Severity,
    pub segments: u32,
    pub message: Option<&'static str>,
    pub reset: Option<String>,
}

/// A [`TierRow`] with its texts as sequences.
pub struct RowModel {
    pub label: Seq<char>,
    pub period: Seq<char>,
    pub share: Option<JsonNumber>,
    pub tone: Severity,
    pub bar: Severity,
    pub segments: u32,
    pub message: Option<Seq<char>>,
    pub reset: Option<Seq<char>>,
}

impl DeepView for TierRow {
    type V = RowModel;

    open spec fn deep_view(&self) -> RowModel {
        RowModel {
            label: self.label@,
            period: self.period@,
            share: self.share,
            tone: self.tone,
            bar: self.bar,
            segments: self.segments,
            message: self.message.deep_view(),
            reset: self.reset.deep_view(),
        }
    }
}

/// The row of a tier, where there is one.
pub open spec fn row_of(
    label: Seq<char>,
    period: Seq<char>,
    segments: u32,
    tier: Option<Tier>,
    look: TierLook,
) -> Seq<RowModel> {
    match tier {
        Some(tier) => seq![
            RowModel {
                label,
                period,
                share: tier.utilization,
                tone: worse_of(severity_of(tier.utilization), look.pace),
                bar: severity_of(tier.utilization),
                segments,
                message: pace_text(look.pace),
                reset: if look.reset@.len() > 0 {
                    Some("resets "@ + look.reset@)
                } else {
                    None
                },
            },
        ],
        None => Seq::empty(),
    }
}

/// A tier that is hardly used does not show.
pub open spec fn if_used(tier: Option<Tier>) -> Option<Tier> {
    match tier {
        Some(t) => match t.utilization {
            Some(n) => if is_half(n) {
                tier
            } else {
                None
            },
            None => None,
        },
        None => None,
    }
}

/// What is known of each tier besides the service's answer.
#[derive(Clone, Debug, PartialEq, Eq)]
pub struct Looks {
    pub five_hour: TierLook,
    pub seven_day: TierLook,
    pub seven_day_sonnet: TierLook,
    pub seven_day_opus: TierLook,
}

/// The rows of the popover: the two periods, and what single models used of the
/// longer one where that is worth a row.
pub open spec fn rows_model(data: UsageData, looks: Looks) -> Seq<RowModel> {
    row_of("Session"@, "5h"@, 5, data.five_hour, looks.five_hour) + row_of(
        "Weekly"@,
        "7d"@,
        7,
        data.seven_day,
        looks.seven_day,
    ) + row_of("Sonnet"@, "7d"@, 7, if_used(data.seven_day_sonnet), looks.seven_day_sonnet)
        + row_of("Opus"@, "7d"@, 7, if_used(data.seven_day_opus), looks.seven_day_opus)
}

/// The extra usage that the popover shows: only while it is enabled.
pub open spec fn shown_extra(extra: Option<ExtraUsage>) -> Option<ExtraUsage> {
    match extra {
        Some(e) => if e.is_enabled {
            extra
        } else {
            None
        },
        None => None,
    }
}

fn push_row(
    rows: &mut Vec<TierRow>,
    label: &'static str,
    period: &'static str,
    segments: u32,
    tier: &Tier,
    look: &TierLook,
)
    ensures
        final(rows).deep_view() == old(rows).deep_view() + row_of(
            label@,
            period@,
            segments,
            Some(*tier),
            *look,
        ),
{
    let ghost before = rows.deep_view();
    let share: Severity = abs_severity(tier.utilization);
    let row: TierRow = TierRow {
        label,
        period,
        share: tier.utilization,
        tone: worse(share, look.pace),
        bar: share,
        segments,
        message: pace_message(look.pace),
        reset: if look.reset.as_str().is_empty() {
            None
        } else {
            Some(concat("resets ", look.reset.as_str()))
        },
    };
    let ghost model = row.deep_view();
    rows.push(row);
    assert(rows.deep_view() == before + seq![model]);
}

fn is_used(tier: &Tier) -> (r: bool)
    ensures
        r == (if_used(Some(*tier)) is Some),
{
    match tier.utilization {
        Some(n) => at_least_half(n),
        None => false,
    }
}

/// What the popover shows: its rows and the extra usage; `None`, nothing at all,
/// while it is hidden or nothing is known.
pub fn render_popover(data: &Option<UsageData>, visible: bool, looks: &Looks) -> (r: Option<
    (Vec<TierRow>, Option<ExtraUsage>),
>)
    ensures
        match data {
            Some(data) => if visible {
                &&& r matches Some((rows, extra))
                &&& rows.deep_view() == rows_model(*data, *looks)
                &&& extra == shown_extra(data.extra_usage)
            } else {
                r is None
            },
            None => r is None,
        },
{
    let data: &UsageData = match data {
        Some(data) => data,
        None => return None,
    };
    if !visible {
        return None;
    }
    let mut rows: Vec<TierRow> = Vec::new();
    let ghost none: Seq<RowModel> = Seq::empty();
    assert(rows.deep_view() == none);
    if let Some(tier) = &data.five_hour {
        push_row(&mut rows, "Session", "5h", 5, tier, &looks.five_hour);
    }
    let ghost first = rows.deep_view();
    assert(first == row_of("Session"@, "5h"@, 5, data.five_hour, looks.five_hour));
    if let Some(tier) = &data.seven_day {
        push_row(&mut rows, "Weekly", "7d", 7, tier, &looks.seven_day);
    }
    let ghost second = rows.deep_view();
    assert(second == first + row_of("Weekly"@, "7d"@, 7, data.seven_day, looks.seven_day));
    if let Some(tier) = &data.seven_day_sonnet {
        if is_used(tier) {
            push_row(&mut rows, "Sonnet", "7d", 7, tier, &looks.seven_day_sonnet);
        }
    }
    let ghost third = rows.deep_view();
    assert(third == second + row_of(
        "Sonnet"@,
        "7d"@,
        7,
        if_used(data.seven_day_sonnet),
        looks.seven_day_sonnet,
    ));
    if let Some(tier) = &data.seven_day_opus {
        if is_used(tier) {
            push_row(&mut rows, "Opus", "7d", 7, tier, &looks.seven_day_opus);
        }
    }
    assert(rows.deep_view() == third + row_of(
        "Opus"@,
        "7d"@,
        7,
        if_used(data.seven_day_opus),
        looks.seven_day_opus,
    ));
    let extra: Option<ExtraUsage> = match data.extra_usage {
        Some(e) => if e.is_enabled {
            Some(e)
        } else {
            None
        },
        None => None,
    };
    Some((rows, extra))
}

/// The header of the popover: its title, and a link with what it says.
#[derive(Clone, Debug, PartialEq, Eq)]
pub struct PopoverHeader {
    pub title: String,
    pub action: &'static str,
    pub link: String,
    pub tooltip: String,
}

/// The header of the popover, with a link to the settings on the assistant's site.
pub fn render_popover_header(names: &AssistantNames) -> (r: PopoverHeader)
    ensures
        r.title@ == names.heading@ + " USAGE"@,
        r.action@ == "Settings"@,
        r.link@ == "https://"@ + names.site@ + "/settings/usage"@,
        r.tooltip@ == "Open usage settings on "@ + names.site@,
{
    PopoverHeader {
        title: concat(names.heading.as_str(), " USAGE"),
        action: "Settings",
        link: concat3("https://", names.site.as_str(), "/settings/usage"),
        tooltip: concat("Open usage settings on ", names.site.as_str()),
    }
}

/// A tier in the indicator: its period, its share and its colour.
pub open spec fn badge_of(period: Seq<char>, tier: Option<Tier>) -> Option<
    (Seq<char>, Option<JsonNumber>, Severity),
> {
    match tier {
        Some(tier) => Some((period, tier.utilization, severity_of(tier.utilization))),
        None => None,
    }
}

/// Whether `r` shows a tier.
pub open spec fn is_badge(
    r: Option<(&'static str, Option<JsonNumber>, Severity)>,
    period: Seq<char>,
    tier: Option<Tier>,
) -> bool {
    match r {
        Some((name, share, tone)) => badge_of(period, tier) == Some((name@, share, tone)),
        None => badge_of(period, tier) is None,
    }
}

fn badge(period: &'static str, tier: &Option<Tier>) -> (r: Option<
    (&'static str, Option<JsonNumber>, Severity),
>)
    ensures
        is_badge(r, period@, *tier),
{
    match tier {
        Some(tier) => Some((period, tier.utilization, abs_severity(tier.utilization))),
        None => None,
    }
}

/// What the indicator shows: the shorter period, then the longer behind a bar;
/// `None`, nothing at all, while no usage is known.
pub fn render(data: &Option<UsageData>) -> (r: Option<
    (
        Option<(&'static str, Option<JsonNumber>, Severity)>,
        Option<(&'static str, Option<JsonNumber>, Severity)>,
    ),
>)
    ensures
        match data {
            Some(data) => {
                &&& r matches Some((first, second))
                &&& is_badge(first, "5h"@, data.five_hour)
                &&& is_badge(second, "7d"@, data.seven_day)
            },
            None => r is None,
        },
{
    match data {
        Some(data) => Some((badge("5h", &data.five_hour), badge("7d", &data.seven_day))),
        None => None,
    }
}

// ---------------------------------------------------------------------------
// Laws
// ---------------------------------------------------------------------------

/// A share is critical above four fifths and a warning above three; a share that is
/// not told is none.
pub proof fn high_shares_warn(percent: u64, share: JsonNumber)
    ensures
        severity_of(Some(JsonNumber::Unsigned(percent))) is Critical <==> percent > 80,
        severity_of(Some(JsonNumber::Unsigned(percent))) is Normal <==> percent <= 60,
        severity_of(Some(share)) is Critical <==> is_above(share, 80),
        severity_of(Some(share)) is Normal <==> !is_above(share, 60),
        severity_of(None) is Normal,
{
    bounds_are_ordered(share, 60, 80);
}

/// Every limit that is told has a row with its own share, and the row is never
/// calmer than its share or its pace.
pub proof fn told_limits_are_shown(data: UsageData, looks: Looks, i: int)
    ensures
        ({
            let rows = rows_model(data, looks);
            &&& data.five_hour matches Some(tier) ==> rows.len() > 0 && rows[0].share
                == tier.utilization && rows[0].period == "5h"@
            &&& data.five_hour is Some && data.seven_day is Some ==> rows.len() > 1
                && rows[1].share == data.seven_day->0.utilization && rows[1].period == "7d"@
            &&& 0 <= i < rows.len() ==> {
                &&& rows[i].bar == severity_of(rows[i].share)
                &&& rows[i].bar is Critical ==> rows[i].tone is Critical
                &&& rows[i].bar is Warning ==> !(rows[i].tone is Normal)
            }
            &&& rows.len() == (if data.five_hour is Some {
                1int
            } else {
                0
            }) + (if data.seven_day is Some {
                1int
            } else {
                0
            }) + (if if_used(data.seven_day_sonnet) is Some {
                1int
            } else {
                0
            }) + (if if_used(data.seven_day_opus) is Some {
                1int
            } else {
                0
            })
        }),
{
}

/// A limit of a single model is shown just where something of it was used, and then
/// as it is.
pub proof fn unused_limits_are_hidden(tier: Tier, share: JsonNumber)
    requires
        tier.utilization == Some(share),
    ensures
        if_used(Some(tier)) == (if rounded(share) > 0 {
            Some(tier)
        } else {
            None
        }),
        if_used(None) is None,
{
    rounding_is_true(share);
}

/// Extra usage is shown just where it is enabled.
pub proof fn disabled_extra_usage_is_hidden(extra: ExtraUsage)
    ensures
        extra.is_enabled ==> shown_extra(Some(extra)) == Some(extra),
        !extra.is_enabled ==> shown_extra(Some(extra)) is None,
{
}

/// A row warns of a pace just where the pace calls for it, and says when the limit
/// is lifted just where that is known.
pub proof fn rows_say_what_is_known(
    label: Seq<char>,
    period: Seq<char>,
    segments: u32,
    tier: Tier,
    look: TierLook,
)
    ensures
        ({
            let rows = row_of(label, period, segments, Some(tier), look);
            &&& rows.len() == 1
            &&& rows[0].label == label && rows[0].segments == segments
            &&& rows[0].message is Some <==> !(look.pace is Normal)
            &&& look.reset@.len() > 0 ==> rows[0].reset == Some("resets "@ + look.reset@)
            &&& look.reset@.len() == 0 ==> rows[0].reset is None
            &&& look.pace is Critical ==> rows[0].tone is Critical
            &&& look.pace is Warning ==> !(rows[0].tone is Normal)
        }),
        row_of(label, period, segments, None, look).len() == 0,
{
}

/// A badge shows the share of its own limit, and is missing where that is not told.
pub proof fn badges_show_their_limits(period: Seq<char>, tier: Tier)
    ensures
        badge_of(period, Some(tier)) == Some(
            (period, tier.utilization, severity_of(tier.utilization)),
        ),
        badge_of(period, None) is None,
{
}

} // verus!
