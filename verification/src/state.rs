//! What the monitor knows, and how it says it.

use chrono::{Local, TimeZone};
use vstd::prelude::*;

use crate::color;
use crate::json;
use crate::quota::WeeklyQuota;
use crate::status::MonitorStatus;
use crate::text;

verus! {

broadcast use vstd::string::group_string_axioms;

/// A number of 64 bits read as a signed one.
pub open spec fn signed(value: u64) -> int {
    if value <= i64::MAX {
        value as int
    } else {
        value - 0x1_0000_0000_0000_0000
    }
}

fn to_signed(value: u64) -> (result: i64)
    ensures
        result == signed(value),
{
    if value <= 0x7fff_ffff_ffff_ffff {
        value as i64
    } else {
        (value - 0x8000_0000_0000_0000) as i64 + i64::MIN
    }
}

/// How many seconds lie between now and a reset. `now` counts seconds since
/// the Unix epoch and is missing where the clock stands before it; the reset
/// then counts as due.
pub open spec fn seconds_ahead(resets_at: i64, now: Option<u64>) -> int {
    match now {
        Some(seconds) => resets_at - signed(seconds),
        None => 0,
    }
}

/// Whether the time to a reset fits in 64 bits.
pub open spec fn reset_is_near(resets_at: i64, now: Option<u64>) -> bool {
    i64::MIN <= seconds_ahead(resets_at, now) <= i64::MAX
}

/// The time to a reset in whole days and hours; nothing is left of a reset in
/// the past.
pub open spec fn countdown(resets_at: i64, now: Option<u64>) -> Seq<char> {
    let ahead = seconds_ahead(resets_at, now);
    let seconds = if ahead < 0 {
        0
    } else {
        ahead
    };
    text::decimal((seconds / 86_400) as nat) + "d "@ + text::decimal(
        ((seconds % 86_400) / 3_600) as nat,
    ) + "h"@
}

/// Writes the time to a reset.
pub fn reset_summary(resets_at_unix_seconds: i64, now: Option<u64>) -> (summary: String)
    requires
        reset_is_near(resets_at_unix_seconds, now),
    ensures
        summary@ == countdown(resets_at_unix_seconds, now),
{
    let now: i64 = match now {
        Some(seconds) => to_signed(seconds),
        None => resets_at_unix_seconds,
    };
    let ahead: i64 = resets_at_unix_seconds - now;
    let seconds: u64 = if ahead < 0 {
        0
    } else {
        ahead as u64
    };
    let days: u64 = seconds / 86_400;
    let hours: u64 = (seconds % 86_400) / 3_600;
    let mut summary = text::joined(text::decimal_text(days).as_str(), "d ");
    summary.append(text::decimal_text(hours).as_str());
    summary.append("h");
    summary
}

/// What is said of a reset whose time may be unknown.
pub open spec fn reset_words(reset_at: Option<i64>, now: Option<u64>) -> Seq<char> {
    match reset_at {
        Some(resets_at) => countdown(resets_at, now),
        None => "reset unknown"@,
    }
}

/// Whether the time to a reset, if it is known, fits in 64 bits.
pub open spec fn known_reset_is_near(reset_at: Option<i64>, now: Option<u64>) -> bool {
    reset_at matches Some(resets_at) ==> reset_is_near(resets_at, now)
}

/// Says what is known of a reset.
pub fn reset_text(reset_at: Option<i64>, now: Option<u64>) -> (words: String)
    requires
        known_reset_is_near(reset_at, now),
    ensures
        words@ == reset_words(reset_at, now),
{
    match reset_at {
        Some(resets_at) => reset_summary(resets_at, now),
        None => "reset unknown".to_owned(),
    }
}

/// Tells whether the time to a reset can be written.
pub fn reset_can_be_told(reset_at: Option<i64>, now: Option<u64>) -> (answer: bool)
    ensures
        answer == known_reset_is_near(reset_at, now),
{
    match (reset_at, now) {
        (Some(resets_at), Some(seconds)) => {
            let ahead: i128 = resets_at as i128 - to_signed(seconds) as i128;
            ahead >= i64::MIN as i128 && ahead <= i64::MAX as i128
        },
        _ => true,
    }
}

/// The first second that falls on a date of the calendar, in the year -262143.
pub const FIRST_DATED_SECOND: i64 = -8_334_601_228_800;

/// The last second that falls on a date of the calendar, in the year 262142.
pub const LAST_DATED_SECOND: i64 = 8_210_266_876_799;

/// Whether a second falls on a date of the calendar.
pub open spec fn is_dated(seconds: i64) -> bool {
    FIRST_DATED_SECOND <= seconds <= LAST_DATED_SECOND
}

/// How a date is laid out: weekday, day, month and year, then the time and the
/// time zone.
pub open spec fn date_layout() -> Seq<char> {
    "%a, %d %b %Y · %H:%M %Z"@
}

/// The text that `chrono` writes of a second by a layout, in a time zone that
/// lies `offset` seconds east of Greenwich.
pub uninterp spec fn zoned_date(seconds: i64, offset: int, layout: Seq<char>) -> Seq<char>;

/// Whether a text is the date of a second in some time zone.
pub open spec fn is_date_of(words: Seq<char>, seconds: i64) -> bool {
    exists|offset: int|
        -86_400 < offset < 86_400 && words == #[trigger] zoned_date(seconds, offset, date_layout())
}

/// Writes the local date and time of a second by a layout.
///
/// Calls `timestamp_opt` of `chrono::Local`, and `format` on what it gives.
/// Trusted: there is a date for every second in the calendar of `chrono` and
/// for no other, and it is the date in a time zone less than a day from
/// Greenwich, by the layout that is handed in. Which time zone that is, the
/// machine decides, and nothing is said of it. Only one layout is handed in:
/// on some others `chrono` panics.
#[verifier::external_body]
fn local_date(seconds: i64, layout: &str) -> (date: Option<String>)
    requires
        layout@ == date_layout(),
    ensures
        date is Some <==> is_dated(seconds),
        date matches Some(words) ==> exists|offset: int|
            -86_400 < offset < 86_400 && words@ == #[trigger] zoned_date(seconds, offset, layout@),
{
    Local.timestamp_opt(seconds, 0).single().map(|time| time.format(layout).to_string())
}

/// What is said of a date: the date itself, where there is one.
pub open spec fn date_words(date: Option<Seq<char>>) -> Seq<char> {
    match date {
        Some(date) => date,
        None => "Date unavailable"@,
    }
}

/// Says a date, where there is one.
pub fn date_text(date: Option<String>) -> (words: String)
    ensures
        words@ == date_words(json::optional_view(date)),
{
    match date {
        Some(date) => date,
        None => "Date unavailable".to_owned(),
    }
}

/// Writes the local date of a reset.
pub fn reset_absolute(resets_at_unix_seconds: i64) -> (words: String)
    ensures
        is_dated(resets_at_unix_seconds) ==> is_date_of(words@, resets_at_unix_seconds),
        !is_dated(resets_at_unix_seconds) ==> words@ == "Date unavailable"@,
{
    let layout = "%a, %d %b %Y · %H:%M %Z";
    assert(layout@ == date_layout());
    date_text(local_date(resets_at_unix_seconds, layout))
}

/// Whether `date` is what is said of the date of a reset whose time may be
/// unknown.
pub open spec fn is_reset_date(date: Option<Seq<char>>, reset_at: Option<i64>) -> bool {
    match reset_at {
        Some(resets_at) => date matches Some(words) && if is_dated(resets_at) {
            is_date_of(words, resets_at)
        } else {
            words == "Date unavailable"@
        },
        None => date is None,
    }
}

/// Writes the local date of a reset whose time may be unknown.
pub fn reset_date(reset_at: Option<i64>) -> (date: Option<String>)
    ensures
        is_reset_date(json::optional_view(date), reset_at),
{
    match reset_at {
        Some(resets_at) => Some(reset_absolute(resets_at)),
        None => None,
    }
}

/// What the monitor shows.
#[derive(Debug, PartialEq)]
pub struct AppState {
    pub remaining_percent: u8,
    pub status: MonitorStatus,
    pub reset_at: Option<i64>,
    pub last_error: Option<String>,
}

impl AppState {
    /// Whether this is the state before the first usage is known.
    pub open spec fn is_loading(self) -> bool {
        &&& self.remaining_percent == 0
        &&& self.status == MonitorStatus::Idle
        &&& self.reset_at == None::<i64>
        &&& json::optional_view(self.last_error) == Some("Loading weekly usage"@)
    }

    /// The state before the first usage is known.
    pub fn new() -> (state: Self)
        ensures
            state.is_loading(),
    {
        AppState {
            remaining_percent: 0,
            status: MonitorStatus::Idle,
            reset_at: None,
            last_error: Some("Loading weekly usage".to_owned()),
        }
    }

    /// The state after usage was read, or could not be read: a quota replaces
    /// all that is shown, and Codex is idle; an error leaves the last quota in
    /// place, and Codex is offline.
    pub open spec fn after_usage(self, result: Result<WeeklyQuota, String>) -> AppState {
        match result {
            Ok(quota) => AppState {
                remaining_percent: quota.remaining_percent,
                status: MonitorStatus::Idle,
                reset_at: quota.resets_at_unix_seconds,
                last_error: None,
            },
            Err(error) => AppState {
                status: MonitorStatus::Offline,
                last_error: Some(error),
                ..self
            },
        }
    }

    /// Takes in what reading the usage gave.
    pub fn apply_usage(&mut self, result: Result<WeeklyQuota, String>)
        ensures
            *final(self) == old(self).after_usage(result),
    {
        match result {
            Ok(quota) => {
                self.remaining_percent = quota.remaining_percent;
                self.reset_at = quota.resets_at_unix_seconds;
                self.status = MonitorStatus::Idle;
                self.last_error = None;
            },
            Err(error) => {
                self.status = MonitorStatus::Offline;
                self.last_error = Some(error);
            },
        }
    }

    /// The words of the tray tooltip.
    pub open spec fn tooltip_words(self, now: Option<u64>) -> Seq<char> {
        "Codex: "@ + text::decimal(self.remaining_percent as nat) + "% left | reset "@
            + reset_words(self.reset_at, now) + " | "@ + self.status.words()
    }

    /// Writes the tray tooltip.
    pub fn tooltip(&self, now: Option<u64>) -> (words: String)
        requires
            known_reset_is_near(self.reset_at, now),
        ensures
            words@ == self.tooltip_words(now),
    {
        let mut words = text::joined(
            "Codex: ",
            text::decimal_text(self.remaining_percent as u64).as_str(),
        );
        words.append("% left | reset ");
        words.append(reset_text(self.reset_at, now).as_str());
        words.append(" | ");
        words.append(self.status.label());
        words
    }
}

/// The colour of the percentage that a state shows.
pub fn zone_color(state: &AppState) -> (color: u32)
    ensures
        color == color::needle_rgb(state.status, state.remaining_percent),
{
    color::zone_color_for(state.status, state.remaining_percent)
}

/// The lines of a diagnosis.
pub open spec fn diagnosis_words(
    quota: WeeklyQuota,
    status: MonitorStatus,
    now: Option<u64>,
) -> Seq<Seq<char>> {
    seq![
        "Weekly remaining: "@ + text::decimal(quota.remaining_percent as nat) + "%"@,
        "Resets in: "@ + reset_words(quota.resets_at_unix_seconds, now),
        "Status: "@ + status.words(),
    ]
}

/// Writes a diagnosis, line by line.
pub fn diagnosis(quota: &WeeklyQuota, status: MonitorStatus, now: Option<u64>) -> (lines: Vec<
    String,
>)
    requires
        known_reset_is_near(quota.resets_at_unix_seconds, now),
    ensures
        text::views(lines@) == diagnosis_words(*quota, status, now),
{
    let mut remaining = text::joined(
        "Weekly remaining: ",
        text::decimal_text(quota.remaining_percent as u64).as_str(),
    );
    remaining.append("%");
    let reset = text::joined(
        "Resets in: ",
        reset_text(quota.resets_at_unix_seconds, now).as_str(),
    );
    let state = text::joined("Status: ", status.label());
    let mut lines: Vec<String> = Vec::new();
    lines.push(remaining);
    lines.push(reset);
    lines.push(state);
    proof {
        assert(text::views(lines@) =~= diagnosis_words(*quota, status, now));
    }
    lines
}

/// An error is shown as offline and leaves the last quota in place; the next
/// quota clears it.
pub proof fn law_quota_clears_error(state: AppState, error: String, quota: WeeklyQuota)
    ensures
        state.after_usage(Err(error)).status == MonitorStatus::Offline,
        state.after_usage(Err(error)).remaining_percent == state.remaining_percent,
        state.after_usage(Err(error)).reset_at == state.reset_at,
        state.after_usage(Err(error)).after_usage(Ok(quota)) == state.after_usage(Ok(quota)),
        state.after_usage(Ok(quota)).status == MonitorStatus::Idle,
        state.after_usage(Ok(quota)).last_error is None,
{
}

/// While the usage cannot be read, the tooltip says that Codex is offline.
pub proof fn law_failed_refresh_is_shown_offline(state: AppState, error: String, now: Option<u64>)
    ensures
        state.after_usage(Err(error)).tooltip_words(now) == "Codex: "@ + text::decimal(
            state.remaining_percent as nat,
        ) + "% left | reset "@ + reset_words(state.reset_at, now) + " | "@ + "Offline"@,
{
}

/// A reset that is not in the future is no days and no hours away.
pub proof fn law_past_reset_is_due(resets_at: i64, now: Option<u64>)
    requires
        seconds_ahead(resets_at, now) <= 0,
    ensures
        countdown(resets_at, now) == "0d 0h"@,
{
    reveal_strlit("0d 0h");
    reveal_strlit("d ");
    reveal_strlit("h");
    assert(text::decimal(0) =~= seq!['0']);
    assert(countdown(resets_at, now) =~= "0d 0h"@);
}

/// The countdown tells whole days and the whole hours of the day that has begun:
/// together they reach to less than an hour before the reset, and never beyond
/// it. The count of the clock is read as signed; without a clock the reset is
/// due.
pub proof fn law_countdown_tells_the_time(resets_at: i64, now: Option<u64>)
    ensures
        exists|days: nat, hours: nat|
            {
                let distance = match now {
                    Some(seconds) if seconds <= 0x7fff_ffff_ffff_ffff => resets_at - seconds,
                    Some(seconds) => resets_at - seconds + 0x1_0000_0000_0000_0000,
                    None => 0,
                };
                let ahead = if distance > 0 {
                    distance
                } else {
                    0
                };
                &&& #[trigger] told(days, hours) == countdown(resets_at, now)
                &&& hours < 24
                &&& 86_400 * days + 3_600 * hours <= ahead < 86_400 * days + 3_600 * hours + 3_600
            },
{
    let ahead = if seconds_ahead(resets_at, now) > 0 {
        seconds_ahead(resets_at, now)
    } else {
        0
    };
    let days = (ahead / 86_400) as nat;
    let hours = ((ahead % 86_400) / 3_600) as nat;
    assert(told(days, hours) == countdown(resets_at, now));
}

/// A time of days and hours in words.
pub open spec fn told(days: nat, hours: nat) -> Seq<char> {
    text::decimal(days) + "d "@ + text::decimal(hours) + "h"@
}

/// A clock whose count is beyond 63 bits is read as one before the epoch, and
/// without a clock every reset is due.
pub proof fn law_countdown_by_odd_clocks(resets_at: i64, now: u64)
    ensures
        now > i64::MAX ==> seconds_ahead(resets_at, Some(now)) == resets_at - now
            + 0x1_0000_0000_0000_0000,
        now <= i64::MAX ==> seconds_ahead(resets_at, Some(now)) == resets_at - now,
        countdown(resets_at, None) == told(0, 0),
{
}

/// The time to a reset fits where the difference of the two is a number of 64
/// bits; that of a reset that is not known, or without a clock, always does.
pub proof fn law_which_resets_are_near(resets_at: i64, now: u64)
    ensures
        known_reset_is_near(None, Some(now)),
        known_reset_is_near(None, None),
        known_reset_is_near(Some(resets_at), None),
        now <= i64::MAX ==> (known_reset_is_near(Some(resets_at), Some(now)) <==> resets_at - now
            >= -0x8000_0000_0000_0000),
        now > i64::MAX ==> (known_reset_is_near(Some(resets_at), Some(now)) <==> resets_at - now
            + 0x1_0000_0000_0000_0000 <= 0x7fff_ffff_ffff_ffff),
{
}

/// A known reset is told by its countdown, an unknown one as unknown.
pub proof fn law_reset_is_told(resets_at: i64, now: Option<u64>)
    ensures
        reset_words(Some(resets_at), now) == countdown(resets_at, now),
        reset_words(None, now) == "reset unknown"@,
{
}

/// A quota is shown as it is read: its percentage and its reset replace what was
/// shown, and the error is gone. An error is shown in its own words.
pub proof fn law_usage_is_shown_as_read(state: AppState, quota: WeeklyQuota, error: String)
    ensures
        state.after_usage(Ok(quota)).remaining_percent == quota.remaining_percent,
        state.after_usage(Ok(quota)).reset_at == quota.resets_at_unix_seconds,
        state.after_usage(Ok(quota)).status == MonitorStatus::Idle,
        state.after_usage(Ok(quota)).last_error is None,
        state.after_usage(Err(error)).last_error == Some(error),
        state.after_usage(Err(error)).status == MonitorStatus::Offline,
        state.after_usage(Err(error)).remaining_percent == state.remaining_percent,
        state.after_usage(Err(error)).reset_at == state.reset_at,
{
}

/// The tooltip tells the remaining percentage, the reset and the status, in this
/// order, and nothing of the error.
pub proof fn law_tooltip_tells_the_state(state: AppState, now: Option<u64>)
    ensures
        state.tooltip_words(now) == "Codex: "@ + text::decimal(state.remaining_percent as nat)
            + "% left | reset "@ + (match state.reset_at {
            Some(resets_at) => countdown(resets_at, now),
            None => "reset unknown"@,
        }) + " | "@ + state.status.words(),
{
}

/// A diagnosis tells the remaining percentage, the reset and the status on a line
/// each, as the tooltip does.
pub proof fn law_diagnosis_tells_the_same(
    quota: WeeklyQuota,
    status: MonitorStatus,
    now: Option<u64>,
)
    ensures
        ({
            let lines = diagnosis_words(quota, status, now);
            &&& lines.len() == 3
            &&& lines[0] == "Weekly remaining: "@ + text::decimal(quota.remaining_percent as nat)
                + "%"@
            &&& lines[1] == "Resets in: "@ + (match quota.resets_at_unix_seconds {
                Some(resets_at) => countdown(resets_at, now),
                None => "reset unknown"@,
            })
            &&& lines[2] == "Status: "@ + status.words()
        }),
{
}

/// A reset has a date exactly where its second falls in the calendar; the date
/// is by the layout with weekday, day, month, year, time and zone. A reset
/// beyond the calendar is said to have none, and an unknown one has none.
pub proof fn law_date_of_a_reset(date: Option<Seq<char>>, resets_at: i64)
    ensures
        is_reset_date(date, None) <==> date is None,
        is_reset_date(date, Some(resets_at)) ==> date is Some,
        is_reset_date(date, Some(resets_at)) && -8_334_601_228_800 <= resets_at
            <= 8_210_266_876_799 ==> exists|offset: int|
            -86_400 < offset < 86_400 && date->0 == #[trigger] zoned_date(
                resets_at,
                offset,
                "%a, %d %b %Y · %H:%M %Z"@,
            ),
        is_reset_date(date, Some(resets_at)) && !(-8_334_601_228_800 <= resets_at
            <= 8_210_266_876_799) ==> date->0 == "Date unavailable"@,
        date_words(None) == "Date unavailable"@,
        date matches Some(words) ==> date_words(date) == words,
{
}

/// Before the first usage nothing remains, Codex is idle, no reset is known, and
/// the words for an error say that the usage is being loaded.
pub proof fn law_loading_state(state: AppState)
    requires
        state.is_loading(),
    ensures
        state.remaining_percent == 0,
        state.status == MonitorStatus::Idle,
        state.reset_at is None,
        state.last_error matches Some(words) && words@ == "Loading weekly usage"@,
{
}

} // verus!
