//! Weekly quota: from the usage that Codex reports to what remains.
//!
//! Codex reports used usage; the monitor presents remaining usage. The
//! conversion belongs here rather than in the tray.

use vstd::prelude::*;

use crate::double;
use crate::double::Double;
use crate::text;

verus! {

/// The length of the weekly window, in minutes.
pub const WEEKLY_WINDOW_MINUTES: u64 = 10_080;

/// What remains of the weekly quota.
#[derive(Debug, Clone, Copy, PartialEq, Eq, Structural)]
pub struct WeeklyQuota {
    pub remaining_percent: u8,
    pub resets_at_unix_seconds: Option<i64>,
}

/// The colour band of the gauge.
#[derive(Debug, Clone, Copy, PartialEq, Eq, Structural)]
pub enum GaugeZone {
    Green,
    Yellow,
    Orange,
    Red,
}

/// The band of a remaining percentage: green from 50 to 100, yellow from 25,
/// orange from 10, and red for all else.
pub open spec fn zone_of(remaining_percent: u8) -> GaugeZone {
    if 50 <= remaining_percent <= 100 {
        GaugeZone::Green
    } else if 25 <= remaining_percent < 50 {
        GaugeZone::Yellow
    } else if 10 <= remaining_percent < 25 {
        GaugeZone::Orange
    } else {
        GaugeZone::Red
    }
}

impl GaugeZone {
    /// The band in which a remaining percentage lies.
    pub fn for_remaining(remaining_percent: u8) -> (zone: Self)
        ensures
            zone == zone_of(remaining_percent),
    {
        match remaining_percent {
            50..=100 => GaugeZone::Green,
            25..=49 => GaugeZone::Yellow,
            10..=24 => GaugeZone::Orange,
            _ => GaugeZone::Red,
        }
    }
}

/// Why no weekly quota could be had from a response.
#[derive(Debug, PartialEq)]
pub enum QuotaError {
    /// The response does not decode; the text says why.
    InvalidJson(String),
    /// There is no primary window, or one without a duration.
    MissingPrimaryWindow,
    /// The primary window has this many minutes, which is not a week.
    UnsupportedWindowDuration(u64),
    /// The used percentage is an infinity or not a number.
    NonFiniteUsedPercent,
}

impl QuotaError {
    /// The sentence that describes the error.
    pub open spec fn sentence(self) -> Seq<char> {
        match self {
            QuotaError::InvalidJson(reason) => "Codex returned invalid JSON: "@ + reason@,
            QuotaError::MissingPrimaryWindow => "Codex did not return a primary rate-limit window"@,
            QuotaError::UnsupportedWindowDuration(minutes) =>
                "Codex returned an unsupported rate-limit window: "@ + text::decimal(minutes as nat)
                    + " minutes"@,
            QuotaError::NonFiniteUsedPercent => "Codex returned a non-finite used percentage"@,
        }
    }

    /// Describes the error in a sentence.
    pub fn message(&self) -> (sentence: String)
        ensures
            sentence@ == self.sentence(),
    {
        match self {
            QuotaError::InvalidJson(reason) => text::joined(
                "Codex returned invalid JSON: ",
                reason.as_str(),
            ),
            QuotaError::MissingPrimaryWindow => {
                "Codex did not return a primary rate-limit window".to_owned()
            },
            QuotaError::UnsupportedWindowDuration(minutes) => {
                let mut sentence = text::joined(
                    "Codex returned an unsupported rate-limit window: ",
                    text::decimal_text(*minutes).as_str(),
                );
                sentence.append(" minutes");
                sentence
            },
            QuotaError::NonFiniteUsedPercent => {
                "Codex returned a non-finite used percentage".to_owned()
            },
        }
    }
}

/// A rate-limit response of the Codex app server.
#[derive(Debug, Clone, Copy, PartialEq, Eq, Structural)]
pub struct RateLimitResponse {
    pub result: RateLimitResult,
}

/// The result part of a response.
#[derive(Debug, Clone, Copy, PartialEq, Eq, Structural)]
pub struct RateLimitResult {
    pub rate_limits: RateLimits,
}

/// The rate limits of an account.
#[derive(Debug, Clone, Copy, PartialEq, Eq, Structural)]
pub struct RateLimits {
    pub primary: Option<RateLimitWindow>,
}

/// One rate-limit window.
#[derive(Debug, Clone, Copy, PartialEq, Eq, Structural)]
pub struct RateLimitWindow {
    pub used_percent: Double,
    pub window_duration_mins: Option<u64>,
    pub resets_at: Option<i64>,
}

/// What a response says of the weekly quota.
///
/// The errors are ranked: a missing window or duration, then a window that is
/// not weekly, then a used percentage that is not finite.
pub open spec fn quota_of(response: RateLimitResponse) -> Result<WeeklyQuota, QuotaError> {
    match response.result.rate_limits.primary {
        None => Err(QuotaError::MissingPrimaryWindow),
        Some(window) => match window.window_duration_mins {
            None => Err(QuotaError::MissingPrimaryWindow),
            Some(minutes) => if minutes != WEEKLY_WINDOW_MINUTES {
                Err(QuotaError::UnsupportedWindowDuration(minutes))
            } else if !window.used_percent.finite() {
                Err(QuotaError::NonFiniteUsedPercent)
            } else {
                Ok(
                    WeeklyQuota {
                        remaining_percent: double::hundred_less(window.used_percent) as u8,
                        resets_at_unix_seconds: window.resets_at,
                    },
                )
            },
        },
    }
}

/// What the outcome of decoding a response says of the weekly quota: the
/// reason of a failure is kept.
pub open spec fn decoded_quota(decoded: Result<RateLimitResponse, String>) -> Result<
    WeeklyQuota,
    QuotaError,
> {
    match decoded {
        Ok(response) => quota_of(response),
        Err(reason) => Err(QuotaError::InvalidJson(reason)),
    }
}

/// Reads the weekly quota out of what decoding a response gave.
pub fn weekly_quota(decoded: Result<RateLimitResponse, String>) -> (quota: Result<
    WeeklyQuota,
    QuotaError,
>)
    ensures
        quota == decoded_quota(decoded),
{
    let response = match decoded {
        Ok(response) => response,
        Err(reason) => {
            return Err(QuotaError::InvalidJson(reason));
        },
    };
    let primary = match response.result.rate_limits.primary {
        Some(primary) => primary,
        None => {
            return Err(QuotaError::MissingPrimaryWindow);
        },
    };
    let duration: u64 = match primary.window_duration_mins {
        Some(duration) => duration,
        None => {
            return Err(QuotaError::MissingPrimaryWindow);
        },
    };
    if duration != WEEKLY_WINDOW_MINUTES {
        return Err(QuotaError::UnsupportedWindowDuration(duration));
    }
    if !primary.used_percent.is_finite() {
        return Err(QuotaError::NonFiniteUsedPercent);
    }
    let remaining: u8 = primary.used_percent.taken_from_hundred();
    Ok(WeeklyQuota { remaining_percent: remaining, resets_at_unix_seconds: primary.resets_at })
}

/// Reads the weekly quota out of the JSON text of a response.
///
/// `decode` turns the text into a response or says why it is none; the quota
/// is that of what it gave for this very text.
pub fn parse_weekly_quota<F: Fn(&str) -> Result<RateLimitResponse, String>>(
    json: &str,
    decode: F,
) -> (quota: Result<WeeklyQuota, QuotaError>)
    requires
        decode.requires((json,)),
    ensures
        exists|decoded: Result<RateLimitResponse, String>|
            decode.ensures((json,), decoded) && quota == #[trigger] decoded_quota(decoded),
{
    let decoded = decode(json);
    weekly_quota(decoded)
}

/// A quota comes only from a weekly window: no other window is ever shown.
pub proof fn law_quota_is_weekly(response: RateLimitResponse)
    requires
        quota_of(response) is Ok,
    ensures
        response.result.rate_limits.primary matches Some(window)
            && window.window_duration_mins == Some(WEEKLY_WINDOW_MINUTES)
            && quota_of(response)->Ok_0.resets_at_unix_seconds == window.resets_at,
{
}

/// The remaining percentage lies between nought and a hundred.
pub proof fn law_remaining_is_a_percentage(response: RateLimitResponse)
    requires
        quota_of(response) is Ok,
    ensures
        quota_of(response)->Ok_0.remaining_percent <= 100,
{
}

/// A used percentage that is a whole number from nought to a hundred and the
/// remaining percentage add up to a hundred.
pub proof fn law_used_and_remaining_add_up(window: RateLimitWindow, percent: int)
    requires
        window.window_duration_mins == Some(WEEKLY_WINDOW_MINUTES),
        window.used_percent.finite(),
        window.used_percent.units() == percent * double::one(),
        0 <= percent <= 100,
    ensures
        quota_of(response_with(window)) matches Ok(quota) && quota.remaining_percent + percent
            == 100,
{
    double::lemma_hundred_less_whole(window.used_percent, percent);
}

/// Of two usages, the larger never leaves more.
pub proof fn law_more_used_leaves_no_more(less: RateLimitWindow, more: RateLimitWindow)
    requires
        quota_of(response_with(less)) is Ok,
        quota_of(response_with(more)) is Ok,
        less.used_percent.units() <= more.used_percent.units(),
    ensures
        quota_of(response_with(more))->Ok_0.remaining_percent <= quota_of(
            response_with(less),
        )->Ok_0.remaining_percent,
{
    double::lemma_hundred_less_ordered(less.used_percent, more.used_percent);
}

/// A response with the given primary window.
pub open spec fn response_with(window: RateLimitWindow) -> RateLimitResponse {
    RateLimitResponse { result: RateLimitResult { rate_limits: RateLimits { primary: Some(window) } } }
}

/// Usage below nothing leaves everything, usage beyond a hundred nothing.
pub proof fn law_usage_out_of_range_is_clamped(window: RateLimitWindow)
    requires
        quota_of(response_with(window)) is Ok,
    ensures
        window.used_percent.units() <= 0 ==> quota_of(
            response_with(window),
        )->Ok_0.remaining_percent == 100,
        window.used_percent.units() >= 100 * double::one() ==> quota_of(
            response_with(window),
        )->Ok_0.remaining_percent == 0,
{
    double::lemma_hundred_less_beyond(window.used_percent);
}

/// Less remaining never moves the gauge to a better band.
pub proof fn law_zones_are_ordered(lower: u8, higher: u8)
    requires
        lower <= higher <= 100,
    ensures
        zone_of(higher) == GaugeZone::Red ==> zone_of(lower) == GaugeZone::Red,
        zone_of(higher) == GaugeZone::Orange ==> zone_of(lower) == GaugeZone::Orange || zone_of(
            lower,
        ) == GaugeZone::Red,
        zone_of(lower) == GaugeZone::Green ==> zone_of(higher) == GaugeZone::Green,
        zone_of(lower) == GaugeZone::Yellow ==> zone_of(higher) == GaugeZone::Yellow || zone_of(
            higher,
        ) == GaugeZone::Green,
{
}

/// A response gives a quota exactly where its primary window is a week long
/// and the used percentage is finite, whatever else it holds. Each error has
/// its own cause.
pub proof fn law_outcome_of_a_response(response: RateLimitResponse, minutes: u64)
    ensures
        ({
            let primary = response.result.rate_limits.primary;
            let outcome = quota_of(response);
            &&& outcome is Ok <==> (primary matches Some(window) && window.window_duration_mins
                == Some(10_080u64) && window.used_percent.finite())
            &&& outcome == Err::<WeeklyQuota, QuotaError>(QuotaError::NonFiniteUsedPercent) <==> (
            primary matches Some(window) && window.window_duration_mins == Some(10_080u64)
                && !window.used_percent.finite())
            &&& outcome == Err::<WeeklyQuota, QuotaError>(QuotaError::MissingPrimaryWindow) <==> (
            primary matches Some(window) ==> window.window_duration_mins is None)
            &&& outcome == Err::<WeeklyQuota, QuotaError>(
                QuotaError::UnsupportedWindowDuration(minutes),
            ) <==> (primary matches Some(window) && window.window_duration_mins == Some(minutes)
                && minutes != 10_080)
            &&& !(outcome matches Err(QuotaError::InvalidJson(_)))
        }),
{
}

/// The reset of the quota is that of the window, known or not.
pub proof fn law_reset_is_kept(window: RateLimitWindow)
    ensures
        quota_of(response_with(window)) matches Ok(quota) ==> quota.resets_at_unix_seconds
            == window.resets_at,
{
}

/// For a used percentage from nought to a hundred the remaining one differs
/// from a hundred less it by at most a half, and by the rounding of that
/// difference to a double, which is less than 2^-45.
pub proof fn law_remaining_is_nearest(window: RateLimitWindow)
    requires
        window.window_duration_mins == Some(10_080u64),
        window.used_percent.finite(),
        0 <= window.used_percent.units() <= 100 * vstd::arithmetic::power2::pow2(1074),
    ensures
        quota_of(response_with(window)) matches Ok(quota) && {
            let one = vstd::arithmetic::power2::pow2(1074);
            let slack = vstd::arithmetic::power2::pow2(1029);
            let used = window.used_percent.units();
            let counted = (100 - quota.remaining_percent) * one;
            2 * (counted - used) <= one + slack && 2 * (used - counted) <= one + slack
        },
{
    double::lemma_hundred_less_near(window.used_percent);
}

/// A used percentage that is a multiple of 2^-45 is taken from a hundred
/// exactly, and half a percent that remains is rounded up.
pub proof fn law_remaining_rounds_halves_up(window: RateLimitWindow, steps: int)
    requires
        window.window_duration_mins == Some(10_080u64),
        window.used_percent.finite(),
        0 <= window.used_percent.units() <= 100 * vstd::arithmetic::power2::pow2(1074),
        window.used_percent.units() == steps * vstd::arithmetic::power2::pow2(1029),
    ensures
        quota_of(response_with(window)) matches Ok(quota) && {
            let one = vstd::arithmetic::power2::pow2(1074);
            let left = 100 * one - window.used_percent.units();
            quota.remaining_percent * (2 * one) - one <= 2 * left < quota.remaining_percent * (2
                * one) + one
        },
{
    double::lemma_hundred_less_exact(window.used_percent, steps);
}

/// What remains depends on the used percentage alone, not on the reset.
pub proof fn law_reset_does_not_change_what_remains(one: RateLimitWindow, other: RateLimitWindow)
    requires
        one.used_percent == other.used_percent,
        one.window_duration_mins == other.window_duration_mins,
    ensures
        quota_of(response_with(one)) is Ok <==> quota_of(response_with(other)) is Ok,
        quota_of(response_with(one)) is Ok ==> quota_of(
            response_with(one),
        )->Ok_0.remaining_percent == quota_of(response_with(other))->Ok_0.remaining_percent,
        quota_of(response_with(one)) is Err ==> quota_of(response_with(one)) == quota_of(
            response_with(other),
        ),
{
}

/// A response that was decoded is judged by what it holds, and one that was
/// not keeps the reason.
pub proof fn law_decoding_decides_first(response: RateLimitResponse, reason: String)
    ensures
        decoded_quota(Ok(response)) == quota_of(response),
        decoded_quota(Err(reason)) == Err::<WeeklyQuota, QuotaError>(
            QuotaError::InvalidJson(reason),
        ),
{
}

/// The bands of the gauge: green from half of the week, yellow from a quarter,
/// orange from a tenth, red below that; what is no percentage is red.
pub proof fn law_bands(remaining_percent: u8)
    ensures
        zone_of(remaining_percent) == GaugeZone::Green <==> 50 <= remaining_percent <= 100,
        zone_of(remaining_percent) == GaugeZone::Yellow <==> 25 <= remaining_percent <= 49,
        zone_of(remaining_percent) == GaugeZone::Orange <==> 10 <= remaining_percent <= 24,
        zone_of(remaining_percent) == GaugeZone::Red <==> remaining_percent <= 9
            || remaining_percent > 100,
{
}

/// The sentence of an error tells it from the others, and what came with it can
/// be read in it.
pub proof fn law_error_sentences(reason: String, minutes: u64)
    ensures
        QuotaError::InvalidJson(reason).sentence() == "Codex returned invalid JSON: "@ + reason@,
        QuotaError::MissingPrimaryWindow.sentence()
            == "Codex did not return a primary rate-limit window"@,
        QuotaError::UnsupportedWindowDuration(minutes).sentence()
            == "Codex returned an unsupported rate-limit window: "@ + text::decimal(
            minutes as nat,
        ) + " minutes"@,
        QuotaError::NonFiniteUsedPercent.sentence()
            == "Codex returned a non-finite used percentage"@,
{
}

/// For a used percentage from nought to a hundred the remaining one is the whole
/// number nearest to the double nearest to the difference, with halves up.
pub proof fn law_remaining_rounds_the_difference(window: RateLimitWindow)
    requires
        window.window_duration_mins == Some(10_080u64),
        window.used_percent.finite(),
        0 <= window.used_percent.units() <= 100 * vstd::arithmetic::power2::pow2(1074),
    ensures
        quota_of(response_with(window)) matches Ok(quota) && {
            let one = vstd::arithmetic::power2::pow2(1074);
            let left = double::nearest_double((100 * one - window.used_percent.units()) as nat);
            quota.remaining_percent * (2 * one) - one <= 2 * left < quota.remaining_percent * (2
                * one) + one
        },
{
    double::lemma_hundred_less_rounds_the_difference(window.used_percent);
}

} // verus!
