use serde_json::Value;
use windowscodexmonitor::double::Double;
use windowscodexmonitor::quota::{
    weekly_quota, RateLimitResponse, RateLimitResult, RateLimitWindow, RateLimits,
};
use windowscodexmonitor::{
    parse_weekly_quota, GaugeZone, QuotaError, WeeklyQuota, WEEKLY_WINDOW_MINUTES,
};

fn response(used_percent: &str, duration: u64) -> String {
    format!(
        r#"{{"result":{{"rateLimits":{{"primary":{{"usedPercent":{used_percent},"windowDurationMins":{duration},"resetsAt":1785258188}}}}}}}}"#
    )
}

fn field<'a>(value: &'a Value, name: &str) -> Result<&'a Value, String> {
    value.get(name).ok_or_else(|| format!("missing field `{name}`"))
}

fn decode(json: &str) -> Result<RateLimitResponse, String> {
    let document: Value = serde_json::from_str(json).map_err(|error| error.to_string())?;
    let limits = field(field(&document, "result")?, "rateLimits")?;
    let primary = match limits.get("primary") {
        None | Some(Value::Null) => None,
        Some(window) => Some(RateLimitWindow {
            used_percent: Double {
                bits: field(window, "usedPercent")?
                    .as_f64()
                    .ok_or_else(|| "invalid type".to_owned())?
                    .to_bits(),
            },
            window_duration_mins: window.get("windowDurationMins").and_then(Value::as_u64),
            resets_at: window.get("resetsAt").and_then(Value::as_i64),
        }),
    };
    Ok(RateLimitResponse { result: RateLimitResult { rate_limits: RateLimits { primary } } })
}

fn parse(json: &str) -> Result<WeeklyQuota, QuotaError> {
    parse_weekly_quota(json, decode)
}

fn with_window(used_percent: f64, minutes: Option<u64>) -> Result<WeeklyQuota, QuotaError> {
    weekly_quota(Ok(RateLimitResponse {
        result: RateLimitResult {
            rate_limits: RateLimits {
                primary: Some(RateLimitWindow {
                    used_percent: Double { bits: used_percent.to_bits() },
                    window_duration_mins: minutes,
                    resets_at: None,
                }),
            },
        },
    }))
}

#[test]
fn converts_used_percent_to_remaining_weekly_percent() {
    let quota = parse(&response("64", WEEKLY_WINDOW_MINUTES)).unwrap();
    assert_eq!(quota.remaining_percent, 36);
    assert_eq!(quota.resets_at_unix_seconds, Some(1_785_258_188));
}

#[test]
fn rounds_and_clamps_remaining_percent() {
    assert_eq!(
        parse(&response("64.6", WEEKLY_WINDOW_MINUTES)).unwrap().remaining_percent,
        35
    );
    assert_eq!(
        parse(&response("-20", WEEKLY_WINDOW_MINUTES)).unwrap().remaining_percent,
        100
    );
    assert_eq!(
        parse(&response("120", WEEKLY_WINDOW_MINUTES)).unwrap().remaining_percent,
        0
    );
}

#[test]
fn assigns_every_gauge_zone_at_the_boundary() {
    assert_eq!(GaugeZone::for_remaining(100), GaugeZone::Green);
    assert_eq!(GaugeZone::for_remaining(50), GaugeZone::Green);
    assert_eq!(GaugeZone::for_remaining(49), GaugeZone::Yellow);
    assert_eq!(GaugeZone::for_remaining(25), GaugeZone::Yellow);
    assert_eq!(GaugeZone::for_remaining(24), GaugeZone::Orange);
    assert_eq!(GaugeZone::for_remaining(10), GaugeZone::Orange);
    assert_eq!(GaugeZone::for_remaining(9), GaugeZone::Red);
    assert_eq!(GaugeZone::for_remaining(0), GaugeZone::Red);
}

#[test]
fn a_percentage_beyond_a_hundred_is_red() {
    assert_eq!(GaugeZone::for_remaining(101), GaugeZone::Red);
    assert_eq!(GaugeZone::for_remaining(255), GaugeZone::Red);
}

#[test]
fn rejects_missing_primary_window() {
    let result = parse(r#"{"result":{"rateLimits":{"primary":null}}}"#);
    assert_eq!(result, Err(QuotaError::MissingPrimaryWindow));
}

#[test]
fn rejects_a_window_without_duration() {
    assert_eq!(with_window(10.0, None), Err(QuotaError::MissingPrimaryWindow));
}

#[test]
fn rejects_malformed_json() {
    assert!(matches!(parse("not json"), Err(QuotaError::InvalidJson(_))));
}

#[test]
fn keeps_the_reason_of_the_decoder() {
    assert_eq!(
        parse_weekly_quota("text", |json: &str| Err(format!("cannot read {json}"))),
        Err(QuotaError::InvalidJson("cannot read text".to_owned()))
    );
}

#[test]
fn rejects_non_weekly_window() {
    assert_eq!(
        parse(&response("10", 300)),
        Err(QuotaError::UnsupportedWindowDuration(300))
    );
}

#[test]
fn rejects_a_used_percentage_that_is_not_finite() {
    for used in [f64::NAN, f64::INFINITY, f64::NEG_INFINITY] {
        assert_eq!(
            with_window(used, Some(WEEKLY_WINDOW_MINUTES)),
            Err(QuotaError::NonFiniteUsedPercent)
        );
    }
}

#[test]
fn ranks_a_wrong_window_before_a_wrong_percentage() {
    assert_eq!(
        with_window(f64::NAN, Some(300)),
        Err(QuotaError::UnsupportedWindowDuration(300))
    );
}

#[test]
fn whole_percentages_add_up_to_a_hundred() {
    for used in 0..=100u8 {
        let quota = with_window(f64::from(used), Some(WEEKLY_WINDOW_MINUTES)).unwrap();
        assert_eq!(quota.remaining_percent, 100 - used);
    }
}

#[test]
fn more_used_leaves_no_more() {
    let mut last = 100;
    for step in 0..2000 {
        let used = -5.0 + f64::from(step) * 0.06;
        let remaining =
            with_window(used, Some(WEEKLY_WINDOW_MINUTES)).unwrap().remaining_percent;
        assert!(remaining <= last);
        last = remaining;
    }
    assert_eq!(last, 0);
}

#[test]
fn describes_every_quota_error() {
    assert_eq!(
        QuotaError::InvalidJson("expected value".to_owned()).message(),
        "Codex returned invalid JSON: expected value"
    );
    assert_eq!(
        QuotaError::MissingPrimaryWindow.message(),
        "Codex did not return a primary rate-limit window"
    );
    assert_eq!(
        QuotaError::UnsupportedWindowDuration(300).message(),
        "Codex returned an unsupported rate-limit window: 300 minutes"
    );
    assert_eq!(
        QuotaError::NonFiniteUsedPercent.message(),
        "Codex returned a non-finite used percentage"
    );
}
