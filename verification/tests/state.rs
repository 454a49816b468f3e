use chrono::{FixedOffset, TimeZone};
use windowscodexmonitor::state::{
    date_text, diagnosis, reset_absolute, reset_can_be_told, reset_date, reset_summary, reset_text,
    zone_color, AppState, FIRST_DATED_SECOND, LAST_DATED_SECOND,
};
use windowscodexmonitor::{MonitorStatus, WeeklyQuota};

const NOW: Option<u64> = Some(1_785_000_000);

#[test]
fn counts_down_to_a_reset() {
    assert_eq!(reset_summary(1_785_258_188, NOW), "2d 23h");
    assert_eq!(reset_summary(1_785_000_000 + 86_400, NOW), "1d 0h");
    assert_eq!(reset_summary(1_785_000_000 + 86_399, NOW), "0d 23h");
    assert_eq!(reset_summary(1_785_000_000 + 3_599, NOW), "0d 0h");
    assert_eq!(reset_summary(i64::MAX, Some(0)), "106751991167300d 15h");
}

#[test]
fn nothing_is_left_of_a_past_reset() {
    assert_eq!(reset_summary(1_784_999_999, NOW), "0d 0h");
    assert_eq!(reset_summary(0, NOW), "0d 0h");
    assert_eq!(reset_summary(-5, Some(0)), "0d 0h");
}

#[test]
fn a_clock_before_the_epoch_makes_the_reset_due() {
    assert_eq!(reset_summary(1_785_258_188, None), "0d 0h");
}

#[test]
fn reads_a_late_clock_as_signed() {
    assert_eq!(reset_summary(86_399, Some(u64::MAX)), "1d 0h");
}

#[test]
fn tells_which_resets_can_be_written() {
    assert!(reset_can_be_told(None, NOW));
    assert!(reset_can_be_told(Some(i64::MIN), None));
    assert!(reset_can_be_told(Some(i64::MIN), Some(0)));
    assert!(!reset_can_be_told(Some(i64::MIN), Some(1)));
    assert!(!reset_can_be_told(Some(i64::MAX), Some(u64::MAX)));
    assert!(reset_can_be_told(Some(i64::MAX), Some(0)));
}

#[test]
fn an_unknown_reset_is_said_to_be_unknown() {
    assert_eq!(reset_text(None, NOW), "reset unknown");
    assert_eq!(reset_text(Some(1_785_258_188), NOW), "2d 23h");
}

#[test]
fn a_date_is_shown_where_there_is_one() {
    assert_eq!(date_text(Some("Tue, 28 Jul 2026".to_owned())), "Tue, 28 Jul 2026");
    assert_eq!(date_text(None), "Date unavailable");
}

fn date_in(seconds: i64, offset: i32) -> String {
    let zone = FixedOffset::east_opt(offset).unwrap();
    let time = zone.timestamp_opt(seconds, 0).unwrap();
    time.format("%a, %d %b %Y · %H:%M %Z").to_string()
}

#[test]
fn dates_a_reset_in_some_time_zone() {
    assert_eq!(date_in(1_785_258_188, 0), "Tue, 28 Jul 2026 · 17:03 +00:00");
    assert_eq!(date_in(1_785_258_188, 7_200), "Tue, 28 Jul 2026 · 19:03 +02:00");
    let date = reset_absolute(1_785_258_188);
    assert!((-86_399..86_400).any(|offset| date == date_in(1_785_258_188, offset)), "{date}");
}

#[test]
fn dates_no_reset_beyond_the_calendar() {
    assert_eq!(reset_absolute(i64::MAX), "Date unavailable");
    assert_eq!(reset_absolute(i64::MIN), "Date unavailable");
    assert_eq!(reset_absolute(LAST_DATED_SECOND + 1), "Date unavailable");
    assert_eq!(reset_absolute(FIRST_DATED_SECOND - 1), "Date unavailable");
    assert_ne!(reset_absolute(LAST_DATED_SECOND), "Date unavailable");
    assert_ne!(reset_absolute(FIRST_DATED_SECOND), "Date unavailable");
}

#[test]
fn dates_only_a_known_reset() {
    assert_eq!(reset_date(None), None);
    assert_eq!(reset_date(Some(1_785_258_188)), Some(reset_absolute(1_785_258_188)));
    assert_eq!(reset_date(Some(i64::MAX)), Some("Date unavailable".to_owned()));
}

#[test]
fn starts_by_loading() {
    assert_eq!(
        AppState::new(),
        AppState {
            remaining_percent: 0,
            status: MonitorStatus::Idle,
            reset_at: None,
            last_error: Some("Loading weekly usage".to_owned()),
        }
    );
}

#[test]
fn a_quota_replaces_what_is_shown() {
    let mut state = AppState::new();
    state.apply_usage(Ok(WeeklyQuota {
        remaining_percent: 36,
        resets_at_unix_seconds: Some(1_785_258_188),
    }));
    assert_eq!(
        state,
        AppState {
            remaining_percent: 36,
            status: MonitorStatus::Idle,
            reset_at: Some(1_785_258_188),
            last_error: None,
        }
    );
    assert_eq!(state.tooltip(NOW), "Codex: 36% left | reset 2d 23h | Idle");
}

#[test]
fn an_error_leaves_the_last_quota_and_shows_offline() {
    let mut state = AppState::new();
    state.apply_usage(Ok(WeeklyQuota {
        remaining_percent: 36,
        resets_at_unix_seconds: Some(1_785_258_188),
    }));
    state.apply_usage(Err("Codex closed".to_owned()));
    assert_eq!(
        state,
        AppState {
            remaining_percent: 36,
            status: MonitorStatus::Offline,
            reset_at: Some(1_785_258_188),
            last_error: Some("Codex closed".to_owned()),
        }
    );
    assert_eq!(state.tooltip(NOW), "Codex: 36% left | reset 2d 23h | Offline");
}

#[test]
fn the_tooltip_of_a_new_monitor_knows_no_reset() {
    assert_eq!(AppState::new().tooltip(NOW), "Codex: 0% left | reset reset unknown | Idle");
}

#[test]
fn an_offline_monitor_is_grey() {
    let mut state = AppState::new();
    state.remaining_percent = 80;
    assert_eq!(zone_color(&state), 0x43c97a);
    state.status = MonitorStatus::Offline;
    assert_eq!(zone_color(&state), 0x8c93a0);
}

#[test]
fn writes_a_diagnosis() {
    let quota = WeeklyQuota { remaining_percent: 100, resets_at_unix_seconds: None };
    assert_eq!(
        diagnosis(&quota, MonitorStatus::SuspectedHung, NOW),
        vec!["Weekly remaining: 100%", "Resets in: reset unknown", "Status: Suspected Hung"]
    );
}
