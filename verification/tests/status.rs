use windowscodexmonitor::status::{watchdog_status, SessionReading};
use windowscodexmonitor::{classify_monitor_status, MonitorStatus, SessionSignal};

#[test]
fn classifies_watchdog_states_without_claiming_old_work_is_hung() {
    assert_eq!(
        classify_monitor_status(false, SessionSignal::Activity, 0),
        MonitorStatus::Offline
    );
    assert_eq!(
        classify_monitor_status(true, SessionSignal::Completed, 0),
        MonitorStatus::Idle
    );
    assert_eq!(
        classify_monitor_status(true, SessionSignal::Waiting, 0),
        MonitorStatus::Waiting
    );
    assert_eq!(
        classify_monitor_status(true, SessionSignal::Activity, 90),
        MonitorStatus::Working
    );
    assert_eq!(
        classify_monitor_status(true, SessionSignal::Activity, 91),
        MonitorStatus::SuspectedHung
    );
    assert_eq!(
        classify_monitor_status(true, SessionSignal::Activity, 600),
        MonitorStatus::SuspectedHung
    );
    assert_eq!(
        classify_monitor_status(true, SessionSignal::Activity, 601),
        MonitorStatus::Idle
    );
}

#[test]
fn names_every_status() {
    assert_eq!(MonitorStatus::Working.label(), "Working");
    assert_eq!(MonitorStatus::Waiting.label(), "Waiting");
    assert_eq!(MonitorStatus::Idle.label(), "Idle");
    assert_eq!(MonitorStatus::Offline.label(), "Offline");
    assert_eq!(MonitorStatus::SuspectedHung.label(), "Suspected Hung");
}

#[test]
fn no_process_is_offline_whatever_the_session_says() {
    for signal in [SessionSignal::Completed, SessionSignal::Waiting, SessionSignal::Activity] {
        for seconds in [0, 90, 91, 600, 601, u64::MAX] {
            assert_eq!(
                classify_monitor_status(false, signal, seconds),
                MonitorStatus::Offline
            );
        }
    }
}

#[test]
fn a_session_without_a_log_is_old_activity() {
    assert_eq!(watchdog_status(true, None), MonitorStatus::Idle);
    assert_eq!(watchdog_status(false, None), MonitorStatus::Offline);
}

#[test]
fn what_is_not_known_of_a_session_counts_as_old_activity() {
    let reading = |age_seconds, signal| Some(SessionReading { age_seconds, signal });
    assert_eq!(watchdog_status(true, reading(Some(5), None)), MonitorStatus::Working);
    assert_eq!(watchdog_status(true, reading(Some(100), None)), MonitorStatus::SuspectedHung);
    assert_eq!(
        watchdog_status(true, reading(None, Some(SessionSignal::Activity))),
        MonitorStatus::Idle
    );
    assert_eq!(
        watchdog_status(true, reading(Some(5), Some(SessionSignal::Waiting))),
        MonitorStatus::Waiting
    );
}
