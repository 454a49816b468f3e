//! What the monitor says Codex is doing.

use vstd::prelude::*;

verus! {

/// The state of Codex that the monitor shows.
#[derive(Debug, Clone, Copy, PartialEq, Eq, Structural)]
pub enum MonitorStatus {
    Working,
    Waiting,
    Idle,
    Offline,
    SuspectedHung,
}

/// What the last event of a session log says.
#[derive(Debug, Clone, Copy, PartialEq, Eq, Structural)]
pub enum SessionSignal {
    Completed,
    Waiting,
    Activity,
}

/// How many seconds the watchdog waits between two looks.
pub const WATCHDOG_SECONDS: u64 = 3;

/// For how many seconds after an activity Codex counts as working.
pub const WORKING_SECONDS: u64 = 90;

/// After how many seconds without activity a session is old rather than hung.
pub const HUNG_SECONDS: u64 = 600;

/// The status that follows from the process, the last signal and its age.
pub open spec fn status_of(
    codex_process_present: bool,
    signal: SessionSignal,
    seconds_since_activity: u64,
) -> MonitorStatus {
    if !codex_process_present {
        MonitorStatus::Offline
    } else {
        match signal {
            SessionSignal::Completed => MonitorStatus::Idle,
            SessionSignal::Waiting => MonitorStatus::Waiting,
            SessionSignal::Activity => if seconds_since_activity <= WORKING_SECONDS {
                MonitorStatus::Working
            } else if seconds_since_activity <= HUNG_SECONDS {
                MonitorStatus::SuspectedHung
            } else {
                MonitorStatus::Idle
            },
        }
    }
}

/// Decides what to show from the process, the last signal and its age.
pub fn classify_monitor_status(
    codex_process_present: bool,
    signal: SessionSignal,
    seconds_since_activity: u64,
) -> (status: MonitorStatus)
    ensures
        status == status_of(codex_process_present, signal, seconds_since_activity),
{
    if !codex_process_present {
        return MonitorStatus::Offline;
    }
    match signal {
        SessionSignal::Completed => MonitorStatus::Idle,
        SessionSignal::Waiting => MonitorStatus::Waiting,
        SessionSignal::Activity => {
            if seconds_since_activity <= WORKING_SECONDS {
                MonitorStatus::Working
            } else if seconds_since_activity <= HUNG_SECONDS {
                MonitorStatus::SuspectedHung
            } else {
                MonitorStatus::Idle
            }
        },
    }
}

impl MonitorStatus {
    /// The words that name the status.
    pub open spec fn words(self) -> Seq<char> {
        match self {
            MonitorStatus::Working => "Working"@,
            MonitorStatus::Waiting => "Waiting"@,
            MonitorStatus::Idle => "Idle"@,
            MonitorStatus::Offline => "Offline"@,
            MonitorStatus::SuspectedHung => "Suspected Hung"@,
        }
    }

    /// Names the status.
    pub fn label(self) -> (words: &'static str)
        ensures
            words@ == self.words(),
    {
        match self {
            MonitorStatus::Working => "Working",
            MonitorStatus::Waiting => "Waiting",
            MonitorStatus::Idle => "Idle",
            MonitorStatus::Offline => "Offline",
            MonitorStatus::SuspectedHung => "Suspected Hung",
        }
    }
}

/// What is known of the most recent session log.
#[derive(Debug, Clone, Copy, PartialEq, Eq, Structural)]
pub struct SessionReading {
    /// Seconds since the log was last written, if that can be told.
    pub age_seconds: Option<u64>,
    /// The signal of its last event, if there is one.
    pub signal: Option<SessionSignal>,
}

/// The status that follows from the process and the most recent session log:
/// what is not known counts as activity long ago.
pub open spec fn watchdog_status_of(
    codex_process_present: bool,
    session: Option<SessionReading>,
) -> MonitorStatus {
    match session {
        None => status_of(codex_process_present, SessionSignal::Activity, u64::MAX),
        Some(reading) => status_of(
            codex_process_present,
            match reading.signal {
                Some(signal) => signal,
                None => SessionSignal::Activity,
            },
            match reading.age_seconds {
                Some(seconds) => seconds,
                None => u64::MAX,
            },
        ),
    }
}

/// Decides what to show from the process and the most recent session log.
pub fn watchdog_status(codex_process_present: bool, session: Option<SessionReading>) -> (status:
    MonitorStatus)
    ensures
        status == watchdog_status_of(codex_process_present, session),
{
    match session {
        None => classify_monitor_status(codex_process_present, SessionSignal::Activity, u64::MAX),
        Some(reading) => {
            let signal = match reading.signal {
                Some(signal) => signal,
                None => SessionSignal::Activity,
            };
            let age_seconds: u64 = match reading.age_seconds {
                Some(seconds) => seconds,
                None => u64::MAX,
            };
            classify_monitor_status(codex_process_present, signal, age_seconds)
        },
    }
}

/// Codex is offline exactly where its process is absent.
pub proof fn law_offline_without_process(present: bool, signal: SessionSignal, seconds: u64)
    ensures
        status_of(present, signal, seconds) == MonitorStatus::Offline <==> !present,
{
}

/// Only activity that is neither recent nor old is suspected to hang: old work
/// is never claimed to hang.
pub proof fn law_old_work_is_not_hung(present: bool, signal: SessionSignal, seconds: u64)
    ensures
        status_of(present, signal, seconds) == MonitorStatus::SuspectedHung <==> present && signal
            == SessionSignal::Activity && WORKING_SECONDS < seconds <= HUNG_SECONDS,
{
}

/// A session of which nothing is known is never shown as working, waiting or
/// hung.
pub proof fn law_unknown_session_is_idle_or_offline(present: bool)
    ensures
        watchdog_status_of(present, None) == if present {
            MonitorStatus::Idle
        } else {
            MonitorStatus::Offline
        },
{
}

/// No two statuses have the same label.
pub proof fn law_labels_differ(left: MonitorStatus, right: MonitorStatus)
    requires
        left != right,
    ensures
        left.words() != right.words(),
{
    reveal_strlit("Working");
    reveal_strlit("Waiting");
    reveal_strlit("Idle");
    reveal_strlit("Offline");
    reveal_strlit("Suspected Hung");
    assert(left.words()[1] != right.words()[1]);
}

/// While the process is present the last signal decides, and the age counts
/// for activity alone: Codex waits exactly where the signal says so, works
/// exactly up to a minute and a half after an activity, hangs from there up to
/// ten minutes, and is idle after that and after every completed task.
pub proof fn law_signal_decides(present: bool, signal: SessionSignal, seconds: u64)
    ensures
        status_of(present, signal, seconds) == MonitorStatus::Waiting <==> present && signal
            == SessionSignal::Waiting,
        status_of(present, signal, seconds) == MonitorStatus::Working <==> present && signal
            == SessionSignal::Activity && seconds <= 90,
        status_of(present, signal, seconds) == MonitorStatus::SuspectedHung <==> present && signal
            == SessionSignal::Activity && 90 < seconds <= 600,
        status_of(present, signal, seconds) == MonitorStatus::Idle <==> present && (signal
            == SessionSignal::Completed || (signal == SessionSignal::Activity && seconds > 600)),
        status_of(present, signal, seconds) == MonitorStatus::Offline <==> !present,
{
}

/// A wait and a completed task do not age.
pub proof fn law_age_counts_only_for_activity(
    present: bool,
    signal: SessionSignal,
    one: u64,
    other: u64,
)
    requires
        signal != SessionSignal::Activity,
    ensures
        status_of(present, signal, one) == status_of(present, signal, other),
{
}

/// The watchdog goes by what the log says: a signal that is not known counts
/// as activity, an age that is not known as more than ten minutes.
pub proof fn law_watchdog_goes_by_the_log(present: bool, reading: SessionReading)
    ensures
        ({
            let status = watchdog_status_of(present, Some(reading));
            let active = reading.signal is None || reading.signal == Some(SessionSignal::Activity);
            &&& status == MonitorStatus::Offline <==> !present
            &&& status == MonitorStatus::Waiting <==> present && reading.signal == Some(
                SessionSignal::Waiting,
            )
            &&& status == MonitorStatus::Working <==> present && active && (
            reading.age_seconds matches Some(seconds) && seconds <= 90)
            &&& status == MonitorStatus::SuspectedHung <==> present && active && (
            reading.age_seconds matches Some(seconds) && 90 < seconds <= 600)
            &&& status == MonitorStatus::Idle <==> present && (reading.signal == Some(
                SessionSignal::Completed,
            ) || (active && (reading.age_seconds matches Some(seconds) ==> seconds > 600)))
        }),
{
}

/// Each label names its status and no other.
pub proof fn law_labels_name_the_status(status: MonitorStatus)
    ensures
        status.words() == "Working"@ <==> status == MonitorStatus::Working,
        status.words() == "Waiting"@ <==> status == MonitorStatus::Waiting,
        status.words() == "Idle"@ <==> status == MonitorStatus::Idle,
        status.words() == "Offline"@ <==> status == MonitorStatus::Offline,
        status.words() == "Suspected Hung"@ <==> status == MonitorStatus::SuspectedHung,
{
    assert forall|other: MonitorStatus| other != status implies #[trigger] other.words()
        != status.words() by {
        law_labels_differ(other, status);
    }
    assert(MonitorStatus::Working.words() == "Working"@);
    assert(MonitorStatus::Waiting.words() == "Waiting"@);
    assert(MonitorStatus::Idle.words() == "Idle"@);
    assert(MonitorStatus::Offline.words() == "Offline"@);
    assert(MonitorStatus::SuspectedHung.words() == "Suspected Hung"@);
}

} // verus!
