use windowscodexmonitor::session::{
    event_type, last_session_signal, last_signal, lists_codex_process, newest_session_file,
    session_directory_parts, signal_for, tail_start, SessionFile,
};
use windowscodexmonitor::SessionSignal;

#[test]
fn reads_the_type_of_an_event() {
    assert_eq!(
        event_type(r#"{"payload":{"type":"task_complete"}}"#),
        Some("task_complete".to_owned())
    );
    assert_eq!(
        event_type(r#" { "id": 7, "payload" : {"other":[1], "type":"caf\u00e9 \"x\""} } "#),
        Some("café \"x\"".to_owned())
    );
}

#[test]
fn finds_no_type_elsewhere() {
    for line in [
        "",
        "not json",
        r#"{"payload":{"type":"task_complete"}"#,
        r#"{"type":"task_complete"}"#,
        r#"{"payload":{"type":7}}"#,
        r#"{"payload":{"type":null}}"#,
        r#"{"payload":["type"]}"#,
        r#"["payload"]"#,
        r#"{"payload":"type"}"#,
    ] {
        assert_eq!(event_type(line), None, "on {line}");
    }
}

#[test]
fn tells_what_an_event_says() {
    assert_eq!(signal_for("task_complete"), SessionSignal::Completed);
    assert_eq!(signal_for("waitingOnApproval"), SessionSignal::Waiting);
    assert_eq!(signal_for("waitingOnUserInput"), SessionSignal::Waiting);
    assert_eq!(signal_for("agent_message"), SessionSignal::Activity);
    assert_eq!(signal_for(""), SessionSignal::Activity);
}

#[test]
fn the_last_event_decides() {
    let event = |kind: &str| Some(kind.to_owned());
    assert_eq!(last_signal(&vec![]), None);
    assert_eq!(last_signal(&vec![None, None]), None);
    assert_eq!(
        last_signal(&vec![event("task_complete"), event("agent_message")]),
        Some(SessionSignal::Activity)
    );
    assert_eq!(
        last_signal(&vec![event("agent_message"), event("waitingOnApproval"), None, None]),
        Some(SessionSignal::Waiting)
    );
}

#[test]
fn reads_the_tail_of_a_log() {
    let tail = "cut off\"}}\n\
        {\"payload\":{\"type\":\"agent_message\"}}\r\n\
        {\"payload\":{\"type\":\"task_complete\"}}\n\
        {\"payload\":{\"type\":\"agent_mes";
    assert_eq!(last_session_signal(tail), Some(SessionSignal::Completed));
    assert_eq!(last_session_signal("no event\n{}\n"), None);
    assert_eq!(last_session_signal(""), None);
    assert_eq!(
        last_session_signal(r#"{"payload":{"type":"waitingOnUserInput"}}"#),
        Some(SessionSignal::Waiting)
    );
}

#[test]
fn an_appended_line_decides_where_it_tells_an_event() {
    let log = "{\"payload\":{\"type\":\"agent_message\"}}\n";
    let complete = format!("{log}{{\"payload\":{{\"type\":\"task_complete\"}}}}\n");
    assert_eq!(last_session_signal(log), Some(SessionSignal::Activity));
    assert_eq!(last_session_signal(&complete), Some(SessionSignal::Completed));
    let silent = format!("{complete}{{\"payload\":{{}}}}\n");
    assert_eq!(last_session_signal(&silent), Some(SessionSignal::Completed));
}

#[test]
fn reads_at_most_the_last_bytes_of_a_log() {
    assert_eq!(tail_start(0), 0);
    assert_eq!(tail_start(65_535), 0);
    assert_eq!(tail_start(65_536), 0);
    assert_eq!(tail_start(65_537), 1);
    assert_eq!(tail_start(100_000), 34_464);
}

fn file(extension: Option<&str>, modified: Option<i128>) -> SessionFile {
    SessionFile { extension: extension.map(str::to_owned), modified }
}

#[test]
fn picks_the_log_written_last() {
    let files = vec![
        file(Some("jsonl"), Some(5)),
        file(Some("jsonl"), Some(9)),
        file(Some("txt"), Some(20)),
        file(None, Some(21)),
        file(Some("jsonl"), None),
        file(Some("jsonl"), Some(9)),
        file(Some("jsonl"), Some(-3)),
    ];
    assert_eq!(newest_session_file(&files), Some(1));
}

#[test]
fn picks_no_log_where_there_is_none() {
    assert_eq!(newest_session_file(&vec![]), None);
    assert_eq!(
        newest_session_file(&vec![file(Some("json"), Some(1)), file(Some("jsonl"), None)]),
        None
    );
}

#[test]
fn finds_codex_in_a_process_list() {
    assert!(lists_codex_process(b"\"codex.exe\",\"1234\",\"Console\""));
    assert!(lists_codex_process(b"\"Codex.EXE\",\"1234\""));
    assert!(lists_codex_process(b"codex.exe"));
    assert!(lists_codex_process(b"\xff\xc3codex.exe"));
    assert!(lists_codex_process(b"cocodex.exe"));
}

#[test]
fn finds_no_codex_in_other_lists() {
    assert!(!lists_codex_process(b""));
    assert!(!lists_codex_process(b"codex.ex"));
    assert!(!lists_codex_process(b"INFO: No tasks are running"));
    assert!(!lists_codex_process(b"codex\xff.exe"));
}

#[test]
fn knows_where_the_logs_are() {
    assert_eq!(session_directory_parts(), vec![".codex", "sessions"]);
}
