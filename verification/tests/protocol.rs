use serde_json::Value;
use windowscodexmonitor::double::Double;
use windowscodexmonitor::protocol::{
    next_step, on_event, on_line, opening_requests, read_message, Exchange, ExchangeEvent,
    ExchangeFailure, Message, Request, Step,
};
use windowscodexmonitor::quota::{
    RateLimitResponse, RateLimitResult, RateLimitWindow, RateLimits,
};
use windowscodexmonitor::WeeklyQuota;

fn weekly(used: f64) -> RateLimitResponse {
    RateLimitResponse {
        result: RateLimitResult {
            rate_limits: RateLimits {
                primary: Some(RateLimitWindow {
                    used_percent: Double { bits: used.to_bits() },
                    window_duration_mins: Some(10_080),
                    resets_at: Some(77),
                }),
            },
        },
    }
}

fn object(members: Vec<(&str, Value)>) -> Value {
    Value::Object(members.into_iter().map(|(key, value)| (key.to_owned(), value)).collect())
}

#[test]
fn writes_requests_as_json() {
    let info = object(vec![
        ("name", Value::from("windowscodexmonitor")),
        ("title", Value::from("Windows Codex Monitor")),
        ("version", Value::from("0.1.0 \"beta\"")),
    ]);
    let initialize = object(vec![
        ("method", Value::from("initialize")),
        ("id", Value::from(0)),
        ("params", object(vec![("clientInfo", info)])),
    ]);
    assert_eq!(Request::Initialize.line("0.1.0 \"beta\""), initialize.to_string());
    let initialized =
        object(vec![("method", Value::from("initialized")), ("params", object(vec![]))]);
    assert_eq!(Request::Initialized.line("0.1.0"), initialized.to_string());
    let read =
        object(vec![("method", Value::from("account/rateLimits/read")), ("id", Value::from(1))]);
    assert_eq!(Request::ReadRateLimits.line("0.1.0"), read.to_string());
}

#[test]
fn reads_messages() {
    assert_eq!(
        read_message(r#"{"id":1,"result":{}}"#),
        Ok(Message { id: Some(1), error: None })
    );
    assert_eq!(
        read_message(r#"{"error": {"message": "no", "code": -1}, "id": 1}"#),
        Ok(Message {
            id: Some(1),
            error: Some(r#"{"code":-1,"message":"no"}"#.to_owned())
        })
    );
    assert_eq!(
        read_message(r#"{"id":1,"error":null}"#),
        Ok(Message { id: Some(1), error: Some("null".to_owned()) })
    );
    for line in [r#"{"id":"1"}"#, r#"{"id":1.5}"#, r#"{"id":9223372036854775808}"#, "[]", "7"] {
        assert_eq!(read_message(line), Ok(Message { id: None, error: None }), "of {line}");
    }
}

#[test]
fn says_why_a_line_is_no_message() {
    let reason = serde_json::from_str::<Value>("not json").unwrap_err().to_string();
    assert_eq!(
        read_message("not json"),
        Err(format!("Invalid Codex response: {reason}"))
    );
}

fn refuse(_: &str) -> Result<RateLimitResponse, String> {
    panic!("nothing to decode")
}

#[test]
fn asks_for_the_limits_once_initialised() {
    assert_eq!(
        on_line(r#"{"id":0,"result":{}}"#, refuse),
        Step::Send(vec![Request::Initialized, Request::ReadRateLimits])
    );
}

#[test]
fn passes_over_other_messages() {
    assert_eq!(on_line(r#"{"method":"notice"}"#, refuse), Step::ReadOn);
    assert_eq!(on_line(r#"{"id":2,"error":"x"}"#, refuse), Step::ReadOn);
    assert_eq!(on_line(r#"{"id":-1}"#, refuse), Step::ReadOn);
}

#[test]
fn ends_with_an_unreadable_line() {
    let step = on_line("{", refuse);
    assert!(matches!(step, Step::Finish(Err(reason)) if reason.starts_with("Invalid Codex response: ")));
}

#[test]
fn ends_with_a_rejection() {
    assert_eq!(
        on_line(r#"{"id":1,"error":{"message":"no"}}"#, refuse),
        Step::Finish(Err(r#"Codex rejected usage request: {"message":"no"}"#.to_owned()))
    );
}

#[test]
fn ends_with_the_quota() {
    let line = r#"{"id":1,"result":{"x":1}}"#;
    let step = on_line(line, |json: &str| {
        assert_eq!(json, line);
        Ok(weekly(30.0))
    });
    assert_eq!(
        step,
        Step::Finish(Ok(WeeklyQuota { remaining_percent: 70, resets_at_unix_seconds: Some(77) }))
    );
}

#[test]
fn ends_with_the_error_of_the_quota() {
    let step = on_line(r#"{"id":1}"#, |_: &str| Err("missing field".to_owned()));
    assert_eq!(
        step,
        Step::Finish(Err("Codex returned invalid JSON: missing field".to_owned()))
    );
}

#[test]
fn a_message_that_could_not_be_read_ends_the_exchange() {
    assert_eq!(
        next_step(Err("reason".to_owned()), "", refuse),
        Step::Finish(Err("reason".to_owned()))
    );
}

#[test]
fn describes_every_exchange_failure() {
    let reason = || "why".to_owned();
    assert_eq!(ExchangeFailure::NotStarted(reason()).message(), "Could not start Codex: why");
    assert_eq!(ExchangeFailure::NoInput.message(), "Codex stdin was unavailable");
    assert_eq!(ExchangeFailure::NoOutput.message(), "Codex stdout was unavailable");
    assert_eq!(
        ExchangeFailure::NotWritten(reason()).message(),
        "Could not write Codex request: why"
    );
    assert_eq!(ExchangeFailure::NotSent(reason()).message(), "Could not send Codex request: why");
    assert_eq!(
        ExchangeFailure::NotRead(reason()).message(),
        "Could not read Codex response: why"
    );
    assert_eq!(
        ExchangeFailure::Closed.message(),
        "Codex closed before returning weekly usage"
    );
    assert_eq!(
        ExchangeFailure::TimedOut.message(),
        "Timed out waiting for Codex weekly usage"
    );
}

const INITIALISED: &str = r#"{"id":0,"result":{}}"#;
const NOTICE: &str = r#"{"method":"notice"}"#;
const USAGE: &str = r#"{"id":1,"result":{}}"#;

#[test]
fn opens_with_the_initialisation() {
    assert_eq!(opening_requests(), vec![Request::Initialize]);
}

#[test]
fn decides_on_events() {
    let decode = |_: &str| Ok(weekly(64.0));
    assert_eq!(on_event(ExchangeEvent::Line(NOTICE), decode), Step::ReadOn);
    assert_eq!(
        on_event(ExchangeEvent::Line(INITIALISED), decode),
        Step::Send(vec![Request::Initialized, Request::ReadRateLimits])
    );
    assert_eq!(
        on_event(ExchangeEvent::Failure(ExchangeFailure::Closed), decode),
        Step::Finish(Err("Codex closed before returning weekly usage".to_owned()))
    );
}

#[test]
fn the_first_result_is_the_answer() {
    let decode = |_: &str| Ok(weekly(64.0));
    let quota = WeeklyQuota { remaining_percent: 36, resets_at_unix_seconds: Some(77) };
    let mut exchange = Exchange::new();
    assert_eq!(exchange.handle(ExchangeEvent::Line(NOTICE), decode), vec![]);
    assert_eq!(
        exchange.handle(ExchangeEvent::Line(INITIALISED), decode),
        vec![Request::Initialized, Request::ReadRateLimits]
    );
    assert_eq!(exchange.answer, None);
    assert_eq!(exchange.handle(ExchangeEvent::Line(USAGE), decode), vec![]);
    assert_eq!(exchange.answer, Some(Ok(quota)));
    assert_eq!(exchange.handle(ExchangeEvent::Line("not json"), decode), vec![]);
    assert_eq!(exchange.handle(ExchangeEvent::Line(INITIALISED), decode), vec![]);
    assert_eq!(exchange.end(ExchangeFailure::TimedOut), Ok(quota));
}

#[test]
fn a_failure_is_an_answer() {
    let mut exchange = Exchange::new();
    let failure = ExchangeFailure::NotSent("pipe".to_owned());
    exchange.handle(ExchangeEvent::Failure(failure), refuse);
    exchange.handle(ExchangeEvent::Line(USAGE), |_: &str| Ok(weekly(1.0)));
    assert_eq!(
        exchange.end(ExchangeFailure::Closed),
        Err("Could not send Codex request: pipe".to_owned())
    );
}

#[test]
fn an_exchange_without_a_result_ends_with_what_ended_it() {
    for (failure, sentence) in [
        (ExchangeFailure::Closed, "Codex closed before returning weekly usage"),
        (ExchangeFailure::TimedOut, "Timed out waiting for Codex weekly usage"),
    ] {
        let mut exchange = Exchange::new();
        exchange.handle(ExchangeEvent::Line(INITIALISED), refuse);
        exchange.handle(ExchangeEvent::Line(NOTICE), refuse);
        assert_eq!(exchange.end(failure), Err(sentence.to_owned()));
    }
}
