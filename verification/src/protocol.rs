//! The exchange with the Codex app server.
//!
//! The monitor sends an initialisation, and once it is answered, a request for
//! the rate limits; the answer to that carries the usage.

use vstd::prelude::*;

use crate::json;
use crate::quota;
use crate::quota::{QuotaError, RateLimitResponse, WeeklyQuota};
use crate::text;

verus! {

broadcast use vstd::string::group_string_axioms;

/// The number under which the initialisation is answered.
pub const INITIALIZE_ID: i64 = 0;

/// The number under which the request for the rate limits is answered.
pub const RATE_LIMITS_ID: i64 = 1;

/// For how many seconds the monitor waits for the usage.
pub const ANSWER_SECONDS: u64 = 12;

/// What the monitor sends.
#[derive(Debug, Clone, Copy, PartialEq, Eq, Structural)]
pub enum Request {
    Initialize,
    Initialized,
    ReadRateLimits,
}

impl Request {
    /// The JSON text of a request; `version` is that of the monitor.
    pub open spec fn words(self, version: Seq<char>) -> Seq<char> {
        match self {
            Request::Initialize =>
                "{\"id\":0,\"method\":\"initialize\",\"params\":{\"clientInfo\":{\"name\":\"windowscodexmonitor\",\"title\":\"Windows Codex Monitor\",\"version\":"@
                    + json::json_quoted(version) + "}}}"@,
            Request::Initialized => "{\"method\":\"initialized\",\"params\":{}}"@,
            Request::ReadRateLimits => "{\"id\":1,\"method\":\"account/rateLimits/read\"}"@,
        }
    }

    /// Writes a request as a line of JSON, without the line feed.
    pub fn line(self, version: &str) -> (line: String)
        ensures
            line@ == self.words(version@),
    {
        match self {
            Request::Initialize => {
                let mut line = text::joined(
                    "{\"id\":0,\"method\":\"initialize\",\"params\":{\"clientInfo\":{\"name\":\"windowscodexmonitor\",\"title\":\"Windows Codex Monitor\",\"version\":",
                    json::quoted(version).as_str(),
                );
                line.append("}}}");
                line
            },
            Request::Initialized => "{\"method\":\"initialized\",\"params\":{}}".to_owned(),
            Request::ReadRateLimits => {
                "{\"id\":1,\"method\":\"account/rateLimits/read\"}".to_owned()
            },
        }
    }
}

/// What the monitor reads in a message of the app server.
#[derive(Debug, PartialEq)]
pub struct Message {
    /// The number of the request that it answers.
    pub id: Option<i64>,
    /// The error with which it answers, as JSON.
    pub error: Option<String>,
}

impl View for Message {
    type V = MessageView;

    open spec fn view(&self) -> MessageView {
        MessageView { id: self.id, error: json::optional_view(self.error) }
    }
}

/// The contents of a message.
pub struct MessageView {
    pub id: Option<i64>,
    pub error: Option<Seq<char>>,
}

/// What stands on a line: a message, or the reason why it is none.
pub open spec fn message_on(line: Seq<char>) -> Result<MessageView, Seq<char>> {
    match json::json_rejection(line) {
        Some(reason) => Err("Invalid Codex response: "@ + reason),
        None => Ok(
            MessageView {
                id: match json::json_member(line, "id"@) {
                    Some(id) => json::json_integer(id),
                    None => None,
                },
                error: json::json_member(line, "error"@),
            },
        ),
    }
}

/// The contents of a message that may be missing.
pub open spec fn message_view(message: Result<Message, String>) -> Result<
    MessageView,
    Seq<char>,
> {
    match message {
        Ok(message) => Ok(message@),
        Err(reason) => Err(reason@),
    }
}

/// Reads the message on a line.
pub fn read_message(line: &str) -> (message: Result<Message, String>)
    ensures
        message_view(message) == message_on(line@),
{
    match json::check_document(line) {
        Some(reason) => Err(text::joined("Invalid Codex response: ", reason.as_str())),
        None => {
            let id: Option<i64> = match json::member(line, "id") {
                Some(id) => json::integer_value(id.as_str()),
                None => None,
            };
            Ok(Message { id, error: json::member(line, "error") })
        },
    }
}

/// What the monitor does next.
#[derive(Debug, PartialEq)]
pub enum Step {
    /// Sends these requests, and reads on.
    Send(Vec<Request>),
    /// Reads on.
    ReadOn,
    /// Is done, with the quota or with the reason why there is none.
    Finish(Result<WeeklyQuota, String>),
}

/// The contents of a step.
pub enum StepView {
    Send(Seq<Request>),
    ReadOn,
    Finish(Result<WeeklyQuota, Seq<char>>),
}

impl View for Step {
    type V = StepView;

    open spec fn view(&self) -> StepView {
        match *self {
            Step::Send(requests) => StepView::Send(requests@),
            Step::ReadOn => StepView::ReadOn,
            Step::Finish(Ok(quota)) => StepView::Finish(Ok(quota)),
            Step::Finish(Err(reason)) => StepView::Finish(Err(reason@)),
        }
    }
}

/// Whether a message carries the usage: it answers the request for the rate
/// limits, and not with an error.
pub open spec fn carries_usage(message: Result<MessageView, Seq<char>>) -> bool {
    message matches Ok(message) && message.id == Some(RATE_LIMITS_ID) && message.error is None
}

/// What follows a message that does not carry the usage.
pub open spec fn step_after(message: Result<MessageView, Seq<char>>) -> StepView {
    match message {
        Err(reason) => StepView::Finish(Err(reason)),
        Ok(message) => if message.id == Some(INITIALIZE_ID) {
            StepView::Send(seq![Request::Initialized, Request::ReadRateLimits])
        } else if message.id == Some(RATE_LIMITS_ID) {
            StepView::Finish(
                Err("Codex rejected usage request: "@ + match message.error {
                    Some(error) => error,
                    None => Seq::empty(),
                }),
            )
        } else {
            StepView::ReadOn
        },
    }
}

/// What follows a message that carries the usage.
pub open spec fn step_after_usage(quota: Result<WeeklyQuota, QuotaError>) -> StepView {
    match quota {
        Ok(quota) => StepView::Finish(Ok(quota)),
        Err(error) => StepView::Finish(Err(error.sentence())),
    }
}

/// Decides what follows a message that stood on `line`. Where it carries the
/// usage, `decode` is handed that line.
pub fn next_step<F: Fn(&str) -> Result<RateLimitResponse, String>>(
    message: Result<Message, String>,
    line: &str,
    decode: F,
) -> (step: Step)
    requires
        decode.requires((line,)),
    ensures
        carries_usage(message_view(message)) ==> exists|
            decoded: Result<RateLimitResponse, String>,
        |
            decode.ensures((line,), decoded) && step@ == step_after_usage(
                #[trigger] quota::decoded_quota(decoded),
            ),
        !carries_usage(message_view(message)) ==> step@ == step_after(message_view(message)),
{
    let message = match message {
        Ok(message) => message,
        Err(reason) => {
            return Step::Finish(Err(reason));
        },
    };
    match message.id {
        Some(0) => {
            let mut requests: Vec<Request> = Vec::new();
            requests.push(Request::Initialized);
            requests.push(Request::ReadRateLimits);
            proof {
                assert(requests@ =~= seq![Request::Initialized, Request::ReadRateLimits]);
            }
            Step::Send(requests)
        },
        Some(1) => match message.error {
            Some(error) => Step::Finish(
                Err(text::joined("Codex rejected usage request: ", error.as_str())),
            ),
            None => match quota::parse_weekly_quota(line, decode) {
                Ok(quota) => Step::Finish(Ok(quota)),
                Err(error) => Step::Finish(Err(error.message())),
            },
        },
        _ => Step::ReadOn,
    }
}

/// Decides what follows a line of the app server.
pub fn on_line<F: Fn(&str) -> Result<RateLimitResponse, String>>(line: &str, decode: F) -> (step:
    Step)
    requires
        decode.requires((line,)),
    ensures
        carries_usage(message_on(line@)) ==> exists|decoded: Result<RateLimitResponse, String>|
            decode.ensures((line,), decoded) && step@ == step_after_usage(
                #[trigger] quota::decoded_quota(decoded),
            ),
        !carries_usage(message_on(line@)) ==> step@ == step_after(message_on(line@)),
{
    next_step(read_message(line), line, decode)
}

/// What can go wrong in the exchange besides the messages.
#[derive(Debug, PartialEq)]
pub enum ExchangeFailure {
    /// The app server could not be started; the text says why.
    NotStarted(String),
    /// There is nothing to write requests to.
    NoInput,
    /// There is nothing to read messages from.
    NoOutput,
    /// A request could not be written.
    NotWritten(String),
    /// A request was written and could not be sent.
    NotSent(String),
    /// A message could not be read.
    NotRead(String),
    /// The app server closed before it answered.
    Closed,
    /// The app server did not answer in time.
    TimedOut,
}

impl ExchangeFailure {
    /// The sentence that describes the failure.
    pub open spec fn sentence(self) -> Seq<char> {
        match self {
            ExchangeFailure::NotStarted(reason) => "Could not start Codex: "@ + reason@,
            ExchangeFailure::NoInput => "Codex stdin was unavailable"@,
            ExchangeFailure::NoOutput => "Codex stdout was unavailable"@,
            ExchangeFailure::NotWritten(reason) => "Could not write Codex request: "@ + reason@,
            ExchangeFailure::NotSent(reason) => "Could not send Codex request: "@ + reason@,
            ExchangeFailure::NotRead(reason) => "Could not read Codex response: "@ + reason@,
            ExchangeFailure::Closed => "Codex closed before returning weekly usage"@,
            ExchangeFailure::TimedOut => "Timed out waiting for Codex weekly usage"@,
        }
    }

    /// Describes the failure in a sentence.
    pub fn message(&self) -> (sentence: String)
        ensures
            sentence@ == self.sentence(),
    {
        match self {
            ExchangeFailure::NotStarted(reason) => text::joined(
                "Could not start Codex: ",
                reason.as_str(),
            ),
            ExchangeFailure::NoInput => "Codex stdin was unavailable".to_owned(),
            ExchangeFailure::NoOutput => "Codex stdout was unavailable".to_owned(),
            ExchangeFailure::NotWritten(reason) => text::joined(
                "Could not write Codex request: ",
                reason.as_str(),
            ),
            ExchangeFailure::NotSent(reason) => text::joined(
                "Could not send Codex request: ",
                reason.as_str(),
            ),
            ExchangeFailure::NotRead(reason) => text::joined(
                "Could not read Codex response: ",
                reason.as_str(),
            ),
            ExchangeFailure::Closed => "Codex closed before returning weekly usage".to_owned(),
            ExchangeFailure::TimedOut => "Timed out waiting for Codex weekly usage".to_owned(),
        }
    }
}

/// What the monitor sends to begin with.
pub fn opening_requests() -> (requests: Vec<Request>)
    ensures
        requests@ == seq![Request::Initialize],
{
    let requests: Vec<Request> = vec![Request::Initialize];
    proof {
        assert(requests@ =~= seq![Request::Initialize]);
    }
    requests
}

/// What happens in the exchange.
#[derive(Debug, PartialEq)]
pub enum ExchangeEvent<'a> {
    /// The app server wrote a line.
    Line(&'a str),
    /// Something went wrong, the output ended, or the time is up.
    Failure(ExchangeFailure),
}

/// What follows an event. Where it is a line that carries the usage, `decoded`
/// is what that line decodes to.
pub open spec fn step_on(
    event: ExchangeEvent,
    decoded: Result<RateLimitResponse, String>,
) -> StepView {
    match event {
        ExchangeEvent::Line(line) => if carries_usage(message_on(line@)) {
            step_after_usage(quota::decoded_quota(decoded))
        } else {
            step_after(message_on(line@))
        },
        ExchangeEvent::Failure(failure) => StepView::Finish(Err(failure.sentence())),
    }
}

/// Whether `decoded` may be what the line of an event decodes to. Only a line
/// that carries the usage is decoded.
pub open spec fn may_decode_to<F: Fn(&str) -> Result<RateLimitResponse, String>>(
    decode: F,
    event: ExchangeEvent,
    decoded: Result<RateLimitResponse, String>,
) -> bool {
    event matches ExchangeEvent::Line(line) ==> carries_usage(message_on(line@)) ==> decode.ensures(
        (line,),
        decoded,
    )
}

/// Decides what follows an event.
pub fn on_event<F: Fn(&str) -> Result<RateLimitResponse, String>>(
    event: ExchangeEvent,
    decode: F,
) -> (step: Step)
    requires
        event matches ExchangeEvent::Line(line) ==> decode.requires((line,)),
    ensures
        exists|decoded: Result<RateLimitResponse, String>|
            may_decode_to(decode, event, decoded) && step@ == #[trigger] step_on(event, decoded),
{
    match event {
        ExchangeEvent::Line(line) => {
            let step = on_line(line, decode);
            proof {
                if carries_usage(message_on(line@)) {
                    let decoded = choose|decoded: Result<RateLimitResponse, String>|
                        decode.ensures((line,), decoded) && step@ == step_after_usage(
                            #[trigger] quota::decoded_quota(decoded),
                        );
                    assert(may_decode_to(decode, event, decoded) && step@ == step_on(
                        event,
                        decoded,
                    ));
                } else {
                    let decoded = arbitrary();
                    assert(may_decode_to(decode, event, decoded) && step@ == step_on(
                        event,
                        decoded,
                    ));
                }
            }
            step
        },
        ExchangeEvent::Failure(failure) => {
            let step = Step::Finish(Err(failure.message()));
            proof {
                let decoded = arbitrary();
                assert(may_decode_to(decode, event, decoded) && step@ == step_on(event, decoded));
            }
            step
        },
    }
}

/// The exchange as far as it has come.
#[derive(Debug, PartialEq)]
pub struct Exchange {
    /// How it ended, once it has.
    pub answer: Option<Result<WeeklyQuota, String>>,
}

impl View for Exchange {
    type V = Option<Result<WeeklyQuota, Seq<char>>>;

    open spec fn view(&self) -> Option<Result<WeeklyQuota, Seq<char>>> {
        match self.answer {
            None => None,
            Some(Ok(quota)) => Some(Ok(quota)),
            Some(Err(reason)) => Some(Err(reason@)),
        }
    }
}

/// The answer after a step: the first that there is stands.
pub open spec fn answer_after(
    answer: Option<Result<WeeklyQuota, Seq<char>>>,
    step: StepView,
) -> Option<Result<WeeklyQuota, Seq<char>>> {
    match (answer, step) {
        (None, StepView::Finish(result)) => Some(result),
        _ => answer,
    }
}

/// What is sent after a step: nothing once there is an answer.
pub open spec fn requests_after(
    answer: Option<Result<WeeklyQuota, Seq<char>>>,
    step: StepView,
) -> Seq<Request> {
    match (answer, step) {
        (None, StepView::Send(requests)) => requests,
        _ => Seq::empty(),
    }
}

/// The answer after a list of steps.
pub open spec fn answer_of(steps: Seq<StepView>) -> Option<Result<WeeklyQuota, Seq<char>>>
    decreases steps.len(),
{
    if steps.len() == 0 {
        None
    } else {
        answer_after(answer_of(steps.drop_last()), steps.last())
    }
}

/// The steps that follow a list of events.
pub open spec fn steps_on(
    events: Seq<ExchangeEvent>,
    decoded: Seq<Result<RateLimitResponse, String>>,
) -> Seq<StepView> {
    Seq::new(events.len(), |i: int| step_on(events[i], decoded[i]))
}

impl Exchange {
    /// The exchange before anything was read.
    pub fn new() -> (exchange: Self)
        ensures
            exchange@ is None,
    {
        Exchange { answer: None }
    }

    /// Takes in an event, and says what to send. The first answer stands.
    pub fn handle<F: Fn(&str) -> Result<RateLimitResponse, String>>(
        &mut self,
        event: ExchangeEvent,
        decode: F,
    ) -> (requests: Vec<Request>)
        requires
            event matches ExchangeEvent::Line(line) ==> decode.requires((line,)),
        ensures
            exists|decoded: Result<RateLimitResponse, String>|
                may_decode_to(decode, event, decoded) && final(self)@ == answer_after(
                    old(self)@,
                    #[trigger] step_on(event, decoded),
                ) && requests@ == requests_after(old(self)@, step_on(event, decoded)),
    {
        let ghost before = self@;
        let step = on_event(event, decode);
        let ghost seen = step@;
        let answered: bool = self.answer.is_some();
        let mut requests: Vec<Request> = Vec::new();
        if !answered {
            match step {
                Step::Send(more) => {
                    requests = more;
                },
                Step::ReadOn => {},
                Step::Finish(result) => {
                    self.answer = Some(result);
                },
            }
        }
        proof {
            assert(self@ == answer_after(before, seen));
            assert(requests@ =~= requests_after(before, seen));
        }
        requests
    }

    /// Ends the exchange: with the answer, where there is one, else with what
    /// ended it.
    pub fn end(self, failure: ExchangeFailure) -> (result: Result<WeeklyQuota, String>)
        ensures
            match result {
                Ok(quota) => self@ == Some(Ok::<WeeklyQuota, Seq<char>>(quota)),
                Err(reason) => self@ == Some(Err::<WeeklyQuota, Seq<char>>(reason@)) || (self@ is None
                    && reason@ == failure.sentence()),
            },
    {
        match self.answer {
            Some(answer) => answer,
            None => Err(failure.message()),
        }
    }
}

/// The first event that gives a result decides the exchange, whatever follows.
pub proof fn law_first_result_is_the_answer(
    events: Seq<ExchangeEvent>,
    decoded: Seq<Result<RateLimitResponse, String>>,
    first: int,
    result: Result<WeeklyQuota, Seq<char>>,
)
    requires
        events.len() == decoded.len(),
        0 <= first < events.len(),
        forall|i: int|
            0 <= i < first ==> !((#[trigger] step_on(events[i], decoded[i])) is Finish),
        step_on(events[first], decoded[first]) == StepView::Finish(result),
    ensures
        answer_of(steps_on(events, decoded)) == Some(result),
    decreases events.len(),
{
    let steps = steps_on(events, decoded);
    let earlier = steps_on(events.drop_last(), decoded.drop_last());
    assert(steps.drop_last() =~= earlier);
    if first == events.len() - 1 {
        assert forall|i: int| 0 <= i < earlier.len() implies !(#[trigger] earlier[i] is Finish) by {
            assert(!(step_on(events[i], decoded[i]) is Finish));
        }
        lemma_no_result_no_answer(earlier);
    } else {
        assert forall|i: int| 0 <= i < first implies !((#[trigger] step_on(
            events.drop_last()[i],
            decoded.drop_last()[i],
        )) is Finish) by {
            assert(!(step_on(events[i], decoded[i]) is Finish));
        }
        law_first_result_is_the_answer(events.drop_last(), decoded.drop_last(), first, result);
    }
}

proof fn lemma_no_result_no_answer(steps: Seq<StepView>)
    requires
        forall|i: int| 0 <= i < steps.len() ==> !(#[trigger] steps[i] is Finish),
    ensures
        answer_of(steps) is None,
    decreases steps.len(),
{
    if steps.len() > 0 {
        lemma_no_result_no_answer(steps.drop_last());
    }
}

/// Where no line gives a result, the exchange has no answer before its output
/// ends or the time is up, and ends with the sentence for that.
pub proof fn law_unanswered_exchange_fails(
    events: Seq<ExchangeEvent>,
    decoded: Seq<Result<RateLimitResponse, String>>,
    failure: ExchangeFailure,
    any: Result<RateLimitResponse, String>,
)
    requires
        events.len() == decoded.len(),
        forall|i: int|
            0 <= i < events.len() ==> !((#[trigger] step_on(events[i], decoded[i])) is Finish),
    ensures
        answer_of(steps_on(events, decoded)) is None,
        answer_of(
            steps_on(events.push(ExchangeEvent::Failure(failure)), decoded.push(any)),
        ) == Some(Err::<WeeklyQuota, Seq<char>>(failure.sentence())),
{
    let steps = steps_on(events, decoded);
    assert forall|i: int| 0 <= i < steps.len() implies !(#[trigger] steps[i] is Finish) by {
        assert(!(step_on(events[i], decoded[i]) is Finish));
    }
    lemma_no_result_no_answer(steps);
    let all = steps_on(events.push(ExchangeEvent::Failure(failure)), decoded.push(any));
    assert(all.drop_last() =~= steps);
}

/// The rate limits are asked for only once the initialisation is answered.
pub proof fn law_limits_are_asked_after_initialisation(message: Result<MessageView, Seq<char>>)
    ensures
        step_after(message) is Send <==> (message matches Ok(answer) && answer.id == Some(
            INITIALIZE_ID,
        )),
{
}

/// A message that answers neither request changes nothing.
pub proof fn law_other_messages_are_passed_over(message: MessageView)
    requires
        message.id != Some(INITIALIZE_ID),
        message.id != Some(RATE_LIMITS_ID),
    ensures
        !carries_usage(Ok(message)),
        step_after(Ok(message)) is ReadOn,
{
}

/// The exchange ends with a quota only by a message that carries the usage.
pub proof fn law_only_usage_gives_a_quota(message: Result<MessageView, Seq<char>>)
    requires
        !carries_usage(message),
    ensures
        !(step_after(message) matches StepView::Finish(Ok(_))),
{
}

/// A message carries the usage exactly where it answers the second request and
/// has no error in it.
pub proof fn law_usage_comes_with_the_second_answer(message: Result<MessageView, Seq<char>>)
    ensures
        carries_usage(message) <==> (message matches Ok(answer) && answer.id == Some(1i64)
            && answer.error is None),
{
}

/// A message that carries the usage always ends the exchange: with exactly the
/// quota that its line decodes to, whatever that is, else with the sentence of
/// the error. It is never followed by reading on.
pub proof fn law_usage_ends_the_exchange(decoded: Result<RateLimitResponse, String>)
    ensures
        ({
            let step = step_after_usage(quota::decoded_quota(decoded));
            &&& step is Finish
            &&& decoded matches Ok(response) ==> (quota::quota_of(response) matches Ok(quota)
                ==> step == StepView::Finish(Ok(quota)))
            &&& decoded matches Ok(response) ==> (quota::quota_of(response) matches Err(error)
                ==> step == StepView::Finish(Err(error.sentence())))
            &&& decoded matches Err(reason) ==> step == StepView::Finish(
                Err("Codex returned invalid JSON: "@ + reason@),
            )
        }),
{
}

/// The second answer ends the exchange on whatever line it stands: with the
/// quota where the line decodes to one, with the error that it brings, or with
/// the sentence for what is wrong with the usage.
pub proof fn law_second_answer_ends_the_exchange(
    line: &str,
    id: Seq<char>,
    decoded: Result<RateLimitResponse, String>,
)
    requires
        json::json_rejection(line@) is None,
        json::json_member(line@, "id"@) == Some(id),
        json::json_integer(id) == Some(1i64),
    ensures
        ({
            let step = step_on(ExchangeEvent::Line(line), decoded);
            match json::json_member(line@, "error"@) {
                Some(error) => step == StepView::Finish(
                    Err("Codex rejected usage request: "@ + error),
                ),
                None => match decoded {
                    Err(reason) => step == StepView::Finish(
                        Err("Codex returned invalid JSON: "@ + reason@),
                    ),
                    Ok(response) => match quota::quota_of(response) {
                        Ok(quota) => step == StepView::Finish(Ok(quota)),
                        Err(error) => step == StepView::Finish(Err(error.sentence())),
                    },
                },
            }
        }),
{
}

/// A line that is no message ends the exchange, the first answer is followed by
/// the two further requests in their order, and every line that is neither of
/// the two answers is passed over.
pub proof fn law_other_lines(line: &str, decoded: Result<RateLimitResponse, String>)
    ensures
        ({
            let step = step_on(ExchangeEvent::Line(line), decoded);
            let id = match json::json_member(line@, "id"@) {
                Some(id) => json::json_integer(id),
                None => None,
            };
            &&& json::json_rejection(line@) matches Some(reason) ==> step == StepView::Finish(
                Err("Invalid Codex response: "@ + reason),
            )
            &&& json::json_rejection(line@) is None && id == Some(0i64) ==> (
            step matches StepView::Send(requests) && requests.len() == 2 && requests[0]
                == Request::Initialized && requests[1] == Request::ReadRateLimits)
            &&& json::json_rejection(line@) is None && id != Some(0i64) && id != Some(1i64)
                ==> step is ReadOn
        }),
{
}

/// A message is what stands under `id` and `error` of a line that is JSON.
pub proof fn law_message_on_a_line(line: Seq<char>)
    ensures
        message_on(line) is Ok <==> json::json_rejection(line) is None,
        message_on(line) matches Ok(message) ==> {
            &&& message.error == json::json_member(line, "error"@)
            &&& json::json_member(line, "id"@) is None ==> message.id is None
            &&& json::json_member(line, "id"@) matches Some(id) ==> message.id
                == json::json_integer(id)
        },
        message_on(line) matches Err(reason) ==> reason == "Invalid Codex response: "@
            + json::json_rejection(line)->0,
{
}

/// Whatever goes wrong ends the exchange with its sentence.
pub proof fn law_failure_ends_the_exchange(
    failure: ExchangeFailure,
    decoded: Result<RateLimitResponse, String>,
)
    ensures
        step_on(ExchangeEvent::Failure(failure), decoded) == StepView::Finish(
            Err(failure.sentence()),
        ),
{
}

/// Once there is an answer nothing changes it and nothing more is sent; until
/// then a step that sends is followed by just its requests, and only a step that
/// finishes gives an answer.
pub proof fn law_answer_stands(
    answer: Option<Result<WeeklyQuota, Seq<char>>>,
    step: StepView,
)
    ensures
        answer is Some ==> answer_after(answer, step) == answer && requests_after(
            answer,
            step,
        ).len() == 0,
        answer is None ==> (step matches StepView::Send(requests) ==> requests_after(answer, step)
            == requests),
        !(step is Send) ==> requests_after(answer, step).len() == 0,
        answer is None ==> (answer_after(answer, step) is Some <==> step is Finish),
        answer is None ==> (step matches StepView::Finish(result) ==> answer_after(answer, step)
            == Some(result)),
{
}

/// Only what a line that carries the usage really decodes to counts as such.
pub proof fn law_usage_is_decoded<F: Fn(&str) -> Result<RateLimitResponse, String>>(
    decode: F,
    line: &str,
    decoded: Result<RateLimitResponse, String>,
)
    requires
        carries_usage(message_on(line@)),
        may_decode_to(decode, ExchangeEvent::Line(line), decoded),
    ensures
        decode.ensures((line,), decoded),
{
}

/// The texts of the requests: the first names the monitor and its version and
/// is numbered nought, the last is numbered one.
pub proof fn law_request_texts(version: Seq<char>)
    ensures
        Request::Initialize.words(version)
            == "{\"id\":0,\"method\":\"initialize\",\"params\":{\"clientInfo\":{\"name\":\"windowscodexmonitor\",\"title\":\"Windows Codex Monitor\",\"version\":"@
            + json::json_quoted(version) + "}}}"@,
        Request::Initialized.words(version) == "{\"method\":\"initialized\",\"params\":{}}"@,
        Request::ReadRateLimits.words(version)
            == "{\"id\":1,\"method\":\"account/rateLimits/read\"}"@,
{
}

/// The sentences of the failures: each keeps its reason.
pub proof fn law_failure_sentences(reason: String)
    ensures
        ExchangeFailure::NotStarted(reason).sentence() == "Could not start Codex: "@ + reason@,
        ExchangeFailure::NoInput.sentence() == "Codex stdin was unavailable"@,
        ExchangeFailure::NoOutput.sentence() == "Codex stdout was unavailable"@,
        ExchangeFailure::NotWritten(reason).sentence() == "Could not write Codex request: "@
            + reason@,
        ExchangeFailure::NotSent(reason).sentence() == "Could not send Codex request: "@ + reason@,
        ExchangeFailure::NotRead(reason).sentence() == "Could not read Codex response: "@ + reason@,
        ExchangeFailure::Closed.sentence() == "Codex closed before returning weekly usage"@,
        ExchangeFailure::TimedOut.sentence() == "Timed out waiting for Codex weekly usage"@,
{
}

/// The views of messages, steps and exchanges hold all that these hold.
pub proof fn law_views_hold_everything(message: Message, step: Step, exchange: Exchange)
    ensures
        message@.id == message.id,
        message@.error is None <==> message.error is None,
        message.error matches Some(error) ==> message@.error == Some(error@),
        match step {
            Step::Send(requests) => step@ == StepView::Send(requests@),
            Step::ReadOn => step@ is ReadOn,
            Step::Finish(Ok(quota)) => step@ == StepView::Finish(Ok(quota)),
            Step::Finish(Err(reason)) => step@ == StepView::Finish(Err(reason@)),
        },
        match exchange.answer {
            None => exchange@ is None,
            Some(Ok(quota)) => exchange@ == Some(Ok::<WeeklyQuota, Seq<char>>(quota)),
            Some(Err(reason)) => exchange@ == Some(Err::<WeeklyQuota, Seq<char>>(reason@)),
        },
{
}

} // verus!
