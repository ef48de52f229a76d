//! Records of what decision providers were asked and answered; never credentials.
use crate::copy::Dup;
use crate::json::{Json, JsonModel};
use crate::kernel::{Decision, DecisionModel};
use crate::text::Text;
use crate::wire::{decision_json, decision_to_json};
use vstd::prelude::*;

verus! {

/// One thing that happened while a decision was made.
#[derive(Debug)]
pub enum LogEvent {
    Request(Json),
    Response(Json),
    Decision(Decision),
    Error(String),
    ManualInput(Json),
    ManualDecision(Decision),
    ManualError(String),
}

#[verifier::ext_equal]
pub enum LogEventModel {
    Request(JsonModel),
    Response(JsonModel),
    Decision(DecisionModel),
    Error(Text),
    ManualInput(JsonModel),
    ManualDecision(DecisionModel),
    ManualError(Text),
}

impl View for LogEvent {
    type V = LogEventModel;

    open spec fn view(&self) -> LogEventModel {
        match self {
            LogEvent::Request(a) => LogEventModel::Request(a@),
            LogEvent::Response(a) => LogEventModel::Response(a@),
            LogEvent::Decision(a) => LogEventModel::Decision(a@),
            LogEvent::Error(a) => LogEventModel::Error(a@),
            LogEvent::ManualInput(a) => LogEventModel::ManualInput(a@),
            LogEvent::ManualDecision(a) => LogEventModel::ManualDecision(a@),
            LogEvent::ManualError(a) => LogEventModel::ManualError(a@),
        }
    }
}

impl DeepView for LogEvent {
    type V = LogEventModel;

    open spec fn deep_view(&self) -> LogEventModel {
        self@
    }
}

impl Dup for LogEvent {
    fn dup(&self) -> (r: Self) {
        match self {
            LogEvent::Request(a) => LogEvent::Request(a.dup()),
            LogEvent::Response(a) => LogEvent::Response(a.dup()),
            LogEvent::Decision(a) => LogEvent::Decision(a.dup()),
            LogEvent::Error(a) => LogEvent::Error(a.dup()),
            LogEvent::ManualInput(a) => LogEvent::ManualInput(a.dup()),
            LogEvent::ManualDecision(a) => LogEvent::ManualDecision(a.dup()),
            LogEvent::ManualError(a) => LogEvent::ManualError(a.dup()),
        }
    }
}

impl LogEventModel {
    /// An envelope with what happened in it.
    pub open spec fn inside(self, envelope: JsonModel) -> JsonModel {
        match self {
            LogEventModel::Request(x) => envelope.with("event"@, JsonModel::Text("model_request"@)).with(
                "body"@,
                x,
            ),
            LogEventModel::Response(x) => envelope.with("event"@, JsonModel::Text("model_response"@)).with(
                "body"@,
                x,
            ),
            LogEventModel::Decision(x) => envelope.with("event"@, JsonModel::Text("model_decision"@)).with(
                "decision"@,
                decision_json(x),
            ),
            LogEventModel::Error(x) => envelope.with("event"@, JsonModel::Text("model_error"@)).with(
                "message"@,
                JsonModel::Text(x),
            ),
            LogEventModel::ManualInput(x) => envelope.with("event"@, JsonModel::Text("manual_input"@)).with(
                "body"@,
                x,
            ),
            LogEventModel::ManualDecision(x) => envelope.with("event"@, JsonModel::Text("manual_decision"@)).with(
                "decision"@,
                decision_json(x),
            ),
            LogEventModel::ManualError(x) => envelope.with("event"@, JsonModel::Text("manual_error"@)).with(
                "message"@,
                JsonModel::Text(x),
            ),
        }
    }
}

/// Whose records these are.
#[derive(Debug)]
pub struct DecisionLog {
    pub provider: String,
    pub session_id: String,
    pub task_id: Option<String>,
    pub request_id: u64,
}

#[verifier::ext_equal]
pub struct DecisionLogModel {
    pub provider: Text,
    pub session_id: Text,
    pub task_id: Option<Text>,
    pub request_id: u64,
}

impl View for DecisionLog {
    type V = DecisionLogModel;

    open spec fn view(&self) -> DecisionLogModel {
        DecisionLogModel {
            provider: self.provider@,
            session_id: self.session_id@,
            task_id: self.task_id.deep_view(),
            request_id: self.request_id,
        }
    }
}

impl DecisionLogModel {
    /// A record.
    pub open spec fn record(self, timestamp_ms: u64, event: LogEventModel) -> JsonModel {
        event.inside(
            JsonModel::empty().with("timestamp_ms"@, JsonModel::Unsigned(timestamp_ms)).with(
                "provider"@,
                JsonModel::Text(self.provider),
            ).with("session_id"@, JsonModel::Text(self.session_id)).with(
                "task_id"@,
                match self.task_id {
                    Some(id) => JsonModel::Text(id),
                    None => JsonModel::Null,
                },
            ).with("request_id"@, JsonModel::Unsigned(self.request_id)),
        )
    }
}

impl DecisionLog {
    /// The records of a provider, in a session to which the host gives a name of its own.
    pub fn new(provider: &str, session_id: String) -> (r: Self)
        ensures
            r@ == (DecisionLogModel {
                provider: provider@,
                session_id: session_id@,
                task_id: None,
                request_id: 0,
            }),
    {
        DecisionLog { provider: provider.to_owned(), session_id, task_id: None, request_id: 0 }
    }

    /// One more decision is asked for.
    pub fn next_request(&mut self)
        requires
            old(self)@.request_id < u64::MAX,
        ensures
            final(self)@ == (DecisionLogModel {
                request_id: (old(self)@.request_id + 1) as u64,
                ..old(self)@
            }),
    {
        self.request_id = self.request_id + 1;
    }

    /// The records are those of a task from now on, whose requests are counted anew.
    pub fn bind_task(&mut self, task_id: &str)
        ensures
            final(self)@ == (DecisionLogModel {
                task_id: Some(task_id@),
                request_id: 0,
                ..old(self)@
            }),
    {
        self.task_id = Some(task_id.to_owned());
        self.request_id = 0;
    }

    /// A record, as one line of the log holds it.
    pub fn record(&self, timestamp_ms: u64, event: &LogEvent) -> (r: Json)
        ensures
            r@ == self@.record(timestamp_ms, event@),
    {
        let mut o: Json = Json::object();
        o.set("timestamp_ms", Json::Unsigned(timestamp_ms));
        o.set("provider", Json::text(self.provider.as_str()));
        o.set("session_id", Json::text(self.session_id.as_str()));
        o.set(
            "task_id",
            match &self.task_id {
                Some(id) => Json::text(id.as_str()),
                None => Json::Null,
            },
        );
        o.set("request_id", Json::Unsigned(self.request_id));
        match event {
            LogEvent::Request(x) => {
                o.set("event", Json::text("model_request"));
                o.set("body", x.dup());
            },
            LogEvent::Response(x) => {
                o.set("event", Json::text("model_response"));
                o.set("body", x.dup());
            },
            LogEvent::Decision(x) => {
                o.set("event", Json::text("model_decision"));
                o.set("decision", decision_to_json(x));
            },
            LogEvent::Error(x) => {
                o.set("event", Json::text("model_error"));
                o.set("message", Json::text(x.as_str()));
            },
            LogEvent::ManualInput(x) => {
                o.set("event", Json::text("manual_input"));
                o.set("body", x.dup());
            },
            LogEvent::ManualDecision(x) => {
                o.set("event", Json::text("manual_decision"));
                o.set("decision", decision_to_json(x));
            },
            LogEvent::ManualError(x) => {
                o.set("event", Json::text("manual_error"));
                o.set("message", Json::text(x.as_str()));
            },
        }
        o
    }
}

/// A record says whose it is and when it was made, and holds what happened: bodies as they were
/// sent or received, decisions, and the messages of errors.
pub proof fn records_say_what_happened(
    log: DecisionLogModel,
    timestamp_ms: u64,
    event: LogEventModel,
)
    ensures
        ({
            let record = log.record(timestamp_ms, event);
            &&& record.at("timestamp_ms"@) == JsonModel::Unsigned(timestamp_ms)
            &&& record.at("provider"@) == JsonModel::Text(log.provider)
            &&& record.at("session_id"@) == JsonModel::Text(log.session_id)
            &&& record.at("task_id"@) == match log.task_id {
                Some(id) => JsonModel::Text(id),
                None => JsonModel::Null,
            }
            &&& record.at("request_id"@) == JsonModel::Unsigned(log.request_id)
            &&& match event {
                LogEventModel::Request(body) => record.at("event"@) == JsonModel::Text(
                    "model_request"@,
                ) && record.at("body"@) == body,
                LogEventModel::Response(body) => record.at("event"@) == JsonModel::Text(
                    "model_response"@,
                ) && record.at("body"@) == body,
                LogEventModel::Decision(decision) => record.at("event"@) == JsonModel::Text(
                    "model_decision"@,
                ) && record.at("decision"@) == decision_json(decision),
                LogEventModel::Error(message) => record.at("event"@) == JsonModel::Text(
                    "model_error"@,
                ) && record.at("message"@) == JsonModel::Text(message),
                LogEventModel::ManualInput(body) => record.at("event"@) == JsonModel::Text(
                    "manual_input"@,
                ) && record.at("body"@) == body,
                LogEventModel::ManualDecision(decision) => record.at("event"@) == JsonModel::Text(
                    "manual_decision"@,
                ) && record.at("decision"@) == decision_json(decision),
                LogEventModel::ManualError(message) => record.at("event"@) == JsonModel::Text(
                    "manual_error"@,
                ) && record.at("message"@) == JsonModel::Text(message),
            }
        }),
{
    reveal_strlit("timestamp_ms");
    reveal_strlit("provider");
    reveal_strlit("session_id");
    reveal_strlit("task_id");
    reveal_strlit("request_id");
    reveal_strlit("event");
    reveal_strlit("body");
    reveal_strlit("decision");
    reveal_strlit("message");
    assert("timestamp_ms"@.len() == 12);
    assert("provider"@.len() == 8);
    assert("session_id"@.len() == 10);
    assert("task_id"@.len() == 7);
    assert("request_id"@.len() == 10);
    assert("event"@.len() == 5);
    assert("body"@.len() == 4);
    assert("decision"@.len() == 8);
    assert("message"@.len() == 7);
    assert("provider"@[0] == 'p' && "decision"@[0] == 'd');
    assert("session_id"@[0] == 's' && "request_id"@[0] == 'r');
    assert("task_id"@[0] == 't' && "message"@[0] == 'm');
}

} // verus!
