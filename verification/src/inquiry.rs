//! One question to a model: recorded before it is sent, and answered only by what was offered.
use crate::copy::Dup;
use crate::diagnostics::{LogEvent, LogEventModel};
use crate::jev::{evaluate, evaluated, judge, judged, Transfer, TransferModel};
use crate::json::{parsed, Json, JsonModel};
use crate::kernel::{Decision, DecisionModel, Error, ErrorModel};
use crate::text::Text;
use vstd::prelude::*;

verus! {

/// What a reply of the service with a status is: refused unless the status says success, and
/// then read as JSON. What a refusal says beside its status is not looked at.
pub open spec fn received(code: u16, status: Text, body: Option<Text>) -> TransferModel {
    if !(200 <= code < 300) {
        TransferModel::Refused(status)
    } else {
        match body {
            None => TransferModel::Malformed,
            Some(text) => match parsed(text) {
                None => TransferModel::Malformed,
                Some(value) => TransferModel::Body(value),
            },
        }
    }
}

/// What a reply of the service is. The status comes as a number and as it is shown; the body is
/// there where it is a text.
pub fn receive(code: u16, status: String, body: Option<&str>) -> (r: Transfer)
    ensures
        r@ == received(
            code,
            status@,
            match body {
                Some(text) => Some(text@),
                None => None,
            },
        ),
{
    if code < 200 || code >= 300 {
        return Transfer::Refused(status);
    }
    match body {
        None => Transfer::Malformed,
        Some(text) => match Json::parse(text) {
            None => Transfer::Malformed,
            Some(value) => Transfer::Body(value),
        },
    }
}

/// How far an inquiry is.
#[derive(Debug)]
pub enum Stage {
    /// The request is to be recorded.
    Asking,
    /// The request is to be sent.
    Sending,
    /// An answer is to be recorded.
    Heard(Json),
    /// The decision is to be recorded.
    Decided(Decision),
    /// An error is to be recorded.
    Failed(Error),
    Done(Result<Decision, Error>),
}

#[verifier::ext_equal]
pub enum StageModel {
    Asking,
    Sending,
    Heard(JsonModel),
    Decided(DecisionModel),
    Failed(ErrorModel),
    Done(Result<DecisionModel, ErrorModel>),
}

impl View for Stage {
    type V = StageModel;

    open spec fn view(&self) -> StageModel {
        match self {
            Stage::Asking => StageModel::Asking,
            Stage::Sending => StageModel::Sending,
            Stage::Heard(body) => StageModel::Heard(body@),
            Stage::Decided(decision) => StageModel::Decided(decision@),
            Stage::Failed(error) => StageModel::Failed(error@),
            Stage::Done(Ok(decision)) => StageModel::Done(Ok(decision@)),
            Stage::Done(Err(error)) => StageModel::Done(Err(error@)),
        }
    }
}

/// What an inquiry waits for.
#[derive(Debug)]
pub enum Want {
    /// A record to be written and flushed.
    Record(LogEvent),
    /// The request to be sent.
    Send,
    Nothing,
}

/// What an inquiry waits for, as contracts see it.
#[verifier::ext_equal]
pub enum WantModel {
    Record(LogEventModel),
    Send,
    Nothing,
}

impl View for Want {
    type V = WantModel;

    open spec fn view(&self) -> WantModel {
        match self {
            Want::Record(event) => WantModel::Record(event@),
            Want::Send => WantModel::Send,
            Want::Nothing => WantModel::Nothing,
        }
    }
}

/// A question to a model.
#[derive(Debug)]
pub struct Inquiry {
    request: Json,
    candidates: Vec<Decision>,
    stage: Stage,
    answered: bool,
}

#[verifier::ext_equal]
pub struct InquiryModel {
    pub request: JsonModel,
    pub candidates: Seq<DecisionModel>,
    pub stage: StageModel,
    /// Whether the service gave a decision that was offered.
    pub answered: bool,
}

impl View for Inquiry {
    type V = InquiryModel;

    closed spec fn view(&self) -> InquiryModel {
        InquiryModel {
            request: self.request@,
            candidates: self.candidates.deep_view(),
            stage: self.stage@,
            answered: self.answered,
        }
    }
}

impl InquiryModel {
    /// An inquiry of which nothing was recorded or sent.
    pub open spec fn fresh(request: JsonModel, candidates: Seq<DecisionModel>) -> Self {
        InquiryModel { request, candidates, stage: StageModel::Asking, answered: false }
    }

    pub open spec fn at(self, stage: StageModel) -> Self {
        InquiryModel { stage, ..self }
    }

    pub open spec fn want(self) -> WantModel {
        match self.stage {
            StageModel::Asking => WantModel::Record(LogEventModel::Request(self.request)),
            StageModel::Sending => WantModel::Send,
            StageModel::Heard(body) => WantModel::Record(LogEventModel::Response(body)),
            StageModel::Decided(decision) => WantModel::Record(LogEventModel::Decision(decision)),
            StageModel::Failed(error) => WantModel::Record(LogEventModel::Error(error.message())),
            StageModel::Done(_) => WantModel::Nothing,
        }
    }

    /// A record was written, or why it was not: then the inquiry fails, and says so once more.
    pub open spec fn on_recorded(self, lost: Option<Text>) -> Self {
        match (self.stage, lost) {
            (StageModel::Sending, _) | (StageModel::Done(_), _) => self,
            (StageModel::Failed(error), None) => self.at(StageModel::Done(Err(error))),
            (StageModel::Failed(_), Some(reason)) => self.at(
                StageModel::Done(Err(ErrorModel::Logging(reason))),
            ),
            (_, Some(reason)) => self.at(StageModel::Failed(ErrorModel::Logging(reason))),
            (StageModel::Asking, None) => self.at(StageModel::Sending),
            (StageModel::Heard(body), None) => match judged(self.request, body, self.candidates) {
                Ok(decision) => InquiryModel {
                    answered: true,
                    ..self.at(StageModel::Decided(decision))
                },
                Err(error) => self.at(StageModel::Failed(error)),
            },
            (StageModel::Decided(decision), None) => self.at(StageModel::Done(Ok(decision))),
        }
    }

    /// The request was sent, whatever came of it.
    pub open spec fn on_transferred(self, transfer: TransferModel) -> Self {
        match (self.stage, transfer) {
            (StageModel::Sending, TransferModel::Body(body)) => self.at(StageModel::Heard(body)),
            (StageModel::Sending, _) => self.at(
                StageModel::Failed(evaluated(self.request, transfer, self.candidates)->Err_0),
            ),
            _ => self,
        }
    }
}

impl Inquiry {
    /// An inquiry of which nothing was recorded or sent.
    pub fn new(request: Json, candidates: Vec<Decision>) -> (r: Self)
        ensures
            r@ == InquiryModel::fresh(request@, candidates.deep_view()),
    {
        Inquiry { request, candidates, stage: Stage::Asking, answered: false }
    }

    /// What the inquiry waits for.
    pub fn want(&self) -> (r: Want)
        ensures
            r@ == self@.want(),
    {
        match &self.stage {
            Stage::Asking => Want::Record(LogEvent::Request(self.request.dup())),
            Stage::Sending => Want::Send,
            Stage::Heard(body) => Want::Record(LogEvent::Response(body.dup())),
            Stage::Decided(decision) => Want::Record(LogEvent::Decision(decision.dup())),
            Stage::Failed(error) => Want::Record(LogEvent::Error(error.message())),
            Stage::Done(_) => Want::Nothing,
        }
    }

    /// What is sent.
    pub fn request(&self) -> (r: &Json)
        ensures
            r@ == self@.request,
    {
        &self.request
    }

    /// Whether the service gave a decision that was offered.
    pub fn is_answered(&self) -> (r: bool)
        ensures
            r == self@.answered,
    {
        self.answered
    }

    /// Takes notice that a record was written, or why it was not.
    pub fn recorded(&mut self, lost: Option<String>)
        ensures
            final(self)@ == old(self)@.on_recorded(lost.deep_view()),
    {
        let mut stage = Stage::Sending;
        std::mem::swap(&mut stage, &mut self.stage);
        self.stage = match (stage, lost) {
            (Stage::Sending, _) => Stage::Sending,
            (Stage::Done(result), _) => Stage::Done(result),
            (Stage::Failed(error), None) => Stage::Done(Err(error)),
            (Stage::Failed(_), Some(reason)) => Stage::Done(Err(Error::Logging(reason))),
            (_, Some(reason)) => Stage::Failed(Error::Logging(reason)),
            (Stage::Asking, None) => Stage::Sending,
            (Stage::Heard(body), None) => match judge(&self.request, &body, &self.candidates) {
                Ok(decision) => {
                    self.answered = true;
                    Stage::Decided(decision)
                },
                Err(error) => Stage::Failed(error),
            },
            (Stage::Decided(decision), None) => Stage::Done(Ok(decision)),
        };
    }

    /// Takes notice of what came of sending the request.
    pub fn transferred(&mut self, transfer: Transfer)
        ensures
            final(self)@ == old(self)@.on_transferred(transfer@),
    {
        if let Stage::Sending = &self.stage {
            match transfer {
                Transfer::Body(body) => {
                    self.stage = Stage::Heard(body);
                },
                _ => {
                    if let Err(error) = evaluate(&self.request, &transfer, &self.candidates) {
                        self.stage = Stage::Failed(error);
                    }
                },
            }
        }
    }

    /// What the inquiry decided, or why it decided nothing, once it is done.
    pub fn conclude(self) -> (r: Option<Result<Decision, Error>>)
        ensures
            match self@.stage {
                StageModel::Done(Ok(decision)) => (r matches Some(Ok(d)) && d@ == decision),
                StageModel::Done(Err(error)) => (r matches Some(Err(e)) && e@ == error),
                _ => r is None,
            },
    {
        match self.stage {
            Stage::Done(result) => Some(result),
            _ => None,
        }
    }
}

/// What happens to an inquiry.
pub enum Notice {
    Recorded(Option<Text>),
    Transferred(TransferModel),
}

impl InquiryModel {
    pub open spec fn on(self, notice: Notice) -> Self {
        match notice {
            Notice::Recorded(lost) => self.on_recorded(lost),
            Notice::Transferred(transfer) => self.on_transferred(transfer),
        }
    }
}

/// A request is sent only after it was recorded: one whose record is lost fails unsent.
pub proof fn requests_are_recorded_before_they_are_sent(inquiry: InquiryModel, notice: Notice)
    requires
        !(inquiry.want() is Send),
        inquiry.on(notice).want() is Send,
    ensures
        notice == Notice::Recorded(None),
        inquiry.want() == WantModel::Record(LogEventModel::Request(inquiry.request)),
{
}

/// A decision is one that a recorded answer chose among those that the request offered.
pub proof fn decisions_come_from_recorded_answers(inquiry: InquiryModel, notice: Notice)
    requires
        !(inquiry.stage is Decided),
        inquiry.on(notice).stage is Decided,
    ensures
        notice == Notice::Recorded(None),
        inquiry.stage matches StageModel::Heard(body) && inquiry.want() == WantModel::Record(
            LogEventModel::Response(body),
        ) && judged(inquiry.request, body, inquiry.candidates) == Ok::<DecisionModel, ErrorModel>(
            inquiry.on(notice).stage->Decided_0,
        ),
{
}

/// An inquiry ends with a decision only after that decision was recorded.
pub proof fn decisions_are_recorded_before_they_count(inquiry: InquiryModel, notice: Notice)
    requires
        !(inquiry.stage is Done),
        inquiry.on(notice).stage matches StageModel::Done(Ok(_)),
    ensures
        notice == Notice::Recorded(None),
        inquiry.on(notice).stage matches StageModel::Done(Ok(decision)) && inquiry.want()
            == WantModel::Record(LogEventModel::Decision(decision)),
{
}

/// What a refusal or an answer that is no JSON says is recorded nowhere: the record of the
/// failure holds the status alone.
pub proof fn refusals_show_their_status_alone(
    inquiry: InquiryModel,
    code: u16,
    status: Text,
    body: Option<Text>,
    other: Option<Text>,
)
    requires
        inquiry.want() is Send,
        !(200 <= code < 300),
    ensures
        ({
            let after = inquiry.on_transferred(received(code, status, body));
            &&& after == inquiry.on_transferred(received(code, status, other))
            &&& after.stage == StageModel::Failed(ErrorModel::Model("HTTP "@ + status))
        }),
{
}

} // verus!
