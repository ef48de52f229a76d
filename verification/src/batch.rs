//! Bounded local repetition. No model or application-specific logic lives here.
use crate::api::{
    control_error, find_skill, skill_named, ActionOutcome, ActionReport, ActionReportModel,
    AdapterError, AdapterErrorModel, CancellationToken, ExecutionControl, RepeatRequest,
    RepeatRequestModel, Skill, SkillModel, ToolCall, ToolCallModel, ToolResult, ToolResultModel,
};
use crate::clock::{after, find_after, Nanos};
use crate::copy::Dup;
use crate::failure_guard::answer;
use crate::kernel::{Continuation, Event, EventModel, Signal};
use crate::text;
use crate::text::Text;
use vstd::prelude::*;

verus! {

/// The largest count of a repeat request.
pub const MAX_REPEAT: u32 = 100;

/// Local repetition stops at a count or on explicit adapter completion.
#[derive(Debug)]
pub enum BatchRequest {
    Repeat(RepeatRequest),
    UntilDone(ToolCall),
}

#[verifier::ext_equal]
pub enum BatchRequestModel {
    Repeat(RepeatRequestModel),
    UntilDone(ToolCallModel),
}

impl View for BatchRequest {
    type V = BatchRequestModel;

    open spec fn view(&self) -> BatchRequestModel {
        match self {
            BatchRequest::Repeat(a) => BatchRequestModel::Repeat(a@),
            BatchRequest::UntilDone(a) => BatchRequestModel::UntilDone(a@),
        }
    }
}

impl DeepView for BatchRequest {
    type V = BatchRequestModel;

    open spec fn deep_view(&self) -> BatchRequestModel {
        self@
    }
}

impl Dup for BatchRequest {
    fn dup(&self) -> (r: Self) {
        match self {
            BatchRequest::Repeat(a) => BatchRequest::Repeat(a.dup()),
            BatchRequest::UntilDone(a) => BatchRequest::UntilDone(a.dup()),
        }
    }
}

/// How a local repetition stands.
#[derive(Debug, Clone, Copy, PartialEq, Eq, Structural)]
pub enum BatchStatus {
    Running,
    Interrupted,
    Completed,
    Cancelled,
    TimedOut,
    AttemptLimit,
    Failed,
}

impl DeepView for BatchStatus {
    type V = BatchStatus;

    open spec fn deep_view(&self) -> BatchStatus {
        *self
    }
}

impl Dup for BatchStatus {
    fn dup(&self) -> (r: Self) {
        *self
    }
}

/// The ledger of a local repetition.
#[derive(Debug)]
pub struct BatchProgress {
    pub continuation: Continuation,
    pub request: BatchRequest,
    pub completed: u32,
    pub successful: u32,
    pub attempts: u32,
    /// Unknown for an until-done loop.
    pub remaining: Option<u32>,
    /// Adapter completion or requested count reached, even if observation then fails.
    pub finished: bool,
    pub status: BatchStatus,
    pub message: String,
}

#[verifier::ext_equal]
pub struct BatchProgressModel {
    pub continuation: Continuation,
    pub request: BatchRequestModel,
    pub completed: u32,
    pub successful: u32,
    pub attempts: u32,
    pub remaining: Option<u32>,
    pub finished: bool,
    pub status: BatchStatus,
    pub message: Text,
}

impl View for BatchProgress {
    type V = BatchProgressModel;

    open spec fn view(&self) -> BatchProgressModel {
        BatchProgressModel {
            continuation: self.continuation,
            request: self.request@,
            completed: self.completed,
            successful: self.successful,
            attempts: self.attempts,
            remaining: self.remaining,
            finished: self.finished,
            status: self.status,
            message: self.message@,
        }
    }
}

impl DeepView for BatchProgress {
    type V = BatchProgressModel;

    open spec fn deep_view(&self) -> BatchProgressModel {
        self@
    }
}

impl Dup for BatchProgress {
    fn dup(&self) -> (r: Self) {
        BatchProgress {
            continuation: self.continuation,
            request: self.request.dup(),
            completed: self.completed,
            successful: self.successful,
            attempts: self.attempts,
            remaining: self.remaining,
            finished: self.finished,
            status: self.status,
            message: self.message.dup(),
        }
    }
}

/// A local repetition under way, with its original deadline and attempt budget.
#[derive(Debug)]
pub struct ActiveBatch {
    pub progress: BatchProgress,
    pub deadline: Option<Nanos>,
    pub max_attempts: u32,
}

#[verifier::ext_equal]
pub struct ActiveBatchModel {
    pub progress: BatchProgressModel,
    pub deadline: Option<Nanos>,
    pub max_attempts: u32,
}

impl View for ActiveBatch {
    type V = ActiveBatchModel;

    open spec fn view(&self) -> ActiveBatchModel {
        ActiveBatchModel {
            progress: self.progress@,
            deadline: self.deadline,
            max_attempts: self.max_attempts,
        }
    }
}

impl DeepView for ActiveBatch {
    type V = ActiveBatchModel;

    open spec fn deep_view(&self) -> ActiveBatchModel {
        self@
    }
}

impl BatchRequestModel {
    /// The call that is repeated.
    pub open spec fn call(self) -> ToolCallModel {
        match self {
            BatchRequestModel::Repeat(request) => request.call,
            BatchRequestModel::UntilDone(call) => call,
        }
    }
}

impl BatchRequest {
    /// The call that is repeated.
    pub fn call(&self) -> (r: &ToolCall)
        ensures
            r@ == self@.call(),
    {
        match self {
            BatchRequest::Repeat(request) => &request.call,
            BatchRequest::UntilDone(call) => call,
        }
    }
}

impl BatchProgressModel {
    /// The ledger before the first attempt.
    pub open spec fn fresh(request: BatchRequestModel, continuation: Continuation) -> Self {
        BatchProgressModel {
            continuation,
            request,
            completed: 0,
            successful: 0,
            attempts: 0,
            remaining: match request {
                BatchRequestModel::Repeat(request) => Some(request.times),
                BatchRequestModel::UntilDone(_) => None,
            },
            finished: false,
            status: BatchStatus::Running,
            message: Seq::empty(),
        }
    }

    /// The ledger with a new status.
    pub open spec fn stopped(self, status: BatchStatus, message: Text) -> Self {
        BatchProgressModel { status, message, ..self }
    }

    /// The ledger with one more attempt.
    pub open spec fn attempted(self) -> Self {
        BatchProgressModel { attempts: (self.attempts + 1) as u32, ..self }
    }

    /// Whether an outcome confirms one repetition: its effect, and whether it is the last.
    /// `Continue` confirms a step of an until-done loop only.
    pub open spec fn confirms(self, outcome: ActionOutcome) -> Option<(bool, bool)> {
        match outcome {
            ActionOutcome::Completed { successful } => Some((successful, true)),
            ActionOutcome::Continue { successful } => if self.request is UntilDone {
                Some((successful, false))
            } else {
                None
            },
            ActionOutcome::Interrupted => None,
        }
    }

    /// The ledger after an outcome: what it confirms is counted once.
    pub open spec fn credited(self, outcome: ActionOutcome) -> Self {
        match self.confirms(outcome) {
            None => self,
            Some((successful, done)) => BatchProgressModel {
                completed: (self.completed + 1) as u32,
                successful: if successful {
                    (self.successful + 1) as u32
                } else {
                    self.successful
                },
                remaining: match self.remaining {
                    Some(n) => Some((n - 1) as u32),
                    None => None,
                },
                finished: match self.remaining {
                    Some(n) => n == 1,
                    None => done,
                },
                ..self
            },
        }
    }

    /// The ledger balances: what is done and what is left make up the request, nothing was
    /// done without an attempt, and only what is finished is called completed.
    pub open spec fn balanced(self, max_attempts: u32) -> bool {
        &&& self.successful <= self.completed <= self.attempts <= max_attempts
        &&& self.status == BatchStatus::Completed ==> self.finished
        &&& match self.request {
            BatchRequestModel::Repeat(request) => self.remaining matches Some(n) && n
                + self.completed == request.times && (self.finished <==> n == 0),
            BatchRequestModel::UntilDone(_) => self.remaining is None && (self.finished
                ==> self.completed > 0),
        }
    }

    /// What a step that was executed is reported as.
    pub open spec fn result(self, report: Result<ActionReportModel, AdapterErrorModel>) -> ToolResultModel {
        match report {
            Ok(report) => ToolResultModel {
                outcome: Some(report.outcome),
                call: self.request.call(),
                success: self.confirms(report.outcome) is Some,
                message: if self.confirms(report.outcome) is None && report.outcome is Continue {
                    "Continue requires UntilDone; a fixed repeat cannot confirm this action as completed"@
                } else {
                    report.message
                },
            },
            Err(error) => ToolResultModel {
                outcome: None,
                call: self.request.call(),
                success: false,
                message: error.message(),
            },
        }
    }

    /// The ledger after a step was executed.
    pub open spec fn settled(self, report: Result<ActionReportModel, AdapterErrorModel>) -> Self {
        match report {
            Ok(report) => self.credited(report.outcome),
            Err(_) => self,
        }
    }

    /// Why the skill cannot be repeated now, if it cannot.
    pub open spec fn capability_flaw(self, skills: Seq<SkillModel>) -> Option<Text> {
        match skill_named(skills, self.request.call().name) {
            None => Some("batch skill no longer exists"@),
            Some(skill) => if skill.availability is Available && match self.request {
                BatchRequestModel::Repeat(_) => skill.repeatable,
                BatchRequestModel::UntilDone(_) => skill.loopable,
            } {
                None
            } else {
                Some("repeat capability unavailable: "@ + skill.availability.shown())
            },
        }
    }
}

/// How a step that confirmed nothing stops the repetition.
pub open spec fn stop_status(report: Result<ActionReportModel, AdapterErrorModel>) -> BatchStatus {
    match report {
        Err(AdapterErrorModel::Cancelled) => BatchStatus::Cancelled,
        Err(AdapterErrorModel::TimedOut) => BatchStatus::TimedOut,
        _ => BatchStatus::Interrupted,
    }
}

impl ActiveBatchModel {
    /// The ledger balances within the attempt budget.
    pub open spec fn wf(self) -> bool {
        self.progress.balanced(self.max_attempts)
    }

    /// Which bound stops the repetition, if one does: cancellation, the deadline, or the
    /// attempts of a repetition that is not finished.
    pub open spec fn limit(self, signal: Signal) -> Option<(BatchStatus, Text)> {
        match control_error(signal.cancelled, self.deadline, signal.now) {
            Some(AdapterErrorModel::Cancelled) => Some(
                (BatchStatus::Cancelled, "cancelled by user"@),
            ),
            Some(_) => Some((BatchStatus::TimedOut, "batch deadline exceeded"@)),
            None => if self.progress.attempts >= self.max_attempts && !self.progress.finished {
                Some((BatchStatus::AttemptLimit, "batch attempt limit reached"@))
            } else {
                None
            },
        }
    }

    /// The repetition with a new status.
    pub open spec fn stopped(self, status: BatchStatus, message: Text) -> Self {
        ActiveBatchModel { progress: self.progress.stopped(status, message), ..self }
    }

    /// The repetition after its bounds were checked.
    pub open spec fn checked(self, signal: Signal) -> Self {
        match self.limit(signal) {
            Some((status, message)) => self.stopped(status, message),
            None => self,
        }
    }

    /// What the check of the bounds reports.
    pub open spec fn limit_events(self, signal: Signal) -> Seq<EventModel> {
        match self.limit(signal) {
            Some((status, message)) => seq![
                EventModel::BatchProgress(self.progress.stopped(status, message)),
            ],
            None => Seq::empty(),
        }
    }
}

impl ActiveBatch {
    /// Starts a repetition; its deadline runs from now.
    pub fn new(
        request: BatchRequest,
        continuation: Continuation,
        timeout: Nanos,
        max_attempts: u32,
        now: Nanos,
    ) -> (r: Self)
        ensures
            r@ == (ActiveBatchModel {
                progress: BatchProgressModel::fresh(request@, continuation),
                deadline: after(now, timeout),
                max_attempts,
            }),
            (request@ matches BatchRequestModel::Repeat(request) ==> request.times > 0) ==> r@.wf(),
    {
        let remaining: Option<u32> = match &request {
            BatchRequest::Repeat(request) => Some(request.times),
            BatchRequest::UntilDone(_) => None,
        };
        ActiveBatch {
            progress: BatchProgress {
                continuation,
                request,
                completed: 0,
                successful: 0,
                attempts: 0,
                remaining,
                finished: false,
                status: BatchStatus::Running,
                message: String::new(),
            },
            deadline: find_after(now, timeout),
            max_attempts,
        }
    }

    /// Reports the ledger.
    pub fn report(&self, events: &mut Vec<Event>)
        ensures
            final(events).deep_view() == old(events).deep_view().push(
                EventModel::BatchProgress(self@.progress),
            ),
    {
        events.push(Event::BatchProgress(self.progress.dup()));
        assert(events.deep_view() =~= old(events).deep_view().push(
            EventModel::BatchProgress(self@.progress),
        ));
    }

    /// Gives the repetition a new status and reports it.
    pub fn stop(&mut self, status: BatchStatus, message: String, events: &mut Vec<Event>)
        ensures
            final(self)@ == old(self)@.stopped(status, message@),
            old(self)@.wf() && (status == BatchStatus::Completed ==> old(self)@.progress.finished)
                ==> final(self)@.wf(),
            final(events).deep_view() == old(events).deep_view().push(
                EventModel::BatchProgress(final(self)@.progress),
            ),
    {
        self.progress.status = status;
        self.progress.message = message;
        self.report(events);
    }

    /// Stops the repetition where one of its bounds is reached, and says whether.
    pub fn check_limit(&mut self, signal: Signal, events: &mut Vec<Event>) -> (r: bool)
        ensures
            r == (old(self)@.limit(signal) is Some),
            final(self)@ == old(self)@.checked(signal),
            old(self)@.wf() ==> final(self)@.wf(),
            final(events).deep_view() == old(events).deep_view() + old(self)@.limit_events(signal),
    {
        let mut cancellation: CancellationToken = CancellationToken::default();
        if signal.cancelled {
            cancellation.cancel();
        }
        let control: ExecutionControl = ExecutionControl { cancellation, deadline: self.deadline };
        let ghost former = events.deep_view();
        let (status, message): (BatchStatus, &str) = match control.check(signal.now) {
            Err(AdapterError::Cancelled) => (BatchStatus::Cancelled, "cancelled by user"),
            Err(_) => (BatchStatus::TimedOut, "batch deadline exceeded"),
            Ok(()) => if self.progress.attempts >= self.max_attempts && !self.progress.finished {
                (BatchStatus::AttemptLimit, "batch attempt limit reached")
            } else {
                assert(former + Seq::<EventModel>::empty() =~= former);
                return false;
            },
        };
        self.stop(status, message.to_owned(), events);
        assert(events.deep_view() =~= former + seq![EventModel::BatchProgress(self@.progress)]);
        true
    }

    /// Why the skill cannot be repeated now, if it cannot.
    pub fn find_capability_flaw(&self, skills: &Vec<Skill>) -> (r: Option<String>)
        ensures
            r.deep_view() == self@.progress.capability_flaw(skills.deep_view()),
    {
        match find_skill(skills, self.progress.request.call().name.as_str()) {
            None => Some("batch skill no longer exists".to_owned()),
            Some(skill) => {
                let able: bool = match self.progress.request {
                    BatchRequest::Repeat(_) => skill.repeatable,
                    BatchRequest::UntilDone(_) => skill.loopable,
                };
                if skill.availability.is_available() && able {
                    None
                } else {
                    Some(
                        text::cat2(
                            "repeat capability unavailable: ",
                            skill.availability.show().as_str(),
                        ),
                    )
                }
            },
        }
    }

    /// Takes note of an attempt that is about to be made.
    pub fn attempt(&mut self)
        requires
            old(self)@.progress.attempts < old(self)@.max_attempts,
        ensures
            final(self)@ == (ActiveBatchModel {
                progress: old(self)@.progress.attempted(),
                ..old(self)@
            }),
            old(self)@.wf() ==> final(self)@.wf(),
    {
        self.progress.attempts = self.progress.attempts + 1;
    }

    /// Counts what an executed step confirms, and gives its result and how it stops the
    /// repetition if it confirms nothing.
    pub fn settle(&mut self, report: Result<ActionReport, AdapterError>) -> (r: (
        ToolResult,
        BatchStatus,
    ))
        requires
            old(self)@.wf(),
            old(self)@.progress.completed < old(self)@.progress.attempts,
            !old(self)@.progress.finished,
        ensures
            final(self)@ == (ActiveBatchModel {
                progress: old(self)@.progress.settled(answer(report)),
                ..old(self)@
            }),
            final(self)@.wf(),
            r.0@ == old(self)@.progress.result(answer(report)),
            r.1 == stop_status(answer(report)),
    {
        let call: ToolCall = self.progress.request.call().dup();
        match report {
            Ok(report) => {
                let confirmed: Option<(bool, bool)> = match report.outcome {
                    ActionOutcome::Completed { successful } => Some((successful, true)),
                    ActionOutcome::Continue { successful } => match self.progress.request {
                        BatchRequest::UntilDone(_) => Some((successful, false)),
                        BatchRequest::Repeat(_) => None,
                    },
                    ActionOutcome::Interrupted => None,
                };
                if let Some((successful, done)) = confirmed {
                    self.progress.completed = self.progress.completed + 1;
                    match self.progress.remaining {
                        Some(n) => {
                            self.progress.remaining = Some(n - 1);
                            self.progress.finished = n == 1;
                        },
                        None => {
                            self.progress.finished = done;
                        },
                    }
                    if successful {
                        self.progress.successful = self.progress.successful + 1;
                    }
                }
                let message: String = if confirmed.is_none() && matches!(
                    report.outcome,
                    ActionOutcome::Continue { .. }
                ) {
                    "Continue requires UntilDone; a fixed repeat cannot confirm this action as completed".to_owned()
                } else {
                    report.message
                };
                (
                    ToolResult {
                        outcome: Some(report.outcome),
                        call,
                        success: confirmed.is_some(),
                        message,
                    },
                    BatchStatus::Interrupted,
                )
            },
            Err(error) => {
                let status: BatchStatus = match error {
                    AdapterError::Cancelled => BatchStatus::Cancelled,
                    AdapterError::TimedOut => BatchStatus::TimedOut,
                    _ => BatchStatus::Interrupted,
                };
                (
                    ToolResult { outcome: None, call, success: false, message: error.message() },
                    status,
                )
            },
        }
    }
}

/// Whatever an attempt brings, the ledger balances afterwards, counts at most one more
/// repetition, and takes nothing back.
pub proof fn ledger_stays_balanced(
    progress: BatchProgressModel,
    max_attempts: u32,
    report: Result<ActionReportModel, AdapterErrorModel>,
)
    requires
        progress.balanced(max_attempts),
        !progress.finished,
        progress.attempts < max_attempts,
    ensures
        progress.attempted().settled(report).balanced(max_attempts),
        progress.completed <= progress.attempted().settled(report).completed <= progress.completed
            + 1,
        progress.successful <= progress.attempted().settled(report).successful,
        progress.attempted().settled(report).attempts == progress.attempts + 1,
        progress.attempted().settled(report).request == progress.request,
{
}

/// A loop that goes on until it is done is finished by nothing but the adapter's report that it
/// is, and then it is; a repeat is finished by the last of its confirmed repetitions.
pub proof fn reports_finish_repetitions(
    progress: BatchProgressModel,
    max_attempts: u32,
    report: Result<ActionReportModel, AdapterErrorModel>,
)
    requires
        progress.balanced(max_attempts),
        !progress.finished,
        progress.completed < progress.attempts,
    ensures
        progress.settled(report).finished <==> {
            &&& report matches Ok(report)
            &&& report.outcome is Completed
            &&& progress.request matches BatchRequestModel::Repeat(request) ==> progress.completed
                + 1 == request.times
        },
{
}

/// A confirmed repetition is counted once, and as successful only where the report says so; a step
/// that did not complete is one only of a loop. Nothing else is counted.
pub proof fn confirmed_repetitions_are_counted(
    progress: BatchProgressModel,
    max_attempts: u32,
    report: Result<ActionReportModel, AdapterErrorModel>,
)
    requires
        progress.balanced(max_attempts),
        !progress.finished,
        progress.completed < progress.attempts,
    ensures
        ({
            let after = progress.settled(report);
            let confirmed = match report {
                Err(_) => None,
                Ok(report) => match report.outcome {
                    ActionOutcome::Completed { successful } => Some(successful),
                    ActionOutcome::Continue { successful } => if progress.request is UntilDone {
                        Some(successful)
                    } else {
                        None
                    },
                    ActionOutcome::Interrupted => None,
                },
            };
            &&& after.attempts == progress.attempts
            &&& after.request == progress.request
            &&& after.continuation == progress.continuation
            &&& after.completed == progress.completed + (if confirmed is Some {
                1int
            } else {
                0
            })
            &&& after.successful == progress.successful + (if confirmed == Some(true) {
                1int
            } else {
                0
            })
            &&& progress.request matches BatchRequestModel::Repeat(request) ==> after.remaining
                matches Some(left) && left + after.completed == request.times
            &&& progress.result(report).success == confirmed is Some
            &&& progress.result(report).call == progress.request.call()
        }),
{
}

/// A repetition is stopped by a cancellation first, then by its deadline, then by its attempts
/// where it is not finished, and by nothing else.
pub proof fn repetitions_keep_to_their_bounds(batch: ActiveBatchModel, signal: Signal)
    ensures
        match batch.limit(signal) {
            Some((status, _)) => status == if signal.cancelled {
                BatchStatus::Cancelled
            } else if batch.deadline is Some && signal.now >= batch.deadline->0 {
                BatchStatus::TimedOut
            } else {
                BatchStatus::AttemptLimit
            },
            None => true,
        },
        batch.limit(signal) is Some <==> {
            ||| signal.cancelled
            ||| batch.deadline is Some && signal.now >= batch.deadline->0
            ||| batch.progress.attempts >= batch.max_attempts && !batch.progress.finished
        },
{
}

/// A call is repeated only while its skill is there, can be used, and can be repeated or looped as
/// the repetition needs it.
pub proof fn repetitions_need_their_skill(progress: BatchProgressModel, skills: Seq<SkillModel>)
    ensures
        progress.capability_flaw(skills) is None <==> {
            &&& skill_named(skills, progress.request.call().name) matches Some(skill)
            &&& skill.availability is Available
            &&& progress.request is Repeat ==> skill.repeatable
            &&& progress.request is UntilDone ==> skill.loopable
        },
{
}

/// A step that confirmed nothing stops the repetition as what it was: cancelled, out of time, or
/// interrupted.
pub proof fn steps_stop_repetitions_as_what_they_were(
    report: Result<ActionReportModel, AdapterErrorModel>,
)
    ensures
        stop_status(report) == BatchStatus::Cancelled <==> report == Err::<
            ActionReportModel,
            AdapterErrorModel,
        >(AdapterErrorModel::Cancelled),
        stop_status(report) == BatchStatus::TimedOut <==> report == Err::<
            ActionReportModel,
            AdapterErrorModel,
        >(AdapterErrorModel::TimedOut),
        stop_status(report) != BatchStatus::Cancelled && stop_status(report)
            != BatchStatus::TimedOut ==> stop_status(report) == BatchStatus::Interrupted,
{
}

/// A repetition begins with everything left to do.
pub proof fn repetitions_begin_with_everything_left(
    request: BatchRequestModel,
    continuation: Continuation,
)
    ensures
        ({
            let fresh = BatchProgressModel::fresh(request, continuation);
            &&& fresh.completed == 0 && fresh.successful == 0 && fresh.attempts == 0
            &&& !fresh.finished
            &&& fresh.status == BatchStatus::Running
            &&& fresh.continuation == continuation
            &&& fresh.request == request
            &&& match request {
                BatchRequestModel::Repeat(request) => fresh.remaining == Some(request.times),
                BatchRequestModel::UntilDone(_) => fresh.remaining is None,
            }
        }),
{
}

} // verus!
