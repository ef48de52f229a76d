//! A run of a task: the host performs what the run waits for and hands back what came of it.
//! No future, lock or clock lives here.
use crate::api::{
    find_skill, Action, ActionModel, ActionOutcome, ActionReport, AdapterError, AppState,
    AppStateModel, DecisionContext, DecisionContextModel, ExecutionFailure, ExecutionRequest,
    FailureStage, Skill, ToolCall, ToolResult,
};
use crate::batch::{ActiveBatch, BatchProgress, BatchRequest, BatchStatus};
use crate::clock::Nanos;
use crate::copy::Dup;
use crate::execution::{counts_positive, ActiveExecution, ExecutionProgress, ExecutionStatus};
use crate::failure_guard::{answer, FailureGuard};
use crate::json::Json;
use crate::kernel::{
    validate_actions, Continuation, Decision, DecisionModel, Error, ErrorModel, Event, EventModel,
    Outcome, RunOptions, Signal, Status, Task,
};
use crate::metrics::{CallCounts, TaskSummary};
use crate::run_model::{
    checkpoints_keep_runs_sound, contexts_keep_runs_sound, decisions_keep_runs_sound,
    executions_keep_runs_sound, logs_keep_runs_sound, no_summary, observations_keep_runs_sound,
    repair_flaw, signals_keep_runs_sound, skill_names, step_flaw, DecisionReplyModel, Phase,
    RequestModel, RunModel,
};
use crate::skills;
use crate::skills::{LoadResult, LoadSkills, SkillMode, SkillView};
use crate::text;
use vstd::prelude::*;

verus! {

/// What a run asks its host for.
#[derive(Debug)]
pub enum Request {
    /// Hold while the task is paused; go on at once after cancellation or at the deadline.
    Checkpoint { deadline: Option<Nanos> },
    /// Read the clock and the cancellation flag.
    Signal,
    /// Observe the application.
    Observe,
    /// Resolve skills and guidance for a decision round.
    Context { step: usize },
    /// Ask the agent, unless cancellation or the deadline comes first.
    Decide { deadline: Option<Nanos> },
    /// Say whether the journal can still be written.
    CheckLog,
    /// Execute a call.
    Execute { call: ToolCall, deadline: Option<Nanos> },
    /// Nothing: take the outcome.
    Done,
}

impl View for Request {
    type V = RequestModel;

    open spec fn view(&self) -> RequestModel {
        match self {
            Request::Checkpoint { deadline } => RequestModel::Checkpoint { deadline: *deadline },
            Request::Signal => RequestModel::Signal,
            Request::Observe => RequestModel::Observe,
            Request::Context { step } => RequestModel::Context { step: *step },
            Request::Decide { deadline } => RequestModel::Decide { deadline: *deadline },
            Request::CheckLog => RequestModel::CheckLog,
            Request::Execute { call, deadline } => RequestModel::Execute {
                call: call@,
                deadline: *deadline,
            },
            Request::Done => RequestModel::Done,
        }
    }
}

/// What the host brings back from waiting for a decision.
#[derive(Debug)]
pub enum DecisionReply {
    Cancelled(Signal),
    DeadlineReached(Signal),
    Decided(Decision),
    Failed(Error),
}

impl View for DecisionReply {
    type V = DecisionReplyModel;

    open spec fn view(&self) -> DecisionReplyModel {
        match self {
            DecisionReply::Cancelled(signal) => DecisionReplyModel::Cancelled(*signal),
            DecisionReply::DeadlineReached(signal) => DecisionReplyModel::DeadlineReached(*signal),
            DecisionReply::Decided(decision) => DecisionReplyModel::Decided(decision@),
            DecisionReply::Failed(error) => DecisionReplyModel::Failed(error@),
        }
    }
}

/// A run of a task.
#[derive(Debug)]
pub struct Run {
    goal: String,
    options: RunOptions,
    local: bool,
    phase: Phase,
    step: usize,
    state: AppState,
    previous: Option<ToolResult>,
    failure: Option<ExecutionFailure>,
    interruption: Option<ExecutionFailure>,
    guard: FailureGuard,
    selected: Vec<String>,
    last_load: Option<LoadResult>,
    skills: Vec<Skill>,
    view: Option<SkillView>,
    decision: Option<Decision>,
    pending: Option<ActiveExecution>,
    active: Option<ActiveExecution>,
    verdict: String,
    halt: ExecutionStatus,
    batch_halt: BatchStatus,
    events: Vec<Event>,
    outcome: Option<Outcome>,
    error: Option<Error>,
}

impl View for Run {
    type V = RunModel;

    closed spec fn view(&self) -> RunModel {
        RunModel {
            goal: self.goal@,
            options: self.options,
            local: self.local,
            phase: self.phase,
            step: self.step,
            state: self.state@,
            previous: self.previous.deep_view(),
            failure: self.failure.deep_view(),
            interruption: self.interruption.deep_view(),
            guard: self.guard@,
            selected: self.selected.deep_view(),
            last_load: self.last_load.deep_view(),
            skills: self.skills.deep_view(),
            view: self.view.deep_view(),
            decision: self.decision.deep_view(),
            pending: self.pending.deep_view(),
            active: self.active.deep_view(),
            verdict: self.verdict@,
            halt: self.halt,
            batch_halt: self.batch_halt,
            events: self.events.deep_view(),
            outcome: self.outcome.deep_view(),
            error: self.error.deep_view(),
        }
    }
}

/// An observation as contracts see it.
pub open spec fn observation(reply: Result<AppState, AdapterError>) -> Result<
    AppStateModel,
    crate::api::AdapterErrorModel,
> {
    match reply {
        Ok(state) => Ok(state@),
        Err(error) => Err(error@),
    }
}

/// Skills and guidance as contracts see them.
pub open spec fn context_of(reply: Result<DecisionContext, AdapterError>) -> Result<
    DecisionContextModel,
    crate::api::AdapterErrorModel,
> {
    match reply {
        Ok(context) => Ok(context@),
        Err(error) => Err(error@),
    }
}

/// A reply without a value as contracts see it.
pub open spec fn unit_reply(reply: Result<(), Error>) -> Result<(), ErrorModel> {
    match reply {
        Ok(()) => Ok(()),
        Err(error) => Err(error@),
    }
}

fn progress_of(execution: &Option<ActiveExecution>) -> (r: (
    Option<ExecutionProgress>,
    Option<BatchProgress>,
))
    ensures
        r.0.deep_view() == (match execution.deep_view() {
            Some(e) => Some(e.progress),
            None => None,
        }),
        r.1.deep_view() == (match execution.deep_view() {
            Some(e) => match e.batch {
                Some(batch) => Some(batch.progress),
                None => None,
            },
            None => None,
        }),
{
    match execution {
        Some(e) => {
            let batch: Option<BatchProgress> = match &e.batch {
                Some(batch) => Some(batch.progress.dup()),
                None => None,
            };
            (Some(e.progress.dup()), batch)
        },
        None => (None, None),
    }
}

fn zero_summary() -> (r: TaskSummary)
    ensures
        r == no_summary(),
{
    let none: CallCounts = CallCounts { total: 0, succeeded: 0, failed: 0 };
    TaskSummary { model_requests: none, actions: none, interruptions: 0, elapsed_ms: 0 }
}

impl Run {
    /// What every run keeps.
    pub closed spec fn wf(self) -> bool {
        self.guard.wf() && self@.wf()
    }

    fn emit(&mut self, event: Event)
        ensures
            final(self)@ == old(self)@.emit(event@),
            final(self).guard == old(self).guard,
    {
        self.events.push(event);
        assert(self.events.deep_view() =~= old(self).events.deep_view().push(event@));
    }

    fn end_plain(&mut self, status: Status, reason: String, decisions: usize)
        ensures
            final(self)@ == old(self)@.ended(status, reason@, decisions, None),
            final(self).guard == old(self).guard,
    {
        self.phase = Phase::Done;
        self.outcome =
        Some(
            Outcome {
                summary: zero_summary(),
                execution: None,
                batch: None,
                status,
                reason,
                decisions,
                state: self.state.dup(),
            },
        );
    }

    fn end_pending(&mut self, status: Status, reason: String, decisions: usize)
        ensures
            final(self)@ == old(self)@.ended(status, reason@, decisions, old(self)@.pending),
            final(self).guard == old(self).guard,
    {
        let (execution, batch) = progress_of(&self.pending);
        self.phase = Phase::Done;
        self.outcome =
        Some(
            Outcome {
                summary: zero_summary(),
                execution,
                batch,
                status,
                reason,
                decisions,
                state: self.state.dup(),
            },
        );
    }

    fn end_active(&mut self, status: Status, reason: String, decisions: usize)
        ensures
            final(self)@ == old(self)@.ended(status, reason@, decisions, old(self)@.active),
            final(self).guard == old(self).guard,
    {
        let (execution, batch) = progress_of(&self.active);
        self.phase = Phase::Done;
        self.outcome =
        Some(
            Outcome {
                summary: zero_summary(),
                execution,
                batch,
                status,
                reason,
                decisions,
                state: self.state.dup(),
            },
        );
    }

    fn break_off(&mut self, error: Error)
        ensures
            final(self)@ == old(self)@.broken(error@),
            final(self).guard == old(self).guard,
    {
        self.phase = Phase::Done;
        self.error = Some(error);
    }

    fn fail(&mut self, stage: FailureStage, call: Option<ToolCall>, message: String)
        ensures
            final(self)@ == old(self)@.failed(stage, call.deep_view(), message@),
            final(self).guard == old(self).guard,
    {
        let failure: ExecutionFailure = ExecutionFailure { stage, call, message };
        self.emit(Event::ExecutionFailed(failure.dup()));
        self.failure = Some(failure);
    }

    fn notice(&mut self, state: AppState)
        ensures
            final(self)@ == old(self)@.noticed(state@),
            final(self).guard == old(self).guard,
    {
        self.state = state;
        let over: bool = match &self.failure {
            Some(failure) => failure.stage == FailureStage::Observation,
            None => false,
        };
        if over {
            self.failure = None;
        }
    }

    fn observe(&mut self, state: AppState)
        ensures
            final(self)@ == old(self)@.observed(state@),
            final(self).guard == old(self).guard,
    {
        let copy: AppState = state.dup();
        self.notice(state);
        self.emit(Event::Observed(copy));
    }

    fn stop_pending(&mut self, status: ExecutionStatus, message: &str)
        ensures
            final(self)@ == old(self)@.stop_pending(status, message@),
            final(self).guard == old(self).guard,
    {
        let mut taken: Option<ActiveExecution> = None;
        std::mem::swap(&mut taken, &mut self.pending);
        if let Some(mut active) = taken {
            active.stop(status, message.to_owned(), &mut self.events);
            self.pending = Some(active);
        }
    }

    fn check_pending(&mut self, signal: Signal) -> (r: bool)
        ensures
            r == old(self)@.pending_limited(signal),
            final(self)@ == old(self)@.check_pending(signal),
            final(self).guard == old(self).guard,
    {
        let mut taken: Option<ActiveExecution> = None;
        std::mem::swap(&mut taken, &mut self.pending);
        if let Some(mut active) = taken {
            let limited: bool = active.check_limit(signal, &mut self.events);
            self.pending = Some(active);
            limited
        } else {
            false
        }
    }

    fn end_cancelled(&mut self, decisions: usize)
        ensures
            final(self)@ == old(self)@.cancelled_end(decisions),
            final(self).guard == old(self).guard,
    {
        proof {
            reveal(RunModel::cancelled_end);
        }
        self.stop_pending(ExecutionStatus::Cancelled, "cancelled by user");
        self.end_pending(Status::Cancelled, "cancelled by user".to_owned(), decisions);
    }

    fn end_bounded(&mut self, signal: Signal, decisions: usize) -> (r: bool)
        ensures
            r == (old(self)@.bounded_end(signal, decisions) is Some),
            final(self)@ == (match old(self)@.bounded_end(signal, decisions) {
                Some(end) => end,
                None => old(self)@,
            }),
            final(self).guard == old(self).guard,
    {
        proof {
            reveal(RunModel::bounded_end);
        }
        if self.check_pending(signal) {
            let (status, message): (Status, String) = match &self.pending {
                Some(pending) => (
                    if pending.progress.status == ExecutionStatus::Cancelled {
                        Status::Cancelled
                    } else {
                        Status::Failed
                    },
                    pending.progress.message.dup(),
                ),
                None => (Status::Failed, String::new()),
            };
            self.end_pending(status, message, decisions);
            true
        } else {
            assert(self@ =~= old(self)@) by {
                if old(self)@.pending is Some {
                    assert(old(self)@.events + Seq::<EventModel>::empty() =~= old(self)@.events);
                }
            }
            if signal.cancelled {
                self.end_cancelled(decisions);
                true
            } else {
                false
            }
        }
    }

    fn next_round(&mut self)
        ensures
            final(self)@ == old(self)@.next_round(),
            final(self).guard == old(self).guard,
    {
        proof {
            reveal(RunModel::next_round);
        }
        if self.step < self.options.max_decisions {
            self.step = self.step + 1;
            self.phase = Phase::RoundCheckpoint;
        } else {
            self.stop_pending(ExecutionStatus::Failed, "decision limit reached");
            let decisions: usize = self.options.max_decisions;
            self.end_pending(Status::Failed, "decision limit reached".to_owned(), decisions);
        }
    }

    fn after_drive(&mut self)
        requires
            old(self)@.active is Some,
        ensures
            final(self)@ == old(self)@.after_drive(),
            final(self).guard == old(self).guard,
    {
        proof {
            reveal(RunModel::after_drive);
        }
        let mut taken: Option<ActiveExecution> = None;
        std::mem::swap(&mut taken, &mut self.active);
        if let Some(execution) = taken {
            let status: ExecutionStatus = execution.progress.status;
            let continuation: Continuation = execution.progress.continuation;
            let retained: bool = execution.retained_on_error();
            let message: String = execution.progress.message.dup();
            let step: usize = self.step;
            let end: Status = if status == ExecutionStatus::Cancelled {
                Status::Cancelled
            } else {
                Status::Failed
            };
            if self.local {
                self.active = Some(execution);
                let end: Status = if status == ExecutionStatus::Completed {
                    Status::Completed
                } else {
                    end
                };
                self.end_active(end, message, 0);
            } else if status == ExecutionStatus::Completed && continuation == Continuation::Finish {
                self.active = Some(execution);
                self.end_active(Status::Completed, message, step);
            } else if status == ExecutionStatus::Cancelled || status == ExecutionStatus::Failed {
                self.active = Some(execution);
                self.stop_pending(status, message.as_str());
                if self.pending.is_some() {
                    self.end_pending(end, message, step);
                } else {
                    self.end_active(end, message, step);
                }
            } else if status == ExecutionStatus::Interrupted && retained && self.pending.is_none() {
                self.pending = Some(execution);
                self.phase = Phase::AfterSignal;
            } else {
                self.phase = Phase::AfterSignal;
            }
        }
    }

    fn blame(&mut self)
        requires
            old(self)@.active is Some,
        ensures
            final(self)@ == old(self)@.blame(),
            final(self).guard == old(self).guard,
    {
        let mut taken: Option<ActiveExecution> = None;
        std::mem::swap(&mut taken, &mut self.active);
        if let Some(mut execution) = taken {
            execution.progress.failure = self.failure.dup();
            self.active = Some(execution);
        }
    }

    fn stop_active(&mut self, status: ExecutionStatus, message: String)
        requires
            old(self)@.active is Some,
        ensures
            final(self)@ == old(self)@.stop_active(status, message@),
            final(self).guard == old(self).guard,
    {
        let mut taken: Option<ActiveExecution> = None;
        std::mem::swap(&mut taken, &mut self.active);
        if let Some(mut execution) = taken {
            execution.stop(status, message, &mut self.events);
            self.active = Some(execution);
        }
    }

    fn finish_drive(&mut self, status: ExecutionStatus, message: String)
        requires
            old(self)@.active is Some,
        ensures
            final(self)@ == old(self)@.finish_drive(status, message@),
            final(self).guard == old(self).guard,
    {
        self.stop_active(status, message);
        self.after_drive();
    }

    fn begin_drive(&mut self)
        requires
            old(self)@.active is Some,
        ensures
            final(self)@ == old(self)@.begin_drive(),
            final(self).guard == old(self).guard,
    {
        proof {
            reveal(RunModel::begin_drive);
        }
        let mut taken: Option<ActiveExecution> = None;
        std::mem::swap(&mut taken, &mut self.active);
        if let Some(mut execution) = taken {
            execution.progress.failure = None;
            let done: bool = execution.progress.completed == execution.progress.actions.len();
            self.active = Some(execution);
            self.stop_active(ExecutionStatus::Running, "executing".to_owned());
            self.phase = if done { Phase::ResumeObserve } else { Phase::StepCheckpoint };
        }
    }

    fn next_action(&mut self)
        requires
            old(self)@.active is Some,
        ensures
            final(self)@ == old(self)@.next_action(),
            final(self).guard == old(self).guard,
    {
        let left: bool = match &self.active {
            Some(execution) => execution.progress.completed < execution.progress.actions.len(),
            None => false,
        };
        self.phase = if left { Phase::StepCheckpoint } else { Phase::EndSignal };
    }

    fn confirm_action(&mut self)
        requires
            old(self)@.active matches Some(execution) && execution.progress.completed
                < execution.progress.actions.len(),
        ensures
            final(self)@ == old(self)@.confirm_action(),
            final(self).guard == old(self).guard,
    {
        let mut taken: Option<ActiveExecution> = None;
        std::mem::swap(&mut taken, &mut self.active);
        if let Some(mut execution) = taken {
            let total: usize = execution.progress.actions.len();
            assert(execution@.progress.actions.len() == total);
            execution.progress.completed = execution.progress.completed + 1;
            if execution.progress.completed < total {
                execution.batch = None;
            }
            self.active = Some(execution);
        }
    }

    fn report_active(&mut self)
        requires
            old(self)@.active is Some,
        ensures
            final(self)@ == old(self)@.report_active(),
            final(self).guard == old(self).guard,
    {
        if let Some(execution) = &self.active {
            let progress: ExecutionProgress = execution.progress.dup();
            self.emit(Event::ExecutionProgress(progress));
        }
    }

    fn stop_batch(&mut self, status: BatchStatus, message: String)
        requires
            old(self)@.active matches Some(execution) && execution.batch is Some,
        ensures
            final(self)@ == old(self)@.stop_batch(status, message@),
            final(self).guard == old(self).guard,
    {
        let mut taken: Option<ActiveExecution> = None;
        std::mem::swap(&mut taken, &mut self.active);
        if let Some(mut execution) = taken {
            let mut inner: Option<ActiveBatch> = None;
            std::mem::swap(&mut inner, &mut execution.batch);
            if let Some(mut batch) = inner {
                batch.stop(status, message, &mut self.events);
                execution.batch = Some(batch);
            }
            self.active = Some(execution);
        }
    }

    fn batch_report(&self) -> (r: (BatchStatus, String))
        requires
            self@.active matches Some(execution) && execution.batch is Some,
        ensures
            r.0 == self@.batch().progress.status,
            r.1@ == self@.batch().progress.message,
    {
        match &self.active {
            Some(execution) => match &execution.batch {
                Some(batch) => (batch.progress.status, batch.progress.message.dup()),
                None => (BatchStatus::Running, String::new()),
            },
            None => (BatchStatus::Running, String::new()),
        }
    }

    fn batch_call(&self) -> (r: ToolCall)
        requires
            self@.active matches Some(execution) && execution.batch is Some,
        ensures
            r@ == self@.batch().progress.request.call(),
    {
        match &self.active {
            Some(execution) => match &execution.batch {
                Some(batch) => batch.progress.request.call().dup(),
                None => ToolCall { name: String::new(), arguments: Json::Null },
            },
            None => ToolCall { name: String::new(), arguments: Json::Null },
        }
    }

    fn after_batch(&mut self)
        requires
            old(self)@.active matches Some(execution) && execution.batch is Some
                && execution.progress.completed < execution.progress.actions.len(),
        ensures
            final(self)@ == old(self)@.after_batch(),
            final(self).guard == old(self).guard,
    {
        proof {
            reveal(RunModel::after_batch);
        }
        let (status, message) = self.batch_report();
        let halt: ExecutionStatus = match status {
            BatchStatus::Completed => {
                self.confirm_action();
                self.report_active();
                self.next_action();
                return ;
            },
            BatchStatus::Cancelled => ExecutionStatus::Cancelled,
            BatchStatus::TimedOut
            | BatchStatus::AttemptLimit
            | BatchStatus::Failed => ExecutionStatus::Failed,
            BatchStatus::Running | BatchStatus::Interrupted => ExecutionStatus::Interrupted,
        };
        self.blame();
        self.finish_drive(halt, message);
    }

    fn finish_batch(&mut self, status: BatchStatus, message: String)
        requires
            old(self)@.active matches Some(execution) && execution.batch is Some
                && execution.progress.completed < execution.progress.actions.len(),
        ensures
            final(self)@ == old(self)@.finish_batch(status, message@),
            final(self).guard == old(self).guard,
    {
        self.stop_batch(status, message);
        self.after_batch();
    }

    fn fail_batch(&mut self, stage: FailureStage, call: Option<ToolCall>, message: String)
        requires
            old(self)@.active matches Some(execution) && execution.batch is Some
                && execution.progress.completed < execution.progress.actions.len(),
        ensures
            final(self)@ == old(self)@.batch_failed(stage, call.deep_view(), message@),
            final(self).guard == old(self).guard,
    {
        self.fail(stage, call, message.dup());
        self.finish_batch(BatchStatus::Interrupted, message);
    }

    /// Starts a run of a task. A blank goal and budgets that are out of bounds are refused.
    pub fn new(task: &Task, options: RunOptions, now: Nanos) -> (r: Result<Run, Error>)
        ensures
            match r {
                Ok(run) => !text::blank(task.goal@) && options.usable(now) && run.wf() && run@
                    == RunModel::fresh(task.goal@, options),
                Err(error) => (text::blank(task.goal@) || !options.usable(now)) && error@
                    == ErrorModel::Invalid(
                    "nonempty task and positive bounded execution budgets required"@,
                ),
            },
    {
        if text::is_blank(task.goal.as_str()) || !options.is_usable(now) {
            return Err(
                Error::Invalid(
                    "nonempty task and positive bounded execution budgets required".to_owned(),
                ),
            );
        }
        let run = Run {
            goal: task.goal.dup(),
            options,
            local: false,
            phase: Phase::Starting,
            step: 0,
            state: AppState { scene: "unobserved".to_owned(), facts: Json::object() },
            previous: None,
            failure: None,
            interruption: None,
            guard: FailureGuard::new(),
            selected: Vec::new(),
            last_load: None,
            skills: Vec::new(),
            view: None,
            decision: None,
            pending: None,
            active: None,
            verdict: String::new(),
            halt: ExecutionStatus::Running,
            batch_halt: BatchStatus::Running,
            events: Vec::new(),
            outcome: None,
            error: None,
        };
        assert(run@ =~= RunModel::fresh(task.goal@, options));
        Ok(run)
    }

    /// Starts a run of a prepared request: no agent is asked, and a failure is not retried.
    /// A request without actions or with a repeat count of zero is refused too.
    pub fn prepared(task: &Task, request: ExecutionRequest, options: RunOptions, now: Nanos) -> (r:
        Result<Run, Error>)
        ensures
            match r {
                Ok(run) => !text::blank(task.goal@) && options.usable(now) && request@.actions.len()
                    > 0 && counts_positive(request@.actions) && run.wf() && run@
                    == RunModel::prepared(task.goal@, options, request@.actions),
                Err(error) => if text::blank(task.goal@) || !options.usable(now) {
                    error@ == ErrorModel::Invalid(
                        "nonempty task and positive bounded execution budgets required"@,
                    )
                } else {
                    (request@.actions.len() == 0 || !counts_positive(request@.actions)) && error@
                        == ErrorModel::Invalid("prepared actions with positive counts required"@)
                },
            },
    {
        let ghost actions = request.actions.deep_view();
        let mut i: usize = 0;
        let mut positive: bool = request.actions.len() > 0;
        while i < request.actions.len()
            invariant
                i <= request.actions@.len(),
                actions == request.actions.deep_view(),
                positive ==> actions.len() > 0 && forall|j: int|
                    0 <= j < i ==> ((#[trigger] actions[j]) matches ActionModel::Repeat(r)
                        ==> r.times > 0),
                !positive ==> actions.len() == 0 || !counts_positive(actions),
            decreases request.actions@.len() - i,
        {
            assert(actions[i as int] == request.actions@[i as int]@);
            if let Action::Repeat(repeat) = &request.actions[i] {
                if repeat.times == 0 {
                    positive = false;
                }
            }
            i += 1;
        }
        let mut run: Run = Run::new(
            task,
            RunOptions { skill_mode: SkillMode::All, ..options },
            now,
        )?;
        if !positive {
            return Err(
                Error::Invalid("prepared actions with positive counts required".to_owned()),
            );
        }
        run.local = true;
        run.active = Some(ActiveExecution::new(request.actions, Continuation::Finish));
        assert(run@ =~= RunModel::prepared(task.goal@, options, actions));
        Ok(run)
    }

    fn pending_deadline(&self) -> (r: Option<Nanos>)
        ensures
            r == self@.pending_deadline(),
    {
        match &self.pending {
            Some(active) => active.deadline(),
            None => None,
        }
    }

    fn active_deadline(&self) -> (r: Option<Nanos>)
        requires
            self@.active is Some,
        ensures
            r == self@.active->0.deadline(),
    {
        match &self.active {
            Some(active) => active.deadline(),
            None => None,
        }
    }

    fn action_call(&self) -> (r: ToolCall)
        requires
            self@.active matches Some(execution) && execution.progress.completed
                < execution.progress.actions.len(),
        ensures
            r@ == self@.action().call(),
    {
        match &self.active {
            Some(execution) => execution.progress.actions[execution.progress.completed].call().dup(),
            None => ToolCall { name: String::new(), arguments: Json::Null },
        }
    }

    /// What the run asks its host for.
    pub fn request(&self) -> (r: Request)
        requires
            self.wf(),
        ensures
            r@ == self@.request(),
    {
        match self.phase {
            Phase::Starting => Request::Checkpoint { deadline: None },
            Phase::RoundCheckpoint
            | Phase::DecideCheckpoint
            | Phase::DecidedCheckpoint => Request::Checkpoint { deadline: self.pending_deadline() },
            Phase::StepCheckpoint | Phase::BatchCheckpoint => Request::Checkpoint {
                deadline: self.active_deadline(),
            },
            Phase::StartSignal
            | Phase::RoundSignal
            | Phase::DecidedSignal
            | Phase::StepSignal
            | Phase::CallSignal
            | Phase::EndSignal
            | Phase::BatchSignal
            | Phase::BatchStopSignal
            | Phase::BatchEndSignal
            | Phase::AfterSignal => Request::Signal,
            Phase::FirstObserve
            | Phase::Reobserve
            | Phase::ResumeObserve
            | Phase::StepObserve
            | Phase::CallObserve
            | Phase::BatchObserve
            | Phase::BatchPostObserve => Request::Observe,
            Phase::RoundContext | Phase::StepContext | Phase::BatchContext => Request::Context {
                step: self.step,
            },
            Phase::Deciding => Request::Decide { deadline: self.pending_deadline() },
            Phase::StepLog | Phase::BatchLog => Request::CheckLog,
            Phase::CallExecute => Request::Execute { call: self.action_call(), deadline: None },
            Phase::BatchExecute => Request::Execute {
                call: self.batch_call(),
                deadline: self.active_deadline(),
            },
            Phase::Done => Request::Done,
        }
    }

    /// The reply to a safe boundary. What a run does not wait for leaves it as it is.
    pub fn checkpoint(&mut self, reply: Result<(), Error>)
        requires
            old(self).wf(),
        ensures
            final(self).wf(),
            final(self)@ == old(self)@.on_checkpoint(unit_reply(reply)),
    {
        proof {
            reveal(RunModel::on_checkpoint);
            checkpoints_keep_runs_sound(self@, unit_reply(reply));
        }
        match self.phase {
            Phase::BatchCheckpoint => match reply {
                Ok(()) => {
                    self.phase = Phase::BatchSignal;
                },
                Err(error) => {
                    self.finish_batch(BatchStatus::Interrupted, error.message());
                },
            },
            Phase::Starting
            | Phase::RoundCheckpoint
            | Phase::DecideCheckpoint
            | Phase::DecidedCheckpoint
            | Phase::StepCheckpoint => match reply {
                Ok(()) => {
                    self.phase =
                    match self.phase {
                        Phase::Starting => Phase::StartSignal,
                        Phase::RoundCheckpoint => Phase::RoundSignal,
                        Phase::DecideCheckpoint => Phase::Deciding,
                        Phase::DecidedCheckpoint => Phase::DecidedSignal,
                        _ => Phase::StepSignal,
                    };
                },
                Err(error) => {
                    self.break_off(error);
                },
            },
            _ => {},
        }
    }

    fn reject(&mut self, flaw: ExecutionFailure, plan: Decision)
        requires
            old(self).guard.wf(),
        ensures
            final(self)@ == old(self)@.rejected(flaw@, plan@),
            final(self).guard.wf(),
    {
        proof {
            reveal(RunModel::rejected);
        }
        self.fail(flaw.stage, flaw.call.dup(), flaw.message.dup());
        match flaw.call {
            Some(call) => {
                let result: ToolResult = ToolResult {
                    outcome: None,
                    call,
                    success: false,
                    message: flaw.message,
                };
                self.emit(Event::Executed(result.dup()));
                self.previous = Some(result);
            },
            None => {
                self.emit(Event::ExecutionRejected(flaw.message));
            },
        }
        let limit: u32 = self.options.max_repeated_failures;
        match self.guard.plan(plan, true, limit) {
            Some(reason) => {
                self.stop_pending(ExecutionStatus::Failed, reason.as_str());
                let step: usize = self.step;
                self.end_pending(Status::Failed, reason, step);
            },
            None => {
                self.phase = Phase::Reobserve;
            },
        }
    }

    fn load(&mut self, request: LoadSkills)
        ensures
            final(self)@ == old(self)@.loaded(request@),
            final(self).guard == old(self).guard,
    {
        let chosen: Result<Vec<String>, String> = if self.options.skill_mode
            == SkillMode::OnDemand {
            skills::select(&request, &self.skills)
        } else {
            Err("all mode already injects available skills".to_owned())
        };
        let (success, message): (bool, String) = match chosen {
            Ok(names) => {
                self.selected = names;
                (true, "selection replaced".to_owned())
            },
            Err(message) => (false, message),
        };
        let result: LoadResult = LoadResult {
            request,
            success,
            selected: self.selected.dup(),
            message,
        };
        self.emit(Event::SkillsLoaded(result.dup()));
        self.last_load = Some(result);
        self.phase = Phase::Reobserve;
    }

    fn find_repair_flaw(&self, actions: &Vec<Action>, continuation: Continuation) -> (r: Option<
        ExecutionFailure,
    >)
        ensures
            r.deep_view() == repair_flaw(self@.pending, actions.deep_view(), continuation),
    {
        let active: &ActiveExecution = match &self.pending {
            Some(active) => active,
            None => {
                return None;
            },
        };
        let repair: bool = continuation == Continuation::Decide && actions.len() == 1 && matches!(
            actions[0],
            Action::Call(_)
        );
        if !repair {
            return Some(
                ExecutionFailure {
                    stage: FailureStage::Validation,
                    call: None,
                    message: "execution pending: use Resume or one repair Call with Decide".to_owned(),
                },
            );
        }
        let replay: bool = match active.pending_call() {
            Some(call) => call.name == actions[0].call().name,
            None => false,
        };
        if replay {
            return Some(
                ExecutionFailure {
                    stage: FailureStage::Validation,
                    call: Some(actions[0].call().dup()),
                    message: "use Resume for the pending action; direct calls would lose progress".to_owned(),
                },
            );
        }
        None
    }

    fn execute(&mut self, actions: Vec<Action>, continuation: Continuation)
        requires
            old(self).guard.wf(),
        ensures
            final(self)@ == old(self)@.executing(
                (DecisionModel::Execute { actions: actions.deep_view(), then: continuation }),
                actions.deep_view(),
                continuation,
            ),
            final(self).guard.wf(),
    {
        self.last_load = None;
        let plan: Decision = Decision::Execute { actions: actions.dup(), then: continuation };
        let flaw: Option<ExecutionFailure> = match validate_actions(
            &actions,
            &self.skills,
            &self.selected,
            &self.options,
        ) {
            Err(flaw) => Some(flaw),
            Ok(()) => self.find_repair_flaw(&actions, continuation),
        };
        match flaw {
            Some(flaw) => self.reject(flaw, plan),
            None => {
                let limit: u32 = self.options.max_repeated_failures;
                let _none = self.guard.plan(plan, false, limit);
                self.active = Some(ActiveExecution::new(actions, continuation));
                self.begin_drive();
            },
        }
    }

    fn replace(&mut self, actions: Vec<Action>, continuation: Continuation)
        requires
            old(self).guard.wf(),
            old(self)@.pending matches Some(pending) ==> pending.wf(),
        ensures
            final(self)@ == old(self)@.replacing(
                (DecisionModel::ReplaceRemaining {
                    actions: actions.deep_view(),
                    then: continuation,
                }),
                actions.deep_view(),
                continuation,
            ),
            final(self).guard.wf(),
    {
        let plan: Decision = Decision::ReplaceRemaining {
            actions: actions.dup(),
            then: continuation,
        };
        if let Err(flaw) = validate_actions(
            &actions,
            &self.skills,
            &self.selected,
            &self.options,
        ) {
            self.reject(flaw, plan);
            return ;
        }
        proof {
            crate::run_model::flawless_plans_count(
                actions.deep_view(),
                self@.skills,
                self@.selected,
                self@.options,
            );
        }
        let mut taken: Option<ActiveExecution> = None;
        std::mem::swap(&mut taken, &mut self.pending);
        let message: String = match taken {
            None => "no interrupted execution to replace".to_owned(),
            Some(mut active) => match active.replace_remaining(actions, continuation) {
                Err(message) => {
                    self.pending = Some(active);
                    message
                },
                Ok(()) => {
                    let limit: u32 = self.options.max_repeated_failures;
                    let _none = self.guard.plan(plan, false, limit);
                    self.last_load = None;
                    self.active = Some(active);
                    self.begin_drive();
                    return ;
                },
            },
        };
        self.reject(
            ExecutionFailure { stage: FailureStage::Validation, call: None, message },
            plan,
        );
    }

    fn resume(&mut self)
        ensures
            final(self)@ == old(self)@.resuming(),
            final(self).guard == old(self).guard,
    {
        self.last_load = None;
        let mut taken: Option<ActiveExecution> = None;
        std::mem::swap(&mut taken, &mut self.pending);
        match taken {
            None => self.break_off(Error::Invalid("no execution to resume".to_owned())),
            Some(active) => {
                self.active = Some(active);
                self.begin_drive();
            },
        }
    }

    fn apply(&mut self, decision: Decision)
        requires
            old(self).guard.wf(),
            old(self)@.pending matches Some(pending) ==> pending.wf(),
        ensures
            final(self)@ == old(self)@.applied(decision@),
            final(self).guard.wf(),
    {
        proof {
            reveal(RunModel::applied);
        }
        let step: usize = self.step;
        match decision {
            Decision::Completed(reason) => {
                if self.pending.is_some() {
                    self.end_pending(
                        Status::Failed,
                        "cannot declare completion while an execution is interrupted; resume or fail it".to_owned(),
                        step,
                    );
                } else {
                    self.end_plain(Status::Completed, reason, step);
                }
            },
            Decision::Failed(reason) => self.end_pending(Status::Failed, reason, step),
            Decision::LoadSkills(request) => self.load(request),
            Decision::Execute { actions, then } => self.execute(actions, then),
            Decision::ReplaceRemaining { actions, then } => self.replace(actions, then),
            Decision::Resume => self.resume(),
        }
    }

    fn check_active(&mut self, signal: Signal) -> (r: bool)
        requires
            old(self)@.active is Some,
        ensures
            r == (old(self)@.active->0.limit(signal) is Some),
            final(self)@ == (RunModel {
                active: Some(old(self)@.active->0.checked(signal)),
                events: old(self)@.events + old(self)@.active->0.limit_events(signal),
                ..old(self)@
            }),
            final(self).guard == old(self).guard,
    {
        let mut taken: Option<ActiveExecution> = None;
        std::mem::swap(&mut taken, &mut self.active);
        if let Some(mut active) = taken {
            let limited: bool = active.check_limit(signal, &mut self.events);
            self.active = Some(active);
            limited
        } else {
            false
        }
    }

    fn check_batch(&mut self, signal: Signal) -> (r: bool)
        requires
            old(self)@.active matches Some(execution) && execution.batch is Some
                && execution.progress.completed < execution.progress.actions.len(),
        ensures
            r == (old(self)@.batch_bounded(signal) is Some),
            final(self)@ == (match old(self)@.batch_bounded(signal) {
                Some(end) => end,
                None => old(self)@,
            }),
            final(self).guard == old(self).guard,
    {
        let mut limited: bool = false;
        let mut taken: Option<ActiveExecution> = None;
        std::mem::swap(&mut taken, &mut self.active);
        if let Some(mut execution) = taken {
            let mut inner: Option<ActiveBatch> = None;
            std::mem::swap(&mut inner, &mut execution.batch);
            if let Some(mut batch) = inner {
                limited = batch.check_limit(signal, &mut self.events);
                execution.batch = Some(batch);
            }
            self.active = Some(execution);
        }
        proof {
            let b = old(self)@.batch();
            if b.limit(signal) is None {
                assert(self@ =~= old(self)@);
            } else {
                let (status, message) = b.limit(signal)->0;
                assert(self@ =~= old(self)@.stop_batch(status, message));
            }
        }
        if limited {
            self.after_batch();
        }
        limited
    }

    fn end_repetition(&mut self)
        requires
            old(self)@.active matches Some(execution) && execution.batch is Some
                && execution.progress.completed < execution.progress.actions.len(),
            old(self)@.previous is Some,
        ensures
            final(self)@ == ({
                let run = old(self)@;
                let told = run.with_batch(
                    run.batch().stopped(run.batch().progress.status, run.previous->0.message),
                ).report_batch();
                if run.batch().progress.finished {
                    told.finish_batch(BatchStatus::Completed, "local execution completed"@)
                } else {
                    told.at(Phase::BatchCheckpoint)
                }
            }),
            final(self).guard == old(self).guard,
    {
        let (status, _) = self.batch_report();
        let message: String = match &self.previous {
            Some(result) => result.message.dup(),
            None => String::new(),
        };
        self.stop_batch(status, message);
        let finished: bool = match &self.active {
            Some(execution) => match &execution.batch {
                Some(batch) => batch.progress.finished,
                None => false,
            },
            None => false,
        };
        if finished {
            self.finish_batch(BatchStatus::Completed, "local execution completed".to_owned());
        } else {
            self.phase = Phase::BatchCheckpoint;
        }
    }

    fn signal_at_start(&mut self, signal: Signal)
        requires
            old(self)@.phase == Phase::StartSignal,
        ensures
            final(self)@ == old(self)@.on_signal(signal),
            final(self).guard == old(self).guard,
    {
        proof {
            reveal(RunModel::on_signal);
        }
        if signal.cancelled {
            self.end_plain(
                Status::Cancelled,
                "cancelled before start; state not observed".to_owned(),
                0,
            );
        } else {
            self.phase = Phase::FirstObserve;
        }
    
    }

    fn signal_in_round(&mut self, signal: Signal)
        requires
            old(self)@.phase == Phase::RoundSignal,
            old(self)@.step >= 1,
        ensures
            final(self)@ == old(self)@.on_signal(signal),
            final(self).guard == old(self).guard,
    {
        proof {
            reveal(RunModel::on_signal);
        }
        let decisions: usize = self.step - 1;
        if !self.end_bounded(signal, decisions) {
            self.interruption =
            match &self.pending {
                Some(active) => active.progress.failure.dup(),
                None => None,
            };
            self.phase = Phase::RoundContext;
        }
    
    }

    fn signal_when_decided(&mut self, signal: Signal)
        requires
            old(self)@.phase == Phase::DecidedSignal,
            old(self).guard.wf(),
            old(self)@.decision is Some,
            old(self)@.pending matches Some(pending) ==> pending.wf(),
        ensures
            final(self)@ == old(self)@.on_signal(signal),
            final(self).guard.wf(),
    {
        proof {
            reveal(RunModel::on_signal);
        }
        let decisions: usize = self.step;
        if !self.end_bounded(signal, decisions) {
            let mut taken: Option<Decision> = None;
            std::mem::swap(&mut taken, &mut self.decision);
            if let Some(decision) = taken {
                self.apply(decision);
            }
        }
    
    }

    fn signal_before_action(&mut self, signal: Signal)
        requires
            old(self)@.phase == Phase::StepSignal,
            old(self)@.active is Some,
        ensures
            final(self)@ == old(self)@.on_signal(signal),
            final(self).guard == old(self).guard,
    {
        proof {
            reveal(RunModel::on_signal);
        }
        if self.check_active(signal) {
            self.after_drive();
        } else {
            assert(self@ =~= old(self)@);
            if signal.cancelled {
                self.finish_drive(
                    ExecutionStatus::Cancelled,
                    "cancelled by user".to_owned(),
                );
            } else {
                self.phase = Phase::StepObserve;
            }
        }
    
    }

    fn signal_after_call(&mut self, signal: Signal)
        requires
            old(self)@.phase == Phase::CallSignal,
            old(self)@.active is Some,
        ensures
            final(self)@ == old(self)@.on_signal(signal),
            final(self).guard == old(self).guard,
    {
        proof {
            reveal(RunModel::on_signal);
        }
        if signal.cancelled {
            self.finish_drive(ExecutionStatus::Cancelled, "cancelled by user".to_owned());
        } else {
            let verdict: String = self.verdict.dup();
            self.finish_drive(ExecutionStatus::Failed, verdict);
        }
    
    }

    fn signal_at_end(&mut self, signal: Signal)
        requires
            old(self)@.phase == Phase::EndSignal,
            old(self)@.active is Some,
        ensures
            final(self)@ == old(self)@.on_signal(signal),
            final(self).guard == old(self).guard,
    {
        proof {
            reveal(RunModel::on_signal);
        }
        if signal.cancelled {
            self.finish_drive(ExecutionStatus::Cancelled, "cancelled by user".to_owned());
        } else {
            self.failure = None;
            self.finish_drive(
                ExecutionStatus::Completed,
                "all requested actions completed".to_owned(),
            );
        }
    
    }

    fn signal_before_repetition(&mut self, signal: Signal)
        requires
            old(self)@.phase == Phase::BatchSignal,
            old(self)@.active matches Some(execution) && execution.batch is Some
                && execution.progress.completed < execution.progress.actions.len(),
        ensures
            final(self)@ == old(self)@.on_signal(signal),
            final(self).guard == old(self).guard,
    {
        proof {
            reveal(RunModel::on_signal);
        }
        if !self.check_batch(signal) {
            self.phase = Phase::BatchObserve;
        }
    
    }

    fn signal_after_failures(&mut self, signal: Signal)
        requires
            old(self)@.phase == Phase::BatchStopSignal,
            old(self)@.active matches Some(execution) && execution.batch is Some
                && execution.progress.completed < execution.progress.actions.len(),
        ensures
            final(self)@ == old(self)@.on_signal(signal),
            final(self).guard == old(self).guard,
    {
        proof {
            reveal(RunModel::on_signal);
        }
        if !self.check_batch(signal) {
            let verdict: String = self.verdict.dup();
            self.finish_batch(BatchStatus::Failed, verdict);
        }
    
    }

    fn signal_after_repetition(&mut self, signal: Signal)
        requires
            old(self)@.phase == Phase::BatchEndSignal,
            old(self)@.active matches Some(execution) && execution.batch is Some
                && execution.progress.completed < execution.progress.actions.len(),
            old(self)@.previous is Some,
        ensures
            final(self)@ == old(self)@.on_signal(signal),
            final(self).guard == old(self).guard,
    {
        proof {
            reveal(RunModel::on_signal);
        }
        if !self.check_batch(signal) {
            self.end_repetition();
        }
    
    }

    fn signal_after_execution(&mut self, signal: Signal)
        requires
            old(self)@.phase == Phase::AfterSignal,
        ensures
            final(self)@ == old(self)@.on_signal(signal),
            final(self).guard == old(self).guard,
    {
        proof {
            reveal(RunModel::on_signal);
        }
        if signal.cancelled {
            let decisions: usize = self.step;
            self.end_cancelled(decisions);
        } else {
            self.next_round();
        }
    
    }

    /// The host's clock and cancellation flag.
    pub fn signal(&mut self, signal: Signal)
        requires
            old(self).wf(),
        ensures
            final(self).wf(),
            final(self)@ == old(self)@.on_signal(signal),
    {
        proof {
            signals_keep_runs_sound(self@, signal);
        }
        match self.phase {
            Phase::StartSignal => self.signal_at_start(signal),
            Phase::RoundSignal => self.signal_in_round(signal),
            Phase::DecidedSignal => self.signal_when_decided(signal),
            Phase::StepSignal => self.signal_before_action(signal),
            Phase::CallSignal => self.signal_after_call(signal),
            Phase::EndSignal => self.signal_at_end(signal),
            Phase::BatchSignal => self.signal_before_repetition(signal),
            Phase::BatchStopSignal => self.signal_after_failures(signal),
            Phase::BatchEndSignal => self.signal_after_repetition(signal),
            Phase::AfterSignal => self.signal_after_execution(signal),
            _ => {
                proof {
                    reveal(RunModel::on_signal);
                }
            },
        }
    }

    fn seen_batch_done(&mut self)
        requires
            old(self)@.active matches Some(execution) && execution.batch is Some
                && execution.progress.completed < execution.progress.actions.len(),
        ensures
            final(self)@ == ({
                let seen = old(self)@;
                RunModel {
                    failure: None,
                    ..seen.with_batch(
                        seen.batch().stopped(
                            BatchStatus::Completed,
                            seen.batch().progress.message,
                        ),
                    ).report_batch().confirm_action().report_active().next_action()
                }
            }),
            final(self).guard == old(self).guard,
    {
        let (_, message) = self.batch_report();
        self.stop_batch(BatchStatus::Completed, message);
        self.confirm_action();
        self.report_active();
        self.next_action();
        self.failure = None;
    }

    fn interrupt(&mut self, message: String)
        requires
            old(self)@.active is Some,
        ensures
            final(self)@ == old(self)@.blame().finish_drive(
                ExecutionStatus::Interrupted,
                message@,
            ),
            final(self).guard == old(self).guard,
    {
        self.blame();
        self.finish_drive(ExecutionStatus::Interrupted, message);
    }

    fn previous_call(&self) -> (r: ToolCall)
        requires
            self@.previous is Some,
        ensures
            r@ == self@.previous->0.call,
    {
        match &self.previous {
            Some(result) => result.call.dup(),
            None => ToolCall { name: String::new(), arguments: Json::Null },
        }
    }

    fn previous_end(&self) -> (r: (bool, String))
        requires
            self@.previous is Some,
        ensures
            r.0 == self@.previous->0.success,
            r.1@ == self@.previous->0.message,
    {
        match &self.previous {
            Some(result) => (result.success, result.message.dup()),
            None => (false, String::new()),
        }
    }

    fn observed_in_round(&mut self, reply: Result<AppState, AdapterError>)
        requires
            old(self)@.phase == Phase::FirstObserve || old(self)@.phase == Phase::Reobserve,
            old(self)@.local ==> old(self)@.active is Some,
        ensures
            final(self)@ == old(self)@.on_observed(observation(reply)),
            final(self).guard == old(self).guard,
    {
        proof {
            reveal(RunModel::on_observed);
        }
        match reply {
            Err(error) => {
                let message: String = text::cat2(
                    "observation failed: ",
                    error.message().as_str(),
                );
                self.fail(FailureStage::Observation, None, message);
                self.break_off(Error::Adapter(error));
            },
            Ok(state) => {
                self.observe(state);
                if self.local {
                    self.begin_drive();
                } else {
                    self.next_round();
                }
            },
        }
    }

    fn observed_before_action(&mut self, reply: Result<AppState, AdapterError>)
        requires
            old(self)@.phase == Phase::ResumeObserve || old(self)@.phase == Phase::StepObserve,
            old(self)@.active is Some,
            old(self)@.phase == Phase::StepObserve ==> old(self)@.active->0.progress.completed
                < old(self)@.active->0.progress.actions.len(),
        ensures
            final(self)@ == old(self)@.on_observed(observation(reply)),
            final(self).guard == old(self).guard,
    {
        proof {
            reveal(RunModel::on_observed);
        }
        match reply {
            Err(error) => {
                let message: String = text::cat2(
                    "observation failed: ",
                    error.message().as_str(),
                );
                self.fail(FailureStage::Observation, None, message);
                self.interrupt(error.message());
            },
            Ok(state) => {
                let resumed: bool = self.phase == Phase::ResumeObserve;
                self.observe(state);
                let finished: bool = match &self.active {
                    Some(execution) => match &execution.batch {
                        Some(batch) => batch.progress.finished,
                        None => false,
                    },
                    None => false,
                };
                if resumed {
                    self.phase = Phase::EndSignal;
                } else if finished {
                    self.seen_batch_done();
                } else {
                    self.phase = Phase::StepContext;
                }
            },
        }
    }

    fn observed_after_call(&mut self, reply: Result<AppState, AdapterError>)
        requires
            old(self)@.phase == Phase::CallObserve,
            old(self)@.active is Some,
            old(self)@.previous is Some,
        ensures
            final(self)@ == old(self)@.on_observed(observation(reply)),
            final(self).guard == old(self).guard,
    {
        proof {
            reveal(RunModel::on_observed);
        }
        match reply {
            Err(error) => {
                let message: String = text::cat2(
                    "post-action observation failed: ",
                    error.message().as_str(),
                );
                let call: ToolCall = self.previous_call();
                self.fail(FailureStage::Observation, Some(call), message);
                self.interrupt(error.message());
            },
            Ok(state) => {
                let (success, message) = self.previous_end();
                self.observe(state);
                if success {
                    self.report_active();
                    self.next_action();
                } else {
                    self.blame();
                    let halt: ExecutionStatus = self.halt;
                    self.finish_drive(halt, message);
                }
            },
        }
    }

    fn observed_before_repetition(&mut self, reply: Result<AppState, AdapterError>)
        requires
            old(self)@.phase == Phase::BatchObserve,
            old(self)@.active matches Some(execution) && execution.batch is Some
                && execution.progress.completed < execution.progress.actions.len(),
        ensures
            final(self)@ == old(self)@.on_observed(observation(reply)),
            final(self).guard == old(self).guard,
    {
        proof {
            reveal(RunModel::on_observed);
        }
        match reply {
            Err(error) => {
                let message: String = text::cat2(
                    "observation failed: ",
                    error.message().as_str(),
                );
                self.fail_batch(FailureStage::Observation, None, message);
            },
            Ok(state) => {
                self.notice(state);
                self.phase = Phase::BatchContext;
            },
        }
    }

    fn observed_after_repetition(&mut self, reply: Result<AppState, AdapterError>)
        requires
            old(self)@.phase == Phase::BatchPostObserve,
            old(self)@.active matches Some(execution) && execution.batch is Some
                && execution.progress.completed < execution.progress.actions.len(),
            old(self)@.previous is Some,
        ensures
            final(self)@ == old(self)@.on_observed(observation(reply)),
            final(self).guard == old(self).guard,
    {
        proof {
            reveal(RunModel::on_observed);
        }
        match reply {
            Err(error) => {
                let message: String = text::cat2(
                    "post-action observation failed: ",
                    error.message().as_str(),
                );
                let call: ToolCall = self.batch_call();
                self.fail_batch(FailureStage::Observation, Some(call), message);
            },
            Ok(state) => {
                let (success, message) = self.previous_end();
                self.state = state;
                if success {
                    self.phase = Phase::BatchEndSignal;
                } else {
                    let halt: BatchStatus = self.batch_halt;
                    self.finish_batch(halt, message);
                }
            },
        }
    }

    /// An observation, or why there is none.
    pub fn observed(&mut self, reply: Result<AppState, AdapterError>)
        requires
            old(self).wf(),
        ensures
            final(self).wf(),
            final(self)@ == old(self)@.on_observed(observation(reply)),
    {
        proof {
            observations_keep_runs_sound(self@, observation(reply));
        }
        match self.phase {
            Phase::FirstObserve | Phase::Reobserve => self.observed_in_round(reply),
            Phase::ResumeObserve | Phase::StepObserve => self.observed_before_action(reply),
            Phase::CallObserve => self.observed_after_call(reply),
            Phase::BatchObserve => self.observed_before_repetition(reply),
            Phase::BatchPostObserve => self.observed_after_repetition(reply),
            _ => {
                proof {
                    reveal(RunModel::on_observed);
                }
            },
        }
    }

    fn show(&mut self, context: DecisionContext)
        ensures
            final(self)@ == (RunModel { phase: Phase::RoundContext, ..old(self)@ }).on_context(
                Ok(context@),
            ),
            final(self).guard == old(self).guard,
    {
        proof {
            reveal(RunModel::on_context);
        }
        self.skills = context.skills.dup();
        let step: usize = self.step;
        self.emit(
            Event::SkillsResolved {
                step,
                skills: context.skills.dup(),
                guidance: context.guidance.dup(),
            },
        );
        match skills::view(
            &context.skills,
            self.options.skill_mode,
            &self.selected,
            self.last_load.dup(),
        ) {
            Err(error) => self.break_off(error),
            Ok(shown) => {
                let (execution, batch) = progress_of(&self.pending);
                let mut view: SkillView = shown;
                view.guidance = context.guidance;
                view.failure = self.failure.dup();
                view.batch = batch;
                view.execution = execution;
                view.max_repeat = self.options.repeat_limit();
                view.max_actions = self.options.max_actions;
                let ghost loaded = view.loaded.deep_view();
                let mut names: Vec<String> = Vec::new();
                let mut i: usize = 0;
                while i < view.loaded.len()
                    invariant
                        i == names@.len(),
                        i <= view.loaded@.len(),
                        loaded == view.loaded.deep_view(),
                        forall|j: int| 0 <= j < i ==> (#[trigger] names@[j])@ == loaded[j].name,
                    decreases view.loaded@.len() - i,
                {
                    names.push(view.loaded[i].name.dup());
                    i += 1;
                }
                assert(names.deep_view() =~= skill_names(loaded));
                let directory_count: usize = view.directory.len();
                self.emit(Event::SkillsInjected { names, directory_count });
                self.view = Some(view);
                self.phase = Phase::DecideCheckpoint;
            },
        }
    }

    fn find_step_flaw(&self, skills: &Vec<Skill>) -> (r: Option<String>)
        requires
            self@.active matches Some(execution) && execution.progress.completed
                < execution.progress.actions.len(),
        ensures
            r.deep_view() == step_flaw(
                self@.action(),
                skills.deep_view(),
                self@.selected,
                self@.options.skill_mode,
            ),
    {
        let action: &Action = match &self.active {
            Some(execution) => &execution.progress.actions[execution.progress.completed],
            None => {
                return None;
            },
        };
        let name: &str = action.call().name.as_str();
        let found: Option<&Skill> = find_skill(skills, name);
        let reason: &str = match found {
            None => "unknown skill",
            Some(skill) => if !skill.availability.is_available() {
                "skill unavailable"
            } else if self.options.skill_mode == SkillMode::OnDemand && !text::holds(
                &self.selected,
                name,
            ) {
                "skill is not loaded; request LoadSkills first"
            } else if matches!(action, Action::Repeat(_)) && !skill.repeatable {
                "skill is no longer repeatable"
            } else if matches!(action, Action::UntilDone(_)) && !skill.loopable {
                "skill no longer supports local continuation"
            } else {
                return None;
            },
        };
        let shown: String = match found {
            None => "None".to_owned(),
            Some(skill) => text::cat3("Some(", skill.availability.show().as_str(), ")"),
        };
        let mut message: String = text::cat3(reason, ": ", name);
        message.append(" (");
        message.append(shown.as_str());
        message.append(")");
        Some(message)
    }

    fn context_of_round(&mut self, reply: Result<DecisionContext, AdapterError>)
        requires
            old(self)@.phase == Phase::RoundContext,
        ensures
            final(self)@ == old(self)@.on_context(context_of(reply)),
            final(self).guard == old(self).guard,
    {
        proof {
            reveal(RunModel::on_context);
        }
        match reply {
            Err(error) => {
                self.fail(FailureStage::Context, None, error.message());
                self.break_off(Error::Adapter(error));
            },
            Ok(context) => self.show(context),
        }
    }

    fn context_of_action(&mut self, reply: Result<DecisionContext, AdapterError>)
        requires
            old(self)@.phase == Phase::StepContext,
            old(self)@.active matches Some(execution) && execution.progress.completed
                < execution.progress.actions.len(),
        ensures
            final(self)@ == old(self)@.on_context(context_of(reply)),
            final(self).guard == old(self).guard,
    {
        proof {
            reveal(RunModel::on_context);
        }
        match reply {
            Err(error) => {
                self.fail(FailureStage::Context, None, error.message());
                self.interrupt(error.message());
            },
            Ok(context) => {
                let call: ToolCall = self.action_call();
                match self.find_step_flaw(&context.skills) {
                    Some(message) => {
                        let result: ToolResult = ToolResult {
                            outcome: None,
                            call: call.dup(),
                            success: false,
                            message: message.dup(),
                        };
                        self.fail(FailureStage::Availability, Some(call), message.dup());
                        self.blame();
                        self.emit(Event::Executed(result.dup()));
                        self.previous = Some(result);
                        self.finish_drive(ExecutionStatus::Interrupted, message);
                    },
                    None => {
                        let (index, total): (usize, usize) = match &self.active {
                            Some(execution) => (
                                execution.progress.completed,
                                execution.progress.actions.len(),
                            ),
                            None => (0, 0),
                        };
                        assert(self@.active->0.progress.actions.len() == total);
                        self.emit(Event::ActionStarted { index, total, call });
                        self.phase = Phase::StepLog;
                    },
                }
            },
        }
    }

    fn context_of_repetition(&mut self, reply: Result<DecisionContext, AdapterError>)
        requires
            old(self)@.phase == Phase::BatchContext,
            old(self)@.active matches Some(execution) && execution.batch is Some
                && execution.progress.completed < execution.progress.actions.len(),
        ensures
            final(self)@ == old(self)@.on_context(context_of(reply)),
            final(self).guard == old(self).guard,
    {
        proof {
            reveal(RunModel::on_context);
        }
        let call: ToolCall = self.batch_call();
        match reply {
            Err(error) => {
                self.fail_batch(FailureStage::Context, Some(call), error.message());
            },
            Ok(context) => {
                let flaw: Option<String> = match &self.active {
                    Some(execution) => match &execution.batch {
                        Some(batch) => batch.find_capability_flaw(&context.skills),
                        None => None,
                    },
                    None => None,
                };
                match flaw {
                    Some(message) => {
                        self.fail_batch(FailureStage::Availability, Some(call), message);
                    },
                    None => {
                        self.phase = Phase::BatchLog;
                    },
                }
            },
        }
    
    }

    /// Skills and guidance, or why there are none.
    pub fn context(&mut self, reply: Result<DecisionContext, AdapterError>)
        requires
            old(self).wf(),
        ensures
            final(self).wf(),
            final(self)@ == old(self)@.on_context(context_of(reply)),
    {
        proof {
            contexts_keep_runs_sound(self@, context_of(reply));
        }
        match self.phase {
            Phase::RoundContext => self.context_of_round(reply),
            Phase::StepContext => self.context_of_action(reply),
            Phase::BatchContext => self.context_of_repetition(reply),
            _ => {
                proof {
                    reveal(RunModel::on_context);
                }
            },
        }
    }

    /// What came of waiting for a decision.
    pub fn decided(&mut self, reply: DecisionReply)
        requires
            old(self).wf(),
        ensures
            final(self).wf(),
            final(self)@ == old(self)@.on_decided(reply@),
    {
        proof {
            reveal(RunModel::on_decided);
            decisions_keep_runs_sound(self@, reply@);
        }
        if self.phase != Phase::Deciding {
            return ;
        }
        let decisions: usize = self.step - 1;
        match reply {
            DecisionReply::Cancelled(signal) => {
                let _limited = self.check_pending(signal);
                self.stop_pending(
                    ExecutionStatus::Cancelled,
                    "cancelled while waiting for decision",
                );
                self.end_pending(
                    Status::Cancelled,
                    "cancelled while waiting for decision".to_owned(),
                    decisions,
                );
            },
            DecisionReply::DeadlineReached(signal) => {
                let _limited = self.check_pending(signal);
                self.end_pending(Status::Failed, "batch deadline exceeded".to_owned(), decisions);
            },
            DecisionReply::Decided(decision) => {
                self.emit(Event::Decided(decision.dup()));
                self.decision = Some(decision);
                self.phase = Phase::DecidedCheckpoint;
            },
            DecisionReply::Failed(error) => self.break_off(error),
        }
    }

    fn start_batch(&mut self, now: Nanos)
        requires
            old(self)@.active matches Some(execution) && execution.progress.completed
                < execution.progress.actions.len(),
            !(old(self)@.action() is Call),
        ensures
            final(self)@ == ({
                let batch = old(self)@.started_batch(now);
                old(self)@.with_batch(
                    batch.stopped(BatchStatus::Running, batch.progress.message),
                ).report_batch().at(Phase::BatchCheckpoint)
            }),
            final(self).guard == old(self).guard,
    {
        let mut taken: Option<ActiveExecution> = None;
        std::mem::swap(&mut taken, &mut self.active);
        if let Some(mut execution) = taken {
            let mut inner: Option<ActiveBatch> = None;
            std::mem::swap(&mut inner, &mut execution.batch);
            let mut batch: ActiveBatch = match inner {
                Some(batch) => batch,
                None => {
                    let request: BatchRequest = match &execution.progress.actions[execution.progress.completed] {
                        Action::Repeat(request) => BatchRequest::Repeat(request.dup()),
                        Action::UntilDone(call) => BatchRequest::UntilDone(call.dup()),
                        Action::Call(call) => BatchRequest::UntilDone(call.dup()),
                    };
                    ActiveBatch::new(
                        request,
                        execution.progress.continuation,
                        self.options.batch_timeout,
                        self.options.max_batch_attempts,
                        now,
                    )
                },
            };
            let message: String = batch.progress.message.dup();
            batch.stop(BatchStatus::Running, message, &mut self.events);
            execution.batch = Some(batch);
            self.active = Some(execution);
            self.phase = Phase::BatchCheckpoint;
        }
    }

    /// Whether the journal can be written, and the instant at which an action starts.
    pub fn logged(&mut self, reply: Result<(), Error>, now: Nanos)
        requires
            old(self).wf(),
        ensures
            final(self).wf(),
            final(self)@ == old(self)@.on_log(unit_reply(reply), now),
    {
        proof {
            reveal(RunModel::on_log);
            logs_keep_runs_sound(self@, unit_reply(reply), now);
        }
        match self.phase {
            Phase::StepLog => match reply {
                Err(error) => self.break_off(error),
                Ok(()) => {
                    let plain: bool = match &self.active {
                        Some(execution) => matches!(
                            execution.progress.actions[execution.progress.completed],
                            Action::Call(_)
                        ),
                        None => true,
                    };
                    if plain {
                        self.phase = Phase::CallExecute;
                    } else {
                        self.start_batch(now);
                    }
                },
            },
            Phase::BatchLog => match reply {
                Err(error) => self.finish_batch(BatchStatus::Interrupted, error.message()),
                Ok(()) => {
                    let mut taken: Option<ActiveExecution> = None;
                    std::mem::swap(&mut taken, &mut self.active);
                    if let Some(mut execution) = taken {
                        let mut inner: Option<ActiveBatch> = None;
                        std::mem::swap(&mut inner, &mut execution.batch);
                        if let Some(mut batch) = inner {
                            batch.attempt();
                            execution.batch = Some(batch);
                        }
                        self.active = Some(execution);
                        self.phase = Phase::BatchExecute;
                    }
                },
            },
            _ => {},
        }
    }

    fn note_result(&mut self, result: &ToolResult)
        ensures
            final(self)@ == old(self)@.resulted(result@),
            final(self).guard == old(self).guard,
    {
        self.failure = None;
        if !result.success {
            self.fail(FailureStage::Execution, Some(result.call.dup()), result.message.dup());
        }
    }

    fn call_executed(&mut self, report: Result<ActionReport, AdapterError>)
        requires
            old(self).guard.wf(),
            old(self)@.phase == Phase::CallExecute,
            old(self)@.active matches Some(execution) && execution.progress.completed
                < execution.progress.actions.len(),
        ensures
            final(self)@ == old(self)@.on_executed(answer(report)),
            final(self).guard.wf(),
    {
        proof {
            reveal(RunModel::on_executed);
        }
        let call: ToolCall = self.action_call();
        let limit: u32 = self.options.max_repeated_failures;
        let verdict: Option<String> = self.guard.action(&call, &report, limit);
        let (result, halt): (ToolResult, ExecutionStatus) = match report {
            Ok(report) => (
                ToolResult {
                    outcome: Some(report.outcome),
                    call,
                    success: matches!(report.outcome, ActionOutcome::Completed { .. }),
                    message: report.message,
                },
                ExecutionStatus::Interrupted,
            ),
            Err(error) => {
                let halt: ExecutionStatus = match error {
                    AdapterError::Cancelled => ExecutionStatus::Cancelled,
                    AdapterError::TimedOut => ExecutionStatus::Failed,
                    _ => ExecutionStatus::Interrupted,
                };
                (
                    ToolResult { outcome: None, call, success: false, message: error.message() },
                    halt,
                )
            },
        };
        if result.success {
            let mut taken: Option<ActiveExecution> = None;
            std::mem::swap(&mut taken, &mut self.active);
            if let Some(mut execution) = taken {
                let total: usize = execution.progress.actions.len();
                assert(execution@.progress.actions.len() == total);
                execution.progress.completed = execution.progress.completed + 1;
                self.active = Some(execution);
            }
        }
        self.note_result(&result);
        self.emit(Event::Executed(result.dup()));
        self.previous = Some(result);
        match verdict {
            Some(reason) => {
                self.blame();
                self.verdict = reason;
                self.phase = Phase::CallSignal;
            },
            None => {
                self.halt = halt;
                self.phase = Phase::CallObserve;
            },
        }
    }

    fn batch_executed(&mut self, report: Result<ActionReport, AdapterError>)
        requires
            old(self).guard.wf(),
            old(self)@.phase == Phase::BatchExecute,
            old(self)@.active matches Some(execution) && execution.batch is Some,
            old(self)@.batch().wf(),
            !old(self)@.batch().progress.finished,
            old(self)@.batch().progress.completed < old(self)@.batch().progress.attempts,
        ensures
            final(self)@ == old(self)@.on_executed(answer(report)),
            final(self).guard.wf(),
    {
        proof {
            reveal(RunModel::on_executed);
        }
        let call: ToolCall = self.batch_call();
        let limit: u32 = self.options.max_repeated_failures;
        let verdict: Option<String> = self.guard.action(&call, &report, limit);
        let mut taken: Option<ActiveExecution> = None;
        std::mem::swap(&mut taken, &mut self.active);
        if let Some(mut execution) = taken {
            let mut inner: Option<ActiveBatch> = None;
            std::mem::swap(&mut inner, &mut execution.batch);
            if let Some(mut batch) = inner {
                let (result, halt) = batch.settle(report);
                execution.batch = Some(batch);
                self.active = Some(execution);
                self.note_result(&result);
                self.previous = Some(result);
                match verdict {
                    Some(reason) => {
                        self.verdict = reason;
                        self.phase = Phase::BatchStopSignal;
                    },
                    None => {
                        self.batch_halt = halt;
                        self.phase = Phase::BatchPostObserve;
                    },
                }
            }
        }
    }

    /// What the adapter answered to an execution.
    pub fn executed(&mut self, report: Result<ActionReport, AdapterError>)
        requires
            old(self).wf(),
        ensures
            final(self).wf(),
            final(self)@ == old(self)@.on_executed(answer(report)),
    {
        proof {
            executions_keep_runs_sound(self@, answer(report));
        }
        match self.phase {
            Phase::CallExecute => self.call_executed(report),
            Phase::BatchExecute => self.batch_executed(report),
            _ => {
                proof {
                    reveal(RunModel::on_executed);
                }
            },
        }
    }

    /// What the run waits for.
    pub fn phase(&self) -> (r: Phase)
        ensures
            r == self@.phase,
    {
        self.phase
    }

    /// The goal of the task.
    pub fn goal(&self) -> (r: &str)
        ensures
            r@ == self@.goal,
    {
        self.goal.as_str()
    }

    /// The latest observation.
    pub fn state(&self) -> (r: &AppState)
        ensures
            r@ == self@.state,
    {
        &self.state
    }

    /// The latest execution feedback.
    pub fn previous(&self) -> (r: &Option<ToolResult>)
        ensures
            r.deep_view() == self@.previous,
    {
        &self.previous
    }

    /// The latest failure of an operation.
    pub fn failure(&self) -> (r: &Option<ExecutionFailure>)
        ensures
            r.deep_view() == self@.failure,
    {
        &self.failure
    }

    /// The unresolved interruption, kept even after a repair succeeds.
    pub fn interruption(&self) -> (r: &Option<ExecutionFailure>)
        ensures
            r.deep_view() == self@.interruption,
    {
        &self.interruption
    }

    /// What the agent is shown.
    pub fn skill_view(&self) -> (r: &Option<SkillView>)
        ensures
            r.deep_view() == self@.view,
    {
        &self.view
    }

    /// Hands out what was reported since the last time.
    pub fn take_events(&mut self) -> (r: Vec<Event>)
        requires
            old(self).wf(),
        ensures
            r.deep_view() == old(self)@.events,
            final(self)@ == (RunModel { events: Seq::empty(), ..old(self)@ }),
            final(self).wf(),
    {
        let mut events: Vec<Event> = Vec::new();
        std::mem::swap(&mut events, &mut self.events);
        assert(self.events.deep_view() =~= Seq::<EventModel>::empty());
        events
    }

    /// The end of a run that is done: its outcome or its error.
    pub fn conclude(self) -> (r: Result<Outcome, Error>)
        requires
            self.wf(),
            self@.phase == Phase::Done,
        ensures
            match r {
                Ok(outcome) => self@.outcome == Some(outcome@),
                Err(error) => self@.error == Some(error@),
            },
    {
        match self.outcome {
            Some(outcome) => Ok(outcome),
            None => match self.error {
                Some(error) => Err(error),
                None => Err(Error::Invalid(String::new())),
            },
        }
    }
}

} // verus!
