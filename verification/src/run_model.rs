//! How a run moves from one reply of its host to the next, stated on what the run says.
use crate::api::{
    skill_named, ActionModel, ActionReportModel, AdapterErrorModel, AppStateModel,
    DecisionContextModel, ExecutionFailureModel, FailureStage, SkillModel, ToolCallModel,
    ToolResultModel,
};
use crate::batch::{
    stop_status, ActiveBatchModel, BatchProgressModel, BatchRequestModel, BatchStatus,
};
use crate::clock::{after, Nanos};
use crate::execution::{
    counts_positive, replacement_preserves_confirmed_work, replacements_keep_executions_sound,
    ActiveExecutionModel, ExecutionProgressModel, ExecutionStatus,
};
use crate::failure_guard::FailureGuardModel;
use crate::kernel::{
    action_flaw, flawless_plans_are_sound, plan_flaw, refusal, Continuation, DecisionModel,
    ErrorModel, EventModel, OutcomeModel, RunOptions, Signal, Status,
};
use crate::metrics::{CallCounts, TaskSummary};
use crate::skills::{
    names_sound, selection, skill_view, LoadResultModel, LoadSkillsModel, SkillMode, SkillViewModel,
};
use crate::text::Text;
use vstd::prelude::*;

verus! {

/// What a run waits for.
#[derive(Debug, Clone, Copy, PartialEq, Eq, Structural)]
pub enum Phase {
    /// A safe boundary before the start.
    Starting,
    /// Whether the task was cancelled before its start.
    StartSignal,
    /// The first observation.
    FirstObserve,
    /// A safe boundary before a decision round.
    RoundCheckpoint,
    /// Whether a bound was reached before a decision round.
    RoundSignal,
    /// Skills and guidance for a decision.
    RoundContext,
    /// A safe boundary before the agent is asked.
    DecideCheckpoint,
    /// The agent's decision.
    Deciding,
    /// A safe boundary before a decision is applied.
    DecidedCheckpoint,
    /// Whether a bound was reached while the agent decided.
    DecidedSignal,
    /// The observation that ends a round without execution.
    Reobserve,
    /// The observation that confirms an execution whose actions are all done.
    ResumeObserve,
    /// A safe boundary before an action.
    StepCheckpoint,
    /// Whether a bound was reached before an action.
    StepSignal,
    /// The observation before an action.
    StepObserve,
    /// The skills before an action.
    StepContext,
    /// Whether the journal can still be written before an action.
    StepLog,
    /// The execution of a plain call.
    CallExecute,
    /// Whether a call that failed too often was cancelled.
    CallSignal,
    /// The observation after a plain call.
    CallObserve,
    /// Whether the task was cancelled when all actions were done.
    EndSignal,
    /// A safe boundary before a repetition.
    BatchCheckpoint,
    /// Whether a bound was reached before a repetition.
    BatchSignal,
    /// The observation before a repetition.
    BatchObserve,
    /// The skills before a repetition.
    BatchContext,
    /// Whether the journal can still be written before a repetition.
    BatchLog,
    /// The execution of a repetition.
    BatchExecute,
    /// Whether a bound was reached when a repetition failed too often.
    BatchStopSignal,
    /// The observation after a repetition.
    BatchPostObserve,
    /// Whether a bound was reached after a repetition.
    BatchEndSignal,
    /// Whether the task was cancelled after an execution.
    AfterSignal,
    /// Nothing: the run has ended.
    Done,
}

/// What a run asks its host for.
#[verifier::ext_equal]
pub enum RequestModel {
    Checkpoint { deadline: Option<Nanos> },
    Signal,
    Observe,
    Context { step: usize },
    Decide { deadline: Option<Nanos> },
    CheckLog,
    Execute { call: ToolCallModel, deadline: Option<Nanos> },
    Done,
}

/// What the host brings back from waiting for a decision.
#[verifier::ext_equal]
pub enum DecisionReplyModel {
    Cancelled(Signal),
    DeadlineReached(Signal),
    Decided(DecisionModel),
    Failed(ErrorModel),
}

/// A run as contracts see it.
#[verifier::ext_equal]
pub struct RunModel {
    pub goal: Text,
    pub options: RunOptions,
    pub local: bool,
    pub phase: Phase,
    pub step: usize,
    pub state: AppStateModel,
    pub previous: Option<ToolResultModel>,
    pub failure: Option<ExecutionFailureModel>,
    pub interruption: Option<ExecutionFailureModel>,
    pub guard: FailureGuardModel,
    pub selected: Seq<Text>,
    pub last_load: Option<LoadResultModel>,
    pub skills: Seq<SkillModel>,
    pub view: Option<SkillViewModel>,
    pub decision: Option<DecisionModel>,
    pub pending: Option<ActiveExecutionModel>,
    pub active: Option<ActiveExecutionModel>,
    pub verdict: Text,
    pub halt: ExecutionStatus,
    pub batch_halt: BatchStatus,
    pub events: Seq<EventModel>,
    pub outcome: Option<OutcomeModel>,
    pub error: Option<ErrorModel>,
}

/// No calls and no time.
pub open spec fn no_summary() -> TaskSummary {
    let none = CallCounts { total: 0, succeeded: 0, failed: 0 };
    TaskSummary { model_requests: none, actions: none, interruptions: 0, elapsed_ms: 0 }
}

/// Why an action cannot be executed now, if it cannot.
pub open spec fn step_reason(
    action: ActionModel,
    skills: Seq<SkillModel>,
    selected: Seq<Text>,
    mode: SkillMode,
) -> Option<Text> {
    match skill_named(skills, action.call().name) {
        None => Some("unknown skill"@),
        Some(skill) => if !(skill.availability is Available) {
            Some("skill unavailable"@)
        } else if mode == SkillMode::OnDemand && !selected.contains(action.call().name) {
            Some("skill is not loaded; request LoadSkills first"@)
        } else if action is Repeat && !skill.repeatable {
            Some("skill is no longer repeatable"@)
        } else if action is UntilDone && !skill.loopable {
            Some("skill no longer supports local continuation"@)
        } else {
            None
        },
    }
}

/// The availability of a skill that may not exist, as a diagnostic message shows it.
pub open spec fn shown_availability(skill: Option<SkillModel>) -> Text {
    match skill {
        None => "None"@,
        Some(skill) => "Some("@ + skill.availability.shown() + ")"@,
    }
}

/// The message of an action that cannot be executed now.
pub open spec fn step_flaw(
    action: ActionModel,
    skills: Seq<SkillModel>,
    selected: Seq<Text>,
    mode: SkillMode,
) -> Option<Text> {
    match step_reason(action, skills, selected, mode) {
        None => None,
        Some(reason) => Some(
            reason + ": "@ + action.call().name + " ("@ + shown_availability(
                skill_named(skills, action.call().name),
            ) + ")"@,
        ),
    }
}

/// What a plain call is reported as: only a completed one succeeds.
pub open spec fn call_result(
    call: ToolCallModel,
    report: Result<ActionReportModel, AdapterErrorModel>,
) -> ToolResultModel {
    match report {
        Ok(report) => ToolResultModel {
            outcome: Some(report.outcome),
            call,
            success: report.outcome is Completed,
            message: report.message,
        },
        Err(error) => ToolResultModel {
            outcome: None,
            call,
            success: false,
            message: error.message(),
        },
    }
}

/// How a plain call that did not succeed stops the execution.
pub open spec fn call_halt(
    report: Result<ActionReportModel, AdapterErrorModel>,
) -> ExecutionStatus {
    match report {
        Err(AdapterErrorModel::Cancelled) => ExecutionStatus::Cancelled,
        Err(AdapterErrorModel::TimedOut) => ExecutionStatus::Failed,
        _ => ExecutionStatus::Interrupted,
    }
}

/// How a repetition that did not complete stops the execution.
pub open spec fn batch_halts(status: BatchStatus) -> Option<ExecutionStatus> {
    match status {
        BatchStatus::Completed => None,
        BatchStatus::Cancelled => Some(ExecutionStatus::Cancelled),
        BatchStatus::TimedOut | BatchStatus::AttemptLimit | BatchStatus::Failed => Some(
            ExecutionStatus::Failed,
        ),
        BatchStatus::Running | BatchStatus::Interrupted => Some(ExecutionStatus::Interrupted),
    }
}

/// The end of a task that an execution's end brings.
pub open spec fn end_status(status: ExecutionStatus) -> Status {
    if status == ExecutionStatus::Cancelled {
        Status::Cancelled
    } else {
        Status::Failed
    }
}

/// Why an execution may not be started beside an interrupted one, if it may not: only one
/// repair call may, and not the call that is pending.
pub open spec fn repair_flaw(
    pending: Option<ActiveExecutionModel>,
    actions: Seq<ActionModel>,
    continuation: Continuation,
) -> Option<ExecutionFailureModel> {
    match pending {
        None => None,
        Some(active) => if continuation != Continuation::Decide || actions.len() != 1
            || !(actions[0] is Call) {
            Some(refusal(None, "execution pending: use Resume or one repair Call with Decide"@))
        } else if active.pending_call() matches Some(call) && call.name == actions[0].call().name {
            Some(
                refusal(
                    Some(actions[0].call()),
                    "use Resume for the pending action; direct calls would lose progress"@,
                ),
            )
        } else {
            None
        },
    }
}

/// Why the unfinished actions of an interrupted execution may not be replaced, if they may not.
pub open spec fn replace_flaw(
    pending: Option<ActiveExecutionModel>,
    actions: Seq<ActionModel>,
) -> Option<ExecutionFailureModel> {
    match pending {
        None => Some(refusal(None, "no interrupted execution to replace"@)),
        Some(active) => match active.replacement_flaw(actions) {
            Some(message) => Some(refusal(None, message)),
            None => None,
        },
    }
}

impl RunModel {
    /// A run that has not started.
    pub open spec fn fresh(goal: Text, options: RunOptions) -> Self {
        RunModel {
            goal,
            options,
            local: false,
            phase: Phase::Starting,
            step: 0,
            state: AppStateModel {
                scene: "unobserved"@,
                facts: crate::json::JsonModel::empty(),
            },
            previous: None,
            failure: None,
            interruption: None,
            guard: FailureGuardModel::empty(),
            selected: Seq::empty(),
            last_load: None,
            skills: Seq::empty(),
            view: None,
            decision: None,
            pending: None,
            active: None,
            verdict: Seq::empty(),
            halt: ExecutionStatus::Running,
            batch_halt: BatchStatus::Running,
            events: Seq::empty(),
            outcome: None,
            error: None,
        }
    }

    /// A run of a prepared request that has not started; it needs no loaded skills.
    pub open spec fn prepared(goal: Text, options: RunOptions, actions: Seq<ActionModel>) -> Self {
        RunModel {
            local: true,
            active: Some(ActiveExecutionModel::fresh(actions, Continuation::Finish)),
            ..Self::fresh(goal, RunOptions { skill_mode: SkillMode::All, ..options })
        }
    }

    pub open spec fn at(self, phase: Phase) -> Self {
        RunModel { phase, ..self }
    }

    pub open spec fn emit(self, event: EventModel) -> Self {
        RunModel { events: self.events.push(event), ..self }
    }

    /// The run ended with an outcome that shows an execution.
    pub open spec fn ended(
        self,
        status: Status,
        reason: Text,
        decisions: usize,
        execution: Option<ActiveExecutionModel>,
    ) -> Self {
        RunModel {
            phase: Phase::Done,
            outcome: Some(
                OutcomeModel {
                    summary: no_summary(),
                    execution: match execution {
                        Some(e) => Some(e.progress),
                        None => None,
                    },
                    batch: match execution {
                        Some(e) => match e.batch {
                            Some(batch) => Some(batch.progress),
                            None => None,
                        },
                        None => None,
                    },
                    status,
                    reason,
                    decisions,
                    state: self.state,
                },
            ),
            ..self
        }
    }

    /// The run ended with an error.
    pub open spec fn broken(self, error: ErrorModel) -> Self {
        RunModel { phase: Phase::Done, error: Some(error), ..self }
    }

    /// An operation failed.
    pub open spec fn failed(
        self,
        stage: FailureStage,
        call: Option<ToolCallModel>,
        message: Text,
    ) -> Self {
        let failure = ExecutionFailureModel { stage, call, message };
        RunModel { failure: Some(failure), ..self.emit(EventModel::ExecutionFailed(failure)) }
    }

    /// A new observation; a failure to observe is over with it.
    pub open spec fn noticed(self, state: AppStateModel) -> Self {
        RunModel {
            state,
            failure: if self.failure matches Some(f) && f.stage == FailureStage::Observation {
                None
            } else {
                self.failure
            },
            ..self
        }
    }

    /// A new observation that is reported.
    pub open spec fn observed(self, state: AppStateModel) -> Self {
        self.noticed(state).emit(EventModel::Observed(state))
    }

    /// The pending execution with a new status, reported.
    pub open spec fn stop_pending(self, status: ExecutionStatus, message: Text) -> Self {
        match self.pending {
            None => self,
            Some(active) => RunModel {
                pending: Some(active.stopped(status, message)),
                ..self.emit(
                    EventModel::ExecutionProgress(active.stopped(status, message).progress),
                )
            },
        }
    }

    /// The pending execution after its bounds were checked.
    pub open spec fn check_pending(self, signal: Signal) -> Self {
        match self.pending {
            None => self,
            Some(active) => RunModel {
                pending: Some(active.checked(signal)),
                events: self.events + active.limit_events(signal),
                ..self
            },
        }
    }

    /// Whether a bound of the pending execution is reached.
    pub open spec fn pending_limited(self, signal: Signal) -> bool {
        self.pending matches Some(active) && active.limit(signal) is Some
    }

    pub open spec fn pending_deadline(self) -> Option<Nanos> {
        match self.pending {
            Some(active) => active.deadline(),
            None => None,
        }
    }

    /// The end that cancellation brings, the pending execution reported.
    #[verifier::opaque]
    pub open spec fn cancelled_end(self, decisions: usize) -> Self {
        let stopped = self.stop_pending(ExecutionStatus::Cancelled, "cancelled by user"@);
        stopped.ended(Status::Cancelled, "cancelled by user"@, decisions, stopped.pending)
    }

    /// The end that a bound of the pending execution or cancellation brings, if one does.
    #[verifier::opaque]
    pub open spec fn bounded_end(self, signal: Signal, decisions: usize) -> Option<Self> {
        if self.pending_limited(signal) {
            let checked = self.check_pending(signal);
            let pending = checked.pending->0;
            Some(
                checked.ended(
                    end_status(pending.progress.status),
                    pending.progress.message,
                    decisions,
                    checked.pending,
                ),
            )
        } else if signal.cancelled {
            Some(self.cancelled_end(decisions))
        } else {
            None
        }
    }

    /// The next decision round, or the end where none is left.
    #[verifier::opaque]
    pub open spec fn next_round(self) -> Self {
        if self.step < self.options.max_decisions {
            RunModel { step: (self.step + 1) as usize, ..self.at(Phase::RoundCheckpoint) }
        } else {
            let stopped = self.stop_pending(ExecutionStatus::Failed, "decision limit reached"@);
            stopped.ended(
                Status::Failed,
                "decision limit reached"@,
                self.options.max_decisions,
                stopped.pending,
            )
        }
    }

    /// What follows an execution.
    #[verifier::opaque]
    pub open spec fn after_drive(self) -> Self {
        let execution = self.active->0;
        let progress = execution.progress;
        if self.local {
            self.ended(
                if progress.status == ExecutionStatus::Completed {
                    Status::Completed
                } else {
                    end_status(progress.status)
                },
                progress.message,
                0,
                self.active,
            )
        } else if progress.status == ExecutionStatus::Completed && progress.continuation
            == Continuation::Finish {
            self.ended(Status::Completed, progress.message, self.step, self.active)
        } else if progress.status == ExecutionStatus::Cancelled || progress.status
            == ExecutionStatus::Failed {
            let stopped = self.stop_pending(progress.status, progress.message);
            stopped.ended(
                end_status(progress.status),
                progress.message,
                self.step,
                if stopped.pending is Some {
                    stopped.pending
                } else {
                    self.active
                },
            )
        } else if progress.status == ExecutionStatus::Interrupted && execution.retained()
            && self.pending is None {
            RunModel { pending: self.active, active: None, ..self.at(Phase::AfterSignal) }
        } else {
            RunModel { active: None, ..self.at(Phase::AfterSignal) }
        }
    }

    /// The execution with another state, not reported.
    pub open spec fn with_active(self, execution: ActiveExecutionModel) -> Self {
        RunModel { active: Some(execution), ..self }
    }

    /// The execution shows the failure that stops it.
    pub open spec fn blame(self) -> Self {
        let execution = self.active->0;
        self.with_active(
            ActiveExecutionModel {
                progress: ExecutionProgressModel { failure: self.failure, ..execution.progress },
                ..execution
            },
        )
    }

    /// The execution with a new status, reported.
    pub open spec fn stop_active(self, status: ExecutionStatus, message: Text) -> Self {
        let stopped = self.active->0.stopped(status, message);
        self.with_active(stopped).emit(EventModel::ExecutionProgress(stopped.progress))
    }

    /// The end of the execution with a new status.
    pub open spec fn finish_drive(self, status: ExecutionStatus, message: Text) -> Self {
        self.stop_active(status, message).after_drive()
    }

    /// The start of an execution, or its resumption.
    #[verifier::opaque]
    pub open spec fn begin_drive(self) -> Self {
        let execution = self.active->0;
        let cleared = self.with_active(
            ActiveExecutionModel {
                progress: ExecutionProgressModel { failure: None, ..execution.progress },
                ..execution
            },
        );
        cleared.stop_active(ExecutionStatus::Running, "executing"@).at(
            if execution.progress.completed == execution.progress.actions.len() {
                Phase::ResumeObserve
            } else {
                Phase::StepCheckpoint
            },
        )
    }

    /// The next action, or the end of the execution.
    pub open spec fn next_action(self) -> Self {
        let progress = self.active->0.progress;
        self.at(
            if progress.completed < progress.actions.len() {
                Phase::StepCheckpoint
            } else {
                Phase::EndSignal
            },
        )
    }

    /// One more action is confirmed; only the last repetition is kept.
    pub open spec fn confirm_action(self) -> Self {
        let execution = self.active->0;
        let progress = ExecutionProgressModel {
            completed: execution.progress.completed + 1,
            ..execution.progress
        };
        self.with_active(
            ActiveExecutionModel {
                progress,
                batch: if progress.completed < progress.actions.len() {
                    None
                } else {
                    execution.batch
                },
                ..execution
            },
        )
    }

    pub open spec fn report_active(self) -> Self {
        self.emit(EventModel::ExecutionProgress(self.active->0.progress))
    }

    /// The next action of the execution.
    pub open spec fn action(self) -> ActionModel {
        let progress = self.active->0.progress;
        progress.actions[progress.completed as int]
    }

    /// The repetition under way.
    pub open spec fn batch(self) -> ActiveBatchModel {
        self.active->0.batch->0
    }

    pub open spec fn with_batch(self, batch: ActiveBatchModel) -> Self {
        self.with_active(ActiveExecutionModel { batch: Some(batch), ..self.active->0 })
    }

    pub open spec fn report_batch(self) -> Self {
        self.emit(EventModel::BatchProgress(self.batch().progress))
    }

    /// The repetition with a new status, reported.
    pub open spec fn stop_batch(self, status: BatchStatus, message: Text) -> Self {
        self.with_batch(self.batch().stopped(status, message)).report_batch()
    }

    /// What follows a repetition that stopped.
    #[verifier::opaque]
    pub open spec fn after_batch(self) -> Self {
        let progress = self.batch().progress;
        match batch_halts(progress.status) {
            Some(status) => self.blame().finish_drive(status, progress.message),
            None => self.confirm_action().report_active().next_action(),
        }
    }

    /// The end of the repetition with a new status.
    pub open spec fn finish_batch(self, status: BatchStatus, message: Text) -> Self {
        self.stop_batch(status, message).after_batch()
    }

    /// The end of the repetition by a failed operation.
    pub open spec fn batch_failed(
        self,
        stage: FailureStage,
        call: Option<ToolCallModel>,
        message: Text,
    ) -> Self {
        self.failed(stage, call, message).finish_batch(BatchStatus::Interrupted, message)
    }

    /// The end that a bound of the repetition brings, if one does.
    pub open spec fn batch_bounded(self, signal: Signal) -> Option<Self> {
        match self.batch().limit(signal) {
            Some((status, message)) => Some(self.finish_batch(status, message)),
            None => None,
        }
    }

    /// What the run asks its host for.
    pub open spec fn request(self) -> RequestModel {
        match self.phase {
            Phase::Starting => RequestModel::Checkpoint { deadline: None },
            Phase::RoundCheckpoint
            | Phase::DecideCheckpoint
            | Phase::DecidedCheckpoint => RequestModel::Checkpoint {
                deadline: self.pending_deadline(),
            },
            Phase::StepCheckpoint | Phase::BatchCheckpoint => RequestModel::Checkpoint {
                deadline: self.active->0.deadline(),
            },
            Phase::StartSignal
            | Phase::RoundSignal
            | Phase::DecidedSignal
            | Phase::StepSignal
            | Phase::CallSignal
            | Phase::EndSignal
            | Phase::BatchSignal
            | Phase::BatchStopSignal
            | Phase::BatchEndSignal
            | Phase::AfterSignal => RequestModel::Signal,
            Phase::FirstObserve
            | Phase::Reobserve
            | Phase::ResumeObserve
            | Phase::StepObserve
            | Phase::CallObserve
            | Phase::BatchObserve
            | Phase::BatchPostObserve => RequestModel::Observe,
            Phase::RoundContext | Phase::StepContext | Phase::BatchContext => RequestModel::Context {
                step: self.step,
            },
            Phase::Deciding => RequestModel::Decide { deadline: self.pending_deadline() },
            Phase::StepLog | Phase::BatchLog => RequestModel::CheckLog,
            Phase::CallExecute => RequestModel::Execute {
                call: self.action().call(),
                deadline: None,
            },
            Phase::BatchExecute => RequestModel::Execute {
                call: self.batch().progress.request.call(),
                deadline: self.batch().deadline,
            },
            Phase::Done => RequestModel::Done,
        }
    }

    /// The reply to a safe boundary.
    #[verifier::opaque]
    pub open spec fn on_checkpoint(self, reply: Result<(), ErrorModel>) -> Self {
        match self.phase {
            Phase::BatchCheckpoint => match reply {
                Ok(()) => self.at(Phase::BatchSignal),
                Err(error) => self.finish_batch(BatchStatus::Interrupted, error.message()),
            },
            Phase::Starting
            | Phase::RoundCheckpoint
            | Phase::DecideCheckpoint
            | Phase::DecidedCheckpoint
            | Phase::StepCheckpoint => match reply {
                Ok(()) => self.at(
                    match self.phase {
                        Phase::Starting => Phase::StartSignal,
                        Phase::RoundCheckpoint => Phase::RoundSignal,
                        Phase::DecideCheckpoint => Phase::Deciding,
                        Phase::DecidedCheckpoint => Phase::DecidedSignal,
                        _ => Phase::StepSignal,
                    },
                ),
                Err(error) => self.broken(error),
            },
            _ => self,
        }
    }

    /// A plan is refused: the failure is reported, and refused once too often it ends the run.
    #[verifier::opaque]
    pub open spec fn rejected(self, flaw: ExecutionFailureModel, plan: DecisionModel) -> Self {
        let failed = self.failed(flaw.stage, flaw.call, flaw.message);
        let told = match flaw.call {
            Some(call) => {
                let result = ToolResultModel {
                    outcome: None,
                    call,
                    success: false,
                    message: flaw.message,
                };
                RunModel {
                    previous: Some(result),
                    ..failed.emit(EventModel::Executed(result))
                }
            },
            None => failed.emit(EventModel::ExecutionRejected(flaw.message)),
        };
        let guarded = RunModel { guard: self.guard.after_plan(plan, true), ..told };
        match self.guard.plan_verdict(plan, true, self.options.max_repeated_failures) {
            Some(reason) => {
                let stopped = guarded.stop_pending(ExecutionStatus::Failed, reason);
                stopped.ended(Status::Failed, reason, self.step, stopped.pending)
            },
            None => guarded.at(Phase::Reobserve),
        }
    }

    /// A request to load skills is answered; only a success replaces the selection.
    pub open spec fn loaded(self, request: LoadSkillsModel) -> Self {
        let chosen = if self.options.skill_mode == SkillMode::OnDemand {
            selection(request, self.skills)
        } else {
            Err("all mode already injects available skills"@)
        };
        let selected = match chosen {
            Ok(names) => names,
            Err(_) => self.selected,
        };
        let result = LoadResultModel {
            request,
            success: chosen is Ok,
            selected,
            message: match chosen {
                Ok(_) => "selection replaced"@,
                Err(message) => message,
            },
        };
        RunModel {
            selected,
            last_load: Some(result),
            ..self.emit(EventModel::SkillsLoaded(result)).at(Phase::Reobserve)
        }
    }

    /// An execution of new actions begins, or the plan is refused.
    pub open spec fn executing(
        self,
        plan: DecisionModel,
        actions: Seq<ActionModel>,
        continuation: Continuation,
    ) -> Self {
        let fresh = RunModel { last_load: None, ..self };
        let flaw = match plan_flaw(actions, self.skills, self.selected, self.options) {
            Some(flaw) => Some(flaw),
            None => repair_flaw(self.pending, actions, continuation),
        };
        match flaw {
            Some(flaw) => fresh.rejected(flaw, plan),
            None => RunModel {
                guard: self.guard.after_plan(plan, false),
                active: Some(ActiveExecutionModel::fresh(actions, continuation)),
                ..fresh
            }.begin_drive(),
        }
    }

    /// The unfinished actions are replaced, or the plan is refused.
    pub open spec fn replacing(
        self,
        plan: DecisionModel,
        actions: Seq<ActionModel>,
        continuation: Continuation,
    ) -> Self {
        let flaw = match plan_flaw(actions, self.skills, self.selected, self.options) {
            Some(flaw) => Some(flaw),
            None => replace_flaw(self.pending, actions),
        };
        match flaw {
            Some(flaw) => self.rejected(flaw, plan),
            None => RunModel {
                guard: self.guard.after_plan(plan, false),
                last_load: None,
                active: Some(self.pending->0.replaced_by(actions, continuation)),
                pending: None,
                ..self
            }.begin_drive(),
        }
    }

    /// The interrupted execution goes on.
    pub open spec fn resuming(self) -> Self {
        let fresh = RunModel { last_load: None, ..self };
        match self.pending {
            None => fresh.broken(ErrorModel::Invalid("no execution to resume"@)),
            Some(_) => RunModel { active: self.pending, pending: None, ..fresh }.begin_drive(),
        }
    }

    /// A decision is applied.
    #[verifier::opaque]
    pub open spec fn applied(self, decision: DecisionModel) -> Self {
        match decision {
            DecisionModel::Completed(reason) => if self.pending is Some {
                self.ended(
                    Status::Failed,
                    "cannot declare completion while an execution is interrupted; resume or fail it"@,
                    self.step,
                    self.pending,
                )
            } else {
                self.ended(Status::Completed, reason, self.step, None)
            },
            DecisionModel::Failed(reason) => self.ended(
                Status::Failed,
                reason,
                self.step,
                self.pending,
            ),
            DecisionModel::LoadSkills(request) => self.loaded(request),
            DecisionModel::Execute { actions, then } => self.executing(decision, actions, then),
            DecisionModel::ReplaceRemaining { actions, then } => self.replacing(
                decision,
                actions,
                then,
            ),
            DecisionModel::Resume => self.resuming(),
        }
    }

    /// The host's clock and cancellation flag.
    #[verifier::opaque]
    pub open spec fn on_signal(self, signal: Signal) -> Self {
        match self.phase {
            Phase::StartSignal => if signal.cancelled {
                self.ended(
                    Status::Cancelled,
                    "cancelled before start; state not observed"@,
                    0,
                    None,
                )
            } else {
                self.at(Phase::FirstObserve)
            },
            Phase::RoundSignal => match self.bounded_end(signal, (self.step - 1) as usize) {
                Some(end) => end,
                None => RunModel {
                    interruption: match self.pending {
                        Some(active) => active.progress.failure,
                        None => None,
                    },
                    ..self.at(Phase::RoundContext)
                },
            },
            Phase::DecidedSignal => match self.bounded_end(signal, self.step) {
                Some(end) => end,
                None => RunModel { decision: None, ..self }.applied(self.decision->0),
            },
            Phase::StepSignal => if self.active->0.limit(signal) is Some {
                RunModel {
                    active: Some(self.active->0.checked(signal)),
                    events: self.events + self.active->0.limit_events(signal),
                    ..self
                }.after_drive()
            } else if signal.cancelled {
                self.finish_drive(ExecutionStatus::Cancelled, "cancelled by user"@)
            } else {
                self.at(Phase::StepObserve)
            },
            Phase::CallSignal => if signal.cancelled {
                self.finish_drive(ExecutionStatus::Cancelled, "cancelled by user"@)
            } else {
                self.finish_drive(ExecutionStatus::Failed, self.verdict)
            },
            Phase::EndSignal => if signal.cancelled {
                self.finish_drive(ExecutionStatus::Cancelled, "cancelled by user"@)
            } else {
                RunModel { failure: None, ..self }.finish_drive(
                    ExecutionStatus::Completed,
                    "all requested actions completed"@,
                )
            },
            Phase::BatchSignal => match self.batch_bounded(signal) {
                Some(end) => end,
                None => self.at(Phase::BatchObserve),
            },
            Phase::BatchStopSignal => match self.batch_bounded(signal) {
                Some(end) => end,
                None => self.finish_batch(BatchStatus::Failed, self.verdict),
            },
            Phase::BatchEndSignal => match self.batch_bounded(signal) {
                Some(end) => end,
                None => {
                    let told = self.with_batch(
                        self.batch().stopped(
                            self.batch().progress.status,
                            self.previous->0.message,
                        ),
                    ).report_batch();
                    if self.batch().progress.finished {
                        told.finish_batch(BatchStatus::Completed, "local execution completed"@)
                    } else {
                        told.at(Phase::BatchCheckpoint)
                    }
                },
            },
            Phase::AfterSignal => if signal.cancelled {
                self.cancelled_end(self.step)
            } else {
                self.next_round()
            },
            _ => self,
        }
    }

    /// An observation, or why there is none.
    #[verifier::opaque]
    pub open spec fn on_observed(self, reply: Result<AppStateModel, AdapterErrorModel>) -> Self {
        match self.phase {
            Phase::FirstObserve | Phase::Reobserve => match reply {
                Err(error) => self.failed(
                    FailureStage::Observation,
                    None,
                    "observation failed: "@ + error.message(),
                ).broken(ErrorModel::Adapter(error)),
                Ok(state) => if self.local {
                    self.observed(state).begin_drive()
                } else {
                    self.observed(state).next_round()
                },
            },
            Phase::ResumeObserve | Phase::StepObserve => match reply {
                Err(error) => self.failed(
                    FailureStage::Observation,
                    None,
                    "observation failed: "@ + error.message(),
                ).blame().finish_drive(ExecutionStatus::Interrupted, error.message()),
                Ok(state) => if self.phase == Phase::ResumeObserve {
                    self.observed(state).at(Phase::EndSignal)
                } else if self.active->0.batch matches Some(batch) && batch.progress.finished {
                    let seen = self.observed(state);
                    RunModel {
                        failure: None,
                        ..seen.with_batch(
                            seen.batch().stopped(
                                BatchStatus::Completed,
                                seen.batch().progress.message,
                            ),
                        ).report_batch().confirm_action().report_active().next_action()
                    }
                } else {
                    self.observed(state).at(Phase::StepContext)
                },
            },
            Phase::CallObserve => match reply {
                Err(error) => self.failed(
                    FailureStage::Observation,
                    Some(self.previous->0.call),
                    "post-action observation failed: "@ + error.message(),
                ).blame().finish_drive(ExecutionStatus::Interrupted, error.message()),
                Ok(state) => if self.previous->0.success {
                    self.observed(state).report_active().next_action()
                } else {
                    self.observed(state).blame().finish_drive(
                        self.halt,
                        self.previous->0.message,
                    )
                },
            },
            Phase::BatchObserve => match reply {
                Err(error) => self.batch_failed(
                    FailureStage::Observation,
                    None,
                    "observation failed: "@ + error.message(),
                ),
                Ok(state) => self.noticed(state).at(Phase::BatchContext),
            },
            Phase::BatchPostObserve => match reply {
                Err(error) => self.batch_failed(
                    FailureStage::Observation,
                    Some(self.batch().progress.request.call()),
                    "post-action observation failed: "@ + error.message(),
                ),
                Ok(state) => if self.previous->0.success {
                    RunModel { state, ..self.at(Phase::BatchEndSignal) }
                } else {
                    RunModel { state, ..self }.finish_batch(
                        self.batch_halt,
                        self.previous->0.message,
                    )
                },
            },
            _ => self,
        }
    }

    /// What the agent is shown.
    pub open spec fn shown(self, context: DecisionContextModel) -> SkillViewModel {
        SkillViewModel {
            guidance: context.guidance,
            failure: self.failure,
            batch: match self.pending {
                Some(active) => match active.batch {
                    Some(batch) => Some(batch.progress),
                    None => None,
                },
                None => None,
            },
            execution: match self.pending {
                Some(active) => Some(active.progress),
                None => None,
            },
            max_repeat: self.options.repeat_bound(),
            max_actions: self.options.max_actions,
            ..skill_view(context.skills, self.options.skill_mode, self.selected, self.last_load)
        }
    }

    /// Skills and guidance, or why there are none.
    #[verifier::opaque]
    pub open spec fn on_context(
        self,
        reply: Result<DecisionContextModel, AdapterErrorModel>,
    ) -> Self {
        match self.phase {
            Phase::RoundContext => match reply {
                Err(error) => self.failed(FailureStage::Context, None, error.message()).broken(
                    ErrorModel::Adapter(error),
                ),
                Ok(context) => {
                    let told = RunModel {
                        skills: context.skills,
                        ..self.emit(
                            EventModel::SkillsResolved {
                                step: self.step,
                                skills: context.skills,
                                guidance: context.guidance,
                            },
                        )
                    };
                    if !names_sound(context.skills) {
                        told.broken(
                            ErrorModel::Invalid("skill names must be nonempty and unique"@),
                        )
                    } else {
                        let view = self.shown(context);
                        RunModel {
                            view: Some(view),
                            ..told.emit(
                                EventModel::SkillsInjected {
                                    names: skill_names(view.loaded),
                                    directory_count: view.directory.len() as usize,
                                },
                            ).at(Phase::DecideCheckpoint)
                        }
                    }
                },
            },
            Phase::StepContext => match reply {
                Err(error) => self.failed(
                    FailureStage::Context,
                    None,
                    error.message(),
                ).blame().finish_drive(ExecutionStatus::Interrupted, error.message()),
                Ok(context) => match step_flaw(
                    self.action(),
                    context.skills,
                    self.selected,
                    self.options.skill_mode,
                ) {
                    Some(message) => {
                        let call = self.action().call();
                        let result = ToolResultModel {
                            outcome: None,
                            call,
                            success: false,
                            message,
                        };
                        RunModel {
                            previous: Some(result),
                            ..self.failed(
                                FailureStage::Availability,
                                Some(call),
                                message,
                            ).blame().emit(EventModel::Executed(result))
                        }.finish_drive(ExecutionStatus::Interrupted, message)
                    },
                    None => self.emit(
                        EventModel::ActionStarted {
                            index: self.active->0.progress.completed as usize,
                            total: self.active->0.progress.actions.len() as usize,
                            call: self.action().call(),
                        },
                    ).at(Phase::StepLog),
                },
            },
            Phase::BatchContext => match reply {
                Err(error) => self.batch_failed(
                    FailureStage::Context,
                    Some(self.batch().progress.request.call()),
                    error.message(),
                ),
                Ok(context) => match self.batch().progress.capability_flaw(context.skills) {
                    Some(message) => self.batch_failed(
                        FailureStage::Availability,
                        Some(self.batch().progress.request.call()),
                        message,
                    ),
                    None => self.at(Phase::BatchLog),
                },
            },
            _ => self,
        }
    }

    /// What came of waiting for a decision.
    #[verifier::opaque]
    pub open spec fn on_decided(self, reply: DecisionReplyModel) -> Self {
        if self.phase != Phase::Deciding {
            self
        } else {
            match reply {
                DecisionReplyModel::Cancelled(signal) => {
                    let stopped = self.check_pending(signal).stop_pending(
                        ExecutionStatus::Cancelled,
                        "cancelled while waiting for decision"@,
                    );
                    stopped.ended(
                        Status::Cancelled,
                        "cancelled while waiting for decision"@,
                        (self.step - 1) as usize,
                        stopped.pending,
                    )
                },
                DecisionReplyModel::DeadlineReached(signal) => {
                    let checked = self.check_pending(signal);
                    checked.ended(
                        Status::Failed,
                        "batch deadline exceeded"@,
                        (self.step - 1) as usize,
                        checked.pending,
                    )
                },
                DecisionReplyModel::Decided(decision) => RunModel {
                    decision: Some(decision),
                    ..self.emit(EventModel::Decided(decision)).at(Phase::DecidedCheckpoint)
                },
                DecisionReplyModel::Failed(error) => self.broken(error),
            }
        }
    }

    /// The repetition that an action asks for, its deadline running from now.
    pub open spec fn started_batch(self, now: Nanos) -> ActiveBatchModel {
        match self.active->0.batch {
            Some(batch) => batch,
            None => ActiveBatchModel {
                progress: BatchProgressModel::fresh(
                    match self.action() {
                        ActionModel::Repeat(request) => BatchRequestModel::Repeat(request),
                        ActionModel::UntilDone(call) => BatchRequestModel::UntilDone(call),
                        ActionModel::Call(call) => BatchRequestModel::UntilDone(call),
                    },
                    self.active->0.progress.continuation,
                ),
                deadline: after(now, self.options.batch_timeout),
                max_attempts: self.options.max_batch_attempts,
            },
        }
    }

    /// Whether the journal can be written.
    #[verifier::opaque]
    pub open spec fn on_log(self, reply: Result<(), ErrorModel>, now: Nanos) -> Self {
        match self.phase {
            Phase::StepLog => match reply {
                Err(error) => self.broken(error),
                Ok(()) => if self.action() is Call {
                    self.at(Phase::CallExecute)
                } else {
                    let batch = self.started_batch(now);
                    self.with_batch(
                        batch.stopped(BatchStatus::Running, batch.progress.message),
                    ).report_batch().at(Phase::BatchCheckpoint)
                },
            },
            Phase::BatchLog => match reply {
                Err(error) => self.finish_batch(BatchStatus::Interrupted, error.message()),
                Ok(()) => self.with_batch(
                    ActiveBatchModel { progress: self.batch().progress.attempted(), ..self.batch() },
                ).at(Phase::BatchExecute),
            },
            _ => self,
        }
    }

    /// The result of an execution is noted: it is the latest failure or there is none.
    pub open spec fn resulted(self, result: ToolResultModel) -> Self {
        let clear = RunModel { failure: None, ..self };
        if result.success {
            clear
        } else {
            clear.failed(FailureStage::Execution, Some(result.call), result.message)
        }
    }

    /// What an adapter answered to an execution.
    #[verifier::opaque]
    pub open spec fn on_executed(
        self,
        report: Result<ActionReportModel, AdapterErrorModel>,
    ) -> Self {
        match self.phase {
            Phase::CallExecute => {
                let call = self.action().call();
                let result = call_result(call, report);
                let progress = self.active->0.progress;
                let counted = if result.success {
                    self.with_active(
                        ActiveExecutionModel {
                            progress: ExecutionProgressModel {
                                completed: progress.completed + 1,
                                ..progress
                            },
                            ..self.active->0
                        },
                    )
                } else {
                    self
                };
                let told = RunModel {
                    guard: self.guard.after_call(call, report),
                    previous: Some(result),
                    ..counted.resulted(result).emit(EventModel::Executed(result))
                };
                match self.guard.call_verdict(call, report, self.options.max_repeated_failures) {
                    Some(reason) => RunModel { verdict: reason, ..told.blame().at(Phase::CallSignal) },
                    None => RunModel { halt: call_halt(report), ..told.at(Phase::CallObserve) },
                }
            },
            Phase::BatchExecute => {
                let batch = self.batch();
                let call = batch.progress.request.call();
                let result = batch.progress.result(report);
                let told = RunModel {
                    guard: self.guard.after_call(call, report),
                    previous: Some(result),
                    ..self.with_batch(
                        ActiveBatchModel { progress: batch.progress.settled(report), ..batch },
                    ).resulted(result)
                };
                match self.guard.call_verdict(call, report, self.options.max_repeated_failures) {
                    Some(reason) => RunModel { verdict: reason, ..told.at(Phase::BatchStopSignal) },
                    None => RunModel {
                        batch_halt: stop_status(report),
                        ..told.at(Phase::BatchPostObserve)
                    },
                }
            },
            _ => self,
        }
    }
}

/// The names of skills, in order.
pub open spec fn skill_names(skills: Seq<SkillModel>) -> Seq<Text> {
    Seq::new(skills.len(), |i: int| skills[i].name)
}

/// The phases of an execution.
pub open spec fn drives(phase: Phase) -> bool {
    match phase {
        Phase::ResumeObserve
        | Phase::StepCheckpoint
        | Phase::StepSignal
        | Phase::StepObserve
        | Phase::StepContext
        | Phase::StepLog
        | Phase::CallExecute
        | Phase::CallSignal
        | Phase::CallObserve
        | Phase::EndSignal => true,
        _ => repeats(phase),
    }
}

/// The phases of a repetition.
pub open spec fn repeats(phase: Phase) -> bool {
    match phase {
        Phase::BatchCheckpoint
        | Phase::BatchSignal
        | Phase::BatchObserve
        | Phase::BatchContext
        | Phase::BatchLog
        | Phase::BatchExecute
        | Phase::BatchStopSignal
        | Phase::BatchPostObserve
        | Phase::BatchEndSignal => true,
        _ => false,
    }
}

/// The phases before the first observation.
pub open spec fn starts(phase: Phase) -> bool {
    phase == Phase::Starting || phase == Phase::StartSignal || phase == Phase::FirstObserve
}

/// A repetition has the attempts that the options of the run give it.
pub open spec fn budgeted(execution: ActiveExecutionModel, options: RunOptions) -> bool {
    execution.batch matches Some(batch) ==> batch.max_attempts == options.max_batch_attempts
}

impl RunModel {
    /// The execution of a phase of driving has what the phase needs.
    pub open spec fn drive_sound(self) -> bool {
        let execution = self.active->0;
        let progress = execution.progress;
        let left = progress.completed < progress.actions.len();
        &&& self.active is Some
        &&& execution.wf()
        &&& budgeted(execution, self.options)
        &&& progress.status == ExecutionStatus::Running
        &&& self.local || self.step >= 1
        &&& match self.phase {
            Phase::ResumeObserve => !left && execution.batch is None,
            Phase::StepCheckpoint | Phase::StepSignal | Phase::StepObserve => left,
            Phase::StepContext | Phase::StepLog => left && (execution.batch matches Some(batch)
                ==> !batch.progress.finished),
            Phase::CallExecute => left && self.action() is Call,
            Phase::CallSignal => execution.batch is None,
            Phase::CallObserve => execution.batch is None && self.previous is Some && self.halt
                != ExecutionStatus::Completed,
            Phase::EndSignal => !left,
            _ => left && execution.batch is Some && self.batch_sound(),
        }
    }

    /// The repetition of a phase of repeating has what the phase needs.
    pub open spec fn batch_sound(self) -> bool {
        let batch = self.batch();
        match self.phase {
            Phase::BatchCheckpoint | Phase::BatchSignal => !batch.progress.finished,
            Phase::BatchObserve | Phase::BatchContext | Phase::BatchLog => !batch.progress.finished
                && batch.progress.attempts < batch.max_attempts,
            Phase::BatchExecute => !batch.progress.finished && batch.progress.completed
                < batch.progress.attempts,
            Phase::BatchPostObserve => self.previous is Some && self.batch_halt
                != BatchStatus::Completed,
            Phase::BatchEndSignal => self.previous is Some,
            _ => true,
        }
    }

    /// What every run keeps: its budgets, an interrupted execution that balances, and what
    /// its phase needs. It has an outcome or an error if and only if it is done.
    pub open spec fn wf(self) -> bool {
        &&& self.options.max_decisions > 0
        &&& self.step <= self.options.max_decisions
        &&& self.pending matches Some(pending) ==> pending.wf() && budgeted(pending, self.options)
        &&& self.local ==> self.pending is None && self.step == 0
        &&& self.outcome matches Some(outcome) ==> outcome.decisions <= self.options.max_decisions
            && (self.local ==> outcome.decisions == 0) && (outcome.batch matches Some(progress)
            ==> progress.balanced(self.options.max_batch_attempts)) && (outcome.execution matches Some(
            progress,
        ) ==> progress.counted())
        &&& !(self.outcome is Some && self.error is Some)
        &&& self.phase == Phase::Done <==> self.outcome is Some || self.error is Some
        &&& self.phase != Phase::Done ==> {
            &&& self.pending matches Some(pending) ==> pending.progress.status
                == ExecutionStatus::Interrupted
            &&& if drives(self.phase) {
                self.drive_sound()
            } else if starts(self.phase) {
                &&& self.step == 0
                &&& self.pending is None
                &&& if self.local {
                    self.active is Some && self.active->0.wf() && self.active->0.batch is None
                } else {
                    self.active is None
                }
            } else {
                &&& !self.local
                &&& self.step >= 1
                &&& self.active is None
                &&& self.phase == Phase::Deciding || self.phase == Phase::DecideCheckpoint
                    ==> self.view is Some
                &&& self.phase == Phase::DecidedCheckpoint || self.phase == Phase::DecidedSignal
                    ==> self.decision is Some
            }
        }
    }
}

/// A run that has not started keeps what every run keeps.
pub proof fn fresh_runs_are_sound(goal: Text, options: RunOptions)
    requires
        options.max_decisions > 0,
    ensures
        RunModel::fresh(goal, options).wf(),
{
}

/// So does one of a prepared request with positive counts.
pub proof fn prepared_runs_are_sound(goal: Text, options: RunOptions, actions: Seq<ActionModel>)
    requires
        options.max_decisions > 0,
        counts_positive(actions),
    ensures
        RunModel::prepared(goal, options, actions).wf(),
{
}

impl RunModel {
    /// The budgets and the interrupted execution of a run that has not ended.
    pub open spec fn under_way(self) -> bool {
        &&& self.options.max_decisions > 0
        &&& self.step <= self.options.max_decisions
        &&& self.pending matches Some(pending) ==> pending.wf() && budgeted(pending, self.options)
            && pending.progress.status == ExecutionStatus::Interrupted
        &&& self.local ==> self.pending is None && self.step == 0
        &&& self.outcome is None
        &&& self.error is None
    }

    /// A run with an execution that can be driven on or stopped.
    pub open spec fn driving(self) -> bool {
        &&& self.under_way()
        &&& self.active is Some
        &&& self.active->0.wf()
        &&& budgeted(self.active->0, self.options)
        &&& self.local || self.step >= 1
    }
}

/// The same actions to the same end, of which no fewer are confirmed, and at most one more.
pub open spec fn same_work(before: ActiveExecutionModel, after: ActiveExecutionModel) -> bool {
    &&& after.progress.actions == before.progress.actions
    &&& after.progress.continuation == before.progress.continuation
    &&& before.progress.completed <= after.progress.completed <= before.progress.completed + 1
}

/// The confirmed actions, followed by whatever is left to do.
pub open spec fn continued_work(
    before: ActiveExecutionModel,
    after: ActiveExecutionModel,
) -> bool {
    let n = before.progress.completed as int;
    after.progress.completed == n && after.progress.actions.take(n)
        == before.progress.actions.take(n)
}

/// What a run shows of the execution that it drives: the same work, also where the run ends.
pub open spec fn shows_work(before: RunModel, after: RunModel) -> bool {
    &&& after.active is Some ==> same_work(before.active->0, after.active->0)
    &&& after.outcome matches Some(outcome) ==> {
        &&& outcome.execution is Some
        &&& before.pending is None ==> after.active is Some && outcome.execution->0
            == after.active->0.progress
    }
}

/// What one reply leaves as it is: the task and its budgets, and all that is confirmed. The
/// actions of an execution change only where an interrupted one is resumed with others.
pub open spec fn kept(before: RunModel, after: RunModel) -> bool {
    &&& after.goal == before.goal
    &&& after.options == before.options
    &&& after.local == before.local
    &&& drives(before.phase) && drives(after.phase) ==> after.active is Some
    &&& drives(before.phase) ==> shows_work(before, after)
    &&& before.pending is Some && after.pending is Some ==> same_work(
        before.pending->0,
        after.pending->0,
    )
    &&& before.pending is Some && after.pending is None ==> drives(after.phase) && continued_work(
        before.pending->0,
        after.active->0,
    )
    &&& before.pending is None && after.pending is Some ==> drives(before.phase) && same_work(
        before.active->0,
        after.pending->0,
    )
}

/// What the end of an execution leaves as it is.
spec fn kept_at_end(before: RunModel, after: RunModel) -> bool {
    &&& after.goal == before.goal
    &&& after.options == before.options
    &&& after.local == before.local
    &&& !drives(after.phase)
    &&& shows_work(before, after)
    &&& before.pending is Some ==> after.pending is Some && same_work(
        before.pending->0,
        after.pending->0,
    )
    &&& before.pending is None ==> after.pending is None || after.pending == before.active
}

/// What the end of a round leaves as it is.
spec fn kept_in_round(before: RunModel, after: RunModel) -> bool {
    &&& after.goal == before.goal
    &&& after.options == before.options
    &&& after.local == before.local
    &&& !drives(after.phase)
    &&& before.pending is Some <==> after.pending is Some
    &&& before.pending is Some ==> same_work(before.pending->0, after.pending->0)
}

proof fn lemma_after_drive_sound(run: RunModel)
    requires
        run.driving(),
    ensures
        run.after_drive().wf(),
        kept_at_end(run, run.after_drive()),
{
    reveal(RunModel::after_drive);
}

proof fn lemma_finish_drive_sound(run: RunModel, status: ExecutionStatus, message: Text)
    requires
        run.driving(),
        status == ExecutionStatus::Interrupted && run.active->0.progress.completed
            == run.active->0.progress.actions.len() ==> run.active->0.batch is None,
        status == ExecutionStatus::Completed ==> run.active->0.progress.completed
            == run.active->0.progress.actions.len(),
    ensures
        run.finish_drive(status, message).wf(),
        kept_at_end(run.stop_active(status, message), run.finish_drive(status, message)),
{
    lemma_after_drive_sound(run.stop_active(status, message));
}

proof fn lemma_after_batch_sound(run: RunModel)
    requires
        run.driving(),
        run.active->0.batch is Some,
        run.active->0.progress.completed < run.active->0.progress.actions.len(),
        run.active->0.progress.status == ExecutionStatus::Running,
    ensures
        run.after_batch().wf(),
        drives(run.after_batch().phase) ==> same_work(run.active->0, run.after_batch().active->0) && run.after_batch().pending
            == run.pending,
        !drives(run.after_batch().phase) ==> (run.pending is None ==> run.after_batch().pending is None || same_work(
            run.active->0,
            run.after_batch().pending->0,
        )) && (run.pending is Some ==> run.after_batch().pending is Some && same_work(
            run.pending->0,
            run.after_batch().pending->0,
        )),
        run.after_batch().goal == run.goal && run.after_batch().options == run.options && run.after_batch().local == run.local,
        shows_work(run, run.after_batch()),
{
    reveal(RunModel::after_batch);
    let progress = run.batch().progress;
    if batch_halts(progress.status) is Some {
        lemma_finish_drive_sound(
            run.blame(),
            batch_halts(progress.status)->0,
            progress.message,
        );
    }
}

proof fn lemma_finish_batch_sound(run: RunModel, status: BatchStatus, message: Text)
    requires
        run.driving(),
        run.active->0.batch is Some,
        status == BatchStatus::Completed ==> run.batch().progress.finished,
        run.active->0.progress.completed < run.active->0.progress.actions.len(),
        run.active->0.progress.status == ExecutionStatus::Running,
    ensures
        run.finish_batch(status, message).wf(),
        drives(run.finish_batch(status, message).phase) ==> same_work(run.active->0, run.finish_batch(status, message).active->0) && run.finish_batch(status, message).pending
            == run.pending,
        !drives(run.finish_batch(status, message).phase) ==> (run.pending is None ==> run.finish_batch(status, message).pending is None || same_work(
            run.active->0,
            run.finish_batch(status, message).pending->0,
        )) && (run.pending is Some ==> run.finish_batch(status, message).pending is Some && same_work(
            run.pending->0,
            run.finish_batch(status, message).pending->0,
        )),
        run.finish_batch(status, message).goal == run.goal && run.finish_batch(status, message).options == run.options && run.finish_batch(status, message).local == run.local,
        shows_work(run, run.finish_batch(status, message)),
{
    lemma_after_batch_sound(run.stop_batch(status, message));
}

proof fn lemma_begin_drive_sound(run: RunModel)
    requires
        run.driving(),
        run.active->0.progress.completed == run.active->0.progress.actions.len()
            ==> run.active->0.batch is None,
    ensures
        run.begin_drive().wf(),
        drives(run.begin_drive().phase),
        same_work(run.active->0, run.begin_drive().active->0),
        run.begin_drive().active->0.progress.completed == run.active->0.progress.completed,
        run.begin_drive().pending == run.pending,
        run.begin_drive().goal == run.goal && run.begin_drive().options == run.options
            && run.begin_drive().local == run.local,
{
    reveal(RunModel::begin_drive);
}

proof fn lemma_next_round_sound(run: RunModel)
    requires
        run.under_way(),
        run.active is None,
        !run.local,
    ensures
        run.next_round().wf(),
        kept_in_round(run, run.next_round()),
{
    reveal(RunModel::next_round);
}

proof fn lemma_bounded_end_sound(run: RunModel, signal: Signal, decisions: usize)
    requires
        run.under_way(),
        decisions <= run.options.max_decisions,
    ensures
        run.local && decisions == 0 || !run.local ==> run.cancelled_end(decisions).wf(),
        kept_in_round(run, run.cancelled_end(decisions)),
        run.bounded_end(signal, decisions) matches Some(end) ==> (run.local && decisions == 0
            || !run.local ==> end.wf()) && kept_in_round(run, end),
{
    reveal(RunModel::cancelled_end);
    reveal(RunModel::bounded_end);
}

/// A plan without flaw repeats nothing zero times.
pub proof fn flawless_plans_count(
    actions: Seq<ActionModel>,
    skills: Seq<SkillModel>,
    selected: Seq<Text>,
    options: RunOptions,
)
    requires
        plan_flaw(actions, skills, selected, options) is None,
    ensures
        counts_positive(actions),
{
    flawless_plans_are_sound(actions, skills, selected, options);
    assert forall|i: int| 0 <= i < actions.len() implies (
    (#[trigger] actions[i]) matches ActionModel::Repeat(r) ==> r.times > 0) by {
        assert(action_flaw(actions[i], skills, selected, options) is None);
    }
}

proof fn lemma_rejected_sound(run: RunModel, flaw: ExecutionFailureModel, plan: DecisionModel)
    requires
        run.under_way(),
        run.active is None,
        !run.local,
        run.step >= 1,
    ensures
        run.rejected(flaw, plan).wf(),
        kept_in_round(run, run.rejected(flaw, plan)),
{
    reveal(RunModel::rejected);
}

proof fn lemma_applied_sound(run: RunModel, decision: DecisionModel)
    requires
        run.under_way(),
        run.active is None,
        !run.local,
        run.step >= 1,
    ensures
        run.applied(decision).wf(),
        run.phase == Phase::DecidedSignal ==> kept(run, run.applied(decision)),
{
    reveal(RunModel::applied);
    match decision {
        DecisionModel::Execute { actions, then } => {
            let fresh = RunModel { last_load: None, ..run };
            let plan = plan_flaw(actions, run.skills, run.selected, run.options);
            let repair = repair_flaw(run.pending, actions, then);
            if plan is Some {
                lemma_rejected_sound(fresh, plan->0, decision);
            } else if repair is Some {
                lemma_rejected_sound(fresh, repair->0, decision);
            } else {
                flawless_plans_count(actions, run.skills, run.selected, run.options);
                lemma_begin_drive_sound(
                    RunModel {
                        guard: run.guard.after_plan(decision, false),
                        active: Some(ActiveExecutionModel::fresh(actions, then)),
                        ..fresh
                    },
                );
            }
        },
        DecisionModel::ReplaceRemaining { actions, then } => {
            let plan = plan_flaw(actions, run.skills, run.selected, run.options);
            let replace = replace_flaw(run.pending, actions);
            if plan is Some {
                lemma_rejected_sound(run, plan->0, decision);
            } else if replace is Some {
                lemma_rejected_sound(run, replace->0, decision);
            } else {
                flawless_plans_count(actions, run.skills, run.selected, run.options);
                replacements_keep_executions_sound(run.pending->0, actions, then);
                replacement_preserves_confirmed_work(run.pending->0, actions, then);
                lemma_begin_drive_sound(
                    RunModel {
                        guard: run.guard.after_plan(decision, false),
                        last_load: None,
                        active: Some(run.pending->0.replaced_by(actions, then)),
                        pending: None,
                        ..run
                    },
                );
            }
        },
        DecisionModel::Resume => {
            if run.pending is Some {
                lemma_begin_drive_sound(
                    RunModel { active: run.pending, pending: None, last_load: None, ..run },
                );
            }
        },
        _ => {},
    }
}

/// The reply to a safe boundary keeps what every run keeps.
pub proof fn checkpoints_keep_runs_sound(run: RunModel, reply: Result<(), ErrorModel>)
    requires
        run.wf(),
    ensures
        run.on_checkpoint(reply).wf(),
        kept(run, run.on_checkpoint(reply)),
{
    reveal(RunModel::on_checkpoint);
    if run.phase == Phase::BatchCheckpoint && reply is Err {
        lemma_finish_batch_sound(run, BatchStatus::Interrupted, reply->Err_0.message());
    }
}

/// So does a reading of the clock and the cancellation flag.
pub proof fn signals_keep_runs_sound(run: RunModel, signal: Signal)
    requires
        run.wf(),
    ensures
        run.on_signal(signal).wf(),
        kept(run, run.on_signal(signal)),
{
    reveal(RunModel::on_signal);
    match run.phase {
        Phase::RoundSignal => {
            lemma_bounded_end_sound(run, signal, (run.step - 1) as usize);
        },
        Phase::DecidedSignal => {
            lemma_bounded_end_sound(run, signal, run.step);
            lemma_applied_sound(RunModel { decision: None, ..run }, run.decision->0);
        },
        Phase::StepSignal => {
            let active = run.active->0;
            lemma_after_drive_sound(
                RunModel {
                    active: Some(active.checked(signal)),
                    events: run.events + active.limit_events(signal),
                    ..run
                },
            );
            lemma_finish_drive_sound(run, ExecutionStatus::Cancelled, "cancelled by user"@);
        },
        Phase::CallSignal => {
            lemma_finish_drive_sound(run, ExecutionStatus::Cancelled, "cancelled by user"@);
            lemma_finish_drive_sound(run, ExecutionStatus::Failed, run.verdict);
        },
        Phase::EndSignal => {
            lemma_finish_drive_sound(run, ExecutionStatus::Cancelled, "cancelled by user"@);
            lemma_finish_drive_sound(
                RunModel { failure: None, ..run },
                ExecutionStatus::Completed,
                "all requested actions completed"@,
            );
        },
        Phase::BatchSignal | Phase::BatchStopSignal | Phase::BatchEndSignal => {
            lemma_batch_signal_sound(run, signal);
        },
        Phase::AfterSignal => {
            lemma_bounded_end_sound(run, signal, run.step);
            lemma_next_round_sound(run);
        },
        _ => {},
    }
}

proof fn lemma_batch_signal_sound(run: RunModel, signal: Signal)
    requires
        run.wf(),
        run.phase == Phase::BatchSignal || run.phase == Phase::BatchStopSignal || run.phase
            == Phase::BatchEndSignal,
    ensures
        run.on_signal(signal).wf(),
        kept(run, run.on_signal(signal)),
{
    reveal(RunModel::on_signal);
    if run.batch().limit(signal) is Some {
        let (status, message) = run.batch().limit(signal)->0;
        lemma_finish_batch_sound(run, status, message);
    } else if run.phase == Phase::BatchStopSignal {
        lemma_finish_batch_sound(run, BatchStatus::Failed, run.verdict);
    } else if run.phase == Phase::BatchEndSignal && run.batch().progress.finished {
        let told = run.with_batch(
            run.batch().stopped(run.batch().progress.status, run.previous->0.message),
        ).report_batch();
        lemma_finish_batch_sound(told, BatchStatus::Completed, "local execution completed"@);
    }
}

/// So does an observation.
pub proof fn observations_keep_runs_sound(
    run: RunModel,
    reply: Result<AppStateModel, AdapterErrorModel>,
)
    requires
        run.wf(),
    ensures
        run.on_observed(reply).wf(),
        kept(run, run.on_observed(reply)),
{
    reveal(RunModel::on_observed);
    match (run.phase, reply) {
        (Phase::FirstObserve, Ok(state)) => {
            if run.local {
                lemma_begin_drive_sound(run.observed(state));
            } else {
                lemma_next_round_sound(run.observed(state));
            }
        },
        (Phase::Reobserve, Ok(state)) => {
            lemma_next_round_sound(run.observed(state));
        },
        (Phase::ResumeObserve, Err(error)) | (Phase::StepObserve, Err(error)) => {
            lemma_finish_drive_sound(
                run.failed(
                    FailureStage::Observation,
                    None,
                    "observation failed: "@ + error.message(),
                ).blame(),
                ExecutionStatus::Interrupted,
                error.message(),
            );
        },
        (Phase::CallObserve, Err(error)) => {
            lemma_finish_drive_sound(
                run.failed(
                    FailureStage::Observation,
                    Some(run.previous->0.call),
                    "post-action observation failed: "@ + error.message(),
                ).blame(),
                ExecutionStatus::Interrupted,
                error.message(),
            );
        },
        (Phase::CallObserve, Ok(state)) => {
            lemma_finish_drive_sound(
                run.observed(state).blame(),
                run.halt,
                run.previous->0.message,
            );
        },
        (Phase::BatchObserve, Err(error)) => {
            let message = "observation failed: "@ + error.message();
            lemma_finish_batch_sound(
                run.failed(FailureStage::Observation, None, message),
                BatchStatus::Interrupted,
                message,
            );
        },
        (Phase::BatchPostObserve, Err(error)) => {
            let message = "post-action observation failed: "@ + error.message();
            let call = run.batch().progress.request.call();
            lemma_finish_batch_sound(
                run.failed(FailureStage::Observation, Some(call), message),
                BatchStatus::Interrupted,
                message,
            );
        },
        (Phase::BatchPostObserve, Ok(state)) => {
            lemma_finish_batch_sound(
                RunModel { state, ..run },
                run.batch_halt,
                run.previous->0.message,
            );
        },
        _ => {},
    }
}

/// So do skills and guidance.
pub proof fn contexts_keep_runs_sound(
    run: RunModel,
    reply: Result<DecisionContextModel, AdapterErrorModel>,
)
    requires
        run.wf(),
    ensures
        run.on_context(reply).wf(),
        kept(run, run.on_context(reply)),
{
    reveal(RunModel::on_context);
    match (run.phase, reply) {
        (Phase::StepContext, Err(error)) => {
            lemma_finish_drive_sound(
                run.failed(FailureStage::Context, None, error.message()).blame(),
                ExecutionStatus::Interrupted,
                error.message(),
            );
        },
        (Phase::StepContext, Ok(context)) => {
            let flaw = step_flaw(
                run.action(),
                context.skills,
                run.selected,
                run.options.skill_mode,
            );
            if flaw is Some {
                let call = run.action().call();
                let message = flaw->0;
                let result = ToolResultModel { outcome: None, call, success: false, message };
                lemma_finish_drive_sound(
                    RunModel {
                        previous: Some(result),
                        ..run.failed(
                            FailureStage::Availability,
                            Some(call),
                            message,
                        ).blame().emit(EventModel::Executed(result))
                    },
                    ExecutionStatus::Interrupted,
                    message,
                );
            }
        },
        (Phase::BatchContext, Err(error)) => {
            let call = run.batch().progress.request.call();
            lemma_finish_batch_sound(
                run.failed(FailureStage::Context, Some(call), error.message()),
                BatchStatus::Interrupted,
                error.message(),
            );
        },
        (Phase::BatchContext, Ok(context)) => {
            let flaw = run.batch().progress.capability_flaw(context.skills);
            if flaw is Some {
                let call = run.batch().progress.request.call();
                lemma_finish_batch_sound(
                    run.failed(FailureStage::Availability, Some(call), flaw->0),
                    BatchStatus::Interrupted,
                    flaw->0,
                );
            }
        },
        _ => {},
    }
}

/// So does what came of waiting for a decision.
pub proof fn decisions_keep_runs_sound(run: RunModel, reply: DecisionReplyModel)
    requires
        run.wf(),
    ensures
        run.on_decided(reply).wf(),
        kept(run, run.on_decided(reply)),
{
    reveal(RunModel::on_decided);
}

/// So does the state of the journal.
pub proof fn logs_keep_runs_sound(run: RunModel, reply: Result<(), ErrorModel>, now: Nanos)
    requires
        run.wf(),
    ensures
        run.on_log(reply, now).wf(),
        kept(run, run.on_log(reply, now)),
{
    reveal(RunModel::on_log);
    if run.phase == Phase::BatchLog && reply is Err {
        lemma_finish_batch_sound(run, BatchStatus::Interrupted, reply->Err_0.message());
    }
}

/// So does the answer to an execution.
pub proof fn executions_keep_runs_sound(
    run: RunModel,
    report: Result<ActionReportModel, AdapterErrorModel>,
)
    requires
        run.wf(),
    ensures
        run.on_executed(report).wf(),
        kept(run, run.on_executed(report)),
{
    reveal(RunModel::on_executed);
}

/// What a host hands back to a run.
#[verifier::ext_equal]
pub enum ReplyModel {
    Checkpoint(Result<(), ErrorModel>),
    Signal(Signal),
    Observed(Result<AppStateModel, AdapterErrorModel>),
    Context(Result<DecisionContextModel, AdapterErrorModel>),
    Decided(DecisionReplyModel),
    Log(Result<(), ErrorModel>, Nanos),
    Executed(Result<ActionReportModel, AdapterErrorModel>),
}

impl RunModel {
    /// The run after one reply.
    pub open spec fn on(self, reply: ReplyModel) -> Self {
        match reply {
            ReplyModel::Checkpoint(reply) => self.on_checkpoint(reply),
            ReplyModel::Signal(signal) => self.on_signal(signal),
            ReplyModel::Observed(reply) => self.on_observed(reply),
            ReplyModel::Context(reply) => self.on_context(reply),
            ReplyModel::Decided(reply) => self.on_decided(reply),
            ReplyModel::Log(reply, now) => self.on_log(reply, now),
            ReplyModel::Executed(report) => self.on_executed(report),
        }
    }

    /// The run after a number of replies.
    pub open spec fn after(self, replies: Seq<ReplyModel>) -> Self
        decreases replies.len(),
    {
        if replies.len() == 0 {
            self
        } else {
            self.after(replies.drop_last()).on(replies.last())
        }
    }
}

/// Whatever the host hands back, a run keeps what every run keeps, and nothing that is
/// confirmed is undone or replayed.
pub proof fn replies_keep_runs_sound(run: RunModel, reply: ReplyModel)
    requires
        run.wf(),
    ensures
        run.on(reply).wf(),
        kept(run, run.on(reply)),
{
    match reply {
        ReplyModel::Checkpoint(reply) => checkpoints_keep_runs_sound(run, reply),
        ReplyModel::Signal(signal) => signals_keep_runs_sound(run, signal),
        ReplyModel::Observed(reply) => observations_keep_runs_sound(run, reply),
        ReplyModel::Context(reply) => contexts_keep_runs_sound(run, reply),
        ReplyModel::Decided(reply) => decisions_keep_runs_sound(run, reply),
        ReplyModel::Log(reply, now) => logs_keep_runs_sound(run, reply, now),
        ReplyModel::Executed(report) => executions_keep_runs_sound(run, report),
    }
}

/// In every history of replies a run stays within its budgets: it makes at most the decisions
/// that it may, its repetitions balance and keep to their attempts, whether they are under way,
/// interrupted or shown at the end, and one that is prepared makes no decision and asks no agent.
pub proof fn every_history_keeps_the_budgets(run: RunModel, replies: Seq<ReplyModel>)
    requires
        run.wf(),
    ensures
        run.after(replies).wf(),
        run.after(replies).options == run.options,
        run.after(replies).local == run.local,
        run.after(replies).outcome matches Some(outcome) ==> outcome.decisions
            <= run.options.max_decisions,
        run.local ==> !(run.after(replies).request() is Decide),
        run.after(replies).pending matches Some(pending) ==> (pending.batch matches Some(batch)
            ==> batch.progress.balanced(run.options.max_batch_attempts)),
        drives(run.after(replies).phase) ==> (run.after(replies).active->0.batch matches Some(batch)
            ==> batch.progress.balanced(run.options.max_batch_attempts)),
        run.after(replies).outcome matches Some(outcome) ==> (outcome.batch matches Some(progress)
            ==> progress.balanced(run.options.max_batch_attempts)),
    decreases replies.len(),
{
    if replies.len() > 0 {
        let before = run.after(replies.drop_last());
        every_history_keeps_the_budgets(run, replies.drop_last());
        replies_keep_runs_sound(before, replies.last());
    }
}

/// A run that has ended stays as it is, whatever the host hands back.
pub proof fn ended_runs_stay(run: RunModel, reply: ReplyModel)
    requires
        run.phase == Phase::Done,
    ensures
        run.on(reply) == run,
        run.request() is Done,
{
    reveal(RunModel::on_checkpoint);
    reveal(RunModel::on_signal);
    reveal(RunModel::on_observed);
    reveal(RunModel::on_context);
    reveal(RunModel::on_decided);
    reveal(RunModel::on_log);
    reveal(RunModel::on_executed);
}

/// The phases that neither ask for an execution nor come right before it.
pub open spec fn quiet(phase: Phase) -> bool {
    !(phase is StepLog || phase is CallExecute || phase is BatchLog || phase is BatchExecute)
}

broadcast proof fn lemma_after_drive_quiet(run: RunModel)
    ensures
        quiet((#[trigger] run.after_drive()).phase),
{
    reveal(RunModel::after_drive);
}

broadcast proof fn lemma_after_batch_quiet(run: RunModel)
    ensures
        quiet((#[trigger] run.after_batch()).phase),
{
    reveal(RunModel::after_batch);
    lemma_after_drive_quiet(
        run.blame().stop_active(
            batch_halts(run.batch().progress.status)->0,
            run.batch().progress.message,
        ),
    );
}

broadcast proof fn lemma_next_round_quiet(run: RunModel)
    ensures
        quiet((#[trigger] run.next_round()).phase),
{
    reveal(RunModel::next_round);
}

broadcast proof fn lemma_begin_drive_quiet(run: RunModel)
    ensures
        quiet((#[trigger] run.begin_drive()).phase),
{
    reveal(RunModel::begin_drive);
}

broadcast proof fn lemma_rejected_quiet(
    run: RunModel,
    flaw: ExecutionFailureModel,
    plan: DecisionModel,
)
    ensures
        quiet((#[trigger] run.rejected(flaw, plan)).phase),
{
    reveal(RunModel::rejected);
}

broadcast proof fn lemma_applied_quiet(run: RunModel, decision: DecisionModel)
    ensures
        quiet((#[trigger] run.applied(decision)).phase),
{
    reveal(RunModel::applied);
    broadcast use {lemma_begin_drive_quiet, lemma_rejected_quiet};

}

broadcast proof fn lemma_cancelled_end_quiet(run: RunModel, decisions: usize)
    ensures
        quiet((#[trigger] run.cancelled_end(decisions)).phase),
{
    reveal(RunModel::cancelled_end);
}

broadcast proof fn lemma_bounded_end_quiet(run: RunModel, signal: Signal, decisions: usize)
    ensures
        (#[trigger] run.bounded_end(signal, decisions)) matches Some(end) ==> quiet(end.phase),
{
    reveal(RunModel::bounded_end);
    broadcast use lemma_cancelled_end_quiet;

}

/// The phases from which an execution is asked for, reached by one reply.
proof fn lemma_execution_phases(run: RunModel, reply: ReplyModel)
    requires
        run.phase != run.on(reply).phase,
    ensures
        run.on(reply).phase == Phase::CallExecute ==> run.phase == Phase::StepLog,
        run.on(reply).phase == Phase::BatchExecute ==> run.phase == Phase::BatchLog,
        run.on(reply).phase == Phase::StepLog ==> run.phase == Phase::StepContext && (
        reply matches ReplyModel::Context(Ok(context)) && step_flaw(
            run.action(),
            context.skills,
            run.selected,
            run.options.skill_mode,
        ) is None),
        run.on(reply).phase == Phase::BatchLog ==> run.phase == Phase::BatchContext && (
        reply matches ReplyModel::Context(Ok(context))
            && run.batch().progress.capability_flaw(context.skills) is None),
{
    broadcast use {
        lemma_after_drive_quiet,
        lemma_after_batch_quiet,
        lemma_next_round_quiet,
        lemma_begin_drive_quiet,
        lemma_applied_quiet,
        lemma_cancelled_end_quiet,
        lemma_bounded_end_quiet,
    };

    match reply {
        ReplyModel::Checkpoint(_) => {
            reveal(RunModel::on_checkpoint);
        },
        ReplyModel::Signal(_) => {
            reveal(RunModel::on_signal);
        },
        ReplyModel::Observed(_) => {
            reveal(RunModel::on_observed);
        },
        ReplyModel::Context(_) => {
            reveal(RunModel::on_context);
        },
        ReplyModel::Decided(_) => {
            reveal(RunModel::on_decided);
        },
        ReplyModel::Log(_, _) => {
            reveal(RunModel::on_log);
        },
        ReplyModel::Executed(_) => {
            reveal(RunModel::on_executed);
        },
    }
}

/// No call is executed unless the skills that the adapter resolved for it allow it: an
/// execution is asked for only behind the journal check that follows such a resolution.
pub proof fn executions_follow_a_check(run: RunModel, first: ReplyModel, second: ReplyModel)
    requires
        quiet(run.phase),
    ensures
        !(run.on(first).request() is Execute),
        run.on(first).phase != run.on(first).on(second).phase && run.on(first).on(
            second,
        ).request() is Execute ==> {
            ||| first matches ReplyModel::Context(Ok(context)) && run.phase == Phase::StepContext
                && step_flaw(
                run.action(),
                context.skills,
                run.selected,
                run.options.skill_mode,
            ) is None
            ||| first matches ReplyModel::Context(Ok(context)) && run.phase == Phase::BatchContext
                && run.batch().progress.capability_flaw(context.skills) is None
        },
{
    let middle = run.on(first);
    if run.phase != middle.phase {
        lemma_execution_phases(run, first);
    }
    if middle.phase != middle.on(second).phase {
        lemma_execution_phases(middle, second);
    }
}

} // verus!
