//! What a run does with each reply of its host: how it starts, decides, executes and ends.
use crate::api::{
    ActionModel, ActionOutcome, ActionReportModel, AdapterErrorModel, AppStateModel,
    DecisionContextModel, FailureStage, SkillModel,
};
use crate::batch::{BatchRequestModel, BatchStatus};
use crate::clock::{CLOCK_END, Nanos};
use crate::execution::ExecutionStatus;
use crate::kernel::{
    plan_flaw, Continuation, DecisionModel, ErrorModel, EventModel, RunOptions, Signal, Status,
};
use crate::run_model::{
    batch_halts, drives, step_flaw, DecisionReplyModel, Phase, RequestModel, RunModel,
};
use crate::skills::{names_sound, SkillMode};
use crate::text::Text;
use vstd::prelude::*;

verus! {

/// Whether a run is over, with a status, a reason and a number of decisions.
pub open spec fn over(run: RunModel, status: Status, reason: Text, decisions: int) -> bool {
    &&& run.request() is Done
    &&& run.error is None
    &&& run.outcome matches Some(outcome)
    &&& outcome.status == status
    &&& outcome.reason == reason
    &&& outcome.decisions == decisions
    &&& outcome.state == run.state
}

/// A run begins at a safe boundary and looks at the cancellation before it observes; cancelled
/// then, it ends without an observation.
pub proof fn runs_begin_with_an_observation(
    goal: Text,
    options: RunOptions,
    signal: Signal,
    error: ErrorModel,
)
    ensures
        ({
            let fresh = RunModel::fresh(goal, options);
            let ready = fresh.on_checkpoint(Ok(()));
            let seen = ready.on_signal(signal);
            &&& fresh.request() is Checkpoint
            &&& fresh.on_checkpoint(Err(error)).error == Some(error)
            &&& ready.request() is Signal
            &&& if signal.cancelled {
                seen.request() is Done && seen.outcome->0.status == Status::Cancelled
                    && seen.outcome->0.decisions == 0
            } else {
                seen.request() is Observe
            }
        }),
{
    reveal(RunModel::on_checkpoint);
    reveal(RunModel::on_signal);
}

/// Every decision is made on a fresh observation: the observation is kept and reported, and the
/// next round begins while decisions are left. What cannot be observed ends the run.
pub proof fn rounds_begin_with_an_observation(
    run: RunModel,
    state: AppStateModel,
    error: AdapterErrorModel,
)
    requires
        run.wf(),
        run.phase == Phase::FirstObserve || run.phase == Phase::Reobserve,
        !run.local,
    ensures
        ({
            let next = run.on_observed(Ok(state));
            &&& next.state == state
            &&& next.events.len() > 0 && run.events.push(EventModel::Observed(state)) == next.events.take(
                run.events.len() as int + 1,
            )
            &&& if run.step < run.options.max_decisions {
                &&& next.request() is Checkpoint
                &&& next.phase == Phase::RoundCheckpoint
                &&& next.step == run.step + 1
                &&& next.pending == run.pending
            } else {
                over(next, Status::Failed, "decision limit reached"@, run.step as int)
            }
        }),
        run.on_observed(Err(error)).error == Some(ErrorModel::Adapter(error)),
{
    reveal(RunModel::on_observed);
    reveal(RunModel::next_round);
    let next = run.on_observed(Ok(state));
    let told = run.events.push(EventModel::Observed(state));
    assert(next.events.take(run.events.len() as int + 1) =~= told);
}

/// In a round the run waits for a safe boundary, looks at the cancellation, asks for the skills,
/// waits again, and then asks for one decision, which it takes up after another boundary.
pub proof fn rounds_lead_to_one_decision(
    run: RunModel,
    signal: Signal,
    context: DecisionContextModel,
    decision: DecisionModel,
)
    requires
        run.wf(),
        run.phase == Phase::RoundCheckpoint,
        !signal.cancelled,
        run.pending is None,
        names_sound(context.skills),
    ensures
        ({
            let a = run.on_checkpoint(Ok(()));
            let b = a.on_signal(signal);
            let c = b.on_context(Ok(context));
            let d = c.on_checkpoint(Ok(()));
            let e = d.on_decided(DecisionReplyModel::Decided(decision));
            let f = e.on_checkpoint(Ok(()));
            &&& a.request() is Signal
            &&& b.request() == (RequestModel::Context { step: run.step })
            &&& c.request() is Checkpoint
            &&& d.request() is Decide
            &&& e.request() is Checkpoint
            &&& f.request() is Signal
            &&& f.on_signal(signal) == (RunModel { decision: None, ..f }).applied(decision)
            &&& f.step == run.step
            &&& f.state == run.state
            &&& f.skills == context.skills
        }),
{
    reveal(RunModel::on_checkpoint);
    reveal(RunModel::on_signal);
    reveal(RunModel::bounded_end);
    reveal(RunModel::on_context);
    reveal(RunModel::on_decided);
}

/// The agent sees the skills as the mode and the selection give them, the adapter's advice, the
/// latest failure, the interrupted execution, and the budgets of the run.
pub proof fn agents_see_the_state_of_the_run(run: RunModel, context: DecisionContextModel)
    requires
        run.wf(),
        run.phase == Phase::RoundContext,
        names_sound(context.skills),
    ensures
        ({
            let next = run.on_context(Ok(context));
            let mode = run.options.skill_mode;
            &&& next.view matches Some(view)
            &&& view.guidance == context.guidance
            &&& view.failure == run.failure
            &&& view.last_load == run.last_load
            &&& view.max_actions == run.options.max_actions
            &&& view.max_repeat == if run.options.max_repeat <= run.options.max_batch_attempts {
                run.options.max_repeat
            } else {
                run.options.max_batch_attempts
            }
            &&& view.discovery_enabled == (mode == SkillMode::OnDemand)
            &&& match run.pending {
                None => view.execution is None && view.batch is None,
                Some(pending) => view.execution == Some(pending.progress) && match pending.batch {
                    None => view.batch is None,
                    Some(batch) => view.batch == Some(batch.progress),
                },
            }
            &&& view.loaded == context.skills.filter(
                |skill: SkillModel|
                    skill.availability is Available && (mode == SkillMode::All
                        || run.selected.contains(skill.name)),
            )
        }),
{
    reveal(RunModel::on_context);
    crate::skills::views_show_every_skill(
        context.skills,
        run.options.skill_mode,
        run.selected,
        run.last_load,
    );
    let mode = run.options.skill_mode;
    let usable = |skill: SkillModel|
        skill.availability is Available && (mode == SkillMode::All || run.selected.contains(
            skill.name,
        ));
    assert(crate::skills::skill_view(context.skills, mode, run.selected, run.last_load).loaded
        == context.skills.filter(usable));
}

/// Skills whose names are blank or not unique end the run, and so does an adapter that cannot name
/// them.
pub proof fn doubtful_skills_end_runs(
    run: RunModel,
    context: DecisionContextModel,
    error: AdapterErrorModel,
)
    requires
        run.wf(),
        run.phase == Phase::RoundContext,
        !names_sound(context.skills),
    ensures
        run.on_context(Ok(context)).error is Some && run.on_context(Ok(context)).error->0
            is Invalid,
        run.on_context(Err(error)).error == Some(ErrorModel::Adapter(error)),
{
    reveal(RunModel::on_context);
}

/// The agent ends the task as completed or as failed, for its reason; as completed only while no
/// execution is interrupted.
pub proof fn agents_end_tasks(run: RunModel, reason: Text)
    requires
        run.wf(),
        run.phase != Phase::Done,
    ensures
        run.pending is None ==> over(
            run.applied(DecisionModel::Completed(reason)),
            Status::Completed,
            reason,
            run.step as int,
        ),
        run.pending is Some ==> run.applied(DecisionModel::Completed(reason)).outcome->0.status
            == Status::Failed && run.applied(DecisionModel::Completed(reason)).request() is Done,
        over(run.applied(DecisionModel::Failed(reason)), Status::Failed, reason, run.step as int),
        run.pending matches Some(pending) ==> run.applied(
            DecisionModel::Failed(reason),
        ).outcome->0.execution == Some(pending.progress),
{
    reveal(RunModel::applied);
}

/// A plan in which nothing is wrong is executed as it was decided, from its first action; one in
/// which something is wrong is not executed, the agent is told why, and asked again after another
/// observation unless it was refused too often.
pub proof fn plans_are_executed_or_refused(
    run: RunModel,
    actions: Seq<ActionModel>,
    then: Continuation,
)
    requires
        run.wf(),
        run.phase == Phase::DecidedSignal,
        run.pending is None,
    ensures
        ({
            let plan = DecisionModel::Execute { actions, then };
            let next = run.applied(plan);
            let limit = run.options.max_repeated_failures;
            match plan_flaw(actions, run.skills, run.selected, run.options) {
                None => {
                    &&& next.active matches Some(execution)
                    &&& execution.progress.actions == actions
                    &&& execution.progress.continuation == then
                    &&& execution.progress.completed == 0
                    &&& execution.progress.status == ExecutionStatus::Running
                    &&& execution.batch is None
                    &&& next.phase == Phase::StepCheckpoint
                    &&& next.request() is Checkpoint
                },
                Some(flaw) => {
                    &&& next.active is None
                    &&& next.failure == Some(flaw)
                    &&& flaw.call matches Some(call) ==> next.previous matches Some(result)
                        && result.call == call && !result.success && result.message == flaw.message
                    &&& match run.guard.plan_verdict(plan, true, limit) {
                        None => next.request() is Observe && next.step == run.step,
                        Some(reason) => over(next, Status::Failed, reason, run.step as int),
                    }
                },
            }
        }),
{
    reveal(RunModel::applied);
    reveal(RunModel::begin_drive);
    reveal(RunModel::rejected);
}

/// While an execution is interrupted, another is started only as a repair: one plain call, after
/// which the agent is asked again, and not the call that is pending.
pub proof fn only_repairs_are_started_beside_interrupted_work(
    run: RunModel,
    actions: Seq<ActionModel>,
    then: Continuation,
)
    requires
        run.wf(),
        run.phase == Phase::DecidedSignal,
        run.pending is Some,
        plan_flaw(actions, run.skills, run.selected, run.options) is None,
    ensures
        ({
            let next = run.applied(DecisionModel::Execute { actions, then });
            let repair = {
                &&& then == Continuation::Decide
                &&& actions.len() == 1
                &&& actions[0] is Call
                &&& run.pending->0.pending_call() matches Some(call) ==> call.name
                    != actions[0].call().name
            };
            if repair {
                &&& next.active matches Some(execution)
                &&& execution.progress.actions == actions
                &&& execution.progress.completed == 0
                &&& next.pending == run.pending
                &&& next.phase == Phase::StepCheckpoint
            } else {
                next.active is None && next.failure is Some
            }
        }),
{
    reveal(RunModel::applied);
    reveal(RunModel::begin_drive);
    reveal(RunModel::rejected);
}

/// An interrupted execution is resumed where it is, or replaced where it may be, and is not pending
/// any more then. Without one there is nothing to resume or to replace.
pub proof fn interrupted_work_goes_on(
    run: RunModel,
    actions: Seq<ActionModel>,
    then: Continuation,
)
    requires
        run.wf(),
        run.phase == Phase::DecidedSignal,
    ensures
        ({
            let next = run.applied(DecisionModel::Resume);
            match run.pending {
                None => next.error is Some && next.error->0 is Invalid,
                Some(before) => {
                    &&& next.pending is None
                    &&& next.active matches Some(execution)
                    &&& execution.progress.actions == before.progress.actions
                    &&& execution.progress.completed == before.progress.completed
                    &&& execution.progress.status == ExecutionStatus::Running
                    &&& if before.progress.completed == before.progress.actions.len() {
                        next.request() is Observe
                    } else {
                        next.request() is Checkpoint
                    }
                },
            }
        }),
        ({
            let next = run.applied(DecisionModel::ReplaceRemaining { actions, then });
            if plan_flaw(actions, run.skills, run.selected, run.options) is None
                && run.pending is Some && run.pending->0.replacement_flaw(actions) is None {
                &&& next.pending is None
                &&& next.active matches Some(execution)
                &&& execution.progress.actions == run.pending->0.replaced_by(
                    actions,
                    then,
                ).progress.actions
                &&& execution.progress.completed == run.pending->0.progress.completed
                &&& execution.progress.continuation == then
                &&& next.request() is Checkpoint
            } else {
                next.active is None && next.failure is Some && (next.pending is Some <==> run.pending
                    is Some)
            }
        }),
{
    reveal(RunModel::applied);
    reveal(RunModel::begin_drive);
    reveal(RunModel::rejected);
}

/// An action is executed only after a safe boundary, a look at the cancellation, an observation,
/// a check of its skill and of the journal; then it is the call of that action that is executed.
pub proof fn calls_are_checked_before_they_are_made(
    run: RunModel,
    signal: Signal,
    state: AppStateModel,
    context: DecisionContextModel,
    now: Nanos,
)
    requires
        run.wf(),
        run.phase == Phase::StepCheckpoint,
        !signal.cancelled,
        run.active->0.batch is None,
        run.action() is Call,
        step_flaw(run.action(), context.skills, run.selected, run.options.skill_mode) is None,
    ensures
        ({
            let a = run.on_checkpoint(Ok(()));
            let b = a.on_signal(signal);
            let c = b.on_observed(Ok(state));
            let d = c.on_context(Ok(context));
            let e = d.on_log(Ok(()), now);
            &&& run.request() is Checkpoint
            &&& a.request() is Signal
            &&& b.request() is Observe
            &&& c.request() is Context
            &&& d.request() is CheckLog
            &&& e.request() == (RequestModel::Execute {
                call: run.action()->Call_0,
                deadline: None,
            })
            &&& e.state == state
            &&& e.active == run.active
        }),
{
    reveal(RunModel::on_checkpoint);
    reveal(RunModel::on_signal);
    reveal(RunModel::on_observed);
    reveal(RunModel::on_context);
    reveal(RunModel::on_log);
}

/// A skill is checked again right before its action: it must be there and usable, selected where
/// skills are loaded on demand, and repeatable or loopable where the action needs it.
pub proof fn skills_are_checked_before_every_action(
    action: ActionModel,
    skills: Seq<SkillModel>,
    selected: Seq<Text>,
    mode: SkillMode,
)
    ensures
        step_flaw(action, skills, selected, mode) is None <==> {
            &&& crate::api::skill_named(skills, action.call().name) matches Some(skill)
            &&& skill.availability is Available
            &&& mode == SkillMode::OnDemand ==> selected.contains(action.call().name)
            &&& action is Repeat ==> skill.repeatable
            &&& action is UntilDone ==> skill.loopable
        },
{
}

/// A call that its skill does not allow is not made: the agent is told, and the plan is
/// interrupted there, or given up where it was that call alone.
pub proof fn unavailable_calls_are_not_made(run: RunModel, context: DecisionContextModel)
    requires
        run.wf(),
        run.phase == Phase::StepContext,
        !run.local,
        run.pending is None,
        step_flaw(run.action(), context.skills, run.selected, run.options.skill_mode) is Some,
    ensures
        ({
            let next = run.on_context(Ok(context));
            &&& next.phase == Phase::AfterSignal
            &&& next.active is None
            &&& next.previous matches Some(result) && result.call == run.action().call()
                && !result.success && result.outcome is None
            &&& next.failure matches Some(failure) && failure.stage == FailureStage::Availability
                && failure.call == Some(run.action().call())
            &&& next.pending is Some <==> run.active->0.retained()
            &&& next.pending matches Some(pending) ==> pending.progress.completed
                == run.active->0.progress.completed && pending.progress.status
                == ExecutionStatus::Interrupted && pending.progress.failure == next.failure
        }),
{
    reveal(RunModel::on_context);
    reveal(RunModel::after_drive);
}

/// A call is confirmed exactly if the adapter reports it as completed; whatever it achieved, the
/// application is observed next, unless the call has failed too often.
pub proof fn completed_calls_are_confirmed(
    run: RunModel,
    report: Result<ActionReportModel, AdapterErrorModel>,
)
    requires
        run.wf(),
        run.phase == Phase::CallExecute,
    ensures
        ({
            let next = run.on_executed(report);
            let call = run.action()->Call_0;
            let completed = report matches Ok(report) && report.outcome is Completed;
            let limit = run.options.max_repeated_failures;
            &&& next.active->0.progress.completed == run.active->0.progress.completed + (
            if completed {
                1int
            } else {
                0
            })
            &&& next.previous matches Some(result) && result.call == call && result.success
                == completed && result.message == match report {
                Ok(report) => report.message,
                Err(error) => error.message(),
            } && result.outcome == match report {
                Ok(report) => Some(report.outcome),
                Err(_) => None,
            }
            &&& next.failure is Some <==> !completed
            &&& next.guard == run.guard.after_call(call, report)
            &&& match run.guard.call_verdict(call, report, limit) {
                Some(reason) => next.request() is Signal && next.verdict == reason,
                None => next.request() is Observe,
            }
        }),
{
    reveal(RunModel::on_executed);
}

/// After the observation a confirmed call is followed by the next action or by the end of the plan;
/// any other interrupts the plan, ends the task where it was cancelled, and fails it where its time
/// was up.
pub proof fn confirmed_calls_are_followed_by_the_next(run: RunModel, state: AppStateModel)
    requires
        run.wf(),
        run.phase == Phase::CallObserve,
    ensures
        ({
            let next = run.on_observed(Ok(state));
            let progress = run.active->0.progress;
            &&& next.state == state
            &&& if run.previous->0.success {
                &&& next.active->0.progress == progress
                &&& next.phase == if progress.completed < progress.actions.len() {
                    Phase::StepCheckpoint
                } else {
                    Phase::EndSignal
                }
            } else {
                !drives(next.phase)
            }
        }),
{
    reveal(RunModel::on_observed);
    reveal(RunModel::after_drive);
}

/// How a call that was not confirmed ends its plan.
pub proof fn failed_calls_end_their_plan(
    run: RunModel,
    report: Result<ActionReportModel, AdapterErrorModel>,
    state: AppStateModel,
)
    requires
        run.wf(),
        run.phase == Phase::CallExecute,
        !run.local,
        run.pending is None,
        !(report matches Ok(report) && report.outcome is Completed),
        run.guard.call_verdict(
            run.action()->Call_0,
            report,
            run.options.max_repeated_failures,
        ) is None,
    ensures
        ({
            let next = run.on_executed(report).on_observed(Ok(state));
            match report {
                Err(AdapterErrorModel::Cancelled) => next.outcome->0.status == Status::Cancelled,
                Err(AdapterErrorModel::TimedOut) => next.outcome->0.status == Status::Failed,
                _ => {
                    &&& next.phase == Phase::AfterSignal
                    &&& next.active is None
                    &&& next.pending is Some <==> run.active->0.retained()
                    &&& next.pending matches Some(pending) ==> pending.progress.completed
                        == run.active->0.progress.completed && pending.progress.actions
                        == run.active->0.progress.actions && pending.progress.status
                        == ExecutionStatus::Interrupted
                },
            }
        }),
{
    reveal(RunModel::on_executed);
    reveal(RunModel::on_observed);
    reveal(RunModel::after_drive);
}

/// A call or a repetition that has failed too often fails the task with that reason, unless the
/// task is cancelled.
pub proof fn repeated_failures_fail_the_task(run: RunModel, signal: Signal)
    requires
        run.wf(),
        run.phase == Phase::CallSignal,
        !signal.cancelled,
    ensures
        over(
            run.on_signal(signal),
            Status::Failed,
            run.verdict,
            if run.local {
                0
            } else {
                run.step as int
            },
        ),
{
    reveal(RunModel::on_signal);
    reveal(RunModel::after_drive);
}

/// A repetition begins with a deadline as far from now as the options say, and with the attempts
/// that they give; one that goes on keeps both.
pub proof fn repetitions_begin_with_their_budgets(run: RunModel, now: Nanos)
    requires
        run.wf(),
        run.phase == Phase::StepLog,
        !(run.action() is Call),
    ensures
        ({
            let next = run.on_log(Ok(()), now);
            let timeout = run.options.batch_timeout;
            &&& next.phase == Phase::BatchCheckpoint
            &&& next.batch().progress.status == BatchStatus::Running
            &&& match run.active->0.batch {
                Some(before) => next.batch().deadline == before.deadline
                    && next.batch().max_attempts == before.max_attempts
                    && next.batch().progress.completed == before.progress.completed
                    && next.batch().progress.attempts == before.progress.attempts
                    && next.batch().progress.remaining == before.progress.remaining,
                None => {
                    &&& next.batch().deadline == if now + timeout <= CLOCK_END {
                        Some((now + timeout) as Nanos)
                    } else {
                        None
                    }
                    &&& next.batch().max_attempts == run.options.max_batch_attempts
                    &&& next.batch().progress.completed == 0
                    &&& next.batch().progress.attempts == 0
                    &&& match run.action() {
                        ActionModel::Repeat(request) => next.batch().progress.request
                            == BatchRequestModel::Repeat(request)
                            && next.batch().progress.remaining == Some(request.times),
                        ActionModel::UntilDone(call) => next.batch().progress.request
                            == BatchRequestModel::UntilDone(call),
                        ActionModel::Call(_) => false,
                    }
                },
            }
        }),
{
    reveal(RunModel::on_log);
}

/// Every repetition is made like a single call: after a safe boundary, a look at the bounds, an
/// observation, and a check of the skill and of the journal. It is counted as an attempt before
/// it is made.
pub proof fn repetitions_are_checked_before_they_are_made(
    run: RunModel,
    signal: Signal,
    state: AppStateModel,
    context: DecisionContextModel,
    now: Nanos,
)
    requires
        run.wf(),
        run.phase == Phase::BatchCheckpoint,
        run.batch().limit(signal) is None,
        run.batch().progress.capability_flaw(context.skills) is None,
    ensures
        ({
            let a = run.on_checkpoint(Ok(()));
            let b = a.on_signal(signal);
            let c = b.on_observed(Ok(state));
            let d = c.on_context(Ok(context));
            let e = d.on_log(Ok(()), now);
            &&& run.request() is Checkpoint
            &&& a.request() is Signal
            &&& b.request() is Observe
            &&& c.request() is Context
            &&& d.request() is CheckLog
            &&& e.request() == (RequestModel::Execute {
                call: run.batch().progress.request.call(),
                deadline: run.batch().deadline,
            })
            &&& e.state == state
            &&& e.batch().progress.attempts == run.batch().progress.attempts + 1
            &&& e.batch().progress.completed == run.batch().progress.completed
        }),
{
    reveal(RunModel::on_checkpoint);
    reveal(RunModel::on_signal);
    reveal(RunModel::on_observed);
    reveal(RunModel::on_context);
    reveal(RunModel::on_log);
}

/// After an attempt the application is observed; a confirmed one is followed by another until
/// the repetition is finished, and then the action is confirmed.
pub proof fn confirmed_repetitions_are_followed_by_the_next(
    run: RunModel,
    report: Result<ActionReportModel, AdapterErrorModel>,
    state: AppStateModel,
    signal: Signal,
)
    requires
        run.wf(),
        run.phase == Phase::BatchExecute,
        run.guard.call_verdict(
            run.batch().progress.request.call(),
            report,
            run.options.max_repeated_failures,
        ) is None,
        !signal.cancelled,
        run.batch().deadline matches Some(deadline) ==> signal.now < deadline,
        run.batch().progress.settled(report).completed > run.batch().progress.completed,
    ensures
        ({
            let a = run.on_executed(report);
            let b = a.on_observed(Ok(state));
            let c = b.on_signal(signal);
            let settled = run.batch().progress.settled(report);
            let progress = run.active->0.progress;
            &&& a.request() is Observe
            &&& b.request() is Signal
            &&& b.state == state
            &&& if settled.finished {
                &&& c.active->0.progress.completed == progress.completed + 1
                &&& c.phase == if progress.completed + 1 < progress.actions.len() {
                    Phase::StepCheckpoint
                } else {
                    Phase::EndSignal
                }
            } else if settled.attempts < run.batch().max_attempts {
                &&& c.phase == Phase::BatchCheckpoint
                &&& c.active->0.progress.completed == progress.completed
                &&& c.batch().progress.completed == settled.completed
            } else {
                !drives(c.phase)
            }
        }),
{
    reveal(RunModel::on_executed);
    reveal(RunModel::on_observed);
    reveal(RunModel::on_signal);
    reveal(RunModel::after_batch);
    reveal(RunModel::after_drive);
}

/// A repetition that stops without being finished stops its plan: by a cancellation as cancelled,
/// by a bound as failed, and otherwise as interrupted, so that it can be resumed.
pub proof fn stopped_repetitions_stop_their_plan(status: BatchStatus)
    ensures
        batch_halts(status) is None <==> status == BatchStatus::Completed,
        batch_halts(status) == Some(ExecutionStatus::Cancelled) <==> status
            == BatchStatus::Cancelled,
        batch_halts(status) == Some(ExecutionStatus::Failed) <==> status == BatchStatus::TimedOut
            || status == BatchStatus::AttemptLimit || status == BatchStatus::Failed,
        batch_halts(status) == Some(ExecutionStatus::Interrupted) <==> status
            == BatchStatus::Running || status == BatchStatus::Interrupted,
{
}

/// An attempt that was not confirmed interrupts the repetition after an observation, and keeps
/// what was confirmed before.
pub proof fn interrupted_repetitions_keep_their_count(
    run: RunModel,
    report: Result<ActionReportModel, AdapterErrorModel>,
    state: AppStateModel,
)
    requires
        run.wf(),
        run.phase == Phase::BatchExecute,
        !run.local,
        run.pending is None,
        run.guard.call_verdict(
            run.batch().progress.request.call(),
            report,
            run.options.max_repeated_failures,
        ) is None,
        run.batch().progress.confirms(
            (match report {
                Ok(report) => report.outcome,
                Err(_) => ActionOutcome::Interrupted,
            }),
        ) is None,
    ensures
        ({
            let next = run.on_executed(report).on_observed(Ok(state));
            match report {
                Err(AdapterErrorModel::Cancelled) => next.outcome->0.status == Status::Cancelled,
                Err(AdapterErrorModel::TimedOut) => next.outcome->0.status == Status::Failed,
                _ => {
                    &&& next.phase == Phase::AfterSignal
                    &&& next.pending matches Some(pending)
                    &&& pending.progress.status == ExecutionStatus::Interrupted
                    &&& pending.progress.completed == run.active->0.progress.completed
                    &&& pending.batch matches Some(batch)
                    &&& batch.progress.completed == run.batch().progress.completed
                    &&& batch.progress.attempts == run.batch().progress.attempts
                    &&& batch.progress.status == BatchStatus::Interrupted
                    &&& batch.deadline == run.batch().deadline
                },
            }
        }),
{
    reveal(RunModel::on_executed);
    reveal(RunModel::on_observed);
    reveal(RunModel::after_batch);
    reveal(RunModel::after_drive);
}

/// An observation that fails during a plan interrupts it, keeps what is confirmed, and is the
/// latest failure; it never undoes a confirmed call.
pub proof fn lost_observations_interrupt_plans(run: RunModel, error: AdapterErrorModel)
    requires
        run.wf(),
        run.phase == Phase::StepObserve || run.phase == Phase::CallObserve,
        !run.local,
        run.pending is None,
    ensures
        ({
            let next = run.on_observed(Err(error));
            &&& next.phase == Phase::AfterSignal
            &&& next.state == run.state
            &&& next.failure matches Some(failure) && failure.stage == FailureStage::Observation
            &&& next.pending matches Some(pending) ==> pending.progress.completed
                == run.active->0.progress.completed && pending.progress.actions
                == run.active->0.progress.actions
            &&& next.pending is Some <==> run.active->0.retained()
        }),
{
    reveal(RunModel::on_observed);
    reveal(RunModel::after_drive);
}

/// After a plan that did not end the task, the run looks at the cancellation and begins another
/// round while decisions are left.
pub proof fn plans_are_followed_by_another_round(run: RunModel, signal: Signal)
    requires
        run.wf(),
        run.phase == Phase::AfterSignal,
        !signal.cancelled,
        run.step < run.options.max_decisions,
    ensures
        ({
            let next = run.on_signal(signal);
            &&& next.phase == Phase::RoundCheckpoint
            &&& next.step == run.step + 1
            &&& next.pending == run.pending
            &&& next.state == run.state
        }),
{
    reveal(RunModel::on_signal);
    reveal(RunModel::next_round);
}

/// A prepared request is executed after one observation, without an agent, and ends the run as it
/// ends itself.
pub proof fn prepared_requests_are_executed(run: RunModel, state: AppStateModel)
    requires
        run.wf(),
        run.phase == Phase::FirstObserve,
        run.local,
        run.active->0.progress.completed < run.active->0.progress.actions.len(),
    ensures
        ({
            let next = run.on_observed(Ok(state));
            &&& next.state == state
            &&& next.phase == Phase::StepCheckpoint
            &&& next.active->0.progress.actions == run.active->0.progress.actions
            &&& next.active->0.progress.completed == run.active->0.progress.completed
        }),
{
    reveal(RunModel::on_observed);
    reveal(RunModel::begin_drive);
}

/// Every decision is reported, every call with its result, and every load with its answer.
pub proof fn decisions_and_results_are_reported(
    run: RunModel,
    decision: DecisionModel,
    report: Result<ActionReportModel, AdapterErrorModel>,
    request: crate::skills::LoadSkillsModel,
)
    requires
        run.wf(),
    ensures
        run.phase == Phase::Deciding ==> run.on_decided(
            DecisionReplyModel::Decided(decision),
        ).events == run.events.push(EventModel::Decided(decision)),
        run.phase == Phase::CallExecute ==> run.on_executed(report).events.last()
            == EventModel::Executed(run.on_executed(report).previous->0),
        run.phase == Phase::DecidedSignal ==> run.applied(
            DecisionModel::LoadSkills(request),
        ).events == run.events.push(
            EventModel::SkillsLoaded(
                run.applied(DecisionModel::LoadSkills(request)).last_load->0,
            ),
        ),
{
    reveal(RunModel::on_decided);
    reveal(RunModel::on_executed);
    reveal(RunModel::applied);
}

/// An action that starts is reported with its place in the plan, and so is every step of the
/// progress: where an execution begins, and each repetition with its counts.
pub proof fn progress_is_reported(
    run: RunModel,
    context: DecisionContextModel,
    signal: Signal,
    now: Nanos,
)
    requires
        run.wf(),
    ensures
        run.phase == Phase::StepContext && step_flaw(
            run.action(),
            context.skills,
            run.selected,
            run.options.skill_mode,
        ) is None ==> (run.on_context(Ok(context)).events.last() matches EventModel::ActionStarted {
            index,
            total,
            call,
        } && index == run.active->0.progress.completed as usize && total
            == run.active->0.progress.actions.len() as usize && call == run.action().call()),
        run.phase == Phase::StepLog && !(run.action() is Call) ==> run.on_log(
            Ok(()),
            now,
        ).events.last() == EventModel::BatchProgress(run.on_log(Ok(()), now).batch().progress),
        run.phase == Phase::EndSignal && !signal.cancelled ==> (run.on_signal(signal).events.last()
            matches EventModel::ExecutionProgress(progress) && progress.status
            == ExecutionStatus::Completed && progress.completed == progress.actions.len()),
        run.phase == Phase::DecidedSignal && run.pending is Some ==> run.applied(
            DecisionModel::Resume,
        ).events.last() == EventModel::ExecutionProgress(
            run.applied(DecisionModel::Resume).active->0.progress,
        ),
{
    reveal(RunModel::on_context);
    reveal(RunModel::on_log);
    reveal(RunModel::on_signal);
    reveal(RunModel::after_drive);
    reveal(RunModel::applied);
    reveal(RunModel::begin_drive);
}

/// An observation that fails is reported as the failure that it is, next after what was reported
/// before it.
pub proof fn failures_are_reported(run: RunModel, error: AdapterErrorModel)
    requires
        run.wf(),
        run.phase == Phase::StepObserve || run.phase == Phase::FirstObserve,
    ensures
        ({
            let next = run.on_observed(Err(error));
            &&& next.failure is Some
            &&& next.events.len() > run.events.len()
            &&& next.events[run.events.len() as int] == EventModel::ExecutionFailed(next.failure->0)
        }),
{
    reveal(RunModel::on_observed);
    reveal(RunModel::after_drive);
}

/// A load of skills replaces the selection by what was asked for, where skills are loaded on demand
/// and the request can be served; otherwise the selection stays and the agent is told why.
pub proof fn loads_replace_the_selection(
    run: RunModel,
    request: crate::skills::LoadSkillsModel,
)
    requires
        run.wf(),
        run.phase == Phase::DecidedSignal,
    ensures
        ({
            let next = run.applied(DecisionModel::LoadSkills(request));
            let served = run.options.skill_mode == SkillMode::OnDemand && crate::skills::selection(
                request,
                run.skills,
            ) is Ok;
            &&& next.request() is Observe
            &&& next.last_load matches Some(load) && load.success == served && load.request
                == request && load.selected == next.selected
            &&& next.selected == if served {
                crate::skills::selection(request, run.skills)->Ok_0
            } else {
                run.selected
            }
            &&& next.pending == run.pending
            &&& next.active is None
        }),
{
    reveal(RunModel::applied);
}

} // verus!
