//! How a run ends: by cancellation, by its bounds, and by nothing less than a decision or
//! confirmed work where it is completed.
use crate::api::{
    ActionModel, ActionReportModel, AdapterErrorModel, AppStateModel, DecisionContextModel,
};
use crate::clock::Nanos;
use crate::execution::{asks_for, ActiveExecutionModel, ExecutionStatus};
use crate::kernel::{Continuation, DecisionModel, ErrorModel, Signal, Status};
use crate::run_model::{
    batch_halts, drives, replies_keep_runs_sound, DecisionReplyModel, Phase, ReplyModel,
    RequestModel, RunModel,
};
use crate::skills::{selection, LoadSkillsModel, SkillMode};
use crate::text::Text;
use vstd::prelude::*;

verus! {

impl RunModel {
    /// The run ended with a status.
    pub open spec fn ended_as(self, status: Status) -> bool {
        &&& self.phase == Phase::Done
        &&& self.outcome matches Some(outcome) && outcome.status == status
    }
}

/// Cancellation ends a run at the next look at the flag, whatever the run was doing, and the
/// run says so.
pub proof fn cancellation_ends_runs(run: RunModel, signal: Signal)
    requires
        run.wf(),
        run.request() is Signal,
        signal.cancelled,
    ensures
        run.on_signal(signal).ended_as(Status::Cancelled),
{
    reveal(RunModel::on_signal);
    reveal(RunModel::bounded_end);
    reveal(RunModel::cancelled_end);
    reveal(RunModel::after_drive);
    reveal(RunModel::after_batch);
}

/// A run that is cancelled while an agent decides ends without that decision.
pub proof fn cancelled_decisions_do_not_count(run: RunModel, signal: Signal)
    requires
        run.wf(),
        run.request() is Decide,
    ensures
        ({
            let after = run.on_decided(DecisionReplyModel::Cancelled(signal));
            after.ended_as(Status::Cancelled) && after.outcome->0.decisions == run.step - 1
        }),
{
    reveal(RunModel::on_decided);
}

/// A repetition past its deadline is not tried again: the run fails.
pub proof fn late_repetitions_fail(run: RunModel, signal: Signal)
    requires
        run.wf(),
        run.phase == Phase::BatchSignal,
        !signal.cancelled,
        run.batch().deadline matches Some(deadline) && deadline <= signal.now,
    ensures
        run.on_signal(signal).ended_as(Status::Failed),
        run.on_signal(signal).outcome->0.reason == "batch deadline exceeded"@,
{
    reveal(RunModel::on_signal);
    reveal(RunModel::after_drive);
    reveal(RunModel::after_batch);
}

/// A plan that is to finish the task does so without another decision once all its actions are
/// confirmed; any other plan goes back to the agent.
pub proof fn finished_plans_end_as_they_were_asked_to(run: RunModel, signal: Signal)
    requires
        run.wf(),
        run.phase == Phase::EndSignal,
        !signal.cancelled,
    ensures
        if run.local || run.active->0.progress.continuation == Continuation::Finish {
            &&& run.on_signal(signal).ended_as(Status::Completed)
            &&& run.on_signal(signal).outcome->0.decisions == run.step
            &&& run.on_signal(signal).outcome->0.state == run.state
        } else {
            run.on_signal(signal).phase == Phase::AfterSignal
        },
{
    reveal(RunModel::on_signal);
    reveal(RunModel::after_drive);
}

/// A run whose decisions are spent fails, and shows the execution that is still interrupted.
pub proof fn spent_decisions_end_runs(run: RunModel, signal: Signal)
    requires
        run.wf(),
        run.phase == Phase::AfterSignal,
        !signal.cancelled,
        run.step == run.options.max_decisions,
    ensures
        ({
            let after = run.on_signal(signal);
            &&& after.ended_as(Status::Failed)
            &&& after.outcome->0.reason == "decision limit reached"@
            &&& after.outcome->0.decisions == run.options.max_decisions
            &&& after.outcome->0.execution is Some <==> run.pending is Some
        }),
{
    reveal(RunModel::on_signal);
    reveal(RunModel::next_round);
}

/// Without a journal nothing is executed.
pub proof fn lost_journals_stop_executions(run: RunModel, error: ErrorModel, now: Nanos)
    requires
        run.wf(),
        run.request() is CheckLog,
    ensures
        !(run.on_log(Err(error), now).request() is Execute),
        run.phase == Phase::StepLog ==> run.on_log(Err(error), now).error == Some(error),
{
    reveal(RunModel::on_log);
    reveal(RunModel::after_drive);
    reveal(RunModel::after_batch);
}

/// What a completed run that was not completed before rests on: the agent said so while no
/// execution was interrupted, or every action of a plan that was to finish the task is
/// confirmed.
pub open spec fn well_founded(run: RunModel) -> bool {
    ||| run.phase == Phase::DecidedSignal && run.pending is None && run.decision is Some
        && run.decision->0 is Completed
    ||| run.phase == Phase::EndSignal && (run.local || run.active->0.progress.continuation
        == Continuation::Finish) && run.active->0.progress.completed
        == run.active->0.progress.actions.len()
}

broadcast proof fn lemma_drive_completes(run: RunModel)
    requires
        run.outcome is None,
    ensures
        (#[trigger] run.after_drive()).ended_as(Status::Completed) ==> {
            &&& run.active->0.progress.status == ExecutionStatus::Completed
            &&& run.local || run.active->0.progress.continuation == Continuation::Finish
        },
{
    reveal(RunModel::after_drive);
}

broadcast proof fn lemma_batch_completes(run: RunModel)
    requires
        run.outcome is None,
    ensures
        !(#[trigger] run.after_batch()).ended_as(Status::Completed),
{
    reveal(RunModel::after_batch);
    let progress = run.batch().progress;
    if let Some(status) = batch_halts(progress.status) {
        lemma_drive_completes(run.blame().stop_active(status, progress.message));
    }
}

broadcast proof fn lemma_round_completes(run: RunModel)
    requires
        run.outcome is None,
    ensures
        !(#[trigger] run.next_round()).ended_as(Status::Completed),
{
    reveal(RunModel::next_round);
}

proof fn lemma_decision_completes(run: RunModel, decision: DecisionModel)
    requires
        run.outcome is None,
    ensures
        run.applied(decision).ended_as(Status::Completed) ==> decision is Completed
            && run.pending is None,
{
    reveal(RunModel::applied);
    reveal(RunModel::begin_drive);
    reveal(RunModel::rejected);
}

/// A task is completed by nothing less: whatever the host hands back, a run that becomes
/// completed with it was told so by the agent, or has confirmed every action of a plan that was
/// to finish the task.
pub proof fn completion_is_decided_or_confirmed(run: RunModel, reply: ReplyModel)
    requires
        run.wf(),
        run.phase != Phase::Done,
    ensures
        run.on(reply).ended_as(Status::Completed) ==> well_founded(run),
{
    broadcast use {lemma_drive_completes, lemma_batch_completes, lemma_round_completes};

    match reply {
        ReplyModel::Checkpoint(_) => {
            reveal(RunModel::on_checkpoint);
        },
        ReplyModel::Signal(signal) => {
            reveal(RunModel::on_signal);
            reveal(RunModel::bounded_end);
            reveal(RunModel::cancelled_end);
            if run.phase == Phase::DecidedSignal {
                lemma_decision_completes(
                    RunModel { decision: None, ..run },
                    run.decision->0,
                );
            }
        },
        ReplyModel::Observed(_) => {
            reveal(RunModel::on_observed);
            reveal(RunModel::begin_drive);
        },
        ReplyModel::Context(_) => {
            reveal(RunModel::on_context);
        },
        ReplyModel::Decided(_) => {
            reveal(RunModel::on_decided);
        },
        ReplyModel::Log(_, _) => {
            reveal(RunModel::on_log);
        },
        ReplyModel::Executed(_) => {
            reveal(RunModel::on_executed);
        },
    }
}

/// A resumed execution goes on where it was interrupted, with its own continuation, and a
/// repetition with the deadline, the attempts and the progress that it had.
pub proof fn resumption_keeps_place_and_budget(run: RunModel)
    requires
        run.wf(),
        run.pending is Some,
    ensures
        ({
            let before = run.pending->0;
            let after = run.applied(DecisionModel::Resume).active->0;
            &&& after.progress.actions == before.progress.actions
            &&& after.progress.completed == before.progress.completed
            &&& after.progress.continuation == before.progress.continuation
            &&& after.batch == before.batch
        }),
        !run.applied(DecisionModel::Resume).ended_as(Status::Completed),
{
    reveal(RunModel::applied);
    reveal(RunModel::begin_drive);
}

/// While an execution is interrupted only one call can be started beside it, it is another call
/// than the one that is pending, and the interrupted execution is kept as it is.
pub proof fn repairs_keep_the_interrupted_execution(
    run: RunModel,
    actions: Seq<ActionModel>,
    then: Continuation,
)
    requires
        run.wf(),
        run.phase != Phase::Done,
        run.pending is Some,
    ensures
        ({
            let after = run.applied(DecisionModel::Execute { actions, then });
            after.active is Some && run.active is None ==> {
                &&& after.pending == run.pending
                &&& then == Continuation::Decide
                &&& actions.len() == 1
                &&& actions[0] is Call
                &&& run.pending->0.pending_call() matches Some(call) ==> call.name
                    != actions[0].call().name
            }
        }),
{
    reveal(RunModel::applied);
    reveal(RunModel::begin_drive);
    reveal(RunModel::rejected);
}

/// Only a load that succeeds changes the selection, and none executes anything.
pub proof fn loads_replace_the_selection_or_leave_it(run: RunModel, request: LoadSkillsModel)
    ensures
        ({
            let after = run.applied(DecisionModel::LoadSkills(request));
            &&& after.request() is Observe
            &&& after.active == run.active
            &&& after.pending == run.pending
            &&& match after.last_load {
                Some(load) => if load.success {
                    run.options.skill_mode == SkillMode::OnDemand && selection(request, run.skills)
                        == Ok::<Seq<Text>, Text>(after.selected)
                } else {
                    after.selected == run.selected
                },
                None => false,
            }
        }),
{
    reveal(RunModel::applied);
}

/// Whether an execution holds a loop that is finished.
pub open spec fn loop_finished(execution: Option<ActiveExecutionModel>) -> bool {
    execution matches Some(execution) && execution.batch is Some
        && execution.batch->0.progress.request is UntilDone
        && execution.batch->0.progress.finished
}

/// The loops of a run that are finished.
pub open spec fn some_loop_finished(run: RunModel) -> bool {
    loop_finished(run.active) || loop_finished(run.pending)
}

broadcast proof fn lemma_drive_keeps_loops(run: RunModel)
    ensures
        some_loop_finished(#[trigger] run.after_drive()) ==> some_loop_finished(run),
{
    reveal(RunModel::after_drive);
}

broadcast proof fn lemma_batch_keeps_loops(run: RunModel)
    requires
        run.active is Some,
        run.active->0.batch is Some,
    ensures
        some_loop_finished(#[trigger] run.after_batch()) ==> some_loop_finished(run),
{
    reveal(RunModel::after_batch);
    let progress = run.batch().progress;
    if let Some(status) = batch_halts(progress.status) {
        lemma_drive_keeps_loops(run.blame().stop_active(status, progress.message));
    }
}

broadcast proof fn lemma_round_keeps_loops(run: RunModel)
    ensures
        some_loop_finished(#[trigger] run.next_round()) ==> some_loop_finished(run),
{
    reveal(RunModel::next_round);
}

proof fn lemma_decision_keeps_loops(run: RunModel, decision: DecisionModel)
    ensures
        some_loop_finished(run.applied(decision)) ==> some_loop_finished(run),
{
    reveal(RunModel::applied);
    reveal(RunModel::begin_drive);
    reveal(RunModel::rejected);
}

proof fn lemma_signal_keeps_loops(run: RunModel, signal: Signal)
    requires
        run.wf(),
    ensures
        some_loop_finished(run.on_signal(signal)) ==> some_loop_finished(run),
{
    broadcast use {lemma_drive_keeps_loops, lemma_batch_keeps_loops, lemma_round_keeps_loops};

    reveal(RunModel::on_signal);
    if run.phase == Phase::DecidedSignal {
        lemma_decision_keeps_loops(RunModel { decision: None, ..run }, run.decision->0);
    }
    if run.phase == Phase::DecidedSignal || run.phase == Phase::RoundSignal || run.phase
        == Phase::AfterSignal {
        reveal(RunModel::bounded_end);
        reveal(RunModel::cancelled_end);
    }
}

proof fn lemma_observation_keeps_loops(
    run: RunModel,
    reply: Result<AppStateModel, AdapterErrorModel>,
)
    requires
        run.wf(),
    ensures
        some_loop_finished(run.on_observed(reply)) ==> some_loop_finished(run),
{
    broadcast use {lemma_drive_keeps_loops, lemma_batch_keeps_loops, lemma_round_keeps_loops};

    reveal(RunModel::on_observed);
    if run.phase == Phase::FirstObserve {
        reveal(RunModel::begin_drive);
    }
}

proof fn lemma_context_keeps_loops(
    run: RunModel,
    reply: Result<DecisionContextModel, AdapterErrorModel>,
)
    requires
        run.wf(),
    ensures
        some_loop_finished(run.on_context(reply)) ==> some_loop_finished(run),
{
    broadcast use {lemma_drive_keeps_loops, lemma_batch_keeps_loops};

    reveal(RunModel::on_context);
}

proof fn lemma_log_keeps_loops(run: RunModel, reply: Result<(), ErrorModel>, now: Nanos)
    requires
        run.wf(),
    ensures
        some_loop_finished(run.on_log(reply, now)) ==> some_loop_finished(run),
{
    broadcast use lemma_batch_keeps_loops;

    reveal(RunModel::on_log);
}

proof fn lemma_report_finishes_loops(
    run: RunModel,
    report: Result<ActionReportModel, AdapterErrorModel>,
)
    requires
        run.wf(),
        !some_loop_finished(run),
    ensures
        some_loop_finished(run.on_executed(report)) ==> run.phase == Phase::BatchExecute && (
        report matches Ok(report) && report.outcome is Completed),
{
    reveal(RunModel::on_executed);
}

/// A loop that goes on until it is done is finished by nothing but the adapter's report of
/// completion: no other reply of the host makes a run hold a finished loop.
pub proof fn loops_finish_only_when_reported(run: RunModel, reply: ReplyModel)
    requires
        run.wf(),
        !some_loop_finished(run),
    ensures
        some_loop_finished(run.on(reply)) ==> run.phase == Phase::BatchExecute && (
        reply matches ReplyModel::Executed(Ok(report)) && report.outcome is Completed),
{
    match reply {
        ReplyModel::Checkpoint(_) => {
            broadcast use lemma_batch_keeps_loops;

            reveal(RunModel::on_checkpoint);
        },
        ReplyModel::Signal(signal) => lemma_signal_keeps_loops(run, signal),
        ReplyModel::Observed(reply) => lemma_observation_keeps_loops(run, reply),
        ReplyModel::Context(reply) => lemma_context_keeps_loops(run, reply),
        ReplyModel::Decided(_) => {
            reveal(RunModel::on_decided);
        },
        ReplyModel::Log(reply, now) => lemma_log_keeps_loops(run, reply, now),
        ReplyModel::Executed(report) => lemma_report_finishes_loops(run, report),
    }
}

/// Whether a run drives one execution through a number of replies, up to the last.
pub open spec fn keeps_driving(run: RunModel, replies: Seq<ReplyModel>) -> bool
    decreases replies.len(),
{
    drives(run.after(replies).phase) && (replies.len() > 0 ==> keeps_driving(
        run,
        replies.drop_last(),
    ))
}

/// Whether what a run asks the host to execute, if anything, is the action after those that are
/// confirmed.
pub open spec fn asks_for_the_next_action(run: RunModel) -> bool {
    let progress = run.active->0.progress;
    run.request() matches RequestModel::Execute { call, .. } ==> progress.completed
        < progress.actions.len() && call == progress.actions[progress.completed as int].call()
}

proof fn lemma_asks_for_the_next_action(run: RunModel)
    requires
        run.wf(),
        drives(run.phase),
    ensures
        asks_for_the_next_action(run),
{
    let execution = run.active->0;
    if run.phase == Phase::BatchExecute {
        assert(asks_for(
            execution.progress.actions[execution.progress.completed as int],
            execution.batch->0.progress.request,
        ));
    }
}

/// One drive takes the actions in order: however many replies it gets, it keeps its actions and
/// its continuation, the number of confirmed actions only grows, by one for a reply at the most,
/// and what it asks the host to execute is always the action at that number.
pub proof fn drives_work_in_order(run: RunModel, replies: Seq<ReplyModel>)
    requires
        run.wf(),
        keeps_driving(run, replies),
    ensures
        ({
            let before = run.active->0.progress;
            let after = run.after(replies).active->0.progress;
            &&& run.after(replies).wf()
            &&& after.actions == before.actions
            &&& after.continuation == before.continuation
            &&& before.completed <= after.completed <= before.completed + replies.len()
            &&& after.completed <= after.actions.len()
            &&& after.status == ExecutionStatus::Running
            &&& asks_for_the_next_action(run.after(replies))
        }),
    decreases replies.len(),
{
    reveal_with_fuel(keeps_driving, 2);
    if replies.len() > 0 {
        drives_work_in_order(run, replies.drop_last());
        replies_keep_runs_sound(run.after(replies.drop_last()), replies.last());
    }
    lemma_asks_for_the_next_action(run.after(replies));
}

/// A drive that ends a run shows the work that it did: the actions and the continuation that it
/// had, no fewer of them confirmed, and all of them where it is completed.
pub proof fn ended_drives_show_their_work(run: RunModel, reply: ReplyModel)
    requires
        run.wf(),
        drives(run.phase),
        run.pending is None,
        run.on(reply).outcome is Some,
    ensures
        ({
            let before = run.active->0.progress;
            let outcome = run.on(reply).outcome->0;
            &&& outcome.execution matches Some(after)
            &&& after.actions == before.actions
            &&& after.continuation == before.continuation
            &&& before.completed <= after.completed <= before.completed + 1
            &&& after.completed <= after.actions.len()
            &&& after.status == ExecutionStatus::Completed ==> after.completed
                == after.actions.len()
        }),
{
    replies_keep_runs_sound(run, reply);
}

/// Whether the execution of a run is one action further than it was.
pub open spec fn one_more(before: Option<ActiveExecutionModel>, after: RunModel) -> bool {
    before is Some && after.active is Some && after.active->0.progress.completed
        > before->0.progress.completed
}

/// Whether a run has finished the repetition that its next action asks for.
pub open spec fn repeated(run: RunModel) -> bool {
    &&& run.active->0.batch is Some
    &&& run.batch().progress.finished
    &&& asks_for(run.action(), run.batch().progress.request)
}

broadcast proof fn lemma_drive_confirms_nothing(run: RunModel)
    ensures
        !one_more(run.active, #[trigger] run.after_drive()),
{
    reveal(RunModel::after_drive);
}

broadcast proof fn lemma_batch_confirms_what_is_repeated(run: RunModel)
    requires
        run.driving(),
        run.active->0.batch is Some,
        run.active->0.progress.completed < run.active->0.progress.actions.len(),
    ensures
        one_more(run.active, #[trigger] run.after_batch()) ==> repeated(run),
{
    reveal(RunModel::after_batch);
    let progress = run.batch().progress;
    if let Some(status) = batch_halts(progress.status) {
        lemma_drive_confirms_nothing(run.blame().stop_active(status, progress.message));
    }
}

/// An action is confirmed only by its own execution: a call by the report on that call, and a
/// repetition once it is finished.
pub proof fn actions_are_confirmed_by_their_execution(run: RunModel, reply: ReplyModel)
    requires
        run.wf(),
        drives(run.phase),
        one_more(run.active, run.on(reply)),
    ensures
        run.active->0.progress.completed < run.active->0.progress.actions.len(),
        run.action() is Call ==> run.phase == Phase::CallExecute && (
        reply matches ReplyModel::Executed(Ok(_))),
        !(run.action() is Call) ==> repeated(run),
{
    broadcast use {lemma_drive_confirms_nothing, lemma_batch_confirms_what_is_repeated};

    match reply {
        ReplyModel::Checkpoint(_) => {
            reveal(RunModel::on_checkpoint);
        },
        ReplyModel::Signal(_) => {
            reveal(RunModel::on_signal);
        },
        ReplyModel::Observed(_) => {
            reveal(RunModel::on_observed);
        },
        ReplyModel::Context(_) => {
            reveal(RunModel::on_context);
        },
        ReplyModel::Decided(_) => {
            reveal(RunModel::on_decided);
        },
        ReplyModel::Log(_, _) => {
            reveal(RunModel::on_log);
        },
        ReplyModel::Executed(_) => {
            reveal(RunModel::on_executed);
        },
    }
}

} // verus!
