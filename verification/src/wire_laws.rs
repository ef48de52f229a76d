//! What a journal and an agent are told: every record with all that it says.
use crate::api::{
    ActionModel, ActionOutcome, AppStateModel, AvailabilityModel, ExecutionFailureModel,
    FailureStage, RepeatRequestModel, SkillModel, ToolCallModel, ToolResultModel,
};
use crate::batch::{BatchProgressModel, BatchRequestModel, BatchStatus};
use crate::execution::{ExecutionProgressModel, ExecutionStatus};
use crate::json::JsonModel;
use crate::kernel::{Continuation, DecisionModel, EventModel};
use crate::metrics::{CallCounts, TaskSummary};
use crate::skills::{LoadResultModel, LoadSkillsModel, SkillSummaryModel, SkillViewModel};
use crate::task_runtime::{TaskSnapshotModel, TaskStatus};
use crate::text::Text;
use crate::wire::{
    action_json, actions_json, availability_json, batch_json, batch_request_json,
    batch_status_text, call_json, calls_json, continuation_text, count_json, counts_json,
    decision_json, entry_json, event_json, execution_json, execution_status_text, failure_json,
    load_json, loaded_json, maybe_json, outcome_json, repeat_json, result_json, skill_json,
    skills_json, snapshot_json, stage_text, state_json, summaries_json, summary_json,
    task_status_text, texts_json, usage_json, view_json,
};
use vstd::prelude::*;

verus! {

/// A call is written with its name and its arguments.
pub proof fn calls_are_written(call: ToolCallModel)
    ensures
        ({
            let written = call_json(call);
            &&& written is Object
            &&& written.has("name"@) && written.at("name"@) == JsonModel::Text(call.name)
            &&& written.has("arguments"@) && written.at("arguments"@) == call.arguments
        }),
{
    reveal_strlit("name");
    reveal_strlit("arguments");
    assert("name"@.len() == 4);
    assert("arguments"@.len() == 9);
}

/// An observation is written with its scene and its facts.
pub proof fn states_are_written(state: AppStateModel)
    ensures
        ({
            let written = state_json(state);
            &&& written is Object
            &&& written.has("scene"@) && written.at("scene"@) == JsonModel::Text(state.scene)
            &&& written.has("facts"@) && written.at("facts"@) == state.facts
        }),
{
    reveal_strlit("scene");
    reveal_strlit("facts");
    assert("scene"@.len() == 5);
    assert("facts"@.len() == 5);
    assert("scene"@[0] == 's' && "facts"@[0] == 'f');
}

/// A result is written with its call, whether it succeeded, its message, and its outcome where
/// there is one.
pub proof fn results_are_written(result: ToolResultModel)
    ensures
        ({
            let written = result_json(result);
            &&& written is Object
            &&& written.has("call"@) && written.at("call"@) == call_json(result.call)
            &&& written.has("success"@) && written.at("success"@) == JsonModel::Bool(result.success)
            &&& written.has("message"@) && written.at("message"@) == JsonModel::Text(result.message)
            &&& written.has("outcome"@) <==> result.outcome is Some
            &&& result.outcome is Some ==> written.at("outcome"@) == outcome_json(result.outcome->0)
        }),
{
    reveal_strlit("call");
    reveal_strlit("success");
    reveal_strlit("message");
    reveal_strlit("outcome");
    assert("call"@.len() == 4);
    assert("success"@.len() == 7);
    assert("message"@.len() == 7);
    assert("outcome"@.len() == 7);
    assert("success"@[0] == 's' && "message"@[0] == 'm');
    assert("success"@[0] == 's' && "outcome"@[0] == 'o');
    assert("message"@[0] == 'm' && "outcome"@[0] == 'o');
}

/// A failure is written with its stage, its message, and its call where there is one.
pub proof fn failures_are_written(failure: ExecutionFailureModel)
    ensures
        ({
            let written = failure_json(failure);
            &&& written is Object
            &&& written.has("stage"@) && written.at("stage"@) == JsonModel::Text(stage_text(failure.stage))
            &&& written.has("message"@) && written.at("message"@) == JsonModel::Text(failure.message)
            &&& written.has("call"@) <==> failure.call is Some
            &&& failure.call is Some ==> written.at("call"@) == call_json(failure.call->0)
        }),
{
    reveal_strlit("stage");
    reveal_strlit("message");
    reveal_strlit("call");
    assert("stage"@.len() == 5);
    assert("message"@.len() == 7);
    assert("call"@.len() == 4);
}

/// An entry of the directory is written with all that it says.
pub proof fn summaries_are_written(summary: SkillSummaryModel)
    ensures
        ({
            let written = summary_json(summary);
            &&& written is Object
            &&& written.has("name"@) && written.at("name"@) == JsonModel::Text(summary.name)
            &&& written.has("description"@) && written.at("description"@) == JsonModel::Text(summary.description)
            &&& written.has("availability"@) && written.at("availability"@) == availability_json(summary.availability)
            &&& written.has("tags"@) <==> summary.tags.len() > 0
            &&& summary.tags.len() > 0 ==> written.at("tags"@) == texts_json(summary.tags)
        }),
{
    reveal_strlit("name");
    reveal_strlit("description");
    reveal_strlit("availability");
    reveal_strlit("tags");
    assert("name"@.len() == 4);
    assert("description"@.len() == 11);
    assert("availability"@.len() == 12);
    assert("tags"@.len() == 4);
    assert("name"@[0] == 'n' && "tags"@[0] == 't');
}

/// A request to load skills is written with the names and the tags that it has.
pub proof fn load_requests_are_written(request: LoadSkillsModel)
    ensures
        ({
            let written = load_json(request);
            &&& written is Object
            &&& written.has("names"@) <==> request.names.len() > 0
            &&& request.names.len() > 0 ==> written.at("names"@) == texts_json(request.names)
            &&& written.has("tags"@) <==> request.tags.len() > 0
            &&& request.tags.len() > 0 ==> written.at("tags"@) == texts_json(request.tags)
        }),
{
    reveal_strlit("names");
    reveal_strlit("tags");
    assert("names"@.len() == 5);
    assert("tags"@.len() == 4);
}

/// The answer to a request to load skills is written with the request and what came of it.
pub proof fn loads_are_written(result: LoadResultModel)
    ensures
        ({
            let written = loaded_json(result);
            &&& written is Object
            &&& written.has("request"@) && written.at("request"@) == load_json(result.request)
            &&& written.has("success"@) && written.at("success"@) == JsonModel::Bool(result.success)
            &&& written.has("selected"@) && written.at("selected"@) == texts_json(result.selected)
            &&& written.has("message"@) && written.at("message"@) == JsonModel::Text(result.message)
        }),
{
    reveal_strlit("request");
    reveal_strlit("success");
    reveal_strlit("selected");
    reveal_strlit("message");
    assert("request"@.len() == 7);
    assert("success"@.len() == 7);
    assert("selected"@.len() == 8);
    assert("message"@.len() == 7);
    assert("request"@[0] == 'r' && "success"@[0] == 's');
    assert("request"@[0] == 'r' && "message"@[0] == 'm');
    assert("success"@[0] == 's' && "message"@[0] == 'm');
}

/// A repeat is written with its call and how often it is made.
pub proof fn repeats_are_written(request: RepeatRequestModel)
    ensures
        ({
            let written = repeat_json(request);
            &&& written is Object
            &&& written.has("call"@) && written.at("call"@) == call_json(request.call)
            &&& written.has("times"@) && written.at("times"@) == JsonModel::Unsigned(request.times as u64)
        }),
{
    reveal_strlit("call");
    reveal_strlit("times");
    assert("call"@.len() == 4);
    assert("times"@.len() == 5);
}

/// The ledger of a repetition is written with every count.
pub proof fn repetitions_are_written(progress: BatchProgressModel)
    ensures
        ({
            let written = batch_json(progress);
            &&& written is Object
            &&& written.has("then"@) && written.at("then"@) == JsonModel::Text(continuation_text(progress.continuation))
            &&& written.has("request"@) && written.at("request"@) == batch_request_json(progress.request)
            &&& written.has("completed"@) && written.at("completed"@) == JsonModel::Unsigned(progress.completed as u64)
            &&& written.has("successful"@) && written.at("successful"@) == JsonModel::Unsigned(progress.successful as u64)
            &&& written.has("attempts"@) && written.at("attempts"@) == JsonModel::Unsigned(progress.attempts as u64)
            &&& written.has("remaining"@) && written.at("remaining"@) == count_json(progress.remaining)
            &&& written.has("finished"@) && written.at("finished"@) == JsonModel::Bool(progress.finished)
            &&& written.has("status"@) && written.at("status"@) == JsonModel::Text(batch_status_text(progress.status))
            &&& written.has("message"@) && written.at("message"@) == JsonModel::Text(progress.message)
        }),
{
    reveal_strlit("then");
    reveal_strlit("request");
    reveal_strlit("completed");
    reveal_strlit("successful");
    reveal_strlit("attempts");
    reveal_strlit("remaining");
    reveal_strlit("finished");
    reveal_strlit("status");
    reveal_strlit("message");
    assert("then"@.len() == 4);
    assert("request"@.len() == 7);
    assert("completed"@.len() == 9);
    assert("successful"@.len() == 10);
    assert("attempts"@.len() == 8);
    assert("remaining"@.len() == 9);
    assert("finished"@.len() == 8);
    assert("status"@.len() == 6);
    assert("message"@.len() == 7);
    assert("request"@[0] == 'r' && "message"@[0] == 'm');
    assert("completed"@[0] == 'c' && "remaining"@[0] == 'r');
    assert("attempts"@[0] == 'a' && "finished"@[0] == 'f');
}

/// An execution is written with its actions, how far it is, and what it failed with.
pub proof fn executions_are_written(progress: ExecutionProgressModel)
    ensures
        ({
            let written = execution_json(progress);
            &&& written is Object
            &&& written.has("actions"@) && written.at("actions"@) == actions_json(progress.actions)
            &&& written.has("then"@) && written.at("then"@) == JsonModel::Text(continuation_text(progress.continuation))
            &&& written.has("completed"@) && written.at("completed"@) == JsonModel::Unsigned(progress.completed as u64)
            &&& written.has("status"@) && written.at("status"@) == JsonModel::Text(execution_status_text(progress.status))
            &&& written.has("message"@) && written.at("message"@) == JsonModel::Text(progress.message)
            &&& written.has("failure"@) <==> progress.failure is Some
            &&& progress.failure is Some ==> written.at("failure"@) == failure_json(progress.failure->0)
        }),
{
    reveal_strlit("actions");
    reveal_strlit("then");
    reveal_strlit("completed");
    reveal_strlit("status");
    reveal_strlit("message");
    reveal_strlit("failure");
    assert("actions"@.len() == 7);
    assert("then"@.len() == 4);
    assert("completed"@.len() == 9);
    assert("status"@.len() == 6);
    assert("message"@.len() == 7);
    assert("failure"@.len() == 7);
    assert("actions"@[0] == 'a' && "message"@[0] == 'm');
    assert("actions"@[0] == 'a' && "failure"@[0] == 'f');
    assert("message"@[0] == 'm' && "failure"@[0] == 'f');
}

/// A skill is written with its definition, and with what it can do where it can.
pub proof fn skills_are_written(skill: SkillModel)
    ensures
        ({
            let written = skill_json(skill);
            &&& written is Object
            &&& written.has("name"@) && written.at("name"@) == JsonModel::Text(skill.name)
            &&& written.has("description"@) && written.at("description"@) == JsonModel::Text(skill.description)
            &&& written.has("availability"@) && written.at("availability"@) == availability_json(skill.availability)
            &&& written.has("parameters"@) && written.at("parameters"@) == skill.parameters
            &&& written.has("repeatable"@) <==> skill.repeatable
            &&& skill.repeatable ==> written.at("repeatable"@) == JsonModel::Bool(true)
            &&& written.has("loopable"@) <==> skill.loopable
            &&& skill.loopable ==> written.at("loopable"@) == JsonModel::Bool(true)
            &&& written.has("tags"@) <==> skill.tags.len() > 0
            &&& skill.tags.len() > 0 ==> written.at("tags"@) == texts_json(skill.tags)
            &&& written.has("calls"@) <==> skill.calls.len() > 0
            &&& skill.calls.len() > 0 ==> written.at("calls"@) == calls_json(skill.calls)
        }),
{
    reveal_strlit("name");
    reveal_strlit("description");
    reveal_strlit("availability");
    reveal_strlit("parameters");
    reveal_strlit("repeatable");
    reveal_strlit("loopable");
    reveal_strlit("tags");
    reveal_strlit("calls");
    assert("name"@.len() == 4);
    assert("description"@.len() == 11);
    assert("availability"@.len() == 12);
    assert("parameters"@.len() == 10);
    assert("repeatable"@.len() == 10);
    assert("loopable"@.len() == 8);
    assert("tags"@.len() == 4);
    assert("calls"@.len() == 5);
    assert("name"@[0] == 'n' && "tags"@[0] == 't');
    assert("parameters"@[0] == 'p' && "repeatable"@[0] == 'r');
}

/// What an agent sees is written with its budgets, the skills, and what is pending or failed.
pub proof fn views_are_written(view: SkillViewModel)
    ensures
        ({
            let written = view_json(view);
            &&& written is Object
            &&& written.has("max_actions"@) && written.at("max_actions"@) == JsonModel::Unsigned(view.max_actions as u64)
            &&& written.has("max_repeat"@) && written.at("max_repeat"@) == JsonModel::Unsigned(view.max_repeat as u64)
            &&& written.has("discovery_enabled"@) && written.at("discovery_enabled"@) == JsonModel::Bool(view.discovery_enabled)
            &&& written.has("directory"@) && written.at("directory"@) == summaries_json(view.directory)
            &&& written.has("loaded"@) && written.at("loaded"@) == skills_json(view.loaded)
            &&& written.has("guidance"@) <==> view.guidance.len() > 0
            &&& view.guidance.len() > 0 ==> written.at("guidance"@) == JsonModel::Text(view.guidance)
            &&& written.has("failure"@) <==> view.failure is Some
            &&& view.failure is Some ==> written.at("failure"@) == failure_json(view.failure->0)
            &&& written.has("execution"@) <==> view.execution is Some
            &&& view.execution is Some ==> written.at("execution"@) == execution_json(view.execution->0)
            &&& written.has("batch"@) <==> view.batch is Some
            &&& view.batch is Some ==> written.at("batch"@) == batch_json(view.batch->0)
            &&& written.has("last_load"@) <==> view.last_load is Some
            &&& view.last_load is Some ==> written.at("last_load"@) == loaded_json(view.last_load->0)
        }),
{
    reveal_strlit("max_actions");
    reveal_strlit("max_repeat");
    reveal_strlit("discovery_enabled");
    reveal_strlit("directory");
    reveal_strlit("loaded");
    reveal_strlit("guidance");
    reveal_strlit("failure");
    reveal_strlit("execution");
    reveal_strlit("batch");
    reveal_strlit("last_load");
    assert("max_actions"@.len() == 11);
    assert("max_repeat"@.len() == 10);
    assert("discovery_enabled"@.len() == 17);
    assert("directory"@.len() == 9);
    assert("loaded"@.len() == 6);
    assert("guidance"@.len() == 8);
    assert("failure"@.len() == 7);
    assert("execution"@.len() == 9);
    assert("batch"@.len() == 5);
    assert("last_load"@.len() == 9);
    assert("directory"@[0] == 'd' && "execution"@[0] == 'e');
    assert("directory"@[0] == 'd' && "last_load"@[0] == 'l');
    assert("execution"@[0] == 'e' && "last_load"@[0] == 'l');
}

/// What a task took is written with every count.
pub proof fn usage_is_written(summary: TaskSummary)
    ensures
        ({
            let written = usage_json(summary);
            &&& written is Object
            &&& written.has("model_requests"@) && written.at("model_requests"@) == counts_json(summary.model_requests)
            &&& written.has("actions"@) && written.at("actions"@) == counts_json(summary.actions)
            &&& written.has("interruptions"@) && written.at("interruptions"@) == JsonModel::Unsigned(summary.interruptions)
            &&& written.has("elapsed_ms"@) && written.at("elapsed_ms"@) == JsonModel::Unsigned(summary.elapsed_ms)
        }),
{
    reveal_strlit("model_requests");
    reveal_strlit("actions");
    reveal_strlit("interruptions");
    reveal_strlit("elapsed_ms");
    assert("model_requests"@.len() == 14);
    assert("actions"@.len() == 7);
    assert("interruptions"@.len() == 13);
    assert("elapsed_ms"@.len() == 10);
}

/// Counts are written as what they are.
pub proof fn call_counts_are_written(counts: CallCounts)
    ensures
        ({
            let written = counts_json(counts);
            &&& written is Object
            &&& written.has("total"@) && written.at("total"@) == JsonModel::Unsigned(counts.total)
            &&& written.has("succeeded"@) && written.at("succeeded"@) == JsonModel::Unsigned(counts.succeeded)
            &&& written.has("failed"@) && written.at("failed"@) == JsonModel::Unsigned(counts.failed)
        }),
{
    reveal_strlit("total");
    reveal_strlit("succeeded");
    reveal_strlit("failed");
    assert("total"@.len() == 5);
    assert("succeeded"@.len() == 9);
    assert("failed"@.len() == 6);
}

/// What is known of a task is written with all that is known.
pub proof fn tasks_are_written(snapshot: TaskSnapshotModel)
    ensures
        ({
            let written = snapshot_json(snapshot);
            &&& written is Object
            &&& written.has("task_id"@) && written.at("task_id"@) == JsonModel::Text(snapshot.task_id)
            &&& written.has("goal"@) && written.at("goal"@) == JsonModel::Text(snapshot.goal)
            &&& written.has("status"@) && written.at("status"@) == JsonModel::Text(task_status_text(snapshot.status))
            &&& written.has("current_skill"@) && written.at("current_skill"@) == maybe_json(snapshot.current_skill)
            &&& written.has("reason"@) && written.at("reason"@) == maybe_json(snapshot.reason)
            &&& written.has("summary"@) <==> snapshot.summary is Some
            &&& snapshot.summary is Some ==> written.at("summary"@) == usage_json(snapshot.summary->0)
        }),
{
    reveal_strlit("task_id");
    reveal_strlit("goal");
    reveal_strlit("status");
    reveal_strlit("current_skill");
    reveal_strlit("reason");
    reveal_strlit("summary");
    assert("task_id"@.len() == 7);
    assert("goal"@.len() == 4);
    assert("status"@.len() == 6);
    assert("current_skill"@.len() == 13);
    assert("reason"@.len() == 6);
    assert("summary"@.len() == 7);
    assert("task_id"@[0] == 't' && "summary"@[0] == 's');
    assert("status"@[0] == 's' && "reason"@[0] == 'r');
}

/// No two stages are written alike.
pub proof fn stages_are_told_apart(a: FailureStage, b: FailureStage)
    ensures
        stage_text(a) == stage_text(b) ==> a == b,
        stage_text(FailureStage::Observation) == "observation"@,
        stage_text(FailureStage::Context) == "context"@,
        stage_text(FailureStage::Availability) == "availability"@,
        stage_text(FailureStage::Execution) == "execution"@,
        stage_text(FailureStage::Validation) == "validation"@,
{
    reveal_strlit("observation");
    reveal_strlit("context");
    reveal_strlit("availability");
    reveal_strlit("execution");
    reveal_strlit("validation");
    assert("observation"@.len() == 11);
    assert("context"@.len() == 7);
    assert("availability"@.len() == 12);
    assert("execution"@.len() == 9);
    assert("validation"@.len() == 10);
}

/// No two states of a task are written alike.
pub proof fn task_statuses_are_told_apart(a: TaskStatus, b: TaskStatus)
    ensures
        task_status_text(a) == task_status_text(b) ==> a == b,
        task_status_text(TaskStatus::Created) == "created"@,
        task_status_text(TaskStatus::Running) == "running"@,
        task_status_text(TaskStatus::PauseRequested) == "pause_requested"@,
        task_status_text(TaskStatus::Paused) == "paused"@,
        task_status_text(TaskStatus::CancelRequested) == "cancel_requested"@,
        task_status_text(TaskStatus::Completed) == "completed"@,
        task_status_text(TaskStatus::Failed) == "failed"@,
        task_status_text(TaskStatus::Cancelled) == "cancelled"@,
{
    reveal_strlit("created");
    reveal_strlit("running");
    reveal_strlit("pause_requested");
    reveal_strlit("paused");
    reveal_strlit("cancel_requested");
    reveal_strlit("completed");
    reveal_strlit("failed");
    reveal_strlit("cancelled");
    assert("created"@.len() == 7);
    assert("running"@.len() == 7);
    assert("pause_requested"@.len() == 15);
    assert("paused"@.len() == 6);
    assert("cancel_requested"@.len() == 16);
    assert("completed"@.len() == 9);
    assert("failed"@.len() == 6);
    assert("cancelled"@.len() == 9);
    assert("created"@[0] == 'c' && "running"@[0] == 'r');
    assert("paused"@[0] == 'p' && "failed"@[0] == 'f');
    assert("completed"@[1] == 'o' && "cancelled"@[1] == 'a');
}

/// No two states of a repetition are written alike.
pub proof fn repetition_statuses_are_told_apart(a: BatchStatus, b: BatchStatus)
    ensures
        batch_status_text(a) == batch_status_text(b) ==> a == b,
        batch_status_text(BatchStatus::Running) == "running"@,
        batch_status_text(BatchStatus::Interrupted) == "interrupted"@,
        batch_status_text(BatchStatus::Completed) == "completed"@,
        batch_status_text(BatchStatus::Cancelled) == "cancelled"@,
        batch_status_text(BatchStatus::TimedOut) == "timed_out"@,
        batch_status_text(BatchStatus::AttemptLimit) == "attempt_limit"@,
        batch_status_text(BatchStatus::Failed) == "failed"@,
{
    reveal_strlit("running");
    reveal_strlit("interrupted");
    reveal_strlit("completed");
    reveal_strlit("cancelled");
    reveal_strlit("timed_out");
    reveal_strlit("attempt_limit");
    reveal_strlit("failed");
    assert("running"@.len() == 7);
    assert("interrupted"@.len() == 11);
    assert("completed"@.len() == 9);
    assert("cancelled"@.len() == 9);
    assert("timed_out"@.len() == 9);
    assert("attempt_limit"@.len() == 13);
    assert("failed"@.len() == 6);
    assert("completed"@[1] == 'o' && "cancelled"@[1] == 'a');
    assert("completed"@[0] == 'c' && "timed_out"@[0] == 't');
    assert("cancelled"@[0] == 'c' && "timed_out"@[0] == 't');
}

/// No two states of an execution are written alike.
pub proof fn execution_statuses_are_told_apart(a: ExecutionStatus, b: ExecutionStatus)
    ensures
        execution_status_text(a) == execution_status_text(b) ==> a == b,
        execution_status_text(ExecutionStatus::Running) == "running"@,
        execution_status_text(ExecutionStatus::Interrupted) == "interrupted"@,
        execution_status_text(ExecutionStatus::Completed) == "completed"@,
        execution_status_text(ExecutionStatus::Cancelled) == "cancelled"@,
        execution_status_text(ExecutionStatus::Failed) == "failed"@,
{
    reveal_strlit("running");
    reveal_strlit("interrupted");
    reveal_strlit("completed");
    reveal_strlit("cancelled");
    reveal_strlit("failed");
    assert("running"@.len() == 7);
    assert("interrupted"@.len() == 11);
    assert("completed"@.len() == 9);
    assert("cancelled"@.len() == 9);
    assert("failed"@.len() == 6);
    assert("completed"@[1] == 'o' && "cancelled"@[1] == 'a');
}

/// No two continuations are written alike.
pub proof fn continuations_are_told_apart(a: Continuation, b: Continuation)
    ensures
        continuation_text(a) == continuation_text(b) ==> a == b,
        continuation_text(Continuation::Decide) == "Decide"@,
        continuation_text(Continuation::Finish) == "Finish"@,
{
    reveal_strlit("Decide");
    reveal_strlit("Finish");
    assert("Decide"@.len() == 6);
    assert("Finish"@.len() == 6);
    assert("Decide"@[0] == 'D' && "Finish"@[0] == 'F');
}

/// An outcome is written with its status, and with its effect where the step ended normally.
pub proof fn outcomes_are_written(outcome: ActionOutcome)
    ensures
        ({
            let written = outcome_json(outcome);
            &&& written.at("status"@) == JsonModel::Text(
                match outcome {
                    ActionOutcome::Continue { .. } => "continue"@,
                    ActionOutcome::Completed { .. } => "completed"@,
                    ActionOutcome::Interrupted => "interrupted"@,
                },
            )
            &&& match outcome {
                ActionOutcome::Continue { successful } => written.at("successful"@)
                    == JsonModel::Bool(successful),
                ActionOutcome::Completed { successful } => written.at("successful"@)
                    == JsonModel::Bool(successful),
                ActionOutcome::Interrupted => !written.has("successful"@),
            }
        }),
{
    reveal_strlit("status");
    reveal_strlit("successful");
    assert("status"@.len() == 6);
    assert("successful"@.len() == 10);
}

/// A skill that cannot be used is written with the reason, and one that can without.
pub proof fn availabilities_are_written(availability: AvailabilityModel)
    ensures
        match availability {
            AvailabilityModel::Available => availability_json(availability).at("status"@)
                == JsonModel::Text("available"@) && !availability_json(availability).has(
                "reason"@,
            ),
            AvailabilityModel::Unavailable { reason } => availability_json(availability).at(
                "status"@,
            ) == JsonModel::Text("unavailable"@) && availability_json(availability).at("reason"@)
                == JsonModel::Text(reason),
        },
{
    reveal_strlit("status");
    reveal_strlit("reason");
    assert("status"@.len() == 6);
    assert("reason"@.len() == 6);
    assert("status"@[0] == 's' && "reason"@[0] == 'r');
}

/// An action is written under what it does.
pub proof fn actions_are_written(action: ActionModel, actions: Seq<ActionModel>, i: int)
    ensures
        match action {
            ActionModel::Call(call) => action_json(action).at("Call"@) == call_json(call)
                && !action_json(action).has("Repeat"@) && !action_json(action).has("UntilDone"@),
            ActionModel::Repeat(request) => action_json(action).at("Repeat"@) == repeat_json(
                request,
            ) && !action_json(action).has("Call"@) && !action_json(action).has("UntilDone"@),
            ActionModel::UntilDone(call) => action_json(action).at("UntilDone"@) == call_json(call)
                && !action_json(action).has("Call"@) && !action_json(action).has("Repeat"@),
        },
        0 <= i < actions.len() ==> (actions_json(actions) matches JsonModel::Array(items)
            && items.len() == actions.len() && items[i] == action_json(actions[i])),
{
    reveal_strlit("Call");
    reveal_strlit("Repeat");
    reveal_strlit("UntilDone");
    assert("Call"@.len() == 4);
    assert("Repeat"@.len() == 6);
    assert("UntilDone"@.len() == 9);
}

/// A decision is written under what it decides.
pub proof fn decisions_are_written(decision: DecisionModel)
    ensures
        match decision {
            DecisionModel::Execute { actions, then } => {
                let plan = decision_json(decision).at("Execute"@);
                plan.at("actions"@) == actions_json(actions) && plan.at("then"@) == JsonModel::Text(
                    continuation_text(then),
                )
            },
            DecisionModel::ReplaceRemaining { actions, then } => {
                let plan = decision_json(decision).at("ReplaceRemaining"@);
                plan.at("actions"@) == actions_json(actions) && plan.at("then"@) == JsonModel::Text(
                    continuation_text(then),
                )
            },
            DecisionModel::LoadSkills(request) => decision_json(decision).at("LoadSkills"@)
                == load_json(request),
            DecisionModel::Resume => decision_json(decision) == JsonModel::Text("Resume"@),
            DecisionModel::Completed(reason) => decision_json(decision).at("Completed"@)
                == JsonModel::Text(reason),
            DecisionModel::Failed(reason) => decision_json(decision).at("Failed"@)
                == JsonModel::Text(reason),
        },
{
    reveal_strlit("actions");
    reveal_strlit("then");
    assert("actions"@.len() == 7);
    assert("then"@.len() == 4);
}

/// An event is written under what happened.
pub proof fn events_are_written(event: EventModel)
    ensures
        match event {
            EventModel::Observed(state) => event_json(event).at("Observed"@) == state_json(state),
            EventModel::SkillsResolved { step, skills, guidance } => {
                let told = event_json(event).at("SkillsResolved"@);
                told.at("step"@) == JsonModel::Unsigned(step as u64) && told.at("skills"@)
                    == skills_json(skills) && told.at("guidance"@) == JsonModel::Text(guidance)
            },
            EventModel::SkillsInjected { names, directory_count } => {
                let told = event_json(event).at("SkillsInjected"@);
                told.at("names"@) == texts_json(names) && told.at("directory_count"@)
                    == JsonModel::Unsigned(directory_count as u64)
            },
            EventModel::SkillsLoaded(result) => event_json(event).at("SkillsLoaded"@)
                == loaded_json(result),
            EventModel::Decided(decision) => event_json(event).at("Decided"@) == decision_json(
                decision,
            ),
            EventModel::Executed(result) => event_json(event).at("Executed"@) == result_json(
                result,
            ),
            EventModel::ExecutionFailed(failure) => event_json(event).at("ExecutionFailed"@)
                == failure_json(failure),
            EventModel::ExecutionRejected(reason) => event_json(event).at("ExecutionRejected"@)
                == JsonModel::Text(reason),
            EventModel::BatchProgress(progress) => event_json(event).at("BatchProgress"@)
                == batch_json(progress),
            EventModel::ExecutionProgress(progress) => event_json(event).at("ExecutionProgress"@)
                == execution_json(progress),
            EventModel::ActionStarted { index, total, call } => {
                let told = event_json(event).at("ActionStarted"@);
                told.at("index"@) == JsonModel::Unsigned(index as u64) && told.at("total"@)
                    == JsonModel::Unsigned(total as u64) && told.at("call"@) == call_json(call)
            },
        },
{
    reveal_strlit("step");
    reveal_strlit("skills");
    reveal_strlit("guidance");
    reveal_strlit("names");
    reveal_strlit("directory_count");
    reveal_strlit("index");
    reveal_strlit("total");
    reveal_strlit("call");
    assert("step"@.len() == 4);
    assert("skills"@.len() == 6);
    assert("guidance"@.len() == 8);
    assert("names"@.len() == 5);
    assert("directory_count"@.len() == 15);
    assert("index"@.len() == 5);
    assert("total"@.len() == 5);
    assert("call"@.len() == 4);
    assert("step"@[0] == 's' && "call"@[0] == 'c');
    assert("names"@[0] == 'n' && "index"@[0] == 'i');
    assert("names"@[0] == 'n' && "total"@[0] == 't');
    assert("index"@[0] == 'i' && "total"@[0] == 't');
}

/// An entry of the journal says whose it is, when it was made, and what it is about.
pub proof fn entries_are_written(task_id: Text, timestamp_ms: u64, kind: Text, data: JsonModel)
    ensures
        ({
            let written = entry_json(task_id, timestamp_ms, kind, data);
            &&& written.at("task_id"@) == JsonModel::Text(task_id)
            &&& written.at("timestamp_ms"@) == JsonModel::Unsigned(timestamp_ms)
            &&& written.at("kind"@) == JsonModel::Text(kind)
            &&& written.at("data"@) == data
        }),
{
    reveal_strlit("task_id");
    reveal_strlit("timestamp_ms");
    reveal_strlit("kind");
    reveal_strlit("data");
    assert("task_id"@.len() == 7);
    assert("timestamp_ms"@.len() == 12);
    assert("kind"@.len() == 4);
    assert("data"@.len() == 4);
    assert("kind"@[0] == 'k' && "data"@[0] == 'd');
}

/// Lists are written item by item, in their order.
pub proof fn lists_are_written_in_order(
    texts: Seq<Text>,
    skills: Seq<SkillModel>,
    entries: Seq<SkillSummaryModel>,
    calls: Seq<ToolCallModel>,
    i: int,
)
    ensures
        texts_json(texts) matches JsonModel::Array(items) && items.len() == texts.len() && (0 <= i
            < texts.len() ==> items[i] == JsonModel::Text(texts[i])),
        skills_json(skills) matches JsonModel::Array(items) && items.len() == skills.len() && (0
            <= i < skills.len() ==> items[i] == skill_json(skills[i])),
        summaries_json(entries) matches JsonModel::Array(items) && items.len() == entries.len()
            && (0 <= i < entries.len() ==> items[i] == summary_json(entries[i])),
        calls_json(calls) matches JsonModel::Array(items) && items.len() == calls.len() && (0 <= i
            < calls.len() ==> items[i] == call_json(calls[i])),
{
}

/// A repetition is written as the action that it is; what is left of it is a number, or nothing
/// where nobody knows it.
pub proof fn repetition_requests_are_written(request: BatchRequestModel, left: u32, maybe: Text)
    ensures
        match request {
            BatchRequestModel::Repeat(repeat) => batch_request_json(request).at("Repeat"@)
                == repeat_json(repeat),
            BatchRequestModel::UntilDone(call) => batch_request_json(request).at("UntilDone"@)
                == call_json(call),
        },
        count_json(Some(left)) == JsonModel::Unsigned(left as u64),
        count_json(None) == JsonModel::Null,
        maybe_json(Some(maybe)) == JsonModel::Text(maybe),
        maybe_json(None) == JsonModel::Null,
{
}

} // verus!
