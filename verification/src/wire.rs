//! How values appear in the JSON of requests, logs and journals.
use crate::api::{
    Action, ActionModel, ActionOutcome, AppState, AppStateModel, Availability, AvailabilityModel,
    ExecutionFailure, ExecutionFailureModel, FailureStage, RepeatRequest, RepeatRequestModel, Skill,
    SkillModel, ToolCall, ToolCallModel, ToolResult, ToolResultModel,
};
use crate::batch::{BatchProgress, BatchProgressModel, BatchRequest, BatchRequestModel, BatchStatus};
use crate::execution::{ExecutionProgress, ExecutionProgressModel, ExecutionStatus};
use crate::json::{Json, JsonModel};
use crate::kernel::{Continuation, Decision, DecisionModel, Event, EventModel};
use crate::metrics::{CallCounts, TaskSummary};
use crate::skills::{
    LoadResult, LoadResultModel, LoadSkills, LoadSkillsModel, SkillSummary, SkillSummaryModel,
    SkillView, SkillViewModel,
};
use crate::task_runtime::{TaskSnapshot, TaskSnapshotModel, TaskStatus};
use crate::text;
use crate::text::Text;
use vstd::prelude::*;

verus! {

/// Texts, in order.
pub open spec fn texts_json(items: Seq<Text>) -> JsonModel {
    JsonModel::Array(Seq::new(items.len(), |i: int| JsonModel::Text(items[i])))
}

/// Texts, in order.
pub fn texts_to_json(items: &Vec<String>) -> (r: Json)
    ensures
        r@ == texts_json(items.deep_view()),
{
    let mut out: Vec<Json> = Vec::new();
    let mut i: usize = 0;
    while i < items.len()
        invariant
            i == out@.len(),
            i <= items@.len(),
            forall|j: int| 0 <= j < i ==> (#[trigger] out@[j])@ == JsonModel::Text(items@[j]@),
        decreases items@.len() - i,
    {
        out.push(Json::text(items[i].as_str()));
        i += 1;
    }
    assert(out.deep_view() =~= texts_json(items.deep_view())->Array_0);
    Json::array(out)
}

/// A call.
pub open spec fn call_json(call: ToolCallModel) -> JsonModel {
    let o = JsonModel::empty().with("name"@, JsonModel::Text(call.name)).with("arguments"@, call.arguments);
    o
}

/// A call.
pub fn call_to_json(call: &ToolCall) -> (r: Json)
    ensures
        r@ == call_json(call@),
{
    let mut o: Json = Json::object();
    o.set("name", Json::text(call.name.as_str()));
    o.set("arguments", call.arguments.dup());
    o
}

/// An outcome.
pub open spec fn outcome_json(outcome: ActionOutcome) -> JsonModel {
    match outcome {
        ActionOutcome::Continue { successful } => JsonModel::empty().with(
            "status"@,
            JsonModel::Text("continue"@),
        ).with("successful"@, JsonModel::Bool(successful)),
        ActionOutcome::Completed { successful } => JsonModel::empty().with(
            "status"@,
            JsonModel::Text("completed"@),
        ).with("successful"@, JsonModel::Bool(successful)),
        ActionOutcome::Interrupted => JsonModel::empty().with(
            "status"@,
            JsonModel::Text("interrupted"@),
        ),
    }
}

/// An outcome.
pub fn outcome_to_json(outcome: ActionOutcome) -> (r: Json)
    ensures
        r@ == outcome_json(outcome),
{
    let mut o: Json = Json::object();
    match outcome {
        ActionOutcome::Continue { successful } => {
            o.set("status", Json::text("continue"));
            o.set("successful", Json::Bool(successful));
        },
        ActionOutcome::Completed { successful } => {
            o.set("status", Json::text("completed"));
            o.set("successful", Json::Bool(successful));
        },
        ActionOutcome::Interrupted => {
            o.set("status", Json::text("interrupted"));
        },
    }
    o
}

/// An observation.
pub open spec fn state_json(state: AppStateModel) -> JsonModel {
    let o = JsonModel::empty().with("scene"@, JsonModel::Text(state.scene)).with("facts"@, state.facts);
    o
}

/// An observation.
pub fn state_to_json(state: &AppState) -> (r: Json)
    ensures
        r@ == state_json(state@),
{
    let mut o: Json = Json::object();
    o.set("scene", Json::text(state.scene.as_str()));
    o.set("facts", state.facts.dup());
    o
}

/// An availability.
pub open spec fn availability_json(availability: AvailabilityModel) -> JsonModel {
    match availability {
        AvailabilityModel::Available => JsonModel::empty().with(
            "status"@,
            JsonModel::Text("available"@),
        ),
        AvailabilityModel::Unavailable { reason } => JsonModel::empty().with(
            "status"@,
            JsonModel::Text("unavailable"@),
        ).with("reason"@, JsonModel::Text(reason)),
    }
}

/// An availability.
pub fn availability_to_json(availability: &Availability) -> (r: Json)
    ensures
        r@ == availability_json(availability@),
{
    let mut o: Json = Json::object();
    match availability {
        Availability::Available => {
            o.set("status", Json::text("available"));
        },
        Availability::Unavailable { reason } => {
            o.set("status", Json::text("unavailable"));
            o.set("reason", Json::text(reason.as_str()));
        },
    }
    o
}

/// Execution feedback.
pub open spec fn result_json(result: ToolResultModel) -> JsonModel {
    let o = JsonModel::empty().with("call"@, call_json(result.call)).with(
        "success"@,
        JsonModel::Bool(result.success),
    ).with("message"@, JsonModel::Text(result.message));
    match result.outcome {
        Some(outcome) => o.with("outcome"@, outcome_json(outcome)),
        None => o,
    }
}

/// Execution feedback.
pub fn result_to_json(result: &ToolResult) -> (r: Json)
    ensures
        r@ == result_json(result@),
{
    let mut o: Json = Json::object();
    o.set("call", call_to_json(&result.call));
    o.set("success", Json::Bool(result.success));
    o.set("message", Json::text(result.message.as_str()));
    if let Some(outcome) = result.outcome {
        o.set("outcome", outcome_to_json(outcome));
    }
    o
}

/// Where the host stopped.
pub open spec fn stage_text(x: FailureStage) -> Text {
    match x {
        FailureStage::Observation => "observation"@,
        FailureStage::Context => "context"@,
        FailureStage::Availability => "availability"@,
        FailureStage::Execution => "execution"@,
        FailureStage::Validation => "validation"@,
    }
}

/// Where the host stopped.
pub fn stage_name(x: FailureStage) -> (r: &'static str)
    ensures
        r@ == stage_text(x),
{
    match x {
        FailureStage::Observation => "observation",
        FailureStage::Context => "context",
        FailureStage::Availability => "availability",
        FailureStage::Execution => "execution",
        FailureStage::Validation => "validation",
    }
}

/// A failure.
pub open spec fn failure_json(failure: ExecutionFailureModel) -> JsonModel {
    let o = JsonModel::empty().with("stage"@, JsonModel::Text(stage_text(failure.stage))).with(
        "message"@,
        JsonModel::Text(failure.message),
    );
    match failure.call {
        Some(call) => o.with("call"@, call_json(call)),
        None => o,
    }
}

/// A failure.
pub fn failure_to_json(failure: &ExecutionFailure) -> (r: Json)
    ensures
        r@ == failure_json(failure@),
{
    let mut o: Json = Json::object();
    o.set("stage", Json::text(stage_name(failure.stage)));
    o.set("message", Json::text(failure.message.as_str()));
    if let Some(call) = &failure.call {
        o.set("call", call_to_json(call));
    }
    o
}

/// A directory entry; no tags are left out.
pub open spec fn summary_json(summary: SkillSummaryModel) -> JsonModel {
    let o = JsonModel::empty().with("name"@, JsonModel::Text(summary.name)).with("description"@, JsonModel::Text(summary.description)).with("availability"@, availability_json(summary.availability));
    let o = if summary.tags.len() > 0 {
        o.with("tags"@, texts_json(summary.tags))
    } else {
        o
    };
    o
}

/// A directory entry; no tags are left out.
pub fn summary_to_json(summary: &SkillSummary) -> (r: Json)
    ensures
        r@ == summary_json(summary@),
{
    let mut o: Json = Json::object();
    o.set("name", Json::text(summary.name.as_str()));
    o.set("description", Json::text(summary.description.as_str()));
    o.set("availability", availability_to_json(&summary.availability));
    if summary.tags.len() > 0 {
        o.set("tags", texts_to_json(&summary.tags));
    }
    o
}

/// A directory.
pub open spec fn summaries_json(items: Seq<SkillSummaryModel>) -> JsonModel {
    JsonModel::Array(Seq::new(items.len(), |i: int| summary_json(items[i])))
}

/// A directory.
pub fn summaries_to_json(items: &Vec<SkillSummary>) -> (r: Json)
    ensures
        r@ == summaries_json(items.deep_view()),
{
    let mut out: Vec<Json> = Vec::new();
    let mut i: usize = 0;
    while i < items.len()
        invariant
            i == out@.len(),
            i <= items@.len(),
            forall|j: int| 0 <= j < i ==> (#[trigger] out@[j])@ == summary_json(items@[j]@),
        decreases items@.len() - i,
    {
        out.push(summary_to_json(&items[i]));
        i += 1;
    }
    assert(out.deep_view() =~= summaries_json(items.deep_view())->Array_0);
    Json::array(out)
}

/// A load request; what it does not name is left out.
pub open spec fn load_json(request: LoadSkillsModel) -> JsonModel {
    let o = JsonModel::empty();
    let o = if request.names.len() > 0 {
        o.with("names"@, texts_json(request.names))
    } else {
        o
    };
    let o = if request.tags.len() > 0 {
        o.with("tags"@, texts_json(request.tags))
    } else {
        o
    };
    o
}

/// A load request; what it does not name is left out.
pub fn load_to_json(request: &LoadSkills) -> (r: Json)
    ensures
        r@ == load_json(request@),
{
    let mut o: Json = Json::object();
    if request.names.len() > 0 {
        o.set("names", texts_to_json(&request.names));
    }
    if request.tags.len() > 0 {
        o.set("tags", texts_to_json(&request.tags));
    }
    o
}

/// The answer to a load request.
pub open spec fn loaded_json(result: LoadResultModel) -> JsonModel {
    let o = JsonModel::empty().with("request"@, load_json(result.request)).with("success"@, JsonModel::Bool(result.success)).with("selected"@, texts_json(result.selected)).with("message"@, JsonModel::Text(result.message));
    o
}

/// The answer to a load request.
pub fn loaded_to_json(result: &LoadResult) -> (r: Json)
    ensures
        r@ == loaded_json(result@),
{
    let mut o: Json = Json::object();
    o.set("request", load_to_json(&result.request));
    o.set("success", Json::Bool(result.success));
    o.set("selected", texts_to_json(&result.selected));
    o.set("message", Json::text(result.message.as_str()));
    o
}

/// What follows normal completion.
pub open spec fn continuation_text(x: Continuation) -> Text {
    match x {
        Continuation::Decide => "Decide"@,
        Continuation::Finish => "Finish"@,
    }
}

/// What follows normal completion.
pub fn continuation_name(x: Continuation) -> (r: &'static str)
    ensures
        r@ == continuation_text(x),
{
    match x {
        Continuation::Decide => "Decide",
        Continuation::Finish => "Finish",
    }
}

/// A repeat request.
pub open spec fn repeat_json(request: RepeatRequestModel) -> JsonModel {
    let o = JsonModel::empty().with("call"@, call_json(request.call)).with("times"@, JsonModel::Unsigned(request.times as u64));
    o
}

/// A repeat request.
pub fn repeat_to_json(request: &RepeatRequest) -> (r: Json)
    ensures
        r@ == repeat_json(request@),
{
    let mut o: Json = Json::object();
    o.set("call", call_to_json(&request.call));
    o.set("times", Json::Unsigned(request.times as u64));
    o
}

/// A repetition.
pub open spec fn batch_request_json(request: BatchRequestModel) -> JsonModel {
    match request {
        BatchRequestModel::Repeat(request) => JsonModel::empty().with(
            "Repeat"@,
            repeat_json(request),
        ),
        BatchRequestModel::UntilDone(call) => JsonModel::empty().with("UntilDone"@, call_json(call)),
    }
}

/// A repetition.
pub fn batch_request_to_json(request: &BatchRequest) -> (r: Json)
    ensures
        r@ == batch_request_json(request@),
{
    let mut o: Json = Json::object();
    match request {
        BatchRequest::Repeat(request) => o.set("Repeat", repeat_to_json(request)),
        BatchRequest::UntilDone(call) => o.set("UntilDone", call_to_json(call)),
    }
    o
}

/// How a repetition stands.
pub open spec fn batch_status_text(x: BatchStatus) -> Text {
    match x {
        BatchStatus::Running => "running"@,
        BatchStatus::Interrupted => "interrupted"@,
        BatchStatus::Completed => "completed"@,
        BatchStatus::Cancelled => "cancelled"@,
        BatchStatus::TimedOut => "timed_out"@,
        BatchStatus::AttemptLimit => "attempt_limit"@,
        BatchStatus::Failed => "failed"@,
    }
}

/// How a repetition stands.
pub fn batch_status_name(x: BatchStatus) -> (r: &'static str)
    ensures
        r@ == batch_status_text(x),
{
    match x {
        BatchStatus::Running => "running",
        BatchStatus::Interrupted => "interrupted",
        BatchStatus::Completed => "completed",
        BatchStatus::Cancelled => "cancelled",
        BatchStatus::TimedOut => "timed_out",
        BatchStatus::AttemptLimit => "attempt_limit",
        BatchStatus::Failed => "failed",
    }
}

/// A count that may be unknown.
pub open spec fn count_json(n: Option<u32>) -> JsonModel {
    match n {
        Some(n) => JsonModel::Unsigned(n as u64),
        None => JsonModel::Null,
    }
}

fn count_to_json(n: Option<u32>) -> (r: Json)
    ensures
        r@ == count_json(n),
{
    match n {
        Some(n) => Json::Unsigned(n as u64),
        None => Json::Null,
    }
}

/// The ledger of a repetition.
pub open spec fn batch_json(progress: BatchProgressModel) -> JsonModel {
    let o = JsonModel::empty().with("then"@, JsonModel::Text(continuation_text(progress.continuation))).with("request"@, batch_request_json(progress.request)).with("completed"@, JsonModel::Unsigned(progress.completed as u64)).with("successful"@, JsonModel::Unsigned(progress.successful as u64)).with("attempts"@, JsonModel::Unsigned(progress.attempts as u64)).with("remaining"@, count_json(progress.remaining)).with("finished"@, JsonModel::Bool(progress.finished)).with("status"@, JsonModel::Text(batch_status_text(progress.status))).with("message"@, JsonModel::Text(progress.message));
    o
}

/// The ledger of a repetition.
pub fn batch_to_json(progress: &BatchProgress) -> (r: Json)
    ensures
        r@ == batch_json(progress@),
{
    let mut o: Json = Json::object();
    o.set("then", Json::text(continuation_name(progress.continuation)));
    o.set("request", batch_request_to_json(&progress.request));
    o.set("completed", Json::Unsigned(progress.completed as u64));
    o.set("successful", Json::Unsigned(progress.successful as u64));
    o.set("attempts", Json::Unsigned(progress.attempts as u64));
    o.set("remaining", count_to_json(progress.remaining));
    o.set("finished", Json::Bool(progress.finished));
    o.set("status", Json::text(batch_status_name(progress.status)));
    o.set("message", Json::text(progress.message.as_str()));
    o
}

/// An action.
pub open spec fn action_json(action: ActionModel) -> JsonModel {
    match action {
        ActionModel::Call(call) => JsonModel::empty().with("Call"@, call_json(call)),
        ActionModel::Repeat(request) => JsonModel::empty().with("Repeat"@, repeat_json(request)),
        ActionModel::UntilDone(call) => JsonModel::empty().with("UntilDone"@, call_json(call)),
    }
}

/// An action.
pub fn action_to_json(action: &Action) -> (r: Json)
    ensures
        r@ == action_json(action@),
{
    let mut o: Json = Json::object();
    match action {
        Action::Call(call) => o.set("Call", call_to_json(call)),
        Action::Repeat(request) => o.set("Repeat", repeat_to_json(request)),
        Action::UntilDone(call) => o.set("UntilDone", call_to_json(call)),
    }
    o
}

/// Actions, in order.
pub open spec fn actions_json(items: Seq<ActionModel>) -> JsonModel {
    JsonModel::Array(Seq::new(items.len(), |i: int| action_json(items[i])))
}

/// Actions, in order.
pub fn actions_to_json(items: &Vec<Action>) -> (r: Json)
    ensures
        r@ == actions_json(items.deep_view()),
{
    let mut out: Vec<Json> = Vec::new();
    let mut i: usize = 0;
    while i < items.len()
        invariant
            i == out@.len(),
            i <= items@.len(),
            forall|j: int| 0 <= j < i ==> (#[trigger] out@[j])@ == action_json(items@[j]@),
        decreases items@.len() - i,
    {
        out.push(action_to_json(&items[i]));
        i += 1;
    }
    assert(out.deep_view() =~= actions_json(items.deep_view())->Array_0);
    Json::array(out)
}

/// How an execution stands.
pub open spec fn execution_status_text(x: ExecutionStatus) -> Text {
    match x {
        ExecutionStatus::Running => "running"@,
        ExecutionStatus::Interrupted => "interrupted"@,
        ExecutionStatus::Completed => "completed"@,
        ExecutionStatus::Cancelled => "cancelled"@,
        ExecutionStatus::Failed => "failed"@,
    }
}

/// How an execution stands.
pub fn execution_status_name(x: ExecutionStatus) -> (r: &'static str)
    ensures
        r@ == execution_status_text(x),
{
    match x {
        ExecutionStatus::Running => "running",
        ExecutionStatus::Interrupted => "interrupted",
        ExecutionStatus::Completed => "completed",
        ExecutionStatus::Cancelled => "cancelled",
        ExecutionStatus::Failed => "failed",
    }
}

/// The progress of an execution.
pub open spec fn execution_json(progress: ExecutionProgressModel) -> JsonModel {
    let o = JsonModel::empty().with("actions"@, actions_json(progress.actions)).with(
        "then"@,
        JsonModel::Text(continuation_text(progress.continuation)),
    ).with("completed"@, JsonModel::Unsigned(progress.completed as u64)).with(
        "status"@,
        JsonModel::Text(execution_status_text(progress.status)),
    ).with("message"@, JsonModel::Text(progress.message));
    match progress.failure {
        Some(failure) => o.with("failure"@, failure_json(failure)),
        None => o,
    }
}

/// The progress of an execution.
pub fn execution_to_json(progress: &ExecutionProgress) -> (r: Json)
    ensures
        r@ == execution_json(progress@),
{
    let mut o: Json = Json::object();
    o.set("actions", actions_to_json(&progress.actions));
    o.set("then", Json::text(continuation_name(progress.continuation)));
    o.set("completed", Json::Unsigned(progress.completed as u64));
    o.set("status", Json::text(execution_status_name(progress.status)));
    o.set("message", Json::text(progress.message.as_str()));
    if let Some(failure) = &progress.failure {
        o.set("failure", failure_to_json(failure));
    }
    o
}

/// Calls, in order.
pub open spec fn calls_json(items: Seq<ToolCallModel>) -> JsonModel {
    JsonModel::Array(Seq::new(items.len(), |i: int| call_json(items[i])))
}

/// Calls, in order.
pub fn calls_to_json(items: &Vec<ToolCall>) -> (r: Json)
    ensures
        r@ == calls_json(items.deep_view()),
{
    let mut out: Vec<Json> = Vec::new();
    let mut i: usize = 0;
    while i < items.len()
        invariant
            i == out@.len(),
            i <= items@.len(),
            forall|j: int| 0 <= j < i ==> (#[trigger] out@[j])@ == call_json(items@[j]@),
        decreases items@.len() - i,
    {
        out.push(call_to_json(&items[i]));
        i += 1;
    }
    assert(out.deep_view() =~= calls_json(items.deep_view())->Array_0);
    Json::array(out)
}

/// A skill; what it has not is left out.
pub open spec fn skill_json(skill: SkillModel) -> JsonModel {
    let o = JsonModel::empty().with("name"@, JsonModel::Text(skill.name)).with("description"@, JsonModel::Text(skill.description)).with("availability"@, availability_json(skill.availability)).with("parameters"@, skill.parameters);
    let o = if skill.repeatable {
        o.with("repeatable"@, JsonModel::Bool(true))
    } else {
        o
    };
    let o = if skill.loopable {
        o.with("loopable"@, JsonModel::Bool(true))
    } else {
        o
    };
    let o = if skill.tags.len() > 0 {
        o.with("tags"@, texts_json(skill.tags))
    } else {
        o
    };
    let o = if skill.calls.len() > 0 {
        o.with("calls"@, calls_json(skill.calls))
    } else {
        o
    };
    o
}

/// A skill; what it has not is left out.
pub fn skill_to_json(skill: &Skill) -> (r: Json)
    ensures
        r@ == skill_json(skill@),
{
    let mut o: Json = Json::object();
    o.set("name", Json::text(skill.name.as_str()));
    o.set("description", Json::text(skill.description.as_str()));
    o.set("availability", availability_to_json(&skill.availability));
    o.set("parameters", skill.parameters.dup());
    if skill.repeatable {
        o.set("repeatable", Json::Bool(true));
    }
    if skill.loopable {
        o.set("loopable", Json::Bool(true));
    }
    if skill.tags.len() > 0 {
        o.set("tags", texts_to_json(&skill.tags));
    }
    if skill.calls.len() > 0 {
        o.set("calls", calls_to_json(&skill.calls));
    }
    o
}

/// Skills, in order.
pub open spec fn skills_json(items: Seq<SkillModel>) -> JsonModel {
    JsonModel::Array(Seq::new(items.len(), |i: int| skill_json(items[i])))
}

/// Skills, in order.
pub fn skills_to_json(items: &Vec<Skill>) -> (r: Json)
    ensures
        r@ == skills_json(items.deep_view()),
{
    let mut out: Vec<Json> = Vec::new();
    let mut i: usize = 0;
    while i < items.len()
        invariant
            i == out@.len(),
            i <= items@.len(),
            forall|j: int| 0 <= j < i ==> (#[trigger] out@[j])@ == skill_json(items@[j]@),
        decreases items@.len() - i,
    {
        out.push(skill_to_json(&items[i]));
        i += 1;
    }
    assert(out.deep_view() =~= skills_json(items.deep_view())->Array_0);
    Json::array(out)
}

/// What a decision provider sees of the skills and of the execution.
pub open spec fn view_json(view: SkillViewModel) -> JsonModel {
    let o = JsonModel::empty().with("max_actions"@, JsonModel::Unsigned(view.max_actions as u64)).with(
        "max_repeat"@,
        JsonModel::Unsigned(view.max_repeat as u64),
    ).with("discovery_enabled"@, JsonModel::Bool(view.discovery_enabled)).with(
        "directory"@,
        summaries_json(view.directory),
    ).with("loaded"@, skills_json(view.loaded));
    let o = if view.guidance.len() > 0 {
        o.with("guidance"@, JsonModel::Text(view.guidance))
    } else {
        o
    };
    let o = match view.failure {
        Some(failure) => o.with("failure"@, failure_json(failure)),
        None => o,
    };
    let o = match view.execution {
        Some(progress) => o.with("execution"@, execution_json(progress)),
        None => o,
    };
    let o = match view.batch {
        Some(progress) => o.with("batch"@, batch_json(progress)),
        None => o,
    };
    match view.last_load {
        Some(result) => o.with("last_load"@, loaded_json(result)),
        None => o,
    }
}

/// What a decision provider sees of the skills and of the execution.
pub fn view_to_json(view: &SkillView) -> (r: Json)
    ensures
        r@ == view_json(view@),
{
    let mut o: Json = Json::object();
    o.set("max_actions", Json::Unsigned(view.max_actions as u64));
    o.set("max_repeat", Json::Unsigned(view.max_repeat as u64));
    o.set("discovery_enabled", Json::Bool(view.discovery_enabled));
    o.set("directory", summaries_to_json(&view.directory));
    o.set("loaded", skills_to_json(&view.loaded));
    if !text::same(view.guidance.as_str(), "") {
        proof {
            reveal_strlit("");
        }
        o.set("guidance", Json::text(view.guidance.as_str()));
    }
    if let Some(failure) = &view.failure {
        o.set("failure", failure_to_json(failure));
    }
    if let Some(progress) = &view.execution {
        o.set("execution", execution_to_json(progress));
    }
    if let Some(progress) = &view.batch {
        o.set("batch", batch_to_json(progress));
    }
    if let Some(result) = &view.last_load {
        o.set("last_load", loaded_to_json(result));
    }
    proof {
        reveal_strlit("");
        assert(view@.guidance.len() == 0 ==> view@.guidance =~= ""@);
    }
    o
}

/// Actions and what follows them.
pub open spec fn plan_json(actions: Seq<ActionModel>, continuation: Continuation) -> JsonModel {
    JsonModel::empty().with("actions"@, actions_json(actions)).with(
        "then"@,
        JsonModel::Text(continuation_text(continuation)),
    )
}

fn plan_to_json(actions: &Vec<Action>, continuation: Continuation) -> (r: Json)
    ensures
        r@ == plan_json(actions.deep_view(), continuation),
{
    let mut o: Json = Json::object();
    o.set("actions", actions_to_json(actions));
    o.set("then", Json::text(continuation_name(continuation)));
    o
}

/// A decision.
pub open spec fn decision_json(decision: DecisionModel) -> JsonModel {
    match decision {
        DecisionModel::Execute { actions, then } => JsonModel::empty().with(
            "Execute"@,
            plan_json(actions, then),
        ),
        DecisionModel::ReplaceRemaining { actions, then } => JsonModel::empty().with(
            "ReplaceRemaining"@,
            plan_json(actions, then),
        ),
        DecisionModel::LoadSkills(request) => JsonModel::empty().with(
            "LoadSkills"@,
            load_json(request),
        ),
        DecisionModel::Resume => JsonModel::Text("Resume"@),
        DecisionModel::Completed(reason) => JsonModel::empty().with(
            "Completed"@,
            JsonModel::Text(reason),
        ),
        DecisionModel::Failed(reason) => JsonModel::empty().with(
            "Failed"@,
            JsonModel::Text(reason),
        ),
    }
}

/// A decision.
pub fn decision_to_json(decision: &Decision) -> (r: Json)
    ensures
        r@ == decision_json(decision@),
{
    let mut o: Json = Json::object();
    match decision {
        Decision::Execute { actions, then } => o.set("Execute", plan_to_json(actions, *then)),
        Decision::ReplaceRemaining { actions, then } => o.set(
            "ReplaceRemaining",
            plan_to_json(actions, *then),
        ),
        Decision::LoadSkills(request) => o.set("LoadSkills", load_to_json(request)),
        Decision::Resume => {
            return Json::text("Resume");
        },
        Decision::Completed(reason) => o.set("Completed", Json::text(reason.as_str())),
        Decision::Failed(reason) => o.set("Failed", Json::text(reason.as_str())),
    }
    o
}

/// An event of a run.
pub open spec fn event_json(event: EventModel) -> JsonModel {
    match event {
        EventModel::Observed(state) => JsonModel::empty().with("Observed"@, state_json(state)),
        EventModel::SkillsResolved { step, skills, guidance } => JsonModel::empty().with(
            "SkillsResolved"@,
            JsonModel::empty().with("step"@, JsonModel::Unsigned(step as u64)).with(
                "skills"@,
                skills_json(skills),
            ).with("guidance"@, JsonModel::Text(guidance)),
        ),
        EventModel::SkillsInjected { names, directory_count } => JsonModel::empty().with(
            "SkillsInjected"@,
            JsonModel::empty().with("names"@, texts_json(names)).with(
                "directory_count"@,
                JsonModel::Unsigned(directory_count as u64),
            ),
        ),
        EventModel::SkillsLoaded(result) => JsonModel::empty().with(
            "SkillsLoaded"@,
            loaded_json(result),
        ),
        EventModel::Decided(decision) => JsonModel::empty().with(
            "Decided"@,
            decision_json(decision),
        ),
        EventModel::Executed(result) => JsonModel::empty().with("Executed"@, result_json(result)),
        EventModel::ExecutionFailed(failure) => JsonModel::empty().with(
            "ExecutionFailed"@,
            failure_json(failure),
        ),
        EventModel::ExecutionRejected(reason) => JsonModel::empty().with(
            "ExecutionRejected"@,
            JsonModel::Text(reason),
        ),
        EventModel::BatchProgress(progress) => JsonModel::empty().with(
            "BatchProgress"@,
            batch_json(progress),
        ),
        EventModel::ExecutionProgress(progress) => JsonModel::empty().with(
            "ExecutionProgress"@,
            execution_json(progress),
        ),
        EventModel::ActionStarted { index, total, call } => JsonModel::empty().with(
            "ActionStarted"@,
            JsonModel::empty().with("index"@, JsonModel::Unsigned(index as u64)).with(
                "total"@,
                JsonModel::Unsigned(total as u64),
            ).with("call"@, call_json(call)),
        ),
    }
}

/// An event of a run.
pub fn event_to_json(event: &Event) -> (r: Json)
    ensures
        r@ == event_json(event@),
{
    let mut o: Json = Json::object();
    match event {
        Event::Observed(state) => o.set("Observed", state_to_json(state)),
        Event::SkillsResolved { step, skills, guidance } => {
            let mut inner: Json = Json::object();
            inner.set("step", Json::Unsigned(*step as u64));
            inner.set("skills", skills_to_json(skills));
            inner.set("guidance", Json::text(guidance.as_str()));
            o.set("SkillsResolved", inner);
        },
        Event::SkillsInjected { names, directory_count } => {
            let mut inner: Json = Json::object();
            inner.set("names", texts_to_json(names));
            inner.set("directory_count", Json::Unsigned(*directory_count as u64));
            o.set("SkillsInjected", inner);
        },
        Event::SkillsLoaded(result) => o.set("SkillsLoaded", loaded_to_json(result)),
        Event::Decided(decision) => o.set("Decided", decision_to_json(decision)),
        Event::Executed(result) => o.set("Executed", result_to_json(result)),
        Event::ExecutionFailed(failure) => o.set("ExecutionFailed", failure_to_json(failure)),
        Event::ExecutionRejected(reason) => o.set(
            "ExecutionRejected",
            Json::text(reason.as_str()),
        ),
        Event::BatchProgress(progress) => o.set("BatchProgress", batch_to_json(progress)),
        Event::ExecutionProgress(progress) => o.set(
            "ExecutionProgress",
            execution_to_json(progress),
        ),
        Event::ActionStarted { index, total, call } => {
            let mut inner: Json = Json::object();
            inner.set("index", Json::Unsigned(*index as u64));
            inner.set("total", Json::Unsigned(*total as u64));
            inner.set("call", call_to_json(call));
            o.set("ActionStarted", inner);
        },
    }
    o
}

/// Counts of calls.
pub open spec fn counts_json(counts: CallCounts) -> JsonModel {
    JsonModel::empty().with("total"@, JsonModel::Unsigned(counts.total)).with(
        "succeeded"@,
        JsonModel::Unsigned(counts.succeeded),
    ).with("failed"@, JsonModel::Unsigned(counts.failed))
}

fn counts_to_json(counts: CallCounts) -> (r: Json)
    ensures
        r@ == counts_json(counts),
{
    let mut o: Json = Json::object();
    o.set("total", Json::Unsigned(counts.total));
    o.set("succeeded", Json::Unsigned(counts.succeeded));
    o.set("failed", Json::Unsigned(counts.failed));
    o
}

/// What a task took.
pub open spec fn usage_json(summary: TaskSummary) -> JsonModel {
    JsonModel::empty().with("model_requests"@, counts_json(summary.model_requests)).with(
        "actions"@,
        counts_json(summary.actions),
    ).with("interruptions"@, JsonModel::Unsigned(summary.interruptions)).with(
        "elapsed_ms"@,
        JsonModel::Unsigned(summary.elapsed_ms),
    )
}

fn usage_to_json(summary: TaskSummary) -> (r: Json)
    ensures
        r@ == usage_json(summary),
{
    let mut o: Json = Json::object();
    o.set("model_requests", counts_to_json(summary.model_requests));
    o.set("actions", counts_to_json(summary.actions));
    o.set("interruptions", Json::Unsigned(summary.interruptions));
    o.set("elapsed_ms", Json::Unsigned(summary.elapsed_ms));
    o
}

/// Where a task stands.
pub open spec fn task_status_text(x: TaskStatus) -> Text {
    match x {
        TaskStatus::Created => "created"@,
        TaskStatus::Running => "running"@,
        TaskStatus::PauseRequested => "pause_requested"@,
        TaskStatus::Paused => "paused"@,
        TaskStatus::CancelRequested => "cancel_requested"@,
        TaskStatus::Completed => "completed"@,
        TaskStatus::Failed => "failed"@,
        TaskStatus::Cancelled => "cancelled"@,
    }
}

/// Where a task stands.
pub fn task_status_name(x: TaskStatus) -> (r: &'static str)
    ensures
        r@ == task_status_text(x),
{
    match x {
        TaskStatus::Created => "created",
        TaskStatus::Running => "running",
        TaskStatus::PauseRequested => "pause_requested",
        TaskStatus::Paused => "paused",
        TaskStatus::CancelRequested => "cancel_requested",
        TaskStatus::Completed => "completed",
        TaskStatus::Failed => "failed",
        TaskStatus::Cancelled => "cancelled",
    }
}

/// A text that may be missing.
pub open spec fn maybe_json(s: Option<Text>) -> JsonModel {
    match s {
        Some(s) => JsonModel::Text(s),
        None => JsonModel::Null,
    }
}

fn maybe_to_json(s: &Option<String>) -> (r: Json)
    ensures
        r@ == maybe_json(s.deep_view()),
{
    match s {
        Some(s) => Json::text(s.as_str()),
        None => Json::Null,
    }
}

/// What is known of a task.
pub open spec fn snapshot_json(snapshot: TaskSnapshotModel) -> JsonModel {
    let o = JsonModel::empty().with("task_id"@, JsonModel::Text(snapshot.task_id)).with(
        "goal"@,
        JsonModel::Text(snapshot.goal),
    ).with("status"@, JsonModel::Text(task_status_text(snapshot.status))).with(
        "current_skill"@,
        maybe_json(snapshot.current_skill),
    ).with("reason"@, maybe_json(snapshot.reason));
    match snapshot.summary {
        Some(summary) => o.with("summary"@, usage_json(summary)),
        None => o,
    }
}

/// What is known of a task.
pub fn snapshot_to_json(snapshot: &TaskSnapshot) -> (r: Json)
    ensures
        r@ == snapshot_json(snapshot@),
{
    let mut o: Json = Json::object();
    o.set("task_id", Json::text(snapshot.task_id.as_str()));
    o.set("goal", Json::text(snapshot.goal.as_str()));
    o.set("status", Json::text(task_status_name(snapshot.status)));
    o.set("current_skill", maybe_to_json(&snapshot.current_skill));
    o.set("reason", maybe_to_json(&snapshot.reason));
    if let Some(summary) = snapshot.summary {
        o.set("summary", usage_to_json(summary));
    }
    o
}

/// An entry of the journal of a task.
pub open spec fn entry_json(task_id: Text, timestamp_ms: u64, kind: Text, data: JsonModel) -> JsonModel {
    JsonModel::empty().with("task_id"@, JsonModel::Text(task_id)).with(
        "timestamp_ms"@,
        JsonModel::Unsigned(timestamp_ms),
    ).with("kind"@, JsonModel::Text(kind)).with("data"@, data)
}

fn make_entry(task_id: &str, timestamp_ms: u64, kind: &str, data: Json) -> (r: Json)
    ensures
        r@ == entry_json(task_id@, timestamp_ms, kind@, data@),
{
    let mut o: Json = Json::object();
    o.set("task_id", Json::text(task_id));
    o.set("timestamp_ms", Json::Unsigned(timestamp_ms));
    o.set("kind", Json::text(kind));
    o.set("data", data);
    o
}

/// The entry of a change in the life of a task.
pub fn lifecycle_entry(snapshot: &TaskSnapshot, timestamp_ms: u64) -> (r: Json)
    ensures
        r@ == entry_json(
            snapshot@.task_id,
            timestamp_ms,
            "lifecycle"@,
            snapshot_json(snapshot@),
        ),
{
    make_entry(
        snapshot.task_id.as_str(),
        timestamp_ms,
        "lifecycle",
        snapshot_to_json(snapshot),
    )
}

/// The entry of an event of the run of a task.
pub fn execution_entry(task_id: &str, event: &Event, timestamp_ms: u64) -> (r: Json)
    ensures
        r@ == entry_json(task_id@, timestamp_ms, "execution"@, event_json(event@)),
{
    make_entry(task_id, timestamp_ms, "execution", event_to_json(event))
}

} // verus!
