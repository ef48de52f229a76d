//! A small adapter: semantic tools over the state of an in-memory training program.
use crate::api::{
    control_error, Action, ActionModel, ActionOutcome, ActionReport, ActionReportModel,
    AdapterError, AdapterErrorModel, AppState, AppStateModel, Availability, AvailabilityModel,
    DecisionContext, DecisionContextModel, ExecutionControl, ExecutionRequest,
    ExecutionRequestModel, FailureStage, RepeatRequest, RepeatRequestModel, Skill, SkillContext,
    SkillContextModel, SkillModel, ToolCall, ToolCallModel,
};
use crate::clock::Nanos;
use crate::copy::{Dup, Same};
use crate::demo_runtime::{
    DemoRuntime, ExplorationSnapshot, Mode, RuntimeError, Scenario, TrainingStatus,
};
use crate::feature::{
    Feature, FeatureModel, Parameter, ParameterKind, ParameterKindModel, ParameterModel,
};
use crate::json::{printed, Json, JsonModel};
use crate::sdk::{refused, Host, Registry};
use crate::text;
use crate::text::Text;
use vstd::prelude::*;

verus! {

/// The name of a mode.
pub open spec fn mode_text(x: Mode) -> Text {
    match x {
        Mode::Idle => "idle"@,
        Mode::Training => "training"@,
    }
}

/// The name of a mode.
pub fn mode_name(x: Mode) -> (r: &'static str)
    ensures
        r@ == mode_text(x),
{
    match x {
        Mode::Idle => "idle",
        Mode::Training => "training",
    }
}

/// The name of a training status.
pub open spec fn status_text(x: TrainingStatus) -> Text {
    match x {
        TrainingStatus::NotStarted => "not_started"@,
        TrainingStatus::Running => "running"@,
        TrainingStatus::Completed => "completed"@,
    }
}

/// The name of a training status.
pub fn status_name(x: TrainingStatus) -> (r: &'static str)
    ensures
        r@ == status_text(x),
{
    match x {
        TrainingStatus::NotStarted => "not_started",
        TrainingStatus::Running => "running",
        TrainingStatus::Completed => "completed",
    }
}

/// What the tools say of an error of the program.
pub open spec fn feedback(x: RuntimeError) -> Text {
    match x {
        RuntimeError::WrongMode => "需要先通过 set_mode 切换到 training 模式，再启动训练。"@,
        RuntimeError::Busy => "训练服务暂时繁忙，本次未启动；现在可以重试 start_training。"@,
        RuntimeError::Unavailable => "训练服务永久不可用，当前工具无法恢复，请判断任务失败。"@,
        RuntimeError::AlreadyStarted => "本次训练已启动，不能重复启动；请查询 get_training_status。"@,
        RuntimeError::TrialNeedsReset => "试验装置需要复位，本次动作未完成；请调用 reset_trial 后恢复批次。"@,
        RuntimeError::TrialUnavailable => "试验装置永久不可用。"@,
        RuntimeError::TrainingInProgress => "训练正在进行，无法切换模式，请等待训练完成。"@,
        RuntimeError::ExplorationNeedsReset => "探索设备中断，先调用 reset_exploration，再恢复原循环；已收集物品保留。"@,
    }
}

/// What the tools say of an error of the program.
pub fn error_feedback(x: RuntimeError) -> (r: &'static str)
    ensures
        r@ == feedback(x),
{
    match x {
        RuntimeError::WrongMode => "需要先通过 set_mode 切换到 training 模式，再启动训练。",
        RuntimeError::Busy => "训练服务暂时繁忙，本次未启动；现在可以重试 start_training。",
        RuntimeError::Unavailable => "训练服务永久不可用，当前工具无法恢复，请判断任务失败。",
        RuntimeError::AlreadyStarted => "本次训练已启动，不能重复启动；请查询 get_training_status。",
        RuntimeError::TrialNeedsReset => "试验装置需要复位，本次动作未完成；请调用 reset_trial 后恢复批次。",
        RuntimeError::TrialUnavailable => "试验装置永久不可用。",
        RuntimeError::TrainingInProgress => "训练正在进行，无法切换模式，请等待训练完成。",
        RuntimeError::ExplorationNeedsReset => "探索设备中断，先调用 reset_exploration，再恢复原循环；已收集物品保留。",
    }
}

/// What an error of the program is to the host.
pub fn runtime_error(error: RuntimeError) -> (r: AdapterError)
    ensures
        r@ == AdapterErrorModel::Runtime(feedback(error)),
{
    AdapterError::Runtime(error_feedback(error).to_owned())
}

/// What the facts of a state say that decisions are based on.
#[derive(Debug, Clone, Copy, PartialEq, Eq, Structural)]
pub struct Snapshot {
    pub mode: Mode,
    pub status: TrainingStatus,
    pub available: bool,
    pub trial_ready: bool,
    pub trial_needs_reset: bool,
    pub exploration: Option<ExplorationSnapshot>,
}

/// Why the training service cannot be used.
pub open spec fn unavailable_reason(available: bool) -> JsonModel {
    if available {
        JsonModel::Null
    } else {
        JsonModel::Text(
            "Training service is permanently unavailable; no available tool can restore it."@,
        )
    }
}

/// What was explored.
pub open spec fn exploration_json(exploration: ExplorationSnapshot) -> JsonModel {
    JsonModel::empty().with("collected"@, JsonModel::Unsigned(exploration.collected as u64)).with(
        "finished"@,
        JsonModel::Bool(exploration.finished),
    ).with("needs_reset"@, JsonModel::Bool(exploration.needs_reset))
}

/// The trials and their device.
pub open spec fn trial_json(runtime: DemoRuntime) -> JsonModel {
    JsonModel::empty().with("completed"@, JsonModel::Unsigned(runtime.trial_completed as u64)).with(
        "successful"@,
        JsonModel::Unsigned(runtime.trial_successful as u64),
    ).with(
        "ready"@,
        JsonModel::Bool(
            !runtime.trial_needs_reset && runtime.scenario != Scenario::BatchBlocked,
        ),
    ).with("needs_reset"@, JsonModel::Bool(runtime.trial_needs_reset))
}

/// The training and its service.
pub open spec fn training_json(runtime: DemoRuntime, now: Nanos) -> JsonModel {
    JsonModel::empty().with("status"@, JsonModel::Text(status_text(runtime.status(now)))).with(
        "available"@,
        JsonModel::Bool(runtime.scenario != Scenario::Blocked),
    ).with("unavailable_reason"@, unavailable_reason(runtime.scenario != Scenario::Blocked))
}

/// What is observed of a program.
pub open spec fn facts(runtime: DemoRuntime, now: Nanos) -> JsonModel {
    let common = JsonModel::empty().with("mode"@, JsonModel::Text(mode_text(runtime.mode))).with(
        "trial"@,
        trial_json(runtime),
    ).with("training"@, training_json(runtime, now));
    if runtime.explorable() {
        common.with("exploration"@, exploration_json(runtime.exploration))
    } else {
        common
    }
}

fn trial_to_json(runtime: &DemoRuntime) -> (r: Json)
    ensures
        r@ == trial_json(*runtime),
{
    let (completed, successful, ready, needs_reset): (u32, u32, bool, bool) =
        runtime.trial_snapshot();
    let mut o: Json = Json::object();
    o.set("completed", Json::Unsigned(completed as u64));
    o.set("successful", Json::Unsigned(successful as u64));
    o.set("ready", Json::Bool(ready));
    o.set("needs_reset", Json::Bool(needs_reset));
    o
}

fn training_to_json(runtime: &DemoRuntime, now: Nanos) -> (r: Json)
    ensures
        r@ == training_json(*runtime, now),
{
    let mut o: Json = Json::object();
    o.set("status", Json::text(status_name(runtime.training_status(now))));
    o.set("available", Json::Bool(runtime.available()));
    o.set(
        "unavailable_reason",
        if runtime.available() {
            Json::Null
        } else {
            Json::text(
                "Training service is permanently unavailable; no available tool can restore it.",
            )
        },
    );
    o
}

fn exploration_to_json(exploration: ExplorationSnapshot) -> (r: Json)
    ensures
        r@ == exploration_json(exploration),
{
    let mut o: Json = Json::object();
    o.set("collected", Json::Unsigned(exploration.collected as u64));
    o.set("finished", Json::Bool(exploration.finished));
    o.set("needs_reset", Json::Bool(exploration.needs_reset));
    o
}

/// A record has named members, or up to so many of them in order.
pub open spec fn record(json: JsonModel, members: nat) -> bool {
    json is Object || (json matches JsonModel::Array(items) && items.len() <= members)
}

/// The member of a record that has a name and a position.
pub open spec fn member(json: JsonModel, name: Text, at: int) -> Option<JsonModel> {
    match json {
        JsonModel::Object(_) => if json.has(name) {
            Some(json.at(name))
        } else {
            None
        },
        JsonModel::Array(items) => if at < items.len() {
            Some(items[at])
        } else {
            None
        },
        _ => None,
    }
}

/// Whether a value names a variant: as a text, or as the only member of an object, without
/// contents.
pub open spec fn names(json: JsonModel, name: Text) -> bool {
    ||| json == JsonModel::Text(name)
    ||| json is Object && json.has(name) && json.at(name) == JsonModel::Null
        && json->Object_0.dom().len() == 1
}

/// The mode that a value names.
pub open spec fn mode_of(json: JsonModel) -> Option<Mode> {
    if names(json, "idle"@) {
        Some(Mode::Idle)
    } else if names(json, "training"@) {
        Some(Mode::Training)
    } else {
        None
    }
}

/// The training status that a value names.
pub open spec fn status_of(json: JsonModel) -> Option<TrainingStatus> {
    if names(json, "not_started"@) {
        Some(TrainingStatus::NotStarted)
    } else if names(json, "running"@) {
        Some(TrainingStatus::Running)
    } else if names(json, "completed"@) {
        Some(TrainingStatus::Completed)
    } else {
        None
    }
}

/// The truth value of a member.
pub open spec fn flag_of(json: JsonModel, name: Text, at: int) -> Option<bool> {
    match member(json, name, at) {
        Some(JsonModel::Bool(b)) => Some(b),
        _ => None,
    }
}

/// What a value says of an exploration.
pub open spec fn exploration_of(json: JsonModel) -> Option<ExplorationSnapshot> {
    match (
        member(json, "collected"@, 0),
        flag_of(json, "finished"@, 1),
        flag_of(json, "needs_reset"@, 2),
    ) {
        (
            Some(JsonModel::Unsigned(collected)),
            Some(finished),
            Some(needs_reset),
        ) if record(json, 3) && collected <= u32::MAX => Some(
            ExplorationSnapshot { collected: collected as u32, finished, needs_reset },
        ),
        _ => None,
    }
}

/// What a value says of the training: its status, and whether it is available.
pub open spec fn training_of(json: JsonModel) -> Option<(TrainingStatus, bool)> {
    match (member(json, "status"@, 0), flag_of(json, "available"@, 1)) {
        (Some(status), Some(available)) if record(json, 2) && status_of(status) is Some => Some(
            (status_of(status)->0, available),
        ),
        _ => None,
    }
}

/// What a value says of the trial device: whether it is ready, and whether it needs a reset.
pub open spec fn trial_of(json: Option<JsonModel>) -> Option<(bool, bool)> {
    match json {
        None => Some((false, false)),
        Some(json) => match (flag_of(json, "ready"@, 0), flag_of(json, "needs_reset"@, 1)) {
            (Some(ready), Some(needs_reset)) if record(json, 2) => Some((ready, needs_reset)),
            _ => None,
        },
    }
}

/// What a value says of the exploration, where there may be none.
pub open spec fn optional_exploration_of(json: Option<JsonModel>) -> Option<
    Option<ExplorationSnapshot>,
> {
    match json {
        None => Some(None),
        Some(JsonModel::Null) => Some(None),
        Some(json) => match exploration_of(json) {
            Some(exploration) => Some(Some(exploration)),
            None => None,
        },
    }
}

/// What facts say that decisions are based on, if they have the expected shape.
pub open spec fn snapshot_of(json: JsonModel) -> Option<Snapshot> {
    match (
        member(json, "mode"@, 0),
        member(json, "training"@, 1),
        trial_of(member(json, "trial"@, 2)),
        optional_exploration_of(member(json, "exploration"@, 3)),
    ) {
        (Some(mode), Some(training), Some(trial), Some(exploration)) if record(json, 4) && mode_of(
            mode,
        ) is Some && training_of(training) is Some => {
            let (status, available) = training_of(training)->0;
            let (trial_ready, trial_needs_reset) = trial;
            Some(
                Snapshot {
                    mode: mode_of(mode)->0,
                    status,
                    available,
                    trial_ready,
                    trial_needs_reset,
                    exploration,
                },
            )
        },
        _ => None,
    }
}

fn is_record(json: &Json, members: usize) -> (r: bool)
    ensures
        r == record(json@, members as nat),
{
    match json {
        Json::Object(_) => true,
        Json::Array(items) => items.len() <= members,
        _ => false,
    }
}

fn read_member<'a>(json: &'a Json, name: &str, at: usize) -> (r: Option<&'a Json>)
    ensures
        match r {
            Some(value) => member(json@, name@, at as int) == Some(value@),
            None => member(json@, name@, at as int) is None,
        },
{
    match json {
        Json::Object(_) => json.get(name),
        Json::Array(items) => if at < items.len() {
            Some(&items[at])
        } else {
            None
        },
        _ => None,
    }
}

fn read_name(json: &Json, name: &str) -> (r: bool)
    ensures
        r == names(json@, name@),
{
    match json {
        Json::Text(s) => text::same(s.as_str(), name),
        Json::Object(_) => json.size() == 1 && match json.get(name) {
            Some(Json::Null) => true,
            _ => false,
        },
        _ => false,
    }
}

fn read_mode(json: &Json) -> (r: Option<Mode>)
    ensures
        r == mode_of(json@),
{
    if read_name(json, "idle") {
        Some(Mode::Idle)
    } else if read_name(json, "training") {
        Some(Mode::Training)
    } else {
        None
    }
}

fn read_status(json: &Json) -> (r: Option<TrainingStatus>)
    ensures
        r == status_of(json@),
{
    if read_name(json, "not_started") {
        Some(TrainingStatus::NotStarted)
    } else if read_name(json, "running") {
        Some(TrainingStatus::Running)
    } else if read_name(json, "completed") {
        Some(TrainingStatus::Completed)
    } else {
        None
    }
}

fn read_flag(json: &Json, name: &str, at: usize) -> (r: Option<bool>)
    ensures
        r == flag_of(json@, name@, at as int),
{
    match read_member(json, name, at) {
        Some(Json::Bool(b)) => Some(*b),
        _ => None,
    }
}

fn read_exploration(json: &Json) -> (r: Option<ExplorationSnapshot>)
    ensures
        r == exploration_of(json@),
{
    if !is_record(json, 3) {
        return None;
    }
    let collected: Option<u64> = match read_member(json, "collected", 0) {
        Some(value) => value.as_u64(),
        None => None,
    };
    match (
        collected,
        read_flag(json, "finished", 1),
        read_flag(json, "needs_reset", 2),
    ) {
        (Some(collected), Some(finished), Some(needs_reset)) => {
            if collected <= u32::MAX as u64 {
                Some(
                    ExplorationSnapshot { collected: collected as u32, finished, needs_reset },
                )
            } else {
                None
            }
        },
        _ => None,
    }
}

fn read_training(json: &Json) -> (r: Option<(TrainingStatus, bool)>)
    ensures
        r == training_of(json@),
{
    if !is_record(json, 2) {
        return None;
    }
    match (read_member(json, "status", 0), read_flag(json, "available", 1)) {
        (Some(status), Some(available)) => match read_status(status) {
            Some(status) => Some((status, available)),
            None => None,
        },
        _ => None,
    }
}

fn read_trial(json: Option<&Json>) -> (r: Option<(bool, bool)>)
    ensures
        r == trial_of(json.deep_view()),
{
    match json {
        None => Some((false, false)),
        Some(json) => {
            if !is_record(json, 2) {
                return None;
            }
            match (read_flag(json, "ready", 0), read_flag(json, "needs_reset", 1)) {
                (Some(ready), Some(needs_reset)) => Some((ready, needs_reset)),
                _ => None,
            }
        },
    }
}

fn read_optional_exploration(json: Option<&Json>) -> (r: Option<Option<ExplorationSnapshot>>)
    ensures
        r == optional_exploration_of(json.deep_view()),
{
    match json {
        None => Some(None),
        Some(Json::Null) => Some(None),
        Some(json) => match read_exploration(json) {
            Some(exploration) => Some(Some(exploration)),
            None => None,
        },
    }
}

impl Snapshot {
    /// Reads what facts say that decisions are based on, if they have the expected shape.
    pub fn read(json: &Json) -> (r: Option<Snapshot>)
        ensures
            r == snapshot_of(json@),
    {
        if !is_record(json, 4) {
            return None;
        }
        let mode = match read_member(json, "mode", 0) {
            Some(value) => read_mode(value),
            None => None,
        };
        let training = match read_member(json, "training", 1) {
            Some(value) => read_training(value),
            None => None,
        };
        let trial = read_trial(read_member(json, "trial", 2));
        let exploration = read_optional_exploration(read_member(json, "exploration", 3));
        match (mode, training, trial, exploration) {
            (
                Some(mode),
                Some((status, available)),
                Some((trial_ready, trial_needs_reset)),
                Some(exploration),
            ) => Some(
                Snapshot {
                    mode,
                    status,
                    available,
                    trial_ready,
                    trial_needs_reset,
                    exploration,
                },
            ),
            _ => None,
        }
    }
}

/// What decisions are based on in a program.
pub open spec fn current(runtime: DemoRuntime, now: Nanos) -> Snapshot {
    Snapshot {
        mode: runtime.mode,
        status: runtime.status(now),
        available: runtime.scenario != Scenario::Blocked,
        trial_ready: !runtime.trial_needs_reset && runtime.scenario != Scenario::BatchBlocked,
        trial_needs_reset: runtime.trial_needs_reset,
        exploration: if runtime.explorable() {
            Some(runtime.exploration)
        } else {
            None
        },
    }
}

/// What is read of observed facts is what the program is.
pub proof fn observed_facts_read_back(runtime: DemoRuntime, now: Nanos)
    ensures
        snapshot_of(facts(runtime, now)) == Some(current(runtime, now)),
{
    reveal_strlit("mode");
    reveal_strlit("trial");
    reveal_strlit("training");
    reveal_strlit("exploration");
    reveal_strlit("status");
    reveal_strlit("available");
    reveal_strlit("unavailable_reason");
    reveal_strlit("ready");
    reveal_strlit("needs_reset");
    reveal_strlit("completed");
    reveal_strlit("successful");
    reveal_strlit("collected");
    reveal_strlit("finished");
    reveal_strlit("idle");
    reveal_strlit("not_started");
    reveal_strlit("running");
    let json = facts(runtime, now);
    let trial = trial_json(runtime);
    let training = training_json(runtime, now);
    let exploration = exploration_json(runtime.exploration);
    assert("mode"@.len() == 4 && "trial"@.len() == 5 && "training"@.len() == 8
        && "exploration"@.len() == 11);
    assert("status"@.len() == 6 && "available"@.len() == 9 && "unavailable_reason"@.len() == 18);
    assert("ready"@.len() == 5 && "needs_reset"@.len() == 11 && "completed"@.len() == 9
        && "successful"@.len() == 10);
    assert("collected"@.len() == 9 && "finished"@.len() == 8);
    assert("idle"@.len() == 4 && "not_started"@.len() == 11 && "running"@.len() == 7);
    assert(json.at("mode"@) == JsonModel::Text(mode_text(runtime.mode)));
    assert(json.at("trial"@) == trial);
    assert(json.at("training"@) == training);
    assert(json.has("exploration"@) == runtime.explorable());
    assert(trial_of(Some(trial)) == Some(
        (current(runtime, now).trial_ready, current(runtime, now).trial_needs_reset),
    ));
    assert(training_of(training) == Some((runtime.status(now), current(runtime, now).available)));
    assert(exploration_of(exploration) == Some(runtime.exploration));
}

/// The schema of no arguments.
pub open spec fn no_parameters() -> JsonModel {
    JsonModel::empty().with("type"@, JsonModel::Text("object"@)).with(
        "properties"@,
        JsonModel::empty(),
    ).with("additionalProperties"@, JsonModel::Bool(false))
}

fn make_no_parameters() -> (r: Json)
    ensures
        r@ == no_parameters(),
{
    let mut o: Json = Json::object();
    o.set("type", Json::text("object"));
    o.set("properties", Json::object());
    o.set("additionalProperties", Json::Bool(false));
    o
}

/// The schema of a mode.
pub open spec fn mode_parameters() -> JsonModel {
    JsonModel::empty().with("type"@, JsonModel::Text("object"@)).with(
        "properties"@,
        JsonModel::empty().with(
            "mode"@,
            JsonModel::empty().with("type"@, JsonModel::Text("string"@)).with(
                "enum"@,
                JsonModel::Array(
                    seq![JsonModel::Text("idle"@), JsonModel::Text("training"@)],
                ),
            ),
        ),
    ).with("required"@, JsonModel::Array(seq![JsonModel::Text("mode"@)])).with(
        "additionalProperties"@,
        JsonModel::Bool(false),
    )
}

fn make_mode_parameters() -> (r: Json)
    ensures
        r@ == mode_parameters(),
{
    let mut modes: Vec<Json> = Vec::new();
    modes.push(Json::text("idle"));
    modes.push(Json::text("training"));
    assert(modes.deep_view() =~= seq![JsonModel::Text("idle"@), JsonModel::Text("training"@)]);
    let mut required: Vec<Json> = Vec::new();
    required.push(Json::text("mode"));
    assert(required.deep_view() =~= seq![JsonModel::Text("mode"@)]);
    let mut mode: Json = Json::object();
    mode.set("type", Json::text("string"));
    mode.set("enum", Json::array(modes));
    let mut properties: Json = Json::object();
    properties.set("mode", mode);
    let mut o: Json = Json::object();
    o.set("type", Json::text("object"));
    o.set("properties", properties);
    o.set("required", Json::array(required));
    o.set("additionalProperties", Json::Bool(false));
    o
}

/// A call without arguments.
pub open spec fn bare_call(name: Text) -> ToolCallModel {
    ToolCallModel { name, arguments: JsonModel::empty() }
}

/// A skill without arguments.
pub open spec fn bare_skill(name: Text, description: Text, tags: Seq<Text>) -> SkillModel {
    SkillModel {
        name,
        description,
        repeatable: false,
        loopable: false,
        tags,
        availability: AvailabilityModel::Available,
        parameters: no_parameters(),
        calls: seq![bare_call(name)],
    }
}

/// A skill that can be used unless there is a reason against it.
pub open spec fn allowed(skill: SkillModel, reason: Option<Text>) -> SkillModel {
    match reason {
        Some(reason) => SkillModel {
            availability: AvailabilityModel::Unavailable { reason },
            ..skill
        },
        None => skill,
    }
}

fn empty_skill(name: &str, description: &str, tags: Vec<String>) -> (r: Skill)
    ensures
        r@ == bare_skill(name@, description@, tags.deep_view()),
{
    let mut calls: Vec<ToolCall> = Vec::new();
    calls.push(ToolCall { name: name.to_owned(), arguments: Json::object() });
    assert(calls.deep_view() =~= seq![bare_call(name@)]);
    Skill {
        name: name.to_owned(),
        repeatable: false,
        loopable: false,
        description: description.to_owned(),
        tags,
        availability: Availability::Available,
        parameters: make_no_parameters(),
        calls,
    }
}

fn allow(skill: Skill, reason: Option<&'static str>) -> (r: Skill)
    ensures
        r@ == allowed(skill@, reason.deep_view()),
{
    let mut skill = skill;
    if let Some(reason) = reason {
        skill.availability = Availability::Unavailable { reason: reason.to_owned() };
    }
    skill
}

fn pair(a: &str, b: &str) -> (r: Vec<String>)
    ensures
        r.deep_view() == seq![a@, b@],
{
    let mut tags: Vec<String> = Vec::new();
    tags.push(a.to_owned());
    tags.push(b.to_owned());
    assert(tags.deep_view() =~= seq![a@, b@]);
    tags
}

/// Why the mode cannot be changed.
pub open spec fn mode_reason(s: Snapshot) -> Option<Text> {
    if s.status == TrainingStatus::Running {
        Some("训练进行中，完成后才能切换模式。"@)
    } else {
        None
    }
}

fn find_mode_reason(s: &Snapshot) -> (r: Option<&'static str>)
    ensures
        r.deep_view() == mode_reason(*s),
{
    if s.status == TrainingStatus::Running {
        Some("训练进行中，完成后才能切换模式。")
    } else {
        None
    }
}

/// Why the training cannot be started.
pub open spec fn start_reason(s: Snapshot) -> Option<Text> {
    if !s.available {
        Some("训练服务永久不可用，当前工具无法恢复。"@)
    } else if s.status != TrainingStatus::NotStarted {
        Some("本次训练已启动或完成；请查询 get_training_status，不能重复启动。"@)
    } else if s.mode != Mode::Training {
        Some("需要先使用 set_mode 切换到 training 模式。"@)
    } else {
        None
    }
}

fn find_start_reason(s: &Snapshot) -> (r: Option<&'static str>)
    ensures
        r.deep_view() == start_reason(*s),
{
    if !s.available {
        Some("训练服务永久不可用，当前工具无法恢复。")
    } else if s.status != TrainingStatus::NotStarted {
        Some("本次训练已启动或完成；请查询 get_training_status，不能重复启动。")
    } else if s.mode != Mode::Training {
        Some("需要先使用 set_mode 切换到 training 模式。")
    } else {
        None
    }
}

/// Why no trial can be made.
pub open spec fn trial_reason(s: Snapshot) -> Option<Text> {
    if !s.trial_ready && s.trial_needs_reset {
        Some("需要先调用 reset_trial 复位，再恢复未完成批次。"@)
    } else if !s.trial_ready {
        Some("试验装置永久不可用。"@)
    } else {
        None
    }
}

fn find_trial_reason(s: &Snapshot) -> (r: Option<&'static str>)
    ensures
        r.deep_view() == trial_reason(*s),
{
    if !s.trial_ready && s.trial_needs_reset {
        Some("需要先调用 reset_trial 复位，再恢复未完成批次。")
    } else if !s.trial_ready {
        Some("试验装置永久不可用。")
    } else {
        None
    }
}

/// Why the trial device cannot be reset.
pub open spec fn trial_reset_reason(s: Snapshot) -> Option<Text> {
    if !s.trial_needs_reset {
        Some("试验装置不需要复位。"@)
    } else {
        None
    }
}

fn find_trial_reset_reason(s: &Snapshot) -> (r: Option<&'static str>)
    ensures
        r.deep_view() == trial_reset_reason(*s),
{
    if !s.trial_needs_reset {
        Some("试验装置不需要复位。")
    } else {
        None
    }
}

/// Why nothing can be explored.
pub open spec fn explore_reason(e: ExplorationSnapshot) -> Option<Text> {
    if e.needs_reset {
        Some("先调用 reset_exploration，然后恢复探索。"@)
    } else {
        None
    }
}

fn find_explore_reason(e: ExplorationSnapshot) -> (r: Option<&'static str>)
    ensures
        r.deep_view() == explore_reason(e),
{
    if e.needs_reset {
        Some("先调用 reset_exploration，然后恢复探索。")
    } else {
        None
    }
}

/// Why the exploration device cannot be reset.
pub open spec fn exploration_reset_reason(e: ExplorationSnapshot) -> Option<Text> {
    if !e.needs_reset {
        Some("探索设备不需要恢复。"@)
    } else {
        None
    }
}

fn find_exploration_reset_reason(e: ExplorationSnapshot) -> (r: Option<&'static str>)
    ensures
        r.deep_view() == exploration_reset_reason(e),
{
    if !e.needs_reset {
        Some("探索设备不需要恢复。")
    } else {
        None
    }
}

/// Changing the mode.
pub open spec fn mode_skill(s: Snapshot) -> SkillModel {
    allowed(
        SkillModel {
            name: "set_mode"@,
            description: "Set the program mode to idle or training."@,
            repeatable: false,
            loopable: false,
            tags: seq!["session"@, "write"@],
            availability: AvailabilityModel::Available,
            parameters: mode_parameters(),
            calls: seq![mode_call(Mode::Idle), mode_call(Mode::Training)],
        },
        mode_reason(s),
    )
}

/// A call that sets a mode.
pub open spec fn mode_call(mode: Mode) -> ToolCallModel {
    ToolCallModel {
        name: "set_mode"@,
        arguments: JsonModel::empty().with("mode"@, JsonModel::Text(mode_text(mode))),
    }
}

fn make_mode_call(mode: Mode) -> (r: ToolCall)
    ensures
        r@ == mode_call(mode),
{
    let mut arguments: Json = Json::object();
    arguments.set("mode", Json::text(mode_name(mode)));
    ToolCall { name: "set_mode".to_owned(), arguments }
}

fn make_mode_skill(s: &Snapshot) -> (r: Skill)
    ensures
        r@ == mode_skill(*s),
{
    let mut calls: Vec<ToolCall> = Vec::new();
    calls.push(make_mode_call(Mode::Idle));
    calls.push(make_mode_call(Mode::Training));
    assert(calls.deep_view() =~= seq![mode_call(Mode::Idle), mode_call(Mode::Training)]);
    allow(
        Skill {
            name: "set_mode".to_owned(),
            repeatable: false,
            loopable: false,
            tags: pair("session", "write"),
            availability: Availability::Available,
            description: "Set the program mode to idle or training.".to_owned(),
            parameters: make_mode_parameters(),
            calls,
        },
        find_mode_reason(s),
    )
}

/// Looking at the state.
pub open spec fn state_skill() -> SkillModel {
    bare_skill(
        "get_state"@,
        "Refresh the current program state."@,
        seq!["observation"@, "read"@],
    )
}

/// Starting the training.
pub open spec fn start_training_skill(s: Snapshot) -> SkillModel {
    allowed(
bare_skill(
"start_training"@,
"Start one training run. Requires mode=training, training.available=true and status=not_started. A transient busy error can be retried. Starting is not completion: inspect training.status until completed. Only one run is supported per program session."@,
seq!["training"@, "write"@],
),
start_reason(s),
)
}

fn make_start_training_skill(s: &Snapshot) -> (r: Skill)
    ensures
        r@ == start_training_skill(*s),
{
    let skill = empty_skill(
        "start_training",
        "Start one training run. Requires mode=training, training.available=true and status=not_started. A transient busy error can be retried. Starting is not completion: inspect training.status until completed. Only one run is supported per program session.",
        pair("training", "write"),
    );
    allow(skill, find_start_reason(s))
}

/// Looking at the training.
pub open spec fn get_training_status_skill() -> SkillModel {
    bare_skill(
"get_training_status"@,
"Read the training status without modifying it. A running training finishes after 500 ms of real elapsed time. After starting, use this tool to check completion. Repeatedly starting does not advance training."@,
seq!["training"@, "observation"@, "read"@],
)
}

fn make_get_training_status_skill() -> (r: Skill)
    ensures
        r@ == get_training_status_skill(),
{
    let mut tags = pair("training", "observation");
    let ghost two = tags.deep_view();
    tags.push("read".to_owned());
    assert(tags.deep_view() =~= two.push("read"@));
    assert(tags.deep_view() =~= seq!["training"@, "observation"@, "read"@]);
    let skill = empty_skill(
        "get_training_status",
        "Read the training status without modifying it. A running training finishes after 500 ms of real elapsed time. After starting, use this tool to check completion. Repeatedly starting does not advance training.",
        tags,
    );
    allow(skill, None)
}

/// Making a trial.
pub open spec fn perform_trial_skill(s: Snapshot) -> SkillModel {
    allowed(
SkillModel { repeatable: true, ..bare_skill(
"perform_trial"@,
"Complete one trial action. A normal miss still counts as one completed action. No preparation is required. An interrupted device needs reset_trial before further actions; reset preserves completed actions."@,
seq!["trial"@, "repeat"@],
) },
trial_reason(s),
)
}

fn make_perform_trial_skill(s: &Snapshot) -> (r: Skill)
    ensures
        r@ == perform_trial_skill(*s),
{
    let mut skill = empty_skill(
        "perform_trial",
        "Complete one trial action. A normal miss still counts as one completed action. No preparation is required. An interrupted device needs reset_trial before further actions; reset preserves completed actions.",
        pair("trial", "repeat"),
    );
    skill.repeatable = true;
    allow(skill, find_trial_reason(s))
}

/// Resetting the trial device.
pub open spec fn reset_trial_skill(s: Snapshot) -> SkillModel {
    allowed(
bare_skill(
"reset_trial"@,
"Reset an interrupted trial device. Preserves all completed actions; resume the pending batch afterward."@,
seq!["trial"@, "recovery"@],
),
trial_reset_reason(s),
)
}

fn make_reset_trial_skill(s: &Snapshot) -> (r: Skill)
    ensures
        r@ == reset_trial_skill(*s),
{
    let skill = empty_skill(
        "reset_trial",
        "Reset an interrupted trial device. Preserves all completed actions; resume the pending batch afterward.",
        pair("trial", "recovery"),
    );
    allow(skill, find_trial_reset_reason(s))
}

/// Exploring.
pub open spec fn explore_step_skill(e: ExplorationSnapshot) -> SkillModel {
    allowed(
SkillModel { loopable: true, ..bare_skill(
"explore_step"@,
"Discover and collect locally. Returns Continue after each step, Completed only when the adapter verifies exploration is finished. Item count is unknown to the caller. Use UntilDone; recover interruptions with reset_exploration then Resume."@,
seq!["exploration"@, "collection"@],
) },
explore_reason(e),
)
}

fn make_explore_step_skill(e: ExplorationSnapshot) -> (r: Skill)
    ensures
        r@ == explore_step_skill(e),
{
    let mut skill = empty_skill(
        "explore_step",
        "Discover and collect locally. Returns Continue after each step, Completed only when the adapter verifies exploration is finished. Item count is unknown to the caller. Use UntilDone; recover interruptions with reset_exploration then Resume.",
        pair("exploration", "collection"),
    );
    skill.loopable = true;
    allow(skill, find_explore_reason(e))
}

/// Resetting the exploration device.
pub open spec fn reset_exploration_skill(e: ExplorationSnapshot) -> SkillModel {
    allowed(
bare_skill(
"reset_exploration"@,
"Restore exploration without discarding collected items; resume the interrupted loop afterward."@,
seq!["exploration"@, "recovery"@],
),
exploration_reset_reason(e),
)
}

fn make_reset_exploration_skill(e: ExplorationSnapshot) -> (r: Skill)
    ensures
        r@ == reset_exploration_skill(e),
{
    let skill = empty_skill(
        "reset_exploration",
        "Restore exploration without discarding collected items; resume the interrupted loop afterward.",
        pair("exploration", "recovery"),
    );
    allow(skill, find_exploration_reset_reason(e))
}

/// The skills that the adapter offers.
pub open spec fn offered(s: Snapshot) -> Seq<SkillModel> {
    let common = seq![
        mode_skill(s),
        state_skill(),
        start_training_skill(s),
        get_training_status_skill(),
        perform_trial_skill(s),
        reset_trial_skill(s),
    ];
    match s.exploration {
        Some(e) => common + seq![explore_step_skill(e), reset_exploration_skill(e)],
        None => common,
    }
}

fn make_skills(s: &Snapshot) -> (r: Vec<Skill>)
    ensures
        r.deep_view() == offered(*s),
{
    let mut skills: Vec<Skill> = Vec::new();
    skills.push(make_mode_skill(s));
    skills.push(
        empty_skill(
            "get_state",
            "Refresh the current program state.",
            pair("observation", "read"),
        ),
    );
    skills.push(make_start_training_skill(s));
    skills.push(make_get_training_status_skill());
    skills.push(make_perform_trial_skill(s));
    skills.push(make_reset_trial_skill(s));
    if let Some(e) = s.exploration {
        skills.push(make_explore_step_skill(e));
        skills.push(make_reset_exploration_skill(e));
    }
    assert(skills.deep_view() =~= offered(*s));
    skills
}

/// Whether an unresolved interruption is that of a call.
pub open spec fn interrupted(context: SkillContextModel, name: Text) -> bool {
    context.interruption matches Some(failure) && failure.call matches Some(call) && call.name
        == name
}

fn is_interrupted(context: &SkillContext, name: &str) -> (r: bool)
    ensures
        r == interrupted(context@, name@),
{
    match context.interruption {
        Some(failure) => match &failure.call {
            Some(call) => text::same(call.name.as_str(), name),
            None => false,
        },
        None => false,
    }
}

/// Whether the state may be out of date.
pub open spec fn stale(context: SkillContextModel) -> bool {
    context.failure matches Some(failure) && failure.stage == FailureStage::Observation
}

fn is_stale(context: &SkillContext) -> (r: bool)
    ensures
        r == stale(context@),
{
    match context.failure {
        Some(failure) => failure.stage == FailureStage::Observation,
        None => false,
    }
}

/// Whether the last call was a start of the training that did not work.
pub open spec fn start_failed(context: SkillContextModel) -> bool {
    context.previous_result matches Some(result) && result.call.name == "start_training"@
        && !result.success
}

fn has_start_failed(context: &SkillContext) -> (r: bool)
    ensures
        r == start_failed(context@),
{
    match context.previous_result {
        Some(result) => text::same(result.call.name.as_str(), "start_training") && !result.success,
        None => false,
    }
}

/// What to know about the exploration.
pub open spec fn exploration_guidance(e: ExplorationSnapshot, context: SkillContextModel) -> Text {
    if e.needs_reset {
        "探索设备需要恢复：先使用 reset_exploration，保留已收集物品和未完成探索，不要重新开始。"@
    } else if interrupted(context, "explore_step"@) {
        "探索设备已可用，继续原先中断的探索，保留已有进度；修复成功不代表探索目标完成。"@
    } else if e.finished {
        "Adapter 已确认探索完成；若用户目标就是探索该区域，可以结束任务，不要再次探索。"@
    } else {
        "若任务要求探索全部物品，使用 explore_step 的本地循环。数量未知，由 Adapter 确认完成，不能凭一次收集或暂未发现物品就结束。"@
    }
}

fn find_exploration_guidance(e: ExplorationSnapshot, context: &SkillContext) -> (r: &'static str)
    ensures
        r@ == exploration_guidance(e, context@),
{
    if e.needs_reset {
        "探索设备需要恢复：先使用 reset_exploration，保留已收集物品和未完成探索，不要重新开始。"
    } else if is_interrupted(context, "explore_step") {
        "探索设备已可用，继续原先中断的探索，保留已有进度；修复成功不代表探索目标完成。"
    } else if e.finished {
        "Adapter 已确认探索完成；若用户目标就是探索该区域，可以结束任务，不要再次探索。"
    } else {
        "若任务要求探索全部物品，使用 explore_step 的本地循环。数量未知，由 Adapter 确认完成，不能凭一次收集或暂未发现物品就结束。"
    }
}

/// What to know about the trials and the training.
pub open spec fn training_guidance(s: Snapshot, context: SkillContextModel) -> Text {
    if s.trial_needs_reset {
        "试验设备需要 reset_trial；复位保留已完成次数，随后继续未完成的批次。"@
    } else if interrupted(context, "perform_trial"@) {
        "试验设备已可用，继续原批次剩余次数，不要重新下达完整次数。"@
    } else if !s.available {
        "训练服务永久不可用；若任务依赖训练，当前工具无法完成它，重复启动不会恢复服务。"@
    } else if s.status == TrainingStatus::Running {
        "训练已经启动但尚未完成；需要确认完成时查询 get_training_status，不要再次启动。"@
    } else if s.status == TrainingStatus::Completed {
        "训练已经确认完成；若用户目标已满足，可以结束任务，不要重新启动训练。"@
    } else if s.mode != Mode::Training {
        "若任务需要训练，先用 set_mode 切换到 training，再启动；切换模式不等于完成训练。"@
    } else if start_failed(context) {
        "上次启动未成功，当前仍未启动训练且前置条件已满足；可以继续原中断步骤或重试启动，不要误判训练正在进行。"@
    } else {
        "训练前置条件已满足；若任务需要训练，可以启动，启动后仍需确认训练完成。"@
    }
}

fn find_training_guidance(s: &Snapshot, context: &SkillContext) -> (r: &'static str)
    ensures
        r@ == training_guidance(*s, context@),
{
    if s.trial_needs_reset {
        "试验设备需要 reset_trial；复位保留已完成次数，随后继续未完成的批次。"
    } else if is_interrupted(context, "perform_trial") {
        "试验设备已可用，继续原批次剩余次数，不要重新下达完整次数。"
    } else if !s.available {
        "训练服务永久不可用；若任务依赖训练，当前工具无法完成它，重复启动不会恢复服务。"
    } else if s.status == TrainingStatus::Running {
        "训练已经启动但尚未完成；需要确认完成时查询 get_training_status，不要再次启动。"
    } else if s.status == TrainingStatus::Completed {
        "训练已经确认完成；若用户目标已满足，可以结束任务，不要重新启动训练。"
    } else if s.mode != Mode::Training {
        "若任务需要训练，先用 set_mode 切换到 training，再启动；切换模式不等于完成训练。"
    } else if has_start_failed(context) {
        "上次启动未成功，当前仍未启动训练且前置条件已满足；可以继续原中断步骤或重试启动，不要误判训练正在进行。"
    } else {
        "训练前置条件已满足；若任务需要训练，可以启动，启动后仍需确认训练完成。"
    }
}

/// What to know before the next decision.
pub open spec fn guidance(s: Snapshot, context: SkillContextModel) -> Text {
    if stale(context) {
        "最近一次观察失败，当前状态可能过期。先恢复观察；工具已经确认完成的动作不能重做，不能把观察失败当作动作失败。"@
    } else {
        match s.exploration {
            Some(e) => exploration_guidance(e, context),
            None => training_guidance(s, context),
        }
    }
}

fn find_guidance(s: &Snapshot, context: &SkillContext) -> (r: &'static str)
    ensures
        r@ == guidance(*s, context@),
{
    if is_stale(context) {
        "最近一次观察失败，当前状态可能过期。先恢复观察；工具已经确认完成的动作不能重做，不能把观察失败当作动作失败。"
    } else {
        match s.exploration {
            Some(e) => find_exploration_guidance(e, context),
            None => find_training_guidance(s, context),
        }
    }
}

/// Malformed facts are an error, no assumed availability. It shows what the host's reader says
/// of them.
pub open spec fn malformed(remark: Text) -> AdapterErrorModel {
    AdapterErrorModel::Invalid("invalid demo state in skill context: "@ + remark)
}

/// The decision material for a context, or an error with what the host's reader says of facts
/// that are none of this program.
pub open spec fn material(context: SkillContextModel, remark: Text) -> Result<
    DecisionContextModel,
    AdapterErrorModel,
> {
    match snapshot_of(context.state.facts) {
        Some(s) => Ok(
            DecisionContextModel { skills: offered(s), guidance: guidance(s, context) },
        ),
        None => Err(malformed(remark)),
    }
}

/// The one feature: trials, repeated.
pub open spec fn trial_feature() -> FeatureModel {
    FeatureModel {
        id: "repeat_trial"@,
        name: "重复试验"@,
        description: "执行指定次数的试验；没有收益也算完成一次。"@,
        parameters: seq![
            ParameterModel {
                id: "times"@,
                name: "次数"@,
                kind: ParameterKindModel::Integer { min: 1, max: 100 },
                default: Some(JsonModel::Unsigned(10)),
            },
        ],
    }
}

/// What is executed for a feature.
pub open spec fn prepared(id: Text, arguments: JsonModel) -> Result<
    ExecutionRequestModel,
    AdapterErrorModel,
> {
    if id != "repeat_trial"@ {
        Err(AdapterErrorModel::Invalid("unknown feature: "@ + id))
    } else {
        match trial_feature().resolution(arguments) {
            Err(error) => Err(error),
            Ok(resolved) => match resolved.at("times"@) {
                JsonModel::Unsigned(times) => Ok(
                    ExecutionRequestModel {
                        actions: seq![
                            ActionModel::Repeat(
                                RepeatRequestModel {
                                    call: bare_call("perform_trial"@),
                                    times: times as u32,
                                },
                            ),
                        ],
                    },
                ),
                _ => Err(AdapterErrorModel::Invalid("missing times"@)),
            },
        }
    }
}

/// What comes of a call: a report, or the trial flow has to be run first.
#[verifier::ext_equal]
pub enum ExecutionModel {
    Report(ActionReportModel),
    Trial,
}

/// What comes of a call: a report, or the trial flow has to be run first.
#[derive(Debug)]
pub enum Execution {
    Report(ActionReport),
    Trial,
}

impl View for Execution {
    type V = ExecutionModel;

    open spec fn view(&self) -> ExecutionModel {
        match self {
            Execution::Report(report) => ExecutionModel::Report(report@),
            Execution::Trial => ExecutionModel::Trial,
        }
    }
}

/// An action that is done.
pub open spec fn done(message: Text, successful: bool) -> ExecutionModel {
    ExecutionModel::Report(
        ActionReportModel { outcome: ActionOutcome::Completed { successful }, message },
    )
}

fn make_done(message: &str) -> (r: Execution)
    ensures
        r@ == done(message@, true),
{
    Execution::Report(ActionReport::completed(message.to_owned(), true))
}

/// Arguments where none are expected.
pub open spec fn unexpected(name: Text) -> AdapterErrorModel {
    AdapterErrorModel::Invalid(name + " expects {}"@)
}

fn no_args(call: &ToolCall) -> (r: Result<(), AdapterError>)
    ensures
        match r {
            Ok(()) => call@.arguments == JsonModel::empty(),
            Err(error) => call@.arguments != JsonModel::empty() && error@ == unexpected(
                call@.name,
            ),
        },
{
    if call.arguments.is_empty_object() {
        Ok(())
    } else {
        Err(AdapterError::Invalid(text::cat2(call.name.as_str(), " expects {}")))
    }
}

/// The mode that arguments ask for: a record of that alone.
pub open spec fn asked_mode(arguments: JsonModel) -> Option<Mode> {
    match arguments {
        JsonModel::Object(members) => if members.dom().len() == 1 && arguments.has("mode"@) {
            mode_of(arguments.at("mode"@))
        } else {
            None
        },
        JsonModel::Array(items) => if items.len() == 1 {
            mode_of(items[0])
        } else {
            None
        },
        _ => None,
    }
}

fn read_asked_mode(arguments: &Json) -> (r: Option<Mode>)
    ensures
        r == asked_mode(arguments@),
{
    match arguments {
        Json::Object(_) => if arguments.size() == 1 {
            match arguments.get("mode") {
                Some(mode) => read_mode(mode),
                None => None,
            }
        } else {
            None
        },
        Json::Array(items) => if items.len() == 1 {
            read_mode(&items[0])
        } else {
            None
        },
        _ => None,
    }
}

/// What the program answers, as an adapter's answer.
pub open spec fn answered(
    result: (DemoRuntime, Result<(), RuntimeError>),
    message: Text,
) -> (DemoRuntime, Result<ExecutionModel, AdapterErrorModel>) {
    let (runtime, result) = result;
    match result {
        Ok(()) => (runtime, Ok(done(message, true))),
        Err(error) => (runtime, Err(AdapterErrorModel::Runtime(feedback(error)))),
    }
}

/// One step of exploration.
pub open spec fn explored(runtime: DemoRuntime) -> (
    DemoRuntime,
    Result<ExecutionModel, AdapterErrorModel>,
) {
    let (next, result) = runtime.explored();
    match result {
        Ok(true) => (
            next,
            Ok(
                ExecutionModel::Report(
                    ActionReportModel {
                        outcome: ActionOutcome::Completed { successful: false },
                        message: "已确认探索完成。"@,
                    },
                ),
            ),
        ),
        Ok(false) => (
            next,
            Ok(
                ExecutionModel::Report(
                    ActionReportModel {
                        outcome: ActionOutcome::Continue { successful: true },
                        message: "已收集一个物品，继续探索。"@,
                    },
                ),
            ),
        ),
        Err(RuntimeError::ExplorationNeedsReset) => (
            next,
            Ok(
                ExecutionModel::Report(
                    ActionReportModel {
                        outcome: ActionOutcome::Interrupted,
                        message: "探索设备中断，调用 reset_exploration 后恢复，已收集物品保留。"@,
                    },
                ),
            ),
        ),
        Err(error) => (next, Err(AdapterErrorModel::Runtime(feedback(error)))),
    }
}

/// A restored exploration device.
pub open spec fn reset_explored(runtime: DemoRuntime) -> (DemoRuntime, Result<(), RuntimeError>) {
    if runtime.exploration.needs_reset {
        (
            DemoRuntime {
                exploration: ExplorationSnapshot { needs_reset: false, ..runtime.exploration },
                ..runtime
            },
            Ok(()),
        )
    } else {
        (runtime, Err(RuntimeError::Unavailable))
    }
}

/// The trial flow is run only on a device that is ready.
pub open spec fn trial_gate(runtime: DemoRuntime) -> Result<ExecutionModel, AdapterErrorModel> {
    if runtime.trial_needs_reset {
        Err(AdapterErrorModel::Runtime(feedback(RuntimeError::TrialNeedsReset)))
    } else if runtime.scenario == Scenario::BatchBlocked {
        Err(AdapterErrorModel::Runtime(feedback(RuntimeError::TrialUnavailable)))
    } else {
        Ok(ExecutionModel::Trial)
    }
}

/// The names of the calls that take no arguments.
pub open spec fn bare(name: Text) -> bool {
    ||| name == "explore_step"@
    ||| name == "reset_exploration"@
    ||| name == "get_state"@
    ||| name == "perform_trial"@
    ||| name == "reset_trial"@
    ||| name == "start_training"@
    ||| name == "get_training_status"@
}

/// What a call does to the program, and what comes of it. An error about arguments that ask for
/// no mode is what the host's reader says of them.
pub open spec fn executed(
    runtime: DemoRuntime,
    call: ToolCallModel,
    remark: Text,
    now: Nanos,
) -> (
    DemoRuntime,
    Result<ExecutionModel, AdapterErrorModel>,
) {
    if bare(call.name) && call.arguments != JsonModel::empty() {
        (runtime, Err(unexpected(call.name)))
    } else if call.name == "explore_step"@ {
        explored(runtime)
    } else if call.name == "reset_exploration"@ {
        answered(reset_explored(runtime), "探索设备已恢复，保留已收集物品。"@)
    } else if call.name == "get_state"@ {
        (runtime, Ok(done("observation requested"@, true)))
    } else if call.name == "set_mode"@ {
        match asked_mode(call.arguments) {
            Some(mode) => answered(runtime.moded(mode, now), "mode updated"@),
            None => (runtime, Err(AdapterErrorModel::Invalid(remark))),
        }
    } else if call.name == "perform_trial"@ {
        (runtime, trial_gate(runtime))
    } else if call.name == "reset_trial"@ {
        (
            DemoRuntime { trial_needs_reset: false, ..runtime },
            Ok(done("试验装置已复位，保留原有进度。"@, true)),
        )
    } else if call.name == "start_training"@ {
        answered(runtime.started(now), "训练已启动，尚未确认完成；请查询训练状态。"@)
    } else if call.name == "get_training_status"@ {
        (
            runtime,
            Ok(
                done(
                    printed(
                        JsonModel::empty().with(
                            "training_status"@,
                            JsonModel::Text(status_text(runtime.status(now))),
                        ),
                    ),
                    true,
                ),
            ),
        )
    } else {
        (runtime, Err(AdapterErrorModel::Invalid("unknown skill"@)))
    }
}

/// The adapter over the program.
#[derive(Debug)]
pub struct DemoAdapter {
    pub runtime: DemoRuntime,
}

impl View for DemoAdapter {
    type V = DemoRuntime;

    open spec fn view(&self) -> DemoRuntime {
        self.runtime
    }
}

/// Adds the adapter to those that a host can make.
pub fn register(registry: &mut Registry) -> (r: Result<(), AdapterError>)
    ensures
        text::ordered(old(registry)@) ==> text::ordered(final(registry)@),
        match r {
            Ok(()) => !old(registry)@.contains("demo"@) && final(registry)@ == text::placed(
                old(registry)@,
                "demo"@,
            ),
            Err(error) => old(registry)@.contains("demo"@) && final(registry)@ == old(registry)@
                && error@ == refused("demo"@),
        },
{
    proof {
        reveal_strlit("demo");
        assert(!text::white("demo"@[0]));
    }
    registry.register("demo")
}

fn give_answer(result: Result<(), RuntimeError>, message: &str) -> (r: Result<
    Execution,
    AdapterError,
>)
    ensures
        match (result, r) {
            (Ok(()), Ok(execution)) => execution@ == done(message@, true),
            (Err(error), Err(given)) => given@ == AdapterErrorModel::Runtime(feedback(error)),
            _ => false,
        },
{
    match result {
        Ok(()) => Ok(make_done(message)),
        Err(error) => Err(runtime_error(error)),
    }
}

/// Whether an answer is the one that is owed.
pub open spec fn gives(
    r: Result<Execution, AdapterError>,
    owed: Result<ExecutionModel, AdapterErrorModel>,
) -> bool {
    match (r, owed) {
        (Ok(execution), Ok(model)) => execution@ == model,
        (Err(error), Err(model)) => error@ == model,
        _ => false,
    }
}

impl DemoAdapter {
    /// An adapter over a program that has done nothing yet.
    pub fn new(scenario: Scenario) -> (r: Self)
        ensures
            r@ == DemoRuntime::fresh(scenario),
            r@.wf(),
    {
        DemoAdapter { runtime: DemoRuntime::new(scenario) }
    }

    /// An adapter that a host makes hears of.
    pub fn load(scenario: Scenario, host: &mut Host) -> (r: Self)
        ensures
            r@ == DemoRuntime::fresh(scenario),
            r@.wf(),
            final(host)@ == old(host)@.push("Demo Adapter 已加载"@),
    {
        host.info("Demo Adapter 已加载");
        DemoAdapter::new(scenario)
    }

    /// What can be done without a decision provider.
    pub fn features(&self) -> (r: Vec<Feature>)
        ensures
            r.deep_view() == seq![trial_feature()],
    {
        let mut parameters: Vec<Parameter> = Vec::new();
        parameters.push(
            Parameter {
                id: "times".to_owned(),
                name: "次数".to_owned(),
                kind: ParameterKind::Integer { min: 1, max: 100 },
                default: Some(Json::Unsigned(10)),
            },
        );
        assert(parameters.deep_view() =~= trial_feature().parameters);
        let mut features: Vec<Feature> = Vec::new();
        features.push(
            Feature {
                id: "repeat_trial".to_owned(),
                name: "重复试验".to_owned(),
                description: "执行指定次数的试验；没有收益也算完成一次。".to_owned(),
                parameters,
            },
        );
        assert(features.deep_view() =~= seq![trial_feature()]);
        features
    }

    /// What is executed for a feature.
    pub fn prepare_feature(&self, id: &str, arguments: &Json) -> (r: Result<
        ExecutionRequest,
        AdapterError,
    >)
        ensures
            match r {
                Ok(request) => prepared(id@, arguments@) == Ok::<
                    ExecutionRequestModel,
                    AdapterErrorModel,
                >(request@),
                Err(error) => prepared(id@, arguments@) == Err::<
                    ExecutionRequestModel,
                    AdapterErrorModel,
                >(error@),
            },
    {
        if !text::same(id, "repeat_trial") {
            return Err(AdapterError::Invalid(text::cat2("unknown feature: ", id)));
        }
        let features = self.features();
        assert(features@.len() == features.deep_view().len());
        assert(features.deep_view()[0] == features@[0]@);
        let resolved = match features[0].resolve(arguments) {
            Ok(resolved) => resolved,
            Err(error) => {
                return Err(error);
            },
        };
        let given: Option<u64> = match resolved.get("times") {
            Some(value) => value.as_u64(),
            None => None,
        };
        let times: u64 = match given {
            Some(times) => times,
            None => {
                return Err(AdapterError::Invalid("missing times".to_owned()));
            },
        };
        let mut actions: Vec<Action> = Vec::new();
        actions.push(
            Action::Repeat(
                RepeatRequest {
                    call: ToolCall {
                        name: "perform_trial".to_owned(),
                        arguments: Json::object(),
                    },
                    times: #[verifier::truncate]
                    (times as u32),
                },
            ),
        );
        let request = ExecutionRequest { actions };
        assert(request@.actions =~= prepared(id@, arguments@)->Ok_0.actions);
        Ok(request)
    }

    /// The state of the program. Looking at it changes nothing.
    pub fn observe(&self, now: Nanos) -> (r: AppState)
        ensures
            r@ == (AppStateModel { scene: "demo program"@, facts: facts(self@, now) }),
    {
        let mut facts: Json = Json::object();
        facts.set("mode", Json::text(mode_name(self.runtime.mode())));
        facts.set("trial", trial_to_json(&self.runtime));
        facts.set("training", training_to_json(&self.runtime, now));
        if let Some(exploration) = self.runtime.exploration_snapshot() {
            facts.set("exploration", exploration_to_json(exploration));
        }
        AppState { scene: "demo program".to_owned(), facts }
    }

    /// The decision material for a context. It rests on the facts of the context alone, never
    /// on what the program has become since. The remark is what the host's reader says of facts
    /// that it cannot read.
    pub fn decision_context(&self, context: &SkillContext, remark: &str) -> (r: Result<
        DecisionContext,
        AdapterError,
    >)
        ensures
            match r {
                Ok(given) => material(context@, remark@) == Ok::<
                    DecisionContextModel,
                    AdapterErrorModel,
                >(given@),
                Err(error) => material(context@, remark@) == Err::<
                    DecisionContextModel,
                    AdapterErrorModel,
                >(error@),
            },
    {
        let s = match Snapshot::read(&context.state.facts) {
            Some(s) => s,
            None => {
                return Err(
                    AdapterError::Invalid(
                        text::cat2("invalid demo state in skill context: ", remark),
                    ),
                );
            },
        };
        Ok(
            DecisionContext {
                skills: make_skills(&s),
                guidance: find_guidance(&s, context).to_owned(),
            },
        )
    }

    fn explore(&mut self) -> (r: Result<Execution, AdapterError>)
        requires
            old(self)@.wf(),
        ensures
            final(self)@.wf(),
            final(self)@ == explored(old(self)@).0,
            gives(r, explored(old(self)@).1),
    {
        let (outcome, message) = match self.runtime.explore_step() {
            Ok(true) => (ActionOutcome::Completed { successful: false }, "已确认探索完成。"),
            Ok(false) => (
                ActionOutcome::Continue { successful: true },
                "已收集一个物品，继续探索。",
            ),
            Err(RuntimeError::ExplorationNeedsReset) => (
                ActionOutcome::Interrupted,
                "探索设备中断，调用 reset_exploration 后恢复，已收集物品保留。",
            ),
            Err(error) => {
                return Err(runtime_error(error));
            },
        };
        Ok(Execution::Report(ActionReport { outcome, message: message.to_owned() }))
    }

    fn gate_trial(&self) -> (r: Result<Execution, AdapterError>)
        ensures
            gives(r, trial_gate(self@)),
    {
        let (_, _, ready, needs_reset): (u32, u32, bool, bool) = self.runtime.trial_snapshot();
        if ready {
            Ok(Execution::Trial)
        } else if needs_reset {
            Err(runtime_error(RuntimeError::TrialNeedsReset))
        } else {
            Err(runtime_error(RuntimeError::TrialUnavailable))
        }
    }

    fn report_training(&self, now: Nanos) -> (r: Execution)
        ensures
            r@ == done(
                printed(
                    JsonModel::empty().with(
                        "training_status"@,
                        JsonModel::Text(status_text(self@.status(now))),
                    ),
                ),
                true,
            ),
    {
        let mut o: Json = Json::object();
        o.set("training_status", Json::text(status_name(self.runtime.training_status(now))));
        Execution::Report(ActionReport::completed(o.to_text(), true))
    }

    /// Performs a call, unless its control forbids it. The remark is what the host's reader says
    /// of arguments that it cannot read.
    pub fn execute(
        &mut self,
        call: &ToolCall,
        control: &ExecutionControl,
        remark: &str,
        now: Nanos,
    ) -> (r: Result<Execution, AdapterError>)
        requires
            old(self)@.wf(),
        ensures
            final(self)@.wf(),
            match control_error(control.cancellation@, control.deadline, now) {
                Some(error) => final(self)@ == old(self)@ && gives(r, Err(error)),
                None => final(self)@ == executed(old(self)@, call@, remark@, now).0 && gives(
                    r,
                    executed(old(self)@, call@, remark@, now).1,
                ),
            },
    {
        match control.check(now) {
            Ok(()) => {},
            Err(error) => {
                return Err(error);
            },
        }
        let name = call.name.as_str();
        if text::same(name, "set_mode") {
            proof {
                lemma_set_mode_is_not_bare();
            }
            return match read_asked_mode(&call.arguments) {
                Some(mode) => give_answer(self.runtime.set_mode(mode, now), "mode updated"),
                None => Err(AdapterError::Invalid(remark.to_owned())),
            };
        }
        let known = text::same(name, "explore_step") || text::same(name, "reset_exploration")
            || text::same(name, "get_state") || text::same(name, "perform_trial") || text::same(
            name,
            "reset_trial",
        ) || text::same(name, "start_training") || text::same(name, "get_training_status");
        if !known {
            return Err(AdapterError::Invalid("unknown skill".to_owned()));
        }
        match no_args(call) {
            Ok(()) => {},
            Err(error) => {
                return Err(error);
            },
        }
        if text::same(name, "explore_step") {
            self.explore()
        } else if text::same(name, "reset_exploration") {
            give_answer(
                self.runtime.reset_exploration(),
                "探索设备已恢复，保留已收集物品。",
            )
        } else if text::same(name, "get_state") {
            Ok(make_done("observation requested"))
        } else if text::same(name, "perform_trial") {
            self.gate_trial()
        } else if text::same(name, "reset_trial") {
            self.runtime.reset_trial();
            Ok(make_done("试验装置已复位，保留原有进度。"))
        } else if text::same(name, "start_training") {
            give_answer(
                self.runtime.start_training(now),
                "训练已启动，尚未确认完成；请查询训练状态。",
            )
        } else {
            Ok(self.report_training(now))
        }
    }
}

proof fn lemma_set_mode_is_not_bare()
    ensures
        !bare("set_mode"@),
{
    reveal_strlit("set_mode");
    reveal_strlit("explore_step");
    reveal_strlit("reset_exploration");
    reveal_strlit("get_state");
    reveal_strlit("perform_trial");
    reveal_strlit("reset_trial");
    reveal_strlit("start_training");
    reveal_strlit("get_training_status");
    assert("set_mode"@.len() == 8);
}

/// A skill that the adapter offers as available on the state of the program is one that the
/// program does not refuse for its state: the training starts or is busy, the mode changes, the
/// devices work or are reset.
pub proof fn available_skills_work(runtime: DemoRuntime, now: Nanos)
    requires
        runtime.wf(),
    ensures
        start_reason(current(runtime, now)) is None ==> (runtime.started(now).1 is Ok
            || runtime.started(now).1 == Err::<(), RuntimeError>(RuntimeError::Busy)),
        forall|mode: Mode|
            mode_reason(current(runtime, now)) is None ==> #[trigger] runtime.moded(
                mode,
                now,
            ).1 is Ok,
        trial_reason(current(runtime, now)) is None ==> trial_gate(runtime) is Ok,
        current(runtime, now).exploration matches Some(e) && exploration_reset_reason(e) is None
            ==> reset_explored(runtime).1 is Ok,
{
}

/// A start of the training that the adapter offers as unavailable is refused by the program as
/// well: an old offer is no authorization.
pub proof fn unavailable_starts_fail(runtime: DemoRuntime, now: Nanos)
    requires
        start_reason(current(runtime, now)) is Some,
    ensures
        runtime.started(now).1 is Err,
        runtime.started(now).0 == runtime,
{
}

} // verus!
