//! What the adapter of the program in memory offers, and what its calls do.
use crate::api::{
    ActionModel, ActionOutcome, AdapterErrorModel, FailureStage, RepeatRequestModel,
    SkillContextModel, SkillModel, ToolCallModel,
};
use crate::clock::Nanos;
use crate::demo::{
    asked_mode, executed, exploration_guidance, facts, feedback, guidance, offered, prepared,
    snapshot_of, training_guidance, trial_feature, ExecutionModel, Snapshot,
};
use crate::demo_runtime::{
    DemoRuntime, ExplorationSnapshot, Mode, RuntimeError, Scenario, TrainingStatus,
};
use crate::feature::{arguments_are_completed, well_made, well_made_features_have_no_flaw};
use crate::json::JsonModel;
use crate::text;
use crate::text::Text;
use vstd::prelude::*;

verus! {

/// The call of a name without arguments.
pub open spec fn plain_call(name: Text) -> ToolCallModel {
    ToolCallModel { name, arguments: JsonModel::Object(Map::empty()) }
}

/// Whether a skill suggests exactly the call of its name without arguments.
pub open spec fn suggests_itself(skill: SkillModel) -> bool {
    skill.calls == seq![plain_call(skill.name)]
}

proof fn lemma_names()
    ensures
        "set_mode"@.len() == 8,
        "get_state"@.len() == 9,
        "start_training"@.len() == 14,
        "get_training_status"@.len() == 19,
        "perform_trial"@.len() == 13,
        "reset_trial"@.len() == 11,
        "explore_step"@.len() == 12,
        "reset_exploration"@.len() == 17,
{
    reveal_strlit("set_mode");
    reveal_strlit("get_state");
    reveal_strlit("start_training");
    reveal_strlit("get_training_status");
    reveal_strlit("perform_trial");
    reveal_strlit("reset_trial");
    reveal_strlit("explore_step");
    reveal_strlit("reset_exploration");
}

/// The skills are always offered in the same order, and what can be used now follows from the
/// state: the mode unless a training runs, a training that can still be started in its mode, a
/// trial on a device that is ready, an exploration that is not broken, and resets where they are
/// needed. Only trials are repeated, and only an exploration goes on until it is done.
pub proof fn skills_are_offered_by_state(s: Snapshot)
    ensures
        ({
            let skills = offered(s);
            &&& skills.len() == if s.exploration is Some {
                8nat
            } else {
                6nat
            }
            &&& skills[0].name == "set_mode"@
            &&& skills[1].name == "get_state"@
            &&& skills[2].name == "start_training"@
            &&& skills[3].name == "get_training_status"@
            &&& skills[4].name == "perform_trial"@
            &&& skills[5].name == "reset_trial"@
            &&& skills[0].availability is Available <==> s.status != TrainingStatus::Running
            &&& skills[1].availability is Available
            &&& skills[2].availability is Available <==> s.available && s.status
                == TrainingStatus::NotStarted && s.mode == Mode::Training
            &&& skills[3].availability is Available
            &&& skills[4].availability is Available <==> s.trial_ready
            &&& skills[5].availability is Available <==> s.trial_needs_reset
            &&& s.exploration matches Some(e) ==> {
                &&& skills[6].name == "explore_step"@
                &&& skills[7].name == "reset_exploration"@
                &&& skills[6].availability is Available <==> !e.needs_reset
                &&& skills[7].availability is Available <==> e.needs_reset
            }
            &&& forall|i: int|
                0 <= i < skills.len() ==> (#[trigger] skills[i]).repeatable == (i == 4)
                    && skills[i].loopable == (i == 6)
            &&& forall|i: int|
                1 <= i < skills.len() ==> #[trigger] suggests_itself(skills[i])
            &&& skills[0].calls.len() == 2
            &&& forall|c: int|
                0 <= c < 2 ==> (#[trigger] skills[0].calls[c]).name == "set_mode"@
            &&& asked_mode(skills[0].calls[0].arguments) == Some(Mode::Idle)
            &&& asked_mode(skills[0].calls[1].arguments) == Some(Mode::Training)
        }),
{
    lemma_modes();
    let skills = offered(s);
    assert forall|i: int| 1 <= i < skills.len() implies #[trigger] suggests_itself(skills[i]) by {
        assert(skills[i].calls =~= seq![plain_call(skills[i].name)]);
    }
}

proof fn lemma_modes()
    ensures
        asked_mode(crate::demo::mode_call(Mode::Idle).arguments) == Some(Mode::Idle),
        asked_mode(crate::demo::mode_call(Mode::Training).arguments) == Some(Mode::Training),
{
    reveal_strlit("idle");
    reveal_strlit("training");
    assert("idle"@.len() == 4 && "training"@.len() == 8);
    let idle = crate::demo::mode_call(Mode::Idle).arguments->Object_0;
    let training = crate::demo::mode_call(Mode::Training).arguments->Object_0;
    assert(idle.dom() =~= set!["mode"@]);
    assert(training.dom() =~= set!["mode"@]);
}

/// A call that sets a mode sets it, unless the program refuses; a start starts the training, and
/// neither does anything else.
pub proof fn modes_and_trainings_are_called(
    runtime: DemoRuntime,
    call: ToolCallModel,
    remark: Text,
    now: Nanos,
)
    ensures
        call.name == "set_mode"@ ==> match asked_mode(call.arguments) {
            Some(mode) => {
                let (after, result) = executed(runtime, call, remark, now);
                &&& after == runtime.moded(mode, now).0
                &&& result is Ok <==> runtime.moded(mode, now).1 is Ok
                &&& result matches Ok(ExecutionModel::Report(report)) ==> report.outcome
                    == (ActionOutcome::Completed { successful: true })
                &&& result is Err ==> result->Err_0 is Runtime
            },
            None => executed(runtime, call, remark, now) == (
                runtime,
                Err::<ExecutionModel, AdapterErrorModel>(AdapterErrorModel::Invalid(remark)),
            ),
        },
        call == plain_call("start_training"@) ==> {
            let (after, result) = executed(runtime, call, remark, now);
            &&& after == runtime.started(now).0
            &&& result is Ok <==> runtime.started(now).1 is Ok
            &&& result matches Ok(ExecutionModel::Report(report)) ==> report.outcome
                == (ActionOutcome::Completed { successful: true })
            &&& result is Err ==> result->Err_0 is Runtime
        },
{
    lemma_names();
}

/// Calls that only look change nothing; a reset makes the trial device ready again and keeps what
/// was counted; a trial is made only on a device that is ready.
pub proof fn looks_and_trials_are_called(
    runtime: DemoRuntime,
    call: ToolCallModel,
    remark: Text,
    now: Nanos,
)
    ensures
        call == plain_call("get_state"@) || call == plain_call("get_training_status"@) ==> executed(
            runtime,
            call,
            remark,
            now,
        ).0 == runtime && (executed(runtime, call, remark, now).1 matches Ok(
            ExecutionModel::Report(report),
        ) && report.outcome == (ActionOutcome::Completed { successful: true })),
        call == plain_call("reset_trial"@) ==> {
            let (after, result) = executed(runtime, call, remark, now);
            &&& result is Ok
            &&& after == (DemoRuntime { trial_needs_reset: false, ..runtime })
        },
        call == plain_call("perform_trial"@) ==> {
            let (after, result) = executed(runtime, call, remark, now);
            &&& after == runtime
            &&& result == Ok::<ExecutionModel, AdapterErrorModel>(ExecutionModel::Trial)
                <==> !runtime.trial_needs_reset && runtime.scenario != Scenario::BatchBlocked
            &&& result is Ok ==> result->Ok_0 is Trial
            &&& result is Err ==> result->Err_0 is Runtime
        },
{
    lemma_names();
}

/// A step of the exploration is reported as what it was: one that collects something goes on, one
/// that finds everything collected completes, and one that breaks the device is interrupted. A
/// reset keeps what was collected.
pub proof fn explorations_are_called(
    runtime: DemoRuntime,
    call: ToolCallModel,
    remark: Text,
    now: Nanos,
)
    ensures
        call == plain_call("explore_step"@) ==> {
            let (after, result) = executed(runtime, call, remark, now);
            &&& after == runtime.explored().0
            &&& match runtime.explored().1 {
                Ok(true) => result matches Ok(ExecutionModel::Report(report)) && report.outcome
                    is Completed,
                Ok(false) => result matches Ok(ExecutionModel::Report(report)) && report.outcome
                    == (ActionOutcome::Continue { successful: true }),
                Err(RuntimeError::ExplorationNeedsReset) => result matches Ok(
                    ExecutionModel::Report(report),
                ) && report.outcome is Interrupted,
                Err(_) => result is Err,
            }
        },
        call == plain_call("reset_exploration"@) ==> {
            let (after, result) = executed(runtime, call, remark, now);
            &&& result is Ok <==> runtime.exploration.needs_reset
            &&& !after.exploration.needs_reset
            &&& after.exploration.collected == runtime.exploration.collected
            &&& after.exploration.finished == runtime.exploration.finished
        },
{
    lemma_names();
}

/// A call of another name, or with arguments where none are expected, does nothing and is refused.
pub proof fn other_calls_are_refused(
    runtime: DemoRuntime,
    call: ToolCallModel,
    remark: Text,
    now: Nanos,
)
    requires
        call.name != "set_mode"@,
        ({
            ||| call.arguments != JsonModel::Object(Map::empty())
            ||| {
                &&& call.name != "get_state"@
                &&& call.name != "start_training"@
                &&& call.name != "get_training_status"@
                &&& call.name != "perform_trial"@
                &&& call.name != "reset_trial"@
                &&& call.name != "explore_step"@
                &&& call.name != "reset_exploration"@
            }
        }),
    ensures
        executed(runtime, call, remark, now).0 == runtime,
        executed(runtime, call, remark, now).1 is Err,
        executed(runtime, call, remark, now).1->Err_0 is Invalid,
{
}

/// The feature repeats a trial as often as it is asked to, from once to a hundred times, and ten
/// times where nothing is asked for. Nothing else is a feature.
pub proof fn trials_are_repeated_as_asked(times: u64, id: Text, arguments: JsonModel)
    ensures
        ({
            let asked = JsonModel::Object(map!["times"@ => JsonModel::Unsigned(times)]);
            let none = JsonModel::Object(Map::empty());
            let repeated = |n: u32|
                seq![
                    ActionModel::Repeat(
                        RepeatRequestModel { call: plain_call("perform_trial"@), times: n },
                    ),
                ];
            &&& 1 <= times <= 100 ==> (prepared("repeat_trial"@, asked) matches Ok(request)
                && request.actions == repeated(times as u32))
            &&& !(1 <= times <= 100) ==> prepared("repeat_trial"@, asked) is Err
            &&& prepared("repeat_trial"@, none) matches Ok(request) && request.actions == repeated(
                10,
            )
            &&& id != "repeat_trial"@ ==> prepared(id, arguments) is Err
        }),
{
    let feature = trial_feature();
    let given = map!["times"@ => JsonModel::Unsigned(times)];
    let none = Map::<Text, JsonModel>::empty();
    reveal_strlit("repeat_trial");
    reveal_strlit("重复试验");
    reveal_strlit("times");
    assert(!text::white(feature.id[0]));
    assert(!text::white(feature.name[0]));
    assert(!text::white(feature.parameters[0].id[0]));
    assert(well_made(feature));
    well_made_features_have_no_flaw(feature);
    assert(given.dom() =~= set!["times"@]);
    arguments_are_completed(feature, given);
    arguments_are_completed(feature, none);
    let parameter = feature.parameters[0];
    assert(parameter.id == "times"@);
    assert(forall|p: int|
        0 <= p < feature.parameters.len() ==> #[trigger] feature.parameters[p] == parameter);
}

/// What is observed of the program: its mode, its training, its trials and its exploration, each
/// as it is.
pub proof fn programs_are_observed_as_they_are(runtime: DemoRuntime, now: Nanos)
    ensures
        ({
            let seen = facts(runtime, now);
            let trial = seen.at("trial"@);
            let training = seen.at("training"@);
            let exploration = seen.at("exploration"@);
            &&& seen.at("mode"@) == JsonModel::Text(
                match runtime.mode {
                    Mode::Idle => "idle"@,
                    Mode::Training => "training"@,
                },
            )
            &&& training.at("status"@) == JsonModel::Text(
                match runtime.status(now) {
                    TrainingStatus::NotStarted => "not_started"@,
                    TrainingStatus::Running => "running"@,
                    TrainingStatus::Completed => "completed"@,
                },
            )
            &&& training.at("available"@) == JsonModel::Bool(runtime.scenario != Scenario::Blocked)
            &&& training.has("unavailable_reason"@)
            &&& training.at("unavailable_reason"@) is Null <==> runtime.scenario
                != Scenario::Blocked
            &&& trial.at("completed"@) == JsonModel::Unsigned(runtime.trial_completed as u64)
            &&& trial.at("successful"@) == JsonModel::Unsigned(runtime.trial_successful as u64)
            &&& trial.at("ready"@) == JsonModel::Bool(
                !runtime.trial_needs_reset && runtime.scenario != Scenario::BatchBlocked,
            )
            &&& trial.at("needs_reset"@) == JsonModel::Bool(runtime.trial_needs_reset)
            &&& seen.has("exploration"@) <==> runtime.scenario == Scenario::Exploration
                || runtime.scenario == Scenario::ExplorationInterrupted
            &&& seen.has("exploration"@) ==> {
                &&& exploration.at("collected"@) == JsonModel::Unsigned(
                    runtime.exploration.collected as u64,
                )
                &&& exploration.at("finished"@) == JsonModel::Bool(runtime.exploration.finished)
                &&& exploration.at("needs_reset"@) == JsonModel::Bool(
                    runtime.exploration.needs_reset,
                )
            }
        }),
{
    reveal_strlit("mode");
    reveal_strlit("trial");
    reveal_strlit("training");
    reveal_strlit("exploration");
    reveal_strlit("status");
    reveal_strlit("available");
    reveal_strlit("ready");
    reveal_strlit("needs_reset");
    reveal_strlit("completed");
    reveal_strlit("successful");
    reveal_strlit("collected");
    reveal_strlit("finished");
    reveal_strlit("unavailable_reason");
    assert("mode"@.len() == 4);
    assert("trial"@.len() == 5);
    assert("training"@.len() == 8);
    assert("exploration"@.len() == 11);
    assert("status"@.len() == 6);
    assert("available"@.len() == 9);
    assert("ready"@.len() == 5);
    assert("needs_reset"@.len() == 11);
    assert("completed"@.len() == 9);
    assert("successful"@.len() == 10);
    assert("collected"@.len() == 9);
    assert("finished"@.len() == 8);
    assert("unavailable_reason"@.len() == 18);
    assert("trial"@[0] == 't' && "ready"@[0] == 'r');
    assert("training"@[0] == 't' && "finished"@[0] == 'f');
    assert("exploration"@[0] == 'e' && "needs_reset"@[0] == 'n');
    assert("available"@[0] == 'a' && "completed"@[0] == 'c');
    assert("available"@[0] == 'a' && "collected"@[0] == 'c');
    assert("completed"@[2] == 'm' && "collected"@[2] == 'l');
}

/// Facts are read only where they hold a mode and a training with its status and whether it is
/// available; what they say of trials and of an exploration must be complete where it is there.
pub proof fn incomplete_facts_are_refused(facts: Map<Text, JsonModel>)
    ensures
        ({
            let json = JsonModel::Object(facts);
            &&& !facts.contains_key("mode"@) || !facts.contains_key("training"@)
                ==> snapshot_of(json) is None
            &&& facts.contains_key("mode"@) && !(facts["mode"@] is Text || facts["mode"@] is Object)
                ==> snapshot_of(json) is None
            &&& facts.contains_key("training"@) && facts["training"@] is Object && !(
            facts["training"@].at("available"@) is Bool) ==> snapshot_of(json) is None
            &&& facts.contains_key("trial"@) && facts["trial"@] is Object && !(
            facts["trial"@].at("ready"@) is Bool && facts["trial"@].at("needs_reset"@) is Bool)
                ==> snapshot_of(json) is None
            &&& facts.contains_key("exploration"@) && facts["exploration"@] is Object && !(
            facts["exploration"@].at("collected"@) is Unsigned
                && facts["exploration"@].at("finished"@) is Bool
                && facts["exploration"@].at("needs_reset"@) is Bool) ==> snapshot_of(json) is None
        }),
{
}

/// What matters most about the training: a device to be reset, a batch to be resumed, a service that
/// is gone, a training that runs or is over, a mode to be changed, a start to be tried again, or
/// nothing in the way.
pub open spec fn training_matter(s: Snapshot, context: SkillContextModel) -> int {
    if s.trial_needs_reset {
        0
    } else if context.interruption is Some && context.interruption->0.call is Some
        && context.interruption->0.call->0.name == "perform_trial"@ {
        1
    } else if !s.available {
        2
    } else if s.status == TrainingStatus::Running {
        3
    } else if s.status == TrainingStatus::Completed {
        4
    } else if s.mode != Mode::Training {
        5
    } else if context.previous_result is Some && context.previous_result->0.call.name
        == "start_training"@ && !context.previous_result->0.success {
        6
    } else {
        7
    }
}

/// Advice on the training is the same exactly where the same thing matters most.
pub proof fn advice_follows_what_matters(
    s: Snapshot,
    context: SkillContextModel,
    other: Snapshot,
    elsewhere: SkillContextModel,
)
    ensures
        training_guidance(s, context) == training_guidance(other, elsewhere) <==> training_matter(
            s,
            context,
        ) == training_matter(other, elsewhere),
{
    reveal_strlit("试验设备需要 reset_trial；复位保留已完成次数，随后继续未完成的批次。");
    reveal_strlit("试验设备已可用，继续原批次剩余次数，不要重新下达完整次数。");
    reveal_strlit("训练服务永久不可用；若任务依赖训练，当前工具无法完成它，重复启动不会恢复服务。");
    reveal_strlit("训练已经启动但尚未完成；需要确认完成时查询 get_training_status，不要再次启动。");
    reveal_strlit("训练已经确认完成；若用户目标已满足，可以结束任务，不要重新启动训练。");
    reveal_strlit("若任务需要训练，先用 set_mode 切换到 training，再启动；切换模式不等于完成训练。");
    reveal_strlit("上次启动未成功，当前仍未启动训练且前置条件已满足；可以继续原中断步骤或重试启动，不要误判训练正在进行。");
    reveal_strlit("训练前置条件已满足；若任务需要训练，可以启动，启动后仍需确认训练完成。");
    assert("试验设备需要 reset_trial；复位保留已完成次数，随后继续未完成的批次。"@.len() == 40);
    assert("试验设备已可用，继续原批次剩余次数，不要重新下达完整次数。"@.len() == 29);
    assert("训练服务永久不可用；若任务依赖训练，当前工具无法完成它，重复启动不会恢复服务。"@.len() == 39);
    assert("训练已经启动但尚未完成；需要确认完成时查询 get_training_status，不要再次启动。"@.len() == 49);
    assert("训练已经确认完成；若用户目标已满足，可以结束任务，不要重新启动训练。"@.len() == 34);
    assert("若任务需要训练，先用 set_mode 切换到 training，再启动；切换模式不等于完成训练。"@.len() == 49);
    assert("上次启动未成功，当前仍未启动训练且前置条件已满足；可以继续原中断步骤或重试启动，不要误判训练正在进行。"@.len() == 51);
    assert("训练前置条件已满足；若任务需要训练，可以启动，启动后仍需确认训练完成。"@.len() == 35);
    assert("训练已经启动但尚未完成；需要确认完成时查询 get_training_status，不要再次启动。"@[0] == '训' && "若任务需要训练，先用 set_mode 切换到 training，再启动；切换模式不等于完成训练。"@[0] == '若');
}

/// What matters most about an exploration: a device to be restored, a loop to be resumed, that it is
/// done, or that it is still to be done.
pub open spec fn exploration_matter(e: ExplorationSnapshot, context: SkillContextModel) -> int {
    if e.needs_reset {
        0
    } else if context.interruption is Some && context.interruption->0.call is Some
        && context.interruption->0.call->0.name == "explore_step"@ {
        1
    } else if e.finished {
        2
    } else {
        3
    }
}

/// So is advice on an exploration.
pub proof fn advice_on_explorations_follows_what_matters(
    e: ExplorationSnapshot,
    context: SkillContextModel,
    other: ExplorationSnapshot,
    elsewhere: SkillContextModel,
)
    ensures
        exploration_guidance(e, context) == exploration_guidance(other, elsewhere)
            <==> exploration_matter(e, context) == exploration_matter(other, elsewhere),
{
    reveal_strlit("探索设备需要恢复：先使用 reset_exploration，保留已收集物品和未完成探索，不要重新开始。");
    reveal_strlit("探索设备已可用，继续原先中断的探索，保留已有进度；修复成功不代表探索目标完成。");
    reveal_strlit("Adapter 已确认探索完成；若用户目标就是探索该区域，可以结束任务，不要再次探索。");
    reveal_strlit("若任务要求探索全部物品，使用 explore_step 的本地循环。数量未知，由 Adapter 确认完成，不能凭一次收集或暂未发现物品就结束。");
    assert("探索设备需要恢复：先使用 reset_exploration，保留已收集物品和未完成探索，不要重新开始。"@.len() == 52);
    assert("探索设备已可用，继续原先中断的探索，保留已有进度；修复成功不代表探索目标完成。"@.len() == 39);
    assert("Adapter 已确认探索完成；若用户目标就是探索该区域，可以结束任务，不要再次探索。"@.len() == 43);
    assert("若任务要求探索全部物品，使用 explore_step 的本地循环。数量未知，由 Adapter 确认完成，不能凭一次收集或暂未发现物品就结束。"@.len() == 72);
}

/// A state that may be out of date goes before everything else; a program with an exploration is
/// advised on that, and every other on its training.
pub proof fn stale_states_are_pointed_out(
    s: Snapshot,
    context: SkillContextModel,
    other: Snapshot,
    elsewhere: SkillContextModel,
)
    ensures
        ({
            let stale = context.failure is Some && context.failure->0.stage
                == FailureStage::Observation;
            let also = elsewhere.failure is Some && elsewhere.failure->0.stage
                == FailureStage::Observation;
            &&& stale && also ==> guidance(s, context) == guidance(other, elsewhere)
            &&& stale && !also ==> guidance(s, context) != guidance(other, elsewhere)
            &&& !stale && s.exploration is Some ==> guidance(s, context) == exploration_guidance(
                s.exploration->0,
                context,
            )
            &&& !stale && s.exploration is None ==> guidance(s, context) == training_guidance(
                s,
                context,
            )
        }),
{
    reveal_strlit("最近一次观察失败，当前状态可能过期。先恢复观察；工具已经确认完成的动作不能重做，不能把观察失败当作动作失败。");
    reveal_strlit("试验设备需要 reset_trial；复位保留已完成次数，随后继续未完成的批次。");
    reveal_strlit("试验设备已可用，继续原批次剩余次数，不要重新下达完整次数。");
    reveal_strlit("训练服务永久不可用；若任务依赖训练，当前工具无法完成它，重复启动不会恢复服务。");
    reveal_strlit("训练已经启动但尚未完成；需要确认完成时查询 get_training_status，不要再次启动。");
    reveal_strlit("训练已经确认完成；若用户目标已满足，可以结束任务，不要重新启动训练。");
    reveal_strlit("若任务需要训练，先用 set_mode 切换到 training，再启动；切换模式不等于完成训练。");
    reveal_strlit("上次启动未成功，当前仍未启动训练且前置条件已满足；可以继续原中断步骤或重试启动，不要误判训练正在进行。");
    reveal_strlit("训练前置条件已满足；若任务需要训练，可以启动，启动后仍需确认训练完成。");
    reveal_strlit("探索设备需要恢复：先使用 reset_exploration，保留已收集物品和未完成探索，不要重新开始。");
    reveal_strlit("探索设备已可用，继续原先中断的探索，保留已有进度；修复成功不代表探索目标完成。");
    reveal_strlit("Adapter 已确认探索完成；若用户目标就是探索该区域，可以结束任务，不要再次探索。");
    reveal_strlit("若任务要求探索全部物品，使用 explore_step 的本地循环。数量未知，由 Adapter 确认完成，不能凭一次收集或暂未发现物品就结束。");
    assert("最近一次观察失败，当前状态可能过期。先恢复观察；工具已经确认完成的动作不能重做，不能把观察失败当作动作失败。"@.len() == 54);
    assert("试验设备需要 reset_trial；复位保留已完成次数，随后继续未完成的批次。"@.len() == 40);
    assert("试验设备已可用，继续原批次剩余次数，不要重新下达完整次数。"@.len() == 29);
    assert("训练服务永久不可用；若任务依赖训练，当前工具无法完成它，重复启动不会恢复服务。"@.len() == 39);
    assert("训练已经启动但尚未完成；需要确认完成时查询 get_training_status，不要再次启动。"@.len() == 49);
    assert("训练已经确认完成；若用户目标已满足，可以结束任务，不要重新启动训练。"@.len() == 34);
    assert("若任务需要训练，先用 set_mode 切换到 training，再启动；切换模式不等于完成训练。"@.len() == 49);
    assert("上次启动未成功，当前仍未启动训练且前置条件已满足；可以继续原中断步骤或重试启动，不要误判训练正在进行。"@.len() == 51);
    assert("训练前置条件已满足；若任务需要训练，可以启动，启动后仍需确认训练完成。"@.len() == 35);
    assert("探索设备需要恢复：先使用 reset_exploration，保留已收集物品和未完成探索，不要重新开始。"@.len() == 52);
    assert("探索设备已可用，继续原先中断的探索，保留已有进度；修复成功不代表探索目标完成。"@.len() == 39);
    assert("Adapter 已确认探索完成；若用户目标就是探索该区域，可以结束任务，不要再次探索。"@.len() == 43);
    assert("若任务要求探索全部物品，使用 explore_step 的本地循环。数量未知，由 Adapter 确认完成，不能凭一次收集或暂未发现物品就结束。"@.len() == 72);
    assert("训练服务永久不可用；若任务依赖训练，当前工具无法完成它，重复启动不会恢复服务。"@[0] == '训' && "探索设备已可用，继续原先中断的探索，保留已有进度；修复成功不代表探索目标完成。"@[0] == '探');
    assert("训练已经启动但尚未完成；需要确认完成时查询 get_training_status，不要再次启动。"@[0] == '训' && "若任务需要训练，先用 set_mode 切换到 training，再启动；切换模式不等于完成训练。"@[0] == '若');
}

/// No two errors of the program are told alike.
pub proof fn errors_are_told_apart(a: RuntimeError, b: RuntimeError)
    ensures
        feedback(a) == feedback(b) ==> a == b,
{
    reveal_strlit("需要先通过 set_mode 切换到 training 模式，再启动训练。");
    reveal_strlit("训练服务暂时繁忙，本次未启动；现在可以重试 start_training。");
    reveal_strlit("训练服务永久不可用，当前工具无法恢复，请判断任务失败。");
    reveal_strlit("本次训练已启动，不能重复启动；请查询 get_training_status。");
    reveal_strlit("试验装置需要复位，本次动作未完成；请调用 reset_trial 后恢复批次。");
    reveal_strlit("试验装置永久不可用。");
    reveal_strlit("训练正在进行，无法切换模式，请等待训练完成。");
    reveal_strlit("探索设备中断，先调用 reset_exploration，再恢复原循环；已收集物品保留。");
    assert("需要先通过 set_mode 切换到 training 模式，再启动训练。"@.len() == 37);
    assert("训练服务暂时繁忙，本次未启动；现在可以重试 start_training。"@.len() == 37);
    assert("训练服务永久不可用，当前工具无法恢复，请判断任务失败。"@.len() == 27);
    assert("本次训练已启动，不能重复启动；请查询 get_training_status。"@.len() == 39);
    assert("试验装置需要复位，本次动作未完成；请调用 reset_trial 后恢复批次。"@.len() == 39);
    assert("试验装置永久不可用。"@.len() == 10);
    assert("训练正在进行，无法切换模式，请等待训练完成。"@.len() == 22);
    assert("探索设备中断，先调用 reset_exploration，再恢复原循环；已收集物品保留。"@.len() == 44);
    assert("需要先通过 set_mode 切换到 training 模式，再启动训练。"@[0] == '需' && "训练服务暂时繁忙，本次未启动；现在可以重试 start_training。"@[0] == '训');
    assert("本次训练已启动，不能重复启动；请查询 get_training_status。"@[0] == '本' && "试验装置需要复位，本次动作未完成；请调用 reset_trial 后恢复批次。"@[0] == '试');
}

} // verus!
