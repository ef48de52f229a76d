//! What a terminal says of a run.
use crate::api::{
    ActionModel, Action, Availability, AvailabilityModel, FailureStage, Skill, SkillModel, ToolCall,
    ToolCallModel, ToolResult, ToolResultModel, ExecutionFailure, ExecutionFailureModel,
};
use crate::batch::{BatchProgress, BatchProgressModel, BatchRequest, BatchRequestModel, BatchStatus};
use crate::copy::Dup;
use crate::execution::{ExecutionProgress, ExecutionProgressModel, ExecutionStatus};
use crate::json::printed;
use crate::kernel::{
    Continuation, Decision, DecisionModel, Event, EventModel, Outcome, OutcomeModel, Status,
};
use crate::metrics::TaskSummary;
use crate::skills::{LoadResult, LoadResultModel, LoadSkills, LoadSkillsModel};
use crate::task_runtime::TaskStatus;
use crate::text;
use crate::text::Text;
use vstd::prelude::*;

verus! {

fn push(lines: &mut Vec<String>, line: String)
    ensures
        final(lines).deep_view() == old(lines).deep_view().push(line@),
{
    let ghost before = lines.deep_view();
    let ghost added = line@;
    lines.push(line);
    assert(lines.deep_view() =~= before.push(added));
}

fn push_all(lines: &mut Vec<String>, more: Vec<String>)
    ensures
        final(lines).deep_view() == old(lines).deep_view() + more.deep_view(),
{
    let ghost before = lines.deep_view();
    let ghost added = more.deep_view();
    let mut i: usize = 0;
    assert(before + added.take(0) =~= before);
    while i < more.len()
        invariant
            i <= more@.len(),
            added == more.deep_view(),
            lines.deep_view() == before + added.take(i as int),
        decreases more@.len() - i,
    {
        assert(added[i as int] == more@[i as int]@);
        push(lines, more[i].dup());
        assert(before + added.take(i + 1) =~= (before + added.take(i as int)).push(
            added[i as int],
        ));
        i += 1;
    }
    assert(added.take(added.len() as int) =~= added);
}

/// The names of the skills that can be used.
pub open spec fn available_names(skills: Seq<SkillModel>) -> Seq<Text>
    decreases skills.len(),
{
    if skills.len() == 0 {
        Seq::empty()
    } else {
        let before = available_names(skills.drop_last());
        if skills.last().availability is Available {
            before.push(skills.last().name)
        } else {
            before
        }
    }
}

/// The names of the skills that can be used.
pub fn find_available_names(skills: &Vec<Skill>) -> (r: Vec<String>)
    ensures
        r.deep_view() == available_names(skills.deep_view()),
{
    let ghost all = skills.deep_view();
    let mut names: Vec<String> = Vec::new();
    assert(names.deep_view() =~= Seq::<Text>::empty());
    assert(all.take(0) =~= Seq::<SkillModel>::empty());
    let mut i: usize = 0;
    while i < skills.len()
        invariant
            i <= skills@.len(),
            all == skills.deep_view(),
            names.deep_view() == available_names(all.take(i as int)),
        decreases skills@.len() - i,
    {
        assert(all.take(i + 1).drop_last() =~= all.take(i as int));
        assert(all.take(i + 1).last() == skills@[i as int]@);
        if skills[i].availability.is_available() {
            push(&mut names, skills[i].name.dup());
        }
        i += 1;
    }
    assert(all.take(all.len() as int) =~= all);
    names
}

/// Names in a row, and a word for none.
pub open spec fn listed(names: Seq<Text>) -> Text {
    if names.len() == 0 {
        "无"@
    } else {
        text::joined(names, ", "@)
    }
}

fn list(names: &Vec<String>) -> (r: String)
    ensures
        r@ == listed(names.deep_view()),
{
    if names.len() == 0 {
        "无".to_owned()
    } else {
        text::join(names, ", ")
    }
}

/// Names in quotes, in brackets.
pub open spec fn quoted_list(names: Seq<Text>) -> Text {
    "["@ + text::joined(Seq::new(names.len(), |i: int| text::quoted(names[i])), ", "@) + "]"@
}

fn quote_list(names: &Vec<String>) -> (r: String)
    ensures
        r@ == quoted_list(names.deep_view()),
{
    let ghost all = names.deep_view();
    let mut quoted: Vec<String> = Vec::new();
    let mut i: usize = 0;
    while i < names.len()
        invariant
            i == quoted@.len(),
            i <= names@.len(),
            all == names.deep_view(),
            forall|j: int| 0 <= j < i ==> (#[trigger] quoted@[j])@ == text::quoted(all[j]),
        decreases names@.len() - i,
    {
        quoted.push(text::quote(names[i].as_str()));
        i += 1;
    }
    assert(quoted.deep_view() =~= Seq::new(all.len(), |i: int| text::quoted(all[i])));
    text::cat3("[", text::join(&quoted, ", ").as_str(), "]")
}

/// How a repetition stands.
pub open spec fn batch_word(x: BatchStatus) -> Text {
    match x {
        BatchStatus::Running => "Running"@,
        BatchStatus::Interrupted => "Interrupted"@,
        BatchStatus::Completed => "Completed"@,
        BatchStatus::Cancelled => "Cancelled"@,
        BatchStatus::TimedOut => "TimedOut"@,
        BatchStatus::AttemptLimit => "AttemptLimit"@,
        BatchStatus::Failed => "Failed"@,
    }
}

/// How a repetition stands.
pub fn find_batch_word(x: BatchStatus) -> (r: &'static str)
    ensures
        r@ == batch_word(x),
{
    match x {
        BatchStatus::Running => "Running",
        BatchStatus::Interrupted => "Interrupted",
        BatchStatus::Completed => "Completed",
        BatchStatus::Cancelled => "Cancelled",
        BatchStatus::TimedOut => "TimedOut",
        BatchStatus::AttemptLimit => "AttemptLimit",
        BatchStatus::Failed => "Failed",
    }
}

/// Where the host stopped.
pub open spec fn stage_word(x: FailureStage) -> Text {
    match x {
        FailureStage::Observation => "观察"@,
        FailureStage::Context => "上下文生成"@,
        FailureStage::Availability => "前置条件检查"@,
        FailureStage::Execution => "动作执行"@,
        FailureStage::Validation => "计划校验"@,
    }
}

fn find_stage_word(x: FailureStage) -> (r: &'static str)
    ensures
        r@ == stage_word(x),
{
    match x {
        FailureStage::Observation => "观察",
        FailureStage::Context => "上下文生成",
        FailureStage::Availability => "前置条件检查",
        FailureStage::Execution => "动作执行",
        FailureStage::Validation => "计划校验",
    }
}

/// What follows the actions.
pub open spec fn continuation_word(x: Continuation) -> Text {
    match x {
        Continuation::Decide => "继续决策"@,
        Continuation::Finish => "结束任务"@,
    }
}

fn find_continuation_word(x: Continuation) -> (r: &'static str)
    ensures
        r@ == continuation_word(x),
{
    match x {
        Continuation::Decide => "继续决策",
        Continuation::Finish => "结束任务",
    }
}

/// What is said before a run.
pub open spec fn opening(provider: Text, adapter: Text, goal: Text, max_decisions: usize) -> Seq<Text> {
    let lines = Seq::<Text>::empty();
    let lines = lines.push("[INFO] 决策器："@ + provider);
    let lines = lines.push("[INFO] 适配器："@ + adapter);
    let lines = lines.push("[INFO] 开始任务："@ + goal);
    let lines = lines.push("[INFO] 最多执行 "@ + text::decimal(max_decisions as nat) + " 轮决策"@);
    lines
}

/// What is said before a run.
pub fn write_opening(provider: &str, adapter: &str, goal: &str, max_decisions: usize) -> (r: Vec<String>)
    ensures
        r.deep_view() == opening(provider@, adapter@, goal@, max_decisions),
{
    let mut lines: Vec<String> = Vec::new();
    assert(lines.deep_view() =~= Seq::<Text>::empty());
    {
        let mut line = text::cat2("[INFO] 决策器：", provider);
        push(&mut lines, line);
    }
    {
        let mut line = text::cat2("[INFO] 适配器：", adapter);
        push(&mut lines, line);
    }
    {
        let mut line = text::cat2("[INFO] 开始任务：", goal);
        push(&mut lines, line);
    }
    {
        let mut line = text::cat2("[INFO] 最多执行 ", text::numeral(max_decisions as u64).as_str());
        line.append(" 轮决策");
        push(&mut lines, line);
    }
    lines
}

/// Why skills cannot be used.
pub open spec fn unavailable_lines(skills: Seq<SkillModel>) -> Seq<Text>
    decreases skills.len(),
{
    if skills.len() == 0 {
        Seq::empty()
    } else {
        let before = unavailable_lines(skills.drop_last());
        match skills.last().availability {
            AvailabilityModel::Unavailable { reason } => before.push(
                "[INFO] Skill `"@ + skills.last().name + "` 暂不可用："@ + reason,
            ),
            _ => before,
        }
    }
}

fn write_unavailable_lines(skills: &Vec<Skill>) -> (r: Vec<String>)
    ensures
        r.deep_view() == unavailable_lines(skills.deep_view()),
{
    let ghost all = skills.deep_view();
    let mut lines: Vec<String> = Vec::new();
    assert(lines.deep_view() =~= Seq::<Text>::empty());
    assert(all.take(0) =~= Seq::<SkillModel>::empty());
    let mut i: usize = 0;
    while i < skills.len()
        invariant
            i <= skills@.len(),
            all == skills.deep_view(),
            lines.deep_view() == unavailable_lines(all.take(i as int)),
        decreases skills@.len() - i,
    {
        assert(all.take(i + 1).drop_last() =~= all.take(i as int));
        assert(all.take(i + 1).last() == skills@[i as int]@);
        if let Availability::Unavailable { reason } = &skills[i].availability {
            let mut line = text::cat3(
                "[INFO] Skill `",
                skills[i].name.as_str(),
                "` 暂不可用：",
            );
            line.append(reason.as_str());
            push(&mut lines, line);
        }
        i += 1;
    }
    assert(all.take(all.len() as int) =~= all);
    lines
}

/// What is said of the skills of a round before the reasons.
pub open spec fn offer_lines(step: usize, skills: Seq<SkillModel>, guidance: Text) -> Seq<Text> {
    let lines = Seq::<Text>::empty();
    let lines = if guidance != ""@ {
        lines.push("[INFO] 本轮指导："@ + guidance)
    } else {
        lines
    };
    let lines = lines.push("[INFO] 第 "@ + text::decimal(step as nat) + " 步：可用 Skills："@ + listed(available_names(skills)));
    lines
}

fn write_offer_lines(step: usize, skills: &Vec<Skill>, guidance: &str) -> (r: Vec<String>)
    ensures
        r.deep_view() == offer_lines(step, skills.deep_view(), guidance@),
{
    let mut lines: Vec<String> = Vec::new();
    assert(lines.deep_view() =~= Seq::<Text>::empty());
    if !text::same(guidance, "") {
        let mut line = text::cat2("[INFO] 本轮指导：", guidance);
        push(&mut lines, line);
    }
    {
        let mut line = text::cat2("[INFO] 第 ", text::numeral(step as u64).as_str());
        line.append(" 步：可用 Skills：");
        line.append(list(&find_available_names(skills)).as_str());
        push(&mut lines, line);
    }
    lines
}

/// What is said of the skills that a provider gets.
pub open spec fn injected_lines(step: usize, names: Seq<Text>, directory_count: usize) -> Seq<Text> {
    let lines = Seq::<Text>::empty();
    let lines = lines.push("[INFO] 本轮已加载 Skills："@ + listed(names) + "；轻量目录 "@ + text::decimal(directory_count as nat) + " 项"@);
    let lines = lines.push("[INFO] 第 "@ + text::decimal((step + 1) as nat) + " 步：正在等待决策器选择…"@);
    lines
}

fn write_injected_lines(step: usize, names: &Vec<String>, directory_count: usize) -> (r: Vec<String>)
    requires
        step < usize::MAX,
    ensures
        r.deep_view() == injected_lines(step, names.deep_view(), directory_count),
{
    let mut lines: Vec<String> = Vec::new();
    assert(lines.deep_view() =~= Seq::<Text>::empty());
    {
        let mut line = text::cat2("[INFO] 本轮已加载 Skills：", list(names).as_str());
        line.append("；轻量目录 ");
        line.append(text::numeral(directory_count as u64).as_str());
        line.append(" 项");
        push(&mut lines, line);
    }
    {
        let mut line = text::cat2("[INFO] 第 ", text::numeral((step + 1) as u64).as_str());
        line.append(" 步：正在等待决策器选择…");
        push(&mut lines, line);
    }
    lines
}

/// What is said of a request for skills.
pub open spec fn loaded_lines(result: LoadResultModel) -> Seq<Text> {
    let lines = Seq::<Text>::empty();
    let lines = if result.success {
        lines.push("[INFO] 已更新加载范围："@ + text::joined(result.selected, ", "@))
    } else {
        lines
    };
    let lines = if !result.success {
        lines.push("[WARN] 加载失败："@ + result.message)
    } else {
        lines
    };
    lines
}

fn write_loaded_lines(result: &LoadResult) -> (r: Vec<String>)
    ensures
        r.deep_view() == loaded_lines(result@),
{
    let mut lines: Vec<String> = Vec::new();
    assert(lines.deep_view() =~= Seq::<Text>::empty());
    if result.success {
        let mut line = text::cat2("[INFO] 已更新加载范围：", text::join(&result.selected, ", ").as_str());
        push(&mut lines, line);
    }
    if !result.success {
        let mut line = text::cat2("[WARN] 加载失败：", result.message.as_str());
        push(&mut lines, line);
    }
    lines
}

/// What is said of an action that goes on by itself.
pub open spec fn action_lines(actions: Seq<ActionModel>) -> Seq<Text>
    decreases actions.len(),
{
    if actions.len() == 0 {
        Seq::empty()
    } else {
        let before = action_lines(actions.drop_last());
        match actions.last() {
            ActionModel::UntilDone(call) => before.push(
                "[INFO] 循环 `"@ + call.name + "`：由 Adapter 确认完成，正常步骤无需模型决策"@,
            ),
            ActionModel::Repeat(request) => before.push(
                "[INFO] 批次 `"@ + request.call.name + "`：目标 "@ + text::decimal(
                    request.times as nat,
                ) + " 次动作"@,
            ),
            _ => before,
        }
    }
}

fn write_action_lines(actions: &Vec<Action>) -> (r: Vec<String>)
    ensures
        r.deep_view() == action_lines(actions.deep_view()),
{
    let ghost all = actions.deep_view();
    let mut lines: Vec<String> = Vec::new();
    assert(lines.deep_view() =~= Seq::<Text>::empty());
    assert(all.take(0) =~= Seq::<ActionModel>::empty());
    let mut i: usize = 0;
    while i < actions.len()
        invariant
            i <= actions@.len(),
            all == actions.deep_view(),
            lines.deep_view() == action_lines(all.take(i as int)),
        decreases actions@.len() - i,
    {
        assert(all.take(i + 1).drop_last() =~= all.take(i as int));
        assert(all.take(i + 1).last() == actions@[i as int]@);
        match &actions[i] {
            Action::UntilDone(call) => {
                let line = text::cat3(
                    "[INFO] 循环 `",
                    call.name.as_str(),
                    "`：由 Adapter 确认完成，正常步骤无需模型决策",
                );
                push(&mut lines, line);
            },
            Action::Repeat(request) => {
                let mut line = text::cat3(
                    "[INFO] 批次 `",
                    request.call.name.as_str(),
                    "`：目标 ",
                );
                line.append(text::numeral(request.times as u64).as_str());
                line.append(" 次动作");
                push(&mut lines, line);
            },
            _ => {},
        }
        i += 1;
    }
    assert(all.take(all.len() as int) =~= all);
    lines
}

/// What is said of a plan.
pub open spec fn execute_lines(step: usize, count: nat, continuation: Continuation) -> Seq<Text> {
    let lines = Seq::<Text>::empty();
    let lines = lines.push("[INFO] 动作完成后："@ + continuation_word(continuation));
    let lines = lines.push("[INFO] 第 "@ + text::decimal(step as nat) + " 步：下达 "@ + text::decimal(count as nat) + " 个有序动作"@);
    lines
}

fn write_execute_lines(step: usize, count: usize, continuation: Continuation) -> (r: Vec<String>)
    ensures
        r.deep_view() == execute_lines(step, count as nat, continuation),
{
    let mut lines: Vec<String> = Vec::new();
    assert(lines.deep_view() =~= Seq::<Text>::empty());
    {
        let mut line = text::cat2("[INFO] 动作完成后：", find_continuation_word(continuation));
        push(&mut lines, line);
    }
    {
        let mut line = text::cat2("[INFO] 第 ", text::numeral(step as u64).as_str());
        line.append(" 步：下达 ");
        line.append(text::numeral(count as u64).as_str());
        line.append(" 个有序动作");
        push(&mut lines, line);
    }
    lines
}

/// What is said of a plan for the rest.
pub open spec fn replace_lines(step: usize, count: nat, continuation: Continuation) -> Seq<Text> {
    let lines = Seq::<Text>::empty();
    let lines = lines.push("[INFO] 动作完成后："@ + continuation_word(continuation));
    let lines = lines.push("[INFO] 第 "@ + text::decimal(step as nat) + " 步：替换剩余计划，共 "@ + text::decimal(count as nat) + " 个动作，保留已完成进度"@);
    lines
}

fn write_replace_lines(step: usize, count: usize, continuation: Continuation) -> (r: Vec<String>)
    ensures
        r.deep_view() == replace_lines(step, count as nat, continuation),
{
    let mut lines: Vec<String> = Vec::new();
    assert(lines.deep_view() =~= Seq::<Text>::empty());
    {
        let mut line = text::cat2("[INFO] 动作完成后：", find_continuation_word(continuation));
        push(&mut lines, line);
    }
    {
        let mut line = text::cat2("[INFO] 第 ", text::numeral(step as u64).as_str());
        line.append(" 步：替换剩余计划，共 ");
        line.append(text::numeral(count as u64).as_str());
        line.append(" 个动作，保留已完成进度");
        push(&mut lines, line);
    }
    lines
}

/// What is said of a wish for skills.
pub open spec fn load_lines(step: usize, request: LoadSkillsModel) -> Seq<Text> {
    let lines = Seq::<Text>::empty();
    let lines = lines.push("[INFO] 第 "@ + text::decimal(step as nat) + " 步：请求加载 Skills，名称："@ + quoted_list(request.names) + "，tags："@ + quoted_list(request.tags));
    lines
}

fn write_load_lines(step: usize, request: &LoadSkills) -> (r: Vec<String>)
    ensures
        r.deep_view() == load_lines(step, request@),
{
    let mut lines: Vec<String> = Vec::new();
    assert(lines.deep_view() =~= Seq::<Text>::empty());
    {
        let mut line = text::cat2("[INFO] 第 ", text::numeral(step as u64).as_str());
        line.append(" 步：请求加载 Skills，名称：");
        line.append(quote_list(&request.names).as_str());
        line.append("，tags：");
        line.append(quote_list(&request.tags).as_str());
        push(&mut lines, line);
    }
    lines
}

/// What is said of a decision.
pub open spec fn decision_lines(step: usize, decision: DecisionModel) -> Seq<Text> {
    match decision {
        DecisionModel::Execute { actions, then } => execute_lines(step, actions.len(), then)
            + action_lines(actions),
        DecisionModel::ReplaceRemaining { actions, then } => replace_lines(
            step,
            actions.len(),
            then,
        ),
        DecisionModel::Resume => seq![
            "[INFO] 第 "@ + text::decimal(step as nat) + " 步：恢复原执行，继续剩余动作"@,
        ],
        DecisionModel::LoadSkills(request) => load_lines(step, request),
        DecisionModel::Completed(_) => seq![
            "[INFO] 第 "@ + text::decimal(step as nat) + " 步：决策器判断任务已完成"@,
        ],
        DecisionModel::Failed(_) => seq![
            "[WARN] 第 "@ + text::decimal(step as nat)
                + " 步：决策器判断当前能力与状态无法完成任务"@,
        ],
    }
}

fn single(line: String) -> (r: Vec<String>)
    ensures
        r.deep_view() == seq![line@],
{
    let ghost only = line@;
    let mut lines: Vec<String> = Vec::new();
    lines.push(line);
    assert(lines.deep_view() =~= seq![only]);
    lines
}

fn write_decision_lines(step: usize, decision: &Decision) -> (r: Vec<String>)
    ensures
        r.deep_view() == decision_lines(step, decision@),
{
    match decision {
        Decision::Execute { actions, then } => {
            let mut lines = write_execute_lines(step, actions.len(), *then);
            push_all(&mut lines, write_action_lines(actions));
            lines
        },
        Decision::ReplaceRemaining { actions, then } => write_replace_lines(
            step,
            actions.len(),
            *then,
        ),
        Decision::Resume => single(
            text::cat3(
                "[INFO] 第 ",
                text::numeral(step as u64).as_str(),
                " 步：恢复原执行，继续剩余动作",
            ),
        ),
        Decision::LoadSkills(request) => write_load_lines(step, request),
        Decision::Completed(_) => single(
            text::cat3(
                "[INFO] 第 ",
                text::numeral(step as u64).as_str(),
                " 步：决策器判断任务已完成",
            ),
        ),
        Decision::Failed(_) => single(
            text::cat3(
                "[WARN] 第 ",
                text::numeral(step as u64).as_str(),
                " 步：决策器判断当前能力与状态无法完成任务",
            ),
        ),
    }
}

/// How far a repetition is.
pub open spec fn completion(progress: BatchProgressModel) -> Text {
    match progress.request {
        BatchRequestModel::Repeat(request) => "已完成 "@ + text::decimal(progress.completed as nat)
            + "/"@ + text::decimal(request.times as nat) + " 次"@,
        BatchRequestModel::UntilDone(_) => "已执行 "@ + text::decimal(progress.completed as nat)
            + " 步，"@ + (if progress.finished {
            "Adapter 已确认完成"@
        } else {
            "等待 Adapter 确认完成"@
        }),
    }
}

fn find_completion(progress: &BatchProgress) -> (r: String)
    ensures
        r@ == completion(progress@),
{
    match &progress.request {
        BatchRequest::Repeat(request) => {
            let mut line = text::cat3(
                "已完成 ",
                text::numeral(progress.completed as u64).as_str(),
                "/",
            );
            line.append(text::numeral(request.times as u64).as_str());
            line.append(" 次");
            line
        },
        BatchRequest::UntilDone(_) => {
            let mut line = text::cat3(
                "已执行 ",
                text::numeral(progress.completed as u64).as_str(),
                " 步，",
            );
            line.append(
                if progress.finished {
                    "Adapter 已确认完成"
                } else {
                    "等待 Adapter 确认完成"
                },
            );
            line
        },
    }
}

/// How much of a repetition is left.
pub open spec fn left_over(remaining: Option<u32>) -> Text {
    match remaining {
        None => "剩余工作量未知"@,
        Some(n) => "剩余 "@ + text::decimal(n as nat) + " 次"@,
    }
}

fn find_left_over(remaining: Option<u32>) -> (r: String)
    ensures
        r@ == left_over(remaining),
{
    match remaining {
        None => "剩余工作量未知".to_owned(),
        Some(n) => text::cat3("剩余 ", text::numeral(n as u64).as_str(), " 次"),
    }
}

/// What is said of a repetition.
pub open spec fn batch_lines(progress: BatchProgressModel) -> Seq<Text> {
    let lines = Seq::<Text>::empty();
    let lines = lines.push("[INFO] 批次 `"@ + progress.request.call().name + "`："@ + completion(progress) + "，达成效果 "@ + text::decimal(progress.successful as nat) + " 次，尝试 "@ + text::decimal(progress.attempts as nat) + " 次，状态 "@ + batch_word(progress.status));
    let lines = if progress.status == BatchStatus::Interrupted {
        lines.push("[WARN] 批次中断："@ + progress.message + "；"@ + left_over(progress.remaining) + "，交回决策器处理"@)
    } else {
        lines
    };
    lines
}

fn write_batch_lines(progress: &BatchProgress) -> (r: Vec<String>)
    ensures
        r.deep_view() == batch_lines(progress@),
{
    let mut lines: Vec<String> = Vec::new();
    assert(lines.deep_view() =~= Seq::<Text>::empty());
    {
        let mut line = text::cat2("[INFO] 批次 `", progress.request.call().name.as_str());
        line.append("`：");
        line.append(find_completion(progress).as_str());
        line.append("，达成效果 ");
        line.append(text::numeral(progress.successful as u64).as_str());
        line.append(" 次，尝试 ");
        line.append(text::numeral(progress.attempts as u64).as_str());
        line.append(" 次，状态 ");
        line.append(find_batch_word(progress.status));
        push(&mut lines, line);
    }
    if progress.status == BatchStatus::Interrupted {
        let mut line = text::cat2("[WARN] 批次中断：", progress.message.as_str());
        line.append("；");
        line.append(find_left_over(progress.remaining).as_str());
        line.append("，交回决策器处理");
        push(&mut lines, line);
    }
    lines
}

/// What is said of a call that begins.
pub open spec fn started_lines(index: usize, total: usize, call: ToolCallModel) -> Seq<Text> {
    let lines = Seq::<Text>::empty();
    let lines = lines.push("[INFO] 动作 "@ + text::decimal((index + 1) as nat) + "/"@ + text::decimal(total as nat) + "：选择 Skill `"@ + call.name + "`，参数："@ + printed(call.arguments) + "；开始调用"@);
    lines
}

fn write_started_lines(index: usize, total: usize, call: &ToolCall) -> (r: Vec<String>)
    requires
        index < usize::MAX,
    ensures
        r.deep_view() == started_lines(index, total, call@),
{
    let mut lines: Vec<String> = Vec::new();
    assert(lines.deep_view() =~= Seq::<Text>::empty());
    {
        let mut line = text::cat2("[INFO] 动作 ", text::numeral((index + 1) as u64).as_str());
        line.append("/");
        line.append(text::numeral(total as u64).as_str());
        line.append("：选择 Skill `");
        line.append(call.name.as_str());
        line.append("`，参数：");
        line.append(call.arguments.to_text().as_str());
        line.append("；开始调用");
        push(&mut lines, line);
    }
    lines
}

/// What is said of an execution.
pub open spec fn execution_lines(progress: ExecutionProgressModel) -> Seq<Text> {
    let lines = Seq::<Text>::empty();
    let lines = if progress.status == ExecutionStatus::Interrupted {
        lines.push("[WARN] 执行中断：已完成 "@ + text::decimal(progress.completed as nat) + "/"@ + text::decimal(progress.actions.len() as nat) + " 个动作；"@ + progress.message)
    } else {
        lines
    };
    lines
}

fn write_execution_lines(progress: &ExecutionProgress) -> (r: Vec<String>)
    ensures
        r.deep_view() == execution_lines(progress@),
{
    let mut lines: Vec<String> = Vec::new();
    assert(lines.deep_view() =~= Seq::<Text>::empty());
    if progress.status == ExecutionStatus::Interrupted {
        let mut line = text::cat2("[WARN] 执行中断：已完成 ", text::numeral(progress.completed as u64).as_str());
        line.append("/");
        line.append(text::numeral(progress.actions.len() as u64).as_str());
        line.append(" 个动作；");
        line.append(progress.message.as_str());
        push(&mut lines, line);
    }
    lines
}

/// What is said of a failure.
pub open spec fn failed_lines(failure: ExecutionFailureModel) -> Seq<Text> {
    let lines = Seq::<Text>::empty();
    let lines = lines.push("[WARN] "@ + stage_word(failure.stage) + "失败："@ + failure.message);
    lines
}

fn write_failed_lines(failure: &ExecutionFailure) -> (r: Vec<String>)
    ensures
        r.deep_view() == failed_lines(failure@),
{
    let mut lines: Vec<String> = Vec::new();
    assert(lines.deep_view() =~= Seq::<Text>::empty());
    {
        let mut line = text::cat2("[WARN] ", find_stage_word(failure.stage));
        line.append("失败：");
        line.append(failure.message.as_str());
        push(&mut lines, line);
    }
    lines
}

/// What is said of a call that ended.
pub open spec fn executed_lines(step: usize, max_decisions: usize, result: ToolResultModel) -> Seq<Text> {
    let lines = Seq::<Text>::empty();
    let lines = if result.success {
        lines.push("[INFO] 第 "@ + text::decimal(step as nat) + " 步：Skill `"@ + result.call.name + "` 调用成功："@ + result.message)
    } else {
        lines
    };
    let lines = if !result.success {
        lines.push("[WARN] 第 "@ + text::decimal(step as nat) + " 步：Skill `"@ + result.call.name + "` 调用失败："@ + result.message)
    } else {
        lines
    };
    let lines = if !result.success && step < max_decisions {
        lines.push("[INFO] 已记录失败原因，供后续决策使用"@)
    } else {
        lines
    };
    lines
}

fn write_executed_lines(step: usize, max_decisions: usize, result: &ToolResult) -> (r: Vec<String>)
    ensures
        r.deep_view() == executed_lines(step, max_decisions, result@),
{
    let mut lines: Vec<String> = Vec::new();
    assert(lines.deep_view() =~= Seq::<Text>::empty());
    if result.success {
        let mut line = text::cat2("[INFO] 第 ", text::numeral(step as u64).as_str());
        line.append(" 步：Skill `");
        line.append(result.call.name.as_str());
        line.append("` 调用成功：");
        line.append(result.message.as_str());
        push(&mut lines, line);
    }
    if !result.success {
        let mut line = text::cat2("[WARN] 第 ", text::numeral(step as u64).as_str());
        line.append(" 步：Skill `");
        line.append(result.call.name.as_str());
        line.append("` 调用失败：");
        line.append(result.message.as_str());
        push(&mut lines, line);
    }
    if !result.success && step < max_decisions {
        push(&mut lines, "[INFO] 已记录失败原因，供后续决策使用".to_owned());
    }
    lines
}

/// What is said of an event, after so many decisions.
pub open spec fn event_lines(step: usize, max_decisions: usize, event: EventModel) -> Seq<Text> {
    match event {
        EventModel::Observed(_) => seq![
            if step == 0 {
                "[INFO] 已读取当前状态"@
            } else {
                "[INFO] 已更新当前状态"@
            },
        ],
        EventModel::SkillsResolved { step, skills, guidance } => offer_lines(
            step,
            skills,
            guidance,
        ) + unavailable_lines(skills),
        EventModel::SkillsInjected { names, directory_count } => injected_lines(
            step,
            names,
            directory_count,
        ),
        EventModel::SkillsLoaded(result) => loaded_lines(result),
        EventModel::Decided(decision) => decision_lines(step, decision),
        EventModel::BatchProgress(progress) => batch_lines(progress),
        EventModel::ActionStarted { index, total, call } => started_lines(index, total, call),
        EventModel::ExecutionProgress(progress) => execution_lines(progress),
        EventModel::ExecutionFailed(failure) => failed_lines(failure),
        EventModel::ExecutionRejected(reason) => seq!["[WARN] 拒绝执行："@ + reason],
        EventModel::Executed(result) => executed_lines(step, max_decisions, result),
    }
}

/// Says what happens, and counts the decisions.
#[derive(Debug, Clone, Copy, PartialEq, Eq, Structural)]
pub struct Reporter {
    pub step: usize,
    pub max_decisions: usize,
}

impl Reporter {
    /// The number of decisions after an event.
    pub open spec fn counted(self, event: EventModel) -> usize {
        if event is Decided {
            (self.step + 1) as usize
        } else {
            self.step
        }
    }

    /// Nothing has happened yet.
    pub fn new(max_decisions: usize) -> (r: Self)
        ensures
            r == (Reporter { step: 0, max_decisions }),
    {
        Reporter { step: 0, max_decisions }
    }

    /// What is said of an event.
    pub fn report(&mut self, event: &Event) -> (r: Vec<String>)
        requires
            old(self).step < usize::MAX,
            event@ matches EventModel::ActionStarted { index, .. } ==> index < usize::MAX,
        ensures
            *final(self) == (Reporter { step: old(self).counted(event@), ..*old(self) }),
            r.deep_view() == event_lines(final(self).step, old(self).max_decisions, event@),
    {
        match event {
            Event::Observed(_) => single(
                if self.step == 0 {
                    "[INFO] 已读取当前状态".to_owned()
                } else {
                    "[INFO] 已更新当前状态".to_owned()
                },
            ),
            Event::SkillsResolved { step, skills, guidance } => {
                let mut lines = write_offer_lines(*step, skills, guidance.as_str());
                push_all(&mut lines, write_unavailable_lines(skills));
                lines
            },
            Event::SkillsInjected { names, directory_count } => write_injected_lines(
                self.step,
                names,
                *directory_count,
            ),
            Event::SkillsLoaded(result) => write_loaded_lines(result),
            Event::Decided(decision) => {
                self.step = self.step + 1;
                write_decision_lines(self.step, decision)
            },
            Event::BatchProgress(progress) => write_batch_lines(progress),
            Event::ActionStarted { index, total, call } => write_started_lines(
                *index,
                *total,
                call,
            ),
            Event::ExecutionProgress(progress) => write_execution_lines(progress),
            Event::ExecutionFailed(failure) => write_failed_lines(failure),
            Event::ExecutionRejected(reason) => single(
                text::cat2("[WARN] 拒绝执行：", reason.as_str()),
            ),
            Event::Executed(result) => write_executed_lines(self.step, self.max_decisions, result),
        }
    }
}

/// What is said of the outcome of a run.
pub open spec fn outcome_lines(outcome: OutcomeModel) -> Seq<Text> {
    let lines = Seq::<Text>::empty();
    let lines = if outcome.status == Status::Cancelled {
        lines.push("[WARN] 用户取消任务，已完成动作不会回滚"@)
    } else {
        lines
    };
    let lines = if outcome.status == Status::Completed {
        lines.push("[INFO] 任务完成，共 "@ + text::decimal(outcome.decisions as nat) + " 步决策"@)
    } else {
        lines
    };
    let lines = if outcome.status == Status::Failed && outcome.reason == "decision limit reached"@ {
        lines.push("[WARN] 任务未完成：已达到 "@ + text::decimal(outcome.decisions as nat) + " 步决策上限"@)
    } else {
        lines
    };
    let lines = if outcome.status == Status::Failed && outcome.reason != "decision limit reached"@ {
        lines.push("[WARN] 任务未完成，共 "@ + text::decimal(outcome.decisions as nat) + " 步决策："@ + outcome.reason)
    } else {
        lines
    };
    lines
}

/// What is said of the outcome of a run.
pub fn write_outcome_lines(outcome: &Outcome) -> (r: Vec<String>)
    ensures
        r.deep_view() == outcome_lines(outcome@),
{
    let mut lines: Vec<String> = Vec::new();
    assert(lines.deep_view() =~= Seq::<Text>::empty());
    if outcome.status == Status::Cancelled {
        push(&mut lines, "[WARN] 用户取消任务，已完成动作不会回滚".to_owned());
    }
    if outcome.status == Status::Completed {
        let mut line = text::cat2("[INFO] 任务完成，共 ", text::numeral(outcome.decisions as u64).as_str());
        line.append(" 步决策");
        push(&mut lines, line);
    }
    if outcome.status == Status::Failed && text::same(outcome.reason.as_str(), "decision limit reached") {
        let mut line = text::cat2("[WARN] 任务未完成：已达到 ", text::numeral(outcome.decisions as u64).as_str());
        line.append(" 步决策上限");
        push(&mut lines, line);
    }
    if outcome.status == Status::Failed && !text::same(outcome.reason.as_str(), "decision limit reached") {
        let mut line = text::cat2("[WARN] 任务未完成，共 ", text::numeral(outcome.decisions as u64).as_str());
        line.append(" 步决策：");
        line.append(outcome.reason.as_str());
        push(&mut lines, line);
    }
    lines
}

/// How a task that has ended is called.
pub open spec fn end_word(status: TaskStatus) -> Text {
    match status {
        TaskStatus::Completed => "已完成"@,
        TaskStatus::Cancelled => "已取消"@,
        _ => "失败"@,
    }
}

fn find_end_word(status: TaskStatus) -> (r: &'static str)
    ensures
        r@ == end_word(status),
{
    match status {
        TaskStatus::Completed => "已完成",
        TaskStatus::Cancelled => "已取消",
        _ => "失败",
    }
}

/// Milliseconds as seconds, with three decimals.
pub open spec fn seconds(ms: u64) -> Text {
    let rest = (ms % 1000) as nat;
    text::decimal((ms / 1000) as nat) + "."@ + (if rest < 10 {
        "00"@
    } else if rest < 100 {
        "0"@
    } else {
        ""@
    }) + text::decimal(rest)
}

/// Milliseconds as seconds, with three decimals.
pub fn find_seconds(ms: u64) -> (r: String)
    ensures
        r@ == seconds(ms),
{
    let rest: u64 = ms % 1000;
    let mut line = text::cat3(
        text::numeral(ms / 1000).as_str(),
        ".",
        if rest < 10 {
            "00"
        } else if rest < 100 {
            "0"
        } else {
            ""
        },
    );
    line.append(text::numeral(rest).as_str());
    line
}

/// What is said of what a task took.
pub open spec fn summary_lines(status: TaskStatus, summary: TaskSummary) -> Seq<Text> {
    let lines = Seq::<Text>::empty();
    let lines = lines.push("[INFO] 任务结束："@ + end_word(status));
    let lines = lines.push("[INFO] 大模型请求："@ + text::decimal(summary.model_requests.total as nat) + " 次（成功 "@ + text::decimal(summary.model_requests.succeeded as nat) + "，失败 "@ + text::decimal(summary.model_requests.failed as nat) + "）"@);
    let lines = lines.push("[INFO] 动作调用："@ + text::decimal(summary.actions.total as nat) + " 次（正常 "@ + text::decimal(summary.actions.succeeded as nat) + "，中断或报错 "@ + text::decimal(summary.actions.failed as nat) + "）"@);
    let lines = lines.push("[INFO] 执行中断："@ + text::decimal(summary.interruptions as nat) + " 次"@);
    let lines = lines.push("[INFO] 总耗时："@ + seconds(summary.elapsed_ms) + " 秒"@);
    lines
}

/// What is said of what a task took.
pub fn write_summary_lines(status: TaskStatus, summary: TaskSummary) -> (r: Vec<String>)
    ensures
        r.deep_view() == summary_lines(status, summary),
{
    let mut lines: Vec<String> = Vec::new();
    assert(lines.deep_view() =~= Seq::<Text>::empty());
    {
        let mut line = text::cat2("[INFO] 任务结束：", find_end_word(status));
        push(&mut lines, line);
    }
    {
        let mut line = text::cat2("[INFO] 大模型请求：", text::numeral(summary.model_requests.total as u64).as_str());
        line.append(" 次（成功 ");
        line.append(text::numeral(summary.model_requests.succeeded as u64).as_str());
        line.append("，失败 ");
        line.append(text::numeral(summary.model_requests.failed as u64).as_str());
        line.append("）");
        push(&mut lines, line);
    }
    {
        let mut line = text::cat2("[INFO] 动作调用：", text::numeral(summary.actions.total as u64).as_str());
        line.append(" 次（正常 ");
        line.append(text::numeral(summary.actions.succeeded as u64).as_str());
        line.append("，中断或报错 ");
        line.append(text::numeral(summary.actions.failed as u64).as_str());
        line.append("）");
        push(&mut lines, line);
    }
    {
        let mut line = text::cat2("[INFO] 执行中断：", text::numeral(summary.interruptions as u64).as_str());
        line.append(" 次");
        push(&mut lines, line);
    }
    {
        let mut line = text::cat2("[INFO] 总耗时：", find_seconds(summary.elapsed_ms).as_str());
        line.append(" 秒");
        push(&mut lines, line);
    }
    lines
}

/// Whether a line shows a text.
pub open spec fn shows(line: Text, part: Text) -> bool {
    text::occurs(line, part)
}

pub(crate) proof fn lemma_shows(head: Text, part: Text, tail: Text)
    ensures
        shows(head + part + tail, part),
        shows(head + part, part),
{
    let i = head.len() as int;
    assert((head + part + tail).subrange(i, i + part.len()) =~= part);
    assert((head + part).subrange(i, i + part.len()) =~= part);
}

/// The skills that are named as usable are those that can be used, in their order.
pub proof fn usable_skills_are_named(skills: Seq<SkillModel>)
    ensures
        ({
            let usable = skills.filter(|skill: SkillModel| skill.availability is Available);
            &&& available_names(skills).len() == usable.len()
            &&& forall|i: int|
                0 <= i < usable.len() ==> #[trigger] available_names(skills)[i] == usable[i].name
        }),
    decreases skills.len(),
{
    reveal(Seq::filter);
    if skills.len() > 0 {
        usable_skills_are_named(skills.drop_last());
    }
}

/// Every skill that cannot be used is named, in their order, with its reason.
pub proof fn unusable_skills_are_explained(skills: Seq<SkillModel>)
    ensures
        ({
            let unusable = skills.filter(|skill: SkillModel| !(skill.availability is Available));
            &&& unavailable_lines(skills).len() == unusable.len()
            &&& forall|i: int|
                0 <= i < unusable.len() ==> shows(
                    #[trigger] unavailable_lines(skills)[i],
                    unusable[i].name,
                ) && shows(
                    unavailable_lines(skills)[i],
                    unusable[i].availability->Unavailable_reason,
                )
        }),
    decreases skills.len(),
{
    reveal(Seq::filter);
    if skills.len() > 0 {
        unusable_skills_are_explained(skills.drop_last());
        if let AvailabilityModel::Unavailable { reason } = skills.last().availability {
            let (a, b) = ("[INFO] Skill `"@, "` 暂不可用："@);
            let name = skills.last().name;
            lemma_shows(a, name, b + reason);
            assert(a + name + (b + reason) =~= a + name + b + reason);
            lemma_shows(a + name + b, reason, Seq::empty());
        }
    }
}

/// Of a plan every repeat and every loop is announced, in their order: a repeat with its skill and
/// how often it is made.
pub proof fn repetitions_are_announced(actions: Seq<ActionModel>)
    ensures
        ({
            let repeated = actions.filter(|action: ActionModel| !(action is Call));
            &&& action_lines(actions).len() == repeated.len()
            &&& forall|i: int|
                0 <= i < repeated.len() ==> shows(
                    #[trigger] action_lines(actions)[i],
                    repeated[i].call().name,
                ) && (repeated[i] matches ActionModel::Repeat(request) ==> shows(
                    action_lines(actions)[i],
                    text::decimal(request.times as nat),
                ))
        }),
    decreases actions.len(),
{
    reveal(Seq::filter);
    if actions.len() > 0 {
        repetitions_are_announced(actions.drop_last());
        match actions.last() {
            ActionModel::UntilDone(call) => {
                lemma_shows(
                    "[INFO] 循环 `"@,
                    call.name,
                    "`：由 Adapter 确认完成，正常步骤无需模型决策"@,
                );
            },
            ActionModel::Repeat(request) => {
                let (a, b, c) = ("[INFO] 批次 `"@, "`：目标 "@, " 次动作"@);
                let name = request.call.name;
                let times = text::decimal(request.times as nat);
                lemma_shows(a, name, b + times + c);
                assert(a + name + (b + times + c) =~= a + name + b + times + c);
                lemma_shows(a + name + b, times, c);
            },
            ActionModel::Call(_) => {},
        }
    }
}

/// The result of a call is told once, with its skill and its message, as information where it
/// succeeded and as a warning where it did not.
pub proof fn results_are_told(step: usize, max_decisions: usize, result: ToolResultModel)
    ensures
        ({
            let lines = executed_lines(step, max_decisions, result);
            &&& lines.len() >= 1
            &&& shows(lines[0], result.call.name)
            &&& shows(lines[0], result.message)
            &&& shows(lines[0], text::decimal(step as nat))
            &&& lines[0][1] == if result.success {
                'I'
            } else {
                'W'
            }
            &&& lines.len() == 2 <==> !result.success && step < max_decisions
        }),
{
    let name = result.call.name;
    let number = text::decimal(step as nat);
    let a = if result.success {
        "[INFO] 第 "@
    } else {
        "[WARN] 第 "@
    };
    let b = " 步：Skill `"@;
    let c = if result.success {
        "` 调用成功："@
    } else {
        "` 调用失败："@
    };
    let message = result.message;
    reveal_strlit("[INFO] 第 ");
    reveal_strlit("[WARN] 第 ");
    lemma_shows(a, number, b + name + c + message);
    assert(a + number + (b + name + c + message) =~= a + number + b + name + c + message);
    lemma_shows(a + number + b, name, c + message);
    assert(a + number + b + name + (c + message) =~= a + number + b + name + c + message);
    lemma_shows(a + number + b + name + c, message, Seq::empty());
}

/// The start of an action is told with its place in the plan, its skill and its arguments.
pub proof fn starts_are_told(index: usize, total: usize, call: ToolCallModel)
    requires
        index < usize::MAX,
    ensures
        ({
            let lines = started_lines(index, total, call);
            &&& lines.len() == 1
            &&& shows(lines[0], text::decimal((index + 1) as nat))
            &&& shows(lines[0], text::decimal(total as nat))
            &&& shows(lines[0], call.name)
            &&& shows(lines[0], printed(call.arguments))
        }),
{
    let (a, b, c, d, e) = (
        "[INFO] 动作 "@,
        "/"@,
        "：选择 Skill `"@,
        "`，参数："@,
        "；开始调用"@,
    );
    let n = text::decimal((index + 1) as nat);
    let m = text::decimal(total as nat);
    let given = printed(call.arguments);
    lemma_shows(a, n, b + m + c + call.name + d + given + e);
    assert(a + n + (b + m + c + call.name + d + given + e) =~= a + n + b + m + c + call.name + d
        + given + e);
    lemma_shows(a + n + b, m, c + call.name + d + given + e);
    assert(a + n + b + m + (c + call.name + d + given + e) =~= a + n + b + m + c + call.name + d
        + given + e);
    lemma_shows(a + n + b + m + c, call.name, d + given + e);
    assert(a + n + b + m + c + call.name + (d + given + e) =~= a + n + b + m + c + call.name + d
        + given + e);
    lemma_shows(a + n + b + m + c + call.name + d, given, e);
}

/// A repetition is told with its skill and its counts; where it is interrupted there is a warning
/// with the reason as well.
pub proof fn repetitions_are_told(progress: BatchProgressModel)
    ensures
        ({
            let lines = batch_lines(progress);
            &&& lines.len() == if progress.status == BatchStatus::Interrupted {
                2nat
            } else {
                1nat
            }
            &&& shows(lines[0], progress.request.call().name)
            &&& shows(lines[0], text::decimal(progress.completed as nat))
            &&& shows(lines[0], text::decimal(progress.successful as nat))
            &&& shows(lines[0], text::decimal(progress.attempts as nat))
            &&& progress.status == BatchStatus::Interrupted ==> shows(lines[1], progress.message)
                && (progress.remaining matches Some(n) ==> shows(
                lines[1],
                text::decimal(n as nat),
            ))
        }),
{
    let name = progress.request.call().name;
    let done = completion(progress);
    let good = text::decimal(progress.successful as nat);
    let tries = text::decimal(progress.attempts as nat);
    let word = batch_word(progress.status);
    let count = text::decimal(progress.completed as nat);
    let lines = batch_lines(progress);
    lemma_four_parts(
        "[INFO] 批次 `"@,
        name,
        "`："@,
        done,
        "，达成效果 "@,
        good,
        " 次，尝试 "@,
        tries,
        " 次，状态 "@,
        word,
    );
    match progress.request {
        BatchRequestModel::Repeat(request) => {
            let times = text::decimal(request.times as nat);
            lemma_shows("已完成 "@, count, "/"@ + times + " 次"@);
            assert("已完成 "@ + count + ("/"@ + times + " 次"@) =~= done);
        },
        BatchRequestModel::UntilDone(_) => {
            let end = if progress.finished {
                "Adapter 已确认完成"@
            } else {
                "等待 Adapter 确认完成"@
            };
            lemma_shows("已执行 "@, count, " 步，"@ + end);
            assert("已执行 "@ + count + (" 步，"@ + end) =~= done);
        },
    }
    lemma_shows_within(lines[0], done, count);
    if progress.status == BatchStatus::Interrupted {
        let (f, g, k) = ("[WARN] 批次中断："@, "；"@, "，交回决策器处理"@);
        let left = left_over(progress.remaining);
        lemma_shows(f, progress.message, g + left + k);
        assert(f + progress.message + (g + left + k) =~= lines[1]);
        lemma_shows(f + progress.message + g, left, k);
        if let Some(n) = progress.remaining {
            lemma_shows("剩余 "@, text::decimal(n as nat), " 次"@);
            lemma_shows_within(lines[1], left, text::decimal(n as nat));
        }
    }
}

proof fn lemma_shows_within(line: Text, part: Text, inner: Text)
    requires
        shows(line, part),
        shows(part, inner),
    ensures
        shows(line, inner),
{
    let i = choose|i: int|
        0 <= i <= line.len() - part.len() && #[trigger] line.subrange(i, i + part.len()) == part;
    let j = choose|j: int|
        0 <= j <= part.len() - inner.len() && #[trigger] part.subrange(j, j + inner.len()) == inner;
    assert(line.subrange(i + j, i + j + inner.len()) =~= inner) by {
        assert forall|k: int| 0 <= k < inner.len() implies line[i + j + k] == inner[k] by {
            assert(line.subrange(i, i + part.len())[j + k] == line[i + j + k]);
            assert(part.subrange(j, j + inner.len())[k] == part[j + k]);
        }
    }
}

proof fn lemma_four_parts(
    a: Text,
    w: Text,
    b: Text,
    x: Text,
    c: Text,
    y: Text,
    d: Text,
    z: Text,
    e: Text,
    f: Text,
)
    ensures
        shows(a + w + b + x + c + y + d + z + e + f, w),
        shows(a + w + b + x + c + y + d + z + e + f, x),
        shows(a + w + b + x + c + y + d + z + e + f, y),
        shows(a + w + b + x + c + y + d + z + e + f, z),
{
    let line = a + w + b + x + c + y + d + z + e + f;
    let p = a + w + b;
    lemma_shows(a, w, b);
    lemma_longer(p, w, x + c + y + d + z + e + f);
    assert(p + (x + c + y + d + z + e + f) =~= line);
    let q = p + x + c;
    lemma_shows(p, x, c);
    lemma_longer(q, x, y + d + z + e + f);
    assert(q + (y + d + z + e + f) =~= line);
    let r = q + y + d;
    lemma_shows(q, y, d);
    lemma_longer(r, y, z + e + f);
    assert(r + (z + e + f) =~= line);
    lemma_shows(r, z, e + f);
    assert(r + z + (e + f) =~= line);
}

proof fn lemma_longer(line: Text, part: Text, tail: Text)
    requires
        shows(line, part),
    ensures
        shows(line + tail, part),
{
    let i = choose|i: int|
        0 <= i <= line.len() - part.len() && #[trigger] line.subrange(i, i + part.len()) == part;
    assert((line + tail).subrange(i, i + part.len()) =~= part) by {
        assert forall|k: int| 0 <= k < part.len() implies (line + tail)[i + k] == part[k] by {
            assert(line.subrange(i, i + part.len())[k] == line[i + k]);
        }
    }
}

/// The decisions are counted, and every event is told by the lines that are for it.
pub proof fn decisions_are_counted(reporter: Reporter, event: EventModel)
    requires
        reporter.step < usize::MAX,
    ensures
        reporter.counted(event) == reporter.step + (if event is Decided {
            1int
        } else {
            0
        }),
        event_lines(reporter.step, reporter.max_decisions, event) == match event {
            EventModel::SkillsResolved { step, skills, guidance } => offer_lines(
                step,
                skills,
                guidance,
            ) + unavailable_lines(skills),
            EventModel::SkillsInjected { names, directory_count } => injected_lines(
                reporter.step,
                names,
                directory_count,
            ),
            EventModel::SkillsLoaded(result) => loaded_lines(result),
            EventModel::Decided(decision) => decision_lines(reporter.step, decision),
            EventModel::Executed(result) => executed_lines(
                reporter.step,
                reporter.max_decisions,
                result,
            ),
            EventModel::ExecutionFailed(failure) => failed_lines(failure),
            EventModel::BatchProgress(progress) => batch_lines(progress),
            EventModel::ExecutionProgress(progress) => execution_lines(progress),
            EventModel::ActionStarted { index, total, call } => started_lines(index, total, call),
            EventModel::ExecutionRejected(reason) => seq!["[WARN] 拒绝执行："@ + reason],
            EventModel::Observed(_) => event_lines(reporter.step, reporter.max_decisions, event),
        },
        event is Observed ==> event_lines(reporter.step, reporter.max_decisions, event).len() == 1,
{
}

/// A failure is told with its message, as a warning.
pub proof fn failures_are_told(failure: ExecutionFailureModel)
    ensures
        failed_lines(failure).len() == 1,
        shows(failed_lines(failure)[0], failure.message),
        shows(failed_lines(failure)[0], stage_word(failure.stage)),
{
    let (a, b) = ("[WARN] "@, "失败："@);
    let word = stage_word(failure.stage);
    lemma_shows(a, word, b + failure.message);
    assert(a + word + (b + failure.message) =~= a + word + b + failure.message);
    lemma_shows(a + word + b, failure.message, Seq::empty());
}

/// An execution is told only where it is interrupted: how far it is, and why.
pub proof fn interruptions_are_told(progress: ExecutionProgressModel)
    ensures
        ({
            let lines = execution_lines(progress);
            &&& lines.len() == if progress.status == ExecutionStatus::Interrupted {
                1nat
            } else {
                0nat
            }
            &&& lines.len() == 1 ==> shows(lines[0], progress.message) && shows(
                lines[0],
                text::decimal(progress.completed as nat),
            ) && shows(lines[0], text::decimal(progress.actions.len()))
        }),
{
    let (a, b, c) = ("[WARN] 执行中断：已完成 "@, "/"@, " 个动作；"@);
    let n = text::decimal(progress.completed as nat);
    let m = text::decimal(progress.actions.len());
    let message = progress.message;
    lemma_shows(a, n, b + m + c + message);
    assert(a + n + (b + m + c + message) =~= a + n + b + m + c + message);
    lemma_shows(a + n + b, m, c + message);
    assert(a + n + b + m + (c + message) =~= a + n + b + m + c + message);
    lemma_shows(a + n + b + m + c, message, Seq::empty());
}

/// The end of a run is told in one line: with the number of decisions, and with the reason where it
/// failed for another than the limit of decisions.
pub proof fn ends_are_told(outcome: OutcomeModel)
    ensures
        ({
            let lines = outcome_lines(outcome);
            &&& lines.len() == 1
            &&& outcome.status != Status::Cancelled ==> shows(
                lines[0],
                text::decimal(outcome.decisions as nat),
            )
            &&& outcome.status == Status::Failed && outcome.reason != "decision limit reached"@
                ==> shows(lines[0], outcome.reason)
            &&& lines[0][1] == if outcome.status == Status::Completed {
                'I'
            } else {
                'W'
            }
        }),
{
    let n = text::decimal(outcome.decisions as nat);
    reveal_strlit("[WARN] 用户取消任务，已完成动作不会回滚");
    reveal_strlit("[INFO] 任务完成，共 ");
    reveal_strlit("[WARN] 任务未完成：已达到 ");
    reveal_strlit("[WARN] 任务未完成，共 ");
    lemma_shows("[INFO] 任务完成，共 "@, n, " 步决策"@);
    lemma_shows("[WARN] 任务未完成：已达到 "@, n, " 步决策上限"@);
    let (a, b) = ("[WARN] 任务未完成，共 "@, " 步决策："@);
    lemma_shows(a, n, b + outcome.reason);
    assert(a + n + (b + outcome.reason) =~= a + n + b + outcome.reason);
    lemma_shows(a + n + b, outcome.reason, Seq::empty());
}

/// Seconds are written with three decimals, which are the milliseconds.
pub proof fn seconds_have_three_decimals(ms: u64)
    ensures
        ({
            let written = seconds(ms);
            let n = written.len() as int;
            let whole = written.take(n - 4);
            let decimals = written.skip(n - 3);
            &&& n >= 5
            &&& whole == text::decimal((ms / 1000) as nat)
            &&& written[n - 4] == '.'
            &&& text::all_digits(decimals)
            &&& text::digits_value(decimals) == ms % 1000
        }),
{
    let rest = (ms % 1000) as nat;
    let zeros = if rest < 10 {
        "00"@
    } else if rest < 100 {
        "0"@
    } else {
        ""@
    };
    let digits = text::decimal(rest);
    let head = text::decimal((ms / 1000) as nat);
    reveal_strlit("00");
    reveal_strlit("0");
    reveal_strlit("");
    reveal_strlit(".");
    reveal_with_fuel(text::decimal, 4);
    text::decimal_is_digits(rest);
    text::decimal_is_digits((ms / 1000) as nat);
    assert(digits.len() == if rest < 10 {
        1nat
    } else if rest < 100 {
        2nat
    } else {
        3nat
    });
    let written = seconds(ms);
    let n = written.len() as int;
    assert(n == head.len() + 4);
    assert(written.take(n - 4) =~= head);
    let decimals = written.skip(n - 3);
    assert(decimals =~= zeros + digits);
    assert forall|i: int| 0 <= i < decimals.len() implies text::is_digit(
        #[trigger] decimals[i],
    ) by {
        if i < zeros.len() {
            assert(decimals[i] == '0');
        } else {
            assert(decimals[i] == digits[i - zeros.len()]);
        }
    }
    lemma_leading_zeros(zeros, digits);
}

proof fn lemma_leading_zeros(zeros: Text, digits: Text)
    requires
        forall|i: int| 0 <= i < zeros.len() ==> #[trigger] zeros[i] == '0',
    ensures
        text::digits_value(zeros + digits) == text::digits_value(digits),
    decreases digits.len(), zeros.len(),
{
    if digits.len() > 0 {
        lemma_leading_zeros(zeros, digits.drop_last());
        assert((zeros + digits).drop_last() =~= zeros + digits.drop_last());
        assert((zeros + digits).last() == digits.last());
    } else if zeros.len() > 0 {
        assert(zeros + digits =~= zeros);
        lemma_leading_zeros(zeros.drop_last(), digits);
        assert(zeros.drop_last() + digits =~= zeros.drop_last());
        assert(zeros.last() == zeros[zeros.len() - 1]);
    } else {
        assert(zeros + digits =~= digits);
    }
}

/// The summary of a task tells how it ended, and every count.
pub proof fn summaries_are_told(status: TaskStatus, summary: TaskSummary)
    ensures
        ({
            let lines = summary_lines(status, summary);
            &&& lines.len() == 5
            &&& shows(lines[0], end_word(status))
            &&& shows(lines[1], text::decimal(summary.model_requests.total as nat))
            &&& shows(lines[1], text::decimal(summary.model_requests.succeeded as nat))
            &&& shows(lines[1], text::decimal(summary.model_requests.failed as nat))
            &&& shows(lines[2], text::decimal(summary.actions.total as nat))
            &&& shows(lines[2], text::decimal(summary.actions.succeeded as nat))
            &&& shows(lines[2], text::decimal(summary.actions.failed as nat))
            &&& shows(lines[3], text::decimal(summary.interruptions as nat))
            &&& shows(lines[4], seconds(summary.elapsed_ms))
        }),
{
    lemma_shows("[INFO] 任务结束："@, end_word(status), Seq::empty());
    lemma_shows("[INFO] 执行中断："@, text::decimal(summary.interruptions as nat), " 次"@);
    lemma_shows("[INFO] 总耗时："@, seconds(summary.elapsed_ms), " 秒"@);
    lemma_three_counts(
        "[INFO] 大模型请求："@,
        text::decimal(summary.model_requests.total as nat),
        " 次（成功 "@,
        text::decimal(summary.model_requests.succeeded as nat),
        "，失败 "@,
        text::decimal(summary.model_requests.failed as nat),
        "）"@,
    );
    lemma_three_counts(
        "[INFO] 动作调用："@,
        text::decimal(summary.actions.total as nat),
        " 次（正常 "@,
        text::decimal(summary.actions.succeeded as nat),
        "，中断或报错 "@,
        text::decimal(summary.actions.failed as nat),
        "）"@,
    );
}

proof fn lemma_three_counts(a: Text, x: Text, b: Text, y: Text, c: Text, z: Text, d: Text)
    ensures
        shows(a + x + b + y + c + z + d, x),
        shows(a + x + b + y + c + z + d, y),
        shows(a + x + b + y + c + z + d, z),
{
    lemma_shows(a, x, b + y + c + z + d);
    assert(a + x + (b + y + c + z + d) =~= a + x + b + y + c + z + d);
    lemma_shows(a + x + b, y, c + z + d);
    assert(a + x + b + y + (c + z + d) =~= a + x + b + y + c + z + d);
    lemma_shows(a + x + b + y + c, z, d);
}

} // verus!
