//! Decisions that a person types, independent of model providers.
use crate::api::{AppState, AppStateModel, ToolResult, ToolResultModel};
use crate::copy::Dup;
use crate::diagnostics::{DecisionLog, DecisionLogModel, LogEvent, LogEventModel};
use crate::json::{printed, Json, JsonModel};
use crate::kernel::{Decision, DecisionModel, Error, ErrorModel, Task};
use crate::skills::{SkillView, SkillViewModel};
use crate::text;
use crate::text::Text;
use crate::wire::{result_json, result_to_json, state_json, state_to_json, view_json, view_to_json};
use vstd::prelude::*;

verus! {

/// What came of asking for a decision.
#[derive(Debug)]
pub enum Typed {
    /// The prompt could not be written.
    PromptFailed(String),
    /// The line could not be read.
    InputFailed(String),
    /// There is no line any more.
    Ended,
    /// The line is no decision.
    Malformed(String),
    Decision(Decision),
}

#[verifier::ext_equal]
pub enum TypedModel {
    PromptFailed(Text),
    InputFailed(Text),
    Ended,
    Malformed(Text),
    Decision(DecisionModel),
}

impl View for Typed {
    type V = TypedModel;

    open spec fn view(&self) -> TypedModel {
        match self {
            Typed::PromptFailed(a) => TypedModel::PromptFailed(a@),
            Typed::InputFailed(a) => TypedModel::InputFailed(a@),
            Typed::Ended => TypedModel::Ended,
            Typed::Malformed(a) => TypedModel::Malformed(a@),
            Typed::Decision(a) => TypedModel::Decision(a@),
        }
    }
}

impl DeepView for Typed {
    type V = TypedModel;

    open spec fn deep_view(&self) -> TypedModel {
        self@
    }
}

impl Dup for Typed {
    fn dup(&self) -> (r: Self) {
        match self {
            Typed::PromptFailed(a) => Typed::PromptFailed(a.dup()),
            Typed::InputFailed(a) => Typed::InputFailed(a.dup()),
            Typed::Ended => Typed::Ended,
            Typed::Malformed(a) => Typed::Malformed(a.dup()),
            Typed::Decision(a) => Typed::Decision(a.dup()),
        }
    }
}

impl TypedModel {
    /// The decision, or why there is none.
    pub open spec fn decision(self) -> Result<DecisionModel, ErrorModel> {
        match self {
            TypedModel::PromptFailed(e) => Err(ErrorModel::Invalid("manual prompt: "@ + e)),
            TypedModel::InputFailed(e) => Err(ErrorModel::Invalid("manual input: "@ + e)),
            TypedModel::Ended => Err(
                ErrorModel::Invalid("manual input ended before a decision was provided"@),
            ),
            TypedModel::Malformed(e) => Err(
                ErrorModel::Invalid("invalid manual Decision JSON: "@ + e),
            ),
            TypedModel::Decision(decision) => Ok(decision),
        }
    }
}

/// What is shown of a decision to be made.
pub open spec fn input_json(
    goal: Text,
    state: AppStateModel,
    view: SkillViewModel,
    previous: Option<ToolResultModel>,
) -> JsonModel {
    JsonModel::empty().with(
        "task"@,
        JsonModel::empty().with("goal"@, JsonModel::Text(goal)),
    ).with("app_state"@, state_json(state)).with("skills"@, view_json(view)).with(
        "previous_tool_result"@,
        match previous {
            Some(result) => result_json(result),
            None => JsonModel::Null,
        },
    )
}

/// How a decision is asked for.
pub open spec fn prompt_text(input: JsonModel) -> Text {
    "[MANUAL] 当前决策上下文："@ + printed(input) + "\n"@ + "[MANUAL] 输入 Execute，actions 为有序 Call/Repeat/UntilDone 列表，then 为 Decide 或 Finish。UntilDone 接收工具调用，按 Adapter 的 Continue 本地循环，Completed 才结束。异常恢复输入 \"Resume\"；或 ReplaceRemaining（同样提供 actions、then）替换未完成部分。挂起循环须首项承接同一 UntilDone，固定批次须首项承接同一 Repeat 且次数填 remaining；原进度和预算保留。finished=true 但观察失败时用 Resume。可执行单个 Call + Decide 修复，或 LoadSkills 加载工具。Completed/Failed 直接结束。"@
}

/// How a decision is asked for.
pub fn prompt(input: &Json) -> (r: String)
    ensures
        r@ == prompt_text(input@),
{
    let mut message = text::cat3("[MANUAL] 当前决策上下文：", input.to_text().as_str(), "\n");
    message.append(
        "[MANUAL] 输入 Execute，actions 为有序 Call/Repeat/UntilDone 列表，then 为 Decide 或 Finish。UntilDone 接收工具调用，按 Adapter 的 Continue 本地循环，Completed 才结束。异常恢复输入 \"Resume\"；或 ReplaceRemaining（同样提供 actions、then）替换未完成部分。挂起循环须首项承接同一 UntilDone，固定批次须首项承接同一 Repeat 且次数填 remaining；原进度和预算保留。finished=true 但观察失败时用 Resume。可执行单个 Call + Decide 修复，或 LoadSkills 加载工具。Completed/Failed 直接结束。",
    );
    message
}

/// What is recorded of a decision that was asked for.
pub open spec fn logged(result: Result<DecisionModel, ErrorModel>) -> LogEventModel {
    match result {
        Ok(decision) => LogEventModel::ManualDecision(decision),
        Err(error) => LogEventModel::ManualError(error.message()),
    }
}

/// Asks a person for decisions. The arguments of a call need not be among the candidates of its
/// skill.
#[derive(Debug)]
pub struct ManualAgent {
    pub log: DecisionLog,
}

impl View for ManualAgent {
    type V = DecisionLogModel;

    open spec fn view(&self) -> DecisionLogModel {
        self.log@
    }
}

impl ManualAgent {
    /// A person, in a session to which the host gives a name of its own.
    pub fn new(session_id: String) -> (r: Self)
        ensures
            r@ == (DecisionLogModel {
                provider: "manual"@,
                session_id: session_id@,
                task_id: None,
                request_id: 0,
            }),
    {
        ManualAgent { log: DecisionLog::new("manual", session_id) }
    }

    /// Decisions are those of a task from now on.
    pub fn bind_task(&mut self, task_id: &str)
        ensures
            final(self)@ == (DecisionLogModel {
                task_id: Some(task_id@),
                request_id: 0,
                ..old(self)@
            }),
    {
        self.log.bind_task(task_id);
    }

    /// Prepares a decision to be asked for: what is shown, and recorded before it is.
    pub fn ask(
        &mut self,
        task: &Task,
        state: &AppState,
        view: &SkillView,
        previous: Option<&ToolResult>,
    ) -> (r: Json)
        requires
            old(self)@.request_id < u64::MAX,
        ensures
            final(self)@ == (DecisionLogModel {
                request_id: (old(self)@.request_id + 1) as u64,
                ..old(self)@
            }),
            r@ == input_json(task.goal@, state@, view@, previous.deep_view()),
    {
        self.log.next_request();
        let mut goal: Json = Json::object();
        goal.set("goal", Json::text(task.goal.as_str()));
        let mut input: Json = Json::object();
        input.set("task", goal);
        input.set("app_state", state_to_json(state));
        input.set("skills", view_to_json(view));
        input.set(
            "previous_tool_result",
            match previous {
                Some(result) => result_to_json(result),
                None => Json::Null,
            },
        );
        input
    }

    /// What came of asking: the decision or why there is none, and what is recorded of it.
    pub fn answer(&self, typed: Typed) -> (r: (Result<Decision, Error>, LogEvent))
        ensures
            match r.0 {
                Ok(decision) => typed@.decision() == Ok::<DecisionModel, ErrorModel>(decision@),
                Err(error) => typed@.decision() == Err::<DecisionModel, ErrorModel>(error@),
            },
            r.1@ == logged(typed@.decision()),
    {
        let result: Result<Decision, Error> = match typed {
            Typed::PromptFailed(e) => Err(
                Error::Invalid(text::cat2("manual prompt: ", e.as_str())),
            ),
            Typed::InputFailed(e) => Err(Error::Invalid(text::cat2("manual input: ", e.as_str()))),
            Typed::Ended => Err(
                Error::Invalid("manual input ended before a decision was provided".to_owned()),
            ),
            Typed::Malformed(e) => Err(
                Error::Invalid(text::cat2("invalid manual Decision JSON: ", e.as_str())),
            ),
            Typed::Decision(decision) => Ok(decision),
        };
        let event = match &result {
            Ok(decision) => LogEvent::ManualDecision(decision.dup()),
            Err(error) => LogEvent::ManualError(error.message()),
        };
        (result, event)
    }
}

/// A person is shown the task, the state, the skills and what the last call brought.
pub proof fn people_are_shown_what_they_decide_by(
    goal: Text,
    state: AppStateModel,
    view: SkillViewModel,
    previous: Option<ToolResultModel>,
)
    ensures
        ({
            let shown = input_json(goal, state, view, previous);
            &&& shown.at("task"@).at("goal"@) == JsonModel::Text(goal)
            &&& shown.at("app_state"@) == state_json(state)
            &&& shown.at("skills"@) == view_json(view)
            &&& shown.at("previous_tool_result"@) == match previous {
                Some(result) => result_json(result),
                None => JsonModel::Null,
            }
        }),
{
    reveal_strlit("task");
    reveal_strlit("app_state");
    reveal_strlit("skills");
    reveal_strlit("previous_tool_result");
    assert("task"@.len() == 4);
    assert("app_state"@.len() == 9);
    assert("skills"@.len() == 6);
    assert("previous_tool_result"@.len() == 20);
}

/// What a person types is decided as it stands, and everything else is an error that says what was
/// wrong; either is recorded.
pub proof fn typed_decisions_are_taken(typed: TypedModel)
    ensures
        typed.decision() is Ok <==> typed is Decision,
        typed matches TypedModel::Decision(decision) ==> typed.decision() == Ok::<
            DecisionModel,
            ErrorModel,
        >(decision),
        typed.decision() is Err ==> typed.decision()->Err_0 is Invalid,
        logged(typed.decision()) == match typed.decision() {
            Ok(decision) => LogEventModel::ManualDecision(decision),
            Err(error) => LogEventModel::ManualError(error.message()),
        },
{
}

} // verus!
