//! A host for trying single skills: no model, no planner, no retries.
use crate::api::{
    control_error, find_skill, skill_named, ActionReport, ActionReportModel, AdapterError,
    AdapterErrorModel, AppState, ExecutionControl, ExecutionFailure, ExecutionFailureModel,
    FailureStage, Skill, SkillContext, SkillContextModel, SkillModel, ToolCall, ToolCallModel,
    ToolResult, ToolResultModel,
};
use crate::clock::Nanos;
use crate::copy::Dup;
use crate::failure_guard::answer;
use crate::json::printed;
use crate::sdk::{Host, Registry};
use crate::text;
use crate::text::Text;
use vstd::prelude::*;

verus! {

/// What the host remembers between calls.
#[derive(Debug)]
pub struct Runtime {
    pub host: Host,
    pub goal: String,
    pub step: u64,
    pub previous: Option<ToolResult>,
    pub failure: Option<ExecutionFailure>,
}

#[verifier::ext_equal]
pub struct RuntimeModel {
    pub messages: Seq<Text>,
    pub goal: Text,
    pub step: u64,
    pub previous: Option<ToolResultModel>,
    pub failure: Option<ExecutionFailureModel>,
}

impl View for Runtime {
    type V = RuntimeModel;

    open spec fn view(&self) -> RuntimeModel {
        RuntimeModel {
            messages: self.host@,
            goal: self.goal@,
            step: self.step,
            previous: self.previous.deep_view(),
            failure: self.failure.deep_view(),
        }
    }
}

/// Why a call is refused before it has any effect.
pub open spec fn refusal(skills: Seq<SkillModel>, call: ToolCallModel) -> Option<
    AdapterErrorModel,
> {
    match skill_named(skills, call.name) {
        None => Some(AdapterErrorModel::Invalid("unknown skill: "@ + call.name)),
        Some(skill) => if skill.availability is Available {
            None
        } else {
            Some(AdapterErrorModel::Invalid("skill unavailable: "@ + call.name))
        },
    }
}

impl RuntimeModel {
    /// A call is about to be made.
    pub open spec fn invoking(self, call: ToolCallModel) -> Self {
        let step = (self.step + 1) as u64;
        RuntimeModel {
            step,
            messages: self.messages.push(
                "步骤 "@ + text::decimal(step as nat) + "：调用 "@ + call.name + "，参数 "@
                    + printed(call.arguments),
            ),
            ..self
        }
    }

    /// A call was made.
    pub open spec fn invoked(self, call: ToolCallModel, result: ToolResultModel) -> Self {
        RuntimeModel {
            failure: if result.success {
                None
            } else {
                Some(
                    ExecutionFailureModel {
                        stage: FailureStage::Execution,
                        call: Some(call),
                        message: result.message,
                    },
                )
            },
            previous: Some(result),
            messages: self.messages.push(
                (if result.success {
                    "正常返回"@
                } else {
                    "执行中断或失败"@
                }) + "："@ + result.message,
            ),
            ..self
        }
    }
}

/// What is remembered of an answer.
pub open spec fn remembered(
    call: ToolCallModel,
    report: Result<ActionReportModel, AdapterErrorModel>,
) -> ToolResultModel {
    match report {
        Ok(report) => ToolResultModel {
            outcome: Some(report.outcome),
            call,
            success: report.outcome.normal(),
            message: report.message,
        },
        Err(error) => ToolResultModel {
            outcome: None,
            call,
            success: false,
            message: error.message(),
        },
    }
}

fn remember(call: &ToolCall, report: &Result<ActionReport, AdapterError>) -> (r: ToolResult)
    ensures
        r@ == remembered(call@, answer(*report)),
{
    match report {
        Ok(report) => ToolResult {
            outcome: Some(report.outcome),
            call: call.dup(),
            success: report.outcome.is_normal(),
            message: report.message.dup(),
        },
        Err(error) => ToolResult {
            outcome: None,
            call: call.dup(),
            success: false,
            message: error.message(),
        },
    }
}

impl Runtime {
    /// A host for one adapter that can be made.
    pub fn new(registry: &Registry, name: &str, goal: String, host: Host) -> (r: Result<
        Runtime,
        AdapterError,
    >)
        ensures
            match r {
                Ok(runtime) => registry@.contains(name@) && runtime@ == (RuntimeModel {
                    messages: host@,
                    goal: goal@,
                    step: 0,
                    previous: None,
                    failure: None,
                }),
                Err(error) => !registry@.contains(name@) && error@ == crate::sdk::missing(name@),
            },
    {
        match registry.create(name) {
            Ok(()) => {},
            Err(error) => {
                return Err(error);
            },
        }
        Ok(Runtime { host, goal, step: 0, previous: None, failure: None })
    }

    /// What the adapter may base its decision material on. No interruption is ever pending.
    pub fn context<'a>(&'a self, state: &'a AppState) -> (r: SkillContext<'a>)
        requires
            self@.step < usize::MAX,
        ensures
            r@ == (SkillContextModel {
                state: state@,
                task_goal: self@.goal,
                decision_step: (self@.step + 1) as nat,
                previous_result: self@.previous,
                failure: self@.failure,
                interruption: None,
            }),
    {
        SkillContext {
            state,
            task_goal: self.goal.as_str(),
            decision_step: self.step as usize + 1,
            previous_result: self.previous.as_ref(),
            failure: self.failure.as_ref(),
            interruption: None,
        }
    }

    /// Accepts a call of a skill that is offered as available, and announces it.
    pub fn accept(
        &mut self,
        skills: &Vec<Skill>,
        call: &ToolCall,
        control: &ExecutionControl,
        now: Nanos,
    ) -> (r: Result<(), AdapterError>)
        requires
            old(self)@.step < u64::MAX,
        ensures
            match r {
                Ok(()) => control_error(control.cancellation@, control.deadline, now) is None
                    && refusal(skills.deep_view(), call@) is None && final(self)@
                    == old(self)@.invoking(call@),
                Err(error) => final(self)@ == old(self)@ && match control_error(
                    control.cancellation@,
                    control.deadline,
                    now,
                ) {
                    Some(stop) => error@ == stop,
                    None => refusal(skills.deep_view(), call@) == Some(error@),
                },
            },
    {
        match control.check(now) {
            Ok(()) => {},
            Err(error) => {
                return Err(error);
            },
        }
        match find_skill(skills, call.name.as_str()) {
            None => {
                return Err(
                    AdapterError::Invalid(text::cat2("unknown skill: ", call.name.as_str())),
                );
            },
            Some(skill) => {
                if !skill.availability.is_available() {
                    return Err(
                        AdapterError::Invalid(
                            text::cat2("skill unavailable: ", call.name.as_str()),
                        ),
                    );
                }
            },
        }
        self.step = self.step + 1;
        let mut message = text::cat3("步骤 ", text::numeral(self.step).as_str(), "：调用 ");
        message.append(call.name.as_str());
        message.append("，参数 ");
        message.append(call.arguments.to_text().as_str());
        self.host.info(message.as_str());
        Ok(())
    }

    /// Remembers what came of a call that was accepted, and reports it.
    pub fn record(&mut self, call: &ToolCall, report: &Result<ActionReport, AdapterError>)
        ensures
            final(self)@ == old(self)@.invoked(call@, remembered(call@, answer(*report))),
    {
        let result = remember(call, report);
        self.failure = if result.success {
            None
        } else {
            Some(
                ExecutionFailure {
                    stage: FailureStage::Execution,
                    call: Some(call.dup()),
                    message: result.message.dup(),
                },
            )
        };
        let message = text::cat3(
            if result.success {
                "正常返回"
            } else {
                "执行中断或失败"
            },
            "：",
            result.message.as_str(),
        );
        self.host.info(message.as_str());
        self.previous = Some(result);
    }
}

/// A refused call leaves no trace: only a skill that is offered as available is ever announced.
pub proof fn only_available_skills_are_accepted(skills: Seq<SkillModel>, call: ToolCallModel)
    ensures
        refusal(skills, call) is None <==> (skill_named(skills, call.name) matches Some(skill)
            && skill.availability is Available),
{
}

/// A call that is made is announced with its number, and its end is remembered: what failed is the
/// latest failure, and what ended normally leaves none.
pub proof fn calls_are_remembered(
    runtime: RuntimeModel,
    call: ToolCallModel,
    report: Result<ActionReportModel, AdapterErrorModel>,
)
    requires
        runtime.step < u64::MAX,
    ensures
        ({
            let begun = runtime.invoking(call);
            let result = remembered(call, report);
            let after = begun.invoked(call, result);
            let normal = report matches Ok(report) && !(report.outcome is Interrupted);
            &&& begun.step == runtime.step + 1
            &&& begun.messages.len() == runtime.messages.len() + 1
            &&& after.messages.len() == runtime.messages.len() + 2
            &&& after.previous == Some(result)
            &&& result.call == call
            &&& result.success == normal
            &&& result.message == match report {
                Ok(report) => report.message,
                Err(error) => error.message(),
            }
            &&& result.outcome == match report {
                Ok(report) => Some(report.outcome),
                Err(_) => None,
            }
            &&& after.failure is None <==> normal
            &&& after.failure matches Some(failure) ==> failure.call == Some(call)
                && failure.message == result.message && failure.stage == FailureStage::Execution
            &&& after.goal == runtime.goal
        }),
{
}

} // verus!
