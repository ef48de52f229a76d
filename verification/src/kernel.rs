//! Application-independent contracts of decisions and their bounded execution.
use crate::api::{
    Action, ActionModel, AdapterError, AdapterErrorModel, AppState, AppStateModel, ExecutionFailure,
    ExecutionFailureModel, Skill, SkillModel, ToolCall, ToolCallModel, ToolResult, ToolResultModel,
};
use crate::batch::{BatchProgress, BatchProgressModel};
use crate::clock::{find_after, Nanos, CLOCK_END};
use crate::copy::{Dup, Same};
use crate::execution::{ExecutionProgress, ExecutionProgressModel};
use crate::metrics::TaskSummary;
use crate::skills::{LoadResult, LoadResultModel, LoadSkills, LoadSkillsModel};
use crate::api::{find_skill, skill_index, skill_index_is_first, skill_named, FailureStage};
use crate::batch::MAX_REPEAT;
use crate::execution::MAX_ACTIONS;
use crate::skills::SkillMode;
use crate::text;
use crate::text::Text;
use vstd::prelude::*;

verus! {

/// Why a task could not be run to an outcome.
#[derive(Debug)]
pub enum Error {
    Logging(String),
    Invalid(String),
    Model(String),
    Adapter(AdapterError),
}

#[verifier::ext_equal]
pub enum ErrorModel {
    Logging(Text),
    Invalid(Text),
    Model(Text),
    Adapter(AdapterErrorModel),
}

impl View for Error {
    type V = ErrorModel;

    open spec fn view(&self) -> ErrorModel {
        match self {
            Error::Logging(a) => ErrorModel::Logging(a@),
            Error::Invalid(a) => ErrorModel::Invalid(a@),
            Error::Model(a) => ErrorModel::Model(a@),
            Error::Adapter(a) => ErrorModel::Adapter(a@),
        }
    }
}

impl DeepView for Error {
    type V = ErrorModel;

    open spec fn deep_view(&self) -> ErrorModel {
        self@
    }
}

impl Dup for Error {
    fn dup(&self) -> (r: Self) {
        match self {
            Error::Logging(a) => Error::Logging(a.dup()),
            Error::Invalid(a) => Error::Invalid(a.dup()),
            Error::Model(a) => Error::Model(a.dup()),
            Error::Adapter(a) => Error::Adapter(a.dup()),
        }
    }
}

/// Applied only after the actions complete normally, never after an interruption.
#[derive(Debug, Clone, Copy, PartialEq, Eq, Structural)]
pub enum Continuation {
    Decide,
    Finish,
}

impl DeepView for Continuation {
    type V = Continuation;

    open spec fn deep_view(&self) -> Continuation {
        *self
    }
}

impl Dup for Continuation {
    fn dup(&self) -> (r: Self) {
        *self
    }
}

/// What an agent may decide.
#[derive(Debug)]
pub enum Decision {
    Execute { actions: Vec<Action>, then: Continuation },
    /// Replace an interrupted suffix. An active batch must be carried forward first.
    ReplaceRemaining { actions: Vec<Action>, then: Continuation },
    LoadSkills(LoadSkills),
    /// Resume the pending action with its original continuation.
    Resume,
    Completed(String),
    Failed(String),
}

#[verifier::ext_equal]
pub enum DecisionModel {
    Execute { actions: Seq<ActionModel>, then: Continuation },
    ReplaceRemaining { actions: Seq<ActionModel>, then: Continuation },
    LoadSkills(LoadSkillsModel),
    Resume,
    Completed(Text),
    Failed(Text),
}

impl View for Decision {
    type V = DecisionModel;

    open spec fn view(&self) -> DecisionModel {
        match self {
            Decision::Execute { actions, then } => DecisionModel::Execute { actions: actions.deep_view(), then: *then },
            Decision::ReplaceRemaining { actions, then } => DecisionModel::ReplaceRemaining { actions: actions.deep_view(), then: *then },
            Decision::LoadSkills(a) => DecisionModel::LoadSkills(a@),
            Decision::Resume => DecisionModel::Resume,
            Decision::Completed(a) => DecisionModel::Completed(a@),
            Decision::Failed(a) => DecisionModel::Failed(a@),
        }
    }
}

impl DeepView for Decision {
    type V = DecisionModel;

    open spec fn deep_view(&self) -> DecisionModel {
        self@
    }
}

impl Dup for Decision {
    fn dup(&self) -> (r: Self) {
        match self {
            Decision::Execute { actions, then } => Decision::Execute { actions: actions.dup(), then: *then },
            Decision::ReplaceRemaining { actions, then } => Decision::ReplaceRemaining { actions: actions.dup(), then: *then },
            Decision::LoadSkills(a) => Decision::LoadSkills(a.dup()),
            Decision::Resume => Decision::Resume,
            Decision::Completed(a) => Decision::Completed(a.dup()),
            Decision::Failed(a) => Decision::Failed(a.dup()),
        }
    }
}

/// What actions are compared by.
pub open spec fn plain_actions(actions: Seq<ActionModel>) -> Seq<ActionModel> {
    Seq::new(actions.len(), |i: int| actions[i].plain())
}

impl DecisionModel {
    /// What a decision is compared by.
    pub open spec fn plain(self) -> Self {
        match self {
            DecisionModel::Execute { actions, then } => DecisionModel::Execute {
                actions: plain_actions(actions),
                then,
            },
            DecisionModel::ReplaceRemaining { actions, then } => DecisionModel::ReplaceRemaining {
                actions: plain_actions(actions),
                then,
            },
            _ => self,
        }
    }
}

impl Same for Decision {
    open spec fn plain_of(value: DecisionModel) -> DecisionModel {
        value.plain()
    }

    fn same(&self, other: &Self) -> (r: bool) {
        proof {
            assert forall|actions: Seq<ActionModel>|
                #[trigger] Vec::<Action>::plain_of(actions) == plain_actions(actions) by {
                assert(Vec::<Action>::plain_of(actions) =~= plain_actions(actions));
            }
        }
        match (self, other) {
            (Decision::Execute { actions: a1, then: t1 }, Decision::Execute { actions: a2, then: t2 }) => a1.same(a2) && *t1 == *t2,
            (Decision::ReplaceRemaining { actions: a1, then: t1 }, Decision::ReplaceRemaining { actions: a2, then: t2 }) => a1.same(a2) && *t1 == *t2,
            (Decision::LoadSkills(a), Decision::LoadSkills(b)) => a.same(b),
            (Decision::Resume, Decision::Resume) => true,
            (Decision::Completed(a), Decision::Completed(b)) => a.same(b),
            (Decision::Failed(a), Decision::Failed(b)) => a.same(b),
            _ => false,
        }
    }
}

/// What a run reports, in order.
#[derive(Debug)]
pub enum Event {
    Observed(AppState),
    SkillsResolved { step: usize, skills: Vec<Skill>, guidance: String },
    SkillsInjected { names: Vec<String>, directory_count: usize },
    SkillsLoaded(LoadResult),
    Decided(Decision),
    Executed(ToolResult),
    ExecutionFailed(ExecutionFailure),
    ExecutionRejected(String),
    BatchProgress(BatchProgress),
    ExecutionProgress(ExecutionProgress),
    ActionStarted { index: usize, total: usize, call: ToolCall },
}

#[verifier::ext_equal]
pub enum EventModel {
    Observed(AppStateModel),
    SkillsResolved { step: usize, skills: Seq<SkillModel>, guidance: Text },
    SkillsInjected { names: Seq<Text>, directory_count: usize },
    SkillsLoaded(LoadResultModel),
    Decided(DecisionModel),
    Executed(ToolResultModel),
    ExecutionFailed(ExecutionFailureModel),
    ExecutionRejected(Text),
    BatchProgress(BatchProgressModel),
    ExecutionProgress(ExecutionProgressModel),
    ActionStarted { index: usize, total: usize, call: ToolCallModel },
}

impl View for Event {
    type V = EventModel;

    open spec fn view(&self) -> EventModel {
        match self {
            Event::Observed(a) => EventModel::Observed(a@),
            Event::SkillsResolved { step, skills, guidance } => EventModel::SkillsResolved { step: *step, skills: skills.deep_view(), guidance: guidance@ },
            Event::SkillsInjected { names, directory_count } => EventModel::SkillsInjected { names: names.deep_view(), directory_count: *directory_count },
            Event::SkillsLoaded(a) => EventModel::SkillsLoaded(a@),
            Event::Decided(a) => EventModel::Decided(a@),
            Event::Executed(a) => EventModel::Executed(a@),
            Event::ExecutionFailed(a) => EventModel::ExecutionFailed(a@),
            Event::ExecutionRejected(a) => EventModel::ExecutionRejected(a@),
            Event::BatchProgress(a) => EventModel::BatchProgress(a@),
            Event::ExecutionProgress(a) => EventModel::ExecutionProgress(a@),
            Event::ActionStarted { index, total, call } => EventModel::ActionStarted { index: *index, total: *total, call: call@ },
        }
    }
}

impl DeepView for Event {
    type V = EventModel;

    open spec fn deep_view(&self) -> EventModel {
        self@
    }
}

impl Dup for Event {
    fn dup(&self) -> (r: Self) {
        match self {
            Event::Observed(a) => Event::Observed(a.dup()),
            Event::SkillsResolved { step, skills, guidance } => Event::SkillsResolved { step: *step, skills: skills.dup(), guidance: guidance.dup() },
            Event::SkillsInjected { names, directory_count } => Event::SkillsInjected { names: names.dup(), directory_count: *directory_count },
            Event::SkillsLoaded(a) => Event::SkillsLoaded(a.dup()),
            Event::Decided(a) => Event::Decided(a.dup()),
            Event::Executed(a) => Event::Executed(a.dup()),
            Event::ExecutionFailed(a) => Event::ExecutionFailed(a.dup()),
            Event::ExecutionRejected(a) => Event::ExecutionRejected(a.dup()),
            Event::BatchProgress(a) => Event::BatchProgress(a.dup()),
            Event::ExecutionProgress(a) => Event::ExecutionProgress(a.dup()),
            Event::ActionStarted { index, total, call } => Event::ActionStarted { index: *index, total: *total, call: call.dup() },
        }
    }
}

/// How a task ended.
#[derive(Debug, Clone, Copy, PartialEq, Eq, Structural)]
pub enum Status {
    Cancelled,
    Completed,
    Failed,
}

impl DeepView for Status {
    type V = Status;

    open spec fn deep_view(&self) -> Status {
        *self
    }
}

impl Dup for Status {
    fn dup(&self) -> (r: Self) {
        *self
    }
}

/// The end of a task.
#[derive(Debug)]
pub struct Outcome {
    pub summary: TaskSummary,
    pub execution: Option<ExecutionProgress>,
    pub batch: Option<BatchProgress>,
    pub status: Status,
    pub reason: String,
    pub decisions: usize,
    pub state: AppState,
}

#[verifier::ext_equal]
pub struct OutcomeModel {
    pub summary: TaskSummary,
    pub execution: Option<ExecutionProgressModel>,
    pub batch: Option<BatchProgressModel>,
    pub status: Status,
    pub reason: Text,
    pub decisions: usize,
    pub state: AppStateModel,
}

impl View for Outcome {
    type V = OutcomeModel;

    open spec fn view(&self) -> OutcomeModel {
        OutcomeModel {
            summary: self.summary,
            execution: self.execution.deep_view(),
            batch: self.batch.deep_view(),
            status: self.status,
            reason: self.reason@,
            decisions: self.decisions,
            state: self.state@,
        }
    }
}

impl DeepView for Outcome {
    type V = OutcomeModel;

    open spec fn deep_view(&self) -> OutcomeModel {
        self@
    }
}

impl Dup for Outcome {
    fn dup(&self) -> (r: Self) {
        Outcome {
            summary: self.summary,
            execution: self.execution.dup(),
            batch: self.batch.dup(),
            status: self.status,
            reason: self.reason.dup(),
            decisions: self.decisions,
            state: self.state.dup(),
        }
    }
}

impl ErrorModel {
    /// The sentence that reports the error.
    pub open spec fn message(self) -> Text {
        match self {
            ErrorModel::Logging(detail) => "decision log output: "@ + detail,
            ErrorModel::Invalid(detail) => "invalid input: "@ + detail,
            ErrorModel::Model(detail) => "model service: "@ + detail,
            ErrorModel::Adapter(error) => error.message(),
        }
    }
}

impl Error {
    /// The sentence that reports the error.
    pub fn message(&self) -> (r: String)
        ensures
            r@ == self@.message(),
    {
        match self {
            Error::Logging(detail) => text::cat2("decision log output: ", detail.as_str()),
            Error::Invalid(detail) => text::cat2("invalid input: ", detail.as_str()),
            Error::Model(detail) => text::cat2("model service: ", detail.as_str()),
            Error::Adapter(error) => error.message(),
        }
    }
}

/// A user goal; holds no application-specific execution instructions.
#[derive(Debug)]
pub struct Task {
    pub goal: String,
}

impl Task {
    /// A task with a goal that is not blank.
    pub fn new(goal: String) -> (r: Result<Task, Error>)
        ensures
            match r {
                Ok(task) => !text::blank(goal@) && task.goal@ == goal@,
                Err(error) => text::blank(goal@) && error@ == ErrorModel::Invalid("empty task"@),
            },
    {
        if text::is_blank(goal.as_str()) {
            return Err(Error::Invalid("empty task".to_owned()));
        }
        Ok(Task { goal })
    }
}

/// The budgets of a run.
#[derive(Debug, Clone, Copy, PartialEq, Eq, Structural)]
pub struct RunOptions {
    /// Stop after this many failures of the same call or rejections of the same plan.
    pub max_repeated_failures: u32,
    pub max_actions: usize,
    pub max_decisions: usize,
    pub skill_mode: SkillMode,
    pub max_repeat: u32,
    pub max_batch_attempts: u32,
    /// Nanoseconds.
    pub batch_timeout: Nanos,
}

impl Default for RunOptions {
    fn default() -> (r: Self)
        ensures
            r == (RunOptions {
                max_repeated_failures: 3,
                max_actions: 4,
                max_decisions: 12,
                skill_mode: SkillMode::All,
                max_repeat: MAX_REPEAT,
                max_batch_attempts: 200,
                batch_timeout: 120_000_000_000,
            }),
    {
        RunOptions {
            max_repeated_failures: 3,
            max_actions: 4,
            max_decisions: 12,
            skill_mode: SkillMode::All,
            max_repeat: MAX_REPEAT,
            max_batch_attempts: 200,
            batch_timeout: 120_000_000_000,
        }
    }
}

impl RunOptions {
    /// Every budget is positive and within its bound, and a deadline can be set now.
    pub open spec fn usable(self, now: Nanos) -> bool {
        &&& self.max_decisions > 0
        &&& self.max_repeated_failures > 0
        &&& 0 < self.max_actions <= MAX_ACTIONS
        &&& 0 < self.max_repeat <= MAX_REPEAT
        &&& self.max_batch_attempts > 0
        &&& self.batch_timeout > 0
        &&& now + self.batch_timeout <= CLOCK_END
    }

    /// Whether a run may start with these budgets.
    pub fn is_usable(&self, now: Nanos) -> (r: bool)
        ensures
            r == self.usable(now),
    {
        self.max_decisions != 0 && self.max_repeated_failures != 0 && self.max_actions != 0
            && self.max_actions <= MAX_ACTIONS && self.max_repeat != 0 && self.max_repeat
            <= MAX_REPEAT && self.max_batch_attempts != 0 && self.batch_timeout != 0 && find_after(
            now,
            self.batch_timeout,
        ).is_some()
    }

    /// The largest repeat count that the budgets allow.
    pub open spec fn repeat_bound(self) -> u32 {
        if self.max_repeat <= self.max_batch_attempts {
            self.max_repeat
        } else {
            self.max_batch_attempts
        }
    }

    /// The largest repeat count that the budgets allow.
    pub fn repeat_limit(&self) -> (r: u32)
        ensures
            r == self.repeat_bound(),
    {
        if self.max_repeat <= self.max_batch_attempts {
            self.max_repeat
        } else {
            self.max_batch_attempts
        }
    }
}

/// What the host reads off its clock and its cancellation flag at one instant.
#[derive(Debug, Clone, Copy, PartialEq, Eq, Structural)]
pub struct Signal {
    pub cancelled: bool,
    /// Nanoseconds of the host's monotonic clock.
    pub now: Nanos,
}

/// Why an action cannot be planned, if it cannot.
pub open spec fn action_flaw(
    action: ActionModel,
    skills: Seq<SkillModel>,
    selected: Seq<Text>,
    options: RunOptions,
) -> Option<Text> {
    let name = action.call().name;
    match skill_named(skills, name) {
        None => Some("unknown skill: "@ + name),
        Some(skill) => if options.skill_mode == SkillMode::OnDemand && !selected.contains(name) {
            Some("skill '"@ + name + "' is not loaded; request LoadSkills first"@)
        } else if action matches ActionModel::Repeat(request) && (!skill.repeatable
            || request.times == 0 || request.times > options.repeat_bound()) {
            Some(
                "repeat skill must be explicitly repeatable and count within configured limits"@,
            )
        } else if action is UntilDone && !skill.loopable {
            Some("until-done skill must explicitly support local continuation"@)
        } else {
            None
        },
    }
}

/// A validation failure.
pub open spec fn refusal(call: Option<ToolCallModel>, message: Text) -> ExecutionFailureModel {
    ExecutionFailureModel { stage: FailureStage::Validation, call, message }
}

/// The failure of the first action that cannot be planned.
pub open spec fn first_flaw(
    actions: Seq<ActionModel>,
    skills: Seq<SkillModel>,
    selected: Seq<Text>,
    options: RunOptions,
) -> Option<ExecutionFailureModel>
    decreases actions.len(),
{
    if actions.len() == 0 {
        None
    } else {
        match action_flaw(actions[0], skills, selected, options) {
            Some(message) => Some(refusal(Some(actions[0].call()), message)),
            None => first_flaw(actions.skip(1), skills, selected, options),
        }
    }
}

/// Why a list of actions cannot be planned, if it cannot.
pub open spec fn plan_flaw(
    actions: Seq<ActionModel>,
    skills: Seq<SkillModel>,
    selected: Seq<Text>,
    options: RunOptions,
) -> Option<ExecutionFailureModel> {
    if actions.len() == 0 || actions.len() > options.max_actions {
        Some(refusal(None, "action list must be nonempty and within max_actions"@))
    } else {
        first_flaw(actions, skills, selected, options)
    }
}

/// Of a plan without flaw every action names a known skill and keeps to its budgets.
pub proof fn flawless_plans_are_sound(
    actions: Seq<ActionModel>,
    skills: Seq<SkillModel>,
    selected: Seq<Text>,
    options: RunOptions,
)
    requires
        first_flaw(actions, skills, selected, options) is None,
    ensures
        forall|i: int|
            0 <= i < actions.len() ==> action_flaw(
                #[trigger] actions[i],
                skills,
                selected,
                options,
            ) is None,
    decreases actions.len(),
{
    if actions.len() > 0 {
        let rest = actions.skip(1);
        flawless_plans_are_sound(rest, skills, selected, options);
        assert forall|i: int| 0 <= i < actions.len() implies action_flaw(
            #[trigger] actions[i],
            skills,
            selected,
            options,
        ) is None by {
            if i > 0 {
                assert(rest[i - 1] == actions[i]);
            }
        }
    }
}

proof fn lemma_first_flaw_from(
    actions: Seq<ActionModel>,
    skills: Seq<SkillModel>,
    selected: Seq<Text>,
    options: RunOptions,
    n: int,
)
    requires
        0 <= n <= actions.len(),
        forall|i: int|
            0 <= i < n ==> action_flaw(#[trigger] actions[i], skills, selected, options) is None,
    ensures
        first_flaw(actions, skills, selected, options) == first_flaw(
            actions.skip(n),
            skills,
            selected,
            options,
        ),
    decreases n,
{
    if n == 0 {
        assert(actions.skip(0) =~= actions);
    } else {
        let rest = actions.skip(1);
        assert(action_flaw(actions[0], skills, selected, options) is None);
        assert forall|i: int| 0 <= i < n - 1 implies action_flaw(
            #[trigger] rest[i],
            skills,
            selected,
            options,
        ) is None by {
            assert(rest[i] == actions[i + 1]);
        }
        lemma_first_flaw_from(rest, skills, selected, options, n - 1);
        assert(rest.skip(n - 1) =~= actions.skip(n));
    }
}

/// Why an action cannot be planned, if it cannot.
fn find_action_flaw(
    action: &Action,
    skills: &Vec<Skill>,
    selected: &Vec<String>,
    options: &RunOptions,
) -> (r: Option<String>)
    ensures
        r.deep_view() == action_flaw(
            action@,
            skills.deep_view(),
            selected.deep_view(),
            *options,
        ),
{
    let name: &str = action.call().name.as_str();
    let skill: &Skill = match find_skill(skills, name) {
        Some(skill) => skill,
        None => {
            return Some(text::cat2("unknown skill: ", name));
        },
    };
    if options.skill_mode == SkillMode::OnDemand && !text::holds(selected, name) {
        return Some(
            text::cat3("skill '", name, "' is not loaded; request LoadSkills first"),
        );
    }
    match action {
        Action::Repeat(request) if !skill.repeatable || request.times == 0 || request.times
            > options.repeat_limit() => Some(
            "repeat skill must be explicitly repeatable and count within configured limits".to_owned(),
        ),
        Action::UntilDone(_) if !skill.loopable => Some(
            "until-done skill must explicitly support local continuation".to_owned(),
        ),
        _ => None,
    }
}

/// Accepts a list of actions, or says what is wrong with it.
pub fn validate_actions(
    actions: &Vec<Action>,
    skills: &Vec<Skill>,
    selected: &Vec<String>,
    options: &RunOptions,
) -> (r: Result<(), ExecutionFailure>)
    ensures
        match r {
            Ok(()) => plan_flaw(
                actions.deep_view(),
                skills.deep_view(),
                selected.deep_view(),
                *options,
            ) is None,
            Err(failure) => plan_flaw(
                actions.deep_view(),
                skills.deep_view(),
                selected.deep_view(),
                *options,
            ) == Some(failure@),
        },
{
    if actions.len() == 0 || actions.len() > options.max_actions {
        return Err(
            ExecutionFailure {
                stage: FailureStage::Validation,
                call: None,
                message: "action list must be nonempty and within max_actions".to_owned(),
            },
        );
    }
    let ghost all = actions.deep_view();
    let mut i: usize = 0;
    while i < actions.len()
        invariant
            i <= actions@.len(),
            all == actions.deep_view(),
            0 < actions@.len() <= options.max_actions,
            forall|j: int|
                0 <= j < i ==> action_flaw(
                    #[trigger] all[j],
                    skills.deep_view(),
                    selected.deep_view(),
                    *options,
                ) is None,
        decreases actions@.len() - i,
    {
        assert(all[i as int] == actions@[i as int]@);
        if let Some(message) = find_action_flaw(&actions[i], skills, selected, options) {
            proof {
                lemma_first_flaw_from(
                    all,
                    skills.deep_view(),
                    selected.deep_view(),
                    *options,
                    i as int,
                );
                assert(all.skip(i as int)[0] == all[i as int]);
            }
            return Err(
                ExecutionFailure {
                    stage: FailureStage::Validation,
                    call: Some(actions[i].call().dup()),
                    message,
                },
            );
        }
        i += 1;
    }
    proof {
        lemma_first_flaw_from(all, skills.deep_view(), selected.deep_view(), *options, i as int);
    }
    Ok(())
}

/// Whether an action can be planned: the first skill of its name is there and, where skills are
/// loaded on demand, was selected; it is repeated only if it can be, once at least and no more
/// often than allowed, and looped only if it can be.
pub open spec fn plannable(
    action: ActionModel,
    skills: Seq<SkillModel>,
    selected: Seq<Text>,
    options: RunOptions,
) -> bool {
    exists|i: int|
        {
            &&& 0 <= i < skills.len()
            &&& (#[trigger] skills[i]).name == action.call().name
            &&& forall|j: int| 0 <= j < i ==> (#[trigger] skills[j]).name != action.call().name
            &&& options.skill_mode == SkillMode::OnDemand ==> selected.contains(
                action.call().name,
            )
            &&& action matches ActionModel::Repeat(request) ==> skills[i].repeatable && 1
                <= request.times <= options.max_repeat && request.times
                <= options.max_batch_attempts
            &&& action is UntilDone ==> skills[i].loopable
        }
}

proof fn lemma_plannable(
    action: ActionModel,
    skills: Seq<SkillModel>,
    selected: Seq<Text>,
    options: RunOptions,
)
    ensures
        action_flaw(action, skills, selected, options) is None <==> plannable(
            action,
            skills,
            selected,
            options,
        ),
{
    let name = action.call().name;
    skill_index_is_first(skills, name);
    if plannable(action, skills, selected, options) {
        let i = choose|i: int|
            {
                &&& 0 <= i < skills.len()
                &&& (#[trigger] skills[i]).name == name
                &&& forall|j: int| 0 <= j < i ==> (#[trigger] skills[j]).name != name
                &&& options.skill_mode == SkillMode::OnDemand ==> selected.contains(name)
                &&& action matches ActionModel::Repeat(request) ==> skills[i].repeatable && 1
                    <= request.times <= options.max_repeat && request.times
                    <= options.max_batch_attempts
                &&& action is UntilDone ==> skills[i].loopable
            };
        assert(skill_index(skills, name) == Some(i));
    }
    if action_flaw(action, skills, selected, options) is None {
        let i = skill_index(skills, name)->0;
        assert(skills[i].name == name);
    }
}

/// A plan is accepted exactly if it has actions, no more than allowed, and every one of them can be
/// planned.
pub proof fn plannable_actions_are_accepted(
    actions: Seq<ActionModel>,
    skills: Seq<SkillModel>,
    selected: Seq<Text>,
    options: RunOptions,
)
    ensures
        plan_flaw(actions, skills, selected, options) is None <==> {
            &&& 1 <= actions.len() <= options.max_actions
            &&& forall|i: int|
                0 <= i < actions.len() ==> plannable(
                    #[trigger] actions[i],
                    skills,
                    selected,
                    options,
                )
        },
{
    assert forall|i: int| 0 <= i < actions.len() implies (action_flaw(
        #[trigger] actions[i],
        skills,
        selected,
        options,
    ) is None <==> plannable(actions[i], skills, selected, options)) by {
        lemma_plannable(actions[i], skills, selected, options);
    }
    if first_flaw(actions, skills, selected, options) is None {
        flawless_plans_are_sound(actions, skills, selected, options);
    }
    if forall|i: int|
        0 <= i < actions.len() ==> plannable(#[trigger] actions[i], skills, selected, options) {
        lemma_first_flaw_from(actions, skills, selected, options, actions.len() as int);
        assert(actions.skip(actions.len() as int) =~= Seq::<ActionModel>::empty());
    }
}

/// Budgets are usable exactly if none is zero, a plan has at most sixteen actions, a repeat at most
/// a hundred rounds, and the clock reaches a deadline that is set now.
pub proof fn budgets_are_bounded(options: RunOptions, now: Nanos)
    ensures
        options.usable(now) <==> {
            &&& options.max_decisions >= 1
            &&& options.max_repeated_failures >= 1
            &&& 1 <= options.max_actions <= 16
            &&& 1 <= options.max_repeat <= 100
            &&& options.max_batch_attempts >= 1
            &&& options.batch_timeout >= 1
            &&& now + options.batch_timeout <= CLOCK_END
        },
        options.repeat_bound() <= options.max_repeat,
        options.repeat_bound() <= options.max_batch_attempts,
        options.repeat_bound() == options.max_repeat || options.repeat_bound()
            == options.max_batch_attempts,
{
}

} // verus!
