//! What adapters offer and report: calls, skills, outcomes, failures and controls.
use crate::clock::Nanos;
use crate::copy::{Dup, Same};
use crate::json::{Json, JsonModel};
use crate::text;
use crate::text::Text;
use vstd::prelude::*;

verus! {

/// Errors from argument validation or concrete runtime operations.
#[derive(Debug)]
pub enum AdapterError {
    Invalid(String),
    Cancelled,
    TimedOut,
    Runtime(String),
    /// Held input may not have been released; nothing may be sent before that is settled.
    CleanupFailed(String),
}

#[verifier::ext_equal]
pub enum AdapterErrorModel {
    Invalid(Text),
    Cancelled,
    TimedOut,
    Runtime(Text),
    CleanupFailed(Text),
}

impl View for AdapterError {
    type V = AdapterErrorModel;

    open spec fn view(&self) -> AdapterErrorModel {
        match self {
            AdapterError::Invalid(a) => AdapterErrorModel::Invalid(a@),
            AdapterError::Cancelled => AdapterErrorModel::Cancelled,
            AdapterError::TimedOut => AdapterErrorModel::TimedOut,
            AdapterError::Runtime(a) => AdapterErrorModel::Runtime(a@),
            AdapterError::CleanupFailed(a) => AdapterErrorModel::CleanupFailed(a@),
        }
    }
}

impl DeepView for AdapterError {
    type V = AdapterErrorModel;

    open spec fn deep_view(&self) -> AdapterErrorModel {
        self@
    }
}

impl Dup for AdapterError {
    fn dup(&self) -> (r: Self) {
        match self {
            AdapterError::Invalid(a) => AdapterError::Invalid(a.dup()),
            AdapterError::Cancelled => AdapterError::Cancelled,
            AdapterError::TimedOut => AdapterError::TimedOut,
            AdapterError::Runtime(a) => AdapterError::Runtime(a.dup()),
            AdapterError::CleanupFailed(a) => AdapterError::CleanupFailed(a.dup()),
        }
    }
}

impl AdapterErrorModel {
    /// The sentence that reports the error.
    pub open spec fn message(self) -> Text {
        match self {
            AdapterErrorModel::Invalid(detail) => "invalid input: "@ + detail,
            AdapterErrorModel::Cancelled => "execution cancelled"@,
            AdapterErrorModel::TimedOut => "execution deadline exceeded"@,
            AdapterErrorModel::Runtime(detail) => "runtime: "@ + detail,
            AdapterErrorModel::CleanupFailed(detail) => "input cleanup failed: "@ + detail,
        }
    }
}

impl AdapterError {
    /// The sentence that reports the error.
    pub fn message(&self) -> (r: String)
        ensures
            r@ == self@.message(),
    {
        match self {
            AdapterError::Invalid(detail) => text::cat2("invalid input: ", detail.as_str()),
            AdapterError::Cancelled => "execution cancelled".to_owned(),
            AdapterError::TimedOut => "execution deadline exceeded".to_owned(),
            AdapterError::Runtime(detail) => text::cat2("runtime: ", detail.as_str()),
            AdapterError::CleanupFailed(detail) => text::cat2(
                "input cleanup failed: ",
                detail.as_str(),
            ),
        }
    }
}

/// A cooperative cancellation request. Once made it stays. There is one token for each thing
/// that can be cancelled: it has no copies, and where several parties hold it, the host shares
/// it among them and hands its state to the library.
#[derive(Debug)]
pub struct CancellationToken {
    cancelled: bool,
}

impl View for CancellationToken {
    type V = bool;

    closed spec fn view(&self) -> bool {
        self.cancelled
    }
}

impl Default for CancellationToken {
    fn default() -> (r: Self)
        ensures
            !r@,
    {
        CancellationToken { cancelled: false }
    }
}

impl CancellationToken {
    /// Requests cancellation.
    pub fn cancel(&mut self)
        ensures
            final(self)@,
    {
        self.cancelled = true;
    }

    /// Whether cancellation was requested.
    pub fn is_cancelled(&self) -> (r: bool)
        ensures
            r == self@,
    {
        self.cancelled
    }
}

/// What a control says at an instant: cancellation goes before the deadline.
pub open spec fn control_error(cancelled: bool, deadline: Option<Nanos>, now: Nanos) -> Option<
    AdapterErrorModel,
> {
    if cancelled {
        Some(AdapterErrorModel::Cancelled)
    } else if deadline matches Some(d) && now >= d {
        Some(AdapterErrorModel::TimedOut)
    } else {
        None
    }
}

/// Execution cancellation and deadline; adapters check this between operations.
/// Instants are nanoseconds of the host's monotonic clock.
#[derive(Debug)]
pub struct ExecutionControl {
    pub cancellation: CancellationToken,
    pub deadline: Option<Nanos>,
}

impl Default for ExecutionControl {
    fn default() -> (r: Self)
        ensures
            !r.cancellation@,
            r.deadline is None,
    {
        ExecutionControl { cancellation: CancellationToken::default(), deadline: None }
    }
}

impl ExecutionControl {
    /// Refuses to go on after a cancellation, or at the deadline and later.
    pub fn check(&self, now: Nanos) -> (r: Result<(), AdapterError>)
        ensures
            match r {
                Ok(()) => control_error(self.cancellation@, self.deadline, now) is None,
                Err(e) => control_error(self.cancellation@, self.deadline, now) == Some(e@),
            },
    {
        if self.cancellation.is_cancelled() {
            return Err(AdapterError::Cancelled);
        }
        match self.deadline {
            Some(deadline) if now >= deadline => Err(AdapterError::TimedOut),
            _ => Ok(()),
        }
    }
}

/// A request to pause at the next safe boundary, and whether it was reached.
#[derive(Debug, Clone, Copy, PartialEq, Eq, Structural)]
pub enum PauseState {
    Running,
    Requested,
    Acknowledged,
}

impl PauseState {
    /// Asks for a pause; a pause that is already asked for stays as it is.
    pub fn request(&mut self)
        ensures
            *final(self) == (if *old(self) == PauseState::Running {
                PauseState::Requested
            } else {
                *old(self)
            }),
    {
        if *self == PauseState::Running {
            *self = PauseState::Requested;
        }
    }

    /// Lets the work go on.
    pub fn resume(&mut self)
        ensures
            *final(self) == PauseState::Running,
    {
        *self = PauseState::Running;
    }

    /// Confirms at a safe boundary a pause that is asked for.
    pub fn acknowledge(&mut self) -> (r: bool)
        ensures
            r == (*old(self) == PauseState::Requested),
            *final(self) == (if r {
                PauseState::Acknowledged
            } else {
                *old(self)
            }),
    {
        if *self == PauseState::Requested {
            *self = PauseState::Acknowledged;
            true
        } else {
            false
        }
    }

    /// Whether the work is to hold at a safe boundary.
    pub fn is_requested(&self) -> (r: bool)
        ensures
            r == (*self != PauseState::Running),
    {
        *self != PauseState::Running
    }
}

/// Completing an action and obtaining the desired application effect are different facts.
#[derive(Debug, Clone, Copy, PartialEq, Eq, Structural)]
pub enum ActionOutcome {
    /// One local step finished; the adapter has not yet confirmed the overall goal.
    Continue { successful: bool },
    /// The action is done; for a loopable skill the goal is confirmed.
    Completed { successful: bool },
    Interrupted,
}

impl DeepView for ActionOutcome {
    type V = ActionOutcome;

    open spec fn deep_view(&self) -> ActionOutcome {
        *self
    }
}

impl Dup for ActionOutcome {
    fn dup(&self) -> (r: Self) {
        *self
    }
}

impl ActionOutcome {
    /// A normal end of one step: the call worked, whatever it achieved.
    pub open spec fn normal(self) -> bool {
        !(self is Interrupted)
    }

    /// Whether the step ended normally.
    pub fn is_normal(&self) -> (r: bool)
        ensures
            r == self.normal(),
    {
        !matches!(self, ActionOutcome::Interrupted)
    }
}

/// What an adapter says of one execution.
#[derive(Debug)]
pub struct ActionReport {
    pub outcome: ActionOutcome,
    pub message: String,
}

#[verifier::ext_equal]
pub struct ActionReportModel {
    pub outcome: ActionOutcome,
    pub message: Text,
}

impl View for ActionReport {
    type V = ActionReportModel;

    open spec fn view(&self) -> ActionReportModel {
        ActionReportModel {
            outcome: self.outcome,
            message: self.message@,
        }
    }
}

impl DeepView for ActionReport {
    type V = ActionReportModel;

    open spec fn deep_view(&self) -> ActionReportModel {
        self@
    }
}

impl Dup for ActionReport {
    fn dup(&self) -> (r: Self) {
        ActionReport {
            outcome: self.outcome,
            message: self.message.dup(),
        }
    }
}

impl ActionReport {
    /// The report of a completed action.
    pub fn completed(message: String, successful: bool) -> (r: Self)
        ensures
            r.outcome == (ActionOutcome::Completed { successful }),
            r.message@ == message@,
    {
        ActionReport { outcome: ActionOutcome::Completed { successful }, message }
    }
}

/// Adapter-owned facts required for the next decision.
#[derive(Debug)]
pub struct AppState {
    pub scene: String,
    pub facts: Json,
}

#[verifier::ext_equal]
pub struct AppStateModel {
    pub scene: Text,
    pub facts: JsonModel,
}

impl View for AppState {
    type V = AppStateModel;

    open spec fn view(&self) -> AppStateModel {
        AppStateModel {
            scene: self.scene@,
            facts: self.facts@,
        }
    }
}

impl DeepView for AppState {
    type V = AppStateModel;

    open spec fn deep_view(&self) -> AppStateModel {
        self@
    }
}

impl Dup for AppState {
    fn dup(&self) -> (r: Self) {
        AppState {
            scene: self.scene.dup(),
            facts: self.facts.dup(),
        }
    }
}

/// Adapter-owned availability of a capability in the supplied observation.
#[derive(Debug)]
pub enum Availability {
    Available,
    Unavailable { reason: String },
}

#[verifier::ext_equal]
pub enum AvailabilityModel {
    Available,
    Unavailable { reason: Text },
}

impl View for Availability {
    type V = AvailabilityModel;

    open spec fn view(&self) -> AvailabilityModel {
        match self {
            Availability::Available => AvailabilityModel::Available,
            Availability::Unavailable { reason } => AvailabilityModel::Unavailable { reason: reason@ },
        }
    }
}

impl DeepView for Availability {
    type V = AvailabilityModel;

    open spec fn deep_view(&self) -> AvailabilityModel {
        self@
    }
}

impl Dup for Availability {
    fn dup(&self) -> (r: Self) {
        match self {
            Availability::Available => Availability::Available,
            Availability::Unavailable { reason } => Availability::Unavailable { reason: reason.dup() },
        }
    }
}

impl Default for Availability {
    fn default() -> (r: Self)
        ensures
            r@ is Available,
    {
        Availability::Available
    }
}

impl AvailabilityModel {
    /// The availability as a diagnostic message shows it.
    pub open spec fn shown(self) -> Text {
        match self {
            AvailabilityModel::Available => "Available"@,
            AvailabilityModel::Unavailable { reason } => "Unavailable { reason: "@ + text::quoted(
                reason,
            ) + " }"@,
        }
    }
}

impl Availability {
    /// The availability as a diagnostic message shows it.
    pub fn show(&self) -> (r: String)
        ensures
            r@ == self@.shown(),
    {
        match self {
            Availability::Available => "Available".to_owned(),
            Availability::Unavailable { reason } => text::cat3(
                "Unavailable { reason: ",
                text::quote(reason.as_str()).as_str(),
                " }",
            ),
        }
    }

    /// Whether the capability can be used.
    pub fn is_available(&self) -> (r: bool)
        ensures
            r == (self@ is Available),
    {
        matches!(self, Availability::Available)
    }
}

/// A skill and the arguments to call it with.
#[derive(Debug)]
pub struct ToolCall {
    pub name: String,
    pub arguments: Json,
}

#[verifier::ext_equal]
pub struct ToolCallModel {
    pub name: Text,
    pub arguments: JsonModel,
}

impl View for ToolCall {
    type V = ToolCallModel;

    open spec fn view(&self) -> ToolCallModel {
        ToolCallModel {
            name: self.name@,
            arguments: self.arguments@,
        }
    }
}

impl DeepView for ToolCall {
    type V = ToolCallModel;

    open spec fn deep_view(&self) -> ToolCallModel {
        self@
    }
}

impl Dup for ToolCall {
    fn dup(&self) -> (r: Self) {
        ToolCall {
            name: self.name.dup(),
            arguments: self.arguments.dup(),
        }
    }
}

impl ToolCallModel {
    /// What a call is compared by.
    pub open spec fn plain(self) -> Self {
        ToolCallModel { name: self.name, arguments: self.arguments.plain() }
    }
}

impl Same for ToolCall {
    open spec fn plain_of(value: ToolCallModel) -> ToolCallModel {
        value.plain()
    }

    fn same(&self, other: &Self) -> (r: bool) {
        self.name.same(&other.name) && self.arguments.same(&other.arguments)
    }
}

/// Last execution feedback. Only its outcome confirms effects.
#[derive(Debug)]
pub struct ToolResult {
    pub outcome: Option<ActionOutcome>,
    pub call: ToolCall,
    pub success: bool,
    pub message: String,
}

#[verifier::ext_equal]
pub struct ToolResultModel {
    pub outcome: Option<ActionOutcome>,
    pub call: ToolCallModel,
    pub success: bool,
    pub message: Text,
}

impl View for ToolResult {
    type V = ToolResultModel;

    open spec fn view(&self) -> ToolResultModel {
        ToolResultModel {
            outcome: self.outcome,
            call: self.call@,
            success: self.success,
            message: self.message@,
        }
    }
}

impl DeepView for ToolResult {
    type V = ToolResultModel;

    open spec fn deep_view(&self) -> ToolResultModel {
        self@
    }
}

impl Dup for ToolResult {
    fn dup(&self) -> (r: Self) {
        ToolResult {
            outcome: self.outcome,
            call: self.call.dup(),
            success: self.success,
            message: self.message.dup(),
        }
    }
}

/// Where the host stopped. Observation failures do not undo confirmed effects.
#[derive(Debug, Clone, Copy, PartialEq, Eq, Structural)]
pub enum FailureStage {
    Observation,
    Context,
    Availability,
    Execution,
    Validation,
}

impl DeepView for FailureStage {
    type V = FailureStage;

    open spec fn deep_view(&self) -> FailureStage {
        *self
    }
}

impl Dup for FailureStage {
    fn dup(&self) -> (r: Self) {
        *self
    }
}

/// An operation that failed.
#[derive(Debug)]
pub struct ExecutionFailure {
    pub stage: FailureStage,
    /// Related call, if known.
    pub call: Option<ToolCall>,
    pub message: String,
}

#[verifier::ext_equal]
pub struct ExecutionFailureModel {
    pub stage: FailureStage,
    pub call: Option<ToolCallModel>,
    pub message: Text,
}

impl View for ExecutionFailure {
    type V = ExecutionFailureModel;

    open spec fn view(&self) -> ExecutionFailureModel {
        ExecutionFailureModel {
            stage: self.stage,
            call: self.call.deep_view(),
            message: self.message@,
        }
    }
}

impl DeepView for ExecutionFailure {
    type V = ExecutionFailureModel;

    open spec fn deep_view(&self) -> ExecutionFailureModel {
        self@
    }
}

impl Dup for ExecutionFailure {
    fn dup(&self) -> (r: Self) {
        ExecutionFailure {
            stage: self.stage,
            call: self.call.dup(),
            message: self.message.dup(),
        }
    }
}

/// A semantic capability.
#[derive(Debug)]
pub struct Skill {
    pub name: String,
    pub description: String,
    /// One execution finishes one countable action.
    pub repeatable: bool,
    /// Steps report `Continue` until `Completed` confirms the goal.
    pub loopable: bool,
    /// Labels for discovery, not authorization rules.
    pub tags: Vec<String>,
    pub availability: Availability,
    /// JSON Schema of the arguments.
    pub parameters: Json,
    /// Concrete suggestions; other valid arguments are not excluded.
    pub calls: Vec<ToolCall>,
}

#[verifier::ext_equal]
pub struct SkillModel {
    pub name: Text,
    pub description: Text,
    pub repeatable: bool,
    pub loopable: bool,
    pub tags: Seq<Text>,
    pub availability: AvailabilityModel,
    pub parameters: JsonModel,
    pub calls: Seq<ToolCallModel>,
}

impl View for Skill {
    type V = SkillModel;

    open spec fn view(&self) -> SkillModel {
        SkillModel {
            name: self.name@,
            description: self.description@,
            repeatable: self.repeatable,
            loopable: self.loopable,
            tags: self.tags.deep_view(),
            availability: self.availability@,
            parameters: self.parameters@,
            calls: self.calls.deep_view(),
        }
    }
}

impl DeepView for Skill {
    type V = SkillModel;

    open spec fn deep_view(&self) -> SkillModel {
        self@
    }
}

impl Dup for Skill {
    fn dup(&self) -> (r: Self) {
        Skill {
            name: self.name.dup(),
            description: self.description.dup(),
            repeatable: self.repeatable,
            loopable: self.loopable,
            tags: self.tags.dup(),
            availability: self.availability.dup(),
            parameters: self.parameters.dup(),
            calls: self.calls.dup(),
        }
    }
}

/// Current adapter-authored decision material.
#[derive(Debug)]
pub struct DecisionContext {
    pub skills: Vec<Skill>,
    /// Brief domain guidance; empty when unnecessary.
    pub guidance: String,
}

#[verifier::ext_equal]
pub struct DecisionContextModel {
    pub skills: Seq<SkillModel>,
    pub guidance: Text,
}

impl View for DecisionContext {
    type V = DecisionContextModel;

    open spec fn view(&self) -> DecisionContextModel {
        DecisionContextModel {
            skills: self.skills.deep_view(),
            guidance: self.guidance@,
        }
    }
}

impl DeepView for DecisionContext {
    type V = DecisionContextModel;

    open spec fn deep_view(&self) -> DecisionContextModel {
        self@
    }
}

impl Dup for DecisionContext {
    fn dup(&self) -> (r: Self) {
        DecisionContext {
            skills: self.skills.dup(),
            guidance: self.guidance.dup(),
        }
    }
}

/// What an adapter may base its decision material on.
#[derive(Debug)]
pub struct SkillContext<'a> {
    pub state: &'a AppState,
    /// Opaque user goal for context; it never grants permissions or changes preconditions.
    pub task_goal: &'a str,
    /// One-based decision round.
    pub decision_step: usize,
    pub previous_result: Option<&'a ToolResult>,
    /// The most recent failure; separate from the last tool's confirmed outcome.
    pub failure: Option<&'a ExecutionFailure>,
    /// The original unresolved interruption, kept even after a repair succeeds.
    pub interruption: Option<&'a ExecutionFailure>,
}

#[verifier::ext_equal]
pub struct SkillContextModel {
    pub state: AppStateModel,
    pub task_goal: Text,
    pub decision_step: nat,
    pub previous_result: Option<ToolResultModel>,
    pub failure: Option<ExecutionFailureModel>,
    pub interruption: Option<ExecutionFailureModel>,
}

impl<'a> View for SkillContext<'a> {
    type V = SkillContextModel;

    open spec fn view(&self) -> SkillContextModel {
        SkillContextModel {
            state: self.state@,
            task_goal: self.task_goal@,
            decision_step: self.decision_step as nat,
            previous_result: self.previous_result.deep_view(),
            failure: self.failure.deep_view(),
            interruption: self.interruption.deep_view(),
        }
    }
}

/// A bounded number of executions of the same call.
#[derive(Debug)]
pub struct RepeatRequest {
    pub call: ToolCall,
    pub times: u32,
}

#[verifier::ext_equal]
pub struct RepeatRequestModel {
    pub call: ToolCallModel,
    pub times: u32,
}

impl View for RepeatRequest {
    type V = RepeatRequestModel;

    open spec fn view(&self) -> RepeatRequestModel {
        RepeatRequestModel {
            call: self.call@,
            times: self.times,
        }
    }
}

impl DeepView for RepeatRequest {
    type V = RepeatRequestModel;

    open spec fn deep_view(&self) -> RepeatRequestModel {
        self@
    }
}

impl Dup for RepeatRequest {
    fn dup(&self) -> (r: Self) {
        RepeatRequest {
            call: self.call.dup(),
            times: self.times,
        }
    }
}

impl Same for RepeatRequest {
    open spec fn plain_of(value: RepeatRequestModel) -> RepeatRequestModel {
        RepeatRequestModel { call: value.call.plain(), times: value.times }
    }

    fn same(&self, other: &Self) -> (r: bool) {
        self.call.same(&other.call) && self.times == other.times
    }
}

/// One planned step.
#[derive(Debug)]
pub enum Action {
    Call(ToolCall),
    Repeat(RepeatRequest),
    /// Execute locally until the adapter reports `Completed`.
    UntilDone(ToolCall),
}

#[verifier::ext_equal]
pub enum ActionModel {
    Call(ToolCallModel),
    Repeat(RepeatRequestModel),
    UntilDone(ToolCallModel),
}

impl View for Action {
    type V = ActionModel;

    open spec fn view(&self) -> ActionModel {
        match self {
            Action::Call(a) => ActionModel::Call(a@),
            Action::Repeat(a) => ActionModel::Repeat(a@),
            Action::UntilDone(a) => ActionModel::UntilDone(a@),
        }
    }
}

impl DeepView for Action {
    type V = ActionModel;

    open spec fn deep_view(&self) -> ActionModel {
        self@
    }
}

impl Dup for Action {
    fn dup(&self) -> (r: Self) {
        match self {
            Action::Call(a) => Action::Call(a.dup()),
            Action::Repeat(a) => Action::Repeat(a.dup()),
            Action::UntilDone(a) => Action::UntilDone(a.dup()),
        }
    }
}

impl ActionModel {
    /// What an action is compared by.
    pub open spec fn plain(self) -> Self {
        match self {
            ActionModel::Call(call) => ActionModel::Call(call.plain()),
            ActionModel::Repeat(request) => ActionModel::Repeat(
                RepeatRequestModel { call: request.call.plain(), times: request.times },
            ),
            ActionModel::UntilDone(call) => ActionModel::UntilDone(call.plain()),
        }
    }
}

impl Same for Action {
    open spec fn plain_of(value: ActionModel) -> ActionModel {
        value.plain()
    }

    fn same(&self, other: &Self) -> (r: bool) {
        match (self, other) {
            (Action::Call(a), Action::Call(b)) => a.same(b),
            (Action::Repeat(a), Action::Repeat(b)) => a.same(b),
            (Action::UntilDone(a), Action::UntilDone(b)) => a.same(b),
            _ => false,
        }
    }
}

impl ActionModel {
    /// The call that the action makes.
    pub open spec fn call(self) -> ToolCallModel {
        match self {
            ActionModel::Call(call) => call,
            ActionModel::Repeat(request) => request.call,
            ActionModel::UntilDone(call) => call,
        }
    }
}

impl Action {
    /// The call that the action makes.
    pub fn call(&self) -> (r: &ToolCall)
        ensures
            r@ == self@.call(),
    {
        match self {
            Action::Call(call) => call,
            Action::Repeat(request) => &request.call,
            Action::UntilDone(call) => call,
        }
    }
}

/// A finite request finishes locally or reports failure; it never requests a model.
#[derive(Debug)]
pub struct ExecutionRequest {
    pub actions: Vec<Action>,
}

#[verifier::ext_equal]
pub struct ExecutionRequestModel {
    pub actions: Seq<ActionModel>,
}

impl View for ExecutionRequest {
    type V = ExecutionRequestModel;

    open spec fn view(&self) -> ExecutionRequestModel {
        ExecutionRequestModel {
            actions: self.actions.deep_view(),
        }
    }
}

impl DeepView for ExecutionRequest {
    type V = ExecutionRequestModel;

    open spec fn deep_view(&self) -> ExecutionRequestModel {
        self@
    }
}

impl Dup for ExecutionRequest {
    fn dup(&self) -> (r: Self) {
        ExecutionRequest {
            actions: self.actions.dup(),
        }
    }
}

/// The index of the first skill of a name.
pub open spec fn skill_index(skills: Seq<SkillModel>, name: Text) -> Option<int>
    decreases skills.len(),
{
    if skills.len() == 0 {
        None
    } else if skills[0].name == name {
        Some(0)
    } else {
        match skill_index(skills.skip(1), name) {
            Some(i) => Some(i + 1),
            None => None,
        }
    }
}

/// The first skill of a name.
pub open spec fn skill_named(skills: Seq<SkillModel>, name: Text) -> Option<SkillModel> {
    match skill_index(skills, name) {
        Some(i) => Some(skills[i]),
        None => None,
    }
}

/// The index of the first skill of a name is that of a skill of this name, with none before it.
pub proof fn skill_index_is_first(skills: Seq<SkillModel>, name: Text)
    ensures
        match skill_index(skills, name) {
            Some(i) => 0 <= i < skills.len() && skills[i].name == name && forall|j: int|
                0 <= j < i ==> (#[trigger] skills[j]).name != name,
            None => forall|j: int| 0 <= j < skills.len() ==> (#[trigger] skills[j]).name != name,
        },
    decreases skills.len(),
{
    if skills.len() > 0 && skills[0].name != name {
        let rest = skills.skip(1);
        skill_index_is_first(rest, name);
        assert forall|j: int|
            0 < j < skills.len() && (skill_index(rest, name) is None || j - 1 < skill_index(
                rest,
                name,
            )->0) implies (#[trigger] skills[j]).name != name by {
            assert(rest[j - 1] == skills[j]);
        }
    }
}

proof fn lemma_skill_index_from(skills: Seq<SkillModel>, name: Text, i: int)
    requires
        0 <= i <= skills.len(),
        forall|j: int| 0 <= j < i ==> (#[trigger] skills[j]).name != name,
        i < skills.len() ==> skills[i].name == name,
    ensures
        skill_index(skills, name) == (if i < skills.len() {
            Some(i)
        } else {
            None
        }),
{
    skill_index_is_first(skills, name);
}

/// Finds the first skill of a name.
pub fn find_skill<'a>(skills: &'a Vec<Skill>, name: &str) -> (r: Option<&'a Skill>)
    ensures
        match r {
            Some(s) => skill_named(skills.deep_view(), name@) == Some(s@),
            None => skill_named(skills.deep_view(), name@) is None,
        },
{
    let ghost all = skills.deep_view();
    let mut i: usize = 0;
    while i < skills.len()
        invariant
            all == skills.deep_view(),
            i <= skills@.len(),
            forall|j: int| 0 <= j < i ==> (#[trigger] all[j]).name != name@,
        decreases skills@.len() - i,
    {
        assert(all[i as int] == skills@[i as int]@);
        if text::same(skills[i].name.as_str(), name) {
            proof {
                lemma_skill_index_from(all, name@, i as int);
            }
            return Some(&skills[i]);
        }
        i += 1;
    }
    proof {
        lemma_skill_index_from(all, name@, i as int);
    }
    None
}

/// Work is stopped by a cancellation first, and else from its deadline on.
pub proof fn controls_stop_work(cancelled: bool, deadline: Option<Nanos>, now: Nanos)
    ensures
        control_error(cancelled, deadline, now) == Some(AdapterErrorModel::Cancelled) <==> cancelled,
        control_error(cancelled, deadline, now) == Some(AdapterErrorModel::TimedOut) <==> !cancelled
            && deadline is Some && now >= deadline->0,
        control_error(cancelled, deadline, now) is None <==> !cancelled && (deadline is None || now
            < deadline->0),
{
}

/// A step ends normally unless it was interrupted, whatever it achieved.
pub proof fn only_interrupted_steps_are_not_normal(outcome: ActionOutcome)
    ensures
        outcome.normal() <==> outcome is Completed || outcome is Continue,
{
}

} // verus!
