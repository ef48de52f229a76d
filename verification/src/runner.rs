//! Runs one flow step by step: one look at the candidates, or one action, at a time.
//!
//! The host performs what the phase asks for and hands back what came of it.
use crate::action::{
    flawless_results_are_centered, Action, ActionResult, ActionResultModel, Actions, Command,
    CommandModel,
};
use crate::automation::{Control, Error, ErrorModel};
use crate::clock::{after_or_end, find_after_or_end, Nanos, CLOCK_END};
use crate::copy::Dup;
use crate::flow::{
    find_later, flawless_flows_are_linked, found_nodes_have_their_names, later, node_index, Flow,
    FlowModel, NodeModel,
};
use crate::json::{Json, JsonModel};
use crate::recognition::{
    check_result, matches_flaw, Frame, FrameModel, Recognition, RecognitionResult,
    RecognitionResultModel, Recognizers,
};
use crate::text;
use crate::text::Text;
use vstd::prelude::*;

verus! {

/// How far a flow is.
#[derive(Debug, Clone, Copy, PartialEq, Eq, Structural)]
pub enum Status {
    Running,
    Completed,
    Blocked,
    Failed,
    Cancelled,
}

impl DeepView for Status {
    type V = Status;

    open spec fn deep_view(&self) -> Status {
        *self
    }
}

impl Dup for Status {
    fn dup(&self) -> (r: Self) {
        *self
    }
}

/// Where and why a flow last failed.
#[derive(Debug)]
pub struct Failure {
    pub node: String,
    pub action_index: Option<usize>,
    pub message: String,
}

#[verifier::ext_equal]
pub struct FailureModel {
    pub node: Text,
    pub action_index: Option<usize>,
    pub message: Text,
}

impl View for Failure {
    type V = FailureModel;

    open spec fn view(&self) -> FailureModel {
        FailureModel {
            node: self.node@,
            action_index: self.action_index,
            message: self.message@,
        }
    }
}

impl DeepView for Failure {
    type V = FailureModel;

    open spec fn deep_view(&self) -> FailureModel {
        self@
    }
}

impl Dup for Failure {
    fn dup(&self) -> (r: Self) {
        Failure {
            node: self.node.dup(),
            action_index: self.action_index,
            message: self.message.dup(),
        }
    }
}

/// What a flow did so far. It can be turned into adapter state and logs.
#[derive(Debug)]
pub struct Progress {
    pub status: Status,
    pub node: String,
    pub action_index: Option<usize>,
    pub operations: u64,
    pub recognition: RecognitionResult,
    pub action_result: Json,
    pub failure: Option<Failure>,
    pub message: String,
}

#[verifier::ext_equal]
pub struct ProgressModel {
    pub status: Status,
    pub node: Text,
    pub action_index: Option<usize>,
    pub operations: u64,
    pub recognition: RecognitionResultModel,
    pub action_result: JsonModel,
    pub failure: Option<FailureModel>,
    pub message: Text,
}

impl View for Progress {
    type V = ProgressModel;

    open spec fn view(&self) -> ProgressModel {
        ProgressModel {
            status: self.status,
            node: self.node@,
            action_index: self.action_index,
            operations: self.operations,
            recognition: self.recognition@,
            action_result: self.action_result@,
            failure: self.failure.deep_view(),
            message: self.message@,
        }
    }
}

impl DeepView for Progress {
    type V = ProgressModel;

    open spec fn deep_view(&self) -> ProgressModel {
        self@
    }
}

impl Dup for Progress {
    fn dup(&self) -> (r: Self) {
        Progress {
            status: self.status,
            node: self.node.dup(),
            action_index: self.action_index,
            operations: self.operations,
            recognition: self.recognition.dup(),
            action_result: self.action_result.dup(),
            failure: self.failure.dup(),
            message: self.message.dup(),
        }
    }
}

/// What a runner waits for.
#[derive(Debug, Clone, Copy, PartialEq, Eq, Structural)]
pub enum Phase {
    /// For the next step.
    Ready,
    /// For a frame, taken no earlier than the next poll.
    Capturing,
    /// For what the recognition of a candidate finds in the frame.
    Recognizing { candidate: usize },
    /// For what the action at the action index gives.
    Acting,
    /// For the release of held input, before the flow ends as cancelled.
    ReleasingCancelled,
    /// For the release of held input, after the operations are used up.
    ReleasingSpent,
    /// For the release of held input, after the flow completed or was blocked.
    ReleasingEnded,
    /// For the handler of the action at the action index to hear that it was interrupted.
    ReportingFailed,
    /// For the release of held input, before an error route is taken.
    ReleasingFailed,
    /// For the release of held input, before a pause.
    ReleasingPaused { interrupted: bool },
    /// For the handler of the action at the action index to hear that it was interrupted.
    ReportingPaused { interrupted: bool },
    /// For the end of a pause that began at a time.
    Paused { since: Nanos },
}

impl DeepView for Phase {
    type V = Phase;

    open spec fn deep_view(&self) -> Phase {
        *self
    }
}

impl Dup for Phase {
    fn dup(&self) -> (r: Self) {
        *self
    }
}

/// What can cut an operation short.
#[derive(Debug, Clone, Copy, PartialEq, Eq, Structural)]
pub enum Interruption {
    Cancelled,
    Paused,
    TimedOut,
}

#[verifier::ext_equal]
pub struct RunnerModel {
    pub flow: FlowModel,
    pub progress: ProgressModel,
    pub candidates: Seq<Text>,
    pub deadline: Nanos,
    pub next_poll: Nanos,
    pub phase: Phase,
    /// The error on whose account input is released.
    pub error: Option<ErrorModel>,
    /// The error of the last step: held input could not be released.
    pub fault: Option<ErrorModel>,
}

impl RunnerModel {
    /// A flow that waits for its entry.
    pub open spec fn fresh(flow: FlowModel, now: Nanos) -> Self {
        RunnerModel {
            flow,
            progress: ProgressModel {
                status: Status::Running,
                node: flow.entry,
                action_index: None,
                operations: 0,
                recognition: RecognitionResultModel::none(),
                action_result: JsonModel::Null,
                failure: None,
                message: "waiting for entry"@,
            },
            candidates: seq![flow.entry],
            deadline: later(now, flow.node(flow.entry).timeout_ms),
            next_poll: now,
            phase: Phase::Ready,
            error: None,
            fault: None,
        }
    }

    /// The node that was entered last.
    pub open spec fn node(self) -> NodeModel {
        self.flow.node(self.progress.node)
    }

    /// Whether the action index is that of an action.
    pub open spec fn at_action(self) -> bool {
        self.progress.action_index matches Some(i) && i < self.node().actions.len()
    }

    /// Whether a name can follow the node that was entered last.
    pub open spec fn follows(self, name: Text) -> bool {
        ||| name == self.progress.node
        ||| self.node().next.contains(name)
        ||| self.node().on_error.contains(name)
        ||| self.node().on_interrupted.contains(name)
    }

    /// What holds of every runner.
    pub open spec fn wf(self) -> bool {
        &&& self.flow.linked()
        &&& self.progress.operations <= self.flow.max_operations
        &&& self.flow.has(self.progress.node)
        &&& forall|i: int| 0 <= i < self.candidates.len() ==> self.flow.has(
            #[trigger] self.candidates[i],
        )
        &&& self.progress.action_index matches Some(i) ==> i <= self.node().actions.len()
        &&& self.progress.status == Status::Running && self.progress.action_index is None
            ==> forall|i: int|
            0 <= i < self.candidates.len() ==> self.follows(#[trigger] self.candidates[i])
        &&& self.progress.recognition.centered()
        &&& match self.phase {
            Phase::Capturing => self.running() && self.progress.action_index is None,
            Phase::Recognizing { candidate } => self.running() && self.progress.action_index is None
                && candidate < self.candidates.len(),
            Phase::Acting => self.running() && self.at_action(),
            Phase::ReleasingSpent => self.progress.status == Status::Failed,
            Phase::ReleasingEnded => self.progress.status == Status::Completed
                || self.progress.status == Status::Blocked,
            Phase::ReportingFailed => self.running() && self.at_action() && self.error is Some,
            Phase::ReleasingFailed => self.running() && self.error is Some,
            Phase::ReleasingPaused { .. } => self.running(),
            Phase::ReportingPaused { .. } => self.running() && self.at_action(),
            _ => true,
        }
        &&& self.fault is Some ==> self.progress.status == Status::Failed
    }

    pub open spec fn running(self) -> bool {
        self.progress.status == Status::Running
    }

    /// The flow ends or goes on after a step.
    pub open spec fn settled(self) -> Self {
        RunnerModel {
            phase: if self.progress.status == Status::Completed || self.progress.status
                == Status::Blocked {
                Phase::ReleasingEnded
            } else {
                Phase::Ready
            },
            ..self
        }
    }

    /// The actions of the node are done.
    pub open spec fn node_done(self, now: Nanos) -> Self {
        RunnerModel {
            candidates: self.node().next,
            deadline: later(now, self.node().timeout_ms),
            next_poll: now,
            progress: ProgressModel {
                action_index: None,
                status: if self.node().next.len() == 0 {
                    Status::Completed
                } else {
                    self.progress.status
                },
                message: if self.node().next.len() == 0 {
                    "flow completed"@
                } else {
                    self.progress.message
                },
                ..self.progress
            },
            ..self
        }
    }

    /// An operation failed.
    pub open spec fn failed(self, error: ErrorModel) -> Self {
        RunnerModel {
            error: Some(error),
            phase: if self.at_action() {
                Phase::ReportingFailed
            } else {
                Phase::ReleasingFailed
            },
            progress: ProgressModel {
                failure: Some(
                    FailureModel {
                        node: self.progress.node,
                        action_index: self.progress.action_index,
                        message: error.message(),
                    },
                ),
                message: error.message(),
                ..self.progress
            },
            ..self
        }
    }

    /// The next step begins.
    pub open spec fn on_step(self, control: Control, now: Nanos) -> Self {
        if self.phase != Phase::Ready || !self.running() {
            self
        } else if control.cancelled {
            RunnerModel { phase: Phase::ReleasingCancelled, ..self }
        } else if control.pause is Requested || control.pause is Acknowledged {
            RunnerModel { phase: Phase::ReleasingPaused { interrupted: false }, ..self }
        } else if self.progress.operations >= self.flow.max_operations {
            RunnerModel {
                phase: Phase::ReleasingSpent,
                progress: ProgressModel {
                    status: Status::Failed,
                    message: "flow operation budget exhausted"@,
                    ..self.progress
                },
                ..self
            }
        } else {
            let counted = RunnerModel {
                progress: ProgressModel {
                    operations: (self.progress.operations + 1) as u64,
                    ..self.progress
                },
                ..self
            };
            if now >= self.deadline {
                counted.failed(ErrorModel::TimedOut)
            } else if self.progress.action_index is None {
                RunnerModel { phase: Phase::Capturing, ..counted }
            } else if self.at_action() {
                RunnerModel { phase: Phase::Acting, ..counted }
            } else {
                counted.node_done(now).settled()
            }
        }
    }

    /// The flow is to end as cancelled, whatever it did.
    pub open spec fn on_cancel(self) -> Self {
        if self.phase == Phase::Ready || self.phase is Paused {
            RunnerModel { phase: Phase::ReleasingCancelled, ..self }
        } else {
            self
        }
    }

    /// An operation was cut short.
    pub open spec fn on_interrupted(self, interruption: Interruption) -> Self {
        if !(self.phase is Capturing || self.phase is Recognizing || self.phase is Acting) {
            self
        } else {
            match interruption {
                Interruption::Cancelled => self.failed(ErrorModel::Cancelled),
                Interruption::TimedOut => self.failed(ErrorModel::TimedOut),
                Interruption::Paused => RunnerModel {
                    phase: Phase::ReleasingPaused {
                        interrupted: self.progress.action_index is Some,
                    },
                    ..self
                },
            }
        }
    }

    /// No candidate was found.
    pub open spec fn unmatched(self, now: Nanos) -> Self {
        RunnerModel {
            phase: Phase::Ready,
            next_poll: later(now, self.flow.poll_interval_ms),
            progress: ProgressModel { message: "no candidate matched"@, ..self.progress },
            ..self
        }
    }

    /// A frame was taken, or could not be.
    pub open spec fn on_captured(self, reply: Result<(), ErrorModel>, now: Nanos) -> Self {
        if !(self.phase is Capturing) {
            self
        } else {
            match reply {
                Err(error) => self.failed(error),
                Ok(()) => if self.candidates.len() == 0 {
                    self.unmatched(now)
                } else {
                    RunnerModel { phase: Phase::Recognizing { candidate: 0 }, ..self }
                },
            }
        }
    }

    /// The recognition of a candidate gave a result, or failed.
    pub open spec fn on_recognized(
        self,
        frame: FrameModel,
        reply: Result<RecognitionResultModel, ErrorModel>,
        now: Nanos,
    ) -> Self {
        match self.phase {
            Phase::Recognizing { candidate } => match reply {
                Err(error) => self.failed(error),
                Ok(result) => match matches_flaw(frame, result.matches, 0) {
                    Some(error) => self.failed(error),
                    None => if result.matched() {
                        let name = self.candidates[candidate as int];
                        RunnerModel {
                            phase: Phase::Ready,
                            deadline: later(now, self.flow.node(name).timeout_ms),
                            progress: ProgressModel {
                                node: name,
                                recognition: result,
                                action_result: JsonModel::Null,
                                action_index: Some(0),
                                message: "node matched"@,
                                ..self.progress
                            },
                            ..self
                        }
                    } else if candidate + 1 < self.candidates.len() {
                        RunnerModel {
                            phase: Phase::Recognizing { candidate: (candidate + 1) as usize },
                            ..self
                        }
                    } else {
                        self.unmatched(now)
                    },
                },
            },
            _ => self,
        }
    }

    /// The flow goes on with one candidate.
    pub open spec fn redirected(self, name: Text, output: JsonModel, message: Text, now: Nanos) -> Self {
        RunnerModel {
            candidates: seq![name],
            deadline: later(now, self.node().timeout_ms),
            next_poll: now,
            phase: Phase::Ready,
            progress: ProgressModel {
                action_result: output,
                action_index: None,
                message,
                ..self.progress
            },
            ..self
        }
    }

    /// An action gave a result, or failed.
    pub open spec fn on_acted(self, reply: Result<ActionResultModel, ErrorModel>, now: Nanos) -> Self {
        if !(self.phase is Acting) {
            self
        } else {
            let index = self.progress.action_index->0;
            match reply {
                Err(error) => self.failed(error),
                Ok(ActionResultModel::Continue(output)) => {
                    let next = RunnerModel {
                        progress: ProgressModel {
                            action_result: output,
                            action_index: Some((index + 1) as usize),
                            message: "action completed"@,
                            ..self.progress
                        },
                        ..self
                    };
                    if index + 1 == self.node().actions.len() {
                        next.node_done(now).settled()
                    } else {
                        RunnerModel { phase: Phase::Ready, ..next }
                    }
                },
                Ok(ActionResultModel::Reobserve(output)) => if self.node().actions.len() != 1 {
                    self.failed(ErrorModel::Invalid("reobserve requires a single-action node"@))
                } else {
                    self.redirected(self.progress.node, output, "re-observe"@, now)
                },
                Ok(ActionResultModel::Route { node, output }) => if !self.node().next.contains(
                    node,
                ) {
                    self.failed(
                        ErrorModel::Invalid("action routed outside next candidates: "@ + node),
                    )
                } else {
                    self.redirected(node, output, "action routed"@, now)
                },
                Ok(ActionResultModel::Complete(output)) => RunnerModel {
                    phase: Phase::ReleasingEnded,
                    progress: ProgressModel {
                        action_result: output,
                        action_index: None,
                        status: Status::Completed,
                        message: "flow completed"@,
                        ..self.progress
                    },
                    ..self
                },
                Ok(ActionResultModel::Blocked(reason)) => RunnerModel {
                    phase: Phase::ReleasingEnded,
                    progress: ProgressModel {
                        action_index: None,
                        status: Status::Blocked,
                        message: reason,
                        ..self.progress
                    },
                    ..self
                },
            }
        }
    }

    /// The flow holds. Where an action may have been cut short, nothing is done again before
    /// the state is looked at anew; without a way to do that the flow is blocked.
    pub open spec fn parked(self, interrupted: bool, now: Nanos) -> Self {
        let held = RunnerModel { phase: Phase::Paused { since: now }, ..self };
        let recovery = self.node().on_interrupted;
        if self.progress.action_index is None {
            held
        } else if recovery.len() == 0 && (interrupted || self.progress.action_index != Some(
            0usize,
        )) {
            RunnerModel {
                progress: ProgressModel {
                    status: Status::Blocked,
                    message: "action outcome unknown after pause"@,
                    ..self.progress
                },
                ..held
            }
        } else {
            RunnerModel {
                candidates: if recovery.len() == 0 {
                    seq![self.progress.node]
                } else {
                    recovery
                },
                progress: ProgressModel {
                    action_index: None,
                    recognition: RecognitionResultModel::none(),
                    action_result: JsonModel::Null,
                    message: "re-observe after pause"@,
                    ..self.progress
                },
                ..held
            }
        }
    }

    /// The handler of an action heard that it was interrupted.
    pub open spec fn on_reported(self, now: Nanos) -> Self {
        match self.phase {
            Phase::ReportingFailed => RunnerModel { phase: Phase::ReleasingFailed, ..self },
            Phase::ReportingPaused { interrupted } => self.parked(interrupted, now),
            _ => self,
        }
    }

    /// The error route of a node is taken, or the flow ends.
    pub open spec fn recovered(self, error: ErrorModel, now: Nanos) -> Self {
        let recovery = self.node().on_error;
        let ready = RunnerModel { phase: Phase::Ready, error: None, ..self };
        if error is Cancelled {
            RunnerModel {
                progress: ProgressModel { status: Status::Cancelled, ..self.progress },
                ..ready
            }
        } else if recovery.len() == 0 || error is Invalid || error is Unsupported {
            RunnerModel {
                progress: ProgressModel { status: Status::Failed, ..self.progress },
                ..ready
            }
        } else {
            RunnerModel {
                candidates: recovery,
                deadline: later(now, self.node().timeout_ms),
                next_poll: later(now, self.flow.poll_interval_ms),
                progress: ProgressModel { action_index: None, ..self.progress },
                ..ready
            }
        }
    }

    /// Held input was released, or could not be.
    pub open spec fn on_released(self, reply: Result<(), ErrorModel>, now: Nanos) -> Self {
        if !(self.phase is ReleasingCancelled || self.phase is ReleasingSpent || self.phase
            is ReleasingEnded || self.phase is ReleasingFailed || self.phase is ReleasingPaused) {
            self
        } else {
            match reply {
                Err(error) => {
                    let lost = "input cleanup failed: "@ + error.message();
                    RunnerModel {
                        phase: Phase::Ready,
                        error: None,
                        fault: Some(ErrorModel::Cleanup(error.message())),
                        progress: ProgressModel {
                            status: Status::Failed,
                            message: if self.phase is ReleasingFailed {
                                self.error->0.message() + "; "@ + lost
                            } else {
                                lost
                            },
                            ..self.progress
                        },
                        ..self
                    }
                },
                Ok(()) => match self.phase {
                    Phase::ReleasingCancelled => RunnerModel {
                        phase: Phase::Ready,
                        progress: ProgressModel {
                            status: Status::Cancelled,
                            message: "cancelled"@,
                            ..self.progress
                        },
                        fault: None,
                        ..self
                    },
                    Phase::ReleasingFailed => self.recovered(self.error->0, now),
                    Phase::ReleasingPaused { interrupted } => if self.at_action() {
                        RunnerModel { phase: Phase::ReportingPaused { interrupted }, ..self }
                    } else {
                        self.parked(interrupted, now)
                    },
                    _ => RunnerModel { phase: Phase::Ready, ..self },
                },
            }
        }
    }

    /// The pause is over: the time that it took counts neither against the deadline nor
    /// against the poll interval.
    pub open spec fn on_resumed(self, now: Nanos) -> Self {
        match self.phase {
            Phase::Paused { since } => {
                let elapsed = if now > since {
                    now - since
                } else {
                    0
                };
                RunnerModel {
                    phase: Phase::Ready,
                    deadline: after_or_end(self.deadline, elapsed),
                    next_poll: after_or_end(self.next_poll, elapsed),
                    ..self
                }
            },
            _ => self,
        }
    }
}

/// Runs one flow. A completed flow is only local completion, no proof of the user's task.
#[derive(Debug)]
pub struct Runner {
    flow: Flow,
    progress: Progress,
    candidates: Vec<String>,
    deadline: Nanos,
    next_poll: Nanos,
    phase: Phase,
    error: Option<Error>,
    fault: Option<Error>,
}

impl View for Runner {
    type V = RunnerModel;

    closed spec fn view(&self) -> RunnerModel {
        RunnerModel {
            flow: self.flow@,
            progress: self.progress@,
            candidates: self.candidates.deep_view(),
            deadline: self.deadline,
            next_poll: self.next_poll,
            phase: self.phase,
            error: self.error.deep_view(),
            fault: self.fault.deep_view(),
        }
    }
}

/// What a reply says.
pub open spec fn told<T: View>(reply: Result<T, Error>) -> Result<T::V, ErrorModel> {
    match reply {
        Ok(value) => Ok(value@),
        Err(error) => Err(error@),
    }
}

impl Runner {
    /// A runner of a flow with which nothing is wrong and which the host can serve.
    pub fn new(flow: Flow, recognizers: &Recognizers, actions: &Actions, now: Nanos) -> (r: Result<
        Runner,
        Error,
    >)
        requires
            flow@.in_order(),
        ensures
            match r {
                Ok(runner) => flow@.flaw(now) is None && flow@.unsupported(
                    recognizers@,
                    actions@,
                    0,
                ) is None && runner@ == RunnerModel::fresh(flow@, now) && runner@.wf(),
                Err(error) => match flow@.flaw(now) {
                    Some(flaw) => error@ == flaw,
                    None => flow@.unsupported(recognizers@, actions@, 0) == Some(error@),
                },
            },
    {
        match flow.validate(now) {
            Ok(()) => {},
            Err(error) => {
                return Err(error);
            },
        }
        match flow.check_capabilities(recognizers, actions) {
            Ok(()) => {},
            Err(error) => {
                return Err(error);
            },
        }
        let timeout: u64 = match flow.find(flow.entry.as_str()) {
            Some(i) => flow.nodes[i].node.timeout_ms,
            None => 0,
        };
        let mut candidates: Vec<String> = Vec::new();
        candidates.push(flow.entry.dup());
        let runner = Runner {
            candidates,
            deadline: find_later(now, timeout),
            next_poll: now,
            phase: Phase::Ready,
            error: None,
            fault: None,
            progress: Progress {
                status: Status::Running,
                node: flow.entry.dup(),
                action_index: None,
                operations: 0,
                recognition: RecognitionResult::none(),
                action_result: Json::Null,
                failure: None,
                message: "waiting for entry".to_owned(),
            },
            flow,
        };
        proof {
            flawless_flows_are_linked(flow@, now);
            assert(runner@.candidates =~= seq![flow@.entry]);
            fresh_runners_are_sound(flow@, now);
        }
        Ok(runner)
    }

    /// What the runner waits for.
    pub fn phase(&self) -> (r: Phase)
        ensures
            r == self@.phase,
    {
        self.phase
    }

    /// What the flow did so far.
    pub fn progress(&self) -> (r: &Progress)
        ensures
            r@ == self@.progress,
    {
        &self.progress
    }

    /// The time by which the operation has to be done.
    pub fn deadline(&self) -> (r: Nanos)
        ensures
            r == self@.deadline,
    {
        self.deadline
    }

    /// The time before which no frame is taken.
    pub fn next_poll(&self) -> (r: Nanos)
        ensures
            r == self@.next_poll,
    {
        self.next_poll
    }

    /// Why held input could not be released, if it could not.
    pub fn fault(&self) -> (r: &Option<Error>)
        ensures
            r.deep_view() == self@.fault,
    {
        &self.fault
    }

    fn node_index(&self) -> (r: usize)
        requires
            self@.wf(),
        ensures
            r < self.flow.nodes@.len(),
            self@.node() == self.flow.nodes@[r as int].node@,
    {
        match self.flow.find(self.progress.node.as_str()) {
            Some(i) => i,
            None => {
                assert(self@.flow.has(self@.progress.node));
                0
            },
        }
    }

    /// The recognition of the candidate that is looked for.
    pub fn recognition(&self) -> (r: &Recognition)
        requires
            self@.wf(),
            self@.phase is Recognizing,
        ensures
            r@ == self@.flow.node(
                self@.candidates[self@.phase->candidate as int],
            ).recognition,
    {
        let at: usize = match self.phase {
            Phase::Recognizing { candidate } => candidate,
            _ => 0,
        };
        let name = self.candidates[at].as_str();
        assert(self@.candidates[at as int] == self.candidates@[at as int]@);
        match self.flow.find(name) {
            Some(i) => &self.flow.nodes[i].node.recognition,
            None => {
                assert(self@.flow.has(self@.candidates[at as int]));
                &self.flow.nodes[0].node.recognition
            },
        }
    }

    fn has_action(&self) -> (r: bool)
        requires
            self@.wf(),
        ensures
            r == self@.at_action(),
    {
        let node: usize = self.node_index();
        match self.progress.action_index {
            Some(i) => i < self.flow.nodes[node].node.actions.len(),
            None => false,
        }
    }

    /// The action at the action index.
    pub fn action(&self) -> (r: &Action)
        requires
            self@.wf(),
            self@.at_action(),
        ensures
            r@ == self@.node().actions[self@.progress.action_index->0 as int],
    {
        let node: usize = self.node_index();
        let at: usize = match self.progress.action_index {
            Some(i) => i,
            None => 0,
        };
        let actions = &self.flow.nodes[node].node.actions;
        assert(self@.node().actions[at as int] == actions@[at as int]@);
        &actions[at]
    }

    /// What the host does for the action at the action index.
    pub fn command(&self, actions: &Actions) -> (r: Result<Command, Error>)
        requires
            self@.wf(),
            self@.at_action(),
        ensures
            match r {
                Ok(command) => self@.node().actions[self@.progress.action_index->0 as int].command(
                    self@.progress.recognition,
                    actions@,
                ) == Ok::<CommandModel, ErrorModel>(command@),
                Err(error) => self@.node().actions[self@.progress.action_index->0 as int].command(
                    self@.progress.recognition,
                    actions@,
                ) == Err::<CommandModel, ErrorModel>(error@),
            },
    {
        actions.execute(self.action(), &self.progress.recognition)
    }

    fn settle(&mut self)
        ensures
            final(self)@ == old(self)@.settled(),
    {
        if self.progress.status == Status::Completed || self.progress.status == Status::Blocked {
            self.phase = Phase::ReleasingEnded;
        } else {
            self.phase = Phase::Ready;
        }
    }

    fn finish_node(&mut self, now: Nanos)
        requires
            old(self)@.flow.has(old(self)@.progress.node),
        ensures
            final(self)@ == old(self)@.node_done(now),
    {
        let node: usize = match self.flow.find(self.progress.node.as_str()) {
            Some(i) => i,
            None => {
                return;
            },
        };
        self.candidates = self.flow.nodes[node].node.next.dup();
        self.deadline = find_later(now, self.flow.nodes[node].node.timeout_ms);
        self.next_poll = now;
        self.progress.action_index = None;
        if self.candidates.len() == 0 {
            self.progress.status = Status::Completed;
            self.progress.message = "flow completed".to_owned();
        }
    }

    fn fail(&mut self, error: Error)
        requires
            old(self)@.wf(),
        ensures
            final(self)@ == old(self)@.failed(error@),
    {
        self.phase = if self.has_action() {
            Phase::ReportingFailed
        } else {
            Phase::ReleasingFailed
        };
        self.progress.failure = Some(
            Failure {
                node: self.progress.node.dup(),
                action_index: self.progress.action_index,
                message: error.message(),
            },
        );
        self.progress.message = error.message();
        self.error = Some(error);
    }

    /// Begins the next step.
    pub fn step(&mut self, control: &Control, now: Nanos)
        requires
            old(self)@.wf(),
        ensures
            final(self)@ == old(self)@.on_step(*control, now),
            final(self)@.wf(),
    {
        proof {
            steps_keep_runners_sound(self@, *control, now);
        }
        if self.phase != Phase::Ready || self.progress.status != Status::Running {
            return;
        }
        if control.cancelled {
            self.phase = Phase::ReleasingCancelled;
            return;
        }
        if control.is_pause_requested() {
            self.phase = Phase::ReleasingPaused { interrupted: false };
            return;
        }
        if self.progress.operations >= self.flow.max_operations {
            self.progress.status = Status::Failed;
            self.progress.message = "flow operation budget exhausted".to_owned();
            self.phase = Phase::ReleasingSpent;
            return;
        }
        self.progress.operations = self.progress.operations + 1;
        if now >= self.deadline {
            self.fail(Error::TimedOut);
            return;
        }
        if self.progress.action_index.is_none() {
            self.phase = Phase::Capturing;
        } else if self.has_action() {
            self.phase = Phase::Acting;
        } else {
            self.finish_node(now);
            self.settle();
        }
    }

    /// Ends the flow as cancelled, whatever it did, once held input is released.
    pub fn cancel(&mut self)
        requires
            old(self)@.wf(),
        ensures
            final(self)@ == old(self)@.on_cancel(),
            final(self)@.wf(),
    {
        if self.phase == Phase::Ready || matches!(self.phase, Phase::Paused { .. }) {
            self.phase = Phase::ReleasingCancelled;
        }
    }

    /// Takes notice that the operation was cut short.
    pub fn interrupted(&mut self, interruption: Interruption)
        requires
            old(self)@.wf(),
        ensures
            final(self)@ == old(self)@.on_interrupted(interruption),
            final(self)@.wf(),
    {
        if !matches!(self.phase, Phase::Capturing | Phase::Recognizing { .. } | Phase::Acting) {
            return;
        }
        match interruption {
            Interruption::Cancelled => self.fail(Error::Cancelled),
            Interruption::TimedOut => self.fail(Error::TimedOut),
            Interruption::Paused => {
                self.phase = Phase::ReleasingPaused {
                    interrupted: self.progress.action_index.is_some(),
                };
            },
        }
    }

    fn miss(&mut self, now: Nanos)
        ensures
            final(self)@ == old(self)@.unmatched(now),
    {
        self.progress.message = "no candidate matched".to_owned();
        self.next_poll = find_later(now, self.flow.poll_interval_ms);
        self.phase = Phase::Ready;
    }

    /// Takes notice that a frame was taken, or could not be.
    pub fn captured(&mut self, reply: Result<(), Error>, now: Nanos)
        requires
            old(self)@.wf(),
        ensures
            final(self)@ == old(self)@.on_captured(
                told(reply),
                now,
            ),
            final(self)@.wf(),
    {
        if self.phase != Phase::Capturing {
            return;
        }
        match reply {
            Err(error) => self.fail(error),
            Ok(()) => {
                if self.candidates.len() == 0 {
                    self.miss(now);
                } else {
                    self.phase = Phase::Recognizing { candidate: 0 };
                }
            },
        }
    }

    fn matched(&mut self, candidate: usize, result: RecognitionResult, now: Nanos)
        requires
            old(self)@.wf(),
            candidate < old(self)@.candidates.len(),
        ensures
            final(self)@ == (RunnerModel {
                phase: Phase::Ready,
                deadline: later(
                    now,
                    old(self)@.flow.node(old(self)@.candidates[candidate as int]).timeout_ms,
                ),
                progress: ProgressModel {
                    node: old(self)@.candidates[candidate as int],
                    recognition: result@,
                    action_result: JsonModel::Null,
                    action_index: Some(0),
                    message: "node matched"@,
                    ..old(self)@.progress
                },
                ..old(self)@
            }),
    {
        let name = self.candidates[candidate].dup();
        assert(self@.candidates[candidate as int] == self.candidates@[candidate as int]@);
        let node: usize = match self.flow.find(name.as_str()) {
            Some(i) => i,
            None => {
                assert(self@.flow.has(self@.candidates[candidate as int]));
                return;
            },
        };
        self.deadline = find_later(now, self.flow.nodes[node].node.timeout_ms);
        self.progress.node = name;
        self.progress.recognition = result;
        self.progress.action_result = Json::Null;
        self.progress.action_index = Some(0);
        self.progress.message = "node matched".to_owned();
        self.phase = Phase::Ready;
    }

    /// Takes notice of what the recognition of the candidate found in the frame, or that it
    /// failed.
    pub fn recognized(
        &mut self,
        frame: &Frame,
        reply: Result<RecognitionResult, Error>,
        now: Nanos,
    )
        requires
            old(self)@.wf(),
        ensures
            final(self)@ == old(self)@.on_recognized(
                frame@,
                told(reply),
                now,
            ),
            final(self)@.wf(),
    {
        let ghost given = told(reply);
        proof {
            recognitions_keep_runners_sound(self@, frame@, given, now);
        }
        let at: usize = match self.phase {
            Phase::Recognizing { candidate } => candidate,
            _ => {
                return;
            },
        };
        match reply {
            Err(error) => self.fail(error),
            Ok(result) => match check_result(frame, result) {
                Err(error) => self.fail(error),
                Ok(result) => {
                    if result.matched() {
                        self.matched(at, result, now);
                    } else if at < self.candidates.len() - 1 {
                        self.phase = Phase::Recognizing { candidate: at + 1 };
                    } else {
                        self.miss(now);
                    }
                },
            },
        }
    }

    fn redirect(&mut self, name: String, output: Json, message: &str, now: Nanos)
        requires
            old(self)@.wf(),
        ensures
            final(self)@ == old(self)@.redirected(name@, output@, message@, now),
    {
        let node: usize = self.node_index();
        self.deadline = find_later(now, self.flow.nodes[node].node.timeout_ms);
        self.next_poll = now;
        let ghost target = name@;
        let mut candidates: Vec<String> = Vec::new();
        candidates.push(name);
        assert(candidates.deep_view() =~= seq![target]);
        self.candidates = candidates;
        self.progress.action_result = output;
        self.progress.action_index = None;
        self.progress.message = message.to_owned();
        self.phase = Phase::Ready;
    }

    /// Takes notice of what the action gave, or that it failed.
    pub fn acted(&mut self, reply: Result<ActionResult, Error>, now: Nanos)
        requires
            old(self)@.wf(),
        ensures
            final(self)@ == old(self)@.on_acted(
                told(reply),
                now,
            ),
            final(self)@.wf(),
    {
        let ghost given = told(reply);
        proof {
            actions_keep_runners_sound(self@, given, now);
        }
        if self.phase != Phase::Acting {
            return;
        }
        let node: usize = self.node_index();
        let index: usize = match self.progress.action_index {
            Some(i) => i,
            None => 0,
        };
        let count: usize = self.flow.nodes[node].node.actions.len();
        match reply {
            Err(error) => self.fail(error),
            Ok(ActionResult::Continue(output)) => {
                self.progress.action_result = output;
                self.progress.action_index = Some(index + 1);
                self.progress.message = "action completed".to_owned();
                if index + 1 == count {
                    self.finish_node(now);
                    self.settle();
                } else {
                    self.phase = Phase::Ready;
                }
            },
            Ok(ActionResult::Reobserve(output)) => {
                if count != 1 {
                    self.fail(Error::Invalid("reobserve requires a single-action node".to_owned()));
                } else {
                    let name = self.progress.node.dup();
                    self.redirect(name, output, "re-observe", now);
                }
            },
            Ok(ActionResult::Route { node: target, output }) => {
                if !text::holds(&self.flow.nodes[node].node.next, target.as_str()) {
                    self.fail(
                        Error::Invalid(
                            text::cat2("action routed outside next candidates: ", target.as_str()),
                        ),
                    );
                } else {
                    self.redirect(target, output, "action routed", now);
                }
            },
            Ok(ActionResult::Complete(output)) => {
                self.progress.action_result = output;
                self.progress.action_index = None;
                self.progress.status = Status::Completed;
                self.progress.message = "flow completed".to_owned();
                self.phase = Phase::ReleasingEnded;
            },
            Ok(ActionResult::Blocked(reason)) => {
                self.progress.action_index = None;
                self.progress.status = Status::Blocked;
                self.progress.message = reason;
                self.phase = Phase::ReleasingEnded;
            },
        }
    }

    fn park(&mut self, interrupted: bool, now: Nanos)
        requires
            old(self)@.wf(),
        ensures
            final(self)@ == old(self)@.parked(interrupted, now),
    {
        let node: usize = self.node_index();
        self.phase = Phase::Paused { since: now };
        match self.progress.action_index {
            None => {},
            Some(index) => {
                let recovery = self.flow.nodes[node].node.on_interrupted.dup();
                if recovery.len() == 0 && (interrupted || index != 0) {
                    self.progress.status = Status::Blocked;
                    self.progress.message = "action outcome unknown after pause".to_owned();
                } else {
                    if recovery.len() == 0 {
                        let mut candidates: Vec<String> = Vec::new();
                        candidates.push(self.progress.node.dup());
                        assert(candidates.deep_view() =~= seq![self@.progress.node]);
                        self.candidates = candidates;
                    } else {
                        self.candidates = recovery;
                    }
                    self.progress.action_index = None;
                    self.progress.recognition = RecognitionResult::none();
                    self.progress.action_result = Json::Null;
                    self.progress.message = "re-observe after pause".to_owned();
                }
            },
        }
    }

    /// Takes notice that the handler of the action heard that it was interrupted.
    pub fn reported(&mut self, now: Nanos)
        requires
            old(self)@.wf(),
        ensures
            final(self)@ == old(self)@.on_reported(now),
            final(self)@.wf(),
    {
        proof {
            reports_keep_runners_sound(self@, now);
        }
        match self.phase {
            Phase::ReportingFailed => {
                self.phase = Phase::ReleasingFailed;
            },
            Phase::ReportingPaused { interrupted } => {
                self.park(interrupted, now);
            },
            _ => {},
        }
    }

    fn recover(&mut self, error: Error, now: Nanos)
        requires
            old(self)@.wf(),
        ensures
            final(self)@ == old(self)@.recovered(error@, now),
    {
        let node: usize = self.node_index();
        let recovery = self.flow.nodes[node].node.on_error.dup();
        match error {
            Error::Cancelled => {
                self.progress.status = Status::Cancelled;
            },
            Error::Invalid(_) | Error::Unsupported(_) => {
                self.progress.status = Status::Failed;
            },
            _ => {
                if recovery.len() == 0 {
                    self.progress.status = Status::Failed;
                } else {
                    self.candidates = recovery;
                    self.progress.action_index = None;
                    self.deadline = find_later(now, self.flow.nodes[node].node.timeout_ms);
                    self.next_poll = find_later(now, self.flow.poll_interval_ms);
                }
            },
        }
        self.phase = Phase::Ready;
        self.error = None;
    }

    fn lose(&mut self, error: Error)
        requires
            old(self)@.wf(),
        ensures
            final(self)@ == (RunnerModel {
                phase: Phase::Ready,
                error: None,
                fault: Some(ErrorModel::Cleanup(error@.message())),
                progress: ProgressModel {
                    status: Status::Failed,
                    message: if old(self)@.phase is ReleasingFailed {
                        old(self)@.error->0.message() + "; "@ + ("input cleanup failed: "@
                            + error@.message())
                    } else {
                        "input cleanup failed: "@ + error@.message()
                    },
                    ..old(self)@.progress
                },
                ..old(self)@
            }),
    {
        let detail = error.message();
        let lost = text::cat2("input cleanup failed: ", detail.as_str());
        let mut cause: Option<Error> = None;
        std::mem::swap(&mut cause, &mut self.error);
        self.progress.message = match (self.phase, cause) {
            (Phase::ReleasingFailed, Some(cause)) => text::cat3(
                cause.message().as_str(),
                "; ",
                lost.as_str(),
            ),
            _ => lost,
        };
        self.progress.status = Status::Failed;
        self.phase = Phase::Ready;
        self.fault = Some(Error::Cleanup(detail));
    }

    /// Takes notice that held input was released, or could not be.
    pub fn released(&mut self, reply: Result<(), Error>, now: Nanos)
        requires
            old(self)@.wf(),
        ensures
            final(self)@ == old(self)@.on_released(
                told(reply),
                now,
            ),
            final(self)@.wf(),
    {
        let ghost given = told(reply);
        proof {
            releases_keep_runners_sound(self@, given, now);
        }
        match self.phase {
            Phase::ReleasingCancelled
            | Phase::ReleasingSpent
            | Phase::ReleasingEnded
            | Phase::ReleasingFailed
            | Phase::ReleasingPaused { .. } => {},
            _ => {
                return;
            },
        }
        match reply {
            Err(error) => {
                self.lose(error);
            },
            Ok(()) => match self.phase {
                Phase::ReleasingCancelled => {
                    self.progress.status = Status::Cancelled;
                    self.progress.message = "cancelled".to_owned();
                    self.phase = Phase::Ready;
                    self.fault = None;
                },
                Phase::ReleasingFailed => {
                    let mut cause: Option<Error> = None;
                    std::mem::swap(&mut cause, &mut self.error);
                    if let Some(cause) = cause {
                        self.error = Some(cause.dup());
                        self.recover(cause, now);
                    }
                },
                Phase::ReleasingPaused { interrupted } => {
                    if self.has_action() {
                        self.phase = Phase::ReportingPaused { interrupted };
                    } else {
                        self.park(interrupted, now);
                    }
                },
                _ => {
                    self.phase = Phase::Ready;
                },
            },
        }
    }

    /// Takes notice that the pause is over.
    pub fn resumed(&mut self, now: Nanos)
        requires
            old(self)@.wf(),
        ensures
            final(self)@ == old(self)@.on_resumed(now),
            final(self)@.wf(),
    {
        match self.phase {
            Phase::Paused { since } => {
                let elapsed: Nanos = if now > since {
                    now - since
                } else {
                    0
                };
                self.deadline = find_after_or_end(self.deadline, elapsed);
                self.next_poll = find_after_or_end(self.next_poll, elapsed);
                self.phase = Phase::Ready;
            },
            _ => {},
        }
    }
}

/// A runner is sound from the start.
pub proof fn fresh_runners_are_sound(flow: FlowModel, now: Nanos)
    requires
        flow.linked(),
    ensures
        RunnerModel::fresh(flow, now).wf(),
{
}

proof fn lemma_links(runner: RunnerModel)
    requires
        runner.flow.linked(),
        runner.flow.has(runner.progress.node),
    ensures
        forall|i: int|
            0 <= i < runner.node().next.len() ==> runner.flow.has(
                #[trigger] runner.node().next[i],
            ),
        forall|i: int|
            0 <= i < runner.node().on_error.len() ==> runner.flow.has(
                #[trigger] runner.node().on_error[i],
            ),
        forall|i: int|
            0 <= i < runner.node().on_interrupted.len() ==> runner.flow.has(
                #[trigger] runner.node().on_interrupted[i],
            ),
{
    found_nodes_have_their_names(runner.flow.nodes, runner.progress.node, 0);
    let at = node_index(runner.flow.nodes, runner.progress.node, 0)->0;
    assert(runner.node() == runner.flow.nodes[at].node);
}

/// A step keeps a runner sound, and takes at most one of its operations.
pub proof fn steps_keep_runners_sound(runner: RunnerModel, control: Control, now: Nanos)
    requires
        runner.wf(),
    ensures
        runner.on_step(control, now).wf(),
        runner.progress.operations <= runner.on_step(control, now).progress.operations
            <= runner.progress.operations + 1,
{
    lemma_links(runner);
}

/// An interruption keeps a runner sound.
pub proof fn interruptions_keep_runners_sound(runner: RunnerModel, interruption: Interruption)
    requires
        runner.wf(),
    ensures
        runner.on_interrupted(interruption).wf(),
{
}

/// A look at a candidate keeps a runner sound, and enters only a node that can follow the
/// one before.
pub proof fn recognitions_keep_runners_sound(
    runner: RunnerModel,
    frame: FrameModel,
    reply: Result<RecognitionResultModel, ErrorModel>,
    now: Nanos,
)
    requires
        runner.wf(),
    ensures
        runner.on_recognized(frame, reply, now).wf(),
        runner.follows(runner.on_recognized(frame, reply, now).progress.node),
{
    if reply is Ok && matches_flaw(frame, reply->Ok_0.matches, 0) is None {
        flawless_results_are_centered(frame, reply->Ok_0);
    }
    if let Phase::Recognizing { candidate } = runner.phase {
        assert(runner.flow.has(runner.candidates[candidate as int]));
        assert(runner.follows(runner.candidates[candidate as int]));
    }
}

/// An action keeps a runner sound.
pub proof fn actions_keep_runners_sound(
    runner: RunnerModel,
    reply: Result<ActionResultModel, ErrorModel>,
    now: Nanos,
)
    requires
        runner.wf(),
    ensures
        runner.on_acted(reply, now).wf(),
{
    lemma_links(runner);
    if runner.phase is Acting {
        if let Ok(ActionResultModel::Route { node, .. }) = reply {
            if runner.node().next.contains(node) {
                let at = choose|i: int|
                    0 <= i < runner.node().next.len() && runner.node().next[i] == node;
                assert(runner.flow.has(runner.node().next[at]));
            }
        }
    }
}

/// A report keeps a runner sound.
pub proof fn reports_keep_runners_sound(runner: RunnerModel, now: Nanos)
    requires
        runner.wf(),
    ensures
        runner.on_reported(now).wf(),
{
    lemma_links(runner);
}

/// A release keeps a runner sound.
pub proof fn releases_keep_runners_sound(
    runner: RunnerModel,
    reply: Result<(), ErrorModel>,
    now: Nanos,
)
    requires
        runner.wf(),
    ensures
        runner.on_released(reply, now).wf(),
{
    lemma_links(runner);
}

/// A flow that has ended does nothing more: no step changes it.
pub proof fn ended_flows_stay(runner: RunnerModel, control: Control, now: Nanos)
    requires
        !runner.running(),
    ensures
        runner.on_step(control, now) == runner,
{
}

/// Without operations left a step performs nothing but the release of held input, and the
/// flow fails.
pub proof fn spent_flows_fail(runner: RunnerModel, control: Control, now: Nanos)
    requires
        runner.wf(),
        runner.running(),
        runner.phase == Phase::Ready,
        runner.progress.operations == runner.flow.max_operations,
        !control.cancelled,
        control.pause is Running,
    ensures
        runner.on_step(control, now).phase == Phase::ReleasingSpent,
        runner.on_step(control, now).progress.status == Status::Failed,
{
}

/// After a pause during an action the action is never performed without a new look at the
/// state: either the flow is blocked, or no action is at hand and candidates are looked for.
pub proof fn interrupted_actions_are_not_repeated(runner: RunnerModel, interrupted: bool, now: Nanos)
    requires
        runner.wf(),
        runner.progress.action_index is Some,
    ensures
        runner.parked(interrupted, now).progress.status == Status::Blocked || runner.parked(
            interrupted,
            now,
        ).progress.action_index is None,
{
}

/// A pause takes nothing from the time that is left for the operation, up to the end of the
/// clock.
pub proof fn pauses_cost_no_time(runner: RunnerModel, since: Nanos, now: Nanos)
    requires
        runner.phase == (Phase::Paused { since }),
        since <= now,
        runner.deadline + (now - since) <= CLOCK_END,
        runner.next_poll + (now - since) <= CLOCK_END,
    ensures
        runner.on_resumed(now).deadline - now == runner.deadline - since,
        runner.on_resumed(now).next_poll - now == runner.next_poll - since,
{
}

} // verus!
