//! A finite semantic skill of the demo, backed by a visual flow over a simulated device.
use crate::action::{
    Action, ActionModel, ActionResult, ActionResultModel, Actions, Command, CommandModel, Input,
    InputModel, Target,
};
use crate::api::{
    control_error, ActionReport, ActionReportModel, AdapterError, AdapterErrorModel,
    ExecutionControl, PauseState,
};
use crate::automation::{Control, Error, ErrorModel};
use crate::clock::Nanos;
use crate::copy::Dup;
use crate::demo::{feedback, runtime_error, trial_gate, DemoAdapter};
use crate::demo_runtime::{DemoRuntime, RuntimeError};
use crate::flow::{
    actions_flaw, node_index, reachable, unknown_target, Flow, FlowModel, NamedNode, NamedNodeModel,
    Node, NodeModel,
};
use crate::flow_runtime::{bridged, finish, mapped, Bridge};
use crate::json::{Json, JsonModel};
use crate::recognition::{
    color_found, color_result, look_of, matches_flaw, Frame, FrameModel, Look, Real, Recognition,
    RecognitionModel, RecognitionResult, RecognitionResultModel, Recognizers, RecognizersModel,
    Rect, ONE,
};
use crate::runner::{
    actions_keep_runners_sound, interruptions_keep_runners_sound, recognitions_keep_runners_sound,
    releases_keep_runners_sound, reports_keep_runners_sound, steps_keep_runners_sound,
    Interruption, Phase, Progress, ProgressModel, Runner, RunnerModel, Status,
};
use crate::text;
use crate::text::Text;
use vstd::prelude::*;

verus! {

/// One color, all over the frame.
pub open spec fn color(r: u8, g: u8, b: u8) -> RecognitionModel {
    RecognitionModel::ColorMatch {
        roi: None,
        lower: [r, g, b],
        upper: [r, g, b],
        min_ratio: Real { bits: ONE },
    }
}

fn make_color(r: u8, g: u8, b: u8) -> (made: Recognition)
    ensures
        made@ == color(r, g, b),
{
    Recognition::ColorMatch {
        roi: None,
        lower: [r, g, b],
        upper: [r, g, b],
        min_ratio: Real { bits: ONE },
    }
}

/// The device waits for a click.
pub open spec fn ready_node() -> NodeModel {
    NodeModel {
        recognition: color(0, 255, 0),
        actions: seq![ActionModel::Click { target: Target::Match { index: 0 } }],
        next: seq!["confirmed"@],
        on_error: Seq::empty(),
        on_interrupted: seq!["confirmed"@, "ready"@],
        timeout_ms: 1000,
    }
}

/// The device has taken the click.
pub open spec fn confirmed_node() -> NodeModel {
    NodeModel {
        recognition: color(0, 0, 0),
        actions: Seq::empty(),
        next: Seq::empty(),
        on_error: Seq::empty(),
        on_interrupted: Seq::empty(),
        timeout_ms: 1000,
    }
}

/// The flow of one trial: one click, then its confirmation.
pub open spec fn trial_flow() -> FlowModel {
    FlowModel {
        entry: "ready"@,
        nodes: seq![
            NamedNodeModel { name: "confirmed"@, node: confirmed_node() },
            NamedNodeModel { name: "ready"@, node: ready_node() },
        ],
        poll_interval_ms: 10,
        max_operations: 8,
    }
}

fn one(a: &str) -> (r: Vec<String>)
    ensures
        r.deep_view() == seq![a@],
{
    let mut list: Vec<String> = Vec::new();
    list.push(a.to_owned());
    assert(list.deep_view() =~= seq![a@]);
    list
}

fn make_ready_node() -> (r: Node)
    ensures
        r@ == ready_node(),
{
    let mut actions: Vec<Action> = Vec::new();
    actions.push(Action::Click { target: Target::Match { index: 0 } });
    assert(actions.deep_view() =~= ready_node().actions);
    let mut on_interrupted = one("confirmed");
    let ghost first = on_interrupted.deep_view();
    on_interrupted.push("ready".to_owned());
    assert(on_interrupted.deep_view() =~= first.push("ready"@));
    assert(on_interrupted.deep_view() =~= ready_node().on_interrupted);
    let on_error: Vec<String> = Vec::new();
    assert(on_error.deep_view() =~= Seq::<Text>::empty());
    Node {
        recognition: make_color(0, 255, 0),
        actions,
        next: one("confirmed"),
        on_error,
        on_interrupted,
        timeout_ms: 1000,
    }
}

fn make_confirmed_node() -> (r: Node)
    ensures
        r@ == confirmed_node(),
{
    let node = Node {
        recognition: make_color(0, 0, 0),
        actions: Vec::new(),
        next: Vec::new(),
        on_error: Vec::new(),
        on_interrupted: Vec::new(),
        timeout_ms: 1000,
    };
    assert(node@.actions =~= Seq::<ActionModel>::empty());
    assert(node@.next =~= Seq::<Text>::empty());
    assert(node@.on_error =~= Seq::<Text>::empty());
    assert(node@.on_interrupted =~= Seq::<Text>::empty());
    node
}

/// The flow of one trial.
pub fn definition() -> (r: Flow)
    ensures
        r@ == trial_flow(),
        r@.in_order(),
{
    proof {
        reveal_strlit("ready");
        reveal_strlit("confirmed");
        assert(text::before("confirmed"@, "ready"@));
    }
    let mut nodes: Vec<NamedNode> = Vec::new();
    nodes.push(NamedNode { name: "confirmed".to_owned(), node: make_confirmed_node() });
    nodes.push(NamedNode { name: "ready".to_owned(), node: make_ready_node() });
    assert(nodes.deep_view() =~= trial_flow().nodes);
    Flow { entry: "ready".to_owned(), nodes, poll_interval_ms: 10, max_operations: 8 }
}

/// The simulated device of one trial.
#[derive(Debug, Clone, Copy, PartialEq, Eq, Structural)]
pub struct TrialDevice {
    pub result: Option<bool>,
    pub error: Option<RuntimeError>,
}

/// What a control makes of an operation of the device.
pub open spec fn stopped(control: Option<AdapterErrorModel>) -> Option<ErrorModel> {
    match control {
        None => None,
        Some(AdapterErrorModel::Cancelled) => Some(ErrorModel::Cancelled),
        Some(AdapterErrorModel::TimedOut) => Some(ErrorModel::TimedOut),
        Some(error) => Some(ErrorModel::Backend(error.message())),
    }
}

/// What the device shows: green while it waits for a click, black once it took one.
pub open spec fn shown(device: TrialDevice) -> FrameModel {
    FrameModel {
        width: 1,
        height: 1,
        rgb: if device.result is Some {
            seq![0u8, 0u8, 0u8]
        } else {
            seq![0u8, 255u8, 0u8]
        },
    }
}

/// What an input does to the device and to the program: one click is one trial.
pub open spec fn touched(device: TrialDevice, runtime: DemoRuntime, input: InputModel) -> (
    TrialDevice,
    DemoRuntime,
    Result<(), ErrorModel>,
) {
    if !(input is Click) || device.result is Some {
        (device, runtime, Err(ErrorModel::Invalid("trial expects exactly one click"@)))
    } else {
        let (next, result) = runtime.tried();
        match result {
            Ok(successful) => (
                TrialDevice { result: Some(successful), ..device },
                next,
                Ok(()),
            ),
            Err(error) => (
                TrialDevice { error: Some(error), ..device },
                next,
                Err(ErrorModel::Backend("trial device interrupted"@)),
            ),
        }
    }
}

/// What comes of a trial whose flow has ended.
pub open spec fn judged(device: TrialDevice, progress: ProgressModel) -> Result<
    bool,
    AdapterErrorModel,
> {
    match progress.status {
        Status::Completed => match device.result {
            Some(successful) => Ok(successful),
            None => Err(
                AdapterErrorModel::Runtime("flow completed without a confirmed trial"@),
            ),
        },
        Status::Cancelled => Err(AdapterErrorModel::Cancelled),
        Status::Running => Err(AdapterErrorModel::Runtime("flow returned while running"@)),
        _ => match device.error {
            Some(error) => Err(AdapterErrorModel::Runtime(feedback(error))),
            None => Err(AdapterErrorModel::Runtime(progress.message)),
        },
    }
}

/// What a flow that cannot be run is to the host.
pub open spec fn flow_mapped(error: ErrorModel) -> AdapterErrorModel {
    match error {
        ErrorModel::Cancelled => AdapterErrorModel::Cancelled,
        ErrorModel::TimedOut => AdapterErrorModel::TimedOut,
        ErrorModel::Invalid(message) => AdapterErrorModel::Invalid(message),
        _ => AdapterErrorModel::Runtime(error.message()),
    }
}

/// What a flow that cannot be run is to the host.
pub fn flow_error(error: &Error) -> (r: AdapterError)
    ensures
        r@ == flow_mapped(error@),
{
    match error {
        Error::Cancelled => AdapterError::Cancelled,
        Error::TimedOut => AdapterError::TimedOut,
        Error::Invalid(message) => AdapterError::Invalid(message.dup()),
        _ => AdapterError::Runtime(error.message()),
    }
}

impl TrialDevice {
    /// A device that waits for a click.
    pub fn new() -> (r: Self)
        ensures
            r == (TrialDevice { result: None, error: None }),
    {
        TrialDevice { result: None, error: None }
    }

    /// Refuses an operation that its control forbids.
    pub fn check(&self, control: &ExecutionControl, now: Nanos) -> (r: Result<(), Error>)
        ensures
            match r {
                Ok(()) => control_error(control.cancellation@, control.deadline, now) is None,
                Err(error) => stopped(control_error(control.cancellation@, control.deadline, now))
                    == Some(error@),
            },
    {
        match control.check(now) {
            Ok(()) => Ok(()),
            Err(AdapterError::Cancelled) => Err(Error::Cancelled),
            Err(AdapterError::TimedOut) => Err(Error::TimedOut),
            Err(error) => Err(Error::Backend(error.message())),
        }
    }

    /// A look at the device.
    pub fn capture(&self, control: &ExecutionControl, now: Nanos) -> (r: Result<Frame, Error>)
        ensures
            match r {
                Ok(frame) => control_error(control.cancellation@, control.deadline, now) is None
                    && frame@ == shown(*self) && frame@.sound(),
                Err(error) => stopped(control_error(control.cancellation@, control.deadline, now))
                    == Some(error@),
            },
    {
        match self.check(control, now) {
            Ok(()) => {},
            Err(error) => {
                return Err(error);
            },
        }
        let green: u8 = if self.result.is_some() {
            0
        } else {
            255
        };
        let mut rgb: Vec<u8> = Vec::new();
        rgb.push(0);
        rgb.push(green);
        rgb.push(0);
        assert(rgb@ =~= shown(*self).rgb);
        Frame::new(1, 1, rgb)
    }

    /// An input to the device.
    pub fn input(
        &mut self,
        runtime: &mut DemoRuntime,
        input: &Input,
        control: &ExecutionControl,
        now: Nanos,
    ) -> (r: Result<(), Error>)
        requires
            old(runtime).wf(),
            old(self).result is None ==> old(runtime).trial_completed < u32::MAX,
        ensures
            final(runtime).wf(),
            final(self).result is None ==> final(runtime).trial_completed < u32::MAX,
            match stopped(control_error(control.cancellation@, control.deadline, now)) {
                Some(error) => *final(self) == *old(self) && *final(runtime) == *old(runtime)
                    && refuses(r, error),
                None => {
                    let (device, next, owed) = touched(*old(self), *old(runtime), input@);
                    *final(self) == device && *final(runtime) == next && match owed {
                        Ok(()) => r is Ok,
                        Err(error) => refuses(r, error),
                    }
                },
            },
    {
        match self.check(control, now) {
            Ok(()) => {},
            Err(error) => {
                return Err(error);
            },
        }
        let click = match input {
            Input::Click(_) => true,
            _ => false,
        };
        if !click || self.result.is_some() {
            return Err(Error::Invalid("trial expects exactly one click".to_owned()));
        }
        match runtime.perform_trial() {
            Ok(successful) => {
                self.result = Some(successful);
                Ok(())
            },
            Err(error) => {
                self.error = Some(error);
                Err(Error::Backend("trial device interrupted".to_owned()))
            },
        }
    }

    /// What comes of a trial whose flow has ended.
    pub fn conclude(&self, progress: &Progress) -> (r: Result<bool, AdapterError>)
        ensures
            match r {
                Ok(successful) => judged(*self, progress@) == Ok::<bool, AdapterErrorModel>(
                    successful,
                ),
                Err(error) => judged(*self, progress@) == Err::<bool, AdapterErrorModel>(error@),
            },
    {
        match progress.status {
            Status::Completed => match self.result {
                Some(successful) => Ok(successful),
                None => Err(
                    AdapterError::Runtime("flow completed without a confirmed trial".to_owned()),
                ),
            },
            Status::Cancelled => Err(AdapterError::Cancelled),
            Status::Running => Err(AdapterError::Runtime("flow returned while running".to_owned())),
            _ => match self.error {
                Some(error) => Err(runtime_error(error)),
                None => Err(AdapterError::Runtime(progress.message.dup())),
            },
        }
    }
}

/// Whether a result is that error.
pub open spec fn refuses(r: Result<(), Error>, error: ErrorModel) -> bool {
    match r {
        Ok(()) => false,
        Err(given) => given@ == error,
    }
}

/// The report of a trial.
pub open spec fn trial_report(successful: bool) -> ActionReportModel {
    ActionReportModel {
        outcome: crate::api::ActionOutcome::Completed { successful },
        message: if successful {
            "试验动作完成，获得结果。"@
        } else {
            "试验动作完成，本次未获得结果。"@
        },
    }
}

/// The report of a trial.
pub fn report_trial(successful: bool) -> (r: ActionReport)
    ensures
        r@ == trial_report(successful),
{
    ActionReport::completed(
        if successful {
            "试验动作完成，获得结果。".to_owned()
        } else {
            "试验动作完成，本次未获得结果。".to_owned()
        },
        successful,
    )
}

/// A flow with its control, the bridge to the control of the task, the device that the flow
/// works on, and the program behind that device.
#[verifier::ext_equal]
pub struct World {
    pub runner: RunnerModel,
    pub flow: Control,
    pub bridge: Bridge,
    pub device: TrialDevice,
    pub runtime: DemoRuntime,
}

/// What a recognition finds on a frame of one pixel, where all of a region is one pixel.
pub open spec fn found(recognition: RecognitionModel, frame: FrameModel) -> Result<
    RecognitionResultModel,
    ErrorModel,
> {
    let nothing = RecognizersModel { algorithms: Seq::empty(), custom: Seq::empty() };
    if !recognition.leaf() {
        Ok(RecognitionResultModel::none())
    } else {
        match look_of(recognition, frame, frame.whole(), nothing) {
            Err(error) => Err(error),
            Ok(Look::Hit(rect)) => Ok(RecognitionResultModel::region(rect, Real { bits: ONE })),
            Ok(Look::Color { rect, count }) => Ok(
                color_found(
                    rect,
                    if count == 0 {
                        Real { bits: 0 }
                    } else {
                        Real { bits: ONE }
                    },
                    match recognition {
                        RecognitionModel::ColorMatch { min_ratio, .. } => min_ratio,
                        _ => Real { bits: ONE },
                    },
                ),
            ),
            Ok(Look::Backend(_)) => Ok(RecognitionResultModel::none()),
        }
    }
}

fn find(recognition: &Recognition, frame: &Frame) -> (r: Result<RecognitionResult, Error>)
    requires
        frame@.sound(),
    ensures
        crate::runner::told(r) == found(recognition@, frame@),
{
    match recognition {
        Recognition::And { .. } | Recognition::Or { .. } => {
            return Ok(RecognitionResult::none());
        },
        _ => {},
    }
    let whole = Rect { x: 0, y: 0, width: frame.width(), height: frame.height() };
    let recognizers = Recognizers::new();
    match recognition.look(frame, whole, &recognizers) {
        Err(error) => Err(error),
        Ok(Look::Hit(rect)) => Ok(RecognitionResult::region(rect, Real { bits: ONE })),
        Ok(Look::Color { rect, count }) => {
            let ratio = if count == 0 {
                Real { bits: 0 }
            } else {
                Real { bits: ONE }
            };
            let min_ratio = match recognition {
                Recognition::ColorMatch { min_ratio, .. } => *min_ratio,
                _ => Real { bits: ONE },
            };
            Ok(color_result(rect, ratio, min_ratio))
        },
        Ok(Look::Backend(_)) => Ok(RecognitionResult::none()),
    }
}

impl World {
    /// A flow that begins on a device that waits, in a task that may be paused.
    pub open spec fn begun(runtime: DemoRuntime, pause: PauseState, now: Nanos) -> Self {
        World {
            runner: RunnerModel::fresh(trial_flow(), now),
            flow: Control {
                cancelled: false,
                pause: if pause == PauseState::Running {
                    PauseState::Running
                } else {
                    PauseState::Requested
                },
            },
            bridge: Bridge::Watching,
            device: TrialDevice { result: None, error: None },
            runtime,
        }
    }

    /// What holds of every world: its flow is that of a trial, and what stopped stays stopped.
    pub open spec fn wf(self) -> bool {
        &&& self.runner.wf()
        &&& self.runner.flow == trial_flow()
        &&& self.runtime.wf()
        &&& self.bridge == Bridge::Closed ==> self.flow.cancelled
        &&& self.device.result is None ==> self.runtime.trial_completed < u32::MAX
    }

    /// Neither cancelled nor paused.
    pub open spec fn calm(self) -> bool {
        &&& self.flow == (Control { cancelled: false, pause: PauseState::Running })
        &&& self.bridge == Bridge::Watching
    }

    /// What is done for an action of the flow.
    pub open spec fn acted(self, now: Nanos) -> Self {
        let action = self.runner.node().actions[self.runner.progress.action_index->0 as int];
        match action.command(self.runner.progress.recognition, Seq::empty()) {
            Err(error) => World { runner: self.runner.on_acted(Err(error), now), ..self },
            Ok(CommandModel::Input(input)) => {
                let (device, runtime, result) = touched(self.device, self.runtime, input);
                World {
                    device,
                    runtime,
                    runner: self.runner.on_acted(
                        (match result {
                            Ok(()) => Ok(ActionResultModel::Continue(JsonModel::Null)),
                            Err(error) => Err(error),
                        }),
                        now,
                    ),
                    ..self
                }
            },
            Ok(_) => World {
                runner: self.runner.on_acted(
                    Ok(ActionResultModel::Continue(JsonModel::Null)),
                    now,
                ),
                ..self
            },
        }
    }

    /// What cuts an operation of the flow short, if anything does.
    pub open spec fn interruption(self, now: Nanos) -> Option<Interruption> {
        if self.flow.cancelled {
            Some(Interruption::Cancelled)
        } else if self.flow.pause != PauseState::Running {
            Some(Interruption::Paused)
        } else if now >= self.runner.deadline {
            Some(Interruption::TimedOut)
        } else {
            None
        }
    }

    /// An operation of the flow is done. No frame is taken before the next poll.
    pub open spec fn operated(self, now: Nanos) -> Self {
        match self.runner.phase {
            Phase::Recognizing { candidate } => World {
                runner: self.runner.on_recognized(
                    shown(self.device),
                    found(
                        self.runner.flow.node(self.runner.candidates[candidate as int]).recognition,
                        shown(self.device),
                    ),
                    now,
                ),
                ..self
            },
            Phase::Acting => self.acted(now),
            _ => if now < self.runner.next_poll {
                self
            } else {
                World { runner: self.runner.on_captured(Ok(()), now), ..self }
            },
        }
    }

    /// The flow holds until it is cancelled or its pause is over.
    pub open spec fn held(self, now: Nanos) -> Self {
        World {
            flow: Control {
                pause: if self.flow.pause == PauseState::Requested {
                    PauseState::Acknowledged
                } else {
                    self.flow.pause
                },
                ..self.flow
            },
            runner: if self.flow.cancelled {
                self.runner.on_cancel()
            } else if self.flow.pause == PauseState::Running {
                self.runner.on_resumed(now)
            } else {
                self.runner
            },
            ..self
        }
    }

    /// What is done next for the flow.
    #[verifier::opaque]
    pub open spec fn advanced(self, now: Nanos) -> Self {
        match self.runner.phase {
            Phase::Ready => World { runner: self.runner.on_step(self.flow, now), ..self },
            Phase::Capturing | Phase::Recognizing { .. } | Phase::Acting => match self.interruption(
                now,
            ) {
                Some(interruption) => World {
                    runner: self.runner.on_interrupted(interruption),
                    ..self
                },
                None => self.operated(now),
            },
            Phase::ReportingFailed | Phase::ReportingPaused { .. } => World {
                runner: self.runner.on_reported(now),
                ..self
            },
            Phase::Paused { .. } => self.held(now),
            _ => World { runner: self.runner.on_released(Ok(()), now), ..self },
        }
    }

    /// The world after the controls of the task were handed on and the next thing was done, and
    /// the pause of the task as it is then.
    pub open spec fn served(self, stop: bool, pause: PauseState, now: Nanos) -> (Self, PauseState) {
        let (bridge, told, flow) = bridged(self.bridge, stop, pause, self.flow);
        (World { bridge, flow, ..self }.advanced(now), told)
    }

    /// The world after so many things were done at one instant, without anything that interrupts
    /// the task.
    pub open spec fn after(self, n: nat, now: Nanos) -> Self
        decreases n,
    {
        if n == 0 {
            self
        } else {
            self.after((n - 1) as nat, now).served(false, PauseState::Running, now).0
        }
    }

    /// What the trial is answered with, once its flow has ended.
    pub open spec fn answer(self, stop: Option<AdapterErrorModel>) -> Option<
        Result<ActionReportModel, AdapterErrorModel>,
    > {
        if self.runner.phase != Phase::Ready || self.runner.running() {
            None
        } else {
            Some(
                match (self.runner.fault, stop) {
                    (Some(error), _) => Err(mapped(error)),
                    (None, Some(error)) => Err(error),
                    (None, None) => match judged(self.device, self.runner.progress) {
                        Ok(successful) => Ok(trial_report(successful)),
                        Err(error) => Err(error),
                    },
                },
            )
        }
    }
}

/// What a task tells a trial at a moment: whether it is to stop, how its pause stands, and when.
pub struct Moment {
    pub stop: bool,
    pub pause: PauseState,
    pub now: Nanos,
}

impl World {
    /// The world after a number of moments.
    pub open spec fn lived(self, moments: Seq<Moment>) -> Self
        decreases moments.len(),
    {
        if moments.len() == 0 {
            self
        } else {
            let last = moments.last();
            self.lived(moments.drop_last()).served(last.stop, last.pause, last.now).0
        }
    }
}

proof fn lemma_trial_flow()
    ensures
        trial_flow().has("ready"@),
        trial_flow().has("confirmed"@),
        trial_flow().node("ready"@) == ready_node(),
        trial_flow().node("confirmed"@) == confirmed_node(),
        trial_flow().linked(),
{
    reveal_strlit("ready");
    reveal_strlit("confirmed");
    assert("ready"@.len() == 5 && "confirmed"@.len() == 9);
    reveal_with_fuel(node_index, 3);
    let nodes = trial_flow().nodes;
    assert(node_index(nodes, "confirmed"@, 0) == Some(0int));
    assert(node_index(nodes, "ready"@, 0) == Some(1int));
}

/// The flow of one trial is in order, as long as the clock reaches its timeouts.
pub proof fn the_trial_flow_is_flawless(now: Nanos)
    requires
        reachable(now, 1000),
    ensures
        trial_flow().flaw(now) is None,
{
    lemma_trial_flow();
    reveal_strlit("ready");
    reveal_strlit("confirmed");
    assert(!text::white("ready"@[0]));
    assert(!text::white("confirmed"@[0]));
    reveal_with_fuel(unknown_target, 3);
    reveal_with_fuel(actions_flaw, 2);
    reveal_with_fuel(FlowModel::nodes_flaw, 3);
    let flow = trial_flow();
    assert(flow.node_flaw(0, now) is None);
    assert(flow.node_flaw(1, now) is None);
}

/// The flow of one trial needs nothing but the device.
pub proof fn the_trial_flow_is_supported()
    ensures
        trial_flow().unsupported(
            RecognizersModel { algorithms: Seq::empty(), custom: Seq::empty() },
            Seq::empty(),
            0,
        ) is None,
{
    lemma_trial_flow();
    reveal_strlit("ready");
    reveal_strlit("confirmed");
    assert(!text::white("ready"@[0]));
    assert(!text::white("confirmed"@[0]));
    reveal_with_fuel(FlowModel::unsupported, 3);
    let nothing = RecognizersModel { algorithms: Seq::empty(), custom: Seq::empty() };
    assert(crate::flow::serves(confirmed_node(), nothing, Seq::empty()));
    assert(crate::flow::serves(ready_node(), nothing, Seq::empty()));
}

proof fn lemma_found(device: TrialDevice)
    ensures
        ({
            let frame = shown(device);
            let hit = RecognitionResultModel::region(frame.whole(), Real { bits: ONE });
            &&& frame.sound()
            &&& device.result is None ==> found(color(0, 255, 0), frame) == Ok::<
                RecognitionResultModel,
                ErrorModel,
            >(hit)
            &&& device.result is Some ==> found(color(0, 0, 0), frame) == Ok::<
                RecognitionResultModel,
                ErrorModel,
            >(hit)
            &&& matches_flaw(frame, hit.matches, 0) is None
            &&& hit.matched()
        }),
{
    let frame = shown(device);
    let rect = frame.whole();
    reveal_with_fuel(FrameModel::color_count, 2);
    reveal_with_fuel(FrameModel::row_count, 2);
    reveal_with_fuel(matches_flaw, 2);
    assert(frame.offset(0, 0) == 0);
    let g: u8 = if device.result is Some {
        0
    } else {
        255
    };
    assert(frame.rgb[0] == 0 && frame.rgb[1] == g && frame.rgb[2] == 0);
    assert(frame.in_range(0, 0, [0, g, 0], [0, g, 0]));
    assert(frame.color_count(rect, 1, [0, g, 0], [0, g, 0]) == 1);
}

/// A look is begun.
proof fn lemma_look_begins(w: World, now: Nanos)
    requires
        w.runner.phase == Phase::Ready,
        w.runner.progress.status == Status::Running,
        w.runner.progress.action_index is None,
        w.runner.progress.operations < w.runner.flow.max_operations,
        now < w.runner.deadline,
        w.calm(),
    ensures
        w.advanced(now) == (World {
            runner: RunnerModel {
                phase: Phase::Capturing,
                progress: ProgressModel {
                    operations: (w.runner.progress.operations + 1) as u64,
                    ..w.runner.progress
                },
                ..w.runner
            },
            ..w
        }),
{
    reveal(World::advanced);
}

/// The one candidate is looked for.
proof fn lemma_look_goes_on(w: World, now: Nanos)
    requires
        w.runner.phase == Phase::Capturing,
        w.runner.candidates.len() == 1,
        w.runner.next_poll <= now < w.runner.deadline,
        w.calm(),
    ensures
        w.advanced(now) == (World {
            runner: RunnerModel { phase: Phase::Recognizing { candidate: 0 }, ..w.runner },
            ..w
        }),
{
    reveal(World::advanced);
}

/// The one candidate is found.
proof fn lemma_look_ends(w: World, name: Text, hit: RecognitionResultModel, now: Nanos)
    requires
        w.runner.phase == (Phase::Recognizing { candidate: 0 }),
        w.runner.candidates == seq![name],
        found(w.runner.flow.node(name).recognition, shown(w.device)) == Ok::<
            RecognitionResultModel,
            ErrorModel,
        >(hit),
        matches_flaw(shown(w.device), hit.matches, 0) is None,
        hit.matched(),
        now < w.runner.deadline,
        w.calm(),
    ensures
        w.advanced(now) == (World {
            runner: RunnerModel {
                phase: Phase::Ready,
                deadline: crate::flow::later(now, w.runner.flow.node(name).timeout_ms),
                progress: ProgressModel {
                    node: name,
                    recognition: hit,
                    action_result: JsonModel::Null,
                    action_index: Some(0),
                    message: "node matched"@,
                    ..w.runner.progress
                },
                ..w.runner
            },
            ..w
        }),
{
    reveal(World::advanced);
    assert(w.runner.candidates[0] == name);
}

/// The click is begun.
proof fn lemma_click_begins(w: World, now: Nanos)
    requires
        w.runner.phase == Phase::Ready,
        w.runner.progress.status == Status::Running,
        w.runner.progress.action_index == Some(0usize),
        w.runner.node() == ready_node(),
        w.runner.progress.operations < w.runner.flow.max_operations,
        now < w.runner.deadline,
        w.calm(),
    ensures
        w.advanced(now) == (World {
            runner: RunnerModel {
                phase: Phase::Acting,
                progress: ProgressModel {
                    operations: (w.runner.progress.operations + 1) as u64,
                    ..w.runner.progress
                },
                ..w.runner
            },
            ..w
        }),
{
    reveal(World::advanced);
}

/// The click is made.
proof fn lemma_click_ends(w: World, now: Nanos)
    requires
        w.runner.phase == Phase::Acting,
        w.runner.progress.status == Status::Running,
        w.runner.progress.action_index == Some(0usize),
        w.runner.node() == ready_node(),
        w.runner.progress.recognition == RecognitionResultModel::region(
            shown(w.device).whole(),
            Real { bits: ONE },
        ),
        w.device == (TrialDevice { result: None, error: None }),
        now < w.runner.deadline,
        w.calm(),
    ensures
        w.advanced(now).calm(),
        w.advanced(now).runtime == w.runtime.tried().0,
        w.advanced(now).runner.fault == w.runner.fault,
        w.advanced(now).runner.flow == w.runner.flow,
        match w.runtime.tried().1 {
            Ok(successful) => {
                let next = w.advanced(now);
                &&& next.device.result == Some(successful)
                &&& next.runner.phase == Phase::Ready
                &&& next.runner.candidates == seq!["confirmed"@]
                &&& next.runner.deadline == crate::flow::later(now, 1000)
                &&& next.runner.next_poll == now
                &&& next.runner.progress.status == Status::Running
                &&& next.runner.progress.action_index is None
                &&& next.runner.progress.operations == w.runner.progress.operations
            },
            Err(error) => {
                let next = w.advanced(now);
                &&& next.device.error == Some(error)
                &&& next.runner.phase == Phase::ReportingFailed
                &&& next.runner.progress.status == Status::Running
                &&& next.runner.progress.node == w.runner.progress.node
                &&& next.runner.error == Some(ErrorModel::Backend("trial device interrupted"@))
            },
        },
{
    reveal(World::advanced);
    let action = w.runner.node().actions[0];
    assert(action == ActionModel::Click { target: Target::Match { index: 0 } });
    let command = action.command(w.runner.progress.recognition, Seq::empty());
    assert(command is Ok && command->Ok_0 is Input && command->Ok_0->Input_0 is Click);
}

/// Without an error route the flow fails.
proof fn lemma_failure(w: World, now: Nanos)
    requires
        w.runner.phase == Phase::ReportingFailed,
        w.runner.error == Some(ErrorModel::Backend("trial device interrupted"@)),
        w.runner.node() == ready_node(),
        w.runner.fault is None,
        w.calm(),
    ensures
        w.advanced(now).calm(),
        ({
            let end = w.advanced(now).advanced(now);
            &&& end.calm()
            &&& end.runtime == w.runtime
            &&& end.device == w.device
            &&& end.runner.phase == Phase::Ready
            &&& end.runner.fault is None
            &&& end.runner.progress.status == Status::Failed
        }),
{
    reveal(World::advanced);
}

/// The confirmed trial ends the flow.
proof fn lemma_completion(w: World, now: Nanos)
    requires
        w.runner.phase == Phase::Ready,
        w.runner.progress.status == Status::Running,
        w.runner.progress.action_index == Some(0usize),
        w.runner.node() == confirmed_node(),
        w.runner.progress.operations < w.runner.flow.max_operations,
        now < w.runner.deadline,
        w.runner.fault is None,
        w.calm(),
    ensures
        w.advanced(now).calm(),
        ({
            let end = w.advanced(now).advanced(now);
            &&& end.calm()
            &&& end.runtime == w.runtime
            &&& end.device == w.device
            &&& end.runner.phase == Phase::Ready
            &&& end.runner.fault is None
            &&& end.runner.progress.status == Status::Completed
        }),
{
    reveal(World::advanced);
}

/// A flow that has ended stays as it is.
proof fn lemma_end(w: World, now: Nanos)
    requires
        w.runner.phase == Phase::Ready,
        w.runner.progress.status != Status::Running,
    ensures
        w.advanced(now) == w,
{
    reveal(World::advanced);
}

/// A task that runs changes nothing of a flow that runs.
proof fn lemma_calm(w: World, now: Nanos)
    requires
        w.calm(),
    ensures
        w.served(false, PauseState::Running, now) == (w.advanced(now), PauseState::Running),
{
    assert(World { bridge: w.bridge, flow: w.flow, ..w } == w);
}

impl World {
    /// What a trial that has ended has made of the program that it began with: exactly one
    /// trial, completed with the program's result or failed with its error.
    pub open spec fn followed(self, runtime: DemoRuntime) -> bool {
        &&& self.runtime == runtime.tried().0
        &&& self.runner.phase == Phase::Ready
        &&& self.runner.fault is None
        &&& match runtime.tried().1 {
            Ok(successful) => self.device.result == Some(successful)
                && self.runner.progress.status == Status::Completed,
            Err(error) => self.device.error == Some(error) && self.runner.progress.status
                == Status::Failed,
        }
    }
}

proof fn lemma_waiting_trials(start: World, now: Nanos)
    requires
        start.runner == (RunnerModel {
            deadline: start.runner.deadline,
            next_poll: start.runner.next_poll,
            ..RunnerModel::fresh(trial_flow(), now)
        }),
        start.runner.next_poll <= now < start.runner.deadline,
        start.calm(),
        start.device == (TrialDevice { result: None, error: None }),
        reachable(now, 1000),
    ensures
        start.after(10, now).followed(start.runtime),
{
    lemma_trial_flow();
    let runtime = start.runtime;
    let hit = RecognitionResultModel::region(shown(start.device).whole(), Real { bits: ONE });
    lemma_found(start.device);
    reveal_with_fuel(World::after, 11);
    let w1 = start.advanced(now);
    lemma_look_begins(start, now);
    let w2 = w1.advanced(now);
    lemma_look_goes_on(w1, now);
    let w3 = w2.advanced(now);
    lemma_look_ends(w2, "ready"@, hit, now);
    let w4 = w3.advanced(now);
    lemma_click_begins(w3, now);
    let w5 = w4.advanced(now);
    lemma_click_ends(w4, now);
    let w6 = w5.advanced(now);
    let w7 = w6.advanced(now);
    let w8 = w7.advanced(now);
    let w9 = w8.advanced(now);
    let w10 = w9.advanced(now);
    if runtime.tried().1 is Ok {
        lemma_found(w5.device);
        lemma_look_begins(w5, now);
        lemma_look_goes_on(w6, now);
        lemma_look_ends(w7, "confirmed"@, hit, now);
        lemma_completion(w8, now);
    } else {
        lemma_failure(w5, now);
        lemma_end(w7, now);
        lemma_end(w8, now);
        lemma_end(w9, now);
    }
    lemma_calm(start, now);
    lemma_calm(w1, now);
    lemma_calm(w2, now);
    lemma_calm(w3, now);
    lemma_calm(w4, now);
    lemma_calm(w5, now);
    lemma_calm(w6, now);
    lemma_calm(w7, now);
    lemma_calm(w8, now);
    lemma_calm(w9, now);
    assert(start.after(10, now) == w10);
}

/// Without anything that interrupts it, the flow of a trial makes exactly one trial, and ends as
/// the program says: completed with the program's result, or failed with its error.
pub proof fn trials_follow_the_program(runtime: DemoRuntime, now: Nanos)
    requires
        reachable(now, 1000),
    ensures
        World::begun(runtime, PauseState::Running, now).after(10, now).followed(runtime),
{
    lemma_trial_flow();
    lemma_waiting_trials(World::begun(runtime, PauseState::Running, now), now);
}

/// A trial that begins in a paused task holds, and the task learns of it. However late it is
/// resumed, it is then made as if it had begun at that time.
pub proof fn resumed_trials_follow_the_program(runtime: DemoRuntime, start: Nanos, now: Nanos)
    requires
        start <= now,
        reachable(now, 1000),
    ensures
        ({
            let asked = PauseState::Requested;
            let begun = World::begun(runtime, asked, start);
            let held = begun.served(false, asked, start).0.served(false, asked, start).0.served(
                false,
                asked,
                start,
            ).0.served(false, asked, start);
            let resumed = held.0.served(false, PauseState::Running, now).0;
            &&& held.1 == PauseState::Acknowledged
            &&& held.0.runtime == runtime
            &&& resumed.after(10, now).followed(runtime)
        }),
{
    lemma_trial_flow();
    let asked = PauseState::Requested;
    let begun = World::begun(runtime, asked, start);
    let w1 = begun.served(false, asked, start).0;
    let w2 = w1.served(false, asked, start).0;
    let w3 = w2.served(false, asked, start).0;
    let w4 = w3.served(false, asked, start).0;
    let w5 = w4.served(false, PauseState::Running, now).0;
    let fresh = RunnerModel::fresh(trial_flow(), start);
    reveal(World::advanced);
    assert(w1.runner == (RunnerModel {
        phase: Phase::ReleasingPaused { interrupted: false },
        ..fresh
    }));
    let parked = RunnerModel { phase: Phase::Paused { since: start }, ..fresh };
    assert(w2.runner == parked);
    assert(w3.runner == parked && w3.flow.pause == PauseState::Acknowledged);
    assert(w4.runner == parked && w4.bridge == Bridge::Held);
    assert(w5.runner == (RunnerModel {
        deadline: w5.runner.deadline,
        next_poll: w5.runner.next_poll,
        ..fresh
    }));
    assert(w5.calm());
    lemma_waiting_trials(w5, now);
}

/// What comes of a trial that nothing interrupts.
pub open spec fn trial_outcome(runtime: DemoRuntime) -> Result<
    ActionReportModel,
    AdapterErrorModel,
> {
    match runtime.tried().1 {
        Ok(successful) => Ok(trial_report(successful)),
        Err(error) => Err(AdapterErrorModel::Runtime(feedback(error))),
    }
}

/// A trial that nothing interrupts is answered after at most ten things were done.
pub proof fn uninterrupted_trials_are_answered(runtime: DemoRuntime, now: Nanos)
    requires
        reachable(now, 1000),
    ensures
        ({
            let world = World::begun(runtime, PauseState::Running, now).after(10, now);
            &&& world.runtime == runtime.tried().0
            &&& world.answer(None) == Some(trial_outcome(runtime))
        }),
{
    trials_follow_the_program(runtime, now);
}

/// Whatever the task tells it, a trial keeps what every trial keeps.
pub proof fn worlds_stay_sound(w: World, stop: bool, pause: PauseState, now: Nanos)
    requires
        w.wf(),
    ensures
        w.served(stop, pause, now).0.wf(),
{
    reveal(World::advanced);
    let (bridge, _, flow) = bridged(w.bridge, stop, pause, w.flow);
    let told = World { bridge, flow, ..w };
    let runner = w.runner;
    steps_keep_runners_sound(runner, flow, now);
    reports_keep_runners_sound(runner, now);
    releases_keep_runners_sound(runner, Ok(()), now);
    if let Some(interruption) = told.interruption(now) {
        interruptions_keep_runners_sound(runner, interruption);
    }
    if let Phase::Recognizing { candidate } = runner.phase {
        recognitions_keep_runners_sound(
            runner,
            shown(w.device),
            found(
                runner.flow.node(runner.candidates[candidate as int]).recognition,
                shown(w.device),
            ),
            now,
        );
    }
    if runner.phase is Acting {
        let action = runner.node().actions[runner.progress.action_index->0 as int];
        let reply: Result<ActionResultModel, ErrorModel> = match action.command(
            runner.progress.recognition,
            Seq::empty(),
        ) {
            Err(error) => Err(error),
            Ok(CommandModel::Input(input)) => match touched(w.device, w.runtime, input).2 {
                Ok(()) => Ok(ActionResultModel::Continue(JsonModel::Null)),
                Err(error) => Err(error),
            },
            Ok(_) => Ok(ActionResultModel::Continue(JsonModel::Null)),
        };
        actions_keep_runners_sound(runner, reply, now);
    }
}

impl World {
    /// What a trial has done of the program that it began with: nothing yet, the one trial, or
    /// an attempt that the program refused, after which the flow does nothing but fail.
    pub open spec fn accounted(self, runtime: DemoRuntime) -> bool {
        match (self.device.result, self.device.error) {
            (None, None) => self.runtime == runtime,
            (Some(successful), None) => runtime.tried() == (
                self.runtime,
                Ok::<bool, RuntimeError>(successful),
            ),
            (None, Some(error)) => {
                &&& runtime.tried() == (self.runtime, Err::<bool, RuntimeError>(error))
                &&& match self.runner.phase {
                    Phase::Ready => !self.runner.running(),
                    Phase::ReportingFailed | Phase::ReleasingFailed => self.runner.error
                        matches Some(ErrorModel::Backend(_)),
                    _ => false,
                }
            },
            _ => false,
        }
    }
}

/// No node of a trial goes on after an error.
proof fn lemma_errors_end_trials(runner: RunnerModel)
    requires
        runner.wf(),
        runner.flow == trial_flow(),
    ensures
        runner.node().on_error.len() == 0,
{
    reveal_with_fuel(node_index, 3);
    assert(runner.flow.has(runner.progress.node));
}

proof fn lemma_accounted(w: World, runtime: DemoRuntime, stop: bool, pause: PauseState, now: Nanos)
    requires
        w.wf(),
        w.accounted(runtime),
    ensures
        w.served(stop, pause, now).0.wf(),
        w.served(stop, pause, now).0.accounted(runtime),
{
    worlds_stay_sound(w, stop, pause, now);
    lemma_errors_end_trials(w.runner);
    reveal(World::advanced);
}

proof fn lemma_lived(w: World, runtime: DemoRuntime, moments: Seq<Moment>)
    requires
        w.wf(),
        w.accounted(runtime),
    ensures
        w.lived(moments).wf(),
        w.lived(moments).accounted(runtime),
    decreases moments.len(),
{
    if moments.len() > 0 {
        let last = moments.last();
        lemma_lived(w, runtime, moments.drop_last());
        lemma_accounted(
            w.lived(moments.drop_last()),
            runtime,
            last.stop,
            last.pause,
            last.now,
        );
    }
}

/// Whatever a task tells a trial, and whenever, the trial is made at most once, a trial that was
/// made is never taken back, and only a trial that was made is reported, with its own result.
pub proof fn trials_are_made_at_most_once(
    runtime: DemoRuntime,
    pause: PauseState,
    start: Nanos,
    moments: Seq<Moment>,
    stop: Option<AdapterErrorModel>,
)
    requires
        runtime.wf(),
        runtime.trial_completed < u32::MAX,
    ensures
        ({
            let world = World::begun(runtime, pause, start).lived(moments);
            &&& world.wf()
            &&& world.runtime == runtime || world.runtime == runtime.tried().0
            &&& world.device.result is None && world.device.error is None ==> world.runtime
                == runtime
            &&& world.answer(stop) matches Some(Ok(report)) ==> {
                &&& world.runtime == runtime.tried().0
                &&& runtime.tried().1 matches Ok(successful)
                &&& report == trial_report(runtime.tried().1->Ok_0)
            }
        }),
{
    let begun = World::begun(runtime, pause, start);
    lemma_trial_flow();
    crate::runner::fresh_runners_are_sound(trial_flow(), start);
    lemma_lived(begun, runtime, moments);
}

/// Whether a task stops a trial, or wants it to hold, at every moment.
pub open spec fn withheld(moments: Seq<Moment>) -> bool {
    forall|i: int|
        0 <= i < moments.len() ==> (#[trigger] moments[i]).stop || moments[i].pause
            != PauseState::Running
}

impl World {
    /// A trial that has not begun to look at its device, and does not go on.
    pub open spec fn parked(self) -> bool {
        &&& self.device == (TrialDevice { result: None, error: None })
        &&& self.runner.progress.action_index is None
        &&& self.flow.cancelled || self.flow.pause != PauseState::Running
        &&& match self.runner.phase {
            Phase::Ready | Phase::ReleasingCancelled => true,
            Phase::ReleasingPaused { .. } | Phase::Paused { .. } => true,
            _ => false,
        }
    }
}

/// A trial that begins in a paused task waits: as long as the pause lasts, and if the task is
/// stopped then, no trial is made and nothing is reported.
pub proof fn paused_trials_are_not_made(
    runtime: DemoRuntime,
    pause: PauseState,
    start: Nanos,
    moments: Seq<Moment>,
    stop: Option<AdapterErrorModel>,
)
    requires
        pause != PauseState::Running,
        withheld(moments),
    ensures
        ({
            let world = World::begun(runtime, pause, start).lived(moments);
            &&& world.runtime == runtime
            &&& world.parked()
            &&& !(world.answer(stop) matches Some(Ok(_)))
        }),
    decreases moments.len(),
{
    let begun = World::begun(runtime, pause, start);
    if moments.len() > 0 {
        let last = moments.last();
        assert(withheld(moments.drop_last())) by {
            assert forall|i: int| 0 <= i < moments.drop_last().len() implies (
            #[trigger] moments.drop_last()[i]).stop || moments.drop_last()[i].pause
                != PauseState::Running by {
                assert(moments[i] == moments.drop_last()[i]);
            }
        }
        paused_trials_are_not_made(runtime, pause, start, moments.drop_last(), stop);
        assert(last == moments[moments.len() - 1]);
        reveal(World::advanced);
    }
}

/// A flow that holds tells its task so, and goes on holding until the pause is over: the task
/// learns of it after two moments, and nothing else happens.
pub proof fn held_trials_are_acknowledged(w: World, first: Nanos, second: Nanos)
    requires
        w.runner.phase is Paused,
        w.bridge == Bridge::Holding,
        w.flow == (Control { cancelled: false, pause: PauseState::Requested }),
    ensures
        ({
            let (held, _) = w.served(false, PauseState::Requested, first);
            let (told, pause) = held.served(false, PauseState::Requested, second);
            &&& pause == PauseState::Acknowledged
            &&& told.bridge == Bridge::Held
            &&& told.runner == w.runner
            &&& told.device == w.device
            &&& told.runtime == w.runtime
        }),
{
    reveal(World::advanced);
}

/// A trial under way: its flow, the device that the flow works on, and the control that reaches
/// the flow from the task.
#[derive(Debug)]
pub struct Trial {
    pub runner: Runner,
    pub flow: Control,
    pub bridge: Bridge,
    pub device: TrialDevice,
}

/// The world that a trial and a program make.
pub open spec fn world(trial: Trial, runtime: DemoRuntime) -> World {
    World {
        runner: trial.runner@,
        flow: trial.flow,
        bridge: trial.bridge,
        device: trial.device,
        runtime,
    }
}

impl Trial {
    /// What cuts an operation of the flow short, if anything does.
    fn find_interruption(&self, now: Nanos) -> (r: Option<Interruption>)
        ensures
            forall|runtime: DemoRuntime| r == #[trigger] world(*self, runtime).interruption(now),
    {
        if self.flow.cancelled {
            Some(Interruption::Cancelled)
        } else if self.flow.is_pause_requested() {
            Some(Interruption::Paused)
        } else if now >= self.runner.deadline() {
            Some(Interruption::TimedOut)
        } else {
            None
        }
    }

    fn operate(&mut self, runtime: &mut DemoRuntime, control: &ExecutionControl, now: Nanos)
        requires
            world(*old(self), *old(runtime)).wf(),
            control_error(control.cancellation@, control.deadline, now) is None,
            old(self).runner@.phase is Capturing || old(self).runner@.phase is Recognizing || old(
                self,
            ).runner@.phase is Acting,
        ensures
            final(self).runner@.wf(),
            final(runtime).wf(),
            world(*final(self), *final(runtime)) == world(*old(self), *old(runtime)).operated(now),
    {
        match self.runner.phase() {
            Phase::Recognizing { .. } => {
                if let Ok(frame) = self.device.capture(control, now) {
                    let reply = find(self.runner.recognition(), &frame);
                    self.runner.recognized(&frame, reply, now);
                }
            },
            Phase::Acting => {
                let actions = Actions::new();
                let command = self.runner.command(&actions);
                let reply = match command {
                    Err(error) => Err(error),
                    Ok(Command::Input(input)) => match self.device.input(
                        runtime,
                        &input,
                        control,
                        now,
                    ) {
                        Ok(()) => Ok(ActionResult::Continue(Json::Null)),
                        Err(error) => Err(error),
                    },
                    Ok(_) => Ok(ActionResult::Continue(Json::Null)),
                };
                self.runner.acted(reply, now);
            },
            _ => {
                if now >= self.runner.next_poll() {
                    self.runner.captured(Ok(()), now);
                }
            },
        }
    }

    fn hold(&mut self, now: Nanos)
        requires
            old(self).runner@.wf(),
        ensures
            final(self).runner@.wf(),
            forall|runtime: DemoRuntime|
                #[trigger] world(*final(self), runtime) == world(*old(self), runtime).held(now),
    {
        self.flow.acknowledge_pause();
        if self.flow.cancelled {
            self.runner.cancel();
        } else if !self.flow.is_pause_requested() {
            self.runner.resumed(now);
        }
    }

    /// Does what the flow waits for.
    fn advance(&mut self, runtime: &mut DemoRuntime, control: &ExecutionControl, now: Nanos)
        requires
            world(*old(self), *old(runtime)).wf(),
            !old(self).flow.cancelled ==> control_error(
                control.cancellation@,
                control.deadline,
                now,
            ) is None,
        ensures
            final(self).runner@.wf(),
            final(runtime).wf(),
            world(*final(self), *final(runtime)) == world(*old(self), *old(runtime)).advanced(now),
    {
        proof {
            reveal(World::advanced);
        }
        match self.runner.phase() {
            Phase::Ready => {
                self.runner.step(&self.flow, now);
            },
            Phase::Capturing | Phase::Recognizing { .. } | Phase::Acting => {
                assert(world(*self, *runtime).interruption(now) == world(
                    *old(self),
                    *old(runtime),
                ).interruption(now));
                match self.find_interruption(now) {
                    Some(interruption) => {
                        self.runner.interrupted(interruption);
                    },
                    None => {
                        self.operate(runtime, control, now);
                    },
                }
            },
            Phase::ReportingFailed | Phase::ReportingPaused { .. } => {
                self.runner.reported(now);
            },
            Phase::Paused { .. } => {
                self.hold(now);
                assert(world(*self, *runtime) == world(*old(self), *old(runtime)).held(now));
            },
            _ => {
                self.runner.released(Ok(()), now);
            },
        }
    }
}

/// Whether an answer is the one that is owed.
pub open spec fn reports(
    r: Result<ActionReport, AdapterError>,
    owed: Result<ActionReportModel, AdapterErrorModel>,
) -> bool {
    match (r, owed) {
        (Ok(report), Ok(model)) => report@ == model,
        (Err(error), Err(model)) => error@ == model,
        _ => false,
    }
}

/// Why a trial cannot begin, if it cannot: it is stopped, the device is not ready, or the clock
/// does not reach its timeouts.
pub open spec fn trial_refusal(
    runtime: DemoRuntime,
    stop: Option<AdapterErrorModel>,
    now: Nanos,
) -> Option<AdapterErrorModel> {
    if stop is Some {
        stop
    } else if trial_gate(runtime) is Err {
        Some(trial_gate(runtime)->Err_0)
    } else {
        match trial_flow().flaw(now) {
            Some(flaw) => Some(flow_mapped(flaw)),
            None => None,
        }
    }
}

impl DemoAdapter {
    /// Begins a trial, in a task whose pause stands as given.
    pub fn begin_trial(&self, control: &ExecutionControl, pause: PauseState, now: Nanos) -> (r:
        Result<Trial, AdapterError>)
        requires
            self@.wf(),
            self@.trial_completed < u32::MAX,
        ensures
            match r {
                Ok(trial) => trial_refusal(
                    self@,
                    control_error(control.cancellation@, control.deadline, now),
                    now,
                ) is None && world(trial, self@) == World::begun(self@, pause, now) && world(
                    trial,
                    self@,
                ).wf(),
                Err(error) => trial_refusal(
                    self@,
                    control_error(control.cancellation@, control.deadline, now),
                    now,
                ) == Some(error@),
            },
    {
        match control.check(now) {
            Ok(()) => {},
            Err(error) => {
                return Err(error);
            },
        }
        let (_, _, ready, needs_reset): (u32, u32, bool, bool) = self.runtime.trial_snapshot();
        if !ready {
            return Err(
                runtime_error(
                    if needs_reset {
                        RuntimeError::TrialNeedsReset
                    } else {
                        RuntimeError::TrialUnavailable
                    },
                ),
            );
        }
        proof {
            the_trial_flow_is_supported();
        }
        let runner = match Runner::new(definition(), &Recognizers::new(), &Actions::new(), now) {
            Ok(runner) => runner,
            Err(error) => {
                return Err(flow_error(&error));
            },
        };
        let mut flow = Control::new();
        if pause.is_requested() {
            flow.pause();
        }
        Ok(Trial { runner, flow, bridge: Bridge::Watching, device: TrialDevice::new() })
    }

    /// Hands the controls of the task on to the flow of a trial and does the next thing for it.
    /// Once the flow has ended it changes nothing more and gives what came of the trial.
    pub fn step_trial(
        &mut self,
        trial: &mut Trial,
        control: &ExecutionControl,
        pause: &mut PauseState,
        now: Nanos,
    ) -> (r: Option<Result<ActionReport, AdapterError>>)
        requires
            world(*old(trial), old(self)@).wf(),
        ensures
            world(*final(trial), final(self)@).wf(),
            ({
                let stop = control_error(control.cancellation@, control.deadline, now);
                let before = world(*old(trial), old(self)@);
                match before.answer(stop) {
                    Some(owed) => world(*final(trial), final(self)@) == before && *final(pause)
                        == *old(pause) && r is Some && reports(r->0, owed),
                    None => r is None && (world(*final(trial), final(self)@), *final(pause))
                        == before.served(stop is Some, *old(pause), now),
                }
            }),
    {
        let ghost before = world(*trial, self@);
        let ghost stop = control_error(control.cancellation@, control.deadline, now);
        if trial.runner.phase() == Phase::Ready && trial.runner.progress().status
            != Status::Running {
            return Some(
                match finish(&trial.runner, control, now) {
                    Err(error) => Err(error),
                    Ok(progress) => match trial.device.conclude(&progress) {
                        Ok(successful) => Ok(report_trial(successful)),
                        Err(error) => Err(error),
                    },
                },
            );
        }
        let stopped: bool = control.check(now).is_err();
        trial.bridge.relay(stopped, pause, &mut trial.flow);
        proof {
            worlds_stay_sound(before, stop is Some, *old(pause), now);
        }
        trial.advance(&mut self.runtime, control, now);
        None
    }
}

/// One click is one trial, and the device shows that it took it: every other input, and a second
/// click, is refused and changes nothing.
pub proof fn one_click_is_one_trial(device: TrialDevice, runtime: DemoRuntime, input: InputModel)
    ensures
        ({
            let (next, after, answer) = touched(device, runtime, input);
            let tried = runtime.tried();
            &&& !(input is Click) || device.result is Some ==> next == device && after == runtime
                && answer is Err
            &&& input is Click && device.result is None ==> {
                &&& after == tried.0
                &&& answer is Ok <==> tried.1 is Ok
                &&& tried.1 matches Ok(successful) ==> next.result == Some(successful)
                    && next.error == device.error && shown(next) != shown(device)
                &&& tried.1 matches Err(error) ==> next.result is None && next.error == Some(error)
                    && shown(next) == shown(device)
            }
        }),
{
    let (next, after, answer) = touched(device, runtime, input);
    if input is Click && device.result is None && runtime.tried().1 is Ok {
        assert(shown(next).rgb[1] == 0u8);
        assert(shown(device).rgb[1] == 255u8);
    }
}

/// A trial has a result exactly if its flow was completed and the device took a click; a cancelled
/// flow is a cancelled trial, and a failure is told as the device knows it.
pub proof fn completed_flows_give_results(device: TrialDevice, progress: ProgressModel)
    ensures
        judged(device, progress) is Ok <==> progress.status == Status::Completed && device.result
            is Some,
        judged(device, progress) matches Ok(successful) ==> device.result == Some(successful),
        judged(device, progress) == Err::<bool, _>(AdapterErrorModel::Cancelled)
            <==> progress.status == Status::Cancelled,
        progress.status == Status::Failed || progress.status == Status::Blocked ==> judged(
            device,
            progress,
        ) == Err::<bool, _>(
            AdapterErrorModel::Runtime(
                if device.error is Some {
                    feedback(device.error->0)
                } else {
                    progress.message
                },
            ),
        ),
{
}

/// What stops the device keeps its kind on the way into a flow and out of it again.
pub proof fn stops_keep_their_kind(error: AdapterErrorModel, fault: ErrorModel)
    ensures
        stopped(None) is None,
        stopped(Some(error)) is Some,
        stopped(Some(error)) == Some(ErrorModel::Cancelled) <==> error is Cancelled,
        stopped(Some(error)) == Some(ErrorModel::TimedOut) <==> error is TimedOut,
        flow_mapped(fault) is Cancelled <==> fault is Cancelled,
        flow_mapped(fault) is TimedOut <==> fault is TimedOut,
        flow_mapped(fault) is Invalid <==> fault is Invalid,
        fault matches ErrorModel::Invalid(message) ==> flow_mapped(fault)
            == AdapterErrorModel::Invalid(message),
        error is Cancelled || error is TimedOut ==> flow_mapped(stopped(Some(error))->0) == error,
{
}

/// A trial that was made is completed, whether or not it gave a result, and the two are told apart.
pub proof fn trials_are_completed(successful: bool, other: bool)
    ensures
        trial_report(successful).outcome == (crate::api::ActionOutcome::Completed { successful }),
        trial_report(successful).message == trial_report(other).message ==> successful == other,
{
    reveal_strlit("试验动作完成，获得结果。");
    reveal_strlit("试验动作完成，本次未获得结果。");
    assert("试验动作完成，获得结果。"@.len() == 12);
    assert("试验动作完成，本次未获得结果。"@.len() == 15);
}

} // verus!
