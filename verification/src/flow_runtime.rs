//! Runs one flow for a skill under the controls of the host's task.
use crate::api::{control_error, AdapterError, AdapterErrorModel, ExecutionControl, PauseState};
use crate::automation::{Control, Error, ErrorModel};
use crate::clock::Nanos;
use crate::copy::Dup;
use crate::runner::{Progress, ProgressModel, Runner, RunnerModel};
use vstd::prelude::*;

verus! {

/// What an error of a flow is to an adapter.
pub open spec fn mapped(error: ErrorModel) -> AdapterErrorModel {
    match error {
        ErrorModel::Cancelled => AdapterErrorModel::Cancelled,
        ErrorModel::TimedOut => AdapterErrorModel::TimedOut,
        ErrorModel::Invalid(message) => AdapterErrorModel::Invalid(message),
        ErrorModel::Cleanup(message) => AdapterErrorModel::CleanupFailed(message),
        _ => AdapterErrorModel::Runtime(error.message()),
    }
}

/// What an error of a flow is to an adapter.
pub fn map_error(error: &Error) -> (r: AdapterError)
    ensures
        r@ == mapped(error@),
{
    match error {
        Error::Cancelled => AdapterError::Cancelled,
        Error::TimedOut => AdapterError::TimedOut,
        Error::Invalid(message) => AdapterError::Invalid(message.dup()),
        Error::Cleanup(message) => AdapterError::CleanupFailed(message.dup()),
        _ => AdapterError::Runtime(error.message()),
    }
}

/// How far a bridge is in handing a pause of the task on to the flow.
#[derive(Debug, Clone, Copy, PartialEq, Eq, Structural)]
pub enum Bridge {
    /// The task runs.
    Watching,
    /// The flow was asked to pause.
    Holding,
    /// The flow has paused, and the task knows it.
    Held,
    /// The flow was cancelled.
    Closed,
}

/// What a bridge makes of the controls of the task and of the flow.
pub open spec fn bridged(bridge: Bridge, stop: bool, pause: PauseState, flow: Control) -> (
    Bridge,
    PauseState,
    Control,
) {
    match bridge {
        Bridge::Closed => (bridge, pause, flow),
        _ if stop => (Bridge::Closed, pause, Control { cancelled: true, ..flow }),
        Bridge::Watching => if pause == PauseState::Running {
            (bridge, pause, flow)
        } else {
            (
                Bridge::Holding,
                pause,
                Control {
                    pause: if flow.pause == PauseState::Running {
                        PauseState::Requested
                    } else {
                        flow.pause
                    },
                    ..flow
                },
            )
        },
        Bridge::Holding => if flow.pause != PauseState::Acknowledged {
            (bridge, pause, flow)
        } else {
            (
                Bridge::Held,
                if pause == PauseState::Requested {
                    PauseState::Acknowledged
                } else {
                    pause
                },
                flow,
            )
        },
        Bridge::Held => if pause != PauseState::Running {
            (bridge, pause, flow)
        } else {
            (Bridge::Watching, pause, Control { pause: PauseState::Running, ..flow })
        },
    }
}

impl Bridge {
    /// Hands the controls of the task on to the flow, and the pause of the flow back to the
    /// task, one stage at a time. A task that is cancelled, or past its deadline, stops the
    /// flow in every stage.
    pub fn relay(&mut self, stop: bool, pause: &mut PauseState, flow: &mut Control)
        ensures
            (*final(self), *final(pause), *final(flow)) == bridged(
                *old(self),
                stop,
                *old(pause),
                *old(flow),
            ),
    {
        if *self == Bridge::Closed {
            return;
        }
        if stop {
            flow.cancel();
            *self = Bridge::Closed;
            return;
        }
        match *self {
            Bridge::Watching => {
                if pause.is_requested() {
                    flow.pause();
                    *self = Bridge::Holding;
                }
            },
            Bridge::Holding => {
                if flow.pause == PauseState::Acknowledged {
                    let _ = pause.acknowledge();
                    *self = Bridge::Held;
                }
            },
            Bridge::Held => {
                if !pause.is_requested() {
                    flow.resume();
                    *self = Bridge::Watching;
                }
            },
            Bridge::Closed => {},
        }
    }
}

/// A task learns of a pause only after the flow holds.
pub proof fn pauses_are_confirmed_by_the_flow(
    bridge: Bridge,
    stop: bool,
    pause: PauseState,
    flow: Control,
)
    ensures
        bridged(bridge, stop, pause, flow).1 == PauseState::Acknowledged && pause
            != PauseState::Acknowledged ==> flow.pause == PauseState::Acknowledged,
{
}

/// A stopped flow stays cancelled: nothing that the task does later reaches it.
pub proof fn stopped_flows_stay_cancelled(
    bridge: Bridge,
    pause: PauseState,
    flow: Control,
    stop: bool,
    later: PauseState,
)
    requires
        bridge != Bridge::Closed,
    ensures
        ({
            let (closed, _, stopped) = bridged(bridge, true, pause, flow);
            &&& stopped.cancelled
            &&& bridged(closed, stop, later, stopped) == (closed, later, stopped)
        }),
{
}

/// What a skill gets of a flow that is not running any more.
pub open spec fn ran(
    runner: RunnerModel,
    cancelled: bool,
    deadline: Option<Nanos>,
    now: Nanos,
) -> Result<ProgressModel, AdapterErrorModel> {
    match runner.fault {
        Some(error) => Err(mapped(error)),
        None => match control_error(cancelled, deadline, now) {
            Some(error) => Err(error),
            None => Ok(runner.progress),
        },
    }
}

/// What a skill gets of a flow whose outcome is known. The adapter decides what that means for
/// the skill and the user's wider task.
pub fn finish(runner: &Runner, control: &ExecutionControl, now: Nanos) -> (r: Result<
    Progress,
    AdapterError,
>)
    ensures
        match r {
            Ok(progress) => ran(
                runner@,
                control.cancellation@,
                control.deadline,
                now,
            ) == Ok::<ProgressModel, AdapterErrorModel>(progress@),
            Err(error) => ran(
                runner@,
                control.cancellation@,
                control.deadline,
                now,
            ) == Err::<ProgressModel, AdapterErrorModel>(error@),
        },
{
    if let Some(error) = runner.fault() {
        return Err(map_error(error));
    }
    match control.check(now) {
        Ok(()) => Ok(runner.progress().dup()),
        Err(error) => Err(error),
    }
}

/// An error of a flow keeps its kind for the adapter where the adapter has one, and its message.
pub proof fn errors_of_flows_keep_their_kind(error: ErrorModel)
    ensures
        mapped(error) is Cancelled <==> error is Cancelled,
        mapped(error) is TimedOut <==> error is TimedOut,
        mapped(error) is Invalid <==> error is Invalid,
        mapped(error) is CleanupFailed <==> error is Cleanup,
        error matches ErrorModel::Invalid(message) ==> mapped(error) == AdapterErrorModel::Invalid(
            message,
        ),
        error is Backend || error is Unsupported ==> mapped(error) == AdapterErrorModel::Runtime(
            error.message(),
        ),
{
}

/// The result of a flow is its progress, unless held input could not be released or the work was
/// stopped.
pub proof fn flows_give_their_progress(
    runner: RunnerModel,
    cancelled: bool,
    deadline: Option<Nanos>,
    now: Nanos,
)
    ensures
        ran(runner, cancelled, deadline, now) is Ok <==> runner.fault is None && !cancelled && (
        deadline is None || now < deadline->0),
        ran(runner, cancelled, deadline, now) matches Ok(progress) ==> progress == runner.progress,
        runner.fault matches Some(error) ==> ran(runner, cancelled, deadline, now) == Err::<
            ProgressModel,
            AdapterErrorModel,
        >(mapped(error)),
{
}

/// A task that is paused has its flow asked to pause, learns of it once the flow holds, and lets
/// the flow go on when it is resumed itself. A task that is to stop cancels its flow at any time.
pub proof fn bridges_hand_commands_on(
    bridge: Bridge,
    stop: bool,
    pause: PauseState,
    flow: Control,
)
    ensures
        ({
            let (next, told, after) = bridged(bridge, stop, pause, flow);
            &&& stop && bridge != Bridge::Closed ==> after.cancelled && next == Bridge::Closed
                && told == pause
            &&& bridge == Bridge::Watching && !stop && pause != PauseState::Running
                ==> after.pause != PauseState::Running && next == Bridge::Holding
            &&& bridge == Bridge::Watching && !stop && pause == PauseState::Running ==> after
                == flow && next == Bridge::Watching
            &&& bridge == Bridge::Holding && !stop && flow.pause == PauseState::Acknowledged
                && pause == PauseState::Requested ==> told == PauseState::Acknowledged && next
                == Bridge::Held
            &&& bridge == Bridge::Held && !stop && pause == PauseState::Running ==> after.pause
                == PauseState::Running && next == Bridge::Watching
            &&& bridge == Bridge::Held && !stop && pause != PauseState::Running ==> after == flow
                && next == Bridge::Held
            &&& !stop ==> after.cancelled == flow.cancelled
        }),
{
}

} // verus!
