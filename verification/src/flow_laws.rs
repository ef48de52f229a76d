//! What every history of a flow keeps: its budget, its links, and that nothing is held when it
//! ends or pauses.
use crate::action::ActionResultModel;
use crate::api::PauseState;
use crate::automation::{Control, ErrorModel};
use crate::clock::{Nanos, CLOCK_END};
use crate::flow::FlowModel;
use crate::json::JsonModel;
use crate::recognition::{matches_flaw, FrameModel, RecognitionResultModel};
use crate::runner::{
    actions_keep_runners_sound, interruptions_keep_runners_sound, recognitions_keep_runners_sound,
    releases_keep_runners_sound, reports_keep_runners_sound, steps_keep_runners_sound, Interruption,
    Phase, RunnerModel, Status,
};
use crate::text::Text;
use vstd::prelude::*;

verus! {

/// What a host tells a runner.
#[verifier::ext_equal]
pub enum Notice {
    Step(Control, Nanos),
    Cancel,
    Interrupted(Interruption),
    Captured(Result<(), ErrorModel>, Nanos),
    Recognized(FrameModel, Result<RecognitionResultModel, ErrorModel>, Nanos),
    Acted(Result<ActionResultModel, ErrorModel>, Nanos),
    Reported(Nanos),
    Released(Result<(), ErrorModel>, Nanos),
    Resumed(Nanos),
}

impl RunnerModel {
    /// The runner after one notice.
    pub open spec fn on(self, notice: Notice) -> Self {
        match notice {
            Notice::Step(control, now) => self.on_step(control, now),
            Notice::Cancel => self.on_cancel(),
            Notice::Interrupted(interruption) => self.on_interrupted(interruption),
            Notice::Captured(reply, now) => self.on_captured(reply, now),
            Notice::Recognized(frame, reply, now) => self.on_recognized(frame, reply, now),
            Notice::Acted(reply, now) => self.on_acted(reply, now),
            Notice::Reported(now) => self.on_reported(now),
            Notice::Released(reply, now) => self.on_released(reply, now),
            Notice::Resumed(now) => self.on_resumed(now),
        }
    }

    /// The runner after a number of notices.
    pub open spec fn after_all(self, notices: Seq<Notice>) -> Self
        decreases notices.len(),
    {
        if notices.len() == 0 {
            self
        } else {
            self.after_all(notices.drop_last()).on(notices.last())
        }
    }

    /// The flow has ended, and nothing is left to be done.
    pub open spec fn at_rest(self) -> bool {
        self.phase == Phase::Ready && !self.running()
    }
}

/// Whatever a host tells a runner, it keeps what every runner keeps, runs the same flow, and
/// takes operations one at a time and only in steps.
pub proof fn notices_keep_runners_sound(runner: RunnerModel, notice: Notice)
    requires
        runner.wf(),
    ensures
        runner.on(notice).wf(),
        runner.on(notice).flow == runner.flow,
        runner.progress.operations <= runner.on(notice).progress.operations
            <= runner.progress.operations + (if notice is Step {
            1int
        } else {
            0
        }),
{
    match notice {
        Notice::Step(control, now) => steps_keep_runners_sound(runner, control, now),
        Notice::Interrupted(interruption) => interruptions_keep_runners_sound(
            runner,
            interruption,
        ),
        Notice::Recognized(frame, reply, now) => recognitions_keep_runners_sound(
            runner,
            frame,
            reply,
            now,
        ),
        Notice::Acted(reply, now) => actions_keep_runners_sound(runner, reply, now),
        Notice::Reported(now) => reports_keep_runners_sound(runner, now),
        Notice::Released(reply, now) => releases_keep_runners_sound(runner, reply, now),
        _ => {},
    }
}

/// In every history a flow takes at most the operations that it may, cycles and error routes
/// included.
pub proof fn every_flow_is_bounded(runner: RunnerModel, notices: Seq<Notice>)
    requires
        runner.wf(),
    ensures
        runner.after_all(notices).wf(),
        runner.after_all(notices).flow == runner.flow,
        runner.progress.operations <= runner.after_all(notices).progress.operations
            <= runner.flow.max_operations,
    decreases notices.len(),
{
    if notices.len() > 0 {
        every_flow_is_bounded(runner, notices.drop_last());
        notices_keep_runners_sound(runner.after_all(notices.drop_last()), notices.last());
    }
}

/// Held input is released before a flow comes to rest and before it holds for a pause. A flow
/// comes to rest only with a release, or out of a pause that followed one; a release that fails
/// ends it with that failure.
pub proof fn input_is_released_before_rest(runner: RunnerModel, notice: Notice)
    requires
        runner.wf(),
    ensures
        runner.on(notice).at_rest() && !runner.at_rest() ==> {
            ||| runner.phase is Paused && notice is Resumed
            ||| notice is Released && (notice->Released_0 is Ok || runner.on(notice).fault is Some)
        },
        runner.on(notice).phase is Paused && !(runner.phase is Paused) ==> {
            ||| runner.phase is ReportingPaused && notice is Reported
            ||| runner.phase is ReleasingPaused && notice is Released && notice->Released_0 is Ok
        },
        runner.on(notice).phase is ReportingPaused && !(runner.phase is ReportingPaused)
            ==> runner.phase is ReleasingPaused && notice is Released && notice->Released_0 is Ok,
{
}

/// Input that cannot be released is never taken for a pause or for success: the flow fails.
pub proof fn failed_releases_fail_flows(runner: RunnerModel, error: ErrorModel, now: Nanos)
    requires
        runner.wf(),
        runner.phase is ReleasingCancelled || runner.phase is ReleasingSpent || runner.phase
            is ReleasingEnded || runner.phase is ReleasingFailed || runner.phase
            is ReleasingPaused,
    ensures
        runner.on_released(Err(error), now).at_rest(),
        runner.on_released(Err(error), now).progress.status == Status::Failed,
        runner.on_released(Err(error), now).fault == Some(ErrorModel::Cleanup(error.message())),
{
}

/// An error takes no further action of its node: the flow ends, or takes another look first.
pub proof fn errors_skip_the_remaining_actions(
    runner: RunnerModel,
    error: ErrorModel,
    now: Nanos,
    later: Nanos,
)
    requires
        runner.wf(),
        runner.phase is Acting,
    ensures
        ({
            let failed = runner.on_acted(Err(error), now).on_reported(now).on_released(
                Ok(()),
                later,
            );
            !failed.running() || failed.progress.action_index is None
        }),
{
}

/// The instant at which so many milliseconds have passed, or the end of the clock before that.
pub open spec fn due(now: Nanos, ms: u64) -> int {
    if now + ms * 1_000_000 <= CLOCK_END {
        now + ms * 1_000_000
    } else {
        CLOCK_END as int
    }
}

/// A look at which no candidate was found is followed by another, one poll interval later, for
/// the same candidates and within the same time.
pub proof fn misses_are_followed_by_another_look(
    runner: RunnerModel,
    frame: FrameModel,
    result: RecognitionResultModel,
    now: Nanos,
)
    requires
        runner.wf(),
        runner.phase matches Phase::Recognizing { candidate } && candidate + 1
            == runner.candidates.len(),
        result.matches.len() == 0,
    ensures
        ({
            let next = runner.on_recognized(frame, Ok(result), now);
            &&& next.phase == Phase::Ready
            &&& next.running()
            &&& next.next_poll == due(now, runner.flow.poll_interval_ms)
            &&& next.candidates == runner.candidates
            &&& next.deadline == runner.deadline
            &&& next.progress.node == runner.progress.node
            &&& next.progress.action_index is None
        }),
{
}

impl RunnerModel {
    /// The runner after the candidates of a frame were looked at in turn.
    pub open spec fn glanced(
        self,
        frame: FrameModel,
        results: Seq<RecognitionResultModel>,
        now: Nanos,
    ) -> Self
        decreases results.len(),
    {
        if results.len() == 0 {
            self.on_captured(Ok(()), now)
        } else {
            self.glanced(frame, results.drop_last(), now).on_recognized(
                frame,
                Ok(results.last()),
                now,
            )
        }
    }

    /// The runner after a step in which it looked at a frame.
    pub open spec fn looked(
        self,
        frame: FrameModel,
        results: Seq<RecognitionResultModel>,
        now: Nanos,
    ) -> Self {
        self.on_step(Control { cancelled: false, pause: PauseState::Running }, now).glanced(
            frame,
            results,
            now,
        )
    }

    /// Waits for candidates, with operations and time left.
    pub open spec fn watches(self, now: Nanos) -> bool {
        &&& self.wf()
        &&& self.phase == Phase::Ready
        &&& self.running()
        &&& self.progress.action_index is None
        &&& self.progress.operations < self.flow.max_operations
        &&& self.candidates.len() > 0
        &&& now < self.deadline
    }
}

proof fn lemma_glances_miss(
    runner: RunnerModel,
    frame: FrameModel,
    results: Seq<RecognitionResultModel>,
    now: Nanos,
)
    requires
        runner.wf(),
        runner.phase == Phase::Capturing,
        runner.candidates.len() > 0,
        runner.candidates.len() <= usize::MAX,
        results.len() < runner.candidates.len(),
        forall|i: int| 0 <= i < results.len() ==> (#[trigger] results[i]).matches.len() == 0,
    ensures
        runner.glanced(frame, results, now) == (RunnerModel {
            phase: Phase::Recognizing { candidate: results.len() as usize },
            ..runner
        }),
    decreases results.len(),
{
    if results.len() > 0 {
        lemma_glances_miss(runner, frame, results.drop_last(), now);
        assert(results.last() == results[results.len() - 1]);
    }
}

/// The candidates of a frame are looked at in their order, and the first that is found is entered:
/// its first action comes next, with what was found, within the time of that node.
pub proof fn the_first_candidate_that_is_found_is_entered(
    runner: RunnerModel,
    frame: FrameModel,
    results: Seq<RecognitionResultModel>,
    now: Nanos,
)
    requires
        runner.watches(now),
        runner.candidates.len() <= usize::MAX,
        0 < results.len() <= runner.candidates.len(),
        forall|i: int| 0 <= i < results.len() - 1 ==> (#[trigger] results[i]).matches.len() == 0,
        results.last().matches.len() > 0,
        matches_flaw(frame, results.last().matches, 0) is None,
    ensures
        ({
            let next = runner.looked(frame, results, now);
            let name = runner.candidates[results.len() - 1];
            &&& next.phase == Phase::Ready
            &&& next.running()
            &&& next.progress.node == name
            &&& next.progress.action_index == Some(0usize)
            &&& next.progress.recognition == results.last()
            &&& next.deadline == due(now, runner.flow.node(name).timeout_ms)
            &&& next.progress.operations == runner.progress.operations + 1
            &&& next.progress.failure == runner.progress.failure
        }),
{
    let control = Control { cancelled: false, pause: PauseState::Running };
    steps_keep_runners_sound(runner, control, now);
    lemma_glances_miss(runner.on_step(control, now), frame, results.drop_last(), now);
}

/// A look at which none of the candidates is found is followed by another, one poll interval
/// later, for the same candidates and within the same time.
pub proof fn vain_looks_are_repeated(
    runner: RunnerModel,
    frame: FrameModel,
    results: Seq<RecognitionResultModel>,
    now: Nanos,
)
    requires
        runner.watches(now),
        runner.candidates.len() <= usize::MAX,
        results.len() == runner.candidates.len(),
        forall|i: int| 0 <= i < results.len() ==> (#[trigger] results[i]).matches.len() == 0,
    ensures
        ({
            let next = runner.looked(frame, results, now);
            &&& next.wf()
            &&& next.phase == Phase::Ready
            &&& next.running()
            &&& next.next_poll == due(now, runner.flow.poll_interval_ms)
            &&& next.candidates == runner.candidates
            &&& next.deadline == runner.deadline
            &&& next.flow == runner.flow
            &&& next.progress.node == runner.progress.node
            &&& next.progress.action_index is None
            &&& next.progress.operations == runner.progress.operations + 1
        }),
{
    let control = Control { cancelled: false, pause: PauseState::Running };
    let stepped = runner.on_step(control, now);
    steps_keep_runners_sound(runner, control, now);
    lemma_glances_miss(stepped, frame, results.drop_last(), now);
    assert(results.last() == results[results.len() - 1]);
    let glanced = stepped.glanced(frame, results.drop_last(), now);
    recognitions_keep_runners_sound(glanced, frame, Ok(results.last()), now);
}

/// What a host sees that looks whenever the runner is due: nothing, as many times as it looks.
pub struct VainLook {
    pub frame: FrameModel,
    pub results: Seq<RecognitionResultModel>,
}

impl RunnerModel {
    /// The runner after looks that were made whenever one was due.
    pub open spec fn watched(self, looks: Seq<VainLook>) -> Self
        decreases looks.len(),
    {
        if looks.len() == 0 {
            self
        } else {
            let before = self.watched(looks.drop_last());
            before.looked(looks.last().frame, looks.last().results, before.next_poll)
        }
    }
}

/// As long as nothing is found, a runner looks once in every poll interval until its time is up
/// or its operations are spent. So a candidate that appears is looked at within one interval.
pub proof fn looks_are_one_interval_apart(runner: RunnerModel, looks: Seq<VainLook>)
    requires
        runner.watches(runner.next_poll),
        runner.candidates.len() <= usize::MAX,
        runner.deadline <= CLOCK_END,
        runner.next_poll + looks.len() * (runner.flow.poll_interval_ms * 1_000_000)
            < runner.deadline,
        runner.progress.operations + looks.len() < runner.flow.max_operations,
        forall|k: int|
            0 <= k < looks.len() ==> (#[trigger] looks[k]).results.len() == runner.candidates.len(),
        forall|k: int, i: int|
            0 <= k < looks.len() && 0 <= i < looks[k].results.len() ==> (
            #[trigger] looks[k].results[i]).matches.len() == 0,
    ensures
        ({
            let next = runner.watched(looks);
            &&& next.watches(next.next_poll)
            &&& next.next_poll == runner.next_poll + looks.len() * (runner.flow.poll_interval_ms
                * 1_000_000)
            &&& next.candidates == runner.candidates
            &&& next.deadline == runner.deadline
            &&& next.flow == runner.flow
            &&& next.progress.operations == runner.progress.operations + looks.len()
        }),
    decreases looks.len(),
{
    if looks.len() > 0 {
        let interval = runner.flow.poll_interval_ms * 1_000_000;
        let less = looks.drop_last();
        let n = looks.len() as int;
        assert(n * interval == (n - 1) * interval + interval) by (nonlinear_arith);
        assert(interval >= 0);
        looks_are_one_interval_apart(runner, less);
        let before = runner.watched(less);
        let last = looks[n - 1];
        assert forall|i: int| 0 <= i < last.results.len() implies (
        #[trigger] last.results[i]).matches.len() == 0 by {
            assert(looks[n - 1].results[i].matches.len() == 0);
        }
        vain_looks_are_repeated(before, last.frame, last.results, before.next_poll);
    }
}

/// The actions of a node are done in order, each once; behind the last one its next nodes are
/// looked for at once, within the time of the node, or the flow is completed.
pub proof fn actions_are_done_in_order(runner: RunnerModel, output: JsonModel, now: Nanos)
    requires
        runner.wf(),
        runner.phase == Phase::Acting,
    ensures
        ({
            let index = runner.progress.action_index->0;
            let next = runner.on_acted(Ok(ActionResultModel::Continue(output)), now);
            &&& next.progress.action_result == output
            &&& next.progress.node == runner.progress.node
            &&& if index + 1 < runner.node().actions.len() {
                &&& next.phase == Phase::Ready
                &&& next.running()
                &&& next.progress.action_index == Some((index + 1) as usize)
                &&& next.deadline == runner.deadline
            } else if runner.node().next.len() > 0 {
                &&& next.phase == Phase::Ready
                &&& next.running()
                &&& next.progress.action_index is None
                &&& next.candidates == runner.node().next
                &&& next.next_poll == now
                &&& next.deadline == due(now, runner.node().timeout_ms)
            } else {
                &&& next.phase == Phase::ReleasingEnded
                &&& next.progress.status == Status::Completed
            }
        }),
{
}

/// A step of a node performs the action at its index, and of a node without actions it looks for
/// what comes next.
pub proof fn steps_perform_the_action_at_hand(runner: RunnerModel, now: Nanos)
    requires
        runner.wf(),
        runner.phase == Phase::Ready,
        runner.running(),
        runner.progress.operations < runner.flow.max_operations,
        now < runner.deadline,
    ensures
        ({
            let control = Control { cancelled: false, pause: PauseState::Running };
            let next = runner.on_step(control, now);
            &&& next.progress.operations == runner.progress.operations + 1
            &&& match runner.progress.action_index {
                None => next.phase == Phase::Capturing && next.candidates == runner.candidates,
                Some(index) => if index < runner.node().actions.len() {
                    next.phase == Phase::Acting && next.progress.action_index == Some(index)
                } else if runner.node().next.len() > 0 {
                    &&& next.phase == Phase::Ready
                    &&& next.candidates == runner.node().next
                    &&& next.next_poll == now
                    &&& next.progress.action_index is None
                    &&& next.deadline == due(now, runner.node().timeout_ms)
                } else {
                    next.phase == Phase::ReleasingEnded && next.progress.status
                        == Status::Completed
                },
            }
        }),
{
}

/// What is not found or done in time fails: a step at the deadline or later does nothing but
/// report the timeout.
pub proof fn late_steps_time_out(runner: RunnerModel, now: Nanos)
    requires
        runner.wf(),
        runner.phase == Phase::Ready,
        runner.running(),
        runner.progress.operations < runner.flow.max_operations,
        runner.deadline <= now,
    ensures
        ({
            let control = Control { cancelled: false, pause: PauseState::Running };
            let next = runner.on_step(control, now);
            &&& next.error == Some(ErrorModel::TimedOut)
            &&& next.phase == Phase::ReportingFailed || next.phase == Phase::ReleasingFailed
            &&& next.progress.failure matches Some(failure) && failure.node == runner.progress.node
                && failure.action_index == runner.progress.action_index && failure.message
                == ErrorModel::TimedOut.message()
        }),
{
}

/// The error route of a node is taken after a failure: its nodes are looked for, one poll
/// interval later and within the time of the node that failed. Without one, and after an error
/// in the flow itself, the flow fails; after a cancellation it is cancelled.
pub proof fn failures_take_the_error_route(runner: RunnerModel, now: Nanos)
    requires
        runner.wf(),
        runner.phase == Phase::ReleasingFailed,
    ensures
        ({
            let next = runner.on_released(Ok(()), now);
            let error = runner.error->0;
            &&& next.phase == Phase::Ready
            &&& next.progress.node == runner.progress.node
            &&& next.progress.failure == runner.progress.failure
            &&& if error is Cancelled {
                next.progress.status == Status::Cancelled
            } else if runner.node().on_error.len() == 0 || error is Invalid || error
                is Unsupported {
                next.progress.status == Status::Failed
            } else {
                &&& next.running()
                &&& next.progress.action_index is None
                &&& next.candidates == runner.node().on_error
                &&& next.deadline == due(now, runner.node().timeout_ms)
                &&& next.next_poll == due(now, runner.flow.poll_interval_ms)
            }
        }),
{
}

/// A failed operation says where it failed and why.
pub proof fn failures_are_shown(runner: RunnerModel, error: ErrorModel, now: Nanos)
    requires
        runner.wf(),
        runner.phase == Phase::Acting || runner.phase == Phase::Capturing,
    ensures
        ({
            let next = if runner.phase == Phase::Acting {
                runner.on_acted(Err(error), now)
            } else {
                runner.on_captured(Err(error), now)
            };
            &&& next.error == Some(error)
            &&& next.running()
            &&& next.phase == if runner.phase == Phase::Acting {
                Phase::ReportingFailed
            } else {
                Phase::ReleasingFailed
            }
            &&& next.progress.message == error.message()
            &&& next.progress.failure matches Some(failure) && failure.node == runner.progress.node
                && failure.action_index == runner.progress.action_index && failure.message
                == error.message()
        }),
{
}

/// What an action says of the flow is done: it routes to a node that may come next and to no
/// other, has its own node looked for again where it is the only action, completes the flow, or
/// blocks it for a reason.
pub proof fn actions_steer_the_flow(
    runner: RunnerModel,
    name: Text,
    output: JsonModel,
    reason: Text,
    now: Nanos,
)
    requires
        runner.wf(),
        runner.phase == Phase::Acting,
    ensures
        ({
            let routed = runner.on_acted(
                Ok(ActionResultModel::Route { node: name, output }),
                now,
            );
            if runner.node().next.contains(name) {
                &&& routed.phase == Phase::Ready
                &&& routed.running()
                &&& routed.candidates == seq![name]
                &&& routed.next_poll == now
                &&& routed.deadline == due(now, runner.node().timeout_ms)
                &&& routed.progress.action_index is None
                &&& routed.progress.action_result == output
            } else {
                routed.phase == Phase::ReportingFailed && routed.error->0 is Invalid
            }
        }),
        ({
            let again = runner.on_acted(Ok(ActionResultModel::Reobserve(output)), now);
            if runner.node().actions.len() == 1 {
                &&& again.phase == Phase::Ready
                &&& again.running()
                &&& again.candidates == seq![runner.progress.node]
                &&& again.next_poll == now
                &&& again.deadline == due(now, runner.node().timeout_ms)
                &&& again.progress.action_index is None
                &&& again.progress.action_result == output
            } else {
                again.phase == Phase::ReportingFailed && again.error->0 is Invalid
            }
        }),
        ({
            let done = runner.on_acted(Ok(ActionResultModel::Complete(output)), now);
            done.phase == Phase::ReleasingEnded && done.progress.status == Status::Completed
                && done.progress.action_result == output
        }),
        ({
            let blocked = runner.on_acted(Ok(ActionResultModel::Blocked(reason)), now);
            blocked.phase == Phase::ReleasingEnded && blocked.progress.status == Status::Blocked
                && blocked.progress.message == reason
        }),
{
}

/// A cancelled flow does nothing more but release what it holds, and ends as cancelled.
pub proof fn cancelled_flows_end(runner: RunnerModel, control: Control, now: Nanos, later: Nanos)
    requires
        runner.wf(),
        runner.phase == Phase::Ready,
        runner.running(),
        control.cancelled,
    ensures
        ({
            let next = runner.on_step(control, now);
            let end = next.on_released(Ok(()), later);
            &&& next.phase == Phase::ReleasingCancelled
            &&& next.progress == runner.progress
            &&& end.at_rest()
            &&& end.progress.status == Status::Cancelled
        }),
{
}

/// A flow that is to pause between operations holds where it is, and costs no operation. Before
/// the first action of a node, or with a way to look at the state anew, it goes on by looking for
/// that node or for what its node names; otherwise it is blocked, since nobody knows what the
/// action before it did.
pub proof fn paused_flows_hold(runner: RunnerModel, control: Control, now: Nanos, later: Nanos)
    requires
        runner.wf(),
        runner.phase == Phase::Ready,
        runner.running(),
        !control.cancelled,
        control.pause != PauseState::Running,
    ensures
        ({
            let parking = runner.on_step(control, now);
            let released = parking.on_released(Ok(()), later);
            let held = if runner.at_action() {
                released.on_reported(later)
            } else {
                released
            };
            let recovery = runner.node().on_interrupted;
            &&& parking.phase == (Phase::ReleasingPaused { interrupted: false })
            &&& parking.progress == runner.progress
            &&& held.phase == (Phase::Paused { since: later })
            &&& held.progress.operations == runner.progress.operations
            &&& held.progress.node == runner.progress.node
            &&& match runner.progress.action_index {
                None => held.running() && held.candidates == runner.candidates && held.progress
                    == runner.progress,
                Some(index) => if recovery.len() > 0 {
                    held.running() && held.candidates == recovery
                        && held.progress.action_index is None
                } else if index == 0 {
                    held.running() && held.candidates == seq![runner.progress.node]
                        && held.progress.action_index is None
                } else {
                    held.progress.status == Status::Blocked
                },
            }
        }),
{
}

/// So does one whose action is cut short by a pause, but for an action that may have been done:
/// it is never done again without a look at the state.
pub proof fn interrupted_flows_hold(runner: RunnerModel, now: Nanos)
    requires
        runner.wf(),
        runner.phase == Phase::Acting,
    ensures
        ({
            let parking = runner.on_interrupted(Interruption::Paused);
            let held = parking.on_released(Ok(()), now).on_reported(now);
            let recovery = runner.node().on_interrupted;
            &&& held.phase == (Phase::Paused { since: now })
            &&& held.progress.node == runner.progress.node
            &&& if recovery.len() > 0 {
                held.running() && held.candidates == recovery && held.progress.action_index is None
            } else {
                held.progress.status == Status::Blocked
            }
        }),
{
}

/// A flow begins by looking for its entry at once, within the time of that node.
pub proof fn flows_begin_at_their_entry(flow: FlowModel, now: Nanos)
    ensures
        ({
            let runner = RunnerModel::fresh(flow, now);
            &&& runner.phase == Phase::Ready
            &&& runner.running()
            &&& runner.candidates == seq![flow.entry]
            &&& runner.next_poll == now
            &&& runner.deadline == due(now, flow.node(flow.entry).timeout_ms)
            &&& runner.progress.operations == 0
            &&& runner.progress.action_index is None
            &&& runner.progress.failure is None
        }),
{
}

} // verus!
