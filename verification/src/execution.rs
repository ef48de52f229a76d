//! Ordered local execution. Only adapters interpret state and action preconditions.
use crate::api::{
    Action, ActionModel, ExecutionFailure, ExecutionFailureModel, ToolCall, ToolCallModel,
};
use crate::batch::{
    ActiveBatch, ActiveBatchModel, BatchProgressModel, BatchRequest, BatchRequestModel, BatchStatus,
};
use crate::clock::Nanos;
use crate::copy::{Dup, Same};
use crate::kernel::{Continuation, Event, EventModel, Signal};
use crate::text::Text;
use vstd::prelude::*;

verus! {

/// The largest number of actions in one decision.
pub const MAX_ACTIONS: usize = 16;

/// How an ordered execution stands.
#[derive(Debug, Clone, Copy, PartialEq, Eq, Structural)]
pub enum ExecutionStatus {
    Running,
    Interrupted,
    Completed,
    Cancelled,
    Failed,
}

impl DeepView for ExecutionStatus {
    type V = ExecutionStatus;

    open spec fn deep_view(&self) -> ExecutionStatus {
        *self
    }
}

impl Dup for ExecutionStatus {
    fn dup(&self) -> (r: Self) {
        *self
    }
}

/// `completed` is the number of confirmed actions; it also indexes the next action.
#[derive(Debug)]
pub struct ExecutionProgress {
    pub failure: Option<ExecutionFailure>,
    pub actions: Vec<Action>,
    pub continuation: Continuation,
    pub completed: usize,
    pub status: ExecutionStatus,
    pub message: String,
}

#[verifier::ext_equal]
pub struct ExecutionProgressModel {
    pub failure: Option<ExecutionFailureModel>,
    pub actions: Seq<ActionModel>,
    pub continuation: Continuation,
    pub completed: nat,
    pub status: ExecutionStatus,
    pub message: Text,
}

impl View for ExecutionProgress {
    type V = ExecutionProgressModel;

    open spec fn view(&self) -> ExecutionProgressModel {
        ExecutionProgressModel {
            failure: self.failure.deep_view(),
            actions: self.actions.deep_view(),
            continuation: self.continuation,
            completed: self.completed as nat,
            status: self.status,
            message: self.message@,
        }
    }
}

impl DeepView for ExecutionProgress {
    type V = ExecutionProgressModel;

    open spec fn deep_view(&self) -> ExecutionProgressModel {
        self@
    }
}

impl Dup for ExecutionProgress {
    fn dup(&self) -> (r: Self) {
        ExecutionProgress {
            failure: self.failure.dup(),
            actions: self.actions.dup(),
            continuation: self.continuation,
            completed: self.completed,
            status: self.status,
            message: self.message.dup(),
        }
    }
}

/// An ordered execution under way.
#[derive(Debug)]
pub struct ActiveExecution {
    pub progress: ExecutionProgress,
    /// The repetition of the next action, or of the last one when all are done.
    pub batch: Option<ActiveBatch>,
    pub replaced: bool,
}

#[verifier::ext_equal]
pub struct ActiveExecutionModel {
    pub progress: ExecutionProgressModel,
    pub batch: Option<ActiveBatchModel>,
    pub replaced: bool,
}

impl View for ActiveExecution {
    type V = ActiveExecutionModel;

    open spec fn view(&self) -> ActiveExecutionModel {
        ActiveExecutionModel {
            progress: self.progress@,
            batch: self.batch.deep_view(),
            replaced: self.replaced,
        }
    }
}

impl DeepView for ActiveExecution {
    type V = ActiveExecutionModel;

    open spec fn deep_view(&self) -> ActiveExecutionModel {
        self@
    }
}

/// Whether a repetition is the one that an action asks for.
pub open spec fn asks_for(action: ActionModel, request: BatchRequestModel) -> bool {
    match action {
        ActionModel::Call(_) => false,
        ActionModel::Repeat(r) => request == BatchRequestModel::Repeat(r),
        ActionModel::UntilDone(call) => request == BatchRequestModel::UntilDone(call),
    }
}

/// Every repeat asks for one execution at least.
pub open spec fn counts_positive(actions: Seq<ActionModel>) -> bool {
    forall|i: int|
        0 <= i < actions.len() ==> ((#[trigger] actions[i]) matches ActionModel::Repeat(r)
            ==> r.times > 0)
}

impl BatchProgressModel {
    /// Whether an action carries an unfinished repetition forward: the same call, and of a
    /// fixed repeat exactly what is left.
    pub open spec fn carried_by(self, action: ActionModel) -> bool {
        match (action, self.request) {
            (ActionModel::Repeat(r), BatchRequestModel::Repeat(original)) => r.call.plain()
                == original.call.plain() && self.remaining == Some(r.times),
            (ActionModel::UntilDone(call), BatchRequestModel::UntilDone(original)) => call.plain()
                == original.plain(),
            _ => false,
        }
    }

    /// The action that this repetition is the repetition of.
    pub open spec fn action(self) -> ActionModel {
        match self.request {
            BatchRequestModel::Repeat(r) => ActionModel::Repeat(r),
            BatchRequestModel::UntilDone(call) => ActionModel::UntilDone(call),
        }
    }
}

impl ExecutionProgressModel {
    /// No more is done than was asked for, and what is completed is done to the last action.
    pub open spec fn counted(self) -> bool {
        &&& self.completed <= self.actions.len()
        &&& self.status == ExecutionStatus::Completed ==> self.completed == self.actions.len()
    }

    /// The progress with a new status.
    pub open spec fn stopped(self, status: ExecutionStatus, message: Text) -> Self {
        ExecutionProgressModel { status, message, ..self }
    }
}

impl ActiveExecutionModel {
    /// An execution before its first action.
    pub open spec fn fresh(actions: Seq<ActionModel>, continuation: Continuation) -> Self {
        ActiveExecutionModel {
            progress: ExecutionProgressModel {
                failure: None,
                actions,
                continuation,
                completed: 0,
                status: ExecutionStatus::Running,
                message: Seq::empty(),
            },
            batch: None,
            replaced: false,
        }
    }

    /// The actions that are done are counted; the repetition under way balances, and it is
    /// that of the next action. What is interrupted after its last action repeats nothing.
    pub open spec fn wf(self) -> bool {
        &&& self.progress.counted()
        &&& counts_positive(self.progress.actions)
        &&& self.batch matches Some(batch) ==> {
            &&& batch.wf()
            &&& self.progress.completed < self.progress.actions.len() ==> asks_for(
                self.progress.actions[self.progress.completed as int],
                batch.progress.request,
            )
            &&& self.progress.completed == self.progress.actions.len() ==> self.progress.status
                != ExecutionStatus::Interrupted
        }
    }

    /// The execution with a new status.
    pub open spec fn stopped(self, status: ExecutionStatus, message: Text) -> Self {
        ActiveExecutionModel { progress: self.progress.stopped(status, message), ..self }
    }

    /// The call of the next action.
    pub open spec fn pending_call(self) -> Option<ToolCallModel> {
        if self.progress.completed < self.progress.actions.len() {
            Some(self.progress.actions[self.progress.completed as int].call())
        } else {
            None
        }
    }

    /// The deadline of the repetition under way.
    pub open spec fn deadline(self) -> Option<Nanos> {
        match self.batch {
            Some(batch) => batch.deadline,
            None => None,
        }
    }

    /// Which bound of the repetition under way stops the execution, if one does.
    pub open spec fn limit(self, signal: Signal) -> Option<(ExecutionStatus, Text)> {
        match self.batch {
            None => None,
            Some(batch) => match batch.limit(signal) {
                None => None,
                Some((status, message)) => Some(
                    (
                        if status == BatchStatus::Cancelled {
                            ExecutionStatus::Cancelled
                        } else {
                            ExecutionStatus::Failed
                        },
                        message,
                    ),
                ),
            },
        }
    }

    /// The execution after the bounds of its repetition were checked.
    pub open spec fn checked(self, signal: Signal) -> Self {
        match self.limit(signal) {
            None => self,
            Some((status, message)) => ActiveExecutionModel {
                batch: Some(self.batch->0.checked(signal)),
                ..self.stopped(status, message)
            },
        }
    }

    /// What the check of the bounds reports.
    pub open spec fn limit_events(self, signal: Signal) -> Seq<EventModel> {
        match self.limit(signal) {
            None => Seq::empty(),
            Some(_) => self.batch->0.limit_events(signal).push(
                EventModel::ExecutionProgress(self.checked(signal).progress),
            ),
        }
    }

    /// Whether an interruption keeps the execution for a later decision: something was done
    /// or planned beyond one plain call.
    pub open spec fn retained(self) -> bool {
        ||| self.replaced
        ||| self.progress.completed > 0
        ||| self.progress.actions.len() > 1
        ||| self.progress.actions.len() > 0 && !(self.progress.actions[0] is Call)
    }

    /// Why the unfinished actions cannot be replaced by others, if they cannot.
    pub open spec fn replacement_flaw(self, actions: Seq<ActionModel>) -> Option<Text> {
        if self.progress.status != ExecutionStatus::Interrupted {
            Some("only interrupted executions can be replaced"@)
        } else {
            match self.batch {
                None => None,
                Some(batch) => if !batch.progress.finished {
                    if actions.len() > 0 && batch.progress.carried_by(actions[0]) {
                        None
                    } else {
                        Some(
                            "replacement must first carry forward the same pending loop or repeat with exactly its remaining count; repair separately first"@,
                        )
                    }
                } else if self.progress.completed < self.progress.actions.len() {
                    Some(
                        "batch completed but observation is pending; use Resume before replacing"@,
                    )
                } else {
                    None
                },
            }
        }
    }

    /// The execution with its unfinished actions replaced: what is done stays, and so do the
    /// ledger, the deadline and the attempt budget of an unfinished repetition.
    pub open spec fn replaced_by(
        self,
        actions: Seq<ActionModel>,
        continuation: Continuation,
    ) -> Self {
        let carries = self.batch matches Some(batch) && !batch.progress.finished;
        ActiveExecutionModel {
            progress: ExecutionProgressModel {
                actions: self.progress.actions.take(self.progress.completed as int) + (if carries {
                    actions.update(0, self.batch->0.progress.action())
                } else {
                    actions
                }),
                continuation,
                ..self.progress
            },
            batch: if carries {
                Some(
                    ActiveBatchModel {
                        progress: BatchProgressModel {
                            continuation,
                            ..self.batch->0.progress
                        },
                        ..self.batch->0
                    },
                )
            } else {
                self.batch
            },
            replaced: true,
        }
    }
}

impl ActiveExecution {
    /// An execution before its first action.
    pub fn new(actions: Vec<Action>, continuation: Continuation) -> (r: Self)
        ensures
            r@ == ActiveExecutionModel::fresh(actions.deep_view(), continuation),
            counts_positive(actions.deep_view()) ==> r@.wf(),
    {
        ActiveExecution {
            progress: ExecutionProgress {
                failure: None,
                actions,
                continuation,
                completed: 0,
                status: ExecutionStatus::Running,
                message: String::new(),
            },
            batch: None,
            replaced: false,
        }
    }

    /// Replaces the unfinished actions of an interrupted execution, or refuses to and leaves
    /// it as it is.
    pub fn replace_remaining(&mut self, actions: Vec<Action>, continuation: Continuation) -> (r:
        Result<(), String>)
        requires
            old(self)@.wf(),
        ensures
            counts_positive(actions.deep_view()) ==> final(self)@.wf(),
            match r {
                Ok(()) => old(self)@.replacement_flaw(actions.deep_view()) is None && final(self)@
                    == old(self)@.replaced_by(actions.deep_view(), continuation),
                Err(message) => old(self)@.replacement_flaw(actions.deep_view()) == Some(message@)
                    && final(self)@ == old(self)@,
            },
    {
        if self.progress.status != ExecutionStatus::Interrupted {
            return Err("only interrupted executions can be replaced".to_owned());
        }
        let ghost given = actions.deep_view();
        let mut actions: Vec<Action> = actions;
        let mut original: Option<Action> = None;
        if let Some(batch) = &self.batch {
            if !batch.progress.finished {
                let carried: bool = actions.len() > 0 && match (
                    &actions[0],
                    &batch.progress.request,
                ) {
                    (Action::Repeat(request), BatchRequest::Repeat(original)) => {
                        request.call.same(&original.call) && (match batch.progress.remaining {
                            Some(n) => n == request.times,
                            None => false,
                        })
                    },
                    (Action::UntilDone(call), BatchRequest::UntilDone(original)) => call.same(
                        original,
                    ),
                    _ => false,
                };
                assert(actions@.len() > 0 ==> given[0] == actions@[0]@);
                if !carried {
                    return Err(
                        "replacement must first carry forward the same pending loop or repeat with exactly its remaining count; repair separately first".to_owned(),
                    );
                }
                original =
                Some(
                    match &batch.progress.request {
                        BatchRequest::Repeat(request) => Action::Repeat(request.dup()),
                        BatchRequest::UntilDone(call) => Action::UntilDone(call.dup()),
                    },
                );
            } else if self.progress.completed < self.progress.actions.len() {
                return Err(
                    "batch completed but observation is pending; use Resume before replacing".to_owned(),
                );
            }
        }
        if let Some(first) = original {
            actions.set(0, first);
            assert(actions.deep_view() =~= given.update(0, self.batch->0@.progress.action()));
            let mut batch: Option<ActiveBatch> = None;
            std::mem::swap(&mut batch, &mut self.batch);
            if let Some(mut batch) = batch {
                batch.progress.continuation = continuation;
                self.batch = Some(batch);
            }
        }
        let ghost kept = self.progress.actions.deep_view();
        self.progress.actions.truncate(self.progress.completed);
        let mut actions: Vec<Action> = actions;
        let ghost added = actions.deep_view();
        self.progress.actions.append(&mut actions);
        proof {
            let n = self.progress.completed as int;
            let all = self.progress.actions.deep_view();
            assert(all =~= kept.take(n) + added);
            assert forall|i: int|
                0 <= i < all.len() && counts_positive(given) implies ((#[trigger] all[i]) matches ActionModel::Repeat(r)
                ==> r.times > 0) by {
                if i < n {
                    assert(all[i] == kept[i]);
                } else {
                    assert(all[i] == added[i - n]);
                    if i > n || added == given {
                        assert(added[i - n] == given[i - n]);
                    }
                }
            }
        }
        self.progress.continuation = continuation;
        self.replaced = true;
        Ok(())
    }

    /// The call of the next action.
    pub fn pending_call(&self) -> (r: Option<&ToolCall>)
        ensures
            match r {
                Some(call) => self@.pending_call() == Some(call@),
                None => self@.pending_call() is None,
            },
    {
        if self.progress.completed < self.progress.actions.len() {
            Some(self.progress.actions[self.progress.completed].call())
        } else {
            None
        }
    }

    /// The deadline of the repetition under way.
    pub fn deadline(&self) -> (r: Option<Nanos>)
        ensures
            r == self@.deadline(),
    {
        match &self.batch {
            Some(batch) => batch.deadline,
            None => None,
        }
    }

    /// Reports the progress.
    pub fn report(&self, events: &mut Vec<Event>)
        ensures
            final(events).deep_view() == old(events).deep_view().push(
                EventModel::ExecutionProgress(self@.progress),
            ),
    {
        events.push(Event::ExecutionProgress(self.progress.dup()));
        assert(events.deep_view() =~= old(events).deep_view().push(
            EventModel::ExecutionProgress(self@.progress),
        ));
    }

    /// Gives the execution a new status and reports it.
    pub fn stop(&mut self, status: ExecutionStatus, message: String, events: &mut Vec<Event>)
        ensures
            final(self)@ == old(self)@.stopped(status, message@),
            final(events).deep_view() == old(events).deep_view().push(
                EventModel::ExecutionProgress(final(self)@.progress),
            ),
    {
        self.progress.status = status;
        self.progress.message = message;
        self.report(events);
    }

    /// Stops the execution where a bound of its repetition is reached, and says whether.
    pub fn check_limit(&mut self, signal: Signal, events: &mut Vec<Event>) -> (r: bool)
        ensures
            r == (old(self)@.limit(signal) is Some),
            final(self)@ == old(self)@.checked(signal),
            final(events).deep_view() == old(events).deep_view() + old(self)@.limit_events(signal),
    {
        let ghost former = events.deep_view();
        let mut taken: Option<ActiveBatch> = None;
        std::mem::swap(&mut taken, &mut self.batch);
        match taken {
            None => {
                assert(former + Seq::<EventModel>::empty() =~= former);
                false
            },
            Some(mut batch) => {
                let limited: bool = batch.check_limit(signal, events);
                if limited {
                    let status: ExecutionStatus = if batch.progress.status
                        == BatchStatus::Cancelled {
                        ExecutionStatus::Cancelled
                    } else {
                        ExecutionStatus::Failed
                    };
                    let message: String = batch.progress.message.dup();
                    self.batch = Some(batch);
                    self.stop(status, message, events);
                    assert(events.deep_view() =~= former + old(self)@.limit_events(signal));
                } else {
                    self.batch = Some(batch);
                }
                limited
            },
        }
    }

    /// Whether an interruption keeps the execution for a later decision.
    pub fn retained_on_error(&self) -> (r: bool)
        ensures
            r == self@.retained(),
    {
        self.replaced || self.progress.completed > 0 || self.progress.actions.len() > 1 || (
        self.progress.actions.len() > 0 && !matches!(self.progress.actions[0], Action::Call(_)))
    }
}

/// A replacement by actions with positive counts keeps what every execution keeps.
pub proof fn replacements_keep_executions_sound(
    execution: ActiveExecutionModel,
    actions: Seq<ActionModel>,
    continuation: Continuation,
)
    requires
        execution.wf(),
        counts_positive(actions),
        execution.replacement_flaw(actions) is None,
    ensures
        execution.replaced_by(actions, continuation).wf(),
{
    let n = execution.progress.completed as int;
    let old_actions = execution.progress.actions;
    let after = execution.replaced_by(actions, continuation);
    assert forall|i: int| 0 <= i < after.progress.actions.len() implies (
    (#[trigger] after.progress.actions[i]) matches ActionModel::Repeat(r) ==> r.times > 0) by {
        if i < n {
            assert(after.progress.actions[i] == old_actions[i]);
        } else if i > n || execution.batch is None {
            assert(after.progress.actions[i] == actions[i - n]);
        }
    }
}

/// A replacement leaves the confirmed actions and, where a repetition is unfinished, its
/// counts, its deadline and its attempt budget as they are.
pub proof fn replacement_preserves_confirmed_work(
    execution: ActiveExecutionModel,
    actions: Seq<ActionModel>,
    continuation: Continuation,
)
    requires
        execution.wf(),
        execution.replacement_flaw(actions) is None,
    ensures
        execution.replaced_by(actions, continuation).progress.completed
            == execution.progress.completed,
        execution.replaced_by(actions, continuation).progress.actions.take(
            execution.progress.completed as int,
        ) == execution.progress.actions.take(execution.progress.completed as int),
        execution.batch is Some && !execution.batch->0.progress.finished ==> {
            let batch = execution.batch->0;
            let carried = execution.replaced_by(actions, continuation).batch;
            &&& carried is Some
            &&& carried->0.deadline == batch.deadline
            &&& carried->0.max_attempts == batch.max_attempts
            &&& carried->0.progress.attempts == batch.progress.attempts
            &&& carried->0.progress.completed == batch.progress.completed
            &&& carried->0.progress.remaining == batch.progress.remaining
            &&& carried->0.progress.request == batch.progress.request
        },
{
    let after = execution.replaced_by(actions, continuation).progress.actions;
    assert(after.take(execution.progress.completed as int) =~= execution.progress.actions.take(
        execution.progress.completed as int,
    ));
}

/// Only what is interrupted can be replaced. A repetition that is not finished must be carried
/// forward first: the same call, and of a repeat exactly what is left. One that is finished but
/// not yet observed must be resumed instead.
pub proof fn replacements_carry_repetitions_forward(
    execution: ActiveExecutionModel,
    actions: Seq<ActionModel>,
)
    requires
        execution.wf(),
    ensures
        execution.replacement_flaw(actions) is None <==> {
            &&& execution.progress.status == ExecutionStatus::Interrupted
            &&& match execution.batch {
                None => true,
                Some(batch) => if batch.progress.finished {
                    execution.progress.completed == execution.progress.actions.len()
                } else {
                    &&& actions.len() > 0
                    &&& match (actions[0], batch.progress.request) {
                        (
                            ActionModel::Repeat(again),
                            BatchRequestModel::Repeat(before),
                        ) => again.call.plain() == before.call.plain() && again.times
                            == before.times - batch.progress.completed,
                        (
                            ActionModel::UntilDone(again),
                            BatchRequestModel::UntilDone(before),
                        ) => again.plain() == before.plain(),
                        _ => false,
                    }
                },
            }
        },
{
}

/// What replaces the unfinished actions is done behind the confirmed ones, in its order and to its
/// own end; a repetition that is carried forward stays the one that it was.
pub proof fn replacements_are_done_behind_confirmed_work(
    execution: ActiveExecutionModel,
    actions: Seq<ActionModel>,
    continuation: Continuation,
    i: int,
)
    requires
        execution.wf(),
        execution.replacement_flaw(actions) is None,
        0 <= i < actions.len(),
    ensures
        ({
            let after = execution.replaced_by(actions, continuation);
            let done = execution.progress.completed as int;
            let carried = execution.batch is Some && !execution.batch->0.progress.finished;
            &&& after.progress.actions.len() == done + actions.len()
            &&& after.progress.continuation == continuation
            &&& after.progress.actions[done + i] == if carried && i == 0 {
                execution.progress.actions[done]
            } else {
                actions[i]
            }
        }),
{
}

/// The call that is pending is that of the first action that is not confirmed.
pub proof fn the_first_unconfirmed_call_is_pending(execution: ActiveExecutionModel)
    requires
        execution.wf(),
    ensures
        execution.pending_call() is None <==> execution.progress.completed
            == execution.progress.actions.len(),
        execution.pending_call() matches Some(call) ==> match execution.progress.actions[
        execution.progress.completed as int] {
            ActionModel::Call(next) => call == next,
            ActionModel::Repeat(request) => call == request.call,
            ActionModel::UntilDone(next) => call == next,
        },
{
}

/// An interrupted execution is kept for a later decision unless it is one plain call that did
/// nothing: what was confirmed, planned or replaced is never forgotten.
pub proof fn plans_are_kept_when_they_are_interrupted(execution: ActiveExecutionModel)
    ensures
        !execution.retained() <==> {
            &&& !execution.replaced
            &&& execution.progress.completed == 0
            &&& execution.progress.actions.len() <= 1
            &&& execution.progress.actions.len() == 1 ==> execution.progress.actions[0] is Call
        },
{
}

/// A bound of a repetition stops its execution: a cancellation as cancelled, every other as
/// failed.
pub proof fn bounds_stop_executions(execution: ActiveExecutionModel, signal: Signal)
    ensures
        execution.limit(signal) is Some <==> execution.batch is Some && execution.batch->0.limit(
            signal,
        ) is Some,
        execution.limit(signal) matches Some((status, _)) ==> status == if signal.cancelled {
            ExecutionStatus::Cancelled
        } else {
            ExecutionStatus::Failed
        },
{
}

} // verus!
