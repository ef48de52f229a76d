//! The life of one task: commands at safe boundaries, what is known of it, how it ends.
use crate::api::{CancellationToken, PauseState};
use crate::batch::BatchStatus;
use crate::clock::Nanos;
use crate::copy::Dup;
use crate::execution::ExecutionStatus;
use crate::kernel::{Error, ErrorModel, Event, EventModel, Outcome, OutcomeModel, Status, Task};
use crate::metrics::{TaskMetrics, TaskMetricsModel, TaskSummary};
use crate::text::Text;
use vstd::prelude::*;

verus! {

/// Where a task stands.
#[derive(Debug, Clone, Copy, PartialEq, Eq, Structural)]
pub enum TaskStatus {
    Created,
    Running,
    PauseRequested,
    Paused,
    CancelRequested,
    Completed,
    Failed,
    Cancelled,
}

impl DeepView for TaskStatus {
    type V = TaskStatus;

    open spec fn deep_view(&self) -> TaskStatus {
        *self
    }
}

impl Dup for TaskStatus {
    fn dup(&self) -> (r: Self) {
        *self
    }
}

impl TaskStatus {
    /// Nothing follows.
    pub open spec fn ended(self) -> bool {
        self == TaskStatus::Completed || self == TaskStatus::Failed || self
            == TaskStatus::Cancelled
    }

    /// Whether nothing follows.
    pub fn terminal(self) -> (r: bool)
        ensures
            r == self.ended(),
    {
        self == TaskStatus::Completed || self == TaskStatus::Failed || self
            == TaskStatus::Cancelled
    }
}

/// What is known of a task, whatever the adapter does.
#[derive(Debug)]
pub struct TaskSnapshot {
    pub summary: Option<TaskSummary>,
    pub task_id: String,
    pub goal: String,
    pub status: TaskStatus,
    pub current_skill: Option<String>,
    pub reason: Option<String>,
}

#[verifier::ext_equal]
pub struct TaskSnapshotModel {
    pub summary: Option<TaskSummary>,
    pub task_id: Text,
    pub goal: Text,
    pub status: TaskStatus,
    pub current_skill: Option<Text>,
    pub reason: Option<Text>,
}

impl View for TaskSnapshot {
    type V = TaskSnapshotModel;

    open spec fn view(&self) -> TaskSnapshotModel {
        TaskSnapshotModel {
            summary: self.summary,
            task_id: self.task_id@,
            goal: self.goal@,
            status: self.status,
            current_skill: self.current_skill.deep_view(),
            reason: self.reason.deep_view(),
        }
    }
}

impl DeepView for TaskSnapshot {
    type V = TaskSnapshotModel;

    open spec fn deep_view(&self) -> TaskSnapshotModel {
        self@
    }
}

impl Dup for TaskSnapshot {
    fn dup(&self) -> (r: Self) {
        TaskSnapshot {
            summary: self.summary,
            task_id: self.task_id.dup(),
            goal: self.goal.dup(),
            status: self.status,
            current_skill: self.current_skill.dup(),
            reason: self.reason.dup(),
        }
    }
}

/// What is asked for of a task, and what is known of it.
#[derive(Debug)]
pub struct TaskHandle {
    snapshot: TaskSnapshot,
    cancellation: CancellationToken,
    pause: PauseState,
    /// Why the journal cannot be written any more.
    log_error: Option<String>,
    metrics: TaskMetrics,
}

#[verifier::ext_equal]
pub struct TaskHandleModel {
    pub snapshot: TaskSnapshotModel,
    pub cancelled: bool,
    pub pause: PauseState,
    pub log_error: Option<Text>,
    pub metrics: TaskMetricsModel,
}

impl View for TaskHandle {
    type V = TaskHandleModel;

    closed spec fn view(&self) -> TaskHandleModel {
        TaskHandleModel {
            snapshot: self.snapshot@,
            cancelled: self.cancellation@,
            pause: self.pause,
            log_error: self.log_error.deep_view(),
            metrics: self.metrics@,
        }
    }
}

/// How a task that has ended is called.
pub open spec fn ended_as(status: Status) -> TaskStatus {
    match status {
        Status::Completed => TaskStatus::Completed,
        Status::Failed => TaskStatus::Failed,
        Status::Cancelled => TaskStatus::Cancelled,
    }
}

/// How a run ended: its status, and why.
pub open spec fn ending(result: Result<OutcomeModel, ErrorModel>) -> (TaskStatus, Text) {
    match result {
        Ok(outcome) => (ended_as(outcome.status), outcome.reason),
        Err(error) => (TaskStatus::Failed, error.message()),
    }
}

/// What a run gave.
pub open spec fn given(result: Result<Outcome, Error>) -> Result<OutcomeModel, ErrorModel> {
    match result {
        Ok(outcome) => Ok(outcome@),
        Err(error) => Err(error@),
    }
}

/// The skill that runs after an event.
pub open spec fn skill_after(current: Option<Text>, event: EventModel) -> Option<Text> {
    match event {
        EventModel::ActionStarted { call, .. } => Some(call.name),
        EventModel::BatchProgress(progress) => if progress.status == BatchStatus::Completed {
            None
        } else {
            Some(progress.request.call().name)
        },
        EventModel::Executed(_) => None,
        _ => current,
    }
}

/// Whether an event counts as an interruption.
pub open spec fn interrupts(event: EventModel) -> bool {
    event matches EventModel::ExecutionProgress(progress) && progress.status
        == ExecutionStatus::Interrupted
}

/// What a task does at a safe boundary.
#[derive(Debug, Clone, Copy, PartialEq, Eq, Structural)]
pub enum Boundary {
    /// It goes on, or ends as it was asked to.
    Go,
    /// It waits for a command.
    Hold,
}

impl TaskHandleModel {
    /// A task that has not started.
    pub open spec fn created(task_id: Text, goal: Text) -> Self {
        TaskHandleModel {
            snapshot: TaskSnapshotModel {
                summary: None,
                task_id,
                goal,
                status: TaskStatus::Created,
                current_skill: None,
                reason: None,
            },
            cancelled: false,
            pause: PauseState::Running,
            log_error: None,
            metrics: TaskMetricsModel {
                summary: crate::run_model::no_summary(),
                started: None,
                finished: false,
            },
        }
    }

    /// The same task in another status.
    pub open spec fn at(self, status: TaskStatus) -> Self {
        TaskHandleModel {
            snapshot: TaskSnapshotModel { status, ..self.snapshot },
            ..self
        }
    }

    /// What is known of a task agrees with what was asked for.
    pub open spec fn wf(self) -> bool {
        match self.snapshot.status {
            TaskStatus::Created => self.pause == PauseState::Running,
            TaskStatus::Running => self.pause == PauseState::Running,
            TaskStatus::PauseRequested => self.pause == PauseState::Requested,
            TaskStatus::Paused => self.pause == PauseState::Acknowledged,
            TaskStatus::CancelRequested => self.cancelled && self.pause == PauseState::Running,
            _ => self.snapshot.reason is Some && self.snapshot.summary is Some,
        }
    }

    /// Whether a pause can be asked for.
    pub open spec fn pausable(self) -> bool {
        self.snapshot.status == TaskStatus::Created || self.snapshot.status == TaskStatus::Running
    }

    /// Whether there is a pause to be ended.
    pub open spec fn resumable(self) -> bool {
        self.snapshot.status == TaskStatus::PauseRequested || self.snapshot.status
            == TaskStatus::Paused
    }

    /// Whether the task can still be cancelled.
    pub open spec fn cancellable(self) -> bool {
        !self.snapshot.status.ended() && self.snapshot.status != TaskStatus::CancelRequested
    }

    pub open spec fn paused(self) -> Self {
        if self.pausable() {
            TaskHandleModel {
                pause: PauseState::Requested,
                ..self.at(TaskStatus::PauseRequested)
            }
        } else {
            self
        }
    }

    pub open spec fn resumed(self) -> Self {
        if self.resumable() {
            TaskHandleModel { pause: PauseState::Running, ..self.at(TaskStatus::Running) }
        } else {
            self
        }
    }

    pub open spec fn cancelling(self) -> Self {
        if self.cancellable() {
            TaskHandleModel {
                cancelled: true,
                pause: PauseState::Running,
                ..self.at(TaskStatus::CancelRequested)
            }
        } else {
            self
        }
    }

    /// A pause that was asked for is reached.
    pub open spec fn acknowledged(self) -> Self {
        if self.pause == PauseState::Requested {
            TaskHandleModel {
                pause: PauseState::Acknowledged,
                ..self.at(
                    if self.snapshot.status == TaskStatus::PauseRequested {
                        TaskStatus::Paused
                    } else {
                        self.snapshot.status
                    },
                )
            }
        } else {
            self
        }
    }

    /// The task starts; a pause that was asked for before stays asked for.
    pub open spec fn started(self, now: Nanos) -> Self {
        let timed = TaskHandleModel {
            metrics: TaskMetricsModel { started: Some(now), ..self.metrics },
            ..self
        };
        if self.snapshot.status == TaskStatus::Created {
            timed.at(TaskStatus::Running)
        } else {
            timed
        }
    }

    /// An event of the run.
    pub open spec fn saw(self, event: EventModel) -> Self {
        TaskHandleModel {
            snapshot: TaskSnapshotModel {
                current_skill: skill_after(self.snapshot.current_skill, event),
                ..self.snapshot
            },
            metrics: if interrupts(event) {
                TaskMetricsModel {
                    summary: TaskSummary {
                        interruptions: (self.metrics.summary.interruptions + 1) as u64,
                        ..self.metrics.summary
                    },
                    ..self.metrics
                }
            } else {
                self.metrics
            },
            ..self
        }
    }

    /// The end of the run.
    pub open spec fn finished(self, result: Result<OutcomeModel, ErrorModel>, now: Nanos) -> Self {
        let (status, reason) = ending(result);
        let metrics = self.metrics.ended(now);
        TaskHandleModel {
            snapshot: TaskSnapshotModel {
                status,
                reason: Some(reason),
                current_skill: None,
                summary: Some(metrics.summary),
                ..self.snapshot
            },
            metrics,
            ..self
        }
    }

    /// Why the journal cannot be written any more.
    pub open spec fn log_failure(self) -> Option<ErrorModel> {
        match self.log_error {
            Some(message) => Some(ErrorModel::Logging(message)),
            None => None,
        }
    }

    /// A safe boundary: a lost journal ends the task, and a pause that was asked for is
    /// reached, unless the task is to end anyway.
    pub open spec fn boundary(self, deadline: Option<Nanos>, now: Nanos) -> (
        Self,
        Result<Boundary, ErrorModel>,
    ) {
        if self.log_failure() is Some {
            (self, Err(self.log_failure()->0))
        } else if self.cancelled || (deadline matches Some(d) && now >= d) {
            (self, Ok(Boundary::Go))
        } else {
            let next = self.acknowledged();
            (
                next,
                Ok(
                    if next.snapshot.status == TaskStatus::Paused {
                        Boundary::Hold
                    } else {
                        Boundary::Go
                    },
                ),
            )
        }
    }
}

impl TaskHandle {
    /// A task that has not started. The host gives it a name of its own.
    pub fn new(task_id: String, task: &Task) -> (r: Self)
        ensures
            r@ == TaskHandleModel::created(task_id@, task.goal@),
            r@.wf(),
    {
        TaskHandle {
            snapshot: TaskSnapshot {
                summary: None,
                task_id,
                goal: task.goal.dup(),
                status: TaskStatus::Created,
                current_skill: None,
                reason: None,
            },
            cancellation: CancellationToken::default(),
            pause: PauseState::Running,
            log_error: None,
            metrics: TaskMetrics::default(),
        }
    }

    /// What is known of the task.
    pub fn snapshot(&self) -> (r: TaskSnapshot)
        ensures
            r@ == self@.snapshot,
    {
        self.snapshot.dup()
    }

    pub fn status(&self) -> (r: TaskStatus)
        ensures
            r == self@.snapshot.status,
    {
        self.snapshot.status
    }

    /// Whether the task is to end.
    pub fn is_cancelled(&self) -> (r: bool)
        ensures
            r == self@.cancelled,
    {
        self.cancellation.is_cancelled()
    }

    /// What is asked for as to a pause.
    pub fn pause_state(&self) -> (r: PauseState)
        ensures
            r == self@.pause,
    {
        self.pause
    }

    /// What was counted so far.
    pub fn summary(&self) -> (r: TaskSummary)
        ensures
            r == self@.metrics.summary,
    {
        self.metrics.summary()
    }

    /// The counts of the task, for a call that begins or ends.
    pub fn metrics(&mut self) -> (r: &mut TaskMetrics)
        ensures
            r@ == old(self)@.metrics,
            final(self)@ == (TaskHandleModel { metrics: final(r)@, ..old(self)@ }),
    {
        &mut self.metrics
    }

    /// Asks for a pause at the next safe boundary.
    pub fn pause(&mut self) -> (r: bool)
        requires
            old(self)@.wf(),
        ensures
            r == old(self)@.pausable(),
            final(self)@ == old(self)@.paused(),
            final(self)@.wf(),
    {
        if self.snapshot.status == TaskStatus::Created || self.snapshot.status
            == TaskStatus::Running {
            self.snapshot.status = TaskStatus::PauseRequested;
            self.pause.request();
            true
        } else {
            false
        }
    }

    /// Ends a pause, or takes back the request for one.
    pub fn resume(&mut self) -> (r: bool)
        requires
            old(self)@.wf(),
        ensures
            r == old(self)@.resumable(),
            final(self)@ == old(self)@.resumed(),
            final(self)@.wf(),
    {
        if self.snapshot.status == TaskStatus::PauseRequested || self.snapshot.status
            == TaskStatus::Paused {
            self.snapshot.status = TaskStatus::Running;
            self.pause.resume();
            true
        } else {
            false
        }
    }

    /// Asks for the end of the task; a pause ends with it.
    pub fn cancel(&mut self) -> (r: bool)
        requires
            old(self)@.wf(),
        ensures
            r == old(self)@.cancellable(),
            final(self)@ == old(self)@.cancelling(),
            final(self)@.wf(),
    {
        if !self.snapshot.status.terminal() && self.snapshot.status != TaskStatus::CancelRequested {
            self.cancellation.cancel();
            self.snapshot.status = TaskStatus::CancelRequested;
            self.pause.resume();
            true
        } else {
            false
        }
    }

    /// Takes notice that the work holds for a pause that was asked for.
    pub fn acknowledge(&mut self) -> (r: bool)
        requires
            old(self)@.wf(),
        ensures
            r == (old(self)@.pause == PauseState::Requested && old(self)@.snapshot.status
                == TaskStatus::PauseRequested),
            final(self)@ == old(self)@.acknowledged(),
            final(self)@.wf(),
    {
        if self.pause.acknowledge() && self.snapshot.status == TaskStatus::PauseRequested {
            self.snapshot.status = TaskStatus::Paused;
            true
        } else {
            false
        }
    }

    /// Starts the task.
    pub fn start(&mut self, now: Nanos)
        requires
            old(self)@.wf(),
        ensures
            final(self)@ == old(self)@.started(now),
            final(self)@.wf(),
    {
        self.metrics.start(now);
        if self.snapshot.status == TaskStatus::Created {
            self.snapshot.status = TaskStatus::Running;
        }
    }

    /// Takes notice of an event of the run.
    pub fn event(&mut self, event: &Event)
        requires
            old(self)@.wf(),
            interrupts(event@) ==> old(self)@.metrics.summary.interruptions < u64::MAX,
        ensures
            final(self)@ == old(self)@.saw(event@),
            final(self)@.wf(),
    {
        match event {
            Event::ExecutionProgress(progress) => {
                if progress.status == ExecutionStatus::Interrupted {
                    self.metrics.interrupted();
                }
            },
            Event::ActionStarted { call, .. } => {
                self.snapshot.current_skill = Some(call.name.dup());
            },
            Event::BatchProgress(progress) => {
                self.snapshot.current_skill = if progress.status == BatchStatus::Completed {
                    None
                } else {
                    Some(progress.request.call().name.dup())
                };
            },
            Event::Executed(_) => {
                self.snapshot.current_skill = None;
            },
            _ => {},
        }
    }

    /// Takes notice that the journal cannot be written any more; the first reason stays.
    pub fn log_lost(&mut self, message: String)
        ensures
            final(self)@ == (TaskHandleModel {
                log_error: match old(self)@.log_error {
                    Some(first) => Some(first),
                    None => Some(message@),
                },
                ..old(self)@
            }),
            old(self)@.wf() ==> final(self)@.wf(),
    {
        if self.log_error.is_none() {
            self.log_error = Some(message);
        }
    }

    /// Refuses to go on without a journal.
    pub fn check_log(&self) -> (r: Result<(), Error>)
        ensures
            match r {
                Ok(()) => self@.log_failure() is None,
                Err(error) => self@.log_failure() == Some(error@),
            },
    {
        match &self.log_error {
            Some(message) => Err(Error::Logging(message.dup())),
            None => Ok(()),
        }
    }

    /// What the task does at a safe boundary. A pause holds everything that is pending; the
    /// deadline of a repetition goes on while it lasts.
    pub fn checkpoint(&mut self, deadline: Option<Nanos>, now: Nanos) -> (r: Result<Boundary, Error>)
        requires
            old(self)@.wf(),
        ensures
            final(self)@ == old(self)@.boundary(deadline, now).0,
            final(self)@.wf(),
            match r {
                Ok(boundary) => old(self)@.boundary(deadline, now).1 == Ok::<Boundary, ErrorModel>(
                    boundary,
                ),
                Err(error) => old(self)@.boundary(deadline, now).1 == Err::<Boundary, ErrorModel>(
                    error@,
                ),
            },
    {
        match self.check_log() {
            Ok(()) => {},
            Err(error) => {
                return Err(error);
            },
        }
        let late = match deadline {
            Some(d) => now >= d,
            None => false,
        };
        if self.cancellation.is_cancelled() || late {
            return Ok(Boundary::Go);
        }
        let _ = self.acknowledge();
        if self.snapshot.status == TaskStatus::Paused {
            Ok(Boundary::Hold)
        } else {
            Ok(Boundary::Go)
        }
    }

    /// Takes notice of the end of the run.
    pub fn finish(&mut self, result: &Result<Outcome, Error>, now: Nanos)
        ensures
            final(self)@ == old(self)@.finished(given(*result), now),
            final(self)@.wf(),
    {
        let summary = self.metrics.finish(now);
        let (status, reason) = match result {
            Ok(outcome) => (
                match outcome.status {
                    Status::Completed => TaskStatus::Completed,
                    Status::Failed => TaskStatus::Failed,
                    Status::Cancelled => TaskStatus::Cancelled,
                },
                outcome.reason.dup(),
            ),
            Err(error) => (TaskStatus::Failed, error.message()),
        };
        self.snapshot.status = status;
        self.snapshot.reason = Some(reason);
        self.snapshot.current_skill = None;
        self.snapshot.summary = Some(summary);
    }

    /// The result of a run, or the loss of the journal where it was lost.
    pub fn checked(&self, result: Result<Outcome, Error>) -> (r: Result<Outcome, Error>)
        ensures
            given(r) == (match self@.log_failure() {
                Some(error) => Err(error),
                None => given(result),
            }),
    {
        match self.check_log() {
            Ok(()) => result,
            Err(error) => Err(error),
        }
    }

    /// The result of a run with what the task took, once that is final.
    pub fn summed(&mut self, result: Result<Outcome, Error>, now: Nanos) -> (r: Result<
        Outcome,
        Error,
    >)
        ensures
            final(self)@ == (TaskHandleModel {
                metrics: if result is Ok {
                    old(self)@.metrics.ended(now)
                } else {
                    old(self)@.metrics
                },
                ..old(self)@
            }),
            given(r) == (match given(result) {
                Ok(outcome) => Ok(
                    OutcomeModel { summary: old(self)@.metrics.ended(now).summary, ..outcome },
                ),
                Err(error) => Err(error),
            }),
            old(self)@.wf() ==> final(self)@.wf(),
    {
        match result {
            Ok(outcome) => {
                let mut outcome = outcome;
                outcome.summary = self.metrics.finish(now);
                Ok(outcome)
            },
            Err(error) => Err(error),
        }
    }

    /// Takes notice that the run was dropped before it ended.
    pub fn abandon(&mut self, now: Nanos) -> (r: bool)
        requires
            old(self)@.wf(),
        ensures
            final(self)@.wf(),
            r == !old(self)@.snapshot.status.ended(),
            final(self)@ == (if r {
                TaskHandleModel {
                    cancelled: true,
                    ..old(self)@.finished(
                        Err(
                            ErrorModel::Invalid(
                                "task execution was dropped; action outcome may be unknown"@,
                            ),
                        ),
                        now,
                    )
                }
            } else {
                old(self)@
            }),
    {
        if self.snapshot.status.terminal() {
            return false;
        }
        self.cancellation.cancel();
        let dropped: Result<Outcome, Error> = Err(
            Error::Invalid("task execution was dropped; action outcome may be unknown".to_owned()),
        );
        self.finish(&dropped, now);
        true
    }
}

/// A task that has ended takes no more commands, and no safe boundary changes it.
pub proof fn ended_tasks_take_no_commands(task: TaskHandleModel, deadline: Option<Nanos>, now: Nanos)
    requires
        task.snapshot.status.ended(),
    ensures
        task.paused() == task,
        task.resumed() == task,
        task.cancelling() == task,
        task.boundary(deadline, now).0.snapshot == task.snapshot,
{
}

/// A cancelled task is not held up by a pause: the next safe boundary lets it go to its end.
pub proof fn cancellation_ends_a_pause(task: TaskHandleModel, deadline: Option<Nanos>, now: Nanos)
    requires
        task.wf(),
        task.cancellable(),
        task.log_error is None,
    ensures
        task.cancelling().boundary(deadline, now).1 == Ok::<Boundary, ErrorModel>(Boundary::Go),
        task.cancelling().cancelling() == task.cancelling(),
        task.cancelling().paused() == task.cancelling(),
        task.cancelling().resumed() == task.cancelling(),
{
}

/// A task holds at a safe boundary exactly if a pause was asked for and nothing ends the task,
/// and it goes on after the pause.
pub proof fn pauses_hold_at_safe_boundaries(task: TaskHandleModel, now: Nanos)
    requires
        task.wf(),
        task.pausable(),
        !task.cancelled,
        task.log_error is None,
    ensures
        ({
            let (held, boundary) = task.paused().boundary(None, now);
            &&& boundary == Ok::<Boundary, ErrorModel>(Boundary::Hold)
            &&& held.snapshot.status == TaskStatus::Paused
            &&& held.boundary(None, now).1 == Ok::<Boundary, ErrorModel>(Boundary::Hold)
            &&& held.resumed().boundary(None, now).1 == Ok::<Boundary, ErrorModel>(Boundary::Go)
            &&& task.boundary(None, now).1 == Ok::<Boundary, ErrorModel>(Boundary::Go)
        }),
{
}

/// Without a journal no task goes on.
pub proof fn lost_journals_stop_tasks(task: TaskHandleModel, deadline: Option<Nanos>, now: Nanos)
    requires
        task.log_error is Some,
    ensures
        task.boundary(deadline, now) == (task, Err::<Boundary, ErrorModel>(
            ErrorModel::Logging(task.log_error->0),
        )),
{
}

/// A task has ended exactly if it is completed, failed or cancelled.
pub proof fn tasks_end_in_three_ways(status: TaskStatus)
    ensures
        status.ended() <==> status == TaskStatus::Completed || status == TaskStatus::Failed
            || status == TaskStatus::Cancelled,
{
}

/// A pause can be asked for before or while a task runs, ended while it is asked for or reached,
/// and a task can be cancelled until it has ended. A command that comes at another time changes
/// nothing, and none changes what the task is.
pub proof fn commands_take_effect_in_their_time(task: TaskHandleModel)
    ensures
        ({
            let before = task.snapshot.status;
            let paused = task.paused();
            let resumed = task.resumed();
            let cancelled = task.cancelling();
            &&& if before == TaskStatus::Created || before == TaskStatus::Running {
                paused.snapshot.status == TaskStatus::PauseRequested && paused.pause
                    == PauseState::Requested
            } else {
                paused == task
            }
            &&& if before == TaskStatus::PauseRequested || before == TaskStatus::Paused {
                resumed.snapshot.status == TaskStatus::Running && resumed.pause
                    == PauseState::Running
            } else {
                resumed == task
            }
            &&& if before == TaskStatus::Created || before == TaskStatus::Running || before
                == TaskStatus::PauseRequested || before == TaskStatus::Paused {
                cancelled.snapshot.status == TaskStatus::CancelRequested && cancelled.cancelled
                    && cancelled.pause == PauseState::Running
            } else {
                cancelled == task
            }
            &&& paused.cancelled == task.cancelled && resumed.cancelled == task.cancelled
            &&& paused.snapshot.task_id == task.snapshot.task_id && paused.snapshot.goal
                == task.snapshot.goal
            &&& paused.metrics == task.metrics && cancelled.metrics == task.metrics
        }),
{
}

/// At a safe boundary a task without a journal ends with that error; one that is cancelled or past
/// the deadline goes on to its end; and one that is to pause holds, and is paused then.
pub proof fn boundaries_are_safe(task: TaskHandleModel, deadline: Option<Nanos>, now: Nanos)
    requires
        task.wf(),
        !task.snapshot.status.ended(),
    ensures
        ({
            let (after, boundary) = task.boundary(deadline, now);
            let ending = task.cancelled || (deadline is Some && now >= deadline->0);
            let asked = task.snapshot.status == TaskStatus::PauseRequested || task.snapshot.status
                == TaskStatus::Paused;
            &&& boundary is Err <==> task.log_error is Some
            &&& boundary == Ok::<Boundary, ErrorModel>(Boundary::Hold) <==> task.log_error is None
                && !ending && asked
            &&& boundary == Ok::<Boundary, ErrorModel>(Boundary::Hold) ==> after.snapshot.status
                == TaskStatus::Paused && after.pause == PauseState::Acknowledged
            &&& boundary != Ok::<Boundary, ErrorModel>(Boundary::Hold) ==> after == task
        }),
{
}

/// A task ends as its run did: with its status and reason, with the error as a failure, with no
/// skill under way, and with its counts.
pub proof fn tasks_end_as_their_run_did(
    task: TaskHandleModel,
    result: Result<OutcomeModel, ErrorModel>,
    now: Nanos,
)
    ensures
        ({
            let after = task.finished(result, now);
            &&& after.snapshot.status == match result {
                Ok(outcome) => match outcome.status {
                    Status::Completed => TaskStatus::Completed,
                    Status::Failed => TaskStatus::Failed,
                    Status::Cancelled => TaskStatus::Cancelled,
                },
                Err(_) => TaskStatus::Failed,
            }
            &&& after.snapshot.reason == Some(
                match result {
                    Ok(outcome) => outcome.reason,
                    Err(error) => error.message(),
                },
            )
            &&& after.snapshot.current_skill is None
            &&& after.snapshot.summary == Some(after.metrics.summary)
            &&& after.snapshot.task_id == task.snapshot.task_id
            &&& after.metrics.summary.actions == task.metrics.summary.actions
            &&& after.metrics.summary.model_requests == task.metrics.summary.model_requests
        }),
{
}

/// The skill under way is the one whose action started or that is repeated, until its result is
/// there or the repetition is complete; an execution that is interrupted is counted once.
pub proof fn events_show_the_skill_under_way(task: TaskHandleModel, event: EventModel)
    requires
        task.metrics.summary.interruptions < u64::MAX,
    ensures
        ({
            let after = task.saw(event);
            let interrupted = match event {
                EventModel::ExecutionProgress(progress) => progress.status
                    == ExecutionStatus::Interrupted,
                _ => false,
            };
            &&& after.snapshot.status == task.snapshot.status
            &&& after.snapshot.current_skill == match event {
                EventModel::ActionStarted { call, .. } => Some(call.name),
                EventModel::Executed(_) => None,
                EventModel::BatchProgress(progress) => if progress.status
                    == BatchStatus::Completed {
                    None
                } else {
                    Some(progress.request.call().name)
                },
                _ => task.snapshot.current_skill,
            }
            &&& after.metrics.summary.interruptions == task.metrics.summary.interruptions + (
            if interrupted {
                1int
            } else {
                0
            })
            &&& after.metrics.summary.actions == task.metrics.summary.actions
        }),
{
}

/// A task that starts runs, unless a command came before; its time is counted from then.
pub proof fn tasks_start_running(task_id: Text, goal: Text, now: Nanos)
    ensures
        ({
            let created = TaskHandleModel::created(task_id, goal);
            &&& created.snapshot.status == TaskStatus::Created
            &&& created.snapshot.task_id == task_id
            &&& created.snapshot.goal == goal
            &&& !created.cancelled
            &&& created.started(now).snapshot.status == TaskStatus::Running
            &&& created.started(now).metrics.started == Some(now)
            &&& created.paused().started(now).snapshot.status == TaskStatus::PauseRequested
            &&& created.cancelling().started(now).snapshot.status == TaskStatus::CancelRequested
        }),
{
}

} // verus!
