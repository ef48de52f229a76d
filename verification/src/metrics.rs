//! Task-scoped counts at actual request and call boundaries.
use crate::api::{ActionReport, ActionReportModel, AdapterError, AdapterErrorModel};
use crate::clock::Nanos;
use crate::copy::Dup;
use crate::failure_guard::answer;
use vstd::prelude::*;

verus! {

/// Calls begun, and how those ended that have.
#[derive(Debug, Clone, Copy, PartialEq, Eq, Structural)]
pub struct CallCounts {
    pub total: u64,
    pub succeeded: u64,
    /// Counts errors, interruptions, and calls dropped before a normal result.
    pub failed: u64,
}

/// What a task took.
#[derive(Debug, Clone, Copy, PartialEq, Eq, Structural)]
pub struct TaskSummary {
    pub model_requests: CallCounts,
    pub actions: CallCounts,
    pub interruptions: u64,
    /// Wall-clock runtime, including waits and pauses, excluding time before the run.
    pub elapsed_ms: u64,
}

impl DeepView for TaskSummary {
    type V = TaskSummary;

    open spec fn deep_view(&self) -> TaskSummary {
        *self
    }
}

impl Dup for TaskSummary {
    fn dup(&self) -> (r: Self) {
        *self
    }
}

impl CallCounts {
    /// No call has ended that was not begun.
    pub open spec fn wf(self) -> bool {
        self.succeeded + self.failed <= self.total
    }

    /// A call is under way.
    pub open spec fn open_call(self) -> bool {
        self.succeeded + self.failed < self.total
    }
}

impl Default for CallCounts {
    fn default() -> (r: Self)
        ensures
            r == (CallCounts { total: 0, succeeded: 0, failed: 0 }),
    {
        CallCounts { total: 0, succeeded: 0, failed: 0 }
    }
}

impl Default for TaskSummary {
    fn default() -> (r: Self)
        ensures
            r == crate::run_model::no_summary(),
    {
        TaskSummary {
            model_requests: CallCounts::default(),
            actions: CallCounts::default(),
            interruptions: 0,
            elapsed_ms: 0,
        }
    }
}

/// What is counted.
#[derive(Debug, Clone, Copy, PartialEq, Eq, Structural)]
pub enum CallKind {
    Model,
    Action,
}

impl TaskSummary {
    /// The counts of one kind of call.
    pub open spec fn of(self, kind: CallKind) -> CallCounts {
        match kind {
            CallKind::Model => self.model_requests,
            CallKind::Action => self.actions,
        }
    }

    /// The summary with other counts of one kind of call.
    pub open spec fn with(self, kind: CallKind, counts: CallCounts) -> TaskSummary {
        match kind {
            CallKind::Model => TaskSummary { model_requests: counts, ..self },
            CallKind::Action => TaskSummary { actions: counts, ..self },
        }
    }
}

impl CallKind {
    /// The counts of this kind of call.
    pub fn counts(self, summary: &mut TaskSummary) -> (r: &mut CallCounts)
        ensures
            *r == old(summary).of(self),
            *final(summary) == old(summary).with(self, *final(r)),
    {
        match self {
            CallKind::Model => &mut summary.model_requests,
            CallKind::Action => &mut summary.actions,
        }
    }
}

/// The counts of a task as contracts see them.
#[verifier::ext_equal]
pub struct TaskMetricsModel {
    pub summary: TaskSummary,
    pub started: Option<Nanos>,
    pub finished: bool,
}

/// Each task owns a fresh instance. Instants are nanoseconds of the host's monotonic clock.
#[derive(Debug)]
pub struct TaskMetrics {
    summary: TaskSummary,
    started: Option<Nanos>,
    finished: bool,
}

impl View for TaskMetrics {
    type V = TaskMetricsModel;

    closed spec fn view(&self) -> TaskMetricsModel {
        TaskMetricsModel {
            summary: self.summary,
            started: self.started,
            finished: self.finished,
        }
    }
}

/// A number, or the largest one where it is larger.
pub open spec fn clamped(n: int) -> u64 {
    if n <= u64::MAX {
        n as u64
    } else {
        u64::MAX
    }
}

impl TaskMetricsModel {
    /// Whole milliseconds between the start and an instant; none before the start.
    pub open spec fn elapsed_ms(self, now: Nanos) -> u64 {
        match self.started {
            Some(start) => if now >= start {
                clamped((now - start) / 1_000_000)
            } else {
                0
            },
            None => 0,
        }
    }

    /// The counts once the task has ended: only the first end sets the runtime.
    pub open spec fn ended(self, now: Nanos) -> Self {
        if self.finished {
            self
        } else {
            TaskMetricsModel {
                summary: TaskSummary { elapsed_ms: self.elapsed_ms(now), ..self.summary },
                finished: true,
                ..self
            }
        }
    }

    /// One more call is under way.
    pub open spec fn begun(self, kind: CallKind) -> Self {
        let counts = self.summary.of(kind);
        TaskMetricsModel {
            summary: self.summary.with(
                kind,
                CallCounts { total: (counts.total + 1) as u64, ..counts },
            ),
            ..self
        }
    }

    /// One call that was under way has ended.
    pub open spec fn settled(self, kind: CallKind, success: bool) -> Self {
        let counts = self.summary.of(kind);
        TaskMetricsModel {
            summary: self.summary.with(
                kind,
                if success {
                    CallCounts { succeeded: (counts.succeeded + 1) as u64, ..counts }
                } else {
                    CallCounts { failed: (counts.failed + 1) as u64, ..counts }
                },
            ),
            ..self
        }
    }

    /// No call has ended that was not begun.
    pub open spec fn wf(self) -> bool {
        self.summary.model_requests.wf() && self.summary.actions.wf()
    }
}

impl Default for TaskMetrics {
    fn default() -> (r: Self)
        ensures
            r@ == (TaskMetricsModel {
                summary: crate::run_model::no_summary(),
                started: None,
                finished: false,
            }),
    {
        TaskMetrics { summary: TaskSummary::default(), started: None, finished: false }
    }
}

impl TaskMetrics {
    /// The task starts.
    pub fn start(&mut self, now: Nanos)
        ensures
            final(self)@ == (TaskMetricsModel { started: Some(now), ..old(self)@ }),
    {
        self.started = Some(now);
    }

    /// The task has ended; the first call fixes its runtime.
    pub fn finish(&mut self, now: Nanos) -> (r: TaskSummary)
        ensures
            final(self)@ == old(self)@.ended(now),
            r == final(self)@.summary,
    {
        if !self.finished {
            self.summary.elapsed_ms =
            match self.started {
                Some(start) => if now >= start {
                    let ms: Nanos = (now - start) / 1_000_000;
                    if ms <= u64::MAX as Nanos {
                        ms as u64
                    } else {
                        u64::MAX
                    }
                } else {
                    0
                },
                None => 0,
            };
            self.finished = true;
        }
        self.summary
    }

    /// An execution was interrupted.
    pub fn interrupted(&mut self)
        requires
            old(self)@.summary.interruptions < u64::MAX,
        ensures
            final(self)@ == (TaskMetricsModel {
                summary: TaskSummary {
                    interruptions: (old(self)@.summary.interruptions + 1) as u64,
                    ..old(self)@.summary
                },
                ..old(self)@
            }),
    {
        self.summary.interruptions = self.summary.interruptions + 1;
    }

    /// A model request is about to be sent.
    pub fn model_request(&mut self) -> (r: CallGuard)
        requires
            old(self)@.summary.model_requests.total < u64::MAX,
        ensures
            final(self)@ == old(self)@.begun(CallKind::Model),
            r.kind() == CallKind::Model,
    {
        self.begin(CallKind::Model)
    }

    /// A call is about to be made.
    pub fn begin(&mut self, kind: CallKind) -> (r: CallGuard)
        requires
            old(self)@.summary.of(kind).total < u64::MAX,
        ensures
            final(self)@ == old(self)@.begun(kind),
            r.kind() == kind,
    {
        let counts: &mut CallCounts = kind.counts(&mut self.summary);
        counts.total = counts.total + 1;
        CallGuard { kind }
    }

    /// What was counted so far.
    pub fn summary(&self) -> (r: TaskSummary)
        ensures
            r == self@.summary,
    {
        self.summary
    }
}

/// A call under way, to be settled exactly once.
#[must_use]
#[derive(Debug)]
pub struct CallGuard {
    kind: CallKind,
}

impl CallGuard {
    /// What is counted.
    pub closed spec fn kind(self) -> CallKind {
        self.kind
    }

    /// The call ended normally.
    pub fn success(self, metrics: &mut TaskMetrics)
        requires
            old(metrics)@.summary.of(self.kind()).open_call(),
        ensures
            final(metrics)@ == old(metrics)@.settled(self.kind(), true),
    {
        let counts: &mut CallCounts = self.kind.counts(&mut metrics.summary);
        counts.succeeded = counts.succeeded + 1;
    }

    /// The call failed, was interrupted or was dropped.
    pub fn failure(self, metrics: &mut TaskMetrics)
        requires
            old(metrics)@.summary.of(self.kind()).open_call(),
        ensures
            final(metrics)@ == old(metrics)@.settled(self.kind(), false),
    {
        let counts: &mut CallCounts = self.kind.counts(&mut metrics.summary);
        counts.failed = counts.failed + 1;
    }
}

/// Whether an adapter ended a step normally.
pub open spec fn ended_normally(report: Result<ActionReportModel, AdapterErrorModel>) -> bool {
    report matches Ok(report) && report.outcome.normal()
}

impl CallGuard {
    /// The call of an adapter ended: normally, or interrupted or with an error.
    pub fn settle(self, report: &Result<ActionReport, AdapterError>, metrics: &mut TaskMetrics)
        requires
            old(metrics)@.summary.of(self.kind()).open_call(),
        ensures
            final(metrics)@ == old(metrics)@.settled(
                self.kind(),
                ended_normally(answer(*report)),
            ),
    {
        let normal = match report {
            Ok(report) => report.outcome.is_normal(),
            Err(_) => false,
        };
        if normal {
            self.success(metrics);
        } else {
            self.failure(metrics);
        }
    }
}

/// Beginning a call and settling it keeps the books: one more call, ended one way, and the
/// other kind of call untouched.
pub proof fn a_settled_call_is_counted_once(
    metrics: TaskMetricsModel,
    kind: CallKind,
    success: bool,
)
    requires
        metrics.wf(),
        metrics.summary.of(kind).total < u64::MAX,
    ensures
        metrics.begun(kind).summary.of(kind).open_call(),
        metrics.begun(kind).settled(kind, success).wf(),
        metrics.begun(kind).settled(kind, success).summary.of(kind).total == metrics.summary.of(
            kind,
        ).total + 1,
        metrics.begun(kind).settled(kind, success).summary.of(kind).succeeded
            == metrics.summary.of(kind).succeeded + (if success {
            1int
        } else {
            0int
        }),
        forall|other: CallKind|
            other != kind ==> #[trigger] metrics.begun(kind).settled(kind, success).summary.of(other)
                == metrics.summary.of(other),
{
}

/// The runtime is fixed by the first end.
pub proof fn only_the_first_end_counts(metrics: TaskMetricsModel, first: Nanos, later: Nanos)
    ensures
        metrics.ended(first).ended(later) == metrics.ended(first),
{
}

/// The runtime of a task is the whole milliseconds from its start to its end.
pub proof fn runtimes_are_whole_milliseconds(
    metrics: TaskMetricsModel,
    start: Nanos,
    now: Nanos,
    ms: u64,
)
    requires
        metrics.started == Some(start),
        !metrics.finished,
        start + ms * 1_000_000 <= now < start + (ms + 1) * 1_000_000,
    ensures
        metrics.ended(now).summary.elapsed_ms == ms,
        metrics.ended(now).summary.actions == metrics.summary.actions,
        metrics.ended(now).summary.model_requests == metrics.summary.model_requests,
        metrics.ended(now).summary.interruptions == metrics.summary.interruptions,
{
    let span = now - start;
    assert(span / 1_000_000 == ms as int) by (nonlinear_arith)
        requires
            ms * 1_000_000 <= span < (ms + 1) * 1_000_000,
    ;
}

/// A call that is begun counts at once; when it is settled it counts as succeeded or as failed,
/// and never as both.
pub proof fn calls_are_settled_one_way(metrics: TaskMetricsModel, kind: CallKind, success: bool)
    requires
        metrics.wf(),
        metrics.summary.of(kind).total < u64::MAX,
    ensures
        ({
            let before = metrics.summary.of(kind);
            let begun = metrics.begun(kind).summary.of(kind);
            let after = metrics.begun(kind).settled(kind, success).summary.of(kind);
            &&& begun.total == before.total + 1
            &&& begun.succeeded == before.succeeded && begun.failed == before.failed
            &&& after.total == begun.total
            &&& success ==> after.succeeded == before.succeeded + 1 && after.failed == before.failed
            &&& !success ==> after.failed == before.failed + 1 && after.succeeded
                == before.succeeded
        }),
        metrics.summary.of(CallKind::Model) == metrics.summary.model_requests,
        metrics.summary.of(CallKind::Action) == metrics.summary.actions,
{
}

/// An action counts as succeeded exactly if its adapter reported a normal end of the step.
pub proof fn normal_ends_count_as_succeeded(report: Result<ActionReportModel, AdapterErrorModel>)
    ensures
        ended_normally(report) <==> match report {
            Ok(report) => report.outcome is Completed || report.outcome is Continue,
            Err(_) => false,
        },
{
}

} // verus!
