//! In-memory training program. It owns domain rules and elapsed time, never task decisions.
use crate::clock::Nanos;
use vstd::prelude::*;

verus! {

/// Selects a repeatable demo environment, not an execution plan.
#[derive(Debug, Clone, Copy, PartialEq, Eq, Structural)]
pub enum Scenario {
    Normal,
    TransientFailure,
    Blocked,
    BatchInterrupted,
    BatchBlocked,
    Exploration,
    ExplorationInterrupted,
}

impl Default for Scenario {
    fn default() -> (r: Self)
        ensures
            r == Scenario::Normal,
    {
        Scenario::Normal
    }
}

/// Only observed progress is exposed, not the number of undiscovered items.
#[derive(Debug, Clone, Copy, PartialEq, Eq, Structural)]
pub struct ExplorationSnapshot {
    pub collected: u32,
    pub finished: bool,
    pub needs_reset: bool,
}

#[derive(Debug, Clone, Copy, PartialEq, Eq, Structural)]
pub enum Mode {
    Idle,
    Training,
}

impl Default for Mode {
    fn default() -> (r: Self)
        ensures
            r == Mode::Idle,
    {
        Mode::Idle
    }
}

#[derive(Debug, Clone, Copy, PartialEq, Eq, Structural)]
pub enum TrainingStatus {
    NotStarted,
    Running,
    Completed,
}

/// Concrete program errors; the adapter translates them into tool feedback.
#[derive(Debug, Clone, Copy, PartialEq, Eq, Structural)]
pub enum RuntimeError {
    WrongMode,
    Busy,
    Unavailable,
    AlreadyStarted,
    TrainingInProgress,
    TrialNeedsReset,
    TrialUnavailable,
    ExplorationNeedsReset,
}

/// How long a training takes, in nanoseconds.
pub const TRAINING_TIME: Nanos = 500_000_000;

/// How many items there are to be discovered.
pub const ITEMS: u32 = 3;

/// The state of the program.
#[derive(Debug, Clone, Copy, PartialEq, Eq, Structural)]
pub struct DemoRuntime {
    pub mode: Mode,
    pub scenario: Scenario,
    pub transient_consumed: bool,
    pub started_at: Option<Nanos>,
    pub trial_completed: u32,
    pub trial_successful: u32,
    pub trial_needs_reset: bool,
    pub trial_interruption_used: bool,
    pub exploration: ExplorationSnapshot,
    pub exploration_interruption_used: bool,
}

impl DemoRuntime {
    /// A program that has done nothing yet.
    pub open spec fn fresh(scenario: Scenario) -> Self {
        DemoRuntime {
            mode: Mode::Idle,
            scenario,
            transient_consumed: false,
            started_at: None,
            trial_completed: 0,
            trial_successful: 0,
            trial_needs_reset: false,
            trial_interruption_used: false,
            exploration: ExplorationSnapshot {
                collected: 0,
                finished: false,
                needs_reset: false,
            },
            exploration_interruption_used: false,
        }
    }

    /// What holds of every program.
    pub open spec fn wf(self) -> bool {
        &&& self.trial_successful <= self.trial_completed
        &&& self.exploration.collected <= ITEMS
        &&& self.exploration.finished ==> self.exploration.collected == ITEMS
    }

    /// Whether there is anything to explore.
    pub open spec fn explorable(self) -> bool {
        self.scenario == Scenario::Exploration || self.scenario == Scenario::ExplorationInterrupted
    }

    /// How far the training is at a time.
    pub open spec fn status(self, now: Nanos) -> TrainingStatus {
        match self.started_at {
            None => TrainingStatus::NotStarted,
            Some(start) => if now < start + TRAINING_TIME {
                TrainingStatus::Running
            } else {
                TrainingStatus::Completed
            },
        }
    }

    /// Whether the exploration device breaks down now: once, after the first item.
    pub open spec fn exploration_breaks(self) -> bool {
        self.scenario == Scenario::ExplorationInterrupted && self.exploration.collected == 1
            && !self.exploration_interruption_used
    }

    /// Whether the trial device breaks down now: once, after three trials.
    pub open spec fn trial_breaks(self) -> bool {
        self.scenario == Scenario::BatchInterrupted && self.trial_completed == 3
            && !self.trial_interruption_used
    }

    /// One step of exploration: what comes of the program, and whether the exploration is done.
    pub open spec fn explored(self) -> (Self, Result<bool, RuntimeError>) {
        if !self.explorable() {
            (self, Err(RuntimeError::Unavailable))
        } else if self.exploration.needs_reset {
            (self, Err(RuntimeError::ExplorationNeedsReset))
        } else if self.exploration_breaks() {
            (
                DemoRuntime {
                    exploration_interruption_used: true,
                    exploration: ExplorationSnapshot { needs_reset: true, ..self.exploration },
                    ..self
                },
                Err(RuntimeError::ExplorationNeedsReset),
            )
        } else if self.exploration.collected == ITEMS {
            (
                DemoRuntime {
                    exploration: ExplorationSnapshot { finished: true, ..self.exploration },
                    ..self
                },
                Ok(true),
            )
        } else {
            (
                DemoRuntime {
                    exploration: ExplorationSnapshot {
                        collected: (self.exploration.collected + 1) as u32,
                        ..self.exploration
                    },
                    ..self
                },
                Ok(false),
            )
        }
    }

    /// One trial: what comes of the program, and whether the trial had a result. Every third
    /// has none.
    pub open spec fn tried(self) -> (Self, Result<bool, RuntimeError>) {
        if self.scenario == Scenario::BatchBlocked {
            (self, Err(RuntimeError::TrialUnavailable))
        } else if self.trial_needs_reset {
            (self, Err(RuntimeError::TrialNeedsReset))
        } else if self.trial_breaks() {
            (
                DemoRuntime { trial_interruption_used: true, trial_needs_reset: true, ..self },
                Err(RuntimeError::TrialNeedsReset),
            )
        } else {
            let successful = (self.trial_completed + 1) % 3 != 0;
            (
                DemoRuntime {
                    trial_completed: (self.trial_completed + 1) as u32,
                    trial_successful: if successful {
                        (self.trial_successful + 1) as u32
                    } else {
                        self.trial_successful
                    },
                    ..self
                },
                Ok(successful),
            )
        }
    }

    /// The start of a training: what comes of the program, and whether it started.
    pub open spec fn started(self, now: Nanos) -> (Self, Result<(), RuntimeError>) {
        if self.scenario == Scenario::Blocked {
            (self, Err(RuntimeError::Unavailable))
        } else if self.mode != Mode::Training {
            (self, Err(RuntimeError::WrongMode))
        } else if self.started_at is Some {
            (self, Err(RuntimeError::AlreadyStarted))
        } else if self.scenario == Scenario::TransientFailure && !self.transient_consumed {
            (DemoRuntime { transient_consumed: true, ..self }, Err(RuntimeError::Busy))
        } else {
            (DemoRuntime { started_at: Some(now), ..self }, Ok(()))
        }
    }

    /// A change of mode: what comes of the program, and whether the mode is as asked for.
    pub open spec fn moded(self, mode: Mode, now: Nanos) -> (Self, Result<(), RuntimeError>) {
        if mode != self.mode && self.status(now) == TrainingStatus::Running {
            (self, Err(RuntimeError::TrainingInProgress))
        } else {
            (DemoRuntime { mode, ..self }, Ok(()))
        }
    }

    /// What was explored, where there is anything to explore.
    pub fn exploration_snapshot(&self) -> (r: Option<ExplorationSnapshot>)
        ensures
            r == (if self.explorable() {
                Some(self.exploration)
            } else {
                None
            }),
    {
        if self.scenario == Scenario::Exploration || self.scenario
            == Scenario::ExplorationInterrupted {
            Some(self.exploration)
        } else {
            None
        }
    }

    /// One step of exploration. The program owns discovery and the end, not the host.
    pub fn explore_step(&mut self) -> (r: Result<bool, RuntimeError>)
        requires
            old(self).wf(),
        ensures
            final(self).wf(),
            (*final(self), r) == old(self).explored(),
    {
        if self.exploration_snapshot().is_none() {
            return Err(RuntimeError::Unavailable);
        }
        if self.exploration.needs_reset {
            return Err(RuntimeError::ExplorationNeedsReset);
        }
        if self.scenario == Scenario::ExplorationInterrupted && self.exploration.collected == 1
            && !self.exploration_interruption_used {
            self.exploration_interruption_used = true;
            self.exploration.needs_reset = true;
            return Err(RuntimeError::ExplorationNeedsReset);
        }
        if self.exploration.collected == ITEMS {
            self.exploration.finished = true;
            return Ok(true);
        }
        self.exploration.collected = self.exploration.collected + 1;
        Ok(false)
    }

    /// Restores the exploration device, and keeps what was collected.
    pub fn reset_exploration(&mut self) -> (r: Result<(), RuntimeError>)
        ensures
            old(self).wf() ==> final(self).wf(),
            match r {
                Ok(()) => old(self).exploration.needs_reset && *final(self) == (DemoRuntime {
                    exploration: ExplorationSnapshot {
                        needs_reset: false,
                        ..old(self).exploration
                    },
                    ..*old(self)
                }),
                Err(error) => !old(self).exploration.needs_reset && *final(self) == *old(self)
                    && error == RuntimeError::Unavailable,
            },
    {
        if !self.exploration.needs_reset {
            return Err(RuntimeError::Unavailable);
        }
        self.exploration.needs_reset = false;
        Ok(())
    }

    /// A program that has done nothing yet.
    pub fn new(scenario: Scenario) -> (r: Self)
        ensures
            r == DemoRuntime::fresh(scenario),
            r.wf(),
    {
        DemoRuntime {
            mode: Mode::Idle,
            scenario,
            transient_consumed: false,
            started_at: None,
            trial_completed: 0,
            trial_successful: 0,
            trial_needs_reset: false,
            trial_interruption_used: false,
            exploration: ExplorationSnapshot {
                collected: 0,
                finished: false,
                needs_reset: false,
            },
            exploration_interruption_used: false,
        }
    }

    pub fn mode(&self) -> (r: Mode)
        ensures
            r == self.mode,
    {
        self.mode
    }

    /// Whether the training service can be used.
    pub fn available(&self) -> (r: bool)
        ensures
            r == (self.scenario != Scenario::Blocked),
    {
        self.scenario != Scenario::Blocked
    }

    /// Changes the mode, unless a training is running.
    pub fn set_mode(&mut self, mode: Mode, now: Nanos) -> (r: Result<(), RuntimeError>)
        ensures
            old(self).wf() ==> final(self).wf(),
            (*final(self), r) == old(self).moded(mode, now),
    {
        if mode != self.mode && self.training_status(now) == TrainingStatus::Running {
            return Err(RuntimeError::TrainingInProgress);
        }
        self.mode = mode;
        Ok(())
    }

    /// How far the training is. It completes after elapsed time; looking at it changes nothing.
    pub fn training_status(&self, now: Nanos) -> (r: TrainingStatus)
        ensures
            r == self.status(now),
    {
        match self.started_at {
            None => TrainingStatus::NotStarted,
            Some(start) => if now < start || now - start < TRAINING_TIME {
                TrainingStatus::Running
            } else {
                TrainingStatus::Completed
            },
        }
    }

    /// The trials that were completed, those of them with a result, whether the device is
    /// ready, and whether it needs a reset.
    pub fn trial_snapshot(&self) -> (r: (u32, u32, bool, bool))
        ensures
            r == (
                self.trial_completed,
                self.trial_successful,
                !self.trial_needs_reset && self.scenario != Scenario::BatchBlocked,
                self.trial_needs_reset,
            ),
    {
        (
            self.trial_completed,
            self.trial_successful,
            !self.trial_needs_reset && self.scenario != Scenario::BatchBlocked,
            self.trial_needs_reset,
        )
    }

    /// One trial.
    pub fn perform_trial(&mut self) -> (r: Result<bool, RuntimeError>)
        requires
            old(self).wf(),
            old(self).trial_completed < u32::MAX,
        ensures
            final(self).wf(),
            (*final(self), r) == old(self).tried(),
    {
        if self.scenario == Scenario::BatchBlocked {
            return Err(RuntimeError::TrialUnavailable);
        }
        if self.trial_needs_reset {
            return Err(RuntimeError::TrialNeedsReset);
        }
        if self.scenario == Scenario::BatchInterrupted && self.trial_completed == 3
            && !self.trial_interruption_used {
            self.trial_interruption_used = true;
            self.trial_needs_reset = true;
            return Err(RuntimeError::TrialNeedsReset);
        }
        self.trial_completed = self.trial_completed + 1;
        let successful = self.trial_completed % 3 != 0;
        if successful {
            self.trial_successful = self.trial_successful + 1;
        }
        Ok(successful)
    }

    /// Restores the trial device, and keeps the completed trials.
    pub fn reset_trial(&mut self)
        ensures
            old(self).wf() ==> final(self).wf(),
            *final(self) == (DemoRuntime { trial_needs_reset: false, ..*old(self) }),
    {
        self.trial_needs_reset = false;
    }

    /// Starts the one training of this program.
    pub fn start_training(&mut self, now: Nanos) -> (r: Result<(), RuntimeError>)
        ensures
            old(self).wf() ==> final(self).wf(),
            (*final(self), r) == old(self).started(now),
    {
        if !self.available() {
            return Err(RuntimeError::Unavailable);
        }
        if self.mode != Mode::Training {
            return Err(RuntimeError::WrongMode);
        }
        if self.started_at.is_some() {
            return Err(RuntimeError::AlreadyStarted);
        }
        if self.scenario == Scenario::TransientFailure && !self.transient_consumed {
            self.transient_consumed = true;
            return Err(RuntimeError::Busy);
        }
        self.started_at = Some(now);
        Ok(())
    }
}

/// A training that did not start leaves the training as it was.
pub proof fn failed_starts_preserve_the_training(runtime: DemoRuntime, now: Nanos, later: Nanos)
    ensures
        runtime.started(now).1 is Err ==> runtime.started(now).0.status(later) == runtime.status(
            later,
        ),
{
}

/// A busy training service is busy only once: the next start succeeds.
pub proof fn starts_are_busy_once(runtime: DemoRuntime, now: Nanos, later: Nanos)
    requires
        runtime.started(now).1 == Err::<(), RuntimeError>(RuntimeError::Busy),
    ensures
        runtime.started(now).0.started(later).1 is Ok,
{
}

/// The training of a blocked program never starts.
pub proof fn blocked_trainings_never_start(runtime: DemoRuntime, now: Nanos)
    requires
        runtime.scenario == Scenario::Blocked,
    ensures
        runtime.started(now) == (runtime, Err::<(), RuntimeError>(RuntimeError::Unavailable)),
{
}

/// A training that was started is completed once its time has passed, and stays so.
pub proof fn trainings_complete(runtime: DemoRuntime, start: Nanos, now: Nanos)
    requires
        runtime.started_at == Some(start),
    ensures
        runtime.status(now) == (if now >= start + TRAINING_TIME {
            TrainingStatus::Completed
        } else {
            TrainingStatus::Running
        }),
{
}

/// An interrupted trial counts for nothing, and a reset keeps what was counted; the same
/// device does not break down again.
pub proof fn trial_interruptions_preserve_progress(runtime: DemoRuntime)
    requires
        runtime.trial_breaks(),
        !runtime.trial_needs_reset,
    ensures
        ({
            let broken = runtime.tried().0;
            let reset = DemoRuntime { trial_needs_reset: false, ..broken };
            &&& runtime.tried().1 is Err
            &&& reset.trial_completed == runtime.trial_completed
            &&& reset.trial_successful == runtime.trial_successful
            &&& reset.tried().1 is Ok
        }),
{
}

/// An interrupted exploration loses nothing, and after a reset it goes on.
pub proof fn exploration_interruptions_preserve_progress(runtime: DemoRuntime)
    requires
        runtime.exploration_breaks(),
        !runtime.exploration.needs_reset,
    ensures
        ({
            let broken = runtime.explored().0;
            let reset = DemoRuntime {
                exploration: ExplorationSnapshot { needs_reset: false, ..broken.exploration },
                ..broken
            };
            &&& runtime.explored().1 is Err
            &&& reset.exploration.collected == runtime.exploration.collected
            &&& reset.explored().1 == Ok::<bool, RuntimeError>(false)
        }),
{
}

/// The exploration is confirmed as done exactly when everything was collected and the device
/// works.
pub proof fn explorations_end_when_everything_is_collected(runtime: DemoRuntime)
    requires
        runtime.wf(),
        runtime.explorable(),
    ensures
        runtime.explored().1 == Ok::<bool, RuntimeError>(true) <==> (runtime.exploration.collected
            == ITEMS && !runtime.exploration.needs_reset),
{
}

impl DemoRuntime {
    /// The program after a number of trials.
    pub open spec fn after_trials(self, n: nat) -> Self
        decreases n,
    {
        if n == 0 {
            self
        } else {
            self.after_trials((n - 1) as nat).tried().0
        }
    }

    /// The program after a number of steps of the exploration.
    pub open spec fn after_steps(self, n: nat) -> Self
        decreases n,
    {
        if n == 0 {
            self
        } else {
            self.after_steps((n - 1) as nat).explored().0
        }
    }
}

/// On a device that works every trial counts, and all but every third one are successful.
pub proof fn every_third_trial_fails(scenario: Scenario, n: nat)
    requires
        scenario != Scenario::BatchBlocked,
        scenario != Scenario::BatchInterrupted,
        n < u32::MAX,
    ensures
        ({
            let after = DemoRuntime::fresh(scenario).after_trials(n);
            &&& after.trial_completed == n
            &&& after.trial_successful == n - n / 3
            &&& !after.trial_needs_reset
            &&& after.scenario == scenario
            &&& after.tried().1 == Ok::<bool, RuntimeError>((n + 1) % 3 != 0)
            &&& after.mode == Mode::Idle
            &&& after.started_at is None
        }),
    decreases n,
{
    if n > 0 {
        every_third_trial_fails(scenario, (n - 1) as nat);
    }
}

/// A device that can be interrupted breaks down once, before the fourth trial, and works again
/// only after a reset; a blocked one never works. Neither counts anything then.
pub proof fn broken_devices_need_a_reset(runtime: DemoRuntime)
    ensures
        ({
            let (after, result) = runtime.tried();
            let breaks = runtime.scenario == Scenario::BatchInterrupted && runtime.trial_completed
                == 3 && !runtime.trial_interruption_used;
            &&& result == Err::<bool, RuntimeError>(RuntimeError::TrialUnavailable)
                <==> runtime.scenario == Scenario::BatchBlocked
            &&& result == Err::<bool, RuntimeError>(RuntimeError::TrialNeedsReset)
                <==> runtime.scenario != Scenario::BatchBlocked && (runtime.trial_needs_reset
                || breaks)
            &&& result is Err ==> after.trial_completed == runtime.trial_completed
                && after.trial_successful == runtime.trial_successful
            &&& result == Err::<bool, RuntimeError>(RuntimeError::TrialNeedsReset)
                ==> after.trial_needs_reset
            &&& result is Err ==> result->Err_0 == RuntimeError::TrialUnavailable || result->Err_0
                == RuntimeError::TrialNeedsReset
        }),
{
}

/// An exploration collects one item in each step until it has all three, and is done with the step
/// after that.
pub proof fn explorations_collect_item_by_item(n: nat)
    requires
        n <= 3,
    ensures
        ({
            let after = DemoRuntime::fresh(Scenario::Exploration).after_steps(n);
            &&& after.exploration.collected == n
            &&& !after.exploration.finished
            &&& after.explored().1 == Ok::<bool, RuntimeError>(n == 3)
            &&& n == 3 ==> after.explored().0.exploration.finished
                && after.explored().0.exploration.collected == n
        }),
    decreases n,
{
    if n > 0 {
        explorations_collect_item_by_item((n - 1) as nat);
        lemma_explorations_work((n - 1) as nat);
    }
    lemma_explorations_work(n);
}

proof fn lemma_explorations_work(n: nat)
    ensures
        ({
            let after = DemoRuntime::fresh(Scenario::Exploration).after_steps(n);
            after.scenario == Scenario::Exploration && !after.exploration.needs_reset
        }),
    decreases n,
{
    if n > 0 {
        lemma_explorations_work((n - 1) as nat);
    }
}

/// An exploration that can be interrupted breaks down once, after its first item, and goes on only
/// after a reset. Only the programs with an exploration have one.
pub proof fn broken_explorations_need_a_reset(runtime: DemoRuntime)
    requires
        runtime.wf(),
    ensures
        ({
            let (after, result) = runtime.explored();
            let breaks = runtime.scenario == Scenario::ExplorationInterrupted
                && runtime.exploration.collected == 1 && !runtime.exploration_interruption_used;
            let explores = runtime.scenario == Scenario::Exploration || runtime.scenario
                == Scenario::ExplorationInterrupted;
            &&& result == Err::<bool, RuntimeError>(RuntimeError::Unavailable) <==> !explores
            &&& result == Err::<bool, RuntimeError>(RuntimeError::ExplorationNeedsReset) <==> explores && (
            runtime.exploration.needs_reset || breaks)
            &&& result is Err ==> after.exploration.collected == runtime.exploration.collected
            &&& result == Err::<bool, RuntimeError>(RuntimeError::ExplorationNeedsReset)
                ==> after.exploration.needs_reset
        }),
{
}

/// A training starts in training mode, once, unless the program is blocked or busy for the first
/// time; it then runs for its time and is completed after that.
pub proof fn trainings_start_in_training_mode(runtime: DemoRuntime, now: Nanos, later: Nanos)
    ensures
        ({
            let (after, result) = runtime.started(now);
            let busy = runtime.scenario == Scenario::TransientFailure
                && !runtime.transient_consumed;
            &&& result is Ok <==> runtime.scenario != Scenario::Blocked && runtime.mode
                == Mode::Training && runtime.started_at is None && !busy
            &&& result is Ok ==> after.status(later) == if later < now + 500_000_000 {
                TrainingStatus::Running
            } else {
                TrainingStatus::Completed
            }
            &&& after.mode == runtime.mode
            &&& result == Err::<(), RuntimeError>(RuntimeError::WrongMode) ==> runtime.mode
                != Mode::Training
            &&& result == Err::<(), RuntimeError>(RuntimeError::AlreadyStarted)
                ==> runtime.started_at is Some
            &&& result == Err::<(), RuntimeError>(RuntimeError::Busy) ==> busy
        }),
        runtime.started_at is None ==> runtime.status(now) == TrainingStatus::NotStarted,
{
}

/// The mode changes to the one that is asked for, unless a training runs in another.
pub proof fn modes_change_unless_a_training_runs(runtime: DemoRuntime, mode: Mode, now: Nanos)
    ensures
        ({
            let (after, result) = runtime.moded(mode, now);
            let running = runtime.started_at is Some && now < runtime.started_at->0 + 500_000_000;
            &&& result is Err <==> running && mode != runtime.mode
            &&& result is Ok ==> after.mode == mode
            &&& result is Err ==> after == runtime
            &&& after.started_at == runtime.started_at
            &&& after.trial_completed == runtime.trial_completed
        }),
{
}

} // verus!
