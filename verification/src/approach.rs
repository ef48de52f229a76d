//! Bounded, one-step approach decisions over observations that an adapter supplies.
use crate::automation::{Error, ErrorModel};
use crate::copy::Dup;
use vstd::prelude::*;

verus! {

/// A number of single precision, held by its bits: no arithmetic is done on it here.
#[derive(Debug, Clone, Copy, PartialEq, Eq, Structural)]
pub struct Single {
    pub bits: u32,
}

impl DeepView for Single {
    type V = Single;

    open spec fn deep_view(&self) -> Single {
        *self
    }
}

impl Dup for Single {
    fn dup(&self) -> (r: Self) {
        *self
    }
}

impl Single {
    /// The bits without the sign. They are ordered as the numbers without their signs are.
    pub open spec fn magnitude(self) -> int {
        self.bits as int % 0x8000_0000
    }

    /// Neither infinite nor no number.
    pub open spec fn finite(self) -> bool {
        self.magnitude() < 0x7f80_0000
    }

    /// Below zero.
    pub open spec fn negative(self) -> bool {
        self.bits > 0x8000_0000
    }

    /// Whether the sign bit is set, which it is for a negative zero too.
    pub open spec fn signed(self) -> bool {
        self.bits >= 0x8000_0000
    }

    fn size(&self) -> (r: u32)
        ensures
            r == self.magnitude(),
    {
        self.bits % 0x8000_0000
    }
}

/// The bits of one.
pub const ONE: u32 = 0x3f80_0000;

/// Stable identity assigned by the adapter for one target within an approach attempt.
#[derive(Debug, Clone, Copy, PartialEq, Eq, Structural)]
pub struct TargetRef(pub u64);

impl DeepView for TargetRef {
    type V = TargetRef;

    open spec fn deep_view(&self) -> TargetRef {
        *self
    }
}

impl Dup for TargetRef {
    fn dup(&self) -> (r: Self) {
        *self
    }
}

/// What is to be approached.
#[derive(Debug, Clone, Copy, PartialEq, Eq, Structural)]
pub struct ApproachGoal {
    pub target: TargetRef,
}

/// Values are measured and normalized by the adapter, not inferred by the controller.
#[derive(Debug, Clone, Copy, PartialEq, Eq, Structural)]
pub struct ObservedTarget {
    pub id: TargetRef,
    /// Minus one is the left edge, zero the desired center, one the right edge.
    pub horizontal_offset: Single,
    /// A distance estimate of the adapter; lower means closer.
    pub range: Option<Single>,
}

impl ObservedTarget {
    /// An offset on the screen, and no distance below zero.
    pub open spec fn sound(self) -> bool {
        &&& self.horizontal_offset.magnitude() <= ONE
        &&& self.range matches Some(range) ==> range.finite() && !range.negative()
    }

    fn is_sound(&self) -> (r: bool)
        ensures
            r == self.sound(),
    {
        self.horizontal_offset.size() <= ONE && match self.range {
            Some(range) => range.size() < 0x7f80_0000 && !(range.bits > 0x8000_0000),
            None => true,
        }
    }
}

/// The targets that one frame shows.
#[derive(Debug)]
pub struct Observation {
    pub targets: Vec<ObservedTarget>,
}

#[derive(Debug, Clone, Copy, PartialEq, Eq, Structural)]
pub struct ApproachConfig {
    /// Signed calibration: relative mouse pixels for a full-screen horizontal offset.
    pub turn_pixels_per_offset: Single,
    pub center_tolerance: Single,
    pub max_turn_pixels: i32,
    pub move_ms: u64,
    pub max_missing_observations: u32,
    /// Applied only when the adapter supplies comparable range estimates.
    pub min_range_progress: Single,
    pub max_stalled_moves: u32,
}

impl ApproachConfig {
    /// A calibration that turns, a tolerance below the edge, and positive limits.
    pub open spec fn sound(self) -> bool {
        &&& self.turn_pixels_per_offset.finite()
        &&& self.turn_pixels_per_offset.magnitude() != 0
        &&& !self.center_tolerance.negative()
        &&& self.center_tolerance.magnitude() < ONE
        &&& self.max_turn_pixels > 0
        &&& self.move_ms != 0
        &&& self.min_range_progress.finite()
        &&& !self.min_range_progress.negative()
        &&& self.max_stalled_moves != 0
    }

    fn validate(&self) -> (r: Result<(), Error>)
        ensures
            match r {
                Ok(()) => self.sound(),
                Err(error) => !self.sound() && error@ == ErrorModel::Invalid(
                    "invalid approach configuration"@,
                ),
            },
    {
        if self.turn_pixels_per_offset.size() >= 0x7f80_0000 || self.turn_pixels_per_offset.size()
            == 0 || self.center_tolerance.bits > 0x8000_0000 || self.center_tolerance.size() >= ONE
            || self.max_turn_pixels <= 0 || self.move_ms == 0 || self.min_range_progress.size()
            >= 0x7f80_0000 || self.min_range_progress.bits > 0x8000_0000 || self.max_stalled_moves
            == 0 {
            return Err(Error::Invalid("invalid approach configuration".to_owned()));
        }
        Ok(())
    }
}

/// Why an approach cannot go on.
#[derive(Debug, Clone, Copy, PartialEq, Eq, Structural)]
pub enum Failure {
    TargetLost,
    NoProgress,
}

/// The one thing to do before the next observation.
#[derive(Debug, Clone, Copy, PartialEq, Eq, Structural)]
pub enum Decision {
    Turn { dx: i32 },
    Move { duration_ms: u64 },
    ObserveAgain,
    Blocked(Failure),
}

/// What the host computes of the target's numbers.
#[derive(Debug, Clone, Copy, PartialEq, Eq, Structural)]
pub struct Measured {
    /// The range before the last move exceeds the range now by less than the configured
    /// progress. It counts only where both are there.
    pub stalled: bool,
    /// The offset times the calibration without its sign, rounded to an integer.
    pub pixels: u32,
}

/// Keeps one target in the center and closes in on it, for as long as that works.
#[derive(Debug, Clone, Copy, PartialEq, Eq, Structural)]
pub struct ApproachController {
    pub goal: ApproachGoal,
    pub config: ApproachConfig,
    pub missing: u32,
    pub stalled: u32,
    pub range_before_move: Option<Single>,
    pub terminal: Option<Decision>,
}

/// How many of the targets are the one that is approached.
pub open spec fn sightings(targets: Seq<ObservedTarget>, goal: TargetRef) -> nat
    decreases targets.len(),
{
    if targets.len() == 0 {
        0
    } else {
        sightings(targets.drop_last(), goal) + (if targets.last().id == goal {
            1nat
        } else {
            0nat
        })
    }
}

/// The last of the targets that is the one that is approached.
pub open spec fn sighted(targets: Seq<ObservedTarget>, goal: TargetRef) -> Option<ObservedTarget>
    decreases targets.len(),
{
    if targets.len() == 0 {
        None
    } else if targets.last().id == goal {
        Some(targets.last())
    } else {
        sighted(targets.drop_last(), goal)
    }
}

proof fn lemma_sightings(targets: Seq<ObservedTarget>, goal: TargetRef, n: int)
    requires
        0 <= n <= targets.len(),
    ensures
        sightings(targets.take(n), goal) <= sightings(targets, goal),
    decreases targets.len(),
{
    if n < targets.len() {
        assert(targets.drop_last().take(n) =~= targets.take(n));
        lemma_sightings(targets.drop_last(), goal, n);
    } else {
        assert(targets.take(n) =~= targets);
    }
}

/// Whether the product of two numbers that are not zero is below zero.
pub open spec fn opposed(a: Single, b: Single) -> bool {
    a.signed() != b.signed()
}

/// How far to turn: as far as was measured, within bounds, and at least by a pixel.
pub open spec fn turn_size(pixels: u32, bound: i32) -> int {
    if pixels == 0 {
        1
    } else if pixels > bound {
        bound as int
    } else {
        pixels as int
    }
}

/// The pixels of a turn, in the direction of the offset times the calibration.
pub open spec fn turn_of(offset: Single, config: ApproachConfig, measured: Measured) -> i32 {
    let size = turn_size(measured.pixels, config.max_turn_pixels);
    if opposed(offset, config.turn_pixels_per_offset) {
        (-size) as i32
    } else {
        size as i32
    }
}

impl ApproachController {
    /// What holds of every controller.
    pub open spec fn wf(self) -> bool {
        &&& self.config.sound()
        &&& self.missing <= self.config.max_missing_observations
        &&& self.stalled <= self.config.max_stalled_moves
        &&& self.terminal is None ==> self.stalled < self.config.max_stalled_moves
        &&& self.terminal matches Some(decision) ==> decision is Blocked
    }

    /// The target is not in sight.
    pub open spec fn unsighted(self) -> (Self, Decision) {
        let cleared = ApproachController { range_before_move: None, stalled: 0, ..self };
        if self.missing >= self.config.max_missing_observations {
            let decision = Decision::Blocked(Failure::TargetLost);
            (ApproachController { terminal: Some(decision), ..cleared }, decision)
        } else {
            (
                ApproachController { missing: (self.missing + 1) as u32, ..cleared },
                Decision::ObserveAgain,
            )
        }
    }

    /// The target is in sight.
    pub open spec fn approached(self, target: ObservedTarget, measured: Measured) -> (
        Self,
        Decision,
    ) {
        let stuck = self.range_before_move is Some && target.range is Some && measured.stalled;
        let next = ApproachController {
            missing: 0,
            range_before_move: None,
            stalled: if stuck {
                (self.stalled + 1) as u32
            } else {
                0
            },
            ..self
        };
        if stuck && next.stalled >= self.config.max_stalled_moves {
            let decision = Decision::Blocked(Failure::NoProgress);
            (ApproachController { terminal: Some(decision), ..next }, decision)
        } else if target.horizontal_offset.magnitude() > self.config.center_tolerance.magnitude() {
            (next, Decision::Turn { dx: turn_of(target.horizontal_offset, self.config, measured) })
        } else {
            (next, Decision::Move { duration_ms: self.config.move_ms })
        }
    }

    /// What follows from an observation.
    pub open spec fn stepped(self, targets: Seq<ObservedTarget>, measured: Measured) -> (
        Self,
        Result<Decision, ErrorModel>,
    ) {
        if self.terminal is Some {
            (self, Ok(self.terminal->0))
        } else if sightings(targets, self.goal.target) > 1 {
            (self, Err(ErrorModel::Invalid("duplicate target observation"@)))
        } else {
            match sighted(targets, self.goal.target) {
                None => {
                    let (next, decision) = self.unsighted();
                    (next, Ok(decision))
                },
                Some(target) => if !target.sound() {
                    (self, Err(ErrorModel::Invalid("invalid target observation"@)))
                } else {
                    let (next, decision) = self.approached(target, measured);
                    (next, Ok(decision))
                },
            }
        }
    }

    /// A controller for a goal.
    pub fn new(goal: ApproachGoal, config: ApproachConfig) -> (r: Result<Self, Error>)
        ensures
            match r {
                Ok(controller) => config.sound() && controller.wf() && controller == (
                ApproachController {
                    goal,
                    config,
                    missing: 0,
                    stalled: 0,
                    range_before_move: None,
                    terminal: None,
                }),
                Err(error) => !config.sound() && error@ == ErrorModel::Invalid(
                    "invalid approach configuration"@,
                ),
            },
    {
        match config.validate() {
            Ok(()) => {},
            Err(error) => {
                return Err(error);
            },
        }
        Ok(
            ApproachController {
                goal,
                config,
                missing: 0,
                stalled: 0,
                range_before_move: None,
                terminal: None,
            },
        )
    }

    /// The target that is approached, if the observation shows it exactly once or not at all.
    pub fn sight(&self, observation: &Observation) -> (r: Result<Option<ObservedTarget>, Error>)
        ensures
            match r {
                Ok(target) => sightings(observation.targets@, self.goal.target) <= 1 && target
                    == sighted(observation.targets@, self.goal.target),
                Err(error) => sightings(observation.targets@, self.goal.target) > 1 && error@
                    == ErrorModel::Invalid("duplicate target observation"@),
            },
    {
        let ghost all = observation.targets@;
        let ghost goal = self.goal.target;
        let mut target: Option<ObservedTarget> = None;
        let mut i: usize = 0;
        while i < observation.targets.len()
            invariant
                i <= observation.targets@.len(),
                all == observation.targets@,
                goal == self.goal.target,
                target == sighted(all.take(i as int), goal),
                sightings(all.take(i as int), goal) == (if target is Some {
                    1nat
                } else {
                    0nat
                }),
            decreases observation.targets@.len() - i,
        {
            let candidate = observation.targets[i];
            assert(all.take(i + 1).drop_last() =~= all.take(i as int));
            assert(all.take(i + 1).last() == candidate);
            if candidate.id == self.goal.target {
                if target.is_some() {
                    proof {
                        lemma_sightings(all, goal, i + 1);
                    }
                    return Err(Error::Invalid("duplicate target observation".to_owned()));
                }
                target = Some(candidate);
            }
            i += 1;
        }
        assert(all.take(i as int) =~= all);
        Ok(target)
    }

    /// Decides on a fresh observation. The caller executes what is returned, then observes
    /// again.
    pub fn step(&mut self, observation: &Observation, measured: Measured) -> (r: Result<
        Decision,
        Error,
    >)
        requires
            old(self).wf(),
        ensures
            final(self).wf(),
            *final(self) == old(self).stepped(observation.targets@, measured).0,
            match r {
                Ok(decision) => old(self).stepped(observation.targets@, measured).1 == Ok::<
                    Decision,
                    ErrorModel,
                >(decision),
                Err(error) => old(self).stepped(observation.targets@, measured).1 == Err::<
                    Decision,
                    ErrorModel,
                >(error@),
            },
    {
        if let Some(decision) = self.terminal {
            return Ok(decision);
        }
        let sighted = match self.sight(observation) {
            Ok(sighted) => sighted,
            Err(error) => {
                return Err(error);
            },
        };
        let target = match sighted {
            Some(target) => target,
            None => {
                self.range_before_move = None;
                self.stalled = 0;
                if self.missing >= self.config.max_missing_observations {
                    let decision = Decision::Blocked(Failure::TargetLost);
                    self.terminal = Some(decision);
                    return Ok(decision);
                }
                self.missing = self.missing + 1;
                return Ok(Decision::ObserveAgain);
            },
        };
        if !target.is_sound() {
            return Err(Error::Invalid("invalid target observation".to_owned()));
        }
        self.missing = 0;
        let stuck = self.range_before_move.is_some() && target.range.is_some() && measured.stalled;
        self.range_before_move = None;
        if stuck {
            self.stalled = self.stalled + 1;
            if self.stalled >= self.config.max_stalled_moves {
                let decision = Decision::Blocked(Failure::NoProgress);
                self.terminal = Some(decision);
                return Ok(decision);
            }
        } else {
            self.stalled = 0;
        }
        if target.horizontal_offset.size() > self.config.center_tolerance.size() {
            let bound: i32 = self.config.max_turn_pixels;
            let size: i32 = if measured.pixels == 0 {
                1
            } else if measured.pixels > bound as u32 {
                bound
            } else {
                measured.pixels as i32
            };
            let opposed: bool = (target.horizontal_offset.bits >= 0x8000_0000) != (
            self.config.turn_pixels_per_offset.bits >= 0x8000_0000);
            Ok(
                Decision::Turn {
                    dx: if opposed {
                        -size
                    } else {
                        size
                    },
                },
            )
        } else {
            Ok(Decision::Move { duration_ms: self.config.move_ms })
        }
    }

    /// Records evidence for progress, only after the platform confirms the input finished.
    pub fn move_completed(&mut self, observed_range: Option<Single>)
        requires
            old(self).wf(),
        ensures
            final(self).wf(),
            *final(self) == (ApproachController {
                range_before_move: observed_range,
                ..*old(self)
            }),
    {
        self.range_before_move = observed_range;
    }

    /// An interrupted input may have taken effect: comparisons with old frames are discarded.
    pub fn input_interrupted(&mut self)
        requires
            old(self).wf(),
        ensures
            final(self).wf(),
            *final(self) == (ApproachController {
                range_before_move: None,
                stalled: 0,
                ..*old(self)
            }),
    {
        self.range_before_move = None;
        self.stalled = 0;
    }
}

/// Once a step says that the approach is blocked, every later one says so for the same reason,
/// whatever it observes, and changes nothing more.
pub proof fn blocked_approaches_stay_blocked(
    controller: ApproachController,
    targets: Seq<ObservedTarget>,
    measured: Measured,
    later: Seq<ObservedTarget>,
    remeasured: Measured,
)
    requires
        controller.wf(),
    ensures
        ({
            let (blocked, decided) = controller.stepped(targets, measured);
            decided matches Ok(Decision::Blocked(failure)) ==> blocked.terminal == Some(
                Decision::Blocked(failure),
            ) && blocked.stepped(later, remeasured) == (blocked, decided)
        }),
{
}

/// The target is turned to exactly while it is off the center, in the direction of its offset
/// times the calibration, by a pixel at least and by no more than configured. It is moved to only
/// in the center, for the configured time.
pub proof fn decisions_fit_the_offset(
    controller: ApproachController,
    targets: Seq<ObservedTarget>,
    measured: Measured,
)
    requires
        controller.wf(),
    ensures
        match controller.stepped(targets, measured).1 {
            Ok(Decision::Turn { dx }) => {
                let config = controller.config;
                &&& sighted(targets, controller.goal.target) matches Some(target)
                &&& target.horizontal_offset.magnitude() > config.center_tolerance.magnitude()
                &&& -config.max_turn_pixels <= dx <= config.max_turn_pixels
                &&& if opposed(target.horizontal_offset, config.turn_pixels_per_offset) {
                    dx < 0
                } else {
                    dx > 0
                }
            },
            Ok(Decision::Move { duration_ms }) => {
                &&& sighted(targets, controller.goal.target) matches Some(target)
                &&& target.horizontal_offset.magnitude()
                    <= controller.config.center_tolerance.magnitude()
                &&& duration_ms == controller.config.move_ms
            },
            _ => true,
        },
{
}

/// An observation that is refused leaves the controller as it was.
pub proof fn refused_observations_change_nothing(
    controller: ApproachController,
    targets: Seq<ObservedTarget>,
    measured: Measured,
)
    ensures
        controller.stepped(targets, measured).1 is Err ==> controller.stepped(targets, measured).0
            == controller,
{
}

/// An input that was interrupted, or a target out of sight, is never taken for a move without
/// progress.
pub proof fn progress_is_judged_on_comparable_ranges(
    controller: ApproachController,
    targets: Seq<ObservedTarget>,
    measured: Measured,
)
    requires
        controller.wf(),
        controller.range_before_move is None,
        controller.terminal is None,
    ensures
        controller.stepped(targets, measured).1 != Ok::<Decision, ErrorModel>(
            Decision::Blocked(Failure::NoProgress),
        ),
{
}

/// Whether the goal is seen at one place among the targets and at no other.
pub open spec fn seen_once(targets: Seq<ObservedTarget>, goal: TargetRef, k: int) -> bool {
    &&& 0 <= k < targets.len()
    &&& targets[k].id == goal
    &&& forall|i: int| 0 <= i < targets.len() && i != k ==> (#[trigger] targets[i]).id != goal
}

proof fn lemma_unseen(targets: Seq<ObservedTarget>, goal: TargetRef)
    requires
        forall|i: int| 0 <= i < targets.len() ==> (#[trigger] targets[i]).id != goal,
    ensures
        sightings(targets, goal) == 0,
        sighted(targets, goal) is None,
    decreases targets.len(),
{
    if targets.len() > 0 {
        assert(targets.last() == targets[targets.len() - 1]);
        lemma_unseen(targets.drop_last(), goal);
    }
}

proof fn lemma_seen_once(targets: Seq<ObservedTarget>, goal: TargetRef, k: int)
    requires
        seen_once(targets, goal, k),
    ensures
        sightings(targets, goal) == 1,
        sighted(targets, goal) == Some(targets[k]),
    decreases targets.len(),
{
    let less = targets.drop_last();
    if k < targets.len() - 1 {
        assert(targets.last() == targets[targets.len() - 1]);
        assert(seen_once(less, goal, k));
        lemma_seen_once(less, goal, k);
    } else {
        assert forall|i: int| 0 <= i < less.len() implies (#[trigger] less[i]).id != goal by {
            assert(less[i] == targets[i]);
        }
        lemma_unseen(less, goal);
    }
}

proof fn lemma_seen_twice(targets: Seq<ObservedTarget>, goal: TargetRef, i: int, j: int)
    requires
        0 <= i < j < targets.len(),
        targets[i].id == goal,
        targets[j].id == goal,
    ensures
        sightings(targets, goal) > 1,
    decreases targets.len(),
{
    let less = targets.drop_last();
    if j < targets.len() - 1 {
        lemma_seen_twice(less, goal, i, j);
    } else {
        lemma_seen(less, goal, i);
    }
}

proof fn lemma_seen(targets: Seq<ObservedTarget>, goal: TargetRef, i: int)
    requires
        0 <= i < targets.len(),
        targets[i].id == goal,
    ensures
        sightings(targets, goal) > 0,
    decreases targets.len(),
{
    if i < targets.len() - 1 {
        lemma_seen(targets.drop_last(), goal, i);
    }
}

/// A target that is seen is approached: turned to while it is off the center, by as many pixels as
/// were measured but at least one and no more than configured, to the side that its offset and
/// the calibration give together, and else moved to. Only after as many moves in a row as
/// configured that brought it no closer is the approach blocked.
pub proof fn seen_targets_are_approached(
    controller: ApproachController,
    targets: Seq<ObservedTarget>,
    k: int,
    measured: Measured,
)
    requires
        controller.wf(),
        controller.terminal is None,
        seen_once(targets, controller.goal.target, k),
        targets[k].sound(),
    ensures
        ({
            let (next, decided) = controller.stepped(targets, measured);
            let config = controller.config;
            let target = targets[k];
            let stuck = controller.range_before_move is Some && target.range is Some
                && measured.stalled;
            &&& next.missing == 0
            &&& next.range_before_move is None
            &&& next.stalled == if stuck {
                controller.stalled + 1
            } else {
                0
            }
            &&& if stuck && controller.stalled + 1 >= config.max_stalled_moves {
                decided == Ok::<Decision, ErrorModel>(Decision::Blocked(Failure::NoProgress))
            } else if target.horizontal_offset.bits % 0x8000_0000 > config.center_tolerance.bits
                % 0x8000_0000 {
                &&& next.terminal is None
                &&& decided matches Ok(Decision::Turn { dx })
                &&& (dx < 0) == ((target.horizontal_offset.bits >= 0x8000_0000)
                    != (config.turn_pixels_per_offset.bits >= 0x8000_0000))
                &&& (if dx < 0 {
                    -dx
                } else {
                    dx as int
                }) == if measured.pixels < 1 {
                    1
                } else if measured.pixels > config.max_turn_pixels {
                    config.max_turn_pixels as int
                } else {
                    measured.pixels as int
                }
            } else {
                next.terminal is None && decided == Ok::<Decision, ErrorModel>(
                    Decision::Move { duration_ms: config.move_ms },
                )
            }
        }),
{
    lemma_seen_once(targets, controller.goal.target, k);
}

/// A target that is not seen is looked for again, as many times in a row as configured and no
/// more; then it is lost.
pub proof fn unseen_targets_are_looked_for_again(
    controller: ApproachController,
    targets: Seq<ObservedTarget>,
    measured: Measured,
)
    requires
        controller.wf(),
        controller.terminal is None,
        forall|i: int|
            0 <= i < targets.len() ==> (#[trigger] targets[i]).id != controller.goal.target,
    ensures
        ({
            let (next, decided) = controller.stepped(targets, measured);
            &&& next.range_before_move is None
            &&& next.stalled == 0
            &&& if controller.missing < controller.config.max_missing_observations {
                &&& decided == Ok::<Decision, ErrorModel>(Decision::ObserveAgain)
                &&& next.missing == controller.missing + 1
                &&& next.terminal is None
            } else {
                &&& decided == Ok::<Decision, ErrorModel>(Decision::Blocked(Failure::TargetLost))
                &&& next.terminal == Some(Decision::Blocked(Failure::TargetLost))
            }
        }),
{
    lemma_unseen(targets, controller.goal.target);
}

/// A target that is seen at two places, or whose offset or distance is none, is refused.
pub proof fn doubtful_observations_are_refused(
    controller: ApproachController,
    targets: Seq<ObservedTarget>,
    i: int,
    j: int,
    measured: Measured,
)
    requires
        controller.wf(),
        controller.terminal is None,
        0 <= i < targets.len(),
        targets[i].id == controller.goal.target,
        ({
            ||| i < j < targets.len() && targets[j].id == controller.goal.target
            ||| seen_once(targets, controller.goal.target, i) && targets[i].horizontal_offset.bits
                % 0x8000_0000 > 0x3f80_0000
            ||| seen_once(targets, controller.goal.target, i) && (targets[i].range matches Some(
                range,
            ) && (range.bits % 0x8000_0000 >= 0x7f80_0000 || range.bits > 0x8000_0000))
        }),
    ensures
        controller.stepped(targets, measured).1 is Err,
{
    if seen_once(targets, controller.goal.target, i) {
        lemma_seen_once(targets, controller.goal.target, i);
    } else {
        lemma_seen_twice(targets, controller.goal.target, i, j);
    }
}

/// A configuration is accepted exactly if it turns by something, has a tolerance from zero to below
/// the edge, positive limits, and a progress that is a number not below zero.
pub proof fn configurations_are_usable(config: ApproachConfig)
    ensures
        config.sound() <==> {
            &&& 0 < config.turn_pixels_per_offset.bits % 0x8000_0000 < 0x7f80_0000
            &&& config.center_tolerance.bits < 0x3f80_0000 || config.center_tolerance.bits
                == 0x8000_0000
            &&& config.max_turn_pixels >= 1
            &&& config.move_ms >= 1
            &&& config.min_range_progress.bits < 0x7f80_0000 || config.min_range_progress.bits
                == 0x8000_0000
            &&& config.max_stalled_moves >= 1
        },
{
}

} // verus!
