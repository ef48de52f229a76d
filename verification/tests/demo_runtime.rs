use actweave::demo_runtime::{DemoRuntime, Mode, RuntimeError, Scenario, TrainingStatus, ITEMS};

const SECOND: u128 = 1_000_000_000;

#[test]
fn preconditions_and_single_transient_failure_preserve_training_state() {
    let now = 5 * SECOND;
    let mut runtime = DemoRuntime::new(Scenario::TransientFailure);
    assert_eq!(runtime.start_training(now), Err(RuntimeError::WrongMode));
    runtime.set_mode(Mode::Training, now).unwrap();
    assert_eq!(runtime.start_training(now), Err(RuntimeError::Busy));
    assert_eq!(runtime.training_status(now), TrainingStatus::NotStarted);
    runtime.start_training(now).unwrap();
    assert_eq!(runtime.training_status(now), TrainingStatus::Running);
    assert_eq!(runtime.set_mode(Mode::Idle, now), Err(RuntimeError::TrainingInProgress));
    assert_eq!(runtime.start_training(now), Err(RuntimeError::AlreadyStarted));
    let later = now + SECOND;
    assert_eq!(runtime.training_status(later), TrainingStatus::Completed);
    assert_eq!(runtime.training_status(later), TrainingStatus::Completed);
}

#[test]
fn blocked_training_never_starts() {
    let mut runtime = DemoRuntime::new(Scenario::Blocked);
    runtime.set_mode(Mode::Training, 0).unwrap();
    for _ in 0..3 {
        assert_eq!(runtime.start_training(0), Err(RuntimeError::Unavailable));
    }
    assert_eq!(runtime.training_status(0), TrainingStatus::NotStarted);
    assert!(!runtime.available());
}

#[test]
fn training_takes_half_a_second() {
    let mut runtime = DemoRuntime::new(Scenario::Normal);
    runtime.set_mode(Mode::Training, 0).unwrap();
    runtime.start_training(7).unwrap();
    assert_eq!(runtime.training_status(500_000_006), TrainingStatus::Running);
    assert_eq!(runtime.training_status(500_000_007), TrainingStatus::Completed);
    assert_eq!(runtime.set_mode(Mode::Idle, 500_000_007), Ok(()));
    assert_eq!(runtime.mode(), Mode::Idle);
}

#[test]
fn exploration_collects_everything_once() {
    let mut runtime = DemoRuntime::new(Scenario::ExplorationInterrupted);
    assert_eq!(runtime.explore_step(), Ok(false));
    assert_eq!(runtime.explore_step(), Err(RuntimeError::ExplorationNeedsReset));
    assert_eq!(runtime.explore_step(), Err(RuntimeError::ExplorationNeedsReset));
    assert_eq!(runtime.exploration_snapshot().unwrap().collected, 1);
    runtime.reset_exploration().unwrap();
    assert_eq!(runtime.reset_exploration(), Err(RuntimeError::Unavailable));
    assert_eq!(runtime.explore_step(), Ok(false));
    assert_eq!(runtime.explore_step(), Ok(false));
    assert_eq!(runtime.explore_step(), Ok(true));
    let end = runtime.exploration_snapshot().unwrap();
    assert_eq!((end.collected, end.finished, end.needs_reset), (ITEMS, true, false));
    assert_eq!(DemoRuntime::new(Scenario::Normal).explore_step(), Err(RuntimeError::Unavailable));
    assert_eq!(DemoRuntime::new(Scenario::Normal).exploration_snapshot(), None);
}

#[test]
fn trials_break_down_once_and_every_third_misses() {
    let mut runtime = DemoRuntime::new(Scenario::BatchInterrupted);
    assert_eq!(runtime.perform_trial(), Ok(true));
    assert_eq!(runtime.perform_trial(), Ok(true));
    assert_eq!(runtime.perform_trial(), Ok(false));
    assert_eq!(runtime.perform_trial(), Err(RuntimeError::TrialNeedsReset));
    assert_eq!(runtime.trial_snapshot(), (3, 2, false, true));
    runtime.reset_trial();
    assert_eq!(runtime.perform_trial(), Ok(true));
    assert_eq!(runtime.trial_snapshot(), (4, 3, true, false));
    let mut blocked = DemoRuntime::new(Scenario::BatchBlocked);
    assert_eq!(blocked.perform_trial(), Err(RuntimeError::TrialUnavailable));
    assert_eq!(blocked.trial_snapshot(), (0, 0, false, false));
}
