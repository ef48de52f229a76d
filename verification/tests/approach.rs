use actweave::approach::{
    ApproachConfig, ApproachController, ApproachGoal, Decision, Failure, Measured, Observation,
    ObservedTarget, Single, TargetRef,
};
use actweave::automation::Error;

fn single(x: f32) -> Single {
    Single { bits: x.to_bits() }
}

fn value(x: Single) -> f32 {
    f32::from_bits(x.bits)
}

fn config() -> ApproachConfig {
    ApproachConfig {
        turn_pixels_per_offset: single(100.0),
        center_tolerance: single(0.1),
        max_turn_pixels: 30,
        move_ms: 100,
        max_missing_observations: 1,
        min_range_progress: single(0.05),
        max_stalled_moves: 2,
    }
}

fn controller(config: ApproachConfig) -> ApproachController {
    ApproachController::new(ApproachGoal { target: TargetRef(7) }, config).unwrap()
}

fn target(id: u64, offset: f32, range: Option<f32>) -> ObservedTarget {
    ObservedTarget {
        id: TargetRef(id),
        horizontal_offset: single(offset),
        range: range.map(single),
    }
}

/// Measures the target's numbers, then decides.
fn step(
    controller: &mut ApproachController,
    observation: &Observation,
) -> Result<Decision, Error> {
    let mut measured = Measured { stalled: false, pixels: 0 };
    if let Ok(Some(target)) = controller.sight(observation) {
        let product =
            value(target.horizontal_offset) * value(controller.config.turn_pixels_per_offset);
        measured.pixels = product.abs().round() as u32;
        if let (Some(before), Some(after)) = (controller.range_before_move, target.range) {
            measured.stalled =
                value(before) - value(after) < value(controller.config.min_range_progress);
        }
    }
    controller.step(observation, measured)
}

#[test]
fn policy_steers_toward_the_selected_target() {
    let mut controller = controller(config());
    let observation = Observation {
        targets: vec![target(7, 0.8, Some(4.0)), target(8, 0.0, Some(0.0))],
    };
    assert_eq!(step(&mut controller, &observation).unwrap(), Decision::Turn { dx: 30 });
}

#[test]
fn aligned_target_gets_one_short_move_then_requires_new_observation() {
    let mut controller = controller(config());
    let observation = Observation { targets: vec![target(7, 0.02, Some(4.0))] };
    assert_eq!(
        step(&mut controller, &observation).unwrap(),
        Decision::Move { duration_ms: 100 }
    );
}

#[test]
fn missing_target_ends_after_the_configured_retry_count() {
    let mut controller = controller(config());
    let nothing = Observation { targets: vec![] };
    assert_eq!(step(&mut controller, &nothing).unwrap(), Decision::ObserveAgain);
    assert_eq!(
        step(&mut controller, &nothing).unwrap(),
        Decision::Blocked(Failure::TargetLost)
    );
}

#[test]
fn unchanged_range_after_two_moves_reports_no_progress() {
    let mut controller = controller(config());
    let observation = Observation { targets: vec![target(7, 0.0, Some(4.0))] };
    for _ in 0..2 {
        assert_eq!(
            step(&mut controller, &observation).unwrap(),
            Decision::Move { duration_ms: 100 }
        );
        controller.move_completed(Some(single(4.0)));
    }
    assert_eq!(
        step(&mut controller, &observation).unwrap(),
        Decision::Blocked(Failure::NoProgress)
    );
    assert_eq!(
        step(&mut controller, &Observation { targets: vec![] }).unwrap(),
        Decision::Blocked(Failure::NoProgress)
    );
}

#[test]
fn interrupted_input_does_not_create_false_progress_evidence() {
    let mut controller = controller(config());
    let observation = Observation { targets: vec![target(7, 0.0, Some(4.0))] };
    assert_eq!(
        step(&mut controller, &observation).unwrap(),
        Decision::Move { duration_ms: 100 }
    );
    controller.input_interrupted();
    assert_eq!(
        step(&mut controller, &observation).unwrap(),
        Decision::Move { duration_ms: 100 }
    );
}

#[test]
fn signed_camera_calibration_sets_turn_direction() {
    let mut config = config();
    config.turn_pixels_per_offset = single(-100.0);
    let mut controller = controller(config);
    let observation = Observation { targets: vec![target(7, 0.2, None)] };
    assert_eq!(step(&mut controller, &observation).unwrap(), Decision::Turn { dx: -20 });
}

#[test]
fn duplicate_goal_detection_is_rejected() {
    let mut controller = controller(config());
    let observation = Observation { targets: vec![target(7, 0.1, None), target(7, 0.2, None)] };
    assert!(step(&mut controller, &observation).is_err());
}

#[test]
fn turns_are_bounded_and_never_none() {
    let mut narrow = config();
    narrow.turn_pixels_per_offset = single(-0.5);
    let mut controller = controller(narrow);
    let observation = Observation { targets: vec![target(7, 0.2, None)] };
    assert_eq!(step(&mut controller, &observation).unwrap(), Decision::Turn { dx: -1 });
}

#[test]
fn bad_numbers_are_rejected() {
    let goal = ApproachGoal { target: TargetRef(7) };
    let mut bad = vec![];
    for x in [f32::NAN, f32::INFINITY, 0.0] {
        bad.push(ApproachConfig { turn_pixels_per_offset: single(x), ..config() });
    }
    for x in [1.0, -0.1, f32::NAN] {
        bad.push(ApproachConfig { center_tolerance: single(x), ..config() });
    }
    bad.push(ApproachConfig { max_turn_pixels: 0, ..config() });
    bad.push(ApproachConfig { move_ms: 0, ..config() });
    bad.push(ApproachConfig { min_range_progress: single(-1.0), ..config() });
    bad.push(ApproachConfig { max_stalled_moves: 0, ..config() });
    for config in bad {
        assert!(ApproachController::new(goal, config).is_err());
    }
    let zero = ApproachConfig { center_tolerance: single(-0.0), ..config() };
    assert!(ApproachController::new(goal, zero).is_ok());
    for (offset, range) in [(1.1, None), (f32::NAN, None), (0.0, Some(-1.0)), (0.0, Some(f32::NAN))]
    {
        let observation = Observation { targets: vec![target(7, offset, range)] };
        assert!(step(&mut controller(config()), &observation).is_err());
    }
    let edge = Observation { targets: vec![target(7, -1.0, Some(-0.0))] };
    assert_eq!(step(&mut controller(config()), &edge).unwrap(), Decision::Turn { dx: -30 });
}

#[test]
fn small_offsets_turn_by_a_pixel_in_the_calibrated_direction() {
    for (offset, calibration, dx) in
        [(0.2, 1.0, 1), (-0.2, 1.0, -1), (0.2, -1.0, -1), (-0.2, -1.0, 1), (-1.0, 1e30, -30)]
    {
        let mut controller = controller(ApproachConfig {
            turn_pixels_per_offset: single(calibration),
            ..config()
        });
        let observation = Observation { targets: vec![target(7, offset, None)] };
        assert_eq!(step(&mut controller, &observation).unwrap(), Decision::Turn { dx });
    }
}

#[test]
fn refused_observations_leave_the_controller_as_it_was() {
    let mut controller = controller(config());
    controller.move_completed(Some(single(4.0)));
    let before = controller;
    for targets in [
        vec![target(7, 0.0, None), target(7, 0.5, None)],
        vec![target(7, 1.5, None)],
        vec![target(7, f32::NAN, None)],
        vec![target(7, 0.0, Some(-1.0))],
    ] {
        assert!(step(&mut controller, &Observation { targets }).is_err());
        assert_eq!(controller, before);
    }
}
