//! Speed estimates of a holding joint.
use par6d::selfcal::hold_velocity::{HoldError, HoldVelocity, Slope};
use par6d::selfcal::tune::{holding_limit, passive_hold_failed, GainStage};

const TICK_NS: u64 = 4_000_000;

fn per_second(slope: &Slope) -> f64 {
    slope.counts as f64 / slope.nanos as f64 * 1e9
}

fn estimator() -> HoldVelocity {
    HoldVelocity::new(250, 1_000_000_000).unwrap()
}

#[test]
fn a_joint_resting_on_a_count_boundary_reads_as_stationary() {
    let mut estimator = estimator();
    estimator.reset(0, 100);
    let mut squared = 0.0;
    let mut samples = 0;
    for k in 1..=250u64 {
        let speed = estimator.push(k * TICK_NS, 100 + (k % 2) as i32).unwrap();
        if let Some(slope) = speed {
            squared += per_second(&slope).powi(2);
            samples += 1;
        }
    }
    let rms_counts_s = (squared / samples as f64).sqrt();
    assert!(
        rms_counts_s < 30.0,
        "RMS {rms_counts_s} counts/s reads a stationary joint as moving"
    );
}

#[test]
fn a_steady_ramp_is_estimated_at_its_true_speed() {
    let mut estimator = estimator();
    estimator.reset(0, 0);
    let mut last = None;
    for k in 1..=250u64 {
        last = estimator.push(k * TICK_NS, (k as i32) * 24).unwrap();
    }
    let speed = per_second(&last.expect("a linear history yields an estimate"));
    assert!((speed - 6000.0).abs() < 1e-6, "estimated {speed} counts/s");
}

#[test]
fn readings_must_move_forward_in_time() {
    let mut estimator = estimator();
    estimator.reset(10, 0);
    assert_eq!(estimator.push(10, 1), Err(HoldError::NotIncreasing));
    assert_eq!(estimator.push(9, 1), Err(HoldError::NotIncreasing));
    assert!(estimator.push(11, 1).is_ok());
    assert_eq!(
        HoldVelocity::new(usize::MAX, 1).err(),
        Some(HoldError::TooLarge)
    );
    assert_eq!(
        HoldError::NotIncreasing.message(),
        "holding encoder timestamps are not increasing"
    );
    assert_eq!(
        HoldError::TooLarge.message(),
        "holding observation is too large"
    );
}

#[test]
fn a_passive_joint_that_rings_in_place_still_counts_as_holding() {
    let tolerance = 0.572958f64.to_radians();
    // The joint counts negatively; the limit must not depend on that sign.
    let quantum = (-0.005493f64.to_radians()).abs() / 0.004;
    let limit = f64::from_bits(holding_limit(
        1f64.to_radians().to_bits(),
        quantum.to_bits(),
    ));
    let speed_rms = (250.0 * 2.207f64.to_radians().powi(2) / 250.0).sqrt();
    let ringing_error = 0.038f64.to_radians();
    let quiet = speed_rms <= limit;
    assert!(
        !passive_hold_failed(250, true, ringing_error <= tolerance, quiet),
        "a joint 7% of the way to the settling tolerance is holding"
    );
    let score = GainStage::StartupHold.score(true, true, true, ringing_error <= tolerance, quiet);
    assert!(
        !score.accepted(),
        "it is still not quiet, and the gain search must see that"
    );
    assert!(score.feasible());
    let drifting_error = tolerance * 1.5;
    assert!(passive_hold_failed(
        250,
        true,
        drifting_error <= tolerance,
        quiet
    ));
}
