//! Placing the simulated arm, and paths and numbers.
use par6d::bytes::push_le;
use par6d::execution_path::{
    check_first, check_next, first_next, PathError, PathPoints, SampleCheck, MAX_POINTS,
};
use par6d::teleport::{gripper_move_command, placed, teleport, wrapped_reading, Teleport};
use par6d::text::{decimal, signed};

#[test]
fn only_the_simulated_arm_is_placed() {
    assert_eq!(teleport(false, 1), Teleport::Dropped);
    assert_eq!(teleport(true, 0), Teleport::Place { tool: false });
    assert_eq!(teleport(true, 1), Teleport::Place { tool: true });
    assert!(placed(true, true));
    assert!(!placed(false, true) && !placed(true, false));
}

#[test]
fn a_gripper_that_is_sent_somewhere_is_active_and_moves() {
    let frame = gripper_move_command(128, 255, 400);
    assert_eq!((frame.position, frame.speed, frame.current_ma), (128, 255, 400));
    assert!(frame.activate && frame.action);
    assert!(!frame.estop && !frame.release_dir);
}

#[test]
fn a_reading_wraps_into_the_encoders_range() {
    assert_eq!(wrapped_reading(0, 14), 0);
    assert_eq!(wrapped_reading(16_383, 14), 16_383);
    assert_eq!(wrapped_reading(16_384, 14), 0);
    assert_eq!(wrapped_reading(-1, 14), 16_383);
    for ticks in [i32::MIN, -123_456, -1, 0, 7, 98_765, i32::MAX] {
        for bits in [0, 1, 12, 14, 30] {
            assert_eq!(wrapped_reading(ticks, bits), ticks.rem_euclid(1 << bits));
        }
        assert_eq!(wrapped_reading(ticks, 31), ticks.rem_euclid(i32::MIN));
    }
}

#[test]
fn a_path_has_a_budget() {
    let mut path = PathPoints::new(0u32);
    for k in 1..MAX_POINTS {
        assert_eq!(path.push(k as u32), Ok(()));
    }
    assert_eq!(path.push(0), Err(PathError::TooManyPoints));
    assert_eq!(path.points.len(), MAX_POINTS);
    assert_eq!(
        PathError::TooManyPoints.reason(),
        "interpolated path exceeds the collision-check point limit"
    );
}

#[test]
fn a_path_is_finite_throughout() {
    let good = SampleCheck {
        finite: true,
        timed: true,
        endless: false,
    };
    assert_eq!(check_first(good), Ok(()));
    let untimed = SampleCheck {
        timed: false,
        ..good
    };
    assert_eq!(check_first(untimed), Err(PathError::InitialState));
    assert_eq!(
        PathError::InitialState.reason(),
        "initial state must be finite and tick duration positive"
    );
    assert_eq!(check_next(good), Ok(()));
    let nan = SampleCheck {
        finite: false,
        endless: true,
        ..good
    };
    assert_eq!(check_next(nan), Err(PathError::NotFinite));
    assert_eq!(
        PathError::NotFinite.reason(),
        "position and velocity must be finite"
    );
    let endless = SampleCheck {
        endless: true,
        ..good
    };
    assert_eq!(check_next(endless), Err(PathError::TooManyPoints));
    assert_eq!((first_next(true), first_next(false)), (0, 1));
}

#[test]
fn numbers_are_written_out() {
    for n in [0, 7, 10, 123_456, u64::MAX] {
        assert_eq!(decimal(n), n.to_string());
    }
    for n in [0, -1, 42, i64::MIN, i64::MAX] {
        assert_eq!(signed(n), n.to_string());
    }
    let mut out = vec![9];
    push_le(&mut out, 0x0102_0304, 4);
    assert_eq!(out, [9, 4, 3, 2, 1]);
}
