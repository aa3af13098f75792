//! The hooks of the motion engines.
use par6d::adapters::{
    commanded_rate, commanded_rates, within_limits, JogCommand, JogDirection, MotionJog,
    MotionStream, Notice, Rate,
};

/// A key that orders numbers as they compare.
fn key(v: f64) -> i64 {
    let bits = (v + 0.0).to_bits() as i64;
    bits ^ (((bits >> 63) as u64) >> 1) as i64
}

#[test]
fn a_failing_limiter_throttles_its_log_and_faults_after_the_window() {
    let dt = 0.05;
    let fault_latch_s = 0.5; // 10 ticks at this dt
    let ticks = (fault_latch_s / dt as f64).round().max(1.0) as u32;
    let start = [key(0.0); 6];
    let mut stream = MotionStream::new(start, [key(-3.0); 6], [key(3.0); 6], ticks);
    stream.activate(start);
    assert_eq!(stream.set_target(true), Notice::Quiet);
    assert_eq!(stream.set_scale(true), Notice::Quiet);

    let mut warnings = 0;
    for tick in 1..10 {
        let step = stream.step(None);
        warnings += usize::from(step.notice == Notice::Failing);
        assert!(
            !stream.faulted(),
            "tick {tick}: the latch window is {fault_latch_s} s = 10 ticks"
        );
        assert_eq!(
            step.q[0], start[0],
            "a failing step holds, never emits garbage"
        );
        assert!(step.held);
    }
    let step = stream.step(None);
    warnings += usize::from(step.notice == Notice::Failing);
    assert!(
        stream.faulted(),
        "10 consecutive failures = round(fault_latch_s / dt) must fault"
    );
    assert_eq!(warnings, 1, "one warn per streak, not one per 250 Hz tick");

    let mut moved = start;
    moved[0] = key(0.01);
    let step = stream.step(Some(moved));
    assert!(!stream.faulted(), "a recovered limiter is healthy");
    assert_eq!(step.notice, Notice::Recovered { ticks: 10 });
    assert!(step.q[0] > start[0], "and it is tracking the target again");
    assert!(!step.held);
}

#[test]
fn a_new_session_forgets_the_last_ones_failures() {
    let mut stream = MotionStream::new([1], [-9], [9], 2);
    stream.step(None);
    stream.step(None);
    assert!(stream.faulted());
    assert_eq!(stream.set_target(false), Notice::Failing);
    assert_eq!(stream.set_target(false), Notice::Quiet);
    assert_eq!(stream.set_scale(false), Notice::Failing);
    assert_eq!(stream.set_scale(false), Notice::Quiet);
    stream.activate([7]);
    assert!(!stream.faulted());
    assert_eq!(stream.set_target(false), Notice::Failing);
    assert_eq!(stream.step(None).q, [7]);
}

#[test]
fn blocked_directions_are_two_bits_a_joint() {
    let jog = MotionJog::new(6);
    let neg = Some(JogDirection::Negative);
    let pos = Some(JogDirection::Positive);
    assert_eq!(jog.mask(&[None, None, None, None, None, None]), 0);
    assert_eq!(jog.mask(&[neg, None, None, None, None, None]), 1);
    assert_eq!(jog.mask(&[None, pos, None, None, None, None]), 0b1000);
    assert_eq!(
        jog.mask(&[neg, pos, None, neg, None, pos]),
        0b10_00_01_00_10_01
    );
    let jog = MotionJog::new(8);
    assert_eq!(jog.mask(&[pos; 8]), 0xAAAA);
}

#[test]
fn a_jog_of_nothing_lets_go() {
    let jog = MotionJog::new(6);
    assert_eq!(jog.command(&[true; 6]), JogCommand::Release);
    assert_eq!(
        jog.command(&[true, true, false, true, true, true]),
        JogCommand::Ramp
    );
}

#[test]
fn a_step_stays_within_the_soft_limits() {
    assert_eq!(within_limits(-7, -5, 9), -5);
    assert_eq!(within_limits(3, -5, 9), 3);
    assert_eq!(within_limits(10, -5, 9), 9);
    assert_eq!(within_limits(10, 4, 4), 4);
    let mut stream = MotionStream::new([0; 3], [-5; 3], [9; 3], 2);
    let step = stream.step(Some([-7, 3, 10]));
    assert_eq!((step.q, step.held), ([-5, 3, 9], false));
    assert_eq!(stream.limit([10, -10, 0]), [9, -5, 0]);
    // A limiter that fails holds what was commanded last.
    assert_eq!(stream.step(None).q, [-5, 3, 9]);
}

#[test]
fn the_commanded_velocity_covers_the_advance() {
    let rate = |v: f64| Rate {
        magnitude: v.abs().to_bits(),
        negative: v < 0.0,
    };
    // The plan lands on its target, and ends the tick at a standstill.
    assert_eq!(commanded_rate(rate(-0.0873), rate(0.0)), rate(-0.0873));
    assert_eq!(commanded_rate(rate(0.05), rate(-0.2)), rate(-0.2));
    assert_eq!(commanded_rate(rate(0.1), rate(-0.1)), rate(-0.1));
    let advance = [rate(-0.0873), rate(0.05)];
    let planned = [rate(0.0), rate(-0.2)];
    assert_eq!(
        commanded_rates(false, &advance, &planned),
        [rate(-0.0873), rate(-0.2)]
    );
    assert_eq!(commanded_rates(true, &advance, &planned), [rate(0.0); 2]);
}
