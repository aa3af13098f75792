//! Legs, moves, experiments and what is measured on them.
use par6d::selfcal::events::{sample_rows, RunEvent, SampledJoint};
use par6d::selfcal::mechanics::{
    drifted_message, first_of, first_silent, friction_rows, furthest, leg_counts, longest,
    not_referenced_message, not_settled_message, pose_settled, pose_start, CurrentSeen, DragLeg,
    FrictionError, HoldingCurrent, HoldingError, LegStage, PoseStart, Ring, Travel,
};
use par6d::selfcal::motion::{
    acceptable, already_there, finish_leg, home_direction, measures_hold, plan_leg,
    watches_tracking, worst_passive, Aim, ContactGuard, HeldAfter, MotionKind, MotionWatch, MoveSample, MoveWatch, Outcome, Sample, Step,
};
use par6d::selfcal::search::{Band, Score, Stop, Verdict};
use par6d::selfcal::tune::{
    conclude, experiment_verdict, holding_limit, holds_in_velocity_mode, may_tune, moving_limit,
    probe_kind, search_range, Adjust, Experiment, ExperimentEnd, ExperimentPhase, GainStage,
    LegMeasure, LegResult, ProbeKind, Range, StageEnd, StageResult,
    Tuning, WORST_VIOLATION,
};

fn sample(t: u64, position: i32) -> Sample<i32> {
    Sample {
        t,
        position,
        hall_edge: false,
        at_target: false,
        reference: position,
        high_current: true,
        stall_below: 10,
        asked: true,
        speed: 100,
        commanded: 100,
        off_track: false,
    }
}

fn watch(kind: MotionKind) -> MotionWatch<i32> {
    MotionWatch {
        kind,
        end: 100,
        observe_after: 10,
        tracking: true,
        contact: ContactGuard::new(5, 0, 0),
    }
}

#[test]
fn a_joint_that_is_loaded_and_stands_still_is_in_contact() {
    let mut w = watch(MotionKind::Seek { hall: false });
    for t in 0..10 {
        assert_eq!(w.step(&sample(t, 50)), Step::Continue, "the ramp");
    }
    for t in 10..14 {
        assert_eq!(w.step(&sample(t, 50)), Step::Continue, "the window");
    }
    assert_eq!(
        w.step(&sample(14, 51)),
        Step::Ended {
            outcome: Outcome::Blocked,
            stop: Some(51)
        }
    );
}

#[test]
fn a_joint_that_moves_back_and_forth_is_not() {
    let mut w = watch(MotionKind::Seek { hall: false });
    for t in 0..60 {
        let at = if t % 2 == 0 { 50 } else { 70 };
        assert_eq!(w.step(&sample(t, at)), Step::Continue);
    }
}

#[test]
fn a_joint_that_does_not_follow_ends_a_position_leg() {
    let idle = |t| Sample {
        high_current: false,
        speed: 20,
        off_track: true,
        ..sample(t, 50)
    };
    let mut w = watch(MotionKind::Position);
    let mut ended = Step::Continue;
    for t in 0..20 {
        ended = w.step(&idle(t));
        if ended != Step::Continue {
            break;
        }
    }
    assert_eq!(
        ended,
        Step::Ended {
            outcome: Outcome::Tracking,
            stop: None
        }
    );
    // A quarter of the commanded speed is following.
    let mut w = watch(MotionKind::Position);
    for t in 0..20 {
        let s = Sample {
            speed: 26,
            ..idle(t)
        };
        assert_eq!(w.step(&s), Step::Continue);
    }
}

#[test]
fn a_leg_arrives_by_its_kind() {
    let mut w = watch(MotionKind::Seek { hall: true });
    let edge = Sample {
        hall_edge: true,
        ..sample(3, 7)
    };
    assert_eq!(
        w.step(&edge),
        Step::Ended {
            outcome: Outcome::Complete,
            stop: Some(7)
        }
    );
    let mut w = watch(MotionKind::Velocity);
    assert_eq!(
        w.step(&sample(100, 9)),
        Step::Ended {
            outcome: Outcome::Complete,
            stop: Some(9)
        }
    );
    assert!(w.counts_for_tracking(10, false) && !w.counts_for_tracking(100, false));
    assert!(!w.counts_for_peaks(0, false) && w.counts_for_peaks(0, true));
    assert_eq!(MotionKind::Position.phase(), "position move");
    assert_eq!(MotionKind::Seek { hall: true }.phase(), "Hall seek");
}

#[test]
fn a_leg_toward_an_unknown_stop_runs_at_the_homing_current() {
    let leg = plan_leg(10, Aim::Target(5), true, false, 1);
    assert_eq!((leg.direction, leg.toward_stop), (-1, true));
    let leg = plan_leg(10, Aim::Target(5), true, true, 1);
    assert_eq!((leg.direction, leg.toward_stop), (-1, false));
    let leg = plan_leg(0, Aim::Speed(0), true, false, 0);
    assert_eq!((leg.direction, leg.toward_stop), (0, false));
    let leg = plan_leg(i32::MIN, Aim::Target(i32::MAX), true, false, 0);
    assert_eq!((leg.direction, leg.toward_stop), (1, true));
    assert_eq!((home_direction(1), home_direction(0)), (-1, 1));
    assert!(watches_tracking(true, true, false, MotionKind::Position));
    assert!(!watches_tracking(true, true, false, MotionKind::Velocity));
    assert!(measures_hold(true, false, Outcome::Complete, MotionKind::Velocity));
    assert!(!measures_hold(
        true,
        false,
        Outcome::Complete,
        MotionKind::Seek { hall: false }
    ));
    assert!(!acceptable(MotionKind::Position, false, false, true, true));
    assert!(acceptable(MotionKind::Velocity, false, true, true, true));
    assert_eq!(worst_passive(&[true, true, true], &[5, 9, 9], 0), Some(2));
    assert_eq!(worst_passive(&[true, false, false], &[5, 9, 9], 0), None);
}

#[test]
fn gains_that_run_away_are_taken_off_once() {
    let mut w = MoveWatch {
        end: 100,
        guard: 2,
        sane: true,
        runaway: 0,
        unstable: false,
        contact: ContactGuard::new(50, 0, 0),
    };
    let s = |t, speeding, at_target| MoveSample {
        t,
        position: 4,
        at_target,
        near_stop: false,
        speeding,
        reference: 0,
        high_current: false,
        stall_below: 10,
        asked: true,
    };
    let restored: Vec<bool> = (0..8)
        .map(|t| w.step(&s(t, Some(true), false)).restore)
        .collect();
    assert_eq!(
        restored,
        [false, false, false, false, true, false, false, false]
    );
    let end = w.step(&s(100, Some(false), true));
    assert_eq!(
        end.step,
        Step::Ended {
            outcome: Outcome::Unstable,
            stop: Some(4)
        }
    );
}

fn leg(outcome: Outcome, direction: i32, stop: Option<i32>) -> LegResult {
    LegResult {
        outcome,
        direction,
        stop,
    }
}

#[test]
fn an_experiment_is_a_reset_and_two_legs() {
    let mut e = Experiment::new(None, 5, 1);
    assert!(!e.leg(leg(Outcome::Complete, 1, Some(0))));
    assert!(e.leg(leg(Outcome::Tracking, 1, Some(50))));
    assert!(e.leg(leg(Outcome::Complete, -1, Some(0))));
    let end = ExperimentEnd::Scored { complete: true };
    assert_eq!(e.phase, ExperimentPhase::Over { end });
    assert_eq!(
        experiment_verdict(end, Score::Feasible { quiet: true }, false, 3),
        Verdict::Pass
    );
    assert_eq!(
        experiment_verdict(end, Score::Infeasible, true, 3),
        Verdict::Fail {
            oscillating: true,
            violation: 3
        }
    );
}

#[test]
fn an_experiment_may_return_to_a_stop_it_knows() {
    let mut e = Experiment::new(Some(100), 5, 1);
    assert!(!e.leg(leg(Outcome::Blocked, -1, Some(103))));
    assert!(e.leg(leg(Outcome::Complete, 1, Some(500))));
    assert!(!e.leg(leg(Outcome::Blocked, -1, Some(97))));
    assert_eq!(
        e.phase,
        ExperimentPhase::Over {
            end: ExperimentEnd::Scored { complete: true }
        }
    );
    // Contact the other way is not with that stop.
    let mut e = Experiment::new(Some(100), 5, 1);
    let hit = leg(Outcome::Blocked, 1, Some(100));
    e.leg(hit);
    let end = ExperimentEnd::Interrupted { leg: hit };
    assert_eq!(e.phase, ExperimentPhase::Over { end });
    assert_eq!(
        experiment_verdict(end, Score::Invalid, false, 0),
        Verdict::Interrupted
    );
    // Not getting back to it fails the experiment.
    let mut e = Experiment::new(Some(100), 5, 1);
    e.leg(leg(Outcome::Blocked, -1, Some(100)));
    e.leg(leg(Outcome::Complete, 1, Some(500)));
    e.leg(leg(Outcome::Complete, -1, Some(300)));
    assert_eq!(
        e.phase,
        ExperimentPhase::Over {
            end: ExperimentEnd::Failed
        }
    );
    assert_eq!(
        experiment_verdict(ExperimentEnd::Failed, Score::Invalid, true, 0),
        Verdict::Fail {
            oscillating: false,
            violation: WORST_VIOLATION
        }
    );
    assert_eq!(f64::from_bits(WORST_VIOLATION), f64::INFINITY);
}

#[test]
fn the_inner_loop_is_tuned_first() {
    let mut t = Tuning::Velocity;
    assert_eq!(t.advance(StageEnd::NoBand), Adjust::TakeBest {
        stage: GainStage::Velocity
    });
    assert_eq!(t.stage(), Some(GainStage::VelocityI));
    assert_eq!(t.advance(StageEnd::Passed), Adjust::Nothing);
    assert_eq!(t.stage(), Some(GainStage::Velocity));
    t.advance(StageEnd::Passed);
    assert_eq!(t.stage(), Some(GainStage::Position));
    t.advance(StageEnd::Passed);
    assert_eq!((t, t.stage()), (Tuning::Tuned, None));
    let mut t = Tuning::Velocity;
    t.advance(StageEnd::Passed);
    t.advance(StageEnd::NoBand);
    assert_eq!(
        t,
        Tuning::NoBand {
            stage: GainStage::VelocityI
        }
    );
    let mut t = Tuning::Position;
    t.advance(StageEnd::Interrupted);
    assert_eq!(t, Tuning::Interrupted);
}

#[test]
fn a_stage_concludes_from_its_band() {
    let band = Band {
        lowest_pass: Some(2),
        highest_pass: Some(8),
        lower_fail: None,
        upper_fail: None,
        operating: Some(4),
        verified: true,
        experiments: 5,
        best_fail: Some((1, 7)),
    };
    let all = Range {
        floor: 2,
        ceiling: 8,
    };
    assert_eq!(
        conclude(GainStage::Velocity, false, &band, Stop::Verified),
        StageResult::Passed {
            scale: 4,
            band: Some(all)
        }
    );
    assert_eq!(
        conclude(GainStage::StartupHold, false, &band, Stop::Verified),
        StageResult::Passed {
            scale: 4,
            band: None
        }
    );
    let none = Band {
        verified: false,
        ..band
    };
    assert_eq!(
        conclude(GainStage::Velocity, false, &none, Stop::NoPass),
        StageResult::NoBand { best: 1 }
    );
    assert_eq!(
        conclude(GainStage::Velocity, false, &none, Stop::Budget),
        StageResult::Failed { stop: Stop::Budget }
    );
    assert_eq!(
        conclude(GainStage::Velocity, true, &band, Stop::Interrupted),
        StageResult::Interrupted
    );
    let r = |floor, ceiling| Range { floor, ceiling };
    assert_eq!(
        search_range(
            GainStage::StartupHold,
            r(1, 9),
            r(2, 7),
            r(0, 99),
            None
        ),
        r(2, 7)
    );
    assert_eq!(
        search_range(
            GainStage::Position,
            r(1, 9),
            r(2, 7),
            r(0, 99),
            Some(r(5, 50))
        ),
        r(5, 50)
    );
    assert_eq!(
        search_range(
            GainStage::Position,
            r(1, 9),
            r(2, 7),
            r(0, 99),
            Some(r(50, 50))
        ),
        r(0, 99)
    );
    assert!(may_tune(false, None, 3) && may_tune(false, Some(3), 3));
    assert!(!may_tune(false, Some(2), 3) && !may_tune(true, None, 3));
    assert_eq!(
        probe_kind(GainStage::Velocity, true, true),
        ProbeKind::Seek { reversed: true }
    );
    assert_eq!(
        probe_kind(GainStage::Position, true, true),
        ProbeKind::Position
    );
    assert_eq!(
        probe_kind(GainStage::VelocityI, false, false),
        ProbeKind::VelocityProfile
    );
    let s = GainStage::StartupHold.scales();
    assert!(s.kpv && s.kiv && !s.kpp);
    assert_eq!(GainStage::Position.memory_slot(), Some(2));
}

#[test]
fn a_speed_is_taken_over_the_window_and_no_more() {
    let mut ring = Ring::new();
    assert_eq!(ring.push(10, 100, 2), None);
    assert_eq!(ring.push(11, 110, 2), None);
    assert_eq!(
        ring.push(12, 130, 2),
        Some(Travel {
            counts: 30,
            ticks: 2
        })
    );
    assert_eq!(
        ring.push(14, 100, 2),
        Some(Travel {
            counts: -30,
            ticks: 2
        })
    );
    for t in 20..40 {
        ring.push(t, 0, 2);
    }
    assert_eq!(ring.marks.len(), 8);
    assert_eq!(ring.marks[0].tick, 32);
}

#[test]
fn a_leg_at_constant_speed_ramps_holds_and_ramps() {
    let leg = DragLeg {
        ramp: 3,
        settle: 2,
        average: 2,
    };
    let stages: Vec<LegStage> = (0..11).map(|t| leg.stage(t)).collect();
    assert_eq!(
        stages,
        [
            LegStage::RampUp { ticks: 1 },
            LegStage::RampUp { ticks: 2 },
            LegStage::RampUp { ticks: 3 },
            LegStage::Hold { averaged: false },
            LegStage::Hold { averaged: false },
            LegStage::Hold { averaged: true },
            LegStage::Hold { averaged: true },
            LegStage::RampDown { ticks: 1 },
            LegStage::RampDown { ticks: 2 },
            LegStage::RampDown { ticks: 3 },
            LegStage::Over,
        ]
    );
    assert!(leg_counts(1, true, true) && !leg_counts(0, true, true));
    assert_eq!(friction_rows(2, true), Ok(()));
    let few = FrictionError::TooFew { held: 1 };
    assert_eq!(friction_rows(1, true), Err(few));
    assert_eq!(
        few.message(2),
        "J3 held 1 of 4 speeds; friction needs two"
    );
    assert_eq!(friction_rows(4, false), Err(FrictionError::OneSpeed));
    assert_eq!(
        FrictionError::OneSpeed.message(2),
        "J3 held one speed only; friction is not separable"
    );
}

#[test]
fn a_holding_current_is_new_and_below_the_limit() {
    let mut joint = HoldingCurrent::new(5);
    assert_eq!(joint.observe(Some(100), 5, 400), CurrentSeen::Nothing);
    assert_eq!(joint.observe(None, 6, 400), CurrentSeen::Nothing);
    assert_eq!(joint.observe(Some(100), 6, 400), CurrentSeen::Counted);
    assert_eq!(joint.observe(Some(100), 6, 400), CurrentSeen::Nothing);
    assert_eq!(joint.observe(Some(-399), 7, 400), CurrentSeen::Counted);
    assert_eq!((joint.sum, joint.count), (-299, 2));
    assert_eq!(joint.observe(Some(-400), 8, 400), CurrentSeen::Saturated);
    assert_eq!(
        HoldingError::Saturated.message(0),
        "J1 holding current is saturated at this pose"
    );
    assert_eq!(first_silent(&[joint, HoldingCurrent::new(0)]), Some(1));
    assert_eq!(
        HoldingError::Silent.message(1),
        "J2 reported no holding current at this pose"
    );
    assert_eq!(first_of(&[false, true, true]), Some(1));
    assert_eq!(first_of(&[false]), None);
    assert_eq!(
        drifted_message(0, "0.0200", "0.0100"),
        "J1 drifted 0.0200 rad from the measured pose (limit 0.0100)"
    );
}

#[test]
fn joints_move_together_at_the_pace_of_the_slowest() {
    assert_eq!(pose_start(&[true, true], &[false, true]), PoseStart::There);
    assert_eq!(
        pose_start(&[true, false], &[false, true]),
        PoseStart::NotReferenced
    );
    assert_eq!(pose_start(&[true, false], &[true, true]), PoseStart::Move);
    assert_eq!(
        not_referenced_message(),
        "a synchronized move needs every joint referenced"
    );
    let key = |s: f64| s.to_bits();
    let demand = longest(&[key(0.1), key(2.5), key(2.5), key(1.0)], key(0.3));
    assert_eq!((f64::from_bits(demand.duration), demand.joint), (2.5, 1));
    let demand = longest(&[key(0.1), key(0.2)], key(0.3));
    assert_eq!((f64::from_bits(demand.duration), demand.joint), (0.3, 0));
    assert!(!pose_settled(8, 10, &[true]));
    assert!(pose_settled(9, 10, &[true]));
    assert!(!pose_settled(20, 10, &[false]));
    assert_eq!(furthest(&[3, 9, 9, 1]), Some(2));
    assert_eq!(furthest(&[]), None);
    assert_eq!(
        not_settled_message(2, "0.0300", "0.0100"),
        "synchronized move did not settle: J3 is 0.0300 rad from its target (limit 0.0100)"
    );
}

#[test]
fn events_are_told_in_one_line() {
    let text = |s: &str| s.to_owned();
    let line = |e: RunEvent| e.describe().unwrap();
    assert_eq!(
        line(RunEvent::Phase {
            joint: 0,
            name: text("home")
        }),
        "J1: home"
    );
    assert_eq!(
        line(RunEvent::Tool {
            node: 7,
            found: false
        }),
        "TOOL node 7: no gripper driver answered"
    );
    assert_eq!(
        line(RunEvent::Configure {
            tick: 9,
            joint: 1,
            limit: text("900"),
            at: -42
        }),
        "tick=9 J2 CONFIGURE limit=900mA encoder=-42"
    );
    assert_eq!(
        line(RunEvent::Contact {
            tick: 1,
            joint: 5,
            range: -3,
            requested: text("40"),
            below: text("10"),
            stopped: true,
            loaded: false
        }),
        "tick=1 J6 DETECT range=-3ticks requested=40ticks stall_below=10ticks stopped=true \
         loaded=false"
    );
    assert_eq!(
        line(RunEvent::LimitsStep {
            tick: 2,
            joint: 0,
            velocity: text("1.0000"),
            acceleration: text("2.0000"),
            jerk: text("3.0000"),
            failed: Some(text("ripple"))
        }),
        "tick=2 J1 LIMITS step velocity=1.0000rad/s acceleration=2.0000rad/s2 jerk=3.0000rad/s3 \
         failed: ripple"
    );
    assert_eq!(
        line(RunEvent::GainsStep {
            tick: 2,
            joint: 0,
            kpv: text("0.5"),
            kiv: text("0.25"),
            score: None,
            verdict: text("runaway; last sane gains restored")
        }),
        "tick=2 J1 GAINS step kpv=0.5 kiv=0.25 unstable runaway; last sane gains restored"
    );
    assert_eq!(
        line(RunEvent::Limits {
            tick: 2,
            joint: 0,
            velocity: text("1.0"),
            velocity_reached: false,
            acceleration: text("2.0"),
            jerk: text("3.0"),
            jerk_measured: true,
            ripple: text("4.5")
        }),
        "tick=2 J1 LIMITS velocity=1.0rad/s (lower bound) acceleration=2.0rad/s2 jerk=3.0rad/s3 \
         ripple=4.5%"
    );
    assert_eq!(
        line(RunEvent::IdentPose {
            number: 3,
            total: 20,
            q: text("[0.0]")
        }),
        "IDENT pose 3/20 q=[0.0]"
    );
    assert_eq!(
        line(RunEvent::ArmFit {
            before: text("0.5"),
            after: text("0.1")
        }),
        "IDENT residual 0.5 Nm -> 0.1 Nm"
    );
    assert!(RunEvent::Sample.describe().is_none());
}

#[test]
fn a_sample_is_a_row_a_joint() {
    let joint = |command: &str, position, fault| SampledJoint {
        command: command.to_owned(),
        position,
        speed: -5,
        current: 120,
        fault,
    };
    assert_eq!(
        sample_rows(
            77,
            &[joint("Idle", i32::MIN, false), joint("Poll", 3, true)]
        ),
        "77,1,\"Idle\",-2147483648,-5,120,0\n77,2,\"Poll\",3,-5,120,1\n"
    );
}

fn key(v: f64) -> u64 {
    v.to_bits()
}

#[test]
fn no_joint_is_asked_to_hold_quieter_than_one_encoder_count_per_tick() {
    let dt = 0.004;
    let configured = 1f64.to_radians();
    // Counts of very different size, of either sign.
    for per_tick in [0.000_88f64, -0.005_493, 0.002, -0.001_1].map(f64::to_radians) {
        let quantum = per_tick.abs() / dt;
        let limit = f64::from_bits(holding_limit(key(configured), key(quantum)));
        assert!(
            limit >= quantum,
            "holding limit {:.3} deg/s is below the {:.3} deg/s encoder quantum",
            limit.to_degrees(),
            quantum.to_degrees()
        );
        assert!(limit >= configured);
    }
    assert_eq!(moving_limit(key(0.08), key(0.15)), key(0.15));
    assert_eq!(moving_limit(key(0.08), key(0.01)), key(0.08));
}

#[test]
fn a_good_leg_does_not_hide_a_bad_one() {
    let m = |ratio: Option<f64>, settled: f64, hold: f64, stop| LegMeasure {
        moving_ratio: ratio.map(key),
        moving_rms: key(ratio.unwrap_or(0.0)),
        moving_limit: key(1.0),
        peak_command: key(2.0),
        holding_ratio: Some(key(hold / 0.5)),
        hold_rms: key(hold),
        holding_limit: key(0.5),
        settled: key(settled),
        peak_error: key(settled),
        peak_current: key(100.0),
        last: leg(Outcome::Complete, 1, Some(stop)),
    };
    let bad = m(Some(1.5), 0.1, 0.2, 1);
    let good = m(Some(0.5), 0.3, 0.1, 2);
    let both = bad.combine(good);
    assert_eq!(both.moving_ratio, Some(key(1.5)));
    assert_eq!(both.settled, key(0.3));
    assert_eq!(both.hold_rms, key(0.2));
    assert_eq!(both.last.stop, Some(2));
    let unmeasured = m(None, 0.0, 0.0, 3);
    assert_eq!(unmeasured.combine(good).moving_ratio, None);
    assert_eq!(good.combine(unmeasured).moving_ratio, None);
}

#[test]
fn a_failing_hold_is_not_hidden_by_a_wider_limit() {
    let held = |rms: f64, limit: f64| LegMeasure {
        moving_ratio: Some(key(0.0)),
        moving_rms: key(0.0),
        moving_limit: key(0.0),
        peak_command: key(0.0),
        holding_ratio: Some(key(rms / limit)),
        hold_rms: key(rms),
        holding_limit: key(limit),
        settled: key(0.0),
        peak_error: key(0.0),
        peak_current: key(0.0),
        last: leg(Outcome::Complete, 1, None),
    };
    let failing = held(1.5, 1.0);
    let passing = held(1.0, 2.0);
    for both in [failing.combine(passing), passing.combine(failing)] {
        assert_eq!(both.holding_ratio, Some(key(1.5)));
        assert!(both.holding_ratio > Some(key(1.0)));
        assert_eq!((both.hold_rms, both.holding_limit), (key(1.5), key(1.0)));
    }
}

#[test]
fn another_joints_failure_counts_only_where_this_ones_hold_passed() {
    let held = |acceptable, verified| HeldAfter {
        acceptable,
        verified,
        failed: vec![true, true, false],
        strayed: vec![9, 5, 7],
    };
    let end = finish_leg(0, &held(true, true));
    assert_eq!((end.outcome, end.passive), (Outcome::Complete, Some(1)));
    let end = finish_leg(0, &held(false, true));
    assert_eq!((end.outcome, end.passive), (Outcome::Tracking, None));
    let end = finish_leg(0, &held(true, false));
    assert_eq!((end.outcome, end.passive), (Outcome::Complete, None));
    assert!(already_there(MotionKind::Position, true));
    assert!(!already_there(MotionKind::Velocity, true));
    assert!(holds_in_velocity_mode(
        MotionKind::Velocity,
        Some(GainStage::VelocityI)
    ));
    assert!(!holds_in_velocity_mode(MotionKind::Velocity, None));
    assert!(!holds_in_velocity_mode(
        MotionKind::Position,
        Some(GainStage::Velocity)
    ));
}
