//! Payload sweeps.
use par6d::calibrate::{
    approach_pose, conclude, declared, estimated, measurable, moved, plan_poses, policy_restored,
    stopped, stops_after, swings, Finding, FrameStep, MoveAnswer, Passed, Protocol, StatusFrame,
    StopAnswer, Sweep, SweepError, Swing,
};

fn frame(seq: u64, time: u64, angles: u32) -> StatusFrame<u32> {
    StatusFrame {
        seq,
        age_ms: 10,
        ready: true,
        finite: true,
        streaming: true,
        ramped: true,
        time,
        angles,
    }
}

#[test]
fn the_wrist_is_swung_both_ways_around_where_it_is() {
    assert_eq!(
        swings(),
        [
            Swing::Start,
            Swing::Up(3),
            Swing::Down(3),
            Swing::Up(4),
            Swing::Down(4),
            Swing::Up(5),
            Swing::Down(5),
        ]
    );
}

#[test]
fn a_pose_needs_its_approaches_too() {
    let ok = Passed {
        inside: true,
        clear: true,
    };
    let hit = Passed {
        inside: true,
        clear: false,
    };
    let out = Passed {
        inside: false,
        clear: true,
    };
    assert!(measurable(&[ok, ok, ok]));
    assert!(!measurable(&[ok, hit, ok]));
    assert!(!measurable(&[ok, ok, out]));
    // All three have to be looked at.
    assert!(!measurable(&[]));
    assert!(!measurable(&[ok, ok]));
}

#[test]
fn fewer_than_three_poses_are_no_run() {
    let candidates = vec![1, 2, 3, 4];
    assert_eq!(
        plan_poses(&candidates, &vec![true, false, true, true]),
        Ok(vec![1, 3, 4])
    );
    assert_eq!(
        plan_poses(&candidates, &vec![true, false, true, false]),
        Err(
            "only 2 wrist poses are reachable and clear from here — move the arm somewhere with \
             room around the wrist and try again"
                .to_owned()
        )
    );
}

#[test]
fn an_approach_leaves_the_base_where_it_is() {
    assert_eq!(
        approach_pose(&vec![0, 1, 2, 3, 4, 5], &vec![10, 11, 12, 13, 14, 15]),
        [0, 11, 12, 13, 14, 15]
    );
}

#[test]
fn a_protocol_that_cannot_measure_is_refused() {
    let p = Protocol::standard(1, 2);
    assert_eq!(
        (p.settle, p.frames, p.pose_timeout),
        (250_000_000, 20, 30_000_000_000)
    );
    assert!(p.check(true, 3).is_ok());
    let refused = Err("invalid calibration poses or sampling protocol".to_owned());
    assert_eq!(p.check(false, 3), refused);
    assert_eq!(p.check(true, 0), refused);
    assert_eq!(Protocol { frames: 1, ..p }.check(true, 3), refused);
    assert_eq!(Protocol { pose_timeout: 0, ..p }.check(true, 3), refused);
    let late = Protocol {
        settle: p.pose_timeout,
        ..p
    };
    assert_eq!(late.check(true, 3), refused);
}

#[test]
fn a_stop_that_did_not_work_is_told() {
    let ok: Result<u8, String> = Ok(1);
    let bad: Result<u8, String> = Err("late".to_owned());
    assert_eq!(stopped(ok.clone(), StopAnswer::Confirmed), Ok(1));
    assert_eq!(
        stopped(bad.clone(), StopAnswer::Confirmed),
        Err("late".to_owned())
    );
    assert_eq!(
        stopped(ok, StopAnswer::Unconfirmed),
        Err("controller stop was not acknowledged".to_owned())
    );
    assert_eq!(
        stopped(bad, StopAnswer::Failed("gone".to_owned())),
        Err("late; controller stop failed: gone".to_owned())
    );
}

#[test]
fn a_move_that_was_under_way_is_stopped() {
    let failed = MoveAnswer::Failed {
        index: 7,
        why: "limit".to_owned(),
    };
    assert!(stops_after(&failed));
    assert_eq!(moved(failed), Err("move_j 7: limit".to_owned()));
    assert!(stops_after(&MoveAnswer::Late { index: 8 }));
    assert_eq!(
        moved(MoveAnswer::Late { index: 8 }),
        Err("move_j 8 did not complete in time".to_owned())
    );
    assert!(!stops_after(&MoveAnswer::Unconfirmed));
    assert_eq!(
        moved(MoveAnswer::Unconfirmed),
        Err("move_j went unconfirmed".to_owned())
    );
    assert_eq!(
        moved(MoveAnswer::Refused("busy".to_owned())),
        Err("move_j: busy".to_owned())
    );
    assert_eq!(moved(MoveAnswer::Complete { index: 9 }), Ok(()));
}

#[test]
fn a_sweep_counts_frames_over_a_long_enough_span() {
    let mut sweep: Sweep<u32> = Sweep::new(2, 0);
    let ms = 1_000_000;
    assert_eq!(sweep.frame(&frame(1, 0, 100), 0), FrameStep::Skip);
    assert_eq!(sweep.frame(&frame(2, 50 * ms, 101), 1), FrameStep::Skip);
    // A repeated frame is not new.
    assert_eq!(sweep.frame(&frame(2, 80 * ms, 102), 2), FrameStep::Skip);
    assert_eq!(
        sweep.frame(&frame(3, 80 * ms, 102), 3),
        FrameStep::Compare {
            then: 100,
            span: 80 * ms
        }
    );
    assert!(!sweep.compared(true));
    // The oldest mark goes once the next is a tenth of a second old.
    assert_eq!(
        sweep.frame(&frame(4, 160 * ms, 103), 4),
        FrameStep::Compare {
            then: 101,
            span: 110 * ms
        }
    );
    assert!(!sweep.compared(false));
    assert_eq!(
        sweep.frame(&frame(5, 170 * ms, 104), 5),
        FrameStep::Compare {
            then: 101,
            span: 120 * ms
        }
    );
    assert!(sweep.compared(true));
}

#[test]
fn a_sweep_takes_nothing_stale_or_unready() {
    let mut sweep: Sweep<u32> = Sweep::new(2, 0);
    let old = StatusFrame {
        age_ms: 101,
        ..frame(1, 0, 0)
    };
    assert_eq!(sweep.frame(&old, 9), FrameStep::Skip);
    assert_eq!(
        sweep.last_fresh, 0,
        "stale data does not count as being heard"
    );
    let idle = StatusFrame {
        streaming: false,
        ..frame(2, 0, 0)
    };
    assert_eq!(sweep.frame(&idle, 10), FrameStep::Skip);
    assert_eq!(sweep.last_fresh, 10);
    let lost = StatusFrame {
        ready: false,
        ..frame(3, 0, 0)
    };
    assert_eq!(
        sweep.frame(&lost, 11),
        FrameStep::Fail(SweepError::NotReady)
    );
    let nan = StatusFrame {
        finite: false,
        ..frame(4, 0, 0)
    };
    assert_eq!(
        sweep.frame(&nan, 12),
        FrameStep::Fail(SweepError::NotFinite)
    );
    assert_eq!(
        SweepError::NotReady.message("Some(E1)"),
        "gravity sweep lost readiness: Some(E1)"
    );
    assert_eq!(
        SweepError::NotFinite.message(""),
        "non-finite gravity sweep feedback"
    );
}

#[test]
fn a_sweep_that_hears_nothing_or_has_passed_its_pose_ends() {
    let sweep: Sweep<u32> = Sweep::new(20, 1_000);
    assert_eq!(sweep.beat(1_000 + 500_000_000, false), Ok(()));
    assert_eq!(
        sweep.beat(1_001 + 500_000_000, false),
        Err(SweepError::Silent)
    );
    let few = SweepError::TooFew {
        taken: 0,
        frames: 20,
    };
    assert_eq!(sweep.beat(2_000, true), Err(few));
    assert_eq!(
        few.message(""),
        "insufficient moving samples through pose: 0/20"
    );
    assert_eq!(
        SweepError::Silent.message(""),
        "status stopped during gravity sweep"
    );
    assert_eq!(
        SweepError::Closed.message(""),
        "status closed during gravity sweep"
    );
    assert_eq!(
        SweepError::Late.message(""),
        "moving gravity sample exceeded its time budget"
    );
}

#[test]
fn only_a_measured_and_possible_mass_is_declared() {
    let good = Finding {
        measured: true,
        possible: true,
    };
    assert_eq!(conclude(false, good, "", ""), Ok(false));
    assert_eq!(conclude(true, good, "", ""), Ok(true));
    let vague = Finding {
        measured: false,
        possible: true,
    };
    assert_eq!(conclude(false, vague, "", ""), Ok(false));
    assert_eq!(
        conclude(true, vague, "0.31", "1.0000"),
        Err(
            "the poses did not measure the mass (determined 0.31); give the wrist more room or a \
             wider spread"
                .to_owned()
        )
    );
    let negative = Finding {
        measured: true,
        possible: false,
    };
    assert_eq!(
        conclude(true, negative, "0.99", "-0.1000"),
        Err("refusing to declare a mass of -0.1000 kg".to_owned())
    );
}

#[test]
fn a_declaration_that_fails_is_taken_back() {
    assert_eq!(estimated(5, Ok(()), Ok(())), Ok(5));
    let refused = declared(StopAnswer::Unconfirmed);
    assert_eq!(
        refused,
        Err("set_payload was not acknowledged".to_owned())
    );
    assert_eq!(
        estimated(5, refused.clone(), Ok(())),
        Err("set_payload was not acknowledged".to_owned())
    );
    assert_eq!(
        estimated(5, refused, declared(StopAnswer::Failed("gone".to_owned()))),
        Err(
            "set_payload was not acknowledged; restoring payload: set_payload: gone".to_owned()
        )
    );
    assert_eq!(declared(StopAnswer::Confirmed), Ok(()));
    assert_eq!(policy_restored(Ok(1), Ok(())), Ok(1));
    assert_eq!(
        policy_restored(Ok(1), Err("gone".to_owned())),
        Err("restoring the completion policy: gone".to_owned())
    );
}
