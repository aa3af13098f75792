//! Drives that fault, go quiet and come back.
use par6d::selfcal::drives::{
    all_positioned, begin_recovery, check_tool, fault_message, judge, lost_message, pace, plan_tick, refresh,
    unhealthy_message, Drive, ErrorFlags, Judgement, Paced, Recovery, RecoveryStep, TickPlan,
    ToolCheck, MAX_RECOVERIES,
};
use par6d::selfcal::startup::{
    config_frames, not_up_message, ramp_sweeps, restless_message, tool_message, Bringup,
    BringupCommand, BringupStep, ConfigKind, HoldPreparation, HoldStep,
};

fn no_flags() -> ErrorFlags {
    ErrorFlags {
        error: false,
        temperature: false,
        encoder: false,
        vbus: false,
        driver: false,
        velocity: false,
        current: false,
        estop: false,
        watchdog: false,
        calibrated: true,
        activated: true,
    }
}

fn drive() -> Drive {
    Drive {
        flags: Some(no_flags()),
        live_error_bit: false,
        seen: 0,
        generation: 0,
    }
}

/// Six drives on a bus, of which one is silent for a while.
struct Bus {
    drives: Vec<Drive>,
    counts: Vec<u64>,
    tick: u64,
    muted: usize,
    from: u64,
    to: u64,
}

impl Bus {
    /// One tick: every drive but a muted one reports.
    fn exchange(&mut self) {
        self.tick += 1;
        for (j, count) in self.counts.iter_mut().enumerate() {
            let silent = j == self.muted && (self.from..self.to).contains(&self.tick);
            if !silent {
                *count += 1;
            }
        }
        refresh(&mut self.drives, &self.counts, self.tick);
    }
}

#[test]
fn a_drive_that_goes_quiet_and_returns_does_not_end_the_run() {
    let dt = 0.004;
    let timeout_s = 0.2;
    let timeout = (timeout_s / dt as f64).round() as u64;
    // Ten times the timeout, and well inside the recovery window.
    let silence = 10 * timeout;
    let start = 600;
    let window = 15 * timeout;
    let mut bus = Bus {
        drives: vec![drive(); 6],
        counts: vec![0; 6],
        tick: 0,
        muted: 0,
        from: start,
        to: start + silence,
    };
    let mut recoveries = 0;
    let mut gaps = Vec::new();
    while bus.tick < start + silence + 200 {
        match plan_tick(&bus.drives, None, bus.tick, timeout, false, false, true, false) {
            TickPlan::Proceed => bus.exchange(),
            TickPlan::Recover { joint } => {
                let mut wait = begin_recovery(&mut recoveries, joint, bus.tick, window, false)
                    .expect("the first wait of the run");
                let mut step = wait.opened(bus.tick);
                while step == RecoveryStep::Hold {
                    bus.exchange();
                    step = wait.observe(&bus.drives, None, bus.tick, timeout);
                }
                let RecoveryStep::Answered { silent } = step else {
                    panic!("tick {}: {step:?}", bus.tick);
                };
                gaps.push((joint, silent as f64 * dt));
            }
            other => panic!("tick {}: {other:?}", bus.tick),
        }
    }
    assert_eq!(gaps.len(), 1, "expected one recovery, got {gaps:?}");
    assert_eq!(gaps[0].0, 0, "the silent joint was J1");
    let muted_s = silence as f64 * dt;
    assert!(
        (gaps[0].1 - (muted_s - timeout_s)).abs() <= 2.0 * dt,
        "J1 was muted {muted_s:.2} s and detected after {timeout_s:.2} s; the run reported {:.2} s",
        gaps[0].1
    );
}

#[test]
fn a_drive_that_does_not_return_is_lost() {
    let mut recoveries = 0;
    let mut wait = begin_recovery(&mut recoveries, 1, 100, 2, false).unwrap();
    let drives = [drive(), drive()];
    assert_eq!(
        wait.observe(&drives, None, 101, 5),
        RecoveryStep::Hold,
        "both were last seen at tick zero"
    );
    assert_eq!(
        wait.observe(&drives, None, 102, 5),
        RecoveryStep::Lost { silent: 2 }
    );
    let none = Recovery {
        joint: 0,
        started: 7,
        left: 0,
        blind_before: false,
    };
    assert_eq!(none.opened(9), RecoveryStep::Lost { silent: 2 });
    let mut recoveries = MAX_RECOVERIES;
    assert_eq!(
        begin_recovery(&mut recoveries, 1, 100, 2, false),
        Err(MAX_RECOVERIES + 1)
    );
    assert_eq!(
        unhealthy_message(25),
        "drives stopped answering 25 times in one run; the bus is not healthy"
    );
    assert_eq!(
        lost_message(0, "15.0"),
        "J1 did not come back in 15.0s of silence"
    );
}

#[test]
fn a_fault_outranks_silence_and_the_first_joint_is_named() {
    let mut drives = [drive(); 3];
    assert_eq!(judge(&drives, None, 3, 5), Judgement::Healthy);
    drives[1].live_error_bit = true;
    assert_eq!(judge(&drives, None, 3, 5), Judgement::Silent { joint: 1 });
    drives[2].flags = Some(ErrorFlags {
        vbus: true,
        ..no_flags()
    });
    assert_eq!(judge(&drives, None, 3, 5), Judgement::Faulted { joint: 2 });
    assert_eq!(
        judge(&drives, Some(0), 3, 5),
        Judgement::Healthy,
        "only the watched joint has a say"
    );
    let mut wait = begin_recovery(&mut 0, 2, 3, 9, false).unwrap();
    assert_eq!(wait.observe(&drives, None, 4, 5), RecoveryStep::Faulted);
    assert_eq!(
        plan_tick(&drives, None, 3, 5, false, false, true, true),
        TickPlan::Proceed,
        "feedback is not required"
    );
    assert_eq!(
        plan_tick(&drives, None, 3, 5, true, false, false, false),
        TickPlan::Cancelled
    );
    assert_eq!(
        plan_tick(&drives, None, 3, 5, true, true, false, false),
        TickPlan::Proceed,
        "a run that is stopping is not cancelled again"
    );
    assert_eq!(
        fault_message(2, "vbus"),
        "J3 reported a drive fault: vbus"
    );
}

#[test]
fn a_tick_is_paced_from_the_one_before() {
    let paced = |start, next| Some(Paced { start, next });
    assert_eq!(pace(0, 1_000, true, 500, 4_000), paced(1_000, 5_000));
    assert_eq!(pace(5_000, 5_400, true, 500, 4_000), paced(5_000, 9_000));
    assert_eq!(pace(5_000, 5_501, true, 500, 4_000), None);
    assert_eq!(pace(5_000, 5_501, false, 500, 4_000), paced(5_000, 9_000));
}

#[test]
fn drives_come_up_once_all_report_everything() {
    let mut up = Bringup::new(4);
    assert_eq!(up.command(), BringupCommand::Poll);
    assert_eq!(up.observe(false, false), BringupStep::Waiting);
    assert_eq!(up.observe(true, false), BringupStep::Adopt);
    assert_eq!(up.command(), BringupCommand::Hold);
    assert_eq!(up.observe(true, true), BringupStep::Up);
    let mut up = Bringup::new(1);
    assert_eq!(up.observe(true, false), BringupStep::TimedOut);
    assert_eq!(
        not_up_message(),
        "not all six drives supplied position, velocity and current feedback"
    );
    assert!(!all_positioned(&[drive()]));
}

#[test]
fn a_drive_is_configured_in_three_rounds() {
    let round = [
        ConfigKind::Limits,
        ConfigKind::VelocityGains,
        ConfigKind::PositionGains,
    ];
    assert_eq!(config_frames(), [round, round, round].concat());
    assert_eq!(ramp_sweeps(0, 6), 0);
    assert_eq!(ramp_sweeps(12, 6), 2);
    assert_eq!(ramp_sweeps(13, 6), 3);
    assert_eq!(
        restless_message(4, "0.5000", "2.2000"),
        "J5 will not hold still at startup: 0.5000deg, 2.2000deg/s"
    );
}

#[test]
fn the_bus_must_agree_about_the_tool() {
    assert_eq!(check_tool(true, true), ToolCheck::Agrees);
    assert_eq!(check_tool(false, false), ToolCheck::Agrees);
    assert_eq!(check_tool(true, false), ToolCheck::NotFitted);
    assert_eq!(check_tool(false, true), ToolCheck::NotDeclared);
    assert_eq!(
        tool_message("MSG", 7, true),
        "config names `MSG`, a tool with a CAN driver, but none answered on node 7. Fit it, or \
         select a passive tool such as `Flange`."
    );
    assert_eq!(
        tool_message("Flange", 7, false),
        "config names `Flange`, a passive tool, but a gripper driver answered on node 7. Select \
         the tool that is fitted: its mass is most of the wrist's load."
    );
}

#[test]
fn holding_is_verified_only_when_every_joint_is_quiet() {
    let mut preparation = HoldPreparation::new();
    assert_eq!(preparation.step, HoldStep::Observe);
    preparation.observed(&[false, true, true]);
    assert_eq!(preparation.step, HoldStep::Tune { joint: 1 });
    preparation.tuned();
    assert_eq!(preparation.step, HoldStep::Observe);
    preparation.observed(&[false, false, true]);
    assert_eq!(preparation.step, HoldStep::Tune { joint: 2 });
    preparation.tuned();
    preparation.observed(&[false; 3]);
    assert_eq!(preparation.step, HoldStep::Verified);
}
