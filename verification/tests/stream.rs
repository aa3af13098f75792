//! Streams: datagrams, housekeeping passes and the requests in flight.
use par6d::bridge::{Bridge, BusSwap};
use par6d::housekeeping::{Answer, Inquiry, Pace, Snapshot};
use par6d::runtime::{ErrorCode, Mode};
use par6d::stream::{
    jog_deadline, Activity, CartDatagram, CartJog, Effect, IkResult, JogDatagram, ServoDatagram,
    ServoGate, StreamCommand, Verdict,
};
use std::time::Duration;

type Arm = Bridge<i32, u8, ()>;
type Queue = Vec<Effect<i32, u8>>;

const GRACE: u64 = 300_000_000;
const BUDGET: u64 = 3_000_000_000;

fn blocked() -> Verdict {
    Verdict::Blocked {
        pairs: vec![("L6".to_owned(), "install:wall".to_owned())],
    }
}

fn jog(speeds: Option<i32>, differ: bool) -> JogDatagram<i32, u8> {
    JogDatagram {
        speeds,
        speeds_differ: differ,
        full: 100,
        accel: 50,
        accel_differs: false,
        deadline: 1_000,
    }
}

fn servo(target: i32) -> ServoDatagram<i32, u8> {
    ServoDatagram {
        target,
        speed: 80,
        accel: 40,
    }
}

fn gate(at_target: Verdict, ahead: Verdict, moving: bool) -> ServoGate<i32> {
    ServoGate {
        at_target,
        target_stop: 71,
        ahead,
        lookahead: 72,
        epoch: 5,
        moving,
    }
}

fn pace() -> Pace<u8> {
    Pace {
        servo_grace: GRACE,
        jog_ramp_cap: 1_000_000_000,
        placement_speed: 10,
        placement_accel: 20,
    }
}

fn snapshot(tick: u64) -> Snapshot<i32> {
    Snapshot {
        tick,
        mode: Mode::Stream,
        enabled: true,
        enable_seq: 0,
        q: 0,
        moving: false,
        still: true,
    }
}

fn entering(mode: Mode) -> [Effect<i32, u8>; 2] {
    [Effect::SetMode(Mode::Idle), Effect::SetMode(mode)]
}

#[test]
fn no_wire_duration_can_produce_an_unusable_jog_deadline() {
    // A wire duration as nanoseconds, where it is a number at all.
    let nanos = |s: f64| {
        if s.is_nan() {
            None
        } else {
            Some((s * 1e9) as i128)
        }
    };
    let ceiling = Duration::from_secs_f64(60.0).as_nanos() as u64;
    let now = 1_000_000;
    for hostile in [1e30, 1e19, f64::MAX, f64::INFINITY, f64::NAN, -1.0] {
        let deadline = jog_deadline(now, nanos(hostile), ceiling);
        assert!(
            deadline <= now + ceiling,
            "duration {hostile} armed the watchdog past the ceiling"
        );
        assert!(
            deadline >= now,
            "duration {hostile} armed it in the past"
        );
    }
    let deadline = jog_deadline(now, nanos(0.1), ceiling);
    assert!(deadline >= now + 100_000_000);
    assert!(deadline < now + 200_000_000);
}

#[test]
fn a_steady_jog_queues_one_command() {
    let mut arm: Arm = Bridge::new(true);
    let mut out: Queue = Vec::new();
    let datagram = |speeds, differ| StreamCommand::JogJ {
        jog: jog(speeds, differ),
        verdict: Verdict::Clear,
    };
    arm.stream(datagram(Some(3), true), 0, GRACE, &mut out).unwrap();
    let jogged = Effect::Jog {
        speeds: 3,
        accel: 50,
    };
    assert_eq!(out[..2], entering(Mode::Jog));
    assert_eq!(out[2..], [jogged]);
    out.clear();
    arm.stream(datagram(Some(3), false), 1, GRACE, &mut out).unwrap();
    assert_eq!(out, []);
    arm.stream(datagram(None, true), 2, GRACE, &mut out).unwrap();
    arm.stream(datagram(None, false), 3, GRACE, &mut out).unwrap();
    assert_eq!(out, [Effect::JogRelease], "a release is queued once");
}

#[test]
fn a_jog_that_would_collide_is_refused_and_changes_nothing() {
    let mut arm: Arm = Bridge::new(true);
    let mut out: Queue = Vec::new();
    let cmd = StreamCommand::JogJ {
        jog: jog(Some(3), true),
        verdict: blocked(),
    };
    let e = arm.stream(cmd, 0, GRACE, &mut out).unwrap_err();
    assert_eq!(e.code(), ErrorCode::SysSelfCollision);
    assert_eq!(e.detail(), "[L6, install:wall]");
    assert!(arm.streaming.stream.is_none() && out.is_empty());
    assert!(arm.streaming.latch.active);
    // Letting go is never refused.
    let cmd = StreamCommand::JogJ {
        jog: jog(None, true),
        verdict: blocked(),
    };
    arm.stream(cmd, 0, GRACE, &mut out).unwrap();
}

#[test]
fn a_refused_target_stops_a_moving_arm_on_the_standoff() {
    let mut arm: Arm = Bridge::new(true);
    let mut out: Queue = Vec::new();
    let cmd = |g| StreamCommand::ServoJ {
        servo: servo(9),
        gate: g,
    };
    // An arm at rest is simply refused.
    let at_rest = gate(blocked(), Verdict::Clear, false);
    assert!(arm.stream(cmd(at_rest), 0, GRACE, &mut out).is_err());
    assert!(arm.streaming.stream.is_none() && out.is_empty());
    // A moving one is released, and the refusal owns it.
    let moving = gate(Verdict::Clear, blocked(), true);
    assert!(arm.stream(cmd(moving), 0, GRACE, &mut out).is_err());
    assert_eq!(out, [Effect::JogRelease, Effect::StreamRelease]);
    let stream = arm.streaming.stream.unwrap();
    assert_eq!(
        stream.activity,
        Activity::Braking {
            goal: 72,
            still: 0,
            still_tick: 0
        }
    );
    assert_eq!(stream.deadline, BUDGET);
    out.clear();
    let clear = gate(Verdict::Clear, Verdict::Clear, true);
    let e = arm.stream(cmd(clear), 1, GRACE, &mut out).unwrap_err();
    assert_eq!(e.detail(), "[L6, install:wall]");
    assert!(out.is_empty());
    assert!(arm.stop_refused_stream(&mut out), "a refusal is not cancelled");

    // Eight fresh snapshots at rest, then the arm is placed.
    for tick in 1..8 {
        assert_eq!(
            arm.streaming.inquiry(10, &snapshot(tick), 5),
            Inquiry::Nothing
        );
        arm.housekeep(10, &snapshot(tick), 5, Answer::Nothing, &pace(), 1, &mut out);
        // The same snapshot again counts once.
        arm.housekeep(10, &snapshot(tick), 5, Answer::Nothing, &pace(), 1, &mut out);
    }
    assert_eq!(
        arm.streaming.inquiry(10, &snapshot(8), 5),
        Inquiry::Standoff { goal: 72 }
    );
    let answer = Answer::Standoff {
        stop: 50,
        arrived: false,
    };
    arm.housekeep(10, &snapshot(8), 5, answer, &pace(), 1, &mut out);
    let placed = |q| Effect::Setpoint {
        q,
        speed: 10,
        accel: 20,
    };
    assert_eq!(out[..2], entering(Mode::Stream));
    assert_eq!(out[2..], [placed(50)]);
    out.clear();
    assert_eq!(
        arm.streaming.inquiry(11, &snapshot(9), 5),
        Inquiry::Placement { stop: 50 }
    );
    let on_the_way = Answer::Placement {
        arrived: false,
        next: 49,
    };
    arm.housekeep(11, &snapshot(9), 5, on_the_way, &pace(), 1, &mut out);
    assert_eq!(out, [placed(49)]);
    let there = Answer::Placement {
        arrived: true,
        next: 50,
    };
    arm.housekeep(12, &snapshot(10), 5, there, &pace(), 1, &mut out);
    let stream = arm.streaming.stream.unwrap();
    assert_eq!(stream.activity, Activity::Servo { target: 50 });
    assert_eq!(stream.deadline, 12 + GRACE);
}

#[test]
fn a_pose_that_does_not_resolve_moves_nothing() {
    let mut arm: Arm = Bridge::new(true);
    let mut out: Queue = Vec::new();
    let cmd = |ik| StreamCommand::ServoPose {
        ik,
        speed: 80,
        accel: 40,
        gate: gate(Verdict::Clear, Verdict::Clear, false),
    };
    arm.stream(cmd(IkResult::Unreachable), 0, GRACE, &mut out).unwrap();
    arm.stream(cmd(IkResult::Failed), 0, GRACE, &mut out).unwrap();
    assert!(out.is_empty() && arm.streaming.stream.is_none());
    arm.stream(cmd(IkResult::Solved { q: 4 }), 0, GRACE, &mut out)
        .unwrap();
    assert_eq!(out[..2], entering(Mode::Stream));
    assert_eq!(
        out[2..],
        [Effect::Setpoint {
            q: 4,
            speed: 80,
            accel: 40
        }]
    );
    assert_eq!(arm.streaming.servo_seed(), Some(4));
    assert_eq!(arm.streaming.cart_seed(), None);
}

#[test]
fn a_held_target_is_kept_alive_until_the_client_is_silent() {
    let mut arm: Arm = Bridge::new(true);
    let mut out: Queue = Vec::new();
    let cmd = StreamCommand::ServoJ {
        servo: servo(9),
        gate: gate(Verdict::Clear, Verdict::Clear, false),
    };
    arm.stream(cmd, 0, GRACE, &mut out).unwrap();
    out.clear();
    // A world that changed is asked about the target.
    assert_eq!(
        arm.streaming.inquiry(1, &snapshot(1), 6),
        Inquiry::HeldTarget { target: 9 }
    );
    assert_eq!(
        arm.streaming.inquiry(1, &snapshot(1), 5),
        Inquiry::Nothing
    );
    arm.housekeep(1, &snapshot(1), 5, Answer::Nothing, &pace(), 1, &mut out);
    assert_eq!(
        out,
        [Effect::Setpoint {
            q: 9,
            speed: 80,
            accel: 40
        }]
    );
    out.clear();
    arm.housekeep(GRACE, &snapshot(2), 5, Answer::Nothing, &pace(), 1, &mut out);
    assert!(arm.streaming.stream.is_none(), "silence ends the stream");
    assert!(!out.is_empty());
}

#[test]
fn a_cartesian_jog_goes_on_from_where_it_is() {
    let mut arm: Arm = Bridge::new(true);
    let mut out: Queue = Vec::new();
    let cmd = |verdict| StreamCommand::JogL {
        jog: CartDatagram {
            cart: CartJog { motion: (), q: 1 },
            full: 100,
            accel: 50,
            deadline: 1_000,
        },
        verdict,
    };
    assert!(arm
        .stream(cmd(Some(blocked())), 0, GRACE, &mut out)
        .is_err());
    arm.stream(cmd(None), 0, GRACE, &mut out).unwrap();
    assert_eq!(out[..], entering(Mode::Stream));
    assert_eq!(arm.streaming.cart_seed(), Some(1));
    out.clear();
    let step = Answer::CartStep {
        q: 2,
        verdict: Verdict::Clear,
    };
    arm.housekeep(1, &snapshot(1), 5, step, &pace(), 1, &mut out);
    assert_eq!(arm.streaming.cart_seed(), Some(2));
    let hit = Answer::CartStep {
        q: 3,
        verdict: blocked(),
    };
    arm.housekeep(2, &snapshot(2), 5, hit, &pace(), 1, &mut out);
    assert!(arm.streaming.latch.active, "a predicted collision stands");
    assert!(out.contains(&Effect::StreamRelease));
}

#[test]
fn an_enable_gets_its_own_answer() {
    let mut arm: Arm = Bridge::new(true);
    let mut out: Queue = Vec::new();
    arm.set_enabled(true, 0, &mut out);
    assert_eq!(out, [Effect::SetSoftEstop(false), Effect::ClearErrors]);
    out.clear();
    let tick = 4_000_000;
    // A reading from before the request is not its answer.
    arm.housekeep(1, &snapshot(1), 0, Answer::Nothing, &pace(), tick, &mut out);
    assert_eq!(out, [Effect::Enable]);
    assert!(arm.take_enable_outcome().is_none());
    arm.housekeep(2, &snapshot(2), 0, Answer::Nothing, &pace(), tick, &mut out);
    assert_eq!(out.len(), 1, "retries are spaced");
    let answered = Snapshot {
        enable_seq: 1,
        ..snapshot(3)
    };
    arm.housekeep(3, &answered, 0, Answer::Nothing, &pace(), tick, &mut out);
    assert!(matches!(arm.take_enable_outcome(), Some(Ok(()))));
    assert!(arm.take_enable_outcome().is_none(), "collected once");

    arm.set_enabled(true, 0, &mut out);
    let refused = Snapshot {
        enabled: false,
        ..snapshot(4)
    };
    arm.housekeep(
        5_000_000_000,
        &refused,
        0,
        Answer::Nothing,
        &pace(),
        tick,
        &mut out,
    );
    let e = arm.take_enable_outcome().unwrap().unwrap_err();
    assert_eq!(e.code(), ErrorCode::SysControllerDisabled);

    arm.set_enabled(true, 0, &mut out);
    out.clear();
    arm.set_enabled(false, 1, &mut out);
    assert_eq!(out, [Effect::SetSoftEstop(true)]);
    let e = arm.take_enable_outcome().unwrap().unwrap_err();
    assert_eq!(e.code(), ErrorCode::SysEstopActive);
}

#[test]
fn flashing_is_entered_exactly_and_left_anywhere() {
    let mut arm: Arm = Bridge::new(true);
    let mut out: Queue = Vec::new();
    let at = |mode| Snapshot {
        mode,
        ..snapshot(1)
    };
    arm.enter_flashing(0, &mut out);
    arm.housekeep(1, &at(Mode::Idle), 0, Answer::Nothing, &pace(), 1, &mut out);
    assert!(arm.take_flashing_outcome().is_none());
    arm.housekeep(2, &at(Mode::Flashing), 0, Answer::Nothing, &pace(), 1, &mut out);
    assert!(matches!(arm.take_flashing_outcome(), Some(Ok(()))));
    arm.exit_flashing(3, &mut out);
    arm.housekeep(4, &at(Mode::ActiveError), 0, Answer::Nothing, &pace(), 1, &mut out);
    assert!(matches!(arm.take_flashing_outcome(), Some(Ok(()))));
    arm.enter_flashing(0, &mut out);
    arm.housekeep(
        2_000_000_000,
        &at(Mode::Exec),
        0,
        Answer::Nothing,
        &pace(),
        1,
        &mut out,
    );
    let e = arm.take_flashing_outcome().unwrap().unwrap_err();
    assert_eq!(
        e.detail(),
        "the controller mode stayed Exec: FLASHING is reachable only from IDLE and ACTIVE_ERROR"
    );
}

#[test]
fn a_halt_stops_the_stream_and_drops_what_is_planned() {
    let mut arm: Arm = Bridge::new(true);
    let mut out: Queue = Vec::new();
    let cmd = StreamCommand::JogJ {
        jog: jog(Some(3), true),
        verdict: Verdict::Clear,
    };
    arm.stream(cmd, 0, GRACE, &mut out).unwrap();
    out.clear();
    arm.halt(&mut out);
    assert!(arm.streaming.stream.is_none());
    assert_eq!(
        out,
        [
            Effect::JogRelease,
            Effect::MarkFlush,
            Effect::ExecFlush,
            Effect::SetMode(Mode::Idle)
        ]
    );
    out.clear();
    arm.discard_exec(&mut out);
    assert_eq!(
        out,
        [
            Effect::MarkFlush,
            Effect::ExecFlush,
            Effect::SetMode(Mode::Idle)
        ]
    );
    out.clear();
    arm.reset_state(&mut out);
    assert_eq!(out, [Effect::ClearErrors]);
    out.clear();
    arm.cancel_stream(&mut out);
    assert_eq!(out, [Effect::JogRelease, Effect::SetMode(Mode::Idle)]);
    arm.stream(StreamCommand::Other, 0, GRACE, &mut out).unwrap();
}

#[test]
fn a_swap_to_hardware_takes_only_if_it_opened() {
    let mut arm: Arm = Bridge::new(true);
    assert_eq!(arm.set_simulator(true), BusSwap::Keep);
    assert_eq!(arm.set_simulator(false), BusSwap::ToHardware);
    let e = arm
        .swapped(BusSwap::ToHardware, "can0", Err("down".to_owned()))
        .unwrap_err();
    assert_eq!(e.detail(), "cannot open 'can0': down");
    assert!(arm.sim);
    arm.swapped(BusSwap::ToHardware, "can0", Ok(())).unwrap();
    assert!(!arm.sim);
    assert_eq!(arm.set_simulator(true), BusSwap::ToSimulator);
    arm.swapped(BusSwap::ToSimulator, "", Ok(())).unwrap();
    assert!(arm.sim);
}

#[test]
fn a_pose_does_not_take_the_arm_from_a_standing_refusal() {
    let mut arm: Arm = Bridge::new(true);
    let mut out: Queue = Vec::new();
    let target = StreamCommand::ServoJ {
        servo: servo(9),
        gate: gate(Verdict::Clear, blocked(), true),
    };
    assert!(arm.stream(target, 0, GRACE, &mut out).is_err());
    out.clear();
    let refused = arm.streaming.stream;
    let pose = |ik| StreamCommand::ServoPose {
        ik,
        speed: 80,
        accel: 40,
        gate: gate(Verdict::Clear, Verdict::Clear, false),
    };
    let e = arm
        .stream(pose(IkResult::Solved { q: 4 }), 1, GRACE, &mut out)
        .unwrap_err();
    assert_eq!(e.detail(), "[L6, install:wall]");
    assert!(out.is_empty());
    assert_eq!(arm.streaming.stream, refused, "the standoff is kept");
    // A pose that does not resolve is dropped all the same.
    arm.stream(pose(IkResult::Unreachable), 1, GRACE, &mut out).unwrap();
    assert_eq!(arm.streaming.stream, refused);
}
