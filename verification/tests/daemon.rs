//! The daemon's start and stop.
use par6d::daemon::{
    flash_marker, gravity_model, leaves, ready_line, resolve_loop_bands, resolve_stream_timeout, runs_realtime, server_config,
    starts_without_gravity, tool_dof, Daemon, Endpoints, GrantLog, GravityModel, Leave, RtPhase, StartStep, Startup,
    StopStep,
};
use par6d::options::{Options, StatusTransport};

fn options() -> Options<u8> {
    Options {
        sim: false,
        sim_dynamics: false,
        command_port: None,
        bind: None,
        status_host: None,
        status_port: None,
        telemetry_port: None,
        status_transport: None,
        status_rate_hz: None,
        parent_pid: None,
    }
}

fn steps(opts: &Options<u8>) -> Vec<StartStep> {
    let mut startup = Startup::new(opts);
    let mut out = Vec::new();
    while let Some(step) = startup.step() {
        out.push(step);
        if startup.took(Ok(())).is_err() {
            break;
        }
    }
    out
}

fn failure(opts: &Options<u8>, at: StartStep, why: &str) -> String {
    let mut startup = Startup::new(opts);
    while let Some(step) = startup.step() {
        if step == at {
            return startup.took(Err(why.to_owned())).unwrap_err().message();
        }
        startup.took(Ok(())).unwrap();
    }
    panic!("{at:?} is not a step of this start");
}

#[derive(Clone, Copy, Debug, PartialEq)]
struct Timing {
    degraded_factor: f64,
    critical_factor: f64,
    critical_sustain_s: f64,
}

#[test]
fn sim_relaxes_the_loop_bands_but_never_overrides_a_declared_section() {
    let arm = Timing {
        degraded_factor: 1.2,
        critical_factor: 1.5,
        critical_sustain_s: 1.0,
    };
    let sim = Timing {
        degraded_factor: 4.0,
        critical_factor: 10.0,
        critical_sustain_s: 5.0,
    };
    assert_eq!(resolve_loop_bands(false, None, sim, arm), arm);
    assert_eq!(resolve_loop_bands(true, None, sim, arm), sim);

    let tight = Timing {
        degraded_factor: 1.01,
        critical_factor: 1.02,
        critical_sustain_s: 0.1,
    };
    assert_eq!(resolve_loop_bands(true, Some(tight), sim, arm), tight);
    assert_eq!(resolve_loop_bands(false, Some(tight), sim, arm), tight);
}

#[test]
fn the_flash_marker_reports_a_flash_on_every_flashing_exit() {
    let mut marker = flash_marker();
    assert!(marker.flashed(), "a flash cannot be told from a scan");
    assert!(
        marker.flashed(),
        "consulted once per window — a second window must invalidate too"
    );
}

#[test]
fn hardware_needs_a_real_estop_line_and_sim_never_asks_for_one() {
    let sim = Options {
        sim: true,
        ..options()
    };
    assert!(!steps(&sim).contains(&StartStep::Estop));
    let msg = failure(&options(), StartStep::Estop, "ESTOP_1: no such chip");
    assert!(msg.contains("ESTOP_1"), "the refusal names the line: {msg}");
    assert_eq!(
        msg,
        "ESTOP_1: no such chip — the physical e-stop must be readable before the arm moves; \
         run with --sim for the simulator"
    );
}

#[test]
fn the_arm_starts_in_the_order_an_operator_puts_it_right() {
    assert_eq!(
        steps(&options()),
        [
            StartStep::ConfigPath,
            StartStep::Config,
            StartStep::Kinematics,
            StartStep::Motion,
            StartStep::Bus,
            StartStep::Estop,
            StartStep::Lines,
            StartStep::Core,
            StartStep::Planner,
            StartStep::Server,
            StartStep::RtThread,
            StartStep::TeeThread,
            StartStep::HousekeepingThread,
        ]
    );
    let sim = Options {
        sim: true,
        sim_dynamics: true,
        status_rate_hz: Some(50),
        ..options()
    };
    assert_eq!(
        steps(&sim)[..6],
        [
            StartStep::ConfigPath,
            StartStep::Config,
            StartStep::StatusRate,
            StartStep::Kinematics,
            StartStep::Motion,
            StartStep::PlantModel,
        ]
    );
}

#[test]
fn a_torque_level_plant_needs_the_simulator() {
    let wrong = Options {
        sim_dynamics: true,
        ..options()
    };
    assert_eq!(
        steps(&wrong),
        [
            StartStep::ConfigPath,
            StartStep::Config,
            StartStep::RefusePlant
        ]
    );
    assert_eq!(
        failure(&wrong, StartStep::RefusePlant, ""),
        "--sim-dynamics is a simulator plant; add --sim or drop it"
    );
}

#[test]
fn every_failure_of_the_start_is_one_line() {
    let opts = options();
    let sim = Options {
        sim: true,
        sim_dynamics: true,
        ..options()
    };
    assert_eq!(failure(&opts, StartStep::ConfigPath, "none"), "none");
    assert_eq!(failure(&opts, StartStep::Config, "bad"), "config: bad");
    assert_eq!(
        failure(&opts, StartStep::Kinematics, "bad"),
        "kinematics: bad"
    );
    assert_eq!(failure(&opts, StartStep::Motion, "bad"), "motion: bad");
    assert_eq!(
        failure(&sim, StartStep::PlantModel, "/a/b.urdf"),
        "kinematics: sim-dynamics URDF missing: /a/b.urdf"
    );
    assert_eq!(
        failure(&opts, StartStep::Bus, "can0 is down"),
        "can0 is down — run with --sim for the simulator"
    );
    assert_eq!(
        failure(&opts, StartStep::Lines, "line 7"),
        "line 7 — fix the `[io]` section or the wiring; run with --sim for the simulator"
    );
    assert_eq!(failure(&opts, StartStep::Core, "bad"), "RT core: bad");
    assert_eq!(
        failure(&opts, StartStep::Server, "in use"),
        "command plane: in use"
    );
}

#[test]
fn an_override_beats_the_configuration_and_nothing_else_does() {
    let configured = Endpoints {
        bind: 1,
        command_port: 6001,
        status_host: 2,
        status_port: 6002,
        telemetry_port: 6003,
        status_transport: StatusTransport::Auto,
    };
    assert_eq!(server_config(&options(), configured), configured);
    let given = Options {
        command_port: Some(0),
        bind: Some(9),
        status_host: Some(8),
        status_port: Some(7),
        telemetry_port: Some(6),
        status_transport: Some(StatusTransport::Unicast),
        ..options()
    };
    assert_eq!(
        server_config(&given, configured),
        Endpoints {
            bind: 9,
            command_port: 0,
            status_host: 8,
            status_port: 7,
            telemetry_port: 6,
            status_transport: StatusTransport::Unicast,
        }
    );
    assert_eq!((tool_dof(true), tool_dof(false)), (1, 0));
}

#[test]
fn the_simulator_waits_out_a_silent_stream() {
    let grace = 300_000_000;
    assert_eq!(resolve_stream_timeout(false, 40_000_000, grace), 40_000_000);
    assert_eq!(resolve_stream_timeout(true, 40_000_000, grace), 600_000_000);
    assert_eq!(
        resolve_stream_timeout(true, 900_000_000, grace),
        900_000_000
    );
    assert!(starts_without_gravity(true, false));
    assert!(!starts_without_gravity(true, true));
    assert!(!starts_without_gravity(false, false));
    assert!(runs_realtime(false) && !runs_realtime(true));
}

#[test]
fn a_stop_ends_the_server_then_the_threads_then_the_runtime() {
    let mut daemon = Daemon::started("addr", 6002, 6003, 3);
    assert_eq!(daemon.command_addr(), "addr");
    assert_eq!(daemon.status_port(), 6002);
    assert_eq!(daemon.telemetry_port(), 6003);
    assert_eq!(
        daemon.shutdown(),
        [
            StopStep::NotifyServer,
            StopStep::Grace,
            StopStep::DropServer,
            StopStep::FlagThreads,
            StopStep::Join { thread: 0 },
            StopStep::Join { thread: 1 },
            StopStep::Join { thread: 2 },
            StopStep::DrainRuntime,
        ]
    );
    assert_eq!(daemon.shutdown(), [StopStep::FlagThreads]);
}

#[test]
fn what_is_queued_is_applied_before_the_control_loop_goes_on() {
    assert_eq!(RtPhase::Top.next(false, true), RtPhase::Drained);
    assert_eq!(RtPhase::Drained.next(false, true), RtPhase::Top);
    assert_eq!(RtPhase::Drained.next(true, false), RtPhase::Top);
    assert_eq!(RtPhase::Drained.next(false, false), RtPhase::Running);
    assert_eq!(RtPhase::Running.next(false, true), RtPhase::Top);
    assert_eq!(RtPhase::Top.next(true, false), RtPhase::Stopping);
    assert_eq!(RtPhase::Stopping.next(false, false), RtPhase::Stopping);
}

#[test]
fn a_failing_bus_signal_is_logged_once_a_streak() {
    let mut log = GrantLog { failing: false };
    let logged: Vec<bool> = [true, false, false, true, false]
        .into_iter()
        .map(|ok| log.wrote(ok))
        .collect();
    assert_eq!(logged, [false, true, false, false, true]);
}

#[test]
fn a_client_waits_for_one_line_and_an_orphan_stops() {
    assert_eq!(
        ready_line(6001, 50510, true),
        "PAR6D_READY command_port=6001 status_port=50510 sim=true"
    );
    assert_eq!(leaves(false, None, 1), None);
    assert_eq!(leaves(false, Some(42), 42), None);
    assert_eq!(leaves(false, Some(42), 1), Some(Leave::Orphaned));
    assert_eq!(leaves(true, Some(42), 1), Some(Leave::Signal));
}

#[test]
fn gravity_is_that_of_the_body_that_swings() {
    assert_eq!(gravity_model(true), GravityModel::Flange);
    assert_eq!(gravity_model(false), GravityModel::ArmWithTool);
}
