//! The daemon's life: what it starts in which order, what each failure is told
//! as, and how it stops.
use crate::options::{Options, StatusTransport};
use crate::text::{decimal, decimal_text, joined, truth, truth_text};
use vstd::prelude::*;

verus! {

/// Why the daemon did not start.
#[derive(Debug)]
pub enum DaemonError {
    /// The configuration was not found.
    ConfigPath(String),
    /// The configuration does not load or is not valid.
    Config(String),
    /// The hardware is not there.
    Hardware(String),
    /// The models do not load.
    Kinematics(String),
    /// The control loop could not be built.
    Core(String),
    /// The motion engines could not be built.
    Motion(String),
    /// The command plane could not start.
    Io(String),
}

/// What an error tells.
pub enum DaemonFault {
    /// The configuration was not found.
    ConfigPath(Seq<char>),
    /// The configuration does not load or is not valid.
    Config(Seq<char>),
    /// The hardware is not there.
    Hardware(Seq<char>),
    /// The models do not load.
    Kinematics(Seq<char>),
    /// The control loop could not be built.
    Core(Seq<char>),
    /// The motion engines could not be built.
    Motion(Seq<char>),
    /// The command plane could not start.
    Io(Seq<char>),
}

impl View for DaemonError {
    type V = DaemonFault;

    open spec fn view(&self) -> DaemonFault {
        match *self {
            DaemonError::ConfigPath(m) => DaemonFault::ConfigPath(m@),
            DaemonError::Config(m) => DaemonFault::Config(m@),
            DaemonError::Hardware(m) => DaemonFault::Hardware(m@),
            DaemonError::Kinematics(m) => DaemonFault::Kinematics(m@),
            DaemonError::Core(m) => DaemonFault::Core(m@),
            DaemonError::Motion(m) => DaemonFault::Motion(m@),
            DaemonError::Io(m) => DaemonFault::Io(m@),
        }
    }
}

impl DaemonFault {
    /// The error as one line.
    pub open spec fn line(self) -> Seq<char> {
        match self {
            DaemonFault::ConfigPath(m) => m,
            DaemonFault::Config(m) => "config: "@ + m,
            DaemonFault::Hardware(m) => m,
            DaemonFault::Kinematics(m) => "kinematics: "@ + m,
            DaemonFault::Core(m) => "RT core: "@ + m,
            DaemonFault::Motion(m) => "motion: "@ + m,
            DaemonFault::Io(m) => "command plane: "@ + m,
        }
    }
}

impl DaemonError {
    /// The error as one line.
    pub fn message(&self) -> (r: String)
        ensures
            r@ == self@.line(),
    {
        match self {
            DaemonError::ConfigPath(m) => m.clone(),
            DaemonError::Config(m) => joined("config: ", m.as_str()),
            DaemonError::Hardware(m) => m.clone(),
            DaemonError::Kinematics(m) => joined("kinematics: ", m.as_str()),
            DaemonError::Core(m) => joined("RT core: ", m.as_str()),
            DaemonError::Motion(m) => joined("motion: ", m.as_str()),
            DaemonError::Io(m) => joined("command plane: ", m.as_str()),
        }
    }
}

/// A step of the start.
#[derive(Clone, Copy, Debug, PartialEq, Eq, Structural)]
pub enum StartStep {
    /// Find the configuration.
    ConfigPath,
    /// Load it.
    Config,
    /// Override the status rate and validate it again.
    StatusRate,
    /// Refuse the torque-level plant: it is a simulator's.
    RefusePlant,
    /// Load the models.
    Kinematics,
    /// Build the motion engines.
    Motion,
    /// Find the torque-level plant's model.
    PlantModel,
    /// Open the bus.
    Bus,
    /// Open the line of the emergency stop.
    Estop,
    /// Open the input and output lines.
    Lines,
    /// Build the control loop.
    Core,
    /// Build the planner.
    Planner,
    /// Start the command plane.
    Server,
    /// Start the control thread.
    RtThread,
    /// Start the thread that fans the snapshots out.
    TeeThread,
    /// Start the housekeeping thread.
    HousekeepingThread,
}

impl StartStep {
    /// Whether the step starts a thread of the daemon's own.
    pub open spec fn starts_a_thread(self) -> bool {
        self is RtThread || self is TeeThread || self is HousekeepingThread
    }

    /// Whether the step needs the hardware.
    pub open spec fn needs_hardware(self) -> bool {
        self is Bus || self is Estop || self is Lines
    }

    /// What a failure of the step is told as.
    pub open spec fn fault(self, why: Seq<char>) -> DaemonFault {
        match self {
            StartStep::ConfigPath => DaemonFault::ConfigPath(why),
            StartStep::Config => DaemonFault::Config(why),
            StartStep::StatusRate => DaemonFault::Config(why),
            StartStep::RefusePlant => DaemonFault::Hardware(
                "--sim-dynamics is a simulator plant; add --sim or drop it"@,
            ),
            StartStep::Kinematics => DaemonFault::Kinematics(why),
            StartStep::Motion => DaemonFault::Motion(why),
            StartStep::PlantModel => DaemonFault::Kinematics("sim-dynamics URDF missing: "@ + why),
            StartStep::Bus => DaemonFault::Hardware(why + " — run with --sim for the simulator"@),
            StartStep::Estop => DaemonFault::Hardware(
                why
                    + " — the physical e-stop must be readable before the arm moves; run with --sim for the simulator"@,
            ),
            StartStep::Lines => DaemonFault::Hardware(
                why
                    + " — fix the `[io]` section or the wiring; run with --sim for the simulator"@,
            ),
            StartStep::Core => DaemonFault::Core(why),
            StartStep::Planner => DaemonFault::Motion(why),
            StartStep::Server => DaemonFault::Io(why),
            StartStep::RtThread => DaemonFault::Io(why),
            StartStep::TeeThread => DaemonFault::Io(why),
            StartStep::HousekeepingThread => DaemonFault::Io(why),
        }
    }

    /// What a failure of the step is told as.
    pub fn error(self, why: &str) -> (r: DaemonError)
        ensures
            r@ == self.fault(why@),
    {
        match self {
            StartStep::ConfigPath => DaemonError::ConfigPath(why.to_owned()),
            StartStep::Config => DaemonError::Config(why.to_owned()),
            StartStep::StatusRate => DaemonError::Config(why.to_owned()),
            StartStep::RefusePlant => DaemonError::Hardware(
                "--sim-dynamics is a simulator plant; add --sim or drop it".to_owned(),
            ),
            StartStep::Kinematics => DaemonError::Kinematics(why.to_owned()),
            StartStep::Motion => DaemonError::Motion(why.to_owned()),
            StartStep::PlantModel => DaemonError::Kinematics(
                joined("sim-dynamics URDF missing: ", why),
            ),
            StartStep::Bus => DaemonError::Hardware(
                joined(why, " — run with --sim for the simulator"),
            ),
            StartStep::Estop => DaemonError::Hardware(
                joined(
                    why,
                    " — the physical e-stop must be readable before the arm moves; run with --sim for the simulator",
                ),
            ),
            StartStep::Lines => DaemonError::Hardware(
                joined(
                    why,
                    " — fix the `[io]` section or the wiring; run with --sim for the simulator",
                ),
            ),
            StartStep::Core => DaemonError::Core(why.to_owned()),
            StartStep::Planner => DaemonError::Motion(why.to_owned()),
            StartStep::Server => DaemonError::Io(why.to_owned()),
            StartStep::RtThread => DaemonError::Io(why.to_owned()),
            StartStep::TeeThread => DaemonError::Io(why.to_owned()),
            StartStep::HousekeepingThread => DaemonError::Io(why.to_owned()),
        }
    }
}

/// The steps before the models are loaded.
pub open spec fn first_steps<A>(opts: Options<A>) -> Seq<StartStep> {
    seq![StartStep::ConfigPath, StartStep::Config] + (if opts.status_rate_hz is Some {
        seq![StartStep::StatusRate]
    } else {
        Seq::empty()
    })
}

/// The steps that open what the arm is driven through: the hardware in the
/// order it is put right, or nothing on the simulator.
pub open spec fn plant_steps<A>(opts: Options<A>) -> Seq<StartStep> {
    if !opts.sim {
        seq![StartStep::Bus, StartStep::Estop, StartStep::Lines]
    } else if opts.sim_dynamics {
        seq![StartStep::PlantModel]
    } else {
        Seq::empty()
    }
}

/// The steps that start what runs.
pub open spec fn last_steps() -> Seq<StartStep> {
    seq![
        StartStep::Core,
        StartStep::Planner,
        StartStep::Server,
        StartStep::RtThread,
        StartStep::TeeThread,
        StartStep::HousekeepingThread,
    ]
}

/// The steps of the start, in order. The torque-level plant without the
/// simulator is refused before anything is loaded for it.
pub open spec fn start_steps<A>(opts: Options<A>) -> Seq<StartStep> {
    if opts.sim_dynamics && !opts.sim {
        first_steps(opts) + seq![StartStep::RefusePlant]
    } else {
        first_steps(opts) + seq![StartStep::Kinematics, StartStep::Motion] + plant_steps(opts)
            + last_steps()
    }
}

/// The start, step by step.
#[derive(Debug)]
pub struct Startup {
    /// The steps.
    pub steps: Vec<StartStep>,
    /// The next of them.
    pub next: usize,
}

impl Startup {
    /// Whether the next step exists, or all are done.
    pub open spec fn valid(self) -> bool {
        self.next <= self.steps@.len()
    }

    /// Begin.
    pub fn new<A>(opts: &Options<A>) -> (r: Startup)
        ensures
            r.steps@ == start_steps(*opts),
            r.next == 0,
            r.valid(),
    {
        let mut steps: Vec<StartStep> = Vec::new();
        steps.push(StartStep::ConfigPath);
        steps.push(StartStep::Config);
        if opts.status_rate_hz.is_some() {
            steps.push(StartStep::StatusRate);
        }
        assert(steps@ =~= first_steps(*opts));
        if opts.sim_dynamics && !opts.sim {
            steps.push(StartStep::RefusePlant);
            assert(steps@ =~= start_steps(*opts));
            return Startup { steps, next: 0 };
        }
        steps.push(StartStep::Kinematics);
        steps.push(StartStep::Motion);
        if !opts.sim {
            steps.push(StartStep::Bus);
            steps.push(StartStep::Estop);
            steps.push(StartStep::Lines);
        } else if opts.sim_dynamics {
            steps.push(StartStep::PlantModel);
        }
        steps.push(StartStep::Core);
        steps.push(StartStep::Planner);
        steps.push(StartStep::Server);
        steps.push(StartStep::RtThread);
        steps.push(StartStep::TeeThread);
        steps.push(StartStep::HousekeepingThread);
        assert(steps@ =~= start_steps(*opts));
        Startup { steps, next: 0 }
    }

    /// The next step; nothing once the daemon runs.
    pub fn step(&self) -> (r: Option<StartStep>)
        requires
            self.valid(),
        ensures
            r == (if self.next < self.steps@.len() {
                Some(self.steps@[self.next as int])
            } else {
                None
            }),
    {
        if self.next < self.steps.len() {
            Some(self.steps[self.next])
        } else {
            None
        }
    }

    /// Take what the step gave. A failure ends the start; the refusal of a
    /// plant is always one.
    pub fn took(&mut self, result: Result<(), String>) -> (r: Result<(), DaemonError>)
        requires
            old(self).valid(),
            old(self).next < old(self).steps@.len(),
        ensures
            final(self).valid(),
            final(self).steps@ == old(self).steps@,
            ({
                let step = old(self).steps@[old(self).next as int];
                match result {
                    Ok(_) => if step is RefusePlant {
                        (r matches Err(e) && e@ == step.fault(Seq::empty())) && final(self).next
                            == old(self).next
                    } else {
                        r is Ok && final(self).next == old(self).next + 1
                    },
                    Err(why) => (r matches Err(e) && e@ == step.fault(why@)) && final(self).next
                        == old(self).next,
                }
            }),
    {
        let step = self.steps[self.next];
        match result {
            Err(why) => Err(step.error(why.as_str())),
            Ok(()) => {
                if let StartStep::RefusePlant = step {
                    return Err(step.error(""));
                }
                if self.next < self.steps.len() {
                    self.next = self.next + 1;
                }
                Ok(())
            },
        }
    }
}

/// The body whose weight the gravity feedforward carries.
#[derive(Clone, Copy, Debug, PartialEq, Eq, Structural)]
pub enum GravityModel {
    /// The bare flange.
    Flange,
    /// The arm and the tool that is fitted on it.
    ArmWithTool,
}

/// The body whose weight the gravity feedforward carries: the one that swings. The
/// simulated plant carries no tool, and to make up for one would push the arm up.
pub fn gravity_model(sim_dynamics: bool) -> (r: GravityModel)
    ensures
        r == (if sim_dynamics {
            GravityModel::Flange
        } else {
            GravityModel::ArmWithTool
        }),
{
    if sim_dynamics {
        GravityModel::Flange
    } else {
        GravityModel::ArmWithTool
    }
}

/// Whether the gravity feedforward is off at the start: on a plant that models
/// no weight it would push the arm up.
pub fn starts_without_gravity(sim: bool, sim_dynamics: bool) -> (r: bool)
    ensures
        r == (sim && !sim_dynamics),
{
    sim && !sim_dynamics
}

/// Whether the control thread is pinned and raised: only on the arm.
pub fn runs_realtime(sim: bool) -> (r: bool)
    ensures
        r == !sim,
{
    !sim
}

/// The loop-period bands: those that are configured, or else the simulator's or
/// the arm's.
pub fn resolve_loop_bands<T>(sim: bool, declared: Option<T>, for_sim: T, for_arm: T) -> (r: T)
    ensures
        r == (match declared {
            Some(t) => t,
            None => if sim {
                for_sim
            } else {
                for_arm
            },
        }),
{
    match declared {
        Some(t) => t,
        None => {
            if sim {
                for_sim
            } else {
                for_arm
            }
        },
    }
}

/// How long a streaming client may be silent, in nanoseconds: on the simulator
/// at least twice the grace a servo stream has, so that a silent stream is
/// ended before the watchdog fires.
pub fn resolve_stream_timeout(sim: bool, declared: u64, grace: u64) -> (r: u64)
    requires
        2 * grace <= u64::MAX,
    ensures
        r == (if sim && declared < 2 * grace {
            2 * grace
        } else {
            declared as int
        }),
{
    if sim && declared < 2 * grace {
        2 * grace
    } else {
        declared
    }
}

/// Where the daemon listens and sends; `A` is an address.
#[derive(Clone, Copy, Debug, PartialEq, Eq)]
pub struct Endpoints<A> {
    /// The address commands come to.
    pub bind: A,
    /// The port commands come to.
    pub command_port: u16,
    /// Where status goes.
    pub status_host: A,
    /// The port status goes to.
    pub status_port: u16,
    /// The port telemetry goes to.
    pub telemetry_port: u16,
    /// How status is sent.
    pub status_transport: StatusTransport,
}

/// A value, unless it is overridden.
pub open spec fn or_else<T>(given: Option<T>, configured: T) -> T {
    match given {
        Some(v) => v,
        None => configured,
    }
}

/// A value, unless it is overridden.
fn pick<T: Copy>(given: Option<T>, configured: T) -> (r: T)
    ensures
        r == or_else(given, configured),
{
    match given {
        Some(v) => v,
        None => configured,
    }
}

/// Where the daemon listens and sends: as configured, but for what was given.
pub fn server_config<A: Copy>(opts: &Options<A>, configured: Endpoints<A>) -> (r: Endpoints<A>)
    ensures
        r == (Endpoints {
            bind: or_else(opts.bind, configured.bind),
            command_port: or_else(opts.command_port, configured.command_port),
            status_host: or_else(opts.status_host, configured.status_host),
            status_port: or_else(opts.status_port, configured.status_port),
            telemetry_port: or_else(opts.telemetry_port, configured.telemetry_port),
            status_transport: or_else(opts.status_transport, configured.status_transport),
        }),
{
    Endpoints {
        bind: pick(opts.bind, configured.bind),
        command_port: pick(opts.command_port, configured.command_port),
        status_host: pick(opts.status_host, configured.status_host),
        status_port: pick(opts.status_port, configured.status_port),
        telemetry_port: pick(opts.telemetry_port, configured.telemetry_port),
        status_transport: pick(opts.status_transport, configured.status_transport),
    }
}

/// Freedoms the fitted tool has: one if it is driven.
pub fn tool_dof(driven: bool) -> (r: usize)
    ensures
        r == (if driven {
            1int
        } else {
            0
        }),
{
    if driven {
        1
    } else {
        0
    }
}

/// Whether firmware was flashed while the bus was granted. A flash reboots the
/// driver, and the home reference of its joint dies with it. Nothing tells a
/// flash from a scan, and the answer that is always safe is yes: every time the
/// bus is given back, the arm has to be homed again.
#[derive(Clone, Copy, Debug, PartialEq, Eq, Structural)]
pub struct FlashMarker;

/// The marker the daemon runs with.
pub fn flash_marker() -> (r: FlashMarker)
    ensures
        r == FlashMarker,
{
    FlashMarker
}

impl FlashMarker {
    /// Whether firmware was flashed in this window: always, however many windows
    /// came before.
    pub fn flashed(&mut self) -> (r: bool)
        ensures
            r,
            *final(self) == *old(self),
    {
        true
    }
}

/// Where the control thread is.
#[derive(Clone, Copy, Debug, PartialEq, Eq, Structural)]
pub enum RtPhase {
    /// It looks whether to stop.
    Top,
    /// It has cleared the break and applied what was queued, and looks whether
    /// more came meanwhile.
    Drained,
    /// It runs the control loop until it is broken.
    Running,
    /// It stops the arm and ends.
    Stopping,
}

impl RtPhase {
    /// Where the thread goes next.
    pub fn next(self, shutdown: bool, broken: bool) -> (r: RtPhase)
        ensures
            r == (match self {
                RtPhase::Top => if shutdown {
                    RtPhase::Stopping
                } else {
                    RtPhase::Drained
                },
                RtPhase::Drained => if broken || shutdown {
                    RtPhase::Top
                } else {
                    RtPhase::Running
                },
                RtPhase::Running => RtPhase::Top,
                RtPhase::Stopping => RtPhase::Stopping,
            }),
    {
        match self {
            RtPhase::Top => {
                if shutdown {
                    RtPhase::Stopping
                } else {
                    RtPhase::Drained
                }
            },
            RtPhase::Drained => {
                if broken || shutdown {
                    RtPhase::Top
                } else {
                    RtPhase::Running
                }
            },
            RtPhase::Running => RtPhase::Top,
            RtPhase::Stopping => RtPhase::Stopping,
        }
    }
}

/// Whether a failed write of the bus signal is logged: the first of a streak
/// is.
#[derive(Clone, Copy, Debug, PartialEq, Eq, Structural)]
pub struct GrantLog {
    /// Whether the last write failed.
    pub failing: bool,
}

impl GrantLog {
    /// Take whether a write worked; the result is whether to log it.
    pub fn wrote(&mut self, ok: bool) -> (r: bool)
        ensures
            final(self).failing == !ok,
            r == (!ok && !old(self).failing),
    {
        let log = !ok && !self.failing;
        self.failing = !ok;
        log
    }
}

/// A step of the stop.
#[derive(Clone, Copy, Debug, PartialEq, Eq, Structural)]
pub enum StopStep {
    /// Tell the server to stop.
    NotifyServer,
    /// Wait for it to.
    Grace,
    /// Let go of it.
    DropServer,
    /// Tell the threads to stop.
    FlagThreads,
    /// Wait for this thread to end.
    Join {
        /// Its number.
        thread: usize,
    },
    /// Let the command plane's runtime drain.
    DrainRuntime,
}

/// A running daemon; `A` is an address.
#[derive(Clone, Copy, Debug, PartialEq, Eq)]
pub struct Daemon<A> {
    /// The address commands come to.
    pub command_addr: A,
    /// The port status goes to.
    pub status_port: u16,
    /// The port telemetry goes to.
    pub telemetry_port: u16,
    /// Whether the server runs.
    pub server: bool,
    /// Whether the command plane's runtime runs.
    pub runtime: bool,
    /// Threads that run.
    pub threads: usize,
}

/// Waiting for the first `n` threads.
pub open spec fn joins(n: nat) -> Seq<StopStep> {
    Seq::new(n, |i: int| StopStep::Join { thread: i as usize })
}

impl<A: Copy> Daemon<A> {
    /// A daemon that has started.
    pub fn started(command_addr: A, status_port: u16, telemetry_port: u16, threads: usize) -> (r:
        Daemon<A>)
        ensures
            r == (Daemon {
                command_addr,
                status_port,
                telemetry_port,
                server: true,
                runtime: true,
                threads,
            }),
    {
        Daemon { command_addr, status_port, telemetry_port, server: true, runtime: true, threads }
    }

    /// The address commands come to.
    pub fn command_addr(&self) -> (r: A)
        ensures
            r == self.command_addr,
    {
        self.command_addr
    }

    /// The port status goes to.
    pub fn status_port(&self) -> (r: u16)
        ensures
            r == self.status_port,
    {
        self.status_port
    }

    /// The port telemetry goes to.
    pub fn telemetry_port(&self) -> (r: u16)
        ensures
            r == self.telemetry_port,
    {
        self.telemetry_port
    }

    /// The steps of a stop: the server first, then the threads, then the
    /// runtime.
    pub open spec fn stop_steps(self) -> Seq<StopStep> {
        (if self.server {
            if self.runtime {
                seq![StopStep::NotifyServer, StopStep::Grace, StopStep::DropServer]
            } else {
                seq![StopStep::NotifyServer, StopStep::DropServer]
            }
        } else {
            Seq::empty()
        }) + seq![StopStep::FlagThreads] + joins(self.threads as nat) + (if self.runtime {
            seq![StopStep::DrainRuntime]
        } else {
            Seq::empty()
        })
    }

    /// The daemon once it has stopped.
    pub open spec fn stopped(self) -> Daemon<A> {
        Daemon { server: false, runtime: false, threads: 0, ..self }
    }

    /// Stop: the steps to take, in order. Nothing runs after them.
    pub fn shutdown(&mut self) -> (r: Vec<StopStep>)
        ensures
            r@ == old(self).stop_steps(),
            *final(self) == old(self).stopped(),
    {
        let mut out: Vec<StopStep> = Vec::new();
        if self.server {
            out.push(StopStep::NotifyServer);
            if self.runtime {
                out.push(StopStep::Grace);
            }
            out.push(StopStep::DropServer);
        }
        out.push(StopStep::FlagThreads);
        let ghost before = out@;
        let mut i: usize = 0;
        assert(out@ =~= before + joins(0));
        while i < self.threads
            invariant
                i <= self.threads,
                *self == *old(self),
                out@ == before + joins(i as nat),
            decreases self.threads - i,
        {
            out.push(StopStep::Join { thread: i });
            assert(out@ =~= before + joins((i + 1) as nat));
            i += 1;
        }
        if self.runtime {
            out.push(StopStep::DrainRuntime);
        }
        assert(out@ =~= old(self).stop_steps());
        self.server = false;
        self.runtime = false;
        self.threads = 0;
        out
    }
}

/// The line a client waits for once the daemon runs.
pub fn ready_line(command_port: u16, status_port: u16, sim: bool) -> (r: String)
    ensures
        r@ == "PAR6D_READY command_port="@ + decimal_text(command_port as nat) + " status_port="@
            + decimal_text(status_port as nat) + " sim="@ + truth_text(sim),
{
    let mut out: String = "PAR6D_READY command_port=".to_owned();
    let n = decimal(command_port as u64);
    out.append(n.as_str());
    out.append(" status_port=");
    let n = decimal(status_port as u64);
    out.append(n.as_str());
    out.append(" sim=");
    out.append(truth(sim));
    out
}

/// Why a running daemon stops.
#[derive(Clone, Copy, Debug, PartialEq, Eq, Structural)]
pub enum Leave {
    /// It was told to.
    Signal,
    /// The process it follows is gone.
    Orphaned,
}

/// Whether a running daemon stops. One that follows no process (`parent` is
/// then `None`) stops only when told.
pub fn leaves(signalled: bool, parent: Option<u32>, current_parent: u32) -> (r: Option<Leave>)
    ensures
        r == (if signalled {
            Some(Leave::Signal)
        } else {
            match parent {
                Some(pid) => if pid != current_parent {
                    Some(Leave::Orphaned)
                } else {
                    None
                },
                None => None,
            }
        }),
{
    if signalled {
        return Some(Leave::Signal);
    }
    match parent {
        Some(pid) => {
            if pid != current_parent {
                Some(Leave::Orphaned)
            } else {
                None
            }
        },
        None => None,
    }
}

/// Nothing runs before everything it needs is there: every step that starts a
/// thread comes after every step that does not.
pub proof fn law_threads_start_last<A>(opts: Options<A>, i: int, k: int)
    requires
        0 <= i < start_steps(opts).len(),
        0 <= k < start_steps(opts).len(),
        start_steps(opts)[i].starts_a_thread(),
        !start_steps(opts)[k].starts_a_thread(),
    ensures
        k < i,
{
}

/// The simulator asks for no hardware, and the arm is not driven without all of
/// it: a start that gets to the control loop opens the bus, the emergency stop
/// and the lines, in this order, exactly if it is not the simulator's.
pub proof fn law_the_arm_needs_its_hardware<A>(opts: Options<A>)
    requires
        !(opts.sim_dynamics && !opts.sim),
    ensures
        opts.sim ==> forall|i: int|
            0 <= i < start_steps(opts).len() ==> !(#[trigger] start_steps(opts)[i]).needs_hardware(),
        !opts.sim ==> ({
            let n = (first_steps(opts).len() + 2) as int;
            &&& start_steps(opts)[n] == StartStep::Bus
            &&& start_steps(opts)[n + 1] == StartStep::Estop
            &&& start_steps(opts)[n + 2] == StartStep::Lines
            &&& start_steps(opts)[n + 3] == StartStep::Core
        }),
{
}

/// Stopping twice stops nothing twice: once the daemon has stopped, a second
/// stop joins no thread and drains nothing.
pub proof fn law_stopping_twice_is_harmless<A: Copy>(daemon: Daemon<A>)
    ensures
        daemon.stopped().stop_steps() == seq![StopStep::FlagThreads],
        daemon.stopped().stopped() == daemon.stopped(),
{
    assert(daemon.stopped().stop_steps() =~= seq![StopStep::FlagThreads]);
}

/// The server stops before the threads, the threads before the runtime, and
/// every thread is waited for.
pub proof fn law_every_thread_is_joined<A: Copy>(daemon: Daemon<A>, thread: int)
    requires
        0 <= thread < daemon.threads,
    ensures
        exists|i: int|
            {
                &&& 0 <= i < daemon.stop_steps().len()
                &&& #[trigger] daemon.stop_steps()[i] == (StopStep::Join {
                    thread: thread as usize,
                })
            },
        daemon.server ==> daemon.stop_steps()[0] == StopStep::NotifyServer,
        daemon.runtime ==> daemon.stop_steps().last() == StopStep::DrainRuntime,
{
    let head: int = if daemon.server {
        if daemon.runtime {
            4
        } else {
            3
        }
    } else {
        1
    };
    assert(daemon.stop_steps()[head + thread] == joins(daemon.threads as nat)[thread]);
}

/// A start takes these steps and no others: the configuration, its status rate where
/// one was given, the models, the motion engines, the hardware or the plant, and then
/// everything that runs on them. The torque-level plant without its simulator is refused
/// once the configuration is loaded.
pub proof fn law_a_start_takes_every_step_in_order<A>(opts: Options<A>)
    ensures
        ({
            let loaded = if opts.status_rate_hz is Some {
                seq![StartStep::ConfigPath, StartStep::Config, StartStep::StatusRate]
            } else {
                seq![StartStep::ConfigPath, StartStep::Config]
            };
            let runs = seq![
                StartStep::Core,
                StartStep::Planner,
                StartStep::Server,
                StartStep::RtThread,
                StartStep::TeeThread,
                StartStep::HousekeepingThread,
            ];
            let built = loaded + seq![StartStep::Kinematics, StartStep::Motion];
            &&& !opts.sim && opts.sim_dynamics ==> start_steps(opts) == loaded.push(
                StartStep::RefusePlant,
            )
            &&& !opts.sim && !opts.sim_dynamics ==> start_steps(opts) == built + seq![
                StartStep::Bus,
                StartStep::Estop,
                StartStep::Lines,
            ] + runs
            &&& opts.sim && opts.sim_dynamics ==> start_steps(opts) == built.push(
                StartStep::PlantModel,
            ) + runs
            &&& opts.sim && !opts.sim_dynamics ==> start_steps(opts) == built + runs
        }),
{
    let loaded = if opts.status_rate_hz is Some {
        seq![StartStep::ConfigPath, StartStep::Config, StartStep::StatusRate]
    } else {
        seq![StartStep::ConfigPath, StartStep::Config]
    };
    assert(first_steps(opts) =~= loaded);
    let built = loaded + seq![StartStep::Kinematics, StartStep::Motion];
    assert(loaded + seq![StartStep::RefusePlant] =~= loaded.push(StartStep::RefusePlant));
    assert(built + Seq::<StartStep>::empty() =~= built);
    assert(built + seq![StartStep::PlantModel] =~= built.push(StartStep::PlantModel));
}

/// A stop tells the server, gives it its grace while the runtime still runs, lets go of
/// it, flags the threads, waits for each of them in turn, and drains the runtime last.
pub proof fn law_a_stop_takes_every_step_in_order<A: Copy>(daemon: Daemon<A>)
    ensures
        ({
            let served = if !daemon.server {
                Seq::empty()
            } else if daemon.runtime {
                seq![StopStep::NotifyServer, StopStep::Grace, StopStep::DropServer]
            } else {
                seq![StopStep::NotifyServer, StopStep::DropServer]
            };
            let n = served.len() as int;
            let steps = daemon.stop_steps();
            &&& steps.take(n) == served
            &&& steps[n] == StopStep::FlagThreads
            &&& forall|k: int|
                0 <= k < daemon.threads ==> #[trigger] steps[n + 1 + k] == (StopStep::Join {
                    thread: k as usize,
                })
            &&& daemon.runtime ==> steps.len() == n + 2 + daemon.threads && steps.last()
                == StopStep::DrainRuntime
            &&& !daemon.runtime ==> steps.len() == n + 1 + daemon.threads
        }),
        !daemon.stopped().server && !daemon.stopped().runtime && daemon.stopped().threads == 0,
        daemon.stopped().command_addr == daemon.command_addr,
{
    let served = if !daemon.server {
        Seq::empty()
    } else if daemon.runtime {
        seq![StopStep::NotifyServer, StopStep::Grace, StopStep::DropServer]
    } else {
        seq![StopStep::NotifyServer, StopStep::DropServer]
    };
    assert(daemon.stop_steps().take(served.len() as int) =~= served);
}

/// What a failed step is told as says which part failed, with the cause in it, and for what
/// only hardware has it says that the simulator needs none.
pub proof fn law_a_failed_step_tells_which_part_failed(step: StartStep, why: Seq<char>)
    ensures
        step is ConfigPath ==> step.fault(why).line() == why,
        step is Config || step is StatusRate ==> step.fault(why).line() == "config: "@ + why,
        step is Kinematics ==> step.fault(why).line() == "kinematics: "@ + why,
        step is PlantModel ==> step.fault(why).line() == "kinematics: "@ + (
        "sim-dynamics URDF missing: "@ + why),
        step is Motion || step is Planner ==> step.fault(why).line() == "motion: "@ + why,
        step is Core ==> step.fault(why).line() == "RT core: "@ + why,
        step is Server || step is RtThread || step is TeeThread || step is HousekeepingThread
            ==> step.fault(why).line() == "command plane: "@ + why,
        step is Bus ==> step.fault(why).line() == why + " — run with --sim for the simulator"@,
        step is Estop ==> step.fault(why).line() == why
            + " — the physical e-stop must be readable before the arm moves; run with --sim for the simulator"@,
        step is Lines ==> step.fault(why).line() == why
            + " — fix the `[io]` section or the wiring; run with --sim for the simulator"@,
        step is RefusePlant ==> step.fault(why).line()
            == "--sim-dynamics is a simulator plant; add --sim or drop it"@,
{
}

/// What is given overrides what is configured, and nothing else does.
pub proof fn law_what_is_given_overrides<T>(given: T, configured: T)
    ensures
        or_else(Some(given), configured) == given,
        or_else(None, configured) == configured,
{
}

} // verus!
