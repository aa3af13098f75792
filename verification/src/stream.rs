//! Streamed motion: what a datagram does to the stream in progress, and which
//! commands it queues for the realtime core.
//!
//! Joint vectors, speed fractions and the description of a Cartesian jog are
//! carried, never read: `Q` stands for a joint vector, `F` for a fraction and
//! `T` for what drives a Cartesian jog. Instants and durations are nanoseconds
//! on one monotonic clock.
use crate::gate::pairs_view;
use crate::runtime::{rendered, CollisionState, Mode, Refusal, RefusalView};
use crate::standoff::clamped;
use vstd::prelude::*;

verus! {

/// How long the arm is given to reach a standoff before the stream is ended
/// anyway.
pub const STANDOFF_TRAVEL_BUDGET: u64 = 3_000_000_000;

/// What the library asks to be done, in order. The setpoint goes to the
/// stream's own slot, `MarkFlush` to the sample ring, everything else to the
/// queue that the realtime core drains one entry per tick.
#[derive(Clone, Copy, Debug, PartialEq)]
pub enum Effect<Q, F> {
    /// Change the core's mode.
    SetMode(Mode),
    /// Ramp to the given speeds.
    Jog {
        /// Per-joint signed fractions.
        speeds: Q,
        /// Acceleration fraction.
        accel: F,
    },
    /// Ramp a jog to rest.
    JogRelease,
    /// Ramp a stream to rest.
    StreamRelease,
    /// Track a configuration.
    Setpoint {
        /// The configuration.
        q: Q,
        /// Speed fraction.
        speed: F,
        /// Acceleration fraction.
        accel: F,
    },
    /// Pin the next flush to the samples that are in the ring now.
    MarkFlush,
    /// Drop the planned samples up to the mark.
    ExecFlush,
    /// Ask the core to enable the arm.
    Enable,
    /// Run the core's clear sequence.
    ClearErrors,
    /// Set or clear the software e-stop.
    SetSoftEstop(bool),
    /// Assert that the arm is parked, once.
    AssertParked,
}

/// A Cartesian jog: what drives it, and the joint target it has reached.
#[derive(Clone, Copy, Debug, PartialEq)]
pub struct CartJog<Q, T> {
    /// Twist, frame and window.
    pub motion: T,
    /// The integrated joint target.
    pub q: Q,
}

/// What a stream is doing.
#[derive(Clone, Copy, Debug, PartialEq)]
pub enum Activity<Q, T> {
    /// Jogging joints. A jog whose watchdog expired ramps to rest with its
    /// session still open, so that a datagram arriving meanwhile joins it.
    Jog {
        /// The live speeds; nothing once every fraction is zero.
        speeds: Option<Q>,
        /// Whether the ramp to rest is running.
        releasing: bool,
    },
    /// Holding or approaching a joint target.
    Servo {
        /// The target.
        target: Q,
    },
    /// Refused while moving: shedding velocity. The standoff is solved from
    /// wherever the arm stops.
    Braking {
        /// The configuration that was refused.
        goal: Q,
        /// Consecutive fresh snapshots the arm measured stopped in.
        still: u8,
        /// The tick `still` last counted.
        still_tick: u64,
    },
    /// Refused and stopped: travelling onto the standoff.
    Placing {
        /// The standoff.
        stop: Q,
    },
    /// Jogging the tool.
    CartJog {
        /// The jog.
        cart: CartJog<Q, T>,
    },
}

/// The stream in progress.
#[derive(Clone, Copy, Debug, PartialEq)]
pub struct ActiveStream<Q, F, T> {
    /// What it is doing.
    pub activity: Activity<Q, T>,
    /// When it ends by itself.
    pub deadline: u64,
    /// The collision world a held target was last checked against.
    pub world_epoch: u64,
    /// Speed fraction.
    pub speed: F,
    /// Acceleration fraction.
    pub accel: F,
}

impl<Q, F, T> ActiveStream<Q, F, T> {
    /// Whether the stream is working through a refusal.
    pub open spec fn in_standoff(self) -> bool {
        self.activity is Braking || self.activity is Placing
    }

    /// Whether the stream is one of joint targets, refused or not.
    pub open spec fn is_servo(self) -> bool {
        self.activity is Servo || self.in_standoff()
    }
}

/// What the collision gate said of a motion.
#[derive(Debug)]
pub enum Verdict {
    /// The motion is clear.
    Clear,
    /// The motion would collide.
    Blocked {
        /// The colliding pairs, in reporting names.
        pairs: Vec<(String, String)>,
    },
    /// The collision world could not be queried.
    Failed {
        /// What the model said.
        detail: String,
    },
}

/// The refusal a verdict amounts to; nothing where the motion is clear.
pub open spec fn refusal_for(verdict: Verdict) -> Option<RefusalView> {
    match verdict {
        Verdict::Clear => None,
        Verdict::Blocked { pairs } => Some(
            RefusalView::SelfCollision { pairs: rendered(pairs_view(pairs@)) },
        ),
        Verdict::Failed { detail } => Some(RefusalView::GateFailed { detail: detail@ }),
    }
}

/// The latch after a verdict was acted on: a collision stands in it, and
/// nothing else touches it.
pub open spec fn latched(before: CollisionState, verdict: Verdict, after: CollisionState) -> bool {
    match verdict {
        Verdict::Blocked { pairs } => after.active && after.pairs == pairs,
        _ => after == before,
    }
}

/// Turn a verdict into the refusal the client reads, latching a collision.
fn refuse_on(verdict: Verdict, latch: &mut CollisionState) -> (r: Option<Refusal>)
    ensures
        (match r {
            Some(refusal) => Some(refusal@),
            None => None::<RefusalView>,
        }) == refusal_for(verdict),
        latched(*old(latch), verdict, *final(latch)),
{
    match verdict {
        Verdict::Clear => None,
        Verdict::Blocked { pairs } => Some(latch.refuse(pairs)),
        Verdict::Failed { detail } => Some(Refusal::GateFailed { detail }),
    }
}

/// A joint jog as it arrives.
#[derive(Clone, Copy, Debug, PartialEq)]
pub struct JogDatagram<Q, F> {
    /// The speeds; nothing where every fraction is zero.
    pub speeds: Option<Q>,
    /// Whether the speeds differ from those of the jog in progress.
    pub speeds_differ: bool,
    /// The speed fraction a jog runs at, which is all of it.
    pub full: F,
    /// Acceleration fraction.
    pub accel: F,
    /// Whether the acceleration differs from that of the stream in progress.
    pub accel_differs: bool,
    /// When the jog's watchdog fires.
    pub deadline: u64,
}

/// A joint target as it arrives.
#[derive(Clone, Copy, Debug, PartialEq)]
pub struct ServoDatagram<Q, F> {
    /// The target.
    pub target: Q,
    /// Speed fraction.
    pub speed: F,
    /// Acceleration fraction.
    pub accel: F,
}

/// What the collision gate said of a joint target.
#[derive(Debug)]
pub struct ServoGate<Q> {
    /// The verdict on coming to rest at the target.
    pub at_target: Verdict,
    /// Where that is.
    pub target_stop: Q,
    /// The verdict on where the arm's own momentum carries it. It decides only
    /// where the target is clear.
    pub ahead: Verdict,
    /// Where that is.
    pub lookahead: Q,
    /// The collision world that was asked.
    pub epoch: u64,
    /// Whether the arm is moving.
    pub moving: bool,
}

/// What a pose resolved to.
#[derive(Debug)]
pub enum IkResult<Q> {
    /// A configuration that reaches it.
    Solved {
        /// The configuration, inside the soft window.
        q: Q,
    },
    /// No configuration reaches it.
    Unreachable,
    /// The solver refused the call.
    Failed,
}

/// A Cartesian jog as it arrives.
#[derive(Clone, Copy, Debug, PartialEq)]
pub struct CartDatagram<Q, F, T> {
    /// The jog, seeded where it starts.
    pub cart: CartJog<Q, T>,
    /// The speed fraction a jog runs at, which is all of it.
    pub full: F,
    /// Acceleration fraction.
    pub accel: F,
    /// When the jog's watchdog fires.
    pub deadline: u64,
}

/// A streaming command with what the collision gate and the solver said of it.
#[derive(Debug)]
pub enum StreamCommand<Q, F, T> {
    /// Jog joints. The verdict is on where the jog comes to rest.
    JogJ {
        /// The datagram.
        jog: JogDatagram<Q, F>,
        /// The verdict; it decides only where a joint is driven.
        verdict: Verdict,
    },
    /// Track a joint target.
    ServoJ {
        /// The datagram.
        servo: ServoDatagram<Q, F>,
        /// The collision gate's answers.
        gate: ServoGate<Q>,
    },
    /// Track a pose.
    ServoPose {
        /// What the pose resolved to.
        ik: IkResult<Q>,
        /// Speed fraction.
        speed: F,
        /// Acceleration fraction.
        accel: F,
        /// The collision gate's answers on the configuration.
        gate: ServoGate<Q>,
    },
    /// Jog the tool. There is no verdict where the twist does not resolve.
    JogL {
        /// The datagram.
        jog: CartDatagram<Q, F, T>,
        /// The verdict on where the jog comes to rest.
        verdict: Option<Verdict>,
    },
    /// Not a streaming command.
    Other,
}

/// When the watchdog of a jog that asked for `duration` fires. A duration that
/// is no number expires at once, and none outlives `ceiling`.
pub fn jog_deadline(now: u64, duration: Option<i128>, ceiling: u64) -> (r: u64)
    requires
        now + ceiling <= u64::MAX,
    ensures
        r == now + (match duration {
            Some(d) => clamped(d as int, 0, ceiling as int),
            None => 0,
        }),
        duration is None || duration->0 <= 0 ==> r == now,
        (duration matches Some(d) && 0 <= d <= ceiling) ==> r == now + duration->0,
        (duration matches Some(d) && d >= ceiling) ==> r == now + ceiling,
{
    match duration {
        Some(d) => {
            if d < 0 {
                now
            } else if d > ceiling as i128 {
                now + ceiling
            } else {
                now + d as u64
            }
        },
        None => now,
    }
}

/// The two mode changes that lead into a streaming mode: working modes are
/// reached through idle only.
pub open spec fn entering<Q, F>(mode: Mode) -> Seq<Effect<Q, F>> {
    seq![Effect::SetMode(Mode::Idle), Effect::SetMode(mode)]
}

/// Queue the two mode changes that lead into a streaming mode.
fn enter_stream_mode<Q, F>(mode: Mode, out: &mut Vec<Effect<Q, F>>)
    ensures
        final(out)@ == old(out)@ + entering::<Q, F>(mode),
{
    out.push(Effect::SetMode(Mode::Idle));
    out.push(Effect::SetMode(mode));
    assert(out@ =~= old(out)@ + entering::<Q, F>(mode));
}

/// The jog in progress, if the stream is one: its live speeds.
pub open spec fn live_jog<Q, F, T>(stream: Option<ActiveStream<Q, F, T>>) -> Option<Q> {
    match stream {
        Some(a) => match a.activity {
            Activity::Jog { speeds, releasing } => speeds,
            _ => None,
        },
        None => None,
    }
}

/// Whether the stream is a joint jog.
pub open spec fn is_jog<Q, F, T>(stream: Option<ActiveStream<Q, F, T>>) -> bool {
    stream matches Some(a) && a.activity is Jog
}

/// Whether a jog datagram carries a new instruction.
pub open spec fn jog_is_news<Q, F, T>(
    stream: Option<ActiveStream<Q, F, T>>,
    jog: JogDatagram<Q, F>,
) -> bool {
    match (jog.speeds, live_jog(stream)) {
        (None, None) => false,
        (None, Some(_)) => true,
        (Some(_), None) => true,
        (Some(_), Some(_)) => jog.speeds_differ || (stream is Some && jog.accel_differs),
    }
}

/// What an admitted jog datagram queues.
pub open spec fn jog_effects<Q, F, T>(
    stream: Option<ActiveStream<Q, F, T>>,
    jog: JogDatagram<Q, F>,
) -> Seq<Effect<Q, F>> {
    (if is_jog(stream) {
        Seq::empty()
    } else {
        entering(Mode::Jog)
    }) + (if jog_is_news(stream, jog) {
        match jog.speeds {
            Some(speeds) => seq![Effect::Jog { speeds, accel: jog.accel }],
            None => seq![Effect::JogRelease],
        }
    } else {
        Seq::empty()
    })
}

/// The stream an admitted jog datagram leaves.
pub open spec fn jogging<Q, F, T>(jog: JogDatagram<Q, F>) -> ActiveStream<Q, F, T> {
    ActiveStream {
        activity: Activity::Jog { speeds: jog.speeds, releasing: false },
        deadline: jog.deadline,
        world_epoch: 0,
        speed: jog.full,
        accel: jog.accel,
    }
}

/// The verdict on a joint target and where the arm must not go: the target is
/// asked first, the arm's momentum only where the target is clear.
pub open spec fn servo_verdict<Q>(gate: ServoGate<Q>) -> (Verdict, Q) {
    if gate.at_target is Clear {
        (gate.ahead, gate.lookahead)
    } else {
        (gate.at_target, gate.target_stop)
    }
}

/// The stream a target refused to a moving arm leaves.
pub open spec fn braking<Q, F, T>(
    servo: ServoDatagram<Q, F>,
    goal: Q,
    epoch: u64,
    now: u64,
) -> ActiveStream<Q, F, T> {
    ActiveStream {
        activity: Activity::Braking { goal, still: 0, still_tick: 0 },
        deadline: (now + STANDOFF_TRAVEL_BUDGET) as u64,
        world_epoch: epoch,
        speed: servo.speed,
        accel: servo.accel,
    }
}

/// The stream an admitted target leaves.
pub open spec fn tracking<Q, F, T>(
    servo: ServoDatagram<Q, F>,
    epoch: u64,
    deadline: u64,
) -> ActiveStream<Q, F, T> {
    ActiveStream {
        activity: Activity::Servo { target: servo.target },
        deadline,
        world_epoch: epoch,
        speed: servo.speed,
        accel: servo.accel,
    }
}

/// Whether the stream is one of joint targets.
pub open spec fn is_servo<Q, F, T>(stream: Option<ActiveStream<Q, F, T>>) -> bool {
    stream matches Some(a) && a.is_servo()
}

/// What a joint target does once it reaches the collision gate: the stream afterwards
/// and what is queued.
pub open spec fn servo_outcome<Q, F, T>(
    stream: Option<ActiveStream<Q, F, T>>,
    servo: ServoDatagram<Q, F>,
    gate: ServoGate<Q>,
    now: u64,
    grace: u64,
) -> (Option<ActiveStream<Q, F, T>>, Seq<Effect<Q, F>>) {
    let (verdict, goal) = servo_verdict(gate);
    match verdict {
        Verdict::Clear => (
            Some(tracking(servo, gate.epoch, (now + grace) as u64)),
            (if is_servo(stream) {
                Seq::empty()
            } else {
                entering(Mode::Stream)
            }) + seq![
                Effect::Setpoint { q: servo.target, speed: servo.speed, accel: servo.accel },
            ],
        ),
        Verdict::Blocked { pairs } => if gate.moving {
            (
                Some(braking(servo, goal, gate.epoch, now)),
                seq![Effect::JogRelease, Effect::StreamRelease],
            )
        } else {
            (stream, Seq::empty())
        },
        Verdict::Failed { detail } => (stream, Seq::empty()),
    }
}

/// What a Cartesian jog queues.
pub open spec fn cart_effects<Q, F, T>(stream: Option<ActiveStream<Q, F, T>>) -> Seq<Effect<Q, F>> {
    if stream matches Some(a) && a.activity is CartJog {
        Seq::empty()
    } else {
        entering(Mode::Stream)
    }
}

/// The stream an admitted Cartesian jog leaves.
pub open spec fn cart_jogging<Q, F, T>(jog: CartDatagram<Q, F, T>) -> ActiveStream<Q, F, T> {
    ActiveStream {
        activity: Activity::CartJog { cart: jog.cart },
        deadline: jog.deadline,
        world_epoch: 0,
        speed: jog.full,
        accel: jog.accel,
    }
}

/// The streaming half of the state that the command plane and housekeeping
/// share: the stream in progress and the standing collision verdict.
#[derive(Debug)]
pub struct Streaming<Q, F, T> {
    /// The stream in progress.
    pub stream: Option<ActiveStream<Q, F, T>>,
    /// The standing collision verdict.
    pub latch: CollisionState,
}

impl<Q: Copy, F: Copy, T: Copy> Default for Streaming<Q, F, T> {
    fn default() -> (r: Self)
        ensures
            r.stream is None,
            !r.latch.active,
            r.latch.pairs@.len() == 0,
    {
        Streaming { stream: None, latch: CollisionState::default() }
    }
}

impl<Q: Copy, F: Copy, T: Copy> Streaming<Q, F, T> {
    /// Whether a refusal is being worked through.
    pub open spec fn standing(self) -> bool {
        self.stream matches Some(a) && a.in_standoff()
    }

    /// Whether a refusal is being worked through.
    pub fn in_standoff(&self) -> (r: bool)
        ensures
            r == self.standing(),
    {
        match &self.stream {
            Some(a) => match a.activity {
                Activity::Braking { .. } => true,
                Activity::Placing { .. } => true,
                _ => false,
            },
            None => false,
        }
    }

    /// The configuration that seeds the solver for a pose: the target being
    /// tracked, or nothing where the measured configuration seeds it.
    pub fn servo_seed(&self) -> (r: Option<Q>)
        ensures
            r == (match self.stream {
                Some(a) => match a.activity {
                    Activity::Servo { target } => Some(target),
                    _ => None,
                },
                None => None,
            }),
    {
        match &self.stream {
            Some(a) => match a.activity {
                Activity::Servo { target } => Some(target),
                _ => None,
            },
            None => None,
        }
    }

    /// The joint target a Cartesian jog goes on from, or nothing where it
    /// starts from the measured configuration.
    pub fn cart_seed(&self) -> (r: Option<Q>)
        ensures
            r == (match self.stream {
                Some(a) => match a.activity {
                    Activity::CartJog { cart } => Some(cart.q),
                    _ => None,
                },
                None => None,
            }),
    {
        match &self.stream {
            Some(a) => match a.activity {
                Activity::CartJog { cart } => Some(cart.q),
                _ => None,
            },
            None => None,
        }
    }

    /// Take a joint jog. A jog that would collide is refused and changes
    /// nothing. A datagram that carries no new instruction only refreshes the
    /// watchdog, so that a steady control does not grow the core's queue and
    /// leave the release behind its own backlog.
    pub fn jog_j(
        &mut self,
        jog: JogDatagram<Q, F>,
        verdict: Verdict,
        out: &mut Vec<Effect<Q, F>>,
    ) -> (r: Result<(), Refusal>)
        ensures
            jog.speeds is Some && refusal_for(verdict) is Some ==> {
                &&& r matches Err(e) && Some(e@) == refusal_for(verdict)
                &&& latched(old(self).latch, verdict, final(self).latch)
                &&& final(self).stream == old(self).stream
                &&& final(out)@ == old(out)@
            },
            !(jog.speeds is Some && refusal_for(verdict) is Some) ==> {
                &&& r is Ok
                &&& final(self).latch == old(self).latch
                &&& final(self).stream == Some(jogging::<Q, F, T>(jog))
                &&& final(out)@ == old(out)@ + jog_effects(old(self).stream, jog)
            },
    {
        if jog.speeds.is_some() {
            if let Some(refusal) = refuse_on(verdict, &mut self.latch) {
                return Err(refusal);
            }
        }
        let ghost before = self.stream;
        let ghost queued = out@;
        let (jogs, active) = match &self.stream {
            Some(a) => match a.activity {
                Activity::Jog { speeds, releasing: _ } => (true, speeds),
                _ => (false, None),
            },
            None => (false, None),
        };
        if !jogs {
            enter_stream_mode(Mode::Jog, out);
        }
        let ghost entered = out@;
        let accel_changed = self.stream.is_some() && jog.accel_differs;
        match jog.speeds {
            Some(speeds) => {
                if active.is_none() || jog.speeds_differ || accel_changed {
                    out.push(Effect::Jog { speeds, accel: jog.accel });
                }
            },
            None => {
                if active.is_some() {
                    out.push(Effect::JogRelease);
                }
            },
        }
        self.stream = Some(
            ActiveStream {
                activity: Activity::Jog { speeds: jog.speeds, releasing: false },
                deadline: jog.deadline,
                world_epoch: 0,
                speed: jog.full,
                accel: jog.accel,
            },
        );
        assert(out@ =~= queued + jog_effects(before, jog));
        Ok(())
    }

    /// Put a joint target to the collision gate. Where it is refused to a moving arm,
    /// the arm is released to brake and the stream goes on to place it on the
    /// standoff; an arm at rest is simply refused.
    fn admit_servo_target(
        &mut self,
        servo: ServoDatagram<Q, F>,
        gate: ServoGate<Q>,
        now: u64,
        out: &mut Vec<Effect<Q, F>>,
    ) -> (r: Result<u64, Refusal>)
        requires
            now + STANDOFF_TRAVEL_BUDGET <= u64::MAX,
        ensures
            latched(old(self).latch, servo_verdict(gate).0, final(self).latch),
            refusal_for(servo_verdict(gate).0) is None ==> {
                &&& r == Ok::<u64, Refusal>(gate.epoch)
                &&& final(self).stream == old(self).stream
                &&& final(out)@ == old(out)@
            },
            refusal_for(servo_verdict(gate).0) matches Some(refusal) ==> {
                &&& r matches Err(e) && e@ == refusal
                &&& final(self).stream == servo_outcome(
                    old(self).stream,
                    servo,
                    gate,
                    now,
                    0,
                ).0
                &&& final(out)@ == old(out)@ + servo_outcome(
                    old(self).stream,
                    servo,
                    gate,
                    now,
                    0,
                ).1
            },
    {
        let (verdict, goal) = match gate.at_target {
            Verdict::Clear => (gate.ahead, gate.lookahead),
            other => (other, gate.target_stop),
        };
        let collides = match &verdict {
            Verdict::Blocked { .. } => true,
            _ => false,
        };
        let refusal = match refuse_on(verdict, &mut self.latch) {
            Some(refusal) => refusal,
            None => {
                return Ok(gate.epoch);
            },
        };
        if collides && gate.moving {
            out.push(Effect::JogRelease);
            out.push(Effect::StreamRelease);
            self.stream = Some(
                ActiveStream {
                    activity: Activity::Braking { goal, still: 0, still_tick: 0 },
                    deadline: now + STANDOFF_TRAVEL_BUDGET,
                    world_epoch: gate.epoch,
                    speed: servo.speed,
                    accel: servo.accel,
                },
            );
        }
        assert(out@ =~= old(out)@ + servo_outcome(old(self).stream, servo, gate, now, 0).1);
        Err(refusal)
    }

    /// Put a joint target to the collision gate and track it where it is admitted.
    fn track(
        &mut self,
        servo: ServoDatagram<Q, F>,
        gate: ServoGate<Q>,
        now: u64,
        grace: u64,
        out: &mut Vec<Effect<Q, F>>,
    ) -> (r: Result<(), Refusal>)
        requires
            now + STANDOFF_TRAVEL_BUDGET <= u64::MAX,
            now + grace <= u64::MAX,
        ensures
            latched(old(self).latch, servo_verdict(gate).0, final(self).latch),
            final(self).stream == servo_outcome(old(self).stream, servo, gate, now, grace).0,
            final(out)@ == old(out)@ + servo_outcome(old(self).stream, servo, gate, now, grace).1,
            (match r {
                Ok(()) => None::<RefusalView>,
                Err(e) => Some(e@),
            }) == refusal_for(servo_verdict(gate).0),
    {
        let epoch = match self.admit_servo_target(servo, gate, now, out) {
            Ok(epoch) => epoch,
            Err(refusal) => {
                return Err(refusal);
            },
        };
        let serving = match &self.stream {
            Some(a) => match a.activity {
                Activity::Jog { .. } => false,
                Activity::CartJog { .. } => false,
                _ => true,
            },
            None => false,
        };
        if !serving {
            enter_stream_mode(Mode::Stream, out);
        }
        out.push(Effect::Setpoint { q: servo.target, speed: servo.speed, accel: servo.accel });
        self.stream = Some(
            ActiveStream {
                activity: Activity::Servo { target: servo.target },
                deadline: now + grace,
                world_epoch: epoch,
                speed: servo.speed,
                accel: servo.accel,
            },
        );
        assert(out@ =~= old(out)@ + servo_outcome(old(self).stream, servo, gate, now, grace).1);
        Ok(())
    }

    /// Take a joint target. While a refusal is being worked through it owns
    /// the arm: the datagram is answered with the standing refusal and changes
    /// nothing.
    pub fn servo_j(
        &mut self,
        servo: ServoDatagram<Q, F>,
        gate: ServoGate<Q>,
        now: u64,
        grace: u64,
        out: &mut Vec<Effect<Q, F>>,
    ) -> (r: Result<(), Refusal>)
        requires
            now + STANDOFF_TRAVEL_BUDGET <= u64::MAX,
            now + grace <= u64::MAX,
        ensures
            old(self).standing() ==> {
                &&& r matches Err(e) && e@ == (RefusalView::SelfCollision {
                    pairs: rendered(pairs_view(old(self).latch.pairs@)),
                })
                &&& *final(self) == *old(self)
                &&& final(out)@ == old(out)@
            },
            !old(self).standing() ==> {
                let after = servo_outcome(old(self).stream, servo, gate, now, grace);
                &&& latched(old(self).latch, servo_verdict(gate).0, final(self).latch)
                &&& final(self).stream == after.0
                &&& final(out)@ == old(out)@ + after.1
                &&& (match r {
                    Ok(()) => None::<RefusalView>,
                    Err(e) => Some(e@),
                }) == refusal_for(servo_verdict(gate).0)
            },
    {
        if self.in_standoff() {
            return Err(self.latch.standing_refusal());
        }
        self.track(servo, gate, now, grace, out)
    }

    /// Take a pose. One that does not resolve is dropped: the arm must not
    /// move on a pose the solver cannot reach. One that does is taken as the
    /// joint target it resolved to, so a refusal that is being worked through
    /// owns the arm here too.
    pub fn servo_pose(
        &mut self,
        ik: IkResult<Q>,
        speed: F,
        accel: F,
        gate: ServoGate<Q>,
        now: u64,
        grace: u64,
        out: &mut Vec<Effect<Q, F>>,
    ) -> (r: Result<(), Refusal>)
        requires
            now + STANDOFF_TRAVEL_BUDGET <= u64::MAX,
            now + grace <= u64::MAX,
        ensures
            !(ik is Solved) ==> {
                &&& r is Ok
                &&& *final(self) == *old(self)
                &&& final(out)@ == old(out)@
            },
            ik is Solved && old(self).standing() ==> {
                &&& r matches Err(e) && e@ == (RefusalView::SelfCollision {
                    pairs: rendered(pairs_view(old(self).latch.pairs@)),
                })
                &&& *final(self) == *old(self)
                &&& final(out)@ == old(out)@
            },
            (ik matches IkResult::Solved { q } && !old(self).standing()) ==> {
                let servo = ServoDatagram { target: ik->q, speed, accel };
                let after = servo_outcome(old(self).stream, servo, gate, now, grace);
                &&& latched(old(self).latch, servo_verdict(gate).0, final(self).latch)
                &&& final(self).stream == after.0
                &&& final(out)@ == old(out)@ + after.1
                &&& (match r {
                    Ok(()) => None::<RefusalView>,
                    Err(e) => Some(e@),
                }) == refusal_for(servo_verdict(gate).0)
            },
    {
        match ik {
            IkResult::Solved { q } => self.servo_j(
                ServoDatagram { target: q, speed, accel },
                gate,
                now,
                grace,
                out,
            ),
            IkResult::Unreachable => Ok(()),
            IkResult::Failed => Ok(()),
        }
    }

    /// Take a Cartesian jog. One that would collide is refused and changes
    /// nothing; a twist that does not resolve is admitted, because every
    /// failed solve holds the arm in place.
    pub fn jog_l(
        &mut self,
        jog: CartDatagram<Q, F, T>,
        verdict: Option<Verdict>,
        out: &mut Vec<Effect<Q, F>>,
    ) -> (r: Result<(), Refusal>)
        ensures
            (verdict matches Some(v) && refusal_for(v) is Some) ==> {
                &&& r matches Err(e) && Some(e@) == refusal_for(verdict->0)
                &&& latched(old(self).latch, verdict->0, final(self).latch)
                &&& final(self).stream == old(self).stream
                &&& final(out)@ == old(out)@
            },
            !(verdict matches Some(v) && refusal_for(v) is Some) ==> {
                &&& r is Ok
                &&& final(self).latch == old(self).latch
                &&& final(self).stream == Some(cart_jogging(jog))
                &&& final(out)@ == old(out)@ + cart_effects(old(self).stream)
            },
    {
        if let Some(v) = verdict {
            if let Some(refusal) = refuse_on(v, &mut self.latch) {
                return Err(refusal);
            }
        }
        let jogs = match &self.stream {
            Some(a) => match a.activity {
                Activity::CartJog { .. } => true,
                _ => false,
            },
            None => false,
        };
        if !jogs {
            enter_stream_mode(Mode::Stream, out);
        }
        self.stream = Some(
            ActiveStream {
                activity: Activity::CartJog { cart: jog.cart },
                deadline: jog.deadline,
                world_epoch: 0,
                speed: jog.full,
                accel: jog.accel,
            },
        );
        assert(out@ =~= old(out)@ + cart_effects(old(self).stream));
        Ok(())
    }
}

/// What a reply says of the request: nothing, or the refusal.
pub open spec fn reply_view(r: Result<(), Refusal>) -> Option<RefusalView> {
    match r {
        Ok(()) => None,
        Err(e) => Some(e@),
    }
}

/// A reply that refuses, latches what the verdict says, and leaves the stream
/// and the queue as they were.
pub open spec fn refused<Q, F, T>(
    before: Streaming<Q, F, T>,
    verdict: Verdict,
    queued: Seq<Effect<Q, F>>,
    after: Streaming<Q, F, T>,
    queued_after: Seq<Effect<Q, F>>,
    r: Result<(), Refusal>,
) -> bool {
    &&& reply_view(r) == refusal_for(verdict)
    &&& latched(before.latch, verdict, after.latch)
    &&& after.stream == before.stream
    &&& queued_after == queued
}

/// How a joint target that reaches the collision gate is answered.
pub open spec fn target_answers<Q, F, T>(
    before: Streaming<Q, F, T>,
    servo: ServoDatagram<Q, F>,
    gate: ServoGate<Q>,
    now: u64,
    grace: u64,
    queued: Seq<Effect<Q, F>>,
    after: Streaming<Q, F, T>,
    queued_after: Seq<Effect<Q, F>>,
    r: Result<(), Refusal>,
) -> bool {
    let outcome = servo_outcome(before.stream, servo, gate, now, grace);
    &&& reply_view(r) == refusal_for(servo_verdict(gate).0)
    &&& latched(before.latch, servo_verdict(gate).0, after.latch)
    &&& after.stream == outcome.0
    &&& queued_after == queued + outcome.1
}

/// How a joint target is answered: with the standing refusal while one is being
/// worked through, and by the collision gate otherwise.
pub open spec fn joint_target_answers<Q: Copy, F: Copy, T: Copy>(
    before: Streaming<Q, F, T>,
    servo: ServoDatagram<Q, F>,
    gate: ServoGate<Q>,
    now: u64,
    grace: u64,
    queued: Seq<Effect<Q, F>>,
    after: Streaming<Q, F, T>,
    queued_after: Seq<Effect<Q, F>>,
    r: Result<(), Refusal>,
) -> bool {
    if before.standing() {
        &&& reply_view(r) == Some(
            RefusalView::SelfCollision { pairs: rendered(pairs_view(before.latch.pairs@)) },
        )
        &&& after == before
        &&& queued_after == queued
    } else {
        target_answers(before, servo, gate, now, grace, queued, after, queued_after, r)
    }
}

/// How a streaming command is answered: the reply, the stream and the latch
/// afterwards, and what is queued.
pub open spec fn stream_answers<Q: Copy, F: Copy, T: Copy>(
    before: Streaming<Q, F, T>,
    cmd: StreamCommand<Q, F, T>,
    now: u64,
    grace: u64,
    queued: Seq<Effect<Q, F>>,
    after: Streaming<Q, F, T>,
    queued_after: Seq<Effect<Q, F>>,
    r: Result<(), Refusal>,
) -> bool {
    match cmd {
        StreamCommand::JogJ { jog, verdict } => if jog.speeds is Some && refusal_for(
            verdict,
        ) is Some {
            refused(before, verdict, queued, after, queued_after, r)
        } else {
            &&& r is Ok
            &&& after.latch == before.latch
            &&& after.stream == Some(jogging::<Q, F, T>(jog))
            &&& queued_after == queued + jog_effects(before.stream, jog)
        },
        StreamCommand::ServoJ { servo, gate } => joint_target_answers(
            before,
            servo,
            gate,
            now,
            grace,
            queued,
            after,
            queued_after,
            r,
        ),
        StreamCommand::ServoPose { ik, speed, accel, gate } => match ik {
            IkResult::Solved { q } => joint_target_answers(
                before,
                ServoDatagram { target: q, speed, accel },
                gate,
                now,
                grace,
                queued,
                after,
                queued_after,
                r,
            ),
            _ => r is Ok && after == before && queued_after == queued,
        },
        StreamCommand::JogL { jog, verdict } => if verdict matches Some(v) && refusal_for(
            v,
        ) is Some {
            refused(before, verdict->0, queued, after, queued_after, r)
        } else {
            &&& r is Ok
            &&& after.latch == before.latch
            &&& after.stream == Some(cart_jogging(jog))
            &&& queued_after == queued + cart_effects(before.stream)
        },
        StreamCommand::Other => r is Ok && after == before && queued_after == queued,
    }
}

/// A refusal in progress owns the arm: no target moves it, given as joints or as
/// a pose that resolves, none is accepted, and the standing verdict stays.
pub proof fn law_a_standing_refusal_owns_the_arm<Q: Copy, F: Copy, T: Copy>(
    before: Streaming<Q, F, T>,
    cmd: StreamCommand<Q, F, T>,
    now: u64,
    grace: u64,
    queued: Seq<Effect<Q, F>>,
    after: Streaming<Q, F, T>,
    queued_after: Seq<Effect<Q, F>>,
    r: Result<(), Refusal>,
)
    requires
        before.standing(),
        cmd is ServoJ || (cmd matches StreamCommand::ServoPose { ik, .. } && ik is Solved),
        stream_answers(before, cmd, now, grace, queued, after, queued_after, r),
    ensures
        reply_view(r) == Some(
            RefusalView::SelfCollision { pairs: rendered(pairs_view(before.latch.pairs@)) },
        ),
        after == before,
        queued_after == queued,
{
}

/// No command is both refused and obeyed: a refusal never starts or keeps a
/// motion the client asked for. What it leaves is the stream that was there,
/// or one that brakes.
pub proof fn law_a_refused_command_is_not_obeyed<Q: Copy, F: Copy, T: Copy>(
    before: Streaming<Q, F, T>,
    cmd: StreamCommand<Q, F, T>,
    now: u64,
    grace: u64,
    queued: Seq<Effect<Q, F>>,
    after: Streaming<Q, F, T>,
    queued_after: Seq<Effect<Q, F>>,
    r: Result<(), Refusal>,
)
    requires
        stream_answers(before, cmd, now, grace, queued, after, queued_after, r),
        r is Err,
    ensures
        after.stream == before.stream || (after.stream matches Some(a) && a.activity is Braking),
        queued_after == queued || queued_after == queued + seq![
            Effect::<Q, F>::JogRelease,
            Effect::StreamRelease,
        ],
{
    assert(queued + Seq::<Effect<Q, F>>::empty() =~= queued);
}

/// An arm at rest is simply refused: a collision predicted of a target does
/// not move an arm that was not moving.
pub proof fn law_an_arm_at_rest_stays_at_rest<Q: Copy, F: Copy, T: Copy>(
    stream: Option<ActiveStream<Q, F, T>>,
    servo: ServoDatagram<Q, F>,
    gate: ServoGate<Q>,
    now: u64,
    grace: u64,
)
    requires
        !gate.moving,
        refusal_for(servo_verdict(gate).0) is Some,
    ensures
        servo_outcome(stream, servo, gate, now, grace).0 == stream,
        servo_outcome(stream, servo, gate, now, grace).1.len() == 0,
{
}

/// A command that is accepted never leaves a refusal in progress behind.
pub proof fn law_an_accepted_motion_follows_the_client<Q: Copy, F: Copy, T: Copy>(
    before: Streaming<Q, F, T>,
    cmd: StreamCommand<Q, F, T>,
    now: u64,
    grace: u64,
    queued: Seq<Effect<Q, F>>,
    after: Streaming<Q, F, T>,
    queued_after: Seq<Effect<Q, F>>,
    r: Result<(), Refusal>,
)
    requires
        stream_answers(before, cmd, now, grace, queued, after, queued_after, r),
        r is Ok,
        cmd !is Other,
        cmd matches StreamCommand::ServoPose { ik, .. } ==> ik is Solved,
    ensures
        !after.standing(),
        after.stream is Some,
{
}

/// The joint target a command asks for: a target given as joints, or the
/// configuration a pose resolved to.
pub open spec fn target_asked<Q, F, T>(cmd: StreamCommand<Q, F, T>) -> Option<
    (ServoDatagram<Q, F>, ServoGate<Q>),
> {
    match cmd {
        StreamCommand::ServoJ { servo, gate } => Some((servo, gate)),
        StreamCommand::ServoPose { ik: IkResult::Solved { q }, speed, accel, gate } => Some(
            (ServoDatagram { target: q, speed, accel }, gate),
        ),
        _ => None,
    }
}

/// Every admitted joint target reaches the core: whatever stream was in progress, the
/// last thing the datagram queues is a setpoint of its own target at its own speed and
/// acceleration. A stream of targets that is in progress gets that setpoint and
/// nothing else; anything else is led into the streaming mode through idle first. The
/// stream afterwards holds that target until the client has been silent for the grace.
pub proof fn law_every_admitted_target_reaches_the_core<Q: Copy, F: Copy, T: Copy>(
    before: Streaming<Q, F, T>,
    cmd: StreamCommand<Q, F, T>,
    now: u64,
    grace: u64,
    queued: Seq<Effect<Q, F>>,
    after: Streaming<Q, F, T>,
    queued_after: Seq<Effect<Q, F>>,
    r: Result<(), Refusal>,
)
    requires
        stream_answers(before, cmd, now, grace, queued, after, queued_after, r),
        target_asked(cmd) is Some,
        r is Ok,
        now + grace <= u64::MAX,
    ensures
        ({
            let (servo, gate) = target_asked(cmd)->0;
            let order = Effect::Setpoint {
                q: servo.target,
                speed: servo.speed,
                accel: servo.accel,
            };
            &&& queued_after.len() > queued.len()
            &&& queued_after.take(queued.len() as int) == queued
            &&& queued_after.last() == order
            &&& (before.stream matches Some(a) && a.activity is Servo) ==> queued_after
                == queued.push(order)
            &&& !(before.stream matches Some(a) && a.activity is Servo) ==> queued_after == queued
                + seq![
                Effect::SetMode(Mode::Idle),
                Effect::SetMode(Mode::Stream),
                order,
            ]
            &&& after.stream matches Some(a) && {
                &&& a.activity == Activity::<Q, T>::Servo { target: servo.target }
                &&& a.deadline == now + grace
                &&& a.world_epoch == gate.epoch
                &&& a.speed == servo.speed
                &&& a.accel == servo.accel
            }
            &&& after.latch == before.latch
        }),
{
    let (servo, gate) = target_asked(cmd)->0;
    let order = Effect::Setpoint { q: servo.target, speed: servo.speed, accel: servo.accel };
    assert(queued + (Seq::<Effect<Q, F>>::empty() + seq![order]) =~= queued.push(order));
    assert(entering::<Q, F>(Mode::Stream) + seq![order] =~= seq![
        Effect::SetMode(Mode::Idle),
        Effect::SetMode(Mode::Stream),
        order,
    ]);
    assert(queued_after.take(queued.len() as int) =~= queued);
}

/// A joint target is admitted exactly if no refusal stands, coming to rest at it is
/// clear, and so is where the arm's own momentum carries it.
pub proof fn law_a_target_is_admitted_exactly_if_it_is_clear<Q: Copy, F: Copy, T: Copy>(
    before: Streaming<Q, F, T>,
    cmd: StreamCommand<Q, F, T>,
    now: u64,
    grace: u64,
    queued: Seq<Effect<Q, F>>,
    after: Streaming<Q, F, T>,
    queued_after: Seq<Effect<Q, F>>,
    r: Result<(), Refusal>,
)
    requires
        stream_answers(before, cmd, now, grace, queued, after, queued_after, r),
        target_asked(cmd) is Some,
    ensures
        ({
            let gate = (target_asked(cmd)->0).1;
            let owned = before.stream matches Some(a) && (a.activity is Braking || a.activity
                is Placing);
            r is Ok <==> !owned && gate.at_target is Clear && gate.ahead is Clear
        }),
{
}

/// A target that would collide is told with its pairs, and the pairs stand from then
/// on. A moving arm is released from whatever it follows, and the stream brakes away
/// from exactly what was refused, with the whole travel budget from now; an arm at rest
/// is left as it is, with the stream it had. A world that cannot be asked refuses and
/// changes nothing.
pub proof fn law_a_refused_target_brakes_a_moving_arm<Q: Copy, F: Copy, T: Copy>(
    before: Streaming<Q, F, T>,
    cmd: StreamCommand<Q, F, T>,
    now: u64,
    grace: u64,
    queued: Seq<Effect<Q, F>>,
    after: Streaming<Q, F, T>,
    queued_after: Seq<Effect<Q, F>>,
    r: Result<(), Refusal>,
)
    requires
        stream_answers(before, cmd, now, grace, queued, after, queued_after, r),
        target_asked(cmd) is Some,
        !(before.stream matches Some(a) && (a.activity is Braking || a.activity is Placing)),
        now + STANDOFF_TRAVEL_BUDGET <= u64::MAX,
    ensures
        ({
            let (servo, gate) = target_asked(cmd)->0;
            let told = if gate.at_target is Clear {
                gate.ahead
            } else {
                gate.at_target
            };
            let goal = if gate.at_target is Clear {
                gate.lookahead
            } else {
                gate.target_stop
            };
            &&& told matches Verdict::Blocked { pairs } ==> {
                &&& r matches Err(e) && e@ == (RefusalView::SelfCollision {
                    pairs: rendered(pairs_view(pairs@)),
                })
                &&& after.latch.active
                &&& after.latch.pairs == pairs
                &&& gate.moving ==> queued_after == queued + seq![
                    Effect::<Q, F>::JogRelease,
                    Effect::StreamRelease,
                ] && (after.stream matches Some(a) && {
                    &&& a.activity == Activity::<Q, T>::Braking { goal, still: 0, still_tick: 0 }
                    &&& a.deadline == now + 3_000_000_000
                    &&& a.world_epoch == gate.epoch
                    &&& a.speed == servo.speed
                    &&& a.accel == servo.accel
                })
                &&& !gate.moving ==> queued_after == queued && after.stream == before.stream
            }
            &&& told matches Verdict::Failed { detail } ==> {
                &&& r matches Err(e) && e@ == (RefusalView::GateFailed { detail: detail@ })
                &&& after == before
                &&& queued_after == queued
            }
        }),
{
    assert(queued + Seq::<Effect<Q, F>>::empty() =~= queued);
}

/// A joint jog that is admitted is commanded. Speeds that differ from those in force,
/// another acceleration, or a jog that was let go queue exactly one command, with the
/// datagram's own speeds and acceleration; the same again queues nothing; and whatever
/// is not a jog yet is led into the jog mode through idle first. Whatever is queued,
/// the stream holds the datagram's speeds until its watchdog fires.
pub proof fn law_an_admitted_jog_is_commanded<Q: Copy, F: Copy, T: Copy>(
    before: Streaming<Q, F, T>,
    jog: JogDatagram<Q, F>,
    verdict: Verdict,
    now: u64,
    grace: u64,
    queued: Seq<Effect<Q, F>>,
    after: Streaming<Q, F, T>,
    queued_after: Seq<Effect<Q, F>>,
    r: Result<(), Refusal>,
    v: Q,
)
    requires
        stream_answers(
            before,
            StreamCommand::JogJ { jog, verdict },
            now,
            grace,
            queued,
            after,
            queued_after,
            r,
        ),
        r is Ok,
        jog.speeds == Some(v),
    ensures
        ({
            let order = Effect::Jog { speeds: v, accel: jog.accel };
            &&& !(before.stream matches Some(a) && a.activity is Jog) ==> queued_after == queued
                + seq![Effect::SetMode(Mode::Idle), Effect::SetMode(Mode::Jog), order]
            &&& (before.stream matches Some(a) && a.activity is Jog) ==> ({
                let live = before.stream->0.activity->Jog_speeds;
                &&& live is None || jog.speeds_differ || jog.accel_differs ==> queued_after
                    == queued.push(order)
                &&& live is Some && !jog.speeds_differ && !jog.accel_differs ==> queued_after
                    == queued
            })
            &&& after.stream matches Some(a) && {
                &&& a.activity == Activity::<Q, T>::Jog { speeds: Some(v), releasing: false }
                &&& a.deadline == jog.deadline
                &&& a.speed == jog.full
                &&& a.accel == jog.accel
            }
            &&& after.latch == before.latch
        }),
{
    let order = Effect::Jog { speeds: v, accel: jog.accel };
    assert(queued + (Seq::<Effect<Q, F>>::empty() + seq![order]) =~= queued.push(order));
    assert(queued + (Seq::<Effect<Q, F>>::empty() + Seq::<Effect<Q, F>>::empty()) =~= queued);
    assert(entering::<Q, F>(Mode::Jog) + seq![order] =~= seq![
        Effect::SetMode(Mode::Idle),
        Effect::SetMode(Mode::Jog),
        order,
    ]);
}

/// A joint jog that is let go is released, once: a jog in force queues one release, one
/// that was let go already queues nothing, and no verdict keeps the arm from it. The
/// stream stays open, without speeds, until its watchdog fires.
pub proof fn law_letting_go_is_always_taken<Q: Copy, F: Copy, T: Copy>(
    before: Streaming<Q, F, T>,
    jog: JogDatagram<Q, F>,
    verdict: Verdict,
    now: u64,
    grace: u64,
    queued: Seq<Effect<Q, F>>,
    after: Streaming<Q, F, T>,
    queued_after: Seq<Effect<Q, F>>,
    r: Result<(), Refusal>,
)
    requires
        stream_answers(
            before,
            StreamCommand::JogJ { jog, verdict },
            now,
            grace,
            queued,
            after,
            queued_after,
            r,
        ),
        jog.speeds is None,
    ensures
        r is Ok,
        !(before.stream matches Some(a) && a.activity is Jog) ==> queued_after == queued + seq![
            Effect::<Q, F>::SetMode(Mode::Idle),
            Effect::SetMode(Mode::Jog),
        ],
        (before.stream matches Some(a) && a.activity is Jog) ==> queued_after == (
        if before.stream->0.activity->Jog_speeds is Some {
            queued.push(Effect::<Q, F>::JogRelease)
        } else {
            queued
        }),
        after.stream matches Some(a) && {
            &&& a.activity == Activity::<Q, T>::Jog { speeds: None, releasing: false }
            &&& a.deadline == jog.deadline
            &&& a.speed == jog.full
            &&& a.accel == jog.accel
        },
        after.latch == before.latch,
{
    let none = Seq::<Effect<Q, F>>::empty();
    assert(queued + (none + seq![Effect::<Q, F>::JogRelease]) =~= queued.push(
        Effect::<Q, F>::JogRelease,
    ));
    assert(queued + (none + none) =~= queued);
    assert(entering::<Q, F>(Mode::Jog) + none =~= entering::<Q, F>(Mode::Jog));
}

/// A jog, of joints or of the tool, is refused exactly if it drives anything and its
/// verdict is not clear. A refusal changes neither the stream nor the queue; the pairs
/// of a collision stand from then on.
pub proof fn law_a_jog_is_refused_exactly_for_its_verdict<Q: Copy, F: Copy, T: Copy>(
    before: Streaming<Q, F, T>,
    cmd: StreamCommand<Q, F, T>,
    now: u64,
    grace: u64,
    queued: Seq<Effect<Q, F>>,
    after: Streaming<Q, F, T>,
    queued_after: Seq<Effect<Q, F>>,
    r: Result<(), Refusal>,
)
    requires
        stream_answers(before, cmd, now, grace, queued, after, queued_after, r),
        cmd is JogJ || cmd is JogL,
    ensures
        ({
            let told = match cmd {
                StreamCommand::JogJ { jog, verdict } => if jog.speeds is Some {
                    Some(verdict)
                } else {
                    None
                },
                StreamCommand::JogL { jog, verdict } => verdict,
                _ => None,
            };
            &&& r is Ok <==> !(told matches Some(v) && !(v is Clear))
            &&& r is Err ==> after.stream == before.stream && queued_after == queued
            &&& (told matches Some(Verdict::Blocked { pairs }) ==> {
                &&& after.latch.active
                &&& after.latch.pairs == pairs
                &&& r matches Err(e) && e@ == (RefusalView::SelfCollision {
                    pairs: rendered(pairs_view(pairs@)),
                })
            })
            &&& (told matches Some(Verdict::Failed { detail }) ==> {
                &&& after.latch == before.latch
                &&& r matches Err(e) && e@ == (RefusalView::GateFailed { detail: detail@ })
            })
        }),
{
}

/// A Cartesian jog that is admitted is the stream from then on, from where it was
/// seeded and until its watchdog fires. One in progress is not led into the streaming
/// mode again; anything else is, through idle.
pub proof fn law_an_admitted_tool_jog_is_the_stream<Q: Copy, F: Copy, T: Copy>(
    before: Streaming<Q, F, T>,
    jog: CartDatagram<Q, F, T>,
    verdict: Option<Verdict>,
    now: u64,
    grace: u64,
    queued: Seq<Effect<Q, F>>,
    after: Streaming<Q, F, T>,
    queued_after: Seq<Effect<Q, F>>,
    r: Result<(), Refusal>,
)
    requires
        stream_answers(
            before,
            StreamCommand::JogL { jog, verdict },
            now,
            grace,
            queued,
            after,
            queued_after,
            r,
        ),
        r is Ok,
    ensures
        (before.stream matches Some(a) && a.activity is CartJog) ==> queued_after == queued,
        !(before.stream matches Some(a) && a.activity is CartJog) ==> queued_after == queued + seq![
            Effect::<Q, F>::SetMode(Mode::Idle),
            Effect::SetMode(Mode::Stream),
        ],
        after.stream matches Some(a) && {
            &&& a.activity == Activity::CartJog { cart: jog.cart }
            &&& a.deadline == jog.deadline
            &&& a.speed == jog.full
            &&& a.accel == jog.accel
        },
        after.latch == before.latch,
{
    assert(queued + Seq::<Effect<Q, F>>::empty() =~= queued);
}

/// A command that is no streaming one, and a pose that does not resolve, are taken and
/// change nothing.
pub proof fn law_what_asks_for_no_motion_changes_nothing<Q: Copy, F: Copy, T: Copy>(
    before: Streaming<Q, F, T>,
    cmd: StreamCommand<Q, F, T>,
    now: u64,
    grace: u64,
    queued: Seq<Effect<Q, F>>,
    after: Streaming<Q, F, T>,
    queued_after: Seq<Effect<Q, F>>,
    r: Result<(), Refusal>,
)
    requires
        stream_answers(before, cmd, now, grace, queued, after, queued_after, r),
        cmd is Other || (cmd matches StreamCommand::ServoPose { ik, .. } && !(ik is Solved)),
    ensures
        r is Ok,
        after == before,
        queued_after == queued,
{
}

/// A motion that is clear is refused nothing; one that is blocked is refused with the pairs,
/// which are latched; and one of which nothing is known is refused with the detail, and
/// nothing is latched.
pub proof fn law_how_a_motion_is_refused(
    verdict: Verdict,
    r: Result<(), Refusal>,
    before: CollisionState,
    after: CollisionState,
)
    requires
        reply_view(r) == refusal_for(verdict),
        latched(before, verdict, after),
    ensures
        r is Ok <==> verdict is Clear,
        verdict is Blocked ==> (r matches Err(e) && e@ == (RefusalView::SelfCollision {
            pairs: rendered(pairs_view(verdict->pairs@)),
        })) && after.active && after.pairs == verdict->pairs,
        verdict is Failed ==> (r matches Err(e) && e@ == (RefusalView::GateFailed {
            detail: verdict->detail@,
        })),
        !(verdict is Blocked) ==> after == before,
{
}

} // verus!
