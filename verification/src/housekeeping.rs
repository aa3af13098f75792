//! The timed follow-throughs of a stream: what one housekeeping pass does.
//!
//! A pass first says what it has to ask of the collision world and the
//! kinematics, then acts on the answer. Most passes ask nothing.
use crate::runtime::{CollisionState, Mode};
use crate::stream::{
    cart_effects, entering, jog_effects, latched, servo_outcome, ActiveStream, Activity, CartJog,
    Effect, JogDatagram, ServoDatagram, ServoGate, Streaming, Verdict, STANDOFF_TRAVEL_BUDGET,
};
use vstd::prelude::*;

verus! {

/// Consecutive fresh snapshots that count as the arm having stopped.
pub const STANDOFF_STILL_TICKS: u8 = 8;

/// What a pass reads of the core's last snapshot.
#[derive(Clone, Copy, Debug, PartialEq)]
pub struct Snapshot<Q> {
    /// The tick it was taken at.
    pub tick: u64,
    /// The mode the core was in.
    pub mode: Mode,
    /// Whether the arm was enabled.
    pub enabled: bool,
    /// Enable requests the core has processed, granted or refused.
    pub enable_seq: u64,
    /// The measured configuration.
    pub q: Q,
    /// Whether some joint is faster than the moving threshold.
    pub moving: bool,
    /// Whether every joint is within the moving threshold.
    pub still: bool,
}

/// The durations and fractions a pass works with.
#[derive(Clone, Copy, Debug, PartialEq)]
pub struct Pace<F> {
    /// Client silence after which a stream of targets ends itself.
    pub servo_grace: u64,
    /// Longer than any ramp of a released jog.
    pub jog_ramp_cap: u64,
    /// Speed fraction of the placement onto a standoff.
    pub placement_speed: F,
    /// Acceleration fraction of the placement onto a standoff.
    pub placement_accel: F,
}

/// What a pass has to ask.
#[derive(Clone, Copy, Debug, PartialEq)]
pub enum Inquiry<Q, T> {
    /// Nothing.
    Nothing,
    /// Where the arm belongs, from where it stopped and toward what was
    /// refused.
    Standoff {
        /// The refused configuration.
        goal: Q,
    },
    /// Whether the arm is on the standoff, and the next configuration toward
    /// it.
    Placement {
        /// The standoff.
        stop: Q,
    },
    /// Whether the jog comes to rest clear.
    JogAhead {
        /// The live speeds.
        speeds: Q,
    },
    /// Whether the measured motion comes to rest clear.
    MotionAhead,
    /// Whether a held target is clear of a world that changed.
    HeldTarget {
        /// The target.
        target: Q,
    },
    /// One integration step of a Cartesian jog, and whether it comes to rest
    /// clear.
    CartStep {
        /// The jog.
        cart: CartJog<Q, T>,
    },
}

/// What a pass was told.
#[derive(Debug)]
pub enum Answer<Q> {
    /// Nothing was asked.
    Nothing,
    /// The standoff, backed off by the settle margin.
    Standoff {
        /// Where the arm belongs.
        stop: Q,
        /// Whether it is there already.
        arrived: bool,
    },
    /// No standoff could be solved.
    NoStandoff,
    /// On the way to the standoff.
    Placement {
        /// Whether the arm is on the standoff and stopped.
        arrived: bool,
        /// The next configuration toward it.
        next: Q,
    },
    /// The verdict on a projection.
    Ahead {
        /// The verdict.
        verdict: Verdict,
        /// The projected configuration.
        goal: Q,
    },
    /// The verdict on a held target.
    Held {
        /// The verdict.
        verdict: Verdict,
    },
    /// A Cartesian jog stepped.
    CartStep {
        /// The joint target it reached.
        q: Q,
        /// The verdict on coming to rest there.
        verdict: Verdict,
    },
    /// A Cartesian jog could not be stepped.
    CartHeld,
}

/// Whether an answer is one to the inquiry.
pub open spec fn answers<Q, T>(inquiry: Inquiry<Q, T>, answer: Answer<Q>) -> bool {
    match inquiry {
        Inquiry::Nothing => answer is Nothing,
        Inquiry::Standoff { goal } => answer is Standoff || answer is NoStandoff,
        Inquiry::Placement { stop } => answer is Placement,
        Inquiry::JogAhead { speeds } => answer is Ahead,
        Inquiry::MotionAhead => answer is Ahead,
        Inquiry::HeldTarget { target } => answer is Held,
        Inquiry::CartStep { cart } => answer is CartStep || answer is CartHeld,
    }
}

/// The stopped snapshots counted once this one is in: a snapshot counts only
/// if its tick is new, and one that moves starts the count again.
pub open spec fn still_count<Q>(still: u8, still_tick: u64, snap: Snapshot<Q>) -> u8 {
    if snap.tick == still_tick {
        still
    } else if snap.still {
        if still < u8::MAX {
            (still + 1) as u8
        } else {
            u8::MAX
        }
    } else {
        0
    }
}

/// What a pass over `stream` asks.
pub open spec fn asked<Q, F, T>(
    stream: Option<ActiveStream<Q, F, T>>,
    now: u64,
    snap: Snapshot<Q>,
    epoch: u64,
) -> Inquiry<Q, T> {
    match stream {
        None => Inquiry::Nothing,
        Some(a) => match a.activity {
            Activity::Braking { goal, still, still_tick } => if still_count(still, still_tick, snap)
                >= STANDOFF_STILL_TICKS {
                Inquiry::Standoff { goal }
            } else {
                Inquiry::Nothing
            },
            Activity::Placing { stop } => Inquiry::Placement { stop },
            Activity::Jog { speeds, releasing } => if now >= a.deadline || (releasing && snap.mode
                != Mode::Jog) {
                Inquiry::Nothing
            } else {
                match speeds {
                    Some(speeds) => Inquiry::JogAhead { speeds },
                    None => Inquiry::Nothing,
                }
            },
            Activity::Servo { target } => if now >= a.deadline {
                Inquiry::Nothing
            } else if snap.moving {
                Inquiry::MotionAhead
            } else if epoch != a.world_epoch {
                Inquiry::HeldTarget { target }
            } else {
                Inquiry::Nothing
            },
            Activity::CartJog { cart } => if now >= a.deadline {
                Inquiry::Nothing
            } else {
                Inquiry::CartStep { cart }
            },
        },
    }
}

/// What a pass leaves: the stream, what it queues, and whether the loop goes
/// round again at once.
pub struct Passed<Q, F, T> {
    /// The stream afterwards.
    pub stream: Option<ActiveStream<Q, F, T>>,
    /// What is queued, in order.
    pub effects: Seq<Effect<Q, F>>,
    /// Whether the loop goes round again before anything else.
    pub again: bool,
}

/// The stream ends and the core is sent to idle.
pub open spec fn idled<Q, F, T>(again: bool) -> Passed<Q, F, T> {
    Passed { stream: None, effects: seq![Effect::SetMode(Mode::Idle)], again }
}

/// The two releases of a stop on a predicted collision: each mode ignores the
/// release that is not its own. Idle is not commanded, because it has no
/// authority over the velocity the arm still carries.
pub open spec fn releases<Q, F>() -> Seq<Effect<Q, F>> {
    seq![Effect::JogRelease, Effect::StreamRelease]
}

/// The setpoint of a configuration at the stream's own fractions.
pub open spec fn setpoint<Q, F, T>(a: ActiveStream<Q, F, T>, q: Q) -> Effect<Q, F> {
    Effect::Setpoint { q, speed: a.speed, accel: a.accel }
}

/// A pass over a refused stream that is still moving, or was.
pub open spec fn braking_pass<Q, F, T>(
    a: ActiveStream<Q, F, T>,
    now: u64,
    snap: Snapshot<Q>,
    answer: Answer<Q>,
    pace: Pace<F>,
) -> Passed<Q, F, T>
    recommends
        a.activity is Braking,
{
    let goal = a.activity->Braking_goal;
    let still = still_count(a.activity->still, a.activity->still_tick, snap);
    if still < STANDOFF_STILL_TICKS {
        if now < a.deadline {
            Passed {
                stream: Some(
                    ActiveStream {
                        activity: Activity::Braking { goal, still, still_tick: snap.tick },
                        ..a
                    },
                ),
                effects: Seq::empty(),
                again: false,
            }
        } else {
            idled(false)
        }
    } else {
        match answer {
            Answer::Standoff { stop, arrived } => if arrived {
                idled(false)
            } else {
                Passed {
                    stream: Some(
                        ActiveStream {
                            activity: Activity::Placing { stop },
                            deadline: (now + STANDOFF_TRAVEL_BUDGET) as u64,
                            ..a
                        },
                    ),
                    effects: seq![
                        Effect::SetMode(Mode::Idle),
                        Effect::SetMode(Mode::Stream),
                        Effect::Setpoint {
                            q: stop,
                            speed: pace.placement_speed,
                            accel: pace.placement_accel,
                        },
                    ],
                    again: false,
                }
            },
            _ => idled(false),
        }
    }
}

/// A pass over a refused stream on its way to the standoff.
pub open spec fn placing_pass<Q, F, T>(
    a: ActiveStream<Q, F, T>,
    now: u64,
    answer: Answer<Q>,
    pace: Pace<F>,
) -> Passed<Q, F, T>
    recommends
        a.activity is Placing,
        answer is Placement,
{
    let stop = a.activity->stop;
    if answer->Placement_arrived {
        Passed {
            stream: Some(
                ActiveStream {
                    activity: Activity::Servo { target: stop },
                    deadline: (now + pace.servo_grace) as u64,
                    ..a
                },
            ),
            effects: Seq::empty(),
            again: false,
        }
    } else if now >= a.deadline {
        idled(false)
    } else {
        Passed {
            stream: Some(a),
            effects: seq![
                Effect::Setpoint {
                    q: answer->next,
                    speed: pace.placement_speed,
                    accel: pace.placement_accel,
                },
            ],
            again: false,
        }
    }
}

/// A pass over a stream whose time is up.
pub open spec fn expired_pass<Q, F, T>(
    a: ActiveStream<Q, F, T>,
    now: u64,
    pace: Pace<F>,
) -> Passed<Q, F, T> {
    match a.activity {
        Activity::Jog { speeds, releasing } => if releasing {
            idled(false)
        } else {
            Passed {
                stream: Some(
                    ActiveStream {
                        activity: Activity::Jog { speeds: None, releasing: true },
                        deadline: (now + pace.jog_ramp_cap) as u64,
                        ..a
                    },
                ),
                effects: seq![Effect::JogRelease],
                again: true,
            }
        },
        _ => idled(false),
    }
}

/// A pass over a jog in progress.
pub open spec fn jog_pass<Q, F, T>(a: ActiveStream<Q, F, T>, answer: Answer<Q>) -> Passed<
    Q,
    F,
    T,
> {
    match answer {
        Answer::Ahead { verdict, goal } => match verdict {
            Verdict::Clear => Passed { stream: Some(a), effects: Seq::empty(), again: false },
            Verdict::Blocked { pairs } => Passed {
                stream: None,
                effects: releases(),
                again: false,
            },
            Verdict::Failed { detail } => Passed {
                stream: None,
                effects: seq![Effect::JogRelease, Effect::SetMode(Mode::Idle)],
                again: false,
            },
        },
        _ => Passed { stream: Some(a), effects: Seq::empty(), again: false },
    }
}

/// A pass over a stream of targets.
pub open spec fn servo_pass<Q, F, T>(
    a: ActiveStream<Q, F, T>,
    now: u64,
    epoch: u64,
    answer: Answer<Q>,
) -> Passed<Q, F, T>
    recommends
        a.activity is Servo,
{
    let target = a.activity->target;
    match answer {
        Answer::Ahead { verdict, goal } => match verdict {
            Verdict::Clear => Passed { stream: Some(a), effects: Seq::empty(), again: false },
            Verdict::Blocked { pairs } => Passed {
                stream: Some(
                    ActiveStream {
                        activity: Activity::Braking { goal, still: 0, still_tick: 0 },
                        deadline: (now + STANDOFF_TRAVEL_BUDGET) as u64,
                        ..a
                    },
                ),
                effects: releases(),
                again: true,
            },
            Verdict::Failed { detail } => idled(true),
        },
        Answer::Held { verdict } => match verdict {
            Verdict::Clear => Passed {
                stream: Some(ActiveStream { world_epoch: epoch, ..a }),
                effects: seq![setpoint(a, target)],
                again: false,
            },
            Verdict::Blocked { pairs } => Passed { stream: None, effects: releases(), again: true },
            Verdict::Failed { detail } => idled(true),
        },
        _ => Passed { stream: Some(a), effects: seq![setpoint(a, target)], again: false },
    }
}

/// A pass over a Cartesian jog.
pub open spec fn cart_pass<Q, F, T>(a: ActiveStream<Q, F, T>, answer: Answer<Q>) -> Passed<Q, F, T>
    recommends
        a.activity is CartJog,
{
    let cart = a.activity->cart;
    match answer {
        Answer::CartStep { q, verdict } => match verdict {
            Verdict::Clear => Passed {
                stream: Some(
                    ActiveStream {
                        activity: Activity::CartJog { cart: CartJog { motion: cart.motion, q } },
                        ..a
                    },
                ),
                effects: seq![setpoint(a, q)],
                again: false,
            },
            Verdict::Blocked { pairs } => Passed { stream: None, effects: releases(), again: true },
            Verdict::Failed { detail } => idled(true),
        },
        _ => Passed { stream: Some(a), effects: seq![setpoint(a, cart.q)], again: false },
    }
}

/// What one pass does to the stream.
pub open spec fn passed<Q, F, T>(
    stream: Option<ActiveStream<Q, F, T>>,
    now: u64,
    snap: Snapshot<Q>,
    epoch: u64,
    answer: Answer<Q>,
    pace: Pace<F>,
) -> Passed<Q, F, T> {
    match stream {
        None => Passed { stream: None, effects: Seq::empty(), again: false },
        Some(a) => match a.activity {
            Activity::Braking { goal, still, still_tick } => braking_pass(
                a,
                now,
                snap,
                answer,
                pace,
            ),
            Activity::Placing { stop } => placing_pass(a, now, answer, pace),
            Activity::Jog { speeds, releasing } => if releasing && snap.mode != Mode::Jog {
                Passed { stream: None, effects: Seq::empty(), again: false }
            } else if now >= a.deadline {
                expired_pass(a, now, pace)
            } else {
                jog_pass(a, answer)
            },
            Activity::Servo { target } => if now >= a.deadline {
                expired_pass(a, now, pace)
            } else {
                servo_pass(a, now, epoch, answer)
            },
            Activity::CartJog { cart } => if now >= a.deadline {
                expired_pass(a, now, pace)
            } else {
                cart_pass(a, answer)
            },
        },
    }
}

/// The verdict an answer carries; one that carries none latches nothing.
pub open spec fn verdict_in<Q>(answer: Answer<Q>) -> Verdict {
    match answer {
        Answer::Ahead { verdict, goal } => verdict,
        Answer::Held { verdict } => verdict,
        Answer::CartStep { q, verdict } => verdict,
        _ => Verdict::Clear,
    }
}

/// Count a snapshot.
fn counted<Q: Copy>(still: u8, still_tick: u64, snap: &Snapshot<Q>) -> (r: u8)
    ensures
        r == still_count(still, still_tick, *snap),
{
    if snap.tick == still_tick {
        still
    } else if snap.still {
        still.saturating_add(1)
    } else {
        0
    }
}

/// Queue the two releases and latch the pairs of a predicted collision.
fn collision_stop<Q, F>(
    latch: &mut CollisionState,
    pairs: Vec<(String, String)>,
    out: &mut Vec<Effect<Q, F>>,
)
    ensures
        final(latch).active,
        final(latch).pairs == pairs,
        final(out)@ == old(out)@ + releases::<Q, F>(),
{
    let _ = latch.refuse(pairs);
    out.push(Effect::JogRelease);
    out.push(Effect::StreamRelease);
    assert(out@ =~= old(out)@ + releases::<Q, F>());
}

impl<Q: Copy, F: Copy, T: Copy> Streaming<Q, F, T> {
    /// What the next pass has to ask.
    pub fn inquiry(&self, now: u64, snap: &Snapshot<Q>, epoch: u64) -> (r: Inquiry<Q, T>)
        ensures
            r == asked(self.stream, now, *snap, epoch),
    {
        match &self.stream {
            None => Inquiry::Nothing,
            Some(a) => match a.activity {
                Activity::Braking { goal, still, still_tick } => {
                    if counted(still, still_tick, snap) >= STANDOFF_STILL_TICKS {
                        Inquiry::Standoff { goal }
                    } else {
                        Inquiry::Nothing
                    }
                },
                Activity::Placing { stop } => Inquiry::Placement { stop },
                Activity::Jog { speeds, releasing } => {
                    if now >= a.deadline || (releasing && snap.mode != Mode::Jog) {
                        Inquiry::Nothing
                    } else {
                        match speeds {
                            Some(speeds) => Inquiry::JogAhead { speeds },
                            None => Inquiry::Nothing,
                        }
                    }
                },
                Activity::Servo { target } => {
                    if now >= a.deadline {
                        Inquiry::Nothing
                    } else if snap.moving {
                        Inquiry::MotionAhead
                    } else if epoch != a.world_epoch {
                        Inquiry::HeldTarget { target }
                    } else {
                        Inquiry::Nothing
                    }
                },
                Activity::CartJog { cart } => {
                    if now >= a.deadline {
                        Inquiry::Nothing
                    } else {
                        Inquiry::CartStep { cart }
                    }
                },
            },
        }
    }

    /// End the stream and send the core to idle.
    fn idle(&mut self, out: &mut Vec<Effect<Q, F>>)
        ensures
            final(self).stream is None,
            final(self).latch == old(self).latch,
            final(out)@ == old(out)@ + seq![Effect::<Q, F>::SetMode(Mode::Idle)],
    {
        out.push(Effect::SetMode(Mode::Idle));
        self.stream = None;
        assert(out@ =~= old(out)@ + seq![Effect::<Q, F>::SetMode(Mode::Idle)]);
    }

    /// One pass over a refused stream that is shedding velocity.
    fn pass_braking(
        &mut self,
        a: ActiveStream<Q, F, T>,
        now: u64,
        snap: &Snapshot<Q>,
        answer: Answer<Q>,
        pace: &Pace<F>,
        out: &mut Vec<Effect<Q, F>>,
    )
        requires
            a.activity is Braking,
            now + STANDOFF_TRAVEL_BUDGET <= u64::MAX,
        ensures
            ({
                let after = braking_pass(a, now, *snap, answer, *pace);
                &&& final(self).stream == after.stream
                &&& final(out)@ == old(out)@ + after.effects
                &&& !after.again
            }),
            final(self).latch == old(self).latch,
    {
        let ghost queued = out@;
        if let Activity::Braking { goal, still, still_tick } = a.activity {
            let count: u8 = counted(still, still_tick, snap);
            if count < STANDOFF_STILL_TICKS {
                if now < a.deadline {
                    self.stream = Some(
                        ActiveStream {
                            activity: Activity::Braking {
                                goal,
                                still: count,
                                still_tick: snap.tick,
                            },
                            deadline: a.deadline,
                            world_epoch: a.world_epoch,
                            speed: a.speed,
                            accel: a.accel,
                        },
                    );
                    assert(out@ =~= queued + Seq::<Effect<Q, F>>::empty());
                } else {
                    self.idle(out);
                }
                return;
            }
            match answer {
                Answer::Standoff { stop, arrived } => {
                    if arrived {
                        self.idle(out);
                        return;
                    }
                    out.push(Effect::SetMode(Mode::Idle));
                    out.push(Effect::SetMode(Mode::Stream));
                    out.push(
                        Effect::Setpoint {
                            q: stop,
                            speed: pace.placement_speed,
                            accel: pace.placement_accel,
                        },
                    );
                    self.stream = Some(
                        ActiveStream {
                            activity: Activity::Placing { stop },
                            deadline: now + STANDOFF_TRAVEL_BUDGET,
                            world_epoch: a.world_epoch,
                            speed: a.speed,
                            accel: a.accel,
                        },
                    );
                    assert(out@ =~= queued + braking_pass(a, now, *snap, answer, *pace).effects);
                },
                _ => {
                    self.idle(out);
                },
            }
        }
    }

    /// One pass over a refused stream on its way to the standoff.
    fn pass_placing(
        &mut self,
        a: ActiveStream<Q, F, T>,
        now: u64,
        answer: Answer<Q>,
        pace: &Pace<F>,
        out: &mut Vec<Effect<Q, F>>,
    )
        requires
            a.activity is Placing,
            answer is Placement,
            now + pace.servo_grace <= u64::MAX,
        ensures
            ({
                let after = placing_pass(a, now, answer, *pace);
                &&& final(self).stream == after.stream
                &&& final(out)@ == old(out)@ + after.effects
                &&& !after.again
            }),
            final(self).latch == old(self).latch,
    {
        let ghost queued = out@;
        if let Activity::Placing { stop } = a.activity {
            if let Answer::Placement { arrived, next } = answer {
                if arrived {
                    self.stream = Some(
                        ActiveStream {
                            activity: Activity::Servo { target: stop },
                            deadline: now + pace.servo_grace,
                            world_epoch: a.world_epoch,
                            speed: a.speed,
                            accel: a.accel,
                        },
                    );
                    assert(out@ =~= queued + Seq::<Effect<Q, F>>::empty());
                } else if now >= a.deadline {
                    self.idle(out);
                } else {
                    out.push(
                        Effect::Setpoint {
                            q: next,
                            speed: pace.placement_speed,
                            accel: pace.placement_accel,
                        },
                    );
                    self.stream = Some(a);
                    assert(out@ =~= queued + placing_pass(a, now, answer, *pace).effects);
                }
            }
        }
    }

    /// One pass over a stream whose time is up. A jog is released first and
    /// keeps its session while it ramps to rest; everything else idles.
    fn pass_expired(
        &mut self,
        a: ActiveStream<Q, F, T>,
        now: u64,
        pace: &Pace<F>,
        out: &mut Vec<Effect<Q, F>>,
    ) -> (again: bool)
        requires
            now + pace.jog_ramp_cap <= u64::MAX,
        ensures
            ({
                let after = expired_pass(a, now, *pace);
                &&& final(self).stream == after.stream
                &&& final(out)@ == old(out)@ + after.effects
                &&& again == after.again
            }),
            final(self).latch == old(self).latch,
    {
        let ghost queued = out@;
        if let Activity::Jog { speeds: _, releasing } = a.activity {
            if !releasing {
                out.push(Effect::JogRelease);
                self.stream = Some(
                    ActiveStream {
                        activity: Activity::Jog { speeds: None, releasing: true },
                        deadline: now + pace.jog_ramp_cap,
                        world_epoch: a.world_epoch,
                        speed: a.speed,
                        accel: a.accel,
                    },
                );
                assert(out@ =~= queued + expired_pass(a, now, *pace).effects);
                return true;
            }
        }
        self.idle(out);
        false
    }

    /// One pass over a jog in progress: the projection is tested again from
    /// where the arm is, against the world as it is now.
    fn pass_jog(&mut self, a: ActiveStream<Q, F, T>, answer: Answer<Q>, out: &mut Vec<Effect<Q, F>>)
        ensures
            ({
                let after = jog_pass(a, answer);
                &&& final(self).stream == after.stream
                &&& final(out)@ == old(out)@ + after.effects
                &&& !after.again
            }),
            answer is Ahead ==> latched(old(self).latch, verdict_in(answer), final(self).latch),
            !(answer is Ahead) ==> final(self).latch == old(self).latch,
    {
        let ghost queued = out@;
        match answer {
            Answer::Ahead { verdict, goal: _ } => match verdict {
                Verdict::Clear => {
                    self.stream = Some(a);
                    assert(out@ =~= queued + Seq::<Effect<Q, F>>::empty());
                },
                Verdict::Blocked { pairs } => {
                    collision_stop(&mut self.latch, pairs, out);
                    self.stream = None;
                },
                Verdict::Failed { detail: _ } => {
                    out.push(Effect::JogRelease);
                    out.push(Effect::SetMode(Mode::Idle));
                    self.stream = None;
                    assert(out@ =~= queued + jog_pass(a, answer).effects);
                },
            },
            _ => {
                self.stream = Some(a);
                assert(out@ =~= queued + Seq::<Effect<Q, F>>::empty());
            },
        }
    }

    /// One pass over a stream of targets: a moving one is projected to rest
    /// and tested, a held one is tested when the world changes and fed
    /// between datagrams.
    fn pass_servo(
        &mut self,
        a: ActiveStream<Q, F, T>,
        now: u64,
        epoch: u64,
        answer: Answer<Q>,
        out: &mut Vec<Effect<Q, F>>,
    ) -> (again: bool)
        requires
            a.activity is Servo,
            now + STANDOFF_TRAVEL_BUDGET <= u64::MAX,
            answer is Ahead || answer is Held || answer is Nothing,
        ensures
            ({
                let after = servo_pass(a, now, epoch, answer);
                &&& final(self).stream == after.stream
                &&& final(out)@ == old(out)@ + after.effects
                &&& again == after.again
            }),
            latched(old(self).latch, verdict_in(answer), final(self).latch),
    {
        let ghost queued = out@;
        if let Activity::Servo { target } = a.activity {
            match answer {
                Answer::Ahead { verdict, goal } => match verdict {
                    Verdict::Clear => {
                        self.stream = Some(a);
                        assert(out@ =~= queued + Seq::<Effect<Q, F>>::empty());
                        false
                    },
                    Verdict::Blocked { pairs } => {
                        collision_stop(&mut self.latch, pairs, out);
                        self.stream = Some(
                            ActiveStream {
                                activity: Activity::Braking { goal, still: 0, still_tick: 0 },
                                deadline: now + STANDOFF_TRAVEL_BUDGET,
                                world_epoch: a.world_epoch,
                                speed: a.speed,
                                accel: a.accel,
                            },
                        );
                        true
                    },
                    Verdict::Failed { detail: _ } => {
                        self.idle(out);
                        true
                    },
                },
                Answer::Held { verdict } => match verdict {
                    Verdict::Clear => {
                        self.stream = Some(
                            ActiveStream {
                                activity: a.activity,
                                deadline: a.deadline,
                                world_epoch: epoch,
                                speed: a.speed,
                                accel: a.accel,
                            },
                        );
                        out.push(Effect::Setpoint { q: target, speed: a.speed, accel: a.accel });
                        assert(out@ =~= queued + servo_pass(a, now, epoch, answer).effects);
                        false
                    },
                    Verdict::Blocked { pairs } => {
                        collision_stop(&mut self.latch, pairs, out);
                        self.stream = None;
                        true
                    },
                    Verdict::Failed { detail: _ } => {
                        self.idle(out);
                        true
                    },
                },
                _ => {
                    self.stream = Some(a);
                    out.push(Effect::Setpoint { q: target, speed: a.speed, accel: a.accel });
                    assert(out@ =~= queued + servo_pass(a, now, epoch, answer).effects);
                    false
                },
            }
        } else {
            false
        }
    }

    /// One pass over a Cartesian jog: an admitted step becomes the setpoint, a
    /// failed solve holds the arm in place.
    fn pass_cart(
        &mut self,
        a: ActiveStream<Q, F, T>,
        answer: Answer<Q>,
        out: &mut Vec<Effect<Q, F>>,
    ) -> (again: bool)
        requires
            a.activity is CartJog,
            answer is CartStep || answer is CartHeld,
        ensures
            ({
                let after = cart_pass(a, answer);
                &&& final(self).stream == after.stream
                &&& final(out)@ == old(out)@ + after.effects
                &&& again == after.again
            }),
            latched(old(self).latch, verdict_in(answer), final(self).latch),
    {
        let ghost queued = out@;
        if let Activity::CartJog { cart } = a.activity {
            match answer {
                Answer::CartStep { q, verdict } => match verdict {
                    Verdict::Clear => {
                        self.stream = Some(
                            ActiveStream {
                                activity: Activity::CartJog {
                                    cart: CartJog { motion: cart.motion, q },
                                },
                                deadline: a.deadline,
                                world_epoch: a.world_epoch,
                                speed: a.speed,
                                accel: a.accel,
                            },
                        );
                        out.push(Effect::Setpoint { q, speed: a.speed, accel: a.accel });
                        assert(out@ =~= queued + cart_pass(a, answer).effects);
                        false
                    },
                    Verdict::Blocked { pairs } => {
                        collision_stop(&mut self.latch, pairs, out);
                        self.stream = None;
                        true
                    },
                    Verdict::Failed { detail: _ } => {
                        self.idle(out);
                        true
                    },
                },
                _ => {
                    self.stream = Some(a);
                    out.push(Effect::Setpoint { q: cart.q, speed: a.speed, accel: a.accel });
                    assert(out@ =~= queued + cart_pass(a, answer).effects);
                    false
                },
            }
        } else {
            false
        }
    }

    /// One housekeeping pass over the stream. The result says whether the loop
    /// goes round again at once.
    pub fn pass(
        &mut self,
        now: u64,
        snap: &Snapshot<Q>,
        epoch: u64,
        answer: Answer<Q>,
        pace: &Pace<F>,
        out: &mut Vec<Effect<Q, F>>,
    ) -> (again: bool)
        requires
            answers(asked(old(self).stream, now, *snap, epoch), answer),
            now + STANDOFF_TRAVEL_BUDGET <= u64::MAX,
            now + pace.servo_grace <= u64::MAX,
            now + pace.jog_ramp_cap <= u64::MAX,
        ensures
            ({
                let after = passed(old(self).stream, now, *snap, epoch, answer, *pace);
                &&& final(self).stream == after.stream
                &&& final(out)@ == old(out)@ + after.effects
                &&& again == after.again
            }),
            latched(old(self).latch, verdict_in(answer), final(self).latch),
    {
        let ghost queued = out@;
        assert(out@ =~= queued + Seq::<Effect<Q, F>>::empty());
        let a = match &self.stream {
            None => {
                return false;
            },
            Some(a) => *a,
        };
        match a.activity {
            Activity::Braking { .. } => {
                self.pass_braking(a, now, snap, answer, pace, out);
                false
            },
            Activity::Placing { .. } => {
                self.pass_placing(a, now, answer, pace, out);
                false
            },
            Activity::Jog { speeds: _, releasing } => {
                if releasing && snap.mode != Mode::Jog {
                    self.stream = None;
                    false
                } else if now >= a.deadline {
                    self.pass_expired(a, now, pace, out)
                } else {
                    self.pass_jog(a, answer, out);
                    false
                }
            },
            Activity::Servo { .. } => {
                if now >= a.deadline {
                    self.pass_expired(a, now, pace, out)
                } else {
                    self.pass_servo(a, now, epoch, answer, out)
                }
            },
            Activity::CartJog { .. } => {
                if now >= a.deadline {
                    self.pass_expired(a, now, pace, out)
                } else {
                    self.pass_cart(a, answer, out)
                }
            },
        }
    }
}

/// How many deadlines a stream can still live through.
pub open spec fn deadlines_left<Q, F, T>(stream: Option<ActiveStream<Q, F, T>>) -> int {
    match stream {
        None => 0,
        Some(a) => match a.activity {
            Activity::Braking { goal, still, still_tick } => 3,
            Activity::Placing { stop } => 2,
            Activity::Jog { speeds, releasing } => if releasing {
                1
            } else {
                2
            },
            Activity::Servo { target } => 1,
            Activity::CartJog { cart } => 1,
        },
    }
}

/// Whether a setpoint is among the effects.
pub open spec fn drives<Q, F>(effects: Seq<Effect<Q, F>>) -> bool {
    exists|i: int| 0 <= i < effects.len() && (#[trigger] effects[i]) is Setpoint
}

/// Whether every change into a streaming mode follows a change to idle.
pub open spec fn through_idle<Q, F>(effects: Seq<Effect<Q, F>>) -> bool {
    forall|i: int|
        0 <= i < effects.len() && (#[trigger] effects[i] matches Effect::SetMode(m) && m
            != Mode::Idle) ==> i > 0 && effects[i - 1] == Effect::<Q, F>::SetMode(Mode::Idle)
}

/// A client that goes silent does not keep a stream alive: every pass at or
/// past the stream's deadline uses one of its few deadlines up, and the last
/// one ends it.
pub proof fn law_a_silent_stream_ends<Q, F, T>(
    a: ActiveStream<Q, F, T>,
    now: u64,
    snap: Snapshot<Q>,
    epoch: u64,
    answer: Answer<Q>,
    pace: Pace<F>,
)
    requires
        now >= a.deadline,
        answers(asked(Some(a), now, snap, epoch), answer),
    ensures
        0 <= deadlines_left(passed(Some(a), now, snap, epoch, answer, pace).stream)
            < deadlines_left(Some(a)) <= 3,
{
}

/// Before its deadline a pass never gives a stream more deadlines than it had,
/// but for one that is refused on the move and has to be stopped and placed.
pub proof fn law_only_a_refusal_prolongs_a_stream<Q, F, T>(
    a: ActiveStream<Q, F, T>,
    now: u64,
    snap: Snapshot<Q>,
    epoch: u64,
    answer: Answer<Q>,
    pace: Pace<F>,
)
    requires
        answers(asked(Some(a), now, snap, epoch), answer),
        verdict_in(answer) !is Blocked,
    ensures
        deadlines_left(passed(Some(a), now, snap, epoch, answer, pace).stream) <= deadlines_left(
            Some(a),
        ),
{
}

/// A motion that is predicted to collide is not driven on: the pass feeds no
/// setpoint, releases the arm, and leaves no stream but one that brakes.
pub proof fn law_a_predicted_collision_stops_the_stream<Q, F, T>(
    a: ActiveStream<Q, F, T>,
    now: u64,
    snap: Snapshot<Q>,
    epoch: u64,
    answer: Answer<Q>,
    pace: Pace<F>,
)
    requires
        answers(asked(Some(a), now, snap, epoch), answer),
        verdict_in(answer) is Blocked,
    ensures
        ({
            let after = passed(Some(a), now, snap, epoch, answer, pace);
            &&& !drives(after.effects)
            &&& after.effects == releases::<Q, F>()
            &&& after.stream matches Some(b) ==> b.activity is Braking
        }),
{
}

/// A world that cannot be queried gates nothing that can be proved, so the
/// stream ends rather than run unchecked.
pub proof fn law_an_unanswered_gate_ends_the_stream<Q, F, T>(
    a: ActiveStream<Q, F, T>,
    now: u64,
    snap: Snapshot<Q>,
    epoch: u64,
    answer: Answer<Q>,
    pace: Pace<F>,
)
    requires
        answers(asked(Some(a), now, snap, epoch), answer),
        verdict_in(answer) is Failed,
    ensures
        ({
            let after = passed(Some(a), now, snap, epoch, answer, pace);
            &&& after.stream is None
            &&& !drives(after.effects)
            &&& after.effects.last() == Effect::<Q, F>::SetMode(Mode::Idle)
        }),
{
}

/// The keep-alive of a stream that no refusal has touched feeds the core what
/// the client asked for: its own target, at its own fractions.
pub proof fn law_the_keep_alive_feeds_the_clients_setpoint<Q, F, T>(
    a: ActiveStream<Q, F, T>,
    now: u64,
    snap: Snapshot<Q>,
    epoch: u64,
    answer: Answer<Q>,
    pace: Pace<F>,
    i: int,
)
    requires
        answers(asked(Some(a), now, snap, epoch), answer),
        a.activity is Servo,
        0 <= i < passed(Some(a), now, snap, epoch, answer, pace).effects.len(),
        passed(Some(a), now, snap, epoch, answer, pace).effects[i] is Setpoint,
    ensures
        passed(Some(a), now, snap, epoch, answer, pace).effects[i] == setpoint(
            a,
            a.activity->target,
        ),
{
}

/// A refused arm is given no setpoint before it has measured stopped in as
/// many consecutive fresh snapshots as count as rest.
pub proof fn law_a_refused_arm_is_placed_from_rest<Q, F, T>(
    a: ActiveStream<Q, F, T>,
    now: u64,
    snap: Snapshot<Q>,
    epoch: u64,
    answer: Answer<Q>,
    pace: Pace<F>,
)
    requires
        answers(asked(Some(a), now, snap, epoch), answer),
        a.activity is Braking,
        drives(passed(Some(a), now, snap, epoch, answer, pace).effects),
    ensures
        still_count(a.activity->still, a.activity->still_tick, snap) >= STANDOFF_STILL_TICKS,
{
}

/// One snapshot is counted once, however often it is read, and one that shows
/// the arm moving starts the count again.
pub proof fn law_a_snapshot_counts_once<Q>(still: u8, still_tick: u64, snap: Snapshot<Q>)
    ensures
        still_count(still_count(still, still_tick, snap), snap.tick, snap) == still_count(
            still,
            still_tick,
            snap,
        ),
        still_count(still, still_tick, snap) <= still + 1,
        snap.tick != still_tick && !snap.still ==> still_count(still, still_tick, snap) == 0,
{
}

/// The core's working modes are reached through idle only, and nothing the
/// stream ever queues asks for anything else.
pub proof fn law_streaming_modes_are_entered_through_idle<Q, F, T>(
    stream: Option<ActiveStream<Q, F, T>>,
    jog: JogDatagram<Q, F>,
    servo: ServoDatagram<Q, F>,
    gate: ServoGate<Q>,
    now: u64,
    grace: u64,
    snap: Snapshot<Q>,
    epoch: u64,
    answer: Answer<Q>,
    pace: Pace<F>,
)
    ensures
        through_idle(jog_effects(stream, jog)),
        through_idle(servo_outcome(stream, servo, gate, now, grace).1),
        through_idle(cart_effects(stream)),
        through_idle(passed(stream, now, snap, epoch, answer, pace).effects),
{
    let entry = entering::<Q, F>(Mode::Jog);
    assert(entry[0] == Effect::<Q, F>::SetMode(Mode::Idle));
    let entry = entering::<Q, F>(Mode::Stream);
    assert(entry[0] == Effect::<Q, F>::SetMode(Mode::Idle));
}

/// Holding a control steady costs the core's queue nothing: a jog datagram
/// that repeats the speeds and the acceleration in force queues no command.
pub proof fn law_a_steady_jog_queues_nothing<Q, F, T>(
    a: ActiveStream<Q, F, T>,
    jog: JogDatagram<Q, F>,
)
    requires
        a.activity is Jog,
        jog.speeds is Some <==> a.activity->Jog_speeds is Some,
        !jog.speeds_differ,
        !jog.accel_differs,
    ensures
        jog_effects(Some(a), jog).len() == 0,
{
}

/// Letting go of a jog is queued at once, and only once: the release is the
/// one command of the datagram that stops it, and the next one queues nothing.
pub proof fn law_a_release_is_queued_once<Q, F, T>(
    a: ActiveStream<Q, F, T>,
    jog: JogDatagram<Q, F>,
)
    requires
        a.activity is Jog,
        jog.speeds is None,
    ensures
        a.activity->Jog_speeds is Some ==> jog_effects(Some(a), jog) == seq![
            Effect::<Q, F>::JogRelease,
        ],
        jog_effects(Some(crate::stream::jogging::<Q, F, T>(jog)), jog).len() == 0,
{
}

/// A Cartesian step that is clear becomes the setpoint: exactly one, of the very
/// configuration the step reached and at the stream's own speed and acceleration, and
/// the jog goes on from there. A step that could not be solved holds the arm where the
/// jog had got to, and leaves the jog as it was.
pub proof fn law_a_clear_tool_step_becomes_the_setpoint<Q, F, T>(
    a: ActiveStream<Q, F, T>,
    now: u64,
    snap: Snapshot<Q>,
    epoch: u64,
    answer: Answer<Q>,
    pace: Pace<F>,
)
    requires
        answers(asked(Some(a), now, snap, epoch), answer),
        a.activity is CartJog,
        now < a.deadline,
        answer is CartHeld || verdict_in(answer) is Clear,
    ensures
        ({
            let after = passed(Some(a), now, snap, epoch, answer, pace);
            let cart = a.activity->cart;
            let q = match answer {
                Answer::CartStep { q, verdict } => q,
                _ => cart.q,
            };
            &&& after.effects == seq![Effect::Setpoint { q, speed: a.speed, accel: a.accel }]
            &&& after.stream == Some(
                ActiveStream {
                    activity: Activity::CartJog { cart: CartJog { motion: cart.motion, q } },
                    deadline: a.deadline,
                    world_epoch: a.world_epoch,
                    speed: a.speed,
                    accel: a.accel,
                },
            )
            &&& !after.again
        }),
{
}

/// A stream of targets that holds still is fed: one setpoint of its own target at its
/// own speed and acceleration with every pass before its deadline, and a world that
/// changed is remembered once the target was found clear of it. One that moves and is
/// clear is left alone.
pub proof fn law_a_held_target_is_fed_with_every_pass<Q, F, T>(
    a: ActiveStream<Q, F, T>,
    now: u64,
    snap: Snapshot<Q>,
    epoch: u64,
    answer: Answer<Q>,
    pace: Pace<F>,
)
    requires
        answers(asked(Some(a), now, snap, epoch), answer),
        a.activity is Servo,
        now < a.deadline,
        verdict_in(answer) is Clear,
    ensures
        ({
            let after = passed(Some(a), now, snap, epoch, answer, pace);
            let q = a.activity->target;
            &&& !snap.moving ==> {
                &&& after.effects == seq![Effect::Setpoint { q, speed: a.speed, accel: a.accel }]
                &&& after.stream == Some(ActiveStream { world_epoch: epoch, ..a })
            }
            &&& snap.moving ==> after.effects.len() == 0 && after.stream == Some(a)
            &&& !after.again
        }),
{
}

/// A jog that comes to rest clear is left alone, and so is one that was let go while it
/// ramps to rest in its mode.
pub proof fn law_a_clear_jog_is_left_alone<Q, F, T>(
    a: ActiveStream<Q, F, T>,
    now: u64,
    snap: Snapshot<Q>,
    epoch: u64,
    answer: Answer<Q>,
    pace: Pace<F>,
)
    requires
        answers(asked(Some(a), now, snap, epoch), answer),
        a.activity is Jog,
        now < a.deadline,
        verdict_in(answer) is Clear,
        !(a.activity->releasing && snap.mode != Mode::Jog),
    ensures
        passed(Some(a), now, snap, epoch, answer, pace).stream == Some(a),
        passed(Some(a), now, snap, epoch, answer, pace).effects.len() == 0,
        !passed(Some(a), now, snap, epoch, answer, pace).again,
{
}

/// A predicted collision is answered with both releases. A stream of targets on the
/// move goes on to brake, away from the very configuration that was predicted and with
/// the whole travel budget from now; every other stream ends.
pub proof fn law_a_predicted_collision_releases_the_arm<Q, F, T>(
    a: ActiveStream<Q, F, T>,
    now: u64,
    snap: Snapshot<Q>,
    epoch: u64,
    answer: Answer<Q>,
    pace: Pace<F>,
)
    requires
        answers(asked(Some(a), now, snap, epoch), answer),
        verdict_in(answer) is Blocked,
        now + STANDOFF_TRAVEL_BUDGET <= u64::MAX,
    ensures
        ({
            let after = passed(Some(a), now, snap, epoch, answer, pace);
            &&& after.effects == seq![Effect::<Q, F>::JogRelease, Effect::StreamRelease]
            &&& (a.activity is Servo && snap.moving) ==> (answer matches Answer::Ahead {
                verdict,
                goal,
            } && after.stream == Some(
                ActiveStream::<Q, F, T> {
                    activity: Activity::Braking { goal, still: 0, still_tick: 0 },
                    deadline: (now + 3_000_000_000) as u64,
                    world_epoch: a.world_epoch,
                    speed: a.speed,
                    accel: a.accel,
                },
            ))
            &&& !(a.activity is Servo && snap.moving) ==> after.stream is None
        }),
{
}

/// A stream whose verdict could not be had ends in idle; a jog is released first.
pub proof fn law_an_unknown_verdict_idles_the_arm<Q, F, T>(
    a: ActiveStream<Q, F, T>,
    now: u64,
    snap: Snapshot<Q>,
    epoch: u64,
    answer: Answer<Q>,
    pace: Pace<F>,
)
    requires
        answers(asked(Some(a), now, snap, epoch), answer),
        verdict_in(answer) is Failed,
    ensures
        passed(Some(a), now, snap, epoch, answer, pace).stream is None,
        passed(Some(a), now, snap, epoch, answer, pace).effects == (if a.activity is Jog {
            seq![Effect::<Q, F>::JogRelease, Effect::SetMode(Mode::Idle)]
        } else {
            seq![Effect::<Q, F>::SetMode(Mode::Idle)]
        }),
{
}

/// A jog whose watchdog fires is released, and its session stays open, without speeds,
/// for as long as its ramp may take. Once the core has left the jog mode the session is
/// over with nothing more to queue; where it never does, and where any other stream's
/// time is up, the core is sent to idle and the stream ends.
pub proof fn law_a_stream_ends_when_its_time_is_up<Q, F, T>(
    a: ActiveStream<Q, F, T>,
    now: u64,
    snap: Snapshot<Q>,
    epoch: u64,
    answer: Answer<Q>,
    pace: Pace<F>,
)
    requires
        answers(asked(Some(a), now, snap, epoch), answer),
        now >= a.deadline,
        a.activity is Jog || a.activity is Servo || a.activity is CartJog,
        now + pace.jog_ramp_cap <= u64::MAX,
    ensures
        ({
            let after = passed(Some(a), now, snap, epoch, answer, pace);
            let jogs = a.activity is Jog;
            let let_go = a.activity is Jog && a.activity->releasing;
            &&& jogs && !let_go ==> {
                &&& after.effects == seq![Effect::<Q, F>::JogRelease]
                &&& after.stream == Some(
                    ActiveStream::<Q, F, T> {
                        activity: Activity::Jog { speeds: None, releasing: true },
                        deadline: (now + pace.jog_ramp_cap) as u64,
                        world_epoch: a.world_epoch,
                        speed: a.speed,
                        accel: a.accel,
                    },
                )
                &&& after.again
            }
            &&& !(jogs && !let_go) ==> after.stream is None && after.effects == (
            if let_go && snap.mode != Mode::Jog {
                Seq::<Effect<Q, F>>::empty()
            } else {
                seq![Effect::<Q, F>::SetMode(Mode::Idle)]
            })
        }),
{
}

/// A jog that ramped to rest is over the moment the core has left its mode, deadline or
/// not, and nothing is queued for it.
pub proof fn law_a_finished_ramp_ends_the_session<Q, F, T>(
    a: ActiveStream<Q, F, T>,
    now: u64,
    snap: Snapshot<Q>,
    epoch: u64,
    answer: Answer<Q>,
    pace: Pace<F>,
)
    requires
        answers(asked(Some(a), now, snap, epoch), answer),
        a.activity is Jog,
        a.activity->releasing,
        snap.mode != Mode::Jog,
    ensures
        passed(Some(a), now, snap, epoch, answer, pace).stream is None,
        passed(Some(a), now, snap, epoch, answer, pace).effects.len() == 0,
{
}

/// A refused arm is waited for until it measures stopped in eight fresh snapshots in a
/// row, and given up in idle if it does not by its deadline. From rest it is led into
/// the streaming mode and sent to the standoff that was solved, at the placement's own
/// pace and with a travel budget of its own; where it is there already, or none could be
/// solved, it is idled.
pub proof fn law_a_refused_arm_is_stopped_and_then_placed<Q, F, T>(
    a: ActiveStream<Q, F, T>,
    now: u64,
    snap: Snapshot<Q>,
    epoch: u64,
    answer: Answer<Q>,
    pace: Pace<F>,
)
    requires
        answers(asked(Some(a), now, snap, epoch), answer),
        a.activity is Braking,
        now + STANDOFF_TRAVEL_BUDGET <= u64::MAX,
    ensures
        ({
            let after = passed(Some(a), now, snap, epoch, answer, pace);
            let (still, tick) = (a.activity->still, a.activity->still_tick);
            let count: int = if snap.tick == tick {
                still as int
            } else if !snap.still {
                0
            } else if still < 255 {
                still + 1
            } else {
                255
            };
            &&& count < 8 && now < a.deadline ==> {
                &&& after.effects.len() == 0
                &&& after.stream == Some(
                    ActiveStream {
                        activity: Activity::Braking {
                            goal: a.activity->Braking_goal,
                            still: count as u8,
                            still_tick: snap.tick,
                        },
                        ..a
                    },
                )
            }
            &&& (count >= 8 && (answer matches Answer::Standoff { stop, arrived } && !arrived)) ==> {
                let stop = answer->Standoff_stop;
                &&& after.effects == seq![
                    Effect::SetMode(Mode::Idle),
                    Effect::SetMode(Mode::Stream),
                    Effect::Setpoint {
                        q: stop,
                        speed: pace.placement_speed,
                        accel: pace.placement_accel,
                    },
                ]
                &&& after.stream == Some(
                    ActiveStream {
                        activity: Activity::Placing { stop },
                        deadline: (now + 3_000_000_000) as u64,
                        ..a
                    },
                )
            }
            &&& !(count < 8 && now < a.deadline) && !(count >= 8 && (answer matches Answer::Standoff {
                stop,
                arrived,
            } && !arrived)) ==> after.stream is None && after.effects == seq![
                Effect::<Q, F>::SetMode(Mode::Idle),
            ]
            &&& !after.again
        }),
{
}

/// An arm on its way to the standoff is sent the next configuration on the way with
/// every pass, at the placement's own pace, until it is there and stopped; then the
/// standoff is held as the stream's own target, for the client's grace. One that is not
/// there by its deadline is idled.
pub proof fn law_a_placed_arm_is_held_on_the_standoff<Q, F, T>(
    a: ActiveStream<Q, F, T>,
    now: u64,
    snap: Snapshot<Q>,
    epoch: u64,
    answer: Answer<Q>,
    pace: Pace<F>,
)
    requires
        answers(asked(Some(a), now, snap, epoch), answer),
        a.activity is Placing,
        now + pace.servo_grace <= u64::MAX,
    ensures
        ({
            let after = passed(Some(a), now, snap, epoch, answer, pace);
            let arrived = answer->Placement_arrived;
            &&& arrived ==> after.effects.len() == 0 && after.stream == Some(
                ActiveStream {
                    activity: Activity::Servo { target: a.activity->stop },
                    deadline: (now + pace.servo_grace) as u64,
                    ..a
                },
            )
            &&& !arrived && now < a.deadline ==> {
                &&& after.stream == Some(a)
                &&& after.effects == seq![
                    Effect::Setpoint {
                        q: answer->next,
                        speed: pace.placement_speed,
                        accel: pace.placement_accel,
                    },
                ]
            }
            &&& !arrived && now >= a.deadline ==> after.stream is None && after.effects == seq![
                Effect::<Q, F>::SetMode(Mode::Idle),
            ]
            &&& !after.again
        }),
{
}

/// What drives the arm is always asked about before its time is up: a jog with speeds
/// and a stream on the move by where they come to rest, a held target by itself whenever
/// the world has changed since it was last asked about, a Cartesian jog by its next
/// step, and an arm being placed by the standoff it is placed on.
pub proof fn law_what_drives_the_arm_is_asked_about<Q, F, T>(
    a: ActiveStream<Q, F, T>,
    now: u64,
    snap: Snapshot<Q>,
    epoch: u64,
)
    ensures
        ({
            let question = asked(Some(a), now, snap, epoch);
            &&& a.activity is Placing ==> question == Inquiry::<Q, T>::Placement {
                stop: a.activity->stop,
            }
            &&& (now < a.deadline && a.activity is CartJog) ==> question == Inquiry::CartStep {
                cart: a.activity->cart,
            }
            &&& (now < a.deadline && a.activity is Servo) ==> question == (if snap.moving {
                Inquiry::<Q, T>::MotionAhead
            } else if epoch == a.world_epoch {
                Inquiry::Nothing
            } else {
                Inquiry::HeldTarget { target: a.activity->target }
            })
            &&& (now < a.deadline && a.activity is Jog && !(a.activity->releasing && snap.mode
                != Mode::Jog)) ==> question == (match a.activity->Jog_speeds {
                Some(speeds) => Inquiry::<Q, T>::JogAhead { speeds },
                None => Inquiry::Nothing,
            })
            &&& (a.activity matches Activity::Braking { goal, still, still_tick } && snap.still
                && snap.tick != still_tick && still >= 7) ==> question
                == Inquiry::<Q, T>::Standoff { goal: a.activity->Braking_goal }
        }),
{
}

/// Where nothing streams, a pass asks nothing, queues nothing and starts nothing.
pub proof fn law_nothing_comes_of_nothing<Q, F, T>(
    now: u64,
    snap: Snapshot<Q>,
    epoch: u64,
    answer: Answer<Q>,
    pace: Pace<F>,
)
    ensures
        asked(None::<ActiveStream<Q, F, T>>, now, snap, epoch) is Nothing,
        passed(None::<ActiveStream<Q, F, T>>, now, snap, epoch, answer, pace).stream is None,
        passed(None::<ActiveStream<Q, F, T>>, now, snap, epoch, answer, pace).effects.len() == 0,
        !passed(None::<ActiveStream<Q, F, T>>, now, snap, epoch, answer, pace).again,
{
}

/// What a pass latches is the verdict it was told, whatever it asked about.
pub proof fn law_a_told_verdict_is_latched<Q>(
    answer: Answer<Q>,
    before: CollisionState,
    after: CollisionState,
)
    requires
        latched(before, verdict_in(answer), after),
    ensures
        (answer matches Answer::Ahead { verdict: Verdict::Blocked { pairs }, goal }
            ==> after.active && after.pairs == pairs),
        (answer matches Answer::Held { verdict: Verdict::Blocked { pairs } } ==> after.active
            && after.pairs == pairs),
        (answer matches Answer::CartStep { q, verdict: Verdict::Blocked { pairs } }
            ==> after.active && after.pairs == pairs),
        !(verdict_in(answer) is Blocked) ==> after == before,
        verdict_in(answer) is Blocked ==> answer is Ahead || answer is Held || answer is CartStep,
{
}

/// The loop goes round again at once exactly if a stream was refused while it was fed, a
/// stream of targets or a Cartesian jog whose way was not found clear, or a jog that was
/// not let go was let go because its time was up.
pub proof fn law_when_the_loop_goes_round_at_once<Q, F, T>(
    a: ActiveStream<Q, F, T>,
    now: u64,
    snap: Snapshot<Q>,
    epoch: u64,
    answer: Answer<Q>,
    pace: Pace<F>,
)
    requires
        answers(asked(Some(a), now, snap, epoch), answer),
    ensures
        passed(Some(a), now, snap, epoch, answer, pace).again <==> {
            ||| (a.activity is Servo || a.activity is CartJog) && !(verdict_in(answer) is Clear)
            ||| a.activity is Jog && !a.activity->releasing && now >= a.deadline
        },
{
}

} // verus!
