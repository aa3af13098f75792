//! One commanded leg of one joint: which current it runs at, when it has
//! arrived, when it has hit something and when it is not following.
//!
//! Angles and currents are compared outside; what stands here counts ticks,
//! encoder counts and samples. `F` stands for the commanded position, which is
//! carried and never read.
use vstd::prelude::*;

verus! {

/// How a leg ended.
#[derive(Clone, Copy, Debug, PartialEq, Eq, Structural)]
pub enum Outcome {
    /// It arrived.
    Complete,
    /// The joint stopped while loaded: a mechanical stop.
    Blocked,
    /// The joint did not follow its command.
    Tracking,
    /// The time ran out.
    Timeout,
    /// The loop ran away under trial gains; the leg went on under the last
    /// sane ones.
    Unstable,
}

/// How a leg is commanded.
#[derive(Clone, Copy, Debug, PartialEq, Eq, Structural)]
pub enum MotionKind {
    /// A position trajectory.
    Position,
    /// The velocity profile of a position trajectory.
    VelocityProfile,
    /// A velocity held for a time.
    Velocity,
    /// A velocity held until a reference is found.
    Seek {
        /// Whether the reference is a Hall edge, not a stop.
        hall: bool,
    },
}

impl MotionKind {
    /// The name the leg is recorded under.
    pub fn phase(self) -> (r: &'static str)
        ensures
            r@ == (match self {
                MotionKind::Position => "position move"@,
                MotionKind::VelocityProfile => "velocity replay of position trajectory"@,
                MotionKind::Velocity => "velocity move"@,
                MotionKind::Seek { hall } => if hall {
                    "Hall seek"@
                } else {
                    "endstop seek"@
                },
            }),
    {
        match self {
            MotionKind::Position => "position move",
            MotionKind::VelocityProfile => "velocity replay of position trajectory",
            MotionKind::Velocity => "velocity move",
            MotionKind::Seek { hall } => {
                if hall {
                    "Hall seek"
                } else {
                    "endstop seek"
                }
            },
        }
    }
}

/// What a leg aims at.
#[derive(Clone, Copy, Debug, PartialEq, Eq, Structural)]
pub enum Aim {
    /// An encoder count.
    Target(i32),
    /// A speed in counts per second.
    Speed(i32),
}

/// The sign of a number.
pub open spec fn sign(n: int) -> int {
    if n > 0 {
        1
    } else if n < 0 {
        -1
    } else {
        0
    }
}

/// The direction toward a joint's homing stop. Configured directions are `1`
/// for the negative one and anything else for the positive one.
pub open spec fn stop_direction(configured: u8) -> int {
    if configured == 1 {
        -1
    } else {
        1
    }
}

/// The direction of a leg.
pub open spec fn leg_direction(start: i32, aim: Aim) -> int {
    match aim {
        Aim::Target(target) => sign(target - start),
        Aim::Speed(speed) => sign(speed as int),
    }
}

/// A leg: its direction, and whether it goes toward a stop that has not been
/// found yet.
#[derive(Clone, Copy, Debug, PartialEq, Eq, Structural)]
pub struct Leg {
    /// `-1`, `0` or `1`.
    pub direction: i32,
    /// Whether the leg runs at the homing current. A leg away from the stop, a
    /// hold and every leg of a referenced joint run at the operating current.
    pub toward_stop: bool,
}

/// The direction toward a joint's homing stop.
pub fn home_direction(configured: u8) -> (r: i32)
    ensures
        r == stop_direction(configured),
{
    if configured == 1 {
        -1
    } else {
        1
    }
}

/// The sign of a difference.
fn signum(n: i64) -> (r: i32)
    ensures
        r == sign(n as int),
{
    if n > 0 {
        1
    } else if n < 0 {
        -1
    } else {
        0
    }
}

/// Plan a leg. While a joint is being homed, every leg of it toward the stop
/// uses the homing current.
pub fn plan_leg(start: i32, aim: Aim, homing: bool, homed: bool, configured: u8) -> (r: Leg)
    ensures
        r.direction == leg_direction(start, aim),
        r.toward_stop == (homing && !homed && leg_direction(start, aim) == stop_direction(
            configured,
        )),
{
    let direction: i32 = match aim {
        Aim::Target(target) => signum(target as i64 - start as i64),
        Aim::Speed(speed) => signum(speed as i64),
    };
    Leg {
        direction,
        toward_stop: homing && !homed && direction == home_direction(configured),
    }
}

/// A contact check over one window of samples.
#[derive(Clone, Copy, Debug, PartialEq, Eq, Structural)]
pub struct Contact {
    /// Counts between the lowest and the highest position in the window.
    pub range: i64,
    /// Whether that is less than a moving joint covers.
    pub stopped: bool,
    /// Whether the drive was pulling current for most of the window.
    pub loaded: bool,
    /// Whether the joint is against something: loaded and stopped, although it
    /// was asked to move.
    pub blocked: bool,
}

/// Contact detection over a window: a joint that draws current while its
/// encoder stays within a fraction of the commanded travel is against
/// something. The whole range counts, so that back-and-forth movement is not
/// taken for standstill.
#[derive(Clone, Copy, Debug, PartialEq)]
pub struct ContactGuard<F> {
    /// Ticks in a window.
    pub window: u64,
    /// The tick the window started at.
    pub start: u64,
    /// The lowest position in it.
    pub min: i32,
    /// The highest position in it.
    pub max: i32,
    /// The commanded position at its start.
    pub reference: F,
    /// Samples in it that drew high current.
    pub loaded_samples: u32,
    /// Samples in it.
    pub samples: u32,
}

/// Whether at least three in five samples drew high current.
pub open spec fn mostly_loaded(loaded: int, samples: int) -> bool {
    5 * loaded >= 3 * samples
}

impl<F: Copy> ContactGuard<F> {
    /// The guard with one more sample in its window.
    pub open spec fn counted(self, at: i32, high_current: bool) -> ContactGuard<F> {
        ContactGuard {
            min: if at < self.min {
                at
            } else {
                self.min
            },
            max: if at > self.max {
                at
            } else {
                self.max
            },
            samples: (self.samples + 1) as u32,
            loaded_samples: if high_current {
                (self.loaded_samples + 1) as u32
            } else {
                self.loaded_samples
            },
            ..self
        }
    }

    /// The guard with a new window that starts at `t`.
    pub open spec fn restarted(self, t: u64, at: i32, reference: F) -> ContactGuard<F> {
        ContactGuard {
            window: self.window,
            start: t,
            min: at,
            max: at,
            reference,
            loaded_samples: 0,
            samples: 0,
        }
    }

    /// Whether the window is over at `t`.
    pub open spec fn over(self, t: u64) -> bool {
        (if t >= self.start {
            t - self.start
        } else {
            0
        }) >= self.window
    }

    /// What the window amounts to.
    pub open spec fn contact(self, stall_below: i64, asked: bool) -> Contact {
        let range = self.max - self.min;
        let stopped = range < stall_below;
        let loaded = mostly_loaded(self.loaded_samples as int, self.samples as int);
        Contact { range: range as i64, stopped, loaded, blocked: loaded && stopped && asked }
    }

    /// A guard with nothing in its window.
    pub fn new(window: u64, at: i32, reference: F) -> (r: ContactGuard<F>)
        ensures
            r == (ContactGuard {
                window,
                start: 0,
                min: at,
                max: at,
                reference,
                loaded_samples: 0,
                samples: 0,
            }),
    {
        ContactGuard {
            window,
            start: 0,
            min: at,
            max: at,
            reference,
            loaded_samples: 0,
            samples: 0,
        }
    }

    /// Start a new window.
    pub fn restart(&mut self, t: u64, at: i32, reference: F)
        ensures
            *final(self) == old(self).restarted(t, at, reference),
    {
        self.start = t;
        self.min = at;
        self.max = at;
        self.reference = reference;
        self.loaded_samples = 0;
        self.samples = 0;
    }

    /// Take a sample. `high_current` says whether it drew at least the stall
    /// current, `stall_below` how many counts a moving joint covers at least
    /// since the window's start, and `asked` whether the command moved enough
    /// for that to mean anything. Where the window is over, what it amounts to
    /// is returned and a new one starts.
    pub fn observe(
        &mut self,
        t: u64,
        at: i32,
        reference: F,
        high_current: bool,
        stall_below: i64,
        asked: bool,
    ) -> (r: Option<Contact>)
        requires
            old(self).samples < u32::MAX,
            old(self).loaded_samples <= old(self).samples,
        ensures
            !old(self).over(t) ==> r is None && *final(self) == old(self).counted(at, high_current),
            old(self).over(t) ==> {
                &&& r == Some(old(self).counted(at, high_current).contact(stall_below, asked))
                &&& *final(self) == old(self).restarted(t, at, reference)
            },
            final(self).loaded_samples <= final(self).samples,
    {
        self.samples = self.samples + 1;
        if high_current {
            self.loaded_samples = self.loaded_samples + 1;
        }
        if at < self.min {
            self.min = at;
        }
        if at > self.max {
            self.max = at;
        }
        if t.saturating_sub(self.start) < self.window {
            return None;
        }
        let range: i64 = self.max as i64 - self.min as i64;
        let stopped = range < stall_below;
        let loaded = 5 * (self.loaded_samples as u64) >= 3 * (self.samples as u64);
        let contact = Contact { range, stopped, loaded, blocked: loaded && stopped && asked };
        self.restart(t, at, reference);
        Some(contact)
    }
}

/// A fresh sample of the joint that moves.
#[derive(Clone, Copy, Debug, PartialEq)]
pub struct Sample<F> {
    /// Ticks since the leg began.
    pub t: u64,
    /// The encoder count.
    pub position: i32,
    /// Whether the Hall sensor reported its edge.
    pub hall_edge: bool,
    /// Whether the position is within tolerance of the target.
    pub at_target: bool,
    /// The commanded position the sample answers to.
    pub reference: F,
    /// Whether at least the stall current flowed.
    pub high_current: bool,
    /// Counts a moving joint covers at least since the window's start.
    pub stall_below: i64,
    /// Whether the command has moved enough since the window's start.
    pub asked: bool,
    /// The measured speed, in counts per second.
    pub speed: i32,
    /// The commanded speed, in counts per second.
    pub commanded: i32,
    /// Whether the position is out of tolerance of the commanded one.
    pub off_track: bool,
}

/// How a leg stands after a sample.
#[derive(Clone, Copy, Debug, PartialEq, Eq, Structural)]
pub enum Step {
    /// It goes on.
    Continue,
    /// It is over.
    Ended {
        /// How.
        outcome: Outcome,
        /// Where the joint stopped, if it did.
        stop: Option<i32>,
    },
}

/// Whether a joint is moving now, along its command and at more than a quarter
/// of the commanded speed.
pub open spec fn advancing(speed: i32, commanded: i32) -> bool {
    4 * (speed * sign(commanded as int)) > (if commanded < 0 {
        -commanded
    } else {
        commanded as int
    })
}

/// Whether a joint is moving now, along its command and at more than a quarter
/// of the commanded speed.
fn is_advancing(speed: i32, commanded: i32) -> (r: bool)
    ensures
        r == advancing(speed, commanded),
{
    let s: i64 = speed as i64;
    let c: i64 = commanded as i64;
    if c > 0 {
        assert(speed * sign(commanded as int) == speed) by (nonlinear_arith)
            requires
                sign(commanded as int) == 1,
        ;
        4 * s > c
    } else if c < 0 {
        assert(speed * sign(commanded as int) == -speed) by (nonlinear_arith)
            requires
                sign(commanded as int) == -1,
        ;
        4 * s < c
    } else {
        assert(speed * sign(commanded as int) == 0) by (nonlinear_arith)
            requires
                sign(commanded as int) == 0,
        ;
        false
    }
}

/// The watch over one leg.
#[derive(Clone, Copy, Debug, PartialEq)]
pub struct MotionWatch<F> {
    /// How the leg is commanded.
    pub kind: MotionKind,
    /// The tick the commanded motion ends at.
    pub end: u64,
    /// The tick the observation starts at: past the ramp and its transients.
    pub observe_after: u64,
    /// Whether a joint that does not follow ends the leg.
    pub tracking: bool,
    /// The contact detection.
    pub contact: ContactGuard<F>,
}

impl<F: Copy> MotionWatch<F> {
    /// Whether a sample ends the leg on its own: the Hall edge, the target once
    /// the motion is over, or the end of a velocity leg.
    pub open spec fn arrived(self, s: Sample<F>) -> bool {
        match self.kind {
            MotionKind::Seek { hall } => hall && s.hall_edge,
            MotionKind::Position => s.t >= self.end && s.at_target,
            _ => s.t >= self.end,
        }
    }

    /// What a finished window says: contact outranks tracking, and a joint at
    /// its target is not in contact.
    pub open spec fn decided(self, contact: Contact, s: Sample<F>) -> Step {
        let at_target = self.kind == MotionKind::Position && s.at_target;
        if contact.blocked && !at_target {
            Step::Ended { outcome: Outcome::Blocked, stop: Some(s.position) }
        } else if self.tracking && !contact.loaded && !advancing(s.speed, s.commanded)
            && s.off_track {
            Step::Ended { outcome: Outcome::Tracking, stop: None }
        } else {
            Step::Continue
        }
    }

    /// How the leg stands after a sample, and the watch for the next.
    pub open spec fn stepped(self, s: Sample<F>) -> (MotionWatch<F>, Step) {
        if self.arrived(s) {
            (self, Step::Ended { outcome: Outcome::Complete, stop: Some(s.position) })
        } else if s.t < self.observe_after {
            (
                MotionWatch {
                    contact: self.contact.restarted(s.t, s.position, s.reference),
                    ..self
                },
                Step::Continue,
            )
        } else if !self.contact.over(s.t) {
            (
                MotionWatch { contact: self.contact.counted(s.position, s.high_current), ..self },
                Step::Continue,
            )
        } else {
            (
                MotionWatch {
                    contact: self.contact.restarted(s.t, s.position, s.reference),
                    ..self
                },
                self.decided(
                    self.contact.counted(s.position, s.high_current).contact(
                        s.stall_below,
                        s.asked,
                    ),
                    s,
                ),
            )
        }
    }

    /// Take a sample.
    pub fn step(&mut self, s: &Sample<F>) -> (r: Step)
        requires
            old(self).contact.samples < u32::MAX,
            old(self).contact.loaded_samples <= old(self).contact.samples,
        ensures
            (*final(self), r) == old(self).stepped(*s),
            final(self).contact.loaded_samples <= final(self).contact.samples,
    {
        let arrived = match self.kind {
            MotionKind::Seek { hall } => hall && s.hall_edge,
            MotionKind::Position => s.t >= self.end && s.at_target,
            _ => s.t >= self.end,
        };
        if arrived {
            return Step::Ended { outcome: Outcome::Complete, stop: Some(s.position) };
        }
        if s.t < self.observe_after {
            self.contact.restart(s.t, s.position, s.reference);
            return Step::Continue;
        }
        let contact = match self.contact.observe(
            s.t,
            s.position,
            s.reference,
            s.high_current,
            s.stall_below,
            s.asked,
        ) {
            None => {
                return Step::Continue;
            },
            Some(contact) => contact,
        };
        let at_target = self.kind == MotionKind::Position && s.at_target;
        if contact.blocked && !at_target {
            Step::Ended { outcome: Outcome::Blocked, stop: Some(s.position) }
        } else if self.tracking && !contact.loaded && !is_advancing(s.speed, s.commanded)
            && s.off_track {
            Step::Ended { outcome: Outcome::Tracking, stop: None }
        } else {
            Step::Continue
        }
    }

    /// Whether a sample counts toward the peaks: not the first one, which
    /// answers to the command before the leg, unless the joint was held from
    /// the start.
    pub fn counts_for_peaks(&self, t: u64, held: bool) -> (r: bool)
        ensures
            r == (t > 0 || held),
    {
        t > 0 || held
    }

    /// Whether a sample counts toward the tracking quality: past the ramp and
    /// before the commanded motion ends, or the joint was held from the start.
    pub fn counts_for_tracking(&self, t: u64, held: bool) -> (r: bool)
        ensures
            r == ((t > 0 && self.observe_after <= t < self.end) || held),
    {
        (t > 0 && t >= self.observe_after && t < self.end) || held
    }
}

/// Whether the watch ends a leg on a joint that does not follow. Only position
/// legs are: in velocity mode a lag is measured and not acted on.
pub fn watches_tracking(asked: bool, homing: bool, baseline_only: bool, kind: MotionKind) -> (r:
    bool)
    ensures
        r == (asked && homing && !baseline_only && kind == MotionKind::Position),
{
    asked && homing && !baseline_only && kind == MotionKind::Position
}

/// Whether the hold after a leg is measured: a leg that arrived, other than a
/// seek, in a run with quality limits that is not stopping.
pub fn measures_hold(limits: bool, stopping: bool, outcome: Outcome, kind: MotionKind) -> (r: bool)
    ensures
        r == (limits && !stopping && outcome == Outcome::Complete && !(kind is Seek)),
{
    limits && !stopping && outcome == Outcome::Complete && match kind {
        MotionKind::Seek { hall: _ } => false,
        _ => true,
    }
}

/// Whether a leg meets its requirements: a position leg has to settle, and
/// where there are limits the movement and the hold have to keep them.
pub fn acceptable(
    kind: MotionKind,
    settled: bool,
    limits: bool,
    moving_ok: bool,
    holding_ok: bool,
) -> (r: bool)
    ensures
        r == ((kind == MotionKind::Position ==> settled) && (limits ==> moving_ok && holding_ok)),
{
    (kind != MotionKind::Position || settled) && (!limits || (moving_ok && holding_ok))
}

/// Whether `k` is the failed passive joint to report: it failed, and none of
/// the others strayed farther. Of several that strayed as far it is the last.
pub open spec fn is_worst_passive(failed: Seq<bool>, strayed: Seq<u64>, active: int, k: int) -> bool {
    &&& 0 <= k < failed.len()
    &&& k != active && failed[k]
    &&& forall|i: int|
        0 <= i < failed.len() && i != active && failed[i] ==> #[trigger] strayed[i] <= strayed[k]
            && (strayed[i] == strayed[k] ==> i <= k)
}

/// The passive joint that failed its hold the worst, if any did. `strayed`
/// orders the joints by how far they left their position.
pub fn worst_passive(failed: &[bool], strayed: &[u64], active: usize) -> (r: Option<usize>)
    requires
        failed@.len() == strayed@.len(),
    ensures
        r is None <==> forall|i: int| 0 <= i < failed@.len() && i != active ==> !(#[trigger] failed@[i]),
        r matches Some(k) ==> is_worst_passive(failed@, strayed@, active as int, k as int),
{
    let mut worst: Option<usize> = None;
    let mut i: usize = 0;
    while i < failed.len()
        invariant
            i <= failed@.len(),
            failed@.len() == strayed@.len(),
            worst is None ==> forall|k: int| 0 <= k < i && k != active ==> !(#[trigger] failed@[k]),
            worst matches Some(w) ==> {
                &&& w < i && w != active && failed@[w as int]
                &&& forall|k: int|
                    0 <= k < i && k != active && failed@[k] ==> #[trigger] strayed@[k]
                        <= strayed@[w as int] && (strayed@[k] == strayed@[w as int] ==> k <= w)
            },
        decreases failed@.len() - i,
    {
        if i != active && failed[i] {
            let replace = match worst {
                Some(w) => strayed[i] >= strayed[w],
                None => true,
            };
            if replace {
                worst = Some(i);
            }
        }
        i += 1;
    }
    worst
}

/// Whether a leg has nowhere to go: it ends at a position the joint is already
/// at, and only the hold is observed.
pub fn already_there(kind: MotionKind, at_target: bool) -> (r: bool)
    ensures
        r == (at_target && (kind == MotionKind::Position || kind == MotionKind::VelocityProfile)),
{
    at_target && match kind {
        MotionKind::Position => true,
        MotionKind::VelocityProfile => true,
        _ => false,
    }
}

/// What the hold after a leg showed.
#[derive(Debug)]
pub struct HeldAfter {
    /// Whether the leg and its hold meet the requirements.
    pub acceptable: bool,
    /// Whether the startup hold was verified, so that other joints may be judged.
    pub verified: bool,
    /// Whether each joint failed its hold.
    pub failed: Vec<bool>,
    /// How far each strayed, as ordered keys.
    pub strayed: Vec<u64>,
}

/// What a leg came to in the end.
#[derive(Clone, Copy, Debug, PartialEq, Eq, Structural)]
pub struct Finished {
    /// How it ended.
    pub outcome: Outcome,
    /// Another joint that failed to hold meanwhile, which ends the run.
    pub passive: Option<usize>,
}

/// Conclude a leg whose hold was measured. A leg that arrived and does not meet
/// the requirements did not follow; and another joint's failure counts only
/// where this one's own hold passed, because a joint that shakes shakes the
/// arm.
pub fn finish_leg(active: usize, held: &HeldAfter) -> (r: Finished)
    requires
        held.failed@.len() == held.strayed@.len(),
    ensures
        r.outcome == (if held.acceptable {
            Outcome::Complete
        } else {
            Outcome::Tracking
        }),
        !(held.verified && held.acceptable) ==> r.passive is None,
        held.verified && held.acceptable ==> {
            &&& r.passive is None <==> forall|i: int|
                0 <= i < held.failed@.len() && i != active ==> !(#[trigger] held.failed@[i])
            &&& r.passive matches Some(k) ==> is_worst_passive(
                held.failed@,
                held.strayed@,
                active as int,
                k as int,
            )
        },
{
    let outcome = if held.acceptable {
        Outcome::Complete
    } else {
        Outcome::Tracking
    };
    let passive = if held.verified && held.acceptable {
        worst_passive(held.failed.as_slice(), held.strayed.as_slice(), active)
    } else {
        None
    };
    Finished { outcome, passive }
}

/// Speed errors in a row that make a runaway.
pub const RUNAWAY_TICKS: u32 = 3;

/// A fresh sample of a joint on a bounded position move.
#[derive(Clone, Copy, Debug, PartialEq)]
pub struct MoveSample<F> {
    /// Ticks since the move began.
    pub t: u64,
    /// The encoder count.
    pub position: i32,
    /// Whether the position is within tolerance of the target.
    pub at_target: bool,
    /// Whether the joint is close to a contact it is leaving or settling into.
    pub near_stop: bool,
    /// Whether the speed error is that of a runaway; nothing where no speed
    /// could be measured.
    pub speeding: Option<bool>,
    /// The commanded position the sample answers to.
    pub reference: F,
    /// Whether at least the stall current flowed.
    pub high_current: bool,
    /// Counts a moving joint covers at least since the window's start.
    pub stall_below: i64,
    /// Whether the command has moved enough since the window's start.
    pub asked: bool,
}

/// What a sample of a move asks for.
#[derive(Clone, Copy, Debug, PartialEq, Eq, Structural)]
pub struct MoveStep {
    /// Whether the sample counts toward the score.
    pub scored: bool,
    /// Whether the last sane gains go back on the drive now.
    pub restore: bool,
    /// What a finished window amounts to.
    pub contact: Option<Contact>,
    /// Whether the move goes on.
    pub step: Step,
}

/// The watch over a bounded position move.
#[derive(Clone, Copy, Debug, PartialEq)]
pub struct MoveWatch<F> {
    /// The tick the commanded motion ends at.
    pub end: u64,
    /// The tick scoring and contact detection start at.
    pub guard: u64,
    /// Whether there are sane gains to go back to.
    pub sane: bool,
    /// Speed errors of a runaway in a row.
    pub runaway: u32,
    /// Whether the loop ran away and the sane gains are back.
    pub unstable: bool,
    /// The contact detection.
    pub contact: ContactGuard<F>,
}

impl<F: Copy> MoveWatch<F> {
    /// Whether a sample counts toward the score.
    pub open spec fn scores(self, s: MoveSample<F>) -> bool {
        s.t >= self.guard && !s.near_stop
    }

    /// The runaway count after a sample.
    pub open spec fn runaway_after(self, s: MoveSample<F>) -> u32 {
        match s.speeding {
            Some(over) => if !self.scores(s) {
                self.runaway
            } else if over {
                if self.runaway < u32::MAX {
                    (self.runaway + 1) as u32
                } else {
                    u32::MAX
                }
            } else {
                0
            },
            None => self.runaway,
        }
    }

    /// Whether a sample puts the sane gains back: the runaway is established,
    /// there are gains to go back to, and it has not been done yet.
    pub open spec fn restores(self, s: MoveSample<F>) -> bool {
        self.scores(s) && s.speeding is Some && self.runaway_after(s) >= RUNAWAY_TICKS
            && !self.unstable && self.sane
    }

    /// How the move stands after a sample, and the watch for the next.
    pub open spec fn stepped(self, s: MoveSample<F>) -> (MoveWatch<F>, MoveStep) {
        let restore = self.restores(s);
        let judged = MoveWatch {
            runaway: self.runaway_after(s),
            unstable: self.unstable || restore,
            ..self
        };
        let step = MoveStep {
            scored: self.scores(s),
            restore,
            contact: None,
            step: Step::Continue,
        };
        if s.t >= self.end && s.at_target {
            (
                judged,
                MoveStep {
                    step: Step::Ended {
                        outcome: if judged.unstable {
                            Outcome::Unstable
                        } else {
                            Outcome::Complete
                        },
                        stop: Some(s.position),
                    },
                    ..step
                },
            )
        } else if s.t < self.guard {
            (
                MoveWatch {
                    contact: self.contact.restarted(s.t, s.position, s.reference),
                    ..judged
                },
                step,
            )
        } else if !self.contact.over(s.t) {
            (
                MoveWatch { contact: self.contact.counted(s.position, s.high_current), ..judged },
                step,
            )
        } else {
            let contact = self.contact.counted(s.position, s.high_current).contact(
                s.stall_below,
                s.asked,
            );
            (
                MoveWatch {
                    contact: self.contact.restarted(s.t, s.position, s.reference),
                    ..judged
                },
                MoveStep {
                    contact: Some(contact),
                    step: if contact.blocked {
                        Step::Ended { outcome: Outcome::Blocked, stop: Some(s.position) }
                    } else {
                        Step::Continue
                    },
                    ..step
                },
            )
        }
    }

    /// Take a sample.
    pub fn step(&mut self, s: &MoveSample<F>) -> (r: MoveStep)
        requires
            old(self).contact.samples < u32::MAX,
            old(self).contact.loaded_samples <= old(self).contact.samples,
        ensures
            (*final(self), r) == old(self).stepped(*s),
            final(self).contact.loaded_samples <= final(self).contact.samples,
    {
        let scored = s.t >= self.guard && !s.near_stop;
        let mut restore = false;
        if scored {
            if let Some(over) = s.speeding {
                self.runaway = if over {
                    self.runaway.saturating_add(1)
                } else {
                    0
                };
                if self.runaway >= RUNAWAY_TICKS && !self.unstable && self.sane {
                    self.unstable = true;
                    restore = true;
                }
            }
        }
        if s.t >= self.end && s.at_target {
            let outcome = if self.unstable {
                Outcome::Unstable
            } else {
                Outcome::Complete
            };
            return MoveStep {
                scored,
                restore,
                contact: None,
                step: Step::Ended { outcome, stop: Some(s.position) },
            };
        }
        if s.t < self.guard {
            self.contact.restart(s.t, s.position, s.reference);
            return MoveStep { scored, restore, contact: None, step: Step::Continue };
        }
        match self.contact.observe(
            s.t,
            s.position,
            s.reference,
            s.high_current,
            s.stall_below,
            s.asked,
        ) {
            None => MoveStep { scored, restore, contact: None, step: Step::Continue },
            Some(contact) => {
                let step = if contact.blocked {
                    Step::Ended { outcome: Outcome::Blocked, stop: Some(s.position) }
                } else {
                    Step::Continue
                };
                MoveStep { scored, restore, contact: Some(contact), step }
            },
        }
    }
}

/// A leg ends in contact only where the joint drew current for most of a
/// window, covered less than a moving joint does, and was asked to move; and a
/// joint at its target is never taken for one in contact.
pub proof fn law_contact_needs_load_standstill_and_command<F: Copy>(
    watch: MotionWatch<F>,
    s: Sample<F>,
)
    requires
        watch.stepped(s).1 matches Step::Ended { outcome, .. } && outcome == Outcome::Blocked,
    ensures
        s.asked,
        s.t >= watch.observe_after,
        watch.contact.over(s.t),
        watch.contact.counted(s.position, s.high_current).max - watch.contact.counted(
            s.position,
            s.high_current,
        ).min < s.stall_below,
        !(watch.kind == MotionKind::Position && s.at_target),
{
}

/// A joint that moves back and forth is not taken for one that stands still:
/// where two positions in a window are as far apart as a moving joint covers,
/// the window is not one of contact.
pub proof fn law_back_and_forth_is_not_standstill<F: Copy>(
    guard: ContactGuard<F>,
    a: int,
    b: int,
    stall_below: i64,
    asked: bool,
)
    requires
        guard.min <= a <= guard.max,
        guard.min <= b <= guard.max,
        a - b >= stall_below,
    ensures
        !guard.contact(stall_below, asked).blocked,
{
}

/// Nothing a joint does before its ramp is over ends a leg, short of arriving.
pub proof fn law_the_ramp_is_not_judged<F: Copy>(watch: MotionWatch<F>, s: Sample<F>)
    requires
        s.t < watch.observe_after,
        !watch.arrived(s),
    ensures
        watch.stepped(s).1 == Step::Continue,
{
}

/// Trial gains that run away are taken off the drive once, in the very sample
/// that establishes the runaway, and the move can then end only as unstable or
/// in contact.
pub proof fn law_a_runaway_is_caught_once<F: Copy>(
    watch: MoveWatch<F>,
    s: MoveSample<F>,
    later: MoveSample<F>,
)
    ensures
        watch.stepped(s).1.restore ==> {
            &&& watch.runaway + 1 >= RUNAWAY_TICKS
            &&& s.speeding == Some(true)
            &&& !watch.unstable
            &&& watch.stepped(s).0.unstable
        },
        watch.unstable ==> {
            &&& !watch.stepped(later).1.restore
            &&& watch.stepped(later).0.unstable
            &&& watch.stepped(later).1.step matches Step::Ended { outcome, .. } ==> outcome
                != Outcome::Complete
        },
{
}

/// A leg arrives, where the joint is, once its time is up and a position it goes to is
/// reached; one at a speed once its time is up; and one that seeks a Hall edge on the edge
/// alone. One that seeks a stop never arrives of itself.
pub proof fn law_what_arrives<F: Copy>(watch: MotionWatch<F>, s: Sample<F>)
    ensures
        ({
            let there = match watch.kind {
                MotionKind::Position => s.t >= watch.end && s.at_target,
                MotionKind::VelocityProfile => s.t >= watch.end,
                MotionKind::Velocity => s.t >= watch.end,
                MotionKind::Seek { hall } => hall && s.hall_edge,
            };
            &&& there ==> watch.stepped(s).1 == (Step::Ended {
                outcome: Outcome::Complete,
                stop: Some(s.position),
            }) && watch.stepped(s).0 == watch
            &&& !there ==> !(watch.stepped(s).1 matches Step::Ended { outcome, .. } && outcome
                == Outcome::Complete)
        }),
{
}

/// A leg that has not arrived is judged at the end of each window, on all of its samples.
/// It is in contact if three fifths of them were loaded, it moved less than a stall moves,
/// and it was asked to move; that ends it where it is, unless it is where it was to go. It
/// is off its track if tracking is watched, it was not loaded, the joint does not advance
/// and is off; that ends it without a stop. Before the judging begins the window starts
/// anew with every sample, and within a window it only counts.
pub proof fn law_how_a_leg_is_judged<F: Copy>(watch: MotionWatch<F>, s: Sample<F>)
    requires
        !(watch.stepped(s).1 matches Step::Ended { outcome, .. } && outcome == Outcome::Complete),
        watch.contact.samples < u32::MAX,
        watch.contact.loaded_samples <= watch.contact.samples,
        s.t >= watch.contact.start,
    ensures
        ({
            let old = watch.contact;
            let (next, step) = watch.stepped(s);
            let low = if s.position < old.min {
                s.position
            } else {
                old.min
            };
            let high = if s.position > old.max {
                s.position
            } else {
                old.max
            };
            let samples = old.samples + 1;
            let loads = old.loaded_samples + (if s.high_current {
                1int
            } else {
                0
            });
            let judged = s.t >= watch.observe_after && s.t - old.start >= old.window;
            let loaded = 5 * loads >= 3 * samples;
            let contact = loaded && high - low < s.stall_below && s.asked && !(watch.kind
                == MotionKind::Position && s.at_target);
            let lags = if s.commanded > 0 {
                4 * s.speed <= s.commanded
            } else if s.commanded < 0 {
                4 * s.speed >= s.commanded
            } else {
                true
            };
            &&& judged && contact ==> step == (Step::Ended {
                outcome: Outcome::Blocked,
                stop: Some(s.position),
            })
            &&& judged && !contact && watch.tracking && !loaded && lags && s.off_track ==> step == (
            Step::Ended { outcome: Outcome::Tracking, stop: None })
            &&& judged && !contact && !(watch.tracking && !loaded && lags && s.off_track) ==> step
                == Step::Continue
            &&& !judged ==> step == Step::Continue
            &&& judged || s.t < watch.observe_after ==> {
                &&& next.contact.start == s.t && next.contact.window == old.window
                &&& next.contact.min == s.position && next.contact.max == s.position
                &&& next.contact.samples == 0 && next.contact.loaded_samples == 0
                &&& next.contact.reference == s.reference
            }
            &&& !judged && s.t >= watch.observe_after ==> {
                &&& next.contact.start == old.start && next.contact.window == old.window
                &&& next.contact.min == low && next.contact.max == high
                &&& next.contact.samples == samples && next.contact.loaded_samples == loads
                &&& next.contact.reference == old.reference
            }
            &&& next.kind == watch.kind && next.end == watch.end && next.tracking == watch.tracking
            &&& next.observe_after == watch.observe_after
        }),
{
    let sg = sign(s.commanded as int);
    let v = s.speed as int;
    if s.commanded > 0 {
        assert(v * sg == v) by (nonlinear_arith)
            requires
                sg == 1,
        ;
    } else if s.commanded < 0 {
        assert(v * sg == -v) by (nonlinear_arith)
            requires
                sg == -1,
        ;
    } else {
        assert(v * sg == 0) by (nonlinear_arith)
            requires
                sg == 0,
        ;
    }
}

/// A leg goes toward its target, or the way its speed goes, and toward the stop exactly if
/// that is the way homing goes on a joint that is being homed.
pub proof fn law_which_way_a_leg_goes(start: i32, target: i32, speed: i32, configured: u8)
    ensures
        target > start ==> leg_direction(start, Aim::Target(target)) == 1,
        target < start ==> leg_direction(start, Aim::Target(target)) == -1,
        target == start ==> leg_direction(start, Aim::Target(target)) == 0,
        speed > 0 ==> leg_direction(start, Aim::Speed(speed)) == 1,
        speed < 0 ==> leg_direction(start, Aim::Speed(speed)) == -1,
        speed == 0 ==> leg_direction(start, Aim::Speed(speed)) == 0,
        stop_direction(1) == -1,
        configured != 1 ==> stop_direction(configured) == 1,
{
}

/// A move is scored past its guard and away from the stops. Three scored samples in a row
/// that speed are a runaway, and the first of a move that has sane gains to go back to
/// puts those back; one that does not speed starts the count again, and one that is not
/// scored, or tells no speed, does not count.
pub proof fn law_three_speeding_samples_are_a_runaway<F: Copy>(
    watch: MoveWatch<F>,
    s: MoveSample<F>,
)
    ensures
        ({
            let (next, step) = watch.stepped(s);
            let scored = s.t >= watch.guard && !s.near_stop;
            let counts = scored && s.speeding is Some;
            &&& step.scored == scored
            &&& counts && s.speeding == Some(false) ==> next.runaway == 0
            &&& counts && s.speeding == Some(true) && watch.runaway < u32::MAX ==> next.runaway
                == watch.runaway + 1
            &&& !counts ==> next.runaway == watch.runaway
            &&& step.restore <==> counts && next.runaway >= 3 && !watch.unstable && watch.sane
            &&& next.unstable == (watch.unstable || step.restore)
            &&& next.end == watch.end && next.guard == watch.guard && next.sane == watch.sane
        }),
{
}

/// A move ends where it was to go once its time is up, as unstable if it ran away and as
/// complete if not; past its guard it ends in contact, judged at the end of each window as
/// a leg is; and nothing else ends it.
pub proof fn law_what_ends_a_move<F: Copy>(watch: MoveWatch<F>, s: MoveSample<F>)
    requires
        watch.contact.samples < u32::MAX,
        watch.contact.loaded_samples <= watch.contact.samples,
        s.t >= watch.contact.start,
    ensures
        ({
            let old = watch.contact;
            let (next, step) = watch.stepped(s);
            let there = s.t >= watch.end && s.at_target;
            let low = if s.position < old.min {
                s.position
            } else {
                old.min
            };
            let high = if s.position > old.max {
                s.position
            } else {
                old.max
            };
            let loads = old.loaded_samples + (if s.high_current {
                1int
            } else {
                0
            });
            let judged = s.t >= watch.guard && s.t - old.start >= old.window;
            let contact = 5 * loads >= 3 * (old.samples + 1) && high - low < s.stall_below && s.asked;
            &&& there ==> next.contact == old && step.contact is None && step.step == (
            Step::Ended {
                outcome: if next.unstable {
                    Outcome::Unstable
                } else {
                    Outcome::Complete
                },
                stop: Some(s.position),
            })
            &&& !there && judged && contact ==> step.step == (Step::Ended {
                outcome: Outcome::Blocked,
                stop: Some(s.position),
            })
            &&& !there && !(judged && contact) ==> step.step == Step::Continue
            &&& !there ==> (step.contact is Some <==> judged)
            &&& !there && (judged || s.t < watch.guard) ==> {
                &&& next.contact.start == s.t && next.contact.samples == 0
                &&& next.contact.loaded_samples == 0
                &&& next.contact.min == s.position && next.contact.max == s.position
            }
            &&& !there && !judged && s.t >= watch.guard ==> {
                &&& next.contact.start == old.start && next.contact.samples == old.samples + 1
                &&& next.contact.loaded_samples == loads
                &&& next.contact.min == low && next.contact.max == high
            }
        }),
{
}

/// The passive joint to report failed and is not the one that moved; every other that
/// failed strayed less, or as far and comes before it. There is one at most.
pub proof fn law_the_worst_passive_joint_is_reported(
    failed: Seq<bool>,
    strayed: Seq<u64>,
    active: int,
    k: int,
    other: int,
)
    requires
        failed.len() == strayed.len(),
        is_worst_passive(failed, strayed, active, k),
        0 <= other < failed.len(),
        other != active,
        failed[other],
        other != k,
    ensures
        0 <= k < failed.len() && k != active && failed[k],
        strayed[other] < strayed[k] || (strayed[other] == strayed[k] && other < k),
        !is_worst_passive(failed, strayed, active, other),
{
    assert(strayed[other] <= strayed[k]);
}

} // verus!
