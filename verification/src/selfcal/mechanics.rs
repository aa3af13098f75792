//! What is measured on a referenced arm: speeds from encoder counts, the
//! current a constant speed costs, the current a pose costs to hold, and the
//! synchronized moves between poses.
use crate::text::{decimal, decimal_text, joint_label, joint_name};
use vstd::prelude::*;

verus! {

/// Samples a ring holds.
pub const RING_SAMPLES: usize = 8;

/// A position and when it was read.
#[derive(Clone, Copy, Debug, PartialEq, Eq, Structural)]
pub struct Mark {
    /// The tick.
    pub tick: u64,
    /// The encoder count.
    pub position: i32,
}

/// Counts travelled and the ticks that took.
#[derive(Clone, Copy, Debug, PartialEq, Eq, Structural)]
pub struct Travel {
    /// Counts.
    pub counts: i64,
    /// Ticks; at least one.
    pub ticks: u64,
}

/// The newest of some marks that is at least `window` ticks old.
pub open spec fn newest_old(marks: Seq<Mark>, tick: u64, window: u64) -> Option<Mark>
    decreases marks.len(),
{
    if marks.len() == 0 {
        None
    } else if tick - marks.last().tick >= window {
        Some(marks.last())
    } else {
        newest_old(marks.drop_last(), tick, window)
    }
}

/// The last few marks.
pub open spec fn kept(marks: Seq<Mark>, mark: Mark) -> Seq<Mark> {
    if marks.len() < RING_SAMPLES {
        marks.push(mark)
    } else {
        marks.skip(1).push(mark)
    }
}

/// Speed from encoder counts over a fixed window.
#[derive(Debug)]
pub struct Ring {
    /// The marks, oldest first.
    pub marks: Vec<Mark>,
}

impl Ring {
    /// An empty ring.
    pub fn new() -> (r: Ring)
        ensures
            r.marks@ == Seq::<Mark>::empty(),
    {
        Ring { marks: Vec::new() }
    }

    /// Add a fresh position; the result is the travel since the newest mark
    /// that is at least `window` ticks old, once there is one.
    pub fn push(&mut self, tick: u64, position: i32, window: u64) -> (r: Option<Travel>)
        requires
            window > 0,
        ensures
            final(self).marks@ == kept(old(self).marks@, Mark { tick, position }),
            r == (match newest_old(old(self).marks@, tick, window) {
                Some(m) => Some(
                    Travel { counts: (position - m.position) as i64, ticks: (tick - m.tick) as u64 },
                ),
                None => None,
            }),
    {
        let ghost before = self.marks@;
        let mut k: usize = self.marks.len();
        let mut found: Option<Travel> = None;
        assert(before.take(k as int) =~= before);
        while k > 0
            invariant_except_break
                k <= before.len(),
                newest_old(before, tick, window) == newest_old(before.take(k as int), tick, window),
                found is None,
            invariant
                self.marks@ == before,
                window > 0,
            ensures
                found == (match newest_old(before, tick, window) {
                    Some(m) => Some(
                        Travel {
                            counts: (position - m.position) as i64,
                            ticks: (tick - m.tick) as u64,
                        },
                    ),
                    None => None,
                }),
            decreases k,
        {
            let m = self.marks[k - 1];
            assert(before.take(k as int).last() == m);
            assert(before.take(k as int).drop_last() =~= before.take(k - 1));
            if tick >= m.tick && tick - m.tick >= window {
                found = Some(
                    Travel { counts: position as i64 - m.position as i64, ticks: tick - m.tick },
                );
                break;
            }
            k -= 1;
        }
        if self.marks.len() >= RING_SAMPLES {
            let _ = self.marks.remove(0);
            assert(self.marks@ =~= before.skip(1));
        }
        self.marks.push(Mark { tick, position });
        found
    }
}

/// A speed is never taken over less than the window, and never from further
/// back than it has to be.
pub proof fn law_speed_spans_the_window(marks: Seq<Mark>, tick: u64, window: u64)
    ensures
        newest_old(marks, tick, window) matches Some(m) ==> tick - m.tick >= window && exists|k: int|
            {
                &&& 0 <= k < marks.len()
                &&& #[trigger] marks[k] == m
                &&& forall|i: int| k < i < marks.len() ==> tick - (#[trigger] marks[i]).tick < window
            },
        newest_old(marks, tick, window) is None ==> forall|i: int|
            0 <= i < marks.len() ==> tick - (#[trigger] marks[i]).tick < window,
    decreases marks.len(),
{
    if marks.len() > 0 {
        if tick - marks.last().tick >= window {
            assert(marks[marks.len() - 1] == marks.last());
        } else {
            let rest = marks.drop_last();
            law_speed_spans_the_window(rest, tick, window);
            if let Some(m) = newest_old(rest, tick, window) {
                let k = choose|k: int|
                    {
                        &&& 0 <= k < rest.len()
                        &&& #[trigger] rest[k] == m
                        &&& forall|i: int|
                            k < i < rest.len() ==> tick - (#[trigger] rest[i]).tick < window
                    };
                assert(marks[k] == m);
                assert forall|i: int| k < i < marks.len() implies tick - (
                #[trigger] marks[i]).tick < window by {
                    if i < rest.len() {
                        assert(rest[i] == marks[i]);
                    }
                }
            } else {
                assert forall|i: int| 0 <= i < marks.len() implies tick - (
                #[trigger] marks[i]).tick < window by {
                    if i < rest.len() {
                        assert(rest[i] == marks[i]);
                    }
                }
            }
        }
    }
}

/// What a leg at constant speed does on a tick.
#[derive(Clone, Copy, Debug, PartialEq, Eq, Structural)]
pub enum LegStage {
    /// Ramp up; this many ticks of the ramp are over at its end.
    RampUp {
        /// How many.
        ticks: u64,
    },
    /// Hold the speed.
    Hold {
        /// Whether what is read counts.
        averaged: bool,
    },
    /// Ramp down; this many ticks of the ramp are over at its end.
    RampDown {
        /// How many.
        ticks: u64,
    },
    /// The leg is over.
    Over,
}

/// A leg at constant speed: how long it ramps, settles and averages.
#[derive(Clone, Copy, Debug, PartialEq, Eq, Structural)]
pub struct DragLeg {
    /// Ticks of each ramp.
    pub ramp: u64,
    /// Ticks the speed settles for.
    pub settle: u64,
    /// Ticks that are averaged.
    pub average: u64,
}

impl DragLeg {
    /// Ticks until the second ramp.
    pub open spec fn until_down(self) -> int {
        self.ramp + self.settle + self.average
    }

    /// What the leg does on tick `t`.
    pub fn stage(self, t: u64) -> (r: LegStage)
        requires
            self.until_down() + self.ramp <= u64::MAX,
        ensures
            r == (if t < self.ramp {
                LegStage::RampUp { ticks: (t + 1) as u64 }
            } else if t < self.until_down() {
                LegStage::Hold { averaged: t >= self.ramp + self.settle }
            } else if t < self.until_down() + self.ramp {
                LegStage::RampDown { ticks: (t - self.until_down() + 1) as u64 }
            } else {
                LegStage::Over
            }),
    {
        let settled: u64 = self.ramp + self.settle;
        let down: u64 = settled + self.average;
        if t < self.ramp {
            LegStage::RampUp { ticks: t + 1 }
        } else if t < down {
            LegStage::Hold { averaged: t >= settled }
        } else if t < down + self.ramp {
            LegStage::RampDown { ticks: t - down + 1 }
        } else {
            LegStage::Over
        }
    }
}

/// Whether a leg says anything about friction: it was sampled, it held the
/// commanded speed, and the joint ran.
pub fn leg_counts(samples: u64, on_speed: bool, running: bool) -> (r: bool)
    ensures
        r == (samples > 0 && on_speed && running),
{
    samples > 0 && on_speed && running
}

/// Speeds a joint's friction is measured at.
pub const DRAG_LEVELS: u64 = 4;

/// Why a joint's friction could not be told.
#[derive(Clone, Copy, Debug, PartialEq, Eq, Structural)]
pub enum FrictionError {
    /// Too few speeds held.
    TooFew {
        /// How many did.
        held: u64,
    },
    /// The speeds that held are the same.
    OneSpeed,
}

/// Whether the speeds that held determine a line.
pub fn friction_rows(held: u64, separable: bool) -> (r: Result<(), FrictionError>)
    ensures
        r == (if held < 2 {
            Err::<(), FrictionError>(FrictionError::TooFew { held })
        } else if !separable {
            Err(FrictionError::OneSpeed)
        } else {
            Ok(())
        }),
{
    if held < 2 {
        Err(FrictionError::TooFew { held })
    } else if !separable {
        Err(FrictionError::OneSpeed)
    } else {
        Ok(())
    }
}

impl FrictionError {
    /// What happened, in words.
    pub fn message(self, joint: usize) -> (r: String)
        requires
            joint < u64::MAX,
        ensures
            r@ == joint_name(joint as int) + (match self {
                FrictionError::TooFew { held } => " held "@ + decimal_text(held as nat)
                    + " of 4 speeds; friction needs two"@,
                FrictionError::OneSpeed => " held one speed only; friction is not separable"@,
            }),
    {
        let mut out = joint_label(joint);
        match self {
            FrictionError::TooFew { held } => {
                out.append(" held ");
                let n = decimal(held);
                out.append(n.as_str());
                out.append(" of 4 speeds; friction needs two");
                assert(out@ =~= joint_name(joint as int) + (" held "@ + decimal_text(held as nat)
                    + " of 4 speeds; friction needs two"@));
            },
            FrictionError::OneSpeed => {
                out.append(" held one speed only; friction is not separable");
            },
        }
        out
    }
}

/// What a reading of a holding current came to.
#[derive(Clone, Copy, Debug, PartialEq, Eq, Structural)]
pub enum CurrentSeen {
    /// Nothing new.
    Nothing,
    /// It was counted, and is used up.
    Counted,
    /// The current is at its limit: the pose cannot be measured.
    Saturated,
}

/// The currents a joint held a pose with.
#[derive(Clone, Copy, Debug, PartialEq, Eq, Structural)]
pub struct HoldingCurrent {
    /// Their sum, in milliamperes.
    pub sum: i64,
    /// How many there were.
    pub count: u32,
    /// The feedback count at the last of them.
    pub generation: u64,
}

impl HoldingCurrent {
    /// What holds between readings: the sum fits what was counted.
    pub open spec fn valid(self) -> bool {
        -(self.count * 0x8000_0000) <= self.sum <= self.count * 0x8000_0000
    }

    /// Begin at the present feedback count.
    pub fn new(generation: u64) -> (r: HoldingCurrent)
        ensures
            r == (HoldingCurrent { sum: 0, count: 0, generation }),
            r.valid(),
    {
        HoldingCurrent { sum: 0, count: 0, generation }
    }

    /// What the joint's feedback holds: a current that came with feedback newer
    /// than the last one counted. `limit` is the least whole current that is at
    /// the joint's limit.
    pub open spec fn seen(self, current: Option<i32>, generation: u64, limit: u32) -> CurrentSeen {
        match current {
            None => CurrentSeen::Nothing,
            Some(c) => if generation == self.generation {
                CurrentSeen::Nothing
            } else if c >= limit || -(c as int) >= limit {
                CurrentSeen::Saturated
            } else {
                CurrentSeen::Counted
            },
        }
    }

    /// Take the joint's feedback.
    pub fn observe(&mut self, current: Option<i32>, generation: u64, limit: u32) -> (r: CurrentSeen)
        requires
            old(self).valid(),
            old(self).count < u32::MAX,
        ensures
            r == old(self).seen(current, generation, limit),
            final(self).valid(),
            r == CurrentSeen::Nothing ==> *final(self) == *old(self),
            r == CurrentSeen::Counted ==> *final(self) == (HoldingCurrent {
                sum: (old(self).sum + current->0) as i64,
                count: (old(self).count + 1) as u32,
                generation,
            }),
            r == CurrentSeen::Saturated ==> *final(self) == (HoldingCurrent {
                generation,
                ..*old(self)
            }),
    {
        match current {
            None => CurrentSeen::Nothing,
            Some(c) => {
                if generation == self.generation {
                    return CurrentSeen::Nothing;
                }
                self.generation = generation;
                let wide: i64 = c as i64;
                if wide >= limit as i64 || -wide >= limit as i64 {
                    return CurrentSeen::Saturated;
                }
                self.sum = self.sum + wide;
                self.count = self.count + 1;
                CurrentSeen::Counted
            },
        }
    }
}

/// Why a pose could not be measured.
#[derive(Clone, Copy, Debug, PartialEq, Eq, Structural)]
pub enum HoldingError {
    /// A joint's current is at its limit.
    Saturated,
    /// A joint reported no current.
    Silent,
}

impl HoldingError {
    /// What happened, in words.
    pub fn message(self, joint: usize) -> (r: String)
        requires
            joint < u64::MAX,
        ensures
            r@ == joint_name(joint as int) + (match self {
                HoldingError::Saturated => " holding current is saturated at this pose"@,
                HoldingError::Silent => " reported no holding current at this pose"@,
            }),
    {
        let mut out = joint_label(joint);
        match self {
            HoldingError::Saturated => out.append(" holding current is saturated at this pose"),
            HoldingError::Silent => out.append(" reported no holding current at this pose"),
        }
        out
    }
}

/// The message for a joint that moved while its current was measured; the
/// angles are already rendered.
pub fn drifted_message(joint: usize, by: &str, limit: &str) -> (r: String)
    requires
        joint < u64::MAX,
    ensures
        r@ == joint_name(joint as int) + " drifted "@ + by@ + " rad from the measured pose (limit "@
            + limit@ + ")"@,
{
    let mut out = joint_label(joint);
    out.append(" drifted ");
    out.append(by);
    out.append(" rad from the measured pose (limit ");
    out.append(limit);
    out.append(")");
    out
}

/// The first joint for which something holds.
pub fn first_of(flags: &[bool]) -> (r: Option<usize>)
    ensures
        match r {
            Some(j) => j < flags@.len() && flags@[j as int] && forall|i: int|
                0 <= i < j ==> !(#[trigger] flags@[i]),
            None => forall|i: int| 0 <= i < flags@.len() ==> !(#[trigger] flags@[i]),
        },
{
    let mut j: usize = 0;
    while j < flags.len()
        invariant
            j <= flags@.len(),
            forall|i: int| 0 <= i < j ==> !(#[trigger] flags@[i]),
        decreases flags@.len() - j,
    {
        if flags[j] {
            return Some(j);
        }
        j += 1;
    }
    None
}

/// The first joint that reported no current.
pub fn first_silent(joints: &[HoldingCurrent]) -> (r: Option<usize>)
    ensures
        match r {
            Some(j) => j < joints@.len() && joints@[j as int].count == 0 && forall|i: int|
                0 <= i < j ==> (#[trigger] joints@[i]).count > 0,
            None => forall|i: int| 0 <= i < joints@.len() ==> (#[trigger] joints@[i]).count > 0,
        },
{
    let mut j: usize = 0;
    while j < joints.len()
        invariant
            j <= joints@.len(),
            forall|i: int| 0 <= i < j ==> (#[trigger] joints@[i]).count > 0,
        decreases joints@.len() - j,
    {
        if joints[j].count == 0 {
            return Some(j);
        }
        j += 1;
    }
    None
}

/// Whether all of some flags are set.
pub open spec fn all_set(flags: Seq<bool>) -> bool {
    forall|i: int| 0 <= i < flags.len() ==> #[trigger] flags[i]
}

/// Whether all of some flags are set.
pub fn are_set(flags: &[bool]) -> (r: bool)
    ensures
        r == all_set(flags@),
{
    let mut j: usize = 0;
    while j < flags.len()
        invariant
            j <= flags@.len(),
            forall|i: int| 0 <= i < j ==> #[trigger] flags@[i],
        decreases flags@.len() - j,
    {
        if !flags[j] {
            return false;
        }
        j += 1;
    }
    true
}

/// How a synchronized move starts.
#[derive(Clone, Copy, Debug, PartialEq, Eq, Structural)]
pub enum PoseStart {
    /// The arm is already there.
    There,
    /// A joint has no reference.
    NotReferenced,
    /// The joints move together.
    Move,
}

/// How a synchronized move starts.
pub fn pose_start(near: &[bool], referenced: &[bool]) -> (r: PoseStart)
    ensures
        r == (if all_set(near@) {
            PoseStart::There
        } else if !all_set(referenced@) {
            PoseStart::NotReferenced
        } else {
            PoseStart::Move
        }),
{
    if are_set(near) {
        PoseStart::There
    } else if !are_set(referenced) {
        PoseStart::NotReferenced
    } else {
        PoseStart::Move
    }
}

/// What refusing a synchronized move is told as.
pub fn not_referenced_message() -> (r: &'static str)
    ensures
        r@ == "a synchronized move needs every joint referenced"@,
{
    "a synchronized move needs every joint referenced"
}

/// Whether the arm has arrived: the profile is over and every joint is near
/// its target.
pub fn pose_settled(t: u64, moving: u64, near: &[bool]) -> (r: bool)
    ensures
        r == (t + 1 >= moving && all_set(near@)),
{
    (t >= moving || moving - t <= 1) && are_set(near)
}

/// How long a synchronized move takes, as an ordered key, and the joint that
/// asks for it.
#[derive(Clone, Copy, Debug, PartialEq, Eq, Structural)]
pub struct Demand {
    /// How long.
    pub duration: u64,
    /// The joint.
    pub joint: usize,
}

/// What the first of some joints ask for: the longest, and the first joint
/// that asks for it; where none asks for more than `least`, that and joint
/// number zero.
pub open spec fn demand_of(needs: Seq<u64>, least: u64) -> Demand
    decreases needs.len(),
{
    if needs.len() == 0 {
        Demand { duration: least, joint: 0 }
    } else {
        let before = demand_of(needs.drop_last(), least);
        if needs.last() > before.duration {
            Demand { duration: needs.last(), joint: (needs.len() - 1) as usize }
        } else {
            before
        }
    }
}

/// How long a synchronized move takes: as long as the most demanding joint
/// needs.
pub fn longest(needs: &[u64], least: u64) -> (r: Demand)
    ensures
        r == demand_of(needs@, least),
{
    let mut out = Demand { duration: least, joint: 0 };
    let mut j: usize = 0;
    assert(needs@.take(0) =~= Seq::<u64>::empty());
    while j < needs.len()
        invariant
            j <= needs@.len(),
            out == demand_of(needs@.take(j as int), least),
        decreases needs@.len() - j,
    {
        assert(needs@.take(j + 1).drop_last() =~= needs@.take(j as int));
        assert(needs@.take(j + 1).last() == needs@[j as int]);
        if needs[j] > out.duration {
            out = Demand { duration: needs[j], joint: j };
        }
        j += 1;
    }
    assert(needs@.take(j as int) =~= needs@);
    out
}

/// No joint is asked to move faster than it can: the move takes at least as
/// long as every joint needs.
pub proof fn law_no_joint_is_rushed(needs: Seq<u64>, least: u64, j: int)
    requires
        0 <= j < needs.len(),
    ensures
        demand_of(needs, least).duration >= needs[j],
        demand_of(needs, least).duration >= least,
    decreases needs.len(),
{
    let before = needs.drop_last();
    if j < before.len() {
        law_no_joint_is_rushed(before, least, j);
        assert(before[j] == needs[j]);
    } else if before.len() > 0 {
        law_no_joint_is_rushed(before, least, 0);
    }
}

/// The joint that is furthest off, the last of several; the distances are
/// ordered keys.
pub fn furthest(off: &[u64]) -> (r: Option<usize>)
    ensures
        match r {
            None => off@.len() == 0,
            Some(j) => {
                &&& j < off@.len()
                &&& forall|i: int| 0 <= i < j ==> (#[trigger] off@[i]) <= off@[j as int]
                &&& forall|i: int| j < i < off@.len() ==> (#[trigger] off@[i]) < off@[j as int]
            },
        },
{
    if off.len() == 0 {
        return None;
    }
    let mut best: usize = 0;
    let mut j: usize = 1;
    while j < off.len()
        invariant
            best < j <= off@.len(),
            forall|i: int| 0 <= i < best ==> (#[trigger] off@[i]) <= off@[best as int],
            forall|i: int| best < i < j ==> (#[trigger] off@[i]) < off@[best as int],
        decreases off@.len() - j,
    {
        if off[j] >= off[best] {
            best = j;
        }
        j += 1;
    }
    Some(best)
}

/// The message for a synchronized move that did not settle; the angles are
/// already rendered.
pub fn not_settled_message(joint: usize, off: &str, limit: &str) -> (r: String)
    requires
        joint < u64::MAX,
    ensures
        r@ == "synchronized move did not settle: "@ + joint_name(joint as int) + " is "@ + off@
            + " rad from its target (limit "@ + limit@ + ")"@,
{
    let mut out = "synchronized move did not settle: ".to_owned();
    let label = joint_label(joint);
    out.append(label.as_str());
    out.append(" is ");
    out.append(off);
    out.append(" rad from its target (limit ");
    out.append(limit);
    out.append(")");
    out
}

/// A ring keeps its last eight marks, in order.
pub proof fn law_a_ring_keeps_the_last_eight(marks: Seq<Mark>, mark: Mark)
    requires
        marks.len() <= 8,
    ensures
        kept(marks, mark).last() == mark,
        marks.len() < 8 ==> kept(marks, mark) == marks.push(mark),
        marks.len() == 8 ==> kept(marks, mark) == marks.subrange(1, 8).push(mark),
        kept(marks, mark).len() <= 8,
{
    if marks.len() == 8 {
        assert(marks.skip(1) =~= marks.subrange(1, 8));
    }
}

/// A synchronized move takes exactly as long as the joint that needs longest, the first of
/// several, and no less than the least; that joint is named, or the first where none needs
/// more than the least.
pub proof fn law_a_move_takes_as_long_as_its_slowest_joint(needs: Seq<u64>, least: u64)
    requires
        needs.len() <= usize::MAX,
    ensures
        ({
            let d = demand_of(needs, least);
            &&& d.duration == least ==> d.joint == 0 && forall|j: int|
                0 <= j < needs.len() ==> #[trigger] needs[j] <= least
            &&& d.duration != least ==> {
                &&& d.duration > least
                &&& (d.joint as int) < needs.len()
                &&& needs[d.joint as int] == d.duration
                &&& forall|j: int| 0 <= j < d.joint ==> #[trigger] needs[j] < d.duration
                &&& forall|j: int| 0 <= j < needs.len() ==> #[trigger] needs[j] <= d.duration
            }
        }),
    decreases needs.len(),
{
    if needs.len() > 0 {
        let before = needs.drop_last();
        law_a_move_takes_as_long_as_its_slowest_joint(before, least);
        let d = demand_of(needs, least);
        let e = demand_of(before, least);
        assert forall|j: int| 0 <= j < needs.len() implies #[trigger] needs[j] <= d.duration by {
            if j < before.len() {
                assert(before[j] == needs[j]);
            }
        }
        assert forall|j: int| 0 <= j < d.joint && d.duration != least implies #[trigger] needs[j]
            < d.duration by {
            if j < before.len() {
                assert(before[j] == needs[j]);
            }
        }
    }
}

/// A current is counted exactly if it is there, came with a new position, and is under
/// the limit either way; one at the limit or beyond cannot be measured.
pub proof fn law_a_current_is_counted_once_and_under_its_limit(
    joint: HoldingCurrent,
    current: i32,
    generation: u64,
    limit: u32,
)
    ensures
        ({
            let size = if current >= 0 {
                current as int
            } else {
                -(current as int)
            };
            let seen = joint.seen(Some(current), generation, limit);
            &&& generation == joint.generation ==> seen == CurrentSeen::Nothing
            &&& generation != joint.generation && size >= limit ==> seen == CurrentSeen::Saturated
            &&& generation != joint.generation && size < limit ==> seen == CurrentSeen::Counted
            &&& joint.seen(None, generation, limit) == CurrentSeen::Nothing
        }),
{
}

/// A leg of a constant speed is ramped up, settled, averaged and ramped down again, each
/// for its whole time.
pub proof fn law_a_leg_is_ramped_settled_and_averaged(leg: DragLeg)
    ensures
        leg.until_down() == leg.ramp + leg.settle + leg.average,
{
}

/// Flags are all set exactly if none is not.
pub proof fn law_all_means_every_one(flags: Seq<bool>)
    ensures
        all_set(flags) <==> !flags.contains(false),
{
    if all_set(flags) && flags.contains(false) {
        let i = choose|i: int| 0 <= i < flags.len() && flags[i] == false;
        assert(flags[i]);
    }
}

} // verus!
