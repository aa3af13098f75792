//! The motion engines behind the control loop's hooks: what is passed to them
//! and how their failures are treated.
//!
//! `Q` is a pose of the arm.
use vstd::prelude::*;

verus! {

/// A direction a joint may not be jogged in.
#[derive(Clone, Copy, Debug, PartialEq, Eq, Structural)]
pub enum JogDirection {
    /// To smaller angles.
    Negative,
    /// To greater angles.
    Positive,
}

/// A blocked direction as two bits.
pub open spec fn direction_bits(blocked: Option<JogDirection>) -> int {
    match blocked {
        Some(JogDirection::Negative) => 1,
        Some(JogDirection::Positive) => 2,
        None => 0,
    }
}

/// The weight of a joint's two bits.
pub open spec fn weight(joint: int) -> int
    decreases joint,
{
    if joint <= 0 {
        1
    } else {
        4 * weight(joint - 1)
    }
}

/// The blocked directions of some joints, two bits each, the first joint's
/// lowest.
pub open spec fn mask_of(blocked: Seq<Option<JogDirection>>) -> int
    decreases blocked.len(),
{
    if blocked.len() == 0 {
        0
    } else {
        mask_of(blocked.drop_last()) + direction_bits(blocked.last()) * weight(
            blocked.len() - 1,
        )
    }
}

/// What is passed to the jog engine.
#[derive(Clone, Copy, Debug, PartialEq, Eq, Structural)]
pub enum JogCommand {
    /// Let go: no joint is asked to move.
    Release,
    /// Ramp to the speeds.
    Ramp,
}

/// The jog engine's hook.
#[derive(Clone, Copy, Debug, PartialEq, Eq, Structural)]
pub struct MotionJog {
    /// Joints.
    pub joints: usize,
}

impl MotionJog {
    /// A hook for that many joints, at most eight.
    pub fn new(joints: usize) -> (r: MotionJog)
        requires
            joints <= 8,
        ensures
            r.joints == joints,
    {
        MotionJog { joints }
    }

    /// What is passed to the engine for speeds of which these are zero once
    /// what is not finite counts as zero.
    pub fn command(&self, zero: &[bool]) -> (r: JogCommand)
        ensures
            r == (if forall|i: int| 0 <= i < zero@.len() ==> #[trigger] zero@[i] {
                JogCommand::Release
            } else {
                JogCommand::Ramp
            }),
    {
        let mut i: usize = 0;
        while i < zero.len()
            invariant
                i <= zero@.len(),
                forall|k: int| 0 <= k < i ==> #[trigger] zero@[k],
            decreases zero@.len() - i,
        {
            if !zero[i] {
                return JogCommand::Ramp;
            }
            i += 1;
        }
        JogCommand::Release
    }

    /// The blocked directions as the control loop reports them.
    pub fn mask(&self, blocked: &[Option<JogDirection>]) -> (r: u16)
        requires
            self.joints <= 8,
            blocked@.len() == self.joints,
        ensures
            r == mask_of(blocked@),
    {
        let mut mask: u16 = 0;
        let mut place: u16 = 1;
        let mut j: usize = 0;
        assert(blocked@.take(0) =~= Seq::<Option<JogDirection>>::empty());
        while j < blocked.len()
            invariant
                j <= blocked@.len() <= 8,
                mask == mask_of(blocked@.take(j as int)),
                mask < weight(j as int),
                place == (if j < 8 {
                    weight(j as int)
                } else {
                    place as int
                }),
                weight(j as int) <= 65536,
                j < 8 ==> weight(j as int) <= 16384,
            decreases blocked@.len() - j,
        {
            let ghost next = blocked@.take(j + 1);
            assert(next.drop_last() =~= blocked@.take(j as int));
            assert(next.last() == blocked@[j as int]);
            proof {
                lemma_weights();
            }
            match blocked[j] {
                Some(JogDirection::Negative) => {
                    mask = mask + place;
                },
                Some(JogDirection::Positive) => {
                    mask = mask + 2 * place;
                },
                None => {},
            }
            j += 1;
            if j < 8 {
                place = place * 4;
            }
        }
        assert(blocked@.take(j as int) =~= blocked@);
        mask
    }
}

/// The weights of eight joints and the next.
proof fn lemma_weights()
    ensures
        weight(0) == 1,
        weight(1) == 4,
        weight(2) == 16,
        weight(3) == 64,
        weight(4) == 256,
        weight(5) == 1024,
        weight(6) == 4096,
        weight(7) == 16384,
        weight(8) == 65536,
{
    assert(weight(0) == 1);
    assert(weight(1) == 4 * weight(0));
    assert(weight(2) == 4 * weight(1));
    assert(weight(3) == 4 * weight(2));
    assert(weight(4) == 4 * weight(3));
    assert(weight(5) == 4 * weight(4));
    assert(weight(6) == 4 * weight(5));
    assert(weight(7) == 4 * weight(6));
    assert(weight(8) == 4 * weight(7));
}

/// A joint's weight is positive.
proof fn lemma_weight_positive(joint: int)
    ensures
        weight(joint) > 0,
    decreases joint,
{
    if joint > 0 {
        lemma_weight_positive(joint - 1);
    }
}

/// A mask stays under the weight of the next joint.
proof fn lemma_mask_bound(blocked: Seq<Option<JogDirection>>)
    ensures
        0 <= mask_of(blocked) < weight(blocked.len() as int),
    decreases blocked.len(),
{
    lemma_weight_positive(blocked.len() as int);
    if blocked.len() > 0 {
        lemma_mask_bound(blocked.drop_last());
        let w = weight(blocked.len() - 1);
        let b = direction_bits(blocked.last());
        assert(0 <= b * w <= 2 * w) by (nonlinear_arith)
            requires
                0 <= b <= 2,
                w > 0,
        ;
    }
}

/// Every joint's two bits read back from the mask.
pub proof fn law_the_mask_tells_every_joint(blocked: Seq<Option<JogDirection>>, joint: int)
    requires
        0 <= joint < blocked.len(),
    ensures
        (mask_of(blocked) / weight(joint)) % 4 == direction_bits(blocked[joint]),
    decreases blocked.len(),
{
    let before = blocked.drop_last();
    let w = weight(joint);
    lemma_weight_positive(joint);
    lemma_mask_bound(before);
    let last = blocked.len() - 1;
    let b = direction_bits(blocked.last());
    if joint == last {
        assert((mask_of(before) + b * w) / w == b) by (nonlinear_arith)
            requires
                0 <= mask_of(before) < w,
                w > 0,
        ;
    } else {
        law_the_mask_tells_every_joint(before, joint);
        lemma_weight_multiple(joint, last);
        let k = weight(last) / (4 * w);
        let m = mask_of(before);
        assert(b * weight(last) == (4 * (b * k)) * w) by (nonlinear_arith)
            requires
                weight(last) == k * (4 * w),
        ;
        let n = 4 * (b * k);
        assert((m + n * w) / w == m / w + n) by (nonlinear_arith)
            requires
                w > 0,
        ;
        assert((m / w + 4 * (b * k)) % 4 == (m / w) % 4);
    }
}

/// The weight of a later joint is a multiple of four times an earlier one's.
proof fn lemma_weight_multiple(earlier: int, later: int)
    requires
        0 <= earlier < later,
    ensures
        weight(later) == (weight(later) / (4 * weight(earlier))) * (4 * weight(earlier)),
    decreases later - earlier,
{
    lemma_weight_positive(earlier);
    let w = 4 * weight(earlier);
    if later == earlier + 1 {
        assert(weight(later) == w);
        assert((w / w) * w == w) by (nonlinear_arith)
            requires
                w > 0,
        ;
    } else {
        lemma_weight_multiple(earlier, later - 1);
        let k = weight(later - 1) / w;
        assert(weight(later) == 4 * weight(later - 1));
        assert(weight(later) == (4 * k) * w) by (nonlinear_arith)
            requires
                weight(later) == 4 * weight(later - 1),
                weight(later - 1) == k * w,
        ;
        assert(((4 * k) * w) / w == 4 * k) by (nonlinear_arith)
            requires
                w > 0,
        ;
    }
}

/// The nearest of the values from `low` to `high`.
pub open spec fn nearest_within(value: i64, low: i64, high: i64) -> i64 {
    if value < low {
        low
    } else if value > high {
        high
    } else {
        value
    }
}

/// A joint's position brought into its soft limits; all are ordered keys.
pub fn within_limits(value: i64, low: i64, high: i64) -> (r: i64)
    requires
        low <= high,
    ensures
        r == nearest_within(value, low, high),
        low <= r <= high,
{
    if value < low {
        low
    } else if value > high {
        high
    } else {
        value
    }
}

/// A rate: how great it is, as an ordered key, and which way it goes.
#[derive(Clone, Copy, Debug, PartialEq, Eq, Structural)]
pub struct Rate {
    /// How great.
    pub magnitude: u64,
    /// Whether it goes down.
    pub negative: bool,
}

/// The greater of two rates; the planned one where they are as great.
pub open spec fn greater_rate(advance: Rate, planned: Rate) -> Rate {
    if advance.magnitude > planned.magnitude {
        advance
    } else {
        planned
    }
}

/// The velocity that is commanded with a position: the planned one, or the rate at
/// which the position advanced where that is greater. The drive adds it to its own
/// loop, and a plan ends every tick that lands on its target at a standstill.
pub fn commanded_rate(advance: Rate, planned: Rate) -> (r: Rate)
    ensures
        r == greater_rate(advance, planned),
        r.magnitude >= advance.magnitude,
        r.magnitude >= planned.magnitude,
{
    if advance.magnitude > planned.magnitude {
        advance
    } else {
        planned
    }
}

/// What the tracker tells the log.
#[derive(Clone, Copy, Debug, PartialEq, Eq, Structural)]
pub enum Notice {
    /// Nothing.
    Quiet,
    /// Something began to fail; repeats are kept quiet.
    Failing,
    /// The limiter works again after this many failed ticks.
    Recovered {
        /// How many.
        ticks: u32,
    },
}

/// A rate of nothing.
pub open spec fn standstill() -> Rate {
    Rate { magnitude: 0, negative: false }
}

/// A step of the tracker.
#[derive(Clone, Copy, Debug)]
pub struct Setpoint<const N: usize> {
    /// The pose commanded, as ordered keys.
    pub q: [i64; N],
    /// Whether the arm is held there, commanded to stand still.
    pub held: bool,
    /// What the log is told.
    pub notice: Notice,
}

/// Every joint's position brought into its soft limits.
pub open spec fn limited(q: Seq<i64>, low: Seq<i64>, high: Seq<i64>) -> Seq<i64> {
    Seq::new(q.len(), |j: int| nearest_within(q[j], low[j], high[j]))
}

/// Where a step goes: to the planned pose, brought into the limits, or nowhere
/// where the limiter failed.
pub open spec fn stepped_to(
    before: Seq<i64>,
    planned: Option<Seq<i64>>,
    low: Seq<i64>,
    high: Seq<i64>,
) -> Seq<i64> {
    match planned {
        Some(q) => limited(q, low, high),
        None => before,
    }
}

/// The velocity that is commanded to one joint with a step; none where the arm is
/// held.
pub open spec fn rate_of(held: bool, advance: Rate, planned: Rate) -> Rate {
    if held {
        standstill()
    } else {
        greater_rate(advance, planned)
    }
}

/// The velocities that are commanded with a step. `advance` is the rate at which
/// each joint's position comes from the one before, `planned` the one that the
/// plan ends the tick at.
pub fn commanded_rates<const N: usize>(held: bool, advance: &[Rate; N], planned: &[Rate; N]) -> (r: [Rate; N])
    ensures
        forall|j: int|
            0 <= j < N ==> #[trigger] r@[j] == rate_of(held, advance@[j], planned@[j]),
{
    let mut out = *planned;
    let mut j: usize = 0;
    while j < N
        invariant
            j <= N,
            out@.len() == N,
            advance@.len() == N,
            planned@.len() == N,
            forall|k: int| 0 <= k < j ==> #[trigger] out@[k] == rate_of(
                held,
                advance@[k],
                planned@[k],
            ),
        decreases N - j,
    {
        let rate = if held {
            Rate { magnitude: 0, negative: false }
        } else {
            commanded_rate(advance[j], planned[j])
        };
        out[j] = rate;
        j += 1;
    }
    out
}

/// The stream tracker's hook for `N` joints: what the limiter plans is brought into
/// the soft limits, a limiter that fails holds the arm where it is, and one that
/// keeps failing is a fault. Positions are ordered keys.
#[derive(Clone, Copy, Debug)]
pub struct MotionStream<const N: usize> {
    /// The pose last commanded.
    pub hold_q: [i64; N],
    /// The lower soft limits.
    pub low: [i64; N],
    /// The upper soft limits.
    pub high: [i64; N],
    /// Steps that failed in a row.
    pub fail_streak: u32,
    /// How many make a fault.
    pub fault_latch_ticks: u32,
    /// Whether the last target was refused.
    pub target_refused: bool,
    /// Whether the last limits were refused.
    pub scale_refused: bool,
}

impl<const N: usize> MotionStream<N> {
    /// Whether the limits are in order.
    pub open spec fn valid(self) -> bool {
        forall|j: int| 0 <= j < N ==> #[trigger] self.low@[j] <= self.high@[j]
    }

    /// A hook that is a fault after that many failures in a row, and holds at
    /// `q` until it is activated.
    pub fn new(q: [i64; N], low: [i64; N], high: [i64; N], fault_latch_ticks: u32) -> (r:
        MotionStream<N>)
        requires
            forall|j: int| 0 <= j < N ==> #[trigger] low@[j] <= high@[j],
        ensures
            r == (MotionStream {
                hold_q: q,
                low,
                high,
                fail_streak: 0,
                fault_latch_ticks,
                target_refused: false,
                scale_refused: false,
            }),
            r.valid(),
    {
        MotionStream {
            hold_q: q,
            low,
            high,
            fail_streak: 0,
            fault_latch_ticks,
            target_refused: false,
            scale_refused: false,
        }
    }

    /// Begin a session at the measured pose: whatever the last one left behind
    /// is forgotten.
    pub fn activate(&mut self, q: [i64; N])
        ensures
            *final(self) == (MotionStream {
                hold_q: q,
                fail_streak: 0,
                target_refused: false,
                scale_refused: false,
                ..*old(self)
            }),
    {
        self.hold_q = q;
        self.fail_streak = 0;
        self.target_refused = false;
        self.scale_refused = false;
    }

    /// A pose brought into the soft limits.
    pub fn limit(&self, q: [i64; N]) -> (r: [i64; N])
        requires
            self.valid(),
        ensures
            r@ == limited(q@, self.low@, self.high@),
            forall|j: int| 0 <= j < N ==> self.low@[j] <= #[trigger] r@[j] <= self.high@[j],
    {
        let mut out = q;
        let mut j: usize = 0;
        while j < N
            invariant
                j <= N,
                self.valid(),
                out@.len() == N,
                self.low@.len() == N,
                self.high@.len() == N,
                forall|k: int| 0 <= k < j ==> #[trigger] out@[k] == limited(
                    q@,
                    self.low@,
                    self.high@,
                )[k],
                forall|k: int| j <= k < N ==> #[trigger] out@[k] == q@[k],
                forall|k: int|
                    0 <= k < j ==> self.low@[k] <= #[trigger] out@[k] <= self.high@[k],
            decreases N - j,
        {
            let value: i64 = out[j];
            out[j] = within_limits(value, self.low[j], self.high[j]);
            j += 1;
        }
        assert(out@ =~= limited(q@, self.low@, self.high@));
        out
    }

    /// Take whether the limiter took a target.
    pub fn set_target(&mut self, accepted: bool) -> (r: Notice)
        ensures
            *final(self) == (MotionStream { target_refused: !accepted, ..*old(self) }),
            r == (if !accepted && !old(self).target_refused {
                Notice::Failing
            } else {
                Notice::Quiet
            }),
    {
        let first = !accepted && !self.target_refused;
        self.target_refused = !accepted;
        if first {
            Notice::Failing
        } else {
            Notice::Quiet
        }
    }

    /// Take whether the limiter took scaled limits.
    pub fn set_scale(&mut self, accepted: bool) -> (r: Notice)
        ensures
            *final(self) == (MotionStream { scale_refused: !accepted, ..*old(self) }),
            r == (if !accepted && !old(self).scale_refused {
                Notice::Failing
            } else {
                Notice::Quiet
            }),
    {
        let first = !accepted && !self.scale_refused;
        self.scale_refused = !accepted;
        if first {
            Notice::Failing
        } else {
            Notice::Quiet
        }
    }

    /// The number of failures in a row after one more.
    pub open spec fn one_more(self) -> u32 {
        if self.fail_streak == u32::MAX {
            u32::MAX
        } else {
            (self.fail_streak + 1) as u32
        }
    }

    /// Take the pose that the limiter planned, or that it failed. The step goes to
    /// that pose, brought into the soft limits, or stays where the last one went.
    pub fn step(&mut self, planned: Option<[i64; N]>) -> (r: Setpoint<N>)
        requires
            old(self).valid(),
        ensures
            final(self).valid(),
            r.q@ == stepped_to(
                old(self).hold_q@,
                match planned {
                    Some(q) => Some(q@),
                    None => None,
                },
                old(self).low@,
                old(self).high@,
            ),
            r.held == planned is None,
            planned is Some ==> forall|j: int|
                0 <= j < N ==> old(self).low@[j] <= #[trigger] r.q@[j] <= old(self).high@[j],
            *final(self) == (MotionStream {
                hold_q: r.q,
                fail_streak: if planned is Some {
                    0
                } else {
                    old(self).one_more()
                },
                ..*old(self)
            }),
            r.notice == (match planned {
                Some(_) => if old(self).fail_streak > 0 {
                    Notice::Recovered { ticks: old(self).fail_streak }
                } else {
                    Notice::Quiet
                },
                None => if old(self).fail_streak == 0 {
                    Notice::Failing
                } else {
                    Notice::Quiet
                },
            }),
    {
        match planned {
            Some(planned) => {
                let q = self.limit(planned);
                let notice = if self.fail_streak > 0 {
                    Notice::Recovered { ticks: self.fail_streak }
                } else {
                    Notice::Quiet
                };
                self.hold_q = q;
                self.fail_streak = 0;
                Setpoint { q, held: false, notice }
            },
            None => {
                let notice = if self.fail_streak == 0 {
                    Notice::Failing
                } else {
                    Notice::Quiet
                };
                if self.fail_streak < u32::MAX {
                    self.fail_streak = self.fail_streak + 1;
                }
                Setpoint { q: self.hold_q, held: true, notice }
            },
        }
    }

    /// Whether the limiter has failed for too long.
    pub open spec fn is_faulted(self) -> bool {
        self.fail_streak >= self.fault_latch_ticks
    }

    /// Whether the limiter has failed for too long.
    pub fn faulted(&self) -> (r: bool)
        ensures
            r == self.is_faulted(),
    {
        self.fail_streak >= self.fault_latch_ticks
    }

    /// The hook after `n` failures in a row.
    pub open spec fn failed(self, n: nat) -> MotionStream<N>
        decreases n,
    {
        if n == 0 {
            self
        } else {
            let before = self.failed((n - 1) as nat);
            MotionStream { fail_streak: before.one_more(), ..before }
        }
    }
}

/// A step that the limiter took leaves every joint within its soft limits, and
/// every joint is commanded a velocity that covers its advance, even where the plan
/// ends the tick at a standstill. A step that it did not take leaves every joint
/// where it was, commanded to stand still. `advance` says at which rate one position
/// comes from another.
pub proof fn law_a_step_stays_within_limits_and_covers_its_advance(
    before: Seq<i64>,
    planned: Option<Seq<i64>>,
    low: Seq<i64>,
    high: Seq<i64>,
    advance: spec_fn(i64, i64) -> Rate,
    planned_rates: Seq<Rate>,
)
    requires
        planned matches Some(q) ==> q.len() == before.len(),
        forall|j: int| 0 <= j < before.len() ==> #[trigger] low[j] <= high[j],
    ensures
        ({
            let q = stepped_to(before, planned, low, high);
            let held = planned is None;
            &&& q.len() == before.len()
            &&& forall|j: int|
                0 <= j < before.len() ==> {
                    let rate = advance(before[j], #[trigger] q[j]);
                    let commanded = rate_of(held, rate, planned_rates[j]);
                    &&& !held ==> low[j] <= q[j] <= high[j]
                    &&& !held ==> commanded.magnitude >= rate.magnitude
                    &&& held ==> q[j] == before[j] && commanded == standstill()
                }
        }),
{
}

/// A limiter that keeps failing holds the arm where it is and is a fault after
/// exactly as many ticks as were set, no sooner and no later.
pub proof fn law_a_failing_limiter_faults_on_time<const N: usize>(stream: MotionStream<N>, n: nat)
    requires
        stream.fail_streak == 0,
        stream.fault_latch_ticks > 0,
        n <= u32::MAX,
    ensures
        stream.failed(n).hold_q == stream.hold_q,
        stream.failed(n).is_faulted() <==> n >= stream.fault_latch_ticks,
{
    lemma_failed(stream, n);
}

proof fn lemma_failed<const N: usize>(stream: MotionStream<N>, n: nat)
    requires
        stream.fail_streak == 0,
        n <= u32::MAX,
    ensures
        stream.failed(n) == (MotionStream { fail_streak: n as u32, ..stream }),
    decreases n,
{
    if n > 0 {
        lemma_failed(stream, (n - 1) as nat);
    }
}

/// A joint's two bits say which way it is blocked: one to smaller angles, two to
/// greater ones, none where it is free.
pub proof fn law_the_bits_say_which_way(blocked: Seq<Option<JogDirection>>, joint: int)
    requires
        0 <= joint < blocked.len(),
    ensures
        weight(0) == 1,
        weight(joint + 1) == 4 * weight(joint),
        (mask_of(blocked) / weight(joint)) % 4 == 1 <==> blocked[joint] == Some(
            JogDirection::Negative,
        ),
        (mask_of(blocked) / weight(joint)) % 4 == 2 <==> blocked[joint] == Some(
            JogDirection::Positive,
        ),
        (mask_of(blocked) / weight(joint)) % 4 == 0 <==> blocked[joint] is None,
{
    law_the_mask_tells_every_joint(blocked, joint);
}

/// A step goes where it was planned to, joint by joint, unless that is outside of the
/// joint's soft limits; then it goes to the limit it would have passed. With it goes the
/// planned velocity, unless the position advances faster; then the rate of the advance.
pub proof fn law_a_step_goes_where_it_was_planned(
    before: Seq<i64>,
    planned: Seq<i64>,
    low: Seq<i64>,
    high: Seq<i64>,
    j: int,
    advance: Rate,
    ending: Rate,
)
    requires
        0 <= j < planned.len(),
        low[j] <= high[j],
    ensures
        ({
            let q = stepped_to(before, Some(planned), low, high)[j];
            &&& low[j] <= planned[j] <= high[j] ==> q == planned[j]
            &&& planned[j] < low[j] ==> q == low[j]
            &&& planned[j] > high[j] ==> q == high[j]
        }),
        advance.magnitude > ending.magnitude ==> rate_of(false, advance, ending) == advance,
        advance.magnitude <= ending.magnitude ==> rate_of(false, advance, ending) == ending,
        rate_of(true, advance, ending).magnitude == 0,
        stepped_to(before, None, low, high) == before,
{
}

/// A held arm is commanded no rate at all, and one that goes on the greater of the two:
/// never less than was planned, and what was planned where they are as great.
pub proof fn law_what_rate_is_commanded(advance: Rate, planned: Rate)
    ensures
        rate_of(true, advance, planned) == (Rate { magnitude: 0, negative: false }),
        rate_of(false, advance, planned).magnitude >= planned.magnitude,
        rate_of(false, advance, planned).magnitude >= advance.magnitude,
        advance.magnitude <= planned.magnitude ==> rate_of(false, advance, planned) == planned,
        advance.magnitude > planned.magnitude ==> rate_of(false, advance, planned) == advance,
{
}

} // verus!
