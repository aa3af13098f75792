//! The speed of a joint that is holding, from its encoder readings.
//!
//! The estimate is the slope of the longest line that ends at the newest
//! reading, starts at an older one, and keeps every reading in between within
//! one count. A joint that rests on a count boundary then reads as stationary
//! and not as one count per tick.
use vstd::prelude::*;

verus! {

/// One reading: when it was received, in nanoseconds, and the encoder count.
#[derive(Clone, Copy, Debug, PartialEq, Eq)]
pub struct Reading {
    /// Time of receipt in nanoseconds.
    pub time: u64,
    /// Encoder count.
    pub position: i32,
}

/// A speed: counts travelled in a time that is not zero.
#[derive(Clone, Copy, Debug, PartialEq, Eq)]
pub struct Slope {
    /// Counts.
    pub counts: i64,
    /// Nanoseconds.
    pub nanos: u64,
}

/// Why a reading or a history was refused.
#[derive(Clone, Copy, Debug, PartialEq, Eq, Structural)]
pub enum HoldError {
    /// The observation holds more readings than can be counted.
    TooLarge,
    /// The reading is not newer than the one before it.
    NotIncreasing,
}

impl HoldError {
    /// What went wrong, in words.
    pub fn message(self) -> (r: &'static str)
        ensures
            r@ == (match self {
                HoldError::TooLarge => "holding observation is too large"@,
                HoldError::NotIncreasing => "holding encoder timestamps are not increasing"@,
            }),
    {
        match self {
            HoldError::TooLarge => "holding observation is too large",
            HoldError::NotIncreasing => "holding encoder timestamps are not increasing",
        }
    }
}

/// Counts from an older reading to the newest one. Readings are listed newest
/// first.
pub open spec fn travel(readings: Seq<Reading>, lag: int) -> int {
    readings[0].position - readings[lag].position
}

/// Nanoseconds from an older reading to the newest one.
pub open spec fn age(readings: Seq<Reading>, lag: int) -> int {
    readings[0].time - readings[lag].time
}

/// Whether the reading at `i` lies within one count of the line from the
/// reading at `lag` to the newest one.
pub open spec fn on_line(readings: Seq<Reading>, lag: int, i: int) -> bool {
    &&& (travel(readings, i) - 1) * age(readings, lag) <= travel(readings, lag) * age(readings, i)
    &&& travel(readings, lag) * age(readings, i) <= (travel(readings, i) + 1) * age(readings, lag)
}

/// Whether the window reaching back to `lag` can be used: it is not older than
/// the horizon and every reading in between lies on its line.
pub open spec fn usable(readings: Seq<Reading>, horizon: int, lag: int) -> bool {
    &&& age(readings, lag) <= horizon
    &&& forall|i: int| 1 <= i < lag ==> #[trigger] on_line(readings, lag, i)
}

/// Whether `lag` is how far back the window reaches: every shorter window is
/// usable and the next longer one is not, or there is none.
pub open spec fn reaches(readings: Seq<Reading>, horizon: int, lag: int) -> bool {
    &&& 0 <= lag < readings.len()
    &&& forall|k: int| 1 <= k <= lag ==> #[trigger] usable(readings, horizon, k)
    &&& lag + 1 < readings.len() ==> !usable(readings, horizon, lag + 1)
}

/// The estimate a window that reaches back to `lag` gives.
pub open spec fn estimate_at(readings: Seq<Reading>, lag: int) -> Option<Slope> {
    if lag == 0 {
        None
    } else {
        Some(
            Slope { counts: travel(readings, lag) as i64, nanos: age(readings, lag) as u64 },
        )
    }
}

/// Whether the readings, newest first, were received in order.
pub open spec fn in_order(readings: Seq<Reading>) -> bool {
    forall|i: int, k: int| 0 <= i < k < readings.len() ==> readings[i].time > readings[k].time
}

/// A bounded history of readings.
#[derive(Debug)]
pub struct HoldVelocity {
    history: Vec<Reading>,
    next: usize,
    len: usize,
    horizon: u64,
}

/// What a history holds.
pub struct HoldView {
    /// The readings held, newest first.
    pub readings: Seq<Reading>,
    /// The readings that can be held at once.
    pub capacity: nat,
    /// The age beyond which a reading is not used.
    pub horizon: u64,
}

impl View for HoldVelocity {
    type V = HoldView;

    open spec fn view(&self) -> HoldView {
        HoldView {
            readings: self.readings(),
            capacity: self.capacity(),
            horizon: self.horizon(),
        }
    }
}

impl HoldVelocity {
    /// Where the reading `lag` places back is kept.
    spec fn slot(&self, lag: int) -> int {
        let at = self.next - 1 - lag;
        if at < 0 {
            at + self.history@.len()
        } else {
            at
        }
    }

    /// The readings held, newest first.
    pub closed spec fn readings(&self) -> Seq<Reading> {
        Seq::new(self.len as nat, |i: int| self.history@[self.slot(i)])
    }

    /// The readings that can be held at once.
    pub closed spec fn capacity(&self) -> nat {
        self.history@.len()
    }

    /// The age beyond which a reading is not used.
    pub closed spec fn horizon(&self) -> u64 {
        self.horizon
    }

    /// The ring is consistent.
    pub closed spec fn ring(&self) -> bool {
        &&& self.next < self.history@.len()
        &&& self.len <= self.history@.len()
        &&& self.len == 0 ==> self.next == 0 && self.history@.last().time == 0
    }

    /// There is room for two readings, those that are held fit and are in order,
    /// and the ring is consistent.
    pub open spec fn wf(&self) -> bool {
        &&& self.capacity() >= 2
        &&& self.readings().len() <= self.capacity()
        &&& in_order(self.readings())
        &&& self.ring()
    }

    /// A history of `intervals` sampling intervals, at least one, in which
    /// readings up to `horizon` nanoseconds old are used.
    pub fn new(intervals: usize, horizon: u64) -> (r: Result<HoldVelocity, HoldError>)
        ensures
            intervals == usize::MAX <==> r is Err,
            r matches Err(e) ==> e == HoldError::TooLarge,
            r matches Ok(h) ==> h.wf() && h@ == (HoldView {
                readings: Seq::empty(),
                capacity: ((if intervals == 0 {
                    1
                } else {
                    intervals as int
                }) + 1) as nat,
                horizon,
            }),
    {
        if intervals == usize::MAX {
            return Err(HoldError::TooLarge);
        }
        let capacity: usize = if intervals == 0 {
            2
        } else {
            intervals + 1
        };
        let mut history: Vec<Reading> = Vec::new();
        let mut i: usize = 0;
        while i < capacity
            invariant
                i <= capacity,
                history@.len() == i,
                forall|k: int| 0 <= k < i ==> (#[trigger] history@[k]).time == 0,
            decreases capacity - i,
        {
            history.push(Reading { time: 0, position: 0 });
            i += 1;
        }
        let h = HoldVelocity { history, next: 0, len: 0, horizon };
        assert(h.readings() =~= Seq::<Reading>::empty());
        Ok(h)
    }

    /// Forget everything but one reading.
    pub fn reset(&mut self, time: u64, position: i32)
        requires
            old(self).wf(),
        ensures
            final(self).wf(),
            final(self)@ == (HoldView {
                readings: seq![Reading { time, position }],
                ..old(self)@
            }),
    {
        self.history[0] = Reading { time, position };
        self.next = 1;
        self.len = 1;
        assert(self.readings() =~= seq![Reading { time, position }]);
    }

    /// Take a reading and estimate the speed. A reading that is not newer than
    /// the last one is refused and changes nothing.
    pub fn push(&mut self, time: u64, position: i32) -> (r: Result<Option<Slope>, HoldError>)
        requires
            old(self).wf(),
        ensures
            final(self).wf(),
            time <= (if old(self)@.readings.len() == 0 {
                0
            } else {
                old(self)@.readings[0].time
            }) <==> r is Err,
            r matches Err(e) ==> e == HoldError::NotIncreasing && *final(self) == *old(self),
            r matches Ok(estimate) ==> {
                let now = final(self)@;
                &&& now == (HoldView {
                    readings: (seq![Reading { time, position }] + old(self)@.readings).take(
                        if old(self)@.readings.len() < old(self)@.capacity {
                            (old(self)@.readings.len() + 1) as int
                        } else {
                            old(self)@.capacity as int
                        },
                    ),
                    ..old(self)@
                })
                &&& exists|lag: int| #[trigger]
                    reaches(now.readings, now.horizon as int, lag) && estimate == estimate_at(
                        now.readings,
                        lag,
                    )
            },
    {
        let capacity: usize = self.history.len();
        let last: usize = if self.next == 0 {
            capacity - 1
        } else {
            self.next - 1
        };
        let previous = self.history[last];
        proof {
            if self.len > 0 {
                assert(self.readings()[0] == self.history@[self.slot(0)]);
            }
        }
        if time <= previous.time {
            return Err(HoldError::NotIncreasing);
        }
        let ghost before = *self;
        let reading = Reading { time, position };
        let at: usize = self.next;
        self.history[at] = reading;
        self.next = if at + 1 == capacity {
            0
        } else {
            at + 1
        };
        if self.len < capacity {
            self.len = self.len + 1;
        }
        proof {
            lemma_pushed(before, *self, reading);
        }
        let estimate = self.estimate();
        proof {
            let lag = choose|lag: int| #[trigger]
                reaches(self.readings(), self.horizon() as int, lag) && estimate == estimate_at(
                    self.readings(),
                    lag,
                );
            assert(reaches(self@.readings, self@.horizon as int, lag));
        }
        Ok(estimate)
    }

    /// The slope of the longest usable window.
    fn estimate(&self) -> (r: Option<Slope>)
        requires
            self.wf(),
            self.readings().len() > 0,
        ensures
            exists|lag: int| #[trigger]
                reaches(self.readings(), self.horizon() as int, lag) && r == estimate_at(self.readings(), lag),
    {
        let ghost readings = self.readings();
        let capacity: usize = self.history.len();
        let newest: usize = if self.next == 0 {
            capacity - 1
        } else {
            self.next - 1
        };
        let now = self.history[newest];
        assert(readings[0] == now);
        let mut result: Option<Slope> = None;
        // The tightest bounds on the slope so far, each as a fraction: the
        // first nothing, then the one of some reading in the window.
        let mut lower: (i64, u64) = (0, 0);
        let mut upper: (i64, u64) = (0, 0);
        let ghost mut low_at: int = 0;
        let ghost mut high_at: int = 0;
        let mut lag: usize = 1;
        assert(self.len == 1 ==> reaches(readings, self.horizon as int, 0));
        while lag < self.len
            invariant_except_break
                1 <= lag <= self.len,
                forall|k: int| 1 <= k < lag ==> #[trigger] usable(readings, self.horizon as int, k),
                result == estimate_at(readings, lag - 1),
                lag == self.len ==> reaches(readings, self.horizon as int, lag - 1),
            invariant
                self.wf(),
                readings == self.readings(),
                readings.len() == self.len,
                capacity == self.history@.len(),
                now == readings[0],
                1 <= lag <= self.len,
                lag >= 2 ==> bounds_low(readings, lag as int, low_at, lower),
                lag >= 2 ==> bounds_high(readings, lag as int, high_at, upper),
            ensures
                exists|k: int| #[trigger]
                    reaches(readings, self.horizon as int, k) && result == estimate_at(readings, k),
            decreases self.len - lag,
        {
            let slot: usize = if self.next >= lag + 1 {
                self.next - 1 - lag
            } else {
                self.next + (capacity - 1 - lag)
            };
            let past = self.history[slot];
            assert(past == readings[lag as int]);
            let elapsed: u64 = now.time - past.time;
            let delta: i64 = now.position as i64 - past.position as i64;
            assert(elapsed == age(readings, lag as int));
            assert(delta == travel(readings, lag as int));
            if elapsed > self.horizon {
                assert(!usable(readings, self.horizon as int, lag as int));
                assert(reaches(readings, self.horizon as int, lag - 1));
                break;
            }
            if lag > 1 {
                let under = below(delta, elapsed, lower);
                let over = below(upper.0, upper.1, (delta, elapsed));
                if under || over {
                    proof {
                        if under {
                            assert(!on_line(readings, lag as int, low_at));
                        } else {
                            assert(!on_line(readings, lag as int, high_at));
                        }
                        assert(!usable(readings, self.horizon as int, lag as int));
                        assert(reaches(readings, self.horizon as int, lag - 1));
                    }
                    break;
                }
                proof {
                    assert forall|i: int| 1 <= i < lag implies #[trigger] on_line(
                        readings,
                        lag as int,
                        i,
                    ) by {
                        lemma_slope_order(
                            delta as int,
                            elapsed as int,
                            lower.0 as int,
                            lower.1 as int,
                            travel(readings, i) - 1,
                            age(readings, i),
                        );
                        lemma_slope_order(
                            travel(readings, i) + 1,
                            age(readings, i),
                            upper.0 as int,
                            upper.1 as int,
                            delta as int,
                            elapsed as int,
                        );
                    }
                }
            }
            assert(usable(readings, self.horizon as int, lag as int));
            result = Some(Slope { counts: delta, nanos: elapsed });
            let (raise, drop) = if lag == 1 {
                (true, true)
            } else {
                (below(lower.0, lower.1, (delta - 1, elapsed)), below(
                    delta + 1,
                    elapsed,
                    upper,
                ))
            };
            let ghost (lower0, upper0) = (lower, upper);
            if raise {
                lower = (delta - 1, elapsed);
                proof {
                    low_at = lag as int;
                }
            }
            if drop {
                upper = (delta + 1, elapsed);
                proof {
                    high_at = lag as int;
                }
            }
            proof {
                assert forall|i: int| 1 <= i < lag + 1 implies (travel(readings, i) - 1)
                    * lower.1 <= lower.0 * #[trigger] age(readings, i) && upper.0 * age(
                    readings,
                    i,
                ) <= (travel(readings, i) + 1) * upper.1 by {
                    if i < lag {
                        if raise {
                            lemma_slope_order(
                                delta - 1,
                                elapsed as int,
                                lower0.0 as int,
                                lower0.1 as int,
                                travel(readings, i) - 1,
                                age(readings, i),
                            );
                        }
                        if drop {
                            lemma_slope_order(
                                travel(readings, i) + 1,
                                age(readings, i),
                                upper0.0 as int,
                                upper0.1 as int,
                                delta + 1,
                                elapsed as int,
                            );
                        }
                    }
                }
            }
            lag += 1;
            if lag == self.len {
                assert(reaches(readings, self.horizon as int, lag - 1));
            }
        }
        assert(self.horizon() == self.horizon);
        result
    }
}

/// Whether the fraction `n / d` is below the fraction `than`.
fn below(n: i64, d: u64, than: (i64, u64)) -> (r: bool)
    ensures
        r == (n * than.1 < than.0 * d),
{
    proof {
        lemma_product_fits(n, than.1);
        lemma_product_fits(than.0, d);
    }
    (n as i128) * (than.1 as i128) < (than.0 as i128) * (d as i128)
}

/// The lower bound in hand is that of a reading in the window and is the
/// greatest of them.
spec fn bounds_low(readings: Seq<Reading>, lag: int, at: int, bound: (i64, u64)) -> bool {
    &&& 1 <= at < lag
    &&& bound.0 == travel(readings, at) - 1
    &&& bound.1 == age(readings, at)
    &&& forall|i: int|
        1 <= i < lag ==> (travel(readings, i) - 1) * bound.1 <= bound.0 * #[trigger] age(
            readings,
            i,
        )
}

/// The upper bound in hand is that of a reading in the window and is the least
/// of them.
spec fn bounds_high(readings: Seq<Reading>, lag: int, at: int, bound: (i64, u64)) -> bool {
    &&& 1 <= at < lag
    &&& bound.0 == travel(readings, at) + 1
    &&& bound.1 == age(readings, at)
    &&& forall|i: int|
        1 <= i < lag ==> bound.0 * #[trigger] age(readings, i) <= (travel(readings, i) + 1)
            * bound.1
}

/// Fractions with positive denominators are ordered transitively.
proof fn lemma_slope_order(a: int, b: int, n: int, d: int, c: int, f: int)
    requires
        b > 0,
        d > 0,
        f > 0,
        a * d >= n * b,
        n * f >= c * d,
    ensures
        a * f >= c * b,
{
    assert(d * (a * f) >= d * (c * b)) by (nonlinear_arith)
        requires
            b > 0,
            d > 0,
            f > 0,
            a * d >= n * b,
            n * f >= c * d,
    {
        assert((a * d) * f >= (n * b) * f);
        assert((n * f) * b >= (c * d) * b);
        assert((a * d) * f == d * (a * f));
        assert((n * b) * f == (n * f) * b);
        assert((c * d) * b == d * (c * b));
    }
    assert(a * f >= c * b) by (nonlinear_arith)
        requires
            d > 0,
            d * (a * f) >= d * (c * b),
    ;
}

/// A count times a duration fits in twice the width.
proof fn lemma_product_fits(n: i64, d: u64)
    ensures
        i128::MIN <= n * d <= i128::MAX,
{
    assert(-0x8000_0000_0000_0000_0000_0000_0000_0000 <= n * d
        < 0x7fff_ffff_ffff_ffff_ffff_ffff_ffff_ffff) by (nonlinear_arith)
        requires
            -0x8000_0000_0000_0000 <= n < 0x8000_0000_0000_0000,
            0 <= d < 0x1_0000_0000_0000_0000,
    ;
}

/// What writing one reading does to the readings held.
proof fn lemma_pushed(before: HoldVelocity, after: HoldVelocity, reading: Reading)
    requires
        before.wf(),
        reading.time > (if before.len == 0 {
            0
        } else {
            before.readings()[0].time
        }),
        after.history@ == before.history@.update(before.next as int, reading),
        after.next == (if before.next + 1 == before.history@.len() {
            0
        } else {
            before.next + 1
        }),
        after.len == (if before.len < before.history@.len() {
            before.len + 1
        } else {
            before.len as int
        }),
        after.horizon == before.horizon,
    ensures
        after.wf(),
        after.readings() == (seq![reading] + before.readings()).take(after.len as int),
{
    let cap = before.history@.len();
    let expected = (seq![reading] + before.readings()).take(after.len as int);
    assert forall|i: int| 0 <= i < after.len implies after.readings()[i] == #[trigger] expected[i] by {
        if i > 0 {
            assert(after.slot(i) == before.slot(i - 1));
            assert(after.slot(i) != before.next);
        }
    }
    assert(after.readings() =~= expected);
}

/// There is no estimate only if the reading before the newest is too old, or
/// there is none.
pub proof fn law_no_estimate_means_an_old_reading(readings: Seq<Reading>, horizon: int, lag: int)
    requires
        reaches(readings, horizon, lag),
    ensures
        estimate_at(readings, lag) is None <==> readings.len() == 1 || age(readings, 1) > horizon,
{
    if lag == 0 && readings.len() > 1 {
        assert(!usable(readings, horizon, 1));
    }
    if lag > 0 {
        assert(usable(readings, horizon, 1));
    }
}

/// A joint that rests on a count boundary reads as stationary: where all
/// readings are within one count of each other, the window grows to everything
/// that is held, and the estimate is at most one count over all of it.
pub proof fn law_resting_on_a_boundary_reads_as_stationary(
    readings: Seq<Reading>,
    horizon: int,
    lag: int,
)
    requires
        in_order(readings),
        forall|i: int, k: int|
            0 <= i < readings.len() && 0 <= k < readings.len() ==> -1 <= #[trigger] readings[i].position
                - #[trigger] readings[k].position <= 1,
        forall|i: int| 0 <= i < readings.len() ==> #[trigger] age(readings, i) <= horizon,
        reaches(readings, horizon, lag),
    ensures
        lag == readings.len() - 1,
        -1 <= travel(readings, lag) <= 1,
{
    if lag + 1 < readings.len() {
        let k = lag + 1;
        assert forall|i: int| 1 <= i < k implies #[trigger] on_line(readings, k, i) by {
            let (dk, ek, di, ei) = (
                travel(readings, k),
                age(readings, k),
                travel(readings, i),
                age(readings, i),
            );
            assert(readings[0].time > readings[i].time);
            assert(readings[i].time > readings[k].time);
            assert(0 < ei < ek);
            assert(-1 <= readings[i].position - readings[k].position <= 1);
            assert(-1 <= dk - di <= 1);
            assert((di - 1) * ek <= dk * ei && dk * ei <= (di + 1) * ek) by (nonlinear_arith)
                requires
                    0 < ei < ek,
                    -1 <= dk <= 1,
                    -1 <= di <= 1,
                    -1 <= dk - di <= 1,
            ;
        }
        assert(usable(readings, horizon, k));
    }
}

/// A steady ramp is estimated at its true speed: where every reading lies on
/// one line, the window grows to everything that is held, and the estimate is
/// that line's slope.
pub proof fn law_a_steady_ramp_reads_at_its_speed(
    readings: Seq<Reading>,
    horizon: int,
    lag: int,
    counts: int,
    nanos: int,
)
    requires
        in_order(readings),
        nanos > 0,
        forall|i: int|
            0 <= i < readings.len() ==> #[trigger] travel(readings, i) * nanos == counts * age(
                readings,
                i,
            ),
        forall|i: int| 0 <= i < readings.len() ==> #[trigger] age(readings, i) <= horizon,
        reaches(readings, horizon, lag),
    ensures
        lag == readings.len() - 1,
        travel(readings, lag) * nanos == counts * age(readings, lag),
{
    if lag + 1 < readings.len() {
        let k = lag + 1;
        assert forall|i: int| 1 <= i < k implies #[trigger] on_line(readings, k, i) by {
            let (dk, ek, di, ei) = (
                travel(readings, k),
                age(readings, k),
                travel(readings, i),
                age(readings, i),
            );
            assert(readings[0].time > readings[i].time);
            assert(readings[i].time > readings[k].time);
            assert(nanos * (dk * ei) == nanos * (di * ek)) by (nonlinear_arith)
                requires
                    dk * nanos == counts * ek,
                    di * nanos == counts * ei,
            {
                assert(nanos * (dk * ei) == (dk * nanos) * ei);
                assert(nanos * (di * ek) == (di * nanos) * ek);
                assert((counts * ek) * ei == (counts * ei) * ek);
            }
            assert(dk * ei == di * ek) by (nonlinear_arith)
                requires
                    nanos > 0,
                    nanos * (dk * ei) == nanos * (di * ek),
            ;
            assert((di - 1) * ek == di * ek - ek) by (nonlinear_arith);
            assert((di + 1) * ek == di * ek + ek) by (nonlinear_arith);
        }
        assert(usable(readings, horizon, k));
    }
}

/// A reading is on the line of a window exactly if where it lies differs from where the
/// line runs at its time by one count at most, either way.
pub proof fn law_a_reading_on_the_line_is_within_a_count(
    readings: Seq<Reading>,
    lag: int,
    i: int,
)
    requires
        0 <= i <= lag < readings.len(),
        in_order(readings),
        0 < lag,
    ensures
        ({
            let newest = readings[0];
            let oldest = readings[lag];
            let run = newest.time - oldest.time;
            let off = (newest.position - readings[i].position) * run - (newest.position
                - oldest.position) * (newest.time - readings[i].time);
            on_line(readings, lag, i) <==> -run <= off <= run
        }),
{
    let t = travel(readings, i);
    let a = age(readings, lag);
    assert((t - 1) * a == t * a - a) by (nonlinear_arith);
    assert((t + 1) * a == t * a + a) by (nonlinear_arith);
}

/// A window reaches back as far as it can and no further: there is one such reach. Its
/// estimate is what the joint travelled over the time it took, and there is none only
/// where not even the reading before the newest can be used.
pub proof fn law_a_window_has_one_reach(
    readings: Seq<Reading>,
    horizon: int,
    lag: int,
    other: int,
)
    requires
        in_order(readings),
        reaches(readings, horizon, lag),
        reaches(readings, horizon, other),
    ensures
        lag == other,
        lag == 0 ==> estimate_at(readings, lag) is None,
        lag > 0 ==> (estimate_at(readings, lag) matches Some(slope) && slope.counts
            == readings[0].position - readings[lag].position && slope.nanos == readings[0].time
            - readings[lag].time && slope.nanos > 0 && slope.nanos <= horizon),
{
    if lag < other {
        assert(usable(readings, horizon, lag + 1));
    }
    if other < lag {
        assert(usable(readings, horizon, other + 1));
    }
    if lag > 0 {
        assert(usable(readings, horizon, lag));
        assert(readings[0].time > readings[lag].time);
    }
}

/// A window reaches as far back as every shorter one can be used: to the last reading where
/// all can, and else to the one before the first that cannot.
pub proof fn law_how_far_back_a_window_reaches(readings: Seq<Reading>, horizon: int, lag: int)
    requires
        0 <= lag < readings.len(),
        forall|k: int| 1 <= k <= lag ==> #[trigger] usable(readings, horizon, k),
    ensures
        lag + 1 == readings.len() ==> reaches(readings, horizon, lag),
        lag + 1 < readings.len() ==> (reaches(readings, horizon, lag) <==> !usable(
            readings,
            horizon,
            lag + 1,
        )),
{
}

} // verus!
