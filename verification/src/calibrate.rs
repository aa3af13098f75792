//! Finding what the arm carries: sweeps through wrist poses in both directions.
//!
//! Moving measurements part gravity from symmetric friction, and commanded
//! torque is never taken for a measurement.
use crate::text::{decimal, decimal_text, joined};
use vstd::prelude::*;

verus! {

/// The first joint that is swung between poses.
pub const FIRST_WRIST_JOINT: usize = 3;

/// The first joint that takes part in an approach: all that gravity loads do.
pub const FIRST_APPROACH_JOINT: usize = 1;

/// Joints of the arm.
pub const JOINTS: usize = 6;

/// Poses a run needs.
pub const FEWEST_POSES: usize = 3;

/// Age up to which a status frame is fresh, in milliseconds.
pub const FRESH_MS: u64 = 100;

/// How long status may be missing, in nanoseconds.
pub const STATUS_TIMEOUT: u64 = 500_000_000;

/// How much history a velocity is taken over at most, in nanoseconds.
pub const HISTORY: u64 = 100_000_000;

/// How much it is taken over at least, in nanoseconds.
pub const SHORTEST_SPAN: u64 = 80_000_000;

/// How a run approaches and samples the arm; `F` is a measured quantity.
#[derive(Clone, Copy, Debug, PartialEq, Eq)]
pub struct Protocol<F> {
    /// The speed between poses, as a fraction.
    pub speed: F,
    /// How far from a pose it is approached from.
    pub approach_rad: F,
    /// How long a sweep ramps up, in nanoseconds.
    pub settle: u64,
    /// Status frames that are averaged.
    pub frames: usize,
    /// How long a pose may take, in nanoseconds.
    pub pose_timeout: u64,
}

impl<F: Copy> Protocol<F> {
    /// The protocol with its usual times: a quarter of a second to settle,
    /// twenty frames, half a minute for a pose.
    pub fn standard(speed: F, approach_rad: F) -> (r: Protocol<F>)
        ensures
            r == (Protocol {
                speed,
                approach_rad,
                settle: 250_000_000,
                frames: 20,
                pose_timeout: 30_000_000_000,
            }),
    {
        Protocol {
            speed,
            approach_rad,
            settle: 250_000_000,
            frames: 20,
            pose_timeout: 30_000_000_000,
        }
    }

    /// Whether a run can be made: its speed is a usable fraction, its approach
    /// is finite and positive, and every pose is finite (`measurable`), and its
    /// times and counts fit together.
    pub open spec fn usable(self, measurable: bool, poses: nat) -> bool {
        measurable && self.frames >= 2 && self.pose_timeout > 0 && self.settle < self.pose_timeout
            && poses > 0
    }

    /// Whether a run can be made.
    pub fn check(&self, measurable: bool, poses: usize) -> (r: Result<(), String>)
        ensures
            match r {
                Ok(_) => self.usable(measurable, poses as nat),
                Err(e) => !self.usable(measurable, poses as nat) && e@
                    == "invalid calibration poses or sampling protocol"@,
            },
            r is Ok <==> measurable && self.frames >= 2 && self.pose_timeout > 0 && self.settle
                < self.pose_timeout && poses > 0,
    {
        if measurable && self.frames >= 2 && self.pose_timeout > 0 && self.settle
            < self.pose_timeout && poses > 0 {
            Ok(())
        } else {
            Err("invalid calibration poses or sampling protocol".to_owned())
        }
    }
}

/// A wrist pose around the one the arm is in.
#[derive(Clone, Copy, Debug, PartialEq, Eq, Structural)]
pub enum Swing {
    /// The one it is in.
    Start,
    /// A joint swung up.
    Up(usize),
    /// A joint swung down.
    Down(usize),
}

/// The poses that are tried: the one the arm is in, and each wrist joint swung
/// both ways.
pub open spec fn swings_tried() -> Seq<Swing> {
    seq![
        Swing::Start,
        Swing::Up(3),
        Swing::Down(3),
        Swing::Up(4),
        Swing::Down(4),
        Swing::Up(5),
        Swing::Down(5),
    ]
}

/// The poses that are tried.
pub fn swings() -> (r: Vec<Swing>)
    ensures
        r@ == swings_tried(),
{
    let mut out: Vec<Swing> = Vec::new();
    out.push(Swing::Start);
    let mut j: usize = FIRST_WRIST_JOINT;
    while j < JOINTS
        invariant
            FIRST_WRIST_JOINT <= j <= JOINTS,
            out@ == swings_tried().take(1 + 2 * (j - FIRST_WRIST_JOINT)),
        decreases JOINTS - j,
    {
        out.push(Swing::Up(j));
        out.push(Swing::Down(j));
        assert(out@ =~= swings_tried().take(1 + 2 * (j + 1 - FIRST_WRIST_JOINT)));
        j += 1;
    }
    assert(out@ =~= swings_tried());
    out
}

/// A pose the arm would pass: the one measured at, or one of its approaches.
#[derive(Clone, Copy, Debug, PartialEq, Eq, Structural)]
pub struct Passed {
    /// Whether it is inside the joints' window.
    pub inside: bool,
    /// Whether it is clear of the collision world.
    pub clear: bool,
}

/// Poses the arm passes to measure at one: the pose and both its approaches.
pub const PASSED_POSES: usize = 3;

/// Whether every pose that was looked at is inside the window and clear.
pub open spec fn all_passed(passed: Seq<Passed>) -> bool {
    forall|i: int| 0 <= i < passed.len() ==> (#[trigger] passed[i]).inside && passed[i].clear
}

/// Whether a pose may be measured at: it and both its approaches are inside the
/// window and clear.
pub open spec fn may_measure(passed: Seq<Passed>) -> bool {
    passed.len() == PASSED_POSES && all_passed(passed)
}

/// Whether a pose may be measured at. The look may end with the first of the poses
/// that is not inside and clear.
pub fn measurable(passed: &[Passed]) -> (r: bool)
    ensures
        r == may_measure(passed@),
{
    let mut i: usize = 0;
    while i < passed.len()
        invariant
            i <= passed@.len(),
            forall|k: int| 0 <= k < i ==> (#[trigger] passed@[k]).inside && passed@[k].clear,
        decreases passed@.len() - i,
    {
        if !(passed[i].inside && passed[i].clear) {
            assert(!(passed@[i as int].inside && passed@[i as int].clear));
            return false;
        }
        i += 1;
    }
    passed.len() == PASSED_POSES
}

/// The candidates that are usable, in order.
pub open spec fn usable_of<C>(candidates: Seq<C>, usable: Seq<bool>) -> Seq<C>
    decreases candidates.len(),
{
    if candidates.len() == 0 {
        Seq::empty()
    } else {
        let before = usable_of(candidates.drop_last(), usable.drop_last());
        if usable.last() {
            before.push(candidates.last())
        } else {
            before
        }
    }
}

/// What too few poses are told as.
pub open spec fn too_few_poses(n: nat) -> Seq<char> {
    "only "@ + decimal_text(n)
        + " wrist poses are reachable and clear from here — move the arm somewhere with room around the wrist and try again"@
}

/// The poses of a run: the candidates that are usable, if there are enough.
pub fn plan_poses<C: Copy>(candidates: &Vec<C>, usable: &Vec<bool>) -> (r: Result<Vec<C>, String>)
    requires
        candidates@.len() == usable@.len(),
    ensures
        ({
            let kept = usable_of(candidates@, usable@);
            match r {
                Ok(poses) => kept.len() >= FEWEST_POSES && poses@ == kept,
                Err(e) => kept.len() < FEWEST_POSES && e@ == too_few_poses(kept.len()),
            }
        }),
{
    let mut out: Vec<C> = Vec::new();
    let mut i: usize = 0;
    assert(candidates@.take(0) =~= Seq::<C>::empty());
    while i < candidates.len()
        invariant
            i <= candidates@.len() == usable@.len(),
            out@ == usable_of(candidates@.take(i as int), usable@.take(i as int)),
            out@.len() <= i,
        decreases candidates@.len() - i,
    {
        assert(candidates@.take(i + 1).drop_last() =~= candidates@.take(i as int));
        assert(usable@.take(i + 1).drop_last() =~= usable@.take(i as int));
        if usable[i] {
            out.push(candidates[i]);
        }
        i += 1;
    }
    assert(candidates@.take(i as int) =~= candidates@);
    assert(usable@.take(i as int) =~= usable@);
    if out.len() < FEWEST_POSES {
        let mut e: String = "only ".to_owned();
        let n = decimal(out.len() as u64);
        e.append(n.as_str());
        e.append(
            " wrist poses are reachable and clear from here — move the arm somewhere with room around the wrist and try again",
        );
        return Err(e);
    }
    Ok(out)
}

/// A pose that approaches another: each joint that gravity loads shifted, the
/// first kept. `shifted` holds every joint of `q` shifted.
pub fn approach_pose<T: Copy>(q: &Vec<T>, shifted: &Vec<T>) -> (r: Vec<T>)
    requires
        q@.len() == shifted@.len(),
    ensures
        r@ == Seq::new(
            q@.len(),
            |j: int|
                if j < FIRST_APPROACH_JOINT {
                    q@[j]
                } else {
                    shifted@[j]
                },
        ),
{
    let ghost whole = Seq::new(
        q@.len(),
        |j: int|
            if j < FIRST_APPROACH_JOINT {
                q@[j]
            } else {
                shifted@[j]
            },
    );
    let mut out: Vec<T> = Vec::new();
    let mut j: usize = 0;
    while j < q.len()
        invariant
            j <= q@.len() == shifted@.len(),
            whole == Seq::new(
                q@.len(),
                |j: int|
                    if j < FIRST_APPROACH_JOINT {
                        q@[j]
                    } else {
                        shifted@[j]
                    },
            ),
            out@ == whole.take(j as int),
        decreases q@.len() - j,
    {
        out.push(
            if j < FIRST_APPROACH_JOINT {
                q[j]
            } else {
                shifted[j]
            },
        );
        assert(out@ =~= whole.take(j + 1));
        j += 1;
    }
    assert(whole.take(j as int) =~= whole);
    out
}

/// How a request to stop was answered.
#[derive(Debug)]
pub enum StopAnswer {
    /// It was acknowledged.
    Confirmed,
    /// It was not.
    Unconfirmed,
    /// It failed.
    Failed(String),
}

/// What a stop that did not work is told as; nothing where it worked.
pub open spec fn stop_fault(answer: StopAnswer) -> Option<Seq<char>> {
    match answer {
        StopAnswer::Confirmed => None,
        StopAnswer::Unconfirmed => Some("controller stop was not acknowledged"@),
        StopAnswer::Failed(e) => Some("controller stop failed: "@ + e@),
    }
}

/// What a run came to once the arm was told to stop: what it came to before,
/// and a stop that did not work fails it or is told besides.
pub fn stopped<T>(result: Result<T, String>, answer: StopAnswer) -> (r: Result<T, String>)
    ensures
        match stop_fault(answer) {
            None => r == result,
            Some(fault) => match result {
                Ok(_) => r matches Err(e) && e@ == fault,
                Err(was) => r matches Err(e) && e@ == was@ + "; "@ + fault,
            },
        },
{
    let fault = match answer {
        StopAnswer::Confirmed => {
            return result;
        },
        StopAnswer::Unconfirmed => "controller stop was not acknowledged".to_owned(),
        StopAnswer::Failed(e) => joined("controller stop failed: ", e.as_str()),
    };
    match result {
        Ok(_) => Err(fault),
        Err(was) => {
            let mut out: String = was;
            out.append("; ");
            out.append(fault.as_str());
            Err(out)
        },
    }
}

/// How a move was answered.
#[derive(Debug)]
pub enum MoveAnswer {
    /// It was refused.
    Refused(String),
    /// It went unconfirmed.
    Unconfirmed,
    /// Command `index` completed.
    Complete {
        /// Its number.
        index: u64,
    },
    /// Command `index` did not complete in time.
    Late {
        /// Its number.
        index: u64,
    },
    /// Command `index` failed.
    Failed {
        /// Its number.
        index: u64,
        /// Why.
        why: String,
    },
}

/// What a move that did not complete is told as.
pub open spec fn move_fault(answer: MoveAnswer) -> Option<Seq<char>> {
    match answer {
        MoveAnswer::Refused(e) => Some("move_j: "@ + e@),
        MoveAnswer::Unconfirmed => Some("move_j went unconfirmed"@),
        MoveAnswer::Complete { index: _ } => None,
        MoveAnswer::Late { index } => Some(
            "move_j "@ + decimal_text(index as nat) + " did not complete in time"@,
        ),
        MoveAnswer::Failed { index, why } => Some(
            "move_j "@ + decimal_text(index as nat) + ": "@ + why@,
        ),
    }
}

/// Whether a move that failed is followed by a stop: one that was under way is.
pub fn stops_after(answer: &MoveAnswer) -> (r: bool)
    ensures
        r == (answer is Late || answer is Failed),
{
    match answer {
        MoveAnswer::Late { .. } => true,
        MoveAnswer::Failed { .. } => true,
        _ => false,
    }
}

/// What a move came to.
pub fn moved(answer: MoveAnswer) -> (r: Result<(), String>)
    ensures
        match move_fault(answer) {
            None => r is Ok,
            Some(fault) => r matches Err(e) && e@ == fault,
        },
{
    match answer {
        MoveAnswer::Refused(e) => Err(joined("move_j: ", e.as_str())),
        MoveAnswer::Unconfirmed => Err("move_j went unconfirmed".to_owned()),
        MoveAnswer::Complete { index: _ } => Ok(()),
        MoveAnswer::Late { index } => {
            let n = decimal(index);
            let mut out: String = "move_j ".to_owned();
            out.append(n.as_str());
            out.append(" did not complete in time");
            Err(out)
        },
        MoveAnswer::Failed { index, why } => {
            let n = decimal(index);
            let mut out: String = "move_j ".to_owned();
            out.append(n.as_str());
            out.append(": ");
            out.append(why.as_str());
            Err(out)
        },
    }
}

/// The angles at a time; `F` are angles of every joint.
#[derive(Clone, Copy, Debug, PartialEq, Eq)]
pub struct Mark<F> {
    /// The time, in nanoseconds.
    pub time: u64,
    /// The angles.
    pub angles: F,
}

/// A status frame, as far as a sweep reads it.
#[derive(Clone, Copy, Debug, PartialEq, Eq)]
pub struct StatusFrame<F> {
    /// Its number.
    pub seq: u64,
    /// How old its data is, in milliseconds.
    pub age_ms: u64,
    /// Whether the arm is ready: no error, enabled, homed, connected.
    pub ready: bool,
    /// Whether its measurements are finite.
    pub finite: bool,
    /// Whether the arm is streaming.
    pub streaming: bool,
    /// Whether the sweep has ramped up.
    pub ramped: bool,
    /// When it was measured, in nanoseconds.
    pub time: u64,
    /// The angles.
    pub angles: F,
}

/// Why a sweep failed.
#[derive(Clone, Copy, Debug, PartialEq, Eq, Structural)]
pub enum SweepError {
    /// It took too long.
    Late,
    /// Status stopped.
    Silent,
    /// Status was closed.
    Closed,
    /// Too few frames counted.
    TooFew {
        /// How many did.
        taken: usize,
        /// How many were to.
        frames: usize,
    },
    /// The arm is no longer ready.
    NotReady,
    /// A measurement is not finite.
    NotFinite,
}

impl SweepError {
    /// What happened, in words; `error` tells what the arm reports.
    pub open spec fn words(self, error: Seq<char>) -> Seq<char> {
        match self {
            SweepError::Late => "moving gravity sample exceeded its time budget"@,
            SweepError::Silent => "status stopped during gravity sweep"@,
            SweepError::Closed => "status closed during gravity sweep"@,
            SweepError::TooFew { taken, frames } => "insufficient moving samples through pose: "@
                + decimal_text(taken as nat) + "/"@ + decimal_text(frames as nat),
            SweepError::NotReady => "gravity sweep lost readiness: "@ + error,
            SweepError::NotFinite => "non-finite gravity sweep feedback"@,
        }
    }

    /// What happened, in words; `error` tells what the arm reports.
    pub fn message(self, error: &str) -> (r: String)
        ensures
            r@ == self.words(error@),
    {
        match self {
            SweepError::Late => "moving gravity sample exceeded its time budget".to_owned(),
            SweepError::Silent => "status stopped during gravity sweep".to_owned(),
            SweepError::Closed => "status closed during gravity sweep".to_owned(),
            SweepError::TooFew { taken, frames } => {
                let mut out: String = "insufficient moving samples through pose: ".to_owned();
                let n = decimal(taken as u64);
                out.append(n.as_str());
                out.append("/");
                let n = decimal(frames as u64);
                out.append(n.as_str());
                out
            },
            SweepError::NotReady => joined("gravity sweep lost readiness: ", error),
            SweepError::NotFinite => "non-finite gravity sweep feedback".to_owned(),
        }
    }
}

/// What a frame calls for.
#[derive(Clone, Copy, Debug, PartialEq, Eq)]
pub enum FrameStep<F> {
    /// Nothing.
    Skip,
    /// Compare its angles with earlier ones.
    Compare {
        /// The earlier ones.
        then: F,
        /// How much earlier, in nanoseconds.
        span: u64,
    },
    /// Give up.
    Fail(SweepError),
}

/// How much later `now` is, and nothing if it is not.
pub open spec fn later(now: u64, then: u64) -> int {
    if now >= then {
        now - then
    } else {
        0
    }
}

/// The marks a velocity is taken over: the oldest goes as long as the next is
/// old enough.
pub open spec fn recent<F>(marks: Seq<Mark<F>>, time: u64) -> Seq<Mark<F>>
    decreases marks.len(),
{
    if marks.len() > 2 && later(time, marks[1].time) >= HISTORY {
        recent(marks.skip(1), time)
    } else {
        marks
    }
}

/// A sweep through a pose.
#[derive(Debug)]
pub struct Sweep<F> {
    /// Frames that are to count.
    pub frames: usize,
    /// Frames that did.
    pub taken: usize,
    /// The number of the last frame.
    pub last_seq: Option<u64>,
    /// When the last fresh frame came, in nanoseconds.
    pub last_fresh: u64,
    /// The marks a velocity is taken over.
    pub history: Vec<Mark<F>>,
}

/// What a sweep knows.
pub struct SweepView<F> {
    /// Frames that are to count.
    pub frames: usize,
    /// Frames that did.
    pub taken: usize,
    /// The number of the last frame.
    pub last_seq: Option<u64>,
    /// When the last fresh frame came, in nanoseconds.
    pub last_fresh: u64,
    /// The marks a velocity is taken over.
    pub history: Seq<Mark<F>>,
}

impl<F> View for Sweep<F> {
    type V = SweepView<F>;

    open spec fn view(&self) -> SweepView<F> {
        SweepView {
            frames: self.frames,
            taken: self.taken,
            last_seq: self.last_seq,
            last_fresh: self.last_fresh,
            history: self.history@,
        }
    }
}

impl<F> SweepView<F> {
    /// The sweep after a frame that came at `now`, and what the frame calls
    /// for.
    pub open spec fn after(self, s: StatusFrame<F>, now: u64) -> (SweepView<F>, FrameStep<F>) {
        if self.last_seq matches Some(seq) && s.seq <= seq {
            (self, FrameStep::Skip)
        } else {
            let seen = SweepView {
                last_seq: Some(s.seq),
                last_fresh: if s.age_ms <= FRESH_MS {
                    now
                } else {
                    self.last_fresh
                },
                ..self
            };
            if !s.ready {
                (seen, FrameStep::Fail(SweepError::NotReady))
            } else if !s.finite {
                (seen, FrameStep::Fail(SweepError::NotFinite))
            } else if s.age_ms > FRESH_MS || !s.streaming || !s.ramped {
                (seen, FrameStep::Skip)
            } else {
                let history = recent(
                    self.history.push(Mark { time: s.time, angles: s.angles }),
                    s.time,
                );
                let span = later(s.time, history[0].time);
                (
                    SweepView { history, ..seen },
                    if span < SHORTEST_SPAN {
                        FrameStep::Skip
                    } else {
                        FrameStep::Compare { then: history[0].angles, span: span as u64 }
                    },
                )
            }
        }
    }
}

/// Trimming keeps the newest marks.
proof fn lemma_recent<F>(marks: Seq<Mark<F>>, time: u64)
    requires
        marks.len() > 0,
    ensures
        0 < recent(marks, time).len() <= marks.len(),
        recent(marks, time).last() == marks.last(),
        recent(marks, time).len() <= 2 || later(time, recent(marks, time)[1].time) < HISTORY,
    decreases marks.len(),
{
    if marks.len() > 2 && later(time, marks[1].time) >= HISTORY {
        lemma_recent(marks.skip(1), time);
    }
}

impl<F: Copy> Sweep<F> {
    /// Begin at `now`.
    pub fn new(frames: usize, now: u64) -> (r: Sweep<F>)
        ensures
            r@ == (SweepView {
                frames,
                taken: 0,
                last_seq: None,
                last_fresh: now,
                history: Seq::<Mark<F>>::empty(),
            }),
    {
        Sweep { frames, taken: 0, last_seq: None, last_fresh: now, history: Vec::new() }
    }

    /// Take a frame that came at `now`.
    pub fn frame(&mut self, s: &StatusFrame<F>, now: u64) -> (r: FrameStep<F>)
        ensures
            (final(self)@, r) == old(self)@.after(*s, now),
    {
        if let Some(seq) = self.last_seq {
            if s.seq <= seq {
                return FrameStep::Skip;
            }
        }
        self.last_seq = Some(s.seq);
        if s.age_ms <= FRESH_MS {
            self.last_fresh = now;
        }
        if !s.ready {
            return FrameStep::Fail(SweepError::NotReady);
        }
        if !s.finite {
            return FrameStep::Fail(SweepError::NotFinite);
        }
        if s.age_ms > FRESH_MS || !s.streaming || !s.ramped {
            return FrameStep::Skip;
        }
        self.history.push(Mark { time: s.time, angles: s.angles });
        let ghost pushed = self.history@;
        proof {
            lemma_recent(pushed, s.time);
        }
        while self.history.len() > 2 && s.time >= self.history[1].time && s.time
            - self.history[1].time >= HISTORY
            invariant
                recent(pushed, s.time) == recent(self.history@, s.time),
                self.history@.len() > 0,
                self.frames == old(self).frames,
                self.taken == old(self).taken,
                self.last_seq == Some(s.seq),
                self.last_fresh == now,
            decreases self.history@.len(),
        {
            let ghost before = self.history@;
            let _ = self.history.remove(0);
            assert(self.history@ =~= before.skip(1));
        }
        let first = self.history[0];
        let span: u64 = if s.time >= first.time {
            s.time - first.time
        } else {
            0
        };
        if span < SHORTEST_SPAN {
            FrameStep::Skip
        } else {
            FrameStep::Compare { then: first.angles, span }
        }
    }

    /// Take whether a frame that was compared counts; the result is whether
    /// enough have.
    pub fn compared(&mut self, usable: bool) -> (r: bool)
        requires
            old(self)@.taken < old(self)@.frames,
        ensures
            final(self)@ == (SweepView {
                taken: if usable {
                    (old(self)@.taken + 1) as usize
                } else {
                    old(self)@.taken
                },
                ..old(self)@
            }),
            r == (final(self)@.taken == old(self)@.frames),
    {
        if usable {
            self.taken = self.taken + 1;
        }
        self.taken == self.frames
    }

    /// What the next command of the sweep finds at `now`: status may have
    /// stopped, or the arm be past the pose (`crossed`).
    pub fn beat(&self, now: u64, crossed: bool) -> (r: Result<(), SweepError>)
        ensures
            r == (if later(now, self@.last_fresh) > STATUS_TIMEOUT {
                Err::<(), SweepError>(SweepError::Silent)
            } else if crossed {
                Err(SweepError::TooFew { taken: self@.taken, frames: self@.frames })
            } else {
                Ok(())
            }),
    {
        let silent: u64 = if now >= self.last_fresh {
            now - self.last_fresh
        } else {
            0
        };
        if silent > STATUS_TIMEOUT {
            Err(SweepError::Silent)
        } else if crossed {
            Err(SweepError::TooFew { taken: self.taken, frames: self.frames })
        } else {
            Ok(())
        }
    }
}

/// A velocity is taken over a span that is long enough, of a frame that is
/// fresh, finite, and measured while the arm is ready and streaming.
pub proof fn law_only_good_frames_are_compared<F>(
    sweep: SweepView<F>,
    s: StatusFrame<F>,
    now: u64,
    then: F,
    span: u64,
)
    requires
        sweep.after(s, now).1 == (FrameStep::Compare { then, span }),
    ensures
        span >= SHORTEST_SPAN,
        s.ready && s.finite && s.streaming && s.ramped,
        s.age_ms <= FRESH_MS,
        sweep.last_seq matches Some(seq) ==> s.seq > seq,
{
    let history = sweep.history.push(Mark { time: s.time, angles: s.angles });
    lemma_recent(history, s.time);
}

/// What a run came to once the completion policy was restored.
pub fn policy_restored<T>(result: Result<T, String>, restored: Result<(), String>) -> (r: Result<
    T,
    String,
>)
    ensures
        match restored {
            Ok(_) => r == result,
            Err(e) => r matches Err(f) && f@ == "restoring the completion policy: "@ + e@,
        },
{
    match restored {
        Ok(()) => result,
        Err(e) => Err(joined("restoring the completion policy: ", e.as_str())),
    }
}

/// What an identification came to.
#[derive(Clone, Copy, Debug, PartialEq, Eq, Structural)]
pub struct Finding {
    /// Whether the poses fixed the mass, not the regularisation.
    pub measured: bool,
    /// Whether the mass is finite and positive.
    pub possible: bool,
}

/// Whether what was found is declared to the runtime; an impossible or
/// unmeasured mass is not. The quantities are already rendered.
pub fn conclude(declare: bool, found: Finding, determined: &str, mass: &str) -> (r: Result<
    bool,
    String,
>)
    ensures
        match r {
            Ok(d) => d == declare && (declare ==> found.measured && found.possible),
            Err(e) => declare && (if !found.measured {
                e@ == "the poses did not measure the mass (determined "@ + determined@
                    + "); give the wrist more room or a wider spread"@
            } else {
                !found.possible && e@ == "refusing to declare a mass of "@ + mass@ + " kg"@
            }),
        },
{
    if !declare {
        return Ok(false);
    }
    if !found.measured {
        let mut out: String = "the poses did not measure the mass (determined ".to_owned();
        out.append(determined);
        out.append("); give the wrist more room or a wider spread");
        return Err(out);
    }
    if !found.possible {
        let mut out: String = "refusing to declare a mass of ".to_owned();
        out.append(mass);
        out.append(" kg");
        return Err(out);
    }
    Ok(true)
}

/// How a declaration was answered.
pub fn declared(answer: StopAnswer) -> (r: Result<(), String>)
    ensures
        match answer {
            StopAnswer::Confirmed => r is Ok,
            StopAnswer::Unconfirmed => r matches Err(e) && e@
                == "set_payload was not acknowledged"@,
            StopAnswer::Failed(why) => r matches Err(e) && e@ == "set_payload: "@ + why@,
        },
{
    match answer {
        StopAnswer::Confirmed => Ok(()),
        StopAnswer::Unconfirmed => Err("set_payload was not acknowledged".to_owned()),
        StopAnswer::Failed(why) => Err(joined("set_payload: ", why.as_str())),
    }
}

/// What an estimate came to once it was declared. A declaration that fails is
/// followed by one of what was declared before, and `restored` is what that
/// came to.
pub fn estimated<T>(report: T, declared: Result<(), String>, restored: Result<(), String>) -> (r:
    Result<T, String>)
    ensures
        match declared {
            Ok(_) => r == Ok::<T, String>(report),
            Err(e) => match restored {
                Ok(_) => r matches Err(f) && f@ == e@,
                Err(g) => r matches Err(f) && f@ == e@ + "; restoring payload: "@ + g@,
            },
        },
{
    match declared {
        Ok(()) => Ok(report),
        Err(e) => match restored {
            Ok(()) => Err(e),
            Err(g) => {
                let mut out: String = e;
                out.append("; restoring payload: ");
                out.append(g.as_str());
                Err(out)
            },
        },
    }
}

/// What a frame does. One that is not newer than the last changes nothing. Any other is
/// remembered, and counts as fresh now if it is at most a hundred milliseconds old. A
/// run that is not ready fails, then one whose angles are no numbers; a frame that is
/// old, not streamed or not up to speed is passed over; and one that is good joins the
/// history, which keeps what is needed to look a tenth of a second back, and is held
/// against the oldest that is kept once that is eighty milliseconds or more ago.
pub proof fn law_what_a_frame_does<F>(sweep: SweepView<F>, s: StatusFrame<F>, now: u64)
    ensures
        ({
            let (next, step) = sweep.after(s, now);
            let old = sweep.last_seq matches Some(seq) && s.seq <= seq;
            let good = s.ready && s.finite && s.age_ms <= 100 && s.streaming && s.ramped;
            let history = sweep.history.push(Mark { time: s.time, angles: s.angles });
            &&& old ==> next == sweep && step is Skip
            &&& !old ==> {
                &&& next.last_seq == Some(s.seq)
                &&& next.last_fresh == (if s.age_ms <= 100 {
                    now
                } else {
                    sweep.last_fresh
                })
                &&& next.frames == sweep.frames && next.taken == sweep.taken
                &&& !s.ready ==> step == FrameStep::<F>::Fail(SweepError::NotReady)
                &&& s.ready && !s.finite ==> step == FrameStep::<F>::Fail(SweepError::NotFinite)
                &&& s.ready && s.finite && !good ==> step is Skip
                &&& !good ==> next.history == sweep.history
            }
            &&& !old && good ==> {
                let first = next.history[0];
                let span = if s.time >= first.time {
                    s.time - first.time
                } else {
                    0
                };
                &&& is_kept(history, s.time, next.history)
                &&& span >= 80_000_000 ==> step == (FrameStep::Compare {
                    then: first.angles,
                    span: span as u64,
                })
                &&& span < 80_000_000 ==> step is Skip
            }
        }),
{
    let history = sweep.history.push(Mark { time: s.time, angles: s.angles });
    lemma_kept(history, s.time);
}

/// Whether the first `k` of some marks are let go: each of them while there are more
/// than two and the second is a tenth of a second old, and no more than that.
pub open spec fn lets_go<F>(marks: Seq<Mark<F>>, time: u64, k: int) -> bool {
    &&& 0 <= k < marks.len()
    &&& marks.len() - k <= 2 || time < marks[k + 1].time || time - marks[k + 1].time < 100_000_000
    &&& forall|i: int|
        0 <= i < k ==> marks.len() - i > 2 && time >= (#[trigger] marks[i + 1]).time && time
            - marks[i + 1].time >= 100_000_000
}

/// Whether `kept` is what is kept of some marks.
pub open spec fn is_kept<F>(marks: Seq<Mark<F>>, time: u64, kept: Seq<Mark<F>>) -> bool {
    exists|k: int| #[trigger] lets_go(marks, time, k) && kept == marks.skip(k)
}

proof fn lemma_kept<F>(marks: Seq<Mark<F>>, time: u64)
    requires
        marks.len() > 0,
    ensures
        is_kept(marks, time, recent(marks, time)),
    decreases marks.len(),
{
    if marks.len() > 2 && later(time, marks[1].time) >= HISTORY {
        let rest = marks.skip(1);
        lemma_kept(rest, time);
        let kept = recent(rest, time);
        let k = choose|k: int| #[trigger] lets_go(rest, time, k) && kept == rest.skip(k);
        assert(marks.skip(k + 1) =~= rest.skip(k));
        assert forall|i: int| 0 <= i < k + 1 implies marks.len() - i > 2 && time >= (
        #[trigger] marks[i + 1]).time && time - marks[i + 1].time >= 100_000_000 by {
            if i > 0 {
                assert(rest[(i - 1) + 1] == marks[i + 1]);
            }
        }
        if marks.len() - (k + 1) > 2 {
            assert(rest[k + 1] == marks[k + 2]);
        }
        assert(lets_go(marks, time, k + 1));
    } else {
        assert(marks.skip(0) =~= marks);
        assert(lets_go(marks, time, 0));
    }
}

/// The poses of a run are the candidates that are usable, all of them and in order.
pub proof fn law_the_usable_poses_are_taken_in_order<C>(
    candidates: Seq<C>,
    usable: Seq<bool>,
    next: C,
)
    requires
        candidates.len() == usable.len(),
    ensures
        usable_of(Seq::<C>::empty(), Seq::empty()).len() == 0,
        usable_of(candidates.push(next), usable.push(true)) == usable_of(candidates, usable).push(
            next,
        ),
        usable_of(candidates.push(next), usable.push(false)) == usable_of(candidates, usable),
{
    assert(candidates.push(next).drop_last() =~= candidates);
    assert(usable.push(true).drop_last() =~= usable);
    assert(usable.push(false).drop_last() =~= usable);
}

/// A pose may be measured at exactly if it and both its approaches are inside and clear.
pub proof fn law_a_pose_needs_both_its_approaches(pose: Passed, up: Passed, down: Passed)
    ensures
        may_measure(seq![pose, up, down]) <==> pose.inside && pose.clear && up.inside && up.clear
            && down.inside && down.clear,
        !may_measure(seq![pose, up]),
        !may_measure(seq![pose]),
        !may_measure(Seq::empty()),
{
    let all = seq![pose, up, down];
    if all_passed(all) {
        assert(all[0].inside && all[0].clear);
        assert(all[1].inside && all[1].clear);
        assert(all[2].inside && all[2].clear);
    }
}

/// A run can be made exactly if it can be measured at all, takes two frames or more, has a
/// pose to go to, and gives each pose more time than it settles.
pub proof fn law_what_makes_a_run_usable<F: Copy>(protocol: Protocol<F>, measurable: bool, poses: nat)
    ensures
        protocol.usable(measurable, poses) ==> measurable && poses >= 1 && protocol.frames > 1
            && protocol.pose_timeout > protocol.settle,
        measurable && poses >= 1 && protocol.frames > 1 && protocol.pose_timeout > protocol.settle
            ==> protocol.usable(measurable, poses),
{
}

/// The poses that are tried are the one the arm is in and each of the three wrist joints,
/// from the fourth on, swung up and then down.
pub proof fn law_each_wrist_joint_is_swung_both_ways(i: int)
    requires
        0 <= i < 3,
    ensures
        swings_tried().len() == 7,
        swings_tried()[0] == Swing::Start,
        swings_tried()[1 + 2 * i] == Swing::Up((3 + i) as usize),
        swings_tried()[2 + 2 * i] == Swing::Down((3 + i) as usize),
{
}

/// A stop that is confirmed has no fault, and a move that completed has none; every other
/// answer has one, which names the move where it has a number and tells why it failed.
pub proof fn law_only_what_worked_has_no_fault(stop: StopAnswer, step: MoveAnswer, e: String)
    ensures
        stop_fault(stop) is None <==> stop is Confirmed,
        stop is Unconfirmed ==> stop_fault(stop) == Some("controller stop was not acknowledged"@),
        stop == StopAnswer::Failed(e) ==> stop_fault(stop) == Some("controller stop failed: "@ + e@),
        move_fault(step) is None <==> step is Complete,
        step == MoveAnswer::Refused(e) ==> move_fault(step) == Some("move_j: "@ + e@),
        step is Unconfirmed ==> move_fault(step) == Some("move_j went unconfirmed"@),
        step matches MoveAnswer::Late { index } ==> move_fault(step) == Some(
            "move_j "@ + decimal_text(index as nat) + " did not complete in time"@,
        ),
        step matches MoveAnswer::Failed { index, why } ==> move_fault(step) == Some(
            "move_j "@ + decimal_text(index as nat) + ": "@ + why@,
        ),
{
}

/// Why a sweep failed is told in words of its own, with the samples it took where they were
/// too few and with what the arm reports where it was not ready.
pub proof fn law_a_failed_sweep_tells_why(error: SweepError, report: Seq<char>)
    ensures
        error is Late ==> error.words(report) == "moving gravity sample exceeded its time budget"@,
        error is Silent ==> error.words(report) == "status stopped during gravity sweep"@,
        error is Closed ==> error.words(report) == "status closed during gravity sweep"@,
        error is NotReady ==> error.words(report) == "gravity sweep lost readiness: "@ + report,
        error is NotFinite ==> error.words(report) == "non-finite gravity sweep feedback"@,
        error matches SweepError::TooFew { taken, frames } ==> error.words(report)
            == "insufficient moving samples through pose: "@ + decimal_text(taken as nat) + "/"@
            + decimal_text(frames as nat),
{
}

} // verus!
