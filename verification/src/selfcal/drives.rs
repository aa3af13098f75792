//! The drives on the bus: when one has failed, when one has merely gone quiet,
//! and how long a quiet one is waited for.
//!
//! A drive answers the bus from its main loop while its current loop runs in an
//! interrupt, so silence alone does not say that the motor is out of control.
//! Silence is waited out; only a drive that reports a fault, or never comes
//! back, ends a run.
use crate::text::{decimal, decimal_text, joined, joint_label, joint_name};
use vstd::prelude::*;

verus! {

/// Waiting out one silent drive is normal; a run that does nothing else has a
/// bus that no amount of waiting will mend.
pub const MAX_RECOVERIES: u32 = 24;

/// A drive's error register.
#[derive(Clone, Copy, Debug, PartialEq, Eq, Structural)]
pub struct ErrorFlags {
    /// Some error.
    pub error: bool,
    /// Over temperature.
    pub temperature: bool,
    /// Encoder fault.
    pub encoder: bool,
    /// Supply voltage fault.
    pub vbus: bool,
    /// Gate driver fault.
    pub driver: bool,
    /// Over speed.
    pub velocity: bool,
    /// Over current.
    pub current: bool,
    /// E-stop engaged.
    pub estop: bool,
    /// Watchdog expired.
    pub watchdog: bool,
    /// The drive is calibrated: a status, not a fault.
    pub calibrated: bool,
    /// The drive is activated: a status, not a fault.
    pub activated: bool,
}

impl ErrorFlags {
    /// Whether the register names a fault.
    pub open spec fn faulty(self) -> bool {
        self.error || self.temperature || self.encoder || self.vbus || self.driver
            || self.velocity || self.current || self.estop || self.watchdog
    }
}

/// Whether a drive's error register names an actual fault. That the drive is
/// calibrated or activated is a status and not a fault.
pub fn reported_fault(flags: &ErrorFlags) -> (r: bool)
    ensures
        r == flags.faulty(),
{
    flags.error || flags.temperature || flags.encoder || flags.vbus || flags.driver
        || flags.velocity || flags.current || flags.estop || flags.watchdog
}

/// What the last tick showed of a drive.
#[derive(Clone, Copy, Debug, PartialEq, Eq, Structural)]
pub struct Drive {
    /// Its error register, once it has been read.
    pub flags: Option<ErrorFlags>,
    /// The error bit of its last frame.
    pub live_error_bit: bool,
    /// The tick its last fresh position was seen at.
    pub seen: u64,
    /// The count of its position reports.
    pub generation: u64,
}

impl Drive {
    /// Whether the drive reports a fault.
    pub open spec fn faulted(self) -> bool {
        self.flags matches Some(f) && f.faulty()
    }

    /// Whether the drive has given no fresh position for longer than `timeout`
    /// ticks.
    pub open spec fn stale(self, tick: u64, timeout: u64) -> bool {
        self.seen < tick && tick - self.seen > timeout
    }

    /// Whether the drive counts as silent.
    pub open spec fn silent(self, tick: u64, timeout: u64) -> bool {
        self.live_error_bit || self.stale(tick, timeout)
    }

    /// Whether the drive reports a fault.
    pub fn has_fault(&self) -> (r: bool)
        ensures
            r == self.faulted(),
    {
        match &self.flags {
            Some(f) => reported_fault(f),
            None => false,
        }
    }

    /// Whether the drive's position is fresh enough.
    pub fn fresh(&self, tick: u64, timeout: u64) -> (r: bool)
        ensures
            r == !self.stale(tick, timeout),
    {
        tick.saturating_sub(self.seen) <= timeout
    }
}

/// What the drives amount to.
#[derive(Clone, Copy, Debug, PartialEq, Eq, Structural)]
pub enum Judgement {
    /// Every watched drive answers.
    Healthy,
    /// A watched drive reports a fault.
    Faulted {
        /// The first such joint.
        joint: usize,
    },
    /// No watched drive reports a fault, but one has gone quiet.
    Silent {
        /// The first such joint.
        joint: usize,
    },
}

/// Whether a joint is watched: all of them, or only the one.
pub open spec fn watched(only: Option<usize>, j: int) -> bool {
    match only {
        Some(w) => w == j,
        None => true,
    }
}

/// Whether `j` is the first watched joint with a fault.
pub open spec fn first_fault(drives: Seq<Drive>, only: Option<usize>, j: int) -> bool {
    &&& 0 <= j < drives.len()
    &&& watched(only, j) && drives[j].faulted()
    &&& forall|k: int| 0 <= k < j && watched(only, k) ==> !(#[trigger] drives[k]).faulted()
}

/// Whether `j` is the first watched joint that is silent.
pub open spec fn first_silent(
    drives: Seq<Drive>,
    only: Option<usize>,
    tick: u64,
    timeout: u64,
    j: int,
) -> bool {
    &&& 0 <= j < drives.len()
    &&& watched(only, j) && drives[j].silent(tick, timeout)
    &&& forall|k: int|
        0 <= k < j && watched(only, k) ==> !(#[trigger] drives[k]).silent(tick, timeout)
}

/// The first watched joint with a fault, from `j` on.
pub open spec fn fault_from(drives: Seq<Drive>, only: Option<usize>, j: int) -> Option<int>
    decreases drives.len() - j,
{
    if j >= drives.len() {
        None
    } else if watched(only, j) && drives[j].faulted() {
        Some(j)
    } else {
        fault_from(drives, only, j + 1)
    }
}

/// The first watched joint that is silent, from `j` on.
pub open spec fn silent_from(
    drives: Seq<Drive>,
    only: Option<usize>,
    tick: u64,
    timeout: u64,
    j: int,
) -> Option<int>
    decreases drives.len() - j,
{
    if j >= drives.len() {
        None
    } else if watched(only, j) && drives[j].silent(tick, timeout) {
        Some(j)
    } else {
        silent_from(drives, only, tick, timeout, j + 1)
    }
}

/// What the drives amount to.
pub open spec fn judgement(drives: Seq<Drive>, only: Option<usize>, tick: u64, timeout: u64) -> Judgement {
    match fault_from(drives, only, 0) {
        Some(j) => Judgement::Faulted { joint: j as usize },
        None => match silent_from(drives, only, tick, timeout, 0) {
            Some(j) => Judgement::Silent { joint: j as usize },
            None => Judgement::Healthy,
        },
    }
}

/// Judge the drives on what the last tick showed. A fault outranks silence, and
/// of several joints the first is named. With `only` set, a joint whose
/// feedback went stale does not veto another joint's motion.
pub fn judge(drives: &[Drive], only: Option<usize>, tick: u64, timeout: u64) -> (r: Judgement)
    ensures
        r == judgement(drives@, only, tick, timeout),
        r matches Judgement::Faulted { joint } ==> first_fault(drives@, only, joint as int),
        r matches Judgement::Silent { joint } ==> first_silent(
            drives@,
            only,
            tick,
            timeout,
            joint as int,
        ),
        r is Faulted <==> exists|j: int|
            0 <= j < drives@.len() && watched(only, j) && (#[trigger] drives@[j]).faulted(),
        !(r is Faulted) ==> (r is Silent <==> exists|j: int|
            0 <= j < drives@.len() && watched(only, j) && (#[trigger] drives@[j]).silent(
                tick,
                timeout,
            )),
{
    let mut silent: Option<usize> = None;
    let mut j: usize = 0;
    while j < drives.len()
        invariant
            j <= drives@.len(),
            fault_from(drives@, only, 0) == fault_from(drives@, only, j as int),
            silent_from(drives@, only, tick, timeout, 0) == (match silent {
                Some(s) => Some(s as int),
                None => silent_from(drives@, only, tick, timeout, j as int),
            }),
            forall|k: int|
                0 <= k < j && watched(only, k) ==> !(#[trigger] drives@[k]).faulted(),
            silent is None ==> forall|k: int|
                0 <= k < j && watched(only, k) ==> !(#[trigger] drives@[k]).silent(tick, timeout),
            silent matches Some(s) ==> s < j && first_silent(
                drives@,
                only,
                tick,
                timeout,
                s as int,
            ),
        decreases drives@.len() - j,
    {
        let skip = match only {
            Some(w) => w != j,
            None => false,
        };
        if !skip {
            let drive = drives[j];
            if drive.has_fault() {
                return Judgement::Faulted { joint: j };
            }
            if silent.is_none() && (drive.live_error_bit || !drive.fresh(tick, timeout)) {
                silent = Some(j);
            }
        }
        j += 1;
    }
    match silent {
        Some(joint) => Judgement::Silent { joint },
        None => Judgement::Healthy,
    }
}

/// Whether every watched drive is fresh.
pub fn answering(drives: &[Drive], only: Option<usize>, tick: u64, timeout: u64) -> (r: bool)
    ensures
        r == all_fresh(drives@, only, tick, timeout),
{
    let mut j: usize = 0;
    while j < drives.len()
        invariant
            j <= drives@.len(),
            forall|k: int|
                0 <= k < j && watched(only, k) ==> !(#[trigger] drives@[k]).stale(tick, timeout),
        decreases drives@.len() - j,
    {
        let skip = match only {
            Some(w) => w != j,
            None => false,
        };
        if !skip && !drives[j].fresh(tick, timeout) {
            assert(drives@[j as int].stale(tick, timeout));
            return false;
        }
        j += 1;
    }
    true
}

/// The drives with the position counts of a tick: a drive whose count moved was
/// seen now.
pub open spec fn refreshed(drives: Seq<Drive>, counts: Seq<u64>, tick: u64) -> Seq<Drive> {
    Seq::new(
        drives.len(),
        |j: int|
            Drive {
                generation: counts[j],
                seen: if counts[j] != drives[j].generation {
                    tick
                } else {
                    drives[j].seen
                },
                ..drives[j]
            },
    )
}

/// Take the position counts of a tick: a drive whose count moved was seen now.
pub fn refresh(drives: &mut Vec<Drive>, counts: &[u64], tick: u64)
    requires
        old(drives)@.len() == counts@.len(),
    ensures
        final(drives)@ == refreshed(old(drives)@, counts@, tick),
{
    let ghost before = drives@;
    let mut j: usize = 0;
    while j < counts.len()
        invariant
            j <= counts@.len(),
            before.len() == counts@.len(),
            before == old(drives)@,
            drives@.len() == before.len(),
            forall|k: int| j <= k < before.len() ==> #[trigger] drives@[k] == before[k],
            forall|k: int|
                0 <= k < j ==> #[trigger] drives@[k] == (Drive {
                    generation: counts@[k],
                    seen: if counts@[k] != before[k].generation {
                        tick
                    } else {
                        before[k].seen
                    },
                    ..before[k]
                }),
        decreases counts@.len() - j,
    {
        let mut d = drives[j];
        if counts[j] != d.generation {
            d.generation = counts[j];
            d.seen = tick;
        }
        drives[j] = d;
        j += 1;
    }
    assert(drives@ =~= refreshed(before, counts@, tick));
}

/// What a control tick begins with.
#[derive(Clone, Copy, Debug, PartialEq, Eq, Structural)]
pub enum TickPlan {
    /// The run was cancelled.
    Cancelled,
    /// A drive reports a fault: the run ends.
    Faulted {
        /// The joint.
        joint: usize,
    },
    /// A drive has gone quiet: wait for it, then go on with the tick.
    Recover {
        /// The joint.
        joint: usize,
    },
    /// Pace, drain and send.
    Proceed,
}

/// How a control tick begins.
pub open spec fn planned(
    drives: Seq<Drive>,
    only: Option<usize>,
    tick: u64,
    timeout: u64,
    cancelled: bool,
    stopping: bool,
    check: bool,
    blind: bool,
) -> TickPlan {
    if cancelled && !stopping {
        TickPlan::Cancelled
    } else if check && !blind {
        match judgement(drives, only, tick, timeout) {
            Judgement::Faulted { joint } => TickPlan::Faulted { joint },
            Judgement::Silent { joint } => TickPlan::Recover { joint },
            Judgement::Healthy => TickPlan::Proceed,
        }
    } else {
        TickPlan::Proceed
    }
}

/// Decide how a control tick begins. A cancelled run stops unless it is
/// stopping already; the drives are judged on what the last tick showed, unless
/// the tick is not checked or feedback is not required.
pub fn plan_tick(
    drives: &[Drive],
    only: Option<usize>,
    tick: u64,
    timeout: u64,
    cancelled: bool,
    stopping: bool,
    check: bool,
    blind: bool,
) -> (r: TickPlan)
    ensures
        r == planned(drives@, only, tick, timeout, cancelled, stopping, check, blind),
        r is Cancelled <==> cancelled && !stopping,
        r matches TickPlan::Faulted { joint } ==> first_fault(drives@, only, joint as int),
        r matches TickPlan::Recover { joint } ==> first_silent(
            drives@,
            only,
            tick,
            timeout,
            joint as int,
        ),
        r is Faulted <==> !(cancelled && !stopping) && check && !blind && exists|j: int|
            0 <= j < drives@.len() && watched(only, j) && (#[trigger] drives@[j]).faulted(),
        r is Recover <==> {
            &&& !(cancelled && !stopping) && check && !blind
            &&& forall|j: int|
                0 <= j < drives@.len() && watched(only, j) ==> !(#[trigger] drives@[j]).faulted()
            &&& exists|j: int|
                0 <= j < drives@.len() && watched(only, j) && (#[trigger] drives@[j]).silent(
                    tick,
                    timeout,
                )
        },
{
    if !stopping && cancelled {
        return TickPlan::Cancelled;
    }
    if check && !blind {
        match judge(drives, only, tick, timeout) {
            Judgement::Faulted { joint } => {
                return TickPlan::Faulted { joint };
            },
            Judgement::Silent { joint } => {
                return TickPlan::Recover { joint };
            },
            Judgement::Healthy => {},
        }
    }
    TickPlan::Proceed
}

/// When a tick of the control loop starts and when the next one is due.
#[derive(Clone, Copy, Debug, PartialEq, Eq, Structural)]
pub struct Paced {
    /// When this tick starts, in nanoseconds.
    pub start: u64,
    /// When the next one is due.
    pub next: u64,
}

/// Pace the control loop. `deadline` is when this tick is due, zero before the
/// first; a checked tick that is later than `late` has missed its deadline.
pub fn pace(deadline: u64, now: u64, check: bool, late: u64, period: u64) -> (r: Option<Paced>)
    requires
        deadline + late <= u64::MAX,
        now + late <= u64::MAX,
        deadline + period <= u64::MAX,
        now + period <= u64::MAX,
    ensures
        ({
            let due = if deadline == 0 {
                now
            } else {
                deadline
            };
            &&& r is None <==> check && now > due + late
            &&& r matches Some(p) ==> p.start == due && p.next == due + period
        }),
{
    let due: u64 = if deadline == 0 {
        now
    } else {
        deadline
    };
    if check && now > due + late {
        return None;
    }
    Some(Paced { start: due, next: due + period })
}

/// A drive being waited for.
#[derive(Clone, Copy, Debug, PartialEq, Eq, Structural)]
pub struct Recovery {
    /// The joint that went quiet.
    pub joint: usize,
    /// The tick the wait began at.
    pub started: u64,
    /// Ticks it may still take.
    pub left: u64,
    /// Whether feedback was required before the wait: what to go back to.
    pub blind_before: bool,
}

/// How a wait stands after a tick.
#[derive(Clone, Copy, Debug, PartialEq, Eq, Structural)]
pub enum RecoveryStep {
    /// Hold for another tick.
    Hold,
    /// The drive is back after this many ticks.
    Answered {
        /// Ticks of silence.
        silent: u64,
    },
    /// The drive reports a fault.
    Faulted,
    /// The drive did not come back in this many ticks.
    Lost {
        /// Ticks of silence.
        silent: u64,
    },
}

/// Begin to wait for a drive; `recoveries` counts the waits of the run. Past
/// the most that a healthy bus needs, the run ends instead.
pub fn begin_recovery(
    recoveries: &mut u32,
    joint: usize,
    tick: u64,
    window: u64,
    blind: bool,
) -> (r: Result<Recovery, u32>)
    requires
        *old(recoveries) < u32::MAX,
    ensures
        *final(recoveries) == *old(recoveries) + 1,
        *old(recoveries) < MAX_RECOVERIES ==> r == Ok::<Recovery, u32>(
            Recovery { joint, started: tick, left: window, blind_before: blind },
        ),
        *old(recoveries) >= MAX_RECOVERIES ==> r == Err::<Recovery, u32>(*final(recoveries)),
{
    *recoveries = *recoveries + 1;
    if *recoveries > MAX_RECOVERIES {
        return Err(*recoveries);
    }
    Ok(Recovery { joint, started: tick, left: window, blind_before: blind })
}

/// Ticks from `started` to `tick`.
pub open spec fn ticks_since(started: u64, tick: u64) -> u64 {
    if tick >= started {
        (tick - started) as u64
    } else {
        0
    }
}

/// Whether every watched drive is fresh.
pub open spec fn all_fresh(drives: Seq<Drive>, only: Option<usize>, tick: u64, timeout: u64) -> bool {
    forall|k: int|
        0 <= k < drives.len() && watched(only, k) ==> !(#[trigger] drives[k]).stale(tick, timeout)
}

impl Recovery {
    /// How the wait stands after a held tick that showed `drives`.
    pub open spec fn step_after(
        self,
        drives: Seq<Drive>,
        only: Option<usize>,
        tick: u64,
        timeout: u64,
    ) -> RecoveryStep {
        let drive = drives[self.joint as int];
        if drive.faulted() {
            RecoveryStep::Faulted
        } else if !drive.live_error_bit && all_fresh(drives, only, tick, timeout) {
            RecoveryStep::Answered { silent: ticks_since(self.started, tick) }
        } else if self.left == 1 {
            RecoveryStep::Lost { silent: ticks_since(self.started, tick) }
        } else {
            RecoveryStep::Hold
        }
    }

    /// How the wait stands, before a tick is held at all.
    pub fn opened(&self, tick: u64) -> (r: RecoveryStep)
        ensures
            r == (if self.left == 0 {
                RecoveryStep::Lost { silent: ticks_since(self.started, tick) }
            } else {
                RecoveryStep::Hold
            }),
    {
        if self.left == 0 {
            RecoveryStep::Lost { silent: tick.saturating_sub(self.started) }
        } else {
            RecoveryStep::Hold
        }
    }

    /// Take what a held tick showed. `drives` must hold the joint waited for;
    /// `only` says whose freshness counts, so that a joint that is lost for
    /// good does not keep the others from being parked.
    pub fn observe(
        &mut self,
        drives: &[Drive],
        only: Option<usize>,
        tick: u64,
        timeout: u64,
    ) -> (r: RecoveryStep)
        requires
            old(self).joint < drives@.len(),
            old(self).left > 0,
        ensures
            *final(self) == (Recovery { left: (old(self).left - 1) as u64, ..*old(self) }),
            r == old(self).step_after(drives@, only, tick, timeout),
    {
        self.left = self.left - 1;
        let drive = drives[self.joint];
        if drive.has_fault() {
            return RecoveryStep::Faulted;
        }
        if !drive.live_error_bit && answering(drives, only, tick, timeout) {
            return RecoveryStep::Answered { silent: tick.saturating_sub(self.started) };
        }
        if self.left == 0 {
            return RecoveryStep::Lost { silent: tick.saturating_sub(self.started) };
        }
        RecoveryStep::Hold
    }
}

/// What the run says of a drive that did not come back; the time is already
/// rendered.
pub fn lost_message(joint: usize, seconds: &str) -> (r: String)
    requires
        joint < u64::MAX,
    ensures
        r@ == joint_name(joint as int) + " did not come back in "@ + seconds@ + "s of silence"@,
{
    let mut out = joint_label(joint);
    out.append(" did not come back in ");
    out.append(seconds);
    out.append("s of silence");
    out
}

/// What the run says of a bus that is not healthy.
pub fn unhealthy_message(recoveries: u32) -> (r: String)
    ensures
        r@ == "drives stopped answering "@ + decimal_text(recoveries as nat)
            + " times in one run; the bus is not healthy"@,
{
    let mut out = joined("drives stopped answering ", decimal(recoveries as u64).as_str());
    out.append(" times in one run; the bus is not healthy");
    out
}

/// What the run says of a drive that reports a fault.
pub fn fault_message(joint: usize, flags: &str) -> (r: String)
    requires
        joint < u64::MAX,
    ensures
        r@ == joint_name(joint as int) + " reported a drive fault: "@ + flags@,
{
    let mut out = joint_label(joint);
    out.append(" reported a drive fault: ");
    out.append(flags);
    out
}

/// Whether every joint has given a position.
pub fn all_positioned(drives: &[Drive]) -> (r: bool)
    ensures
        r == forall|j: int| 0 <= j < drives@.len() ==> (#[trigger] drives@[j]).generation != 0,
{
    let mut j: usize = 0;
    while j < drives.len()
        invariant
            j <= drives@.len(),
            forall|k: int| 0 <= k < j ==> (#[trigger] drives@[k]).generation != 0,
        decreases drives@.len() - j,
    {
        if drives[j].generation == 0 {
            return false;
        }
        j += 1;
    }
    true
}

/// What the bus and the configuration say of the fitted tool.
#[derive(Clone, Copy, Debug, PartialEq, Eq, Structural)]
pub enum ToolCheck {
    /// They agree.
    Agrees,
    /// A driven tool is configured and no driver answered.
    NotFitted,
    /// A passive tool is configured and a driver answered.
    NotDeclared,
}

/// Whether the bus agrees with the configuration about what is on the flange.
pub fn check_tool(declared: bool, found: bool) -> (r: ToolCheck)
    ensures
        r is Agrees <==> declared == found,
        r is NotFitted <==> declared && !found,
        r is NotDeclared <==> !declared && found,
{
    if declared == found {
        ToolCheck::Agrees
    } else if declared {
        ToolCheck::NotFitted
    } else {
        ToolCheck::NotDeclared
    }
}

/// A drive that goes quiet and returns does not end a run: in the tick in which
/// every drive answers again the wait ends, with the silence it took.
pub proof fn law_a_returning_drive_does_not_end_the_run(
    recovery: Recovery,
    drives: Seq<Drive>,
    only: Option<usize>,
    tick: u64,
    timeout: u64,
)
    requires
        recovery.joint < drives.len(),
        forall|k: int|
            0 <= k < drives.len() ==> !(#[trigger] drives[k]).silent(tick, timeout)
                && !drives[k].faulted(),
    ensures
        recovery.step_after(drives, only, tick, timeout) == (RecoveryStep::Answered {
            silent: ticks_since(recovery.started, tick),
        }),
{
    assert(!drives[recovery.joint as int].silent(tick, timeout));
    assert forall|k: int| 0 <= k < drives.len() && watched(only, k) implies !(
    #[trigger] drives[k]).stale(tick, timeout) by {
        assert(!drives[k].silent(tick, timeout));
    }
}

/// During shutdown, one joint that is lost for good does not keep another from
/// being waited for: only the watched joint has to answer.
pub proof fn law_a_lost_joint_does_not_block_the_others(
    recovery: Recovery,
    drives: Seq<Drive>,
    tick: u64,
    timeout: u64,
)
    requires
        recovery.joint < drives.len(),
        !drives[recovery.joint as int].silent(tick, timeout),
        !drives[recovery.joint as int].faulted(),
    ensures
        recovery.step_after(drives, Some(recovery.joint), tick, timeout) is Answered,
{
}

/// A wait is bounded: it ends with the last of its ticks, whatever the drives
/// do.
pub proof fn law_a_wait_is_bounded(
    recovery: Recovery,
    drives: Seq<Drive>,
    only: Option<usize>,
    tick: u64,
    timeout: u64,
)
    requires
        recovery.left == 1,
    ensures
        recovery.step_after(drives, only, tick, timeout) !is Hold,
{
}

/// A joint that is not watched never vetoes a tick: only the watched joint's
/// own drive can fault it or make it wait.
pub proof fn law_only_watched_joints_veto(
    drives: Seq<Drive>,
    w: usize,
    tick: u64,
    timeout: u64,
    j: int,
)
    ensures
        first_fault(drives, Some(w), j) ==> j == w,
        first_silent(drives, Some(w), tick, timeout, j) ==> j == w,
{
}

/// A drive has a fault exactly if its register was read and names one of the nine; it is
/// stale once more ticks than the timeout have gone by since it was seen; and it is silent
/// if it is stale or its last frame had the error bit.
pub proof fn law_what_a_drive_shows(drive: Drive, f: ErrorFlags, tick: u64, timeout: u64)
    ensures
        drive.flags is None ==> !drive.faulted(),
        drive.flags == Some(f) ==> (drive.faulted() <==> !(f == (ErrorFlags {
            error: false,
            temperature: false,
            encoder: false,
            vbus: false,
            driver: false,
            velocity: false,
            current: false,
            estop: false,
            watchdog: false,
            calibrated: f.calibrated,
            activated: f.activated,
        }))),
        drive.stale(tick, timeout) <==> tick > drive.seen + timeout,
        drive.silent(tick, timeout) <==> drive.live_error_bit || tick > drive.seen + timeout,
{
}

/// A tick shows which drives gave a position: one whose count moved was seen in it, and
/// one whose count stands was not. Nothing else of a drive changes.
pub proof fn law_a_count_that_moved_was_seen(
    drives: Seq<Drive>,
    counts: Seq<u64>,
    tick: u64,
    j: int,
)
    requires
        0 <= j < drives.len(),
        counts.len() == drives.len(),
    ensures
        ({
            let next = refreshed(drives, counts, tick);
            &&& next.len() == drives.len()
            &&& next[j].generation == counts[j]
            &&& counts[j] != drives[j].generation ==> next[j].seen == tick
            &&& counts[j] == drives[j].generation ==> next[j] == drives[j]
            &&& next[j].flags == drives[j].flags
            &&& next[j].live_error_bit == drives[j].live_error_bit
        }),
{
}

/// A tick goes on exactly if the run is not cancelled, or is stopping already, and no
/// watched drive has a fault or is silent where that is looked at. A fault comes before
/// silence, and each names the first joint that has it.
pub proof fn law_how_a_tick_begins(
    drives: Seq<Drive>,
    only: Option<usize>,
    tick: u64,
    timeout: u64,
    cancelled: bool,
    stopping: bool,
    check: bool,
    blind: bool,
    j: usize,
)
    requires
        j < drives.len() <= usize::MAX,
        only is None || only == Some(j),
        forall|k: int| 0 <= k < j && only is None ==> !(#[trigger] drives[k]).faulted(),
    ensures
        ({
            let plan = planned(drives, only, tick, timeout, cancelled, stopping, check, blind);
            let looks = (stopping || !cancelled) && check && !blind;
            &&& cancelled && !stopping ==> plan == TickPlan::Cancelled
            &&& (stopping || !cancelled) && (!check || blind) ==> plan == TickPlan::Proceed
            &&& looks && drives[j as int].faulted() ==> plan == (TickPlan::Faulted { joint: j })
            &&& looks && (forall|k: int|
                0 <= k < drives.len() && (only is None || k == j) ==> !(
                #[trigger] drives[k]).faulted()) && (forall|k: int|
                0 <= k < j && only is None ==> !(#[trigger] drives[k]).silent(tick, timeout))
                && drives[j as int].silent(tick, timeout) ==> plan == (TickPlan::Recover {
                joint: j,
            })
            &&& looks && (forall|k: int|
                0 <= k < drives.len() && (only is None || k == j) ==> !(
                #[trigger] drives[k]).faulted() && !drives[k].silent(tick, timeout)) ==> plan
                == TickPlan::Proceed
        }),
{
    if drives[j as int].faulted() {
        lemma_fault_from(drives, only, 0, Some(j as int));
    }
    if forall|k: int|
        0 <= k < drives.len() && (only is None || k == j) ==> !(#[trigger] drives[k]).faulted() {
        lemma_fault_from(drives, only, 0, None);
        if (forall|k: int|
            0 <= k < j && only is None ==> !(#[trigger] drives[k]).silent(tick, timeout))
            && drives[j as int].silent(tick, timeout) {
            lemma_silent_from(drives, only, tick, timeout, 0, Some(j as int));
        }
    }
    if forall|k: int|
        0 <= k < drives.len() && (only is None || k == j) ==> !(#[trigger] drives[k]).faulted()
            && !drives[k].silent(tick, timeout) {
        lemma_fault_from(drives, only, 0, None);
        lemma_silent_from(drives, only, tick, timeout, 0, None);
    }
}

proof fn lemma_fault_from(drives: Seq<Drive>, only: Option<usize>, from: int, at: Option<int>)
    requires
        0 <= from,
        at matches Some(j) ==> from <= j && first_fault(drives, only, j),
        at is None ==> forall|k: int|
            from <= k < drives.len() && watched(only, k) ==> !(#[trigger] drives[k]).faulted(),
    ensures
        fault_from(drives, only, from) == at,
    decreases drives.len() - from,
{
    if from < drives.len() && !(watched(only, from) && drives[from].faulted()) {
        lemma_fault_from(drives, only, from + 1, at);
    }
}

proof fn lemma_silent_from(
    drives: Seq<Drive>,
    only: Option<usize>,
    tick: u64,
    timeout: u64,
    from: int,
    at: Option<int>,
)
    requires
        0 <= from,
        at matches Some(j) ==> from <= j && first_silent(drives, only, tick, timeout, j),
        at is None ==> forall|k: int|
            from <= k < drives.len() && watched(only, k) ==> !(#[trigger] drives[k]).silent(
                tick,
                timeout,
            ),
    ensures
        silent_from(drives, only, tick, timeout, from) == at,
    decreases drives.len() - from,
{
    if from < drives.len() && !(watched(only, from) && drives[from].silent(tick, timeout)) {
        lemma_silent_from(drives, only, tick, timeout, from + 1, at);
    }
}

/// What a held tick comes to: a fault of the joint waited for ends the run; it has answered
/// once it has no error bit and every watched drive is fresh; otherwise it is lost with the
/// last tick and held until that. The silence is counted from where the wait began.
pub proof fn law_how_a_wait_stands(
    recovery: Recovery,
    drives: Seq<Drive>,
    only: Option<usize>,
    tick: u64,
    timeout: u64,
)
    requires
        recovery.joint < drives.len(),
        recovery.started <= tick,
    ensures
        ({
            let own = drives[recovery.joint as int];
            let back = !own.live_error_bit && forall|k: int|
                0 <= k < drives.len() && (only is None || only == Some(k as usize) && k
                    <= usize::MAX) ==> (#[trigger] drives[k]).seen + timeout >= tick;
            let silent = (tick - recovery.started) as u64;
            recovery.step_after(drives, only, tick, timeout) == (if own.faulted() {
                RecoveryStep::Faulted
            } else if back {
                RecoveryStep::Answered { silent }
            } else if recovery.left == 1 {
                RecoveryStep::Lost { silent }
            } else {
                RecoveryStep::Hold
            })
        }),
{
    let own = drives[recovery.joint as int];
    let back = forall|k: int|
        0 <= k < drives.len() && (only is None || only == Some(k as usize) && k <= usize::MAX)
            ==> (#[trigger] drives[k]).seen + timeout >= tick;
    assert(back == all_fresh(drives, only, tick, timeout)) by {
        if back {
            assert forall|k: int| 0 <= k < drives.len() && watched(only, k) implies !(
            #[trigger] drives[k]).stale(tick, timeout) by {}
        }
        if all_fresh(drives, only, tick, timeout) {
            assert forall|k: int|
                0 <= k < drives.len() && (only is None || only == Some(k as usize) && k
                    <= usize::MAX) implies (#[trigger] drives[k]).seen + timeout >= tick by {
                assert(watched(only, k));
                assert(!drives[k].stale(tick, timeout));
            }
        }
    }
}

} // verus!
