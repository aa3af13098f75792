//! Tuning one joint's gains: the order of the stages, what one experiment
//! amounts to, and what a stage concludes from its search.
//!
//! Velocity gains come before the position gain they carry: velocity P alone,
//! velocity I with P fixed, then position P with both fixed.
use crate::selfcal::motion::{stop_direction, MotionKind, Outcome};
use crate::selfcal::search::{Band, Score, Stop, Verdict};
use vstd::prelude::*;

verus! {

/// A stage of the tuning.
#[derive(Clone, Copy, Debug, PartialEq, Eq, Structural)]
pub enum GainStage {
    /// A quiet hold before anything moves.
    StartupHold,
    /// Velocity P.
    Velocity,
    /// Velocity I.
    VelocityI,
    /// Position P.
    Position,
}

/// Which gains a stage scales.
#[derive(Clone, Copy, Debug, PartialEq, Eq, Structural)]
pub struct ScaledGains {
    /// Velocity P.
    pub kpv: bool,
    /// Velocity I.
    pub kiv: bool,
    /// Position P.
    pub kpp: bool,
}

impl GainStage {
    /// Whether the stage judges where the joint came to rest.
    pub open spec fn positional(self) -> bool {
        self == GainStage::Position || self == GainStage::StartupHold
    }

    /// The gains the stage scales.
    pub fn scales(self) -> (r: ScaledGains)
        ensures
            r.kpp == (self == GainStage::Position),
            r.kpv == (self == GainStage::Velocity || self == GainStage::StartupHold),
            r.kiv == (self == GainStage::VelocityI || self == GainStage::StartupHold),
    {
        match self {
            GainStage::Position => ScaledGains { kpv: false, kiv: false, kpp: true },
            GainStage::Velocity => ScaledGains { kpv: true, kiv: false, kpp: false },
            GainStage::VelocityI => ScaledGains { kpv: false, kiv: true, kpp: false },
            GainStage::StartupHold => ScaledGains { kpv: true, kiv: true, kpp: false },
        }
    }

    /// Where the stage's verified band is remembered; the startup hold's is
    /// not.
    pub fn memory_slot(self) -> (r: Option<usize>)
        ensures
            r == (match self {
                GainStage::Velocity => Some(0usize),
                GainStage::VelocityI => Some(1usize),
                GainStage::Position => Some(2usize),
                GainStage::StartupHold => None,
            }),
    {
        match self {
            GainStage::Velocity => Some(0),
            GainStage::VelocityI => Some(1),
            GainStage::Position => Some(2),
            GainStage::StartupHold => None,
        }
    }

    /// Score an experiment. Feasibility comes first: an experiment that is not
    /// complete or measured anything that is no number is invalid; one that
    /// strays while moving, or in a positional stage comes to rest in the wrong
    /// place, is infeasible; and only then does the quiet of the hold count.
    pub fn score(
        self,
        complete: bool,
        usable: bool,
        moving_ok: bool,
        position_ok: bool,
        quiet: bool,
    ) -> (r: Score)
        ensures
            r == (if !complete || !usable {
                Score::Invalid
            } else if !moving_ok || (self.positional() && !position_ok) {
                Score::Infeasible
            } else {
                Score::Feasible { quiet }
            }),
    {
        if !complete || !usable {
            return Score::Invalid;
        }
        let positional = self == GainStage::Position || self == GainStage::StartupHold;
        if !moving_ok || (positional && !position_ok) {
            Score::Infeasible
        } else {
            Score::Feasible { quiet }
        }
    }
}

/// Whether a joint that an experiment was not tuning failed to hold. It is
/// asked to stay where it was put, not to be quiet.
pub fn passive_hold_failed(samples: u64, usable: bool, position_ok: bool, quiet: bool) -> (r: bool)
    ensures
        r == !(samples > 0 && usable && position_ok),
{
    !GainStage::StartupHold.score(samples > 0, usable, true, position_ok, quiet).feasible()
}

/// The greater of two keys.
pub open spec fn greater(a: u64, b: u64) -> u64 {
    if a >= b {
        a
    } else {
        b
    }
}

/// The greater of two keys.
fn larger(a: u64, b: u64) -> (r: u64)
    ensures
        r == greater(a, b),
{
    if a >= b {
        a
    } else {
        b
    }
}

/// How fast a joint may be while it holds: as configured, but never less than
/// the `quantum`, the speed of one encoder count a tick, below which its encoder
/// tells nothing.
pub fn holding_limit(configured: u64, quantum: u64) -> (r: u64)
    ensures
        r == greater(configured, quantum),
        r >= quantum,
        r >= configured,
        r == configured || r == quantum,
{
    larger(configured, quantum)
}

/// How far a joint's speed may stray while it moves: as configured, but never
/// less than the `share` of the commanded speed that always ripples.
pub fn moving_limit(configured: u64, share: u64) -> (r: u64)
    ensures
        r == greater(configured, share),
        r >= share,
        r >= configured,
        r == configured || r == share,
{
    larger(configured, share)
}

/// What was measured on one or more legs of an experiment, as ordered keys.
#[derive(Clone, Copy, Debug, PartialEq, Eq, Structural)]
pub struct LegMeasure {
    /// How far the worst leg strayed in speed, as a share of what it may; nothing
    /// where that is no number.
    pub moving_ratio: Option<u64>,
    /// The speed error of that leg, RMS.
    pub moving_rms: u64,
    /// What it may be.
    pub moving_limit: u64,
    /// The commanded speed of that leg at its peak.
    pub peak_command: u64,
    /// How fast the worst hold was, as a share of what it may; nothing where that
    /// is no number.
    pub holding_ratio: Option<u64>,
    /// The speed of that hold, RMS.
    pub hold_rms: u64,
    /// What it may be.
    pub holding_limit: u64,
    /// The position error at rest.
    pub settled: u64,
    /// The greatest position error.
    pub peak_error: u64,
    /// The greatest current.
    pub peak_current: u64,
    /// What the last leg came to.
    pub last: LegResult,
}

/// Whether a share is at least as bad as another. One that is no number is worse
/// than any.
pub open spec fn no_better(a: Option<u64>, b: Option<u64>) -> bool {
    match (a, b) {
        (Some(a), Some(b)) => a >= b,
        (None, _) => true,
        (Some(_), None) => false,
    }
}

/// Whether a share is at least as bad as another.
fn is_no_better(a: Option<u64>, b: Option<u64>) -> (r: bool)
    ensures
        r == no_better(a, b),
{
    match a {
        None => true,
        Some(a) => match b {
            Some(b) => a >= b,
            None => false,
        },
    }
}

/// Whether a share passes: it is a number, and at most `one`, the key of the
/// whole.
pub open spec fn passes(ratio: Option<u64>, one: u64) -> bool {
    ratio matches Some(r) && r <= one
}

impl LegMeasure {
    /// What two measurements amount to together: the leg and the hold that are
    /// worst against their own limits, the worst of every other quantity, and
    /// what the later came to.
    pub open spec fn combined(self, other: LegMeasure) -> LegMeasure {
        let worst = if no_better(self.moving_ratio, other.moving_ratio) {
            self
        } else {
            other
        };
        let held = if no_better(self.holding_ratio, other.holding_ratio) {
            self
        } else {
            other
        };
        LegMeasure {
            moving_ratio: worst.moving_ratio,
            moving_rms: worst.moving_rms,
            moving_limit: worst.moving_limit,
            peak_command: worst.peak_command,
            holding_ratio: held.holding_ratio,
            hold_rms: held.hold_rms,
            holding_limit: held.holding_limit,
            settled: greater(self.settled, other.settled),
            peak_error: greater(self.peak_error, other.peak_error),
            peak_current: greater(self.peak_current, other.peak_current),
            last: other.last,
        }
    }

    /// What two measurements amount to together.
    pub fn combine(self, other: LegMeasure) -> (r: LegMeasure)
        ensures
            r == self.combined(other),
    {
        let worst = if is_no_better(self.moving_ratio, other.moving_ratio) {
            self
        } else {
            other
        };
        let held = if is_no_better(self.holding_ratio, other.holding_ratio) {
            self
        } else {
            other
        };
        LegMeasure {
            moving_ratio: worst.moving_ratio,
            moving_rms: worst.moving_rms,
            moving_limit: worst.moving_limit,
            peak_command: worst.peak_command,
            holding_ratio: held.holding_ratio,
            hold_rms: held.hold_rms,
            holding_limit: held.holding_limit,
            settled: larger(self.settled, other.settled),
            peak_error: larger(self.peak_error, other.peak_error),
            peak_current: larger(self.peak_current, other.peak_current),
            last: other.last,
        }
    }
}

/// Every leg and every hold has to pass: nothing that was measured on one leg is
/// hidden by another. Together they pass exactly if each does, against whatever
/// bound.
pub proof fn law_no_bad_leg_is_hidden(a: LegMeasure, b: LegMeasure, one: u64)
    ensures
        passes(a.combined(b).moving_ratio, one) <==> passes(a.moving_ratio, one) && passes(
            b.moving_ratio,
            one,
        ),
        passes(a.combined(b).holding_ratio, one) <==> passes(a.holding_ratio, one) && passes(
            b.holding_ratio,
            one,
        ),
        a.combined(b).settled <= one <==> a.settled <= one && b.settled <= one,
        a.combined(b).peak_error <= one <==> a.peak_error <= one && b.peak_error <= one,
        a.combined(b).peak_current <= one <==> a.peak_current <= one && b.peak_current <= one,
{
}

/// Whether the hold after a leg is made in velocity mode: the leg was, and a
/// velocity stage is being tuned.
pub fn holds_in_velocity_mode(kind: MotionKind, stage: Option<GainStage>) -> (r: bool)
    ensures
        r == ((kind == MotionKind::Velocity || kind == MotionKind::VelocityProfile) && (stage
            == Some(GainStage::Velocity) || stage == Some(GainStage::VelocityI))),
{
    let bounded = match kind {
        MotionKind::Velocity => true,
        MotionKind::VelocityProfile => true,
        _ => false,
    };
    let inner = match stage {
        Some(GainStage::Velocity) => true,
        Some(GainStage::VelocityI) => true,
        _ => false,
    };
    bounded && inner
}

/// A range of gain scales, as keys.
#[derive(Clone, Copy, Debug, PartialEq, Eq, Structural)]
pub struct Range {
    /// The lowest.
    pub floor: u64,
    /// The highest.
    pub ceiling: u64,
}

/// The range two ranges share.
pub open spec fn shared(a: Range, b: Range) -> Range {
    Range {
        floor: if a.floor > b.floor {
            a.floor
        } else {
            b.floor
        },
        ceiling: if a.ceiling < b.ceiling {
            a.ceiling
        } else {
            b.ceiling
        },
    }
}

/// The range two ranges share.
fn overlap(a: Range, b: Range) -> (r: Range)
    ensures
        r == shared(a, b),
{
    Range {
        floor: if a.floor > b.floor {
            a.floor
        } else {
            b.floor
        },
        ceiling: if a.ceiling < b.ceiling {
            a.ceiling
        } else {
            b.ceiling
        },
    }
}

/// The scales a stage may try: those of the gains it scales, and within a band
/// that the stage verified earlier on this joint. A remembered band that is
/// empty is not used.
pub fn search_range(
    stage: GainStage,
    kpv: Range,
    kiv: Range,
    kpp: Range,
    remembered: Option<Range>,
) -> (r: Range)
    ensures
        ({
            let own = match stage {
                GainStage::Position => kpp,
                GainStage::VelocityI => kiv,
                GainStage::Velocity => kpv,
                GainStage::StartupHold => shared(kpv, kiv),
            };
            r == (match remembered {
                Some(m) => if m.floor < m.ceiling {
                    shared(own, m)
                } else {
                    own
                },
                None => own,
            })
        }),
{
    let own = match stage {
        GainStage::Position => kpp,
        GainStage::VelocityI => kiv,
        GainStage::Velocity => kpv,
        GainStage::StartupHold => overlap(kpv, kiv),
    };
    match remembered {
        Some(m) => {
            if m.floor < m.ceiling {
                overlap(own, m)
            } else {
                own
            }
        },
        None => own,
    }
}

/// Whether a run may tune a joint: a baseline run tunes none, a focused run
/// only the joint it is focused on.
pub fn may_tune(baseline_only: bool, focused: Option<usize>, j: usize) -> (r: bool)
    ensures
        r == (!baseline_only && (focused matches Some(f) ==> f == j)),
{
    !baseline_only && match focused {
        Some(f) => f == j,
        None => true,
    }
}

/// What a leg of an experiment came to.
#[derive(Clone, Copy, Debug, PartialEq, Eq, Structural)]
pub struct LegResult {
    /// How it ended.
    pub outcome: Outcome,
    /// Its direction.
    pub direction: i32,
    /// Where the joint stopped, if it did.
    pub stop: Option<i32>,
}

/// Whether a leg ended at the stop that the experiment returns to: within the
/// two-pass tolerance of it, and if in contact then in the homing direction.
pub open spec fn at_stop(
    reference: Option<i32>,
    tolerance: u32,
    configured: u8,
    leg: LegResult,
) -> bool {
    match (reference, leg.stop) {
        (Some(reference), Some(position)) => {
            &&& -(tolerance as int) <= reference - position <= tolerance
            &&& leg.outcome == Outcome::Blocked ==> leg.direction == stop_direction(configured)
        },
        _ => false,
    }
}

/// Whether a leg ended at the stop that the experiment returns to.
pub fn at_return_stop(
    reference: Option<i32>,
    tolerance: u32,
    configured: u8,
    leg: LegResult,
) -> (r: bool)
    ensures
        r == at_stop(reference, tolerance, configured, leg),
{
    match (reference, leg.stop) {
        (Some(reference), Some(position)) => {
            let difference: i64 = reference as i64 - position as i64;
            let near = -(tolerance as i64) <= difference && difference <= tolerance as i64;
            let home: i32 = if configured == 1 {
                -1
            } else {
                1
            };
            near && (leg.outcome != Outcome::Blocked || leg.direction == home)
        },
        _ => false,
    }
}

/// Whether a leg arrived, well or badly, and the joint stopped somewhere.
pub open spec fn arrived(leg: LegResult) -> bool {
    (leg.outcome == Outcome::Complete || leg.outcome == Outcome::Tracking) && leg.stop is Some
}

/// What a leg does to its experiment.
#[derive(Clone, Copy, Debug, PartialEq, Eq, Structural)]
pub enum LegVerdict {
    /// The experiment goes on; the leg is not scored.
    Setup,
    /// The experiment goes on; the leg is scored.
    Scored {
        /// Whether the leg was complete.
        complete: bool,
    },
    /// The joint hit something it should not have.
    Interrupted,
    /// The experiment failed outright.
    Failed,
}

/// Judge the return to the experiment's origin. Contact with the stop that the
/// experiment returns to is expected; any other contact interrupts. Where there
/// is such a stop, not reaching it fails the experiment, and where there is
/// none, not arriving does.
pub fn judge_reset(reference: Option<i32>, tolerance: u32, configured: u8, leg: LegResult) -> (r:
    LegVerdict)
    ensures
        r == (if at_stop(reference, tolerance, configured, leg) {
            LegVerdict::Scored { complete: true }
        } else if leg.outcome == Outcome::Blocked {
            LegVerdict::Interrupted
        } else if !arrived(leg) || reference is Some {
            LegVerdict::Failed
        } else {
            LegVerdict::Scored { complete: leg.outcome == Outcome::Complete }
        }),
{
    if at_return_stop(reference, tolerance, configured, leg) {
        return LegVerdict::Scored { complete: true };
    }
    if leg.outcome == Outcome::Blocked {
        return LegVerdict::Interrupted;
    }
    let came = (leg.outcome == Outcome::Complete || leg.outcome == Outcome::Tracking)
        && leg.stop.is_some();
    if !came || reference.is_some() {
        return LegVerdict::Failed;
    }
    LegVerdict::Scored { complete: leg.outcome == Outcome::Complete }
}

/// Judge a leg of the experiment, out or back. The way back to a known stop is
/// setup where it ends at the stop and fails the experiment where it does not;
/// every other leg is scored, and any other contact interrupts.
pub fn judge_leg(
    back: bool,
    reference: Option<i32>,
    tolerance: u32,
    configured: u8,
    leg: LegResult,
) -> (r: LegVerdict)
    ensures
        r == (if back && at_stop(reference, tolerance, configured, leg) {
            LegVerdict::Setup
        } else if leg.outcome == Outcome::Blocked {
            LegVerdict::Interrupted
        } else if back && reference is Some {
            LegVerdict::Failed
        } else {
            LegVerdict::Scored { complete: arrived(leg) }
        }),
{
    if back && at_return_stop(reference, tolerance, configured, leg) {
        return LegVerdict::Setup;
    }
    if leg.outcome == Outcome::Blocked {
        return LegVerdict::Interrupted;
    }
    if back && reference.is_some() {
        return LegVerdict::Failed;
    }
    let complete = (leg.outcome == Outcome::Complete || leg.outcome == Outcome::Tracking)
        && leg.stop.is_some();
    LegVerdict::Scored { complete }
}

/// How a leg of an experiment is commanded.
#[derive(Clone, Copy, Debug, PartialEq, Eq, Structural)]
pub enum ProbeKind {
    /// A position move to the leg's endpoint.
    Position,
    /// The seek that failed, forward on the way out and reversed on the way
    /// back.
    Seek {
        /// Whether the seek is reversed.
        reversed: bool,
    },
    /// The velocity profile of a position move to the leg's endpoint.
    VelocityProfile,
}

/// How a leg of an experiment is commanded: the position stage moves in
/// position mode; the others in velocity mode, replaying the seek if that is
/// what failed.
pub fn probe_kind(stage: GainStage, seeking: bool, back: bool) -> (r: ProbeKind)
    ensures
        r == (if stage == GainStage::Position {
            ProbeKind::Position
        } else if seeking {
            ProbeKind::Seek { reversed: back }
        } else {
            ProbeKind::VelocityProfile
        }),
{
    if stage == GainStage::Position {
        ProbeKind::Position
    } else if seeking {
        ProbeKind::Seek { reversed: back }
    } else {
        ProbeKind::VelocityProfile
    }
}

/// The verdict of an experiment on its scale. A failed hold is the oscillating
/// side of the band.
pub fn verdict_of(score: Score, hold_failed: bool, violation: u64) -> (r: Verdict)
    ensures
        r == (if score == (Score::Feasible { quiet: true }) {
            Verdict::Pass
        } else {
            Verdict::Fail { oscillating: hold_failed, violation }
        }),
{
    if score.accepted() {
        Verdict::Pass
    } else {
        Verdict::Fail { oscillating: hold_failed, violation }
    }
}

/// How an experiment ended.
#[derive(Clone, Copy, Debug, PartialEq, Eq, Structural)]
pub enum ExperimentEnd {
    /// The joint hit something it should not have, on this leg.
    Interrupted {
        /// The leg.
        leg: LegResult,
    },
    /// It failed outright.
    Failed,
    /// It is scored.
    Scored {
        /// Whether every leg was complete.
        complete: bool,
    },
}

/// Where an experiment is.
#[derive(Clone, Copy, Debug, PartialEq, Eq, Structural)]
pub enum ExperimentPhase {
    /// The joint returns to where every experiment starts.
    Reset,
    /// The leg out is next.
    Out {
        /// Whether the legs so far were complete.
        complete: bool,
    },
    /// The leg back is next.
    Back {
        /// Whether the legs so far were complete.
        complete: bool,
    },
    /// Over.
    Over {
        /// How it ended.
        end: ExperimentEnd,
    },
}

/// One experiment on a scale: a reset, a leg out and a leg back.
#[derive(Clone, Copy, Debug, PartialEq, Eq, Structural)]
pub struct Experiment {
    /// The stop the experiment returns to, if any.
    pub reference: Option<i32>,
    /// How far from it the joint may come to rest.
    pub tolerance: u32,
    /// The configured homing direction.
    pub configured: u8,
    /// Where the experiment is.
    pub phase: ExperimentPhase,
}

impl Experiment {
    /// Begin.
    pub fn new(reference: Option<i32>, tolerance: u32, configured: u8) -> (r: Experiment)
        ensures
            r == (Experiment { reference, tolerance, configured, phase: ExperimentPhase::Reset }),
    {
        Experiment { reference, tolerance, configured, phase: ExperimentPhase::Reset }
    }

    /// Where the experiment is after a leg.
    pub open spec fn after(self, leg: LegResult) -> ExperimentPhase {
        let stopped = at_stop(self.reference, self.tolerance, self.configured, leg);
        let hit = ExperimentPhase::Over { end: ExperimentEnd::Interrupted { leg } };
        let failed = ExperimentPhase::Over { end: ExperimentEnd::Failed };
        match self.phase {
            ExperimentPhase::Reset => if stopped {
                ExperimentPhase::Out { complete: true }
            } else if leg.outcome == Outcome::Blocked {
                hit
            } else if !arrived(leg) || self.reference is Some {
                failed
            } else {
                ExperimentPhase::Out { complete: leg.outcome == Outcome::Complete }
            },
            ExperimentPhase::Out { complete } => if leg.outcome == Outcome::Blocked {
                hit
            } else {
                ExperimentPhase::Back { complete: complete && arrived(leg) }
            },
            ExperimentPhase::Back { complete } => if stopped {
                ExperimentPhase::Over { end: ExperimentEnd::Scored { complete } }
            } else if leg.outcome == Outcome::Blocked {
                hit
            } else if self.reference is Some {
                failed
            } else {
                ExperimentPhase::Over {
                    end: ExperimentEnd::Scored { complete: complete && arrived(leg) },
                }
            },
            ExperimentPhase::Over { .. } => self.phase,
        }
    }

    /// Whether what was measured on a leg counts: that of the leg out does, and
    /// that of the leg back unless it ends at the stop, which is setup.
    pub open spec fn counts(self, leg: LegResult) -> bool {
        match self.phase {
            ExperimentPhase::Out { complete: _ } => leg.outcome != Outcome::Blocked,
            ExperimentPhase::Back { complete: _ } => leg.outcome != Outcome::Blocked
                && self.reference is None,
            _ => false,
        }
    }

    /// Take what a leg came to; the result is whether what was measured on it
    /// counts.
    pub fn leg(&mut self, leg: LegResult) -> (r: bool)
        ensures
            *final(self) == (Experiment { phase: old(self).after(leg), ..*old(self) }),
            r == old(self).counts(leg),
    {
        match self.phase {
            ExperimentPhase::Reset => {
                self.phase =
                match judge_reset(self.reference, self.tolerance, self.configured, leg) {
                    LegVerdict::Scored { complete } => ExperimentPhase::Out { complete },
                    LegVerdict::Interrupted => ExperimentPhase::Over {
                        end: ExperimentEnd::Interrupted { leg },
                    },
                    _ => ExperimentPhase::Over { end: ExperimentEnd::Failed },
                };
                false
            },
            ExperimentPhase::Out { complete } => {
                match judge_leg(false, self.reference, self.tolerance, self.configured, leg) {
                    LegVerdict::Scored { complete: came } => {
                        self.phase = ExperimentPhase::Back { complete: complete && came };
                        true
                    },
                    _ => {
                        self.phase =
                        ExperimentPhase::Over { end: ExperimentEnd::Interrupted { leg } };
                        false
                    },
                }
            },
            ExperimentPhase::Back { complete } => {
                match judge_leg(true, self.reference, self.tolerance, self.configured, leg) {
                    LegVerdict::Setup => {
                        self.phase =
                        ExperimentPhase::Over { end: ExperimentEnd::Scored { complete } };
                        false
                    },
                    LegVerdict::Scored { complete: came } => {
                        self.phase =
                        ExperimentPhase::Over {
                            end: ExperimentEnd::Scored { complete: complete && came },
                        };
                        true
                    },
                    LegVerdict::Interrupted => {
                        self.phase =
                        ExperimentPhase::Over { end: ExperimentEnd::Interrupted { leg } };
                        false
                    },
                    LegVerdict::Failed => {
                        self.phase = ExperimentPhase::Over { end: ExperimentEnd::Failed };
                        false
                    },
                }
            },
            ExperimentPhase::Over { .. } => false,
        }
    }
}

/// The key of a violation that nothing exceeds.
pub const WORST_VIOLATION: u64 = 0x7FF0_0000_0000_0000;

/// The verdict of an experiment that ended: contact interrupts the search, an
/// experiment that failed outright is as bad as any, and one that is scored
/// passes or fails by its score.
pub fn experiment_verdict(end: ExperimentEnd, score: Score, hold_failed: bool, violation: u64) -> (r:
    Verdict)
    ensures
        r == (match end {
            ExperimentEnd::Interrupted { leg: _ } => Verdict::Interrupted,
            ExperimentEnd::Failed => Verdict::Fail {
                oscillating: false,
                violation: WORST_VIOLATION,
            },
            ExperimentEnd::Scored { complete: _ } => if score == (Score::Feasible {
                quiet: true,
            }) {
                Verdict::Pass
            } else {
                Verdict::Fail { oscillating: hold_failed, violation }
            },
        }),
{
    match end {
        ExperimentEnd::Interrupted { leg: _ } => Verdict::Interrupted,
        ExperimentEnd::Failed => Verdict::Fail { oscillating: false, violation: WORST_VIOLATION },
        ExperimentEnd::Scored { complete: _ } => verdict_of(score, hold_failed, violation),
    }
}

/// An experiment is three legs at most, and contact ends it at once unless it is
/// with the stop the experiment returns to.
pub proof fn law_unexpected_contact_ends_an_experiment(experiment: Experiment, leg: LegResult)
    requires
        !(experiment.phase is Over),
        leg.outcome == Outcome::Blocked,
        !at_stop(experiment.reference, experiment.tolerance, experiment.configured, leg),
    ensures
        experiment.after(leg) == (ExperimentPhase::Over {
            end: ExperimentEnd::Interrupted { leg },
        }),
        !experiment.counts(leg),
{
}

/// What is measured while a joint runs into a stop it is known to return to is
/// never scored.
pub proof fn law_a_known_stop_is_setup(experiment: Experiment, leg: LegResult)
    requires
        experiment.phase is Back,
        experiment.reference is Some,
    ensures
        !experiment.counts(leg),
{
}

/// What a stage concludes from its search.
#[derive(Clone, Copy, Debug, PartialEq, Eq, Structural)]
pub enum StageResult {
    /// An experiment ended in contact; the gains stay as it left them.
    Interrupted,
    /// The stage operates at this scale.
    Passed {
        /// The scale.
        scale: u64,
        /// The band to remember for the joint, if the stage remembers one.
        band: Option<Range>,
    },
    /// No scale passes; this one violates the least.
    NoBand {
        /// The scale.
        best: u64,
    },
    /// The search failed for another reason, which ends the run.
    Failed {
        /// Why the search ended.
        stop: Stop,
    },
}

/// The scale a band operates at, once it has been measured to pass.
pub open spec fn operating_scale(band: Band) -> Option<u64> {
    if band.verified {
        band.operating
    } else {
        None
    }
}

/// Conclude a stage. An experiment that ended in contact comes first; then a
/// verified scale is taken, and the passing band remembered where the stage has
/// a place for it; a line without a passing scale gives its least-violating
/// one; anything else ends the run.
pub fn conclude(stage: GainStage, interrupted: bool, band: &Band, stop: Stop) -> (r: StageResult)
    ensures
        interrupted <==> r is Interrupted,
        !interrupted ==> match operating_scale(*band) {
            Some(scale) => r == (StageResult::Passed {
                scale,
                band: match (band.lowest_pass, band.highest_pass) {
                    (Some(low), Some(high)) => if stage == GainStage::StartupHold {
                        None
                    } else {
                        Some(Range { floor: low, ceiling: high })
                    },
                    _ => None,
                },
            }),
            None => match band.best_fail {
                Some((best, violation)) => if stop == Stop::NoPass {
                    r == (StageResult::NoBand { best })
                } else {
                    r == (StageResult::Failed { stop })
                },
                None => r == (StageResult::Failed { stop }),
            },
        },
{
    if interrupted {
        return StageResult::Interrupted;
    }
    if band.verified {
        if let Some(scale) = band.operating {
            let remembered = match (band.lowest_pass, band.highest_pass) {
                (Some(low), Some(high)) => {
                    if stage == GainStage::StartupHold {
                        None
                    } else {
                        Some(Range { floor: low, ceiling: high })
                    }
                },
                _ => None,
            };
            return StageResult::Passed { scale, band: remembered };
        }
    }
    match band.best_fail {
        Some((best, _)) => {
            if stop == Stop::NoPass {
                StageResult::NoBand { best }
            } else {
                StageResult::Failed { stop }
            }
        },
        None => StageResult::Failed { stop },
    }
}

/// What a stage came to, as the order of the stages needs it.
#[derive(Clone, Copy, Debug, PartialEq, Eq, Structural)]
pub enum StageEnd {
    /// The stage found its gains.
    Passed,
    /// No scale passed.
    NoBand,
    /// An experiment ended in contact.
    Interrupted,
}

/// Where the tuning of a joint is.
#[derive(Clone, Copy, Debug, PartialEq, Eq, Structural)]
pub enum Tuning {
    /// Searching velocity P.
    Velocity,
    /// No velocity P passed: searching velocity I at the least-violating P.
    Descend,
    /// Searching velocity P once more.
    VelocityAgain,
    /// Searching velocity I with P fixed.
    VelocityI,
    /// Searching position P with both fixed.
    Position,
    /// Finished: every stage passed.
    Tuned,
    /// Finished: an experiment ended in contact.
    Interrupted,
    /// Finished: no scale of this stage passes.
    NoBand {
        /// The stage.
        stage: GainStage,
    },
}

/// What a stage asks for besides moving on.
#[derive(Clone, Copy, Debug, PartialEq, Eq, Structural)]
pub enum Adjust {
    /// Nothing.
    Nothing,
    /// Take the least-violating scale of the stage that just ended.
    TakeBest {
        /// The stage.
        stage: GainStage,
    },
}

impl Tuning {
    /// The stage that is searched now; nothing once the tuning is over.
    pub open spec fn searching(self) -> Option<GainStage> {
        match self {
            Tuning::Velocity => Some(GainStage::Velocity),
            Tuning::Descend => Some(GainStage::VelocityI),
            Tuning::VelocityAgain => Some(GainStage::Velocity),
            Tuning::VelocityI => Some(GainStage::VelocityI),
            Tuning::Position => Some(GainStage::Position),
            _ => None,
        }
    }

    /// Where the tuning goes after a stage, and what it takes along.
    pub open spec fn after(self, end: StageEnd) -> (Tuning, Adjust) {
        if self.searching() is Some && end == StageEnd::Interrupted {
            (Tuning::Interrupted, Adjust::Nothing)
        } else {
            let passed = end == StageEnd::Passed;
            match self {
                Tuning::Velocity => if passed {
                    (Tuning::VelocityI, Adjust::Nothing)
                } else {
                    (Tuning::Descend, Adjust::TakeBest { stage: GainStage::Velocity })
                },
                Tuning::Descend => if passed {
                    (Tuning::VelocityAgain, Adjust::Nothing)
                } else {
                    (Tuning::VelocityAgain, Adjust::TakeBest { stage: GainStage::VelocityI })
                },
                Tuning::VelocityAgain => if passed {
                    (Tuning::Position, Adjust::Nothing)
                } else {
                    (Tuning::NoBand { stage: GainStage::Velocity }, Adjust::Nothing)
                },
                Tuning::VelocityI => if passed {
                    (Tuning::Position, Adjust::Nothing)
                } else {
                    (Tuning::NoBand { stage: GainStage::VelocityI }, Adjust::Nothing)
                },
                Tuning::Position => if passed {
                    (Tuning::Tuned, Adjust::Nothing)
                } else {
                    (Tuning::NoBand { stage: GainStage::Position }, Adjust::Nothing)
                },
                _ => (self, Adjust::Nothing),
            }
        }
    }

    /// Stages that may still be searched.
    pub open spec fn left(self) -> int {
        match self {
            Tuning::Velocity => 4,
            Tuning::Descend => 3,
            Tuning::VelocityAgain => 2,
            Tuning::VelocityI => 2,
            Tuning::Position => 1,
            _ => 0,
        }
    }

    /// The stage that is searched now.
    pub fn stage(&self) -> (r: Option<GainStage>)
        ensures
            r == self.searching(),
    {
        match *self {
            Tuning::Velocity => Some(GainStage::Velocity),
            Tuning::Descend => Some(GainStage::VelocityI),
            Tuning::VelocityAgain => Some(GainStage::Velocity),
            Tuning::VelocityI => Some(GainStage::VelocityI),
            Tuning::Position => Some(GainStage::Position),
            _ => None,
        }
    }

    /// Take what the stage came to.
    pub fn advance(&mut self, end: StageEnd) -> (r: Adjust)
        ensures
            (*final(self), r) == old(self).after(end),
    {
        let searching = self.stage().is_some();
        if searching && end == StageEnd::Interrupted {
            *self = Tuning::Interrupted;
            return Adjust::Nothing;
        }
        let passed = end == StageEnd::Passed;
        let mut adjust = Adjust::Nothing;
        let next = match *self {
            Tuning::Velocity => {
                if passed {
                    Tuning::VelocityI
                } else {
                    adjust = Adjust::TakeBest { stage: GainStage::Velocity };
                    Tuning::Descend
                }
            },
            Tuning::Descend => {
                if !passed {
                    adjust = Adjust::TakeBest { stage: GainStage::VelocityI };
                }
                Tuning::VelocityAgain
            },
            Tuning::VelocityAgain => {
                if passed {
                    Tuning::Position
                } else {
                    Tuning::NoBand { stage: GainStage::Velocity }
                }
            },
            Tuning::VelocityI => {
                if passed {
                    Tuning::Position
                } else {
                    Tuning::NoBand { stage: GainStage::VelocityI }
                }
            },
            Tuning::Position => {
                if passed {
                    Tuning::Tuned
                } else {
                    Tuning::NoBand { stage: GainStage::Position }
                }
            },
            Tuning::Tuned => Tuning::Tuned,
            Tuning::Interrupted => Tuning::Interrupted,
            Tuning::NoBand { stage } => Tuning::NoBand { stage },
        };
        *self = next;
        adjust
    }
}

/// The tuning ends: every stage leaves fewer to search, and it never searches
/// more than four.
pub proof fn law_tuning_ends(tuning: Tuning, end: StageEnd)
    requires
        tuning.searching() is Some,
    ensures
        0 <= tuning.after(end).0.left() < tuning.left() <= 4,
        tuning.left() == 0 <==> tuning.searching() is None,
{
}

/// The inner loop is tuned before the outer one: the position gain is searched
/// only right after a velocity stage that passed.
pub proof fn law_the_inner_loop_comes_first(tuning: Tuning, end: StageEnd)
    requires
        tuning.after(end).0 == Tuning::Position,
        tuning != Tuning::Position,
    ensures
        end == StageEnd::Passed,
        tuning == Tuning::VelocityI || tuning == Tuning::VelocityAgain,
{
}

/// Tuning succeeds only where its last stage passed, and contact in any stage
/// interrupts it.
pub proof fn law_tuning_succeeds_only_on_a_pass(tuning: Tuning, end: StageEnd)
    requires
        tuning.searching() is Some,
    ensures
        tuning.after(end).0 == Tuning::Tuned ==> tuning == Tuning::Position && end
            == StageEnd::Passed,
        end == StageEnd::Interrupted <==> tuning.after(end).0 == Tuning::Interrupted,
{
}

/// What two measurements amount to together tells of one leg: the speed error, its limit
/// and the commanded speed are those of the leg whose share it tells, and so with the
/// hold. Of two equally bad it is the earlier. How it ended is how the later ended.
pub proof fn law_two_legs_are_told_by_the_worse(a: LegMeasure, b: LegMeasure)
    ensures
        ({
            let both = a.combined(b);
            let earlier_moved = match (a.moving_ratio, b.moving_ratio) {
                (Some(x), Some(y)) => x >= y,
                (None, _) => true,
                (Some(_), None) => false,
            };
            let earlier_held = match (a.holding_ratio, b.holding_ratio) {
                (Some(x), Some(y)) => x >= y,
                (None, _) => true,
                (Some(_), None) => false,
            };
            let moved = if earlier_moved {
                a
            } else {
                b
            };
            let held = if earlier_held {
                a
            } else {
                b
            };
            &&& both.moving_ratio == moved.moving_ratio && both.moving_rms == moved.moving_rms
            &&& both.moving_limit == moved.moving_limit && both.peak_command == moved.peak_command
            &&& both.holding_ratio == held.holding_ratio && both.hold_rms == held.hold_rms
            &&& both.holding_limit == held.holding_limit
            &&& both.settled == a.settled || both.settled == b.settled
            &&& both.settled >= a.settled && both.settled >= b.settled
            &&& both.peak_error == a.peak_error || both.peak_error == b.peak_error
            &&& both.peak_error >= a.peak_error && both.peak_error >= b.peak_error
            &&& both.peak_current == a.peak_current || both.peak_current == b.peak_current
            &&& both.peak_current >= a.peak_current && both.peak_current >= b.peak_current
            &&& both.last == b.last
        }),
{
}

/// A scale is in the range two ranges share exactly if it is in both, and the ends of that
/// range are ends of theirs.
pub proof fn law_a_shared_scale_is_in_both(a: Range, b: Range, scale: u64)
    ensures
        shared(a, b).floor <= scale && scale <= shared(a, b).ceiling <==> a.floor <= scale && scale
            <= a.ceiling && b.floor <= scale && scale <= b.ceiling,
        shared(a, b).floor == a.floor || shared(a, b).floor == b.floor,
        shared(a, b).ceiling == a.ceiling || shared(a, b).ceiling == b.ceiling,
        shared(a, b).floor >= a.floor && shared(a, b).floor >= b.floor,
        shared(a, b).ceiling <= a.ceiling && shared(a, b).ceiling <= b.ceiling,
{
}

/// A leg is back at the stop exactly if one is known, the joint stopped, no further from
/// it than the tolerance on either side, and contact was the way homing goes: down if
/// homing is configured as 1, and up if not.
pub proof fn law_when_a_leg_is_back_at_the_stop(
    reference: i32,
    position: i32,
    tolerance: u32,
    configured: u8,
    leg: LegResult,
)
    ensures
        leg.stop == Some(position) ==> (at_stop(Some(reference), tolerance, configured, leg) <==> {
            &&& reference - position <= tolerance && position - reference <= tolerance
            &&& leg.outcome == Outcome::Blocked && configured == 1 ==> leg.direction == -1
            &&& leg.outcome == Outcome::Blocked && configured != 1 ==> leg.direction == 1
        }),
        leg.stop is None ==> !at_stop(Some(reference), tolerance, configured, leg),
        !at_stop(None, tolerance, configured, leg),
{
}

/// Without a stop to return to, an experiment is scored if its reset came to rest and
/// nothing blocked it; it is complete if the reset was, and both legs came to rest, well
/// or badly; and both legs count, the reset never.
pub proof fn law_an_experiment_in_the_open(
    tolerance: u32,
    configured: u8,
    reset: LegResult,
    out: LegResult,
    back: LegResult,
)
    ensures
        ({
            let start = Experiment {
                reference: None,
                tolerance,
                configured,
                phase: ExperimentPhase::Reset,
            };
            let first = Experiment { phase: start.after(reset), ..start };
            let second = Experiment { phase: first.after(out), ..first };
            let rests = |l: LegResult|
                l.stop is Some && (l.outcome == Outcome::Complete || l.outcome
                    == Outcome::Tracking);
            &&& !start.counts(reset)
            &&& reset.outcome == Outcome::Blocked ==> first.phase == (ExperimentPhase::Over {
                end: ExperimentEnd::Interrupted { leg: reset },
            })
            &&& reset.outcome != Outcome::Blocked && !rests(reset) ==> first.phase == (
            ExperimentPhase::Over { end: ExperimentEnd::Failed })
            &&& rests(reset) ==> (first.counts(out) <==> out.outcome != Outcome::Blocked)
            &&& rests(reset) && out.outcome == Outcome::Blocked ==> second.phase == (
            ExperimentPhase::Over { end: ExperimentEnd::Interrupted { leg: out } })
            &&& rests(reset) && out.outcome != Outcome::Blocked ==> {
                &&& second.counts(back) <==> back.outcome != Outcome::Blocked
                &&& back.outcome == Outcome::Blocked ==> second.after(back) == (
                ExperimentPhase::Over { end: ExperimentEnd::Interrupted { leg: back } })
                &&& back.outcome != Outcome::Blocked ==> second.after(back) == (
                ExperimentPhase::Over {
                    end: ExperimentEnd::Scored {
                        complete: reset.outcome == Outcome::Complete && rests(out) && rests(back),
                    },
                })
            }
        }),
{
}

/// With a stop to return to, an experiment whose reset ends there goes out and comes back
/// there: the leg out alone counts, and whether it came to rest is whether the experiment
/// is complete. One that ends elsewhere without contact, at the reset or at the end,
/// failed.
pub proof fn law_an_experiment_from_a_stop(
    reference: i32,
    tolerance: u32,
    configured: u8,
    reset: LegResult,
    out: LegResult,
    back: LegResult,
)
    ensures
        ({
            let start = Experiment {
                reference: Some(reference),
                tolerance,
                configured,
                phase: ExperimentPhase::Reset,
            };
            let first = Experiment { phase: start.after(reset), ..start };
            let second = Experiment { phase: first.after(out), ..first };
            let home: int = if configured == 1 {
                -1
            } else {
                1
            };
            let there = |l: LegResult|
                l.stop is Some && reference - l.stop->0 <= tolerance && l.stop->0 - reference
                    <= tolerance && (l.outcome == Outcome::Blocked ==> l.direction == home);
            let failed = ExperimentPhase::Over { end: ExperimentEnd::Failed };
            &&& !start.counts(reset)
            &&& there(reset) ==> first.phase == (ExperimentPhase::Out { complete: true })
            &&& !there(reset) && reset.outcome != Outcome::Blocked ==> first.phase == failed
            &&& !there(reset) && reset.outcome == Outcome::Blocked ==> first.phase == (
            ExperimentPhase::Over { end: ExperimentEnd::Interrupted { leg: reset } })
            &&& there(reset) ==> (first.counts(out) <==> out.outcome != Outcome::Blocked)
            &&& there(reset) && out.outcome == Outcome::Blocked ==> second.phase == (
            ExperimentPhase::Over { end: ExperimentEnd::Interrupted { leg: out } })
            &&& there(reset) && out.outcome != Outcome::Blocked ==> {
                &&& !second.counts(back)
                &&& there(back) ==> second.after(back) == (ExperimentPhase::Over {
                    end: ExperimentEnd::Scored {
                        complete: out.stop is Some && (out.outcome == Outcome::Complete
                            || out.outcome == Outcome::Tracking),
                    },
                })
                &&& !there(back) && back.outcome != Outcome::Blocked ==> second.after(back)
                    == failed
                &&& !there(back) && back.outcome == Outcome::Blocked ==> second.after(back) == (
                ExperimentPhase::Over { end: ExperimentEnd::Interrupted { leg: back } })
            }
        }),
{
}

/// A joint whose stages all pass is tuned in three: velocity P, velocity I, position P.
/// Where no velocity P passes, the least-violating is taken, velocity I is searched there,
/// its least-violating taken where none passes either, and velocity P once more; a pass
/// then leads on to position P. A stage that finds nothing otherwise ends the tuning.
pub proof fn law_the_stages_come_in_order(end: StageEnd)
    ensures
        Tuning::Velocity.searching() == Some(GainStage::Velocity),
        Tuning::Descend.searching() == Some(GainStage::VelocityI),
        Tuning::VelocityAgain.searching() == Some(GainStage::Velocity),
        Tuning::VelocityI.searching() == Some(GainStage::VelocityI),
        Tuning::Position.searching() == Some(GainStage::Position),
        Tuning::Tuned.searching() is None && Tuning::Interrupted.searching() is None,
        Tuning::Velocity.after(StageEnd::Passed) == (Tuning::VelocityI, Adjust::Nothing),
        Tuning::VelocityI.after(StageEnd::Passed) == (Tuning::Position, Adjust::Nothing),
        Tuning::Position.after(StageEnd::Passed) == (Tuning::Tuned, Adjust::Nothing),
        Tuning::Velocity.after(StageEnd::NoBand) == (
            Tuning::Descend,
            Adjust::TakeBest { stage: GainStage::Velocity },
        ),
        Tuning::Descend.after(StageEnd::Passed) == (Tuning::VelocityAgain, Adjust::Nothing),
        Tuning::Descend.after(StageEnd::NoBand) == (
            Tuning::VelocityAgain,
            Adjust::TakeBest { stage: GainStage::VelocityI },
        ),
        Tuning::VelocityAgain.after(StageEnd::Passed) == (Tuning::Position, Adjust::Nothing),
        Tuning::VelocityAgain.after(StageEnd::NoBand) == (
            Tuning::NoBand { stage: GainStage::Velocity },
            Adjust::Nothing,
        ),
        Tuning::VelocityI.after(StageEnd::NoBand) == (
            Tuning::NoBand { stage: GainStage::VelocityI },
            Adjust::Nothing,
        ),
        Tuning::Position.after(StageEnd::NoBand) == (
            Tuning::NoBand { stage: GainStage::Position },
            Adjust::Nothing,
        ),
        Tuning::Tuned.after(end) == (Tuning::Tuned, Adjust::Nothing),
        Tuning::Interrupted.after(end) == (Tuning::Interrupted, Adjust::Nothing),
{
}

/// A band operates at its scale once that has been measured to pass, and not before.
pub proof fn law_a_band_operates_where_it_was_verified(band: Band)
    ensures
        band.verified ==> operating_scale(band) == band.operating,
        !band.verified ==> operating_scale(band) is None,
{
}

/// Where the joint came to rest counts in the stages that hold a position, and in the
/// velocity stages it does not.
pub proof fn law_which_stages_hold_a_position()
    ensures
        GainStage::StartupHold.positional() && GainStage::Position.positional(),
        !GainStage::Velocity.positional() && !GainStage::VelocityI.positional(),
{
}

} // verus!
