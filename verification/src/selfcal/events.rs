//! What a calibration run tells: one line for each event, with the measured
//! quantities already rendered.
use crate::text::{
    decimal, decimal_text, joint_label, joint_name, signed, signed_text, truth, truth_text,
};
use vstd::prelude::*;

verus! {

/// Something that happened.
#[derive(Debug)]
pub enum RunEvent {
    /// What a joint does next.
    Phase {
        /// The joint.
        joint: usize,
        /// What it is.
        name: String,
    },
    /// Whether a tool answered.
    Tool {
        /// Its node.
        node: u64,
        /// Whether it did.
        found: bool,
    },
    /// A drive was configured.
    Configure {
        /// The tick.
        tick: u64,
        /// The joint.
        joint: usize,
        /// Its current limit.
        limit: String,
        /// Where the joint was.
        at: i64,
    },
    /// A hold was measured.
    Hold {
        /// The tick.
        tick: u64,
        /// The joint.
        joint: usize,
        /// What for.
        why: String,
        /// The position, RMS.
        position_rms: String,
        /// The speed, RMS.
        speed_rms: String,
    },
    /// A move ended.
    Move {
        /// The tick.
        tick: u64,
        /// The joint.
        joint: usize,
        /// How.
        outcome: String,
        /// How long it took.
        elapsed: String,
        /// Where it started.
        from: i64,
        /// Where it was to end.
        to: i64,
        /// The position error, RMS.
        position_rms: String,
        /// The greatest position error.
        peak_error: String,
        /// The position error once settled.
        settled: String,
        /// The speed error, RMS.
        speed_rms: String,
        /// The greatest commanded speed.
        peak_command: String,
        /// How far it missed the limits.
        excess: String,
    },
    /// A stall window ended.
    Contact {
        /// The tick.
        tick: u64,
        /// The joint.
        joint: usize,
        /// How far the joint moved.
        range: i64,
        /// How far it was to move.
        requested: String,
        /// The range under which it has stopped.
        below: String,
        /// Whether it has.
        stopped: bool,
        /// Whether it is loaded.
        loaded: bool,
    },
    /// A drive answered again.
    FeedbackGap {
        /// The tick.
        tick: u64,
        /// The joint.
        joint: usize,
        /// How long it was silent.
        silent: String,
    },
    /// A speed was held both ways.
    Drag {
        /// The tick.
        tick: u64,
        /// The joint.
        joint: usize,
        /// The speed.
        speed: String,
        /// The current forward.
        forward: String,
        /// The current in reverse.
        reverse: String,
    },
    /// A joint's mechanics were measured.
    Mechanics {
        /// The tick.
        tick: u64,
        /// The joint.
        joint: usize,
        /// The inertia.
        inertia: String,
        /// The viscous friction.
        viscous: String,
        /// The Coulomb friction.
        coulomb: String,
    },
    /// A step of the limits was tried.
    LimitsStep {
        /// The tick.
        tick: u64,
        /// The joint.
        joint: usize,
        /// The velocity.
        velocity: String,
        /// The acceleration.
        acceleration: String,
        /// The jerk.
        jerk: String,
        /// Why it failed, if it did.
        failed: Option<String>,
    },
    /// Gains were tried.
    GainsStep {
        /// The tick.
        tick: u64,
        /// The joint.
        joint: usize,
        /// The proportional gain.
        kpv: String,
        /// The integral gain.
        kiv: String,
        /// What they scored, if they ran.
        score: Option<String>,
        /// What came of it.
        verdict: String,
    },
    /// A joint's gains were settled.
    Gains {
        /// The tick.
        tick: u64,
        /// The joint.
        joint: usize,
        /// The proportional gain before.
        kpv_before: String,
        /// The proportional gain after.
        kpv_after: String,
        /// The integral gain before.
        kiv_before: String,
        /// The integral gain after.
        kiv_after: String,
        /// The score before.
        score_before: String,
        /// The score after.
        score_after: String,
    },
    /// A joint's limits were found.
    Limits {
        /// The tick.
        tick: u64,
        /// The joint.
        joint: usize,
        /// The velocity.
        velocity: String,
        /// Whether the velocity was reached.
        velocity_reached: bool,
        /// The acceleration.
        acceleration: String,
        /// The jerk.
        jerk: String,
        /// Whether the jerk was reached.
        jerk_measured: bool,
        /// The speed ripple.
        ripple: String,
    },
    /// A pose is next.
    IdentPose {
        /// Its number.
        number: u64,
        /// How many there are.
        total: u64,
        /// The pose.
        q: String,
    },
    /// A pose's torque was measured.
    IdentTorque {
        /// Its number.
        number: u64,
        /// The torque.
        torque: String,
    },
    /// The masses were fitted.
    ArmFit {
        /// The residual before.
        before: String,
        /// The residual after.
        after: String,
    },
    /// A sample of the arm, which is recorded and not told.
    Sample,
}

/// One of two texts.
pub open spec fn either(first: bool, a: Seq<char>, b: Seq<char>) -> Seq<char> {
    if first {
        a
    } else {
        b
    }
}

/// One of two texts.
fn one_of(first: bool, a: &'static str, b: &'static str) -> (r: &'static str)
    ensures
        r@ == either(first, a@, b@),
{
    if first {
        a
    } else {
        b
    }
}

/// A text between two others where there is one, and another where there is
/// none.
pub open spec fn told(
    text: Option<String>,
    none: Seq<char>,
    before: Seq<char>,
    after: Seq<char>,
) -> Seq<char> {
    match text {
        Some(t) => before + t@ + after,
        None => none,
    }
}

/// Append a text between two others where there is one, and another where there
/// is none.
fn push_told(out: &mut String, text: &Option<String>, none: &str, before: &str, after: &str)
    ensures
        final(out)@ == old(out)@ + told(*text, none@, before@, after@),
{
    match text {
        Some(t) => {
            out.append(before);
            out.append(t.as_str());
            out.append(after);
            assert(out@ =~= old(out)@ + (before@ + t@ + after@));
        },
        None => out.append(none),
    }
}

impl RunEvent {
    /// The line that tells the event; nothing where it is only recorded.
    pub open spec fn line(self) -> Option<Seq<char>> {
        match self {
            RunEvent::Phase { joint, name } => Some(
                Seq::<char>::empty() + joint_name(joint as int)
                    + ": "@
                    + name@,
            ),
            RunEvent::Tool { node, found } => Some(
                Seq::<char>::empty() + "TOOL node "@
                    + decimal_text(node as nat)
                    + ": "@
                    + either(found, "a gripper driver answered"@, "no gripper driver answered"@),
            ),
            RunEvent::Configure { tick, joint, limit, at } => Some(
                Seq::<char>::empty() + "tick="@
                    + decimal_text(tick as nat)
                    + " "@
                    + joint_name(joint as int)
                    + " CONFIGURE limit="@
                    + limit@
                    + "mA encoder="@
                    + signed_text(at as int),
            ),
            RunEvent::Hold { tick, joint, why, position_rms, speed_rms } => Some(
                Seq::<char>::empty() + "tick="@
                    + decimal_text(tick as nat)
                    + " "@
                    + joint_name(joint as int)
                    + " HOLD "@
                    + why@
                    + " position_rms="@
                    + position_rms@
                    + "deg speed_rms="@
                    + speed_rms@
                    + "deg/s"@,
            ),
            RunEvent::Move { tick, joint, outcome, elapsed, from, to, position_rms, peak_error, settled, speed_rms, peak_command, excess } => Some(
                Seq::<char>::empty() + "tick="@
                    + decimal_text(tick as nat)
                    + " "@
                    + joint_name(joint as int)
                    + " MOVE "@
                    + outcome@
                    + " "@
                    + elapsed@
                    + "s "@
                    + signed_text(from as int)
                    + "->"@
                    + signed_text(to as int)
                    + " position_rms="@
                    + position_rms@
                    + "deg peak_error="@
                    + peak_error@
                    + "deg settled="@
                    + settled@
                    + "deg speed_rms="@
                    + speed_rms@
                    + "deg/s peak_command="@
                    + peak_command@
                    + "deg/s excess="@
                    + excess@,
            ),
            RunEvent::Contact { tick, joint, range, requested, below, stopped, loaded } => Some(
                Seq::<char>::empty() + "tick="@
                    + decimal_text(tick as nat)
                    + " "@
                    + joint_name(joint as int)
                    + " DETECT range="@
                    + signed_text(range as int)
                    + "ticks requested="@
                    + requested@
                    + "ticks stall_below="@
                    + below@
                    + "ticks stopped="@
                    + truth_text(stopped)
                    + " loaded="@
                    + truth_text(loaded),
            ),
            RunEvent::FeedbackGap { tick, joint, silent } => Some(
                Seq::<char>::empty() + "tick="@
                    + decimal_text(tick as nat)
                    + " "@
                    + joint_name(joint as int)
                    + " answered again after "@
                    + silent@
                    + "s of silence"@,
            ),
            RunEvent::Drag { tick, joint, speed, forward, reverse } => Some(
                Seq::<char>::empty() + "tick="@
                    + decimal_text(tick as nat)
                    + " "@
                    + joint_name(joint as int)
                    + " DRAG "@
                    + speed@
                    + "rad/s forward="@
                    + forward@
                    + "mA reverse="@
                    + reverse@
                    + "mA"@,
            ),
            RunEvent::Mechanics { tick, joint, inertia, viscous, coulomb } => Some(
                Seq::<char>::empty() + "tick="@
                    + decimal_text(tick as nat)
                    + " "@
                    + joint_name(joint as int)
                    + " MECHANICS J="@
                    + inertia@
                    + "kg.m2 b="@
                    + viscous@
                    + "Nm.s tc="@
                    + coulomb@
                    + "Nm"@,
            ),
            RunEvent::LimitsStep { tick, joint, velocity, acceleration, jerk, failed } => Some(
                Seq::<char>::empty() + "tick="@
                    + decimal_text(tick as nat)
                    + " "@
                    + joint_name(joint as int)
                    + " LIMITS step velocity="@
                    + velocity@
                    + "rad/s acceleration="@
                    + acceleration@
                    + "rad/s2 jerk="@
                    + jerk@
                    + "rad/s3 "@
                    + told(failed, "passed"@, "failed: "@, ""@),
            ),
            RunEvent::GainsStep { tick, joint, kpv, kiv, score, verdict } => Some(
                Seq::<char>::empty() + "tick="@
                    + decimal_text(tick as nat)
                    + " "@
                    + joint_name(joint as int)
                    + " GAINS step kpv="@
                    + kpv@
                    + " kiv="@
                    + kiv@
                    + " "@
                    + told(score, "unstable"@, "score="@, "deg/s"@)
                    + " "@
                    + verdict@,
            ),
            RunEvent::Gains { tick, joint, kpv_before, kpv_after, kiv_before, kiv_after, score_before, score_after } => Some(
                Seq::<char>::empty() + "tick="@
                    + decimal_text(tick as nat)
                    + " "@
                    + joint_name(joint as int)
                    + " GAINS kpv="@
                    + kpv_before@
                    + "->"@
                    + kpv_after@
                    + " kiv="@
                    + kiv_before@
                    + "->"@
                    + kiv_after@
                    + " score="@
                    + score_before@
                    + "->"@
                    + score_after@
                    + "deg/s"@,
            ),
            RunEvent::Limits { tick, joint, velocity, velocity_reached, acceleration, jerk, jerk_measured, ripple } => Some(
                Seq::<char>::empty() + "tick="@
                    + decimal_text(tick as nat)
                    + " "@
                    + joint_name(joint as int)
                    + " LIMITS velocity="@
                    + velocity@
                    + "rad/s"@
                    + either(velocity_reached, ""@, " (lower bound)"@)
                    + " acceleration="@
                    + acceleration@
                    + "rad/s2 jerk="@
                    + jerk@
                    + "rad/s3"@
                    + either(jerk_measured, ""@, " (lower bound, not written)"@)
                    + " ripple="@
                    + ripple@
                    + "%"@,
            ),
            RunEvent::IdentPose { number, total, q } => Some(
                Seq::<char>::empty() + "IDENT pose "@
                    + decimal_text(number as nat)
                    + "/"@
                    + decimal_text(total as nat)
                    + " q="@
                    + q@,
            ),
            RunEvent::IdentTorque { number, torque } => Some(
                Seq::<char>::empty() + "IDENT pose "@
                    + decimal_text(number as nat)
                    + " torque "@
                    + torque@
                    + " Nm"@,
            ),
            RunEvent::ArmFit { before, after } => Some(
                Seq::<char>::empty() + "IDENT residual "@
                    + before@
                    + " Nm -> "@
                    + after@
                    + " Nm"@,
            ),
            RunEvent::Sample => None,
        }
    }

    /// Whether the joint it speaks of, if any, can be numbered.
    pub open spec fn numbered(self) -> bool {
        match self {
            RunEvent::Phase { joint, .. } => joint < u64::MAX,
            RunEvent::Configure { joint, .. } => joint < u64::MAX,
            RunEvent::Hold { joint, .. } => joint < u64::MAX,
            RunEvent::Move { joint, .. } => joint < u64::MAX,
            RunEvent::Contact { joint, .. } => joint < u64::MAX,
            RunEvent::FeedbackGap { joint, .. } => joint < u64::MAX,
            RunEvent::Drag { joint, .. } => joint < u64::MAX,
            RunEvent::Mechanics { joint, .. } => joint < u64::MAX,
            RunEvent::LimitsStep { joint, .. } => joint < u64::MAX,
            RunEvent::GainsStep { joint, .. } => joint < u64::MAX,
            RunEvent::Gains { joint, .. } => joint < u64::MAX,
            RunEvent::Limits { joint, .. } => joint < u64::MAX,
            _ => true,
        }
    }

    /// The line that tells the event; nothing where it is only recorded.
    pub fn describe(&self) -> (r: Option<String>)
        requires
            self.numbered(),
        ensures
            match r {
                Some(s) => self.line() == Some(s@),
                None => self.line() is None,
            },
    {
        let mut out: String = String::new();
        match self {
            RunEvent::Phase { joint, name } => {
                out.append(joint_label(*joint).as_str());
                out.append(": ");
                out.append(name.as_str());
            },
            RunEvent::Tool { node, found } => {
                out.append("TOOL node ");
                out.append(decimal(*node).as_str());
                out.append(": ");
                out.append(one_of(*found, "a gripper driver answered", "no gripper driver answered"));
            },
            RunEvent::Configure { tick, joint, limit, at } => {
                out.append("tick=");
                out.append(decimal(*tick).as_str());
                out.append(" ");
                out.append(joint_label(*joint).as_str());
                out.append(" CONFIGURE limit=");
                out.append(limit.as_str());
                out.append("mA encoder=");
                out.append(signed(*at).as_str());
            },
            RunEvent::Hold { tick, joint, why, position_rms, speed_rms } => {
                out.append("tick=");
                out.append(decimal(*tick).as_str());
                out.append(" ");
                out.append(joint_label(*joint).as_str());
                out.append(" HOLD ");
                out.append(why.as_str());
                out.append(" position_rms=");
                out.append(position_rms.as_str());
                out.append("deg speed_rms=");
                out.append(speed_rms.as_str());
                out.append("deg/s");
            },
            RunEvent::Move { tick, joint, outcome, elapsed, from, to, position_rms, peak_error, settled, speed_rms, peak_command, excess } => {
                out.append("tick=");
                out.append(decimal(*tick).as_str());
                out.append(" ");
                out.append(joint_label(*joint).as_str());
                out.append(" MOVE ");
                out.append(outcome.as_str());
                out.append(" ");
                out.append(elapsed.as_str());
                out.append("s ");
                out.append(signed(*from).as_str());
                out.append("->");
                out.append(signed(*to).as_str());
                out.append(" position_rms=");
                out.append(position_rms.as_str());
                out.append("deg peak_error=");
                out.append(peak_error.as_str());
                out.append("deg settled=");
                out.append(settled.as_str());
                out.append("deg speed_rms=");
                out.append(speed_rms.as_str());
                out.append("deg/s peak_command=");
                out.append(peak_command.as_str());
                out.append("deg/s excess=");
                out.append(excess.as_str());
            },
            RunEvent::Contact { tick, joint, range, requested, below, stopped, loaded } => {
                out.append("tick=");
                out.append(decimal(*tick).as_str());
                out.append(" ");
                out.append(joint_label(*joint).as_str());
                out.append(" DETECT range=");
                out.append(signed(*range).as_str());
                out.append("ticks requested=");
                out.append(requested.as_str());
                out.append("ticks stall_below=");
                out.append(below.as_str());
                out.append("ticks stopped=");
                out.append(truth(*stopped));
                out.append(" loaded=");
                out.append(truth(*loaded));
            },
            RunEvent::FeedbackGap { tick, joint, silent } => {
                out.append("tick=");
                out.append(decimal(*tick).as_str());
                out.append(" ");
                out.append(joint_label(*joint).as_str());
                out.append(" answered again after ");
                out.append(silent.as_str());
                out.append("s of silence");
            },
            RunEvent::Drag { tick, joint, speed, forward, reverse } => {
                out.append("tick=");
                out.append(decimal(*tick).as_str());
                out.append(" ");
                out.append(joint_label(*joint).as_str());
                out.append(" DRAG ");
                out.append(speed.as_str());
                out.append("rad/s forward=");
                out.append(forward.as_str());
                out.append("mA reverse=");
                out.append(reverse.as_str());
                out.append("mA");
            },
            RunEvent::Mechanics { tick, joint, inertia, viscous, coulomb } => {
                out.append("tick=");
                out.append(decimal(*tick).as_str());
                out.append(" ");
                out.append(joint_label(*joint).as_str());
                out.append(" MECHANICS J=");
                out.append(inertia.as_str());
                out.append("kg.m2 b=");
                out.append(viscous.as_str());
                out.append("Nm.s tc=");
                out.append(coulomb.as_str());
                out.append("Nm");
            },
            RunEvent::LimitsStep { tick, joint, velocity, acceleration, jerk, failed } => {
                out.append("tick=");
                out.append(decimal(*tick).as_str());
                out.append(" ");
                out.append(joint_label(*joint).as_str());
                out.append(" LIMITS step velocity=");
                out.append(velocity.as_str());
                out.append("rad/s acceleration=");
                out.append(acceleration.as_str());
                out.append("rad/s2 jerk=");
                out.append(jerk.as_str());
                out.append("rad/s3 ");
                push_told(&mut out, failed, "passed", "failed: ", "");
            },
            RunEvent::GainsStep { tick, joint, kpv, kiv, score, verdict } => {
                out.append("tick=");
                out.append(decimal(*tick).as_str());
                out.append(" ");
                out.append(joint_label(*joint).as_str());
                out.append(" GAINS step kpv=");
                out.append(kpv.as_str());
                out.append(" kiv=");
                out.append(kiv.as_str());
                out.append(" ");
                push_told(&mut out, score, "unstable", "score=", "deg/s");
                out.append(" ");
                out.append(verdict.as_str());
            },
            RunEvent::Gains { tick, joint, kpv_before, kpv_after, kiv_before, kiv_after, score_before, score_after } => {
                out.append("tick=");
                out.append(decimal(*tick).as_str());
                out.append(" ");
                out.append(joint_label(*joint).as_str());
                out.append(" GAINS kpv=");
                out.append(kpv_before.as_str());
                out.append("->");
                out.append(kpv_after.as_str());
                out.append(" kiv=");
                out.append(kiv_before.as_str());
                out.append("->");
                out.append(kiv_after.as_str());
                out.append(" score=");
                out.append(score_before.as_str());
                out.append("->");
                out.append(score_after.as_str());
                out.append("deg/s");
            },
            RunEvent::Limits { tick, joint, velocity, velocity_reached, acceleration, jerk, jerk_measured, ripple } => {
                out.append("tick=");
                out.append(decimal(*tick).as_str());
                out.append(" ");
                out.append(joint_label(*joint).as_str());
                out.append(" LIMITS velocity=");
                out.append(velocity.as_str());
                out.append("rad/s");
                out.append(one_of(*velocity_reached, "", " (lower bound)"));
                out.append(" acceleration=");
                out.append(acceleration.as_str());
                out.append("rad/s2 jerk=");
                out.append(jerk.as_str());
                out.append("rad/s3");
                out.append(one_of(*jerk_measured, "", " (lower bound, not written)"));
                out.append(" ripple=");
                out.append(ripple.as_str());
                out.append("%");
            },
            RunEvent::IdentPose { number, total, q } => {
                out.append("IDENT pose ");
                out.append(decimal(*number).as_str());
                out.append("/");
                out.append(decimal(*total).as_str());
                out.append(" q=");
                out.append(q.as_str());
            },
            RunEvent::IdentTorque { number, torque } => {
                out.append("IDENT pose ");
                out.append(decimal(*number).as_str());
                out.append(" torque ");
                out.append(torque.as_str());
                out.append(" Nm");
            },
            RunEvent::ArmFit { before, after } => {
                out.append("IDENT residual ");
                out.append(before.as_str());
                out.append(" Nm -> ");
                out.append(after.as_str());
                out.append(" Nm");
            },
            RunEvent::Sample => {
                return None;
            },
        }
        Some(out)
    }
}

/// A joint in a sample of the arm; the command is already rendered.
#[derive(Debug)]
pub struct SampledJoint {
    /// What it was commanded.
    pub command: String,
    /// Its position.
    pub position: i32,
    /// Its speed.
    pub speed: i32,
    /// Its current.
    pub current: i32,
    /// Whether its drive reports a fault.
    pub fault: bool,
}

/// The row of one joint, which is numbered from one.
pub open spec fn sample_row(tick: u64, number: nat, joint: SampledJoint) -> Seq<char> {
    decimal_text(tick as nat) + ","@ + decimal_text(number) + ",\""@ + joint.command@ + "\","@
        + signed_text(joint.position as int) + ","@ + signed_text(joint.speed as int) + ","@
        + signed_text(joint.current as int) + ","@ + (if joint.fault {
        "1\n"@
    } else {
        "0\n"@
    })
}

/// The rows of some joints.
pub open spec fn rows_of(tick: u64, joints: Seq<SampledJoint>) -> Seq<char>
    decreases joints.len(),
{
    if joints.len() == 0 {
        Seq::empty()
    } else {
        rows_of(tick, joints.drop_last()) + sample_row(tick, joints.len(), joints.last())
    }
}

/// Append the row of one joint.
fn push_row(out: &mut String, tick: u64, number: u64, joint: &SampledJoint)
    ensures
        final(out)@ == old(out)@ + sample_row(tick, number as nat, *joint),
{
    let mut row: String = decimal(tick);
    row.append(",");
    row.append(decimal(number).as_str());
    row.append(",\"");
    row.append(joint.command.as_str());
    row.append("\",");
    row.append(signed(joint.position as i64).as_str());
    row.append(",");
    row.append(signed(joint.speed as i64).as_str());
    row.append(",");
    row.append(signed(joint.current as i64).as_str());
    row.append(",");
    row.append(
        if joint.fault {
            "1\n"
        } else {
            "0\n"
        },
    );
    out.append(row.as_str());
}

/// The rows a sample of the arm is recorded as, one for each joint.
pub fn sample_rows(tick: u64, joints: &[SampledJoint]) -> (r: String)
    ensures
        r@ == rows_of(tick, joints@),
{
    let mut out: String = String::new();
    let mut j: usize = 0;
    assert(joints@.take(0) =~= Seq::<SampledJoint>::empty());
    while j < joints.len()
        invariant
            j <= joints@.len(),
            out@ == rows_of(tick, joints@.take(j as int)),
        decreases joints@.len() - j,
    {
        assert(joints@.take(j + 1).drop_last() =~= joints@.take(j as int));
        assert(joints@.take(j + 1).last() == joints@[j as int]);
        push_row(&mut out, tick, j as u64 + 1, &joints[j]);
        j += 1;
    }
    assert(joints@.take(j as int) =~= joints@);
    out
}

/// How a line begins that speaks of a joint in a tick.
pub open spec fn when_and_who(tick: u64, joint: usize) -> Seq<char> {
    "tick="@ + decimal_text(tick as nat) + " J"@ + decimal_text((joint + 1) as nat)
}

/// What was measured of a joint is told behind the tick and its name, each quantity with
/// its name before it and its unit behind it; what changed is told as it was and as it is.
pub proof fn law_a_line_tells_what_was_measured(
    tick: u64,
    joint: usize,
    a: String,
    b: String,
    c: String,
    d: String,
    e: String,
    f: String,
)
    ensures
        ({
            let head = when_and_who(tick, joint);
            &&& (RunEvent::Hold {
                tick,
                joint,
                why: a,
                position_rms: b,
                speed_rms: c,
            }).line() == Some(
                head + " HOLD "@ + a@ + " position_rms="@ + b@ + "deg speed_rms="@ + c@
                    + "deg/s"@,
            )
            &&& (RunEvent::FeedbackGap { tick, joint, silent: a }).line() == Some(
                head + " answered again after "@ + a@ + "s of silence"@,
            )
            &&& (RunEvent::Drag { tick, joint, speed: a, forward: b, reverse: c }).line() == Some(
                head + " DRAG "@ + a@ + "rad/s forward="@ + b@ + "mA reverse="@ + c@ + "mA"@,
            )
            &&& (RunEvent::Mechanics {
                tick,
                joint,
                inertia: a,
                viscous: b,
                coulomb: c,
            }).line() == Some(
                head + " MECHANICS J="@ + a@ + "kg.m2 b="@ + b@ + "Nm.s tc="@ + c@ + "Nm"@,
            )
            &&& (RunEvent::Gains {
                tick,
                joint,
                kpv_before: a,
                kpv_after: b,
                kiv_before: c,
                kiv_after: d,
                score_before: e,
                score_after: f,
            }).line() == Some(
                head + " GAINS kpv="@ + a@ + "->"@ + b@ + " kiv="@ + c@ + "->"@ + d@ + " score="@
                    + e@ + "->"@ + f@ + "deg/s"@,
            )
            &&& (RunEvent::ArmFit { before: a, after: b }).line() == Some(
                "IDENT residual "@ + a@ + " Nm -> "@ + b@ + " Nm"@,
            )
        }),
{
    lemma_begins(tick, joint);
    assert(Seq::<char>::empty() + "IDENT residual "@ =~= "IDENT residual "@);
}

/// How every such line begins in the model of its event.
proof fn lemma_begins(tick: u64, joint: usize)
    ensures
        Seq::<char>::empty() + "tick="@ + decimal_text(tick as nat) + " "@ + joint_name(
            joint as int,
        ) == when_and_who(tick, joint),
{
    reveal_strlit(" ");
    reveal_strlit("J");
    reveal_strlit(" J");
    assert(Seq::<char>::empty() + "tick="@ + decimal_text(tick as nat) + " "@ + joint_name(
        joint as int,
    ) =~= when_and_who(tick, joint));
}

/// A step that was tried is told with what it was tried at and what it came to: a limits
/// step passed, or failed for the reason it tells; a gains step was unstable, or scored.
pub proof fn law_a_step_is_told_with_what_it_came_to(
    tick: u64,
    joint: usize,
    a: String,
    b: String,
    c: String,
    d: String,
)
    ensures
        ({
            let head = when_and_who(tick, joint);
            let step = head + " LIMITS step velocity="@ + a@ + "rad/s acceleration="@ + b@
                + "rad/s2 jerk="@ + c@ + "rad/s3 "@;
            let tried = head + " GAINS step kpv="@ + a@ + " kiv="@ + b@ + " "@;
            &&& (RunEvent::LimitsStep {
                tick,
                joint,
                velocity: a,
                acceleration: b,
                jerk: c,
                failed: None,
            }).line() == Some(step + "passed"@)
            &&& (RunEvent::LimitsStep {
                tick,
                joint,
                velocity: a,
                acceleration: b,
                jerk: c,
                failed: Some(d),
            }).line() == Some(step + "failed: "@ + d@)
            &&& (RunEvent::GainsStep {
                tick,
                joint,
                kpv: a,
                kiv: b,
                score: None,
                verdict: c,
            }).line() == Some(tried + "unstable"@ + " "@ + c@)
            &&& (RunEvent::GainsStep {
                tick,
                joint,
                kpv: a,
                kiv: b,
                score: Some(d),
                verdict: c,
            }).line() == Some(tried + "score="@ + d@ + "deg/s"@ + " "@ + c@)
        }),
{
    lemma_begins(tick, joint);
    reveal_strlit("");
    let step = when_and_who(tick, joint) + " LIMITS step velocity="@ + a@ + "rad/s acceleration="@
        + b@ + "rad/s2 jerk="@ + c@ + "rad/s3 "@;
    assert(step + ("failed: "@ + d@ + ""@) =~= step + "failed: "@ + d@);
    let tried = when_and_who(tick, joint) + " GAINS step kpv="@ + a@ + " kiv="@ + b@ + " "@;
    assert(tried + ("score="@ + d@ + "deg/s"@) =~= tried + "score="@ + d@ + "deg/s"@);
}

/// A limit is told as a lower bound exactly if it was not reached: the velocity where it
/// was not, and the jerk where it was not measured, which says that it is not written too.
pub proof fn law_a_bound_is_told_as_one(
    tick: u64,
    joint: usize,
    velocity: String,
    acceleration: String,
    jerk: String,
    ripple: String,
)
    ensures
        ({
            let told = |velocity_reached: bool, jerk_measured: bool|
                (RunEvent::Limits {
                    tick,
                    joint,
                    velocity,
                    velocity_reached,
                    acceleration,
                    jerk,
                    jerk_measured,
                    ripple,
                }).line();
            let first = when_and_who(tick, joint) + " LIMITS velocity="@ + velocity@ + "rad/s"@;
            let second = " acceleration="@ + acceleration@ + "rad/s2 jerk="@ + jerk@ + "rad/s3"@;
            let third = " ripple="@ + ripple@ + "%"@;
            let bound = " (lower bound)"@;
            let unwritten = " (lower bound, not written)"@;
            &&& told(true, true) == Some(first + second + third)
            &&& told(false, true) == Some(first + bound + second + third)
            &&& told(true, false) == Some(first + second + unwritten + third)
            &&& told(false, false) == Some(first + bound + second + unwritten + third)
        }),
{
    lemma_begins(tick, joint);
    reveal_strlit("");
    let first = when_and_who(tick, joint) + " LIMITS velocity="@ + velocity@ + "rad/s"@;
    let second = " acceleration="@ + acceleration@ + "rad/s2 jerk="@ + jerk@ + "rad/s3"@;
    let third = " ripple="@ + ripple@ + "%"@;
    assert forall|x: Seq<char>, y: Seq<char>|
        #![trigger first + x, third + y]
        first + x + " acceleration="@ + acceleration@ + "rad/s2 jerk="@ + jerk@ + "rad/s3"@ + y
            + " ripple="@ + ripple@ + "%"@ == first + x + second + y + third by {
        assert(first + x + " acceleration="@ + acceleration@ + "rad/s2 jerk="@ + jerk@ + "rad/s3"@
            + y + " ripple="@ + ripple@ + "%"@ =~= first + x + second + y + third);
    }
    let bound = " (lower bound)"@;
    let unwritten = " (lower bound, not written)"@;
    assert(first + ""@ =~= first);
    assert(third + ""@ =~= third);
    assert(third + unwritten == third + unwritten);
    assert(first + bound == first + bound);
    assert(first + second + ""@ =~= first + second);
    assert(first + bound + second + ""@ =~= first + bound + second);
}

/// A sample is one row for each joint, in order and numbered from one: tick, number, the
/// command in quotes, position, speed, current, and one or zero for the fault.
pub proof fn law_a_sample_has_a_row_for_each_joint(
    tick: u64,
    joints: Seq<SampledJoint>,
    joint: SampledJoint,
)
    ensures
        rows_of(tick, Seq::empty()) == Seq::<char>::empty(),
        rows_of(tick, joints.push(joint)) == rows_of(tick, joints) + (decimal_text(tick as nat)
            + ","@ + decimal_text(joints.len() + 1) + ",\""@ + joint.command@ + "\","@
            + signed_text(joint.position as int) + ","@ + signed_text(joint.speed as int) + ","@
            + signed_text(joint.current as int) + ","@ + (if joint.fault {
            "1\n"@
        } else {
            "0\n"@
        })),
{
    assert(joints.push(joint).drop_last() =~= joints);
}

/// Whether a gripper answered is told of the node it was asked at, and the poses of an
/// identification are told with their number, of how many where they are gone to.
pub proof fn law_tools_and_poses_are_told_by_number(
    node: u64,
    number: u64,
    total: u64,
    text: String,
)
    ensures
        (RunEvent::Tool { node, found: true }).line() == Some(
            "TOOL node "@ + decimal_text(node as nat) + ": a gripper driver answered"@,
        ),
        (RunEvent::Tool { node, found: false }).line() == Some(
            "TOOL node "@ + decimal_text(node as nat) + ": no gripper driver answered"@,
        ),
        (RunEvent::IdentPose { number, total, q: text }).line() == Some(
            "IDENT pose "@ + decimal_text(number as nat) + "/"@ + decimal_text(total as nat)
                + " q="@ + text@,
        ),
        (RunEvent::IdentTorque { number, torque: text }).line() == Some(
            "IDENT pose "@ + decimal_text(number as nat) + " torque "@ + text@ + " Nm"@,
        ),
{
    reveal_strlit(": ");
    reveal_strlit("a gripper driver answered");
    reveal_strlit("no gripper driver answered");
    reveal_strlit(": a gripper driver answered");
    reveal_strlit(": no gripper driver answered");
    assert((RunEvent::Tool { node, found: true }).line()->0 =~= "TOOL node "@ + decimal_text(
        node as nat,
    ) + ": a gripper driver answered"@);
    assert((RunEvent::Tool { node, found: false }).line()->0 =~= "TOOL node "@ + decimal_text(
        node as nat,
    ) + ": no gripper driver answered"@);
    assert(Seq::<char>::empty() + "IDENT pose "@ =~= "IDENT pose "@);
}

} // verus!
