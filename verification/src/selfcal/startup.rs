//! Bringing the drives up: polling until all answer, raising the holding
//! current, and making sure that the arm holds still and carries the tool it is
//! said to.
use crate::selfcal::mechanics::first_of;
use crate::text::{decimal, decimal_text, joint_label, joint_name};
use vstd::prelude::*;

verus! {

/// What the drives are sent while they come up.
#[derive(Clone, Copy, Debug, PartialEq, Eq, Structural)]
pub enum BringupCommand {
    /// A poll of the encoders; nothing is held yet.
    Poll,
    /// A hold where each joint was found.
    Hold,
}

/// How far the drives have come.
#[derive(Clone, Copy, Debug, PartialEq, Eq, Structural)]
pub enum BringupStep {
    /// Not all answer yet.
    Waiting,
    /// All have answered: the joints are held where they were found from now
    /// on.
    Adopt,
    /// All report position, speed and current.
    Up,
    /// Time is up.
    TimedOut,
}

/// The drives coming up.
#[derive(Clone, Copy, Debug, PartialEq, Eq, Structural)]
pub struct Bringup {
    /// Whether the joints are held.
    pub holding: bool,
    /// Ticks spent.
    pub ticks: u64,
    /// Ticks allowed.
    pub allowed: u64,
}

impl Bringup {
    /// Begin.
    pub fn new(allowed: u64) -> (r: Bringup)
        ensures
            r == (Bringup { holding: false, ticks: 0, allowed }),
    {
        Bringup { holding: false, ticks: 0, allowed }
    }

    /// What the drives are sent next.
    pub fn command(&self) -> (r: BringupCommand)
        ensures
            r == (if self.holding {
                BringupCommand::Hold
            } else {
                BringupCommand::Poll
            }),
    {
        if self.holding {
            BringupCommand::Hold
        } else {
            BringupCommand::Poll
        }
    }

    /// The drives after a tick. `answered` says whether every drive has, and
    /// `complete` whether every drive reports speed and current.
    pub open spec fn after(self, answered: bool, complete: bool) -> (Bringup, BringupStep) {
        let held = Bringup {
            holding: self.holding || answered,
            ticks: (self.ticks + 1) as u64,
            ..self
        };
        let step = if held.holding && complete {
            BringupStep::Up
        } else if held.ticks >= self.allowed {
            BringupStep::TimedOut
        } else if answered && !self.holding {
            BringupStep::Adopt
        } else {
            BringupStep::Waiting
        };
        (held, step)
    }

    /// Take what the drives did on a tick.
    pub fn observe(&mut self, answered: bool, complete: bool) -> (r: BringupStep)
        requires
            old(self).ticks < old(self).allowed,
        ensures
            (*final(self), r) == old(self).after(answered, complete),
    {
        let adopt = answered && !self.holding;
        if answered {
            self.holding = true;
        }
        self.ticks = self.ticks + 1;
        if self.holding && complete {
            BringupStep::Up
        } else if self.ticks >= self.allowed {
            BringupStep::TimedOut
        } else if adopt {
            BringupStep::Adopt
        } else {
            BringupStep::Waiting
        }
    }
}

/// What drives that did not come up are told as.
pub fn not_up_message() -> (r: &'static str)
    ensures
        r@ == "not all six drives supplied position, velocity and current feedback"@,
{
    "not all six drives supplied position, velocity and current feedback"
}

/// What a drive is configured with.
#[derive(Clone, Copy, Debug, PartialEq, Eq, Structural)]
pub enum ConfigKind {
    /// Its limits.
    Limits,
    /// Its velocity gains.
    VelocityGains,
    /// Its position gains.
    PositionGains,
}

/// The frames a drive is configured with: each three times, in rounds.
pub open spec fn config_rounds() -> Seq<ConfigKind> {
    let round = seq![ConfigKind::Limits, ConfigKind::VelocityGains, ConfigKind::PositionGains];
    round + round + round
}

/// The frames a drive is configured with.
pub fn config_frames() -> (r: Vec<ConfigKind>)
    ensures
        r@ == config_rounds(),
{
    let mut out: Vec<ConfigKind> = Vec::new();
    let mut i: usize = 0;
    while i < 3
        invariant
            i <= 3,
            out@ == config_rounds().take(3 * i),
        decreases 3 - i,
    {
        out.push(ConfigKind::Limits);
        out.push(ConfigKind::VelocityGains);
        out.push(ConfigKind::PositionGains);
        assert(out@ =~= config_rounds().take(3 * (i + 1)));
        i += 1;
    }
    assert(out@ =~= config_rounds());
    out
}

/// How often every joint's current cap is raised in a ramp of that many ticks,
/// one joint a tick.
pub fn ramp_sweeps(ticks: u64, joints: u64) -> (r: u64)
    requires
        joints > 0,
    ensures
        r * joints >= ticks,
        r > 0 ==> (r - 1) * joints < ticks,
{
    let whole: u64 = ticks / joints;
    let rest: u64 = ticks % joints;
    assert(ticks == joints * whole + rest && rest < joints) by (nonlinear_arith)
        requires
            joints > 0,
            whole == ticks / joints,
            rest == ticks % joints,
    ;
    if rest == 0 {
        assert(whole * joints == ticks) by (nonlinear_arith)
            requires
                ticks == joints * whole + rest,
                rest == 0,
        ;
        assert(whole > 0 ==> (whole - 1) * joints < ticks) by (nonlinear_arith)
            requires
                ticks == joints * whole + rest,
                rest == 0,
                joints > 0,
        ;
        whole
    } else {
        assert(whole < u64::MAX) by (nonlinear_arith)
            requires
                ticks == joints * whole + rest,
                rest > 0,
                joints > 0,
                ticks <= u64::MAX,
        ;
        assert((whole + 1) * joints >= ticks) by (nonlinear_arith)
            requires
                ticks == joints * whole + rest,
                rest < joints,
        ;
        assert(whole * joints < ticks) by (nonlinear_arith)
            requires
                ticks == joints * whole + rest,
                rest > 0,
        ;
        whole + 1
    }
}

/// What a joint that does not hold still is told as; the angles are already
/// rendered.
pub fn restless_message(joint: usize, offset: &str, speed: &str) -> (r: String)
    requires
        joint < u64::MAX,
    ensures
        r@ == joint_name(joint as int) + " will not hold still at startup: "@ + offset@ + "deg, "@
            + speed@ + "deg/s"@,
{
    let mut out = joint_label(joint);
    out.append(" will not hold still at startup: ");
    out.append(offset);
    out.append("deg, ");
    out.append(speed);
    out.append("deg/s");
    out
}

/// What a tool that is not the one named is told as. `declared` says whether
/// the tool named is driven.
pub fn tool_message(tool: &str, node: u8, declared: bool) -> (r: String)
    ensures
        r@ == (if declared {
            "config names `"@ + tool@ + "`, a tool with a CAN driver, but none answered on node "@
                + decimal_text(node as nat)
                + ". Fit it, or select a passive tool such as `Flange`."@
        } else {
            "config names `"@ + tool@ + "`, a passive tool, but a gripper driver answered on node "@
                + decimal_text(node as nat)
                + ". Select the tool that is fitted: its mass is most of the wrist's load."@
        }),
{
    let mut out: String = "config names `".to_owned();
    out.append(tool);
    let n = decimal(node as u64);
    if declared {
        out.append("`, a tool with a CAN driver, but none answered on node ");
        out.append(n.as_str());
        out.append(". Fit it, or select a passive tool such as `Flange`.");
    } else {
        out.append("`, a passive tool, but a gripper driver answered on node ");
        out.append(n.as_str());
        out.append(". Select the tool that is fitted: its mass is most of the wrist's load.");
    }
    out
}

/// Nothing is held before every drive has answered, and a joint that is held is
/// never let go while the drives come up.
pub proof fn law_joints_are_held_once_found(up: Bringup, answered: bool, complete: bool)
    ensures
        up.after(answered, complete).0.holding <==> up.holding || answered,
        up.after(answered, complete).1 == BringupStep::Up ==> up.holding || answered,
{
}

/// What the preparation of the holding gains asks for.
#[derive(Clone, Copy, Debug, PartialEq, Eq, Structural)]
pub enum HoldStep {
    /// Observe how every joint holds.
    Observe,
    /// Tune a joint on its own hold.
    Tune {
        /// The joint.
        joint: usize,
    },
    /// Every joint holds still.
    Verified,
}

/// The preparation of the holding gains: observe, tune the first joint that does
/// not hold still, and observe again. A failure to observe or to tune ends it;
/// nothing else does but an observation in which every joint holds still.
#[derive(Clone, Copy, Debug, PartialEq, Eq, Structural)]
pub struct HoldPreparation {
    /// What it asks for.
    pub step: HoldStep,
}

impl HoldPreparation {
    /// Begin.
    pub fn new() -> (r: HoldPreparation)
        ensures
            r.step == HoldStep::Observe,
    {
        HoldPreparation { step: HoldStep::Observe }
    }

    /// Take an observation; `restless` says which joints did not hold still.
    pub fn observed(&mut self, restless: &[bool])
        requires
            old(self).step == HoldStep::Observe,
        ensures
            final(self).step == HoldStep::Verified <==> forall|j: int|
                0 <= j < restless@.len() ==> !(#[trigger] restless@[j]),
            final(self).step != HoldStep::Verified ==> (final(self).step matches HoldStep::Tune {
                joint,
            } && joint < restless@.len() && restless@[joint as int] && forall|i: int|
                0 <= i < joint ==> !(#[trigger] restless@[i])),
    {
        self.step = match first_of(restless) {
            Some(joint) => HoldStep::Tune { joint },
            None => HoldStep::Verified,
        };
    }

    /// Take that the joint was tuned: its hold is observed anew.
    pub fn tuned(&mut self)
        requires
            old(self).step is Tune,
        ensures
            final(self).step == HoldStep::Observe,
    {
        self.step = HoldStep::Observe;
    }
}

/// The drives are up once all have answered and every feedback is there, in whichever
/// order and at the latest with the last tick allowed; the tick in which all have first
/// answered adopts where they are, and every tick counts.
pub proof fn law_the_drives_come_up_on_full_feedback(up: Bringup, answered: bool, complete: bool)
    requires
        up.ticks < up.allowed,
    ensures
        ({
            let (next, step) = up.after(answered, complete);
            let holds = up.holding || answered;
            &&& next == (Bringup { holding: holds, ticks: (up.ticks + 1) as u64, allowed: up.allowed })
            &&& step == BringupStep::Up <==> holds && complete
            &&& step == BringupStep::TimedOut <==> !(holds && complete) && up.ticks + 1 == up.allowed
            &&& step == BringupStep::Adopt <==> !complete && answered && !up.holding && up.ticks + 1
                < up.allowed
        }),
{
}

/// A drive is configured in three rounds, each of which sends every kind once and in the
/// same order: limits, velocity gains, position gains.
pub proof fn law_a_drive_is_configured_in_rounds(i: int)
    requires
        0 <= i < 9,
    ensures
        config_rounds().len() == 9,
        i % 3 == 0 ==> config_rounds()[i] == ConfigKind::Limits,
        i % 3 == 1 ==> config_rounds()[i] == ConfigKind::VelocityGains,
        i % 3 == 2 ==> config_rounds()[i] == ConfigKind::PositionGains,
{
}

} // verus!
