//! Homing: the order of the sequence, the repeat of a stop reference, and the
//! ready pose that homing leaves the arm in.
use crate::selfcal::adaptive::{is_within, within};
use crate::text::{joint_label, joint_name};
use vstd::prelude::*;

verus! {

/// How a slow approach compares with the reference before it.
#[derive(Clone, Copy, Debug, PartialEq, Eq, Structural)]
pub enum Repeat {
    /// They agree: the reference is the new one.
    Agrees,
    /// They do not: try once more with the new reference.
    Again,
    /// They do not, and no tries are left.
    Failed,
}

/// The repeat check of a stop reference.
#[derive(Clone, Copy, Debug, PartialEq, Eq, Structural)]
pub struct RepeatCheck {
    /// The last reference.
    pub reference: i32,
    /// Tries left.
    pub left: usize,
    /// How far two references may be apart.
    pub tolerance: u32,
}

impl RepeatCheck {
    /// Begin with the first reference; there is always one try.
    pub fn new(reference: i32, retries: usize, tolerance: u32) -> (r: RepeatCheck)
        ensures
            r.reference == reference,
            r.tolerance == tolerance,
            r.left == (if retries == 0 {
                1
            } else {
                retries as int
            }),
    {
        RepeatCheck {
            reference,
            left: if retries == 0 {
                1
            } else {
                retries
            },
            tolerance,
        }
    }

    /// Take the reference of another approach. The new one replaces the old
    /// whatever the comparison says.
    pub fn compare(&mut self, second: i32) -> (r: Repeat)
        requires
            old(self).left > 0,
        ensures
            final(self).reference == second,
            final(self).tolerance == old(self).tolerance,
            r == (if within(old(self).reference, second, old(self).tolerance) {
                Repeat::Agrees
            } else if old(self).left == 1 {
                Repeat::Failed
            } else {
                Repeat::Again
            }),
            final(self).left == (if r == Repeat::Agrees {
                old(self).left as int
            } else {
                old(self).left - 1
            }),
    {
        let agrees = is_within(self.reference, second, self.tolerance);
        self.reference = second;
        if agrees {
            return Repeat::Agrees;
        }
        self.left = self.left - 1;
        if self.left == 0 {
            Repeat::Failed
        } else {
            Repeat::Again
        }
    }
}

/// What homing a joint has come to.
#[derive(Clone, Copy, Debug, PartialEq, Eq, Structural)]
pub enum HomePhase {
    /// The first approach, at full speed.
    First,
    /// A slow approach that is compared with the reference before it.
    Slow {
        /// The comparison.
        check: RepeatCheck,
    },
    /// One more approach, back from where the joint was backed off to.
    Return {
        /// The reference of the first.
        reference: i32,
    },
    /// Over: the reference.
    Found {
        /// Where it is.
        reference: i32,
    },
    /// Over: there is none.
    Failed {
        /// Why.
        reason: HomeFailure,
    },
}

/// Why homing failed.
#[derive(Clone, Copy, Debug, PartialEq, Eq, Structural)]
pub enum HomeFailure {
    /// The first approach gave no reference.
    NoReference,
    /// A slow approach gave none.
    NoSecondReference,
    /// The return gave none.
    NoFinalContact,
    /// No two slow approaches agreed.
    NotRepeated,
    /// A released joint gave no fresh position in time.
    NoFreshFeedback,
    /// A joint released before homing gave no position in time.
    SilentAfterRelease,
    /// A joint is to be moved that has no reference.
    NotReferenced,
    /// A joint did not get to where it was sent.
    NotReached,
    /// The homing sequence of the runtime failed.
    SequenceFailed,
    /// The homing sequence of the runtime ended without a reference.
    NeverLatched,
}

impl HomeFailure {
    /// Whether the message names the joint.
    pub open spec fn names_joint(self) -> bool {
        !(self is NoReference || self is NoSecondReference || self is NoFinalContact)
    }

    /// What happened, after the joint's name where there is one.
    pub open spec fn words(self) -> Seq<char> {
        match self {
            HomeFailure::NoReference => "home reference unavailable"@,
            HomeFailure::NoSecondReference => "second home reference unavailable"@,
            HomeFailure::NoFinalContact => "missing final contact"@,
            HomeFailure::NotRepeated =>
                " home reference did not repeat within requested experiment budget"@,
            HomeFailure::NoFreshFeedback => " no fresh encoder feedback after release"@,
            HomeFailure::SilentAfterRelease => " gave no feedback after release"@,
            HomeFailure::NotReferenced => " is not referenced"@,
            HomeFailure::NotReached => " did not reach the requested position"@,
            HomeFailure::SequenceFailed => " homing failed"@,
            HomeFailure::NeverLatched => " finished homing without a reference"@,
        }
    }

    /// What happened, in words.
    pub fn message(self, joint: usize) -> (r: String)
        requires
            joint < u64::MAX,
        ensures
            r@ == (if self.names_joint() {
                joint_name(joint as int) + self.words()
            } else {
                self.words()
            }),
    {
        let mut out = joint_label(joint);
        match self {
            HomeFailure::NoReference => {
                return "home reference unavailable".to_owned();
            },
            HomeFailure::NoSecondReference => {
                return "second home reference unavailable".to_owned();
            },
            HomeFailure::NoFinalContact => {
                return "missing final contact".to_owned();
            },
            HomeFailure::NotRepeated => out.append(
                " home reference did not repeat within requested experiment budget",
            ),
            HomeFailure::NoFreshFeedback => out.append(" no fresh encoder feedback after release"),
            HomeFailure::SilentAfterRelease => out.append(" gave no feedback after release"),
            HomeFailure::NotReferenced => out.append(" is not referenced"),
            HomeFailure::NotReached => out.append(" did not reach the requested position"),
            HomeFailure::SequenceFailed => out.append(" homing failed"),
            HomeFailure::NeverLatched => out.append(" finished homing without a reference"),
        }
        out
    }
}

/// A joint being homed.
#[derive(Clone, Copy, Debug, PartialEq, Eq, Structural)]
pub struct HomeJoint {
    /// Whether the reference is a Hall edge.
    pub hall: bool,
    /// Whether a stop is approached twice.
    pub two_pass: bool,
    /// Slow approaches allowed; one, where none are.
    pub retries: usize,
    /// How far two references may be apart.
    pub tolerance: u32,
    /// What it has come to.
    pub phase: HomePhase,
}

impl HomeJoint {
    /// Begin.
    pub fn new(hall: bool, two_pass: bool, retries: usize, tolerance: u32) -> (r: HomeJoint)
        ensures
            r == (HomeJoint { hall, two_pass, retries, tolerance, phase: HomePhase::First }),
    {
        HomeJoint { hall, two_pass, retries, tolerance, phase: HomePhase::First }
    }

    /// What an approach that gave the reference `stop` leads to.
    pub open spec fn after(self, stop: Option<i32>) -> HomePhase {
        match self.phase {
            HomePhase::First => match stop {
                None => HomePhase::Failed { reason: HomeFailure::NoReference },
                Some(reference) => if self.hall {
                    HomePhase::Found { reference }
                } else if self.two_pass {
                    HomePhase::Slow {
                        check: RepeatCheck {
                            reference,
                            left: if self.retries == 0 {
                                1
                            } else {
                                self.retries
                            },
                            tolerance: self.tolerance,
                        },
                    }
                } else {
                    HomePhase::Return { reference }
                },
            },
            HomePhase::Slow { check } => match stop {
                None => HomePhase::Failed { reason: HomeFailure::NoSecondReference },
                Some(second) => if within(check.reference, second, check.tolerance) {
                    HomePhase::Found { reference: second }
                } else if check.left <= 1 {
                    HomePhase::Failed { reason: HomeFailure::NotRepeated }
                } else {
                    HomePhase::Slow {
                        check: RepeatCheck {
                            reference: second,
                            left: (check.left - 1) as usize,
                            tolerance: check.tolerance,
                        },
                    }
                },
            },
            HomePhase::Return { reference: _ } => match stop {
                None => HomePhase::Failed { reason: HomeFailure::NoFinalContact },
                Some(reference) => HomePhase::Found { reference },
            },
            HomePhase::Found { .. } => self.phase,
            HomePhase::Failed { .. } => self.phase,
        }
    }

    /// Whether a comparison always has a try left.
    pub open spec fn valid(self) -> bool {
        self.phase matches HomePhase::Slow { check } ==> check.left > 0
    }

    /// Approaches that may still be made.
    pub open spec fn left(self) -> int {
        match self.phase {
            HomePhase::First => if self.retries == 0 {
                2
            } else {
                self.retries + 1
            },
            HomePhase::Slow { check } => check.left as int,
            HomePhase::Return { reference: _ } => 1,
            _ => 0,
        }
    }

    /// The reference the next approach is to confirm; the first has none.
    pub fn confirms(&self) -> (r: Option<i32>)
        ensures
            r == (match self.phase {
                HomePhase::Slow { check } => Some(check.reference),
                HomePhase::Return { reference } => Some(reference),
                _ => None,
            }),
    {
        match self.phase {
            HomePhase::Slow { check } => Some(check.reference),
            HomePhase::Return { reference } => Some(reference),
            _ => None,
        }
    }

    /// Take the reference an approach gave.
    pub fn approached(&mut self, stop: Option<i32>)
        requires
            old(self).valid(),
        ensures
            *final(self) == (HomeJoint { phase: old(self).after(stop), ..*old(self) }),
            final(self).valid(),
    {
        match self.phase {
            HomePhase::First => {
                self.phase =
                match stop {
                    None => HomePhase::Failed { reason: HomeFailure::NoReference },
                    Some(reference) => {
                        if self.hall {
                            HomePhase::Found { reference }
                        } else if self.two_pass {
                            HomePhase::Slow {
                                check: RepeatCheck::new(reference, self.retries, self.tolerance),
                            }
                        } else {
                            HomePhase::Return { reference }
                        }
                    },
                };
            },
            HomePhase::Slow { check } => {
                self.phase =
                match stop {
                    None => HomePhase::Failed { reason: HomeFailure::NoSecondReference },
                    Some(second) => {
                        let mut check = check;
                        match check.compare(second) {
                            Repeat::Agrees => HomePhase::Found { reference: second },
                            Repeat::Failed => HomePhase::Failed {
                                reason: HomeFailure::NotRepeated,
                            },
                            Repeat::Again => HomePhase::Slow { check },
                        }
                    },
                };
            },
            HomePhase::Return { reference: _ } => {
                self.phase =
                match stop {
                    None => HomePhase::Failed { reason: HomeFailure::NoFinalContact },
                    Some(reference) => HomePhase::Found { reference },
                };
            },
            _ => {},
        }
    }

    /// Take a position on tick `t` of the release: on the sampling tick it
    /// becomes the reference.
    pub fn released(&mut self, t: u64, sample_at: u64, position: i32)
        ensures
            old(self).phase is Found && t == sample_at ==> *final(self) == (HomeJoint {
                phase: HomePhase::Found { reference: position },
                ..*old(self)
            }),
            !(old(self).phase is Found && t == sample_at) ==> *final(self) == *old(self),
    {
        if let HomePhase::Found { reference: _ } = self.phase {
            if t == sample_at {
                self.phase = HomePhase::Found { reference: position };
            }
        }
    }
}

/// Homing ends: every approach leaves fewer to make.
pub proof fn law_homing_ends(home: HomeJoint, stop: Option<i32>)
    requires
        home.valid(),
        home.left() > 0,
    ensures
        0 <= (HomeJoint { phase: home.after(stop), ..home }).left() < home.left(),
{
}

/// A stop that is approached twice is taken for the reference only if an
/// approach came within the tolerance of the one before it, and what is taken
/// is the later one.
pub proof fn law_a_two_pass_reference_repeats(home: HomeJoint, stop: Option<i32>, found: i32)
    requires
        home.valid(),
        home.two_pass,
        !home.hall,
        home.phase is First || home.phase is Slow,
        home.after(stop) == (HomePhase::Found { reference: found }),
    ensures
        home.phase matches HomePhase::Slow { check } && stop == Some(found)
            && -(check.tolerance as int) <= check.reference - found <= check.tolerance,
{
}

/// An event of the runtime's homing sequence.
#[derive(Clone, Copy, Debug, PartialEq, Eq, Structural)]
pub enum HomerEvent {
    /// The reference was latched.
    Reference {
        /// Where.
        latched: i32,
    },
    /// The sequence failed.
    Failed,
}

/// Take an event of the runtime's homing sequence. A failure ends the homing,
/// and the last reference latched is the one that counts.
pub fn homer_event(reference: Option<i32>, event: Option<HomerEvent>) -> (r: Result<
    Option<i32>,
    HomeFailure,
>)
    ensures
        r == (match event {
            Some(HomerEvent::Reference { latched }) => Ok::<Option<i32>, HomeFailure>(Some(latched)),
            Some(HomerEvent::Failed) => Err(HomeFailure::SequenceFailed),
            None => Ok(reference),
        }),
{
    match event {
        Some(HomerEvent::Reference { latched }) => Ok(Some(latched)),
        Some(HomerEvent::Failed) => Err(HomeFailure::SequenceFailed),
        None => Ok(reference),
    }
}

/// What the runtime's homing sequence came to once it no longer runs.
pub fn homer_result(reference: Option<i32>) -> (r: Result<i32, HomeFailure>)
    ensures
        r == (match reference {
            Some(found) => Ok::<i32, HomeFailure>(found),
            None => Err(HomeFailure::NeverLatched),
        }),
{
    match reference {
        Some(found) => Ok(found),
        None => Err(HomeFailure::NeverLatched),
    }
}

/// What a move of one joint came to: nothing is moved that has no reference
/// (`arrived` is then `None`), and a move counts only if it arrived.
pub fn move_result(referenced: bool, arrived: Option<bool>) -> (r: Result<(), HomeFailure>)
    ensures
        r == (if !referenced {
            Err::<(), HomeFailure>(HomeFailure::NotReferenced)
        } else if arrived == Some(true) {
            Ok(())
        } else {
            Err(HomeFailure::NotReached)
        }),
{
    if !referenced {
        return Err(HomeFailure::NotReferenced);
    }
    match arrived {
        Some(true) => Ok(()),
        _ => Err(HomeFailure::NotReached),
    }
}

/// Ticks a released joint is commanded idle before it is polled.
pub const RELEASE_TICKS: u64 = 2;

/// How a released joint stands.
#[derive(Clone, Copy, Debug, PartialEq, Eq, Structural)]
pub enum ReleaseStep {
    /// Still being released.
    Releasing,
    /// Released; waiting for a fresh position.
    Waiting,
    /// A fresh position arrived.
    Fresh,
}

/// A joint being let go: it is commanded idle, then polled until it gives a
/// position that is newer than the release.
#[derive(Clone, Copy, Debug, PartialEq, Eq, Structural)]
pub struct Release {
    /// The position count at the last idle command.
    pub generation: u64,
}

impl Release {
    /// Whether the joint is commanded idle on tick `t`, and not polled.
    pub fn idles(t: u64) -> (r: bool)
        ensures
            r == (t < RELEASE_TICKS),
    {
        t < RELEASE_TICKS
    }

    /// Take the position count after tick `t`.
    pub fn observe(&mut self, t: u64, generation: u64) -> (r: ReleaseStep)
        ensures
            t < RELEASE_TICKS ==> r == ReleaseStep::Releasing && final(self).generation
                == generation,
            t >= RELEASE_TICKS ==> *final(self) == *old(self) && r == (if generation == old(
                self,
            ).generation {
                ReleaseStep::Waiting
            } else {
                ReleaseStep::Fresh
            }),
    {
        if t < RELEASE_TICKS {
            self.generation = generation;
            ReleaseStep::Releasing
        } else if generation != self.generation {
            ReleaseStep::Fresh
        } else {
            ReleaseStep::Waiting
        }
    }
}

/// A move of the homing sequence.
#[derive(Clone, Copy, Debug, PartialEq, Eq)]
pub struct MoveTo<P> {
    /// The joint.
    pub joint: u8,
    /// Where to.
    pub position: P,
}

/// A step of the homing sequence; `M` stands for a preparatory move.
#[derive(Debug)]
pub struct HomingStep<P, M> {
    /// Moves before.
    pub pre_moves: Vec<M>,
    /// The joints homed, in order.
    pub home: Vec<u8>,
    /// Moves to positions.
    pub move_to: Vec<MoveTo<P>>,
    /// Moves after.
    pub post_moves: Vec<M>,
}

/// One action of the homing sequence.
#[derive(Clone, Copy, Debug, PartialEq, Eq)]
pub enum HomingAction<P, M> {
    /// Make a preparatory move.
    PreMove(M),
    /// Home a joint.
    Home(u8),
    /// Move a joint to a position.
    MoveTo(MoveTo<P>),
}

/// The actions of some moves.
pub open spec fn move_actions<P, M>(moves: Seq<M>) -> Seq<HomingAction<P, M>> {
    moves.map_values(|m: M| HomingAction::PreMove(m))
}

/// The actions of a step: its moves before, its joints, its moves to positions,
/// its moves after.
pub open spec fn step_actions<P, M>(step: HomingStep<P, M>) -> Seq<HomingAction<P, M>> {
    move_actions(step.pre_moves@) + step.home@.map_values(|j: u8| HomingAction::Home(j))
        + step.move_to@.map_values(|m: MoveTo<P>| HomingAction::MoveTo(m)) + move_actions(
        step.post_moves@,
    )
}

/// The actions of a sequence: those of its steps in order.
pub open spec fn sequence_actions<P, M>(steps: Seq<HomingStep<P, M>>) -> Seq<HomingAction<P, M>>
    decreases steps.len(),
{
    if steps.len() == 0 {
        Seq::empty()
    } else {
        sequence_actions(steps.drop_last()) + step_actions(steps.last())
    }
}

/// Append the preparatory moves.
fn push_moves<P: Copy, M: Copy>(moves: &Vec<M>, out: &mut Vec<HomingAction<P, M>>)
    ensures
        final(out)@ == old(out)@ + move_actions::<P, M>(moves@),
{
    let ghost before = out@;
    let mut i: usize = 0;
    assert(out@ =~= before + move_actions::<P, M>(moves@.take(0)));
    while i < moves.len()
        invariant
            i <= moves@.len(),
            out@ == before + move_actions::<P, M>(moves@.take(i as int)),
        decreases moves@.len() - i,
    {
        out.push(HomingAction::PreMove(moves[i]));
        assert(out@ =~= before + move_actions::<P, M>(moves@.take(i + 1)));
        i += 1;
    }
    assert(moves@.take(i as int) =~= moves@);
}

/// Append the actions of a step.
fn push_step<P: Copy, M: Copy>(step: &HomingStep<P, M>, out: &mut Vec<HomingAction<P, M>>)
    ensures
        final(out)@ == old(out)@ + step_actions(*step),
{
    push_moves(&step.pre_moves, out);
    let ghost before = out@;
    let ghost homes = step.home@.map_values(|j: u8| HomingAction::<P, M>::Home(j));
    let mut i: usize = 0;
    assert(out@ =~= before + homes.take(0));
    while i < step.home.len()
        invariant
            i <= step.home@.len(),
            homes == step.home@.map_values(|j: u8| HomingAction::<P, M>::Home(j)),
            out@ == before + homes.take(i as int),
        decreases step.home@.len() - i,
    {
        out.push(HomingAction::Home(step.home[i]));
        assert(out@ =~= before + homes.take(i + 1));
        i += 1;
    }
    assert(homes.take(i as int) =~= homes);
    let ghost homed = out@;
    let ghost moves = step.move_to@.map_values(|m: MoveTo<P>| HomingAction::<P, M>::MoveTo(m));
    let mut k: usize = 0;
    assert(out@ =~= homed + moves.take(0));
    while k < step.move_to.len()
        invariant
            k <= step.move_to@.len(),
            moves == step.move_to@.map_values(|m: MoveTo<P>| HomingAction::<P, M>::MoveTo(m)),
            out@ == homed + moves.take(k as int),
        decreases step.move_to@.len() - k,
    {
        out.push(HomingAction::MoveTo(step.move_to[k]));
        assert(out@ =~= homed + moves.take(k + 1));
        k += 1;
    }
    assert(moves.take(k as int) =~= moves);
    push_moves(&step.post_moves, out);
    assert(out@ =~= old(out)@ + step_actions(*step));
}

/// The homing sequence as one list: each step in order, and the moves that
/// follow the last.
pub fn homing_actions<P: Copy, M: Copy>(steps: &Vec<HomingStep<P, M>>, post_moves: &Vec<M>) -> (r:
    Vec<HomingAction<P, M>>)
    ensures
        r@ == sequence_actions(steps@) + move_actions::<P, M>(post_moves@),
{
    let mut out: Vec<HomingAction<P, M>> = Vec::new();
    let mut i: usize = 0;
    assert(out@ =~= sequence_actions(steps@.take(0)));
    while i < steps.len()
        invariant
            i <= steps@.len(),
            out@ == sequence_actions(steps@.take(i as int)),
        decreases steps@.len() - i,
    {
        push_step(&steps[i], &mut out);
        assert(steps@.take(i + 1).drop_last() =~= steps@.take(i as int));
        i += 1;
    }
    assert(steps@.take(i as int) =~= steps@);
    push_moves(post_moves, &mut out);
    out
}

/// The pose after one joint of a group is homed: its post-home position, where
/// it has one.
pub open spec fn homed_pose<P>(q: Seq<P>, joint: u8, post_home: Seq<Option<P>>) -> Seq<P> {
    match post_home[joint as int] {
        Some(p) => q.update(joint as int, p),
        None => q,
    }
}

/// The pose after some joints are homed in order.
pub open spec fn after_homes<P>(q: Seq<P>, joints: Seq<u8>, post_home: Seq<Option<P>>) -> Seq<P>
    decreases joints.len(),
{
    if joints.len() == 0 {
        q
    } else {
        homed_pose(
            after_homes(q, joints.drop_last(), post_home),
            joints.last(),
            post_home,
        )
    }
}

/// The pose after some moves in order.
pub open spec fn after_moves<P>(q: Seq<P>, moves: Seq<MoveTo<P>>) -> Seq<P>
    decreases moves.len(),
{
    if moves.len() == 0 {
        q
    } else {
        after_moves(q, moves.drop_last()).update(moves.last().joint as int, moves.last().position)
    }
}

/// The pose after some steps in order.
pub open spec fn after_steps<P, M>(
    q: Seq<P>,
    steps: Seq<HomingStep<P, M>>,
    post_home: Seq<Option<P>>,
) -> Seq<P>
    decreases steps.len(),
{
    if steps.len() == 0 {
        q
    } else {
        let step = steps.last();
        after_moves(
            after_homes(after_steps(q, steps.drop_last(), post_home), step.home@, post_home),
            step.move_to@,
        )
    }
}

/// Whether every joint a step names exists.
pub open spec fn joints_exist<P, M>(step: HomingStep<P, M>, n: int) -> bool {
    &&& forall|i: int| 0 <= i < step.home@.len() ==> (#[trigger] step.home@[i]) < n
    &&& forall|i: int| 0 <= i < step.move_to@.len() ==> (#[trigger] step.move_to@[i]).joint < n
}

/// The pose homing leaves the arm in: the park pose, with every joint where
/// the last step that places it puts it.
pub fn planned_ready<P: Copy, M>(
    park: &Vec<P>,
    steps: &Vec<HomingStep<P, M>>,
    post_home: &Vec<Option<P>>,
) -> (r: Vec<P>)
    requires
        park@.len() == post_home@.len(),
        forall|i: int| 0 <= i < steps@.len() ==> joints_exist(#[trigger] steps@[i], park@.len() as int),
    ensures
        r@ == after_steps(park@, steps@, post_home@),
        r@.len() == park@.len(),
{
    let mut q: Vec<P> = Vec::new();
    let mut c: usize = 0;
    while c < park.len()
        invariant
            c <= park@.len(),
            q@ == park@.take(c as int),
        decreases park@.len() - c,
    {
        q.push(park[c]);
        assert(q@ =~= park@.take(c + 1));
        c += 1;
    }
    assert(park@.take(c as int) =~= park@);
    let mut i: usize = 0;
    assert(steps@.take(0) =~= Seq::<HomingStep<P, M>>::empty());
    while i < steps.len()
        invariant
            i <= steps@.len(),
            park@.len() == post_home@.len(),
            q@.len() == park@.len(),
            forall|k: int|
                0 <= k < steps@.len() ==> joints_exist(#[trigger] steps@[k], park@.len() as int),
            q@ == after_steps(park@, steps@.take(i as int), post_home@),
        decreases steps@.len() - i,
    {
        let step = &steps[i];
        let ghost start = q@;
        assert(joints_exist(steps@[i as int], park@.len() as int));
        let mut h: usize = 0;
        assert(step.home@.take(0) =~= Seq::<u8>::empty());
        while h < step.home.len()
            invariant
                h <= step.home@.len(),
                joints_exist(*step, park@.len() as int),
                park@.len() == post_home@.len(),
                q@.len() == park@.len(),
                q@ == after_homes(start, step.home@.take(h as int), post_home@),
            decreases step.home@.len() - h,
        {
            let j: usize = step.home[h] as usize;
            assert(step.home@.take(h + 1).drop_last() =~= step.home@.take(h as int));
            assert(step.home@.take(h + 1).last() == step.home@[h as int]);
            if let Some(p) = post_home[j] {
                q[j] = p;
            }
            h += 1;
        }
        assert(step.home@.take(h as int) =~= step.home@);
        let ghost homed = q@;
        let mut m: usize = 0;
        assert(step.move_to@.take(0) =~= Seq::<MoveTo<P>>::empty());
        while m < step.move_to.len()
            invariant
                m <= step.move_to@.len(),
                joints_exist(*step, park@.len() as int),
                q@.len() == park@.len(),
                q@ == after_moves(homed, step.move_to@.take(m as int)),
            decreases step.move_to@.len() - m,
        {
            let mv = step.move_to[m];
            assert(step.move_to@.take(m + 1).drop_last() =~= step.move_to@.take(m as int));
            assert(step.move_to@.take(m + 1).last() == step.move_to@[m as int]);
            q[mv.joint as usize] = mv.position;
            m += 1;
        }
        assert(step.move_to@.take(m as int) =~= step.move_to@);
        assert(steps@.take(i + 1).drop_last() =~= steps@.take(i as int));
        assert(steps@.take(i + 1).last() == steps@[i as int]);
        i += 1;
    }
    assert(steps@.take(i as int) =~= steps@);
    q
}

/// What an approach comes to. A Hall edge is the reference at once. A stop has to be
/// found again: slowly, within the tolerance of the one before, or else as often as is
/// left, each time against the last one found; or just once where one pass is enough. An
/// approach that finds nothing ends the homing, with its own reason.
pub proof fn law_what_an_approach_comes_to(home: HomeJoint, stop: i32)
    ensures
        home.phase is First ==> home.after(None) == (HomePhase::Failed {
            reason: HomeFailure::NoReference,
        }),
        home.phase is Slow ==> home.after(None) == (HomePhase::Failed {
            reason: HomeFailure::NoSecondReference,
        }),
        home.phase is Return ==> home.after(None) == (HomePhase::Failed {
            reason: HomeFailure::NoFinalContact,
        }),
        home.phase is First && home.hall ==> home.after(Some(stop)) == (HomePhase::Found {
            reference: stop,
        }),
        home.phase is First && !home.hall && !home.two_pass ==> home.after(Some(stop)) == (
        HomePhase::Return { reference: stop }),
        home.phase is First && !home.hall && home.two_pass ==> home.after(Some(stop)) == (
        HomePhase::Slow {
            check: RepeatCheck {
                reference: stop,
                left: if home.retries == 0 {
                    1
                } else {
                    home.retries
                },
                tolerance: home.tolerance,
            },
        }),
        home.phase is Return ==> home.after(Some(stop)) == (HomePhase::Found { reference: stop }),
        home.phase matches HomePhase::Slow { check } ==> {
            let apart = if check.reference >= stop {
                check.reference - stop
            } else {
                stop - check.reference
            };
            home.after(Some(stop)) == (if apart <= check.tolerance {
                HomePhase::Found { reference: stop }
            } else if check.left <= 1 {
                HomePhase::Failed { reason: HomeFailure::NotRepeated }
            } else {
                HomePhase::Slow {
                    check: RepeatCheck {
                        reference: stop,
                        left: (check.left - 1) as usize,
                        tolerance: check.tolerance,
                    },
                }
            })
        },
        home.phase is Found || home.phase is Failed ==> home.after(Some(stop)) == home.phase
            && home.after(None) == home.phase,
{
}

/// A step of the sequence makes its first moves, homes its joints, moves to its places
/// and makes its last moves, and every step comes after all of the one before.
pub proof fn law_the_sequence_is_followed<P, M>(
    steps: Seq<HomingStep<P, M>>,
    step: HomingStep<P, M>,
    i: int,
)
    ensures
        ({
            let all = sequence_actions(steps.push(step));
            let (b, h, m, p) = (
                step.pre_moves@.len() as int,
                step.home@.len() as int,
                step.move_to@.len() as int,
                step.post_moves@.len() as int,
            );
            let n = sequence_actions(steps).len() as int;
            &&& all.take(n) == sequence_actions(steps)
            &&& all.len() == n + b + h + m + p
            &&& 0 <= i < b ==> all[n + i] == HomingAction::<P, M>::PreMove(step.pre_moves@[i])
            &&& 0 <= i < h ==> all[n + b + i] == HomingAction::<P, M>::Home(step.home@[i])
            &&& 0 <= i < m ==> all[n + b + h + i] == HomingAction::<P, M>::MoveTo(step.move_to@[i])
            &&& 0 <= i < p ==> all[n + b + h + m + i] == HomingAction::<P, M>::PreMove(
                step.post_moves@[i],
            )
        }),
        sequence_actions(Seq::<HomingStep<P, M>>::empty()).len() == 0,
{
    assert(steps.push(step).drop_last() =~= steps);
    let all = sequence_actions(steps.push(step));
    assert(all.take(sequence_actions(steps).len() as int) =~= sequence_actions(steps));
}

/// The ready pose is where the sequence leaves each joint: a step places a joint where its
/// last move to it goes, failing that where homing it leaves it, and failing that where
/// the steps before did; and a joint that nothing places stays parked.
pub proof fn law_the_last_placement_of_a_joint_stands<P, M>(
    q: Seq<P>,
    steps: Seq<HomingStep<P, M>>,
    step: HomingStep<P, M>,
    post_home: Seq<Option<P>>,
    joints: Seq<u8>,
    joint: u8,
    moves: Seq<MoveTo<P>>,
    place: MoveTo<P>,
)
    requires
        joint < post_home.len(),
    ensures
        after_steps(q, Seq::<HomingStep<P, M>>::empty(), post_home) == q,
        after_steps(q, steps.push(step), post_home) == after_moves(
            after_homes(after_steps(q, steps, post_home), step.home@, post_home),
            step.move_to@,
        ),
        after_moves(q, Seq::<MoveTo<P>>::empty()) == q,
        after_moves(q, moves.push(place)) == after_moves(q, moves).update(
            place.joint as int,
            place.position,
        ),
        after_homes(q, Seq::<u8>::empty(), post_home) == q,
        post_home[joint as int] is None ==> after_homes(q, joints.push(joint), post_home)
            == after_homes(q, joints, post_home),
        post_home[joint as int] matches Some(p) ==> after_homes(q, joints.push(joint), post_home)
            == after_homes(q, joints, post_home).update(joint as int, p),
{
    assert(steps.push(step).drop_last() =~= steps);
    assert(moves.push(place).drop_last() =~= moves);
    assert(joints.push(joint).drop_last() =~= joints);
}

/// A failure of one joint is told behind its name, and one of a reference or contact that
/// was never had without; each in words of its own.
pub proof fn law_every_failure_to_home_has_its_words(failure: HomeFailure)
    ensures
        !failure.names_joint() <==> failure is NoReference || failure is NoSecondReference
            || failure is NoFinalContact,
        failure is NoReference ==> failure.words() == "home reference unavailable"@,
        failure is NoSecondReference ==> failure.words() == "second home reference unavailable"@,
        failure is NoFinalContact ==> failure.words() == "missing final contact"@,
        failure is NotRepeated ==> failure.words()
            == " home reference did not repeat within requested experiment budget"@,
        failure is NoFreshFeedback ==> failure.words()
            == " no fresh encoder feedback after release"@,
        failure is SilentAfterRelease ==> failure.words() == " gave no feedback after release"@,
        failure is NotReferenced ==> failure.words() == " is not referenced"@,
        failure is NotReached ==> failure.words() == " did not reach the requested position"@,
        failure is SequenceFailed ==> failure.words() == " homing failed"@,
        failure is NeverLatched ==> failure.words() == " finished homing without a reference"@,
{
}

} // verus!
