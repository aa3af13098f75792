//! A calibration run: its stages in order, the shutdown that follows whatever
//! they came to, and what is done with the results.
use vstd::prelude::*;

verus! {

/// What was asked of the run.
#[derive(Clone, Copy, Debug, PartialEq, Eq, Structural)]
pub struct RunOptions {
    /// Find the limits too.
    pub limits: bool,
    /// Find the limits and nothing else.
    pub limits_only: bool,
    /// Tune the gains too.
    pub gains: bool,
    /// Tune the gains and nothing else.
    pub gains_only: bool,
    /// Run against the simulator.
    pub sim: bool,
    /// Write the results into the configuration.
    pub apply: bool,
}

/// A stage of a run.
#[derive(Clone, Copy, Debug, PartialEq, Eq, Structural)]
pub enum Stage {
    /// Bring the drives up.
    Initialize,
    /// Find every joint's reference.
    Home,
    /// Measure inertia and friction.
    Mechanics,
    /// Fit the link masses.
    Identify,
    /// Tune the gains.
    Gains,
    /// Find the limits.
    Limits,
}

impl RunOptions {
    /// Whether the limits are found.
    pub open spec fn finds_limits(self) -> bool {
        self.limits || self.limits_only
    }

    /// Whether the gains are tuned.
    pub open spec fn tunes_gains(self) -> bool {
        self.gains || self.gains_only
    }

    /// Whether the arm is left unmeasured.
    pub open spec fn only(self) -> bool {
        self.limits_only || self.gains_only
    }

    /// The stages, in order.
    pub open spec fn stages(self) -> Seq<Stage> {
        seq![Stage::Initialize, Stage::Home] + (if self.only() {
            Seq::empty()
        } else {
            seq![Stage::Mechanics, Stage::Identify]
        }) + (if self.tunes_gains() {
            seq![Stage::Gains]
        } else {
            Seq::empty()
        }) + (if self.finds_limits() {
            seq![Stage::Limits]
        } else {
            Seq::empty()
        })
    }

    /// Whether the spans the joints are probed over have to be planned.
    pub fn needs_spans(&self) -> (r: bool)
        ensures
            r == (self.finds_limits() || self.tunes_gains()),
    {
        self.limits || self.limits_only || self.gains || self.gains_only
    }

    /// The stages, in order.
    pub fn plan(&self) -> (r: Vec<Stage>)
        ensures
            r@ == self.stages(),
    {
        let mut out: Vec<Stage> = Vec::new();
        out.push(Stage::Initialize);
        out.push(Stage::Home);
        if !(self.limits_only || self.gains_only) {
            out.push(Stage::Mechanics);
            out.push(Stage::Identify);
        }
        if self.gains || self.gains_only {
            out.push(Stage::Gains);
        }
        if self.limits || self.limits_only {
            out.push(Stage::Limits);
        }
        assert(out@ =~= self.stages());
        out
    }
}

/// Where a run is.
#[derive(Clone, Copy, Debug, PartialEq, Eq, Structural)]
pub enum RunPhase {
    /// This stage of the plan is next.
    Stage {
        /// Its number.
        next: usize,
    },
    /// The arm is to be parked and released.
    Shutdown,
    /// The recording is to be closed.
    Recording,
    /// Over.
    Done,
}

/// A run; `E` is what a failure is told by.
#[derive(Debug)]
pub struct Run<E> {
    /// The stages.
    pub plan: Vec<Stage>,
    /// Where the run is.
    pub phase: RunPhase,
    /// The first failure.
    pub failed: Option<E>,
    /// Whether parking failed.
    pub unparked: bool,
}

impl<E> Run<E> {
    /// Whether the next stage exists.
    pub open spec fn valid(self) -> bool {
        self.phase matches RunPhase::Stage { next } ==> next < self.plan@.len() && self.failed
            is None
    }

    /// Begin.
    pub fn new(options: &RunOptions) -> (r: Run<E>)
        ensures
            r.plan@ == options.stages(),
            r.phase == (RunPhase::Stage { next: 0 }),
            r.failed is None,
            !r.unparked,
            r.valid(),
    {
        Run {
            plan: options.plan(),
            phase: RunPhase::Stage { next: 0 },
            failed: None,
            unparked: false,
        }
    }

    /// The stage that is next; nothing once the arm is to be shut down.
    pub fn stage(&self) -> (r: Option<Stage>)
        requires
            self.valid(),
        ensures
            r == (match self.phase {
                RunPhase::Stage { next } => Some(self.plan@[next as int]),
                _ => None,
            }),
    {
        match self.phase {
            RunPhase::Stage { next } => Some(self.plan[next]),
            _ => None,
        }
    }

    /// The phase after the present one.
    pub open spec fn next_phase(self, ok: bool) -> RunPhase {
        match self.phase {
            RunPhase::Stage { next } => if ok && next + 1 < self.plan@.len() {
                RunPhase::Stage { next: (next + 1) as usize }
            } else {
                RunPhase::Shutdown
            },
            RunPhase::Shutdown => RunPhase::Recording,
            RunPhase::Recording => RunPhase::Done,
            RunPhase::Done => RunPhase::Done,
        }
    }

    /// Take what the present phase gave. A stage that fails ends the stages;
    /// the shutdown and the recording follow whatever happened, and the failure
    /// that counts is the first.
    pub fn took(&mut self, result: Result<(), E>)
        requires
            old(self).valid(),
        ensures
            final(self).valid(),
            final(self).plan@ == old(self).plan@,
            final(self).phase == old(self).next_phase(result is Ok),
            final(self).failed == (match (old(self).failed, result) {
                (Some(e), _) => Some(e),
                (None, Err(e)) => if old(self).phase is Done {
                    None
                } else {
                    Some(e)
                },
                (None, Ok(_)) => None,
            }),
            final(self).unparked == (old(self).unparked || (old(self).phase is Shutdown && result
                is Err)),
    {
        let phase = self.phase;
        if let RunPhase::Done = phase {
            return;
        }
        let ok = result.is_ok();
        if let Err(e) = result {
            if self.failed.is_none() {
                self.failed = Some(e);
            }
        }
        let n: usize = self.plan.len();
        match phase {
            RunPhase::Stage { next } => {
                self.phase =
                if ok && next + 1 < n {
                    RunPhase::Stage { next: next + 1 }
                } else {
                    RunPhase::Shutdown
                };
            },
            RunPhase::Shutdown => {
                if !ok {
                    self.unparked = true;
                }
                self.phase = RunPhase::Recording;
            },
            RunPhase::Recording => {
                self.phase = RunPhase::Done;
            },
            RunPhase::Done => {},
        }
    }

    /// What the parking is told as.
    pub fn parking(&self) -> (r: &'static str)
        ensures
            r@ == (if self.unparked {
                "FAILED"@
            } else {
                "completed"@
            }),
    {
        if self.unparked {
            "FAILED"
        } else {
            "completed"
        }
    }

    /// What the run came to.
    pub fn result(self) -> (r: Result<(), E>)
        ensures
            r == (match self.failed {
                Some(e) => Err::<(), E>(e),
                None => Ok(()),
            }),
    {
        match self.failed {
            Some(e) => Err(e),
            None => Ok(()),
        }
    }
}

/// What is done with the patched configuration.
#[derive(Clone, Copy, Debug, PartialEq, Eq, Structural)]
pub enum Apply {
    /// Nothing: it is kept beside the recording.
    Keep,
    /// It is refused: masses fitted to the simulator are not the arm's.
    Refuse,
    /// It replaces the configuration.
    Write {
        /// Whether the configuration is saved first: only where no earlier one
        /// was.
        backup: bool,
    },
}

/// What is done with the patched configuration.
pub fn apply(options: &RunOptions, saved_before: bool) -> (r: Apply)
    ensures
        r == (if !options.apply {
            Apply::Keep
        } else if options.sim {
            Apply::Refuse
        } else {
            Apply::Write { backup: !saved_before }
        }),
{
    if !options.apply {
        Apply::Keep
    } else if options.sim {
        Apply::Refuse
    } else {
        Apply::Write { backup: !saved_before }
    }
}

/// What the refusal is told as.
pub fn refusal() -> (r: &'static str)
    ensures
        r@ == "--apply writes masses fitted to the simulator; refusing"@,
{
    "--apply writes masses fitted to the simulator; refusing"
}

/// Whether a CPU number may be the control loop's, of the `count` there can be.
pub fn valid_cpu(cpu: i64, count: i64) -> (r: bool)
    ensures
        r == (0 <= cpu < count),
{
    0 <= cpu && cpu < count
}

/// The numbers, from one, of the joints for which something holds.
pub open spec fn numbers_of(flags: Seq<bool>) -> Seq<usize>
    decreases flags.len(),
{
    if flags.len() == 0 {
        Seq::empty()
    } else if flags.last() {
        numbers_of(flags.drop_last()).push(flags.len() as usize)
    } else {
        numbers_of(flags.drop_last())
    }
}

/// The numbers of the joints whose gravity scale is not unity.
pub fn scaled_joints(scaled: &[bool]) -> (r: Vec<usize>)
    ensures
        r@ == numbers_of(scaled@),
{
    let mut out: Vec<usize> = Vec::new();
    let mut j: usize = 0;
    assert(scaled@.take(0) =~= Seq::<bool>::empty());
    while j < scaled.len()
        invariant
            j <= scaled@.len(),
            out@ == numbers_of(scaled@.take(j as int)),
        decreases scaled@.len() - j,
    {
        assert(scaled@.take(j + 1).drop_last() =~= scaled@.take(j as int));
        assert(scaled@.take(j + 1).last() == scaled@[j as int]);
        j += 1;
        if scaled[j - 1] {
            out.push(j);
        }
    }
    assert(scaled@.take(j as int) =~= scaled@);
    out
}

/// The arm is always shut down: whatever a stage gives, the run goes on to the
/// next stage or to the shutdown, and never past it.
pub proof fn law_the_arm_is_always_shut_down<E>(run: Run<E>, ok: bool)
    requires
        run.valid(),
        run.phase is Stage,
    ensures
        run.next_phase(ok) is Stage || run.next_phase(ok) is Shutdown,
        !ok ==> run.next_phase(ok) is Shutdown,
{
}

/// The arm is homed before anything is measured: every stage but the first two
/// comes after both.
pub proof fn law_nothing_is_measured_before_homing(options: RunOptions, i: int)
    requires
        0 <= i < options.stages().len(),
    ensures
        options.stages()[0] == Stage::Initialize,
        options.stages()[1] == Stage::Home,
        i >= 2 <==> options.stages()[i] != Stage::Initialize && options.stages()[i] != Stage::Home,
{
}

/// The gains come before the limits, which depend on them.
pub proof fn law_gains_come_before_limits(options: RunOptions, g: int, l: int)
    requires
        0 <= g < options.stages().len(),
        0 <= l < options.stages().len(),
        options.stages()[g] == Stage::Gains,
        options.stages()[l] == Stage::Limits,
    ensures
        g < l,
{
}

/// A run initializes and homes, measures the mechanics and identifies the links unless
/// only some other stage was asked for, and then tunes the gains and finds the limits, as
/// far as either was asked for, in whatever way.
pub proof fn law_a_run_does_what_was_asked(options: RunOptions)
    ensures
        ({
            let only = options.limits_only || options.gains_only;
            let gains = options.gains || options.gains_only;
            let limits = options.limits || options.limits_only;
            let begun = seq![Stage::Initialize, Stage::Home];
            let measured = if only {
                begun
            } else {
                begun.push(Stage::Mechanics).push(Stage::Identify)
            };
            let tuned = if gains {
                measured.push(Stage::Gains)
            } else {
                measured
            };
            options.stages() == (if limits {
                tuned.push(Stage::Limits)
            } else {
                tuned
            })
        }),
        options.finds_limits() || options.tunes_gains() <==> options.limits || options.limits_only
            || options.gains || options.gains_only,
{
    let begun = seq![Stage::Initialize, Stage::Home];
    let measured = if options.limits_only || options.gains_only {
        begun
    } else {
        begun.push(Stage::Mechanics).push(Stage::Identify)
    };
    let tuned = if options.gains || options.gains_only {
        measured.push(Stage::Gains)
    } else {
        measured
    };
    assert(options.stages() =~= (if options.limits || options.limits_only {
        tuned.push(Stage::Limits)
    } else {
        tuned
    }));
}

/// A run goes through its stages one by one while they succeed, and after the last, or
/// the first that fails, through the shutdown and the recording to its end.
pub proof fn law_a_run_goes_through_every_stage<E>(run: Run<E>, next: usize, ok: bool)
    requires
        next < run.plan@.len() <= usize::MAX,
    ensures
        run.phase == (RunPhase::Stage { next }) ==> {
            &&& next + 1 < run.plan@.len() ==> run.next_phase(true) == (RunPhase::Stage {
                next: (next + 1) as usize,
            })
            &&& next + 1 == run.plan@.len() ==> run.next_phase(true) == RunPhase::Shutdown
            &&& run.next_phase(false) == RunPhase::Shutdown
        },
        run.phase == RunPhase::Shutdown ==> run.next_phase(ok) == RunPhase::Recording,
        run.phase == RunPhase::Recording ==> run.next_phase(ok) == RunPhase::Done,
        run.phase == RunPhase::Done ==> run.next_phase(ok) == RunPhase::Done,
{
}

/// The joints that are told are those that are flagged, counted from one and in order.
pub proof fn law_flagged_joints_are_counted_from_one(flags: Seq<bool>)
    requires
        flags.len() < usize::MAX,
    ensures
        numbers_of(Seq::empty()).len() == 0,
        numbers_of(flags.push(true)) == numbers_of(flags).push((flags.len() + 1) as usize),
        numbers_of(flags.push(false)) == numbers_of(flags),
{
    assert(flags.push(true).drop_last() =~= flags);
    assert(flags.push(false).drop_last() =~= flags);
}

} // verus!
