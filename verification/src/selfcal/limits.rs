//! The search for a joint's velocity, acceleration and jerk limits.
//!
//! A joint's configured caps are scaled together by steps of five quarters
//! until a step fails; where the configured caps fail themselves, the steps go
//! down instead, as far as two fifths of them.
use vstd::arithmetic::power::{lemma_pow_positive, pow};
use vstd::prelude::*;

verus! {

/// A place a probe move goes to.
#[derive(Clone, Copy, Debug, PartialEq, Eq, Structural)]
pub enum ProbeTarget {
    /// The end of the short move.
    Short,
    /// Where the joint started.
    Home,
    /// The low end of the span.
    Low,
    /// The high end of the span.
    High,
}

/// A move of a probe.
#[derive(Clone, Copy, Debug, PartialEq, Eq, Structural)]
pub struct ProbeMove {
    /// Where to.
    pub target: ProbeTarget,
    /// Whether it is judged: getting to the start of the long move is
    /// positioning, not probing.
    pub scored: bool,
}

/// The moves of a probe: a short one out and back, then the span both ways.
pub open spec fn probe_moves() -> Seq<ProbeMove> {
    seq![
        ProbeMove { target: ProbeTarget::Short, scored: true },
        ProbeMove { target: ProbeTarget::Home, scored: true },
        ProbeMove { target: ProbeTarget::Low, scored: false },
        ProbeMove { target: ProbeTarget::High, scored: true },
        ProbeMove { target: ProbeTarget::Low, scored: true },
    ]
}

/// How a scored move went.
#[derive(Clone, Copy, Debug, PartialEq, Eq, Structural)]
pub struct ProbeScore {
    /// Whether it arrived.
    pub complete: bool,
    /// Whether it missed the tracking requirements.
    pub strayed: bool,
    /// Whether its current, with the most that gravity asks, is over the limit.
    pub overloaded: bool,
    /// Whether the speed ripple of the probe so far is over its ceiling.
    pub rippled: bool,
}

/// Why a step failed.
#[derive(Clone, Copy, Debug, PartialEq, Eq, Structural)]
pub enum StepFailure {
    /// A move did not arrive.
    Incomplete,
    /// The joint did not follow well enough.
    Tracking,
    /// The joint needs too much current.
    Current,
    /// The joint rumbles.
    Ripple,
}

impl StepFailure {
    /// The failure in a word.
    pub open spec fn word(self) -> Seq<char> {
        match self {
            StepFailure::Incomplete => "did not complete"@,
            StepFailure::Tracking => "tracking"@,
            StepFailure::Current => "current"@,
            StepFailure::Ripple => "ripple"@,
        }
    }

    /// The failure in a word.
    pub fn name(self) -> (r: &'static str)
        ensures
            r@ == self.word(),
    {
        match self {
            StepFailure::Incomplete => "did not complete",
            StepFailure::Tracking => "tracking",
            StepFailure::Current => "current",
            StepFailure::Ripple => "ripple",
        }
    }
}

/// Why a scored move fails its step, the first reason that holds.
pub open spec fn failure_of(score: ProbeScore) -> Option<StepFailure> {
    if !score.complete {
        Some(StepFailure::Incomplete)
    } else if score.strayed {
        Some(StepFailure::Tracking)
    } else if score.overloaded {
        Some(StepFailure::Current)
    } else if score.rippled {
        Some(StepFailure::Ripple)
    } else {
        None
    }
}

/// Judge a scored move.
pub fn judge_move(score: ProbeScore) -> (r: Option<StepFailure>)
    ensures
        r == failure_of(score),
{
    if !score.complete {
        Some(StepFailure::Incomplete)
    } else if score.strayed {
        Some(StepFailure::Tracking)
    } else if score.overloaded {
        Some(StepFailure::Current)
    } else if score.rippled {
        Some(StepFailure::Ripple)
    } else {
        None
    }
}

/// What a probe has come to.
#[derive(Clone, Copy, Debug, PartialEq, Eq, Structural)]
pub enum ProbeState {
    /// This move is next.
    Moving {
        /// Its number.
        next: usize,
    },
    /// Over: every scored move passed.
    Passed,
    /// Over: a scored move failed.
    Failed {
        /// Why.
        why: StepFailure,
    },
}

/// One step of the search: its moves in order, up to the first that fails.
/// Whatever it came to, the joint goes back to where it started.
#[derive(Clone, Copy, Debug, PartialEq, Eq, Structural)]
pub struct Probe {
    /// What it has come to.
    pub state: ProbeState,
}

impl Probe {
    /// Whether the next move exists.
    pub open spec fn valid(self) -> bool {
        self.state matches ProbeState::Moving { next } ==> next < probe_moves().len()
    }

    /// Begin.
    pub fn new() -> (r: Probe)
        ensures
            r == (Probe { state: ProbeState::Moving { next: 0 } }),
            r.valid(),
    {
        Probe { state: ProbeState::Moving { next: 0 } }
    }

    /// The next move; nothing once the probe is over.
    pub fn next(&self) -> (r: Option<ProbeMove>)
        requires
            self.valid(),
        ensures
            r == (match self.state {
                ProbeState::Moving { next } => Some(probe_moves()[next as int]),
                _ => None,
            }),
    {
        match self.state {
            ProbeState::Moving { next } => Some(
                if next == 0 {
                    ProbeMove { target: ProbeTarget::Short, scored: true }
                } else if next == 1 {
                    ProbeMove { target: ProbeTarget::Home, scored: true }
                } else if next == 2 {
                    ProbeMove { target: ProbeTarget::Low, scored: false }
                } else if next == 3 {
                    ProbeMove { target: ProbeTarget::High, scored: true }
                } else {
                    ProbeMove { target: ProbeTarget::Low, scored: true }
                },
            ),
            _ => None,
        }
    }

    /// The probe after its next move.
    pub open spec fn after(self, score: ProbeScore) -> Probe {
        match self.state {
            ProbeState::Moving { next } => {
                let why = if probe_moves()[next as int].scored {
                    failure_of(score)
                } else {
                    None
                };
                Probe {
                    state: match why {
                        Some(why) => ProbeState::Failed { why },
                        None => if next + 1 == probe_moves().len() {
                            ProbeState::Passed
                        } else {
                            ProbeState::Moving { next: (next + 1) as usize }
                        },
                    },
                }
            },
            _ => self,
        }
    }

    /// Take how the next move went; of a move that is not scored nothing is
    /// judged.
    pub fn moved(&mut self, score: ProbeScore)
        requires
            old(self).valid(),
        ensures
            *final(self) == old(self).after(score),
            final(self).valid(),
    {
        if let ProbeState::Moving { next } = self.state {
            let why = if next == 2 {
                None
            } else {
                judge_move(score)
            };
            self.state =
            match why {
                Some(why) => ProbeState::Failed { why },
                None => {
                    if next == 4 {
                        ProbeState::Passed
                    } else {
                        ProbeState::Moving { next: next + 1 }
                    }
                },
            };
        }
    }
}

/// Whether the caps scaled down by `down` steps of five quarters are still at
/// least two fifths of the configured ones.
pub open spec fn allowed_down(down: nat) -> bool {
    5 * pow(4, down) >= 2 * pow(5, down)
}

/// Four steps down are allowed and no more.
proof fn lemma_allowed_down(down: nat)
    ensures
        allowed_down(down) <==> down <= 4,
    decreases down,
{
    reveal(pow);
    assert(pow(4, 0) == 1 && pow(5, 0) == 1);
    assert(pow(4, 1) == 4 && pow(5, 1) == 5);
    assert(pow(4, 2) == 16 && pow(5, 2) == 25);
    assert(pow(4, 3) == 64 && pow(5, 3) == 125);
    assert(pow(4, 4) == 256 && pow(5, 4) == 625);
    assert(pow(4, 5) == 1024 && pow(5, 5) == 3125);
    if down > 5 {
        let less = (down - 1) as nat;
        lemma_allowed_down(less);
        lemma_pow_positive(5, less);
        assert(pow(4, down) == 4 * pow(4, less));
        assert(pow(5, down) == 5 * pow(5, less));
    } else {
        assert(down == 0 || down == 1 || down == 2 || down == 3 || down == 4 || down == 5);
    }
}

/// Whether the caps scaled down by `down` steps are still worth trying.
pub fn may_descend(down: u64) -> (r: bool)
    ensures
        r == allowed_down(down as nat),
{
    proof {
        lemma_allowed_down(down as nat);
    }
    down <= 4
}

/// A limit that was found: the configured caps scaled by `level` steps.
#[derive(Clone, Copy, Debug, PartialEq, Eq, Structural)]
pub struct Found {
    /// Steps up; negative, steps down.
    pub level: i64,
    /// Whether the jerk is one that the joint reached, not a lower bound.
    pub jerk_measured: bool,
}

/// Where the search is.
#[derive(Clone, Copy, Debug, PartialEq, Eq, Structural)]
pub enum LimitPhase {
    /// The configured caps are to be tried.
    Configured,
    /// They failed, and `down` steps fewer are to be tried.
    Descending {
        /// How many.
        down: u64,
    },
    /// This level passed, and it is to be seen whether the next would change
    /// the probe.
    Comparing {
        /// The level.
        level: i64,
    },
    /// This level passed and the next is to be tried.
    Climbing {
        /// The level that passed.
        level: i64,
    },
    /// Over; nothing where the joint misses the requirements at every level.
    Done {
        /// What was found.
        found: Option<Found>,
    },
}

/// How long the two probe moves take.
#[derive(Clone, Copy, Debug, PartialEq, Eq, Structural)]
pub struct ProbeTicks {
    /// The short one.
    pub short: u64,
    /// The long one.
    pub long: u64,
}

/// What was seen.
#[derive(Clone, Copy, Debug, PartialEq, Eq, Structural)]
pub enum Observed {
    /// The level asked for was tried.
    Probed {
        /// Whether it passed.
        passed: bool,
    },
    /// The next level was compared with the present one.
    Compared {
        /// How long the probe takes at the present level.
        now: ProbeTicks,
        /// How long it would take at the next.
        next: ProbeTicks,
        /// Whether the present level's jerk is at its ceiling.
        at_ceiling: bool,
    },
}

/// The search for one joint.
#[derive(Clone, Copy, Debug, PartialEq, Eq, Structural)]
pub struct LimitSearch {
    /// Where it is.
    pub phase: LimitPhase,
}

impl LimitSearch {
    /// Where the search goes. What it does not wait for changes nothing.
    pub open spec fn after(self, seen: Observed) -> LimitPhase {
        match (self.phase, seen) {
            (LimitPhase::Configured, Observed::Probed { passed }) => if passed {
                LimitPhase::Comparing { level: 0 }
            } else {
                LimitPhase::Descending { down: 1 }
            },
            (LimitPhase::Descending { down }, Observed::Probed { passed }) => if passed {
                LimitPhase::Done {
                    found: Some(Found { level: -(down as int) as i64, jerk_measured: true }),
                }
            } else if allowed_down((down + 1) as nat) {
                LimitPhase::Descending { down: (down + 1) as u64 }
            } else {
                LimitPhase::Done { found: None }
            },
            (LimitPhase::Comparing { level }, Observed::Compared { now, next, at_ceiling }) => if now
                == next {
                LimitPhase::Done { found: Some(Found { level, jerk_measured: at_ceiling }) }
            } else {
                LimitPhase::Climbing { level }
            },
            (LimitPhase::Climbing { level }, Observed::Probed { passed }) => if passed {
                LimitPhase::Comparing { level: (level + 1) as i64 }
            } else {
                LimitPhase::Done { found: Some(Found { level, jerk_measured: true }) }
            },
            _ => self.phase,
        }
    }

    /// What holds of every search: it climbs from the configured caps and
    /// descends only as far as is allowed.
    pub open spec fn valid(self) -> bool {
        match self.phase {
            LimitPhase::Descending { down } => 1 <= down && allowed_down(down as nat),
            LimitPhase::Comparing { level } => 0 <= level,
            LimitPhase::Climbing { level } => 0 <= level,
            _ => true,
        }
    }

    /// Begin.
    pub fn new() -> (r: LimitSearch)
        ensures
            r.phase == LimitPhase::Configured,
            r.valid(),
    {
        LimitSearch { phase: LimitPhase::Configured }
    }

    /// The level that is to be tried, or compared with the present one;
    /// nothing once the search is over.
    pub fn level(&self) -> (r: Option<i64>)
        requires
            self.valid(),
            self.phase matches LimitPhase::Climbing { level } ==> level < i64::MAX,
            self.phase matches LimitPhase::Comparing { level } ==> level < i64::MAX,
        ensures
            r == (match self.phase {
                LimitPhase::Configured => Some(0i64),
                LimitPhase::Descending { down } => Some(-(down as int) as i64),
                LimitPhase::Comparing { level } => Some((level + 1) as i64),
                LimitPhase::Climbing { level } => Some((level + 1) as i64),
                LimitPhase::Done { found: _ } => None,
            }),
    {
        match self.phase {
            LimitPhase::Configured => Some(0),
            LimitPhase::Descending { down } => {
                proof {
                    lemma_allowed_down(down as nat);
                }
                Some(-(down as i64))
            },
            LimitPhase::Comparing { level } => Some(level + 1),
            LimitPhase::Climbing { level } => Some(level + 1),
            LimitPhase::Done { found: _ } => None,
        }
    }

    /// Take what was seen.
    pub fn observe(&mut self, seen: Observed)
        requires
            old(self).valid(),
            old(self).phase matches LimitPhase::Climbing { level } ==> level < i64::MAX,
        ensures
            final(self).phase == old(self).after(seen),
            final(self).valid(),
    {
        proof {
            lemma_allowed_down(1);
        }
        match (self.phase, seen) {
            (LimitPhase::Configured, Observed::Probed { passed }) => {
                self.phase =
                if passed {
                    LimitPhase::Comparing { level: 0 }
                } else {
                    LimitPhase::Descending { down: 1 }
                };
            },
            (LimitPhase::Descending { down }, Observed::Probed { passed }) => {
                proof {
                    lemma_allowed_down(down as nat);
                }
                self.phase =
                if passed {
                    LimitPhase::Done {
                        found: Some(Found { level: -(down as i64), jerk_measured: true }),
                    }
                } else if may_descend(down + 1) {
                    LimitPhase::Descending { down: down + 1 }
                } else {
                    LimitPhase::Done { found: None }
                };
            },
            (LimitPhase::Comparing { level }, Observed::Compared { now, next, at_ceiling }) => {
                self.phase =
                if now.short == next.short && now.long == next.long {
                    LimitPhase::Done { found: Some(Found { level, jerk_measured: at_ceiling }) }
                } else {
                    LimitPhase::Climbing { level }
                };
            },
            (LimitPhase::Climbing { level }, Observed::Probed { passed }) => {
                self.phase =
                if passed {
                    LimitPhase::Comparing { level: level + 1 }
                } else {
                    LimitPhase::Done { found: Some(Found { level, jerk_measured: true }) }
                };
            },
            _ => {},
        }
    }
}

/// A joint is given no limit below two fifths of its configured caps.
pub proof fn law_limits_keep_the_lowest_factor(search: LimitSearch, seen: Observed, found: Found)
    requires
        search.valid(),
        !(search.phase is Done),
        search.after(seen) == (LimitPhase::Done { found: Some(found) }),
    ensures
        found.level >= 0 || allowed_down(-(found.level as int) as nat),
        -4 <= found.level,
{
    if let LimitPhase::Descending { down } = search.phase {
        lemma_allowed_down(down as nat);
    }
}

/// A jerk counts as measured only where a step failed right beyond it or it is
/// at its ceiling; one that merely no longer shortens the probe does not.
pub proof fn law_a_jerk_is_measured_only_if_reached(search: LimitSearch, seen: Observed, found: Found)
    requires
        search.valid(),
        !(search.phase is Done),
        search.after(seen) == (LimitPhase::Done { found: Some(found) }),
        found.jerk_measured,
    ensures
        match seen {
            Observed::Probed { passed } => passed <==> search.phase is Descending,
            Observed::Compared { at_ceiling, .. } => at_ceiling,
        },
{
}

/// A step passes only if all five of its moves were made and none of the four
/// that are scored failed.
pub proof fn law_a_step_passes_only_whole(probe: Probe, score: ProbeScore)
    requires
        probe.valid(),
        probe.state is Moving,
        probe.after(score).state is Passed,
    ensures
        probe.state == (ProbeState::Moving { next: 4 }),
        score == (ProbeScore { complete: true, strayed: false, overloaded: false, rippled: false }),
{
}

/// How far a joint can be swept one way: it steps as long as the next place is
/// allowed and the way there is clear.
#[derive(Clone, Copy, Debug, PartialEq, Eq, Structural)]
pub struct Reach {
    /// Steps taken.
    pub steps: u64,
    /// Whether the joint goes no further.
    pub ended: bool,
}

impl Reach {
    /// Begin at the ready pose.
    pub fn new() -> (r: Reach)
        ensures
            r == (Reach { steps: 0, ended: false }),
    {
        Reach { steps: 0, ended: false }
    }

    /// Take whether the next place is within the joint's limits and the span,
    /// and whether the way there is clear.
    pub fn step(&mut self, allowed: bool, clear: bool)
        requires
            old(self).steps < u64::MAX,
        ensures
            *final(self) == (if old(self).ended {
                *old(self)
            } else if allowed && clear {
                Reach { steps: (old(self).steps + 1) as u64, ended: false }
            } else {
                Reach { steps: old(self).steps, ended: true }
            }),
    {
        if self.ended {
            return;
        }
        if allowed && clear {
            self.steps = self.steps + 1;
        } else {
            self.ended = true;
        }
    }
}

/// A step of the limits is five moves: a short one and back, then to the low end, which
/// only gets the joint there, then to the high end and back. Each that is judged may end
/// the step, with the gravest of what it did; the one that is not cannot.
pub proof fn law_a_step_makes_its_moves_in_order(next: usize, score: ProbeScore)
    requires
        next < 5,
    ensures
        probe_moves().map_values(|m: ProbeMove| m.target) == seq![
            ProbeTarget::Short,
            ProbeTarget::Home,
            ProbeTarget::Low,
            ProbeTarget::High,
            ProbeTarget::Low,
        ],
        forall|i: int| 0 <= i < 5 ==> (#[trigger] probe_moves()[i]).scored == (i != 2),
        ({
            let after = (Probe { state: ProbeState::Moving { next } }).after(score).state;
            let clean = score.complete && !score.strayed && !score.overloaded && !score.rippled;
            let goes_on = if next == 4 {
                ProbeState::Passed
            } else {
                ProbeState::Moving { next: (next + 1) as usize }
            };
            &&& next == 2 || clean ==> after == goes_on
            &&& next != 2 && !score.complete ==> after == (ProbeState::Failed {
                why: StepFailure::Incomplete,
            })
            &&& next != 2 && score.complete && score.strayed ==> after == (ProbeState::Failed {
                why: StepFailure::Tracking,
            })
            &&& next != 2 && score.complete && !score.strayed && score.overloaded ==> after == (
            ProbeState::Failed { why: StepFailure::Current })
            &&& next != 2 && score.complete && !score.strayed && !score.overloaded && score.rippled
                ==> after == (ProbeState::Failed { why: StepFailure::Ripple })
        }),
{
    assert(probe_moves().map_values(|m: ProbeMove| m.target) =~= seq![
        ProbeTarget::Short,
        ProbeTarget::Home,
        ProbeTarget::Low,
        ProbeTarget::High,
        ProbeTarget::Low,
    ]);
}

/// The caps are raised for as long as a step passes and raising them changes a move, and
/// what is found is the last level that passed: with the jerk measured where the next
/// level failed, or where raising them changes nothing any more because the jerk is at
/// its ceiling. Where the configured caps fail themselves they are lowered, one level at
/// a time and four levels at most, to the first that passes.
pub proof fn law_the_limits_are_the_last_level_that_passed(
    level: i64,
    down: u64,
    passed: bool,
    now: ProbeTicks,
    next: ProbeTicks,
    at_ceiling: bool,
)
    requires
        0 <= level < i64::MAX,
        1 <= down <= 4,
    ensures
        ({
            let probed = Observed::Probed { passed };
            let compared = Observed::Compared { now, next, at_ceiling };
            &&& (LimitSearch { phase: LimitPhase::Configured }).after(probed) == (if passed {
                LimitPhase::Comparing { level: 0 }
            } else {
                LimitPhase::Descending { down: 1 }
            })
            &&& (LimitSearch { phase: LimitPhase::Comparing { level } }).after(compared) == (
            if now.short == next.short && now.long == next.long {
                LimitPhase::Done { found: Some(Found { level, jerk_measured: at_ceiling }) }
            } else {
                LimitPhase::Climbing { level }
            })
            &&& (LimitSearch { phase: LimitPhase::Climbing { level } }).after(probed) == (if passed {
                LimitPhase::Comparing { level: (level + 1) as i64 }
            } else {
                LimitPhase::Done { found: Some(Found { level, jerk_measured: true }) }
            })
            &&& (LimitSearch { phase: LimitPhase::Descending { down } }).after(probed) == (
            if passed {
                LimitPhase::Done { found: Some(Found { level: (0 - down) as i64, jerk_measured: true }) }
            } else if down < 4 {
                LimitPhase::Descending { down: (down + 1) as u64 }
            } else {
                LimitPhase::Done { found: None }
            })
        }),
{
    lemma_allowed_down((down + 1) as nat);
}

/// A level is tried going down exactly as long as its factor is two fifths or more, and
/// that is four levels.
pub proof fn law_four_levels_down_are_allowed(down: nat)
    ensures
        allowed_down(down) <==> down <= 4,
{
    lemma_allowed_down(down);
}

/// A move fails its step for the first of these that holds: it did not complete, it strayed,
/// it drew too much current, it rippled; and it passes only where none does.
pub proof fn law_why_a_move_fails_its_step(score: ProbeScore)
    ensures
        failure_of(score) == Some(StepFailure::Incomplete) <==> !score.complete,
        failure_of(score) == Some(StepFailure::Tracking) <==> score.complete && score.strayed,
        failure_of(score) == Some(StepFailure::Current) <==> score.complete && !score.strayed
            && score.overloaded,
        failure_of(score) == Some(StepFailure::Ripple) <==> score.complete && !score.strayed
            && !score.overloaded && score.rippled,
        failure_of(score) is None <==> score.complete && !score.strayed && !score.overloaded
            && !score.rippled,
        StepFailure::Incomplete.word() == "did not complete"@,
        StepFailure::Tracking.word() == "tracking"@,
        StepFailure::Current.word() == "current"@,
        StepFailure::Ripple.word() == "ripple"@,
{
}

} // verus!
