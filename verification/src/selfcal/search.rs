//! Geometric bracketing of the passing band of a single gain scale.
//!
//! A loop passes its requirements on an interval of gain: sluggish below it,
//! oscillating above it. The search walks away from the failure it saw in equal
//! ratio steps, closes in on each boundary to the requested resolution, and
//! operates at the geometric midpoint of the measured band. That point is then
//! measured once more and must pass.
//!
//! Scales and violations are held as keys: numbers whose order is the order of
//! the positive reals they stand for. The search compares keys and never
//! computes one; it says which scale it wants in terms of those it has seen.
use vstd::prelude::*;

verus! {

/// What an experiment at one scale showed.
#[derive(Clone, Copy, Debug, PartialEq, Eq, Structural)]
pub enum Verdict {
    /// Every requirement was met.
    Pass,
    /// Some requirement was not.
    Fail {
        /// Whether the hold failed, which is the oscillating side of the band.
        oscillating: bool,
        /// How far from passing; larger is farther.
        violation: u64,
    },
    /// The experiment ended in contact.
    Interrupted,
}

/// A trial's score. Feasible trials outrank infeasible ones, and the objective
/// never makes up for a violated constraint.
#[derive(Clone, Copy, Debug, PartialEq, Eq, Structural)]
pub enum Score {
    /// The constraints hold.
    Feasible {
        /// Whether the objective is within its limit too.
        quiet: bool,
    },
    /// Some constraint is violated.
    Infeasible,
    /// The experiment was incomplete or its measurement unusable.
    Invalid,
}

impl Score {
    /// Whether the trial meets everything.
    pub fn accepted(self) -> (r: bool)
        ensures
            r == (self == Score::Feasible { quiet: true }),
    {
        match self {
            Score::Feasible { quiet } => quiet,
            _ => false,
        }
    }

    /// Whether the constraints hold, whatever the objective: of a hold, that
    /// the joint stayed where it was put.
    pub fn feasible(self) -> (r: bool)
        ensures
            r == (self is Feasible),
    {
        match self {
            Score::Feasible { quiet: _ } => true,
            _ => false,
        }
    }
}

/// Everything measured about the passing band.
#[derive(Clone, Copy, Debug, PartialEq, Eq)]
pub struct Band {
    /// The lowest scale that passed.
    pub lowest_pass: Option<u64>,
    /// The highest scale that passed.
    pub highest_pass: Option<u64>,
    /// A scale below the band that failed.
    pub lower_fail: Option<u64>,
    /// A scale above the band that failed.
    pub upper_fail: Option<u64>,
    /// The scale to operate at.
    pub operating: Option<u64>,
    /// Whether that scale has been measured to pass.
    pub verified: bool,
    /// Experiments run.
    pub experiments: usize,
    /// The failing scale with the smallest violation, and the violation.
    pub best_fail: Option<(u64, u64)>,
}

/// Why a search ended.
#[derive(Clone, Copy, Debug, PartialEq, Eq, Structural)]
pub enum Stop {
    /// The operating scale passed.
    Verified,
    /// An experiment ended in contact.
    Interrupted,
    /// No scale within the bounds passed.
    NoPass,
    /// The experiments ran out.
    Budget,
    /// The midpoint of the measured band failed.
    VerificationFailed,
}

/// The scale a search wants next, in terms of scales it has seen.
#[derive(Clone, Copy, Debug, PartialEq, Eq, Structural)]
pub enum Want {
    /// The start.
    Start,
    /// One step on from a failing scale.
    Walk {
        /// The scale to step from.
        from: u64,
        /// Whether the step is up.
        up: bool,
        /// Whether the walk has turned around once.
        turned: bool,
    },
    /// One step up from a scale.
    Above(u64),
    /// One step down from a scale.
    Below(u64),
    /// The geometric midpoint of two scales, in either order.
    Between(u64, u64),
}

/// Where a search is.
#[derive(Clone, Copy, Debug, PartialEq, Eq, Structural)]
pub enum Phase {
    /// About to measure the start.
    Start,
    /// Walking away from a failed start.
    Walk {
        /// The failing scale to step from.
        from: u64,
        /// Its violation.
        previous: u64,
        /// Whether the walk goes up.
        up: bool,
        /// Whether it has turned around once.
        turned: bool,
    },
    /// The start passed: looking one step up.
    MarginUp,
    /// The start passed: looking one step down.
    MarginDown {
        /// Whether the step up passed or lies outside the bounds.
        up_ok: bool,
    },
    /// Stepping up to a failure.
    ExpandUp,
    /// Stepping down to a failure.
    ExpandDown,
    /// Closing in on the upper boundary.
    CloseUp,
    /// Closing in on the lower boundary.
    CloseDown,
    /// Measuring the midpoint once more.
    Confirm,
    /// Finished.
    Done(Stop),
}

/// The search for the passing band.
#[derive(Clone, Copy, Debug, PartialEq, Eq)]
pub struct Search {
    /// Where it is.
    pub phase: Phase,
    /// What it has measured.
    pub band: Band,
    /// The lowest scale it may try.
    pub lo: u64,
    /// The highest scale it may try.
    pub hi: u64,
    /// The scale it starts at.
    pub start: u64,
    /// How far from passing the start was, if it failed.
    pub start_violation: u64,
    /// Experiments it may run.
    pub budget: usize,
}

/// The lower of a pass seen so far and a new one.
pub open spec fn lower_of(seen: Option<u64>, scale: u64) -> Option<u64> {
    match seen {
        Some(v) => Some(
            if v < scale {
                v
            } else {
                scale
            },
        ),
        None => Some(scale),
    }
}

/// The higher of a pass seen so far and a new one.
pub open spec fn higher_of(seen: Option<u64>, scale: u64) -> Option<u64> {
    match seen {
        Some(v) => Some(
            if v > scale {
                v
            } else {
                scale
            },
        ),
        None => Some(scale),
    }
}

/// The less violating of a failure seen so far and a new one.
pub open spec fn better_fail(seen: Option<(u64, u64)>, scale: u64, violation: u64) -> Option<
    (u64, u64),
> {
    match seen {
        Some((s, best)) => if violation < best {
            Some((scale, violation))
        } else {
            seen
        },
        None => Some((scale, violation)),
    }
}

impl Band {
    /// The band with one more pass.
    pub open spec fn passing(self, scale: u64) -> Band {
        Band {
            lowest_pass: lower_of(self.lowest_pass, scale),
            highest_pass: higher_of(self.highest_pass, scale),
            ..self
        }
    }

    /// The band with one more failure.
    pub open spec fn failing(self, scale: u64, violation: u64) -> Band {
        Band { best_fail: better_fail(self.best_fail, scale, violation), ..self }
    }

    /// Note a pass.
    fn note_pass(&mut self, scale: u64)
        ensures
            *final(self) == old(self).passing(scale),
    {
        self.lowest_pass = Some(
            match self.lowest_pass {
                Some(v) => if v < scale {
                    v
                } else {
                    scale
                },
                None => scale,
            },
        );
        self.highest_pass = Some(
            match self.highest_pass {
                Some(v) => if v > scale {
                    v
                } else {
                    scale
                },
                None => scale,
            },
        );
    }

    /// Note a failure.
    fn note_fail(&mut self, scale: u64, violation: u64)
        ensures
            *final(self) == old(self).failing(scale, violation),
    {
        match self.best_fail {
            Some((_, best)) => {
                if violation < best {
                    self.best_fail = Some((scale, violation));
                }
            },
            None => {
                self.best_fail = Some((scale, violation));
            },
        }
    }
}

impl Search {
    /// Whether a scale may be tried.
    pub open spec fn inside(self, scale: u64) -> bool {
        self.lo <= scale <= self.hi
    }

    /// The highest pass, or the start where nothing passed.
    pub open spec fn top(self) -> u64 {
        match self.band.highest_pass {
            Some(v) => v,
            None => self.start,
        }
    }

    /// The lowest pass, or the start where nothing passed.
    pub open spec fn bottom(self) -> u64 {
        match self.band.lowest_pass {
            Some(v) => v,
            None => self.start,
        }
    }

    /// The scale that is wanted next; nothing once the search is over.
    pub open spec fn wanted(self) -> Option<Want> {
        match self.phase {
            Phase::Start => Some(Want::Start),
            Phase::Walk { from, previous, up, turned } => Some(Want::Walk { from, up, turned }),
            Phase::MarginUp => Some(Want::Above(self.start)),
            Phase::MarginDown { up_ok } => Some(Want::Below(self.start)),
            Phase::ExpandUp => Some(Want::Above(self.top())),
            Phase::ExpandDown => Some(Want::Below(self.bottom())),
            Phase::CloseUp => Some(
                Want::Between(
                    self.top(),
                    match self.band.upper_fail {
                        Some(v) => v,
                        None => self.start,
                    },
                ),
            ),
            Phase::CloseDown => Some(
                Want::Between(
                    self.bottom(),
                    match self.band.lower_fail {
                        Some(v) => v,
                        None => self.start,
                    },
                ),
            ),
            Phase::Confirm => Some(Want::Between(self.bottom(), self.top())),
            Phase::Done(stop) => None,
        }
    }

    /// The search with another phase.
    pub open spec fn at(self, phase: Phase) -> Search {
        Search { phase, ..self }
    }

    /// The search that has measured everything the margins ask for: settled if
    /// both sides have a step of margin, else on to the boundaries.
    pub open spec fn after_margins(self, up_ok: bool, down_ok: bool) -> Search {
        if up_ok && down_ok {
            Search {
                phase: Phase::Done(Stop::Verified),
                band: Band { operating: Some(self.start), verified: true, ..self.band },
                ..self
            }
        } else {
            self.at(Phase::ExpandUp)
        }
    }

    /// What is decided of a wanted scale before any experiment: the search
    /// afterwards and whether the experiment is to be run.
    ///
    /// A walk, a margin or an expansion that leaves the bounds is over; a
    /// boundary that is known, or is known closely enough, needs no more; and
    /// nothing is run past the budget.
    pub open spec fn proposed(self, scale: u64, close: bool) -> (Search, bool) {
        let spent = self.band.experiments == self.budget;
        let stop = (self.at(Phase::Done(Stop::Budget)), false);
        let run = (
            Search {
                band: Band {
                    experiments: (self.band.experiments + 1) as usize,
                    ..self.band
                },
                ..self
            },
            true,
        );
        match self.phase {
            Phase::Start => run,
            Phase::Walk { from, previous, up, turned } => if !self.inside(scale) {
                (self.at(Phase::Done(Stop::NoPass)), false)
            } else if spent {
                stop
            } else {
                run
            },
            Phase::MarginUp => if !self.inside(scale) {
                (self.at(Phase::MarginDown { up_ok: true }), false)
            } else if spent {
                stop
            } else {
                run
            },
            Phase::MarginDown { up_ok } => if !self.inside(scale) {
                (self.after_margins(up_ok, true), false)
            } else if spent {
                stop
            } else {
                run
            },
            Phase::ExpandUp => if self.band.upper_fail is Some || !self.inside(scale) {
                (self.at(Phase::ExpandDown), false)
            } else if spent {
                stop
            } else {
                run
            },
            Phase::ExpandDown => if self.band.lower_fail is Some || !self.inside(scale) {
                (self.at(Phase::CloseUp), false)
            } else if spent {
                stop
            } else {
                run
            },
            Phase::CloseUp => if self.band.highest_pass is None || self.band.upper_fail is None
                || close {
                (self.at(Phase::CloseDown), false)
            } else if spent {
                stop
            } else {
                run
            },
            Phase::CloseDown => if self.band.lowest_pass is None || self.band.lower_fail is None
                || close {
                (self.at(Phase::Confirm), false)
            } else if spent {
                stop
            } else {
                run
            },
            Phase::Confirm => if self.band.lowest_pass is None || self.band.highest_pass is None {
                (self.at(Phase::Done(Stop::NoPass)), false)
            } else {
                let settled = Search {
                    band: Band { operating: Some(scale), ..self.band },
                    ..self
                };
                if self.band.lowest_pass == self.band.highest_pass {
                    (
                        Search {
                            phase: Phase::Done(Stop::Verified),
                            band: Band { verified: true, ..settled.band },
                            ..settled
                        },
                        false,
                    )
                } else if spent {
                    (settled.at(Phase::Done(Stop::Budget)), false)
                } else {
                    (
                        Search {
                            band: Band {
                                experiments: (self.band.experiments + 1) as usize,
                                ..settled.band
                            },
                            ..settled
                        },
                        true,
                    )
                }
            },
            Phase::Done(s) => (self, false),
        }
    }

    /// The search after an experiment at `scale` passed.
    pub open spec fn passed(self, scale: u64) -> Search {
        let noted = Search { band: self.band.passing(scale), ..self };
        match self.phase {
            Phase::Start => noted.at(Phase::MarginUp),
            Phase::Walk { from, previous, up, turned } => Search {
                phase: Phase::ExpandUp,
                band: Band {
                    lowest_pass: Some(scale),
                    highest_pass: Some(scale),
                    lower_fail: if up {
                        Some(from)
                    } else {
                        self.band.lower_fail
                    },
                    upper_fail: if up {
                        self.band.upper_fail
                    } else {
                        Some(from)
                    },
                    ..self.band
                },
                ..self
            },
            Phase::MarginUp => noted.at(Phase::MarginDown { up_ok: true }),
            Phase::MarginDown { up_ok } => noted.after_margins(up_ok, true),
            Phase::Confirm => Search {
                phase: Phase::Done(Stop::Verified),
                band: Band { verified: true, ..noted.band },
                ..self
            },
            Phase::Done(s) => self,
            _ => noted,
        }
    }

    /// The search after an experiment at `scale` failed by `violation`.
    pub open spec fn failed(self, scale: u64, oscillating: bool, violation: u64) -> Search {
        let noted = Search { band: self.band.failing(scale, violation), ..self };
        let above = Search { band: Band { upper_fail: Some(scale), ..noted.band }, ..self };
        let below = Search { band: Band { lower_fail: Some(scale), ..noted.band }, ..self };
        match self.phase {
            Phase::Start => Search {
                phase: Phase::Walk {
                    from: scale,
                    previous: violation,
                    up: !oscillating,
                    turned: false,
                },
                start_violation: violation,
                ..noted
            },
            Phase::Walk { from, previous, up, turned } => if violation > previous {
                let edge = if up {
                    above
                } else {
                    below
                };
                if from == self.start && !turned {
                    edge.at(
                        Phase::Walk {
                            from: self.start,
                            previous: self.start_violation,
                            up: !up,
                            turned: true,
                        },
                    )
                } else {
                    edge.at(Phase::Done(Stop::NoPass))
                }
            } else {
                noted.at(Phase::Walk { from: scale, previous: violation, up, turned })
            },
            Phase::MarginUp => above.at(Phase::MarginDown { up_ok: false }),
            Phase::MarginDown { up_ok } => below.after_margins(up_ok, false),
            Phase::ExpandUp => above.at(Phase::ExpandDown),
            Phase::ExpandDown => below.at(Phase::CloseUp),
            Phase::CloseUp => above,
            Phase::CloseDown => below,
            Phase::Confirm => noted.at(Phase::Done(Stop::VerificationFailed)),
            Phase::Done(s) => self,
        }
    }

    /// The search after an experiment at `scale`.
    pub open spec fn told(self, scale: u64, verdict: Verdict) -> Search {
        match verdict {
            Verdict::Pass => self.passed(scale),
            Verdict::Fail { oscillating, violation } => self.failed(scale, oscillating, violation),
            Verdict::Interrupted => match self.phase {
                Phase::Done(s) => self,
                _ => self.at(Phase::Done(Stop::Interrupted)),
            },
        }
    }

    /// Start a search at `start`, between the bounds `lo` and `hi`.
    pub fn new(lo: u64, hi: u64, start: u64, budget: usize) -> (r: Search)
        ensures
            lo <= start <= hi ==> r.bounded(),
            r.phase == Phase::Start,
            r.lo == lo,
            r.hi == hi,
            r.start == start,
            r.start_violation == 0,
            r.budget == budget,
            r.band == (Band {
                lowest_pass: None,
                highest_pass: None,
                lower_fail: None,
                upper_fail: None,
                operating: None,
                verified: false,
                experiments: 0,
                best_fail: None,
            }),
    {
        Search {
            phase: Phase::Start,
            band: Band {
                lowest_pass: None,
                highest_pass: None,
                lower_fail: None,
                upper_fail: None,
                operating: None,
                verified: false,
                experiments: 0,
                best_fail: None,
            },
            lo,
            hi,
            start,
            start_violation: 0,
            budget,
        }
    }

    /// The scale that is wanted next; nothing once the search is over.
    pub fn want(&self) -> (r: Option<Want>)
        ensures
            r == self.wanted(),
    {
        let top: u64 = match self.band.highest_pass {
            Some(v) => v,
            None => self.start,
        };
        let bottom: u64 = match self.band.lowest_pass {
            Some(v) => v,
            None => self.start,
        };
        match self.phase {
            Phase::Start => Some(Want::Start),
            Phase::Walk { from, previous: _, up, turned } => Some(Want::Walk { from, up, turned }),
            Phase::MarginUp => Some(Want::Above(self.start)),
            Phase::MarginDown { up_ok: _ } => Some(Want::Below(self.start)),
            Phase::ExpandUp => Some(Want::Above(top)),
            Phase::ExpandDown => Some(Want::Below(bottom)),
            Phase::CloseUp => Some(
                Want::Between(
                    top,
                    match self.band.upper_fail {
                        Some(v) => v,
                        None => self.start,
                    },
                ),
            ),
            Phase::CloseDown => Some(
                Want::Between(
                    bottom,
                    match self.band.lower_fail {
                        Some(v) => v,
                        None => self.start,
                    },
                ),
            ),
            Phase::Confirm => Some(Want::Between(bottom, top)),
            Phase::Done(_) => None,
        }
    }

    /// Move on to the boundaries unless both margins are there.
    fn finish_margins(&mut self, up_ok: bool, down_ok: bool)
        ensures
            *final(self) == old(self).after_margins(up_ok, down_ok),
    {
        if up_ok && down_ok {
            self.band.operating = Some(self.start);
            self.band.verified = true;
            self.phase = Phase::Done(Stop::Verified);
        } else {
            self.phase = Phase::ExpandUp;
        }
    }

    /// Count an experiment if the budget has one left.
    fn spend(&mut self) -> (run: bool)
        requires
            old(self).band.experiments < usize::MAX || old(self).band.experiments == old(
                self,
            ).budget,
        ensures
            run == (old(self).band.experiments != old(self).budget),
            !run ==> *final(self) == old(self).at(Phase::Done(Stop::Budget)),
            run ==> *final(self) == (Search {
                band: Band {
                    experiments: (old(self).band.experiments + 1) as usize,
                    ..old(self).band
                },
                ..*old(self)
            }),
    {
        if self.band.experiments == self.budget {
            self.phase = Phase::Done(Stop::Budget);
            false
        } else {
            self.band.experiments = self.band.experiments + 1;
            true
        }
    }

    /// Decide on a wanted scale before any experiment. `close` says whether
    /// the two scales of a midpoint are within the resolution already. The
    /// result says whether the experiment is to be run.
    pub fn propose(&mut self, scale: u64, close: bool) -> (run: bool)
        requires
            old(self).band.experiments < usize::MAX,
        ensures
            (*final(self), run) == old(self).proposed(scale, close),
    {
        let inside = self.lo <= scale && scale <= self.hi;
        match self.phase {
            Phase::Start => {
                self.band.experiments = self.band.experiments + 1;
                true
            },
            Phase::Walk { .. } => {
                if !inside {
                    self.phase = Phase::Done(Stop::NoPass);
                    false
                } else {
                    self.spend()
                }
            },
            Phase::MarginUp => {
                if !inside {
                    self.phase = Phase::MarginDown { up_ok: true };
                    false
                } else {
                    self.spend()
                }
            },
            Phase::MarginDown { up_ok } => {
                if !inside {
                    self.finish_margins(up_ok, true);
                    false
                } else {
                    self.spend()
                }
            },
            Phase::ExpandUp => {
                if self.band.upper_fail.is_some() || !inside {
                    self.phase = Phase::ExpandDown;
                    false
                } else {
                    self.spend()
                }
            },
            Phase::ExpandDown => {
                if self.band.lower_fail.is_some() || !inside {
                    self.phase = Phase::CloseUp;
                    false
                } else {
                    self.spend()
                }
            },
            Phase::CloseUp => {
                if self.band.highest_pass.is_none() || self.band.upper_fail.is_none() || close {
                    self.phase = Phase::CloseDown;
                    false
                } else {
                    self.spend()
                }
            },
            Phase::CloseDown => {
                if self.band.lowest_pass.is_none() || self.band.lower_fail.is_none() || close {
                    self.phase = Phase::Confirm;
                    false
                } else {
                    self.spend()
                }
            },
            Phase::Confirm => {
                match (self.band.lowest_pass, self.band.highest_pass) {
                    (Some(low), Some(high)) => {
                        self.band.operating = Some(scale);
                        if low == high {
                            self.band.verified = true;
                            self.phase = Phase::Done(Stop::Verified);
                            false
                        } else {
                            self.spend()
                        }
                    },
                    _ => {
                        self.phase = Phase::Done(Stop::NoPass);
                        false
                    },
                }
            },
            Phase::Done(_) => false,
        }
    }

    /// Take what the experiment at `scale` showed.
    pub fn record(&mut self, scale: u64, verdict: Verdict)
        ensures
            *final(self) == old(self).told(scale, verdict),
    {
        if let Phase::Done(_) = self.phase {
            return;
        }
        match verdict {
            Verdict::Interrupted => {
                self.phase = Phase::Done(Stop::Interrupted);
            },
            Verdict::Pass => {
                match self.phase {
                    Phase::Walk { from, previous: _, up, turned: _ } => {
                        self.band.lowest_pass = Some(scale);
                        self.band.highest_pass = Some(scale);
                        if up {
                            self.band.lower_fail = Some(from);
                        } else {
                            self.band.upper_fail = Some(from);
                        }
                        self.phase = Phase::ExpandUp;
                        return;
                    },
                    _ => {},
                }
                self.band.note_pass(scale);
                match self.phase {
                    Phase::Start => {
                        self.phase = Phase::MarginUp;
                    },
                    Phase::MarginUp => {
                        self.phase = Phase::MarginDown { up_ok: true };
                    },
                    Phase::MarginDown { up_ok } => {
                        self.finish_margins(up_ok, true);
                    },
                    Phase::Confirm => {
                        self.band.verified = true;
                        self.phase = Phase::Done(Stop::Verified);
                    },
                    _ => {},
                }
            },
            Verdict::Fail { oscillating, violation } => {
                self.band.note_fail(scale, violation);
                match self.phase {
                    Phase::Start => {
                        self.start_violation = violation;
                        self.phase = Phase::Walk {
                            from: scale,
                            previous: violation,
                            up: !oscillating,
                            turned: false,
                        };
                    },
                    Phase::Walk { from, previous, up, turned } => {
                        if violation > previous {
                            if up {
                                self.band.upper_fail = Some(scale);
                            } else {
                                self.band.lower_fail = Some(scale);
                            }
                            if from == self.start && !turned {
                                self.phase = Phase::Walk {
                                    from: self.start,
                                    previous: self.start_violation,
                                    up: !up,
                                    turned: true,
                                };
                            } else {
                                self.phase = Phase::Done(Stop::NoPass);
                            }
                        } else {
                            self.phase = Phase::Walk {
                                from: scale,
                                previous: violation,
                                up,
                                turned,
                            };
                        }
                    },
                    Phase::MarginUp => {
                        self.band.upper_fail = Some(scale);
                        self.phase = Phase::MarginDown { up_ok: false };
                    },
                    Phase::MarginDown { up_ok } => {
                        self.band.lower_fail = Some(scale);
                        self.finish_margins(up_ok, false);
                    },
                    Phase::ExpandUp => {
                        self.band.upper_fail = Some(scale);
                        self.phase = Phase::ExpandDown;
                    },
                    Phase::ExpandDown => {
                        self.band.lower_fail = Some(scale);
                        self.phase = Phase::CloseUp;
                    },
                    Phase::CloseUp => {
                        self.band.upper_fail = Some(scale);
                    },
                    Phase::CloseDown => {
                        self.band.lower_fail = Some(scale);
                    },
                    Phase::Confirm => {
                        self.phase = Phase::Done(Stop::VerificationFailed);
                    },
                    Phase::Done(_) => {},
                }
            },
        }
    }

    /// The scale to operate at, once it has been measured to pass.
    pub fn operating(&self) -> (r: Option<u64>)
        ensures
            r == (if self.band.verified {
                self.band.operating
            } else {
                None
            }),
    {
        if self.band.verified {
            self.band.operating
        } else {
            None
        }
    }

    /// Why the search ended; nothing while it goes on.
    pub fn stop(&self) -> (r: Option<Stop>)
        ensures
            r == (match self.phase {
                Phase::Done(stop) => Some(stop),
                _ => None,
            }),
    {
        match self.phase {
            Phase::Done(stop) => Some(stop),
            _ => None,
        }
    }
}

impl Stop {
    /// Why the search ended, in words.
    pub open spec fn words(self) -> Seq<char> {
        match self {
            Stop::Verified => "verified"@,
            Stop::Interrupted => "interrupted by contact"@,
            Stop::NoPass => "no gain scale within the bounds met the requirements"@,
            Stop::Budget => "the experiment budget ran out before the band was bracketed"@,
            Stop::VerificationFailed =>
                "the midpoint of the measured band failed its confirming experiment"@,
        }
    }

    /// Why the search ended, in words.
    pub fn reason(self) -> (r: &'static str)
        ensures
            r@ == self.words(),
    {
        match self {
            Stop::Verified => "verified",
            Stop::Interrupted => "interrupted by contact",
            Stop::NoPass => "no gain scale within the bounds met the requirements",
            Stop::Budget => "the experiment budget ran out before the band was bracketed",
            Stop::VerificationFailed => {
                "the midpoint of the measured band failed its confirming experiment"
            },
        }
    }
}

/// Whether a scale is the one that was wanted: a step up is higher, a step
/// down is lower, and a midpoint lies strictly between two different scales.
pub open spec fn fits(start: u64, want: Want, scale: u64) -> bool {
    match want {
        Want::Start => scale == start,
        Want::Walk { from, up, turned } => if up {
            scale > from
        } else {
            scale < from
        },
        Want::Above(s) => scale > s,
        Want::Below(s) => scale < s,
        Want::Between(a, b) => a < scale < b || b < scale < a || (a == b && scale == a),
    }
}

/// Phases left before the search can end without another experiment.
pub open spec fn phases_left(phase: Phase) -> int {
    match phase {
        Phase::Start => 9,
        Phase::Walk { from, previous, up, turned } => 8,
        Phase::MarginUp => 7,
        Phase::MarginDown { up_ok } => 6,
        Phase::ExpandUp => 5,
        Phase::ExpandDown => 4,
        Phase::CloseUp => 3,
        Phase::CloseDown => 2,
        Phase::Confirm => 1,
        Phase::Done(stop) => 0,
    }
}

impl Search {
    /// Whether everything the search holds was measured: passes among
    /// `passes`, failures among `fails`.
    pub open spec fn measured(self, passes: Set<u64>, fails: Set<u64>) -> bool {
        let b = self.band;
        &&& b.lowest_pass matches Some(v) ==> passes.contains(v)
        &&& b.highest_pass matches Some(v) ==> passes.contains(v)
        &&& b.lower_fail matches Some(v) ==> fails.contains(v)
        &&& b.upper_fail matches Some(v) ==> fails.contains(v)
        &&& b.best_fail matches Some((v, w)) ==> fails.contains(v)
        &&& self.phase matches Phase::Walk { from, .. } ==> fails.contains(from)
        &&& self.phase matches Phase::Walk { .. } ==> fails.contains(self.start)
        &&& (self.phase is MarginUp || self.phase is MarginDown) ==> passes.contains(self.start)
        &&& b.verified ==> (b.operating matches Some(v) && passes.contains(v))
    }

    /// Whether the failures lie outside the passes, on their own sides.
    pub open spec fn ordered(self) -> bool {
        let b = self.band;
        &&& b.lowest_pass is Some <==> b.highest_pass is Some
        &&& b.lowest_pass is Some ==> b.lowest_pass->0 <= b.highest_pass->0
        &&& b.lowest_pass is Some && b.lower_fail is Some ==> b.lower_fail->0 < b.lowest_pass->0
        &&& b.highest_pass is Some && b.upper_fail is Some ==> b.highest_pass->0 < b.upper_fail->0
        &&& match self.phase {
            Phase::Start => b.lowest_pass is None && b.lower_fail is None && b.upper_fail is None,
            Phase::Walk { from, previous, up, turned } => b.lowest_pass is None && (up ==>
                b.upper_fail is None) && (!up ==> b.lower_fail is None) && (!turned ==>
                b.lower_fail is None && b.upper_fail is None),
            Phase::MarginUp => b.lowest_pass == Some(self.start) && b.highest_pass == Some(
                self.start,
            ) && b.lower_fail is None && b.upper_fail is None,
            Phase::MarginDown { up_ok } => b.lowest_pass == Some(self.start) && b.lower_fail is None
                && self.start <= b.highest_pass->0,
            Phase::Done(stop) => true,
            _ => b.lowest_pass is Some,
        }
        &&& b.verified ==> b.operating is Some && b.lowest_pass is Some && b.lowest_pass->0
            <= b.operating->0 <= b.highest_pass->0
        &&& self.phase is Start ==> !b.verified
        &&& b.verified ==> self.phase is Done
    }

    /// Whether the start and everything the search holds lie within the bounds.
    pub open spec fn bounded(self) -> bool {
        let b = self.band;
        &&& self.inside(self.start)
        &&& b.lowest_pass matches Some(v) ==> self.inside(v)
        &&& b.highest_pass matches Some(v) ==> self.inside(v)
        &&& b.lower_fail matches Some(v) ==> self.inside(v)
        &&& b.upper_fail matches Some(v) ==> self.inside(v)
        &&& b.best_fail matches Some((v, w)) ==> self.inside(v)
        &&& b.operating matches Some(v) ==> self.inside(v)
        &&& self.phase matches Phase::Walk { from, .. } ==> self.inside(from)
    }

    /// Whether the experiments are within the budget.
    pub open spec fn within_budget(self) -> bool {
        self.band.experiments <= self.budget && (self.phase is Start ==> self.band.experiments
            == 0)
    }
}

/// Nothing is accepted that was not measured: what the search holds of the
/// band, and the operating scale once it is verified, are scales at which an
/// experiment showed just that.
pub proof fn law_what_is_accepted_was_measured(
    s: Search,
    passes: Set<u64>,
    fails: Set<u64>,
    scale: u64,
    close: bool,
    verdict: Verdict,
)
    requires
        s.measured(passes, fails),
        s.wanted() matches Some(w) && fits(s.start, w, scale),
        s.ordered(),
    ensures
        s.proposed(scale, close).0.measured(passes, fails),
        s.proposed(scale, close).1 ==> ({
            let next = s.proposed(scale, close).0.told(scale, verdict);
            &&& verdict is Pass ==> next.measured(passes.insert(scale), fails)
            &&& verdict is Fail ==> next.measured(passes, fails.insert(scale))
            &&& verdict is Interrupted ==> next.measured(passes, fails)
        }),
{
}

/// The search brackets the band: every pass lies between the failures on
/// either side, and an accepted scale lies between the passes.
pub proof fn law_the_band_is_bracketed(s: Search, scale: u64, close: bool, verdict: Verdict)
    requires
        s.ordered(),
        s.wanted() matches Some(w) && fits(s.start, w, scale),
    ensures
        s.proposed(scale, close).0.ordered(),
        s.proposed(scale, close).1 ==> s.proposed(scale, close).0.told(scale, verdict).ordered(),
{
}

/// The search never runs more experiments than it was given; the start is
/// always measured, so it has to be given one.
pub proof fn law_the_budget_is_kept(s: Search, scale: u64, close: bool, verdict: Verdict)
    requires
        s.within_budget(),
        s.budget >= 1,
    ensures
        s.proposed(scale, close).0.within_budget() || s.proposed(scale, close).1,
        s.proposed(scale, close).0.band.experiments <= s.budget,
        s.proposed(scale, close).1 ==> s.proposed(scale, close).0.told(
            scale,
            verdict,
        ).within_budget(),
{
}

/// The search ends: each proposal either runs an experiment of the budget or
/// moves on to a later phase.
pub proof fn law_the_search_ends(s: Search, scale: u64, close: bool)
    requires
        s.wanted() is Some,
    ensures
        s.proposed(scale, close).1 ==> s.proposed(scale, close).0.band.experiments
            == s.band.experiments + 1 || s.band.experiments == usize::MAX,
        !s.proposed(scale, close).1 ==> {
            &&& s.proposed(scale, close).0.band.experiments == s.band.experiments
            &&& 0 <= phases_left(s.proposed(scale, close).0.phase) < phases_left(s.phase)
        },
{
}

/// Every experiment stays within the bounds: a search that starts within them
/// never runs a scale outside, and everything it holds goes on to lie within.
pub proof fn law_experiments_stay_within_the_bounds(
    s: Search,
    scale: u64,
    close: bool,
    verdict: Verdict,
)
    requires
        s.bounded(),
        s.wanted() matches Some(w) && fits(s.start, w, scale),
    ensures
        s.proposed(scale, close).1 ==> s.inside(scale),
        s.proposed(scale, close).0.bounded(),
        s.proposed(scale, close).1 ==> s.proposed(scale, close).0.told(scale, verdict).bounded(),
{
    lemma_proposed_is_bounded(s, scale, close);
    if s.proposed(scale, close).1 {
        lemma_told_is_bounded(s.proposed(scale, close).0, scale, verdict);
    }
}

proof fn lemma_proposed_is_bounded(s: Search, scale: u64, close: bool)
    requires
        s.bounded(),
        s.wanted() matches Some(w) && fits(s.start, w, scale),
    ensures
        s.proposed(scale, close).1 ==> s.inside(scale),
        s.proposed(scale, close).0.bounded(),
        s.proposed(scale, close).0.lo == s.lo,
        s.proposed(scale, close).0.hi == s.hi,
{
}

proof fn lemma_told_is_bounded(s: Search, scale: u64, verdict: Verdict)
    requires
        s.bounded(),
        s.inside(scale),
    ensures
        s.told(scale, verdict).bounded(),
{
    match verdict {
        Verdict::Pass => {
            assert(s.passed(scale).bounded());
        },
        Verdict::Fail { oscillating, violation } => {
            assert(s.failed(scale, oscillating, violation).bounded());
        },
        Verdict::Interrupted => {},
    }
}

/// A start that passes with one step of margin on each side is kept as it is.
pub proof fn law_a_start_with_margin_is_kept(s: Search, up: u64, down: u64)
    requires
        s.phase is MarginUp,
        s.inside(up),
        s.inside(down),
        s.budget > s.band.experiments + 1,
    ensures
        ({
            let first = s.proposed(up, false);
            let second = first.0.told(up, Verdict::Pass).proposed(down, false);
            let end = second.0.told(down, Verdict::Pass);
            &&& first.1 && second.1
            &&& end.phase == Phase::Done(Stop::Verified)
            &&& end.band.verified && end.band.operating == Some(s.start)
            &&& end.band.experiments == s.band.experiments + 2
        }),
{
}

/// A start that fails worse one step on turns the walk around once: the next
/// scale wanted is one step the other way from the start.
pub proof fn law_a_worse_first_step_turns_the_walk(
    s: Search,
    up: bool,
    previous: u64,
    scale: u64,
    oscillating: bool,
    violation: u64,
)
    requires
        s.phase == (Phase::Walk { from: s.start, previous, up, turned: false }),
        violation > previous,
    ensures
        s.failed(scale, oscillating, violation).wanted() == Some(
            Want::Walk { from: s.start, up: !up, turned: true },
        ),
{
}

/// An experiment is run exactly if it is asked for and there is one left: the start always;
/// a step if it stays within the bounds, and no failure is known where it looks for one; a
/// midpoint of a boundary if both its sides are known and not close; and the last one if
/// the passes differ.
pub proof fn law_when_an_experiment_is_run(s: Search, scale: u64, close: bool)
    ensures
        ({
            let within = s.lo <= scale && scale <= s.hi;
            let b = s.band;
            let asked = match s.phase {
                Phase::Start => true,
                Phase::Walk { .. } => within,
                Phase::MarginUp => within,
                Phase::MarginDown { .. } => within,
                Phase::ExpandUp => within && b.upper_fail is None,
                Phase::ExpandDown => within && b.lower_fail is None,
                Phase::CloseUp => b.highest_pass is Some && b.upper_fail is Some && !close,
                Phase::CloseDown => b.lowest_pass is Some && b.lower_fail is Some && !close,
                Phase::Confirm => b.lowest_pass is Some && b.highest_pass is Some && b.lowest_pass
                    != b.highest_pass,
                Phase::Done(_) => false,
            };
            let (next, run) = s.proposed(scale, close);
            &&& run <==> asked && (s.phase is Start || b.experiments != s.budget)
            &&& run ==> next.phase == s.phase
            &&& asked && !run ==> next.phase == Phase::Done(Stop::Budget)
            &&& !asked && !(s.phase is Done) ==> next.phase != Phase::Done(Stop::Budget)
            &&& next.band.lowest_pass == b.lowest_pass && next.band.highest_pass == b.highest_pass
            &&& next.band.lower_fail == b.lower_fail && next.band.upper_fail == b.upper_fail
            &&& next.band.best_fail == b.best_fail
            &&& next.lo == s.lo && next.hi == s.hi && next.start == s.start
            &&& next.budget == s.budget && next.start_violation == s.start_violation
        }),
{
}

/// What is not asked for is passed over: a walk out of the bounds has found nothing; a step
/// out of them is a margin, or a boundary; the boundaries come upper first; and the one
/// pass there is has been measured already.
pub proof fn law_what_is_passed_over(s: Search, scale: u64, close: bool)
    requires
        !s.proposed(scale, close).1,
        s.proposed(scale, close).0.phase != Phase::Done(Stop::Budget),
    ensures
        ({
            let next = s.proposed(scale, close).0;
            match s.phase {
                Phase::Start => false,
                Phase::Walk { .. } => next.phase == Phase::Done(Stop::NoPass),
                Phase::MarginUp => next.phase == (Phase::MarginDown { up_ok: true }),
                Phase::MarginDown { up_ok } => if up_ok {
                    next.phase == Phase::Done(Stop::Verified) && next.band.verified
                        && next.band.operating == Some(s.start)
                } else {
                    next.phase == Phase::ExpandUp && next.band == s.band
                },
                Phase::ExpandUp => next.phase == Phase::ExpandDown && next.band == s.band,
                Phase::ExpandDown => next.phase == Phase::CloseUp && next.band == s.band,
                Phase::CloseUp => next.phase == Phase::CloseDown && next.band == s.band,
                Phase::CloseDown => next.phase == Phase::Confirm && next.band == s.band,
                Phase::Confirm => if s.band.lowest_pass is Some && s.band.highest_pass is Some {
                    next.phase == Phase::Done(Stop::Verified) && next.band.verified
                        && next.band.operating == Some(scale)
                } else {
                    next.phase == Phase::Done(Stop::NoPass)
                },
                Phase::Done(_) => next == s,
            }
        }),
{
}

/// The lowest and the highest pass are those of all passes: a pass joins them, and the
/// first is both. Of the failures the one that violates least is kept, the earlier of two
/// that violate alike.
pub proof fn law_the_extremes_are_kept(b: Band, scale: u64, violation: u64)
    requires
        b.lowest_pass is Some <==> b.highest_pass is Some,
    ensures
        ({
            let p = b.passing(scale);
            let f = b.failing(scale, violation);
            &&& b.lowest_pass is None ==> p.lowest_pass == Some(scale) && p.highest_pass == Some(
                scale,
            )
            &&& b.lowest_pass matches Some(v) ==> {
                &&& p.lowest_pass == Some(v) || p.lowest_pass == Some(scale)
                &&& p.lowest_pass->0 <= v && p.lowest_pass->0 <= scale
            }
            &&& b.highest_pass matches Some(v) ==> {
                &&& p.highest_pass == Some(v) || p.highest_pass == Some(scale)
                &&& p.highest_pass->0 >= v && p.highest_pass->0 >= scale
            }
            &&& b.best_fail is None ==> f.best_fail == Some((scale, violation))
            &&& b.best_fail matches Some((old_scale, least)) ==> f.best_fail == (if violation
                < least {
                Some((scale, violation))
            } else {
                Some((old_scale, least))
            })
            &&& p.best_fail == b.best_fail && p.lower_fail == b.lower_fail
            &&& p.upper_fail == b.upper_fail && p.operating == b.operating
            &&& f.lowest_pass == b.lowest_pass && f.highest_pass == b.highest_pass
            &&& f.lower_fail == b.lower_fail && f.upper_fail == b.upper_fail
        }),
{
}

/// A start that failed is walked away from: down if it oscillated and up if not. While the
/// steps violate no more they go on; the first pass has the scale before it as the failure
/// on its near side; and a step that violates more ends the walk, or turns it around once
/// if it was the first.
pub proof fn law_how_a_search_walks(
    s: Search,
    scale: u64,
    oscillating: bool,
    violation: u64,
    from: u64,
    previous: u64,
    up: bool,
    turned: bool,
)
    ensures
        ({
            let fail = s.told(scale, Verdict::Fail { oscillating, violation });
            let pass = s.told(scale, Verdict::Pass);
            &&& s.phase is Start ==> {
                &&& fail.phase == (Phase::Walk {
                    from: scale,
                    previous: violation,
                    up: !oscillating,
                    turned: false,
                })
                &&& fail.start_violation == violation
                &&& pass.phase is MarginUp
            }
            &&& s.phase == (Phase::Walk { from, previous, up, turned }) ==> {
                &&& violation <= previous ==> fail.phase == (Phase::Walk {
                    from: scale,
                    previous: violation,
                    up,
                    turned,
                })
                &&& violation > previous && (turned || from != s.start) ==> fail.phase
                    == Phase::Done(Stop::NoPass)
                &&& violation > previous && up ==> fail.band.upper_fail == Some(scale)
                    && fail.band.lower_fail == s.band.lower_fail
                &&& violation > previous && !up ==> fail.band.lower_fail == Some(scale)
                    && fail.band.upper_fail == s.band.upper_fail
                &&& violation > previous && from == s.start && !turned ==> fail.phase == (
                Phase::Walk {
                    from: s.start,
                    previous: s.start_violation,
                    up: !up,
                    turned: true,
                })
                &&& pass.phase == Phase::ExpandUp
                &&& pass.band.lowest_pass == Some(scale) && pass.band.highest_pass == Some(scale)
                &&& up ==> pass.band.lower_fail == Some(from) && pass.band.upper_fail
                    == s.band.upper_fail
                &&& !up ==> pass.band.upper_fail == Some(from) && pass.band.lower_fail
                    == s.band.lower_fail
            }
        }),
{
}

/// The boundaries are looked for upper first. A pass widens the band and is stepped on
/// from, or closed in on; a failure is the failure of that side, and a step that fails
/// ends the steps that way. The last experiment decides whether the band is operated.
pub proof fn law_how_a_search_closes_in(
    s: Search,
    scale: u64,
    oscillating: bool,
    violation: u64,
)
    ensures
        ({
            let fail = s.told(scale, Verdict::Fail { oscillating, violation });
            let pass = s.told(scale, Verdict::Pass);
            let hit = s.told(scale, Verdict::Interrupted);
            let upper = fail.band.upper_fail == Some(scale) && fail.band.lower_fail
                == s.band.lower_fail;
            let lower = fail.band.lower_fail == Some(scale) && fail.band.upper_fail
                == s.band.upper_fail;
            &&& !(s.phase is Done) ==> hit.phase == Phase::Done(Stop::Interrupted) && hit.band
                == s.band
            &&& s.phase is MarginUp ==> upper && fail.phase == (Phase::MarginDown { up_ok: false })
                && pass.phase == (Phase::MarginDown { up_ok: true })
            &&& s.phase is MarginDown ==> lower && fail.phase == Phase::ExpandUp
            &&& s.phase == (Phase::MarginDown { up_ok: false }) ==> pass.phase == Phase::ExpandUp
            &&& s.phase == (Phase::MarginDown { up_ok: true }) ==> pass.phase == Phase::Done(
                Stop::Verified,
            ) && pass.band.verified && pass.band.operating == Some(s.start)
            &&& s.phase is ExpandUp ==> upper && fail.phase == Phase::ExpandDown && pass.phase
                == s.phase
            &&& s.phase is ExpandDown ==> lower && fail.phase == Phase::CloseUp && pass.phase
                == s.phase
            &&& s.phase is CloseUp ==> upper && fail.phase == s.phase && pass.phase == s.phase
            &&& s.phase is CloseDown ==> lower && fail.phase == s.phase && pass.phase == s.phase
            &&& s.phase is Confirm ==> {
                &&& fail.phase == Phase::Done(Stop::VerificationFailed)
                &&& fail.band.verified == s.band.verified
                &&& pass.phase == Phase::Done(Stop::Verified) && pass.band.verified
                &&& pass.band.operating == s.band.operating
            }
            &&& s.phase is Done ==> fail == s && pass == s && hit == s
        }),
{
}

/// What a search wants: a step up from the highest pass and down from the lowest, the
/// middle of a pass and the failure on its side, and at last the middle of the band.
pub proof fn law_what_a_search_wants(s: Search, low: u64, high: u64, below: u64, above: u64)
    requires
        s.band.lowest_pass == Some(low),
        s.band.highest_pass == Some(high),
        s.band.lower_fail == Some(below),
        s.band.upper_fail == Some(above),
    ensures
        s.phase is MarginUp ==> s.wanted() == Some(Want::Above(s.start)),
        s.phase is MarginDown ==> s.wanted() == Some(Want::Below(s.start)),
        s.phase is ExpandUp ==> s.wanted() == Some(Want::Above(high)),
        s.phase is ExpandDown ==> s.wanted() == Some(Want::Below(low)),
        s.phase is CloseUp ==> s.wanted() == Some(Want::Between(high, above)),
        s.phase is CloseDown ==> s.wanted() == Some(Want::Between(low, below)),
        s.phase is Confirm ==> s.wanted() == Some(Want::Between(low, high)),
        s.phase is Done <==> s.wanted() is None,
{
}

/// Every reason a search ends for is told in words of its own.
pub proof fn law_every_end_of_a_search_has_its_words(a: Stop, b: Stop)
    ensures
        a.words() == b.words() ==> a == b,
        a == Stop::NoPass ==> a.words()
            == "no gain scale within the bounds met the requirements"@,
        a == Stop::Budget ==> a.words()
            == "the experiment budget ran out before the band was bracketed"@,
        a == Stop::VerificationFailed ==> a.words()
            == "the midpoint of the measured band failed its confirming experiment"@,
        a == Stop::Verified ==> a.words() == "verified"@,
        a == Stop::Interrupted ==> a.words() == "interrupted by contact"@,
{
    reveal_strlit("verified");
    reveal_strlit("interrupted by contact");
    reveal_strlit("no gain scale within the bounds met the requirements");
    reveal_strlit("the experiment budget ran out before the band was bracketed");
    reveal_strlit("the midpoint of the measured band failed its confirming experiment");
    if a != b {
        assert(a.words().len() != b.words().len());
    }
}

} // verus!
