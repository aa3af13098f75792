//! Where a refused motion comes to rest: the search for the standoff.
//!
//! The search walks the line between two configurations and asks, point by
//! point, whether the arm is clear there. Positions on the line are whole
//! numbers of the finest division the search can reach, so every point it
//! names is exact.
use vstd::prelude::*;

verus! {

/// Samples every sweep takes even when its pitch would ask for fewer.
pub const GATE_MIN_SAMPLES: usize = 8;

/// Samples one segment check takes before it coarsens its pitch.
pub const GATE_SEGMENT_MAX_STEPS: usize = 32;

/// Coarse samples the search takes before it gives up.
pub const GATE_MAX_STEPS: usize = 512;

/// Halvings that refine a coarse sample.
pub const GATE_BISECT_ROUNDS: u32 = 16;

/// Divisions of one coarse step.
pub const DIVISIONS: u32 = 65536;

/// `2` to the power `n`.
pub open spec fn power_of_two(n: nat) -> nat
    decreases n,
{
    if n == 0 {
        1
    } else {
        2 * power_of_two((n - 1) as nat)
    }
}

/// `n`, brought into the window between `lo` and `hi`.
pub open spec fn clamped(n: int, lo: int, hi: int) -> int {
    if n < lo {
        lo
    } else if n > hi {
        hi
    } else {
        n
    }
}

/// Interior samples of a segment check. `pitch_samples` is how many the pitch
/// asks for, or nothing where the span is not finite; the bound keeps the cost
/// flat for a target off the far end of the window.
pub fn segment_steps(pitch_samples: Option<usize>) -> (r: usize)
    ensures
        r == (match pitch_samples {
            Some(n) => clamped(n as int, GATE_MIN_SAMPLES as int, GATE_SEGMENT_MAX_STEPS as int),
            None => GATE_SEGMENT_MAX_STEPS as int,
        }),
        8 <= r <= 32,
        pitch_samples is None ==> r == 32,
        pitch_samples matches Some(n) ==> (r < n ==> r == 32) && (r > n ==> r == 8),
{
    match pitch_samples {
        Some(n) => {
            if n < GATE_MIN_SAMPLES {
                GATE_MIN_SAMPLES
            } else if n > GATE_SEGMENT_MAX_STEPS {
                GATE_SEGMENT_MAX_STEPS
            } else {
                n
            }
        },
        None => GATE_SEGMENT_MAX_STEPS,
    }
}

/// Samples of the forward walk over a span that the pitch divides into
/// `pitch_samples`.
pub fn walk_steps(pitch_samples: usize) -> (r: usize)
    ensures
        r == clamped(pitch_samples as int, GATE_MIN_SAMPLES as int, GATE_MAX_STEPS as int),
        8 <= r <= 512,
        r < pitch_samples ==> r == 512,
        r > pitch_samples ==> r == 8,
{
    if pitch_samples < GATE_MIN_SAMPLES {
        GATE_MIN_SAMPLES
    } else if pitch_samples > GATE_MAX_STEPS {
        GATE_MAX_STEPS
    } else {
        pitch_samples
    }
}

/// Where the search ended.
#[derive(Clone, Copy, Debug, PartialEq, Eq, Structural)]
pub enum Stop {
    /// Hold where the arm is: nothing on the line is clear.
    Hold,
    /// The whole line is clear: the target itself.
    Target,
    /// A point on the line, in divisions of a coarse step.
    At {
        /// Whether the point lies behind the arm, away from the target.
        behind: bool,
        /// Distance from the arm, in divisions.
        at: u32,
    },
}

/// One position on the line that has to be tested.
#[derive(Clone, Copy, Debug, PartialEq, Eq, Structural)]
pub struct Probe {
    /// Whether the position lies behind the arm, away from the target.
    pub behind: bool,
    /// Distance from the arm, in divisions of a coarse step.
    pub at: u32,
}

/// The search for the standoff, one tested position at a time.
#[derive(Clone, Copy, Debug, PartialEq, Eq, Structural)]
pub enum StopSearch {
    /// Touching the world: looking for the nearest way out, behind the arm and
    /// ahead of it in turn.
    Escape {
        /// The coarse step being tested, from one.
        step: u32,
        /// Whether the position behind the arm is the one being tested.
        behind: bool,
    },
    /// A way out was found: closing in on the edge of what the arm touches.
    RefineEscape {
        /// The side the way out lies on.
        behind: bool,
        /// The coarse step the way out was found at.
        unit: u32,
        /// The farthest position known to touch.
        touching: u32,
        /// Distance from there to the nearest position known to be clear.
        width: u32,
        /// Halvings left.
        rounds: u32,
    },
    /// Clear of the world: walking toward the target.
    Walk {
        /// Samples on the whole line.
        steps: u32,
        /// The sample being tested, from one.
        step: u32,
    },
    /// A sample collided: closing in on the last clear position before it.
    RefineWalk {
        /// The farthest position known to be clear.
        clear: u32,
        /// Distance from there to the nearest position known to collide.
        width: u32,
        /// Halvings left.
        rounds: u32,
    },
    /// Finished.
    Done {
        /// Where the arm belongs.
        stop: Stop,
    },
}

/// The signed position a probe stands for.
pub open spec fn position(p: Probe) -> int {
    if p.behind {
        -(p.at as int)
    } else {
        p.at as int
    }
}

/// Positions on one side of the arm, signed.
pub open spec fn signed(behind: bool, at: int) -> int {
    if behind {
        -at
    } else {
        at
    }
}

impl StopSearch {
    /// The counters are within their bounds, and the interval under
    /// refinement can be halved exactly as often as there are rounds left.
    pub open spec fn wf(self) -> bool {
        match self {
            StopSearch::Escape { step, behind } => 1 <= step <= GATE_MAX_STEPS,
            StopSearch::RefineEscape { behind, unit, touching, width, rounds } => {
                &&& 1 <= rounds <= GATE_BISECT_ROUNDS
                &&& 1 <= unit <= GATE_MAX_STEPS
                &&& width == unit * power_of_two(rounds as nat)
                &&& touching + width <= GATE_MAX_STEPS * DIVISIONS
            },
            StopSearch::Walk { steps, step } => 1 <= step <= steps <= GATE_MAX_STEPS,
            StopSearch::RefineWalk { clear, width, rounds } => {
                &&& 1 <= rounds <= GATE_BISECT_ROUNDS
                &&& width == power_of_two(rounds as nat)
                &&& clear % DIVISIONS + width <= DIVISIONS
                &&& clear + width <= GATE_MAX_STEPS * DIVISIONS
            },
            StopSearch::Done { stop } => true,
        }
    }

    /// The position to test next.
    pub open spec fn wanted(self) -> Option<Probe> {
        match self {
            StopSearch::Escape { step, behind } => Some(
                Probe { behind, at: (step * DIVISIONS) as u32 },
            ),
            StopSearch::RefineEscape { behind, unit, touching, width, rounds } => Some(
                Probe { behind, at: (touching + width / 2) as u32 },
            ),
            StopSearch::Walk { steps, step } => Some(
                Probe { behind: false, at: (step * DIVISIONS) as u32 },
            ),
            StopSearch::RefineWalk { clear, width, rounds } => Some(
                Probe { behind: false, at: (clear + width / 2) as u32 },
            ),
            StopSearch::Done { stop } => None,
        }
    }

    /// The search after the wanted position was found clear, or not.
    pub open spec fn told(self, is_clear: bool) -> StopSearch {
        match self {
            StopSearch::Escape { step, behind } => if is_clear {
                StopSearch::RefineEscape {
                    behind,
                    unit: step,
                    touching: 0,
                    width: (step * DIVISIONS) as u32,
                    rounds: GATE_BISECT_ROUNDS,
                }
            } else if behind {
                StopSearch::Escape { step, behind: false }
            } else if step < GATE_MAX_STEPS {
                StopSearch::Escape { step: (step + 1) as u32, behind: true }
            } else {
                StopSearch::Done { stop: Stop::Hold }
            },
            StopSearch::RefineEscape { behind, unit, touching, width, rounds } => {
                let half = (width / 2) as u32;
                let touching = if is_clear {
                    touching
                } else {
                    (touching + half) as u32
                };
                if rounds == 1 {
                    StopSearch::Done { stop: Stop::At { behind, at: (touching + half) as u32 } }
                } else {
                    StopSearch::RefineEscape {
                        behind,
                        unit,
                        touching,
                        width: half,
                        rounds: (rounds - 1) as u32,
                    }
                }
            },
            StopSearch::Walk { steps, step } => if !is_clear {
                StopSearch::RefineWalk {
                    clear: ((step - 1) * DIVISIONS) as u32,
                    width: DIVISIONS,
                    rounds: GATE_BISECT_ROUNDS,
                }
            } else if step < steps {
                StopSearch::Walk { steps, step: (step + 1) as u32 }
            } else {
                StopSearch::Done { stop: Stop::Target }
            },
            StopSearch::RefineWalk { clear, width, rounds } => {
                let half = (width / 2) as u32;
                let clear = if is_clear {
                    (clear + half) as u32
                } else {
                    clear
                };
                if rounds == 1 {
                    StopSearch::Done { stop: Stop::At { behind: false, at: clear } }
                } else {
                    StopSearch::RefineWalk { clear, width: half, rounds: (rounds - 1) as u32 }
                }
            },
            StopSearch::Done { stop } => self,
        }
    }

    /// Positions that may still be tested.
    pub open spec fn left(self) -> int {
        match self {
            StopSearch::Escape { step, behind } => 2 * (GATE_MAX_STEPS - step) + (if behind {
                2int
            } else {
                1
            }) + GATE_BISECT_ROUNDS,
            StopSearch::RefineEscape { behind, unit, touching, width, rounds } => rounds as int,
            StopSearch::Walk { steps, step } => steps - step + 1 + GATE_BISECT_ROUNDS,
            StopSearch::RefineWalk { clear, width, rounds } => rounds as int,
            StopSearch::Done { stop } => 0,
        }
    }

    /// What the search has established about a line of `steps` samples on which
    /// `clear_at` says whether a position is clear.
    pub open spec fn knows(self, steps: int, clear_at: spec_fn(int) -> bool) -> bool {
        match self {
            StopSearch::Escape { step, behind } => {
                &&& !clear_at(0)
                &&& none_clear(step - 1, clear_at)
                &&& !behind ==> !clear_at(-(step * DIVISIONS))
            },
            StopSearch::RefineEscape { behind, unit, touching, width, rounds } => {
                &&& !clear_at(0)
                &&& none_clear(unit - 1, clear_at)
                &&& touching + width <= unit * DIVISIONS
                &&& !clear_at(signed(behind, touching as int))
                &&& clear_at(signed(behind, touching + width))
            },
            StopSearch::Walk { steps: samples, step } => {
                &&& samples == steps
                &&& all_clear(step - 1, clear_at)
            },
            StopSearch::RefineWalk { clear, width, rounds } => {
                &&& all_clear(clear as int / DIVISIONS as int, clear_at)
                &&& clear_at(clear as int)
                &&& !clear_at(clear + width)
            },
            StopSearch::Done { stop } => stop_is_right(stop, steps, clear_at),
        }
    }

    /// Start a search. `touching` says whether the arm touches the world where
    /// it is; `steps` is the number of samples on the line to the target.
    pub fn start(touching: bool, steps: usize) -> (r: StopSearch)
        requires
            1 <= steps <= GATE_MAX_STEPS,
        ensures
            r.wf(),
            r == (if touching {
                StopSearch::Escape { step: 1, behind: true }
            } else {
                StopSearch::Walk { steps: steps as u32, step: 1 }
            }),
    {
        if touching {
            StopSearch::Escape { step: 1, behind: true }
        } else {
            StopSearch::Walk { steps: steps as u32, step: 1 }
        }
    }

    /// The position to test next, or nothing once the search is over.
    pub fn probe(&self) -> (r: Option<Probe>)
        requires
            self.wf(),
        ensures
            r == self.wanted(),
    {
        match *self {
            StopSearch::Escape { step, behind } => Some(Probe { behind, at: step * DIVISIONS }),
            StopSearch::RefineEscape { behind, unit: _, touching, width, rounds: _ } => Some(
                Probe { behind, at: touching + width / 2 },
            ),
            StopSearch::Walk { steps: _, step } => Some(
                Probe { behind: false, at: step * DIVISIONS },
            ),
            StopSearch::RefineWalk { clear, width, rounds: _ } => Some(
                Probe { behind: false, at: clear + width / 2 },
            ),
            StopSearch::Done { stop: _ } => None,
        }
    }

    /// Take the answer on the position that `probe` named.
    pub fn answer(&mut self, is_clear: bool)
        requires
            old(self).wf(),
        ensures
            *final(self) == old(self).told(is_clear),
            final(self).wf(),
    {
        proof {
            lemma_told_is_well_formed(*self, is_clear);
        }
        let next = match *self {
            StopSearch::Escape { step, behind } => {
                if is_clear {
                    StopSearch::RefineEscape {
                        behind,
                        unit: step,
                        touching: 0,
                        width: step * DIVISIONS,
                        rounds: GATE_BISECT_ROUNDS,
                    }
                } else if behind {
                    StopSearch::Escape { step, behind: false }
                } else if (step as usize) < GATE_MAX_STEPS {
                    StopSearch::Escape { step: step + 1, behind: true }
                } else {
                    StopSearch::Done { stop: Stop::Hold }
                }
            },
            StopSearch::RefineEscape { behind, unit, touching, width, rounds } => {
                let half: u32 = width / 2;
                let touching: u32 = if is_clear {
                    touching
                } else {
                    touching + half
                };
                if rounds == 1 {
                    StopSearch::Done { stop: Stop::At { behind, at: touching + half } }
                } else {
                    StopSearch::RefineEscape {
                        behind,
                        unit,
                        touching,
                        width: half,
                        rounds: rounds - 1,
                    }
                }
            },
            StopSearch::Walk { steps, step } => {
                if !is_clear {
                    StopSearch::RefineWalk {
                        clear: (step - 1) * DIVISIONS,
                        width: DIVISIONS,
                        rounds: GATE_BISECT_ROUNDS,
                    }
                } else if step < steps {
                    StopSearch::Walk { steps, step: step + 1 }
                } else {
                    StopSearch::Done { stop: Stop::Target }
                }
            },
            StopSearch::RefineWalk { clear, width, rounds } => {
                let half: u32 = width / 2;
                let clear: u32 = if is_clear {
                    clear + half
                } else {
                    clear
                };
                if rounds == 1 {
                    StopSearch::Done { stop: Stop::At { behind: false, at: clear } }
                } else {
                    StopSearch::RefineWalk { clear, width: half, rounds: rounds - 1 }
                }
            },
            StopSearch::Done { stop } => StopSearch::Done { stop },
        };
        *self = next;
    }

    /// Where the arm belongs, once the search is over.
    pub fn outcome(&self) -> (r: Option<Stop>)
        ensures
            r == (match *self {
                StopSearch::Done { stop } => Some(stop),
                _ => None,
            }),
    {
        match *self {
            StopSearch::Done { stop } => Some(stop),
            _ => None,
        }
    }
}

/// Whether the arm is clear where it is and at each of the first `n` samples
/// ahead of it.
pub open spec fn all_clear(n: int, clear_at: spec_fn(int) -> bool) -> bool {
    forall|k: int| 0 <= k <= n ==> clear_at(#[trigger] (k * DIVISIONS))
}

/// Whether none of the first `n` coarse positions is clear, neither behind the
/// arm nor ahead of it.
pub open spec fn none_clear(n: int, clear_at: spec_fn(int) -> bool) -> bool {
    forall|k: int|
        1 <= k <= n ==> !clear_at(#[trigger] (k * DIVISIONS)) && !clear_at(-(k * DIVISIONS))
}

/// Whether `stop` is where the arm belongs on a line of `steps` samples on which
/// `clear_at` says what is clear.
///
/// Where the arm is clear, the target is right only if every sample on the line
/// is; a point is clear, and so is every sample before it, and one division
/// beyond it the arm would not be. Where the arm is not clear, holding is right
/// only if no coarse position on either side is; a point is clear, no coarse
/// position nearer to the arm is on either side, and what the arm must keep off
/// lies at most a hundredth of a coarse step nearer.
pub open spec fn stop_is_right(stop: Stop, steps: int, clear_at: spec_fn(int) -> bool) -> bool {
    match stop {
        Stop::Hold => !clear_at(0) && none_clear(GATE_MAX_STEPS as int, clear_at),
        Stop::Target => all_clear(steps, clear_at),
        Stop::At { behind, at } => {
            &&& clear_at(signed(behind, at as int))
            &&& if clear_at(0) {
                &&& !behind
                &&& all_clear(at as int / DIVISIONS as int, clear_at)
                &&& !clear_at(at + 1)
            } else {
                &&& none_clear((at - 1) / DIVISIONS as int, clear_at)
                &&& exists|d: int|
                    1 <= d <= GATE_MAX_STEPS && #[trigger] is_count(d) && !clear_at(
                        signed(behind, at - d),
                    )
            }
        },
    }
}

/// A number of divisions.
pub open spec fn is_count(n: int) -> bool {
    n >= 0
}

/// Doubling the last halving gives the interval before it.
proof fn lemma_power_step(n: nat)
    requires
        n >= 1,
    ensures
        power_of_two(n) == 2 * power_of_two((n - 1) as nat),
        power_of_two((n - 1) as nat) >= 1,
    decreases n,
{
    if n > 1 {
        lemma_power_step((n - 1) as nat);
    }
}

/// Sixteen doublings make the divisions of a coarse step.
proof fn lemma_divisions()
    ensures
        power_of_two(16) == DIVISIONS,
{
    reveal_with_fuel(power_of_two, 17);
}

proof fn lemma_told_is_well_formed(s: StopSearch, is_clear: bool)
    requires
        s.wf(),
    ensures
        s.told(is_clear).wf(),
        s.wanted() is Some ==> s.told(is_clear).left() < s.left(),
        s.left() >= 0,
        s.wanted() is None <==> s.left() == 0,
{
    lemma_divisions();
    match s {
        StopSearch::RefineEscape { behind, unit, touching, width, rounds } => {
            lemma_power_step(rounds as nat);
            let half = power_of_two((rounds - 1) as nat);
            assert(unit * (2 * half) == 2 * (unit * half)) by (nonlinear_arith);
            assert(width / 2 == unit * half);
        },
        StopSearch::RefineWalk { clear, width, rounds } => {
            lemma_power_step(rounds as nat);
        },
        _ => {},
    }
}

/// The search ends: each answer leaves fewer positions to test, and a new
/// search tests no more than this many.
pub proof fn law_the_search_ends(s: StopSearch, is_clear: bool)
    requires
        s.wf(),
        s.wanted() is Some,
    ensures
        s.told(is_clear).wf(),
        0 <= s.told(is_clear).left() < s.left() <= 2 * GATE_MAX_STEPS + GATE_BISECT_ROUNDS,
{
    lemma_told_is_well_formed(s, is_clear);
    lemma_told_is_well_formed(s.told(is_clear), is_clear);
}

/// Answered truthfully, the search keeps knowing what it claims to know; so
/// where it ends, it ends on the right place.
pub proof fn law_the_standoff_is_on_the_boundary(
    s: StopSearch,
    steps: int,
    clear_at: spec_fn(int) -> bool,
)
    requires
        s.wf(),
        s.knows(steps, clear_at),
        s.wanted() is Some,
    ensures
        s.told(clear_at(position(s.wanted()->0))).knows(steps, clear_at),
{
    lemma_divisions();
    let here = clear_at(position(s.wanted()->0));
    match s {
        StopSearch::Escape { step, behind } => {
            assert(position(s.wanted()->0) == signed(behind, step * DIVISIONS));
        },
        StopSearch::RefineEscape { behind, unit, touching, width, rounds } => {
            lemma_power_step(rounds as nat);
            let half = power_of_two((rounds - 1) as nat);
            assert(unit * (2 * half) == 2 * (unit * half)) by (nonlinear_arith);
            assert(width / 2 == unit * half);
            if rounds == 1 {
                assert(half == 1);
                assert(unit * half == unit) by (nonlinear_arith)
                    requires
                        half == 1,
                ;
                assert(width / 2 == unit);
                assert(is_count(unit as int));
                let at = if here {
                    touching + unit
                } else {
                    touching + 2 * unit
                };
                assert(at <= unit * DIVISIONS);
                assert((at - 1) / DIVISIONS as int <= unit - 1) by (nonlinear_arith)
                    requires
                        at <= unit * DIVISIONS,
                        DIVISIONS == 65536,
                ;
            }
        },
        StopSearch::Walk { steps: samples, step } => {
            if !here {
                let clear = (step - 1) * DIVISIONS;
                assert(clear_at(clear));
                assert(clear + DIVISIONS == step * DIVISIONS) by (nonlinear_arith)
                    requires
                        clear == (step - 1) * DIVISIONS,
                ;
                assert(clear / DIVISIONS as int == step - 1) by (nonlinear_arith)
                    requires
                        clear == (step - 1) * DIVISIONS,
                        DIVISIONS == 65536,
                ;
            }
        },
        StopSearch::RefineWalk { clear, width, rounds } => {
            lemma_power_step(rounds as nat);
            let half = (width / 2) as int;
            assert((clear + half) / DIVISIONS as int == clear / DIVISIONS);
            assert(clear_at(0 * DIVISIONS));
            if rounds == 1 {
                assert(power_of_two(0) == 1);
            }
        },
        StopSearch::Done { stop } => {},
    }
}

/// A search starts out knowing nothing but what it was told of the arm.
pub proof fn law_a_search_starts_honest(touching: bool, steps: u32, clear_at: spec_fn(int) -> bool)
    requires
        1 <= steps <= GATE_MAX_STEPS,
        clear_at(0) == !touching,
    ensures
        touching ==> (StopSearch::Escape { step: 1, behind: true }).knows(steps as int, clear_at),
        !touching ==> (StopSearch::Walk { steps, step: 1 }).knows(steps as int, clear_at),
{
    assert(0 * DIVISIONS == 0);
}

/// A way out is looked for behind the arm and then ahead of it, one coarse step further
/// each time, up to five hundred and twelve; where none is clear the arm holds. A clear one is closed
/// in on from where the arm touches.
pub proof fn law_a_way_out_is_looked_for_behind_first(step: u32)
    requires
        1 <= step <= 512,
    ensures
        ({
            let behind = StopSearch::Escape { step, behind: true };
            let ahead = StopSearch::Escape { step, behind: false };
            &&& position(behind.wanted()->0) == -(step * 65536)
            &&& position(ahead.wanted()->0) == step * 65536
            &&& behind.told(false) == ahead
            &&& step < 512 ==> ahead.told(false) == (StopSearch::Escape {
                step: (step + 1) as u32,
                behind: true,
            })
            &&& step == 512 ==> ahead.told(false) == (StopSearch::Done {
                stop: Stop::Hold,
            })
            &&& behind.told(true) == (StopSearch::RefineEscape {
                behind: true,
                unit: step,
                touching: 0,
                width: (step * 65536) as u32,
                rounds: 16,
            })
            &&& ahead.told(true) == (StopSearch::RefineEscape {
                behind: false,
                unit: step,
                touching: 0,
                width: (step * 65536) as u32,
                rounds: 16,
            })
        }),
{
}

/// A walk tests one sample after another; all clear, it ends at the target, and the first
/// that is not is closed in on from the one before it.
pub proof fn law_a_walk_stops_at_the_first_sample_that_is_not_clear(steps: u32, step: u32)
    requires
        1 <= step <= steps <= 512,
    ensures
        ({
            let walk = StopSearch::Walk { steps, step };
            &&& position(walk.wanted()->0) == step * 65536
            &&& step < steps ==> walk.told(true) == (StopSearch::Walk {
                steps,
                step: (step + 1) as u32,
            })
            &&& step == steps ==> walk.told(true) == (StopSearch::Done { stop: Stop::Target })
            &&& walk.told(false) == (StopSearch::RefineWalk {
                clear: ((step - 1) * 65536) as u32,
                width: 65536,
                rounds: 16,
            })
        }),
{
}

/// Closing in tests the middle each time, and goes on with the half that is clear at one
/// end and not at the other. The last round ends it at the end that is clear.
pub proof fn law_closing_in_halves(
    behind: bool,
    unit: u32,
    touching: u32,
    clear: u32,
    width: u32,
    rounds: u32,
)
    requires
        (StopSearch::RefineEscape { behind, unit, touching, width, rounds }).wf() || (
        StopSearch::RefineWalk { clear, width, rounds }).wf(),
    ensures
        ({
            let escape = StopSearch::RefineEscape { behind, unit, touching, width, rounds };
            let walk = StopSearch::RefineWalk { clear, width, rounds };
            let half = (width / 2) as u32;
            let fewer = (rounds - 1) as u32;
            let out = (touching + half) as u32;
            let on = (clear + half) as u32;
            &&& escape.wf() ==> {
                &&& escape.wanted() == Some(Probe { behind, at: out })
                &&& rounds > 1 ==> escape.told(true) == (StopSearch::RefineEscape {
                    behind,
                    unit,
                    touching,
                    width: half,
                    rounds: fewer,
                })
                &&& rounds > 1 ==> escape.told(false) == (StopSearch::RefineEscape {
                    behind,
                    unit,
                    touching: out,
                    width: half,
                    rounds: fewer,
                })
                &&& rounds == 1 ==> escape.told(true) == (StopSearch::Done {
                    stop: Stop::At { behind, at: out },
                })
                &&& rounds == 1 ==> escape.told(false) == (StopSearch::Done {
                    stop: Stop::At { behind, at: (out + half) as u32 },
                })
            }
            &&& walk.wf() ==> {
                &&& walk.wanted() == Some(Probe { behind: false, at: on })
                &&& rounds > 1 ==> walk.told(true) == (StopSearch::RefineWalk {
                    clear: on,
                    width: half,
                    rounds: fewer,
                })
                &&& rounds > 1 ==> walk.told(false) == (StopSearch::RefineWalk {
                    clear,
                    width: half,
                    rounds: fewer,
                })
                &&& rounds == 1 ==> walk.told(true) == (StopSearch::Done {
                    stop: Stop::At { behind: false, at: on },
                })
                &&& rounds == 1 ==> walk.told(false) == (StopSearch::Done {
                    stop: Stop::At { behind: false, at: clear },
                })
            }
        }),
{
}

/// A number within a window is itself there; one outside is brought to the nearer end.
pub proof fn law_a_number_is_brought_into_its_window(n: int, lo: int, hi: int)
    requires
        lo <= hi,
    ensures
        lo <= clamped(n, lo, hi) <= hi,
        lo <= n <= hi ==> clamped(n, lo, hi) == n,
        n < lo ==> clamped(n, lo, hi) == lo,
        n > hi ==> clamped(n, lo, hi) == hi,
{
}

} // verus!
