//! The plan of the poses the arm is identified at.
//!
//! Candidates are drawn repeatably, the most informative ones that can be
//! reached are picked one by one, and the picked ones are visited nearest first
//! unless that way is not clear.
use crate::text::{decimal, decimal_text, joint_label, joint_name};
use vstd::prelude::*;

verus! {

/// Candidates that are kept.
pub const CANDIDATES: usize = 300;

/// Candidates that are drawn at most.
pub const DRAWS: usize = 6000;

/// Where the drawing starts, so that a run is repeatable.
pub const SEED: u64 = 0x2545_F491_4F6C_DD1D;

/// The state after a draw.
pub open spec fn next_seed(seed: u64) -> u64 {
    let a = seed ^ (seed << 13);
    let b = a ^ (a >> 7);
    b ^ (b << 17)
}

/// A repeatable source of numbers.
#[derive(Clone, Copy, Debug, PartialEq, Eq, Structural)]
pub struct Draw {
    /// Its state.
    pub seed: u64,
}

impl Draw {
    /// Start.
    pub fn new() -> (r: Draw)
        ensures
            r.seed == SEED,
    {
        Draw { seed: SEED }
    }

    /// The next number, below two to the power of fifty-three.
    pub fn next(&mut self) -> (r: u64)
        ensures
            final(self).seed == next_seed(old(self).seed),
            r == final(self).seed >> 11,
            r < 0x20_0000_0000_0000,
    {
        let seed: u64 = self.seed;
        let a: u64 = seed ^ (seed << 13);
        let b: u64 = a ^ (a >> 7);
        let c: u64 = b ^ (b << 17);
        assert(c >> 11 < 0x20_0000_0000_0000) by (bit_vector);
        self.seed = c;
        c >> 11
    }
}

/// Why there is no plan.
#[derive(Clone, Copy, Debug, PartialEq, Eq, Structural)]
pub enum PlanError {
    /// Too few candidates passed.
    TooFew {
        /// How many did.
        found: usize,
        /// How many are wanted.
        wanted: usize,
    },
    /// No candidate can be reached.
    Unreachable {
        /// How many poses were picked by then.
        after: usize,
    },
    /// Neither way of visiting the poses is clear.
    NoOrder,
}

impl PlanError {
    /// What happened, in words.
    pub open spec fn words(self) -> Seq<char> {
        match self {
            PlanError::TooFew { found, wanted } => "only "@ + decimal_text(found as nat)
                + " of the "@ + decimal_text(wanted as nat)
                + " identification poses wanted cleared the limits, the collision world and the holding budget"@,
            PlanError::Unreachable { after } =>
                "no candidate pose can be reached from identification pose "@ + decimal_text(
                after as nat,
            ),
            PlanError::NoOrder =>
                "no visiting order of the identification poses is clear of the collision world, the return to the ready pose included"@,
        }
    }

    /// What happened, in words.
    pub fn message(self) -> (r: String)
        ensures
            r@ == self.words(),
    {
        match self {
            PlanError::TooFew { found, wanted } => {
                let mut out: String = "only ".to_owned();
                let n = decimal(found as u64);
                out.append(n.as_str());
                out.append(" of the ");
                let n = decimal(wanted as u64);
                out.append(n.as_str());
                out.append(
                    " identification poses wanted cleared the limits, the collision world and the holding budget",
                );
                out
            },
            PlanError::Unreachable { after } => {
                let mut out: String =
                    "no candidate pose can be reached from identification pose ".to_owned();
                let n = decimal(after as u64);
                out.append(n.as_str());
                out
            },
            PlanError::NoOrder =>
                "no visiting order of the identification poses is clear of the collision world, the return to the ready pose included".to_owned(),
        }
    }
}

/// The message for a joint whose window is empty; the offset is already
/// rendered.
pub fn no_travel_message(joint: usize, offset: &str) -> (r: String)
    requires
        joint < u64::MAX,
    ensures
        r@ == joint_name(joint as int) + " has no travel left once its "@ + offset@
            + " rad approach offsets are allowed for"@,
{
    let mut out = joint_label(joint);
    out.append(" has no travel left once its ");
    out.append(offset);
    out.append(" rad approach offsets are allowed for");
    out
}

/// Whether candidate `i` may still be picked.
pub open spec fn open_choice(gains: Seq<Option<i64>>, refused: Seq<bool>, i: int) -> bool {
    0 <= i < gains.len() && gains[i] is Some && !refused[i]
}

/// Whether candidate `i` is the one to try next: it adds the most of those that
/// may be picked, and is the first that does.
pub open spec fn best_choice(gains: Seq<Option<i64>>, refused: Seq<bool>, i: int) -> bool {
    &&& open_choice(gains, refused, i)
    &&& forall|k: int| #[trigger]
        open_choice(gains, refused, k) ==> gains[k]->0 < gains[i]->0 || (gains[k]->0 == gains[i]->0
            && i <= k)
}

/// The candidate to try next; the gains are ordered keys.
pub fn best_candidate(gains: &[Option<i64>], refused: &[bool]) -> (r: Option<usize>)
    requires
        gains@.len() == refused@.len(),
    ensures
        match r {
            Some(i) => best_choice(gains@, refused@, i as int),
            None => forall|k: int| !#[trigger] open_choice(gains@, refused@, k),
        },
{
    let mut best: Option<usize> = None;
    let mut top: i64 = 0;
    let mut i: usize = 0;
    while i < gains.len()
        invariant
            i <= gains@.len() == refused@.len(),
            match best {
                Some(b) => {
                    &&& b < i
                    &&& open_choice(gains@, refused@, b as int)
                    &&& gains@[b as int] == Some(top)
                    &&& forall|k: int|
                        k < i && #[trigger] open_choice(gains@, refused@, k) ==> gains@[k]->0 < top
                            || (gains@[k]->0 == top && b <= k)
                },
                None => forall|k: int| k < i ==> !#[trigger] open_choice(gains@, refused@, k),
            },
        decreases gains@.len() - i,
    {
        if let Some(g) = gains[i] {
            if !refused[i] {
                assert(open_choice(gains@, refused@, i as int));
                let better = match best {
                    None => true,
                    Some(_) => g > top,
                };
                if better {
                    best = Some(i);
                    top = g;
                }
            }
        }
        i += 1;
    }
    best
}

/// Legs that measuring a pose drives.
pub const MEASURE_LEGS: usize = 4;

/// Whether every leg of measuring a pose was swept and found clear; the sweep may
/// end with the first leg that is not.
pub open spec fn legs_clear(legs: Seq<bool>) -> bool {
    legs.len() == MEASURE_LEGS && forall|k: int| 0 <= k < legs.len() ==> #[trigger] legs[k]
}

/// The search for the next pose: the candidates by what they add, those found out
/// of reach so far, and the one that was found in reach.
#[derive(Debug)]
pub struct PickRound {
    /// What each candidate adds, as an ordered key; nothing where it cannot be
    /// told.
    pub gains: Vec<Option<i64>>,
    /// Whether each was found out of reach.
    pub refused: Vec<bool>,
    /// The one that is picked.
    pub picked: Option<usize>,
}

/// What a round knows.
pub struct RoundView {
    /// What each candidate adds.
    pub gains: Seq<Option<i64>>,
    /// Whether each was found out of reach.
    pub refused: Seq<bool>,
    /// The one that is picked.
    pub picked: Option<int>,
}

impl View for PickRound {
    type V = RoundView;

    open spec fn view(&self) -> RoundView {
        RoundView {
            gains: self.gains@,
            refused: self.refused@,
            picked: match self.picked {
                Some(i) => Some(i as int),
                None => None,
            },
        }
    }
}

impl RoundView {
    /// Whether there is an entry for every candidate, and the one that is picked
    /// is the best of those not found out of reach.
    pub open spec fn valid(self) -> bool {
        &&& self.gains.len() == self.refused.len()
        &&& self.picked matches Some(i) ==> best_choice(self.gains, self.refused, i)
    }

    /// Whether the round is over: a candidate is picked, or none is left.
    pub open spec fn over(self) -> bool {
        self.picked is Some || forall|k: int| !#[trigger] open_choice(self.gains, self.refused, k)
    }

    /// Whether this round becomes `after` when candidate `i` is found in reach,
    /// or not.
    pub open spec fn answered(self, i: int, clear: bool, after: RoundView) -> bool {
        &&& after.gains == self.gains
        &&& after.picked == (if clear {
            Some(i)
        } else {
            None
        })
        &&& after.refused == (if clear {
            self.refused
        } else {
            self.refused.update(i, true)
        })
    }

    /// Whether what the round knows is so where `reach` says which candidates are
    /// in reach.
    pub open spec fn truthful(self, reach: Seq<bool>) -> bool {
        &&& reach.len() == self.refused.len()
        &&& forall|k: int| 0 <= k < reach.len() && #[trigger] self.refused[k] ==> !reach[k]
        &&& self.picked matches Some(i) ==> reach[i]
    }
}

impl PickRound {
    /// Begin: nothing has been found out of reach.
    pub fn new(gains: Vec<Option<i64>>) -> (r: PickRound)
        ensures
            r.gains@ == gains@,
            r@.valid(),
            r.picked is None,
            forall|k: int| 0 <= k < r.refused@.len() ==> !(#[trigger] r.refused@[k]),
    {
        let mut refused: Vec<bool> = Vec::new();
        let mut i: usize = 0;
        while i < gains.len()
            invariant
                i <= gains@.len(),
                refused@.len() == i,
                forall|k: int| 0 <= k < i ==> !(#[trigger] refused@[k]),
            decreases gains@.len() - i,
        {
            refused.push(false);
            i += 1;
        }
        PickRound { gains, refused, picked: None }
    }

    /// The candidate whose reach is to be tested next; nothing once the round is
    /// over.
    pub fn next(&self) -> (r: Option<usize>)
        requires
            self@.valid(),
        ensures
            r is None <==> self@.over(),
            r matches Some(i) ==> best_choice(self.gains@, self.refused@, i as int),
    {
        if self.picked.is_some() {
            return None;
        }
        best_candidate(self.gains.as_slice(), self.refused.as_slice())
    }

    /// Take whether the legs of measuring the candidate that `next` named are
    /// clear. If all are it is picked; else it is out of reach.
    pub fn answer(&mut self, i: usize, legs: &[bool])
        requires
            old(self)@.valid(),
            old(self).picked is None,
            best_choice(old(self).gains@, old(self).refused@, i as int),
        ensures
            final(self)@.valid(),
            old(self)@.answered(i as int, legs_clear(legs@), final(self)@),
    {
        let mut clear = legs.len() == MEASURE_LEGS;
        let mut k: usize = 0;
        while k < legs.len() && clear
            invariant
                k <= legs@.len(),
                clear ==> legs@.len() == MEASURE_LEGS && forall|m: int|
                    0 <= m < k ==> #[trigger] legs@[m],
                !clear ==> !legs_clear(legs@),
            decreases legs@.len() - k,
        {
            if !legs[k] {
                clear = false;
            }
            k += 1;
        }
        if clear {
            self.picked = Some(i);
        } else {
            self.refused[i] = true;
        }
    }
}

/// A round that is told the truth goes on knowing the truth.
pub proof fn law_a_round_stays_truthful(
    round: RoundView,
    reach: Seq<bool>,
    i: int,
    after: RoundView,
)
    requires
        round.valid(),
        round.truthful(reach),
        best_choice(round.gains, round.refused, i),
        round.answered(i, reach[i], after),
    ensures
        after.truthful(reach),
{
}

/// The pose that is picked is in reach and adds at least as much as every other
/// candidate that is, and none is picked only if no candidate that adds anything
/// is in reach.
pub proof fn law_the_most_informative_pose_in_reach_is_picked(
    round: RoundView,
    reach: Seq<bool>,
    other: int,
)
    requires
        round.valid(),
        round.over(),
        round.truthful(reach),
        0 <= other < reach.len(),
        reach[other],
        round.gains[other] is Some,
    ensures
        round.picked matches Some(i) && reach[i] && round.gains[i] is Some && (round.gains[other]->0
            < round.gains[i]->0 || (round.gains[other] == round.gains[i] && i <= other)),
{
    assert(open_choice(round.gains, round.refused, other));
}

/// Whether pose `i` is the nearest, and the first that is.
pub open spec fn is_nearest(distances: Seq<u64>, i: int) -> bool {
    &&& 0 <= i < distances.len()
    &&& forall|k: int| 0 <= k < i ==> distances[i] < #[trigger] distances[k]
    &&& forall|k: int| i <= k < distances.len() ==> distances[i] <= #[trigger] distances[k]
}

/// The nearest pose; the distances are ordered keys.
pub fn nearest(distances: &[u64]) -> (r: usize)
    requires
        distances@.len() > 0,
    ensures
        is_nearest(distances@, r as int),
{
    let mut best: usize = 0;
    let mut i: usize = 1;
    while i < distances.len()
        invariant
            best < i <= distances@.len(),
            forall|k: int| 0 <= k < best ==> distances@[best as int] < #[trigger] distances@[k],
            forall|k: int|
                best <= k < i ==> distances@[best as int] <= #[trigger] distances@[k],
        decreases distances@.len() - i,
    {
        if distances[i] < distances[best] {
            best = i;
        }
        i += 1;
    }
    best
}

/// Where the plan is.
#[derive(Clone, Copy, Debug, PartialEq, Eq, Structural)]
pub enum PlanPhase {
    /// Candidates are drawn.
    Draw,
    /// Poses are picked.
    Pick,
    /// The picked poses are put in order.
    Arrange,
    /// The way that visits the nearest first is swept.
    SweepNearest,
    /// The way that visits them as picked is swept.
    SweepPicked,
    /// Over: visit the nearest first.
    VisitNearest,
    /// Over: visit them as picked.
    VisitPicked,
    /// Over: there is no plan.
    Failed {
        /// Why.
        error: PlanError,
    },
}

/// The plan of the poses; `C` is a candidate.
#[derive(Debug)]
pub struct Planner<C> {
    /// Poses wanted.
    pub wanted: usize,
    /// Draws made.
    pub draws: usize,
    /// Candidates that are left.
    pub candidates: Vec<C>,
    /// Poses picked, in the order they were.
    pub picked: Vec<C>,
    /// Picked poses that are not in order yet.
    pub remaining: Vec<C>,
    /// Picked poses in order.
    pub ordered: Vec<C>,
    /// Where the plan is.
    pub phase: PlanPhase,
}

/// What a plan becomes with a candidate. It is kept if it and its approaches are
/// clear and it can be held; the drawing ends once enough are kept or enough were
/// drawn.
pub open spec fn drew<C>(
    before: Planner<C>,
    candidate: C,
    clear: bool,
    holdable: bool,
    after: Planner<C>,
) -> bool {
    &&& after.wanted == before.wanted
    &&& after.draws == before.draws + 1
    &&& after.candidates@ == (if clear && holdable {
        before.candidates@.push(candidate)
    } else {
        before.candidates@
    })
    &&& after.picked@ == before.picked@
    &&& after.remaining@ == before.remaining@
    &&& after.ordered@ == before.ordered@
    &&& after.phase == (if after.draws < DRAWS && after.candidates@.len() < CANDIDATES {
        PlanPhase::Draw
    } else if after.candidates@.len() < before.wanted {
        PlanPhase::Failed {
            error: PlanError::TooFew {
                found: after.candidates@.len() as usize,
                wanted: before.wanted,
            },
        }
    } else if before.wanted == 0 {
        PlanPhase::SweepNearest
    } else {
        PlanPhase::Pick
    })
}

/// What a plan becomes with the candidate that a round picked, or with none in
/// reach. The last of the candidates takes its place.
pub open spec fn took<C>(before: Planner<C>, picked: Option<int>, after: Planner<C>) -> bool {
    &&& after.wanted == before.wanted
    &&& match picked {
        None => {
            &&& after.phase == (PlanPhase::Failed {
                error: PlanError::Unreachable { after: before.picked@.len() as usize },
            })
            &&& after.candidates@ == before.candidates@
            &&& after.picked@ == before.picked@
            &&& after.ordered@ == before.ordered@
            &&& after.remaining@ == before.remaining@
        },
        Some(i) => {
            let left = before.candidates@;
            &&& after.candidates@ == left.update(i, left.last()).drop_last()
            &&& after.picked@ == before.picked@.push(left[i])
            &&& after.ordered@ == before.ordered@
            &&& if after.picked@.len() == before.wanted {
                after.phase == PlanPhase::Arrange && after.remaining@ == after.picked@
            } else {
                after.phase == PlanPhase::Pick && after.remaining@ == before.remaining@
            }
        },
    }
}

/// What a plan becomes with the nearest of the poses that remain put next.
pub open spec fn arranged<C>(before: Planner<C>, distances: Seq<u64>, after: Planner<C>) -> bool {
    &&& after.wanted == before.wanted
    &&& after.candidates@ == before.candidates@
    &&& after.picked@ == before.picked@
    &&& exists|i: int|
        {
            &&& #[trigger] is_nearest(distances, i)
            &&& after.ordered@ == before.ordered@.push(before.remaining@[i])
            &&& after.remaining@ == before.remaining@.remove(i)
        }
    &&& after.phase == (if before.remaining@.len() == 1 {
        PlanPhase::SweepNearest
    } else {
        PlanPhase::Arrange
    })
}

/// What a plan becomes with whether the way just swept is clear: the nearest-first
/// one is taken if it is, else the one as picked.
pub open spec fn swept_to<C>(before: Planner<C>, clear: bool, after: Planner<C>) -> bool {
    &&& after.wanted == before.wanted
    &&& after.candidates@ == before.candidates@
    &&& after.picked@ == before.picked@
    &&& after.remaining@ == before.remaining@
    &&& after.ordered@ == (if after.phase is Failed {
        Seq::empty()
    } else {
        before.ordered@
    })
    &&& after.phase == (match before.phase {
        PlanPhase::SweepNearest => if clear {
            PlanPhase::VisitNearest
        } else {
            PlanPhase::SweepPicked
        },
        _ => if clear {
            PlanPhase::VisitPicked
        } else {
            PlanPhase::Failed { error: PlanError::NoOrder }
        },
    })
}

impl<C: Copy> Planner<C> {
    /// Whether the picked poses are being put in order or are.
    pub open spec fn arranging(self) -> bool {
        self.phase is Arrange || self.phase is SweepNearest || self.phase is SweepPicked
            || self.phase is VisitNearest || self.phase is VisitPicked
    }

    /// What holds of every plan.
    pub open spec fn valid(self) -> bool {
        &&& self.phase is Draw ==> self.draws < DRAWS && self.candidates@.len() < CANDIDATES
            && self.picked@.len() == 0
        &&& self.phase is Pick ==> self.picked@.len() < self.wanted
        &&& self.arranging() ==> {
            &&& self.picked@.len() == self.wanted
            &&& self.ordered@.to_multiset().add(self.remaining@.to_multiset())
                == self.picked@.to_multiset()
            &&& self.phase is Arrange <==> self.remaining@.len() > 0
        }
        &&& !self.arranging() ==> self.remaining@.len() == 0 && self.ordered@.len() == 0
    }

    /// Begin.
    pub fn new(wanted: usize) -> (r: Planner<C>)
        ensures
            r.wanted == wanted,
            r.draws == 0,
            r.candidates@ == Seq::<C>::empty(),
            r.picked@ == Seq::<C>::empty(),
            r.phase == PlanPhase::Draw,
            r.valid(),
    {
        Planner {
            wanted,
            draws: 0,
            candidates: Vec::new(),
            picked: Vec::new(),
            remaining: Vec::new(),
            ordered: Vec::new(),
            phase: PlanPhase::Draw,
        }
    }

    /// Take a candidate. It is kept if it and its approaches are clear and it
    /// can be held; the drawing ends once enough are kept or enough were drawn.
    pub fn draw(&mut self, candidate: C, clear: bool, holdable: bool)
        requires
            old(self).valid(),
            old(self).phase is Draw,
        ensures
            final(self).valid(),
            drew(*old(self), candidate, clear, holdable, *final(self)),
    {
        self.draws = self.draws + 1;
        if clear && holdable {
            self.candidates.push(candidate);
        }
        if self.draws < DRAWS && self.candidates.len() < CANDIDATES {
            return;
        }
        if self.candidates.len() < self.wanted {
            self.phase =
            PlanPhase::Failed {
                error: PlanError::TooFew { found: self.candidates.len(), wanted: self.wanted },
            };
        } else if self.wanted == 0 {
            proof {
                assert(self.ordered@ =~= Seq::<C>::empty());
                assert(self.remaining@ =~= Seq::<C>::empty());
                assert(self.picked@ =~= Seq::<C>::empty());
                assert(self.ordered@.to_multiset().add(self.remaining@.to_multiset())
                    =~= self.picked@.to_multiset()) by {
                    broadcast use vstd::seq_lib::group_to_multiset_ensures;
                    broadcast use vstd::multiset::group_multiset_axioms;
                    self.ordered@.to_multiset_ensures();
                }
            }
            self.phase = PlanPhase::SweepNearest;
        } else {
            self.phase = PlanPhase::Pick;
        }
    }

    /// Take what a round over the candidates came to: the one that it picked, or
    /// that none is in reach. The last of the candidates takes its place.
    pub fn pick(&mut self, round: &PickRound)
        requires
            old(self).valid(),
            old(self).phase is Pick,
            round@.valid(),
            round@.over(),
            round.gains@.len() == old(self).candidates@.len(),
        ensures
            final(self).valid(),
            took(*old(self), round@.picked, *final(self)),
    {
        match round.picked {
            None => {
                self.phase =
                PlanPhase::Failed { error: PlanError::Unreachable { after: self.picked.len() } };
            },
            Some(i) => {
                let c = self.candidates.swap_remove(i);
                self.picked.push(c);
                if self.picked.len() == self.wanted {
                    let mut k: usize = 0;
                    let ghost picked = self.picked@;
                    while k < self.picked.len()
                        invariant
                            k <= self.picked@.len(),
                            self.picked@ == picked,
                            self.remaining@ == picked.take(k as int),
                            self.ordered@.len() == 0,
                            self.wanted == picked.len(),
                            self.wanted == old(self).wanted,
                            self.phase == old(self).phase,
                            self.candidates@ == old(self).candidates@.update(
                                i as int,
                                old(self).candidates@.last(),
                            ).drop_last(),
                        decreases self.picked@.len() - k,
                    {
                        let c = self.picked[k];
                        self.remaining.push(c);
                        assert(self.remaining@ =~= picked.take(k + 1));
                        k += 1;
                    }
                    assert(picked.take(k as int) =~= picked);
                    proof {
                        assert(self.ordered@ =~= Seq::<C>::empty());
                        broadcast use vstd::seq_lib::group_to_multiset_ensures;
                        broadcast use vstd::multiset::group_multiset_axioms;
                        Seq::<C>::empty().to_multiset_ensures();
                        assert(self.ordered@.to_multiset().add(self.remaining@.to_multiset())
                            =~= self.picked@.to_multiset());
                    }
                    self.phase = PlanPhase::Arrange;
                }
                assert(self.ordered@ =~= old(self).ordered@);
            },
        }
    }

    /// Put the nearest of the poses that remain next.
    pub fn arrange(&mut self, distances: &[u64])
        requires
            old(self).valid(),
            old(self).phase is Arrange,
            distances@.len() == old(self).remaining@.len(),
        ensures
            final(self).valid(),
            arranged(*old(self), distances@, *final(self)),
    {
        let i: usize = nearest(distances);
        let ghost ordered = self.ordered@;
        let ghost remaining = self.remaining@;
        let c = self.remaining.remove(i);
        self.ordered.push(c);
        proof {
            broadcast use vstd::seq_lib::group_to_multiset_ensures;
            broadcast use vstd::multiset::group_multiset_axioms;
            assert(self.ordered@.to_multiset() =~= ordered.to_multiset().insert(c));
            assert(self.remaining@.to_multiset() =~= remaining.to_multiset().remove(c));
            remaining.to_multiset_ensures();
            assert(remaining.to_multiset().count(c) > 0) by {
                assert(remaining.contains(remaining[i as int]));
            }
            assert(self.ordered@.to_multiset().add(self.remaining@.to_multiset())
                =~= ordered.to_multiset().add(remaining.to_multiset()));
        }
        if self.remaining.len() == 0 {
            self.phase = PlanPhase::SweepNearest;
        }
    }

    /// Take whether the way just swept is clear: the nearest-first one if it
    /// is, else the one as picked.
    pub fn swept(&mut self, clear: bool)
        requires
            old(self).valid(),
            old(self).phase is SweepNearest || old(self).phase is SweepPicked,
        ensures
            final(self).valid(),
            swept_to(*old(self), clear, *final(self)),
    {
        match self.phase {
            PlanPhase::SweepNearest => {
                self.phase =
                if clear {
                    PlanPhase::VisitNearest
                } else {
                    PlanPhase::SweepPicked
                };
            },
            _ => {
                if clear {
                    self.phase = PlanPhase::VisitPicked;
                } else {
                    self.ordered = Vec::new();
                    self.phase = PlanPhase::Failed { error: PlanError::NoOrder };
                }
            },
        }
    }

    /// The poses in the order they are visited, once the plan is made.
    pub open spec fn visits(self) -> Seq<C> {
        if self.phase is VisitPicked {
            self.picked@
        } else {
            self.ordered@
        }
    }
}

/// A stop on the way through the poses.
#[derive(Clone, Copy, Debug, PartialEq, Eq, Structural)]
pub enum Stop {
    /// The ready pose.
    Ready,
    /// Below this pose, where it is first approached from.
    Below(usize),
    /// Above this pose.
    Above(usize),
    /// This pose.
    Pose(usize),
}

/// A leg that is driven.
#[derive(Clone, Copy, Debug, PartialEq, Eq, Structural)]
pub struct Leg {
    /// Where from.
    pub from: Stop,
    /// Where to.
    pub to: Stop,
}

/// Where the arm is after the first `n` poses.
pub open spec fn stop_after(n: nat) -> Stop {
    if n == 0 {
        Stop::Ready
    } else {
        Stop::Pose((n - 1) as usize)
    }
}

/// The legs to the first `n` poses.
pub open spec fn legs_to(n: nat) -> Seq<Leg>
    decreases n,
{
    if n == 0 {
        Seq::empty()
    } else {
        let i = (n - 1) as usize;
        legs_to((n - 1) as nat) + seq![
            Leg { from: stop_after((n - 1) as nat), to: Stop::Below(i) },
            Leg { from: Stop::Below(i), to: Stop::Pose(i) },
        ]
    }
}

/// The legs of a visit to `n` poses: to each in order, by way of the place below
/// it, and back to the ready pose.
pub fn visit_legs(n: usize) -> (r: Vec<Leg>)
    ensures
        r@ == legs_to(n as nat).push(Leg { from: stop_after(n as nat), to: Stop::Ready }),
{
    let mut out: Vec<Leg> = Vec::new();
    let mut at = Stop::Ready;
    let mut i: usize = 0;
    while i < n
        invariant
            i <= n,
            out@ == legs_to(i as nat),
            at == stop_after(i as nat),
        decreases n - i,
    {
        out.push(Leg { from: at, to: Stop::Below(i) });
        out.push(Leg { from: Stop::Below(i), to: Stop::Pose(i) });
        assert(out@ =~= legs_to((i + 1) as nat));
        at = Stop::Pose(i);
        i += 1;
    }
    out.push(Leg { from: at, to: Stop::Ready });
    out
}

/// The legs of measuring candidate `i` after the stop `from`: approached from
/// below, then from above.
pub fn measure_legs(from: Stop, i: usize) -> (r: Vec<Leg>)
    ensures
        r@ == seq![
            Leg { from, to: Stop::Below(i) },
            Leg { from: Stop::Below(i), to: Stop::Pose(i) },
            Leg { from: Stop::Pose(i), to: Stop::Above(i) },
            Leg { from: Stop::Above(i), to: Stop::Pose(i) },
        ],
{
    let mut out: Vec<Leg> = Vec::new();
    out.push(Leg { from, to: Stop::Below(i) });
    out.push(Leg { from: Stop::Below(i), to: Stop::Pose(i) });
    out.push(Leg { from: Stop::Pose(i), to: Stop::Above(i) });
    out.push(Leg { from: Stop::Above(i), to: Stop::Pose(i) });
    assert(out@ =~= seq![
        Leg { from, to: Stop::Below(i) },
        Leg { from: Stop::Below(i), to: Stop::Pose(i) },
        Leg { from: Stop::Pose(i), to: Stop::Above(i) },
        Leg { from: Stop::Above(i), to: Stop::Pose(i) },
    ]);
    out
}

/// Whichever way the poses are visited, those visited are exactly those picked,
/// as many as were wanted.
pub proof fn law_the_plan_visits_what_was_picked<C: Copy>(plan: Planner<C>)
    requires
        plan.valid(),
        plan.phase is VisitNearest || plan.phase is VisitPicked,
    ensures
        plan.visits().to_multiset() == plan.picked@.to_multiset(),
        plan.visits().len() == plan.wanted,
{
    if plan.phase is VisitNearest {
        assert(plan.remaining@.len() == 0);
        assert(plan.remaining@ =~= Seq::<C>::empty());
        broadcast use vstd::seq_lib::group_to_multiset_ensures;
        broadcast use vstd::multiset::group_multiset_axioms;
        plan.remaining@.to_multiset_ensures();
        assert(plan.ordered@.to_multiset().add(plan.remaining@.to_multiset())
            =~= plan.ordered@.to_multiset());
        plan.ordered@.to_multiset_ensures();
        plan.picked@.to_multiset_ensures();
    }
}

/// The drawing does not fall into a rut: it never reaches zero, which it would not leave,
/// and what is drawn from two states together is what is drawn from each, so that a state
/// comes from one state alone.
pub proof fn law_the_drawing_goes_on(seed: u64, other: u64)
    ensures
        seed != 0 ==> next_seed(seed) != 0,
        next_seed(seed ^ other) == next_seed(seed) ^ next_seed(other),
        seed != other ==> next_seed(seed) != next_seed(other),
        next_seed(seed) & 0x1FFF == (seed ^ (seed >> 7) ^ ((seed << 13) >> 7)) & 0x1FFF,
{
    assert(seed != 0 ==> ({
        let a = seed ^ (seed << 13);
        let b = a ^ (a >> 7);
        b ^ (b << 17)
    }) != 0) by (bit_vector);
    assert(({
        let a = (seed ^ other) ^ ((seed ^ other) << 13);
        let b = a ^ (a >> 7);
        b ^ (b << 17)
    }) == (({
        let a = seed ^ (seed << 13);
        let b = a ^ (a >> 7);
        b ^ (b << 17)
    }) ^ ({
        let a = other ^ (other << 13);
        let b = a ^ (a >> 7);
        b ^ (b << 17)
    }))) by (bit_vector);
    let joint = seed ^ other;
    assert(seed != other ==> joint != 0) by (bit_vector)
        requires
            joint == seed ^ other,
    ;
    assert(joint != 0 ==> ({
        let a = joint ^ (joint << 13);
        let b = a ^ (a >> 7);
        b ^ (b << 17)
    }) != 0) by (bit_vector);
    let drawn = next_seed(seed);
    assert(drawn ^ drawn == 0) by (bit_vector);
    assert(({
        let a = seed ^ (seed << 13);
        let b = a ^ (a >> 7);
        b ^ (b << 17)
    }) & 0x1FFF == (seed ^ (seed >> 7) ^ ((seed << 13) >> 7)) & 0x1FFF) by (bit_vector);
}

/// The candidate to try next adds something, was not found out of reach, adds more than
/// every such candidate before it and at least as much as every one after it.
pub proof fn law_the_best_candidate_is_the_first_that_adds_most(
    gains: Seq<Option<i64>>,
    refused: Seq<bool>,
    i: int,
    other: int,
)
    requires
        best_choice(gains, refused, i),
        0 <= other < gains.len(),
        gains[other] is Some,
        !refused[other],
    ensures
        0 <= i < gains.len() && gains[i] is Some && !refused[i],
        other < i ==> gains[other]->0 < gains[i]->0,
        other > i ==> gains[other]->0 <= gains[i]->0,
{
    assert(open_choice(gains, refused, other));
}

/// A candidate is in reach exactly if all four legs of measuring it are clear.
pub proof fn law_four_clear_legs_are_in_reach(legs: Seq<bool>)
    ensures
        legs_clear(legs) <==> legs == seq![true, true, true, true],
{
    if legs_clear(legs) {
        assert(legs =~= seq![true, true, true, true]);
    }
}

/// A round that is answered goes on: a candidate in reach ends it with that one; one out
/// of reach is not asked about again, and all others still are.
pub proof fn law_an_answer_settles_one_candidate(
    round: RoundView,
    i: int,
    clear: bool,
    after: RoundView,
    other: int,
)
    requires
        round.valid(),
        0 <= i < round.refused.len(),
        0 <= other < round.refused.len(),
        other != i,
        round.answered(i, clear, after),
    ensures
        clear ==> after.picked == Some(i) && after.over(),
        !clear ==> after.picked is None && after.refused[i],
        after.refused[other] == round.refused[other],
        after.gains == round.gains && after.refused.len() == round.refused.len(),
{
}

/// The nearest pose is nearer than every one before it and no further than every one after
/// it.
pub proof fn law_the_nearest_is_the_first_that_is(distances: Seq<u64>, i: int, other: int)
    requires
        is_nearest(distances, i),
        0 <= other < distances.len(),
    ensures
        0 <= i < distances.len(),
        distances[i] <= distances[other],
        distances[i] == distances[other] ==> i <= other,
{
}

/// A candidate is kept exactly if it is clear and can be held. The drawing goes on until
/// three hundred are kept or six thousand were drawn, and then fails if fewer are kept
/// than are wanted.
pub proof fn law_how_candidates_are_drawn<C: Copy>(
    before: Planner<C>,
    candidate: C,
    clear: bool,
    holdable: bool,
    after: Planner<C>,
)
    requires
        before.valid(),
        before.phase is Draw,
        drew(before, candidate, clear, holdable, after),
    ensures
        clear && holdable ==> after.candidates@ == before.candidates@.push(candidate),
        !clear || !holdable ==> after.candidates@ == before.candidates@,
        after.draws == before.draws + 1,
        after.phase is Draw <==> after.draws < 6000 && after.candidates@.len() < 300,
        !(after.phase is Draw) ==> (after.phase is Failed <==> after.candidates@.len()
            < before.wanted),
        after.phase is Failed ==> after.phase == (PlanPhase::Failed {
            error: PlanError::TooFew {
                found: after.candidates@.len() as usize,
                wanted: before.wanted,
            },
        }),
        !(after.phase is Draw) && !(after.phase is Failed) && before.wanted > 0
            ==> after.phase == PlanPhase::Pick,
        !(after.phase is Draw) && before.wanted == 0 ==> after.phase == PlanPhase::SweepNearest,
        after.picked@ == before.picked@ && after.wanted == before.wanted,
        after.remaining@ == before.remaining@ && after.ordered@ == before.ordered@,
{
}

/// A pose that is picked leaves the candidates and joins the picked ones at their end; no
/// other does either. The picking ends with as many as are wanted, and fails where a round
/// picked none.
pub proof fn law_how_poses_are_picked<C: Copy>(
    before: Planner<C>,
    i: int,
    after: Planner<C>,
    failed: Planner<C>,
)
    requires
        before.valid(),
        before.phase is Pick,
        0 <= i < before.candidates@.len(),
        took(before, Some(i), after),
        took(before, None, failed),
    ensures
        after.picked@ == before.picked@.push(before.candidates@[i]),
        after.candidates@.to_multiset() == before.candidates@.to_multiset().remove(
            before.candidates@[i],
        ),
        after.phase is Arrange <==> before.picked@.len() + 1 == before.wanted,
        after.phase is Pick <==> before.picked@.len() + 1 < before.wanted,
        after.phase is Arrange ==> after.remaining@ == after.picked@ && after.ordered@.len() == 0,
        failed.phase == (PlanPhase::Failed {
            error: PlanError::Unreachable { after: before.picked@.len() as usize },
        }),
        after.wanted == before.wanted && failed.wanted == before.wanted,
        after.ordered@ == before.ordered@ && failed.ordered@ == before.ordered@,
        after.phase is Pick ==> after.remaining@ == before.remaining@,
        failed.candidates@ == before.candidates@ && failed.picked@ == before.picked@,
        failed.remaining@ == before.remaining@,
{
    let left = before.candidates@;
    let swapped = left.update(i, left.last()).drop_last();
    broadcast use vstd::seq_lib::group_to_multiset_ensures;
    broadcast use vstd::multiset::group_multiset_axioms;
    assert(left =~= left.drop_last().push(left.last()));
    assert(left.to_multiset() == left.drop_last().to_multiset().insert(left.last()));
    if i == left.len() - 1 {
        assert(swapped =~= left.drop_last());
        assert(left.to_multiset().remove(left[i]) =~= left.drop_last().to_multiset());
    } else {
        let rest = left.drop_last();
        assert(swapped =~= rest.update(i, left.last()));
        rest.to_multiset_ensures();
        assert(rest.to_multiset().count(rest[i]) > 0) by {
            assert(rest.contains(rest[i]));
        }
        assert(swapped.to_multiset() == rest.to_multiset().remove(rest[i]).insert(left.last()));
        assert(left.to_multiset().remove(left[i]) =~= rest.to_multiset().remove(rest[i]).insert(
            left.last(),
        ));
    }
}

/// The pose that is put next is one of those that remain, none of which is nearer; it is
/// the first of the nearest, and leaves the others in their order. The last one ends it.
pub proof fn law_how_poses_are_put_in_order<C: Copy>(
    before: Planner<C>,
    distances: Seq<u64>,
    after: Planner<C>,
    i: int,
)
    requires
        before.valid(),
        before.phase is Arrange,
        distances.len() == before.remaining@.len(),
        0 <= i < distances.len(),
        forall|k: int| 0 <= k < i ==> distances[i] < #[trigger] distances[k],
        forall|k: int| i < k < distances.len() ==> distances[i] <= #[trigger] distances[k],
        arranged(before, distances, after),
    ensures
        after.ordered@ == before.ordered@.push(before.remaining@[i]),
        after.remaining@ == before.remaining@.take(i) + before.remaining@.skip(i + 1),
        after.phase is SweepNearest <==> before.remaining@.len() == 1,
        after.phase is Arrange <==> before.remaining@.len() > 1,
        after.picked@ == before.picked@ && after.candidates@ == before.candidates@,
        after.wanted == before.wanted,
{
    let k = choose|k: int|
        {
            &&& #[trigger] is_nearest(distances, k)
            &&& after.ordered@ == before.ordered@.push(before.remaining@[k])
            &&& after.remaining@ == before.remaining@.remove(k)
        };
    assert(k == i) by {
        if k < i {
            assert(distances[i] < distances[k]);
        }
        if i < k {
            assert(distances[i] <= distances[k]);
        }
    }
    assert(before.remaining@.remove(i) =~= before.remaining@.take(i) + before.remaining@.skip(
        i + 1,
    ));
}

/// The way that visits the nearest first is taken if it is clear, the way as picked only
/// where it is not, and the plan fails where neither is.
pub proof fn law_which_way_is_taken<C: Copy>(
    before: Planner<C>,
    clear: bool,
    after: Planner<C>,
)
    requires
        swept_to(before, clear, after),
    ensures
        before.phase is SweepNearest && clear ==> after.phase is VisitNearest && after.visits()
            == before.ordered@,
        before.phase is SweepNearest && !clear ==> after.phase is SweepPicked && after.ordered@
            == before.ordered@,
        before.phase is SweepPicked && clear ==> after.phase is VisitPicked && after.visits()
            == before.picked@,
        before.phase is SweepPicked && !clear ==> after.phase == (PlanPhase::Failed {
            error: PlanError::NoOrder,
        }),
        after.picked@ == before.picked@ && after.candidates@ == before.candidates@,
        after.remaining@ == before.remaining@ && after.wanted == before.wanted,
        after.phase is Failed ==> after.visits().len() == 0,
{
}

/// A visit drives two legs for each pose, to the place below it from where the arm is and
/// then to it, each leg from where the one before it ended.
pub proof fn law_a_visit_approaches_each_pose_from_below(n: nat, i: int)
    requires
        0 <= i < n <= usize::MAX,
    ensures
        legs_to(n).len() == 2 * n,
        legs_to(n)[2 * i].from == (if i == 0 {
            Stop::Ready
        } else {
            Stop::Pose((i - 1) as usize)
        }),
        legs_to(n)[2 * i].to == Stop::Below(i as usize),
        legs_to(n)[2 * i + 1] == (Leg {
            from: Stop::Below(i as usize),
            to: Stop::Pose(i as usize),
        }),
        stop_after(n) == Stop::Pose((n - 1) as usize),
    decreases n,
{
    if n > 1 {
        law_a_visit_approaches_each_pose_from_below(
            (n - 1) as nat,
            if i < n - 1 {
                i
            } else {
                0
            },
        );
    } else {
        assert(legs_to(0).len() == 0);
    }
}

/// Some candidate is the one to try next wherever any may be picked, and one pose is the
/// nearest wherever there are any: what adds more than all before it and no less than all
/// after it, and what is nearer than all before it and no further than all after it.
pub proof fn law_what_is_best_is_taken(
    gains: Seq<Option<i64>>,
    refused: Seq<bool>,
    i: int,
    distances: Seq<u64>,
    n: int,
)
    ensures
        0 <= i < gains.len() && gains[i] is Some && !refused[i] && (forall|k: int|
            0 <= k < i && gains[k] is Some && !refused[k] ==> (#[trigger] gains[k])->0
                < gains[i]->0) && (forall|k: int|
            i < k < gains.len() && gains[k] is Some && !refused[k] ==> (#[trigger] gains[k])->0
                <= gains[i]->0) ==> best_choice(gains, refused, i),
        0 <= n < distances.len() && (forall|k: int|
            0 <= k < n ==> distances[n] < #[trigger] distances[k]) && (forall|k: int|
            n < k < distances.len() ==> distances[n] <= #[trigger] distances[k]) ==> is_nearest(
            distances,
            n,
        ),
{
}

/// Why there is no plan is told with the numbers it knows.
pub proof fn law_a_missing_plan_tells_its_numbers(error: PlanError)
    ensures
        error matches PlanError::TooFew { found, wanted } ==> error.words() == "only "@
            + decimal_text(found as nat) + " of the "@ + decimal_text(wanted as nat)
            + " identification poses wanted cleared the limits, the collision world and the holding budget"@,
        error matches PlanError::Unreachable { after } ==> error.words()
            == "no candidate pose can be reached from identification pose "@ + decimal_text(
            after as nat,
        ),
        error is NoOrder ==> error.words()
            == "no visiting order of the identification poses is clear of the collision world, the return to the ready pose included"@,
{
}

} // verus!
