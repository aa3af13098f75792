//! What a plan of identification poses comes to, from the first draw to the way that
//! is driven.
use crate::selfcal::identification::{
    arranged, best_choice, drew, is_nearest, law_the_most_informative_pose_in_reach_is_picked,
    law_the_plan_visits_what_was_picked, swept_to, took, PlanPhase, Planner, RoundView,
};
use vstd::prelude::*;

verus! {

/// What a plan goes by; `C` is a candidate.
#[verifier::reject_recursive_types(C)]
pub struct Grounds<C> {
    /// Whether a pose and its approaches are clear, and the pose can be held.
    pub fits: spec_fn(C) -> bool,
    /// Whether a pose can be measured at after another, or after the ready pose:
    /// every leg of that is clear.
    pub reach: spec_fn(Option<C>, C) -> bool,
    /// What a pose adds to some that were picked, as an ordered key.
    pub gain: spec_fn(Seq<C>, C) -> Option<i64>,
    /// How far a pose is from another, or from the ready pose.
    pub distance: spec_fn(Option<C>, C) -> u64,
    /// Whether the way through some poses in order, and back, is clear.
    pub clear_way: spec_fn(Seq<C>) -> bool,
}

/// The pose before the one at `k`; nothing is before the first but the ready pose.
pub open spec fn pose_before<C>(poses: Seq<C>, k: int) -> Option<C> {
    if k <= 0 {
        None
    } else {
        Some(poses[k - 1])
    }
}

impl<C> Grounds<C> {
    /// Whether a candidate is no better than the pose picked at `k`: it cannot be
    /// reached from the pose before, or adds no more to those picked by then.
    pub open spec fn outdone(self, picked: Seq<C>, k: int, other: C) -> bool {
        (self.reach)(pose_before(picked, k), other) && (self.gain)(picked.take(k), other) is Some
            ==> (self.gain)(picked.take(k), other)->0 <= (self.gain)(picked.take(k), picked[k])->0
    }

    /// Whether the pose picked at `k` fits, can be reached from the one before and
    /// adds something.
    pub open spec fn well_picked(self, picked: Seq<C>, k: int) -> bool {
        &&& (self.fits)(picked[k])
        &&& (self.reach)(pose_before(picked, k), picked[k])
        &&& (self.gain)(picked.take(k), picked[k]) is Some
    }

    /// Whether a pose is no nearer to where the arm is before the pose at `k` than
    /// that pose.
    pub open spec fn no_nearer(self, ordered: Seq<C>, k: int, other: C) -> bool {
        (self.distance)(pose_before(ordered, k), ordered[k]) <= (self.distance)(
            pose_before(ordered, k),
            other,
        )
    }
}

impl<C: Copy> Planner<C> {
    /// Whether everything the plan holds is as the grounds say.
    pub open spec fn sound(self, g: Grounds<C>) -> bool {
        let picked = self.picked@;
        let ordered = self.ordered@;
        &&& forall|i: int| 0 <= i < self.candidates@.len() ==> (g.fits)(
            #[trigger] self.candidates@[i],
        )
        &&& forall|k: int| 0 <= k < picked.len() ==> #[trigger] g.well_picked(picked, k)
        &&& forall|k: int, m: int|
            0 <= k <= m < picked.len() ==> #[trigger] g.outdone(picked, k, picked[m])
        &&& forall|k: int, i: int|
            0 <= k < picked.len() && 0 <= i < self.candidates@.len() ==> #[trigger] g.outdone(
                picked,
                k,
                self.candidates@[i],
            )
        &&& forall|k: int, m: int|
            0 <= k <= m < ordered.len() ==> #[trigger] g.no_nearer(ordered, k, ordered[m])
        &&& forall|k: int, i: int|
            0 <= k < ordered.len() && 0 <= i < self.remaining@.len() ==> #[trigger] g.no_nearer(
                ordered,
                k,
                self.remaining@[i],
            )
        &&& self.phase is VisitNearest ==> (g.clear_way)(ordered)
        &&& self.phase is SweepPicked || self.phase is VisitPicked ==> !(g.clear_way)(ordered)
        &&& self.phase is VisitPicked ==> (g.clear_way)(picked)
    }

    /// Whether a round is one over this plan's candidates, and what it knows is as the
    /// grounds say.
    pub open spec fn honest_round(self, round: RoundView, g: Grounds<C>) -> bool {
        let picked = self.picked@;
        let last = pose_before(picked, picked.len() as int);
        &&& round.valid() && round.over()
        &&& round.gains.len() == self.candidates@.len()
        &&& forall|i: int|
            0 <= i < round.gains.len() ==> #[trigger] round.gains[i] == (g.gain)(
                picked,
                self.candidates@[i],
            )
        &&& round.truthful(
            Seq::new(self.candidates@.len(), |i: int| (g.reach)(last, self.candidates@[i])),
        )
    }

    /// Whether the plan becomes `after` in one step on answers that are as the grounds
    /// say.
    pub open spec fn steps_to(self, after: Planner<C>, g: Grounds<C>) -> bool {
        match self.phase {
            PlanPhase::Draw => exists|candidate: C, clear: bool, holdable: bool|
                (g.fits)(candidate) == (clear && holdable) && #[trigger] drew(
                    self,
                    candidate,
                    clear,
                    holdable,
                    after,
                ),
            PlanPhase::Pick => exists|round: RoundView|
                self.honest_round(round, g) && #[trigger] took(self, round.picked, after),
            PlanPhase::Arrange => exists|distances: Seq<u64>|
                distances.len() == self.remaining@.len() && (forall|i: int|
                    0 <= i < distances.len() ==> #[trigger] distances[i] == (g.distance)(
                        pose_before(self.ordered@, self.ordered@.len() as int),
                        self.remaining@[i],
                    )) && #[trigger] arranged(self, distances, after),
            PlanPhase::SweepNearest => swept_to(self, (g.clear_way)(self.ordered@), after),
            PlanPhase::SweepPicked => swept_to(self, (g.clear_way)(self.picked@), after),
            _ => false,
        }
    }
}

proof fn lemma_drawn_is_sound<C: Copy>(
    before: Planner<C>,
    candidate: C,
    clear: bool,
    holdable: bool,
    after: Planner<C>,
    g: Grounds<C>,
)
    requires
        before.valid(),
        before.sound(g),
        before.phase is Draw,
        (g.fits)(candidate) == (clear && holdable),
        drew(before, candidate, clear, holdable, after),
    ensures
        after.sound(g),
{
    assert forall|i: int| 0 <= i < after.candidates@.len() implies (g.fits)(
        #[trigger] after.candidates@[i],
    ) by {
        if i < before.candidates@.len() {
            assert(after.candidates@[i] == before.candidates@[i]);
        }
    }
}

proof fn lemma_taken_is_sound<C: Copy>(
    before: Planner<C>,
    round: RoundView,
    after: Planner<C>,
    g: Grounds<C>,
)
    requires
        before.valid(),
        before.sound(g),
        before.phase is Pick,
        before.honest_round(round, g),
        took(before, round.picked, after),
    ensures
        after.sound(g),
{
    if let Some(i) = round.picked {
        let left = before.candidates@;
        let old = before.picked@;
        let picked = after.picked@;
        let n = old.len() as int;
        let last = pose_before(old, n);
        let reach = Seq::new(left.len(), |j: int| (g.reach)(last, left[j]));
        assert(best_choice(round.gains, round.refused, i));
        assert(picked.take(n) =~= old);
        assert(pose_before(picked, n) == last);
        // What is left was there before.
        assert forall|j: int| 0 <= j < after.candidates@.len() implies exists|b: int|
            0 <= b < left.len() && #[trigger] after.candidates@[j] == left[b] by {
            if j == i {
                assert(after.candidates@[j] == left[left.len() - 1]);
            } else {
                assert(after.candidates@[j] == left[j]);
            }
        }
        assert forall|j: int| 0 <= j < after.candidates@.len() implies (g.fits)(
            #[trigger] after.candidates@[j],
        ) by {
            let b = choose|b: int| 0 <= b < left.len() && after.candidates@[j] == left[b];
            assert((g.fits)(left[b]));
        }
        // Nothing in reach adds more.
        assert forall|b: int| 0 <= b < left.len() implies #[trigger] g.outdone(picked, n, left[b]) by {
            if (g.reach)(last, left[b]) && (g.gain)(old, left[b]) is Some {
                assert(round.gains[b] == (g.gain)(old, left[b]));
                law_the_most_informative_pose_in_reach_is_picked(round, reach, b);
                assert(round.gains[i] == (g.gain)(old, left[i]));
            }
        }
        assert(g.outdone(picked, n, left[i]));
        assert forall|k: int| 0 <= k < picked.len() implies #[trigger] g.well_picked(picked, k) by {
            if k < n {
                assert(g.well_picked(old, k));
                assert(picked.take(k) =~= old.take(k));
                assert(pose_before(picked, k) == pose_before(old, k));
            } else {
                assert(reach[i]);
                assert(round.gains[i] == (g.gain)(old, left[i]));
                assert((g.fits)(left[i]));
            }
        }
        assert forall|k: int, b: int| 0 <= k <= n && 0 <= b < left.len() implies #[trigger] g.outdone(
            picked,
            k,
            left[b],
        ) by {
            if k < n {
                assert(g.outdone(old, k, left[b]));
                assert(picked.take(k) =~= old.take(k));
                assert(pose_before(picked, k) == pose_before(old, k));
            }
        }
        assert forall|k: int, m: int| 0 <= k <= m < picked.len() implies #[trigger] g.outdone(
            picked,
            k,
            picked[m],
        ) by {
            if m < n {
                assert(g.outdone(old, k, old[m]));
                assert(picked.take(k) =~= old.take(k));
                assert(pose_before(picked, k) == pose_before(old, k));
            } else {
                assert(g.outdone(picked, k, left[i]));
            }
        }
        assert forall|k: int, j: int|
            0 <= k < picked.len() && 0 <= j < after.candidates@.len() implies #[trigger] g.outdone(
            picked,
            k,
            after.candidates@[j],
        ) by {
            let b = choose|b: int| 0 <= b < left.len() && after.candidates@[j] == left[b];
            assert(g.outdone(picked, k, left[b]));
        }
    }
}

proof fn lemma_arranged_is_sound<C: Copy>(
    before: Planner<C>,
    distances: Seq<u64>,
    after: Planner<C>,
    g: Grounds<C>,
)
    requires
        before.valid(),
        before.sound(g),
        before.phase is Arrange,
        distances.len() == before.remaining@.len(),
        forall|i: int|
            0 <= i < distances.len() ==> #[trigger] distances[i] == (g.distance)(
                pose_before(before.ordered@, before.ordered@.len() as int),
                before.remaining@[i],
            ),
        arranged(before, distances, after),
    ensures
        after.sound(g),
{
    let i = choose|i: int|
        {
            &&& #[trigger] is_nearest(distances, i)
            &&& after.ordered@ == before.ordered@.push(before.remaining@[i])
            &&& after.remaining@ == before.remaining@.remove(i)
        };
    let old = before.ordered@;
    let ordered = after.ordered@;
    let n = old.len() as int;
    assert(pose_before(ordered, n) == pose_before(old, n));
    assert forall|b: int| 0 <= b < before.remaining@.len() implies #[trigger] g.no_nearer(
        ordered,
        n,
        before.remaining@[b],
    ) by {
        assert(distances[b] == (g.distance)(pose_before(old, n), before.remaining@[b]));
        assert(distances[i] == (g.distance)(pose_before(old, n), before.remaining@[i]));
        assert(distances[i] <= distances[b]);
    }
    assert forall|k: int, b: int| 0 <= k <= n && 0 <= b < before.remaining@.len() implies
        #[trigger] g.no_nearer(ordered, k, before.remaining@[b]) by {
        if k < n {
            assert(g.no_nearer(old, k, before.remaining@[b]));
            assert(pose_before(ordered, k) == pose_before(old, k));
        }
    }
    assert forall|k: int, m: int| 0 <= k <= m < ordered.len() implies #[trigger] g.no_nearer(
        ordered,
        k,
        ordered[m],
    ) by {
        if m < n {
            assert(g.no_nearer(old, k, old[m]));
            assert(pose_before(ordered, k) == pose_before(old, k));
        } else {
            assert(g.no_nearer(ordered, k, before.remaining@[i]));
        }
    }
    assert forall|k: int, j: int| 0 <= k < ordered.len() && 0 <= j < after.remaining@.len() implies
        #[trigger] g.no_nearer(ordered, k, after.remaining@[j]) by {
        let b = if j < i {
            j
        } else {
            j + 1
        };
        assert(after.remaining@[j] == before.remaining@[b]);
        assert(g.no_nearer(ordered, k, before.remaining@[b]));
    }
}

/// A plan that begins holds nothing, so it is as any grounds say.
pub proof fn law_a_plan_begins_sound<C: Copy>(plan: Planner<C>, g: Grounds<C>)
    requires
        plan.valid(),
        plan.phase is Draw,
        plan.candidates@.len() == 0,
    ensures
        plan.sound(g),
{
}

/// A plan that is made on answers that are as the grounds say goes on being as they
/// say.
pub proof fn law_planning_stays_sound<C: Copy>(
    before: Planner<C>,
    after: Planner<C>,
    g: Grounds<C>,
)
    requires
        before.valid(),
        before.sound(g),
        before.steps_to(after, g),
    ensures
        after.sound(g),
{
    match before.phase {
        PlanPhase::Draw => {
            let (candidate, clear, holdable) = choose|candidate: C, clear: bool, holdable: bool|
                (g.fits)(candidate) == (clear && holdable) && #[trigger] drew(
                    before,
                    candidate,
                    clear,
                    holdable,
                    after,
                );
            lemma_drawn_is_sound(before, candidate, clear, holdable, after, g);
        },
        PlanPhase::Pick => {
            let round = choose|round: RoundView|
                before.honest_round(round, g) && #[trigger] took(before, round.picked, after);
            lemma_taken_is_sound(before, round, after, g);
        },
        PlanPhase::Arrange => {
            let distances = choose|distances: Seq<u64>|
                distances.len() == before.remaining@.len() && (forall|i: int|
                    0 <= i < distances.len() ==> #[trigger] distances[i] == (g.distance)(
                        pose_before(before.ordered@, before.ordered@.len() as int),
                        before.remaining@[i],
                    )) && #[trigger] arranged(before, distances, after);
            lemma_arranged_is_sound(before, distances, after, g);
        },
        _ => {},
    }
}

/// What a plan that was made comes to: as many poses as were wanted, every one of them
/// clear, holdable, reached from the one picked before it over clear legs, and adding
/// at least as much as every other that could have been reached then; and they are
/// visited on a way that is clear, nearest first unless that way is not.
pub proof fn law_a_plan_is_what_was_asked_for<C: Copy>(plan: Planner<C>, g: Grounds<C>)
    requires
        plan.valid(),
        plan.sound(g),
        plan.phase is VisitNearest || plan.phase is VisitPicked,
    ensures
        plan.visits().len() == plan.wanted,
        plan.visits().to_multiset() == plan.picked@.to_multiset(),
        forall|k: int| 0 <= k < plan.visits().len() ==> (g.fits)(#[trigger] plan.visits()[k]),
        forall|k: int| 0 <= k < plan.picked@.len() ==> #[trigger] g.well_picked(plan.picked@, k),
        forall|k: int, m: int|
            0 <= k <= m < plan.picked@.len() ==> #[trigger] g.outdone(
                plan.picked@,
                k,
                plan.picked@[m],
            ),
        forall|k: int, i: int|
            0 <= k < plan.picked@.len() && 0 <= i < plan.candidates@.len() ==> #[trigger] g.outdone(
                plan.picked@,
                k,
                plan.candidates@[i],
            ),
        (g.clear_way)(plan.visits()),
        plan.phase is VisitPicked ==> !(g.clear_way)(plan.ordered@),
        forall|k: int, m: int|
            0 <= k <= m < plan.ordered@.len() ==> #[trigger] g.no_nearer(
                plan.ordered@,
                k,
                plan.ordered@[m],
            ),
{
    law_the_plan_visits_what_was_picked(plan);
    let visits = plan.visits();
    let picked = plan.picked@;
    assert forall|k: int| 0 <= k < visits.len() implies (g.fits)(#[trigger] visits[k]) by {
        visits.to_multiset_ensures();
        picked.to_multiset_ensures();
        assert(visits.contains(visits[k]));
        assert(visits.to_multiset().count(visits[k]) > 0);
        assert(picked.to_multiset().count(visits[k]) > 0);
        assert(picked.contains(visits[k]));
        let m = choose|m: int| 0 <= m < picked.len() && picked[m] == visits[k];
        assert(g.well_picked(picked, m));
    }
}

} // verus!
