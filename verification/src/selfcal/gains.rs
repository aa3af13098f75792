//! The search for a joint's velocity-loop gains on a probe move.
//!
//! The integral gain comes first, then the proportional one. Each walks down
//! while the score improves, and up only where down did not help. A trial that
//! runs away ends its direction, and the last sane gains go back on the drive.
use crate::text::{joint_label, joint_name};
use vstd::prelude::*;

verus! {

/// A gain of the velocity loop.
#[derive(Clone, Copy, Debug, PartialEq, Eq, Structural)]
pub enum GainField {
    /// The integral gain.
    Kiv,
    /// The proportional gain.
    Kpv,
}

/// The gains of the velocity loop.
#[derive(Clone, Copy, Debug, PartialEq, Eq)]
pub struct LoopGains<V> {
    /// The proportional gain.
    pub kpv: V,
    /// The integral gain.
    pub kiv: V,
}

impl GainField {
    /// The gain's value.
    pub fn get<V: Copy>(self, gains: &LoopGains<V>) -> (r: V)
        ensures
            r == (match self {
                GainField::Kiv => gains.kiv,
                GainField::Kpv => gains.kpv,
            }),
    {
        match self {
            GainField::Kiv => gains.kiv,
            GainField::Kpv => gains.kpv,
        }
    }

    /// The gains with this one replaced.
    pub fn with<V: Copy>(self, gains: LoopGains<V>, value: V) -> (r: LoopGains<V>)
        ensures
            r == (match self {
                GainField::Kiv => LoopGains { kpv: gains.kpv, kiv: value },
                GainField::Kpv => LoopGains { kpv: value, kiv: gains.kiv },
            }),
    {
        match self {
            GainField::Kiv => LoopGains { kpv: gains.kpv, kiv: value },
            GainField::Kpv => LoopGains { kpv: value, kiv: gains.kiv },
        }
    }
}

/// One move of a trial: whether it arrived, and how far the speed strayed from
/// the profile, as an ordered key.
#[derive(Clone, Copy, Debug, PartialEq, Eq, Structural)]
pub struct TrialMove {
    /// Whether it arrived.
    pub complete: bool,
    /// Its score.
    pub score: u64,
}

/// The greatest score of some moves.
pub open spec fn greatest(moves: Seq<TrialMove>) -> u64
    decreases moves.len(),
{
    if moves.len() == 0 {
        0
    } else {
        let rest = greatest(moves.drop_last());
        if moves.last().score > rest {
            moves.last().score
        } else {
            rest
        }
    }
}

/// Whether every move arrived.
pub open spec fn stable(moves: Seq<TrialMove>) -> bool {
    forall|i: int| 0 <= i < moves.len() ==> (#[trigger] moves[i]).complete
}

/// What a trial came to: the worst score of its moves, and nothing if one of
/// them did not arrive.
pub fn trial_score(moves: &[TrialMove]) -> (r: Option<u64>)
    ensures
        r == (if stable(moves@) {
            Some(greatest(moves@))
        } else {
            None
        }),
{
    let mut score: u64 = 0;
    let mut sane = true;
    let mut i: usize = 0;
    assert(moves@.take(0) =~= Seq::<TrialMove>::empty());
    while i < moves.len()
        invariant
            i <= moves@.len(),
            score == greatest(moves@.take(i as int)),
            sane == stable(moves@.take(i as int)),
        decreases moves@.len() - i,
    {
        let m = moves[i];
        let ghost next = moves@.take(i + 1);
        assert(next.drop_last() =~= moves@.take(i as int));
        assert(next.last() == m);
        if m.score > score {
            score = m.score;
        }
        if !m.complete {
            assert(!next[i as int].complete);
            sane = false;
        } else if sane {
            assert forall|k: int| 0 <= k < next.len() implies (#[trigger] next[k]).complete by {
                if k < i {
                    assert(moves@.take(i as int)[k].complete);
                }
            }
        } else {
            let ghost bad = choose|k: int| 0 <= k < i && !moves@.take(i as int)[k].complete;
            assert(!next[bad].complete);
        }
        i += 1;
    }
    assert(moves@.take(i as int) =~= moves@);
    if sane {
        Some(score)
    } else {
        None
    }
}

/// The gains on a drive, and the last ones known to be sane.
#[derive(Clone, Copy, Debug, PartialEq, Eq)]
pub struct GainBook<G> {
    /// On the drive.
    pub current: G,
    /// Known to be sane.
    pub sane: Option<G>,
}

impl<G: Copy> GainBook<G> {
    /// The gains to go back to.
    pub open spec fn fallback(self) -> G {
        match self.sane {
            Some(g) => g,
            None => self.current,
        }
    }

    /// The book once a trial of `gains` has begun.
    pub open spec fn begun(self, gains: G) -> GainBook<G> {
        GainBook { current: gains, sane: Some(self.fallback()) }
    }

    /// The book once the trial has ended.
    pub open spec fn ended(self, ran: bool) -> GainBook<G> {
        if ran {
            GainBook { current: self.current, sane: Some(self.current) }
        } else {
            GainBook { current: self.fallback(), sane: self.sane }
        }
    }

    /// Put gains on the drive for a trial. What was there is sane, unless
    /// something is already known to be.
    pub fn begin(&mut self, gains: G)
        ensures
            *final(self) == old(self).begun(gains),
    {
        let sane = match self.sane {
            Some(g) => g,
            None => self.current,
        };
        self.sane = Some(sane);
        self.current = gains;
    }

    /// End a trial: gains that ran are sane, and after any others the drive is
    /// back on the sane ones.
    pub fn end(&mut self, ran: bool)
        ensures
            *final(self) == old(self).ended(ran),
    {
        if ran {
            self.sane = Some(self.current);
        } else if let Some(g) = self.sane {
            self.current = g;
        }
    }
}

/// Gains with what they scored.
#[derive(Clone, Copy, Debug, PartialEq, Eq)]
pub struct Scored<G> {
    /// The gains.
    pub gains: G,
    /// What they scored, as an ordered key.
    pub score: u64,
    /// What another score has to be under to count as an improvement.
    pub bar: u64,
}

/// Which way a gain is walked.
#[derive(Clone, Copy, Debug, PartialEq, Eq, Structural)]
pub enum Walk {
    /// To smaller values.
    Down,
    /// To greater values.
    Up,
}

/// What the search wants tried.
#[derive(Clone, Copy, Debug, PartialEq, Eq, Structural)]
pub enum Trial {
    /// The configured gains.
    Configured,
    /// The best gains with this one stepped.
    Step {
        /// The gain.
        field: GainField,
        /// Which way.
        walk: Walk,
    },
}

/// Where the search is.
#[derive(Clone, Copy, Debug, PartialEq, Eq, Structural)]
pub enum GainPhase {
    /// The configured gains are to be tried.
    Configured,
    /// A gain is walked.
    Walking {
        /// The gain.
        field: GainField,
        /// Which way.
        walk: Walk,
        /// Whether walking this gain has helped.
        helped: bool,
    },
    /// Over.
    Done,
    /// Over: the configured gains run away.
    RunsAway,
}

/// What a trial gave.
#[derive(Clone, Copy, Debug, PartialEq, Eq)]
pub enum TrialEnd<G> {
    /// The stepped gain would leave its range; nothing was tried.
    OutOfRange,
    /// The loop ran away.
    RanAway,
    /// The gains were scored.
    Ran(Scored<G>),
}

/// The search for a joint's gains.
#[derive(Clone, Copy, Debug, PartialEq, Eq)]
pub struct GainSearch<G> {
    /// Where it is.
    pub phase: GainPhase,
    /// The best gains so far.
    pub best: Scored<G>,
    /// The configured ones.
    pub before: Scored<G>,
}

/// Where the search goes once a direction has ended.
pub open spec fn after_walk(field: GainField, walk: Walk, helped: bool) -> GainPhase {
    if walk == Walk::Down && !helped {
        GainPhase::Walking { field, walk: Walk::Up, helped: false }
    } else {
        match field {
            GainField::Kiv => GainPhase::Walking {
                field: GainField::Kpv,
                walk: Walk::Down,
                helped: false,
            },
            GainField::Kpv => GainPhase::Done,
        }
    }
}

impl<G: Copy> GainSearch<G> {
    /// The search after a trial.
    pub open spec fn after(self, end: TrialEnd<G>) -> GainSearch<G> {
        match self.phase {
            GainPhase::Configured => match end {
                TrialEnd::Ran(scored) => GainSearch {
                    phase: GainPhase::Walking {
                        field: GainField::Kiv,
                        walk: Walk::Down,
                        helped: false,
                    },
                    best: scored,
                    before: scored,
                },
                _ => GainSearch { phase: GainPhase::RunsAway, ..self },
            },
            GainPhase::Walking { field, walk, helped } => match end {
                TrialEnd::Ran(scored) => if scored.score < self.best.bar {
                    GainSearch {
                        phase: GainPhase::Walking { field, walk, helped: true },
                        best: scored,
                        ..self
                    }
                } else {
                    GainSearch { phase: after_walk(field, walk, helped), ..self }
                },
                _ => GainSearch { phase: after_walk(field, walk, helped), ..self },
            },
            _ => self,
        }
    }

    /// Begin with the configured gains, not scored yet.
    pub fn new(configured: G) -> (r: GainSearch<G>)
        ensures
            r.phase == GainPhase::Configured,
            r.best == r.before,
            r.best == (Scored { gains: configured, score: 0, bar: 0 }),
    {
        let scored = Scored { gains: configured, score: 0, bar: 0 };
        GainSearch { phase: GainPhase::Configured, best: scored, before: scored }
    }

    /// What is to be tried next; nothing once the search is over.
    pub fn wants(&self) -> (r: Option<Trial>)
        ensures
            r == (match self.phase {
                GainPhase::Configured => Some(Trial::Configured),
                GainPhase::Walking { field, walk, helped: _ } => Some(Trial::Step { field, walk }),
                _ => None,
            }),
    {
        match self.phase {
            GainPhase::Configured => Some(Trial::Configured),
            GainPhase::Walking { field, walk, helped: _ } => Some(Trial::Step { field, walk }),
            _ => None,
        }
    }

    /// Take what a trial gave.
    pub fn take(&mut self, end: TrialEnd<G>)
        ensures
            *final(self) == old(self).after(end),
    {
        match self.phase {
            GainPhase::Configured => {
                if let TrialEnd::Ran(scored) = end {
                    self.phase =
                    GainPhase::Walking { field: GainField::Kiv, walk: Walk::Down, helped: false };
                    self.best = scored;
                    self.before = scored;
                } else {
                    self.phase = GainPhase::RunsAway;
                }
            },
            GainPhase::Walking { field, walk, helped } => {
                if let TrialEnd::Ran(scored) = end {
                    if scored.score < self.best.bar {
                        self.phase = GainPhase::Walking { field, walk, helped: true };
                        self.best = scored;
                        return;
                    }
                }
                self.phase =
                if walk == Walk::Down && !helped {
                    GainPhase::Walking { field, walk: Walk::Up, helped: false }
                } else if field == GainField::Kiv {
                    GainPhase::Walking { field: GainField::Kpv, walk: Walk::Down, helped: false }
                } else {
                    GainPhase::Done
                };
            },
            _ => {},
        }
    }
}

/// The message for a joint whose configured gains run away.
pub fn runs_away_message(joint: usize) -> (r: String)
    requires
        joint < u64::MAX,
    ensures
        r@ == joint_name(joint as int) + " runs away on its configured gains"@,
{
    let mut out = joint_label(joint);
    out.append(" runs away on its configured gains");
    out
}

/// What holds of a search whose bars are no higher than their scores: the best
/// is never worse than the configured gains.
pub open spec fn no_worse<G>(search: GainSearch<G>) -> bool {
    search.best.score <= search.before.score && search.best.bar <= search.best.score
}

/// The search never settles on gains that score worse than the configured
/// ones, whatever its trials give.
pub proof fn law_tuned_gains_are_no_worse<G: Copy>(search: GainSearch<G>, end: TrialEnd<G>)
    requires
        no_worse(search),
        end matches TrialEnd::Ran(scored) ==> scored.bar <= scored.score,
    ensures
        no_worse(search.after(end)),
{
}

/// A gain is raised only where lowering it did not help.
pub proof fn law_a_gain_is_raised_only_if_lowering_did_not_help<G: Copy>(
    search: GainSearch<G>,
    end: TrialEnd<G>,
    field: GainField,
    helped: bool,
)
    requires
        search.after(end).phase == (GainPhase::Walking { field, walk: Walk::Up, helped }),
    ensures
        search.phase == (GainPhase::Walking { field, walk: Walk::Down, helped: false })
            || (search.phase matches GainPhase::Walking { field: f, walk: Walk::Up, helped: _ }
            && f == field),
{
}

/// A trial that runs away, or that would leave the range, changes nothing but
/// the direction: the best gains stay.
pub proof fn law_a_runaway_ends_its_direction<G: Copy>(search: GainSearch<G>, end: TrialEnd<G>)
    requires
        search.phase is Walking,
        !(end is Ran),
    ensures
        search.after(end).best == search.best,
        search.after(end).phase != search.phase,
{
}

/// After a trial, whatever it did, the drive is on gains that are known to be
/// sane.
pub proof fn law_the_drive_is_left_on_sane_gains<G: Copy>(book: GainBook<G>, gains: G)
    ensures
        book.begun(gains).ended(true) == (GainBook { current: gains, sane: Some(gains) }),
        book.begun(gains).ended(false) == (GainBook {
            current: book.fallback(),
            sane: Some(book.fallback()),
        }),
{
}

/// Both directions of each gain are tried before it is left. A step that improves goes
/// on the same way with what it found as the best; a downward walk that ends without
/// having helped is followed by an upward one of the same gain; and only once an upward
/// walk has ended, or a downward one that helped, does the search go on: from the
/// integral gain down the proportional one, and from that to its end.
pub proof fn law_both_directions_of_each_gain_are_tried<G: Copy>(
    search: GainSearch<G>,
    field: GainField,
    walk: Walk,
    helped: bool,
    end: TrialEnd<G>,
)
    requires
        search.phase == (GainPhase::Walking { field, walk, helped }),
    ensures
        ({
            let next = search.after(end);
            let improves = end matches TrialEnd::Ran(scored) && scored.score < search.best.bar;
            &&& next.before == search.before
            &&& improves ==> next.phase == (GainPhase::Walking { field, walk, helped: true })
                && next.best == end->Ran_0
            &&& !improves ==> next.best == search.best
            &&& !improves && walk == Walk::Down && !helped ==> next.phase == (GainPhase::Walking {
                field,
                walk: Walk::Up,
                helped: false,
            })
            &&& !improves && (walk == Walk::Up || helped) && field == GainField::Kiv ==> next.phase
                == (GainPhase::Walking { field: GainField::Kpv, walk: Walk::Down, helped: false })
            &&& !improves && (walk == Walk::Up || helped) && field == GainField::Kpv ==> next.phase
                == GainPhase::Done
        }),
{
}

/// The configured gains are tried first. If they run, what they scored is what every
/// other is held against, and the integral gain is lowered; if they do not, the search
/// is over, and so it stays.
pub proof fn law_the_configured_gains_come_first<G: Copy>(search: GainSearch<G>, end: TrialEnd<G>)
    ensures
        search.phase == GainPhase::Configured ==> match end {
            TrialEnd::Ran(scored) => {
                &&& search.after(end).phase == (GainPhase::Walking {
                    field: GainField::Kiv,
                    walk: Walk::Down,
                    helped: false,
                })
                &&& search.after(end).best == scored
                &&& search.after(end).before == scored
            },
            _ => search.after(end).phase == GainPhase::RunsAway,
        },
        search.phase == GainPhase::Done || search.phase == GainPhase::RunsAway ==> search.after(end)
            == search,
{
}

/// The search after some trials.
pub open spec fn searched<G: Copy>(search: GainSearch<G>, ends: Seq<TrialEnd<G>>) -> GainSearch<G>
    decreases ends.len(),
{
    if ends.len() == 0 {
        search
    } else {
        searched(search, ends.drop_last()).after(ends.last())
    }
}

/// Whether at some time the search was lowering a gain.
pub open spec fn was_lowered<G: Copy>(
    search: GainSearch<G>,
    ends: Seq<TrialEnd<G>>,
    field: GainField,
) -> bool {
    exists|k: int|
        0 <= k <= ends.len() && ((#[trigger] searched(search, ends.take(k))).phase
            matches GainPhase::Walking { field: f, walk: Walk::Down, helped: _ } && f == field)
}

/// Whether at some time the search was raising a gain, or lowering it had helped.
pub open spec fn was_raised_or_helped<G: Copy>(
    search: GainSearch<G>,
    ends: Seq<TrialEnd<G>>,
    field: GainField,
) -> bool {
    exists|k: int|
        0 <= k <= ends.len() && ((#[trigger] searched(search, ends.take(k))).phase
            matches GainPhase::Walking { field: f, walk, helped } && f == field && (walk == Walk::Up
            || helped))
}

/// What the phases before a phase were.
proof fn lemma_phases_before<G: Copy>(search: GainSearch<G>, ends: Seq<TrialEnd<G>>)
    requires
        search.phase == GainPhase::Configured,
    ensures
        ({
            let phase = searched(search, ends).phase;
            let past_kiv = phase is Done || (phase matches GainPhase::Walking { field, .. } && field
                == GainField::Kpv);
            &&& phase is Walking || phase is Done ==> was_lowered(search, ends, GainField::Kiv)
            &&& past_kiv ==> was_raised_or_helped(search, ends, GainField::Kiv)
            &&& past_kiv ==> was_lowered(search, ends, GainField::Kpv)
            &&& phase is Done ==> was_raised_or_helped(search, ends, GainField::Kpv)
        }),
    decreases ends.len(),
{
    assert(ends.take(ends.len() as int) =~= ends);
    if ends.len() > 0 {
        let shorter = ends.drop_last();
        let n = shorter.len() as int;
        lemma_phases_before(search, shorter);
        assert(ends.take(n) =~= shorter);
        assert(shorter.take(n) =~= shorter);
        assert forall|k: int| 0 <= k <= n implies #[trigger] shorter.take(k) == ends.take(k) by {
            assert(shorter.take(k) =~= ends.take(k));
        }
        let was = searched(search, shorter).phase;
        let now = searched(search, ends).phase;
        assert forall|field: GainField| #[trigger] was_lowered(search, shorter, field) implies
            was_lowered(search, ends, field) by {
            let k = choose|k: int|
                0 <= k <= n && ((#[trigger] searched(search, shorter.take(k))).phase
                    matches GainPhase::Walking { field: f, walk: Walk::Down, helped: _ } && f
                    == field);
            assert(shorter.take(k) == ends.take(k));
        }
        assert forall|field: GainField| #[trigger] was_raised_or_helped(
            search,
            shorter,
            field,
        ) implies was_raised_or_helped(search, ends, field) by {
            let k = choose|k: int|
                0 <= k <= n && ((#[trigger] searched(search, shorter.take(k))).phase
                    matches GainPhase::Walking { field: f, walk, helped } && f == field && (walk
                    == Walk::Up || helped));
            assert(shorter.take(k) == ends.take(k));
        }
        assert(searched(search, ends.take(n)).phase == was);
        assert(searched(search, ends.take(n + 1)).phase == now);
    }
}

/// No search ends before it has lowered each gain, and raised it too unless lowering it
/// had helped, whatever its trials gave.
pub proof fn law_no_gain_is_left_untried<G: Copy>(
    search: GainSearch<G>,
    ends: Seq<TrialEnd<G>>,
    field: GainField,
)
    requires
        search.phase == GainPhase::Configured,
        searched(search, ends).phase == GainPhase::Done,
    ensures
        was_lowered(search, ends, field),
        was_raised_or_helped(search, ends, field),
{
    lemma_phases_before(search, ends);
}

/// What a trial scored is the worst of its moves: one of them scored it, and none more.
/// A trial of which any move did not arrive scored nothing.
pub proof fn law_a_trial_is_scored_by_its_worst_move(moves: Seq<TrialMove>)
    ensures
        forall|i: int| 0 <= i < moves.len() ==> (#[trigger] moves[i]).score <= greatest(moves),
        moves.len() > 0 ==> exists|i: int|
            0 <= i < moves.len() && (#[trigger] moves[i]).score == greatest(moves),
        moves.len() == 0 ==> greatest(moves) == 0,
        stable(moves) <==> !exists|i: int| 0 <= i < moves.len() && !(#[trigger] moves[i]).complete,
    decreases moves.len(),
{
    if moves.len() > 0 {
        let rest = moves.drop_last();
        law_a_trial_is_scored_by_its_worst_move(rest);
        assert forall|i: int| 0 <= i < moves.len() implies (#[trigger] moves[i]).score <= greatest(
            moves,
        ) by {
            if i < rest.len() {
                assert(rest[i] == moves[i]);
            }
        }
        assert(moves[moves.len() - 1] == moves.last());
        if rest.len() > 0 {
            let i = choose|i: int| 0 <= i < rest.len() && (#[trigger] rest[i]).score == greatest(
                rest,
            );
            assert(moves[i] == rest[i]);
        }
    }
}

} // verus!
