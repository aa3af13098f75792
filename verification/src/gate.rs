//! The streaming collision gate: when a streamed motion is refused, what the
//! refusal says, and where a refused arm is put.
//!
//! The collision world itself is queried outside. The collision gate asks for the
//! colliding pairs at two configurations, for the first hit between them or
//! for how deep the arm is in what it touches, and decides.
use crate::collision_world::{
    colliding_names, is_world_name, world_name, Shape, ShapeLayer, ShapeNames,
};
use crate::runtime::{Refusal, RefusalView};
use crate::text::same;
use vstd::prelude::*;

verus! {

/// A colliding pair, as the two names it holds.
pub type PairView = (Seq<char>, Seq<char>);

/// The pairs of a list, as the names they hold.
pub open spec fn pairs_view(pairs: Seq<(String, String)>) -> Seq<PairView> {
    pairs.map_values(|p: (String, String)| (p.0@, p.1@))
}

/// Whether a pair involves a keep-out.
pub open spec fn world_pair(p: PairView) -> bool {
    world_name(p.0) || world_name(p.1)
}

/// Whether any of the pairs involves a keep-out.
pub open spec fn any_world(pairs: Seq<PairView>) -> bool {
    exists|i: int| 0 <= i < pairs.len() && world_pair(#[trigger] pairs[i])
}

/// The pairs of `target` that are not among `current`, in order.
pub open spec fn new_pairs(current: Seq<PairView>, target: Seq<PairView>) -> Seq<PairView>
    decreases target.len(),
{
    if target.len() == 0 {
        Seq::empty()
    } else {
        let rest = new_pairs(current, target.drop_last());
        if current.contains(target.last()) {
            rest
        } else {
            rest.push(target.last())
        }
    }
}

/// The pairs that involve a keep-out, in order.
pub open spec fn only_world(pairs: Seq<PairView>) -> Seq<PairView>
    decreases pairs.len(),
{
    if pairs.len() == 0 {
        Seq::empty()
    } else {
        let rest = only_world(pairs.drop_last());
        if world_pair(pairs.last()) {
            rest.push(pairs.last())
        } else {
            rest
        }
    }
}

/// How far the arm is from the keep-outs at the two ends of a motion, as ordered
/// keys. A distance is negative inside of a keep-out.
#[derive(Clone, Copy, Debug, PartialEq, Eq, Structural)]
pub struct Depths {
    /// The distance where the motion ends.
    pub there: i64,
    /// The least distance there that counts as no deeper: the one where the
    /// motion starts, less the tolerance.
    pub kept: i64,
}

impl Depths {
    /// Whether the motion goes deeper.
    pub open spec fn goes_deeper(self) -> bool {
        self.there < self.kept
    }

    /// Whether the motion goes deeper: the distance drops by more than the
    /// tolerance.
    pub fn deeper(&self) -> (r: bool)
        ensures
            r == self.goes_deeper(),
    {
        self.there < self.kept
    }
}

/// Whether the depth decides on a motion: the arm is in a keep-out, and touches
/// nothing new at the end.
pub open spec fn depth_decides(current: Seq<PairView>, target: Seq<PairView>) -> bool {
    current.len() > 0 && new_pairs(current, target).len() == 0 && any_world(current)
}

/// The verdict on a motion, and the pairs to report if it is refused.
///
/// From a clear configuration a motion is refused when its end collides, or
/// when something is hit on the way. From a colliding one it is refused when
/// it touches a new pair, or when a keep-out is among the standing pairs and
/// the motion goes deeper.
pub open spec fn verdict(
    current: Seq<PairView>,
    target: Seq<PairView>,
    hit: Option<Seq<PairView>>,
    depths: Option<Depths>,
) -> Option<Seq<PairView>> {
    if current.len() == 0 {
        if target.len() > 0 {
            Some(target)
        } else {
            hit
        }
    } else if new_pairs(current, target).len() > 0 {
        Some(new_pairs(current, target))
    } else if any_world(current) && (depths matches Some(d) && d.goes_deeper()) {
        Some(
            if target.len() == 0 {
                current
            } else {
                target
            },
        )
    } else {
        None
    }
}

/// What else the collision gate has to know before it can decide.
#[derive(Clone, Copy, Debug, PartialEq, Eq, Structural)]
pub enum GateQuestion {
    /// Nothing: the pairs decide.
    Settled,
    /// The first hit on the segment between the two configurations.
    Segment,
    /// How far the keep-outs are at the two configurations.
    Depth,
}

/// Whether `pairs` holds the pair `(a, b)`.
fn holds(pairs: &Vec<(String, String)>, a: &str, b: &str) -> (r: bool)
    ensures
        r == pairs_view(pairs@).contains((a@, b@)),
{
    let mut i: usize = 0;
    while i < pairs.len()
        invariant
            i <= pairs@.len(),
            forall|j: int| 0 <= j < i ==> #[trigger] pairs_view(pairs@)[j] != (a@, b@),
        decreases pairs@.len() - i,
    {
        if same(pairs[i].0.as_str(), a) && same(pairs[i].1.as_str(), b) {
            assert(pairs_view(pairs@)[i as int] == (a@, b@));
            return true;
        }
        i += 1;
    }
    false
}

/// The pairs of `target` the arm is not already in.
fn fresh(current: &Vec<(String, String)>, target: &Vec<(String, String)>) -> (r: Vec<
    (String, String),
>)
    ensures
        pairs_view(r@) == new_pairs(pairs_view(current@), pairs_view(target@)),
{
    let mut out: Vec<(String, String)> = Vec::new();
    let ghost tv = pairs_view(target@);
    let mut i: usize = 0;
    assert(pairs_view(out@) =~= new_pairs(pairs_view(current@), tv.take(0)));
    while i < target.len()
        invariant
            i <= target@.len(),
            tv == pairs_view(target@),
            pairs_view(out@) == new_pairs(pairs_view(current@), tv.take(i as int)),
        decreases target@.len() - i,
    {
        let ghost before = out@;
        assert(tv.take(i + 1).drop_last() =~= tv.take(i as int));
        assert(tv.take(i + 1).last() == tv[i as int]);
        if !holds(current, target[i].0.as_str(), target[i].1.as_str()) {
            out.push((target[i].0.clone(), target[i].1.clone()));
            assert(pairs_view(out@) =~= pairs_view(before).push(tv[i as int]));
        }
        i += 1;
    }
    assert(tv.take(i as int) =~= tv);
    out
}

/// Whether any of the pairs involves a keep-out.
fn touches_world(pairs: &Vec<(String, String)>) -> (r: bool)
    ensures
        r == any_world(pairs_view(pairs@)),
{
    let mut i: usize = 0;
    while i < pairs.len()
        invariant
            i <= pairs@.len(),
            forall|j: int| 0 <= j < i ==> !world_pair(#[trigger] pairs_view(pairs@)[j]),
        decreases pairs@.len() - i,
    {
        if is_world_name(pairs[i].0.as_str()) || is_world_name(pairs[i].1.as_str()) {
            assert(world_pair(pairs_view(pairs@)[i as int]));
            return true;
        }
        i += 1;
    }
    false
}

/// The offending pairs that involve a keep-out. A standing self contact is
/// left out: it is not a thing the arm can back out of along a line.
pub fn world_offenders(pairs: &Vec<(String, String)>) -> (r: Vec<(String, String)>)
    ensures
        pairs_view(r@) == only_world(pairs_view(pairs@)),
{
    let mut out: Vec<(String, String)> = Vec::new();
    let ghost pv = pairs_view(pairs@);
    let mut i: usize = 0;
    assert(pairs_view(out@) =~= only_world(pv.take(0)));
    while i < pairs.len()
        invariant
            i <= pairs@.len(),
            pv == pairs_view(pairs@),
            pairs_view(out@) == only_world(pv.take(i as int)),
        decreases pairs@.len() - i,
    {
        let ghost before = out@;
        assert(pv.take(i + 1).drop_last() =~= pv.take(i as int));
        assert(pv.take(i + 1).last() == pv[i as int]);
        if is_world_name(pairs[i].0.as_str()) || is_world_name(pairs[i].1.as_str()) {
            out.push((pairs[i].0.clone(), pairs[i].1.clone()));
            assert(pairs_view(out@) =~= pairs_view(before).push(pv[i as int]));
        }
        i += 1;
    }
    assert(pv.take(i as int) =~= pv);
    out
}

/// What has to be asked of the collision world besides the pairs at the two
/// configurations. Each question costs queries, so it is asked only where the
/// pairs leave the verdict open.
pub fn gate_question(current: &Vec<(String, String)>, target: &Vec<(String, String)>) -> (r:
    GateQuestion)
    ensures
        r == GateQuestion::Segment <==> current@.len() == 0 && target@.len() == 0,
        r == GateQuestion::Depth <==> depth_decides(pairs_view(current@), pairs_view(target@)),
{
    if current.len() == 0 {
        if target.len() == 0 {
            GateQuestion::Segment
        } else {
            GateQuestion::Settled
        }
    } else {
        let new = fresh(current, target);
        assert(pairs_view(new@).len() == new@.len());
        if new.len() == 0 && touches_world(current) {
            GateQuestion::Depth
        } else {
            GateQuestion::Settled
        }
    }
}

/// Whether streaming from a configuration colliding in `current` toward one
/// colliding in `target` must stop, and the pairs to report if so. `hit` holds
/// the pairs at the first collision between the two, `depths` how far the
/// keep-outs are, where that decides.
pub fn blocked(
    current: Vec<(String, String)>,
    target: Vec<(String, String)>,
    hit: Option<Vec<(String, String)>>,
    depths: Option<Depths>,
) -> (r: Option<Vec<(String, String)>>)
    requires
        depth_decides(pairs_view(current@), pairs_view(target@)) ==> depths is Some,
    ensures
        (match r {
            Some(pairs) => Some(pairs_view(pairs@)),
            None => None::<Seq<PairView>>,
        }) == verdict(
            pairs_view(current@),
            pairs_view(target@),
            (match hit {
                Some(pairs) => Some(pairs_view(pairs@)),
                None => None::<Seq<PairView>>,
            }),
            depths,
        ),
{
    if current.len() == 0 {
        if target.len() > 0 {
            return Some(target);
        }
        return hit;
    }
    let new = fresh(&current, &target);
    assert(pairs_view(new@).len() == new@.len());
    if new.len() > 0 {
        return Some(new);
    }
    let deeper = match depths {
        Some(d) => d.deeper(),
        None => false,
    };
    if touches_world(&current) && deeper {
        return Some(
            if target.len() == 0 {
                current
            } else {
                target
            },
        );
    }
    None
}

/// A configuration that collides is never admitted from a clear one.
pub proof fn law_approaching_a_collision_is_refused(
    target: Seq<PairView>,
    hit: Option<Seq<PairView>>,
    depths: Option<Depths>,
)
    requires
        target.len() > 0,
    ensures
        verdict(Seq::empty(), target, hit, depths) == Some(target),
{
}

/// A motion that touches a pair the arm is not already in is refused, and the
/// report holds exactly such pairs.
pub proof fn law_a_new_contact_is_refused(
    current: Seq<PairView>,
    target: Seq<PairView>,
    i: int,
    hit: Option<Seq<PairView>>,
    depths: Option<Depths>,
)
    requires
        0 <= i < target.len(),
        !current.contains(target[i]),
    ensures
        verdict(current, target, hit, depths) is Some,
        verdict(current, target, hit, depths)->0.contains(target[i]),
        forall|p: PairView|
            verdict(current, target, hit, depths)->0.contains(p) ==> target.contains(p)
                && !current.contains(p),
{
    lemma_new_pairs_holds(current, target);
    assert(target.contains(target[i]));
    assert(new_pairs(current, target).contains(target[i]));
    if current.len() == 0 {
        assert(forall|p: PairView| !current.contains(p));
    }
}

/// Streaming is the way out of a keep-out: a motion that touches nothing new
/// and goes no deeper into what the arm is in is admitted.
pub proof fn law_escaping_is_admitted(
    current: Seq<PairView>,
    target: Seq<PairView>,
    hit: Option<Seq<PairView>>,
    depths: Depths,
)
    requires
        current.len() > 0,
        forall|p: PairView| target.contains(p) ==> current.contains(p),
        !depths.goes_deeper(),
    ensures
        verdict(current, target, hit, Some(depths)) is None,
{
    lemma_new_pairs_holds(current, target);
    if new_pairs(current, target).len() > 0 {
        assert(new_pairs(current, target).contains(new_pairs(current, target)[0]));
    }
}

/// A motion out of a keep-out that touches nothing new is refused exactly if it
/// goes deeper, and what is told is what the arm is in.
pub proof fn law_only_going_deeper_is_refused(
    current: Seq<PairView>,
    target: Seq<PairView>,
    hit: Option<Seq<PairView>>,
    depths: Depths,
)
    requires
        any_world(current),
        forall|p: PairView| target.contains(p) ==> current.contains(p),
    ensures
        verdict(current, target, hit, Some(depths)) is Some <==> depths.goes_deeper(),
        verdict(current, target, hit, Some(depths)) matches Some(told) ==> told.len() > 0
            && forall|p: PairView| told.contains(p) ==> current.contains(p),
{
    lemma_new_pairs_holds(current, target);
    if new_pairs(current, target).len() > 0 {
        assert(new_pairs(current, target).contains(new_pairs(current, target)[0]));
    }
}

/// A standing contact of the arm with itself never holds the arm in place.
pub proof fn law_a_standing_self_contact_does_not_trap(
    current: Seq<PairView>,
    target: Seq<PairView>,
    hit: Option<Seq<PairView>>,
    depths: Option<Depths>,
)
    requires
        current.len() > 0,
        !any_world(current),
        forall|p: PairView| target.contains(p) ==> current.contains(p),
    ensures
        verdict(current, target, hit, depths) is None,
{
    lemma_new_pairs_holds(current, target);
    if new_pairs(current, target).len() > 0 {
        assert(new_pairs(current, target).contains(new_pairs(current, target)[0]));
    }
}

/// From a clear configuration to a clear one a motion is admitted if and only if
/// nothing is hit on the way, and what is hit is what is told: link against link as
/// much as link against keep-out, all of it and in order.
pub proof fn law_a_clear_motion_is_refused_exactly_for_what_it_hits(
    hit: Seq<PairView>,
    depths: Option<Depths>,
)
    ensures
        verdict(Seq::empty(), Seq::empty(), Some(hit), depths) == Some(hit),
        verdict(Seq::empty(), Seq::empty(), None, depths) is None,
{
}

/// What is told of a motion out of a collision that touches something new is what
/// is new, all of it and in the order it was found in.
pub proof fn law_new_contacts_are_told_in_order(
    current: Seq<PairView>,
    target: Seq<PairView>,
    hit: Option<Seq<PairView>>,
    depths: Option<Depths>,
)
    ensures
        target.filter(|p: PairView| !current.contains(p)).len() > 0 ==> verdict(
            current,
            target,
            hit,
            depths,
        ) == Some(target.filter(|p: PairView| !current.contains(p))),
{
    lemma_new_pairs_filter(current, target);
    if current.len() == 0 {
        lemma_nothing_filtered(current, target);
    }
}

/// With nothing at hand, nothing is left out.
proof fn lemma_nothing_filtered(current: Seq<PairView>, target: Seq<PairView>)
    requires
        current.len() == 0,
    ensures
        target.filter(|p: PairView| !current.contains(p)) == target,
    decreases target.len(),
{
    reveal(Seq::filter);
    if target.len() > 0 {
        lemma_nothing_filtered(current, target.drop_last());
        assert(!current.contains(target.last()));
        assert(target.drop_last().push(target.last()) =~= target);
    } else {
        assert(target.filter(|p: PairView| !current.contains(p)) =~= target);
    }
}

proof fn lemma_new_pairs_filter(current: Seq<PairView>, target: Seq<PairView>)
    ensures
        new_pairs(current, target) == target.filter(|p: PairView| !current.contains(p)),
    decreases target.len(),
{
    reveal(Seq::filter);
    if target.len() > 0 {
        lemma_new_pairs_filter(current, target.drop_last());
    } else {
        assert(new_pairs(current, target) =~= target.filter(|p: PairView| !current.contains(p)));
    }
}

/// Out of a collision in which a keep-out takes part, on either side of a pair, a
/// motion that touches nothing new is refused exactly if it ends nearer than the
/// distance that was to be kept. What is told is what it touches at the end, or what
/// it was in where it touches nothing there.
pub proof fn law_the_depth_decides_inside_a_keep_out(
    current: Seq<PairView>,
    target: Seq<PairView>,
    hit: Option<Seq<PairView>>,
    depths: Depths,
    i: int,
)
    requires
        0 <= i < current.len(),
        "shape:"@.is_prefix_of(current[i].0) || "install:"@.is_prefix_of(current[i].0)
            || "shape:"@.is_prefix_of(current[i].1) || "install:"@.is_prefix_of(current[i].1),
        forall|p: PairView| target.contains(p) ==> current.contains(p),
    ensures
        verdict(current, target, hit, Some(depths)) == (if depths.there >= depths.kept {
            None
        } else if target.len() > 0 {
            Some(target)
        } else {
            Some(current)
        }),
{
    lemma_new_pairs_holds(current, target);
    if new_pairs(current, target).len() > 0 {
        assert(new_pairs(current, target).contains(new_pairs(current, target)[0]));
    }
    assert(world_pair(current[i]));
}

/// Out of a collision of the arm with itself alone, no depth holds it: a motion that
/// touches nothing new is admitted.
pub proof fn law_the_depth_decides_nothing_without_a_keep_out(
    current: Seq<PairView>,
    target: Seq<PairView>,
    hit: Option<Seq<PairView>>,
    depths: Option<Depths>,
)
    requires
        current.len() > 0,
        forall|i: int|
            0 <= i < current.len() ==> {
                let p = #[trigger] current[i];
                &&& !"shape:"@.is_prefix_of(p.0) && !"install:"@.is_prefix_of(p.0)
                &&& !"shape:"@.is_prefix_of(p.1) && !"install:"@.is_prefix_of(p.1)
            },
        forall|p: PairView| target.contains(p) ==> current.contains(p),
    ensures
        verdict(current, target, hit, depths) is None,
{
    law_a_standing_self_contact_does_not_trap(current, target, hit, depths);
}

/// The depth is asked for exactly where it decides, whichever side of a pair the
/// keep-out is on.
pub proof fn law_the_depth_is_asked_where_it_decides(
    current: Seq<PairView>,
    target: Seq<PairView>,
    hit: Option<Seq<PairView>>,
    near: Depths,
    far: Depths,
)
    requires
        near.there < near.kept,
        far.there >= far.kept,
    ensures
        depth_decides(current, target) <==> verdict(current, target, hit, Some(near)) != verdict(
            current,
            target,
            hit,
            Some(far),
        ),
{
}

/// The pairs that are told of a keep-out are those in which one takes part, on either
/// side, all of them and in order.
pub proof fn law_world_offenders_are_the_pairs_with_a_keep_out(pairs: Seq<PairView>)
    ensures
        only_world(pairs) == pairs.filter(
            |p: PairView|
                "shape:"@.is_prefix_of(p.0) || "install:"@.is_prefix_of(p.0)
                    || "shape:"@.is_prefix_of(p.1) || "install:"@.is_prefix_of(p.1),
        ),
    decreases pairs.len(),
{
    reveal(Seq::filter);
    let pick = |p: PairView|
        "shape:"@.is_prefix_of(p.0) || "install:"@.is_prefix_of(p.0) || "shape:"@.is_prefix_of(p.1)
            || "install:"@.is_prefix_of(p.1);
    if pairs.len() > 0 {
        law_world_offenders_are_the_pairs_with_a_keep_out(pairs.drop_last());
    } else {
        assert(only_world(pairs) =~= pairs.filter(pick));
    }
}

/// Exactly the pairs of `target` outside `current` are new.
proof fn lemma_new_pairs_holds(current: Seq<PairView>, target: Seq<PairView>)
    ensures
        forall|p: PairView|
            #[trigger] new_pairs(current, target).contains(p) <==> target.contains(p)
                && !current.contains(p),
    decreases target.len(),
{
    if target.len() > 0 {
        let head = target.drop_last();
        let rest = new_pairs(current, head);
        lemma_new_pairs_holds(current, head);
        assert forall|p: PairView| #[trigger] new_pairs(current, target).contains(p) <==>
            target.contains(p) && !current.contains(p) by {
            assert(target =~= head.push(target.last()));
            if target.contains(p) {
                let k = choose|k: int| 0 <= k < target.len() && target[k] == p;
                if k < head.len() {
                    assert(head[k] == p);
                    assert(head.contains(p));
                }
            }
            if head.contains(p) {
                let k = choose|k: int| 0 <= k < head.len() && head[k] == p;
                assert(target[k] == p);
            }
            assert(target[target.len() - 1] == target.last());
            let all = new_pairs(current, target);
            if all.contains(p) {
                let k = choose|k: int| 0 <= k < all.len() && all[k] == p;
                if k < rest.len() {
                    assert(rest[k] == p);
                }
            }
            if rest.contains(p) {
                let k = choose|k: int| 0 <= k < rest.len() && rest[k] == p;
                assert(all[k] == p);
            }
            if !current.contains(target.last()) {
                assert(all[all.len() - 1] == target.last());
            }
        }
    }
}

/// Mirror one layer of the accepted world. `converted` tells whether every
/// shape could be read, and `applied` whether the collision world took them;
/// what it did not take is not recorded.
pub fn set_layer(
    names: &mut ShapeNames,
    layer: ShapeLayer,
    shapes: &[Shape],
    converted: Result<(), String>,
    applied: Result<(), String>,
) -> (r: Result<(), Refusal>)
    ensures
        match (converted, applied) {
            (Err(e), _) => (r matches Err(f) && f@ == (RefusalView::InvalidShapes { detail: e@ }))
                && *final(names) == *old(names),
            (Ok(_), Err(e)) => (r matches Err(f) && f@ == (RefusalView::GateFailed { detail: e@ }))
                && *final(names) == *old(names),
            (Ok(_), Ok(_)) => {
                &&& r is Ok
                &&& final(names)@.layer(layer) == colliding_names(shapes@)
                &&& layer == ShapeLayer::Installation ==> final(names)@.program == old(
                    names,
                )@.program
                &&& layer == ShapeLayer::Program ==> final(names)@.installation == old(
                    names,
                )@.installation
            },
        },
{
    if let Err(detail) = converted {
        return Err(Refusal::InvalidShapes { detail });
    }
    if let Err(detail) = applied {
        return Err(Refusal::GateFailed { detail });
    }
    names.set_layer(layer, shapes);
    Ok(())
}

/// The pose a stopping projection starts from: the commanded one, or where none
/// is commanded the measured one.
pub fn projection_seed<Q>(commanded: Option<Q>, measured: Q) -> (r: Q)
    ensures
        r == (match commanded {
            Some(q) => q,
            None => measured,
        }),
{
    match commanded {
        Some(q) => q,
        None => measured,
    }
}

} // verus!
