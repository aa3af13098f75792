//! Parking and release.
//!
//! The joints that rest on their stops hold the arm up: they are parked last,
//! get a second try without feedback, and nothing is released before every
//! joint has had its turn.
use crate::text::{joint_label, joint_name};
use vstd::prelude::*;

verus! {

/// The joints that rest on a stop, or the others, in order.
pub open spec fn chosen(rests: Seq<bool>, want: bool) -> Seq<usize>
    decreases rests.len(),
{
    if rests.len() == 0 {
        Seq::empty()
    } else {
        let before = chosen(rests.drop_last(), want);
        if rests.last() == want {
            before.push((rests.len() - 1) as usize)
        } else {
            before
        }
    }
}

/// The order joints are parked in: first those that do not rest on a stop, then
/// those that do.
pub open spec fn order_of(rests: Seq<bool>) -> Seq<usize> {
    chosen(rests, false) + chosen(rests, true)
}

/// Append the joints that are wanted.
fn choose_joints(rests: &[bool], want: bool, out: &mut Vec<usize>)
    ensures
        final(out)@ == old(out)@ + chosen(rests@, want),
{
    let ghost before = out@;
    let mut j: usize = 0;
    assert(rests@.take(0) =~= Seq::<bool>::empty());
    assert(out@ =~= before + chosen(rests@.take(0), want));
    while j < rests.len()
        invariant
            j <= rests@.len(),
            out@ == before + chosen(rests@.take(j as int), want),
        decreases rests@.len() - j,
    {
        assert(rests@.take(j + 1).drop_last() =~= rests@.take(j as int));
        assert(rests@.take(j + 1).last() == rests@[j as int]);
        if rests[j] == want {
            out.push(j);
            assert(out@ =~= before + chosen(rests@.take(j + 1), want));
        }
        j += 1;
    }
    assert(rests@.take(j as int) =~= rests@);
}

/// The order joints are parked in.
pub fn parking_order(rests: &[bool]) -> (r: Vec<usize>)
    ensures
        r@ == order_of(rests@),
{
    let mut out: Vec<usize> = Vec::new();
    choose_joints(rests, false, &mut out);
    assert(out@ =~= chosen(rests@, false));
    choose_joints(rests, true, &mut out);
    out
}

/// What parking a joint means.
#[derive(Clone, Copy, Debug, PartialEq, Eq, Structural)]
pub enum ParkPlan {
    /// Nothing: a joint without a reference that is where it was found.
    Stay,
    /// Go back to where it was found: the joint has no reference.
    Return,
    /// Go to the homing stop, to rest on it.
    Endstop,
    /// Go to the park pose.
    ParkPose,
}

/// What parking a joint means.
pub open spec fn park_plan_of(referenced: bool, rests: bool, found_at: i32, at: i32) -> ParkPlan {
    if !referenced {
        if -1 <= found_at - at <= 1 {
            ParkPlan::Stay
        } else {
            ParkPlan::Return
        }
    } else if rests {
        ParkPlan::Endstop
    } else {
        ParkPlan::ParkPose
    }
}

/// What parking a joint means.
pub fn park_plan(referenced: bool, rests: bool, found_at: i32, at: i32) -> (r: ParkPlan)
    ensures
        r == park_plan_of(referenced, rests, found_at, at),
{
    if !referenced {
        let distance: i64 = found_at as i64 - at as i64;
        if -1 <= distance && distance <= 1 {
            ParkPlan::Stay
        } else {
            ParkPlan::Return
        }
    } else if rests {
        ParkPlan::Endstop
    } else {
        ParkPlan::ParkPose
    }
}

/// The message for a joint that did not get back to where it was found.
pub fn not_returned_message(joint: usize) -> (r: String)
    requires
        joint < u64::MAX,
    ensures
        r@ == joint_name(joint as int) + " did not return to its starting position"@,
{
    let mut out = joint_label(joint);
    out.append(" did not return to its starting position");
    out
}

/// A joint that is to be parked.
#[derive(Clone, Copy, Debug, PartialEq, Eq, Structural)]
pub struct Turn {
    /// The joint.
    pub joint: usize,
    /// Whether it is parked without asking for feedback.
    pub blind: bool,
}

/// The parking of all joints; `E` is what a failure is told by.
#[derive(Debug)]
pub struct Parking<E> {
    /// The joints, in order.
    pub order: Vec<usize>,
    /// The next of them.
    pub next: usize,
    /// Whether its first try failed.
    pub blind: bool,
    /// The last failure.
    pub failed: Option<E>,
}

impl<E> Parking<E> {
    /// Whether the next joint exists, or all have had their turn.
    pub open spec fn valid(self) -> bool {
        self.next <= self.order@.len()
    }

    /// Begin.
    pub fn new(rests: &[bool]) -> (r: Parking<E>)
        ensures
            r.order@ == order_of(rests@),
            r.next == 0,
            !r.blind,
            r.failed is None,
            r.valid(),
    {
        Parking { order: parking_order(rests), next: 0, blind: false, failed: None }
    }

    /// The joint whose turn it is; nothing once all have had theirs.
    pub fn turn(&self) -> (r: Option<Turn>)
        requires
            self.valid(),
        ensures
            r == (if self.next < self.order@.len() {
                Some(Turn { joint: self.order@[self.next as int], blind: self.blind })
            } else {
                None
            }),
    {
        if self.next < self.order.len() {
            Some(Turn { joint: self.order[self.next], blind: self.blind })
        } else {
            None
        }
    }

    /// Take what parking the joint gave. A referenced joint that rests on a
    /// stop and failed is tried once more, blind; any other failure is kept and
    /// the next joint has its turn. The result is whether the failure counts.
    pub fn parked(&mut self, result: Result<(), E>, referenced: bool, rests: bool) -> (r: bool)
        requires
            old(self).valid(),
            old(self).next < old(self).order@.len(),
        ensures
            final(self).valid(),
            final(self).order@ == old(self).order@,
            result is Err && referenced && rests && !old(self).blind ==> {
                &&& !r
                &&& final(self).blind
                &&& final(self).next == old(self).next
                &&& final(self).failed == old(self).failed
            },
            !(result is Err && referenced && rests && !old(self).blind) ==> {
                &&& r == result is Err
                &&& !final(self).blind
                &&& final(self).next == old(self).next + 1
                &&& final(self).failed == (match result {
                    Ok(_) => old(self).failed,
                    Err(e) => Some(e),
                })
            },
    {
        let next: usize = if self.next < self.order.len() {
            self.next + 1
        } else {
            self.next
        };
        match result {
            Ok(()) => {
                self.blind = false;
                self.next = next;
                false
            },
            Err(e) => {
                if referenced && rests && !self.blind {
                    self.blind = true;
                    false
                } else {
                    self.blind = false;
                    self.next = next;
                    self.failed = Some(e);
                    true
                }
            },
        }
    }

    /// Whether the drives may be released: every joint has had its turn, and
    /// none failed or a failure does not keep them.
    pub fn may_release(&self, release_on_failure: bool) -> (r: bool)
        ensures
            r == (self.next >= self.order@.len() && (self.failed is None || release_on_failure)),
    {
        self.next >= self.order.len() && (self.failed.is_none() || release_on_failure)
    }

    /// What the shutdown came to once the drives were released: the last
    /// failure of the parking, or else that of the release.
    pub fn released(self, release: Result<(), E>) -> (r: Result<(), E>)
        ensures
            r == (match self.failed {
                Some(e) => Err::<(), E>(e),
                None => release,
            }),
    {
        match self.failed {
            Some(e) => Err(e),
            None => release,
        }
    }
}

/// What keeping the drives after a failed parking is told as.
pub fn kept_message() -> (r: &'static str)
    ensures
        r@ == "parking failed and release_on_failure is false"@,
{
    "parking failed and release_on_failure is false"
}

/// Frames the release is commanded for.
pub const RELEASE_FRAMES: usize = 3;

/// What the joints chosen are.
proof fn lemma_chosen(rests: Seq<bool>, want: bool)
    requires
        rests.len() <= usize::MAX,
    ensures
        forall|i: int|
            0 <= i < chosen(rests, want).len() ==> (#[trigger] chosen(rests, want)[i])
                < rests.len() && rests[chosen(rests, want)[i] as int] == want,
        forall|i: int, k: int|
            0 <= i < k < chosen(rests, want).len() ==> chosen(rests, want)[i] < chosen(
                rests,
                want,
            )[k],
        forall|j: int|
            0 <= j < rests.len() && #[trigger] rests[j] == want ==> chosen(rests, want).contains(
                j as usize,
            ),
    decreases rests.len(),
{
    if rests.len() > 0 {
        let before = rests.drop_last();
        lemma_chosen(before, want);
        let s = chosen(before, want);
        let t = chosen(rests, want);
        assert forall|j: int| 0 <= j < rests.len() && #[trigger] rests[j] == want implies t.contains(
            j as usize,
        ) by {
            if j < before.len() {
                assert(before[j] == want);
                let i = choose|i: int| 0 <= i < s.len() && s[i] == j as usize;
                assert(t[i] == j as usize);
            } else {
                assert(t[t.len() - 1] == j as usize);
            }
        }
    }
}

/// The joints that hold the arm up are parked last: no joint that rests on a
/// stop comes before one that does not.
pub proof fn law_resting_joints_park_last(rests: Seq<bool>, i: int, k: int)
    requires
        rests.len() <= usize::MAX,
        0 <= i < k < order_of(rests).len(),
        rests[order_of(rests)[i] as int],
    ensures
        rests[order_of(rests)[k] as int],
{
    lemma_chosen(rests, false);
    lemma_chosen(rests, true);
    let first = chosen(rests, false);
    if i < first.len() {
        assert(order_of(rests)[i] == first[i]);
    }
    assert(order_of(rests)[k] == chosen(rests, true)[k - first.len()]);
}

/// Every joint is parked, and none twice.
pub proof fn law_every_joint_is_parked_once(rests: Seq<bool>)
    requires
        rests.len() <= usize::MAX,
    ensures
        order_of(rests).no_duplicates(),
        forall|j: usize| (j as int) < rests.len() <==> #[trigger] order_of(rests).contains(j),
{
    lemma_chosen(rests, false);
    lemma_chosen(rests, true);
    let first = chosen(rests, false);
    let last = chosen(rests, true);
    let order = order_of(rests);
    assert forall|i: int, k: int| 0 <= i < k < order.len() implies order[i] != order[k] by {
        if i < first.len() {
            assert(order[i] == first[i]);
        } else {
            assert(order[i] == last[i - first.len()]);
        }
        if k < first.len() {
            assert(order[k] == first[k]);
        } else {
            assert(order[k] == last[k - first.len()]);
        }
    }
    assert forall|j: usize| (j as int) < rests.len() <==> #[trigger] order.contains(j) by {
        if (j as int) < rests.len() {
            if rests[j as int] {
                let i = choose|i: int| 0 <= i < last.len() && last[i] == j;
                assert(order[first.len() + i] == j);
            } else {
                let i = choose|i: int| 0 <= i < first.len() && first[i] == j;
                assert(order[i] == j);
            }
        }
        if order.contains(j) {
            let i = choose|i: int| 0 <= i < order.len() && order[i] == j;
            if i < first.len() {
                assert(order[i] == first[i]);
            } else {
                assert(order[i] == last[i - first.len()]);
            }
        }
    }
}

/// Among the joints that rest on a stop, and among those that do not, each is parked
/// after those that come before it on the arm.
pub proof fn law_joints_of_a_kind_park_in_order(rests: Seq<bool>, i: int, k: int)
    requires
        rests.len() <= usize::MAX,
        0 <= i < k < order_of(rests).len(),
        rests[order_of(rests)[i] as int] == rests[order_of(rests)[k] as int],
    ensures
        order_of(rests)[i] < order_of(rests)[k],
{
    lemma_chosen(rests, false);
    lemma_chosen(rests, true);
    let first = chosen(rests, false);
    let last = chosen(rests, true);
    let order = order_of(rests);
    if i < first.len() {
        assert(order[i] == first[i]);
    } else {
        assert(order[i] == last[i - first.len()]);
    }
    if k < first.len() {
        assert(order[k] == first[k]);
    } else {
        assert(order[k] == last[k - first.len()]);
    }
}

/// A joint with a reference goes to its stop if it rests on one, and to the park pose if
/// it does not, wherever it is. One without goes back to where it was found, unless it is
/// within a count of that.
pub proof fn law_where_a_joint_is_parked(referenced: bool, rests: bool, found_at: i32, at: i32)
    ensures
        park_plan_of(true, true, found_at, at) == ParkPlan::Endstop,
        park_plan_of(true, false, found_at, at) == ParkPlan::ParkPose,
        found_at - at > 1 || at - found_at > 1 ==> park_plan_of(false, rests, found_at, at)
            == ParkPlan::Return,
        found_at - at <= 1 && at - found_at <= 1 ==> park_plan_of(false, rests, found_at, at)
            == ParkPlan::Stay,
{
}

} // verus!
