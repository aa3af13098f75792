//! A motion that looks after itself: what an attempt that did not simply
//! arrive calls for.
//!
//! A joint that stops is backed off first. Whether it moves back tells a stop
//! from a joint that cannot move at all, and only what is neither is tuned.
use crate::selfcal::motion::{stop_direction, Outcome};
use crate::text::{joint_label, joint_name};
use vstd::prelude::*;

verus! {

/// What was asked of the joint.
#[derive(Clone, Copy, Debug, PartialEq, Eq, Structural)]
pub enum Request {
    /// A transfer to a position.
    Position,
    /// A seek for the home reference.
    Seek {
        /// Whether the reference is a Hall edge, not a stop.
        hall: bool,
    },
}

/// An attempt at it.
#[derive(Clone, Copy, Debug, PartialEq, Eq, Structural)]
pub struct Attempt {
    /// How it ended.
    pub outcome: Outcome,
    /// Its direction.
    pub direction: i32,
    /// Whether its movement and its hold met the requirements.
    pub acceptable: bool,
    /// Where the joint is now.
    pub at: i32,
}

/// Why a motion was given up.
#[derive(Clone, Copy, Debug, PartialEq, Eq, Structural)]
pub enum GivenUp {
    /// The seeks together took longer than the configured time.
    ReferenceNotFound,
    /// A seek that was followed well saw no home event.
    NoHomeEvent,
    /// The joint moves neither way.
    CannotMove,
    /// The joint moved back and was then blocked there too.
    ReverseBlocked,
    /// A transfer ran into a stop.
    StopInTheWay,
}

impl GivenUp {
    /// What happened, after the joint's name.
    pub open spec fn words(self) -> Seq<char> {
        match self {
            GivenUp::ReferenceNotFound => " home reference not found within configured seek time"@,
            GivenUp::NoHomeEvent => " no home event arrived within configured seek time"@,
            GivenUp::CannotMove =>
                " cannot move either direction at the configured homing/operating currents"@,
            GivenUp::ReverseBlocked => " reverse move blocked at its configured current"@,
            GivenUp::StopInTheWay =>
                " requested transfer encounters a stop; reverse motion works"@,
        }
    }

    /// What happened, in words.
    pub fn message(self, joint: usize) -> (r: String)
        requires
            joint < u64::MAX,
        ensures
            r@ == joint_name(joint as int) + self.words(),
    {
        let mut out = joint_label(joint);
        match self {
            GivenUp::ReferenceNotFound => out.append(
                " home reference not found within configured seek time",
            ),
            GivenUp::NoHomeEvent => out.append(
                " no home event arrived within configured seek time",
            ),
            GivenUp::CannotMove => out.append(
                " cannot move either direction at the configured homing/operating currents",
            ),
            GivenUp::ReverseBlocked => out.append(" reverse move blocked at its configured current"),
            GivenUp::StopInTheWay => out.append(
                " requested transfer encounters a stop; reverse motion works",
            ),
        }
        out
    }
}

/// What an attempt calls for.
#[derive(Clone, Copy, Debug, PartialEq, Eq, Structural)]
pub enum Next {
    /// Nothing: the request is met.
    Done,
    /// Back off and see whether the joint moves back.
    Reverse,
    /// Tune the joint and try again.
    Tune,
    /// Give up.
    GiveUp(GivenUp),
}

/// Whether two encoder counts are within `tolerance` of each other.
pub open spec fn within(a: i32, b: i32, tolerance: u32) -> bool {
    -(tolerance as int) <= a - b <= tolerance
}

/// Whether two encoder counts are within `tolerance` of each other.
pub fn is_within(a: i32, b: i32, tolerance: u32) -> (r: bool)
    ensures
        r == within(a, b, tolerance),
{
    let difference: i64 = a as i64 - b as i64;
    -(tolerance as i64) <= difference && difference <= tolerance as i64
}

/// Whether a contact is the stop that a seek was sent to confirm.
pub open spec fn confirms(
    request: Request,
    attempt: Attempt,
    direction: i32,
    reference: Option<i32>,
    tolerance: u32,
) -> bool {
    &&& request == (Request::Seek { hall: false })
    &&& attempt.direction == direction
    &&& reference matches Some(p) && within(p, attempt.at, tolerance)
}

/// What an attempt calls for.
pub open spec fn next_after(
    request: Request,
    attempt: Attempt,
    direction: i32,
    reference: Option<i32>,
    tolerance: u32,
    baseline_only: bool,
) -> Next {
    let confirming = request == (Request::Seek { hall: false }) && reference is Some;
    match attempt.outcome {
        Outcome::Complete => if attempt.acceptable || baseline_only || request is Seek {
            Next::Done
        } else {
            Next::Tune
        },
        Outcome::Blocked => if confirms(request, attempt, direction, reference, tolerance) {
            Next::Done
        } else {
            Next::Reverse
        },
        Outcome::Timeout => if request is Seek && (confirming || attempt.acceptable) {
            Next::GiveUp(GivenUp::NoHomeEvent)
        } else {
            Next::Tune
        },
        _ => Next::Tune,
    }
}

/// Judge an attempt. Arriving meets a seek whatever its quality, and a
/// transfer only if it was acceptable or nothing is to be tuned; contact meets
/// a seek that was sent to confirm that very stop, and anything else that is in
/// contact is backed off.
pub fn judge_attempt(
    request: Request,
    attempt: Attempt,
    direction: i32,
    reference: Option<i32>,
    tolerance: u32,
    baseline_only: bool,
) -> (r: Next)
    ensures
        r == next_after(request, attempt, direction, reference, tolerance, baseline_only),
{
    let seeks = match request {
        Request::Seek { hall: _ } => true,
        Request::Position => false,
    };
    let stop_seek = request == (Request::Seek { hall: false });
    match attempt.outcome {
        Outcome::Complete => {
            if attempt.acceptable || baseline_only || seeks {
                Next::Done
            } else {
                Next::Tune
            }
        },
        Outcome::Blocked => {
            let same = match reference {
                Some(p) => is_within(p, attempt.at, tolerance),
                None => false,
            };
            if stop_seek && attempt.direction == direction && same {
                Next::Done
            } else {
                Next::Reverse
            }
        },
        Outcome::Timeout => {
            let confirming = stop_seek && reference.is_some();
            if seeks && (confirming || attempt.acceptable) {
                Next::GiveUp(GivenUp::NoHomeEvent)
            } else {
                Next::Tune
            }
        },
        _ => Next::Tune,
    }
}

/// Whether a seek has used its time up; a transfer has none.
pub fn seek_expired(request: Request, spent: u64, allowed: u64) -> (r: bool)
    ensures
        r == (request is Seek && spent >= allowed),
{
    match request {
        Request::Seek { hall: _ } => spent >= allowed,
        Request::Position => false,
    }
}

/// How far a joint moved back from a contact, against the direction it was
/// blocked in.
pub fn reverse_travel(contact: i32, at: i32, blocked_direction: i32) -> (r: i64)
    requires
        -1 <= blocked_direction <= 1,
    ensures
        r == (contact - at) * blocked_direction,
{
    let travel: i64 = contact as i64 - at as i64;
    if blocked_direction == 1 {
        assert((contact - at) * blocked_direction == contact - at) by (nonlinear_arith)
            requires
                blocked_direction == 1,
        ;
        travel
    } else if blocked_direction == -1 {
        assert((contact - at) * blocked_direction == -(contact - at)) by (nonlinear_arith)
            requires
                blocked_direction == -1,
        ;
        -travel
    } else {
        assert((contact - at) * blocked_direction == 0) by (nonlinear_arith)
            requires
                blocked_direction == 0,
        ;
        0
    }
}

/// What backing off showed.
#[derive(Clone, Copy, Debug, PartialEq, Eq, Structural)]
pub struct Backed {
    /// How the backoff ended.
    pub outcome: Outcome,
    /// How far the joint moved back.
    pub travel: i64,
    /// How far it has to, to count as having moved.
    pub minimum: i64,
    /// Whether the backoff met the requirements.
    pub acceptable: bool,
}

/// What a backoff calls for.
#[derive(Clone, Copy, Debug, PartialEq, Eq, Structural)]
pub enum AfterBackoff {
    /// Give up.
    GiveUp(GivenUp),
    /// The joint did not move back: tune it for the request.
    Tune,
    /// The joint moved back badly: tune it on the backoff.
    TuneBackoff,
    /// The joint moved back well.
    Free,
}

/// What a backoff calls for.
pub open spec fn after_backoff(backed: Backed) -> AfterBackoff {
    let moved = backed.travel >= backed.minimum;
    if backed.outcome == Outcome::Blocked {
        AfterBackoff::GiveUp(
            if moved {
                GivenUp::ReverseBlocked
            } else {
                GivenUp::CannotMove
            },
        )
    } else if !moved {
        AfterBackoff::Tune
    } else if !backed.acceptable {
        AfterBackoff::TuneBackoff
    } else {
        AfterBackoff::Free
    }
}

/// Judge a backoff.
pub fn judge_backoff(backed: Backed) -> (r: AfterBackoff)
    ensures
        r == after_backoff(backed),
{
    let moved = backed.travel >= backed.minimum;
    if backed.outcome == Outcome::Blocked {
        if moved {
            AfterBackoff::GiveUp(GivenUp::ReverseBlocked)
        } else {
            AfterBackoff::GiveUp(GivenUp::CannotMove)
        }
    } else if !moved {
        AfterBackoff::Tune
    } else if !backed.acceptable {
        AfterBackoff::TuneBackoff
    } else {
        AfterBackoff::Free
    }
}

/// The stop that experiments on a backoff return to: the contact, where the
/// joint homes on a stop and was blocked toward it.
pub fn backoff_stop(hall: bool, blocked_direction: i32, configured: u8, contact: i32) -> (r: Option<
    i32,
>)
    ensures
        r == (if !hall && blocked_direction == stop_direction(configured) {
            Some(contact)
        } else {
            None
        }),
{
    let home: i32 = if configured == 1 {
        -1
    } else {
        1
    };
    if !hall && blocked_direction == home {
        Some(contact)
    } else {
        None
    }
}

/// What a joint that moved back from a contact means for the request.
pub open spec fn after_contact(request: Request, same_direction: bool) -> Next {
    if !same_direction {
        Next::Tune
    } else {
        match request {
            Request::Seek { hall } => if hall {
                Next::Tune
            } else {
                Next::Done
            },
            Request::Position => Next::GiveUp(GivenUp::StopInTheWay),
        }
    }
}

/// Whether the request is settled by a contact that the joint moved back from:
/// a seek for a stop has found it, a transfer has a stop in its way, and a Hall
/// seek goes on, because a stall never supplies its reference. The result is
/// `Next::Tune` where the motion is tried again.
pub fn judge_contact(request: Request, same_direction: bool) -> (r: Next)
    ensures
        r == after_contact(request, same_direction),
{
    if !same_direction {
        return Next::Tune;
    }
    match request {
        Request::Seek { hall } => {
            if hall {
                Next::Tune
            } else {
                Next::Done
            }
        },
        Request::Position => Next::GiveUp(GivenUp::StopInTheWay),
    }
}

/// Where a motion is.
#[derive(Clone, Copy, Debug, PartialEq, Eq, Structural)]
pub enum Phase {
    /// The motion is to be made.
    Move,
    /// The joint is in contact and is to be backed off.
    Back {
        /// The attempt that ended in contact.
        attempt: Attempt,
    },
    /// The joint is to be tuned on the backoff.
    TuneBack {
        /// The attempt that ended in contact.
        attempt: Attempt,
        /// Whether the backoff arrived.
        completed: bool,
    },
    /// The joint is to be brought to the backoff's target.
    Return {
        /// The attempt that ended in contact.
        attempt: Attempt,
    },
    /// The joint is to be tuned for the request.
    Tune,
    /// Over: the request is met.
    Done {
        /// The attempt that met it.
        attempt: Attempt,
    },
    /// Over: the request was given up.
    GaveUp {
        /// Why.
        reason: GivenUp,
    },
}

/// What was done since.
#[derive(Clone, Copy, Debug, PartialEq, Eq, Structural)]
pub enum Event {
    /// The motion was made.
    Moved {
        /// How it went.
        attempt: Attempt,
        /// The ticks it took.
        ticks: u64,
    },
    /// The joint was backed off.
    Backed {
        /// What that showed.
        backed: Backed,
        /// Whether the joint is at the backoff's target.
        on_target: bool,
    },
    /// The joint was tuned.
    Tuned {
        /// The experiment that ended in contact, if one did.
        blocked: Option<Attempt>,
        /// Whether the joint is at the backoff's target.
        on_target: bool,
    },
    /// The joint was brought to the backoff's target.
    Returned,
}

/// A motion that looks after itself.
#[derive(Clone, Copy, Debug, PartialEq, Eq, Structural)]
pub struct Adaptive {
    /// What was asked.
    pub request: Request,
    /// The direction asked.
    pub direction: i32,
    /// The reference the motion is to confirm, if any.
    pub reference: Option<i32>,
    /// How far a confirmed reference may be off.
    pub tolerance: u32,
    /// Whether nothing is to be tuned.
    pub baseline_only: bool,
    /// Ticks all seeks together may take.
    pub allowed: u64,
    /// Ticks the motions took.
    pub spent: u64,
    /// Where the motion is.
    pub phase: Phase,
}

impl Adaptive {
    /// The motion with its phase replaced.
    pub open spec fn at(self, phase: Phase) -> Adaptive {
        Adaptive { phase, ..self }
    }

    /// Where the motion goes on an attempt.
    pub open spec fn judged(self, attempt: Attempt) -> Phase {
        match next_after(
            self.request,
            attempt,
            self.direction,
            self.reference,
            self.tolerance,
            self.baseline_only,
        ) {
            Next::Done => Phase::Done { attempt },
            Next::Reverse => Phase::Back { attempt },
            Next::Tune => Phase::Tune,
            Next::GiveUp(reason) => Phase::GaveUp { reason },
        }
    }

    /// Where another try begins: with an attempt at hand, or with a motion. A
    /// seek whose time is used up gets neither.
    pub open spec fn again(self, pending: Option<Attempt>) -> Phase {
        if self.request is Seek && self.spent >= self.allowed {
            Phase::GaveUp { reason: GivenUp::ReferenceNotFound }
        } else {
            match pending {
                Some(attempt) => self.judged(attempt),
                None => Phase::Move,
            }
        }
    }

    /// Where a joint that moved back from a contact leaves the motion.
    pub open spec fn freed(self, attempt: Attempt) -> Phase {
        match after_contact(self.request, attempt.direction == self.direction) {
            Next::Done => Phase::Done { attempt },
            Next::GiveUp(reason) => Phase::GaveUp { reason },
            _ => self.again(None),
        }
    }

    /// Where the motion goes once the backoff is over.
    pub open spec fn backed_off(self, attempt: Attempt, completed: bool, on_target: bool) -> Phase {
        if completed && on_target {
            self.freed(attempt)
        } else {
            Phase::Return { attempt }
        }
    }

    /// The motion after an event. An event the phase does not wait for changes
    /// nothing.
    pub open spec fn stepped(self, event: Event) -> Adaptive {
        match (self.phase, event) {
            (Phase::Move, Event::Moved { attempt, ticks }) => {
                let spent = Adaptive { spent: (self.spent + ticks) as u64, ..self };
                spent.at(spent.judged(attempt))
            },
            (Phase::Back { attempt }, Event::Backed { backed, on_target }) => self.at(
                match after_backoff(backed) {
                    AfterBackoff::GiveUp(reason) => Phase::GaveUp { reason },
                    AfterBackoff::Tune => Phase::Tune,
                    AfterBackoff::TuneBackoff => Phase::TuneBack {
                        attempt,
                        completed: backed.outcome == Outcome::Complete,
                    },
                    AfterBackoff::Free => self.backed_off(
                        attempt,
                        backed.outcome == Outcome::Complete,
                        on_target,
                    ),
                },
            ),
            (Phase::TuneBack { attempt, completed }, Event::Tuned { blocked, on_target }) => self.at(
                if blocked is Some {
                    self.again(blocked)
                } else {
                    self.backed_off(attempt, completed, on_target)
                },
            ),
            (Phase::Return { attempt }, Event::Returned) => self.at(self.freed(attempt)),
            (Phase::Tune, Event::Tuned { blocked, on_target: _ }) => self.at(self.again(blocked)),
            _ => self,
        }
    }

    /// What holds of every motion: only contact is backed off.
    pub open spec fn valid(self) -> bool {
        match self.phase {
            Phase::Back { attempt } => attempt.outcome == Outcome::Blocked,
            Phase::TuneBack { attempt, completed: _ } => attempt.outcome == Outcome::Blocked,
            Phase::Return { attempt } => attempt.outcome == Outcome::Blocked,
            _ => true,
        }
    }

    /// Begin a motion. A seek that is allowed no time is given up at once.
    pub fn new(
        request: Request,
        direction: i32,
        reference: Option<i32>,
        tolerance: u32,
        baseline_only: bool,
        allowed: u64,
    ) -> (r: Adaptive)
        ensures
            r == (Adaptive {
                request,
                direction,
                reference,
                tolerance,
                baseline_only,
                allowed,
                spent: 0,
                phase: if request is Seek && allowed == 0 {
                    Phase::GaveUp { reason: GivenUp::ReferenceNotFound }
                } else {
                    Phase::Move
                },
            }),
            r.valid(),
    {
        let phase = if seek_expired(request, 0, allowed) {
            Phase::GaveUp { reason: GivenUp::ReferenceNotFound }
        } else {
            Phase::Move
        };
        Adaptive { request, direction, reference, tolerance, baseline_only, allowed, spent: 0, phase }
    }

    /// Whether the motion is watched for tracking: not where it only confirms a
    /// stop, whose load must not call for tuning.
    pub fn watched(&self) -> (r: bool)
        ensures
            r == !(self.reference is Some && self.request == (Request::Seek { hall: false })),
    {
        !(self.reference.is_some() && self.request == (Request::Seek { hall: false }))
    }

    fn judge(&self, attempt: Attempt) -> (r: Phase)
        ensures
            r == self.judged(attempt),
    {
        match judge_attempt(
            self.request,
            attempt,
            self.direction,
            self.reference,
            self.tolerance,
            self.baseline_only,
        ) {
            Next::Done => Phase::Done { attempt },
            Next::Reverse => Phase::Back { attempt },
            Next::Tune => Phase::Tune,
            Next::GiveUp(reason) => Phase::GaveUp { reason },
        }
    }

    fn try_again(&self, pending: Option<Attempt>) -> (r: Phase)
        ensures
            r == self.again(pending),
    {
        if seek_expired(self.request, self.spent, self.allowed) {
            return Phase::GaveUp { reason: GivenUp::ReferenceNotFound };
        }
        match pending {
            Some(attempt) => self.judge(attempt),
            None => Phase::Move,
        }
    }

    fn free(&self, attempt: Attempt) -> (r: Phase)
        ensures
            r == self.freed(attempt),
    {
        match judge_contact(self.request, attempt.direction == self.direction) {
            Next::Done => Phase::Done { attempt },
            Next::GiveUp(reason) => Phase::GaveUp { reason },
            _ => self.try_again(None),
        }
    }

    fn back_off(&self, attempt: Attempt, completed: bool, on_target: bool) -> (r: Phase)
        ensures
            r == self.backed_off(attempt, completed, on_target),
    {
        if completed && on_target {
            self.free(attempt)
        } else {
            Phase::Return { attempt }
        }
    }

    /// Take what was done.
    pub fn step(&mut self, event: Event)
        requires
            event matches Event::Moved { attempt: _, ticks } ==> old(self).spent + ticks
                <= u64::MAX,
        ensures
            *final(self) == old(self).stepped(event),
            old(self).valid() ==> final(self).valid(),
    {
        match (self.phase, event) {
            (Phase::Move, Event::Moved { attempt, ticks }) => {
                self.spent = self.spent + ticks;
                self.phase = self.judge(attempt);
            },
            (Phase::Back { attempt }, Event::Backed { backed, on_target }) => {
                let completed = backed.outcome == Outcome::Complete;
                self.phase =
                match judge_backoff(backed) {
                    AfterBackoff::GiveUp(reason) => Phase::GaveUp { reason },
                    AfterBackoff::Tune => Phase::Tune,
                    AfterBackoff::TuneBackoff => Phase::TuneBack { attempt, completed },
                    AfterBackoff::Free => self.back_off(attempt, completed, on_target),
                };
            },
            (Phase::TuneBack { attempt, completed }, Event::Tuned { blocked, on_target }) => {
                self.phase =
                if blocked.is_some() {
                    self.try_again(blocked)
                } else {
                    self.back_off(attempt, completed, on_target)
                };
            },
            (Phase::Return { attempt }, Event::Returned) => {
                self.phase = self.free(attempt);
            },
            (Phase::Tune, Event::Tuned { blocked, on_target: _ }) => {
                self.phase = self.try_again(blocked);
            },
            _ => {},
        }
    }
}

/// A request is met only on evidence: the motion arrived, or it was a seek for
/// a stop that ran into one in the direction it was sent.
pub proof fn law_a_request_is_met_on_evidence(motion: Adaptive, event: Event, met: Attempt)
    requires
        motion.valid(),
        !(motion.phase is Done),
        motion.stepped(event).phase == (Phase::Done { attempt: met }),
    ensures
        met.outcome == Outcome::Complete || (met.outcome == Outcome::Blocked && motion.request == (
        Request::Seek { hall: false }) && met.direction == motion.direction),
{
}

/// A seek for a Hall edge is met by the edge alone: a stall never supplies its
/// reference.
pub proof fn law_a_stall_is_no_hall_reference(motion: Adaptive, event: Event, met: Attempt)
    requires
        motion.valid(),
        motion.request == (Request::Seek { hall: true }),
        !(motion.phase is Done),
        motion.stepped(event).phase == (Phase::Done { attempt: met }),
    ensures
        met.outcome == Outcome::Complete,
{
}

/// A stop that no reference names yet is taken only once the joint has moved
/// back from it.
pub proof fn law_a_new_stop_is_backed_off_first(motion: Adaptive, event: Event, met: Attempt)
    requires
        motion.valid(),
        motion.reference is None,
        !(motion.phase is Done),
        motion.stepped(event).phase == (Phase::Done { attempt: met }),
        met.outcome == Outcome::Blocked,
    ensures
        match motion.phase {
            Phase::Back { attempt: _ } => event matches Event::Backed { backed, on_target: _ }
                && backed.travel >= backed.minimum && backed.outcome == Outcome::Complete,
            Phase::TuneBack { attempt: _, completed: _ } => true,
            Phase::Return { attempt: _ } => true,
            _ => false,
        },
{
}

/// A joint that is blocked both ways is given up: it is never tuned and never
/// taken for one at its stop.
pub proof fn law_a_joint_blocked_both_ways_is_given_up(motion: Adaptive, backed: Backed, on_target: bool)
    requires
        motion.phase is Back,
        backed.outcome == Outcome::Blocked,
    ensures
        motion.stepped(Event::Backed { backed, on_target }).phase is GaveUp,
{
}

/// Once it is over, a motion changes no more.
pub proof fn law_a_finished_motion_stays_finished(motion: Adaptive, event: Event)
    requires
        motion.phase is Done || motion.phase is GaveUp,
    ensures
        motion.stepped(event) == motion,
{
}

/// What an attempt comes to. One that completed meets a seek, and a position if it was
/// acceptable or nothing is tuned. One that was blocked meets a seek for a stop that it
/// went toward and found within the tolerance of the one known; any other is backed off. A
/// seek that ran out of time is given up if it was acceptable or only had to confirm a
/// stop. Everything else is tuned.
pub proof fn law_what_an_attempt_comes_to(motion: Adaptive, attempt: Attempt, ticks: u64)
    requires
        motion.phase is Move,
        motion.spent + ticks <= u64::MAX,
    ensures
        ({
            let next = motion.stepped(Event::Moved { attempt, ticks });
            let seeks = motion.request is Seek;
            let stop_seek = motion.request == (Request::Seek { hall: false });
            let known = motion.reference matches Some(p) && (p - attempt.at <= motion.tolerance
                && attempt.at - p <= motion.tolerance);
            &&& next.spent == motion.spent + ticks
            &&& attempt.outcome == Outcome::Complete ==> next.phase == (if attempt.acceptable
                || motion.baseline_only || seeks {
                Phase::Done { attempt }
            } else {
                Phase::Tune
            })
            &&& attempt.outcome == Outcome::Blocked ==> next.phase == (if stop_seek
                && attempt.direction == motion.direction && known {
                Phase::Done { attempt }
            } else {
                Phase::Back { attempt }
            })
            &&& attempt.outcome == Outcome::Timeout ==> next.phase == (if seeks && (
            attempt.acceptable || (stop_seek && motion.reference is Some)) {
                Phase::GaveUp { reason: GivenUp::NoHomeEvent }
            } else {
                Phase::Tune
            })
            &&& attempt.outcome == Outcome::Tracking || attempt.outcome == Outcome::Unstable
                ==> next.phase == Phase::Tune
        }),
{
}

/// What becomes of a joint that was freed, or could be: a seek for a stop that was blocked
/// the way it went has found it; a position that was is in the way of a stop; and anything
/// else is tried again, unless a seek's time is up.
pub open spec fn freed_to(motion: Adaptive, attempt: Attempt) -> Phase {
    if attempt.direction == motion.direction && motion.request == (Request::Seek { hall: false }) {
        Phase::Done { attempt }
    } else if attempt.direction == motion.direction && motion.request is Position {
        Phase::GaveUp { reason: GivenUp::StopInTheWay }
    } else if motion.request is Seek && motion.spent >= motion.allowed {
        Phase::GaveUp { reason: GivenUp::ReferenceNotFound }
    } else {
        Phase::Move
    }
}

/// What backing off comes to. A joint that is blocked that way too is given up, the one
/// way if it had moved enough and the other if not; one that moved too little is tuned;
/// one that moved but not well is tuned on the way back; and one that moved well is free
/// if it got where it was to, and is returned there if not.
pub proof fn law_what_backing_off_comes_to(motion: Adaptive, backed: Backed, on_target: bool)
    requires
        motion.phase is Back,
    ensures
        ({
            let attempt = motion.phase->Back_attempt;
            let next = motion.stepped(Event::Backed { backed, on_target }).phase;
            let enough = backed.travel >= backed.minimum;
            &&& backed.outcome == Outcome::Blocked ==> next == (Phase::GaveUp {
                reason: if enough {
                    GivenUp::ReverseBlocked
                } else {
                    GivenUp::CannotMove
                },
            })
            &&& backed.outcome != Outcome::Blocked && !enough ==> next == Phase::Tune
            &&& backed.outcome != Outcome::Blocked && enough && !backed.acceptable ==> next == (
            Phase::TuneBack { attempt, completed: backed.outcome == Outcome::Complete })
            &&& backed.outcome != Outcome::Blocked && enough && backed.acceptable ==> next == (
            if backed.outcome == Outcome::Complete && on_target {
                freed_to(motion, attempt)
            } else {
                Phase::Return { attempt }
            })
        }),
{
}

/// What tuning and returning come to. After a return the joint is free. After tuning the
/// way back it is too, if it had completed and is where it was to be; else it is returned.
/// Tuning that was blocked is judged as an attempt of its own; otherwise the motion is
/// tried again; and either is given up once a seek's time is up.
pub proof fn law_what_tuning_and_returning_come_to(
    motion: Adaptive,
    blocked: Attempt,
    on_target: bool,
)
    ensures
        ({
            let expired = motion.request is Seek && motion.spent >= motion.allowed;
            let late = Phase::GaveUp { reason: GivenUp::ReferenceNotFound };
            let retried = (Adaptive { phase: Phase::Move, ..motion }).stepped(
                Event::Moved { attempt: blocked, ticks: 0 },
            ).phase;
            let hit = Event::Tuned { blocked: Some(blocked), on_target };
            let free = Event::Tuned { blocked: None, on_target };
            &&& motion.phase matches Phase::Return { attempt } ==> motion.stepped(
                Event::Returned,
            ).phase == freed_to(motion, attempt)
            &&& motion.phase is Tune || motion.phase is TuneBack ==> motion.stepped(hit).phase == (
            if expired {
                late
            } else {
                retried
            })
            &&& motion.phase is Tune ==> motion.stepped(free).phase == (if expired {
                late
            } else {
                Phase::Move
            })
            &&& motion.phase matches Phase::TuneBack { attempt, completed } ==> motion.stepped(
                free,
            ).phase == (if completed && on_target {
                freed_to(motion, attempt)
            } else {
                Phase::Return { attempt }
            })
        }),
{
}

/// Every reason a motion is given up for is told in words of its own.
pub proof fn law_every_reason_to_give_up_has_its_words(a: GivenUp, b: GivenUp)
    ensures
        a.words() == b.words() ==> a == b,
        a == GivenUp::ReferenceNotFound ==> a.words()
            == " home reference not found within configured seek time"@,
        a == GivenUp::NoHomeEvent ==> a.words()
            == " no home event arrived within configured seek time"@,
        a == GivenUp::CannotMove ==> a.words()
            == " cannot move either direction at the configured homing/operating currents"@,
        a == GivenUp::ReverseBlocked ==> a.words()
            == " reverse move blocked at its configured current"@,
        a == GivenUp::StopInTheWay ==> a.words()
            == " requested transfer encounters a stop; reverse motion works"@,
{
    reveal_strlit(" home reference not found within configured seek time");
    reveal_strlit(" no home event arrived within configured seek time");
    reveal_strlit(" cannot move either direction at the configured homing/operating currents");
    reveal_strlit(" reverse move blocked at its configured current");
    reveal_strlit(" requested transfer encounters a stop; reverse motion works");
    if a != b {
        assert(a.words().len() != b.words().len() || a.words()[1] != b.words()[1]);
    }
}

} // verus!
