//! Immediate command effects bridged onto the realtime core, and the requests
//! that housekeeping follows through until the core answers them.
use crate::housekeeping::{answers, asked, passed, verdict_in, Answer, Pace, Snapshot};
use crate::runtime::{Mode, Refusal, RefusalView};
use crate::stream::{
    latched, stream_answers, Effect, StreamCommand, Streaming, STANDOFF_TRAVEL_BUDGET,
};
use vstd::prelude::*;

verus! {

/// How long an enable is retried before the controller is reported disabled.
pub const ENABLE_RETRY_WINDOW: u64 = 5_000_000_000;

/// Spacing between enable retries, in ticks of the core. The core drains one
/// command per tick, and the retries must not fill its queue.
pub const ENABLE_RETRY_TICKS: u64 = 15;

/// How long a request to enter or leave flashing waits for the published mode.
pub const FLASHING_WINDOW: u64 = 2_000_000_000;

/// An enable request in flight, retried until the core answers it or the
/// window closes.
#[derive(Clone, Copy, Debug, PartialEq, Eq, Structural)]
pub struct EnableRequest {
    /// When to give up.
    pub deadline: u64,
    /// When the last enable went out.
    pub last_sent: Option<u64>,
    /// The core's count of processed enables just before that. The first
    /// snapshot past it has processed an enable of this request.
    pub sent_at_seq: Option<u64>,
}

/// A request to enter or leave flashing, in flight.
#[derive(Clone, Copy, Debug, PartialEq, Eq, Structural)]
pub struct FlashingRequest {
    /// The mode that is waited for.
    pub want: Mode,
    /// When to give up.
    pub deadline: u64,
}

/// What changing the bus backend takes.
#[derive(Clone, Copy, Debug, PartialEq, Eq, Structural)]
pub enum BusSwap {
    /// Nothing: the backend is the one asked for.
    Keep,
    /// A fresh simulator, seeded at the measured pose.
    ToSimulator,
    /// The hardware bus.
    ToHardware,
}

/// A resolved request, as what it says.
pub open spec fn outcome_view(outcome: Option<Result<(), Refusal>>) -> Option<
    Result<(), RefusalView>,
> {
    match outcome {
        None => None,
        Some(Ok(())) => Some(Ok(())),
        Some(Err(e)) => Some(Err(e@)),
    }
}

/// Whether a snapshot answers an enable request: the core has processed one
/// since this request's was sent.
pub open spec fn enable_answered<Q>(req: EnableRequest, snap: Snapshot<Q>) -> bool {
    req.sent_at_seq matches Some(s) && snap.enable_seq > s
}

/// Whether the next retry of an enable is due.
pub open spec fn retry_due(req: EnableRequest, now: u64, spacing: int) -> bool {
    match req.last_sent {
        None => true,
        Some(t) => (if now >= t {
            now - t
        } else {
            0
        }) >= spacing,
    }
}

/// What one pass makes of an enable request: the request afterwards, its
/// outcome if it has one now, and whether an enable is sent.
pub open spec fn enable_pass<Q>(
    req: EnableRequest,
    now: u64,
    snap: Snapshot<Q>,
    spacing: int,
) -> (Option<EnableRequest>, Option<Result<(), RefusalView>>, bool) {
    if enable_answered(req, snap) && snap.enabled {
        (None, Some(Ok(())), false)
    } else if now >= req.deadline {
        (None, Some(Err(RefusalView::ControllerDisabled)), false)
    } else if retry_due(req, now, spacing) {
        (
            Some(
                EnableRequest {
                    deadline: req.deadline,
                    last_sent: Some(now),
                    sent_at_seq: Some(snap.enable_seq),
                },
            ),
            None,
            true,
        )
    } else {
        (Some(req), None, false)
    }
}

/// Whether the published mode answers a flashing request. An exit lands
/// wherever the core settles, so any other mode is a successful exit.
pub open spec fn flashing_arrived(want: Mode, mode: Mode) -> bool {
    mode == want || (want == Mode::Idle && mode != Mode::Flashing)
}

/// What one pass makes of a flashing request: the request afterwards and its
/// outcome if it has one now.
pub open spec fn flashing_pass(req: FlashingRequest, now: u64, mode: Mode) -> (
    Option<FlashingRequest>,
    Option<Result<(), RefusalView>>,
) {
    if flashing_arrived(req.want, mode) {
        (None, Some(Ok(())))
    } else if now >= req.deadline {
        (None, Some(Err(RefusalView::ModeStayed { want: req.want, mode })))
    } else {
        (Some(req), None)
    }
}

/// The state that the command plane and housekeeping share.
#[derive(Debug)]
pub struct Bridge<Q, F, T> {
    /// The stream in progress and the standing collision verdict.
    pub streaming: Streaming<Q, F, T>,
    /// The enable request in flight.
    pub enable: Option<EnableRequest>,
    /// The outcome of an enable request, until it is collected.
    pub enable_outcome: Option<Result<(), Refusal>>,
    /// The flashing request in flight.
    pub flashing: Option<FlashingRequest>,
    /// The outcome of a flashing request, until it is collected.
    pub flashing_outcome: Option<Result<(), Refusal>>,
    /// Whether the simulator is the bus backend.
    pub sim: bool,
}

/// What a mode request and a release queue to stop whatever is streaming.
pub open spec fn stop_commands<Q, F>() -> Seq<Effect<Q, F>> {
    seq![Effect::JogRelease, Effect::SetMode(Mode::Idle)]
}

impl<Q: Copy, F: Copy, T: Copy> Bridge<Q, F, T> {
    /// Nothing in flight.
    pub fn new(sim: bool) -> (r: Self)
        ensures
            r.streaming.stream is None,
            !r.streaming.latch.active,
            r.streaming.latch.pairs@.len() == 0,
            r.enable is None,
            r.enable_outcome is None,
            r.flashing is None,
            r.flashing_outcome is None,
            r.sim == sim,
    {
        Bridge {
            streaming: Streaming::default(),
            enable: None,
            enable_outcome: None,
            flashing: None,
            flashing_outcome: None,
            sim,
        }
    }

    /// Everything but the streaming half is as it was.
    pub open spec fn requests_kept(self, before: Self) -> bool {
        &&& self.enable == before.enable
        &&& self.enable_outcome == before.enable_outcome
        &&& self.flashing == before.flashing
        &&& self.flashing_outcome == before.flashing_outcome
        &&& self.sim == before.sim
    }

    /// Take a streaming command: what it does to the stream, what it queues
    /// and what it answers is that of the command it is. A command that is not
    /// a streaming one does nothing.
    pub fn stream(
        &mut self,
        cmd: StreamCommand<Q, F, T>,
        now: u64,
        grace: u64,
        out: &mut Vec<Effect<Q, F>>,
    ) -> (r: Result<(), Refusal>)
        requires
            now + STANDOFF_TRAVEL_BUDGET <= u64::MAX,
            now + grace <= u64::MAX,
        ensures
            final(self).requests_kept(*old(self)),
            stream_answers(old(self).streaming, cmd, now, grace, old(out)@, final(self).streaming, final(out)@, r),
    {
        match cmd {
            StreamCommand::JogJ { jog, verdict } => self.streaming.jog_j(jog, verdict, out),
            StreamCommand::ServoJ { servo, gate } => self.streaming.servo_j(
                servo,
                gate,
                now,
                grace,
                out,
            ),
            StreamCommand::ServoPose { ik, speed, accel, gate } => self.streaming.servo_pose(
                ik,
                speed,
                accel,
                gate,
                now,
                grace,
                out,
            ),
            StreamCommand::JogL { jog, verdict } => self.streaming.jog_l(jog, verdict, out),
            StreamCommand::Other => Ok(()),
        }
    }

    /// Drop the stream and stop what it drives.
    pub fn cancel_stream(&mut self, out: &mut Vec<Effect<Q, F>>)
        ensures
            final(self).streaming.stream is None,
            final(self).streaming.latch == old(self).streaming.latch,
            final(self).requests_kept(*old(self)),
            final(out)@ == old(out)@ + stop_commands::<Q, F>(),
    {
        self.streaming.stream = None;
        out.push(Effect::JogRelease);
        out.push(Effect::SetMode(Mode::Idle));
        assert(out@ =~= old(out)@ + stop_commands::<Q, F>());
    }

    /// Stop the stream unless a refusal owns it, and say whether one does: to
    /// cancel a refusal on a late datagram would abandon the standoff.
    pub fn stop_refused_stream(&mut self, out: &mut Vec<Effect<Q, F>>) -> (owned: bool)
        ensures
            owned == old(self).streaming.standing(),
            owned ==> *final(self) == *old(self) && final(out)@ == old(out)@,
            !owned ==> {
                &&& final(self).streaming.stream is None
                &&& final(self).streaming.latch == old(self).streaming.latch
                &&& final(self).requests_kept(*old(self))
                &&& final(out)@ == old(out)@ + stop_commands::<Q, F>()
            },
    {
        if self.streaming.in_standoff() {
            return true;
        }
        self.cancel_stream(out);
        false
    }

    /// Drop the planned samples that are in the ring now and idle the core. The
    /// mark comes before the flush is queued, so that a move accepted behind
    /// this keeps its own samples.
    pub fn discard_exec(&self, out: &mut Vec<Effect<Q, F>>)
        ensures
            final(out)@ == old(out)@ + seq![
                Effect::<Q, F>::MarkFlush,
                Effect::ExecFlush,
                Effect::SetMode(Mode::Idle),
            ],
    {
        out.push(Effect::MarkFlush);
        out.push(Effect::ExecFlush);
        out.push(Effect::SetMode(Mode::Idle));
        assert(out@ =~= old(out)@ + seq![
            Effect::<Q, F>::MarkFlush,
            Effect::ExecFlush,
            Effect::SetMode(Mode::Idle),
        ]);
    }

    /// Stop everything: the stream, the jog and the planned samples.
    pub fn halt(&mut self, out: &mut Vec<Effect<Q, F>>)
        ensures
            final(self).streaming.stream is None,
            final(self).streaming.latch == old(self).streaming.latch,
            final(self).requests_kept(*old(self)),
            final(out)@ == old(out)@ + seq![
                Effect::<Q, F>::JogRelease,
                Effect::MarkFlush,
                Effect::ExecFlush,
                Effect::SetMode(Mode::Idle),
            ],
    {
        self.streaming.stream = None;
        out.push(Effect::JogRelease);
        out.push(Effect::MarkFlush);
        out.push(Effect::ExecFlush);
        out.push(Effect::SetMode(Mode::Idle));
        assert(out@ =~= old(out)@ + seq![
            Effect::<Q, F>::JogRelease,
            Effect::MarkFlush,
            Effect::ExecFlush,
            Effect::SetMode(Mode::Idle),
        ]);
    }

    /// Enable or e-stop the arm. An enable runs the clear sequence and is then
    /// retried; it gets its own answer, never one left by an earlier request.
    /// An e-stop answers the enable it overtakes.
    pub fn set_enabled(&mut self, enabled: bool, now: u64, out: &mut Vec<Effect<Q, F>>)
        requires
            now + ENABLE_RETRY_WINDOW <= u64::MAX,
        ensures
            final(self).streaming == old(self).streaming,
            final(self).flashing == old(self).flashing,
            final(self).flashing_outcome == old(self).flashing_outcome,
            final(self).sim == old(self).sim,
            enabled ==> {
                &&& final(self).enable == Some(
                    EnableRequest {
                        deadline: (now + ENABLE_RETRY_WINDOW) as u64,
                        last_sent: None,
                        sent_at_seq: None,
                    },
                )
                &&& final(self).enable_outcome is None
                &&& final(out)@ == old(out)@ + seq![
                    Effect::<Q, F>::SetSoftEstop(false),
                    Effect::ClearErrors,
                ]
            },
            !enabled ==> {
                &&& final(self).enable is None
                &&& old(self).enable is Some ==> outcome_view(final(self).enable_outcome) == Some(
                    Err::<(), RefusalView>(RefusalView::EstopActive),
                )
                &&& old(self).enable is None ==> final(self).enable_outcome == old(
                    self,
                ).enable_outcome
                &&& final(out)@ == old(out)@ + seq![Effect::<Q, F>::SetSoftEstop(true)]
            },
    {
        if enabled {
            out.push(Effect::SetSoftEstop(false));
            out.push(Effect::ClearErrors);
            self.enable_outcome = None;
            self.enable = Some(
                EnableRequest {
                    deadline: now + ENABLE_RETRY_WINDOW,
                    last_sent: None,
                    sent_at_seq: None,
                },
            );
            assert(out@ =~= old(out)@ + seq![
                Effect::<Q, F>::SetSoftEstop(false),
                Effect::ClearErrors,
            ]);
        } else {
            out.push(Effect::SetSoftEstop(true));
            if self.enable.take().is_some() {
                self.enable_outcome = Some(Err(Refusal::EstopActive));
            }
            assert(out@ =~= old(out)@ + seq![Effect::<Q, F>::SetSoftEstop(true)]);
        }
    }

    /// Collect the outcome of an enable request.
    pub fn take_enable_outcome(&mut self) -> (r: Option<Result<(), Refusal>>)
        ensures
            r == old(self).enable_outcome,
            final(self).enable_outcome is None,
            final(self).enable == old(self).enable,
            final(self).streaming == old(self).streaming,
            final(self).flashing == old(self).flashing,
            final(self).flashing_outcome == old(self).flashing_outcome,
            final(self).sim == old(self).sim,
    {
        self.enable_outcome.take()
    }

    /// Ask for flashing. The assertion that the arm is parked rides the same
    /// queue, directly before the mode change that consumes it.
    pub fn enter_flashing(&mut self, now: u64, out: &mut Vec<Effect<Q, F>>)
        requires
            now + FLASHING_WINDOW <= u64::MAX,
        ensures
            final(self).flashing == Some(
                FlashingRequest { want: Mode::Flashing, deadline: (now + FLASHING_WINDOW) as u64 },
            ),
            final(self).flashing_outcome is None,
            final(self).streaming == old(self).streaming,
            final(self).enable == old(self).enable,
            final(self).enable_outcome == old(self).enable_outcome,
            final(self).sim == old(self).sim,
            final(out)@ == old(out)@ + seq![
                Effect::<Q, F>::AssertParked,
                Effect::SetMode(Mode::Flashing),
            ],
    {
        out.push(Effect::AssertParked);
        out.push(Effect::SetMode(Mode::Flashing));
        self.flashing_outcome = None;
        self.flashing = Some(
            FlashingRequest { want: Mode::Flashing, deadline: now + FLASHING_WINDOW },
        );
        assert(out@ =~= old(out)@ + seq![
            Effect::<Q, F>::AssertParked,
            Effect::SetMode(Mode::Flashing),
        ]);
    }

    /// Ask to leave flashing.
    pub fn exit_flashing(&mut self, now: u64, out: &mut Vec<Effect<Q, F>>)
        requires
            now + FLASHING_WINDOW <= u64::MAX,
        ensures
            final(self).flashing == Some(
                FlashingRequest { want: Mode::Idle, deadline: (now + FLASHING_WINDOW) as u64 },
            ),
            final(self).flashing_outcome is None,
            final(self).streaming == old(self).streaming,
            final(self).enable == old(self).enable,
            final(self).enable_outcome == old(self).enable_outcome,
            final(self).sim == old(self).sim,
            final(out)@ == old(out)@ + seq![Effect::<Q, F>::SetMode(Mode::Idle)],
    {
        out.push(Effect::SetMode(Mode::Idle));
        self.flashing_outcome = None;
        self.flashing = Some(FlashingRequest { want: Mode::Idle, deadline: now + FLASHING_WINDOW });
        assert(out@ =~= old(out)@ + seq![Effect::<Q, F>::SetMode(Mode::Idle)]);
    }

    /// Collect the outcome of a flashing request.
    pub fn take_flashing_outcome(&mut self) -> (r: Option<Result<(), Refusal>>)
        ensures
            r == old(self).flashing_outcome,
            final(self).flashing_outcome is None,
            final(self).flashing == old(self).flashing,
            final(self).streaming == old(self).streaming,
            final(self).enable == old(self).enable,
            final(self).enable_outcome == old(self).enable_outcome,
            final(self).sim == old(self).sim,
    {
        self.flashing_outcome.take()
    }

    /// Clear latched errors. The software e-stop is left as it is, so one that
    /// is engaged latches again.
    pub fn reset_state(&self, out: &mut Vec<Effect<Q, F>>)
        ensures
            final(out)@ == old(out)@ + seq![Effect::<Q, F>::ClearErrors],
    {
        out.push(Effect::ClearErrors);
        assert(out@ =~= old(out)@ + seq![Effect::<Q, F>::ClearErrors]);
    }

    /// What it takes to run on the simulator, or off it.
    pub fn set_simulator(&self, on: bool) -> (r: BusSwap)
        ensures
            r == (if on == self.sim {
                BusSwap::Keep
            } else if on {
                BusSwap::ToSimulator
            } else {
                BusSwap::ToHardware
            }),
    {
        if on == self.sim {
            BusSwap::Keep
        } else if on {
            BusSwap::ToSimulator
        } else {
            BusSwap::ToHardware
        }
    }

    /// Record a swap: one to the simulator always takes, one to hardware takes
    /// only if the interface opened.
    pub fn swapped(&mut self, swap: BusSwap, interface: &str, opened: Result<(), String>) -> (r:
        Result<(), Refusal>)
        ensures
            final(self).streaming == old(self).streaming,
            final(self).enable == old(self).enable,
            final(self).enable_outcome == old(self).enable_outcome,
            final(self).flashing == old(self).flashing,
            final(self).flashing_outcome == old(self).flashing_outcome,
            (swap == BusSwap::ToHardware && opened is Err) ==> {
                &&& final(self).sim == old(self).sim
                &&& r matches Err(e) && e@ == (RefusalView::BusRefused {
                    interface: interface@,
                    cause: opened->Err_0@,
                })
            },
            !(swap == BusSwap::ToHardware && opened is Err) ==> {
                &&& r is Ok
                &&& final(self).sim == (match swap {
                    BusSwap::Keep => old(self).sim,
                    BusSwap::ToSimulator => true,
                    BusSwap::ToHardware => false,
                })
            },
    {
        match swap {
            BusSwap::Keep => Ok(()),
            BusSwap::ToSimulator => {
                self.sim = true;
                Ok(())
            },
            BusSwap::ToHardware => match opened {
                Ok(()) => {
                    self.sim = false;
                    Ok(())
                },
                Err(cause) => Err(
                    Refusal::BusRefused { interface: interface.to_owned(), cause },
                ),
            },
        }
    }

    /// Follow the enable request through.
    fn resolve_enable(
        &mut self,
        now: u64,
        snap: &Snapshot<Q>,
        tick: u64,
        out: &mut Vec<Effect<Q, F>>,
    )
        requires
            tick * ENABLE_RETRY_TICKS <= u64::MAX,
        ensures
            final(self).streaming == old(self).streaming,
            final(self).flashing == old(self).flashing,
            final(self).flashing_outcome == old(self).flashing_outcome,
            final(self).sim == old(self).sim,
            enable_follows(
                old(self).enable,
                old(self).enable_outcome,
                now,
                *snap,
                tick,
                final(self).enable,
                final(self).enable_outcome,
            ),
            final(out)@ == old(out)@ + enable_effects::<Q, F>(old(self).enable, now, *snap, tick),
    {
        let ghost queued = out@;
        let req = match self.enable {
            None => {
                assert(out@ =~= queued + Seq::<Effect<Q, F>>::empty());
                return;
            },
            Some(req) => req,
        };
        let answered = match req.sent_at_seq {
            Some(s) => snap.enable_seq > s,
            None => false,
        };
        let due = match req.last_sent {
            Some(t) => now.saturating_sub(t) >= tick * ENABLE_RETRY_TICKS,
            None => true,
        };
        if answered && snap.enabled {
            self.enable = None;
            self.enable_outcome = Some(Ok(()));
        } else if now >= req.deadline {
            self.enable = None;
            self.enable_outcome = Some(Err(Refusal::ControllerDisabled));
        } else if due {
            self.enable = Some(
                EnableRequest {
                    deadline: req.deadline,
                    last_sent: Some(now),
                    sent_at_seq: Some(snap.enable_seq),
                },
            );
            out.push(Effect::Enable);
        }
        assert(out@ =~= queued + enable_effects::<Q, F>(Some(req), now, *snap, tick));
    }

    /// Follow the flashing request through.
    fn resolve_flashing(&mut self, now: u64, mode: Mode)
        ensures
            final(self).streaming == old(self).streaming,
            final(self).enable == old(self).enable,
            final(self).enable_outcome == old(self).enable_outcome,
            final(self).sim == old(self).sim,
            flashing_follows(
                old(self).flashing,
                old(self).flashing_outcome,
                now,
                mode,
                final(self).flashing,
                final(self).flashing_outcome,
            ),
    {
        let req = match self.flashing {
            None => {
                return;
            },
            Some(req) => req,
        };
        if mode == req.want || (req.want == Mode::Idle && mode != Mode::Flashing) {
            self.flashing = None;
            self.flashing_outcome = Some(Ok(()));
        } else if now >= req.deadline {
            self.flashing = None;
            self.flashing_outcome = Some(Err(Refusal::ModeStayed { want: req.want, mode }));
        }
    }

    /// One housekeeping pass: the stream first, then the requests in flight.
    /// Where the stream's part asks to go round again at once, the requests
    /// wait for the next pass.
    pub fn housekeep(
        &mut self,
        now: u64,
        snap: &Snapshot<Q>,
        epoch: u64,
        answer: Answer<Q>,
        pace: &Pace<F>,
        tick: u64,
        out: &mut Vec<Effect<Q, F>>,
    ) -> (again: bool)
        requires
            answers(asked(old(self).streaming.stream, now, *snap, epoch), answer),
            now + STANDOFF_TRAVEL_BUDGET <= u64::MAX,
            now + pace.servo_grace <= u64::MAX,
            now + pace.jog_ramp_cap <= u64::MAX,
            tick * ENABLE_RETRY_TICKS <= u64::MAX,
        ensures
            ({
                let after = passed(old(self).streaming.stream, now, *snap, epoch, answer, *pace);
                &&& final(self).streaming.stream == after.stream
                &&& latched(
                    old(self).streaming.latch,
                    verdict_in(answer),
                    final(self).streaming.latch,
                )
                &&& final(self).sim == old(self).sim
                &&& again == after.again
                &&& again ==> {
                    &&& final(self).requests_kept(*old(self))
                    &&& final(out)@ == old(out)@ + after.effects
                }
                &&& !again ==> {
                    &&& enable_follows(
                        old(self).enable,
                        old(self).enable_outcome,
                        now,
                        *snap,
                        tick,
                        final(self).enable,
                        final(self).enable_outcome,
                    )
                    &&& flashing_follows(
                        old(self).flashing,
                        old(self).flashing_outcome,
                        now,
                        snap.mode,
                        final(self).flashing,
                        final(self).flashing_outcome,
                    )
                    &&& final(out)@ == old(out)@ + after.effects + enable_effects::<Q, F>(
                        old(self).enable,
                        now,
                        *snap,
                        tick,
                    )
                }
            }),
    {
        if self.streaming.pass(now, snap, epoch, answer, pace, out) {
            return true;
        }
        self.resolve_enable(now, snap, tick, out);
        self.resolve_flashing(now, snap.mode);
        false
    }
}

/// What one pass does to the enable request and its outcome.
pub open spec fn enable_follows<Q>(
    before: Option<EnableRequest>,
    outcome: Option<Result<(), Refusal>>,
    now: u64,
    snap: Snapshot<Q>,
    tick: u64,
    after: Option<EnableRequest>,
    outcome_after: Option<Result<(), Refusal>>,
) -> bool {
    match before {
        None => after is None && outcome_after == outcome,
        Some(req) => {
            let next = enable_pass(req, now, snap, tick * ENABLE_RETRY_TICKS);
            &&& after == next.0
            &&& next.1 is Some ==> outcome_view(outcome_after) == next.1
            &&& next.1 is None ==> outcome_after == outcome
        },
    }
}

/// What one pass queues for the enable request.
pub open spec fn enable_effects<Q, F>(
    before: Option<EnableRequest>,
    now: u64,
    snap: Snapshot<Q>,
    tick: u64,
) -> Seq<Effect<Q, F>> {
    match before {
        Some(req) => if enable_pass(req, now, snap, tick * ENABLE_RETRY_TICKS).2 {
            seq![Effect::Enable]
        } else {
            Seq::empty()
        },
        None => Seq::empty(),
    }
}

/// What one pass does to the flashing request and its outcome.
pub open spec fn flashing_follows(
    before: Option<FlashingRequest>,
    outcome: Option<Result<(), Refusal>>,
    now: u64,
    mode: Mode,
    after: Option<FlashingRequest>,
    outcome_after: Option<Result<(), Refusal>>,
) -> bool {
    match before {
        None => after is None && outcome_after == outcome,
        Some(req) => {
            let next = flashing_pass(req, now, mode);
            &&& after == next.0
            &&& next.1 is Some ==> outcome_view(outcome_after) == next.1
            &&& next.1 is None ==> outcome_after == outcome
        },
    }
}

/// An enable succeeds only on an answer of its own: the core has processed an
/// enable since this request sent one, and reports the arm enabled in the very
/// snapshot that says so.
pub proof fn law_an_enable_is_never_answered_by_a_stale_reading<Q>(
    req: EnableRequest,
    now: u64,
    snap: Snapshot<Q>,
    spacing: int,
)
    requires
        enable_pass(req, now, snap, spacing).1 == Some(Ok::<(), RefusalView>(())),
    ensures
        snap.enabled,
        req.sent_at_seq matches Some(s) && snap.enable_seq > s,
{
}

/// Every enable request is answered once its window has closed, and every
/// flashing request too.
pub proof fn law_requests_are_answered_in_time<Q>(
    enable: EnableRequest,
    flashing: FlashingRequest,
    now: u64,
    snap: Snapshot<Q>,
    spacing: int,
)
    ensures
        now >= enable.deadline ==> {
            &&& enable_pass(enable, now, snap, spacing).0 is None
            &&& enable_pass(enable, now, snap, spacing).1 is Some
        },
        now >= flashing.deadline ==> {
            &&& flashing_pass(flashing, now, snap.mode).0 is None
            &&& flashing_pass(flashing, now, snap.mode).1 is Some
        },
        enable_pass(enable, now, snap, spacing).0 is None <==> enable_pass(
            enable,
            now,
            snap,
            spacing,
        ).1 is Some,
        flashing_pass(flashing, now, snap.mode).0 is None <==> flashing_pass(
            flashing,
            now,
            snap.mode,
        ).1 is Some,
{
}

/// Two enables of one request are at least the spacing apart, so the retries
/// cannot fill a queue that is drained once per tick.
pub proof fn law_retries_are_spaced<Q>(
    req: EnableRequest,
    first: u64,
    then: u64,
    snap: Snapshot<Q>,
    again: Snapshot<Q>,
    spacing: int,
)
    requires
        spacing > 0,
        enable_pass(req, first, snap, spacing).2,
        enable_pass(enable_pass(req, first, snap, spacing).0->0, then, again, spacing).2,
    ensures
        then >= first + spacing,
{
}

/// A flashing exit succeeds wherever the core settles outside flashing, and an
/// enter succeeds in flashing alone.
pub proof fn law_flashing_is_entered_exactly_and_left_anywhere(mode: Mode)
    ensures
        flashing_arrived(Mode::Flashing, mode) <==> mode == Mode::Flashing,
        flashing_arrived(Mode::Idle, mode) <==> mode != Mode::Flashing,
{
}

/// A pass follows an enable request through. It is answered with success exactly on a
/// snapshot that reports the arm enabled and has processed more enables than when this
/// request last sent one; failing that it is answered as disabled once its window has
/// closed; failing that another enable is queued if none was sent yet or the last was
/// sent at least fifteen ticks ago, and it is remembered when and at which count. An
/// answer is left for the client; until there is one, what was left stays.
pub proof fn law_an_enable_is_followed_through<Q, F>(
    req: EnableRequest,
    outcome: Option<Result<(), Refusal>>,
    now: u64,
    snap: Snapshot<Q>,
    tick: u64,
    after: Option<EnableRequest>,
    outcome_after: Option<Result<(), Refusal>>,
)
    requires
        enable_follows(Some(req), outcome, now, snap, tick, after, outcome_after),
    ensures
        ({
            let answered = snap.enabled && (req.sent_at_seq matches Some(s) && s < snap.enable_seq);
            let due = match req.last_sent {
                Some(t) => (now >= t && now - t >= 15 * tick) || 15 * tick <= 0,
                None => true,
            };
            let queue = enable_effects::<Q, F>(Some(req), now, snap, tick);
            &&& answered ==> after is None && (outcome_after matches Some(o) && o is Ok)
                && queue.len() == 0
            &&& !answered && now >= req.deadline ==> after is None && queue.len() == 0 && (
            outcome_after matches Some(Err(e)) && e@ == RefusalView::ControllerDisabled)
            &&& !answered && now < req.deadline ==> outcome_after == outcome
            &&& !answered && now < req.deadline && due ==> {
                &&& queue == seq![Effect::<Q, F>::Enable]
                &&& after == Some(
                    EnableRequest {
                        deadline: req.deadline,
                        last_sent: Some(now),
                        sent_at_seq: Some(snap.enable_seq),
                    },
                )
            }
            &&& !answered && now < req.deadline && !due ==> queue.len() == 0 && after == Some(req)
        }),
{
}

/// A pass follows a request to enter or leave flashing through. Entering is answered
/// with success in flashing alone, leaving in any other mode; failing that the request is
/// answered with the mode that stayed once its window has closed, and waits until then.
pub proof fn law_a_flashing_request_is_followed_through(
    req: FlashingRequest,
    outcome: Option<Result<(), Refusal>>,
    now: u64,
    mode: Mode,
    after: Option<FlashingRequest>,
    outcome_after: Option<Result<(), Refusal>>,
)
    requires
        flashing_follows(Some(req), outcome, now, mode, after, outcome_after),
        req.want == Mode::Flashing || req.want == Mode::Idle,
    ensures
        ({
            let there = (req.want == Mode::Flashing) == (mode == Mode::Flashing);
            &&& there ==> after is None && (outcome_after matches Some(o) && o is Ok)
            &&& !there && now >= req.deadline ==> after is None && (outcome_after matches Some(Err(e))
                && e@ == (RefusalView::ModeStayed { want: req.want, mode }))
            &&& !there && now < req.deadline ==> after == Some(req) && outcome_after == outcome
        }),
{
}

/// Where nothing was asked, nothing is answered and nothing is queued.
pub proof fn law_no_request_is_answered_unasked<Q, F>(
    outcome: Option<Result<(), Refusal>>,
    now: u64,
    snap: Snapshot<Q>,
    tick: u64,
    enable: Option<EnableRequest>,
    enabled: Option<Result<(), Refusal>>,
    flashing: Option<FlashingRequest>,
    flashed: Option<Result<(), Refusal>>,
)
    ensures
        enable_follows(None, outcome, now, snap, tick, enable, enabled) ==> enable is None
            && enabled == outcome,
        flashing_follows(None, outcome, now, snap.mode, flashing, flashed) ==> flashing is None
            && flashed == outcome,
        enable_effects::<Q, F>(None, now, snap, tick).len() == 0,
{
}

/// Stopping a stream releases the jog and idles the core, in that order.
pub proof fn law_a_stop_releases_and_idles<Q, F>()
    ensures
        stop_commands::<Q, F>() == seq![
            Effect::<Q, F>::JogRelease,
            Effect::SetMode(Mode::Idle),
        ],
{
}

/// What touches the stream alone leaves the requests alone: whatever keeps them keeps the
/// one to enable and the one to flash, what each came to, and which bus it is.
pub proof fn law_streaming_leaves_the_requests_alone<Q: Copy, F: Copy, T: Copy>(
    before: Bridge<Q, F, T>,
    after: Bridge<Q, F, T>,
)
    requires
        after.requests_kept(before),
    ensures
        after == (Bridge { streaming: after.streaming, ..before }),
{
}

/// An outcome is told as it is: none where nothing is resolved, success as success, and a
/// refusal as what it says.
pub proof fn law_an_outcome_is_told_as_it_is(outcome: Option<Result<(), Refusal>>)
    ensures
        outcome_view(outcome) is None <==> outcome is None,
        (outcome is Some && outcome->0 is Ok) <==> (outcome_view(outcome) is Some && outcome_view(
            outcome,
        )->0 is Ok),
        outcome is Some && outcome->0 is Err ==> outcome_view(outcome)->0->Err_0
            == outcome->0->Err_0@,
{
}

} // verus!
