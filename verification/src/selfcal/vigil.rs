//! A silence as a whole: what a run makes of a drive that goes quiet and returns,
//! from the last tick it answers to the first tick it answers again.
use crate::selfcal::drives::{
    fault_from, planned, refreshed, silent_from, watched, Drive, Recovery, RecoveryStep, TickPlan,
    MAX_RECOVERIES,
};
use vstd::prelude::*;

verus! {

/// A silence that a run tells.
pub struct Gap {
    /// The joint.
    pub joint: usize,
    /// Ticks it was waited for.
    pub silent: u64,
}

/// Where a run stands between two ticks.
pub struct Vigil {
    /// The last tick.
    pub tick: u64,
    /// What it showed of the drives.
    pub drives: Seq<Drive>,
    /// The wait that is on.
    pub wait: Option<Recovery>,
    /// Whether a wait has just ended, and the tick that it held up comes next.
    pub resuming: bool,
    /// Waits so far.
    pub recoveries: u32,
    /// Silences told so far.
    pub gaps: Seq<Gap>,
    /// Whether the run has ended.
    pub ended: bool,
}

impl Vigil {
    /// The run with a tick begun: where no wait is on the drives are judged, and
    /// a drive that has gone quiet is waited for.
    pub open spec fn begun(self, only: Option<usize>, timeout: u64, window: u64) -> Vigil {
        if self.ended || self.wait is Some || self.resuming {
            self
        } else {
            match planned(self.drives, only, self.tick, timeout, false, false, true, false) {
                TickPlan::Proceed => self,
                TickPlan::Recover { joint } => if self.recoveries < MAX_RECOVERIES && window > 0 {
                    Vigil {
                        wait: Some(
                            Recovery {
                                joint,
                                started: self.tick,
                                left: window,
                                blind_before: false,
                            },
                        ),
                        recoveries: (self.recoveries + 1) as u32,
                        ..self
                    }
                } else {
                    Vigil { ended: true, ..self }
                },
                _ => Vigil { ended: true, ..self },
            }
        }
    }

    /// The run after a tick that showed these position counts.
    pub open spec fn drained(self, counts: Seq<u64>, only: Option<usize>, timeout: u64) -> Vigil {
        let tick = (self.tick + 1) as u64;
        let drives = refreshed(self.drives, counts, tick);
        let next = Vigil { tick, drives, resuming: false, ..self };
        if self.ended {
            self
        } else {
            match self.wait {
                None => next,
                Some(wait) => match wait.step_after(drives, only, tick, timeout) {
                    RecoveryStep::Hold => Vigil {
                        wait: Some(Recovery { left: (wait.left - 1) as u64, ..wait }),
                        ..next
                    },
                    RecoveryStep::Answered { silent } => Vigil {
                        wait: None,
                        resuming: true,
                        gaps: self.gaps.push(Gap { joint: wait.joint, silent }),
                        ..next
                    },
                    _ => Vigil { ended: true, ..next },
                },
            }
        }
    }

    /// The run after `n` ticks that showed these counts.
    pub open spec fn after(
        self,
        n: nat,
        counts: spec_fn(int) -> Seq<u64>,
        only: Option<usize>,
        timeout: u64,
        window: u64,
    ) -> Vigil
        decreases n,
    {
        if n == 0 {
            self
        } else {
            self.after((n - 1) as nat, counts, only, timeout, window).begun(
                only,
                timeout,
                window,
            ).drained(counts(n as int), only, timeout)
        }
    }

    /// Whether every drive has just answered and reports nothing.
    pub open spec fn calm(self, counts: Seq<u64>) -> bool {
        &&& !self.ended && self.wait is None && !self.resuming
        &&& counts.len() == self.drives.len()
        &&& forall|k: int|
            0 <= k < self.drives.len() ==> {
                &&& (#[trigger] self.drives[k]).seen == self.tick
                &&& self.drives[k].generation == counts[k]
                &&& !self.drives[k].live_error_bit
                &&& !self.drives[k].faulted()
            }
    }
}

/// Whether the counts of every joint move with every tick, but for those of `m`,
/// which stand still for `length` ticks from the first on.
pub open spec fn mutes(
    counts: spec_fn(int) -> Seq<u64>,
    joints: nat,
    m: int,
    length: int,
) -> bool {
    forall|i: int, k: int|
        i >= 1 && 0 <= k < joints ==> {
            &&& counts(i).len() == joints
            &&& (#[trigger] counts(i)[k] == counts(i - 1)[k]) <==> (k == m && i <= length)
        }
}

/// What holds after `i` ticks of a silence of `length` ticks.
spec fn stands_at(
    start: Vigil,
    now: Vigil,
    counts: spec_fn(int) -> Seq<u64>,
    m: usize,
    length: int,
    i: int,
    timeout: u64,
    window: u64,
) -> bool {
    let told = length > timeout;
    &&& !now.ended
    &&& now.tick == start.tick + i
    &&& now.drives.len() == start.drives.len()
    &&& forall|k: int|
        0 <= k < now.drives.len() ==> {
            &&& (#[trigger] now.drives[k]).seen == start.tick + (if k == m && i <= length {
                0
            } else {
                i
            })
            &&& now.drives[k].generation == counts(i)[k]
            &&& !now.drives[k].live_error_bit
            &&& !now.drives[k].faulted()
        }
    &&& now.wait == (if told && timeout + 2 <= i <= length {
        Some(
            Recovery {
                joint: m,
                started: (start.tick + timeout + 1) as u64,
                left: (window - (i - timeout - 1)) as u64,
                blind_before: false,
            },
        )
    } else {
        None
    })
    &&& now.gaps == (if told && i > length {
        start.gaps.push(Gap { joint: m, silent: (length - timeout) as u64 })
    } else {
        start.gaps
    })
    &&& now.recoveries == start.recoveries + (if told && i >= timeout + 2 {
        1int
    } else {
        0
    })
}

/// No drive is judged where none is silent.
proof fn lemma_none_silent(drives: Seq<Drive>, only: Option<usize>, tick: u64, timeout: u64, j: int)
    requires
        0 <= j,
        forall|k: int| j <= k < drives.len() ==> !(#[trigger] drives[k]).silent(tick, timeout),
    ensures
        silent_from(drives, only, tick, timeout, j) is None,
    decreases drives.len() - j,
{
    if j < drives.len() {
        lemma_none_silent(drives, only, tick, timeout, j + 1);
    }
}

/// The one drive that is silent is the one that is judged.
proof fn lemma_one_silent(
    drives: Seq<Drive>,
    only: Option<usize>,
    tick: u64,
    timeout: u64,
    j: int,
    m: int,
)
    requires
        0 <= j <= m < drives.len(),
        watched(only, m),
        drives[m].silent(tick, timeout),
        forall|k: int| j <= k < m ==> !(#[trigger] drives[k]).silent(tick, timeout),
    ensures
        silent_from(drives, only, tick, timeout, j) == Some(m),
    decreases m - j,
{
    if j < m {
        lemma_one_silent(drives, only, tick, timeout, j + 1, m);
    }
}

/// No drive is at fault where none is.
proof fn lemma_none_faulted(drives: Seq<Drive>, only: Option<usize>, j: int)
    requires
        0 <= j,
        forall|k: int| j <= k < drives.len() ==> !(#[trigger] drives[k]).faulted(),
    ensures
        fault_from(drives, only, j) is None,
    decreases drives.len() - j,
{
    if j < drives.len() {
        lemma_none_faulted(drives, only, j + 1);
    }
}

/// One more tick of a silence.
proof fn lemma_next_tick(
    start: Vigil,
    now: Vigil,
    counts: spec_fn(int) -> Seq<u64>,
    only: Option<usize>,
    m: usize,
    length: int,
    i: int,
    timeout: u64,
    window: u64,
)
    requires
        0 <= i,
        m < start.drives.len() <= usize::MAX,
        watched(only, m as int),
        mutes(counts, start.drives.len(), m as int, length),
        length >= 0,
        start.tick + i + 1 <= u64::MAX,
        start.recoveries < MAX_RECOVERIES,
        length > timeout ==> length - timeout <= window,
        stands_at(start, now, counts, m, length, i, timeout, window),
        now.resuming ==> length > timeout && i == length + 1,
    ensures
        ({
            let next = now.begun(only, timeout, window).drained(counts(i + 1), only, timeout);
            &&& stands_at(start, next, counts, m, length, i + 1, timeout, window)
            &&& next.resuming ==> length > timeout && i + 1 == length + 1
        }),
{
    let told = length > timeout;
    let begun = now.begun(only, timeout, window);
    lemma_none_faulted(now.drives, only, 0);
    if now.wait is None && !now.resuming {
        if told && timeout + 1 <= i <= length {
            // Quiet for longer than the timeout: the wait begins.
            assert(i == timeout + 1);
            assert(now.drives[m as int].silent(now.tick, timeout));
            assert forall|k: int| 0 <= k < m implies !(#[trigger] now.drives[k]).silent(
                now.tick,
                timeout,
            ) by {}
            lemma_one_silent(now.drives, only, now.tick, timeout, 0, m as int);
        } else {
            assert forall|k: int| 0 <= k < now.drives.len() implies !(
            #[trigger] now.drives[k]).silent(now.tick, timeout) by {}
            lemma_none_silent(now.drives, only, now.tick, timeout, 0);
        }
    }
    let next = begun.drained(counts(i + 1), only, timeout);
    let drives = refreshed(begun.drives, counts(i + 1), (now.tick + 1) as u64);
    assert forall|k: int| 0 <= k < drives.len() implies {
        &&& (#[trigger] drives[k]).seen == start.tick + (if k == m && i + 1 <= length {
            0
        } else {
            i + 1
        })
        &&& drives[k].generation == counts(i + 1)[k]
        &&& !drives[k].live_error_bit
        &&& !drives[k].faulted()
    } by {
        assert((counts(i + 1)[k] == counts(i)[k]) <==> (k == m && i + 1 <= length));
        assert(now.drives[k].generation == counts(i)[k]);
    }
    if let Some(wait) = begun.wait {
        if i + 1 <= length {
            assert(drives[m as int].stale((now.tick + 1) as u64, timeout));
        } else {
            assert forall|k: int| 0 <= k < drives.len() && watched(only, k) implies !(
            #[trigger] drives[k]).stale((now.tick + 1) as u64, timeout) by {}
        }
    }
}

/// The run through the first `n` ticks of a silence.
proof fn lemma_through(
    start: Vigil,
    counts: spec_fn(int) -> Seq<u64>,
    only: Option<usize>,
    m: usize,
    length: int,
    n: nat,
    timeout: u64,
    window: u64,
)
    requires
        m < start.drives.len() <= usize::MAX,
        watched(only, m as int),
        start.calm(counts(0)),
        mutes(counts, start.drives.len(), m as int, length),
        length >= 0,
        start.tick + n <= u64::MAX,
        start.recoveries < MAX_RECOVERIES,
        length > timeout ==> length - timeout <= window,
    ensures
        ({
            let now = start.after(n, counts, only, timeout, window);
            &&& stands_at(start, now, counts, m, length, n as int, timeout, window)
            &&& now.resuming ==> length > timeout && n == length + 1
        }),
    decreases n,
{
    if n > 0 {
        lemma_through(start, counts, only, m, length, (n - 1) as nat, timeout, window);
        lemma_next_tick(
            start,
            start.after((n - 1) as nat, counts, only, timeout, window),
            counts,
            only,
            m,
            length,
            n - 1,
            timeout,
            window,
        );
    }
}

/// A drive that goes quiet and returns does not end the run. A silence that is
/// longer than the timeout, and after it no longer than the window, is told once,
/// as that joint's and as long as it was beyond the timeout; a shorter one is not
/// told at all. The run goes on as before.
pub proof fn law_a_whole_silence_is_told_once(
    start: Vigil,
    counts: spec_fn(int) -> Seq<u64>,
    only: Option<usize>,
    m: usize,
    length: int,
    n: nat,
    timeout: u64,
    window: u64,
)
    requires
        m < start.drives.len() <= usize::MAX,
        watched(only, m as int),
        start.calm(counts(0)),
        mutes(counts, start.drives.len(), m as int, length),
        0 <= length < n,
        start.tick + n <= u64::MAX,
        start.recoveries < MAX_RECOVERIES,
        length > timeout ==> length - timeout <= window,
    ensures
        ({
            let now = start.after(n, counts, only, timeout, window);
            &&& !now.ended
            &&& now.wait is None
            &&& now.gaps == (if length > timeout {
                start.gaps.push(Gap { joint: m, silent: (length - timeout) as u64 })
            } else {
                start.gaps
            })
        }),
{
    lemma_through(start, counts, only, m, length, n, timeout, window);
}

} // verus!
