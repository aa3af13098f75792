//! The diagnostic capture: a header, then one record of fixed length for each
//! sample, up to a budget.
//!
//! Floating-point quantities are their bits.
use crate::bytes::{law_bytes_read_back, le_bytes, le_value, lemma_le_bytes_len, push_all, push_le};
use vstd::arithmetic::power::pow;
use vstd::prelude::*;

verus! {

/// Samples a capture holds unless it is told otherwise.
pub const DEFAULT_MAX_SAMPLES: u64 = 900_000;

/// Samples between flushes.
pub const FLUSH_EVERY: u64 = 25;

/// The length of the header.
pub const HEADER_LEN: usize = 96;

/// The length of a record.
pub const RECORD_LEN: usize = 552;

/// The length of a configuration's fingerprint.
pub const FINGERPRINT_LEN: usize = 64;

/// The bytes a capture begins with.
pub open spec fn magic() -> Seq<u8> {
    seq![0x50, 0x41, 0x52, 0x36, 0x43, 0x41, 0x50, 0x32]
}

/// The header: the format, the tick's length, the fingerprint, the process and
/// when it started.
pub open spec fn header_of(dt: u64, fingerprint: Seq<u8>, pid: u64, started: u64) -> Seq<u8> {
    magic() + le_bytes(dt as nat, 8) + fingerprint + le_bytes(pid as nat, 8) + le_bytes(
        started as nat,
        8,
    )
}

/// The header of a capture.
pub fn header(dt: u64, fingerprint: &[u8], pid: u64, started: u64) -> (r: Vec<u8>)
    requires
        fingerprint@.len() == FINGERPRINT_LEN,
    ensures
        r@ == header_of(dt, fingerprint@, pid, started),
        r@.len() == HEADER_LEN,
{
    let mut out: Vec<u8> = vec![0x50, 0x41, 0x52, 0x36, 0x43, 0x41, 0x50, 0x32];
    assert(out@ =~= magic());
    push_le(&mut out, dt, 8);
    push_all(&mut out, fingerprint);
    push_le(&mut out, pid, 8);
    push_le(&mut out, started, 8);
    proof {
        lemma_le_bytes_len(dt as nat, 8);
        lemma_le_bytes_len(pid as nat, 8);
        lemma_le_bytes_len(started as nat, 8);
    }
    out
}

/// A quantity of each of the six joints.
#[derive(Clone, Copy, Debug)]
pub struct Row {
    /// The quantities.
    pub values: [u64; 6],
}

impl Row {
    /// The row's bytes.
    #[verifier::opaque]
    pub open spec fn bytes(self) -> Seq<u8> {
        le_bytes(self.values[0] as nat, 8) + le_bytes(self.values[1] as nat, 8) + le_bytes(
            self.values[2] as nat,
            8,
        ) + le_bytes(self.values[3] as nat, 8) + le_bytes(self.values[4] as nat, 8) + le_bytes(
            self.values[5] as nat,
            8,
        )
    }

    /// How many bytes there are.
    proof fn lemma_len(self)
        ensures
            self.bytes().len() == 48,
    {
        reveal(Row::bytes);
        lemma_le_bytes_len(self.values[0] as nat, 8);
        lemma_le_bytes_len(self.values[1] as nat, 8);
        lemma_le_bytes_len(self.values[2] as nat, 8);
        lemma_le_bytes_len(self.values[3] as nat, 8);
        lemma_le_bytes_len(self.values[4] as nat, 8);
        lemma_le_bytes_len(self.values[5] as nat, 8);
    }

    fn push_to(&self, out: &mut Vec<u8>)
        ensures
            final(out)@ == old(out)@ + self.bytes(),
    {
        reveal(Row::bytes);
        let ghost before = out@;
        push_le(out, self.values[0], 8);
        push_le(out, self.values[1], 8);
        push_le(out, self.values[2], 8);
        push_le(out, self.values[3], 8);
        push_le(out, self.values[4], 8);
        push_le(out, self.values[5], 8);
        assert(out@ =~= before + self.bytes());
    }
}

/// A sample of the arm.
#[derive(Clone, Copy, Debug)]
pub struct CaptureSample {
    /// The tick.
    pub tick: u64,
    /// Nanoseconds the tick took.
    pub elapsed_ns: u64,
    /// Whether an error is active.
    pub error_active: bool,
    /// Whether the arm is homed.
    pub homed: bool,
    /// Whether the arm is enabled.
    pub enabled: bool,
    /// Whether each drive's feedback is fresh.
    pub fresh: [bool; 6],
    /// Whether gravity is compensated.
    pub gravity_comp: bool,
    /// The mode's number.
    pub mode: u8,
    /// Positions.
    pub q: Row,
    /// Velocities.
    pub qd: Row,
    /// Torques.
    pub tau: Row,
    /// Commanded positions.
    pub q_commanded: Row,
    /// Commanded velocities.
    pub qd_commanded: Row,
    /// Commanded torques.
    pub tau_commanded: Row,
    /// Target positions.
    pub q_target: Row,
    /// Gravity torques.
    pub gravity_torque: Row,
    /// Measured currents.
    pub current: Row,
    /// Torque constants.
    pub torque_constant: Row,
    /// Effective current limits.
    pub current_limit: Row,
}

/// One, or nothing.
pub open spec fn bit(set: bool) -> nat {
    if set {
        1
    } else {
        0
    }
}

impl CaptureSample {
    /// Whether any drive's feedback is not fresh.
    pub open spec fn stale(self) -> bool {
        !(self.fresh[0] && self.fresh[1] && self.fresh[2] && self.fresh[3] && self.fresh[4]
            && self.fresh[5])
    }

    /// The flags: error, homed, enabled, stale and gravity compensation in the
    /// lowest bits, the mode's number in the second byte.
    pub open spec fn flags(self) -> nat {
        bit(self.error_active) + 2 * bit(self.homed) + 4 * bit(self.enabled) + 8 * bit(self.stale())
            + 16 * bit(self.gravity_comp) + 256 * (self.mode as nat)
    }

    /// What a record begins with: the tick, its duration and the flags.
    pub open spec fn head(self) -> Seq<u8> {
        le_bytes(self.tick as nat, 8) + le_bytes(self.elapsed_ns as nat, 8) + le_bytes(
            self.flags(),
            8,
        )
    }

    /// The quantities of a record, row by row.
    pub open spec fn rows(self) -> Seq<u8> {
        self.q.bytes() + self.qd.bytes() + self.tau.bytes() + self.q_commanded.bytes()
            + self.qd_commanded.bytes() + self.tau_commanded.bytes() + self.q_target.bytes()
            + self.gravity_torque.bytes() + self.current.bytes() + self.torque_constant.bytes()
            + self.current_limit.bytes()
    }

    /// The record.
    pub open spec fn record(self) -> Seq<u8> {
        self.head() + self.rows()
    }

    /// How long the parts of a record are.
    proof fn lemma_len(self)
        ensures
            self.head().len() == 24,
            self.rows().len() == RECORD_LEN - 24,
    {
        lemma_le_bytes_len(self.tick as nat, 8);
        lemma_le_bytes_len(self.elapsed_ns as nat, 8);
        lemma_le_bytes_len(self.flags(), 8);
        self.q.lemma_len();
        self.qd.lemma_len();
        self.tau.lemma_len();
        self.q_commanded.lemma_len();
        self.qd_commanded.lemma_len();
        self.tau_commanded.lemma_len();
        self.q_target.lemma_len();
        self.gravity_torque.lemma_len();
        self.current.lemma_len();
        self.torque_constant.lemma_len();
        self.current_limit.lemma_len();
    }

    /// The flags.
    fn flag_word(&self) -> (r: u64)
        ensures
            r == self.flags(),
    {
        let stale = !(self.fresh[0] && self.fresh[1] && self.fresh[2] && self.fresh[3]
            && self.fresh[4] && self.fresh[5]);
        let mut flags: u64 = 256 * (self.mode as u64);
        if self.error_active {
            flags += 1;
        }
        if self.homed {
            flags += 2;
        }
        if self.enabled {
            flags += 4;
        }
        if stale {
            flags += 8;
        }
        if self.gravity_comp {
            flags += 16;
        }
        flags
    }

    /// The quantities of the record.
    fn row_bytes(&self) -> (r: Vec<u8>)
        ensures
            r@ == self.rows(),
    {
        let mut out: Vec<u8> = Vec::new();
        self.q.push_to(&mut out);
        assert(out@ =~= self.q.bytes());
        self.qd.push_to(&mut out);
        self.tau.push_to(&mut out);
        self.q_commanded.push_to(&mut out);
        self.qd_commanded.push_to(&mut out);
        self.tau_commanded.push_to(&mut out);
        self.q_target.push_to(&mut out);
        self.gravity_torque.push_to(&mut out);
        self.current.push_to(&mut out);
        self.torque_constant.push_to(&mut out);
        self.current_limit.push_to(&mut out);
        out
    }

    /// The record of the sample.
    pub fn write_sample(&self) -> (r: Vec<u8>)
        ensures
            r@ == self.record(),
            r@.len() == RECORD_LEN,
    {
        let mut out: Vec<u8> = Vec::new();
        push_le(&mut out, self.tick, 8);
        assert(out@ =~= le_bytes(self.tick as nat, 8));
        push_le(&mut out, self.elapsed_ns, 8);
        push_le(&mut out, self.flag_word(), 8);
        let rows = self.row_bytes();
        push_all(&mut out, rows.as_slice());
        proof {
            self.lemma_len();
        }
        out
    }
}

/// What follows a record.
#[derive(Clone, Copy, Debug, PartialEq, Eq, Structural)]
pub struct AfterRecord {
    /// Flush what was written.
    pub flush: bool,
    /// The capture is full.
    pub full: bool,
}

/// What the writer does next.
#[derive(Clone, Copy, Debug, PartialEq, Eq, Structural)]
pub enum WriterStep {
    /// Write the sample at hand.
    Write,
    /// End: nothing is at hand and the runtime stops.
    End,
    /// Wait a millisecond.
    Wait,
}

/// What the writer does next: what is at hand is written before a stop is
/// heeded.
pub fn writer_step(sample: bool, shutdown: bool) -> (r: WriterStep)
    ensures
        r == (if sample {
            WriterStep::Write
        } else if shutdown {
            WriterStep::End
        } else {
            WriterStep::Wait
        }),
{
    if sample {
        WriterStep::Write
    } else if shutdown {
        WriterStep::End
    } else {
        WriterStep::Wait
    }
}

/// A capture's budget.
#[derive(Clone, Copy, Debug, PartialEq, Eq, Structural)]
pub struct Capture {
    /// Records written.
    pub count: u64,
    /// Records it may hold.
    pub max_samples: u64,
}

impl Capture {
    /// Whether there is room.
    pub open spec fn has_room(self) -> bool {
        self.count < self.max_samples
    }

    /// The capture's length so far.
    pub open spec fn length(self) -> int {
        HEADER_LEN + self.count * RECORD_LEN
    }

    /// Begin, with room for at least one record.
    pub fn new(max_samples: u64) -> (r: Capture)
        requires
            max_samples > 0,
        ensures
            r == (Capture { count: 0, max_samples }),
            r.has_room(),
    {
        Capture { count: 0, max_samples }
    }

    /// A record was written.
    pub fn wrote(&mut self) -> (r: AfterRecord)
        requires
            old(self).has_room(),
        ensures
            *final(self) == (Capture { count: (old(self).count + 1) as u64, ..*old(self) }),
            r.flush == (final(self).count % FLUSH_EVERY == 0),
            r.full == !final(self).has_room(),
    {
        self.count = self.count + 1;
        AfterRecord { flush: self.count % FLUSH_EVERY == 0, full: self.count >= self.max_samples }
    }
}

/// A record gives back its tick, its duration and its flags.
pub proof fn law_a_record_reads_back(sample: CaptureSample)
    ensures
        sample.record().len() == RECORD_LEN,
        le_value(sample.record().subrange(0, 8)) == sample.tick,
        le_value(sample.record().subrange(8, 16)) == sample.elapsed_ns,
        le_value(sample.record().subrange(16, 24)) == sample.flags(),
{
    sample.lemma_len();
    lemma_le_bytes_len(sample.tick as nat, 8);
    lemma_le_bytes_len(sample.elapsed_ns as nat, 8);
    lemma_le_bytes_len(sample.flags(), 8);
    assert(pow(256, 8) == 0x1_0000_0000_0000_0000) by {
        reveal(pow);
        assert(pow(256, 1) == 256 * pow(256, 0));
        assert(pow(256, 2) == 256 * pow(256, 1));
        assert(pow(256, 3) == 256 * pow(256, 2));
        assert(pow(256, 4) == 256 * pow(256, 3));
        assert(pow(256, 5) == 256 * pow(256, 4));
        assert(pow(256, 6) == 256 * pow(256, 5));
        assert(pow(256, 7) == 256 * pow(256, 6));
        assert(pow(256, 8) == 256 * pow(256, 7));
    }
    law_bytes_read_back(sample.tick as nat, 8);
    law_bytes_read_back(sample.elapsed_ns as nat, 8);
    law_bytes_read_back(sample.flags(), 8);
    let r = sample.record();
    let head = sample.head();
    assert(r.subrange(0, 8) =~= head.subrange(0, 8));
    assert(r.subrange(8, 16) =~= head.subrange(8, 16));
    assert(r.subrange(16, 24) =~= head.subrange(16, 24));
    assert(r.subrange(0, 8) =~= le_bytes(sample.tick as nat, 8));
    assert(r.subrange(8, 16) =~= le_bytes(sample.elapsed_ns as nat, 8));
    assert(r.subrange(16, 24) =~= le_bytes(sample.flags(), 8));
}

/// A capture never outgrows its budget, and its length is that of its header
/// and its records.
pub proof fn law_a_capture_stays_within_its_budget(capture: Capture)
    requires
        capture.has_room(),
    ensures
        (Capture { count: (capture.count + 1) as u64, ..capture }).length() == capture.length()
            + RECORD_LEN,
        (Capture { count: (capture.count + 1) as u64, ..capture }).length() <= HEADER_LEN
            + capture.max_samples * RECORD_LEN,
{
}

/// The flags of a record say each thing in a place of its own, and the mode behind them.
/// A record is stale unless every joint is fresh.
pub proof fn law_the_flags_read_back(sample: CaptureSample)
    ensures
        sample.flags() % 2 == 1 <==> sample.error_active,
        (sample.flags() / 2) % 2 == 1 <==> sample.homed,
        (sample.flags() / 4) % 2 == 1 <==> sample.enabled,
        (sample.flags() / 8) % 2 == 1 <==> exists|j: int| 0 <= j < 6 && !#[trigger] sample.fresh[j],
        (sample.flags() / 16) % 2 == 1 <==> sample.gravity_comp,
        sample.flags() / 256 == sample.mode,
        (sample.flags() / 32) % 8 == 0,
{
    if sample.stale() {
        let j: int = if !sample.fresh[0] {
            0
        } else if !sample.fresh[1] {
            1
        } else if !sample.fresh[2] {
            2
        } else if !sample.fresh[3] {
            3
        } else if !sample.fresh[4] {
            4
        } else {
            5
        };
        assert(!sample.fresh[j]);
    }
}

/// The rows of a sample, in the order they are recorded in.
pub open spec fn row_of(sample: CaptureSample, r: int) -> Row {
    if r == 0 {
        sample.q
    } else if r == 1 {
        sample.qd
    } else if r == 2 {
        sample.tau
    } else if r == 3 {
        sample.q_commanded
    } else if r == 4 {
        sample.qd_commanded
    } else if r == 5 {
        sample.tau_commanded
    } else if r == 6 {
        sample.q_target
    } else if r == 7 {
        sample.gravity_torque
    } else if r == 8 {
        sample.current
    } else if r == 9 {
        sample.torque_constant
    } else {
        sample.current_limit
    }
}

/// Where a row stands in a record.
proof fn lemma_row_stands(sample: CaptureSample, r: int)
    requires
        0 <= r < 11,
    ensures
        sample.record().len() == RECORD_LEN,
        sample.record().subrange(24 + 48 * r, 72 + 48 * r) == row_of(sample, r).bytes(),
{
    sample.lemma_len();
    sample.q.lemma_len();
    sample.qd.lemma_len();
    sample.tau.lemma_len();
    sample.q_commanded.lemma_len();
    sample.qd_commanded.lemma_len();
    sample.tau_commanded.lemma_len();
    sample.q_target.lemma_len();
    sample.gravity_torque.lemma_len();
    sample.current.lemma_len();
    sample.torque_constant.lemma_len();
    sample.current_limit.lemma_len();
    let rows = sample.rows();
    assert(sample.record().subrange(24 + 48 * r, 72 + 48 * r) =~= rows.subrange(
        48 * r,
        48 + 48 * r,
    ));
    assert(rows.subrange(48 * r, 48 + 48 * r) =~= row_of(sample, r).bytes());
}

/// Every quantity of every joint reads back from a record, at the place that its row and
/// its joint give.
pub proof fn law_every_quantity_reads_back(sample: CaptureSample, r: int, j: int)
    requires
        0 <= r < 11,
        0 <= j < 6,
    ensures
        le_value(sample.record().subrange(24 + 48 * r + 8 * j, 32 + 48 * r + 8 * j)) == row_of(
            sample,
            r,
        ).values[j],
{
    lemma_row_stands(sample, r);
    let row = row_of(sample, r);
    let bytes = row.bytes();
    row.lemma_len();
    assert(sample.record().subrange(24 + 48 * r + 8 * j, 32 + 48 * r + 8 * j) =~= bytes.subrange(
        8 * j,
        8 + 8 * j,
    ));
    reveal(Row::bytes);
    lemma_le_bytes_len(row.values[0] as nat, 8);
    lemma_le_bytes_len(row.values[1] as nat, 8);
    lemma_le_bytes_len(row.values[2] as nat, 8);
    lemma_le_bytes_len(row.values[3] as nat, 8);
    lemma_le_bytes_len(row.values[4] as nat, 8);
    lemma_le_bytes_len(row.values[5] as nat, 8);
    assert(bytes.subrange(8 * j, 8 + 8 * j) =~= le_bytes(row.values[j] as nat, 8));
    lemma_eight_bytes();
    law_bytes_read_back(row.values[j] as nat, 8);
}

/// Eight bytes hold any word.
proof fn lemma_eight_bytes()
    ensures
        pow(256, 8) == 0x1_0000_0000_0000_0000,
{
    reveal(pow);
    assert(pow(256, 1) == 256 * pow(256, 0));
    assert(pow(256, 2) == 256 * pow(256, 1));
    assert(pow(256, 3) == 256 * pow(256, 2));
    assert(pow(256, 4) == 256 * pow(256, 3));
    assert(pow(256, 5) == 256 * pow(256, 4));
    assert(pow(256, 6) == 256 * pow(256, 5));
    assert(pow(256, 7) == 256 * pow(256, 6));
    assert(pow(256, 8) == 256 * pow(256, 7));
}

/// A header reads back: the format's mark, the tick, the fingerprint, the process and
/// the start, in this order.
pub proof fn law_a_header_reads_back(dt: u64, fingerprint: Seq<u8>, pid: u64, started: u64)
    requires
        fingerprint.len() == FINGERPRINT_LEN,
    ensures
        ({
            let h = header_of(dt, fingerprint, pid, started);
            &&& h.len() == HEADER_LEN
            &&& h.take(8) == seq![0x50u8, 0x41, 0x52, 0x36, 0x43, 0x41, 0x50, 0x32]
            &&& le_value(h.subrange(8, 16)) == dt
            &&& h.subrange(16, 80) == fingerprint
            &&& le_value(h.subrange(80, 88)) == pid
            &&& le_value(h.subrange(88, 96)) == started
        }),
{
    let h = header_of(dt, fingerprint, pid, started);
    lemma_le_bytes_len(dt as nat, 8);
    lemma_le_bytes_len(pid as nat, 8);
    lemma_le_bytes_len(started as nat, 8);
    lemma_eight_bytes();
    law_bytes_read_back(dt as nat, 8);
    law_bytes_read_back(pid as nat, 8);
    law_bytes_read_back(started as nat, 8);
    assert(h.take(8) =~= magic());
    assert(h.subrange(8, 16) =~= le_bytes(dt as nat, 8));
    assert(h.subrange(16, 80) =~= fingerprint);
    assert(h.subrange(80, 88) =~= le_bytes(pid as nat, 8));
    assert(h.subrange(88, 96) =~= le_bytes(started as nat, 8));
}

} // verus!
