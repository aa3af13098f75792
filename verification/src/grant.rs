//! The signal by which other tools on the machine learn who owns the bus.
//!
//! Two segments of shared memory are published: a counter that advances while
//! the control loop runs, and the name of the mode. One name grants the bus;
//! any other keeps it.
use crate::bytes::{law_bytes_read_back, le_bytes, le_value, lemma_le_bytes_len, push_le};
use crate::runtime::Mode;
use crate::text::chars_of;
use vstd::arithmetic::power::pow;
use vstd::prelude::*;

verus! {

/// The length of the mode's segment.
pub const MODE_SEGMENT_LEN: usize = 64;

/// The length of the counter's segment.
pub const TICK_SEGMENT_LEN: usize = 8;

/// The mode's name as the tools know it.
pub open spec fn name_of(mode: Mode) -> Seq<char> {
    match mode {
        Mode::Booting => "BOOTING"@,
        Mode::Idle => "IDLE"@,
        Mode::ActiveError => "ACTIVE_ERROR"@,
        Mode::Homing => "HOMING"@,
        Mode::Jog => "JOG"@,
        Mode::Stream => "RTI"@,
        Mode::Exec => "EXEC"@,
        Mode::HandGuiding => "HAND_GUIDING"@,
        Mode::Impedance => "IMPEDANCE"@,
        Mode::SafetyStop => "SAFETY_STOP"@,
        Mode::Flashing => "FLASHING"@,
    }
}

/// The mode's name as the tools know it.
pub fn mode_name(mode: Mode) -> (r: &'static str)
    ensures
        r@ == name_of(mode),
{
    match mode {
        Mode::Booting => "BOOTING",
        Mode::Idle => "IDLE",
        Mode::ActiveError => "ACTIVE_ERROR",
        Mode::Homing => "HOMING",
        Mode::Jog => "JOG",
        Mode::Stream => "RTI",
        Mode::Exec => "EXEC",
        Mode::HandGuiding => "HAND_GUIDING",
        Mode::Impedance => "IMPEDANCE",
        Mode::SafetyStop => "SAFETY_STOP",
        Mode::Flashing => "FLASHING",
    }
}

/// The bytes of an ASCII text.
pub open spec fn ascii_bytes(text: Seq<char>) -> Seq<u8> {
    text.map_values(|c: char| c as u8)
}

/// The mode's segment: the length of the name, the name, and zeros.
pub open spec fn mode_segment(mode: Mode) -> Seq<u8> {
    let name = ascii_bytes(name_of(mode));
    le_bytes(name.len(), 4) + name + Seq::new((MODE_SEGMENT_LEN - 4 - name.len()) as nat, |i: int| 0u8)
}

/// What a tool reads in the mode's segment: as many bytes as its first four
/// say.
pub open spec fn read_mode(segment: Seq<u8>) -> Seq<u8> {
    let length = le_value(segment.take(4)) as int;
    segment.subrange(4, 4 + length)
}

/// A name fits its segment.
proof fn lemma_name_fits(mode: Mode)
    ensures
        0 < name_of(mode).len() <= 12,
{
    reveal_strlit("BOOTING");
    reveal_strlit("IDLE");
    reveal_strlit("ACTIVE_ERROR");
    reveal_strlit("HOMING");
    reveal_strlit("JOG");
    reveal_strlit("RTI");
    reveal_strlit("EXEC");
    reveal_strlit("HAND_GUIDING");
    reveal_strlit("IMPEDANCE");
    reveal_strlit("SAFETY_STOP");
    reveal_strlit("FLASHING");
}

/// The mode's segment.
pub fn mode_bytes(mode: Mode) -> (r: Vec<u8>)
    ensures
        r@ == mode_segment(mode),
        r@.len() == MODE_SEGMENT_LEN,
{
    let name = chars_of(mode_name(mode));
    proof {
        lemma_name_fits(mode);
        lemma_le_bytes_len(name@.len(), 4);
    }
    let mut out: Vec<u8> = Vec::new();
    push_le(&mut out, name.len() as u64, 4);
    let ghost head = out@;
    assert(head =~= le_bytes(name@.len(), 4));
    let mut i: usize = 0;
    while i < name.len()
        invariant
            i <= name@.len(),
            head.len() == 4,
            out@ == head + ascii_bytes(name@).take(i as int),
        decreases name@.len() - i,
    {
        out.push(name[i] as u8);
        assert(out@ =~= head + ascii_bytes(name@).take(i + 1));
        i += 1;
    }
    let ghost named = out@;
    assert(named =~= head + ascii_bytes(name@));
    assert(out@ =~= named + Seq::new(0, |i: int| 0u8));
    while out.len() < MODE_SEGMENT_LEN
        invariant
            named.len() <= out@.len() <= MODE_SEGMENT_LEN,
            out@ == named + Seq::new((out@.len() - named.len()) as nat, |i: int| 0u8),
        decreases MODE_SEGMENT_LEN - out@.len(),
    {
        let ghost before = out@;
        out.push(0);
        assert(out@ =~= named + Seq::new((out@.len() - named.len()) as nat, |i: int| 0u8));
    }
    assert(out@ =~= mode_segment(mode));
    out
}

/// What is written for one tick.
#[derive(Debug)]
pub struct Publication {
    /// The counter's segment.
    pub tick: Vec<u8>,
    /// The mode's segment, where it changes.
    pub mode: Option<Vec<u8>>,
}

/// The publisher of the two segments.
#[derive(Clone, Copy, Debug, PartialEq, Eq, Structural)]
pub struct BusGrant {
    /// The mode last written, so that an unchanged one costs no write.
    pub last: Option<Mode>,
}

impl BusGrant {
    /// Begin with nothing written.
    pub fn new() -> (r: BusGrant)
        ensures
            r.last is None,
    {
        BusGrant { last: None }
    }

    /// What to write for a tick. `tick_bits` are the bits of the counter as a
    /// floating-point number, which is how the tools read it.
    pub fn publish(&self, tick_bits: u64, mode: Mode) -> (r: Publication)
        ensures
            r.tick@ == le_bytes(tick_bits as nat, TICK_SEGMENT_LEN as nat),
            match r.mode {
                Some(segment) => self.last != Some(mode) && segment@ == mode_segment(mode),
                None => self.last == Some(mode),
            },
    {
        let mut tick: Vec<u8> = Vec::new();
        push_le(&mut tick, tick_bits, TICK_SEGMENT_LEN);
        assert(tick@ =~= le_bytes(tick_bits as nat, TICK_SEGMENT_LEN as nat));
        let same = match self.last {
            Some(last) => last == mode,
            None => false,
        };
        Publication {
            tick,
            mode: if same {
                None
            } else {
                Some(mode_bytes(mode))
            },
        }
    }

    /// A mode's segment was written. One whose writing failed counts as not
    /// written.
    pub fn wrote(&mut self, mode: Mode)
        ensures
            final(self).last == Some(mode),
    {
        self.last = Some(mode);
    }
}

/// The directory the segments are published in: the one that was set, unless it
/// is empty, or else the one every tool looks in.
pub fn shm_dir(set: Option<&str>) -> (r: String)
    ensures
        r@ == (match set {
            Some(dir) => if dir@.len() > 0 {
                dir@
            } else {
                "/dev/shm"@
            },
            None => "/dev/shm"@,
        }),
{
    if let Some(dir) = set {
        if dir.unicode_len() > 0 {
            return dir.to_owned();
        }
    }
    "/dev/shm".to_owned()
}

/// A tool reads the mode's name back from its segment, whatever mode was
/// published before.
pub proof fn law_the_mode_reads_back(mode: Mode)
    ensures
        mode_segment(mode).len() == MODE_SEGMENT_LEN,
        read_mode(mode_segment(mode)) == ascii_bytes(name_of(mode)),
{
    lemma_name_fits(mode);
    let name = ascii_bytes(name_of(mode));
    lemma_le_bytes_len(name.len(), 4);
    assert(name.len() < pow(256, 4)) by {
        reveal(pow);
        assert(pow(256, 1) == 256 * pow(256, 0));
        assert(pow(256, 2) == 256 * pow(256, 1));
        assert(pow(256, 3) == 256 * pow(256, 2));
        assert(pow(256, 4) == 256 * pow(256, 3));
    }
    law_bytes_read_back(name.len(), 4);
    assert(mode_segment(mode).take(4) =~= le_bytes(name.len(), 4));
    assert(read_mode(mode_segment(mode)) =~= name);
}

/// The bus is granted in one mode alone: no other mode's segment reads as the
/// one of flashing.
pub proof fn law_only_flashing_grants_the_bus(mode: Mode)
    ensures
        read_mode(mode_segment(mode)) == ascii_bytes("FLASHING"@) <==> mode == Mode::Flashing,
{
    law_the_mode_reads_back(mode);
    reveal_strlit("BOOTING");
    reveal_strlit("IDLE");
    reveal_strlit("ACTIVE_ERROR");
    reveal_strlit("HOMING");
    reveal_strlit("JOG");
    reveal_strlit("RTI");
    reveal_strlit("EXEC");
    reveal_strlit("HAND_GUIDING");
    reveal_strlit("IMPEDANCE");
    reveal_strlit("SAFETY_STOP");
    reveal_strlit("FLASHING");
    let name = ascii_bytes(name_of(mode));
    let grant = ascii_bytes("FLASHING"@);
    assert(grant.len() == 8);
    assert(grant[0] == 'F' as u8);
    assert(name.len() == name_of(mode).len());
    assert(name[0] == name_of(mode)[0] as u8);
}

/// Every mode has a name of its own, so the segment tells them all apart.
pub proof fn law_every_mode_has_its_own_name(a: Mode, b: Mode)
    ensures
        name_of(a) == name_of(b) <==> a == b,
        name_of(Mode::Booting) == "BOOTING"@,
        name_of(Mode::Idle) == "IDLE"@,
        name_of(Mode::ActiveError) == "ACTIVE_ERROR"@,
        name_of(Mode::Homing) == "HOMING"@,
        name_of(Mode::Jog) == "JOG"@,
        name_of(Mode::Stream) == "RTI"@,
        name_of(Mode::Exec) == "EXEC"@,
        name_of(Mode::HandGuiding) == "HAND_GUIDING"@,
        name_of(Mode::Impedance) == "IMPEDANCE"@,
        name_of(Mode::SafetyStop) == "SAFETY_STOP"@,
        name_of(Mode::Flashing) == "FLASHING"@,
{
    reveal_strlit("BOOTING");
    reveal_strlit("IDLE");
    reveal_strlit("ACTIVE_ERROR");
    reveal_strlit("HOMING");
    reveal_strlit("JOG");
    reveal_strlit("RTI");
    reveal_strlit("EXEC");
    reveal_strlit("HAND_GUIDING");
    reveal_strlit("IMPEDANCE");
    reveal_strlit("SAFETY_STOP");
    reveal_strlit("FLASHING");
    let (x, y) = (name_of(a), name_of(b));
    if x == y {
        assert(x.len() == y.len());
        assert(x[0] == y[0]);
        assert(x[1] == y[1]);
    }
}

/// Behind the name the segment holds nothing.
pub proof fn law_the_segment_ends_in_zeros(mode: Mode, i: int)
    requires
        4 + name_of(mode).len() <= i < MODE_SEGMENT_LEN,
    ensures
        mode_segment(mode)[i] == 0,
{
    lemma_name_fits(mode);
    lemma_le_bytes_len(ascii_bytes(name_of(mode)).len(), 4);
}

} // verus!
