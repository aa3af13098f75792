//! The bus signal, read the way other tools read it.
use par6d::grant::{mode_name, shm_dir, BusGrant, MODE_SEGMENT_LEN};
use par6d::runtime::Mode;

/// The two segments as files would hold them.
struct Segments {
    grant: BusGrant,
    tick: Vec<u8>,
    mode: Vec<u8>,
    mode_writes: usize,
}

impl Segments {
    fn create() -> Self {
        Segments {
            grant: BusGrant::new(),
            tick: vec![0; 8],
            mode: vec![0; MODE_SEGMENT_LEN],
            mode_writes: 0,
        }
    }

    fn publish(&mut self, tick: u64, mode: Mode) {
        let p = self.grant.publish((tick as f64).to_bits(), mode);
        self.tick = p.tick;
        if let Some(segment) = p.mode {
            self.mode = segment;
            self.mode_writes += 1;
            self.grant.wrote(mode);
        }
    }

    fn read_tick(&self) -> f64 {
        let mut raw = [0; 8];
        raw.copy_from_slice(&self.tick[..8]);
        f64::from_le_bytes(raw)
    }

    fn read_mode(&self) -> String {
        let mut raw = [0; 4];
        raw.copy_from_slice(&self.mode[..4]);
        let len = u32::from_le_bytes(raw) as usize;
        assert!(
            len > 0 && len <= self.mode.len() - 4,
            "length {len} is unreadable"
        );
        String::from_utf8(self.mode[4..4 + len].to_vec()).expect("utf-8")
    }
}

#[test]
fn the_segments_read_back_the_way_the_vendor_tools_read_them() {
    let mut s = Segments::create();

    s.publish(41, Mode::Exec);
    assert_eq!(s.read_tick(), 41.0);
    assert_eq!(s.read_mode(), "EXEC", "a mode with no grant in it");

    // Liveness is "advancing", which is what the tools sample twice.
    s.publish(42, Mode::Exec);
    assert_eq!(s.read_tick(), 42.0);

    // The one value that grants the bus, spelled exactly.
    s.publish(43, Mode::Flashing);
    assert_eq!(s.read_mode(), "FLASHING");

    // A shorter name must not leave the longer one's tail behind.
    s.publish(44, Mode::Idle);
    assert_eq!(s.read_mode(), "IDLE");
    assert_eq!(&s.mode[8..], &[0; MODE_SEGMENT_LEN - 8]);
    assert_eq!(s.mode_writes, 3, "an unchanged mode costs no write");
}

#[test]
fn a_mode_whose_write_failed_is_written_again() {
    let mut grant = BusGrant::new();
    assert!(grant.publish(0, Mode::Idle).mode.is_some());
    assert!(grant.publish(0, Mode::Idle).mode.is_some());
    grant.wrote(Mode::Idle);
    assert!(grant.publish(0, Mode::Idle).mode.is_none());
    assert!(grant.publish(0, Mode::Jog).mode.is_some());
}

#[test]
fn the_segments_default_to_the_directory_the_tools_read() {
    assert_eq!(shm_dir(None), "/dev/shm");
    assert_eq!(shm_dir(Some("")), "/dev/shm", "empty is not a directory");
    assert_eq!(shm_dir(Some("/tmp/par6-elsewhere")), "/tmp/par6-elsewhere");
}

#[test]
fn modes_are_spelled_as_the_tools_know_them() {
    let names = [
        (Mode::Booting, "BOOTING"),
        (Mode::Idle, "IDLE"),
        (Mode::ActiveError, "ACTIVE_ERROR"),
        (Mode::Homing, "HOMING"),
        (Mode::Jog, "JOG"),
        (Mode::Stream, "RTI"),
        (Mode::Exec, "EXEC"),
        (Mode::HandGuiding, "HAND_GUIDING"),
        (Mode::Impedance, "IMPEDANCE"),
        (Mode::SafetyStop, "SAFETY_STOP"),
        (Mode::Flashing, "FLASHING"),
    ];
    for (mode, name) in names {
        assert_eq!(mode_name(mode), name);
    }
}
