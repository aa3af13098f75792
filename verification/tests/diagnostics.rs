//! The diagnostic capture's layout and budget.
use par6d::diagnostics::{
    header, writer_step, Capture, CaptureSample, Row, WriterStep, DEFAULT_MAX_SAMPLES,
};

fn row(base: u64) -> Row {
    Row {
        values: [base, base + 1, base + 2, base + 3, base + 4, base + 5],
    }
}

fn sample(tick: u64) -> CaptureSample {
    CaptureSample {
        tick,
        elapsed_ns: 1_234,
        error_active: false,
        homed: true,
        enabled: true,
        fresh: [true; 6],
        gravity_comp: true,
        mode: 6,
        q: row(100),
        qd: row(200),
        tau: row(300),
        q_commanded: row(400),
        qd_commanded: row(500),
        tau_commanded: row(600),
        q_target: row(700),
        gravity_torque: row(800),
        current: row(900),
        torque_constant: row(1000),
        current_limit: row(1100),
    }
}

fn word(bytes: &[u8], at: usize) -> u64 {
    let mut raw = [0; 8];
    raw.copy_from_slice(&bytes[at..at + 8]);
    u64::from_le_bytes(raw)
}

#[test]
fn recording_can_continue_beyond_one_hour_at_250_hz() {
    let limit = 900_001_u64;
    let fingerprint = [b'0'; 64];
    let mut size = header(0.004f64.to_bits(), &fingerprint, 7, 1.5f64.to_bits()).len() as u64;
    let record = sample(limit).write_sample();
    let mut capture = Capture::new(limit);
    let mut sent = 0;
    for tick in 1..=limit {
        assert_eq!(writer_step(true, false), WriterStep::Write);
        let after = capture.wrote();
        size += record.len() as u64;
        sent = tick;
        assert_eq!(after.flush, tick % 25 == 0);
        assert_eq!(after.full, tick == limit);
        if after.full {
            break;
        }
    }
    assert_eq!(
        sent, limit,
        "writer ended before accepting the requested capture"
    );
    assert_eq!(size, 96 + limit * 552, "capture was silently truncated");
    assert_eq!(word(&record, 0), limit);
    assert_eq!(DEFAULT_MAX_SAMPLES, 900_000);
}

#[test]
fn a_record_holds_every_quantity_in_its_place() {
    let s = sample(42);
    let bytes = s.write_sample();
    assert_eq!(word(&bytes, 0), 42);
    assert_eq!(word(&bytes, 8), 1_234);
    // homed, enabled and gravity compensation, and the mode's number
    assert_eq!(word(&bytes, 16), 2 + 4 + 16 + (6 << 8));
    for (r, base) in (0..11).map(|r| (r, 100 * (r as u64 + 1))) {
        for j in 0..6 {
            assert_eq!(word(&bytes, 24 + 48 * r + 8 * j), base + j as u64);
        }
    }
    assert_eq!(bytes.len(), 552);
}

#[test]
fn one_stale_drive_and_an_error_show_in_the_flags() {
    let mut s = sample(1);
    s.fresh[4] = false;
    s.error_active = true;
    s.homed = false;
    s.enabled = false;
    s.gravity_comp = false;
    s.mode = 0;
    assert_eq!(word(&s.write_sample(), 16), 1 + 8);
}

#[test]
fn the_header_names_its_format_and_its_process() {
    let fingerprint: Vec<u8> = (0..64).collect();
    let h = header(0.004f64.to_bits(), &fingerprint, 4711, 12.5f64.to_bits());
    assert_eq!(&h[..8], b"PAR6CAP2");
    assert_eq!(f64::from_bits(word(&h, 8)), 0.004);
    assert_eq!(&h[16..80], &fingerprint[..]);
    assert_eq!(word(&h, 80), 4711);
    assert_eq!(f64::from_bits(word(&h, 88)), 12.5);
    assert_eq!(h.len(), 96);
}

#[test]
fn what_is_at_hand_is_written_before_a_stop_is_heeded() {
    assert_eq!(writer_step(true, true), WriterStep::Write);
    assert_eq!(writer_step(false, true), WriterStep::End);
    assert_eq!(writer_step(false, false), WriterStep::Wait);
}
