//! Routing, stamping and line format of the activity logs.
use par6d::logging::{
    enabled, file_entry, file_name, format_line, max_level, plan_record, rotate_at, route,
    stamp_or_dashes, timestamp, Lane, Level, LevelFilter, LogRecord,
};
use std::time::{Duration, SystemTime, UNIX_EPOCH};

fn nanos(t: SystemTime) -> i128 {
    t.duration_since(UNIX_EPOCH).unwrap().as_nanos() as i128
}

fn record(level: Level, target: &str, message: &str) -> LogRecord {
    LogRecord {
        level,
        target: target.to_owned(),
        message: message.to_owned(),
    }
}

#[test]
fn records_route_by_module_target_and_stamp_civil_time() {
    assert_eq!(route("par6_rt::core"), Lane::Rt);
    assert_eq!(route("par6_rt"), Lane::Rt);
    assert_eq!(route("par6_server::server"), Lane::Command);
    assert_eq!(route("par6d::vitals"), Lane::Command);
    // 2024-02-29T12:34:56.789Z — a leap day, past the era boundary.
    let t = UNIX_EPOCH + Duration::from_millis(1_709_210_096_789);
    assert_eq!(timestamp(nanos(t)), "2024-02-29T12:34:56.789Z");
    assert_eq!(timestamp(nanos(UNIX_EPOCH)), "1970-01-01T00:00:00.000Z");
}

#[test]
fn the_stamp_keeps_its_width_to_the_ends_of_the_range() {
    let first = -62_167_219_200_000_000_000_i128;
    let last = 253_402_207_200_999_999_999_i128;
    assert_eq!(timestamp(first), "0000-01-01T00:00:00.000Z");
    assert_eq!(timestamp(last).len(), 24);
    assert_ne!(timestamp(last), "----------T--:--:--.---Z");
    assert_eq!(timestamp(last + 1), "----------T--:--:--.---Z");
    let lowest = -377_705_023_201_000_000_000_i128;
    assert_ne!(timestamp(lowest), "----------T--:--:--.---Z");
    assert_eq!(timestamp(lowest - 1), "----------T--:--:--.---Z");
    assert_eq!(timestamp(999_999), "1970-01-01T00:00:00.000Z");
    assert_eq!(timestamp(1_000_000), "1970-01-01T00:00:00.001Z");
    assert_eq!(timestamp(-1), "1969-12-31T23:59:59.999Z");
    assert_eq!(stamp_or_dashes(None), "----------T--:--:--.---Z");
    assert_eq!(stamp_or_dashes(Some("x".to_owned())), "x");
}

#[test]
fn a_line_is_stamp_level_target_and_message() {
    let r = record(Level::Warn, "par6_rt::core", "loop DEGRADED");
    assert_eq!(
        format_line(&r, 1_709_210_096_789_000_000),
        "2024-02-29T12:34:56.789Z WARN  par6_rt::core loop DEGRADED"
    );
    let r = record(Level::Error, "par6d", "x");
    assert_eq!(format_line(&r, 0), "1970-01-01T00:00:00.000Z ERROR par6d x");
    assert_eq!(
        file_entry(&r, 0),
        "1970-01-01T00:00:00.000Z ERROR par6d x\n"
    );
}

#[test]
fn files_take_notices_and_worse_in_one_lane() {
    let r = record(Level::Info, "par6_rt", "mode IDLE");
    let p = plan_record(false, true, &r);
    assert!(!p.stderr);
    assert_eq!(p.lane, Some(Lane::Rt));
    let r = record(Level::Debug, "par6_rt", "tick");
    assert_eq!(plan_record(true, true, &r).lane, None);
    assert!(plan_record(true, true, &r).stderr);
    let r = record(Level::Warn, "par6d", "x");
    assert_eq!(plan_record(true, false, &r).lane, None);
    assert!(enabled(false, true, Level::Info));
    assert!(!enabled(false, true, Level::Debug));
    assert!(!enabled(false, false, Level::Error));
    assert_eq!(max_level(LevelFilter::Off, true), LevelFilter::Info);
    assert_eq!(max_level(LevelFilter::Debug, true), LevelFilter::Debug);
    assert_eq!(max_level(LevelFilter::Off, false), LevelFilter::Off);
}

#[test]
fn each_lane_has_its_file_and_its_size() {
    assert_eq!(file_name(Lane::Rt), "rt.log");
    assert_eq!(file_name(Lane::Command), "commands.log");
    assert_eq!(rotate_at(Lane::Rt), 2 * 1024 * 1024);
    assert_eq!(rotate_at(Lane::Command), 20 * 1024 * 1024);
}
