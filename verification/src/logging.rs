//! Activity logs: which file a record goes to, and the line it becomes.
//!
//! Two size-rotated files are written beside the process's own output when a
//! log directory is configured. The realtime thread's records go to one, the
//! command plane's and the daemon's to the other.
use crate::text::{has_prefix, joined};
use vstd::prelude::*;

verus! {

/// Size at which the realtime log rotates, in bytes.
pub const RT_LOG_BYTES: usize = 2_097_152;

/// Size at which the command log rotates, in bytes.
pub const COMMAND_LOG_BYTES: usize = 20_971_520;

/// Rotated copies kept per file.
pub const BACKUPS: usize = 5;

/// Which file a record goes to.
#[derive(Clone, Copy, Debug, PartialEq, Eq, Structural)]
pub enum Lane {
    /// The realtime thread's own records.
    Rt,
    /// The command plane, the daemon, everything else.
    Command,
}

/// How severe a record is.
#[derive(Clone, Copy, Debug, PartialEq, Eq, Structural)]
pub enum Level {
    /// Something failed.
    Error,
    /// Something is off.
    Warn,
    /// Something happened.
    Info,
    /// Of use when looking for a fault.
    Debug,
    /// Everything.
    Trace,
}

/// The most that is let through.
#[derive(Clone, Copy, Debug, PartialEq, Eq, Structural)]
pub enum LevelFilter {
    /// Nothing.
    Off,
    /// Errors.
    Error,
    /// Warnings too.
    Warn,
    /// Notices too.
    Info,
    /// Debugging too.
    Debug,
    /// Everything.
    Trace,
}

/// What a line is made from.
#[derive(Debug)]
pub struct LogRecord {
    /// How severe it is.
    pub level: Level,
    /// The module that speaks.
    pub target: String,
    /// What it says.
    pub message: String,
}

/// Where a record goes.
#[derive(Clone, Copy, Debug, PartialEq, Eq, Structural)]
pub struct SinkPlan {
    /// Whether the process's own output gets it.
    pub stderr: bool,
    /// The file that gets it.
    pub lane: Option<Lane>,
}

impl Level {
    /// The level's name in a column of five.
    pub open spec fn column(self) -> Seq<char> {
        match self {
            Level::Error => "ERROR"@,
            Level::Warn => "WARN "@,
            Level::Info => "INFO "@,
            Level::Debug => "DEBUG"@,
            Level::Trace => "TRACE"@,
        }
    }

    /// Whether a file takes records of this level.
    pub open spec fn filed(self) -> bool {
        self == Level::Error || self == Level::Warn || self == Level::Info
    }

    /// The level's name in a column of five.
    pub fn padded(&self) -> (r: &'static str)
        ensures
            r@ == self.column(),
    {
        match *self {
            Level::Error => "ERROR",
            Level::Warn => "WARN ",
            Level::Info => "INFO ",
            Level::Debug => "DEBUG",
            Level::Trace => "TRACE",
        }
    }
}

impl LevelFilter {
    /// How much is let through.
    pub open spec fn rank(self) -> int {
        match self {
            LevelFilter::Off => 0,
            LevelFilter::Error => 1,
            LevelFilter::Warn => 2,
            LevelFilter::Info => 3,
            LevelFilter::Debug => 4,
            LevelFilter::Trace => 5,
        }
    }
}

/// The lane of a module target.
pub open spec fn lane_of(target: Seq<char>) -> Lane {
    if "par6_rt"@.is_prefix_of(target) {
        Lane::Rt
    } else {
        Lane::Command
    }
}

/// Route a record by its module target.
pub fn route(target: &str) -> (r: Lane)
    ensures
        r == lane_of(target@),
{
    if has_prefix(target, "par6_rt") {
        Lane::Rt
    } else {
        Lane::Command
    }
}

/// The name of a lane's file.
pub fn file_name(lane: Lane) -> (r: &'static str)
    ensures
        r@ == (match lane {
            Lane::Rt => "rt.log"@,
            Lane::Command => "commands.log"@,
        }),
{
    match lane {
        Lane::Rt => "rt.log",
        Lane::Command => "commands.log",
    }
}

/// The size at which a lane's file rotates, in bytes.
pub fn rotate_at(lane: Lane) -> (r: usize)
    ensures
        r == (match lane {
            Lane::Rt => RT_LOG_BYTES,
            Lane::Command => COMMAND_LOG_BYTES,
        }),
{
    match lane {
        Lane::Rt => RT_LOG_BYTES,
        Lane::Command => COMMAND_LOG_BYTES,
    }
}

/// Where a record goes. `stderr` says whether the process's own filter takes
/// it, `files` whether a log directory is configured; the files take notices
/// and what is more severe.
pub fn plan_record(stderr: bool, files: bool, record: &LogRecord) -> (r: SinkPlan)
    ensures
        r.stderr == stderr,
        r.lane == (if files && record.level.filed() {
            Some(lane_of(record.target@))
        } else {
            None
        }),
{
    let filed = match record.level {
        Level::Error => true,
        Level::Warn => true,
        Level::Info => true,
        _ => false,
    };
    let lane = if files && filed {
        Some(route(record.target.as_str()))
    } else {
        None
    };
    SinkPlan { stderr, lane }
}

/// Whether a record of this level goes anywhere.
pub fn enabled(stderr: bool, files: bool, level: Level) -> (r: bool)
    ensures
        r == (stderr || (files && level.filed())),
{
    stderr || (files && match level {
        Level::Error => true,
        Level::Warn => true,
        Level::Info => true,
        _ => false,
    })
}

/// The most the process lets through: what its own filter asks for, and
/// notices at least where the files are written.
pub fn max_level(stderr: LevelFilter, files: bool) -> (r: LevelFilter)
    ensures
        !files ==> r == stderr,
        files ==> (r == stderr || r == LevelFilter::Info) && r.rank() >= stderr.rank() && r.rank()
            >= LevelFilter::Info.rank(),
        files ==> r == (if stderr == LevelFilter::Debug || stderr == LevelFilter::Trace {
            stderr
        } else {
            LevelFilter::Info
        }),
{
    if !files {
        return stderr;
    }
    match stderr {
        LevelFilter::Debug => LevelFilter::Debug,
        LevelFilter::Trace => LevelFilter::Trace,
        _ => LevelFilter::Info,
    }
}

/// The format of a stamp: date, time and milliseconds, always as wide.
pub open spec fn stamp_format() -> Seq<char> {
    "%Y-%m-%dT%H:%M:%S.%3fZ"@
}

/// What stands in the column when the clock cannot be stamped.
pub open spec fn no_stamp() -> Seq<char> {
    "----------T--:--:--.---Z"@
}

/// The instants that have a civil time, in nanoseconds since the Unix epoch.
pub open spec fn stampable(nanos: int) -> bool {
    -377_705_023_201_000_000_000 <= nanos <= 253_402_207_200_999_999_999
}

/// The first instant of the year zero, in nanoseconds since the Unix epoch.
pub open spec fn year_zero() -> int {
    -62_167_219_200_000_000_000
}

/// The civil time of an instant, in nanoseconds since the Unix epoch, in UTC
/// and in the given `strftime` format.
pub uninterp spec fn civil_text(nanos: int, format: Seq<char>) -> Seq<char>;

/// Calls `jiff::Timestamp::from_nanosecond`, then
/// `jiff::Timestamp::strftime`, and renders the result.
///
/// Claimed of them: an instant is refused if and only if it lies outside the
/// range the crate supports; formatting never fails and depends on the instant
/// and the format alone, because it is done in UTC; and the stamp's own format
/// fills 24 characters from the year zero on, because every field of it is
/// padded to a fixed width. What the text is in other formats is not said.
#[verifier::external_body]
fn civil_time(nanos: i128, format: &str) -> (r: Option<String>)
    ensures
        r is Some <==> stampable(nanos as int),
        r matches Some(text) ==> text@ == civil_text(nanos as int, format@),
        r matches Some(text) ==> nanos >= year_zero() && format@ == stamp_format() ==> text@.len()
            == 24,
{
    match jiff::Timestamp::from_nanosecond(nanos) {
        Ok(ts) => Some(ts.strftime(format).to_string()),
        Err(_) => None,
    }
}

/// The stamp of a clock reading that has a civil time, or the placeholder that
/// keeps the column's width.
pub fn stamp_or_dashes(civil: Option<String>) -> (r: String)
    ensures
        r@ == (match civil {
            Some(text) => text@,
            None => no_stamp(),
        }),
{
    match civil {
        Some(text) => text,
        None => "----------T--:--:--.---Z".to_owned(),
    }
}

/// The stamp of an instant.
pub open spec fn stamped(nanos: int) -> Seq<char> {
    if stampable(nanos) {
        civil_text(nanos, stamp_format())
    } else {
        no_stamp()
    }
}

/// `YYYY-MM-DDTHH:MM:SS.mmmZ` (UTC) for an instant in nanoseconds since the
/// Unix epoch. The precision is fixed, so that the column keeps its width; an
/// instant outside the supported range leaves a line unstamped.
pub fn timestamp(nanos: i128) -> (r: String)
    ensures
        r@ == stamped(nanos as int),
        nanos >= year_zero() ==> r@.len() == 24,
{
    proof {
        reveal_strlit("----------T--:--:--.---Z");
    }
    stamp_or_dashes(civil_time(nanos, "%Y-%m-%dT%H:%M:%S.%3fZ"))
}

/// The line a record becomes after its stamp.
pub open spec fn line_of(stamp: Seq<char>, record: LogRecord) -> Seq<char> {
    stamp + " "@ + record.level.column() + " "@ + record.target@ + " "@ + record.message@
}

/// The line a record becomes after its stamp.
pub fn line_with_stamp(stamp: String, record: &LogRecord) -> (r: String)
    ensures
        r@ == line_of(stamp@, *record),
{
    let mut out = stamp;
    out.append(" ");
    out.append(record.level.padded());
    out.append(" ");
    out.append(record.target.as_str());
    out.append(" ");
    out.append(record.message.as_str());
    out
}

/// One file line for a record, taken at the given instant.
pub fn format_line(record: &LogRecord, nanos: i128) -> (r: String)
    ensures
        r@ == line_of(stamped(nanos as int), *record),
{
    line_with_stamp(timestamp(nanos), record)
}

/// The text a file gets for a record: its line and a line break.
pub fn file_entry(record: &LogRecord, nanos: i128) -> (r: String)
    ensures
        r@ == line_of(stamped(nanos as int), *record) + "\n"@,
{
    joined(format_line(record, nanos).as_str(), "\n")
}

/// Every level takes a column of the same width.
pub proof fn law_the_level_column_keeps_its_width(level: Level)
    ensures
        level.column().len() == 5,
{
    reveal_strlit("ERROR");
    reveal_strlit("WARN ");
    reveal_strlit("INFO ");
    reveal_strlit("DEBUG");
    reveal_strlit("TRACE");
}

/// The stamp and the level take the same columns in every line, whatever the
/// record says: the target starts at one place.
pub proof fn law_the_columns_line_up(stamp: Seq<char>, record: LogRecord)
    requires
        stamp.len() == 24,
    ensures
        line_of(stamp, record).take(24) == stamp,
        line_of(stamp, record).subrange(25, 30) == record.level.column(),
        line_of(stamp, record).skip(31) == record.target@ + " "@ + record.message@,
{
    law_the_level_column_keeps_its_width(record.level);
    reveal_strlit(" ");
    let line = line_of(stamp, record);
    assert(line.take(24) =~= stamp);
    assert(line.subrange(25, 30) =~= record.level.column());
    assert(line.skip(31) =~= record.target@ + " "@ + record.message@);
}

/// Errors, warnings and notices are filed, and nothing finer is; a record of the control
/// loop goes to its own lane, whatever follows the loop's name, and any other to the
/// commands'.
pub proof fn law_what_is_filed_and_where(level: Level, target: Seq<char>)
    ensures
        level.filed() <==> level != Level::Debug && level != Level::Trace,
        lane_of("par6_rt"@ + target) == Lane::Rt,
        !"par6_rt"@.is_prefix_of(target) ==> lane_of(target) == Lane::Command,
{
    assert(("par6_rt"@ + target).take("par6_rt"@.len() as int) =~= "par6_rt"@);
    assert("par6_rt"@.is_prefix_of("par6_rt"@ + target));
}

/// A line is its stamp, its level, its target and its message, with a space between, and
/// no two levels read alike.
pub proof fn law_a_line_says_everything(stamp: Seq<char>, record: LogRecord, other: Level)
    ensures
        line_of(stamp, record) == stamp + " "@ + record.level.column() + " "@ + record.target@
            + " "@ + record.message@,
        record.level != other ==> record.level.column() != other.column(),
        Level::Error.column() == "ERROR"@,
        Level::Warn.column() == "WARN "@,
        Level::Info.column() == "INFO "@,
        Level::Debug.column() == "DEBUG"@,
        Level::Trace.column() == "TRACE"@,
{
    reveal_strlit("ERROR");
    reveal_strlit("WARN ");
    reveal_strlit("INFO ");
    reveal_strlit("DEBUG");
    reveal_strlit("TRACE");
    assert(record.level.column()[0] == other.column()[0] ==> record.level == other);
}

/// An instant that has a civil time is stamped with it, and one before or after all that do
/// with dashes.
pub proof fn law_an_instant_without_a_civil_time_is_dashed(nanos: int)
    ensures
        nanos < -377_705_023_201_000_000_000 || nanos > 253_402_207_200_999_999_999 ==> stamped(
            nanos,
        ) == "----------T--:--:--.---Z"@,
        -377_705_023_201_000_000_000 <= nanos <= 253_402_207_200_999_999_999 ==> stamped(nanos)
            == civil_text(nanos, "%Y-%m-%dT%H:%M:%S.%3fZ"@),
{
}

} // verus!
