//! Clock module: the local time in a `strftime`-style format.
use std::fmt::Write;
use std::time::Duration;

use vstd::prelude::*;

use super::{
    duration_of_millis, plain_snapshot, region_of, region_setting, BarRegion, Module,
    ModuleEvent, ModuleSnapshot, SnapshotView,
};
use crate::config::types::ModuleEntry;
use crate::text::{chars_of, contains_str, contains_text, string_of};

verus! {

/// `std::time::SystemTime`, the reading of the system clock.
#[verifier::external_type_specification]
#[verifier::external_body]
pub struct ExSystemTime(std::time::SystemTime);

/// `SystemTime::now`: the system clock now.  It depends on the clock, so
/// nothing is stated of it.
#[verifier::external_body]
fn system_now() -> std::time::SystemTime {
    std::time::SystemTime::now()
}

/// `SystemTime::duration_since(UNIX_EPOCH)`: how long after the Unix epoch
/// `t` lies, `None` for a time before it.  What it gives depends on the
/// clock's reading, so nothing is stated of it.
#[verifier::external_body]
fn since_epoch(t: std::time::SystemTime) -> Option<Duration> {
    t.duration_since(std::time::UNIX_EPOCH).ok()
}

/// `Duration::as_secs`: the whole seconds of a duration.
pub assume_specification[ core::time::Duration::as_secs ](d: &Duration) -> u64;

/// `Duration::subsec_nanos`: the nanoseconds past the whole seconds.
pub assume_specification[ core::time::Duration::subsec_nanos ](d: &Duration) -> u32;

/// The offset of local time from UTC, in seconds, at the instant
/// `secs`/`nanos` after the epoch, with `chrono::DateTime::from_timestamp`
/// and `Local::offset_from_utc_datetime`: `None` when chrono has no such
/// instant.  It depends on the machine's time zone, so nothing more is
/// stated.  chrono panics only when it cannot select a local time type from
/// the system's time-zone data, or that data gives an offset of a whole day
/// or more; no argument decides either.
#[verifier::external_body]
fn local_offset_at(secs: i64, nanos: u32) -> Option<i32> {
    let t = chrono::DateTime::from_timestamp(secs, nanos)?;
    Some(chrono::TimeZone::offset_from_utc_datetime(&chrono::Local, &t.naive_utc()).local_minus_utc())
}

/// The current time: seconds since the Unix epoch, the nanoseconds past
/// them and the local offset from UTC in seconds; `None` when the clock
/// reads before the epoch or past what an `i64` of seconds holds, or the
/// offset is unknown.
fn read_clock() -> (r: Option<(i64, u32, i32)>) {
    let d = match since_epoch(system_now()) {
        Some(d) => d,
        None => {
            return None;
        },
    };
    let secs = d.as_secs();
    let nanos = d.subsec_nanos();
    if secs > 0x7fff_ffff_ffff_ffffu64 {
        return None;
    }
    let secs = secs as i64;
    match local_offset_at(secs, nanos) {
        Some(offset) => Some((secs, nanos, offset)),
        None => None,
    }
}

/// What chrono writes for the instant `secs`/`nanos` seen at the offset
/// `offset` (seconds east of UTC), formatted with the strftime-style
/// `format`: `None` when chrono has no such instant or offset, or cannot
/// render the format.
pub uninterp spec fn time_text(secs: i64, nanos: u32, offset: i32, format: Seq<char>) -> Option<
    Seq<char>,
>;

/// Formats an instant with `chrono::DateTime::from_timestamp`,
/// `FixedOffset::east_opt`, `with_timezone` and `format`.
#[verifier::external_body]
fn format_time(secs: i64, nanos: u32, offset: i32, format: &str) -> (r: Option<String>)
    ensures
        crate::config::types::opt_view(r) == time_text(secs, nanos, offset, format@),
{
    let zone = chrono::FixedOffset::east_opt(offset)?;
    let t = chrono::DateTime::from_timestamp(secs, nanos)?;
    let mut s = String::new();
    write!(s, "{}", t.with_timezone(&zone).format(format)).ok()?;
    Some(s)
}

/// The text a clock shows at an instant: the formatted time, or nothing
/// when chrono cannot format it.
pub open spec fn clock_shown(secs: i64, nanos: u32, offset: i32, format: Seq<char>) -> Seq<char> {
    match time_text(secs, nanos, offset, format) {
        Some(t) => t,
        None => Seq::empty(),
    }
}

pub struct ClockModule {
    format: String,
    region: BarRegion,
}

/// The format a clock uses: the entry's `format`, else its `format` extra
/// setting, else `%H:%M`.
pub open spec fn clock_format(entry: crate::config::types::EntryView) -> Seq<char> {
    if entry.format.len() > 0 {
        entry.format
    } else if entry.extra.contains_key("format"@) {
        entry.extra["format"@]
    } else {
        "%H:%M"@
    }
}

/// Milliseconds between ticks: one second when the format shows seconds
/// (`%S` or `%T`), thirty otherwise.
pub open spec fn clock_interval_ms(format: Seq<char>) -> u64 {
    if contains_text(format, "%S"@) || contains_text(format, "%T"@) {
        1000
    } else {
        30000
    }
}

impl ClockModule {
    pub closed spec fn format(&self) -> Seq<char> {
        self.format@
    }

    pub closed spec fn region(&self) -> BarRegion {
        self.region
    }

    pub fn new(entry: &ModuleEntry) -> (m: Self)
        ensures
            m.format() == clock_format(entry@),
            m.region() == region_setting(entry@.extra, BarRegion::Right),
    {
        let format = if !entry.format.as_str().is_empty() {
            proof {
                assert(entry.format@.len() > 0);
            }
            entry.format.clone()
        } else {
            match entry.extra.get("format") {
                Some(f) => f,
                None => string_of(&chars_of("%H:%M")),
            }
        };
        ClockModule { format, region: region_of(entry, BarRegion::Right) }
    }

    /// Milliseconds between ticks.
    pub fn interval_ms(&self) -> (r: u64)
        ensures
            r == clock_interval_ms(self.format()),
    {
        let f = chars_of(self.format.as_str());
        if contains_str(&f, "%S") || contains_str(&f, "%T") {
            1000
        } else {
            30000
        }
    }

    /// The snapshot at the instant `secs`/`nanos` seen at `offset` seconds
    /// east of UTC: the time in this clock's format.
    pub fn snapshot_at(&self, secs: i64, nanos: u32, offset: i32) -> (r: ModuleSnapshot)
        ensures
            r@.text == clock_shown(secs, nanos, offset, self.format()),
            r.fg is None,
            r.icon is None,
            r.region == self.region(),
    {
        let text = match format_time(secs, nanos, offset, self.format.as_str()) {
            Some(t) => t,
            None => String::new(),
        };
        plain_snapshot(text, self.region)
    }

    /// The snapshot at the current local time; an empty text when the time
    /// cannot be read.
    fn snapshot(&self) -> (r: ModuleSnapshot)
        ensures
            shows_some_time(r@.text, self.format()),
            r.fg is None,
            r.icon is None,
            r.region == self.region(),
    {
        match read_clock() {
            Some((secs, nanos, offset)) => {
                let r = self.snapshot_at(secs, nanos, offset);
                assert(r@.text == clock_shown(secs, nanos, offset, self.format()));
                r
            },
            None => plain_snapshot(String::new(), self.region),
        }
    }
}

/// `text` is the time at some instant in `format`, or empty (the time could
/// not be read).
pub open spec fn shows_some_time(text: Seq<char>, format: Seq<char>) -> bool {
    ||| text.len() == 0
    ||| exists|secs: i64, nanos: u32, offset: i32| text == #[trigger] clock_shown(secs, nanos, offset, format)
}

impl Module for ClockModule {
    /// Some instant, in the format of the clock.
    open spec fn shows_initially(&self, s: SnapshotView) -> bool {
        &&& shows_some_time(s.text, self.format())
        &&& s.fg is None
        &&& s.icon is None
        &&& s.region == self.region()
    }

    open spec fn shows_after_tick(&self, s: SnapshotView) -> bool {
        self.shows_initially(s)
    }

    open spec fn ticks_every(&self, d: Duration) -> bool {
        d == duration_of_millis(clock_interval_ms(self.format()))
    }

    /// Clicks and scrolls run nothing.
    open spec fn answers(&self, event: ModuleEvent, r: Option<Seq<char>>) -> bool {
        r is None
    }

    fn kind(&self) -> (r: &'static str)
        ensures
            r@ == "clock"@,
    {
        "clock"
    }

    fn initial(&self) -> (r: ModuleSnapshot)
        ensures
            shows_some_time(r@.text, self.format()),
            r.fg is None,
            r.icon is None,
            r.region == self.region(),
    {
        self.snapshot()
    }

    fn tick(&mut self) -> (r: ModuleSnapshot)
        ensures
            shows_some_time(r@.text, old(self).format()),
            r.fg is None,
            r.icon is None,
            r.region == old(self).region(),
    {
        self.snapshot()
    }

    fn interval(&self) -> (d: Duration)
        ensures
            d == duration_of_millis(clock_interval_ms(self.format())),
    {
        Duration::from_millis(self.interval_ms())
    }

    fn on_event(&mut self, _event: ModuleEvent) -> (r: Option<String>) {
        None
    }
}

} // verus!
