//! Settings of the core's log files and which old log files are removed.
use vstd::prelude::*;
use vstd::string::StringSliceAdditionalSpecFns;

use crate::parser::common::{parse_port, port_of};
use crate::text::{ascii_lower, chars_of, has_prefix, lowercase, same_str, starts_with, string_from, trim, trimmed};

verus! {

/// The name every log file of the core starts with.
pub open spec fn log_file_prefix() -> Seq<char> {
    "subforge-core.log"@
}

/// The log level used when none is configured.
pub open spec fn default_log_level() -> Seq<char> {
    "info"@
}

/// How many days of log files are kept when nothing is configured.
pub const DEFAULT_LOG_RETENTION_DAYS: u16 = 7;

/// The level of the core's tracing output.
#[derive(Debug, Clone, Copy, PartialEq, Eq, Structural)]
pub enum LogLevel {
    Trace,
    Debug,
    Info,
    Warn,
    Error,
}

/// The level a configured name selects; unknown names select `Info`.
pub open spec fn level_of(level: Seq<char>) -> LogLevel {
    if level == "trace"@ {
        LogLevel::Trace
    } else if level == "debug"@ {
        LogLevel::Debug
    } else if level == "info"@ {
        LogLevel::Info
    } else if level == "warn"@ {
        LogLevel::Warn
    } else if level == "error"@ {
        LogLevel::Error
    } else {
        LogLevel::Info
    }
}

/// The level a configured name selects (see [`level_of`]).
pub fn parse_tracing_level(level: &str) -> (r: LogLevel)
    ensures
        r == level_of(level@),
{
    let l = chars_of(level);
    if same_str(l.as_slice(), "trace") {
        LogLevel::Trace
    } else if same_str(l.as_slice(), "debug") {
        LogLevel::Debug
    } else if same_str(l.as_slice(), "info") {
        LogLevel::Info
    } else if same_str(l.as_slice(), "warn") {
        LogLevel::Warn
    } else if same_str(l.as_slice(), "error") {
        LogLevel::Error
    } else {
        LogLevel::Info
    }
}

/// The log level in effect: the configuration file's level (trimmed, ASCII lowercase) when
/// there is a configuration file; else the stored setting when it is not blank; else
/// `info`.
pub open spec fn log_level_setting(config_level: Option<Seq<char>>, stored: Option<Seq<char>>) -> Seq<char> {
    match config_level {
        Some(l) => ascii_lower(trim(l)),
        None => match stored {
            Some(v) => if ascii_lower(trim(v)).len() > 0 {
                ascii_lower(trim(v))
            } else {
                default_log_level()
            },
            None => default_log_level(),
        },
    }
}

/// The view of an optional text.
pub open spec fn opt_text(t: Option<&str>) -> Option<Seq<char>> {
    match t {
        Some(s) => Some(s@),
        None => None,
    }
}

/// The log level in effect (see [`log_level_setting`]).
pub fn resolve_log_level(config_level: Option<&str>, stored: Option<&str>) -> (r: String)
    ensures
        r@ == log_level_setting(opt_text(config_level), opt_text(stored)),
{
    match config_level {
        Some(l) => {
            let v = lowercase(trimmed(chars_of(l).as_slice()).as_slice());
            string_from(v.as_slice())
        },
        None => match stored {
            Some(s) => {
                let v = lowercase(trimmed(chars_of(s).as_slice()).as_slice());
                if v.len() > 0 {
                    string_from(v.as_slice())
                } else {
                    "info".to_owned()
                }
            },
            None => "info".to_owned(),
        },
    }
}

/// How many days of logs are kept: the configuration file's number (at least one) when
/// there is a configuration file; else the stored setting read as a `u16` once trimmed
/// (seven when it does not read), at least one; else seven.
pub open spec fn retention_setting(config_days: Option<u16>, stored: Option<Seq<char>>) -> u16 {
    match config_days {
        Some(d) => if d >= 1 {
            d
        } else {
            1
        },
        None => match stored {
            Some(v) => {
                let parsed: u16 = match port_of(trim(v)) {
                    Ok(n) => n,
                    Err(_) => DEFAULT_LOG_RETENTION_DAYS,
                };
                if parsed >= 1 {
                    parsed
                } else {
                    1
                }
            },
            None => DEFAULT_LOG_RETENTION_DAYS,
        },
    }
}

/// How many days of logs are kept (see [`retention_setting`]).
pub fn resolve_log_retention_days(config_days: Option<u16>, stored: Option<&str>) -> (r: u16)
    ensures
        r == retention_setting(config_days, opt_text(stored)),
{
    match config_days {
        Some(d) => if d >= 1 {
            d
        } else {
            1
        },
        None => match stored {
            Some(s) => {
                let t = trimmed(chars_of(s).as_slice());
                let parsed: u16 = match parse_port(t.as_slice()) {
                    Ok(n) => n,
                    Err(_) => DEFAULT_LOG_RETENTION_DAYS,
                };
                if parsed >= 1 {
                    parsed
                } else {
                    1
                }
            },
            None => DEFAULT_LOG_RETENTION_DAYS,
        },
    }
}

// ------------------------------------------------------------------
// Dates in log file names
// ------------------------------------------------------------------

/// A day of the proleptic Gregorian calendar.
#[derive(Debug, Clone, Copy, PartialEq, Eq, Structural)]
pub struct LogDate {
    pub year: i32,
    pub month: u8,
    pub day: u8,
}

/// A leap year of the Gregorian calendar.
pub open spec fn is_leap_year(year: int) -> bool {
    (year % 4 == 0 && year % 100 != 0) || year % 400 == 0
}

/// The number of days of a month.
pub open spec fn days_in_month(year: int, month: int) -> int {
    if month == 2 {
        if is_leap_year(year) {
            29
        } else {
            28
        }
    } else if month == 4 || month == 6 || month == 9 || month == 11 {
        30
    } else {
        31
    }
}

/// A date that `time::Date` can hold: years -9999 to 9999, a month from one to twelve and
/// a day of that month.
pub open spec fn valid_date(year: int, month: int, day: int) -> bool {
    &&& -9999 <= year <= 9999
    &&& 1 <= month <= 12
    &&& 1 <= day <= days_in_month(year, month)
}

/// `a` comes before `b`.
pub open spec fn date_before(a: LogDate, b: LogDate) -> bool {
    ||| a.year < b.year
    ||| (a.year == b.year && a.month < b.month)
    ||| (a.year == b.year && a.month == b.month && a.day < b.day)
}

/// The date `days` days before `date`, as `time::Date::checked_sub` computes it; nothing
/// when that leaves the range of `time::Date`.
pub uninterp spec fn days_earlier(date: LogDate, days: u16) -> Option<LogDate>;

/// Makes a calendar date with `time::Month::try_from` and `time::Date::from_calendar_date`;
/// the `time` crate (without its `large-dates` feature) accepts exactly the dates that
/// [`valid_date`] describes.
#[verifier::external_body]
fn calendar_date(year: i32, month: u8, day: u8) -> (r: Option<LogDate>)
    ensures
        r == (if valid_date(year as int, month as int, day as int) {
            Some(LogDate { year, month, day })
        } else {
            None
        }),
{
    let m = time::Month::try_from(month).ok()?;
    let d = time::Date::from_calendar_date(year, m, day).ok()?;
    Some(LogDate { year: d.year(), month: u8::from(d.month()), day: d.day() })
}

/// Steps back `days` days from a valid date with `time::Date::checked_sub`. The date is
/// named by [`days_earlier`].
#[verifier::external_body]
fn subtract_days(date: LogDate, days: u16) -> (r: Option<LogDate>)
    requires
        valid_date(date.year as int, date.month as int, date.day as int),
    ensures
        r == days_earlier(date, days),
{
    let m = time::Month::try_from(date.month).ok()?;
    let d = time::Date::from_calendar_date(date.year, m, date.day).ok()?;
    let earlier = d.checked_sub(time::Duration::days(i64::from(days)))?;
    Some(LogDate { year: earlier.year(), month: u8::from(earlier.month()), day: earlier.day() })
}

/// The bytes are ASCII digits.
pub open spec fn ascii_digits(s: Seq<u8>) -> bool {
    forall|i: int| 0 <= i < s.len() ==> 48 <= #[trigger] s[i] <= 57
}

/// The number ASCII digits spell.
pub open spec fn digits_number(s: Seq<u8>) -> nat
    decreases s.len(),
{
    if s.len() == 0 {
        0
    } else {
        digits_number(s.drop_last()) * 10 + (s.last() - 48) as nat
    }
}

/// A number of at most `max` spelled by one or more ASCII digits.
pub open spec fn small_number(s: Seq<u8>, max: nat) -> Option<nat> {
    if s.len() == 0 || !ascii_digits(s) || digits_number(s) > max {
        None
    } else {
        Some(digits_number(s))
    }
}

/// Reads ASCII digits as a number of at most `max`.
fn read_digits(raw: &[u8], max: u64) -> (r: Option<u64>)
    requires
        max >= 9,
    ensures
        match r {
            Some(n) => small_number(raw@, max as nat) == Some(n as nat),
            None => small_number(raw@, max as nat) is None,
        },
{
    if raw.len() == 0 {
        return None;
    }
    let mut value: u64 = 0;
    let mut i: usize = 0;
    while i < raw.len()
        invariant
            i <= raw.len(),
            raw.len() > 0,
            ascii_digits(raw@.take(i as int)),
            value == digits_number(raw@.take(i as int)),
            value <= max,
            max >= 9,
        decreases raw.len() - i,
    {
        let b = raw[i];
        proof {
            assert(raw@.take(i + 1).drop_last() =~= raw@.take(i as int));
            assert(raw@.take(i + 1).last() == b);
        }
        if b < 48 || b > 57 {
            assert(!ascii_digits(raw@)) by {
                assert(raw@[i as int] == b);
            }
            return None;
        }
        let d = (b - 48) as u64;
        if value > (max - d) / 10 {
            proof {
                assert(digits_number(raw@.take(i + 1)) == value * 10 + d);
                assert(value * 10 + d > max) by (nonlinear_arith)
                    requires
                        value > (max - d) / 10,
                        d <= 9,
                        d <= max || true,
                ;
                if ascii_digits(raw@) {
                    lemma_digits_grow(raw@, i + 1);
                }
            }
            return None;
        }
        assert(value * 10 + d <= max) by (nonlinear_arith)
            requires
                value <= (max - d) / 10,
                d <= max,
        ;
        value = value * 10 + d;
        i += 1;
        assert(ascii_digits(raw@.take(i as int)));
    }
    assert(raw@.take(raw@.len() as int) =~= raw@);
    Some(value)
}

/// The number of a longer run of digits is at least that of its prefix.
proof fn lemma_digits_grow(s: Seq<u8>, k: int)
    requires
        0 <= k <= s.len(),
        ascii_digits(s),
    ensures
        digits_number(s) >= digits_number(s.take(k)),
    decreases s.len() - k,
{
    if k < s.len() {
        lemma_digits_grow(s, k + 1);
        assert(s.take(k + 1).drop_last() =~= s.take(k));
        assert(s.take(k + 1).last() == s[k]);
    } else {
        assert(s.take(k) =~= s);
    }
}

/// Reads one or more ASCII digits as a `u16` (`str::parse` on digits only).
pub fn parse_u16(raw: &[u8]) -> (r: Option<u16>)
    ensures
        match r {
            Some(n) => small_number(raw@, 65535) == Some(n as nat),
            None => small_number(raw@, 65535) is None,
        },
{
    match read_digits(raw, 65535) {
        Some(n) => Some(n as u16),
        None => None,
    }
}

/// Reads one or more ASCII digits as a `u8` (`str::parse` on digits only).
pub fn parse_u8(raw: &[u8]) -> (r: Option<u8>)
    ensures
        match r {
            Some(n) => small_number(raw@, 255) == Some(n as nat),
            None => small_number(raw@, 255) is None,
        },
{
    match read_digits(raw, 255) {
        Some(n) => Some(n as u8),
        None => None,
    }
}

/// The date that ten bytes `YYYY-MM-DD` spell, when it is a valid date.
pub open spec fn iso_date(s: Seq<u8>) -> Option<LogDate> {
    if s.len() != 10 || s[4] != 45 || s[7] != 45 {
        None
    } else {
        match (
            small_number(s.subrange(0, 4), 65535),
            small_number(s.subrange(5, 7), 255),
            small_number(s.subrange(8, 10), 255),
        ) {
            (Some(y), Some(m), Some(d)) => if valid_date(y as int, m as int, d as int) {
                Some(LogDate { year: y as i32, month: m as u8, day: d as u8 })
            } else {
                None
            },
            _ => None,
        }
    }
}

/// The bytes `lo..hi` of `s` as a new vector.
fn byte_range(s: &[u8], lo: usize, hi: usize) -> (r: Vec<u8>)
    requires
        lo <= hi <= s.len(),
    ensures
        r@ == s@.subrange(lo as int, hi as int),
{
    let mut out: Vec<u8> = Vec::new();
    let mut i: usize = lo;
    while i < hi
        invariant
            lo <= i <= hi <= s.len(),
            out@ == s@.subrange(lo as int, i as int),
        decreases hi - i,
    {
        out.push(s[i]);
        i += 1;
        assert(out@ =~= s@.subrange(lo as int, i as int));
    }
    out
}

/// The date that ten bytes `YYYY-MM-DD` spell (see [`iso_date`]).
pub fn parse_iso_date_slice(slice: &[u8]) -> (r: Option<LogDate>)
    ensures
        r == iso_date(slice@),
{
    if slice.len() != 10 || slice[4] != 45 || slice[7] != 45 {
        return None;
    }
    let year = match parse_u16(byte_range(slice, 0, 4).as_slice()) {
        Some(y) => y,
        None => {
            return None;
        },
    };
    let month = match parse_u8(byte_range(slice, 5, 7).as_slice()) {
        Some(m) => m,
        None => {
            return None;
        },
    };
    let day = match parse_u8(byte_range(slice, 8, 10).as_slice()) {
        Some(d) => d,
        None => {
            return None;
        },
    };
    calendar_date(year as i32, month, day)
}

/// The first date `YYYY-MM-DD` in `s` at or after byte `i`.
pub open spec fn date_from(s: Seq<u8>, i: int) -> Option<LogDate>
    decreases s.len() - i,
{
    if i < 0 || i + 10 > s.len() {
        None
    } else {
        match iso_date(s.subrange(i, i + 10)) {
            Some(d) => Some(d),
            None => date_from(s, i + 1),
        }
    }
}

/// The first date `YYYY-MM-DD` in the bytes of a file name.
pub fn extract_iso_date(file_name: &str) -> (r: Option<LogDate>)
    ensures
        r == date_from(file_name.spec_bytes(), 0),
{
    let bytes = file_name.as_bytes();
    let ghost s = file_name.spec_bytes();
    if bytes.len() < 10 {
        return None;
    }
    let mut index: usize = 0;
    while index <= bytes.len() - 10
        invariant
            s == file_name.spec_bytes(),
            bytes@ == s,
            bytes.len() >= 10,
            index <= bytes.len() - 9,
            date_from(s, 0) == date_from(s, index as int),
        decreases bytes.len() - index,
    {
        let window = byte_range(bytes, index, index + 10);
        assert(window@ == s.subrange(index as int, index + 10));
        match parse_iso_date_slice(window.as_slice()) {
            Some(d) => {
                return Some(d);
            },
            None => {},
        }
        index += 1;
    }
    None
}

/// The oldest day whose logs are kept: `retention_days` days counting today (at least
/// one); nothing when that day is out of the calendar's range.
pub fn oldest_kept_date(today: LogDate, retention_days: u16) -> (r: Option<LogDate>)
    requires
        valid_date(today.year as int, today.month as int, today.day as int),
    ensures
        r == days_earlier(
            today,
            (if retention_days >= 1 {
                retention_days
            } else {
                1u16
            } - 1) as u16,
        ),
{
    let keep: u16 = if retention_days >= 1 {
        retention_days
    } else {
        1
    };
    subtract_days(today, keep - 1)
}

/// A log file of the core that is older than the oldest kept day: a file (not a
/// directory) whose name starts with `subforge-core.log` and holds a date before it.
pub open spec fn expired_log(file_name: &str, is_file: bool, oldest_kept: LogDate) -> bool {
    &&& is_file
    &&& starts_with(file_name@, log_file_prefix())
    &&& match date_from(file_name.spec_bytes(), 0) {
        Some(d) => date_before(d, oldest_kept),
        None => false,
    }
}

/// Whether a directory entry is an expired log file (see [`expired_log`]).
pub fn is_expired_log_file(file_name: &str, is_file: bool, oldest_kept: LogDate) -> (r: bool)
    ensures
        r == expired_log(file_name, is_file, oldest_kept),
{
    if !is_file {
        return false;
    }
    if !has_prefix(chars_of(file_name).as_slice(), chars_of("subforge-core.log").as_slice()) {
        return false;
    }
    match extract_iso_date(file_name) {
        Some(d) => d.year < oldest_kept.year || (d.year == oldest_kept.year && d.month < oldest_kept.month)
            || (d.year == oldest_kept.year && d.month == oldest_kept.month && d.day < oldest_kept.day),
        None => false,
    }
}

} // verus!
