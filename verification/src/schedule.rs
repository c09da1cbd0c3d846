use vstd::prelude::*;
use std::str::FromStr;
use crate::text::{
    ends_with, from_chars, lit, owned, parse_u64, parse_u64_spec, push_str, slice, starts_with,
    starts_with_chars, to_chars, trim, trim_chars,
};

verus! {

broadcast use vstd::string::group_string_axioms;

// ---------------------------------------------------------------------------
// Time values.
// ---------------------------------------------------------------------------

/// A span of whole seconds.
#[derive(PartialEq, Eq, Structural, Clone, Copy, Debug)]
pub struct Duration {
    pub secs: u64,
}

impl Duration {
    /// A span of `secs` seconds.
    pub fn from_secs(secs: u64) -> (r: Duration)
        ensures
            r.secs == secs,
    {
        Duration { secs }
    }

    /// The number of seconds.
    pub fn as_secs(&self) -> (r: u64)
        ensures
            r == self.secs,
    {
        self.secs
    }
}

/// A point in UTC time: seconds since the Unix epoch and nanoseconds within the
/// second. Ordered first by seconds, then by nanoseconds.
#[derive(PartialEq, Eq, Structural, Clone, Copy, Debug)]
pub struct Timestamp {
    pub secs: i64,
    pub nanos: u32,
}

/// `a` is not later than `b`.
pub open spec fn ts_le(a: Timestamp, b: Timestamp) -> bool {
    a.secs < b.secs || (a.secs == b.secs && a.nanos <= b.nanos)
}

/// Whether `a` is not later than `b`.
pub fn timestamp_le(a: Timestamp, b: Timestamp) -> (r: bool)
    ensures
        r == ts_le(a, b),
{
    a.secs < b.secs || (a.secs == b.secs && a.nanos <= b.nanos)
}

/// The largest number of seconds a chrono time span holds.
pub open spec fn max_span_secs() -> int {
    9_223_372_036_854_775
}

/// The earliest second chrono represents (the start of year -262143).
pub open spec fn min_timestamp_secs() -> int {
    -8_334_601_228_800
}

/// The latest second chrono represents (the end of year 262142).
pub open spec fn max_timestamp_secs() -> int {
    8_210_266_876_799
}

/// `t` moved `d` later, when chrono can represent both the span and the result.
pub open spec fn add_span(t: Timestamp, d: Duration) -> Option<Timestamp> {
    if d.secs > max_span_secs() || t.secs + d.secs > max_timestamp_secs() {
        None
    } else {
        Some(Timestamp { secs: (t.secs + d.secs) as i64, nanos: t.nanos })
    }
}

/// `t` moved `d` later, when chrono can represent both the span and the result.
pub fn add_duration(t: Timestamp, d: Duration) -> (r: Option<Timestamp>)
    ensures
        r == add_span(t, d),
{
    if d.secs > 9_223_372_036_854_775u64 {
        return None;
    }
    let ds = d.secs as i64;
    if t.secs > 8_210_266_876_799i64 - ds {
        return None;
    }
    Some(Timestamp { secs: t.secs + ds, nanos: t.nanos })
}

/// The RFC 3339 text that chrono's `to_rfc3339` gives for a UTC time.
pub uninterp spec fn rfc3339_text(secs: i64, nanos: u32) -> Seq<char>;

/// The UTC time that chrono's `DateTime::parse_from_rfc3339` reads from a text.
pub uninterp spec fn rfc3339_time(text: Seq<char>) -> Option<(i64, u32)>;

/// Whether `cron::Schedule::from_str` accepts an expression.
pub uninterp spec fn cron_accepts(expr: Seq<char>) -> bool;

/// `chrono::Utc::now`: the current time; nothing is known of its value.
#[verifier::external_body]
pub(crate) fn now() -> (r: Timestamp)
    ensures
        r.nanos < 1_000_000_000,
        min_timestamp_secs() <= r.secs <= max_timestamp_secs(),
{
    let t = chrono::Utc::now();
    Timestamp { secs: t.timestamp(), nanos: t.timestamp_subsec_nanos() }
}

/// `chrono::DateTime::parse_from_rfc3339`, converted to UTC; `None` for text
/// that is not RFC 3339. A parsed time is one chrono holds (its date-time type
/// keeps that range and form).
#[verifier::external_body]
pub(crate) fn parse_rfc3339(text: &str) -> (r: Option<Timestamp>)
    ensures
        r matches Some(t) ==> chrono_time(t),
        r matches Some(t) ==> rfc3339_time(text@) == Some((t.secs, t.nanos)),
        r is None ==> rfc3339_time(text@) is None,
{
    chrono::DateTime::parse_from_rfc3339(text).ok().map(
        |d| Timestamp { secs: d.timestamp(), nanos: d.timestamp_subsec_nanos() },
    )
}

/// `chrono::DateTime::<Utc>::to_rfc3339` of the time `t`.
#[verifier::external_body]
pub(crate) fn format_rfc3339(t: Timestamp) -> (r: String)
    requires
        t.nanos < 1_000_000_000,
        t.secs <= max_timestamp_secs(),
        t.secs >= min_timestamp_secs(),
    ensures
        r@ == rfc3339_text(t.secs, t.nanos),
{
    chrono::DateTime::<chrono::Utc>::from_timestamp(t.secs, t.nanos).unwrap().to_rfc3339()
}

/// What chrono's `format("%Y-%m-%d %H:%M")` shows for a UTC time.
pub uninterp spec fn minute_text(secs: i64, nanos: u32) -> Seq<char>;

/// A time that chrono holds: within its range of seconds, with a part below
/// one second, or below two seconds in a leap second (the 59th second of a
/// minute).
pub open spec fn chrono_time(t: Timestamp) -> bool {
    &&& min_timestamp_secs() <= t.secs <= max_timestamp_secs()
    &&& (t.nanos < 1_000_000_000 || (t.nanos < 2_000_000_000 && t.secs % 60 == 59))
}

/// `chrono::DateTime::<Utc>::from_timestamp` of `t`, then
/// `format("%Y-%m-%d %H:%M")`: the date and the minute of `t` in UTC.
#[verifier::external_body]
pub(crate) fn format_minute(t: Timestamp) -> (r: String)
    requires
        chrono_time(t),
    ensures
        r@ == minute_text(t.secs, t.nanos),
{
    chrono::DateTime::<chrono::Utc>::from_timestamp(t.secs, t.nanos).unwrap().format("%Y-%m-%d %H:%M").to_string()
}

/// `cron::Schedule::from_str(expr).is_ok()`.
#[verifier::external_body]
pub(crate) fn cron_is_valid(expr: &str) -> (r: bool)
    ensures
        r == cron_accepts(expr@),
{
    cron::Schedule::from_str(expr).is_ok()
}

/// The next time after the UTC time `secs`/`nanos` at which the cron
/// expression fires, as `cron::Schedule::after(..).next()` gives it.
pub uninterp spec fn cron_next_after(expr: Seq<char>, secs: i64, nanos: u32) -> Option<(i64, u32)>;

/// The time that `cron_next_after` names for `t`, as a timestamp.
pub open spec fn cron_after_time(expr: Seq<char>, t: Timestamp) -> Option<Timestamp> {
    match cron_next_after(expr, t.secs, t.nanos) {
        Some((s, n)) => Some(Timestamp { secs: s, nanos: n }),
        None => None,
    }
}

/// `cron::Schedule::from_str(expr)`, then `after(t).next()`: the next time
/// after `t` that the expression fires; `None` for an expression cron refuses
/// or one that never fires again. The result is a time chrono represents.
/// `t` must be before chrono's last second, as the crate adds one second to
/// it before searching.
#[verifier::external_body]
pub(crate) fn cron_after(expr: &str, t: Timestamp) -> (r: Option<Timestamp>)
    requires
        t.nanos < 1_000_000_000,
        min_timestamp_secs() <= t.secs < max_timestamp_secs(),
    ensures
        r matches Some(n) ==> cron_next_after(expr@, t.secs, t.nanos) == Some((n.secs, n.nanos)),
        r is None ==> cron_next_after(expr@, t.secs, t.nanos) is None,
        !cron_accepts(expr@) ==> r is None,
        r matches Some(n) ==> n.nanos < 1_000_000_000 && min_timestamp_secs() <= n.secs
            <= max_timestamp_secs(),
{
    match cron::Schedule::from_str(expr) {
        Ok(s) => {
            let start = chrono::DateTime::<chrono::Utc>::from_timestamp(t.secs, t.nanos).unwrap();
            s.after(&start).next().map(
                |d| Timestamp { secs: d.timestamp(), nanos: d.timestamp_subsec_nanos() },
            )
        },
        Err(_) => None,
    }
}

// ---------------------------------------------------------------------------
// Parsing durations and schedules.
// ---------------------------------------------------------------------------

/// Why a duration or schedule was refused.
#[derive(Clone, Debug)]
pub enum ScheduleError {
    EmptyDuration,
    InvalidNumber(String),
    InvalidCron(String),
    UnknownFormat(String),
    OutOfRange,
}

/// The message shown for a schedule error.
pub open spec fn schedule_error_text(e: ScheduleError) -> Seq<char> {
    match e {
        ScheduleError::EmptyDuration => "Empty duration string"@,
        ScheduleError::InvalidNumber(n) => "Invalid duration number: '"@ + n@ + "'"@,
        ScheduleError::InvalidCron(c) => "Invalid cron expression: "@ + c@,
        ScheduleError::UnknownFormat(f) => "Unknown schedule format: '"@ + f@
            + "'. Use delay:, cron:, or interval:"@,
        ScheduleError::OutOfRange => "Duration out of range"@,
    }
}

impl ScheduleError {
    /// The message shown for the error.
    pub fn message(&self) -> (r: String)
        ensures
            r@ == schedule_error_text(*self),
    {
        match self {
            ScheduleError::EmptyDuration => lit("Empty duration string"),
            ScheduleError::InvalidNumber(n) => {
                let mut s = lit("Invalid duration number: '");
                push_str(&mut s, n.as_str());
                push_str(&mut s, "'");
                s
            },
            ScheduleError::InvalidCron(e) => {
                let mut s = lit("Invalid cron expression: ");
                push_str(&mut s, e.as_str());
                s
            },
            ScheduleError::UnknownFormat(f) => {
                let mut s = lit("Unknown schedule format: '");
                push_str(&mut s, f.as_str());
                push_str(&mut s, "'. Use delay:, cron:, or interval:");
                s
            },
            ScheduleError::OutOfRange => lit("Duration out of range"),
        }
    }
}

/// The seconds in one unit.
pub open spec fn unit_factor(unit: char) -> int {
    if unit == 'm' {
        60
    } else if unit == 'h' {
        3600
    } else if unit == 'd' {
        86400
    } else {
        1
    }
}

/// A duration text ends with a unit letter.
pub open spec fn has_unit(t: Seq<char>) -> bool {
    t.len() > 0 && (t.last() == 's' || t.last() == 'm' || t.last() == 'h' || t.last() == 'd')
}

/// The number part of a trimmed duration text.
pub open spec fn number_part(t: Seq<char>) -> Seq<char> {
    if has_unit(t) {
        t.drop_last()
    } else {
        t
    }
}

/// The unit of a trimmed duration text (seconds when none is given).
pub open spec fn unit_of(t: Seq<char>) -> char {
    if has_unit(t) {
        t.last()
    } else {
        's'
    }
}

/// What a duration text gives, in seconds: a number followed by `s`, `m`, `h`
/// or `d` (seconds when no unit is given), after trimming.
pub open spec fn duration_value(s: Seq<char>) -> Option<int> {
    let t = trim(s);
    match parse_u64_spec(number_part(t)) {
        Some(n) => Some(n * unit_factor(unit_of(t))),
        None => None,
    }
}

/// The number of a duration text, times its unit, stays within 64 bits.
pub open spec fn duration_in_range(s: Seq<char>) -> bool {
    match duration_value(s) {
        Some(v) => v <= u64::MAX,
        None => true,
    }
}

/// Parses durations like `10s`, `5m`, `2h`, `1d` (seconds when no unit is
/// given).
pub fn parse_duration_str(s: &str) -> (r: Result<Duration, ScheduleError>)
    requires
        duration_in_range(s@),
    ensures
        trim(s@).len() == 0 ==> r matches Err(ScheduleError::EmptyDuration),
        trim(s@).len() > 0 ==> match duration_value(s@) {
            Some(v) => r matches Ok(d) && d.secs == v,
            None => r matches Err(ScheduleError::InvalidNumber(n)) && n@ == number_part(trim(s@)),
        },
{
    let cs = to_chars(s);
    let t = trim_chars(cs.as_slice());
    if t.len() == 0 {
        return Err(ScheduleError::EmptyDuration);
    }
    let last = t[t.len() - 1];
    let has = last == 's' || last == 'm' || last == 'h' || last == 'd';
    let num = if has {
        slice(t.as_slice(), 0, t.len() - 1)
    } else {
        slice(t.as_slice(), 0, t.len())
    };
    assert(t@.subrange(0, t@.len() - 1) == t@.drop_last());
    assert(t@.subrange(0, t@.len() as int) == t@);
    let unit = if has {
        last
    } else {
        's'
    };
    match parse_u64(num.as_slice()) {
        None => Err(ScheduleError::InvalidNumber(from_chars(num.as_slice()))),
        Some(n) => {
            let secs = if unit == 'm' {
                n * 60
            } else if unit == 'h' {
                n * 3600
            } else if unit == 'd' {
                n * 86400
            } else {
                n
            };
            Ok(Duration { secs })
        },
    }
}

/// Whether `parse_duration_str` can run on `s` (its number, times its unit,
/// fits in 64 bits).
pub fn duration_fits(s: &str) -> (r: bool)
    ensures
        r == duration_in_range(s@),
{
    let cs = to_chars(s);
    let t = trim_chars(cs.as_slice());
    if t.len() == 0 {
        return true;
    }
    let last = t[t.len() - 1];
    let has = last == 's' || last == 'm' || last == 'h' || last == 'd';
    let num = if has {
        slice(t.as_slice(), 0, t.len() - 1)
    } else {
        slice(t.as_slice(), 0, t.len())
    };
    assert(t@.subrange(0, t@.len() - 1) == t@.drop_last());
    assert(t@.subrange(0, t@.len() as int) == t@);
    match parse_u64(num.as_slice()) {
        None => true,
        Some(n) => {
            if has && last == 'm' {
                n <= u64::MAX / 60
            } else if has && last == 'h' {
                n <= u64::MAX / 3600
            } else if has && last == 'd' {
                n <= u64::MAX / 86400
            } else {
                true
            }
        },
    }
}

/// When a job runs.
#[derive(Clone, Debug)]
pub enum ScheduleKind {
    /// Once at a given time.
    OnceAt(Timestamp),
    /// Once, a span after creation.
    Delay(Duration),
    /// Whenever a cron expression fires.
    Cron(String),
    /// Repeatedly, a span apart.
    Interval(Duration),
}

/// The form of a schedule text and the text after its prefix.
pub enum ScheduleForm {
    Delay(Seq<char>),
    Cron(Seq<char>),
    Interval(Seq<char>),
    Unknown,
}

/// `s` without `prefix`, if it begins with it.
pub open spec fn after_prefix(s: Seq<char>, prefix: Seq<char>) -> Option<Seq<char>> {
    if starts_with(s, prefix) {
        Some(s.skip(prefix.len() as int))
    } else {
        None
    }
}

/// Which prefix a schedule text has, tried in the order delay, cron, interval.
pub open spec fn schedule_form(s: Seq<char>) -> ScheduleForm {
    if starts_with(s, "delay:"@) {
        ScheduleForm::Delay(s.skip(6))
    } else if starts_with(s, "cron:"@) {
        ScheduleForm::Cron(s.skip(5))
    } else if starts_with(s, "interval:"@) {
        ScheduleForm::Interval(s.skip(9))
    } else {
        ScheduleForm::Unknown
    }
}

/// The duration that a schedule text holds, if any, is in range.
pub open spec fn schedule_in_range(s: Seq<char>) -> bool {
    match schedule_form(s) {
        ScheduleForm::Delay(rest) => duration_in_range(rest),
        ScheduleForm::Interval(rest) => duration_in_range(rest),
        _ => true,
    }
}

/// Parses a schedule like `delay:10s`, `cron:0 9 * * *` or `interval:1h` into
/// its kind and the text after the prefix.
pub fn parse_schedule(s: &str) -> (r: Result<(ScheduleKind, String), ScheduleError>)
    requires
        schedule_in_range(s@),
    ensures
        match schedule_form(s@) {
            ScheduleForm::Delay(rest) => match duration_value(rest) {
                Some(v) => r matches Ok((ScheduleKind::Delay(d), e)) && d.secs == v && e@ == rest,
                None => r is Err,
            },
            ScheduleForm::Cron(rest) => if cron_accepts(rest) {
                r matches Ok((ScheduleKind::Cron(c), e)) && c@ == rest && e@ == rest
            } else {
                r matches Err(ScheduleError::InvalidCron(e)) && e@ == rest
            },
            ScheduleForm::Interval(rest) => match duration_value(rest) {
                Some(v) => r matches Ok((ScheduleKind::Interval(d), e)) && d.secs == v && e@ == rest,
                None => r is Err,
            },
            ScheduleForm::Unknown => r matches Err(ScheduleError::UnknownFormat(f)) && f@ == s@,
        },
{
    let cs = to_chars(s);
    let delay = to_chars("delay:");
    let cron = to_chars("cron:");
    let interval = to_chars("interval:");
    proof {
        reveal_strlit("delay:");
        reveal_strlit("cron:");
        reveal_strlit("interval:");
    }
    if starts_with_chars(cs.as_slice(), delay.as_slice()) {
        let rest = from_chars(slice(cs.as_slice(), 6, cs.len()).as_slice());
        assert(rest@ == s@.skip(6));
        match parse_duration_str(rest.as_str()) {
            Ok(d) => Ok((ScheduleKind::Delay(d), rest)),
            Err(e) => Err(e),
        }
    } else if starts_with_chars(cs.as_slice(), cron.as_slice()) {
        let rest = from_chars(slice(cs.as_slice(), 5, cs.len()).as_slice());
        assert(rest@ == s@.skip(5));
        if cron_is_valid(rest.as_str()) {
            let c = rest.clone();
            Ok((ScheduleKind::Cron(c), rest))
        } else {
            Err(ScheduleError::InvalidCron(rest))
        }
    } else if starts_with_chars(cs.as_slice(), interval.as_slice()) {
        let rest = from_chars(slice(cs.as_slice(), 9, cs.len()).as_slice());
        assert(rest@ == s@.skip(9));
        match parse_duration_str(rest.as_str()) {
            Ok(d) => Ok((ScheduleKind::Interval(d), rest)),
            Err(e) => Err(e),
        }
    } else {
        Err(ScheduleError::UnknownFormat(owned(s)))
    }
}

/// Whether `parse_schedule` can run on `s`.
pub fn schedule_fits(s: &str) -> (r: bool)
    ensures
        r == schedule_in_range(s@),
{
    let cs = to_chars(s);
    let delay = to_chars("delay:");
    let interval = to_chars("interval:");
    proof {
        reveal_strlit("delay:");
        reveal_strlit("interval:");
    }
    let cron = to_chars("cron:");
    proof {
        reveal_strlit("cron:");
    }
    if starts_with_chars(cs.as_slice(), delay.as_slice()) {
        let rest = from_chars(slice(cs.as_slice(), 6, cs.len()).as_slice());
        assert(rest@ == s@.skip(6));
        duration_fits(rest.as_str())
    } else if starts_with_chars(cs.as_slice(), cron.as_slice()) {
        true
    } else if starts_with_chars(cs.as_slice(), interval.as_slice()) {
        let rest = from_chars(slice(cs.as_slice(), 9, cs.len()).as_slice());
        assert(rest@ == s@.skip(9));
        duration_fits(rest.as_str())
    } else {
        true
    }
}

/// When a job of `kind` first runs, given the current time and the next time
/// the cron expression fires.
pub open spec fn first_run(kind: ScheduleKind, now: Timestamp, cron_next: Option<Timestamp>) -> Result<Option<Timestamp>, ()> {
    match kind {
        ScheduleKind::OnceAt(t) => Ok(Some(t)),
        ScheduleKind::Delay(d) => match add_span(now, d) {
            Some(t) => Ok(Some(t)),
            None => Err(()),
        },
        ScheduleKind::Cron(e) => if cron_accepts(e@) {
            Ok(cron_next)
        } else {
            Err(())
        },
        ScheduleKind::Interval(d) => match add_span(now, d) {
            Some(t) => Ok(Some(t)),
            None => Err(()),
        },
    }
}

/// When a job of `kind` first runs, given the current time and the next time
/// the cron expression fires. A span chrono cannot add fails.
pub fn next_run_from(kind: &ScheduleKind, now: Timestamp, cron_next: Option<Timestamp>) -> (r: Result<Option<Timestamp>, ScheduleError>)
    ensures
        first_run(*kind, now, cron_next) matches Ok(t) ==> r == Ok::<Option<Timestamp>, ScheduleError>(t),
        first_run(*kind, now, cron_next) is Err ==> r is Err,
{
    match kind {
        ScheduleKind::OnceAt(t) => Ok(Some(*t)),
        ScheduleKind::Delay(d) => match add_duration(now, *d) {
            Some(t) => Ok(Some(t)),
            None => Err(ScheduleError::OutOfRange),
        },
        ScheduleKind::Cron(e) => {
            if cron_is_valid(e.as_str()) {
                Ok(cron_next)
            } else {
                Err(ScheduleError::InvalidCron(e.clone()))
            }
        },
        ScheduleKind::Interval(d) => match add_duration(now, *d) {
            Some(t) => Ok(Some(t)),
            None => Err(ScheduleError::OutOfRange),
        },
    }
}

/// When a job of `kind` first runs, from the current time.
pub fn compute_next_run(kind: &ScheduleKind) -> (r: Result<Option<Timestamp>, ScheduleError>)
    ensures
        *kind matches ScheduleKind::OnceAt(t) ==> r == Ok::<Option<Timestamp>, ScheduleError>(Some(t)),
        *kind matches ScheduleKind::Cron(e) ==> (r is Ok <==> cron_accepts(e@)),
        (kind is Delay || kind is Interval) ==> (r matches Ok(t) ==> t is Some),
{
    let t = now();
    let c = match kind {
        ScheduleKind::Cron(e) => if t.secs < 8_210_266_876_799i64 {
            cron_after(e.as_str(), t)
        } else {
            None
        },
        _ => None,
    };
    next_run_from(kind, t, c)
}

} // verus!
