//! Wall-clock readings, and dates typed by the user.
//!
//! The calendar and the machine's time zone are `chrono`'s business. This
//! module holds a clock reading as plain numbers, asks `chrono` to render it
//! or to read a date, and decides what a failure there means.

use crate::codes::Code;
use chrono::{DateTime, FixedOffset, Local, NaiveDateTime, TimeZone};
use std::fmt::Write;
use vstd::prelude::*;

verus! {

/// The pattern in which the user types the time to set: day, month and year
/// between slashes, then hour and minute.
pub const DATE_FORMAT: &'static str = "%d/%m/%Y %H:%M";

/// A reading of the wall clock: whole seconds since the Unix epoch and the
/// microseconds into the current second.
#[derive(Clone, Copy, Debug, PartialEq, Eq)]
pub struct TimeVal {
    tv_sec: i64,
    tv_usec: i64,
}

impl TimeVal {
    #[verifier::type_invariant]
    spec fn within_second(self) -> bool {
        0 <= self.tv_usec < 1_000_000
    }

    /// The whole seconds since the Unix epoch.
    pub closed spec fn sec(self) -> int {
        self.tv_sec as int
    }

    /// The microseconds into the current second.
    pub closed spec fn usec(self) -> int {
        self.tv_usec as int
    }

    /// The part below the second, in nanoseconds.
    pub open spec fn nsec(self) -> int {
        self.usec() * 1000
    }

    /// A reading from its two parts, if the microseconds are less than a
    /// second.
    pub fn new(tv_sec: i64, tv_usec: i64) -> (reading: Option<TimeVal>)
        ensures
            reading is Some <==> 0 <= tv_usec < 1_000_000,
            reading matches Some(value) ==> value.sec() == tv_sec && value.usec() == tv_usec,
    {
        if 0 <= tv_usec && tv_usec < 1_000_000 {
            Some(TimeVal { tv_sec, tv_usec })
        } else {
            None
        }
    }

    /// The reading that a timestamp stands for: whole seconds, nothing
    /// below.
    pub fn from_timestamp(timestamp: i64) -> (reading: TimeVal)
        ensures
            reading.sec() == timestamp,
            reading.usec() == 0,
    {
        TimeVal { tv_sec: timestamp, tv_usec: 0 }
    }

    pub fn seconds(&self) -> (s: i64)
        ensures
            s == self.sec(),
    {
        self.tv_sec
    }

    pub fn microseconds(&self) -> (us: i64)
        ensures
            us == self.usec(),
            0 <= us < 1_000_000,
    {
        proof {
            use_type_invariant(self);
        }
        self.tv_usec
    }

    /// The part below the second, in nanoseconds.
    pub fn nanoseconds(&self) -> (ns: u32)
        ensures
            ns == self.nsec(),
            ns < 1_000_000_000,
    {
        proof {
            use_type_invariant(self);
        }
        (self.tv_usec * 1000) as u32
    }
}

/// What `chrono::NaiveDateTime::parse_from_str` reads out of `input` under
/// the pattern `format`: a calendar date and time of day without a time zone,
/// given as the seconds and the nanoseconds that it lies after 1970-01-01
/// 00:00:00 of the same calendar. `None` where the parser reports an error.
pub uninterp spec fn naive_datetime(input: Seq<char>, format: Seq<char>) -> Option<(i64, u32)>;

/// `chrono::NaiveDateTime::parse_from_str`. The date and time it reads are a
/// function of the two texts alone. They are handed on as two numbers, taken
/// with `and_utc().timestamp()` and `and_utc().timestamp_subsec_nanos()`.
#[verifier::external_body]
fn parse_naive(input: &str, format: &str) -> (parsed: Option<(i64, u32)>)
    ensures
        parsed == naive_datetime(input@, format@),
{
    match NaiveDateTime::parse_from_str(input, format) {
        Ok(naive) => Some((naive.and_utc().timestamp(), naive.and_utc().timestamp_subsec_nanos())),
        Err(_) => None,
    }
}

/// `chrono::Local`'s `from_local_datetime`, `single` and `timestamp`, on the
/// date and time that the two numbers stand for (rebuilt with
/// `DateTime::from_timestamp` and `naive_utc`). Which instant a local time
/// is, and whether it is one at all, lies with the machine's time zone. In
/// every zone the instant is the local time less an offset from UTC, and
/// `chrono` holds no offset of a day or more.
#[verifier::external_body]
fn local_timestamp(seconds: i64, nanoseconds: u32) -> (stamp: Option<i64>)
    ensures
        stamp matches Some(t) ==> seconds - 86_400 < t < seconds + 86_400,
{
    let naive = match DateTime::from_timestamp(seconds, nanoseconds) {
        Some(utc) => utc.naive_utc(),
        None => return None,
    };
    match Local.from_local_datetime(&naive).single() {
        Some(moment) => Some(moment.timestamp()),
        None => None,
    }
}

/// What `chrono` writes for an instant seen at a fixed offset from UTC, under
/// a `strftime`-style pattern. The instant is `seconds` and `nanoseconds`
/// after the Unix epoch, the offset is in seconds east of UTC. `None` where
/// `chrono` has no such offset or no such instant in its calendar, and where
/// its formatter reports an error for the pattern.
pub uninterp spec fn rendered_time(
    seconds: int,
    nanoseconds: int,
    offset: int,
    format: Seq<char>,
) -> Option<Seq<char>>;

/// `chrono::Local`'s `timestamp_opt`, and of the local time it gives the
/// offset from UTC (`offset().local_minus_utc()`). Which offset holds at an
/// instant lies with the machine's time zone. `chrono` holds no offset of a
/// day or more; where the zone's own data ask for one, the call panics.
///
/// `timestamp_opt` is one function for every time zone, and it gives nothing
/// only where `DateTime::from_timestamp` has no instant for the two numbers.
/// For such numbers there is nothing to render either, at whatever offset and
/// under whatever pattern.
#[verifier::external_body]
fn local_offset(seconds: i64, nanoseconds: u32) -> (offset: Option<i32>)
    ensures
        offset matches Some(east) ==> -86_400 < east < 86_400,
        offset is None ==> forall|east: int, pattern: Seq<char>|
            #[trigger] rendered_time(seconds as int, nanoseconds as int, east, pattern) is None,
{
    match Local.timestamp_opt(seconds, nanoseconds).single() {
        Some(moment) => Some(moment.offset().local_minus_utc()),
        None => None,
    }
}

/// `chrono::DateTime::format`, written out through `Display`, on the instant
/// that `FixedOffset::east_opt` and `timestamp_opt` make of the three
/// numbers. The text is a function of the numbers and of the pattern alone.
#[verifier::external_body]
fn render_at_offset(seconds: i64, nanoseconds: u32, offset: i32, format: &str) -> (text: Option<
    String,
>)
    ensures
        match text {
            Some(t) => rendered_time(seconds as int, nanoseconds as int, offset as int, format@)
                == Some(t@),
            None => rendered_time(seconds as int, nanoseconds as int, offset as int, format@)
                is None,
        },
{
    let moment = FixedOffset::east_opt(offset)?.timestamp_opt(seconds, nanoseconds).single()?;
    let mut text = String::new();
    match write!(text, "{}", moment.format(format)) {
        Ok(()) => Some(text),
        Err(_) => None,
    }
}

/// Renders a clock reading as it is seen `offset` seconds east of UTC, under
/// a `strftime`-style pattern.
pub fn time_at(now: &TimeVal, offset: i32, format: &str) -> (text: Option<String>)
    ensures
        match text {
            Some(t) => rendered_time(now.sec(), now.nsec(), offset as int, format@) == Some(t@),
            None => rendered_time(now.sec(), now.nsec(), offset as int, format@) is None,
        },
{
    render_at_offset(now.seconds(), now.nanoseconds(), offset, format)
}

/// Renders a clock reading in the machine's local time under a
/// `strftime`-style pattern.
///
/// The text is the reading as it is seen at the offset from UTC that the
/// machine's time zone has at that instant, always less than a day. A text
/// is returned wherever `chrono` renders the reading under the pattern at
/// every such offset; `None` is returned only where it renders nothing at
/// the zone's offset: the reading lies outside its calendar, or the pattern
/// holds a specifier it does not know.
///
/// No argument makes this function panic, but the machine's settings can: a
/// time zone whose data put local time a day or more from UTC leaves `chrono`
/// without an offset, and `chrono` panics on that.
pub fn time(now: &TimeVal, format: &str) -> (text: Option<String>)
    ensures
        text matches Some(t) ==> exists|offset: int|
            -86_400 < offset < 86_400 && #[trigger] rendered_time(
                now.sec(),
                now.nsec(),
                offset,
                format@,
            ) == Some(t@),
        text is None ==> exists|offset: int|
            -86_400 < offset < 86_400 && #[trigger] rendered_time(
                now.sec(),
                now.nsec(),
                offset,
                format@,
            ) is None,
{
    match local_offset(now.seconds(), now.nanoseconds()) {
        Some(offset) => {
            let text = time_at(now, offset, format);
            proof {
                // The zone's offset is the witness, whether a text came or not.
                if text is Some {
                    assert(rendered_time(now.sec(), now.nsec(), offset as int, format@) == Some(
                        text->0@,
                    ));
                } else {
                    assert(rendered_time(now.sec(), now.nsec(), offset as int, format@) is None);
                }
            }
            text
        },
        None => {
            proof {
                assert(rendered_time(now.sec(), now.nsec(), 0, format@) is None);
            }
            None
        },
    }
}

/// What becomes of a date once the local time zone was asked for its instant:
/// the instant, or a parse error where the zone has none or two for it.
pub fn instant_or_parse_error(resolved: Option<i64>) -> (res: Result<i64, i32>)
    ensures
        res == match resolved {
            Some(t) => Ok::<i64, i32>(t),
            None => Err::<i64, i32>(Code::PARSE_ERROR),
        },
{
    match resolved {
        Some(t) => Ok(t),
        None => Err(Code::PARSE_ERROR),
    }
}

/// Reads `input` under the pattern `format` as a local date and time and
/// gives the Unix timestamp of that instant.
///
/// Fails with [`Code::PARSE_ERROR`] where `input` does not match the pattern
/// or names no valid date and time, and where the machine's time zone has no
/// single instant for that local time (it was skipped, or it occurred twice).
/// A timestamp that is returned lies less than a day from the date and time
/// read as if they were UTC.
pub fn parse_string_to_datetime_local(input: &str, format: &str) -> (res: Result<i64, i32>)
    ensures
        res is Err ==> res == Err::<i64, i32>(Code::PARSE_ERROR),
        naive_datetime(input@, format@) is None ==> res is Err,
        res matches Ok(t) ==> naive_datetime(input@, format@) matches Some(civil) && civil.0
            - 86_400 < t < civil.0 + 86_400,
{
    match parse_naive(input, format) {
        Some((seconds, nanoseconds)) => instant_or_parse_error(
            local_timestamp(seconds, nanoseconds),
        ),
        None => Err(Code::PARSE_ERROR),
    }
}

} // verus!
