//! The privileged helper that sets the clock.
//!
//! Its whole input is one argument: the timestamp, a signed decimal integer.
//! Everything else is refused before the clock is touched.

use crate::clock::TimeVal;
use crate::codes::Code;
use crate::decimal::{decimal_i64, decimal_text, lemma_decimal_round_trip, parse_i64};
use vstd::prelude::*;

verus! {

/// What the helper was asked to do.
#[derive(Clone, Copy, Debug, PartialEq, Eq, Structural)]
pub struct Args {
    /// Seconds since the Unix epoch.
    pub time: i64,
}

/// The timestamp that a command line carries. The line is the program's name
/// and one argument, which writes a signed 64-bit integer in decimal.
pub open spec fn timestamp_of(args: Seq<String>) -> Option<i64> {
    if args.len() == 2 {
        decimal_i64(args[1]@)
    } else {
        None
    }
}

/// Reads the helper's command line, the program's name included.
///
/// Any line with no argument or with more than one is refused, and so is an
/// argument that is not a signed decimal integer of 64 bits: each with
/// [`Code::INVALID_ARGUMENT`].
pub fn parse_args(args: &[String]) -> (res: Result<Args, i32>)
    ensures
        res == match timestamp_of(args@) {
            Some(time) => Ok::<Args, i32>(Args { time }),
            None => Err::<Args, i32>(Code::INVALID_ARGUMENT),
        },
{
    if args.len() != 2 {
        return Err(Code::INVALID_ARGUMENT);
    }
    match parse_i64(args[1].as_str()) {
        Some(time) => Ok(Args { time }),
        None => Err(Code::INVALID_ARGUMENT),
    }
}

/// What the helper does with its command line.
#[derive(Clone, Copy, Debug, PartialEq, Eq)]
pub enum SetterStep {
    /// Leave at once with this exit code, the clock untouched.
    Exit { code: i32 },
    /// Set the clock to this reading.
    SetClock { reading: TimeVal },
}

/// Decides between setting the clock and leaving. The clock is set only on a
/// command line that carries a timestamp, and then to that timestamp with
/// nothing below the second.
pub fn first_step(args: &[String]) -> (step: SetterStep)
    ensures
        match timestamp_of(args@) {
            Some(time) => step matches SetterStep::SetClock { reading } && reading.sec() == time
                && reading.usec() == 0,
            None => step matches SetterStep::Exit { code } && code == Code::INVALID_ARGUMENT,
        },
{
    match parse_args(args) {
        Ok(parsed) => SetterStep::SetClock { reading: TimeVal::from_timestamp(parsed.time) },
        Err(code) => SetterStep::Exit { code },
    }
}

/// The helper's exit code once the system was asked to set the clock;
/// `result` is what the system call returned, zero for success.
pub fn exit_code_after_set(result: i32) -> (code: i32)
    ensures
        code == if result == 0 {
            Code::SUCESS
        } else {
            Code::FAILED_SET_TIME
        },
{
    if result == 0 {
        Code::SUCESS
    } else {
        Code::FAILED_SET_TIME
    }
}

/// The helper reads what the front-end writes. A command line whose one
/// argument is a timestamp written in decimal is accepted, and carries that
/// very timestamp.
pub proof fn lemma_written_timestamp_is_accepted(timestamp: i64, args: Seq<String>)
    requires
        args.len() == 2,
        args[1]@ == decimal_text(timestamp as int),
    ensures
        timestamp_of(args) == Some(timestamp),
{
    lemma_decimal_round_trip(timestamp as int);
}

} // verus!
