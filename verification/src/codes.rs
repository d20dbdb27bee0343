//! Exit codes shared by the two programs.

use vstd::prelude::*;

verus! {

/// The process exit codes, one per stage that can fail.
pub struct Code {}

impl Code {
    pub const SUCESS: i32 = 0;

    pub const INVALID_ARGUMENT: i32 = 1;

    pub const CAPS_ERROR: i32 = 2;

    pub const FAILED_GET_TIME: i32 = 3;

    pub const FAILED_SET_TIME: i32 = 4;

    pub const PARSE_ERROR: i32 = 5;

    /// The code a process exits with: `code` itself when exit codes are
    /// verbose, and success for every code when they are terse.
    pub fn exit_status(code: i32, verbose: bool) -> (status: i32)
        ensures
            status == Self::spec_exit_status(code, verbose),
    {
        if verbose {
            code
        } else {
            Code::SUCESS
        }
    }

    pub open spec fn spec_exit_status(code: i32, verbose: bool) -> i32 {
        if verbose {
            code
        } else {
            Code::SUCESS
        }
    }
}

} // verus!
