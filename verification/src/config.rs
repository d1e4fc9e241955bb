//! Resolution of the configured thread count: a positive count is taken
//! as it is, and two reserved negative sentinels select the number of
//! physical or logical cores of the machine.

use vstd::prelude::*;
use vstd::string::StringExecFns;

use crate::validate::{format_isize, spec_decimal};

verus! {

/// Relies on `num_cpus::get`: the number of logical CPUs of the current
/// system, documented to always be at least 1.
#[verifier::external_body]
fn logical_cpus() -> (n: usize)
    ensures
        1 <= n,
{
    num_cpus::get()
}

/// Relies on `num_cpus::get_physical`: the number of physical cores of
/// the current system, documented to always be at least 1.
#[verifier::external_body]
fn physical_cpus() -> (n: usize)
    ensures
        1 <= n,
{
    num_cpus::get_physical()
}

/// The rejection message for a thread count that is neither positive nor
/// a reserved sentinel: it carries the offending value.
pub open spec fn illegal_n_threads_msg(n: int) -> Seq<char> {
    "Illegal value for number of threads: "@ + spec_decimal(n)
}

/// Resolves the configured thread count against the given core counts:
/// `-1` selects `physical`, `-2` selects `logical`, a positive count is
/// taken as it is, and anything else is rejected with a message that
/// carries the offending value.
pub fn resolve_n_threads(n: isize, physical: usize, logical: usize) -> (r: Result<usize, String>)
    requires
        1 <= physical,
        1 <= logical,
    ensures
        match r {
            Ok(v) => {
                &&& n == -1 ==> v == physical
                &&& n == -2 ==> v == logical
                &&& n >= 1 ==> v == n as usize
                &&& n >= 1 || n == -1 || n == -2
                &&& 1 <= v
            },
            Err(m) => {
                &&& n <= 0 && n != -1 && n != -2
                &&& m@ == illegal_n_threads_msg(n as int)
            },
        },
{
    if n == -2 {
        Ok(logical)
    } else if n == -1 {
        Ok(physical)
    } else if n >= 1 {
        Ok(n as usize)
    } else {
        let mut m = String::from_str("Illegal value for number of threads: ");
        m.append(format_isize(n).as_str());
        Err(m)
    }
}

/// Resolves the configured thread count on this machine: `-1` selects
/// the number of physical cores, `-2` the number of logical cores, a
/// positive count is taken as it is, and anything else is rejected with
/// a message that carries the offending value.  The resolved count is
/// always at least 1.
pub fn parse_n_threads(n: isize) -> (r: Result<usize, String>)
    ensures
        match r {
            Ok(v) => {
                &&& n >= 1 || n == -1 || n == -2
                &&& n >= 1 ==> v == n as usize
                &&& 1 <= v
            },
            Err(m) => {
                &&& n <= 0 && n != -1 && n != -2
                &&& m@ == illegal_n_threads_msg(n as int)
            },
        },
{
    let physical = physical_cpus();
    let logical = logical_cpus();
    resolve_n_threads(n, physical, logical)
}

} // verus!
