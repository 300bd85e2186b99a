//! Path conversion for the tools the build runner shells out to.

use vstd::prelude::*;
use vstd::string::StringExecFns;

verus! {

/// Converts a host path for the unix tools the runner invokes. On a
/// non-Windows host every path already is a unix path and passes through
/// unchanged; the Windows conversion shells out to a translation tool and
/// lives with the runner.
pub fn unix_path(path: &str) -> (r: String)
    ensures
        r@ == path@,
{
    String::from_str(path)
}

} // verus!
