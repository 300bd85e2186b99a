//! Various constants that may be tuned by developers.

use vstd::prelude::*;

verus! {

/// Once in how many iterations stats should be sent to the serial output.
pub const SERIAL_OUTPUT_INTERVAL: u64 = 500;

/// Once in how many iterations stats should be displayed on the console.
pub const CONSOLE_OUTPUT_INTERVAL: u64 = 1000;

/// How long a single fuzzing iteration can spend within the guest, in TSC.
/// If more than this is spent, the iteration is aborted as a hang.
pub const GUEST_EXEC_TIMEOUT_IN_TSC: u64 = 200_000_000;

/// The number of fuzzing iterations to be done for a single input in the
/// random-byte mutation mode.
pub const MAX_ITERATION_COUNT_PER_FILE: u64 = 10_000;

} // verus!
