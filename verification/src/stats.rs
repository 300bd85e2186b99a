//! Per-iteration counters and the decision of when and what to report.

use vstd::prelude::*;
use crate::config::SERIAL_OUTPUT_INTERVAL;

verus! {

/// Statistics of one (or of every) fuzzing iteration.
pub struct RunStats {
    /// The timestamp at which the iteration started.
    pub start_tsc: u64,
    /// The total elapsed time of the iteration, in TSC.
    pub total_tsc: u64,
    /// The elapsed time spent in the host, in TSC.
    pub host_spent_tsc: u64,
    /// The number of VM exits that occurred.
    pub vmexit_count: u64,
    /// The guest addresses of basic blocks newly executed this iteration.
    pub newly_executed_basic_blks: Vec<u64>,
    /// The number of iterations that ended with a hang.
    pub hang_count: u64,
}

/// One line of periodic output: the numbers an iteration report shows.
pub struct StatsLine {
    /// The global iteration number.
    pub iter_count: u64,
    /// How many dirty pages the iteration consumed.
    pub used_dirty_page_count: usize,
    /// How many new basic blocks this iteration reached.
    pub new_basic_blocks: usize,
    /// Total elapsed TSC of the iteration.
    pub total_tsc: u64,
    /// TSC spent inside the guest.
    pub guest_tsc: u64,
    /// Number of VM exits.
    pub vmexit_count: u64,
}

impl RunStats {
    /// Fresh counters for an iteration starting at the given timestamp.
    pub fn new(start_tsc: u64) -> (r: RunStats)
        ensures
            r.start_tsc == start_tsc,
            r.total_tsc == 0,
            r.host_spent_tsc == 0,
            r.vmexit_count == 0,
            r.newly_executed_basic_blks@.len() == 0,
            r.hang_count == 0,
    {
        RunStats {
            start_tsc,
            total_tsc: 0,
            host_spent_tsc: 0,
            vmexit_count: 0,
            newly_executed_basic_blks: Vec::new(),
            hang_count: 0,
        }
    }

    /// Decides whether this iteration is reported on the serial line — on
    /// the first iteration, on new coverage, and once per output interval —
    /// and with which numbers: the guest time is the total minus the time
    /// the host spent handling exits.
    pub fn report(&self, used_dirty_page_count: usize, iter_count: u64) -> (r: Option<StatsLine>)
        ensures
            match r {
                Some(line) => {
                    &&& (iter_count == 1 || self.newly_executed_basic_blks@.len() > 0
                        || iter_count % SERIAL_OUTPUT_INTERVAL == 0)
                    &&& line.iter_count == iter_count
                    &&& line.used_dirty_page_count == used_dirty_page_count
                    &&& line.new_basic_blocks == self.newly_executed_basic_blks@.len()
                    &&& line.total_tsc == self.total_tsc
                    &&& line.guest_tsc == (if self.total_tsc >= self.host_spent_tsc {
                        self.total_tsc - self.host_spent_tsc
                    } else {
                        0
                    })
                    &&& line.vmexit_count == self.vmexit_count
                },
                None => !(iter_count == 1 || self.newly_executed_basic_blks@.len() > 0
                    || iter_count % SERIAL_OUTPUT_INTERVAL == 0),
            },
    {
        if iter_count == 1 || self.newly_executed_basic_blks.len() > 0 || iter_count
            % SERIAL_OUTPUT_INTERVAL == 0 {
            let guest_tsc = if self.total_tsc >= self.host_spent_tsc {
                self.total_tsc - self.host_spent_tsc
            } else {
                0
            };
            Some(
                StatsLine {
                    iter_count,
                    used_dirty_page_count,
                    new_basic_blocks: self.newly_executed_basic_blks.len(),
                    total_tsc: self.total_tsc,
                    guest_tsc,
                    vmexit_count: self.vmexit_count,
                },
            )
        } else {
            None
        }
    }
}

/// Converts a wall-clock reading to seconds.
pub fn time_to_u64(hour: u8, minute: u8, second: u8) -> (r: u64)
    ensures
        r == hour * 3600 + minute * 60 + second,
{
    (hour as u64) * 3600 + (minute as u64) * 60 + (second as u64)
}

} // verus!
