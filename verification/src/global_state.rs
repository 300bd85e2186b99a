//! The state shared by every worker: the snapshot, the corpus, the patch
//! set, and the aggregate counters. In the running hypervisor the mutable
//! parts sit behind locks and atomics; their logic is what is stated here.

use vstd::prelude::*;
use crate::corpus::Corpus;
use crate::patch::{PatchSet, PatchEntry};
use crate::snapshot::Snapshot;
use crate::stats::RunStats;

verus! {

/// Whether `a` is the address of some patch entry.
pub open spec fn covered_by_patches(a: u64, entries: Seq<PatchEntry>) -> bool {
    exists|j: int| 0 <= j < entries.len() && (#[trigger] entries[j]).address == a
}

/// Whether every recorded coverage address is the address of some patch
/// entry: coverage can only ever name planted breakpoints.
pub open spec fn all_covered_by_patches(blks: Seq<u64>, entries: Seq<PatchEntry>) -> bool {
    forall|i: int| 0 <= i < blks.len() ==> covered_by_patches(#[trigger] blks[i], entries)
}

/// The singleton data structure that is used across all workers.
pub struct GlobalState {
    /// The captured guest, paged in on demand.
    pub snapshot: Snapshot,
    /// The shared pool of input files.
    pub corpus: Corpus,
    /// The coverage patches.
    pub patch_set: PatchSet,
    /// Counters aggregated over every iteration of every worker.
    pub overall_stats: RunStats,
    /// The number of workers currently fuzzing; a worker leaves the count
    /// before waiting on an empty corpus.
    pub active_thread_count: u64,
    /// How many iterations completed over all workers.
    pub iteration_count: u64,
    /// How many logical processors run workers.
    pub number_of_cores: u64,
    /// When fuzzing started, in seconds.
    pub start_time: u64,
}

impl GlobalState {
    /// Composes the global state once the snapshot, corpus and patch set
    /// are loaded.
    pub fn new(
        snapshot: Snapshot,
        corpus: Corpus,
        patch_set: PatchSet,
        number_of_cores: u64,
        start_time: u64,
    ) -> (r: GlobalState)
        ensures
            r.snapshot == snapshot,
            r.corpus == corpus,
            r.patch_set == patch_set,
            r.active_thread_count == 0,
            r.iteration_count == 0,
            r.number_of_cores == number_of_cores,
            r.start_time == start_time,
            r.overall_stats.newly_executed_basic_blks@.len() == 0,
            r.overall_stats.total_tsc == 0,
            r.overall_stats.host_spent_tsc == 0,
            r.overall_stats.vmexit_count == 0,
            r.overall_stats.hang_count == 0,
    {
        GlobalState {
            snapshot,
            corpus,
            patch_set,
            overall_stats: RunStats::new(0),
            active_thread_count: 0,
            iteration_count: 0,
            number_of_cores,
            start_time,
        }
    }

    /// The number of logical processors running workers.
    pub fn number_of_cores(&self) -> (r: u64)
        ensures
            r == self.number_of_cores,
    {
        self.number_of_cores
    }

    /// How many iterations completed over all workers.
    pub fn iter_count(&self) -> (r: u64)
        ensures
            r == self.iteration_count,
    {
        self.iteration_count
    }

    /// When fuzzing started, in seconds.
    pub fn start_time(&self) -> (r: u64)
        ensures
            r == self.start_time,
    {
        self.start_time
    }

    /// Merges one iteration's statistics into the aggregate: counters add
    /// up (wrapping as the hardware counters do), the newly executed basic
    /// blocks are appended, and the new global iteration number is
    /// returned.
    pub fn update_stats(&mut self, stats: &RunStats) -> (r: u64)
        ensures
            final(self).snapshot == old(self).snapshot,
            final(self).corpus == old(self).corpus,
            final(self).patch_set == old(self).patch_set,
            final(self).active_thread_count == old(self).active_thread_count,
            final(self).number_of_cores == old(self).number_of_cores,
            final(self).start_time == old(self).start_time,
            final(self).overall_stats.total_tsc == old(
                self,
            ).overall_stats.total_tsc.wrapping_add(stats.total_tsc),
            final(self).overall_stats.host_spent_tsc == old(
                self,
            ).overall_stats.host_spent_tsc.wrapping_add(stats.host_spent_tsc),
            final(self).overall_stats.vmexit_count == old(
                self,
            ).overall_stats.vmexit_count.wrapping_add(stats.vmexit_count),
            final(self).overall_stats.hang_count == old(
                self,
            ).overall_stats.hang_count.wrapping_add(stats.hang_count),
            final(self).overall_stats.newly_executed_basic_blks@ == old(
                self,
            ).overall_stats.newly_executed_basic_blks@ + stats.newly_executed_basic_blks@,
            final(self).iteration_count == old(self).iteration_count.wrapping_add(1),
            r == old(self).iteration_count.wrapping_add(1),
    {
        self.overall_stats.total_tsc = self.overall_stats.total_tsc.wrapping_add(
            stats.total_tsc,
        );
        self.overall_stats.host_spent_tsc = self.overall_stats.host_spent_tsc.wrapping_add(
            stats.host_spent_tsc,
        );
        self.overall_stats.vmexit_count = self.overall_stats.vmexit_count.wrapping_add(
            stats.vmexit_count,
        );
        self.overall_stats.hang_count = self.overall_stats.hang_count.wrapping_add(
            stats.hang_count,
        );
        let n = stats.newly_executed_basic_blks.len();
        let mut i: usize = 0;
        while i < n
            invariant
                i <= n,
                n == stats.newly_executed_basic_blks@.len(),
                self.overall_stats.newly_executed_basic_blks@ == old(
                    self,
                ).overall_stats.newly_executed_basic_blks@
                    + stats.newly_executed_basic_blks@.subrange(0, i as int),
                self.snapshot == old(self).snapshot,
                self.corpus == old(self).corpus,
                self.patch_set == old(self).patch_set,
                self.active_thread_count == old(self).active_thread_count,
                self.number_of_cores == old(self).number_of_cores,
                self.start_time == old(self).start_time,
                self.iteration_count == old(self).iteration_count,
                self.overall_stats.total_tsc == old(self).overall_stats.total_tsc.wrapping_add(
                    stats.total_tsc,
                ),
                self.overall_stats.host_spent_tsc == old(
                    self,
                ).overall_stats.host_spent_tsc.wrapping_add(stats.host_spent_tsc),
                self.overall_stats.vmexit_count == old(
                    self,
                ).overall_stats.vmexit_count.wrapping_add(stats.vmexit_count),
                self.overall_stats.hang_count == old(
                    self,
                ).overall_stats.hang_count.wrapping_add(stats.hang_count),
                self.overall_stats.start_tsc == old(self).overall_stats.start_tsc,
            decreases n - i,
        {
            self.overall_stats.newly_executed_basic_blks.push(
                stats.newly_executed_basic_blks[i],
            );
            proof {
                assert(self.overall_stats.newly_executed_basic_blks@ =~= old(
                    self,
                ).overall_stats.newly_executed_basic_blks@
                    + stats.newly_executed_basic_blks@.subrange(0, i + 1 as int));
            }
            i = i + 1;
        }
        proof {
            assert(stats.newly_executed_basic_blks@.subrange(0, n as int)
                =~= stats.newly_executed_basic_blks@);
        }
        self.iteration_count = self.iteration_count.wrapping_add(1);
        self.iteration_count
    }
}

/// The aggregate numbers the periodic console output shows.
pub struct ConsoleSummary {
    /// The global iteration number.
    pub iter_count: u64,
    /// How many basic blocks were newly executed over all iterations.
    pub total_basic_blocks: usize,
    /// How many iterations ended with a hang.
    pub total_hang_count: u64,
    /// How many input files remain in the corpus.
    pub remaining_corpus_files: usize,
    /// How many workers are fuzzing right now.
    pub active_thread_count: u64,
    /// VM exits per iteration.
    pub average_vmexit_count: u64,
    /// Iterations per elapsed second.
    pub average_iterations_per_second: u64,
    /// Elapsed cycles per iteration.
    pub average_cycles_per_iteration: u64,
    /// Guest cycles per iteration.
    pub average_guest_cycles_per_iteration: u64,
}

impl GlobalState {
    /// Computes the aggregate numbers the periodic console output shows;
    /// the elapsed time clamps to one second, so the averages stay defined.
    pub fn console_summary(&self, iter_count: u64, time_now: u64) -> (r: ConsoleSummary)
        requires
            iter_count > 0,
        ensures
            r.iter_count == iter_count,
            r.total_basic_blocks == self.overall_stats.newly_executed_basic_blks@.len(),
            r.total_hang_count == self.overall_stats.hang_count,
            r.remaining_corpus_files == self.corpus.files@.len(),
            r.active_thread_count == self.active_thread_count,
            r.average_vmexit_count == self.overall_stats.vmexit_count as int / iter_count as int,
            r.average_iterations_per_second == iter_count as int / (if time_now > self.start_time {
                time_now - self.start_time
            } else {
                1
            }) as int,
            r.average_cycles_per_iteration == self.overall_stats.total_tsc as int
                / iter_count as int,
            r.average_guest_cycles_per_iteration == (if self.overall_stats.total_tsc
                >= self.overall_stats.host_spent_tsc {
                self.overall_stats.total_tsc - self.overall_stats.host_spent_tsc
            } else {
                0
            }) as int / iter_count as int,
    {
        let elapsed_seconds = if time_now > self.start_time {
            time_now - self.start_time
        } else {
            1
        };
        let guest_tsc = if self.overall_stats.total_tsc >= self.overall_stats.host_spent_tsc {
            self.overall_stats.total_tsc - self.overall_stats.host_spent_tsc
        } else {
            0
        };
        ConsoleSummary {
            iter_count,
            total_basic_blocks: self.overall_stats.newly_executed_basic_blks.len(),
            total_hang_count: self.overall_stats.hang_count,
            remaining_corpus_files: self.corpus.remaining_files_count(),
            active_thread_count: self.active_thread_count,
            average_vmexit_count: self.overall_stats.vmexit_count / iter_count,
            average_iterations_per_second: iter_count / elapsed_seconds,
            average_cycles_per_iteration: self.overall_stats.total_tsc / iter_count,
            average_guest_cycles_per_iteration: guest_tsc / iter_count,
        }
    }
}

/// Merging coverage keeps it monotone and sound: every address the
/// aggregate held stays in it, and where both the aggregate and the
/// iteration's coverage name only patched addresses, so does the merge.
pub proof fn lemma_coverage_merge(total: Seq<u64>, local: Seq<u64>, entries: Seq<PatchEntry>)
    requires
        all_covered_by_patches(total, entries),
        all_covered_by_patches(local, entries),
    ensures
        all_covered_by_patches(total + local, entries),
        forall|i: int| 0 <= i < total.len() ==> (total + local)[i] == total[i],
{
    assert forall|i: int|
        0 <= i < (total + local).len() implies covered_by_patches(
        #[trigger] (total + local)[i],
        entries,
    ) by {
        if i < total.len() {
            assert((total + local)[i] == total[i]);
            assert(covered_by_patches(total[i], entries));
        } else {
            assert((total + local)[i] == local[i - total.len()]);
            assert(covered_by_patches(local[i - total.len()], entries));
        }
    }
}

} // verus!
