//! The high-level execution flow: one fuzzing iteration per call, driving
//! one VM per logical processor, classifying every VM exit, and collecting
//! coverage.

use vstd::prelude::*;
use vstd::string::StringExecFns;
use crate::config::GUEST_EXEC_TIMEOUT_IN_TSC;
use crate::corpus::Corpus;
use crate::global_state::{GlobalState, covered_by_patches, all_covered_by_patches};
use crate::hardware_vt::{
    ExceptionQualification, GuestException, HardwareVt, NestedPageFaultQualification,
    VmExitReason,
};
use crate::mutation_engine::{MutatingInput, MutationEngine, MutationMode, spec_flip_bit, spec_padded};
use crate::patch::spec_find;
use crate::snapshot::bitvec_bits;
use crate::stats::RunStats;
use crate::text::{dec_u64, spec_dec_u64};
use crate::vm::{Vm, VmError};

verus! {

/// The result of handling one VM exit.
pub enum VmExitResult {
    /// The VM should resume and retry the same instruction.
    ResumeVm,
    /// The VM should abort, and a new fuzzing iteration should start.
    AbortVm(AbortReason),
    /// The current processor cannot continue.
    Panic(u64),
}

/// The detailed reason an iteration aborted.
#[derive(Clone, Copy, Debug, PartialEq, Eq, Structural)]
pub enum AbortReason {
    /// The VM caused a VM exit that is not handled.
    UnhandledVmExit,
    /// The VM reached the end marker instruction: the normal end.
    EndMarker,
    /// The VM accessed memory that neither the snapshot nor the input data
    /// pages back. Common and normal, eg for device memory.
    InvalidPageAccess,
    /// The VM accessed the null page. An indicator of a bug.
    NullPageAccess,
    /// The VM accessed the highest page, as from an offset against minus
    /// one. An indicator of a bug.
    NegativePageAccess,
    /// The VM executed an invalid instruction outside the end marker. An
    /// indicator of a bug.
    InvalidInstruction,
    /// The VM hit a breakpoint that no patch planted. An indicator of a
    /// bug.
    UnexpectedBreakpoint,
    /// The VM raised a page fault, which the snapshot's guest never should.
    UnexpectedPageFault,
    /// The VM modified more pages than the dirty page pool holds.
    ExcessiveMemoryWrite,
    /// The VM used up its time slice.
    Hang,
}

/// How loud an abort reason is reported.
#[derive(Clone, Copy, Debug, PartialEq, Eq, Structural)]
pub enum Severity {
    Trace,
    Debug,
    Warning,
}

/// How one iteration ended.
pub enum IterationEnd {
    /// An abort condition was reached; the next iteration can start.
    Aborted(AbortReason),
    /// The hardware reported a non-continuable state; the worker stops.
    BackendPanic(u64),
    /// The corpus is exhausted and this worker has left the active count.
    FuzzingComplete,
}

/// Where the snapshot frames and the input data pages sit in host physical
/// memory: frame `g` of the snapshot lives at host frame
/// `snapshot_pfn_base + g`, and input page `i` at `input_pfn_base + i`.
#[derive(Clone, Copy, PartialEq, Eq, Structural)]
pub struct FrameAddressing {
    pub snapshot_pfn_base: u64,
    pub input_pfn_base: u64,
}

impl AbortReason {
    /// The reporting level of this reason: reaching the end marker is the
    /// normal end, a hang and an unbacked access are common, and everything
    /// else may be a bug found by fuzzing and is reported as a warning.
    pub open spec fn spec_severity(&self) -> Severity {
        match *self {
            AbortReason::EndMarker => Severity::Trace,
            AbortReason::Hang => Severity::Debug,
            _ => Severity::Warning,
        }
    }

    /// The label of this reason's report.
    pub open spec fn spec_label(&self) -> Seq<char> {
        match *self {
            AbortReason::UnhandledVmExit => "UNHANDLED VM EXIT : "@,
            AbortReason::EndMarker => "Reached the end marker"@,
            AbortReason::InvalidPageAccess => ""@,
            AbortReason::NullPageAccess => "NULL PAGE ACCESS : "@,
            AbortReason::NegativePageAccess => "NEGATIVE PAGE ACCESS : "@,
            AbortReason::InvalidInstruction => "INVALID INSTRUCTION : "@,
            AbortReason::UnexpectedBreakpoint => "UNEXPECTED BREAKPOINT : "@,
            AbortReason::UnexpectedPageFault => "UNEXPECTED PAGE FAULT : "@,
            AbortReason::ExcessiveMemoryWrite => "EXCESSIVE MEMORY WRITES : "@,
            AbortReason::Hang => "Hang detected : "@,
        }
    }

    /// Composes the report of this abort, if it is reported at all: an
    /// access to unbacked memory is so common that it stays silent. The
    /// runner prints the text at the given level.
    pub fn report(&self, current_input: &MutatingInput) -> (r: Option<(Severity, String)>)
        ensures
            (r is None) <==> (*self == AbortReason::InvalidPageAccess),
            r is Some ==> {
                let (severity, text) = r->Some_0;
                &&& severity == self.spec_severity()
                &&& text@ == if *self == AbortReason::EndMarker {
                    self.spec_label()
                } else {
                    self.spec_label() + current_input.input.name@ + " #"@ + spec_dec_u64(
                        current_input.mutation_count as int,
                    )
                }
            },
    {
        let (severity, label) = match self {
            AbortReason::UnhandledVmExit => (Severity::Warning, "UNHANDLED VM EXIT : "),
            AbortReason::EndMarker => {
                return Some((Severity::Trace, String::from_str("Reached the end marker")));
            },
            AbortReason::InvalidPageAccess => {
                return None;
            },
            AbortReason::NullPageAccess => (Severity::Warning, "NULL PAGE ACCESS : "),
            AbortReason::NegativePageAccess => (Severity::Warning, "NEGATIVE PAGE ACCESS : "),
            AbortReason::InvalidInstruction => (Severity::Warning, "INVALID INSTRUCTION : "),
            AbortReason::UnexpectedBreakpoint => (
                Severity::Warning,
                "UNEXPECTED BREAKPOINT : ",
            ),
            AbortReason::UnexpectedPageFault => (Severity::Warning, "UNEXPECTED PAGE FAULT : "),
            AbortReason::ExcessiveMemoryWrite => (
                Severity::Warning,
                "EXCESSIVE MEMORY WRITES : ",
            ),
            AbortReason::Hang => (Severity::Debug, "Hang detected : "),
        };
        let mut text = String::from_str(label);
        text.append(current_input.input.name.as_str());
        text.append(" #");
        let count = dec_u64(current_input.mutation_count);
        text.append(count.as_str());
        Some((severity, text))
    }

    /// The abort reason an uncovered guest exception maps to.
    pub fn from_exception(value: GuestException) -> (r: AbortReason)
        ensures
            r == match value {
                GuestException::BreakPoint => AbortReason::UnexpectedBreakpoint,
                GuestException::InvalidOpcode => AbortReason::InvalidInstruction,
                GuestException::PageFault => AbortReason::UnexpectedPageFault,
            },
    {
        match value {
            GuestException::BreakPoint => AbortReason::UnexpectedBreakpoint,
            GuestException::InvalidOpcode => AbortReason::InvalidInstruction,
            GuestException::PageFault => AbortReason::UnexpectedPageFault,
        }
    }
}

/// Resolves the host frame that backs the guest physical address `gpa`: a
/// captured snapshot frame is paged in and used, an input-window frame maps
/// to the worker's private input pages, and any other address aborts the
/// iteration with the abort reason its frame number earns — the null page,
/// the highest page, or unbacked memory. No other outcome exists.
pub fn resolve_pa_for_gpa(
    gpa: u64,
    addressing: FrameAddressing,
    global: &mut GlobalState,
    mutation_engine: &MutationEngine,
) -> (r: Result<u64, VmExitResult>)
    requires
        old(global).snapshot.wf(),
        old(global).patch_set.wf(),
        old(global).corpus.data_pages_end - old(global).corpus.data_pages_start
            == mutation_engine.input_pages@.len(),
        old(global).corpus.data_pages_end <= 0x1000_0000,
        addressing.snapshot_pfn_base + old(global).snapshot.memory@.len() <= u64::MAX,
        addressing.input_pfn_base + mutation_engine.input_pages@.len() <= u64::MAX,
    ensures
        final(global).snapshot.wf(),
        final(global).corpus == old(global).corpus,
        final(global).patch_set == old(global).patch_set,
        final(global).overall_stats == old(global).overall_stats,
        final(global).active_thread_count == old(global).active_thread_count,
        final(global).iteration_count == old(global).iteration_count,
        final(global).snapshot.registers == old(global).snapshot.registers,
        final(global).snapshot.memory_ranges@ == old(global).snapshot.memory_ranges@,
        final(global).snapshot.memory@.len() == old(global).snapshot.memory@.len(),
        ({
            let pfn = (gpa >> 12) as int;
            let in_snapshot = old(global).snapshot.spec_contains(pfn);
            let in_window = old(global).corpus.data_pages_start <= pfn < old(global).corpus.data_pages_end;
            match r {
                Ok(pa_pfn) => {
                    &&& in_snapshot || in_window
                    &&& in_snapshot ==> pa_pfn == addressing.snapshot_pfn_base + pfn
                    &&& (!in_snapshot && in_window) ==> pa_pfn == addressing.input_pfn_base + (
                    pfn - old(global).corpus.data_pages_start)
                },
                Err(res) => {
                    &&& !in_snapshot && !in_window
                    &&& final(global).snapshot == old(global).snapshot
                    &&& res == if gpa >> 12 == 0 {
                        VmExitResult::AbortVm(AbortReason::NullPageAccess)
                    } else if gpa >> 12 == 0xf_ffff_ffff_ffff {
                        VmExitResult::AbortVm(AbortReason::NegativePageAccess)
                    } else {
                        VmExitResult::AbortVm(AbortReason::InvalidPageAccess)
                    }
                },
            }
        }),
{
    let pfn = gpa >> 12;

    // A captured guest frame is backed by the snapshot; page it in, with
    // patches, if this is its first touch.
    if global.snapshot.page_for(&global.patch_set, pfn) {
        return Ok(addressing.snapshot_pfn_base + pfn);
    }
    let (window_start, window_end) = global.corpus.data_pages();
    if pfn >= window_start as u64 && pfn < window_end as u64 {
        return Ok(addressing.input_pfn_base + (pfn - window_start as u64));
    }
    if pfn == 0 {
        Err(VmExitResult::AbortVm(AbortReason::NullPageAccess))
    } else if pfn == 0xf_ffff_ffff_ffff {
        Err(VmExitResult::AbortVm(AbortReason::NegativePageAccess))
    } else {
        // Access outside any backed range. This can be normal, eg device
        // memory the snapshot does not capture.
        Err(VmExitResult::AbortVm(AbortReason::InvalidPageAccess))
    }
}

/// Handles a VM exit due to an exception in the guest. A breakpoint at a
/// patched address is the coverage primitive: the patch is reverted in the
/// shared snapshot — so the first hit erases it for every worker — and the
/// address is recorded as newly executed. An invalid opcode at a patched
/// address is the end marker. Anything else aborts with the exception's
/// reason.
pub fn handle_interrupt_or_exception(
    global: &mut GlobalState,
    stats: &mut RunStats,
    qualification: &ExceptionQualification,
) -> (r: VmExitResult)
    requires
        old(global).snapshot.wf(),
        old(global).patch_set.wf(),
        old(stats).newly_executed_basic_blks@.len() < usize::MAX,
    ensures
        final(global).snapshot.wf(),
        final(global).corpus == old(global).corpus,
        final(global).patch_set == old(global).patch_set,
        final(global).overall_stats == old(global).overall_stats,
        final(global).active_thread_count == old(global).active_thread_count,
        final(global).iteration_count == old(global).iteration_count,
        final(global).snapshot.memory@.len() == old(global).snapshot.memory@.len(),
        final(global).snapshot.registers == old(global).snapshot.registers,
        final(stats).start_tsc == old(stats).start_tsc,
        final(stats).total_tsc == old(stats).total_tsc,
        final(stats).host_spent_tsc == old(stats).host_spent_tsc,
        final(stats).vmexit_count == old(stats).vmexit_count,
        final(stats).hang_count == old(stats).hang_count,
        match spec_find(old(global).patch_set.entries@, qualification.rip) {
            Some(e) => match qualification.exception_code {
                GuestException::BreakPoint => {
                    &&& r == VmExitResult::ResumeVm
                    &&& final(stats).newly_executed_basic_blks@ == old(stats).newly_executed_basic_blks@.push(qualification.rip)
                    &&& covered_by_patches(
                        qualification.rip,
                        old(global).patch_set.entries@,
                    )
                    // The found patch is erased in the shared snapshot: the
                    // instruction underneath runs natively from now on, for
                    // every worker.
                    &&& (if (e.address >> 12) < old(global).snapshot.memory@.len() {
                        &&& final(global).snapshot.memory@[(e.address >> 12) as int].0@
                            == e.spec_revert_one(
                            e.address >> 12,
                            old(global).snapshot.memory@[(e.address >> 12) as int].0@,
                        )
                        &&& forall|i: int|
                            0 <= i < old(global).snapshot.memory@.len() && i != (e.address
                                >> 12) as int ==> #[trigger] final(global).snapshot.memory@[i]
                                == old(global).snapshot.memory@[i]
                    } else {
                        final(global).snapshot.memory@ == old(global).snapshot.memory@
                    })
                    &&& bitvec_bits(&final(global).snapshot.read_bitmap) == bitvec_bits(
                        &old(global).snapshot.read_bitmap,
                    )
                },
                GuestException::InvalidOpcode => {
                    &&& r == VmExitResult::AbortVm(AbortReason::EndMarker)
                    &&& final(stats).newly_executed_basic_blks@ == old(stats).newly_executed_basic_blks@
                    &&& final(global).snapshot == old(global).snapshot
                },
                GuestException::PageFault => {
                    &&& r == VmExitResult::AbortVm(AbortReason::UnexpectedPageFault)
                    &&& final(stats).newly_executed_basic_blks@ == old(stats).newly_executed_basic_blks@
                    &&& final(global).snapshot == old(global).snapshot
                },
            },
            None => {
                &&& r == VmExitResult::AbortVm(
                    match qualification.exception_code {
                        GuestException::BreakPoint => AbortReason::UnexpectedBreakpoint,
                        GuestException::InvalidOpcode => AbortReason::InvalidInstruction,
                        GuestException::PageFault => AbortReason::UnexpectedPageFault,
                    },
                )
                &&& final(stats).newly_executed_basic_blks@ == old(stats).newly_executed_basic_blks@
                &&& final(global).snapshot == old(global).snapshot
            },
        },
{
    match global.patch_set.find(qualification.rip) {
        Some(entry) => match qualification.exception_code {
            GuestException::BreakPoint => {
                // The breakpoint is our coverage tracking patch: revert it
                // in the shared snapshot and record the address.
                global.snapshot.revert_patch_at(&global.patch_set, qualification.rip);
                stats.newly_executed_basic_blks.push(qualification.rip);
                proof {
                    let j = choose|j: int|
                        0 <= j < global.patch_set.entries@.len() && global.patch_set.entries@[j]
                            == entry;
                    assert(covered_by_patches(
                        qualification.rip,
                        global.patch_set.entries@,
                    ));
                }
                VmExitResult::ResumeVm
            },
            GuestException::InvalidOpcode => VmExitResult::AbortVm(AbortReason::EndMarker),
            GuestException::PageFault => VmExitResult::AbortVm(
                AbortReason::UnexpectedPageFault,
            ),
        },
        None => VmExitResult::AbortVm(AbortReason::from_exception(qualification.exception_code)),
    }
}

/// Handles a VM exit due to an external interrupt or to the guest spinning
/// on `PAUSE`: the iteration resumes while it is within its time budget
/// and aborts as a hang afterwards.
pub fn handle_external_interrupt_or_pause(stats: &mut RunStats, now_tsc: u64) -> (r: VmExitResult)
    ensures
        ({
            let total_elapsed = if now_tsc >= old(stats).start_tsc {
                now_tsc - old(stats).start_tsc
            } else {
                0
            };
            let guest_spent = if total_elapsed >= old(stats).host_spent_tsc {
                total_elapsed - old(stats).host_spent_tsc
            } else {
                0
            };
            if guest_spent < GUEST_EXEC_TIMEOUT_IN_TSC {
                &&& r == VmExitResult::ResumeVm
                &&& *final(stats) == *old(stats)
            } else {
                &&& r == VmExitResult::AbortVm(AbortReason::Hang)
                &&& final(stats).hang_count == 1
                &&& final(stats).newly_executed_basic_blks@ == old(stats).newly_executed_basic_blks@
                &&& final(stats).start_tsc == old(stats).start_tsc
                &&& final(stats).total_tsc == old(stats).total_tsc
                &&& final(stats).host_spent_tsc == old(stats).host_spent_tsc
                &&& final(stats).vmexit_count == old(stats).vmexit_count
            }
        }),
{
    let total_elapsed_tsc = if now_tsc >= stats.start_tsc {
        now_tsc - stats.start_tsc
    } else {
        0
    };
    let guest_spent_tsc = if total_elapsed_tsc >= stats.host_spent_tsc {
        total_elapsed_tsc - stats.host_spent_tsc
    } else {
        0
    };
    if guest_spent_tsc < GUEST_EXEC_TIMEOUT_IN_TSC {
        VmExitResult::ResumeVm
    } else {
        handle_timer_expiration(stats)
    }
}

/// Handles a VM exit due to expiration of the time slice given to the VM.
pub fn handle_timer_expiration(stats: &mut RunStats) -> (r: VmExitResult)
    ensures
        r == VmExitResult::AbortVm(AbortReason::Hang),
        final(stats).hang_count == 1,
        final(stats).newly_executed_basic_blks@ == old(stats).newly_executed_basic_blks@,
        final(stats).start_tsc == old(stats).start_tsc,
        final(stats).total_tsc == old(stats).total_tsc,
        final(stats).host_spent_tsc == old(stats).host_spent_tsc,
        final(stats).vmexit_count == old(stats).vmexit_count,
{
    stats.hang_count = 1;
    VmExitResult::AbortVm(AbortReason::Hang)
}

/// Handles a VM exit due to nested page fault: resolves the host frame
/// behind the faulted guest address, builds the missing translation, and
/// performs copy-on-write for a write access, so that a guest write lands
/// in this worker's private dirty page and never in the shared snapshot.
pub fn handle_nested_page_fault<T: HardwareVt>(
    vm: &mut Vm,
    vt: &mut T,
    global: &mut GlobalState,
    mutation_engine: &MutationEngine,
    qualification: &NestedPageFaultQualification,
    addressing: FrameAddressing,
) -> (r: VmExitResult)
    requires
        old(vm).wf(),
        old(global).snapshot.wf(),
        old(global).patch_set.wf(),
        mutation_engine.pages_wf(),
        old(global).corpus.data_pages_end - old(global).corpus.data_pages_start
            == mutation_engine.input_pages@.len(),
        old(global).corpus.data_pages_end <= 0x1000_0000,
        addressing.snapshot_pfn_base + old(global).snapshot.memory@.len() <= crate::vm::PFN_MASK,
        addressing.input_pfn_base + mutation_engine.input_pages@.len() <= crate::vm::PFN_MASK,
    ensures
        final(vm).wf(),
        final(global).snapshot.wf(),
        final(global).corpus == old(global).corpus,
        final(global).patch_set == old(global).patch_set,
        final(global).overall_stats == old(global).overall_stats,
        final(global).active_thread_count == old(global).active_thread_count,
        final(global).iteration_count == old(global).iteration_count,
        final(global).snapshot.memory@.len() == old(global).snapshot.memory@.len(),
        final(global).snapshot.registers == old(global).snapshot.registers,
        final(vm).vendor == old(vm).vendor,
        ({
            let pfn = (qualification.gpa >> 12) as int;
            let in_snapshot = old(global).snapshot.spec_contains(pfn);
            let in_window = old(global).corpus.data_pages_start <= pfn < old(global).corpus.data_pages_end;
            &&& (!in_snapshot && !in_window ==> r == (if qualification.gpa >> 12 == 0 {
                VmExitResult::AbortVm(AbortReason::NullPageAccess)
            } else if qualification.gpa >> 12 == 0xf_ffff_ffff_ffff {
                VmExitResult::AbortVm(AbortReason::NegativePageAccess)
            } else {
                VmExitResult::AbortVm(AbortReason::InvalidPageAccess)
            }) && *final(vm) == *old(vm))
            &&& (r == VmExitResult::AbortVm(AbortReason::ExcessiveMemoryWrite)
                ==> qualification.write_access && old(vm).spec_used_dirty_page_count()
                == crate::vm::DIRTY_PAGE_COUNT)
            &&& (r == VmExitResult::ResumeVm && qualification.write_access ==> final(vm).spec_used_dirty_page_count() == old(vm).spec_used_dirty_page_count() + 1)
            &&& (r == VmExitResult::ResumeVm && !qualification.write_access ==> final(vm).spec_used_dirty_page_count() == old(vm).spec_used_dirty_page_count())
            &&& ({
                let pool_ok = old(vm).used_nps_count + 3 <= crate::vm::NPS_COUNT;
                let build_ok = !qualification.missing_translation || old(vm).leaf_entry(
                    qualification.gpa,
                ) == 0;
                let dirty_free = old(vm).spec_used_dirty_page_count()
                    < crate::vm::DIRTY_PAGE_COUNT;
                let resolved_pa = if in_snapshot {
                    addressing.snapshot_pfn_base + pfn
                } else {
                    addressing.input_pfn_base + (pfn - old(global).corpus.data_pages_start)
                };
                // On a backed frame the outcome is fixed: the fault is
                // served unless a pool stands in the way, and a full dirty
                // pool on a write aborts the iteration with exactly the
                // excessive-write reason.
                &&& ((in_snapshot || in_window) && pool_ok && build_ok && (
                !qualification.write_access || dirty_free) ==> r == VmExitResult::ResumeVm)
                &&& ((in_snapshot || in_window) && pool_ok && build_ok
                    && qualification.write_access && !dirty_free ==> r == VmExitResult::AbortVm(
                    AbortReason::ExcessiveMemoryWrite,
                ))
                // The worker stops only for a broken invariant: an exhausted
                // table pool, or a fault reported missing on a mapped frame.
                &&& (r is Panic ==> (in_snapshot || in_window) && (!pool_ok || (
                qualification.missing_translation && old(vm).leaf_entry(qualification.gpa)
                    != 0)))
                // A served fault really installs the resolved frame: the
                // built translation for a read, the fresh dirty frame for a
                // write.
                &&& (r == VmExitResult::ResumeVm && qualification.missing_translation
                    && !qualification.write_access ==> final(vm).translation(qualification.gpa)
                    == Some(resolved_pa as u64))
                &&& (r == VmExitResult::ResumeVm && qualification.write_access ==> final(vm).translation(qualification.gpa) == Some(
                    (old(vm).dirty_pfn_base + old(vm).spec_used_dirty_page_count()) as u64,
                ))
            })
        }),
{
    let gpa = qualification.gpa;

    // Resolve a host frame that maps or will map the faulted guest frame:
    // within the snapshot, within the input data pages, or nowhere.
    let pa_pfn = match resolve_pa_for_gpa(gpa, addressing, global, mutation_engine) {
        Ok(pa) => pa,
        Err(err) => {
            return err;
        },
    };

    // If this VM exit is due to a missing translation, build it. The new
    // leaf is non-writable: the snapshot and the input pages are shared or
    // reused, and a write must first go through copy-on-write below.
    if qualification.missing_translation {
        proof {
            assert(pa_pfn <= 0x7fff_ffff_ffff ==> (((pa_pfn << 12u64) >> 12u64)
                & 0x7fff_ffff_ffff) == pa_pfn) by (bit_vector);
        }
        match vm.build_translation(gpa, pa_pfn << 12u64) {
            Ok(()) => {},
            Err(e) => {
                // The preallocated paging structures are exhausted, or the
                // hardware reported a fault on a mapped page: either breaks
                // the VM's invariants for good.
                proof {
                    if e == VmError::TranslationAlreadyExists {
                        assert(old(vm).leaf_entry(gpa) != 0);
                    } else {
                        assert(e == VmError::OutOfNestedPagingStructures);
                        assert(old(vm).used_nps_count + 3 > crate::vm::NPS_COUNT);
                    }
                }
                return VmExitResult::Panic(0);
            },
        }
    }

    // If this is a write access, retarget the translation to a private
    // dirty page holding a copy of the original frame, isolating the write
    // to this worker.
    if qualification.write_access {
        let pfn = gpa >> 12;
        proof {
            if old(global).snapshot.spec_contains(pfn as int) {
                let j = choose|j: int|
                    0 <= j < old(global).snapshot.memory_ranges@.len() && old(
                        global,
                    ).snapshot.in_range(j, pfn as int);
                assert(global.snapshot.in_range(j, pfn as int));
            }
            if global.snapshot.spec_contains(pfn as int) {
                let j = choose|j: int|
                    0 <= j < global.snapshot.memory_ranges@.len() && global.snapshot.in_range(
                        j,
                        pfn as int,
                    );
                assert(old(global).snapshot.in_range(j, pfn as int));
                assert(old(global).snapshot.spec_contains(pfn as int));
            }
        }
        let copied = if global.snapshot.contains(pfn) {
            proof {
                assert(pfn < global.snapshot.memory@.len());
            }
            let src = global.snapshot.frame(pfn as usize);
            vm.copy_on_write(gpa, src)
        } else {
            let (window_start, _window_end) = global.corpus.data_pages();
            let src = mutation_engine.resolve_page((pfn as usize) - window_start);
            vm.copy_on_write(gpa, src)
        };
        match copied {
            Ok(true) => {},
            Ok(false) => {
                return VmExitResult::AbortVm(AbortReason::ExcessiveMemoryWrite);
            },
            Err(_) => {
                return VmExitResult::Panic(0);
            },
        }
    }

    // The nested paging structures changed; caches may need invalidation.
    vt.invalidate_caches();
    VmExitResult::ResumeVm
}

/// Runs one fuzzing iteration: reverts the dirty memory and the registers
/// to the snapshot, maps the next mutation of the input, and runs the VM
/// until an abort condition, handling every exit on the way. The hardware
/// bounds the guest's time; `exit_budget` bounds the handler loop the same
/// way, and an exhausted budget counts as a hang.
///
/// The mutation mode is fixed per worker; this driver runs the exhaustive
/// bit-flip mode. The random-byte mode draws fresh timestamps inside each
/// step, so its runner collects the draws and drives
/// `map_and_mutate_input_random` itself around the same exit handling.
#[verifier::loop_isolation(false)]
pub fn start_vm<T: HardwareVt>(
    vm: &mut Vm,
    vt: &mut T,
    mutation_engine: &mut MutationEngine,
    global: &mut GlobalState,
    addressing: FrameAddressing,
    exit_budget: u64,
) -> (r: (RunStats, IterationEnd))
    requires
        old(vm).wf(),
        old(mutation_engine).wf(),
        old(mutation_engine).mode == MutationMode::BitFlip,
        old(global).snapshot.wf(),
        old(global).corpus.wf(),
        old(global).patch_set.wf(),
        old(global).active_thread_count > 0,
        old(global).corpus.data_pages_end - old(global).corpus.data_pages_start == old(mutation_engine).input_pages@.len(),
        old(global).corpus.data_pages_end <= 0x1000_0000,
        addressing.snapshot_pfn_base + old(global).snapshot.memory@.len() <= crate::vm::PFN_MASK,
        addressing.input_pfn_base + old(mutation_engine).input_pages@.len()
            <= crate::vm::PFN_MASK,
        exit_budget <= 0xffff_0000,
    ensures
        final(vm).wf(),
        final(mutation_engine).wf(),
        final(mutation_engine).mode == old(mutation_engine).mode,
        final(global).snapshot.wf(),
        final(global).corpus.wf(),
        final(global).patch_set == old(global).patch_set,
        final(global).corpus.data_pages_start == old(global).corpus.data_pages_start,
        final(global).corpus.data_pages_end == old(global).corpus.data_pages_end,
        final(mutation_engine).input_pages@.len() == old(mutation_engine).input_pages@.len(),
        all_covered_by_patches(
            r.0.newly_executed_basic_blks@,
            old(global).patch_set.entries@,
        ),
        r.1 is FuzzingComplete ==> final(global).active_thread_count == old(global).active_thread_count - 1,
        !(r.1 is FuzzingComplete) ==> final(global).active_thread_count == old(global).active_thread_count,
        // Fuzzing completes exactly when the input was exhausted and no
        // fresh one was left to consume.
        r.1 is FuzzingComplete <==> (old(mutation_engine).current_input.mutation_count == old(
            mutation_engine,
        ).current_input.total_bits && old(global).corpus.files@.len() == 0),
        // The corpus loses exactly the consumed input, and nothing else.
        final(global).corpus.files@ == (if old(mutation_engine).current_input.mutation_count
            == old(mutation_engine).current_input.total_bits && old(
            global,
        ).corpus.files@.len() > 0 {
            old(global).corpus.files@.drop_last()
        } else {
            old(global).corpus.files@
        }),
        // The iteration began as the mutation step's contract states: a
        // fresh input mapped unmutated as a baseline, or the next single-bit
        // variant of the current one.
        !(r.1 is FuzzingComplete) ==> (if old(mutation_engine).current_input.mutation_count
            == old(mutation_engine).current_input.total_bits {
            &&& final(mutation_engine).current_input.input.data@ == old(
                global,
            ).corpus.files@.last().data@
            &&& final(mutation_engine).current_input.input.name@ == old(
                global,
            ).corpus.files@.last().name@
            &&& final(mutation_engine).current_input.mutation_count == 0
            &&& final(mutation_engine).buffer() == spec_padded(
                old(global).corpus.files@.last().data@,
                old(mutation_engine).capacity(),
            )
        } else {
            &&& final(mutation_engine).current_input.input == old(
                mutation_engine,
            ).current_input.input
            &&& final(mutation_engine).current_input.mutation_count == old(
                mutation_engine,
            ).current_input.mutation_count + 1
            &&& final(mutation_engine).buffer() == spec_flip_bit(
                final(mutation_engine).baseline(),
                old(mutation_engine).current_input.mutation_count as int,
            )
        }),
{
    // Configure the VM based on the snapshot. Memory is paged in from the
    // snapshot on nested page fault; only pages dirtied by the previous
    // iteration need reverting.
    let invalidate = vm.revert_dirty_memory();
    if invalidate {
        vt.invalidate_caches();
    }
    vt.revert_registers(&global.snapshot.registers);

    // Inject mutated input data into the VM's memory.
    if !mutation_engine.map_and_mutate_input(
        &mut global.corpus,
        &mut global.active_thread_count,
    ) {
        return (RunStats::new(vt.read_time_counter()), IterationEnd::FuzzingComplete);
    }

    // Update the VM's registers to point to the mutated input data.
    vt.adjust_registers(global.corpus.data_gva(), mutation_engine.current_input.size());

    // Run the VM until it reaches one of the abort conditions.
    let mut stats = RunStats::new(vt.read_time_counter());
    let mut budget = exit_budget;
    let ghost corpus0 = global.corpus;
    let ghost patch0 = global.patch_set;
    let ghost active0 = global.active_thread_count;
    let ghost engine0 = *mutation_engine;
    while budget > 0
        invariant
            vm.wf(),
            *mutation_engine == engine0,
            mutation_engine.wf(),
            global.snapshot.wf(),
            global.corpus == corpus0,
            corpus0.wf(),
            global.patch_set == patch0,
            patch0.wf(),
            global.active_thread_count == active0,
            corpus0.data_pages_end - corpus0.data_pages_start
                == mutation_engine.input_pages@.len(),
            corpus0.data_pages_end <= 0x1000_0000,
            addressing.snapshot_pfn_base + global.snapshot.memory@.len()
                <= crate::vm::PFN_MASK,
            addressing.input_pfn_base + mutation_engine.input_pages@.len()
                <= crate::vm::PFN_MASK,
            budget <= exit_budget,
            exit_budget <= 0xffff_0000,
            stats.newly_executed_basic_blks@.len() + budget <= exit_budget,
            all_covered_by_patches(stats.newly_executed_basic_blks@, patch0.entries@),
        decreases budget,
    {
        // Run the VM until a VM exit happens, then handle it by kind.
        let exit_reason = vt.run();
        let host_start_tsc = vt.read_time_counter();
        let ghost blks_before = stats.newly_executed_basic_blks@;
        let exit_handling_result = match exit_reason {
            VmExitReason::NestedPageFault(qualification) => handle_nested_page_fault(
                vm,
                vt,
                global,
                mutation_engine,
                &qualification,
                addressing,
            ),
            VmExitReason::Exception(qualification) => handle_interrupt_or_exception(
                global,
                &mut stats,
                &qualification,
            ),
            VmExitReason::ExternalInterruptOrPause => {
                let now = vt.read_time_counter();
                handle_external_interrupt_or_pause(&mut stats, now)
            },
            VmExitReason::TimerExpiration => handle_timer_expiration(&mut stats),
            VmExitReason::Shutdown(exit_code) => VmExitResult::Panic(exit_code),
            VmExitReason::Unexpected(_) => VmExitResult::AbortVm(AbortReason::UnhandledVmExit),
        };
        proof {
            assert forall|i: int|
                0 <= i < stats.newly_executed_basic_blks@.len() implies covered_by_patches(
                #[trigger] stats.newly_executed_basic_blks@[i],
                patch0.entries@,
            ) by {
                if i < blks_before.len() {
                    assert(covered_by_patches(blks_before[i], patch0.entries@));
                }
            }
        }
        stats.vmexit_count = stats.vmexit_count.wrapping_add(1);
        let host_end_tsc = vt.read_time_counter();
        stats.host_spent_tsc = stats.host_spent_tsc.wrapping_add(
            host_end_tsc.wrapping_sub(host_start_tsc),
        );

        // Either resume the VM, abort the iteration, or stop the worker.
        match exit_handling_result {
            VmExitResult::ResumeVm => {},
            VmExitResult::AbortVm(reason) => {
                let now = vt.read_time_counter();
                stats.total_tsc = now.wrapping_sub(stats.start_tsc);
                return (stats, IterationEnd::Aborted(reason));
            },
            VmExitResult::Panic(exit_code) => {
                return (stats, IterationEnd::BackendPanic(exit_code));
            },
        }
        budget = budget - 1;
    }

    // The handler loop budget is spent without an abort: classify it the
    // way the hardware timer would.
    let _ = handle_timer_expiration(&mut stats);
    let now = vt.read_time_counter();
    stats.total_tsc = now.wrapping_sub(stats.start_tsc);
    (stats, IterationEnd::Aborted(AbortReason::Hang))
}

/// Feeds the current input back into the corpus exactly when this
/// iteration executed a new basic block and the input is a mutated one (a
/// baseline pass teaches nothing new). The published copy carries the
/// mutation count in its name and becomes visible to every worker. Returns
/// whether an input was published.
pub fn publish_on_new_coverage(
    corpus: &mut Corpus,
    stats: &RunStats,
    current_input: &MutatingInput,
) -> (published: bool)
    requires
        old(corpus).wf(),
        current_input.input.data@.len() <= (old(corpus).data_pages_end - old(
            corpus,
        ).data_pages_start) * 4096,
    ensures
        final(corpus).wf(),
        final(corpus).data_gva == old(corpus).data_gva,
        final(corpus).data_pages_start == old(corpus).data_pages_start,
        final(corpus).data_pages_end == old(corpus).data_pages_end,
        published <==> (stats.newly_executed_basic_blks@.len() > 0
            && current_input.mutation_count != 0),
        published ==> final(corpus).files@.len() == old(corpus).files@.len() + 1
            && final(corpus).files@.last().data@ == current_input.input.data@
            && final(corpus).files@.last().name@ == current_input.input.name@ + "_"@
            + spec_dec_u64(current_input.mutation_count as int)
            && final(corpus).files@.drop_last() == old(corpus).files@,
        !published ==> final(corpus).files@ == old(corpus).files@,
{
    if stats.newly_executed_basic_blks.len() > 0 && current_input.is_mutated() {
        let derived = current_input.data();
        corpus.add_file(derived);
        proof {
            assert(corpus.files@.drop_last() =~= old(corpus).files@);
        }
        true
    } else {
        false
    }
}

} // verus!
