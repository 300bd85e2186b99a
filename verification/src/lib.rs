//! Core of a snapshot-fuzzing hypervisor: the per-CPU VM lifecycle
//! (snapshot, mutate, run, classify, revert), the nested-paging-based
//! copy-on-write memory model, the coverage patch subsystem, the mutation
//! state machine, and the shared corpus coordination.

mod config;
mod corpus;
mod global_state;
mod hardware_vt;
mod hypervisor;
mod mutation_engine;
mod page;
mod panic_report;
mod patch;
mod paths;
mod snapshot;
mod stats;
mod text;
mod vm;

pub use snapshot::DescriptorTablePointer;
pub use snapshot::SnapshotRegisters;
pub use config::CONSOLE_OUTPUT_INTERVAL;
pub use config::GUEST_EXEC_TIMEOUT_IN_TSC;
pub use config::SERIAL_OUTPUT_INTERVAL;
pub use config::MAX_ITERATION_COUNT_PER_FILE;
pub use corpus::Corpus;
pub use corpus::CorpusError;
pub use corpus::InputFile;
pub use global_state::ConsoleSummary;
pub use global_state::GlobalState;
pub use global_state::all_covered_by_patches;
pub use global_state::covered_by_patches;
pub use global_state::lemma_coverage_merge;
pub use hardware_vt::ExceptionQualification;
pub use hardware_vt::GuestException;
pub use hardware_vt::NestedPageFaultQualification;
pub use hypervisor::AbortReason;
pub use hypervisor::FrameAddressing;
pub use hypervisor::IterationEnd;
pub use hypervisor::Severity;
pub use hypervisor::VmExitResult;
pub use hypervisor::handle_external_interrupt_or_pause;
pub use hypervisor::handle_interrupt_or_exception;
pub use hypervisor::handle_timer_expiration;
pub use hypervisor::handle_nested_page_fault;
pub use hypervisor::publish_on_new_coverage;
pub use hypervisor::resolve_pa_for_gpa;
pub use hypervisor::start_vm;
pub use hardware_vt::HardwareVt;
pub use hardware_vt::NestedPagingStructureEntryFlags;
pub use hardware_vt::NestedPagingStructureEntryType;
pub use hardware_vt::Vendor;
pub use hardware_vt::VmExitReason;
pub use hardware_vt::get_segment_access_right;
pub use hardware_vt::get_segment_limit;
pub use hardware_vt::nps_entry_flags;
pub use patch::PatchEntry;
pub use patch::covers;
pub use patch::le_byte;
pub use patch::lemma_apply_then_revert_restores;
pub use patch::spec_find;
pub use patch::spec_revert_all;
pub use patch::PatchError;
pub use patch::PatchSet;
pub use mutation_engine::MutatingInput;
pub use mutation_engine::lemma_bit_flip_variants_distinct;
pub use mutation_engine::lemma_flip_comm;
pub use mutation_engine::lemma_flip_twice;
pub use mutation_engine::spec_apply_writes;
pub use mutation_engine::spec_flip_bit;
pub use mutation_engine::spec_padded;
pub use mutation_engine::MutationEngine;
pub use mutation_engine::MutationMode;
pub use mutation_engine::resolve_page_from_input_data;
pub use page::Page;
pub use panic_report::panic_handler;
pub use paths::unix_path;
pub use stats::RunStats;
pub use stats::time_to_u64;
pub use stats::StatsLine;
pub use text::dec_u64;
pub use page::size_to_pages;
pub use snapshot::Snapshot;
pub use snapshot::SnapshotError;
pub use snapshot::SnapshotMemoryRange;
pub use vm::DirtyEntry;
pub use vm::dirtied_within;
pub use vm::entry_pfn;
pub use vm::last_dirty_original;
pub use vm::lemma_cow_then_revert_restores;
pub use vm::lemma_last_dirty_entry_decides;
pub use vm::lemma_leaf_slot_unique;
pub use vm::same_translation_path;
pub use vm::spec_make_entry;
pub use vm::Vm;
pub use vm::VmError;
