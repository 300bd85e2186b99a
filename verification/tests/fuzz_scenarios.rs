//! End-to-end iterations over a scripted hardware backend: paging in, the
//! coverage breakpoint, copy-on-write isolation, hangs, and feeding a
//! coverage-growing input back into the corpus.

use rhv::{
    AbortReason, Corpus, ExceptionQualification, FrameAddressing, GlobalState, GuestException,
    HardwareVt, InputFile, IterationEnd, MutationEngine, MutationMode, NestedPageFaultQualification,
    Page, PatchEntry, PatchSet, Snapshot, SnapshotRegisters, Vendor, Vm, VmExitReason,
    publish_on_new_coverage, start_vm, GUEST_EXEC_TIMEOUT_IN_TSC,
};

/// A backend that replays a prepared list of VM exits and advances a fake
/// timestamp counter by one per reading.
struct ScriptedVt {
    exits: Vec<VmExitReason>,
    tsc: u64,
    tsc_step: u64,
}

impl ScriptedVt {
    fn new(exits: Vec<VmExitReason>) -> ScriptedVt {
        ScriptedVt { exits, tsc: 0, tsc_step: 1 }
    }
}

impl HardwareVt for ScriptedVt {
    fn enable(&mut self) {}

    fn initialize(&mut self, _nested_pml4_addr: u64) {}

    fn revert_registers(&mut self, _registers: &SnapshotRegisters) {}

    fn adjust_registers(&mut self, _input_addr: u64, _input_size: u64) {}

    fn run(&mut self) -> VmExitReason {
        if self.exits.is_empty() {
            VmExitReason::Unexpected(0xdead)
        } else {
            self.exits.remove(0)
        }
    }

    fn invalidate_caches(&mut self) {}

    fn read_time_counter(&mut self) -> u64 {
        self.tsc += self.tsc_step;
        self.tsc
    }
}

fn npf(gpa: u64, missing_translation: bool, write_access: bool) -> VmExitReason {
    VmExitReason::NestedPageFault(NestedPageFaultQualification {
        rip: 0x10,
        gpa,
        missing_translation,
        write_access,
    })
}

fn exception(rip: u64, code: GuestException) -> VmExitReason {
    VmExitReason::Exception(ExceptionQualification { rip, exception_code: code })
}

/// Builds the raw frames of a snapshot file: `memory_frames` frames of
/// guest memory covered by one range starting at frame 0, and a metadata
/// frame with the magic value, the range, and a register set whose RIP is
/// 0x10 and whose GDT sits in frame 0.
fn snapshot_frames(memory_frames: u64) -> Vec<Page> {
    let mut frames = Vec::new();
    for i in 0..memory_frames {
        let mut page = Page(vec![0u8; 4096]);
        // The end marker instruction at offset 0x10 of frame 0.
        if i == 0 {
            page.0[0x10] = 0x0F;
            page.0[0x11] = 0x0B;
        }
        frames.push(page);
    }
    let mut meta = Page(vec![0u8; 4096]);
    // Magic.
    let magic: u64 = 0x544F_4853_5041_4E53;
    for k in 0..8 {
        meta.0[k] = ((magic >> (8 * k)) & 0xff) as u8;
    }
    // One range: base 0, `memory_frames` pages.
    for k in 0..8 {
        meta.0[0x18 + k] = ((memory_frames >> (8 * k)) & 0xff) as u8;
    }
    // Registers: RIP 0x10 at offset 0x380; GDT base 0 at 0x302.
    meta.0[0x380] = 0x10;
    frames.push(meta);
    frames
}

fn make_global(memory_frames: u64, patch_entries: Vec<PatchEntry>, inputs: Vec<&[u8]>) -> GlobalState {
    let snapshot = Snapshot::new(snapshot_frames(memory_frames)).unwrap();
    let mut files = Vec::new();
    for (i, data) in inputs.iter().enumerate() {
        files.push(InputFile { data: data.to_vec(), name: format!("seed{i}") });
    }
    let corpus = Corpus::new(files, memory_frames as usize).unwrap();
    let patch_set = PatchSet::new(patch_entries).unwrap();
    let mut global = GlobalState::new(snapshot, corpus, patch_set, 1, 0);
    global.active_thread_count = 1;
    global
}

fn addressing() -> FrameAddressing {
    FrameAddressing { snapshot_pfn_base: 0x1000, input_pfn_base: 0x2000 }
}

fn worker(global: &GlobalState) -> (Vm, MutationEngine) {
    let vm = Vm::new(Vendor::Intel, 0x100000, 0x200000);
    let engine = MutationEngine::new(MutationMode::BitFlip, &global.corpus);
    (vm, engine)
}

#[test]
fn trivial_pass() {
    // A fault on frame 0 pages it in and builds the translation; the end
    // marker instruction then raises an invalid opcode. With an empty patch
    // set the handler cannot tell the end marker apart, and classifies the
    // instruction as invalid; no coverage appears and the corpus stays.
    let mut global = make_global(2, Vec::new(), vec![b"A"]);
    let (mut vm, mut engine) = worker(&global);
    let mut vt = ScriptedVt::new(vec![
        npf(0x0000, true, false),
        exception(0x10, GuestException::InvalidOpcode),
    ]);
    let (stats, end) = start_vm(&mut vm, &mut vt, &mut engine, &mut global, addressing(), 64);
    assert!(matches!(end, IterationEnd::Aborted(AbortReason::InvalidInstruction)));
    assert!(stats.newly_executed_basic_blks.is_empty());
    assert_eq!(stats.vmexit_count, 2);
    assert_eq!(global.corpus.remaining_files_count(), 0);
    assert_eq!(vm.lookup_translation(0), Some(0x1000));
}

#[test]
fn breakpoint_coverage() {
    // The patched breakpoint at RIP 0x10 fires once: the byte under it is
    // reverted in the shared snapshot, the address lands in the coverage
    // list, and the iteration then ends at the end marker. The first pass
    // over an input is unmutated, so nothing is added to the corpus.
    let patch = PatchEntry { address: 0x10, length: 1, patch: 0xCC, original: 0x0F };
    let mut global = make_global(2, vec![patch], vec![b"A"]);
    let (mut vm, mut engine) = worker(&global);
    let mut vt = ScriptedVt::new(vec![
        npf(0x0000, true, false),
        exception(0x10, GuestException::BreakPoint),
        exception(0x10, GuestException::InvalidOpcode),
    ]);
    let (stats, end) = start_vm(&mut vm, &mut vt, &mut engine, &mut global, addressing(), 64);
    assert!(matches!(end, IterationEnd::Aborted(AbortReason::EndMarker)));
    assert_eq!(stats.newly_executed_basic_blks, vec![0x10]);
    // The page-in applied the patch; the breakpoint hit reverted it.
    assert_eq!(global.snapshot.frame(0).0[0x10], 0x0F);
    assert!(!engine.current_input.is_mutated());
    assert_eq!(global.corpus.remaining_files_count(), 0);
}

#[test]
fn copy_on_write_keeps_the_snapshot_clean() {
    // The guest writes to captured frame 1: the write faults, the handler
    // retargets the translation to a private dirty page, and the iteration
    // ends. The revert at the start of the next iteration restores the
    // translation, and a fresh read of the frame sees the snapshot bytes.
    let mut global = make_global(3, Vec::new(), vec![b"AB"]);
    let (mut vm, mut engine) = worker(&global);
    let mut vt = ScriptedVt::new(vec![
        npf(0x1000, true, false),
        npf(0x1000, false, true),
        exception(0x10, GuestException::InvalidOpcode),
    ]);
    let (_stats, end) = start_vm(&mut vm, &mut vt, &mut engine, &mut global, addressing(), 64);
    assert!(matches!(end, IterationEnd::Aborted(AbortReason::InvalidInstruction)));
    assert_eq!(vm.used_dirty_page_count(), 1);
    assert_eq!(vm.lookup_translation(0x1000), Some(0x200000));

    // Next iteration: the dirty translation is restored first.
    let mut vt = ScriptedVt::new(vec![exception(0x10, GuestException::InvalidOpcode)]);
    let (_stats, _end) = start_vm(&mut vm, &mut vt, &mut engine, &mut global, addressing(), 64);
    assert_eq!(vm.used_dirty_page_count(), 0);
    assert_eq!(vm.lookup_translation(0x1000), Some(0x1000 + 1));
    assert!(global.snapshot.page_for(&global.patch_set, 1));
    assert_eq!(global.snapshot.frame(1).0, vec![0u8; 4096]);
}

#[test]
fn unbacked_accesses_classify_exactly() {
    // The faulting frame resolves into the snapshot, into the input window,
    // or earns one of exactly three abort reasons.
    let mut global = make_global(2, Vec::new(), vec![b"A"]);
    let (mut vm, mut engine) = worker(&global);
    let mut vt = ScriptedVt::new(vec![npf(0, true, false), npf(0xdead_0000, true, false)]);
    let (_s, end) = start_vm(&mut vm, &mut vt, &mut engine, &mut global, addressing(), 64);
    assert!(matches!(end, IterationEnd::Aborted(AbortReason::InvalidPageAccess)));

    let mut vt = ScriptedVt::new(vec![npf(0xffff_ffff_ffff_f000, true, false)]);
    let (_s, end) = start_vm(&mut vm, &mut vt, &mut engine, &mut global, addressing(), 64);
    assert!(matches!(end, IterationEnd::Aborted(AbortReason::NegativePageAccess)));

    // Frame 0 lies within the snapshot here, so a null access resolves; a
    // snapshot that does not cover it earns the null-page reason.
    let mut global2 = make_global(2, Vec::new(), vec![b"A"]);
    global2.snapshot.memory_ranges[0].page_base = 0x1000;
    let (mut vm2, mut engine2) = worker(&global2);
    let mut vt = ScriptedVt::new(vec![npf(0, true, false)]);
    let (_s, end) = start_vm(&mut vm2, &mut vt, &mut engine2, &mut global2, addressing(), 64);
    assert!(matches!(end, IterationEnd::Aborted(AbortReason::NullPageAccess)));
}

#[test]
fn hang_detection() {
    // An external interrupt within the time budget resumes the guest; a
    // timer expiration, or pauses past the budget, end the iteration as a
    // hang and count it.
    let mut global = make_global(2, Vec::new(), vec![b"A"]);
    let (mut vm, mut engine) = worker(&global);
    let mut vt = ScriptedVt::new(vec![
        VmExitReason::ExternalInterruptOrPause,
        VmExitReason::TimerExpiration,
    ]);
    let (stats, end) = start_vm(&mut vm, &mut vt, &mut engine, &mut global, addressing(), 64);
    assert!(matches!(end, IterationEnd::Aborted(AbortReason::Hang)));
    assert_eq!(stats.hang_count, 1);

    // A pause loop whose guest time exceeds the budget hangs as well.
    let mut vt = ScriptedVt::new(vec![VmExitReason::ExternalInterruptOrPause]);
    vt.tsc_step = GUEST_EXEC_TIMEOUT_IN_TSC;
    let (stats, end) = start_vm(&mut vm, &mut vt, &mut engine, &mut global, addressing(), 64);
    assert!(matches!(end, IterationEnd::Aborted(AbortReason::Hang)));
    assert_eq!(stats.hang_count, 1);
}

#[test]
fn shutdown_stops_the_worker() {
    let mut global = make_global(2, Vec::new(), vec![b"A"]);
    let (mut vm, mut engine) = worker(&global);
    let mut vt = ScriptedVt::new(vec![VmExitReason::Shutdown(7)]);
    let (_s, end) = start_vm(&mut vm, &mut vt, &mut engine, &mut global, addressing(), 64);
    assert!(matches!(end, IterationEnd::BackendPanic(7)));
}

#[test]
fn coverage_growing_input_feeds_the_corpus() {
    // Two iterations over one seed. The first maps the seed unmutated and
    // hits the first breakpoint; nothing is added, the input was not
    // mutated. The second flips a bit and hits the second breakpoint: new
    // coverage from a mutated input, so its copy joins the corpus under a
    // derived name, becoming visible to every worker.
    let patches = vec![
        PatchEntry { address: 0x10, length: 1, patch: 0xCC, original: 0x0F },
        PatchEntry { address: 0x14, length: 1, patch: 0xCC, original: 0x90 },
    ];
    let mut global = make_global(2, patches, vec![b"A"]);
    let (mut vm, mut engine) = worker(&global);

    let mut vt = ScriptedVt::new(vec![
        npf(0x0000, true, false),
        exception(0x10, GuestException::BreakPoint),
        exception(0x10, GuestException::InvalidOpcode),
    ]);
    let (stats, _end) = start_vm(&mut vm, &mut vt, &mut engine, &mut global, addressing(), 64);
    assert!(!stats.newly_executed_basic_blks.is_empty());
    assert!(!engine.current_input.is_mutated());
    // A baseline pass publishes nothing, whatever it covered.
    assert!(!publish_on_new_coverage(&mut global.corpus, &stats, &engine.current_input));
    assert_eq!(global.corpus.remaining_files_count(), 0);

    let mut vt = ScriptedVt::new(vec![
        exception(0x14, GuestException::BreakPoint),
        exception(0x10, GuestException::InvalidOpcode),
    ]);
    let (stats, _end) = start_vm(&mut vm, &mut vt, &mut engine, &mut global, addressing(), 64);
    assert_eq!(stats.newly_executed_basic_blks, vec![0x14]);
    assert!(engine.current_input.is_mutated());

    // The worker loop publishes the mutated input on new coverage.
    let iter_count = global.update_stats(&stats);
    assert_eq!(iter_count, 1);
    assert_eq!(global.overall_stats.newly_executed_basic_blks, vec![0x14]);
    assert!(publish_on_new_coverage(&mut global.corpus, &stats, &engine.current_input));
    assert_eq!(global.corpus.remaining_files_count(), 1);
    let published = global.corpus.select_file(0);
    assert_eq!(published.name, "seed0_1");
    assert_eq!(published.data, b"A".to_vec());
}

#[test]
fn fuzzing_completes_when_the_corpus_is_exhausted() {
    // The single one-byte seed allows eight mutations; after them, the next
    // iteration needs a fresh input, finds none, and the worker leaves the
    // active count — the last one to do so ends fuzzing.
    let mut global = make_global(2, Vec::new(), vec![b"A"]);
    let (mut vm, mut engine) = worker(&global);
    for _ in 0..9 {
        let mut vt = ScriptedVt::new(vec![exception(0x10, GuestException::InvalidOpcode)]);
        let (_s, end) = start_vm(&mut vm, &mut vt, &mut engine, &mut global, addressing(), 64);
        assert!(matches!(end, IterationEnd::Aborted(_)));
    }
    let mut vt = ScriptedVt::new(Vec::new());
    let (_s, end) = start_vm(&mut vm, &mut vt, &mut engine, &mut global, addressing(), 64);
    assert!(matches!(end, IterationEnd::FuzzingComplete));
    assert_eq!(global.active_thread_count, 0);
}
