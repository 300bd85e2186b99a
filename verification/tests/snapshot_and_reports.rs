//! Tests of snapshot file parsing, demand paging, and the reporting
//! decisions.

use rhv::{
    AbortReason, Corpus, GlobalState, InputFile, MutatingInput, Page, PatchEntry, PatchSet,
    RunStats, Severity, Snapshot, SnapshotError, time_to_u64,
};

fn meta_frame(ranges: &[(u64, u64)]) -> Page {
    let mut meta = Page(vec![0u8; 4096]);
    let magic: u64 = 0x544F_4853_5041_4E53;
    for k in 0..8 {
        meta.0[k] = ((magic >> (8 * k)) & 0xff) as u8;
    }
    for (j, (base, count)) in ranges.iter().enumerate() {
        for k in 0..8 {
            meta.0[0x10 + 16 * j + k] = ((base >> (8 * k)) & 0xff) as u8;
            meta.0[0x18 + 16 * j + k] = ((count >> (8 * k)) & 0xff) as u8;
        }
    }
    meta
}

fn file_with(ranges: &[(u64, u64)], memory_frames: usize) -> Vec<Page> {
    let mut frames = Vec::new();
    for i in 0..memory_frames {
        frames.push(Page(vec![i as u8; 4096]));
    }
    frames.push(meta_frame(ranges));
    frames
}

#[test]
fn snapshot_parses_metadata() {
    let mut frames = file_with(&[(0, 2), (0x5000, 1)], 8);
    // Registers: RIP at 0x380, RSP at 0x378, GDT base (frame 1) at 0x302.
    let meta = frames.last_mut().unwrap();
    meta.0[0x380] = 0x34;
    meta.0[0x381] = 0x12;
    meta.0[0x378] = 0x80;
    meta.0[0x302] = 0x00;
    meta.0[0x303] = 0x10;
    let snapshot = Snapshot::new(frames).unwrap();
    assert_eq!(snapshot.registers.rip, 0x1234);
    assert_eq!(snapshot.registers.rsp, 0x80);
    assert_eq!(snapshot.registers.gdtr.base, 0x1000);
    assert_eq!(snapshot.memory_ranges.len(), 2);
    assert_eq!(snapshot.memory_ranges[0].page_count, 2);
    assert_eq!(snapshot.memory_ranges[1].page_base, 0x5000);
    assert_eq!(snapshot.resolved_page_count, 1);
    // The frame holding the captured GDT is paged in eagerly.
    assert_eq!(snapshot.frame(1).0, vec![1u8; 4096]);

    assert!(snapshot.contains(0));
    assert!(snapshot.contains(1));
    assert!(!snapshot.contains(2));
    assert!(snapshot.contains(5));
    assert!(!snapshot.contains(6));
}

#[test]
fn snapshot_rejects_bad_files() {
    // Too small: no memory frame next to the metadata frame.
    let r = Snapshot::new(vec![meta_frame(&[(0, 1)])]);
    assert!(matches!(r, Err(SnapshotError::InvalidFileSize)));
    // A wrong magic value.
    let mut frames = file_with(&[(0, 1)], 2);
    frames.last_mut().unwrap().0[0] = 0;
    assert!(matches!(Snapshot::new(frames), Err(SnapshotError::SignatureNotFound)));
    // A range reaching beyond the frames the file holds.
    let frames = file_with(&[(0, 50)], 2);
    assert!(matches!(Snapshot::new(frames), Err(SnapshotError::RangeOutOfBounds)));
}

#[test]
fn page_for_is_idempotent_and_applies_patches_once() {
    // The first touch of frame 2 pages it in from the file with the patch
    // applied; later touches and reads see the identical bytes, so a fresh
    // read after any number of iterations equals the first one.
    let frames = file_with(&[(0, 4)], 4);
    let patch = PatchEntry { address: 0x2010, length: 1, patch: 0xCC, original: 0x02 };
    let ps = PatchSet::new(vec![patch]).unwrap();
    let mut snapshot = Snapshot::new(frames).unwrap();

    assert!(snapshot.page_for(&ps, 2));
    let mut expected = vec![2u8; 4096];
    expected[0x10] = 0xCC;
    assert_eq!(snapshot.frame(2).0, expected);

    assert!(snapshot.page_for(&ps, 2));
    assert_eq!(snapshot.frame(2).0, expected);
    assert_eq!(snapshot.resolved_page_count, 2);

    // An uncaptured frame is refused.
    assert!(!snapshot.page_for(&ps, 9));
}

#[test]
fn revert_patch_at_rewrites_the_snapshot() {
    let frames = file_with(&[(0, 4)], 4);
    let patch = PatchEntry { address: 0x2010, length: 1, patch: 0xCC, original: 0x02 };
    let ps = PatchSet::new(vec![patch]).unwrap();
    let mut snapshot = Snapshot::new(frames).unwrap();
    assert!(snapshot.page_for(&ps, 2));
    assert_eq!(snapshot.frame(2).0[0x10], 0xCC);

    snapshot.revert_patch_at(&ps, 0x2010);
    assert_eq!(snapshot.frame(2).0[0x10], 0x02);

    // An address without a patch entry changes nothing.
    snapshot.revert_patch_at(&ps, 0x9999);
    assert_eq!(snapshot.frame(2).0[0x10], 0x02);
}

#[test]
fn report_decision_and_numbers() {
    let mut stats = RunStats::new(100);
    stats.total_tsc = 50;
    stats.host_spent_tsc = 20;
    stats.vmexit_count = 4;

    // The first iteration is always reported.
    let line = stats.report(3, 1).unwrap();
    assert_eq!(line.iter_count, 1);
    assert_eq!(line.used_dirty_page_count, 3);
    assert_eq!(line.new_basic_blocks, 0);
    assert_eq!(line.total_tsc, 50);
    assert_eq!(line.guest_tsc, 30);
    assert_eq!(line.vmexit_count, 4);

    // A quiet iteration off the interval is not.
    assert!(stats.report(3, 2).is_none());
    assert!(stats.report(3, 500).is_some());

    // New coverage is always reported.
    stats.newly_executed_basic_blks.push(0x10);
    assert!(stats.report(3, 2).is_some());
}

#[test]
fn abort_reasons_report_at_their_levels() {
    let input = MutatingInput::new(InputFile { data: vec![0], name: String::from("seed") });
    assert!(AbortReason::InvalidPageAccess.report(&input).is_none());

    let (severity, text) = AbortReason::EndMarker.report(&input).unwrap();
    assert_eq!(severity, Severity::Trace);
    assert_eq!(text, "Reached the end marker");

    let (severity, text) = AbortReason::Hang.report(&input).unwrap();
    assert_eq!(severity, Severity::Debug);
    assert_eq!(text, "Hang detected : seed #0");

    let (severity, text) = AbortReason::NullPageAccess.report(&input).unwrap();
    assert_eq!(severity, Severity::Warning);
    assert_eq!(text, "NULL PAGE ACCESS : seed #0");

    let (severity, _) = AbortReason::UnhandledVmExit.report(&input).unwrap();
    assert_eq!(severity, Severity::Warning);
}

#[test]
fn console_summary_averages() {
    let frames = file_with(&[(0, 2)], 2);
    let snapshot = Snapshot::new(frames).unwrap();
    let corpus = Corpus::new(
        vec![InputFile { data: vec![1], name: String::from("a") }],
        2,
    )
    .unwrap();
    let mut global = GlobalState::new(snapshot, corpus, PatchSet::new(Vec::new()).unwrap(), 4, 100);
    global.overall_stats.total_tsc = 1000;
    global.overall_stats.host_spent_tsc = 400;
    global.overall_stats.vmexit_count = 20;
    global.overall_stats.hang_count = 1;
    global.active_thread_count = 4;

    let summary = global.console_summary(10, 105);
    assert_eq!(summary.iter_count, 10);
    assert_eq!(summary.total_hang_count, 1);
    assert_eq!(summary.remaining_corpus_files, 1);
    assert_eq!(summary.active_thread_count, 4);
    assert_eq!(summary.average_vmexit_count, 2);
    assert_eq!(summary.average_iterations_per_second, 2);
    assert_eq!(summary.average_cycles_per_iteration, 100);
    assert_eq!(summary.average_guest_cycles_per_iteration, 60);

    // The elapsed time clamps to one second when the clock did not move.
    let summary = global.console_summary(10, 0);
    assert_eq!(summary.average_iterations_per_second, 10);

    assert_eq!(time_to_u64(1, 2, 3), 3723);
}
