//! Tests of the nested paging tree: building translations, copy-on-write
//! isolation, reverting, and dirty page exhaustion.

use rhv::{Page, Vendor, Vm};

const NPS_BASE: u64 = 0x100000;
const DIRTY_BASE: u64 = 0x200000;

fn fresh_vm() -> Vm {
    Vm::new(Vendor::Intel, NPS_BASE, DIRTY_BASE)
}

#[test]
fn translation_starts_empty_and_builds() {
    let mut vm = fresh_vm();
    assert_eq!(vm.lookup_translation(0x2000), None);
    vm.build_translation(0x2000, 0x7000).unwrap();
    assert_eq!(vm.lookup_translation(0x2000), Some(7));
    // Another frame is untouched.
    assert_eq!(vm.lookup_translation(0x3000), None);
    // Installing over an existing translation is refused.
    assert!(vm.build_translation(0x2000, 0x8000).is_err());
}

#[test]
fn copy_on_write_isolates_and_revert_restores() {
    // A guest write to frame 2 retargets only that translation to a private
    // dirty page holding a copy; the next iteration's revert restores the
    // translation to the frame it pointed to before the copy-on-write.
    let mut vm = fresh_vm();
    vm.build_translation(0x2000, 0x7000).unwrap();
    vm.build_translation(0x3000, 0x9000).unwrap();

    let mut src = Page(vec![0; 4096]);
    src.0[5] = 0x42;
    assert_eq!(vm.copy_on_write(0x2000, &src), Ok(true));
    assert_eq!(vm.used_dirty_page_count(), 1);
    // The translation now points at the first dirty frame; the copy holds
    // the source bytes, and the other translation is untouched.
    assert_eq!(vm.lookup_translation(0x2000), Some(DIRTY_BASE));
    assert_eq!(vm.lookup_translation(0x3000), Some(9));

    let invalidate = vm.revert_dirty_memory();
    assert!(invalidate);
    assert_eq!(vm.used_dirty_page_count(), 0);
    assert_eq!(vm.lookup_translation(0x2000), Some(7));
    assert_eq!(vm.lookup_translation(0x3000), Some(9));

    // Reverting with nothing dirty warrants no cache invalidation.
    assert!(!vm.revert_dirty_memory());
}

#[test]
fn addresses_sharing_a_frame_share_the_translation() {
    let mut vm = fresh_vm();
    vm.build_translation(0x2000, 0x7000).unwrap();
    assert_eq!(vm.lookup_translation(0x2fff), Some(7));
}

#[test]
fn dirty_page_exhaustion_is_detected() {
    // Writing more distinct frames than the dirty pool holds: the pool
    // covers 1024 copies, and the next write is refused, which the fault
    // handler turns into an abort of the iteration.
    let mut vm = fresh_vm();
    let src = Page(vec![0xAA; 4096]);
    for g in 0..1024u64 {
        assert_eq!(vm.copy_on_write(g * 4096, &src), Ok(true));
    }
    assert_eq!(vm.used_dirty_page_count(), 1024);
    assert_eq!(vm.copy_on_write(1024 * 4096, &src), Ok(false));
    assert_eq!(vm.used_dirty_page_count(), 1024);

    // The revert restores every translation to its pre-write frame: all of
    // them were fresh, so they are back to the empty frame number.
    assert!(vm.revert_dirty_memory());
    assert_eq!(vm.used_dirty_page_count(), 0);
}

#[test]
fn double_copy_on_write_reverts_to_the_last_saved_frame() {
    // A second copy-on-write of one frame saves the first dirty frame as
    // its original; the revert walks the records in order, so the last
    // record decides, exactly as the contract states.
    let mut vm = fresh_vm();
    vm.build_translation(0x5000, 0xA000).unwrap();
    let src = Page(vec![1; 4096]);
    assert_eq!(vm.copy_on_write(0x5000, &src), Ok(true));
    assert_eq!(vm.copy_on_write(0x5000, &src), Ok(true));
    assert_eq!(vm.lookup_translation(0x5000), Some(DIRTY_BASE + 1));
    vm.revert_dirty_memory();
    assert_eq!(vm.lookup_translation(0x5000), Some(DIRTY_BASE));
}
