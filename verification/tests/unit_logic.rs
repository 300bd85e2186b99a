//! Unit tests of the page, patch, corpus, mutation and text logic.

use rhv::{
    Corpus, InputFile, MutatingInput, MutationEngine, MutationMode, Page, PatchEntry, PatchSet,
    dec_u64, get_segment_access_right, get_segment_limit, nps_entry_flags, panic_handler,
    size_to_pages, unix_path, GuestException, NestedPagingStructureEntryType, Vendor,
};

fn page_of_byte(b: u8) -> Page {
    Page(vec![b; 4096])
}

#[test]
fn test_unix_path() {
    assert_eq!(unix_path("C:\\"), "C:\\");
    assert_eq!(unix_path("/tmp"), "/tmp");
    assert_eq!(unix_path("/mnt/c/tmp"), "/mnt/c/tmp");
    assert_eq!(unix_path(""), "");
}

#[test]
fn size_to_pages_rounds_up() {
    assert_eq!(size_to_pages(0), 0);
    assert_eq!(size_to_pages(1), 1);
    assert_eq!(size_to_pages(4096), 1);
    assert_eq!(size_to_pages(4097), 2);
    assert_eq!(size_to_pages(8192), 2);
}

#[test]
fn decimal_rendering() {
    assert_eq!(dec_u64(0), "0");
    assert_eq!(dec_u64(7), "7");
    assert_eq!(dec_u64(10), "10");
    assert_eq!(dec_u64(40964096), "40964096");
    assert_eq!(dec_u64(u64::MAX), "18446744073709551615");
}

#[test]
fn panic_report_text() {
    assert_eq!(
        panic_handler("boom", "worker.rs", 12, 3),
        "panicked at 'boom', worker.rs:12:3"
    );
}

#[test]
fn segment_access_right_packs_bits() {
    // A flat 64-bit code segment descriptor: base 0, limit 0xfffff, G/L set.
    let descriptor: u64 = 0x00af_9b00_0000_ffff;
    let ar = get_segment_access_right(descriptor);
    assert_eq!(ar, 0x0a9b);
    // The limit scales to page granularity under the G bit.
    assert_eq!(get_segment_limit(descriptor, 0x08), 0xffff_ffff);
    // A null selector is unusable.
    assert_eq!(get_segment_limit(descriptor, 0x00), 0);
}

#[test]
fn entry_flags_by_vendor() {
    let f = nps_entry_flags(Vendor::Intel, NestedPagingStructureEntryType::RwxWriteBack);
    assert_eq!((f.permission, f.memory_type), (0b111, 6));
    let f = nps_entry_flags(Vendor::Intel, NestedPagingStructureEntryType::RxWriteBack);
    assert_eq!((f.permission, f.memory_type), (0b101, 6));
    let f = nps_entry_flags(Vendor::Amd, NestedPagingStructureEntryType::RwxWriteBack);
    assert_eq!((f.permission, f.memory_type), (0b111, 0));
    let f = nps_entry_flags(Vendor::Amd, NestedPagingStructureEntryType::RxWriteBack);
    assert_eq!((f.permission, f.memory_type), (0b101, 0));
}

#[test]
fn exception_vectors() {
    assert_eq!(GuestException::from_vector(3), Some(GuestException::BreakPoint));
    assert_eq!(GuestException::from_vector(6), Some(GuestException::InvalidOpcode));
    assert_eq!(GuestException::from_vector(14), Some(GuestException::PageFault));
    assert_eq!(GuestException::from_vector(13), None);
}

#[test]
fn patch_apply_then_revert_restores_page() {
    // Two entries in frame 3; the page holds each entry's original bytes.
    let entries = vec![
        PatchEntry { address: 0x3010, length: 1, patch: 0xCC, original: 0x0F },
        PatchEntry { address: 0x3FFE, length: 2, patch: 0xCCCC, original: 0xAABB },
    ];
    let ps = PatchSet::new(entries).unwrap();
    let mut page = page_of_byte(0);
    page.0[0x10] = 0x0F;
    page.0[0xFFE] = 0xBB;
    page.0[0xFFF] = 0xAA;
    let original = page.0.clone();

    ps.apply(3, &mut page);
    assert_eq!(page.0[0x10], 0xCC);
    assert_eq!(page.0[0xFFE], 0xCC);
    assert_eq!(page.0[0xFFF], 0xCC);
    assert_eq!(page.0[0x11], 0);

    // Reverting each entry of the frame restores the page byte for byte.
    let e0 = ps.find(0x3010).unwrap();
    e0.revert(&mut page);
    let e1 = ps.find(0x3FFE).unwrap();
    e1.revert(&mut page);
    assert_eq!(page.0, original);
}

#[test]
fn patch_apply_skips_other_frames() {
    let entries = vec![PatchEntry { address: 0x3010, length: 1, patch: 0xCC, original: 0x0F }];
    let ps = PatchSet::new(entries).unwrap();
    let mut page = page_of_byte(0x55);
    ps.apply(4, &mut page);
    assert_eq!(page.0, vec![0x55; 4096]);
}

#[test]
fn patch_set_sorts_and_finds() {
    let entries = vec![
        PatchEntry { address: 0x500, length: 1, patch: 0xCC, original: 1 },
        PatchEntry { address: 0x100, length: 1, patch: 0xCC, original: 2 },
        PatchEntry { address: 0x300, length: 1, patch: 0xCC, original: 3 },
    ];
    let ps = PatchSet::new(entries).unwrap();
    assert_eq!(ps.entries[0].address, 0x100);
    assert_eq!(ps.entries[1].address, 0x300);
    assert_eq!(ps.entries[2].address, 0x500);
    assert_eq!(ps.find(0x300).unwrap().original, 3);
    assert!(ps.find(0x200).is_none());
}

#[test]
fn patch_set_rejects_bad_entry() {
    let entries = vec![PatchEntry { address: 0x0FFF, length: 2, patch: 0, original: 0 }];
    assert!(PatchSet::new(entries).is_err());
}

#[test]
fn corpus_window_and_operations() {
    let files = vec![
        InputFile { data: vec![1, 2, 3], name: String::from("a") },
        InputFile { data: vec![9; 5000], name: String::from("b") },
    ];
    let corpus = Corpus::new(files, 10).unwrap();
    // One guard frame above the ten snapshot frames, then two input pages
    // for the 5000-byte largest input.
    assert_eq!(corpus.data_pages(), (11, 13));
    assert_eq!(corpus.data_gva(), 11 * 4096);
    assert_eq!(corpus.remaining_files_count(), 2);

    // `select_file` copies the entry the timestamp picks and keeps the list.
    let picked = corpus.select_file(3);
    assert_eq!(picked.name, "b");
    assert_eq!(corpus.remaining_files_count(), 2);

    // `consume_file` pops last in, first out, keeping the worker active.
    let mut corpus = corpus;
    let mut active: u64 = 1;
    let f = corpus.consume_file(&mut active).unwrap();
    assert_eq!(f.name, "b");
    assert_eq!(active, 1);
    let f = corpus.consume_file(&mut active).unwrap();
    assert_eq!(f.name, "a");
    assert_eq!(active, 1);

    // The last active worker that finds the corpus empty observes the
    // active count reach zero: fuzzing is complete.
    assert!(corpus.consume_file(&mut active).is_none());
    assert_eq!(active, 0);
}

#[test]
fn empty_corpus_is_a_startup_error() {
    assert!(Corpus::new(Vec::new(), 10).is_err());
}

#[test]
fn bit_flip_visits_every_variant_once() {
    // A one-byte input has exactly eight single-bit variants; the engine
    // visits each exactly once, then reports the input done.
    let files = vec![InputFile { data: vec![0b0101_0000], name: String::from("seed") }];
    let mut corpus = Corpus::new(files, 4).unwrap();
    let mut engine = MutationEngine::new(MutationMode::BitFlip, &corpus);
    let mut active: u64 = 1;

    // First call consumes the input and maps it unmutated as a baseline.
    assert!(engine.map_and_mutate_input(&mut corpus, &mut active));
    assert!(!engine.current_input.is_mutated());
    assert_eq!(engine.resolve_page(0).0[0], 0b0101_0000);

    let mut seen = Vec::new();
    for k in 0..8u64 {
        assert!(!engine.current_input.is_done(MutationMode::BitFlip));
        assert!(engine.map_and_mutate_input(&mut corpus, &mut active));
        assert!(engine.current_input.is_mutated());
        let mutated = engine.resolve_page(0).0[0];
        assert_eq!(mutated, 0b0101_0000 ^ (1 << k));
        assert!(!seen.contains(&mutated));
        seen.push(mutated);
    }
    assert_eq!(seen.len(), 8);
    assert!(engine.current_input.is_done(MutationMode::BitFlip));
}

#[test]
fn mutating_input_naming_and_size() {
    let input = InputFile { data: vec![1, 2], name: String::from("seed") };
    let mut mi = MutatingInput::new(input);
    assert_eq!(mi.size(), 2);
    assert!(!mi.is_mutated());
    mi.mutation_count = 13;
    let derived = mi.data();
    assert_eq!(derived.name, "seed_13");
    assert_eq!(derived.data, vec![1, 2]);
}

#[test]
fn random_byte_mutation_restores_previous_overwrites() {
    let files = vec![InputFile { data: vec![0u8; 16], name: String::from("seed") }];
    let corpus = Corpus::new(files, 4).unwrap();
    let mut engine = MutationEngine::new(MutationMode::RandomByte, &corpus);

    // The empty starting input is spent at once, so the first call selects
    // the seed and maps it unmutated as a baseline.
    let randoms: Vec<u64> = vec![0; 17];
    engine.map_and_mutate_input_random(&corpus, &randoms);
    assert_eq!(engine.current_input.size(), 16);
    assert!(!engine.current_input.is_mutated());
    assert_eq!(engine.resolve_page(0).0[..16], [0u8; 16]);

    // One mutation overwrites 1 + randoms[0] % 8 bytes at drawn offsets
    // with drawn bytes, remembering what they held.
    let randoms: Vec<u64> = vec![1, 3, 0xAA, 7, 0xBB, 0, 0, 0, 0, 0, 0, 0, 0, 0, 0, 0, 0];
    engine.map_and_mutate_input_random(&corpus, &randoms);
    assert!(engine.current_input.is_mutated());
    assert_eq!(engine.current_input.max_mutation_count, 2);
    assert_eq!(engine.resolve_page(0).0[3], 0xAA);
    assert_eq!(engine.resolve_page(0).0[7], 0xBB);

    // The next mutation restores those bytes before overwriting anew.
    let randoms: Vec<u64> = vec![0, 5, 0xCC, 0, 0, 0, 0, 0, 0, 0, 0, 0, 0, 0, 0, 0, 0];
    engine.map_and_mutate_input_random(&corpus, &randoms);
    assert_eq!(engine.resolve_page(0).0[3], 0);
    assert_eq!(engine.resolve_page(0).0[7], 0);
    assert_eq!(engine.resolve_page(0).0[5], 0xCC);
}
