//! The captured guest: its physical memory frames, paged in on demand with
//! coverage patches applied, and its architectural register set.

use vstd::prelude::*;
use crate::page::Page;
use crate::patch::{PatchSet, spec_find};

verus! {

/// The magic value at the beginning of the metadata page in the snapshot
/// file.
pub const SNAPSHOT_SIGNATURE: u64 = 0x544F_4853_5041_4E53;

/// The maximum number of memory ranges in the snapshot file.
pub const MAX_MEMORY_DESCRIPTOR_COUNT: usize = 47;

/// A descriptor table register value: base address and limit.
#[derive(Clone, Copy, PartialEq, Eq, Structural)]
pub struct DescriptorTablePointer {
    pub base: u64,
    pub limit: u16,
}

/// The collection of register values captured in the snapshot file.
#[derive(Clone, Copy, PartialEq, Eq, Structural)]
pub struct SnapshotRegisters {
    pub gdtr: DescriptorTablePointer,
    pub idtr: DescriptorTablePointer,
    pub es: u16,
    pub cs: u16,
    pub ss: u16,
    pub ds: u16,
    pub fs: u16,
    pub gs: u16,
    pub ldtr: u16,
    pub tr: u16,
    pub efer: u64,
    pub sysenter_cs: u64,
    pub cr0: u64,
    pub cr3: u64,
    pub cr4: u64,
    pub fs_base: u64,
    pub gs_base: u64,
    pub ldtr_base: u64,
    pub tr_base: u64,
    pub rsp: u64,
    pub rip: u64,
    pub rflags: u64,
    pub sysenter_esp: u64,
    pub sysenter_eip: u64,
    pub rax: u64,
    pub rbx: u64,
    pub rcx: u64,
    pub rdx: u64,
    pub rdi: u64,
    pub rsi: u64,
    pub rbp: u64,
    pub r8: u64,
    pub r9: u64,
    pub r10: u64,
    pub r11: u64,
    pub r12: u64,
    pub r13: u64,
    pub r14: u64,
    pub r15: u64,
}

/// A range of guest physical memory captured in the snapshot file: a byte
/// base address (page aligned) and a page count.
#[derive(Clone, Copy, PartialEq, Eq, Structural)]
pub struct SnapshotMemoryRange {
    pub page_base: u64,
    pub page_count: u64,
}

/// The error cases of reading a snapshot file.
#[derive(Clone, Copy, Debug, PartialEq, Eq, Structural)]
pub enum SnapshotError {
    /// The file does not hold at least one memory frame and the metadata
    /// frame.
    InvalidFileSize,
    /// The metadata frame does not start with the snapshot magic value.
    SignatureNotFound,
    /// A declared memory range reaches beyond the frames the file holds.
    RangeOutOfBounds,
    /// The frame holding the captured GDT lies outside the file.
    GdtOutOfBounds,
}

// What a `bit_vec::BitVec` holds, as a sequence of booleans, and the three
// operations the read bitmap needs.
#[verifier::external_type_specification]
#[verifier::external_body]
#[verifier::reject_recursive_types(B)]
pub struct ExBitVec<B>(bit_vec::BitVec<B>);

pub uninterp spec fn bitvec_bits(v: &bit_vec::BitVec<u32>) -> Seq<bool>;

/// Relies on bit_vec::BitVec::from_elem: a vector of `len` copies of `bit`.
#[verifier::external_body]
fn bitvec_from_elem(len: usize, bit: bool) -> (r: bit_vec::BitVec<u32>)
    ensures
        bitvec_bits(&r) == Seq::new(len as nat, |i: int| bit),
{
    bit_vec::BitVec::from_elem(len, bit)
}

/// Relies on bit_vec::BitVec::get: the bit at `i`, or none out of range.
#[verifier::external_body]
fn bitvec_get(v: &bit_vec::BitVec<u32>, i: usize) -> (r: Option<bool>)
    ensures
        r == if i < bitvec_bits(v).len() {
            Some(bitvec_bits(v)[i as int])
        } else {
            None::<bool>
        },
{
    v.get(i)
}

/// Relies on bit_vec::BitVec::set: replaces the bit at `i`; panics out of
/// range, which the caller rules out.
#[verifier::external_body]
fn bitvec_set(v: &mut bit_vec::BitVec<u32>, i: usize, x: bool)
    requires
        i < bitvec_bits(old(v)).len(),
    ensures
        bitvec_bits(final(v)) == bitvec_bits(old(v)).update(i as int, x),
{
    v.set(i, x)
}

/// The 64-bit little-endian value at `off` in `s`.
pub open spec fn spec_le_u64(s: Seq<u8>, off: int) -> u64 {
    (s[off] as u64) | ((s[off + 1] as u64) << 8u64) | ((s[off + 2] as u64) << 16u64) | ((s[off
        + 3] as u64) << 24u64) | ((s[off + 4] as u64) << 32u64) | ((s[off + 5] as u64) << 40u64)
        | ((s[off + 6] as u64) << 48u64) | ((s[off + 7] as u64) << 56u64)
}

/// The 16-bit little-endian value at `off` in `s`.
pub open spec fn spec_le_u16(s: Seq<u8>, off: int) -> u16 {
    (s[off] as u16) | ((s[off + 1] as u16) << 8u16)
}

/// Reads the 64-bit little-endian value at `off` of `page`.
fn read_le_u64(page: &Page, off: usize) -> (r: u64)
    requires
        page.wf(),
        off + 8 <= 4096,
    ensures
        r == spec_le_u64(page.0@, off as int),
{
    (page.0[off] as u64) | ((page.0[off + 1] as u64) << 8u64) | ((page.0[off + 2] as u64)
        << 16u64) | ((page.0[off + 3] as u64) << 24u64) | ((page.0[off + 4] as u64) << 32u64) | ((
    page.0[off + 5] as u64) << 40u64) | ((page.0[off + 6] as u64) << 48u64) | ((page.0[off
        + 7] as u64) << 56u64)
}

/// Reads the 16-bit little-endian value at `off` of `page`.
fn read_le_u16(page: &Page, off: usize) -> (r: u16)
    requires
        page.wf(),
        off + 2 <= 4096,
    ensures
        r == spec_le_u16(page.0@, off as int),
{
    (page.0[off] as u16) | ((page.0[off + 1] as u16) << 8u16)
}

/// The memory ranges declared in the metadata frame `s`, from slot `k` on:
/// up to 47 slots of (byte base, page count) pairs, a zero page count
/// terminating the list.
pub open spec fn spec_parse_ranges(s: Seq<u8>, k: int) -> Seq<SnapshotMemoryRange>
    decreases 47 - k,
{
    if k < 0 || k >= 47 {
        Seq::empty()
    } else {
        let base = spec_le_u64(s, 0x10 + 16 * k);
        let count = spec_le_u64(s, 0x18 + 16 * k);
        if count == 0 {
            Seq::empty()
        } else {
            seq![SnapshotMemoryRange { page_base: base, page_count: count }] + spec_parse_ranges(
                s,
                k + 1,
            )
        }
    }
}

/// The register set laid out at offset 0x300 of the metadata frame `s`, in
/// the C layout of the capture tool: two 10-byte descriptor-table values
/// padded to 16 bytes each, eight selectors, then 8-byte registers.
pub open spec fn spec_parse_registers(s: Seq<u8>) -> SnapshotRegisters {
    SnapshotRegisters {
        gdtr: DescriptorTablePointer {
            limit: spec_le_u16(s, 0x300),
            base: spec_le_u64(s, 0x302),
        },
        idtr: DescriptorTablePointer {
            limit: spec_le_u16(s, 0x310),
            base: spec_le_u64(s, 0x312),
        },
        es: spec_le_u16(s, 0x320),
        cs: spec_le_u16(s, 0x322),
        ss: spec_le_u16(s, 0x324),
        ds: spec_le_u16(s, 0x326),
        fs: spec_le_u16(s, 0x328),
        gs: spec_le_u16(s, 0x32a),
        ldtr: spec_le_u16(s, 0x32c),
        tr: spec_le_u16(s, 0x32e),
        efer: spec_le_u64(s, 0x330),
        sysenter_cs: spec_le_u64(s, 0x338),
        cr0: spec_le_u64(s, 0x340),
        cr3: spec_le_u64(s, 0x348),
        cr4: spec_le_u64(s, 0x350),
        fs_base: spec_le_u64(s, 0x358),
        gs_base: spec_le_u64(s, 0x360),
        ldtr_base: spec_le_u64(s, 0x368),
        tr_base: spec_le_u64(s, 0x370),
        rsp: spec_le_u64(s, 0x378),
        rip: spec_le_u64(s, 0x380),
        rflags: spec_le_u64(s, 0x388),
        sysenter_esp: spec_le_u64(s, 0x390),
        sysenter_eip: spec_le_u64(s, 0x398),
        rax: spec_le_u64(s, 0x3a0),
        rbx: spec_le_u64(s, 0x3a8),
        rcx: spec_le_u64(s, 0x3b0),
        rdx: spec_le_u64(s, 0x3b8),
        rdi: spec_le_u64(s, 0x3c0),
        rsi: spec_le_u64(s, 0x3c8),
        rbp: spec_le_u64(s, 0x3d0),
        r8: spec_le_u64(s, 0x3d8),
        r9: spec_le_u64(s, 0x3e0),
        r10: spec_le_u64(s, 0x3e8),
        r11: spec_le_u64(s, 0x3f0),
        r12: spec_le_u64(s, 0x3f8),
        r13: spec_le_u64(s, 0x400),
        r14: spec_le_u64(s, 0x408),
        r15: spec_le_u64(s, 0x410),
    }
}

/// Reads the register set from the metadata frame.
fn parse_registers(meta: &Page) -> (r: SnapshotRegisters)
    requires
        meta.wf(),
    ensures
        r == spec_parse_registers(meta.0@),
{
    SnapshotRegisters {
        gdtr: DescriptorTablePointer {
            limit: read_le_u16(meta, 0x300),
            base: read_le_u64(meta, 0x302),
        },
        idtr: DescriptorTablePointer {
            limit: read_le_u16(meta, 0x310),
            base: read_le_u64(meta, 0x312),
        },
        es: read_le_u16(meta, 0x320),
        cs: read_le_u16(meta, 0x322),
        ss: read_le_u16(meta, 0x324),
        ds: read_le_u16(meta, 0x326),
        fs: read_le_u16(meta, 0x328),
        gs: read_le_u16(meta, 0x32a),
        ldtr: read_le_u16(meta, 0x32c),
        tr: read_le_u16(meta, 0x32e),
        efer: read_le_u64(meta, 0x330),
        sysenter_cs: read_le_u64(meta, 0x338),
        cr0: read_le_u64(meta, 0x340),
        cr3: read_le_u64(meta, 0x348),
        cr4: read_le_u64(meta, 0x350),
        fs_base: read_le_u64(meta, 0x358),
        gs_base: read_le_u64(meta, 0x360),
        ldtr_base: read_le_u64(meta, 0x368),
        tr_base: read_le_u64(meta, 0x370),
        rsp: read_le_u64(meta, 0x378),
        rip: read_le_u64(meta, 0x380),
        rflags: read_le_u64(meta, 0x388),
        sysenter_esp: read_le_u64(meta, 0x390),
        sysenter_eip: read_le_u64(meta, 0x398),
        rax: read_le_u64(meta, 0x3a0),
        rbx: read_le_u64(meta, 0x3a8),
        rcx: read_le_u64(meta, 0x3b0),
        rdx: read_le_u64(meta, 0x3b8),
        rdi: read_le_u64(meta, 0x3c0),
        rsi: read_le_u64(meta, 0x3c8),
        rbp: read_le_u64(meta, 0x3d0),
        r8: read_le_u64(meta, 0x3d8),
        r9: read_le_u64(meta, 0x3e0),
        r10: read_le_u64(meta, 0x3e8),
        r11: read_le_u64(meta, 0x3f0),
        r12: read_le_u64(meta, 0x3f8),
        r13: read_le_u64(meta, 0x400),
        r14: read_le_u64(meta, 0x408),
        r15: read_le_u64(meta, 0x410),
    }
}

/// Reads the declared memory ranges from the metadata frame.
fn parse_ranges(meta: &Page) -> (r: Vec<SnapshotMemoryRange>)
    requires
        meta.wf(),
    ensures
        r@ == spec_parse_ranges(meta.0@, 0),
{
    let mut ranges: Vec<SnapshotMemoryRange> = Vec::new();
    let mut k: usize = 0;
    let mut done = false;
    while k < MAX_MEMORY_DESCRIPTOR_COUNT && !done
        invariant
            k <= 47,
            meta.wf(),
            !done ==> ranges@ + spec_parse_ranges(meta.0@, k as int) == spec_parse_ranges(
                meta.0@,
                0,
            ),
            done ==> ranges@ == spec_parse_ranges(meta.0@, 0),
        decreases 47 - k + (if done { 0int } else { 1int }),
    {
        let base = read_le_u64(meta, 0x10 + 16 * k);
        let count = read_le_u64(meta, 0x18 + 16 * k);
        if count == 0 {
            done = true;
            proof {
                assert(spec_parse_ranges(meta.0@, k as int) =~= Seq::<
                    SnapshotMemoryRange,
                >::empty());
                assert(ranges@ =~= ranges@ + Seq::<SnapshotMemoryRange>::empty());
            }
        } else {
            let ghost before = ranges@;
            ranges.push(SnapshotMemoryRange { page_base: base, page_count: count });
            proof {
                assert(spec_parse_ranges(meta.0@, k as int) =~= seq![
                    SnapshotMemoryRange { page_base: base, page_count: count },
                ] + spec_parse_ranges(meta.0@, k + 1 as int));
                assert(ranges@ + spec_parse_ranges(meta.0@, k + 1 as int) =~= before
                    + spec_parse_ranges(meta.0@, k as int));
            }
            k = k + 1;
        }
    }
    proof {
        if !done {
            assert(spec_parse_ranges(meta.0@, k as int) =~= Seq::<SnapshotMemoryRange>::empty());
            assert(ranges@ =~= ranges@ + Seq::<SnapshotMemoryRange>::empty());
        }
    }
    ranges
}

/// Whether every memory range the metadata frame `s` declares lies within
/// the first `frames` guest frames.
pub open spec fn spec_ranges_in_bounds(s: Seq<u8>, frames: int) -> bool {
    forall|j: int|
        0 <= j < spec_parse_ranges(s, 0).len()
            ==> ((#[trigger] spec_parse_ranges(s, 0)[j]).page_base >> 12) + spec_parse_ranges(
            s,
            0,
        )[j].page_count <= frames
}

/// The current state and contents of the snapshot: large enough memory for
/// the entire captured guest physical memory, whose frames are filled in
/// on demand from the raw file frames, with patches applied on first touch.
pub struct Snapshot {
    /// The guest physical memory, one page per frame; holds meaningful
    /// bytes only where the read bitmap is set.
    pub memory: Vec<Page>,
    /// The collection of register values captured in the snapshot file.
    pub registers: SnapshotRegisters,
    /// The ranges of guest physical memory the snapshot covers.
    pub memory_ranges: Vec<SnapshotMemoryRange>,
    /// Which frames of `memory` have been paged in.
    pub read_bitmap: bit_vec::BitVec<u32>,
    /// How many frames have been paged in.
    pub resolved_page_count: u64,
    /// The raw frames of the snapshot file; the last one is the metadata
    /// frame, the others are guest physical memory at ascending frames.
    pub snapshot_file: Vec<Page>,
}

/// A snapshot stays well formed when one frame of its memory is replaced
/// by another whole page: the ranges, the raw file and the bitmap length
/// are untouched, so every size and bound carries over.
proof fn lemma_wf_after_frame_update(pre: Snapshot, post: Snapshot, pfn: int)
    requires
        pre.wf(),
        0 <= pfn < pre.memory@.len(),
        post.memory@.len() == pre.memory@.len(),
        post.memory@[pfn].wf(),
        forall|i: int|
            0 <= i < pre.memory@.len() && i != pfn ==> #[trigger] post.memory@[i]
                == pre.memory@[i],
        post.snapshot_file@ == pre.snapshot_file@,
        post.memory_ranges@ == pre.memory_ranges@,
        bitvec_bits(&post.read_bitmap).len() == post.memory@.len(),
    ensures
        post.wf(),
{
    assert forall|i: int| 0 <= i < post.memory@.len() implies (#[trigger] post.memory@[i]).wf() by {
        if i != pfn {
            assert(pre.memory@[i].wf());
        }
    }
    assert forall|i: int|
        0 <= i < post.snapshot_file@.len() implies (#[trigger] post.snapshot_file@[i]).wf() by {
        assert(pre.snapshot_file@[i].wf());
    }
    assert forall|p2: int| post.spec_contains(p2) implies 0 <= p2 < post.memory@.len() by {
        let j = choose|j: int| 0 <= j < post.memory_ranges@.len() && post.in_range(j, p2);
        assert(pre.in_range(j, p2));
        assert(pre.spec_contains(p2));
    }
}

impl Snapshot {
    /// Whether the guest frame `pfn` lies in the declared range at `j`.
    pub open spec fn in_range(&self, j: int, pfn: int) -> bool {
        (self.memory_ranges@[j].page_base >> 12) <= pfn < (self.memory_ranges@[j].page_base >> 12)
            + self.memory_ranges@[j].page_count
    }

    /// Whether the guest frame `pfn` is captured in the snapshot.
    pub open spec fn spec_contains(&self, pfn: int) -> bool {
        exists|j: int| 0 <= j < self.memory_ranges@.len() && self.in_range(j, pfn)
    }

    /// Sizes agree, every frame holds one page, every declared range lies
    /// within the frames the file holds.
    pub open spec fn wf(&self) -> bool {
        &&& self.snapshot_file@.len() >= 2
        &&& self.memory@.len() == self.snapshot_file@.len() - 1
        &&& bitvec_bits(&self.read_bitmap).len() == self.memory@.len()
        &&& forall|i: int| 0 <= i < self.memory@.len() ==> (#[trigger] self.memory@[i]).wf()
        &&& forall|i: int|
            0 <= i < self.snapshot_file@.len() ==> (#[trigger] self.snapshot_file@[i]).wf()
        &&& forall|pfn: int| self.spec_contains(pfn) ==> 0 <= pfn < self.memory@.len()
    }

    /// Creates the snapshot from the raw file frames: checks the magic
    /// value, captures the declared memory ranges and the register set, and
    /// eagerly pages in the frame holding the captured GDT, which the VM
    /// setup reads.
    #[verifier::rlimit(50)]
    #[verifier::loop_isolation(false)]
    pub fn new(snapshot_file: Vec<Page>) -> (r: Result<Snapshot, SnapshotError>)
        requires
            forall|i: int|
                0 <= i < snapshot_file@.len() ==> (#[trigger] snapshot_file@[i]).wf(),
        ensures
            match r {
                Ok(s) => {
                    &&& s.wf()
                    &&& snapshot_file@.len() >= 2
                    &&& s.snapshot_file@ == snapshot_file@
                    &&& s.memory@.len() == snapshot_file@.len() - 1
                    &&& s.registers == spec_parse_registers(
                        snapshot_file@.last().0@,
                    )
                    &&& s.memory_ranges@ == spec_parse_ranges(snapshot_file@.last().0@, 0)
                    &&& s.resolved_page_count == 1
                    &&& spec_le_u64(snapshot_file@.last().0@, 0) == SNAPSHOT_SIGNATURE
                    &&& {
                        let gdt_pfn = s.registers.gdtr.base >> 12;
                        &&& gdt_pfn < s.memory@.len()
                        &&& bitvec_bits(&s.read_bitmap) == Seq::new(
                            s.memory@.len() as nat,
                            |i: int| i == gdt_pfn,
                        )
                        &&& s.memory@[gdt_pfn as int].0@ == snapshot_file@[gdt_pfn as int].0@
                    }
                },
                Err(e) => {
                    let meta = snapshot_file@.last().0@;
                    let frames = snapshot_file@.len() - 1;
                    // Each error comes on exactly the files that earn it.
                    &&& ((e == SnapshotError::InvalidFileSize) <==> snapshot_file@.len() < 2)
                    &&& ((e == SnapshotError::SignatureNotFound) <==> (snapshot_file@.len() >= 2
                        && spec_le_u64(meta, 0) != SNAPSHOT_SIGNATURE))
                    &&& ((e == SnapshotError::RangeOutOfBounds) <==> (snapshot_file@.len() >= 2
                        && spec_le_u64(meta, 0) == SNAPSHOT_SIGNATURE && !spec_ranges_in_bounds(
                        meta,
                        frames,
                    )))
                    &&& ((e == SnapshotError::GdtOutOfBounds) <==> (snapshot_file@.len() >= 2
                        && spec_le_u64(meta, 0) == SNAPSHOT_SIGNATURE && spec_ranges_in_bounds(
                        meta,
                        frames,
                    ) && (spec_parse_registers(meta).gdtr.base >> 12) >= frames))
                },
            },
            // Success is owed on a well-formed file: enough frames, the right
            // magic value, ranges within the frames, the GDT frame captured.
            (snapshot_file@.len() >= 2 && spec_le_u64(snapshot_file@.last().0@, 0)
                == SNAPSHOT_SIGNATURE && spec_ranges_in_bounds(
                snapshot_file@.last().0@,
                snapshot_file@.len() - 1,
            ) && (spec_parse_registers(snapshot_file@.last().0@).gdtr.base >> 12)
                < snapshot_file@.len() - 1) ==> r is Ok,
    {
        let frame_count = snapshot_file.len();
        if frame_count < 2 {
            return Err(SnapshotError::InvalidFileSize);
        }
        let meta = &snapshot_file[frame_count - 1];
        proof {
            assert(snapshot_file@[frame_count - 1 as int] == snapshot_file@.last());
        }
        let magic = read_le_u64(meta, 0);
        if magic != SNAPSHOT_SIGNATURE {
            return Err(SnapshotError::SignatureNotFound);
        }
        let memory_ranges = parse_ranges(meta);
        let registers = parse_registers(meta);
        let memory_size_in_pages = frame_count - 1;

        // Reject a file whose declared ranges reach frames it does not hold:
        // paging such a frame in could never be answered.
        let mut j: usize = 0;
        while j < memory_ranges.len()
            invariant
                j <= memory_ranges@.len(),
                forall|a: int|
                    0 <= a < j ==> ((#[trigger] memory_ranges@[a]).page_base >> 12)
                        + memory_ranges@[a].page_count <= memory_size_in_pages,
            decreases memory_ranges@.len() - j,
        {
            let r = memory_ranges[j];
            let base_pfn = r.page_base >> 12;
            if r.page_count > memory_size_in_pages as u64 || base_pfn > memory_size_in_pages
                as u64 - r.page_count {
                proof {
                    let ghost meta_view = snapshot_file@.last().0@;
                    assert(spec_parse_ranges(meta_view, 0)[j as int] == memory_ranges@[j as int]);
                    assert(((spec_parse_ranges(meta_view, 0)[j as int]).page_base >> 12)
                        + spec_parse_ranges(meta_view, 0)[j as int].page_count
                        > memory_size_in_pages);
                    assert(!spec_ranges_in_bounds(meta_view, memory_size_in_pages as int));
                }
                return Err(SnapshotError::RangeOutOfBounds);
            }
            j = j + 1;
        }
        let mut memory: Vec<Page> = Vec::new();
        let mut i: usize = 0;
        while i < memory_size_in_pages
            invariant
                i <= memory_size_in_pages,
                memory@.len() == i,
                forall|a: int| 0 <= a < i ==> (#[trigger] memory@[a]).wf(),
            decreases memory_size_in_pages - i,
        {
            memory.push(Page::new());
            i = i + 1;
        }
        let read_bitmap = bitvec_from_elem(memory_size_in_pages, false);
        let mut snapshot = Snapshot {
            memory,
            registers,
            memory_ranges,
            read_bitmap,
            resolved_page_count: 0,
            snapshot_file,
        };

        // Page in contents of the guest GDT, as a later VM setup step needs
        // to read the table and get guest segment related values.
        let gdt_pfn = snapshot.registers.gdtr.base >> 12;
        proof {
            let ghost meta_view = snapshot_file@.last().0@;
            assert forall|a: int|
                0 <= a < spec_parse_ranges(meta_view, 0).len() implies ((
            #[trigger] spec_parse_ranges(meta_view, 0)[a]).page_base >> 12) + spec_parse_ranges(
                meta_view,
                0,
            )[a].page_count <= memory_size_in_pages by {
                assert(spec_parse_ranges(meta_view, 0)[a] == snapshot.memory_ranges@[a]);
            }
            assert(spec_ranges_in_bounds(meta_view, memory_size_in_pages as int));
        }
        if gdt_pfn >= memory_size_in_pages as u64 {
            return Err(SnapshotError::GdtOutOfBounds);
        }
        snapshot.resolve_page(gdt_pfn as usize);
        proof {
            assert(bitvec_bits(&snapshot.read_bitmap) =~= Seq::new(
                snapshot.memory@.len() as nat,
                |i: int| i == snapshot.registers.gdtr.base >> 12,
            ));
        }
        Ok(snapshot)
    }

    /// Whether the guest frame `pfn` is captured in one of the snapshot's
    /// memory ranges.
    pub fn contains(&self, pfn: u64) -> (r: bool)
        ensures
            r == self.spec_contains(pfn as int),
    {
        let n = self.memory_ranges.len();
        let mut j: usize = 0;
        while j < n
            invariant
                j <= n,
                n == self.memory_ranges@.len(),
                forall|a: int| 0 <= a < j ==> !self.in_range(a, pfn as int),
            decreases n - j,
        {
            let r = self.memory_ranges[j];
            let base_pfn = r.page_base >> 12;
            if pfn >= base_pfn && pfn - base_pfn < r.page_count {
                proof {
                    assert(self.in_range(j as int, pfn as int));
                }
                return true;
            }
            j = j + 1;
        }
        false
    }

    /// Fills the frame `pfn` of the memory with the corresponding raw file
    /// frame and marks it read.
    fn resolve_page(&mut self, pfn: usize)
        requires
            old(self).wf(),
            pfn < old(self).memory@.len(),
        ensures
            final(self).wf(),
            final(self).memory@.len() == old(self).memory@.len(),
            final(self).memory@[pfn as int].0@ == old(self).snapshot_file@[pfn as int].0@,
            forall|i: int|
                0 <= i < old(self).memory@.len() && i != pfn ==> #[trigger] final(self).memory@[i] == old(self).memory@[i],
            bitvec_bits(&final(self).read_bitmap) == bitvec_bits(&old(self).read_bitmap).update(
                pfn as int,
                true,
            ),
            final(self).snapshot_file@ == old(self).snapshot_file@,
            final(self).registers == old(self).registers,
            final(self).memory_ranges@ == old(self).memory_ranges@,
            old(self).resolved_page_count < u64::MAX ==> final(self).resolved_page_count == old(
                self,
            ).resolved_page_count + 1,
    {
        let page = Page::copy_of(&self.snapshot_file[pfn]);
        self.memory.set(pfn, page);
        bitvec_set(&mut self.read_bitmap, pfn, true);
        self.resolved_page_count = self.resolved_page_count.wrapping_add(1);
        proof {
            lemma_wf_after_frame_update(*old(self), *self, pfn as int);
        }
    }

    /// Pages in the frame `pfn` if it is captured and not yet read, so the
    /// frame can back a nested translation. Returns whether `pfn` is
    /// captured at all. A frame already read is left untouched: a paged-in
    /// frame is immutable from then on, but for patch reverts.
    pub fn page_for(&mut self, patch_set: &PatchSet, pfn: u64) -> (r: bool)
        requires
            old(self).wf(),
            patch_set.wf(),
        ensures
            final(self).wf(),
            r == old(self).spec_contains(pfn as int),
            final(self).registers == old(self).registers,
            final(self).memory_ranges@ == old(self).memory_ranges@,
            final(self).snapshot_file@ == old(self).snapshot_file@,
            final(self).memory@.len() == old(self).memory@.len(),
            !r ==> *final(self) == *old(self),
            r ==> pfn < old(self).memory@.len(),
            (r && bitvec_bits(&old(self).read_bitmap)[pfn as int]) ==> *final(self) == *old(
                self,
            ),
            (r && !bitvec_bits(&old(self).read_bitmap)[pfn as int]) ==> {
                &&& final(self).memory@[pfn as int].0@ == patch_set.spec_apply(
                    pfn,
                    old(self).snapshot_file@[pfn as int].0@,
                    patch_set.entries@.len() as int,
                )
                &&& (old(self).resolved_page_count < u64::MAX ==> final(self).resolved_page_count == old(self).resolved_page_count + 1)
                &&& forall|i: int|
                    0 <= i < old(self).memory@.len() && i != pfn ==> #[trigger] final(self).memory@[i] == old(self).memory@[i]
                &&& bitvec_bits(&final(self).read_bitmap) == bitvec_bits(
                    &old(self).read_bitmap,
                ).update(pfn as int, true)
            },
    {
        if !self.contains(pfn) {
            return false;
        }
        let mem_len = self.memory.len();
        proof {
            assert(pfn < mem_len as u64);
        }
        let p = pfn as usize;
        let bit = match bitvec_get(&self.read_bitmap, p) {
            Some(b) => b,
            None => {
                proof {
                    assert(false);
                }
                true
            },
        };
        if !bit {
            let mut page = Page::copy_of(&self.snapshot_file[p]);
            patch_set.apply(pfn, &mut page);
            self.memory.set(p, page);
            bitvec_set(&mut self.read_bitmap, p, true);
            self.resolved_page_count = self.resolved_page_count.wrapping_add(1);
        proof {
            lemma_wf_after_frame_update(*old(self), *self, pfn as int);
        }
        }
        true
    }

    /// A read-only view of the frame `pfn` of the guest memory.
    pub fn frame(&self, pfn: usize) -> (r: &Page)
        requires
            pfn < self.memory@.len(),
        ensures
            *r == self.memory@[pfn as int],
    {
        &self.memory[pfn]
    }

    /// Locates the patch entry whose address is `rip` and writes its
    /// original bytes back into the snapshot frame containing that address.
    /// Used when a coverage breakpoint fires: from then on the instruction
    /// underneath runs natively.
    pub fn revert_patch_at(&mut self, patch_set: &PatchSet, rip: u64)
        requires
            old(self).wf(),
            patch_set.wf(),
        ensures
            final(self).wf(),
            final(self).registers == old(self).registers,
            final(self).memory_ranges@ == old(self).memory_ranges@,
            final(self).snapshot_file@ == old(self).snapshot_file@,
            bitvec_bits(&final(self).read_bitmap) == bitvec_bits(&old(self).read_bitmap),
            final(self).memory@.len() == old(self).memory@.len(),
            match spec_find(patch_set.entries@, rip) {
                Some(e) => {
                    if (e.address >> 12) < old(self).memory@.len() {
                        &&& final(self).memory@[(e.address >> 12) as int].0@
                            == e.spec_revert_one(
                            e.address >> 12,
                            old(self).memory@[(e.address >> 12) as int].0@,
                        )
                        &&& forall|i: int|
                            0 <= i < old(self).memory@.len() && i != (e.address >> 12) as int
                                ==> #[trigger] final(self).memory@[i] == old(self).memory@[i]
                    } else {
                        final(self).memory@ == old(self).memory@
                    }
                },
                None => final(self).memory@ == old(self).memory@,
            },
    {
        match patch_set.find(rip) {
            Some(entry) => {
                proof {
                    let j = choose|j: int|
                        0 <= j < patch_set.entries@.len() && patch_set.entries@[j] == entry;
                    assert(patch_set.entries@[j].wf());
                }
                let pfn_wide = entry.address >> 12;
                if pfn_wide < self.memory.len() as u64 {
                    let pfn = pfn_wide as usize;
                    let mut page = Page::copy_of(&self.memory[pfn]);
                    entry.revert(&mut page);
                    self.memory.set(pfn, page);
        proof {
            lemma_wf_after_frame_update(*old(self), *self, pfn as int);
        }
                }
            },
            None => {},
        }
    }
}

} // verus!
