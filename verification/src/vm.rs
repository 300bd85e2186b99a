//! The per-CPU virtual machine memory model: a dedicated nested page-table
//! tree built from a preallocated pool, a pool of dirty pages backing
//! copy-on-write, and the list of dirtied nested-PTE back-references that
//! makes reverting an iteration O(dirty count).

use vstd::prelude::*;
use vstd::pervasive::VecAdditionalExecFns;
use crate::hardware_vt::{
    NestedPagingStructureEntryFlags, NestedPagingStructureEntryType, Vendor, nps_entry_flags,
    spec_nps_entry_flags, lemma_nps_entry_flags_nonzero,
};
use crate::page::Page;

verus! {

/// The number of preallocated nested paging structures. The more memory the
/// VM accesses, the more tables are needed.
pub const NPS_COUNT: usize = 1024;

/// The number of preallocated pages used to back modified (dirty) pages. The
/// VM can modify up to this number of pages within one iteration.
pub const DIRTY_PAGE_COUNT: usize = 1024;

/// The number of entries in one nested paging structure.
pub const NPS_ENTRY_COUNT: usize = 512;

/// The total number of entries over the whole preallocated table pool.
pub const NPS_TOTAL_ENTRIES: usize = 1024 * 512;

/// The mask of the page frame number field of a nested paging structure
/// entry: bits 58:12, so 47 bits worth of frame numbers.
pub const PFN_MASK: u64 = 0x7fff_ffff_ffff;

/// The page frame number held in a nested paging structure entry (bits
/// 58:12).
pub open spec fn entry_pfn(e: u64) -> u64 {
    (e >> 12) & PFN_MASK
}

/// A nested paging structure entry holding the given page frame number,
/// permission bits (2:0) and memory type bits (5:3).
pub open spec fn spec_make_entry(pfn: u64, flags: NestedPagingStructureEntryFlags) -> u64 {
    ((pfn & PFN_MASK) << 12u64) | (((flags.permission & 7) as u64)) | ((((flags.memory_type
        & 7) as u64)) << 3u64)
}

/// Builds a nested paging structure entry value from a page frame number and
/// flag bits.
pub fn make_entry(pfn: u64, flags: NestedPagingStructureEntryFlags) -> (r: u64)
    ensures
        r == spec_make_entry(pfn, flags),
{
    ((pfn & PFN_MASK) << 12u64) | ((flags.permission & 7) as u64) | (((flags.memory_type
        & 7) as u64) << 3u64)
}

/// The page frame number of a built entry is the given one, masked to the
/// width of the field.
pub proof fn lemma_make_entry_pfn(pfn: u64, flags: NestedPagingStructureEntryFlags)
    ensures
        entry_pfn(spec_make_entry(pfn, flags)) == pfn & PFN_MASK,
        pfn <= PFN_MASK ==> entry_pfn(spec_make_entry(pfn, flags)) == pfn,
{
    let perm = flags.permission;
    let mt = flags.memory_type;
    assert(((((pfn & 0x7fff_ffff_ffff) << 12u64) | ((perm & 7) as u64) | (((mt
        & 7) as u64) << 3u64)) >> 12) & 0x7fff_ffff_ffff == pfn & 0x7fff_ffff_ffff)
        by (bit_vector);
    assert(pfn <= 0x7fff_ffff_ffff ==> pfn & 0x7fff_ffff_ffff == pfn) by (bit_vector);
}

/// An entry built with a non-zero permission is itself non-zero, so it is
/// never mistaken for an empty entry.
pub proof fn lemma_make_entry_nonzero(pfn: u64, flags: NestedPagingStructureEntryFlags)
    requires
        flags.permission & 7 != 0,
    ensures
        spec_make_entry(pfn, flags) != 0,
{
    let perm = flags.permission;
    let mt = flags.memory_type;
    assert(perm & 7 != 0 ==> (((pfn & 0x7fff_ffff_ffff) << 12u64) | ((perm & 7) as u64) | (((mt
        & 7) as u64) << 3u64)) != 0) by (bit_vector);
}

/// The PML4 index of a guest physical address: bits 47:39.
pub open spec fn pml4_index(gpa: u64) -> int {
    ((gpa >> 39) & 0x1ff) as int
}

/// The PDPT index of a guest physical address: bits 38:30.
pub open spec fn pdpt_index(gpa: u64) -> int {
    ((gpa >> 30) & 0x1ff) as int
}

/// The PD index of a guest physical address: bits 29:21.
pub open spec fn pd_index(gpa: u64) -> int {
    ((gpa >> 21) & 0x1ff) as int
}

/// The PT index of a guest physical address: bits 20:12.
pub open spec fn pt_index(gpa: u64) -> int {
    ((gpa >> 12) & 0x1ff) as int
}

/// All four table indices of a guest physical address are in range.
pub proof fn lemma_indices_in_range(gpa: u64)
    ensures
        0 <= pml4_index(gpa) < 512,
        0 <= pdpt_index(gpa) < 512,
        0 <= pd_index(gpa) < 512,
        0 <= pt_index(gpa) < 512,
{
    assert((gpa >> 39) & 0x1ff < 512) by (bit_vector);
    assert((gpa >> 30) & 0x1ff < 512) by (bit_vector);
    assert((gpa >> 21) & 0x1ff < 512) by (bit_vector);
    assert((gpa >> 12) & 0x1ff < 512) by (bit_vector);
}

/// Whether two guest physical addresses walk the same path through a nested
/// page-table tree, and so share one leaf entry.
pub open spec fn same_translation_path(a: u64, b: u64) -> bool {
    pml4_index(a) == pml4_index(b) && pdpt_index(a) == pdpt_index(b) && pd_index(a) == pd_index(b)
        && pt_index(a) == pt_index(b)
}

/// Two guest physical addresses share a translation path exactly when their
/// guest frame numbers agree in the 36 bits a four-level walk reads.
pub proof fn lemma_same_translation_path_iff_gfn(a: u64, b: u64)
    ensures
        same_translation_path(a, b) <==> ((a >> 12) & 0xf_ffff_ffff) == ((b >> 12)
            & 0xf_ffff_ffff),
{
    assert(((a >> 39) & 0x1ff == (b >> 39) & 0x1ff && (a >> 30) & 0x1ff == (b >> 30) & 0x1ff && (a
        >> 21) & 0x1ff == (b >> 21) & 0x1ff && (a >> 12) & 0x1ff == (b >> 12) & 0x1ff) <==> ((a
        >> 12) & 0xf_ffff_ffff) == ((b >> 12) & 0xf_ffff_ffff)) by (bit_vector);
}

/// One recorded copy-on-write: which nested PTE was retargeted (by pool table
/// and entry index) and the page frame number it held before.
#[derive(Clone, Copy)]
pub struct DirtyEntry {
    /// The pool index of the page table holding the retargeted leaf entry.
    pub table_index: usize,
    /// The index of the retargeted leaf entry within that table.
    pub entry_index: usize,
    /// The page frame number the leaf entry held before the copy-on-write.
    pub original_pfn: u64,
    /// The guest physical address whose write triggered the copy-on-write.
    pub gpa: Ghost<u64>,
}

/// The error cases of operations on the nested paging structures.
#[derive(Clone, Copy, Debug, PartialEq, Eq, Structural)]
pub enum VmError {
    /// All preallocated nested paging structures are exhausted.
    OutOfNestedPagingStructures,
    /// A translation was to be installed over an existing one.
    TranslationAlreadyExists,
}

/// The representation of a virtual machine's memory: preallocated nested
/// paging structures to build GPA -> PA translations, and preallocated dirty
/// pages to back GPAs that are modified by the VM.
pub struct Vm {
    /// Which vendor's flag encoding the entries use.
    pub vendor: Vendor,
    /// The nested PML4: 512 raw entries.
    pub nested_pml4: Vec<u64>,
    /// The preallocated pool of nested paging structures, flattened: table
    /// `t` owns entries `512 * t .. 512 * (t + 1)`.
    pub nested_paging_structures: Vec<u64>,
    /// How many pool tables have been consumed.
    pub used_nps_count: usize,
    /// The host page frame number of pool table 0; table `t` sits at frame
    /// `nps_pfn_base + t`.
    pub nps_pfn_base: u64,
    /// Preallocated pages to be used for copy-on-write.
    pub dirty_pages: Vec<Page>,
    /// The recorded retargeted nested PTEs and original frame numbers.
    pub dirty_entries: Vec<DirtyEntry>,
    /// How many dirty pages have been consumed.
    pub used_dirty_page_count: usize,
    /// The host page frame number of dirty page 0; dirty page `d` sits at
    /// frame `dirty_pfn_base + d`.
    pub dirty_pfn_base: u64,
    /// The level (1 for PDPT, 2 for PD, 3 for PT) of each consumed pool
    /// table.
    pub levels: Ghost<Seq<int>>,
}

impl Vm {
    /// The vendor whose flag encoding this VM's entries use.
    pub open spec fn spec_vendor(&self) -> Vendor {
        self.vendor
    }

    /// The frame number of pool table 0.
    pub open spec fn spec_nps_pfn_base(&self) -> u64 {
        self.nps_pfn_base
    }

    /// The frame number of dirty page 0.
    pub open spec fn spec_dirty_pfn_base(&self) -> u64 {
        self.dirty_pfn_base
    }

    /// How many pool tables have been consumed.
    pub open spec fn spec_used_nps_count(&self) -> int {
        self.used_nps_count as int
    }

    /// How many dirty pages have been consumed.
    pub open spec fn spec_used_dirty_page_count(&self) -> int {
        self.used_dirty_page_count as int
    }

    /// The recorded copy-on-write back-references.
    pub open spec fn spec_dirty_entries(&self) -> Seq<DirtyEntry> {
        self.dirty_entries@
    }

    /// The contents of the dirty pages.
    pub open spec fn spec_dirty_page(&self, d: int) -> Seq<u8> {
        self.dirty_pages@[d].0@
    }

    /// The level of pool table `t`.
    pub open spec fn level_of(&self, t: int) -> int {
        self.levels@[t]
    }

    /// The raw entry at index `i` of pool table `t`.
    pub open spec fn table_entry(&self, t: int, i: int) -> u64 {
        self.nested_paging_structures@[512 * t + i]
    }

    /// The pool index a pointer entry refers to: its frame number, relative
    /// to the pool base.
    pub open spec fn child_index(&self, e: u64) -> int {
        entry_pfn(e) as int - self.nps_pfn_base as int
    }

    /// The pool table the PML4 entry at `i` points to.
    pub open spec fn pml4_child(&self, i: int) -> int {
        self.child_index(self.nested_pml4@[i])
    }

    /// The pool table the entry at `(t, i)` points to.
    pub open spec fn table_child(&self, t: int, i: int) -> int {
        self.child_index(self.table_entry(t, i))
    }

    /// Whether the PML4 entry at `i` is a live pointer to a pool table.
    pub open spec fn ptr_slot_pml4(&self, i: int) -> bool {
        0 <= i < 512 && self.nested_pml4@[i] != 0
    }

    /// Whether the entry at `(t, i)` is a live pointer to a further pool
    /// table: its table must be a consumed PDPT or PD.
    pub open spec fn ptr_slot_table(&self, t: int, i: int) -> bool {
        0 <= t < self.used_nps_count && 1 <= self.level_of(t) <= 2 && 0 <= i < 512
            && self.table_entry(t, i) != 0
    }

    /// The pool table and entry index of the leaf (PT-level) entry a
    /// four-level walk for `gpa` reaches, if every intermediate entry exists.
    pub open spec fn leaf_slot(&self, gpa: u64) -> Option<(int, int)> {
        if self.nested_pml4@[pml4_index(gpa)] == 0 {
            None
        } else {
            let t1 = self.pml4_child(pml4_index(gpa));
            if self.table_entry(t1, pdpt_index(gpa)) == 0 {
                None
            } else {
                let t2 = self.table_child(t1, pdpt_index(gpa));
                if self.table_entry(t2, pd_index(gpa)) == 0 {
                    None
                } else {
                    Some((self.table_child(t2, pd_index(gpa)), pt_index(gpa)))
                }
            }
        }
    }

    /// The raw leaf entry a walk for `gpa` reads: 0 where no walk completes
    /// or the leaf entry is empty.
    pub open spec fn leaf_entry(&self, gpa: u64) -> u64 {
        match self.leaf_slot(gpa) {
            None => 0,
            Some((t, i)) => self.table_entry(t, i),
        }
    }

    /// The nested translation for `gpa`: the host page frame number its leaf
    /// entry maps it to, or `None` where no translation is installed.
    pub open spec fn translation(&self, gpa: u64) -> Option<u64> {
        if self.leaf_entry(gpa) == 0 {
            None
        } else {
            Some(entry_pfn(self.leaf_entry(gpa)))
        }
    }

    /// The sizes every operation preserves.
    pub open spec fn wf_sizes(&self) -> bool {
        &&& self.nested_pml4@.len() == 512
        &&& self.nested_paging_structures@.len() == NPS_TOTAL_ENTRIES
        &&& self.used_nps_count <= NPS_COUNT
        &&& self.levels@.len() == self.used_nps_count
        &&& self.dirty_pages@.len() == DIRTY_PAGE_COUNT
        &&& self.dirty_entries@.len() == DIRTY_PAGE_COUNT
        &&& self.used_dirty_page_count <= DIRTY_PAGE_COUNT
        &&& forall|d: int| 0 <= d < DIRTY_PAGE_COUNT ==> (#[trigger] self.dirty_pages@[d]).wf()
        &&& self.nps_pfn_base + NPS_COUNT <= PFN_MASK
        &&& self.dirty_pfn_base + DIRTY_PAGE_COUNT <= PFN_MASK
    }

    /// The tree shape: every live pointer entry leads to a consumed pool
    /// table exactly one level further down.
    pub open spec fn wf_tree(&self) -> bool {
        &&& forall|i: int|
            #[trigger] self.ptr_slot_pml4(i) ==> 0 <= self.pml4_child(i) < self.used_nps_count
                && self.level_of(self.pml4_child(i)) == 1
        &&& forall|t: int, i: int|
            #[trigger] self.ptr_slot_table(t, i) ==> 0 <= self.table_child(t, i)
                < self.used_nps_count && self.level_of(self.table_child(t, i)) == self.level_of(t)
                + 1
        &&& forall|t: int|
            0 <= t < self.used_nps_count ==> 1 <= #[trigger] self.level_of(t) <= 3
    }

    /// Pool tables not yet consumed hold only empty entries.
    pub open spec fn wf_unused_zero(&self) -> bool {
        forall|t: int, i: int|
            self.used_nps_count <= t < NPS_COUNT && 0 <= i < 512 ==> #[trigger] self.table_entry(
                t,
                i,
            ) == 0
    }

    /// No pool table is pointed to twice: the tree really is a tree.
    pub open spec fn wf_injective(&self) -> bool {
        &&& forall|i1: int, i2: int|
            self.ptr_slot_pml4(i1) && self.ptr_slot_pml4(i2) && #[trigger] self.pml4_child(i1)
                == #[trigger] self.pml4_child(i2) ==> i1 == i2
        &&& forall|t1: int, i1: int, t2: int, i2: int|
            self.ptr_slot_table(t1, i1) && self.ptr_slot_table(t2, i2)
                && #[trigger] self.table_child(t1, i1) == #[trigger] self.table_child(t2, i2)
                ==> t1 == t2 && i1 == i2
    }

    /// Every recorded copy-on-write names a leaf slot in a consumed PT, and
    /// that slot is where the walk for its recorded address still leads.
    pub open spec fn wf_dirty(&self) -> bool {
        forall|j: int|
            0 <= j < self.used_dirty_page_count ==> {
                let de = #[trigger] self.dirty_entries@[j];
                &&& 0 <= de.table_index < self.used_nps_count
                &&& self.level_of(de.table_index as int) == 3
                &&& 0 <= de.entry_index < 512
                &&& self.leaf_slot(de.gpa@) == Some(
                    (de.table_index as int, de.entry_index as int),
                )
            }
    }

    /// The full invariant every operation preserves.
    pub open spec fn wf(&self) -> bool {
        self.wf_sizes() && self.wf_tree() && self.wf_unused_zero() && self.wf_injective()
            && self.wf_dirty()
    }

    /// Creates a VM memory with empty translations, given the host frame
    /// numbers at which its preallocated table pool and dirty page pool sit.
    pub fn new(vendor: Vendor, nps_pfn_base: u64, dirty_pfn_base: u64) -> (r: Vm)
        requires
            nps_pfn_base + NPS_COUNT <= PFN_MASK,
            dirty_pfn_base + DIRTY_PAGE_COUNT <= PFN_MASK,
        ensures
            r.wf(),
            r.spec_vendor() == vendor,
            r.spec_nps_pfn_base() == nps_pfn_base,
            r.spec_dirty_pfn_base() == dirty_pfn_base,
            r.spec_used_nps_count() == 0,
            r.spec_used_dirty_page_count() == 0,
            forall|gpa: u64| #[trigger] r.translation(gpa) == None::<u64>,
    {
        let nested_pml4: Vec<u64> = vec![0u64; NPS_ENTRY_COUNT];
        let nested_paging_structures: Vec<u64> = vec![0u64; NPS_TOTAL_ENTRIES];
        let mut dirty_pages: Vec<Page> = Vec::new();
        let mut dirty_entries: Vec<DirtyEntry> = Vec::new();
        let mut d: usize = 0;
        while d < DIRTY_PAGE_COUNT
            invariant
                d <= DIRTY_PAGE_COUNT,
                dirty_pages@.len() == d,
                dirty_entries@.len() == d,
                forall|j: int| 0 <= j < d ==> (#[trigger] dirty_pages@[j]).wf(),
            decreases DIRTY_PAGE_COUNT - d,
        {
            dirty_pages.push(Page::new());
            dirty_entries.push(
                DirtyEntry { table_index: 0, entry_index: 0, original_pfn: 0, gpa: Ghost(0) },
            );
            d = d + 1;
        }
        let r = Vm {
            vendor,
            nested_pml4,
            nested_paging_structures,
            used_nps_count: 0,
            nps_pfn_base,
            dirty_pages,
            dirty_entries,
            used_dirty_page_count: 0,
            dirty_pfn_base,
            levels: Ghost(Seq::empty()),
        };
        proof {
            assert forall|gpa: u64| #[trigger] r.translation(gpa) == None::<u64> by {
                lemma_indices_in_range(gpa);
                assert(r.nested_pml4@[pml4_index(gpa)] == 0);
            }
        }
        r
    }

    /// Reads the raw entry at index `i` of pool table `t`.
    fn read_table_entry(&self, t: usize, i: usize) -> (e: u64)
        requires
            self.wf_sizes(),
            t < NPS_COUNT,
            i < NPS_ENTRY_COUNT,
        ensures
            e == self.table_entry(t as int, i as int),
    {
        self.nested_paging_structures[512 * t + i]
    }

    /// Overwrites the raw entry at index `i` of pool table `t`.
    fn write_table_entry(&mut self, t: usize, i: usize, e: u64)
        requires
            old(self).wf_sizes(),
            t < NPS_COUNT,
            i < NPS_ENTRY_COUNT,
        ensures
            final(self).nested_paging_structures@ == old(self).nested_paging_structures@.update(
                512 * t + i,
                e,
            ),
            final(self).table_entry(t as int, i as int) == e,
            forall|t2: int, i2: int|
                0 <= t2 < NPS_COUNT && 0 <= i2 < 512 && !(t2 == t && i2 == i)
                    ==> #[trigger] final(self).table_entry(t2, i2) == old(self).table_entry(
                    t2,
                    i2,
                ),
            final(self).vendor == old(self).vendor,
            final(self).nested_pml4@ == old(self).nested_pml4@,
            final(self).used_nps_count == old(self).used_nps_count,
            final(self).nps_pfn_base == old(self).nps_pfn_base,
            final(self).dirty_pages@ == old(self).dirty_pages@,
            final(self).dirty_entries@ == old(self).dirty_entries@,
            final(self).used_dirty_page_count == old(self).used_dirty_page_count,
            final(self).dirty_pfn_base == old(self).dirty_pfn_base,
            final(self).levels@ == old(self).levels@,
    {
        self.nested_paging_structures.set(512 * t + i, e);
    }

    /// Returns the pool table the PML4 entry at `index` points to, consuming
    /// a fresh pool table for it first when the entry is still empty.
    fn child_of_pml4(&mut self, index: usize) -> (r: Result<usize, VmError>)
        requires
            old(self).wf(),
            index < NPS_ENTRY_COUNT,
        ensures
            final(self).wf(),
            final(self).vendor == old(self).vendor,
            final(self).nps_pfn_base == old(self).nps_pfn_base,
            final(self).dirty_pfn_base == old(self).dirty_pfn_base,
            final(self).dirty_pages@ == old(self).dirty_pages@,
            final(self).dirty_entries@ == old(self).dirty_entries@,
            final(self).used_dirty_page_count == old(self).used_dirty_page_count,
            final(self).nested_paging_structures@ == old(self).nested_paging_structures@,
            old(self).used_nps_count <= final(self).used_nps_count,
            forall|t: int|
                0 <= t < old(self).used_nps_count ==> #[trigger] final(self).level_of(t) == old(
                    self,
                ).level_of(t),
            forall|g: u64| #[trigger] final(self).leaf_entry(g) == old(self).leaf_entry(g),
            forall|g: u64|
                old(self).leaf_slot(g) is Some ==> #[trigger] final(self).leaf_slot(g) == old(
                    self,
                ).leaf_slot(g),
            final(self).used_nps_count <= old(self).used_nps_count + 1,
            match r {
                Ok(c) => {
                    &&& c < final(self).used_nps_count
                    &&& final(self).level_of(c as int) == 1
                    &&& final(self).ptr_slot_pml4(index as int)
                    &&& final(self).pml4_child(index as int) == c
                },
                Err(e) => {
                    &&& e == VmError::OutOfNestedPagingStructures
                    &&& *final(self) == *old(self)
                    &&& old(self).used_nps_count == NPS_COUNT
                    &&& old(self).nested_pml4@[index as int] == 0
                },
            },
    {
        let e = self.nested_pml4[index];
        if e != 0 {
            let pfn: u64 = (e >> 12) & PFN_MASK;
            proof {
                assert(self.ptr_slot_pml4(index as int));
            }
            let c = (pfn - self.nps_pfn_base) as usize;
            Ok(c)
        } else {
            if self.used_nps_count == NPS_COUNT {
                return Err(VmError::OutOfNestedPagingStructures);
            }
            let c = self.used_nps_count;
            let flags = nps_entry_flags(self.vendor, NestedPagingStructureEntryType::Rwx);
            let entry = make_entry(self.nps_pfn_base + c as u64, flags);
            proof {
                lemma_nps_entry_flags_nonzero(self.vendor, NestedPagingStructureEntryType::Rwx);
                let perm = flags.permission;
                assert(perm < 8 && perm != 0 ==> perm & 7 != 0) by (bit_vector);
                lemma_make_entry_nonzero((self.nps_pfn_base + c as u64) as u64, flags);
                lemma_make_entry_pfn((self.nps_pfn_base + c as u64) as u64, flags);
            }
            let ghost prev = *self;
            self.nested_pml4.set(index, entry);
            self.used_nps_count = c + 1;
            self.levels = Ghost(self.levels@.push(1));
            proof {
                lemma_alloc_pml4(prev, *self, index as int, entry);
            }
            Ok(c)
        }
    }

    /// Returns the pool table the entry at `(t, index)` points to, consuming
    /// a fresh pool table for it first when the entry is still empty. The
    /// table `t` must be a consumed PDPT or PD.
    fn child_of_table(&mut self, t: usize, index: usize) -> (r: Result<usize, VmError>)
        requires
            old(self).wf(),
            t < old(self).used_nps_count,
            1 <= old(self).level_of(t as int) <= 2,
            index < NPS_ENTRY_COUNT,
        ensures
            final(self).wf(),
            final(self).vendor == old(self).vendor,
            final(self).nps_pfn_base == old(self).nps_pfn_base,
            final(self).dirty_pfn_base == old(self).dirty_pfn_base,
            final(self).dirty_pages@ == old(self).dirty_pages@,
            final(self).dirty_entries@ == old(self).dirty_entries@,
            final(self).used_dirty_page_count == old(self).used_dirty_page_count,
            final(self).nested_pml4@ == old(self).nested_pml4@,
            old(self).used_nps_count <= final(self).used_nps_count,
            forall|t2: int|
                0 <= t2 < old(self).used_nps_count ==> #[trigger] final(self).level_of(t2) == old(
                    self,
                ).level_of(t2),
            forall|t2: int, i2: int|
                0 <= t2 < NPS_COUNT && 0 <= i2 < 512 && !(t2 == t && i2 == index)
                    ==> #[trigger] final(self).table_entry(t2, i2) == old(self).table_entry(
                    t2,
                    i2,
                ),
            forall|g: u64| #[trigger] final(self).leaf_entry(g) == old(self).leaf_entry(g),
            forall|g: u64|
                old(self).leaf_slot(g) is Some ==> #[trigger] final(self).leaf_slot(g) == old(
                    self,
                ).leaf_slot(g),
            final(self).used_nps_count <= old(self).used_nps_count + 1,
            match r {
                Ok(c) => {
                    &&& c < final(self).used_nps_count
                    &&& final(self).level_of(c as int) == old(self).level_of(t as int) + 1
                    &&& final(self).ptr_slot_table(t as int, index as int)
                    &&& final(self).table_child(t as int, index as int) == c
                },
                Err(e) => {
                    &&& e == VmError::OutOfNestedPagingStructures
                    &&& *final(self) == *old(self)
                    &&& old(self).used_nps_count == NPS_COUNT
                    &&& old(self).table_entry(t as int, index as int) == 0
                },
            },
    {
        let e = self.read_table_entry(t, index);
        if e != 0 {
            proof {
                assert(self.ptr_slot_table(t as int, index as int));
            }
            let pfn: u64 = (e >> 12) & PFN_MASK;
            let c = (pfn - self.nps_pfn_base) as usize;
            Ok(c)
        } else {
            if self.used_nps_count == NPS_COUNT {
                return Err(VmError::OutOfNestedPagingStructures);
            }
            let c = self.used_nps_count;
            let flags = nps_entry_flags(self.vendor, NestedPagingStructureEntryType::Rwx);
            let entry = make_entry(self.nps_pfn_base + c as u64, flags);
            proof {
                lemma_nps_entry_flags_nonzero(self.vendor, NestedPagingStructureEntryType::Rwx);
                let perm = flags.permission;
                assert(perm < 8 && perm != 0 ==> perm & 7 != 0) by (bit_vector);
                lemma_make_entry_nonzero((self.nps_pfn_base + c as u64) as u64, flags);
                lemma_make_entry_pfn((self.nps_pfn_base + c as u64) as u64, flags);
            }
            let ghost level = self.levels@[t as int];
            let ghost prev = *self;
            self.write_table_entry(t, index, entry);
            self.used_nps_count = c + 1;
            self.levels = Ghost(self.levels@.push(level + 1));
            proof {
                lemma_alloc_table(prev, *self, t as int, index as int, entry);
            }
            Ok(c)
        }
    }

    /// Walks PML4 -> PDPT -> PD for `gpa` as a processor does, consuming
    /// fresh pool tables for empty entries, and returns the pool index of
    /// the page table whose entries are the leaves for `gpa`.
    fn walk_to_pt(&mut self, gpa: u64) -> (r: Result<usize, VmError>)
        requires
            old(self).wf(),
        ensures
            final(self).wf(),
            final(self).vendor == old(self).vendor,
            final(self).nps_pfn_base == old(self).nps_pfn_base,
            final(self).dirty_pfn_base == old(self).dirty_pfn_base,
            final(self).dirty_pages@ == old(self).dirty_pages@,
            final(self).dirty_entries@ == old(self).dirty_entries@,
            final(self).used_dirty_page_count == old(self).used_dirty_page_count,
            old(self).used_nps_count <= final(self).used_nps_count,
            forall|g: u64| #[trigger] final(self).leaf_entry(g) == old(self).leaf_entry(g),
            forall|g: u64|
                old(self).leaf_slot(g) is Some ==> #[trigger] final(self).leaf_slot(g) == old(
                    self,
                ).leaf_slot(g),
            match r {
                Ok(t3) => {
                    &&& t3 < final(self).used_nps_count
                    &&& final(self).level_of(t3 as int) == 3
                    &&& final(self).leaf_slot(gpa) == Some((t3 as int, pt_index(gpa)))
                },
                Err(e) => {
                    &&& e == VmError::OutOfNestedPagingStructures
                    &&& old(self).leaf_slot(gpa) is None
                    &&& old(self).used_nps_count + 3 > NPS_COUNT
                },
            },
    {
        proof {
            lemma_indices_in_range(gpa);
        }
        let p4 = ((gpa >> 39) & 0x1ff) as usize;
        let p3 = ((gpa >> 30) & 0x1ff) as usize;
        let p2 = ((gpa >> 21) & 0x1ff) as usize;
        let t1 = match self.child_of_pml4(p4) {
            Ok(c) => c,
            Err(e) => {
                proof {
                    assert(old(self).leaf_slot(gpa) is None);
                }
                return Err(e);
            },
        };
        let ghost s1 = *self;
        let t2 = match self.child_of_table(t1, p3) {
            Ok(c) => c,
            Err(e) => {
                proof {
                    assert(s1.table_entry(t1 as int, p3 as int) == 0);
                    assert(s1.leaf_slot(gpa) is None);
                    assert(old(self).leaf_slot(gpa) is None);
                }
                return Err(e);
            },
        };
        let ghost s2 = *self;
        proof {
            assert(self.pml4_child(p4 as int) == t1);
        }
        let t3 = match self.child_of_table(t2, p2) {
            Ok(c) => c,
            Err(e) => {
                proof {
                    assert(s2.table_entry(t2 as int, p2 as int) == 0);
                    assert(s2.ptr_slot_pml4(p4 as int) && s2.pml4_child(p4 as int) == t1);
                    assert(s2.table_child(t1 as int, p3 as int) == t2);
                    assert(s2.leaf_slot(gpa) is None);
                    assert(old(self).leaf_slot(gpa) is None);
                }
                return Err(e);
            },
        };
        proof {
            assert(t2 != t1) by {
                assert(s2.level_of(t1 as int) == 1);
                assert(s2.level_of(t2 as int) == 2);
            }
            assert(self.nested_pml4@ == s2.nested_pml4@);
            assert(self.ptr_slot_pml4(p4 as int));
            assert(self.pml4_child(p4 as int) == t1);
            assert(self.table_entry(t1 as int, p3 as int) == s2.table_entry(t1 as int, p3 as int));
            assert(self.ptr_slot_table(t1 as int, p3 as int));
            assert(self.table_child(t1 as int, p3 as int) == t2);
            assert(self.ptr_slot_table(t2 as int, p2 as int));
            assert(self.table_child(t2 as int, p2 as int) == t3);
            assert(self.leaf_slot(gpa) == Some((t3 as int, pt_index(gpa))));
        }
        Ok(t3)
    }

    /// How many dirty pages this iteration has consumed so far.
    pub fn used_dirty_page_count(&self) -> (r: usize)
        ensures
            r == self.spec_used_dirty_page_count(),
    {
        self.used_dirty_page_count
    }

    /// Reads the nested translation currently installed for `gpa`, walking
    /// the tables as the processor would.
    pub fn lookup_translation(&self, gpa: u64) -> (r: Option<u64>)
        requires
            self.wf(),
        ensures
            r == self.translation(gpa),
    {
        proof {
            lemma_indices_in_range(gpa);
        }
        let p4 = ((gpa >> 39) & 0x1ff) as usize;
        let p3 = ((gpa >> 30) & 0x1ff) as usize;
        let p2 = ((gpa >> 21) & 0x1ff) as usize;
        let p1 = ((gpa >> 12) & 0x1ff) as usize;
        let e0 = self.nested_pml4[p4];
        if e0 == 0 {
            return None;
        }
        proof {
            assert(self.ptr_slot_pml4(p4 as int));
        }
        let t1 = ((((e0 >> 12) & PFN_MASK) - self.nps_pfn_base)) as usize;
        let e1 = self.read_table_entry(t1, p3);
        if e1 == 0 {
            return None;
        }
        proof {
            assert(self.ptr_slot_table(t1 as int, p3 as int));
        }
        let t2 = ((((e1 >> 12) & PFN_MASK) - self.nps_pfn_base)) as usize;
        let e2 = self.read_table_entry(t2, p2);
        if e2 == 0 {
            return None;
        }
        proof {
            assert(self.ptr_slot_table(t2 as int, p2 as int));
        }
        let t3 = ((((e2 >> 12) & PFN_MASK) - self.nps_pfn_base)) as usize;
        let e3 = self.read_table_entry(t3, p1);
        proof {
            assert(self.leaf_slot(gpa) == Some((t3 as int, p1 as int)));
        }
        if e3 == 0 {
            None
        } else {
            Some((e3 >> 12) & PFN_MASK)
        }
    }

    /// Builds nested paging translation for `gpa` to translate to the page
    /// at host physical address `pa`, walking PML4 -> PDPT -> PD -> PT as a
    /// processor does and consuming pool tables as needed. The new leaf is
    /// non-writable, so that copy-on-write is done for dirty pages.
    pub fn build_translation(&mut self, gpa: u64, pa: u64) -> (r: Result<(), VmError>)
        requires
            old(self).wf(),
        ensures
            final(self).wf(),
            final(self).vendor == old(self).vendor,
            final(self).nps_pfn_base == old(self).nps_pfn_base,
            final(self).dirty_pfn_base == old(self).dirty_pfn_base,
            final(self).dirty_pages@ == old(self).dirty_pages@,
            final(self).dirty_entries@ == old(self).dirty_entries@,
            final(self).used_dirty_page_count == old(self).used_dirty_page_count,
            match r {
                Ok(()) => {
                    &&& old(self).leaf_entry(gpa) == 0
                    &&& final(self).leaf_entry(gpa) == spec_make_entry(
                        pa >> 12u64,
                        spec_nps_entry_flags(
                            old(self).vendor,
                            NestedPagingStructureEntryType::RxWriteBack,
                        ),
                    )
                    &&& final(self).translation(gpa) == Some((pa >> 12u64) & PFN_MASK)
                    &&& forall|g: u64|
                        !same_translation_path(g, gpa) ==> #[trigger] final(self).leaf_entry(g)
                            == old(self).leaf_entry(g)
                    &&& forall|g: u64|
                        old(self).leaf_slot(g) is Some ==> #[trigger] final(self).leaf_slot(g)
                            == old(self).leaf_slot(g)
                },
                Err(e) => {
                    &&& (e == VmError::TranslationAlreadyExists ==> old(self).leaf_entry(gpa)
                        != 0)
                    &&& (e == VmError::OutOfNestedPagingStructures ==> old(self).leaf_slot(gpa)
                        is None && old(self).used_nps_count + 3 > NPS_COUNT)
                    &&& forall|g: u64| #[trigger] final(self).leaf_entry(g) == old(
                        self,
                    ).leaf_entry(g)
                },
            },
            // Success is owed: an empty leaf and three free pool tables rule
            // out every error.
            (old(self).leaf_entry(gpa) == 0 && old(self).used_nps_count + 3 <= NPS_COUNT) ==> r
                is Ok,
            // An already mapped address earns exactly that error.
            old(self).leaf_entry(gpa) != 0 ==> r == Err::<(), VmError>(
                VmError::TranslationAlreadyExists,
            ),
    {
        let t3 = match self.walk_to_pt(gpa) {
            Ok(t) => t,
            Err(e) => {
                return Err(e);
            },
        };
        proof {
            lemma_indices_in_range(gpa);
        }
        let p1 = ((gpa >> 12) & 0x1ff) as usize;
        let pte = self.read_table_entry(t3, p1);
        proof {
            assert(self.leaf_slot(gpa) == Some((t3 as int, p1 as int)));
            assert(pte == self.leaf_entry(gpa));
        }
        if pte != 0 {
            return Err(VmError::TranslationAlreadyExists);
        }
        // Make it non-writable so that copy-on-write is done for dirty pages.
        let flags = nps_entry_flags(self.vendor, NestedPagingStructureEntryType::RxWriteBack);
        let entry = make_entry(pa >> 12u64, flags);
        proof {
            lemma_nps_entry_flags_nonzero(
                self.vendor,
                NestedPagingStructureEntryType::RxWriteBack,
            );
            let perm = flags.permission;
            assert(perm < 8 && perm != 0 ==> perm & 7 != 0) by (bit_vector);
            lemma_make_entry_nonzero(pa >> 12u64, flags);
            lemma_make_entry_pfn(pa >> 12u64, flags);
        }
        let ghost prev = *self;
        self.write_table_entry(t3, p1, entry);
        proof {
            lemma_leaf_write(prev, *self, t3 as int, p1 as int, entry, gpa);
            assert(self.wf_sizes());
            assert forall|j: int| 0 <= j < self.used_dirty_page_count implies {
                let de = #[trigger] self.dirty_entries@[j];
                &&& 0 <= de.table_index < self.used_nps_count
                &&& self.level_of(de.table_index as int) == 3
                &&& 0 <= de.entry_index < 512
                &&& self.leaf_slot(de.gpa@) == Some(
                    (de.table_index as int, de.entry_index as int),
                )
            } by {
                let de = self.dirty_entries@[j];
                assert(prev.leaf_slot(de.gpa@) == Some(
                    (de.table_index as int, de.entry_index as int),
                ));
            }
            assert(self.wf());
        }
        Ok(())
    }

    /// Updates the nested paging translation for `gpa` to point to a fresh
    /// dirty page, copies the contents of `copy_from` into that page, and
    /// records the retargeted leaf entry so the translation can be reverted.
    /// Returns `Ok(false)` when every preallocated dirty page is in use.
    pub fn copy_on_write(&mut self, gpa: u64, copy_from: &Page) -> (r: Result<bool, VmError>)
        requires
            old(self).wf(),
            copy_from.wf(),
        ensures
            final(self).wf(),
            final(self).vendor == old(self).vendor,
            final(self).nps_pfn_base == old(self).nps_pfn_base,
            final(self).dirty_pfn_base == old(self).dirty_pfn_base,
            match r {
                Ok(true) => {
                    let d = old(self).used_dirty_page_count as int;
                    &&& d < DIRTY_PAGE_COUNT
                    &&& final(self).used_dirty_page_count == d + 1
                    &&& final(self).dirty_entries@[d].original_pfn == entry_pfn(
                        old(self).leaf_entry(gpa),
                    )
                    &&& final(self).dirty_entries@[d].gpa@ == gpa
                    &&& forall|j: int|
                        0 <= j < DIRTY_PAGE_COUNT && j != d
                            ==> #[trigger] final(self).dirty_entries@[j] == old(
                            self,
                        ).dirty_entries@[j]
                    &&& final(self).spec_dirty_page(d) == copy_from.0@
                    &&& forall|j: int|
                        0 <= j < DIRTY_PAGE_COUNT && j != d
                            ==> #[trigger] final(self).dirty_pages@[j] == old(
                            self,
                        ).dirty_pages@[j]
                    &&& final(self).leaf_entry(gpa) == spec_make_entry(
                        (old(self).dirty_pfn_base + d) as u64,
                        spec_nps_entry_flags(
                            old(self).vendor,
                            NestedPagingStructureEntryType::RwxWriteBack,
                        ),
                    )
                    &&& final(self).translation(gpa) == Some(
                        (old(self).dirty_pfn_base + d) as u64,
                    )
                    &&& forall|g: u64|
                        !same_translation_path(g, gpa) ==> #[trigger] final(self).leaf_entry(g)
                            == old(self).leaf_entry(g)
                    &&& forall|g: u64|
                        old(self).leaf_slot(g) is Some ==> #[trigger] final(self).leaf_slot(g)
                            == old(self).leaf_slot(g)
                },
                Ok(false) => {
                    &&& old(self).used_dirty_page_count == DIRTY_PAGE_COUNT
                    &&& *final(self) == *old(self)
                },
                Err(e) => {
                    &&& e == VmError::OutOfNestedPagingStructures
                    &&& old(self).leaf_slot(gpa) is None
                    &&& old(self).used_nps_count + 3 > NPS_COUNT
                    &&& final(self).dirty_pages@ == old(self).dirty_pages@
                    &&& final(self).dirty_entries@ == old(self).dirty_entries@
                    &&& final(self).used_dirty_page_count == old(self).used_dirty_page_count
                    &&& forall|g: u64| #[trigger] final(self).leaf_entry(g) == old(
                        self,
                    ).leaf_entry(g)
                },
            },
            // A full dirty pool is refused cleanly, and only a full one.
            old(self).used_dirty_page_count == DIRTY_PAGE_COUNT ==> r == Ok::<bool, VmError>(
                false,
            ),
            // Success is owed whenever a dirty page is free and the walk
            // cannot run out of pool tables: a mapped leaf needs none, and
            // three free ones always suffice.
            (old(self).used_dirty_page_count < DIRTY_PAGE_COUNT && (old(self).leaf_slot(gpa)
                is Some || old(self).used_nps_count + 3 <= NPS_COUNT)) ==> r == Ok::<
                bool,
                VmError,
            >(true),
    {
        if self.used_dirty_page_count >= DIRTY_PAGE_COUNT {
            return Ok(false);
        }
        let t3 = match self.walk_to_pt(gpa) {
            Ok(t) => t,
            Err(e) => {
                return Err(e);
            },
        };
        let ghost after_walk = *self;
        proof {
            lemma_indices_in_range(gpa);
        }
        let p1 = ((gpa >> 12) & 0x1ff) as usize;
        let pte = self.read_table_entry(t3, p1);
        proof {
            assert(after_walk.leaf_slot(gpa) == Some((t3 as int, p1 as int)));
            assert(pte == after_walk.leaf_entry(gpa));
        }

        // Save the nested PTE location and the original (current) frame for
        // reverting.
        let d = self.used_dirty_page_count;
        let original_pfn = (pte >> 12) & PFN_MASK;
        let de = DirtyEntry { table_index: t3, entry_index: p1, original_pfn, gpa: Ghost(gpa) };
        self.dirty_entries.set(d, de);

        // Copy contents of the previous physical address into the dirty
        // page that now backs the guest's view of this frame.
        let new_page = Page::copy_of(copy_from);
        self.dirty_pages.set(d, new_page);

        // Update the translation to point to the dirty page, which is owned
        // by this processor and never shared, isolating the guest's write.
        let flags = nps_entry_flags(self.vendor, NestedPagingStructureEntryType::RwxWriteBack);
        let entry = make_entry(self.dirty_pfn_base + d as u64, flags);
        proof {
            lemma_nps_entry_flags_nonzero(
                self.vendor,
                NestedPagingStructureEntryType::RwxWriteBack,
            );
            let perm = flags.permission;
            assert(perm < 8 && perm != 0 ==> perm & 7 != 0) by (bit_vector);
            lemma_make_entry_nonzero((self.dirty_pfn_base + d as u64) as u64, flags);
            lemma_make_entry_pfn((self.dirty_pfn_base + d as u64) as u64, flags);
        }
        let ghost prev = *self;
        proof {
            lemma_tables_agree(after_walk, prev);
            assert forall|dd: int|
                0 <= dd < DIRTY_PAGE_COUNT implies (#[trigger] prev.dirty_pages@[dd]).wf() by {
                if dd != d {
                    assert(prev.dirty_pages@[dd] == after_walk.dirty_pages@[dd]);
                    assert(after_walk.dirty_pages@[dd].wf());
                }
            }
            assert(prev.wf_sizes());
            assert(prev.leaf_slot(gpa) == Some((t3 as int, p1 as int)));
        }
        self.write_table_entry(t3, p1, entry);
        let ghost after_write = *self;
        self.used_dirty_page_count = d + 1;
        proof {
            lemma_leaf_write(prev, after_write, t3 as int, p1 as int, entry, gpa);
            lemma_tables_agree(after_write, *self);
            assert(self.wf_sizes());
            assert forall|j: int| 0 <= j < self.used_dirty_page_count implies {
                let de2 = #[trigger] self.dirty_entries@[j];
                &&& 0 <= de2.table_index < self.used_nps_count
                &&& self.level_of(de2.table_index as int) == 3
                &&& 0 <= de2.entry_index < 512
                &&& self.leaf_slot(de2.gpa@) == Some(
                    (de2.table_index as int, de2.entry_index as int),
                )
            } by {
                let de2 = self.dirty_entries@[j];
                if j < d {
                    assert(after_walk.dirty_entries@[j] == de2);
                    assert(after_walk.leaf_slot(de2.gpa@) == Some(
                        (de2.table_index as int, de2.entry_index as int),
                    ));
                    assert(prev.leaf_slot(de2.gpa@) == after_walk.leaf_slot(de2.gpa@));
                    assert(after_write.leaf_slot(de2.gpa@) == prev.leaf_slot(de2.gpa@));
                    assert(self.leaf_slot(de2.gpa@) == after_write.leaf_slot(de2.gpa@));
                } else {
                    assert(de2 == de);
                    assert(prev.leaf_slot(gpa) == Some((t3 as int, p1 as int)));
                    assert(after_write.leaf_slot(gpa) == prev.leaf_slot(gpa));
                    assert(self.leaf_slot(gpa) == after_write.leaf_slot(gpa));
                }
            }
            assert(self.wf());
        }
        Ok(true)
    }

    /// Reverts all dirty nested PTEs to point to their original frames and
    /// resets the dirty page count. Returns whether any translation changed,
    /// in which case the caches of the nested paging structures must be
    /// invalidated before the next run.
    pub fn revert_dirty_memory(&mut self) -> (invalidate: bool)
        requires
            old(self).wf(),
        ensures
            final(self).wf(),
            invalidate == (old(self).used_dirty_page_count > 0),
            final(self).used_dirty_page_count == 0,
            final(self).vendor == old(self).vendor,
            final(self).nps_pfn_base == old(self).nps_pfn_base,
            final(self).dirty_pfn_base == old(self).dirty_pfn_base,
            final(self).dirty_pages@ == old(self).dirty_pages@,
            final(self).dirty_entries@ == old(self).dirty_entries@,
            final(self).used_nps_count == old(self).used_nps_count,
            forall|g: u64| #[trigger] final(self).leaf_slot(g) == old(self).leaf_slot(g),
            forall|g: u64|
                dirtied_within(
                    old(self).dirty_entries@,
                    g,
                    old(self).used_dirty_page_count as int,
                ) ==> #[trigger] final(self).leaf_entry(g) == spec_make_entry(
                    last_dirty_original(
                        old(self).dirty_entries@,
                        g,
                        old(self).used_dirty_page_count as int,
                    ),
                    spec_nps_entry_flags(
                        old(self).vendor,
                        NestedPagingStructureEntryType::RxWriteBack,
                    ),
                ),
            forall|g: u64|
                !dirtied_within(
                    old(self).dirty_entries@,
                    g,
                    old(self).used_dirty_page_count as int,
                ) ==> #[trigger] final(self).leaf_entry(g) == old(self).leaf_entry(g),
    {
        let flags = nps_entry_flags(self.vendor, NestedPagingStructureEntryType::RxWriteBack);
        let n = self.used_dirty_page_count;
        let ghost ent = self.dirty_entries@;
        let ghost fl = spec_nps_entry_flags(
            old(self).vendor,
            NestedPagingStructureEntryType::RxWriteBack,
        );
        let mut i: usize = 0;
        while i < n
            invariant
                i <= n,
                self.wf(),
                n == self.used_dirty_page_count,
                self.vendor == old(self).vendor,
                self.nps_pfn_base == old(self).nps_pfn_base,
                self.dirty_pfn_base == old(self).dirty_pfn_base,
                self.dirty_pages@ == old(self).dirty_pages@,
                self.dirty_entries@ == old(self).dirty_entries@,
                self.used_nps_count == old(self).used_nps_count,
                self.used_dirty_page_count == old(self).used_dirty_page_count,
                ent == old(self).dirty_entries@,
                fl == spec_nps_entry_flags(
                    old(self).vendor,
                    NestedPagingStructureEntryType::RxWriteBack,
                ),
                flags == fl,
                forall|g: u64| #[trigger] self.leaf_slot(g) == old(self).leaf_slot(g),
                forall|g: u64|
                    dirtied_within(ent, g, i as int) ==> #[trigger] self.leaf_entry(g)
                        == spec_make_entry(last_dirty_original(ent, g, i as int), fl),
                forall|g: u64|
                    !dirtied_within(ent, g, i as int) ==> #[trigger] self.leaf_entry(g) == old(
                        self,
                    ).leaf_entry(g),
            decreases n - i,
        {
            let de = self.dirty_entries[i];
            let entry = make_entry(de.original_pfn, flags);
            proof {
                assert(self.dirty_entries@[i as int] == de);
            }
            let ghost prev = *self;
            self.write_table_entry(de.table_index, de.entry_index, entry);
            proof {
                lemma_leaf_write(
                    prev,
                    *self,
                    de.table_index as int,
                    de.entry_index as int,
                    entry,
                    de.gpa@,
                );
                assert(self.wf_sizes());
                assert forall|j: int| 0 <= j < self.used_dirty_page_count implies {
                    let de2 = #[trigger] self.dirty_entries@[j];
                    &&& 0 <= de2.table_index < self.used_nps_count
                    &&& self.level_of(de2.table_index as int) == 3
                    &&& 0 <= de2.entry_index < 512
                    &&& self.leaf_slot(de2.gpa@) == Some(
                        (de2.table_index as int, de2.entry_index as int),
                    )
                } by {
                    let de2 = self.dirty_entries@[j];
                    assert(prev.leaf_slot(de2.gpa@) == Some(
                        (de2.table_index as int, de2.entry_index as int),
                    ));
                }
                assert(self.wf());
                assert forall|g: u64|
                    dirtied_within(ent, g, i + 1 as int) implies #[trigger] self.leaf_entry(g)
                    == spec_make_entry(last_dirty_original(ent, g, i + 1 as int), fl) by {
                    if same_translation_path(g, de.gpa@) {
                        assert(self.leaf_entry(g) == entry);
                        assert(same_translation_path(ent[i as int].gpa@, g));
                        assert(last_dirty_original(ent, g, i + 1 as int) == de.original_pfn);
                    } else {
                        assert(!same_translation_path(ent[i as int].gpa@, g));
                        assert(dirtied_within(ent, g, i as int));
                        assert(self.leaf_entry(g) == prev.leaf_entry(g));
                        assert(last_dirty_original(ent, g, i + 1 as int) == last_dirty_original(
                            ent,
                            g,
                            i as int,
                        ));
                    }
                }
                assert forall|g: u64|
                    !dirtied_within(ent, g, i + 1 as int) implies #[trigger] self.leaf_entry(g)
                    == old(self).leaf_entry(g) by {
                    assert(!same_translation_path(ent[i as int].gpa@, g));
                    assert(!dirtied_within(ent, g, i as int));
                    assert(self.leaf_entry(g) == prev.leaf_entry(g));
                }
            }
            i = i + 1;
        }
        // Updating the nested paging structure entries warrants cache
        // invalidation when anything was reverted.
        let invalidate = self.used_dirty_page_count != 0;
        let ghost before_reset = *self;
        if invalidate {
            self.used_dirty_page_count = 0;
        }
        proof {
            lemma_reset_dirty_count(before_reset, *self);
        }
        invalidate
    }
}

/// Resetting the dirty page count alone touches no table, so no walk and no
/// leaf entry changes, and the invariant holds with no recorded entries.
proof fn lemma_reset_dirty_count(pre: Vm, post: Vm)
    requires
        pre.wf(),
        post == (Vm { used_dirty_page_count: 0usize, ..pre }),
    ensures
        post.wf(),
        forall|g: u64| #[trigger] post.leaf_slot(g) == pre.leaf_slot(g),
        forall|g: u64| #[trigger] post.leaf_entry(g) == pre.leaf_entry(g),
{
    assert forall|g: u64|
        #[trigger] post.leaf_slot(g) == pre.leaf_slot(g) && #[trigger] post.leaf_entry(g)
            == pre.leaf_entry(g) by {
        lemma_indices_in_range(g);
    }
    assert forall|i: int| #[trigger] post.ptr_slot_pml4(i) implies 0 <= post.pml4_child(i)
        < post.used_nps_count && post.level_of(post.pml4_child(i)) == 1 by {
        assert(pre.ptr_slot_pml4(i));
    }
    assert forall|t2: int, i2: int| #[trigger] post.ptr_slot_table(t2, i2) implies 0
        <= post.table_child(t2, i2) < post.used_nps_count && post.level_of(
        post.table_child(t2, i2),
    ) == post.level_of(t2) + 1 by {
        assert(pre.ptr_slot_table(t2, i2));
    }
    assert forall|t2: int| 0 <= t2 < post.used_nps_count implies 1 <= #[trigger] post.level_of(t2)
        <= 3 by {
        assert(1 <= pre.level_of(t2) <= 3);
    }
    assert(post.wf_tree());
    assert forall|t2: int, i2: int|
        post.used_nps_count <= t2 < NPS_COUNT && 0 <= i2 < 512
            implies #[trigger] post.table_entry(t2, i2) == 0 by {
        assert(pre.table_entry(t2, i2) == 0);
    }
    assert(post.wf_unused_zero());
    assert forall|i1: int, i2: int|
        post.ptr_slot_pml4(i1) && post.ptr_slot_pml4(i2) && #[trigger] post.pml4_child(i1)
            == #[trigger] post.pml4_child(i2) implies i1 == i2 by {
        assert(pre.ptr_slot_pml4(i1) && pre.ptr_slot_pml4(i2));
    }
    assert forall|t1: int, i1: int, t2: int, i2: int|
        post.ptr_slot_table(t1, i1) && post.ptr_slot_table(t2, i2) && #[trigger] post.table_child(
            t1,
            i1,
        ) == #[trigger] post.table_child(t2, i2) implies t1 == t2 && i1 == i2 by {
        assert(pre.ptr_slot_table(t1, i1) && pre.ptr_slot_table(t2, i2));
    }
    assert(post.wf_injective());
}

/// Consuming a fresh pool table for an empty PML4 entry keeps the tree well
/// formed and changes no installed leaf entry: the fresh table is empty.
proof fn lemma_alloc_pml4(pre: Vm, post: Vm, index: int, entry: u64)
    requires
        pre.wf(),
        0 <= index < 512,
        pre.nested_pml4@[index] == 0,
        pre.used_nps_count < NPS_COUNT,
        entry != 0,
        entry_pfn(entry) == pre.nps_pfn_base + pre.used_nps_count,
        post.vendor == pre.vendor,
        post.nested_pml4@ == pre.nested_pml4@.update(index, entry),
        post.nested_paging_structures@ == pre.nested_paging_structures@,
        post.used_nps_count == pre.used_nps_count + 1,
        post.nps_pfn_base == pre.nps_pfn_base,
        post.dirty_pages@ == pre.dirty_pages@,
        post.dirty_entries@ == pre.dirty_entries@,
        post.used_dirty_page_count == pre.used_dirty_page_count,
        post.dirty_pfn_base == pre.dirty_pfn_base,
        post.levels@ == pre.levels@.push(1),
    ensures
        post.wf(),
        post.pml4_child(index) == pre.used_nps_count,
        post.level_of(pre.used_nps_count as int) == 1,
        forall|g: u64| #[trigger] post.leaf_entry(g) == pre.leaf_entry(g),
        forall|g: u64|
            pre.leaf_slot(g) is Some ==> #[trigger] post.leaf_slot(g) == pre.leaf_slot(g),
{
    let c = pre.used_nps_count as int;
    assert(post.pml4_child(index) == c);
    assert forall|g: u64| #[trigger] post.leaf_slot(g) == pre.leaf_slot(g) || (pre.leaf_slot(g)
        is None && post.leaf_entry(g) == 0) by {
        lemma_indices_in_range(g);
        if pml4_index(g) != index {
            assert(post.nested_pml4@[pml4_index(g)] == pre.nested_pml4@[pml4_index(g)]);
            assert(post.leaf_slot(g) == pre.leaf_slot(g));
        } else {
            assert(pre.nested_pml4@[pml4_index(g)] == 0);
            assert(pre.leaf_slot(g) is None);
            assert(post.pml4_child(pml4_index(g)) == c);
            assert(pre.table_entry(c, pdpt_index(g)) == 0);
            assert(post.table_entry(c, pdpt_index(g)) == pre.table_entry(c, pdpt_index(g)));
            assert(post.leaf_slot(g) is None);
        }
    }
    assert forall|g: u64| #[trigger] post.leaf_entry(g) == pre.leaf_entry(g) by {
        if post.leaf_slot(g) == pre.leaf_slot(g) {
            if pre.leaf_slot(g) is Some {
                let (t, i) = pre.leaf_slot(g)->Some_0;
                assert(post.table_entry(t, i) == pre.table_entry(t, i));
            }
        }
    }
    assert(post.wf_sizes());
    assert forall|i: int| #[trigger] post.ptr_slot_pml4(i) implies 0 <= post.pml4_child(i)
        < post.used_nps_count && post.level_of(post.pml4_child(i)) == 1 by {
        if i != index {
            assert(pre.ptr_slot_pml4(i));
            assert(post.pml4_child(i) == pre.pml4_child(i));
        }
    }
    assert forall|t: int, i: int| #[trigger] post.ptr_slot_table(t, i) implies 0 <= post.table_child(
        t,
        i,
    ) < post.used_nps_count && post.level_of(post.table_child(t, i)) == post.level_of(t) + 1 by {
        if t == c {
            assert(pre.table_entry(t, i) == 0);
            assert(false);
        } else {
            assert(pre.ptr_slot_table(t, i));
        }
    }
    assert forall|t: int| 0 <= t < post.used_nps_count implies 1 <= #[trigger] post.level_of(t)
        <= 3 by {
        if t < c {
            assert(post.level_of(t) == pre.level_of(t));
            assert(1 <= pre.level_of(t) <= 3);
        } else {
            assert(post.level_of(t) == 1);
        }
    }
    assert(post.wf_tree());
    assert forall|t: int, i: int|
        post.used_nps_count <= t < NPS_COUNT && 0 <= i < 512 implies #[trigger] post.table_entry(
        t,
        i,
    ) == 0 by {
        assert(pre.table_entry(t, i) == 0);
    }
    assert(post.wf_unused_zero());
    assert forall|i1: int, i2: int|
        post.ptr_slot_pml4(i1) && post.ptr_slot_pml4(i2) && #[trigger] post.pml4_child(i1)
            == #[trigger] post.pml4_child(i2) implies i1 == i2 by {
        if i1 != index && i2 != index {
            assert(pre.ptr_slot_pml4(i1) && pre.ptr_slot_pml4(i2));
        } else if i1 == index && i2 != index {
            assert(pre.ptr_slot_pml4(i2));
            assert(pre.pml4_child(i2) < c);
        } else if i1 != index && i2 == index {
            assert(pre.ptr_slot_pml4(i1));
            assert(pre.pml4_child(i1) < c);
        }
    }
    assert forall|t1: int, i1: int, t2: int, i2: int|
        post.ptr_slot_table(t1, i1) && post.ptr_slot_table(t2, i2) && #[trigger] post.table_child(
            t1,
            i1,
        ) == #[trigger] post.table_child(t2, i2) implies t1 == t2 && i1 == i2 by {
        if t1 == c {
            assert(pre.table_entry(t1, i1) == 0);
            assert(false);
        }
        if t2 == c {
            assert(pre.table_entry(t2, i2) == 0);
            assert(false);
        }
        assert(pre.ptr_slot_table(t1, i1) && pre.ptr_slot_table(t2, i2));
    }
    assert(post.wf_injective());
    assert forall|j: int| 0 <= j < post.used_dirty_page_count implies {
        let de = #[trigger] post.dirty_entries@[j];
        &&& 0 <= de.table_index < post.used_nps_count
        &&& post.level_of(de.table_index as int) == 3
        &&& 0 <= de.entry_index < 512
        &&& post.leaf_slot(de.gpa@) == Some((de.table_index as int, de.entry_index as int))
    } by {
        let de = post.dirty_entries@[j];
        assert(pre.leaf_slot(de.gpa@) == Some((de.table_index as int, de.entry_index as int)));
    }
    assert(post.wf_dirty());
}

/// One address's walk is unchanged by consuming a fresh pool table for an
/// empty PDPT or PD entry: its leaf entry reads the same, and an already
/// complete walk still leads to the same slot.
proof fn lemma_alloc_table_one(pre: Vm, post: Vm, t: int, index: int, entry: u64, g: u64)
    requires
        pre.wf(),
        0 <= t < pre.used_nps_count,
        1 <= pre.level_of(t) <= 2,
        0 <= index < 512,
        pre.table_entry(t, index) == 0,
        pre.used_nps_count < NPS_COUNT,
        entry != 0,
        entry_pfn(entry) == pre.nps_pfn_base + pre.used_nps_count,
        post.nested_pml4@ == pre.nested_pml4@,
        post.nested_paging_structures@ == pre.nested_paging_structures@.update(
            512 * t + index,
            entry,
        ),
        post.used_nps_count == pre.used_nps_count + 1,
        post.nps_pfn_base == pre.nps_pfn_base,
        post.levels@ == pre.levels@.push(pre.level_of(t) + 1),
    ensures
        post.leaf_entry(g) == pre.leaf_entry(g),
        pre.leaf_slot(g) is Some ==> post.leaf_slot(g) == pre.leaf_slot(g),
{
    let c = pre.used_nps_count as int;
    lemma_indices_in_range(g);
    let p4 = pml4_index(g);
    let p3 = pdpt_index(g);
    let p2 = pd_index(g);
    let p1 = pt_index(g);
    if pre.nested_pml4@[p4] == 0 {
        assert(pre.leaf_slot(g) is None && post.leaf_slot(g) is None);
    } else {
        assert(pre.ptr_slot_pml4(p4));
        let t1 = pre.pml4_child(p4);
        assert(post.pml4_child(p4) == t1);
        assert(pre.level_of(t1) == 1);
        if t1 == t && p3 == index {
            // The written slot lies on this address's path at PDPT level:
            // the walk now continues into the fresh, all-zero table.
            assert(pre.leaf_slot(g) is None);
            assert(post.table_entry(t1, p3) == entry);
            assert(post.table_child(t1, p3) == c);
            assert(pre.table_entry(c, p2) == 0);
            assert(post.table_entry(c, p2) == pre.table_entry(c, p2));
            assert(post.leaf_slot(g) is None);
        } else {
            assert(post.table_entry(t1, p3) == pre.table_entry(t1, p3));
            if pre.table_entry(t1, p3) == 0 {
                assert(pre.leaf_slot(g) is None && post.leaf_slot(g) is None);
            } else {
                assert(pre.ptr_slot_table(t1, p3));
                let t2 = pre.table_child(t1, p3);
                assert(post.table_child(t1, p3) == t2);
                assert(pre.level_of(t2) == 2);
                if t2 == t && p2 == index {
                    // The written slot lies on this address's path at PD
                    // level: the walk gains a leaf slot in the fresh table,
                    // whose entries are all still empty.
                    assert(pre.leaf_slot(g) is None);
                    assert(post.table_entry(t2, p2) == entry);
                    assert(post.table_child(t2, p2) == c);
                    assert(pre.table_entry(c, p1) == 0);
                    assert(post.table_entry(c, p1) == pre.table_entry(c, p1));
                    assert(post.leaf_slot(g) == Some((c, p1)));
                    assert(post.leaf_entry(g) == 0);
                } else {
                    assert(post.table_entry(t2, p2) == pre.table_entry(t2, p2));
                    if pre.table_entry(t2, p2) == 0 {
                        assert(pre.leaf_slot(g) is None && post.leaf_slot(g) is None);
                    } else {
                        assert(pre.ptr_slot_table(t2, p2));
                        let t3 = pre.table_child(t2, p2);
                        assert(pre.level_of(t3) == 3);
                        assert(post.leaf_slot(g) == Some((t3, p1)));
                        assert(pre.leaf_slot(g) == Some((t3, p1)));
                        assert(t3 != t);
                        assert(post.table_entry(t3, p1) == pre.table_entry(t3, p1));
                    }
                }
            }
        }
    }
}

/// Consuming a fresh pool table for an empty PDPT or PD entry keeps the tree
/// well formed and changes no installed leaf entry: the fresh table is empty.
proof fn lemma_alloc_table(pre: Vm, post: Vm, t: int, index: int, entry: u64)
    requires
        pre.wf(),
        0 <= t < pre.used_nps_count,
        1 <= pre.level_of(t) <= 2,
        0 <= index < 512,
        pre.table_entry(t, index) == 0,
        pre.used_nps_count < NPS_COUNT,
        entry != 0,
        entry_pfn(entry) == pre.nps_pfn_base + pre.used_nps_count,
        post.vendor == pre.vendor,
        post.nested_pml4@ == pre.nested_pml4@,
        post.nested_paging_structures@ == pre.nested_paging_structures@.update(
            512 * t + index,
            entry,
        ),
        post.used_nps_count == pre.used_nps_count + 1,
        post.nps_pfn_base == pre.nps_pfn_base,
        post.dirty_pages@ == pre.dirty_pages@,
        post.dirty_entries@ == pre.dirty_entries@,
        post.used_dirty_page_count == pre.used_dirty_page_count,
        post.dirty_pfn_base == pre.dirty_pfn_base,
        post.levels@ == pre.levels@.push(pre.level_of(t) + 1),
    ensures
        post.wf(),
        post.table_child(t, index) == pre.used_nps_count,
        post.ptr_slot_table(t, index),
        post.level_of(pre.used_nps_count as int) == pre.level_of(t) + 1,
        forall|g: u64| #[trigger] post.leaf_entry(g) == pre.leaf_entry(g),
        forall|g: u64|
            pre.leaf_slot(g) is Some ==> #[trigger] post.leaf_slot(g) == pre.leaf_slot(g),
{
    let c = pre.used_nps_count as int;
    assert(post.table_entry(t, index) == entry);
    assert(post.table_child(t, index) == c);
    assert forall|t2: int, i2: int|
        0 <= t2 < NPS_COUNT && 0 <= i2 < 512 && !(t2 == t && i2 == index)
            implies #[trigger] post.table_entry(t2, i2) == pre.table_entry(t2, i2) by {
    }
    assert forall|g: u64| #[trigger] post.leaf_entry(g) == pre.leaf_entry(g) by {
        lemma_alloc_table_one(pre, post, t, index, entry, g);
    }
    assert forall|g: u64|
        pre.leaf_slot(g) is Some implies #[trigger] post.leaf_slot(g) == pre.leaf_slot(g) by {
        lemma_alloc_table_one(pre, post, t, index, entry, g);
    }
    assert(post.wf_sizes());
    assert forall|i: int| #[trigger] post.ptr_slot_pml4(i) implies 0 <= post.pml4_child(i)
        < post.used_nps_count && post.level_of(post.pml4_child(i)) == 1 by {
        assert(pre.ptr_slot_pml4(i));
        assert(post.pml4_child(i) == pre.pml4_child(i));
    }
    assert forall|t2: int, i2: int| #[trigger] post.ptr_slot_table(t2, i2) implies 0
        <= post.table_child(t2, i2) < post.used_nps_count && post.level_of(
        post.table_child(t2, i2),
    ) == post.level_of(t2) + 1 by {
        if t2 == t && i2 == index {
            assert(post.table_child(t2, i2) == c);
            assert(post.level_of(c) == pre.level_of(t) + 1);
        } else if t2 == c {
            assert(pre.table_entry(t2, i2) == 0);
            assert(post.table_entry(t2, i2) == 0);
            assert(false);
        } else {
            assert(pre.ptr_slot_table(t2, i2));
        }
    }
    assert forall|t2: int| 0 <= t2 < post.used_nps_count implies 1 <= #[trigger] post.level_of(t2)
        <= 3 by {
        if t2 < c {
            assert(post.level_of(t2) == pre.level_of(t2));
            assert(1 <= pre.level_of(t2) <= 3);
        } else {
            assert(post.level_of(t2) == pre.level_of(t) + 1);
        }
    }
    assert(post.wf_tree());
    assert forall|t2: int, i2: int|
        post.used_nps_count <= t2 < NPS_COUNT && 0 <= i2 < 512
            implies #[trigger] post.table_entry(t2, i2) == 0 by {
        assert(pre.table_entry(t2, i2) == 0);
    }
    assert(post.wf_unused_zero());
    assert forall|i1: int, i2: int|
        post.ptr_slot_pml4(i1) && post.ptr_slot_pml4(i2) && #[trigger] post.pml4_child(i1)
            == #[trigger] post.pml4_child(i2) implies i1 == i2 by {
        assert(pre.ptr_slot_pml4(i1) && pre.ptr_slot_pml4(i2));
        assert(pre.pml4_child(i1) == post.pml4_child(i1));
        assert(pre.pml4_child(i2) == post.pml4_child(i2));
    }
    assert forall|t1: int, i1: int, t2: int, i2: int|
        post.ptr_slot_table(t1, i1) && post.ptr_slot_table(t2, i2) && #[trigger] post.table_child(
            t1,
            i1,
        ) == #[trigger] post.table_child(t2, i2) implies t1 == t2 && i1 == i2 by {
        if t1 == c {
            assert(pre.table_entry(t1, i1) == 0);
            assert(post.table_entry(t1, i1) == 0);
            assert(false);
        }
        if t2 == c {
            assert(pre.table_entry(t2, i2) == 0);
            assert(post.table_entry(t2, i2) == 0);
            assert(false);
        }
        if t1 == t && i1 == index {
            if !(t2 == t && i2 == index) {
                assert(pre.ptr_slot_table(t2, i2));
                assert(post.table_child(t2, i2) == pre.table_child(t2, i2));
                assert(pre.table_child(t2, i2) < c);
            }
        } else if t2 == t && i2 == index {
            assert(pre.ptr_slot_table(t1, i1));
            assert(post.table_child(t1, i1) == pre.table_child(t1, i1));
            assert(pre.table_child(t1, i1) < c);
        } else {
            assert(pre.ptr_slot_table(t1, i1) && pre.ptr_slot_table(t2, i2));
            assert(post.table_child(t1, i1) == pre.table_child(t1, i1));
            assert(post.table_child(t2, i2) == pre.table_child(t2, i2));
        }
    }
    assert(post.wf_injective());
    assert forall|j: int| 0 <= j < post.used_dirty_page_count implies {
        let de = #[trigger] post.dirty_entries@[j];
        &&& 0 <= de.table_index < post.used_nps_count
        &&& post.level_of(de.table_index as int) == 3
        &&& 0 <= de.entry_index < 512
        &&& post.leaf_slot(de.gpa@) == Some((de.table_index as int, de.entry_index as int))
    } by {
        let de = post.dirty_entries@[j];
        assert(pre.leaf_slot(de.gpa@) == Some((de.table_index as int, de.entry_index as int)));
        lemma_alloc_table_one(pre, post, t, index, entry, de.gpa@);
        assert(post.level_of(de.table_index as int) == pre.level_of(de.table_index as int));
    }
    assert(post.wf_dirty());
}

/// A complete walk ends at a consumed page table (level 3) and an in-range
/// entry index.
proof fn lemma_leaf_slot_bounds(vm: Vm, g: u64)
    requires
        vm.wf_tree(),
    ensures
        vm.leaf_slot(g) is Some ==> {
            let (t, i) = vm.leaf_slot(g)->Some_0;
            &&& 0 <= t < vm.used_nps_count
            &&& vm.level_of(t) == 3
            &&& 0 <= i < 512
        },
{
    lemma_indices_in_range(g);
    if vm.leaf_slot(g) is Some {
        assert(vm.nested_pml4@[pml4_index(g)] != 0);
        assert(vm.ptr_slot_pml4(pml4_index(g)));
        let t1 = vm.pml4_child(pml4_index(g));
        assert(vm.level_of(t1) == 1);
        assert(vm.table_entry(t1, pdpt_index(g)) != 0);
        assert(vm.ptr_slot_table(t1, pdpt_index(g)));
        let t2 = vm.table_child(t1, pdpt_index(g));
        assert(vm.level_of(t2) == 2);
        assert(vm.table_entry(t2, pd_index(g)) != 0);
        assert(vm.ptr_slot_table(t2, pd_index(g)));
    }
}

/// Two addresses whose walks both end at one leaf slot share the whole
/// translation path: each table in a well-formed tree has only one parent
/// slot, so the paths coincide level by level.
pub proof fn lemma_leaf_slot_unique(vm: Vm, a: u64, b: u64)
    requires
        vm.wf_tree(),
        vm.wf_injective(),
        vm.leaf_slot(a) is Some,
        vm.leaf_slot(a) == vm.leaf_slot(b),
    ensures
        same_translation_path(a, b),
{
    lemma_indices_in_range(a);
    lemma_indices_in_range(b);
    assert(vm.nested_pml4@[pml4_index(a)] != 0);
    assert(vm.ptr_slot_pml4(pml4_index(a)));
    let t1a = vm.pml4_child(pml4_index(a));
    assert(vm.level_of(t1a) == 1);
    assert(vm.table_entry(t1a, pdpt_index(a)) != 0);
    assert(vm.ptr_slot_table(t1a, pdpt_index(a)));
    let t2a = vm.table_child(t1a, pdpt_index(a));
    assert(vm.level_of(t2a) == 2);
    assert(vm.table_entry(t2a, pd_index(a)) != 0);
    assert(vm.ptr_slot_table(t2a, pd_index(a)));
    let t3a = vm.table_child(t2a, pd_index(a));
    assert(vm.leaf_slot(a) == Some((t3a, pt_index(a))));
    assert(vm.nested_pml4@[pml4_index(b)] != 0);
    assert(vm.ptr_slot_pml4(pml4_index(b)));
    let t1b = vm.pml4_child(pml4_index(b));
    assert(vm.level_of(t1b) == 1);
    assert(vm.table_entry(t1b, pdpt_index(b)) != 0);
    assert(vm.ptr_slot_table(t1b, pdpt_index(b)));
    let t2b = vm.table_child(t1b, pdpt_index(b));
    assert(vm.level_of(t2b) == 2);
    assert(vm.table_entry(t2b, pd_index(b)) != 0);
    assert(vm.ptr_slot_table(t2b, pd_index(b)));
    let t3b = vm.table_child(t2b, pd_index(b));
    assert(vm.leaf_slot(b) == Some((t3b, pt_index(b))));
    assert(t3a == t3b && pt_index(a) == pt_index(b));
    assert(t2a == t2b && pd_index(a) == pd_index(b));
    assert(t1a == t1b && pdpt_index(a) == pdpt_index(b));
    assert(pml4_index(a) == pml4_index(b));
}

/// One address's walk is unchanged by overwriting a leaf entry: the walk
/// reads pointer entries only in the PML4 and in tables of levels 1 and 2,
/// never in the level-3 table that was written.
proof fn lemma_leaf_write_one(pre: Vm, post: Vm, t: int, idx: int, v: u64, g: u64)
    requires
        pre.wf_tree(),
        0 <= t < pre.used_nps_count,
        pre.level_of(t) == 3,
        0 <= idx < 512,
        post.nested_pml4@ == pre.nested_pml4@,
        pre.wf_sizes(),
        post.nested_paging_structures@ == pre.nested_paging_structures@.update(512 * t + idx, v),
        post.used_nps_count == pre.used_nps_count,
        post.nps_pfn_base == pre.nps_pfn_base,
        post.levels@ == pre.levels@,
    ensures
        post.leaf_slot(g) == pre.leaf_slot(g),
{
    lemma_indices_in_range(g);
    let p4 = pml4_index(g);
    let p3 = pdpt_index(g);
    let p2 = pd_index(g);
    if pre.nested_pml4@[p4] != 0 {
        assert(pre.ptr_slot_pml4(p4));
        let t1 = pre.pml4_child(p4);
        assert(post.pml4_child(p4) == t1);
        assert(pre.level_of(t1) == 1);
        assert(t1 != t);
        assert(post.table_entry(t1, p3) == pre.table_entry(t1, p3));
        if pre.table_entry(t1, p3) != 0 {
            assert(pre.ptr_slot_table(t1, p3));
            let t2 = pre.table_child(t1, p3);
            assert(post.table_child(t1, p3) == t2);
            assert(pre.level_of(t2) == 2);
            assert(t2 != t);
            assert(post.table_entry(t2, p2) == pre.table_entry(t2, p2));
            if pre.table_entry(t2, p2) != 0 {
                assert(post.table_child(t2, p2) == pre.table_child(t2, p2));
            }
        }
    }
}

/// Overwriting the leaf entry a complete walk for `gpa` ends at changes the
/// leaf entry of exactly the addresses sharing that walk, keeps every walk
/// itself unchanged, and preserves the tree invariants.
proof fn lemma_leaf_write(pre: Vm, post: Vm, t: int, idx: int, v: u64, gpa: u64)
    requires
        pre.wf_sizes(),
        pre.wf_tree(),
        pre.wf_unused_zero(),
        pre.wf_injective(),
        0 <= t < pre.used_nps_count,
        pre.level_of(t) == 3,
        0 <= idx < 512,
        pre.leaf_slot(gpa) == Some((t, idx)),
        post.nested_pml4@ == pre.nested_pml4@,
        post.nested_paging_structures@ == pre.nested_paging_structures@.update(512 * t + idx, v),
        post.used_nps_count == pre.used_nps_count,
        post.nps_pfn_base == pre.nps_pfn_base,
        post.levels@ == pre.levels@,
    ensures
        post.wf_tree(),
        post.wf_unused_zero(),
        post.wf_injective(),
        forall|g: u64| #[trigger] post.leaf_slot(g) == pre.leaf_slot(g),
        forall|g: u64| same_translation_path(g, gpa) ==> #[trigger] post.leaf_entry(g) == v,
        forall|g: u64|
            !same_translation_path(g, gpa) ==> #[trigger] post.leaf_entry(g) == pre.leaf_entry(g),
{
    lemma_indices_in_range(gpa);
    assert forall|g: u64| #[trigger] post.leaf_slot(g) == pre.leaf_slot(g) by {
        lemma_leaf_write_one(pre, post, t, idx, v, g);
    }
    assert forall|g: u64| same_translation_path(g, gpa) implies #[trigger] post.leaf_entry(g)
        == v by {
        lemma_leaf_write_one(pre, post, t, idx, v, g);
        assert(pre.leaf_slot(g) == pre.leaf_slot(gpa));
        assert(post.table_entry(t, idx) == v);
    }
    assert forall|g: u64|
        !same_translation_path(g, gpa) implies #[trigger] post.leaf_entry(g) == pre.leaf_entry(
        g,
    ) by {
        lemma_leaf_write_one(pre, post, t, idx, v, g);
        lemma_leaf_slot_bounds(pre, g);
        if pre.leaf_slot(g) is Some {
            let (tg, ig) = pre.leaf_slot(g)->Some_0;
            if tg == t && ig == idx {
                lemma_leaf_slot_unique(pre, gpa, g);
                assert(false);
            } else {
                assert(post.table_entry(tg, ig) == pre.table_entry(tg, ig));
            }
        }
    }
    assert forall|i: int| #[trigger] post.ptr_slot_pml4(i) implies 0 <= post.pml4_child(i)
        < post.used_nps_count && post.level_of(post.pml4_child(i)) == 1 by {
        assert(pre.ptr_slot_pml4(i));
    }
    assert forall|t2: int, i2: int| #[trigger] post.ptr_slot_table(t2, i2) implies 0
        <= post.table_child(t2, i2) < post.used_nps_count && post.level_of(
        post.table_child(t2, i2),
    ) == post.level_of(t2) + 1 by {
        assert(!(t2 == t && i2 == idx));
        assert(post.table_entry(t2, i2) == pre.table_entry(t2, i2));
        assert(pre.ptr_slot_table(t2, i2));
    }
    assert forall|t2: int| 0 <= t2 < post.used_nps_count implies 1 <= #[trigger] post.level_of(t2)
        <= 3 by {
        assert(1 <= pre.level_of(t2) <= 3);
    }
    assert(post.wf_tree());
    assert forall|t2: int, i2: int|
        post.used_nps_count <= t2 < NPS_COUNT && 0 <= i2 < 512
            implies #[trigger] post.table_entry(t2, i2) == 0 by {
        assert(pre.table_entry(t2, i2) == 0);
        assert(t2 != t);
    }
    assert(post.wf_unused_zero());
    assert forall|i1: int, i2: int|
        post.ptr_slot_pml4(i1) && post.ptr_slot_pml4(i2) && #[trigger] post.pml4_child(i1)
            == #[trigger] post.pml4_child(i2) implies i1 == i2 by {
        assert(pre.ptr_slot_pml4(i1) && pre.ptr_slot_pml4(i2));
    }
    assert forall|t1: int, i1: int, t2: int, i2: int|
        post.ptr_slot_table(t1, i1) && post.ptr_slot_table(t2, i2) && #[trigger] post.table_child(
            t1,
            i1,
        ) == #[trigger] post.table_child(t2, i2) implies t1 == t2 && i1 == i2 by {
        assert(!(t1 == t && i1 == idx) && !(t2 == t && i2 == idx));
        assert(post.table_entry(t1, i1) == pre.table_entry(t1, i1));
        assert(post.table_entry(t2, i2) == pre.table_entry(t2, i2));
        assert(pre.ptr_slot_table(t1, i1) && pre.ptr_slot_table(t2, i2));
    }
    assert(post.wf_injective());
}

/// Two states with the same PML4, table pool, pool bases and levels walk
/// every address alike: the dirty bookkeeping plays no part in translation.
proof fn lemma_tables_agree(pre: Vm, post: Vm)
    requires
        pre.wf_tree(),
        pre.wf_unused_zero(),
        pre.wf_injective(),
        post.nested_pml4@ == pre.nested_pml4@,
        post.nested_paging_structures@ == pre.nested_paging_structures@,
        post.used_nps_count == pre.used_nps_count,
        post.nps_pfn_base == pre.nps_pfn_base,
        post.levels@ == pre.levels@,
    ensures
        post.wf_tree(),
        post.wf_unused_zero(),
        post.wf_injective(),
        forall|g: u64| #[trigger] post.leaf_slot(g) == pre.leaf_slot(g),
        forall|g: u64| #[trigger] post.leaf_entry(g) == pre.leaf_entry(g),
{
    assert forall|g: u64|
        #[trigger] post.leaf_slot(g) == pre.leaf_slot(g) && #[trigger] post.leaf_entry(g)
            == pre.leaf_entry(g) by {
        lemma_indices_in_range(g);
    }
    assert forall|i: int| #[trigger] post.ptr_slot_pml4(i) implies 0 <= post.pml4_child(i)
        < post.used_nps_count && post.level_of(post.pml4_child(i)) == 1 by {
        assert(pre.ptr_slot_pml4(i));
    }
    assert forall|t2: int, i2: int| #[trigger] post.ptr_slot_table(t2, i2) implies 0
        <= post.table_child(t2, i2) < post.used_nps_count && post.level_of(
        post.table_child(t2, i2),
    ) == post.level_of(t2) + 1 by {
        assert(pre.ptr_slot_table(t2, i2));
    }
    assert forall|t2: int| 0 <= t2 < post.used_nps_count implies 1 <= #[trigger] post.level_of(t2)
        <= 3 by {
        assert(1 <= pre.level_of(t2) <= 3);
    }
    assert(post.wf_tree());
    assert forall|t2: int, i2: int|
        post.used_nps_count <= t2 < NPS_COUNT && 0 <= i2 < 512
            implies #[trigger] post.table_entry(t2, i2) == 0 by {
        assert(pre.table_entry(t2, i2) == 0);
    }
    assert(post.wf_unused_zero());
    assert forall|i1: int, i2: int|
        post.ptr_slot_pml4(i1) && post.ptr_slot_pml4(i2) && #[trigger] post.pml4_child(i1)
            == #[trigger] post.pml4_child(i2) implies i1 == i2 by {
        assert(pre.ptr_slot_pml4(i1) && pre.ptr_slot_pml4(i2));
    }
    assert forall|t1: int, i1: int, t2: int, i2: int|
        post.ptr_slot_table(t1, i1) && post.ptr_slot_table(t2, i2) && #[trigger] post.table_child(
            t1,
            i1,
        ) == #[trigger] post.table_child(t2, i2) implies t1 == t2 && i1 == i2 by {
        assert(pre.ptr_slot_table(t1, i1) && pre.ptr_slot_table(t2, i2));
    }
    assert(post.wf_injective());
}

/// Whether any of the first `n` recorded copy-on-writes covers the
/// translation path of `g`.
pub open spec fn dirtied_within(entries: Seq<DirtyEntry>, g: u64, n: int) -> bool {
    exists|j: int| 0 <= j < n && same_translation_path(#[trigger] entries[j].gpa@, g)
}

/// The frame saved by the last of the first `n` recorded copy-on-writes
/// covering the translation path of `g` (0 where none does).
pub open spec fn last_dirty_original(entries: Seq<DirtyEntry>, g: u64, n: int) -> u64
    decreases n,
{
    if n <= 0 {
        0u64
    } else if same_translation_path(entries[n - 1].gpa@, g) {
        entries[n - 1].original_pfn
    } else {
        last_dirty_original(entries, g, n - 1)
    }
}

/// Where entry `d` is the last recorded copy-on-write covering the
/// translation path of `g`, a revert puts back exactly the frame that entry
/// saved: together with `copy_on_write`'s contract, the translation for `g`
/// after `revert_dirty_memory` is the one it had before that copy-on-write.
pub proof fn lemma_last_dirty_entry_decides(entries: Seq<DirtyEntry>, g: u64, d: int, n: int)
    requires
        0 <= d < n <= entries.len(),
        same_translation_path(entries[d].gpa@, g),
        forall|j: int| d < j < n ==> !same_translation_path(#[trigger] entries[j].gpa@, g),
    ensures
        dirtied_within(entries, g, n),
        last_dirty_original(entries, g, n) == entries[d].original_pfn,
    decreases n,
{
    if d == n - 1 {
    } else {
        lemma_last_dirty_entry_decides(entries, g, d, n - 1);
    }
}

/// For any address: after `revert_dirty_memory`, the nested translation is
/// either untouched (no record covers its path) or back at the frame it
/// pointed to before the most recent `copy_on_write` of that path. Here
/// `vm0` is the state whose leaf the copy-on-write read, `vm1` the state
/// holding the iteration's records, and `vm2` the state the revert's
/// contract describes; entry `d` is the last record covering the path.
pub proof fn lemma_cow_then_revert_restores(vm0: Vm, vm1: Vm, vm2: Vm, gpa: u64, d: int)
    requires
        0 <= d < vm1.used_dirty_page_count <= vm1.dirty_entries@.len(),
        vm1.dirty_entries@[d].gpa@ == gpa,
        // what `copy_on_write` ensures of its record:
        vm1.dirty_entries@[d].original_pfn == entry_pfn(vm0.leaf_entry(gpa)),
        vm0.leaf_entry(gpa) != 0,
        forall|j: int|
            d < j < vm1.used_dirty_page_count ==> !same_translation_path(
                #[trigger] vm1.dirty_entries@[j].gpa@,
                gpa,
            ),
        // what `revert_dirty_memory` ensures of a covered address:
        vm2.leaf_entry(gpa) == spec_make_entry(
            last_dirty_original(
                vm1.dirty_entries@,
                gpa,
                vm1.used_dirty_page_count as int,
            ),
            spec_nps_entry_flags(vm1.vendor, NestedPagingStructureEntryType::RxWriteBack),
        ),
    ensures
        vm2.translation(gpa) == vm0.translation(gpa),
{
    lemma_last_dirty_entry_decides(
        vm1.dirty_entries@,
        gpa,
        d,
        vm1.used_dirty_page_count as int,
    );
    let saved = vm1.dirty_entries@[d].original_pfn;
    let flags = spec_nps_entry_flags(vm1.vendor, NestedPagingStructureEntryType::RxWriteBack);
    lemma_nps_entry_flags_nonzero(vm1.vendor, NestedPagingStructureEntryType::RxWriteBack);
    let perm = flags.permission;
    assert(perm < 8 && perm != 0 ==> perm & 7 != 0) by (bit_vector);
    lemma_make_entry_nonzero(saved, flags);
    lemma_make_entry_pfn(saved, flags);
    let e0 = vm0.leaf_entry(gpa);
    assert((e0 >> 12) & 0x7fff_ffff_ffff <= 0x7fff_ffff_ffff) by (bit_vector);
}

} // verus!
