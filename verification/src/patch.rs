//! Byte-level patches applied to snapshot pages after paging them in, and
//! reverted when a coverage breakpoint fires. The canonical patch is a
//! single-byte breakpoint used for coverage tracking.

use vstd::prelude::*;
use crate::page::Page;

verus! {

/// The patch entry describing the patched address and contents of the patch,
/// as well as original bytes to restore when reverting the patch.
#[derive(Clone, Copy, PartialEq, Eq, Structural)]
pub struct PatchEntry {
    /// The guest physical address the patch starts at.
    pub address: u64,
    /// How many bytes of the patch words are written (at most 4).
    pub length: usize,
    /// The patch bytes, little endian.
    pub patch: u32,
    /// The original bytes, little endian; written back on revert.
    pub original: u32,
}

/// The byte `k` of the little-endian encoding of `x`.
pub open spec fn le_byte(x: u32, k: int) -> u8 {
    ((x >> (8 * k) as u32) & 0xff) as u8
}

/// Whether byte `i` of the page at frame `pfn` is covered by entry `e`.
pub open spec fn covers(e: PatchEntry, pfn: u64, i: int) -> bool {
    (e.address >> 12) == pfn && (e.address & 0xfff) <= i < (e.address & 0xfff) + e.length
}

impl PatchEntry {
    /// An entry that stays within one page and within its 4-byte words.
    pub open spec fn wf(&self) -> bool {
        &&& self.length <= 4
        &&& (self.address & 0xfff) + self.length <= 4096
    }

    /// The page `p`, with this entry's patch bytes written, where the entry
    /// falls into frame `pfn`.
    pub open spec fn spec_apply_one(&self, pfn: u64, p: Seq<u8>) -> Seq<u8> {
        Seq::new(
            p.len(),
            |i: int|
                if covers(*self, pfn, i) {
                    le_byte(self.patch, i - (self.address & 0xfff))
                } else {
                    p[i]
                },
        )
    }

    /// The page `p`, with this entry's original bytes written, where the
    /// entry falls into frame `pfn`.
    pub open spec fn spec_revert_one(&self, pfn: u64, p: Seq<u8>) -> Seq<u8> {
        Seq::new(
            p.len(),
            |i: int|
                if covers(*self, pfn, i) {
                    le_byte(self.original, i - (self.address & 0xfff))
                } else {
                    p[i]
                },
        )
    }

    /// Reverts the patch by rewriting its bytes in `page` with the original
    /// bytes. The caller picks the page the entry's address falls in.
    pub fn revert(&self, page: &mut Page)
        requires
            self.wf(),
            old(page).wf(),
        ensures
            final(page).wf(),
            final(page).0@ == self.spec_revert_one(self.address >> 12, old(page).0@),
    {
        let pfn = self.address >> 12;
        write_le_bytes(page, (self.address & 0xfff) as usize, self.original, self.length);
        proof {
            lemma_offset_in_page(self.address);
            assert(page.0@ =~= self.spec_revert_one(pfn, old(page).0@));
        }
    }
}

/// The low 12 bits of an address are under 4096.
proof fn lemma_offset_in_page(address: u64)
    ensures
        address & 0xfff < 4096,
        (address & 0xfff) as int == address as int % 4096,
        address >> 12 == address as int / 4096,
{
    assert(address & 0xfff < 4096) by (bit_vector);
    assert(address & 0xfff == address % 4096) by (bit_vector);
    assert(address >> 12 == address / 4096) by (bit_vector);
}

/// Writes the first `length` little-endian bytes of `word` into `page` at
/// `offset`.
fn write_le_bytes(page: &mut Page, offset: usize, word: u32, length: usize)
    requires
        old(page).wf(),
        length <= 4,
        offset + length <= 4096,
    ensures
        final(page).wf(),
        final(page).0@.len() == old(page).0@.len(),
        forall|i: int|
            offset <= i < offset + length ==> final(page).0@[i] == le_byte(word, i - offset),
        forall|i: int|
            0 <= i < 4096 && !(offset <= i < offset + length) ==> final(page).0@[i] == old(
                page,
            ).0@[i],
{
    let mut k: usize = 0;
    while k < length
        invariant
            k <= length,
            length <= 4,
            offset + length <= 4096,
            page.wf(),
            forall|i: int| offset <= i < offset + k ==> page.0@[i] == le_byte(word, i - offset),
            forall|i: int|
                0 <= i < 4096 && !(offset <= i < offset + k) ==> page.0@[i] == old(page).0@[i],
        decreases length - k,
    {
        let b: u8 = ((word >> ((8 * k) as u32)) & 0xff) as u8;
        page.0.set(offset + k, b);
        k = k + 1;
    }
}

/// The collection of patch entries, kept sorted by address.
pub struct PatchSet {
    /// The entries, each within one page, ascending by address.
    pub entries: Vec<PatchEntry>,
}

/// The error cases of building a patch set.
#[derive(Clone, Copy, Debug, PartialEq, Eq, Structural)]
pub enum PatchError {
    /// An entry is longer than 4 bytes or crosses a page boundary.
    BadEntry,
}

impl PatchSet {
    /// Every entry within bounds and the list sorted ascending by address.
    pub open spec fn wf(&self) -> bool {
        &&& forall|j: int| 0 <= j < self.entries@.len() ==> (#[trigger] self.entries@[j]).wf()
        &&& forall|j: int, k: int|
            0 <= j < k < self.entries@.len() ==> self.entries@[j].address
                <= self.entries@[k].address
    }

    /// Creates a patch set from parsed entries, rejecting malformed ones and
    /// sorting the rest ascending by address.
    pub fn new(entries: Vec<PatchEntry>) -> (r: Result<PatchSet, PatchError>)
        ensures
            match r {
                Ok(ps) => {
                    &&& ps.wf()
                    &&& ps.entries@.to_multiset() == entries@.to_multiset()
                },
                Err(e) => {
                    &&& e == PatchError::BadEntry
                    &&& exists|j: int| 0 <= j < entries@.len() && !(#[trigger] entries@[j]).wf()
                },
            },
    {
        let n = entries.len();
        let mut j: usize = 0;
        while j < n
            invariant
                j <= n,
                n == entries@.len(),
                forall|i: int| 0 <= i < j ==> (#[trigger] entries@[i]).wf(),
            decreases n - j,
        {
            let e = entries[j];
            proof {
                lemma_offset_in_page(e.address);
            }
            if e.length > 4 || (e.address & 0xfff) as usize + e.length > 4096 {
                return Err(PatchError::BadEntry);
            }
            j = j + 1;
        }
        let sorted = sort_by_address(entries);
        proof {
            assert forall|k: int| 0 <= k < sorted@.len() implies (#[trigger] sorted@[k]).wf() by {
                assert(sorted@.contains(sorted@[k]));
                vstd::seq_lib::to_multiset_contains(sorted@, sorted@[k]);
                vstd::seq_lib::to_multiset_contains(entries@, sorted@[k]);
                assert(entries@.contains(sorted@[k]));
                let i = choose|i: int| 0 <= i < entries@.len() && entries@[i] == sorted@[k];
                assert(entries@[i].wf());
            }
        }
        Ok(PatchSet { entries: sorted })
    }

    /// The page `p`, with the patch bytes of the first `n` entries that fall
    /// in frame `pfn` written, in order.
    pub open spec fn spec_apply(&self, pfn: u64, p: Seq<u8>, n: int) -> Seq<u8>
        decreases n,
    {
        if n <= 0 {
            p
        } else {
            self.entries@[n - 1].spec_apply_one(pfn, self.spec_apply(pfn, p, n - 1))
        }
    }

    /// Applies the patches that fall in the frame `pfn`, in ascending order,
    /// to `page`.
    pub fn apply(&self, pfn: u64, page: &mut Page)
        requires
            self.wf(),
            old(page).wf(),
        ensures
            final(page).wf(),
            final(page).0@ == self.spec_apply(pfn, old(page).0@, self.entries@.len() as int),
    {
        let n = self.entries.len();
        let mut j: usize = 0;
        while j < n
            invariant
                j <= n,
                n == self.entries@.len(),
                self.wf(),
                page.wf(),
                page.0@ == self.spec_apply(pfn, old(page).0@, j as int),
            decreases n - j,
        {
            let e = self.entries[j];
            let ghost before = page.0@;
            if (e.address >> 12) == pfn {
                proof {
                    lemma_offset_in_page(e.address);
                }
                write_le_bytes(page, (e.address & 0xfff) as usize, e.patch, e.length);
                proof {
                    assert(page.0@ =~= e.spec_apply_one(pfn, before));
                }
            } else {
                proof {
                    assert(page.0@ =~= e.spec_apply_one(pfn, before));
                }
            }
            j = j + 1;
        }
    }

    /// Finds the first patch entry whose address equals `rip`, or none
    /// where no entry matches.
    pub fn find(&self, rip: u64) -> (r: Option<PatchEntry>)
        ensures
            r == spec_find(self.entries@, rip),
            match r {
                Some(e) => {
                    &&& exists|j: int| 0 <= j < self.entries@.len() && self.entries@[j] == e
                    &&& e.address == rip
                },
                None => forall|j: int|
                    0 <= j < self.entries@.len() ==> (#[trigger] self.entries@[j]).address != rip,
            },
    {
        let n = self.entries.len();
        let mut j: usize = 0;
        proof {
            assert(self.entries@.subrange(0, n as int) =~= self.entries@);
        }
        while j < n
            invariant
                j <= n,
                n == self.entries@.len(),
                forall|i: int| 0 <= i < j ==> (#[trigger] self.entries@[i]).address != rip,
                spec_find(self.entries@, rip) == spec_find(
                    self.entries@.subrange(j as int, n as int),
                    rip,
                ),
            decreases n - j,
        {
            let e = self.entries[j];
            proof {
                assert(self.entries@.subrange(j as int, n as int)[0] == e);
                assert(self.entries@.subrange(j as int, n as int).drop_first()
                    =~= self.entries@.subrange(j + 1 as int, n as int));
            }
            if e.address == rip {
                proof {
                    assert(self.entries@[j as int] == e);
                }
                return Some(e);
            }
            j = j + 1;
        }
        proof {
            assert(self.entries@.subrange(n as int, n as int).len() == 0);
        }
        None
    }
}

/// The first entry whose address is `rip`, or none.
pub open spec fn spec_find(entries: Seq<PatchEntry>, rip: u64) -> Option<PatchEntry>
    decreases entries.len(),
{
    if entries.len() == 0 {
        None
    } else if entries[0].address == rip {
        Some(entries[0])
    } else {
        spec_find(entries.drop_first(), rip)
    }
}

/// Sorts patch entries ascending by address, by insertion, keeping exactly
/// the given entries.
fn sort_by_address(entries: Vec<PatchEntry>) -> (r: Vec<PatchEntry>)
    ensures
        r@.to_multiset() == entries@.to_multiset(),
        forall|j: int, k: int| 0 <= j < k < r@.len() ==> r@[j].address <= r@[k].address,
        r@.len() == entries@.len(),
{
    let mut sorted: Vec<PatchEntry> = Vec::new();
    let n = entries.len();
    let mut j: usize = 0;
    proof {
        assert(entries@.subrange(0, 0) =~= Seq::<PatchEntry>::empty());
    }
    while j < n
        invariant
            j <= n,
            n == entries@.len(),
            sorted@.len() == j,
            sorted@.to_multiset() == entries@.subrange(0, j as int).to_multiset(),
            forall|a: int, b: int| 0 <= a < b < j ==> sorted@[a].address <= sorted@[b].address,
        decreases n - j,
    {
        let e = entries[j];
        let mut pos: usize = sorted.len();
        while pos > 0 && sorted[pos - 1].address > e.address
            invariant
                pos <= sorted@.len(),
                forall|b: int| pos <= b < sorted@.len() ==> e.address <= sorted@[b].address,
            decreases pos,
        {
            pos = pos - 1;
        }
        let ghost before = sorted@;
        proof {
            before.insert_ensures(pos as int, e);
            vstd::seq_lib::to_multiset_insert(before, pos as int, e);
            assert(entries@.subrange(0, j + 1 as int) =~= entries@.subrange(
                0,
                j as int,
            ).push(entries@[j as int]));
            vstd::seq_lib::to_multiset_build(entries@.subrange(0, j as int), entries@[j as int]);
        }
        sorted.insert(pos, e);
        proof {
            assert forall|a: int, b: int|
                0 <= a < b < sorted@.len() implies sorted@[a].address <= sorted@[b].address by {
                if b < pos {
                    assert(sorted@[a] == before[a] && sorted@[b] == before[b]);
                } else if a > pos {
                    assert(sorted@[a] == before[a - 1] && sorted@[b] == before[b - 1]);
                } else if a == pos && b > pos {
                    assert(sorted@[b] == before[b - 1]);
                    assert(e.address <= before[b - 1].address);
                } else if b == pos {
                    // a < pos: everything before the insertion point is not
                    // greater than the new entry, by the scan's exit test.
                    assert(sorted@[a] == before[a]);
                    assert(before[pos - 1].address <= e.address);
                    if a < pos - 1 {
                        assert(before[a].address <= before[pos - 1].address);
                    }
                } else {
                    assert(a < pos && b > pos);
                    assert(sorted@[a] == before[a]);
                    assert(sorted@[b] == before[b - 1]);
                    assert(before[pos - 1].address <= e.address);
                    assert(e.address <= before[b - 1].address);
                }
            }
        }
        j = j + 1;
    }
    proof {
        assert(entries@.subrange(0, n as int) =~= entries@);
    }
    sorted
}

/// Pointwise: after reverting the first `n` entries over the fully applied
/// page, a byte covered by one of them is back to the page's own byte (the
/// originals hold exactly those), and every other byte still shows the
/// applied page.
proof fn lemma_revert_pointwise(ps: PatchSet, pfn: u64, p: Seq<u8>, n: int)
    requires
        ps.wf(),
        p.len() == 4096,
        0 <= n <= ps.entries@.len(),
        forall|j: int, i: int|
            0 <= j < ps.entries@.len() && #[trigger] covers(ps.entries@[j], pfn, i) ==> p[i]
                == le_byte(ps.entries@[j].original, i - (ps.entries@[j].address & 0xfff)),
    ensures
        spec_revert_all(ps.entries@, pfn, ps.spec_apply(pfn, p, ps.entries@.len() as int), n).len()
            == 4096,
        forall|i: int|
            0 <= i < 4096 ==> spec_revert_all(
                ps.entries@,
                pfn,
                ps.spec_apply(pfn, p, ps.entries@.len() as int),
                n,
            )[i] == if (exists|j: int| 0 <= j < n && covers(#[trigger] ps.entries@[j], pfn, i)) {
                p[i]
            } else {
                ps.spec_apply(pfn, p, ps.entries@.len() as int)[i]
            },
    decreases n,
{
    let applied = ps.spec_apply(pfn, p, ps.entries@.len() as int);
    lemma_apply_len(ps, pfn, p, ps.entries@.len() as int);
    if n > 0 {
        lemma_revert_pointwise(ps, pfn, p, n - 1);
        let prev = spec_revert_all(ps.entries@, pfn, applied, n - 1);
        let r_n = spec_revert_all(ps.entries@, pfn, applied, n);
        let e = ps.entries@[n - 1];
        assert forall|i: int| 0 <= i < 4096 implies r_n[i] == (if (exists|j: int|
            0 <= j < n && covers(#[trigger] ps.entries@[j], pfn, i)) {
            p[i]
        } else {
            applied[i]
        }) by {
            if covers(e, pfn, i) {
                assert(r_n[i] == le_byte(e.original, i - (e.address & 0xfff)));
                assert(covers(ps.entries@[n - 1], pfn, i));
            } else {
                assert(r_n[i] == prev[i]);
                if exists|j: int| 0 <= j < n && covers(#[trigger] ps.entries@[j], pfn, i) {
                    let j = choose|j: int|
                        0 <= j < n && covers(#[trigger] ps.entries@[j], pfn, i);
                    assert(j < n - 1);
                    assert(covers(ps.entries@[j], pfn, i));
                }
            }
        }
    }
}

/// Applying a patch set to a page whose bytes hold every matching entry's
/// original bytes, then reverting every entry, restores the page byte for
/// byte: each revert writes back exactly the bytes the page held, and
/// applying changed no byte outside the entries' ranges.
pub proof fn lemma_apply_then_revert_restores(ps: PatchSet, pfn: u64, p: Seq<u8>)
    requires
        ps.wf(),
        p.len() == 4096,
        forall|j: int, i: int|
            0 <= j < ps.entries@.len() && #[trigger] covers(ps.entries@[j], pfn, i) ==> p[i]
                == le_byte(ps.entries@[j].original, i - (ps.entries@[j].address & 0xfff)),
    ensures
        spec_revert_all(
            ps.entries@,
            pfn,
            ps.spec_apply(pfn, p, ps.entries@.len() as int),
            ps.entries@.len() as int,
        ) =~= p,
{
    let len = ps.entries@.len() as int;
    lemma_revert_pointwise(ps, pfn, p, len);
    lemma_apply_outside(ps, pfn, p, len);
    assert forall|i: int| 0 <= i < 4096 implies spec_revert_all(
        ps.entries@,
        pfn,
        ps.spec_apply(pfn, p, len),
        len,
    )[i] == p[i] by {
        if !(exists|j: int| 0 <= j < len && covers(#[trigger] ps.entries@[j], pfn, i)) {
            assert(ps.spec_apply(pfn, p, len)[i] == p[i]);
        }
    }
}

/// Bytes outside every entry's range are unchanged by applying the first
/// `n` entries.
proof fn lemma_apply_outside(ps: PatchSet, pfn: u64, p: Seq<u8>, n: int)
    requires
        ps.wf(),
        p.len() == 4096,
        0 <= n <= ps.entries@.len(),
    ensures
        forall|i: int|
            0 <= i < 4096 && !(exists|j: int|
                0 <= j < n && covers(#[trigger] ps.entries@[j], pfn, i)) ==> ps.spec_apply(
                pfn,
                p,
                n,
            )[i] == p[i],
        ps.spec_apply(pfn, p, n).len() == 4096,
    decreases n,
{
    if n > 0 {
        lemma_apply_outside(ps, pfn, p, n - 1);
    }
}

/// Applying patches keeps the page length.
proof fn lemma_apply_len(ps: PatchSet, pfn: u64, p: Seq<u8>, n: int)
    requires
        0 <= n <= ps.entries@.len(),
    ensures
        ps.spec_apply(pfn, p, n).len() == p.len(),
    decreases n,
{
    if n > 0 {
        lemma_apply_len(ps, pfn, p, n - 1);
    }
}

/// The page `q`, with the original bytes of the first `n` entries that fall
/// in frame `pfn` written, in order.
pub open spec fn spec_revert_all(entries: Seq<PatchEntry>, pfn: u64, q: Seq<u8>, n: int) -> Seq<u8>
    decreases n,
{
    if n <= 0 {
        q
    } else {
        entries[n - 1].spec_revert_one(pfn, spec_revert_all(entries, pfn, q, n - 1))
    }
}

} // verus!
