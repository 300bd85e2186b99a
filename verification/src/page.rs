//! A single 4KB memory page, the unit in which guest physical memory is
//! captured, mapped, and copied.

use vstd::prelude::*;

verus! {

/// The number of bytes in one page.
pub const BASE_PAGE_SIZE: usize = 4096;

/// The structure representing a single memory page (4KB).
pub struct Page(pub Vec<u8>);

impl Page {
    /// Whether this value really holds one page worth of bytes.
    pub open spec fn wf(&self) -> bool {
        self.0@.len() == BASE_PAGE_SIZE
    }

    /// Creates a zero-filled page.
    pub fn new() -> (r: Page)
        ensures
            r.wf(),
            r.0@ == Seq::<u8>::new(BASE_PAGE_SIZE as nat, |i: int| 0u8),
    {
        let v: Vec<u8> = vec![0u8; BASE_PAGE_SIZE];
        let r = Page(v);
        proof {
            assert(r.0@ =~= Seq::<u8>::new(BASE_PAGE_SIZE as nat, |i: int| 0u8));
        }
        r
    }

    /// Creates a page holding the same bytes as `src`.
    pub fn copy_of(src: &Page) -> (r: Page)
        requires
            src.wf(),
        ensures
            r.wf(),
            r.0@ == src.0@,
    {
        let mut v: Vec<u8> = Vec::new();
        let mut i: usize = 0;
        while i < BASE_PAGE_SIZE
            invariant
                i <= BASE_PAGE_SIZE,
                src.wf(),
                v@ == src.0@.subrange(0, i as int),
            decreases BASE_PAGE_SIZE - i,
        {
            v.push(src.0[i]);
            proof {
                assert(v@ =~= src.0@.subrange(0, i + 1 as int));
            }
            i = i + 1;
        }
        proof {
            assert(v@ =~= src.0@);
        }
        Page(v)
    }
}

/// Computes how many pages are needed for the given number of bytes.
pub fn size_to_pages(size: usize) -> (r: usize)
    ensures
        r == spec_size_to_pages(size as int),
{
    let q: usize = size / 4096;
    proof {
        vstd::arithmetic::div_mod::lemma_fundamental_div_mod(size as int, 4096);
        assert(q + 1 <= usize::MAX) by (nonlinear_arith)
            requires
                q * 4096 <= size,
                size <= usize::MAX,
                q >= 0,
        ;
    }
    q + if (size % 4096) != 0 {
        1usize
    } else {
        0usize
    }
}

/// How many whole pages cover `size` bytes.
pub open spec fn spec_size_to_pages(size: int) -> int
    recommends
        size >= 0,
{
    if size % 4096 == 0 {
        size / 4096
    } else {
        size / 4096 + 1
    }
}

} // verus!
