//! The per-CPU mutation state machine: the current input file, a private
//! buffer of input pages mapped into the guest, and the production of the
//! next mutation.

use vstd::prelude::*;
use vstd::string::StringExecFns;
use crate::config::MAX_ITERATION_COUNT_PER_FILE;
use crate::corpus::{Corpus, InputFile};
use crate::page::Page;
use crate::text::{dec_u64, spec_dec_u64};

verus! {

/// Which mutation strategy the engine runs, selected when a worker starts.
#[derive(Clone, Copy, PartialEq, Eq, Structural)]
pub enum MutationMode {
    /// Exhaustive single-bit flips over the whole input.
    BitFlip,
    /// A bounded number of random byte overwrites per iteration.
    RandomByte,
}

/// The state of mutation for the current input file.
pub struct MutatingInput {
    /// The immutable, current input file. A mutated copy of its contents is
    /// accessible from the guest; this data is not.
    pub input: InputFile,
    /// The number of iterations performed with the current input.
    pub mutation_count: u64,
    /// The number of byte overwrites made in the current iteration
    /// (random-byte mode).
    pub max_mutation_count: usize,
    /// The offsets overwritten in the current iteration (random-byte mode).
    pub offsets: Vec<usize>,
    /// The bytes saved before each overwrite (random-byte mode).
    pub original: Vec<u8>,
    /// The total bit count of the current input.
    pub total_bits: u64,
}

impl MutatingInput {
    /// The bookkeeping arrays hold eight slots and the bit total matches
    /// the input.
    pub open spec fn wf(&self) -> bool {
        &&& self.offsets@.len() == 8
        &&& self.original@.len() == 8
        &&& self.total_bits == self.input.data@.len() * 8
    }

    /// Starts over with a fresh input, no mutation performed yet.
    pub fn new(input: InputFile) -> (r: MutatingInput)
        requires
            input.data@.len() <= 0x1fff_ffff_ffff_ffff,
        ensures
            r.wf(),
            r.input.data@ == input.data@,
            r.input.name@ == input.name@,
            r.mutation_count == 0,
            r.max_mutation_count == 0,
            r.total_bits == input.data@.len() * 8,
            forall|j: int| 0 <= j < 8 ==> (#[trigger] r.offsets@[j]) == 0,
            forall|j: int| 0 <= j < 8 ==> (#[trigger] r.original@[j]) == 0,
    {
        let total_bits = (input.data.len() as u64) * 8;
        MutatingInput {
            input,
            mutation_count: 0,
            max_mutation_count: 0,
            offsets: vec![0usize; 8],
            original: vec![0u8; 8],
            total_bits,
        }
    }

    /// Whether any mutation was applied to the current input yet.
    pub fn is_mutated(&self) -> (r: bool)
        ensures
            r == (self.mutation_count != 0),
    {
        self.mutation_count != 0
    }

    /// A copy of the current input under a derived name holding the
    /// mutation count, for feeding back into the corpus.
    pub fn data(&self) -> (r: InputFile)
        ensures
            r.data@ == self.input.data@,
            r.name@ == self.input.name@ + "_"@ + spec_dec_u64(self.mutation_count as int),
    {
        let file = self.input.duplicate();
        let mut name = file.name;
        name.append("_");
        let count = dec_u64(self.mutation_count);
        name.append(count.as_str());
        InputFile { data: file.data, name }
    }

    /// The byte length of the current input.
    pub fn size(&self) -> (r: u64)
        ensures
            r == self.input.data@.len(),
    {
        self.input.data.len() as u64
    }

    /// Whether the current input is exhausted under the given mode: every
    /// bit flipped once, or the per-file iteration budget spent.
    pub fn is_done(&self, mode: MutationMode) -> (r: bool)
        ensures
            r == match mode {
                MutationMode::BitFlip => self.mutation_count == self.total_bits,
                MutationMode::RandomByte => self.mutation_count == MAX_ITERATION_COUNT_PER_FILE
                    || self.input.data@.len() == 0,
            },
    {
        match mode {
            MutationMode::BitFlip => self.mutation_count == self.total_bits,
            MutationMode::RandomByte => self.mutation_count == MAX_ITERATION_COUNT_PER_FILE
                || self.input.data.len() == 0,
        }
    }
}

impl Default for MutatingInput {
    /// An empty input: no data, no name, every bit already visited.
    fn default() -> (r: MutatingInput)
        ensures
            r.wf(),
            r.input.data@.len() == 0,
            r.input.name@.len() == 0,
            r.mutation_count == 0,
            r.max_mutation_count == 0,
            r.total_bits == 0,
            forall|j: int| 0 <= j < 8 ==> (#[trigger] r.offsets@[j]) == 0,
            forall|j: int| 0 <= j < 8 ==> (#[trigger] r.original@[j]) == 0,
    {
        MutatingInput {
            input: InputFile { data: Vec::new(), name: String::new() },
            mutation_count: 0,
            max_mutation_count: 0,
            offsets: vec![0usize; 8],
            original: vec![0u8; 8],
            total_bits: 0,
        }
    }
}

/// The input data `data`, laid out over a buffer of `cap` bytes, zero
/// padded.
pub open spec fn spec_padded(data: Seq<u8>, cap: int) -> Seq<u8> {
    Seq::new(
        cap as nat,
        |i: int|
            if i < data.len() {
                data[i]
            } else {
                0u8
            },
    )
}

/// The buffer `s` with bit `k` flipped: bit `k % 8` of byte `k / 8`.
pub open spec fn spec_flip_bit(s: Seq<u8>, k: int) -> Seq<u8> {
    s.update(k / 8, s[k / 8] ^ (1u8 << ((k % 8) as u8)))
}

/// Flipping one bit twice restores the buffer.
pub proof fn lemma_flip_twice(s: Seq<u8>, k: int)
    requires
        0 <= k,
        k / 8 < s.len(),
    ensures
        spec_flip_bit(spec_flip_bit(s, k), k) == s,
{
    let b = s[k / 8];
    let m = (k % 8) as u8;
    assert((b ^ (1u8 << m)) ^ (1u8 << m) == b) by (bit_vector);
    assert(spec_flip_bit(spec_flip_bit(s, k), k) =~= s);
}

/// Two single-bit flips commute.
pub proof fn lemma_flip_comm(s: Seq<u8>, k1: int, k2: int)
    requires
        0 <= k1,
        0 <= k2,
        k1 / 8 < s.len(),
        k2 / 8 < s.len(),
    ensures
        spec_flip_bit(spec_flip_bit(s, k1), k2) == spec_flip_bit(spec_flip_bit(s, k2), k1),
{
    let m1 = (k1 % 8) as u8;
    let m2 = (k2 % 8) as u8;
    if k1 / 8 == k2 / 8 {
        let b = s[k1 / 8];
        assert((b ^ (1u8 << m1)) ^ (1u8 << m2) == (b ^ (1u8 << m2)) ^ (1u8 << m1))
            by (bit_vector);
        assert(spec_flip_bit(spec_flip_bit(s, k1), k2) =~= spec_flip_bit(
            spec_flip_bit(s, k2),
            k1,
        ));
    } else {
        assert(spec_flip_bit(spec_flip_bit(s, k1), k2) =~= spec_flip_bit(
            spec_flip_bit(s, k2),
            k1,
        ));
    }
}

/// Distinct mutation steps produce distinct buffers: step `k` differs from
/// the baseline exactly in bit `k`, so over an input of L bytes the 8·L
/// single-bit variants are all distinct, and each is visited exactly once
/// before the input is done.
pub proof fn lemma_bit_flip_variants_distinct(base: Seq<u8>, k1: int, k2: int)
    requires
        0 <= k1,
        0 <= k2,
        k1 / 8 < base.len(),
        k2 / 8 < base.len(),
        k1 != k2,
    ensures
        spec_flip_bit(base, k1) != spec_flip_bit(base, k2),
{
    let m1 = (k1 % 8) as u8;
    let m2 = (k2 % 8) as u8;
    let b1 = base[k1 / 8];
    let b2 = base[k2 / 8];
    if k1 / 8 == k2 / 8 {
        assert(k1 % 8 != k2 % 8) by {
            vstd::arithmetic::div_mod::lemma_fundamental_div_mod(k1, 8);
            vstd::arithmetic::div_mod::lemma_fundamental_div_mod(k2, 8);
        }
        assert(m1 < 8 && m2 < 8 && m1 != m2 ==> b1 ^ (1u8 << m1) != b1 ^ (1u8 << m2))
            by (bit_vector);
        assert(spec_flip_bit(base, k1)[k1 / 8] != spec_flip_bit(base, k2)[k1 / 8]);
    } else {
        assert(m2 < 8 ==> b2 ^ (1u8 << m2) != b2) by (bit_vector);
        assert(spec_flip_bit(base, k1)[k2 / 8] == b2);
        assert(spec_flip_bit(base, k2)[k2 / 8] != b2);
    }
}

/// The context holding the mutating input data of one worker.
pub struct MutationEngine {
    /// Which mutation strategy this worker runs.
    pub mode: MutationMode,
    /// State of mutation for the current iteration.
    pub current_input: MutatingInput,
    /// The private pages backing the guest-visible copy of the current
    /// input. Data here is mutated and exposed to the guest.
    pub input_pages: Vec<Page>,
}

impl MutationEngine {
    /// The byte capacity of the input pages.
    pub open spec fn capacity(&self) -> int {
        (self.input_pages@.len() * 4096) as int
    }

    /// The bytes of the input pages, flattened.
    pub open spec fn buffer(&self) -> Seq<u8> {
        Seq::new(self.capacity() as nat, |i: int| self.input_pages@[i / 4096].0@[i % 4096])
    }

    /// The unmutated image of the current input over the buffer.
    pub open spec fn baseline(&self) -> Seq<u8> {
        spec_padded(self.current_input.input.data@, self.capacity())
    }

    /// The pages are whole and boundedly many.
    pub open spec fn pages_wf(&self) -> bool {
        &&& forall|p: int|
            0 <= p < self.input_pages@.len() ==> (#[trigger] self.input_pages@[p]).wf()
        &&& self.input_pages@.len() <= 0x1000_0000
    }

    /// The pages are whole, the input fits them, and in bit-flip mode the
    /// buffer is the baseline with exactly the previous mutation's bit
    /// flipped (or untouched before the first mutation).
    pub open spec fn wf(&self) -> bool {
        &&& forall|p: int|
            0 <= p < self.input_pages@.len() ==> (#[trigger] self.input_pages@[p]).wf()
        &&& self.current_input.wf()
        &&& self.current_input.input.data@.len() <= self.capacity()
        &&& self.input_pages@.len() <= 0x1000_0000
        &&& (self.mode == MutationMode::BitFlip ==> {
            &&& self.current_input.mutation_count <= self.current_input.total_bits
            &&& (self.current_input.mutation_count == 0 ==> self.buffer() == self.baseline())
            &&& (self.current_input.mutation_count > 0 ==> self.buffer() == spec_flip_bit(
                self.baseline(),
                self.current_input.mutation_count as int - 1,
            ))
        })
    }

    /// Creates the engine for one worker, with input pages covering the
    /// corpus's input data window and no input selected yet.
    pub fn new(mode: MutationMode, corpus: &Corpus) -> (r: MutationEngine)
        requires
            corpus.wf(),
            corpus.data_pages_end - corpus.data_pages_start <= 0x1000_0000,
        ensures
            r.wf(),
            r.mode == mode,
            r.input_pages@.len() == corpus.data_pages_end - corpus.data_pages_start,
            r.current_input.mutation_count == 0,
            r.current_input.total_bits == 0,
            r.current_input.input.data@.len() == 0,
    {
        let (start, end) = corpus.data_pages();
        let count = end - start;
        let mut input_pages: Vec<Page> = Vec::new();
        let mut p: usize = 0;
        while p < count
            invariant
                p <= count,
                input_pages@.len() == p,
                forall|a: int| 0 <= a < p ==> (#[trigger] input_pages@[a]).wf(),
                forall|a: int, j: int|
                    0 <= a < p && 0 <= j < 4096 ==> (#[trigger] input_pages@[a].0@[j]) == 0u8,
            decreases count - p,
        {
            input_pages.push(Page::new());
            p = p + 1;
        }
        let r = MutationEngine { mode, current_input: MutatingInput::default(), input_pages };
        proof {
            assert forall|i: int|
                0 <= i < r.capacity() implies r.buffer()[i] == r.baseline().index(i) by {
                vstd::arithmetic::div_mod::lemma_fundamental_div_mod(i, 4096);
            }
            assert(r.buffer() =~= r.baseline());
        }
        r
    }

    /// Returns the page at `pfn` within the input data pages.
    pub fn resolve_page(&self, pfn: usize) -> (r: &Page)
        requires
            pfn < self.input_pages@.len(),
        ensures
            *r == self.input_pages@[pfn as int],
    {
        &self.input_pages[pfn]
    }

    /// Reads the buffer byte at `idx`.
    fn read_buffer_byte(&self, idx: usize) -> (r: u8)
        requires
            self.pages_wf(),
            idx < self.capacity(),
        ensures
            r == self.buffer()[idx as int],
    {
        let p = idx / 4096;
        let j = idx % 4096;
        self.input_pages[p].0[j]
    }

    /// Overwrites the buffer byte at `idx`.
    fn write_buffer_byte(&mut self, idx: usize, b: u8)
        requires
            old(self).pages_wf(),
            idx < old(self).capacity(),
        ensures
            final(self).mode == old(self).mode,
            final(self).current_input == old(self).current_input,
            final(self).input_pages@.len() == old(self).input_pages@.len(),
            final(self).pages_wf(),
            final(self).buffer() == old(self).buffer().update(idx as int, b),
    {
        let p = idx / 4096;
        let j = idx % 4096;
        let mut page = Page::copy_of(&self.input_pages[p]);
        page.0.set(j, b);
        self.input_pages.set(p, page);
        proof {
            vstd::arithmetic::div_mod::lemma_fundamental_div_mod(idx as int, 4096);
            assert forall|i: int|
                0 <= i < self.capacity() implies self.buffer()[i] == old(self).buffer().update(
                idx as int,
                b,
            )[i] by {
                vstd::arithmetic::div_mod::lemma_fundamental_div_mod(i, 4096);
            }
            assert(self.buffer() =~= old(self).buffer().update(idx as int, b));
        }
    }

    /// Flips the bit the mutation count selects, and flips the previous
    /// iteration's bit back first where there was one.
    fn bit_flip_input(&mut self)
        requires
            old(self).wf(),
            old(self).mode == MutationMode::BitFlip,
            old(self).current_input.mutation_count < old(self).current_input.total_bits,
        ensures
            final(self).mode == old(self).mode,
            final(self).current_input == old(self).current_input,
            final(self).input_pages@.len() == old(self).input_pages@.len(),
            final(self).pages_wf(),
            final(self).buffer() == if old(self).current_input.mutation_count >= 1 {
                spec_flip_bit(
                    spec_flip_bit(
                        old(self).buffer(),
                        old(self).current_input.mutation_count as int,
                    ),
                    old(self).current_input.mutation_count as int - 1,
                )
            } else {
                spec_flip_bit(old(self).buffer(), old(self).current_input.mutation_count as int)
            },
    {
        let c = self.current_input.mutation_count;
        let data_len = self.current_input.input.data.len();
        let bi = c / 8;
        proof {
            vstd::arithmetic::div_mod::lemma_fundamental_div_mod(c as int, 8);
            assert(bi < data_len as u64);
        }
        // Locate the bit position to flip, and flip it.
        let byte_index = bi as usize;
        let bit_offset: u8 = (c % 8) as u8;
        let b = self.read_buffer_byte(byte_index);
        self.write_buffer_byte(byte_index, b ^ (1u8 << bit_offset));
        proof {
            assert(byte_index as int == (c as int) / 8);
            assert(bit_offset == ((c as int) % 8) as u8);
            assert(self.buffer() =~= spec_flip_bit(old(self).buffer(), c as int));
        }
        // Restore the previous mutation if any.
        if c >= 1 {
            let ghost mid = *self;
            let pbi = (c - 1) / 8;
            proof {
                vstd::arithmetic::div_mod::lemma_fundamental_div_mod(c as int - 1, 8);
                assert(pbi < data_len as u64);
                assert(mid.capacity() == old(self).capacity());
            }
            let prev_byte_index = pbi as usize;
            let prev_bit_offset: u8 = ((c - 1) % 8) as u8;
            let pb = self.read_buffer_byte(prev_byte_index);
            self.write_buffer_byte(prev_byte_index, pb ^ (1u8 << prev_bit_offset));
            proof {
                assert(prev_byte_index as int == (c as int - 1) / 8);
                assert(prev_bit_offset == ((c as int - 1) % 8) as u8);
                assert(self.buffer() =~= spec_flip_bit(mid.buffer(), c as int - 1));
            }
        }
    }

    /// Applies the next mutation to the buffer and counts it: after the
    /// k-th mutation the buffer is the baseline with exactly bit k-1
    /// flipped.
    fn mutate_input(&mut self)
        requires
            old(self).wf(),
            old(self).mode == MutationMode::BitFlip,
            old(self).current_input.mutation_count < old(self).current_input.total_bits,
        ensures
            final(self).wf(),
            final(self).mode == old(self).mode,
            final(self).input_pages@.len() == old(self).input_pages@.len(),
            final(self).current_input.input == old(self).current_input.input,
            final(self).current_input.mutation_count == old(self).current_input.mutation_count
                + 1,
            final(self).current_input.total_bits == old(self).current_input.total_bits,
            final(self).buffer() == spec_flip_bit(
                final(self).baseline(),
                old(self).current_input.mutation_count as int,
            ),
    {
        let ghost c = old(self).current_input.mutation_count as int;
        let ghost base = old(self).baseline();
        self.bit_flip_input();
        self.current_input.mutation_count = self.current_input.mutation_count + 1;
        proof {
            vstd::arithmetic::div_mod::lemma_fundamental_div_mod(c, 8);
            assert(c / 8 < base.len());
            if c == 0 {
                assert(self.buffer() == spec_flip_bit(base, 0));
            } else {
                vstd::arithmetic::div_mod::lemma_fundamental_div_mod(c - 1, 8);
                assert((c - 1) / 8 < base.len());
                // The previous bit is flipped back: flipping bits c then c-1
                // over the variant c-1 cancels the c-1 flip.
                assert(old(self).buffer() == spec_flip_bit(base, c - 1));
                lemma_flip_comm(spec_flip_bit(base, c - 1), c, c - 1);
                lemma_flip_twice(spec_flip_bit(base, c), c - 1);
                lemma_flip_comm(base, c - 1, c);
                lemma_flip_twice(spec_flip_bit(base, c), c - 1);
                assert(spec_flip_bit(spec_flip_bit(spec_flip_bit(base, c - 1), c), c - 1)
                    == spec_flip_bit(base, c)) by {
                    assert(spec_flip_bit(spec_flip_bit(base, c - 1), c) == spec_flip_bit(
                        spec_flip_bit(base, c),
                        c - 1,
                    ));
                    assert(spec_flip_bit(spec_flip_bit(spec_flip_bit(base, c), c - 1), c - 1)
                        == spec_flip_bit(base, c));
                }
            }
            assert(self.baseline() == base);
        }
    }

    /// Copies the immutable input file data into the input data pages,
    /// zero-filling the rest of the buffer.
    fn copy_input_to_guest_memory(&mut self, input: &InputFile)
        requires
            old(self).wf(),
            input.data@.len() <= old(self).capacity(),
        ensures
            final(self).mode == old(self).mode,
            final(self).current_input == old(self).current_input,
            final(self).input_pages@.len() == old(self).input_pages@.len(),
            forall|p: int|
                0 <= p < final(self).input_pages@.len() ==> (#[trigger] final(self).input_pages@[p]).wf(),
            final(self).buffer() == spec_padded(input.data@, old(self).capacity()),
    {
        let page_count = self.input_pages.len();
        let mut p: usize = 0;
        while p < page_count
            invariant
                p <= page_count,
                page_count == self.input_pages@.len(),
                self.mode == old(self).mode,
                self.current_input == old(self).current_input,
                self.input_pages@.len() == old(self).input_pages@.len(),
                self.input_pages@.len() <= 0x1000_0000,
                input.data@.len() <= self.capacity(),
                forall|a: int|
                    0 <= a < self.input_pages@.len() ==> (#[trigger] self.input_pages@[a]).wf(),
                forall|a: int, j: int|
                    0 <= a < p && 0 <= j < 4096 ==> (#[trigger] self.input_pages@[a].0@[j]) == (
                    if a * 4096 + j < input.data@.len() {
                        input.data@[a * 4096 + j]
                    } else {
                        0u8
                    }),
            decreases page_count - p,
        {
            let mut page_vec: Vec<u8> = Vec::new();
            let mut j: usize = 0;
            while j < 4096
                invariant
                    j <= 4096,
                    p < page_count,
                    page_count == self.input_pages@.len(),
                    input.data@.len() <= self.capacity(),
                    self.input_pages@.len() <= 0x1000_0000,
                    page_vec@.len() == j,
                    forall|b: int|
                        0 <= b < j ==> (#[trigger] page_vec@[b]) == (if p * 4096 + b
                            < input.data@.len() {
                            input.data@[p * 4096 + b]
                        } else {
                            0u8
                        }),
                decreases 4096 - j,
            {
                let idx = (p as u64) * 4096 + (j as u64);
                let b: u8 = if idx < input.data.len() as u64 {
                    input.data[idx as usize]
                } else {
                    0u8
                };
                page_vec.push(b);
                j = j + 1;
            }
            self.input_pages.set(p, Page(page_vec));
            p = p + 1;
        }
        proof {
            assert forall|i: int|
                0 <= i < self.capacity() implies self.buffer()[i] == spec_padded(
                input.data@,
                old(self).capacity(),
            )[i] by {
                vstd::arithmetic::div_mod::lemma_fundamental_div_mod(i, 4096);
            }
            assert(self.buffer() =~= spec_padded(input.data@, old(self).capacity()));
        }
    }

    /// Advances the engine by one iteration in bit-flip mode: applies the
    /// next mutation to the current input, or, when the input is exhausted,
    /// consumes a fresh one from the corpus and maps it unmutated as a
    /// baseline run. Returns false only when the corpus had no input left,
    /// in which case this worker has left the active count.
    pub fn map_and_mutate_input(&mut self, corpus: &mut Corpus, active_thread_count: &mut u64) -> (
    got: bool)
        requires
            old(self).wf(),
            old(self).mode == MutationMode::BitFlip,
            old(corpus).wf(),
            *old(active_thread_count) > 0,
            old(corpus).data_pages_end - old(corpus).data_pages_start == old(self).input_pages@.len(),
        ensures
            final(self).wf(),
            final(self).mode == old(self).mode,
            final(self).input_pages@.len() == old(self).input_pages@.len(),
            final(corpus).data_gva == old(corpus).data_gva,
            final(corpus).data_pages_start == old(corpus).data_pages_start,
            final(corpus).data_pages_end == old(corpus).data_pages_end,
            final(corpus).wf(),
            if old(self).current_input.mutation_count == old(self).current_input.total_bits {
                if old(corpus).files@.len() > 0 {
                    &&& got
                    &&& final(corpus).files@ == old(corpus).files@.drop_last()
                    &&& *final(active_thread_count) == *old(active_thread_count)
                    &&& final(self).current_input.input.data@ == old(corpus).files@.last().data@
                    &&& final(self).current_input.input.name@ == old(corpus).files@.last().name@
                    &&& final(self).current_input.mutation_count == 0
                    &&& final(self).buffer() == spec_padded(
                        old(corpus).files@.last().data@,
                        old(self).capacity(),
                    )
                } else {
                    &&& !got
                    &&& final(corpus).files@ == old(corpus).files@
                    &&& *final(active_thread_count) == *old(active_thread_count) - 1
                }
            } else {
                &&& got
                &&& final(corpus).files@ == old(corpus).files@
                &&& *final(active_thread_count) == *old(active_thread_count)
                &&& final(self).current_input.input == old(self).current_input.input
                &&& final(self).current_input.mutation_count == old(self).current_input.mutation_count + 1
                &&& final(self).buffer() == spec_flip_bit(
                    final(self).baseline(),
                    old(self).current_input.mutation_count as int,
                )
            },
    {
        if self.current_input.is_done(self.mode) {
            // No more mutation is possible: pick up a new input, and run the
            // guest without mutation first as a baseline.
            match corpus.consume_file(active_thread_count) {
                Some(input) => {
                    proof {
                        assert(old(corpus).files@.last().data@.len() <= (old(corpus).data_pages_end - old(corpus).data_pages_start) * 4096);
                    }
                    self.copy_input_to_guest_memory(&input);
                    self.current_input = MutatingInput::new(input);
                    true
                },
                None => false,
            }
        } else {
            // Otherwise, mutate the input.
            self.mutate_input();
            true
        }
    }
}

/// Resolves the page that should back the guest frame `pfn` within the
/// input data pages, or none where `pfn` lies outside the input window.
pub fn resolve_page_from_input_data<'a>(
    corpus: &Corpus,
    pfn: usize,
    mutation_engine: &'a MutationEngine,
) -> (r: Option<&'a Page>)
    requires
        corpus.data_pages_end - corpus.data_pages_start == mutation_engine.input_pages@.len(),
    ensures
        match r {
            Some(p) => {
                &&& corpus.data_pages_start <= pfn < corpus.data_pages_end
                &&& *p == mutation_engine.input_pages@[pfn - corpus.data_pages_start]
            },
            None => !(corpus.data_pages_start <= pfn < corpus.data_pages_end),
        },
{
    let (start, end) = corpus.data_pages();
    if start <= pfn && pfn < end {
        Some(mutation_engine.resolve_page(pfn - start))
    } else {
        None
    }
}

/// The buffer `s` after writing `vals[j]` at offset `offs[j]`, for each
/// `j` under `n`, in order.
pub open spec fn spec_apply_writes(s: Seq<u8>, offs: Seq<usize>, vals: Seq<u8>, n: int) -> Seq<
    u8,
>
    decreases n,
{
    if n <= 0 {
        s
    } else {
        spec_apply_writes(s, offs, vals, n - 1).update(offs[n - 1] as int, vals[n - 1])
    }
}

/// Applying writes reads only the first `n` slots of the offset and value
/// sequences.
proof fn lemma_apply_writes_prefix(
    s: Seq<u8>,
    offs1: Seq<usize>,
    vals1: Seq<u8>,
    offs2: Seq<usize>,
    vals2: Seq<u8>,
    n: int,
)
    requires
        forall|j: int| 0 <= j < n ==> #[trigger] offs1[j] == offs2[j],
        forall|j: int| 0 <= j < n ==> #[trigger] vals1[j] == vals2[j],
    ensures
        spec_apply_writes(s, offs1, vals1, n) == spec_apply_writes(s, offs2, vals2, n),
    decreases n,
{
    if n > 0 {
        lemma_apply_writes_prefix(s, offs1, vals1, offs2, vals2, n - 1);
    }
}

/// Applying in-bounds writes keeps the buffer length.
proof fn lemma_apply_writes_len(s: Seq<u8>, offs: Seq<usize>, vals: Seq<u8>, n: int)
    requires
        forall|j: int| 0 <= j < n ==> (#[trigger] offs[j]) < s.len(),
    ensures
        spec_apply_writes(s, offs, vals, n).len() == s.len(),
    decreases n,
{
    if n > 0 {
        lemma_apply_writes_len(s, offs, vals, n - 1);
    }
}

impl MutationEngine {
    /// The recorded random-byte bookkeeping is usable for the next restore:
    /// at most eight writes, each within the live input bytes.
    pub open spec fn random_state_wf(&self) -> bool {
        &&& self.current_input.max_mutation_count <= 8
        &&& forall|j: int|
            0 <= j < self.current_input.max_mutation_count
                ==> (#[trigger] self.current_input.offsets@[j])
                < self.current_input.input.data@.len()
    }

    /// Mutates the buffer in the random manner: restores the previous
    /// iteration's overwrites first, then overwrites one to eight bytes at
    /// offsets drawn from the given timestamp readings, remembering each
    /// offset and the byte it held.
    pub fn byte_change_input(&mut self, randoms: &Vec<u64>)
        requires
            old(self).mode == MutationMode::RandomByte,
            old(self).pages_wf(),
            old(self).current_input.wf(),
            old(self).random_state_wf(),
            old(self).current_input.input.data@.len() > 0,
            old(self).current_input.input.data@.len() <= old(self).capacity(),
            randoms@.len() >= 17,
        ensures
            final(self).mode == old(self).mode,
            final(self).pages_wf(),
            final(self).current_input.wf(),
            final(self).random_state_wf(),
            final(self).current_input.input == old(self).current_input.input,
            final(self).current_input.mutation_count == old(self).current_input.mutation_count,
            final(self).current_input.total_bits == old(self).current_input.total_bits,
            final(self).input_pages@.len() == old(self).input_pages@.len(),
            final(self).current_input.max_mutation_count == 1 + randoms@[0] % 8,
            ({
                // What the previous iteration overwrote is put back first.
                let restored = if old(self).current_input.mutation_count >= 1 {
                    spec_apply_writes(
                        old(self).buffer(),
                        old(self).current_input.offsets@,
                        old(self).current_input.original@,
                        old(self).current_input.max_mutation_count as int,
                    )
                } else {
                    old(self).buffer()
                };
                let count = 1 + (randoms@[0] % 8) as int;
                let vals = Seq::new(count as nat, |j: int| randoms@[2 + 2 * j] as u8);
                &&& forall|j: int|
                    0 <= j < count ==> (#[trigger] final(self).current_input.offsets@[j]) as int
                        == randoms@[1 + 2 * j] as int % (old(
                        self,
                    ).current_input.input.data@.len() as int)
                &&& final(self).buffer() == spec_apply_writes(
                    restored,
                    final(self).current_input.offsets@,
                    vals,
                    count,
                )
                &&& forall|j: int|
                    0 <= j < count ==> (#[trigger] final(self).current_input.original@[j])
                        == spec_apply_writes(
                        restored,
                        final(self).current_input.offsets@,
                        vals,
                        j,
                    )[final(self).current_input.offsets@[j] as int]
            }),
    {
        let data_len = self.current_input.input.data.len();

        // Restore the previous mutation if any.
        if self.current_input.mutation_count >= 1 {
            let m = self.current_input.max_mutation_count;
            let ghost before = self.buffer();
            let mut i: usize = 0;
            while i < m
                invariant
                    i <= m,
                    m == self.current_input.max_mutation_count,
                    self.pages_wf(),
                    self.mode == old(self).mode,
                    self.current_input == old(self).current_input,
                    self.input_pages@.len() == old(self).input_pages@.len(),
                    m <= 8,
                    self.current_input.offsets@.len() == 8,
                    self.current_input.original@.len() == 8,
                    forall|j: int|
                        0 <= j < m ==> (#[trigger] self.current_input.offsets@[j]) < data_len,
                    data_len == self.current_input.input.data@.len(),
                    data_len <= self.capacity(),
                    self.buffer() == spec_apply_writes(
                        before,
                        self.current_input.offsets@,
                        self.current_input.original@,
                        i as int,
                    ),
                decreases m - i,
            {
                let off = self.current_input.offsets[i];
                let b = self.current_input.original[i];
                self.write_buffer_byte(off, b);
                i = i + 1;
            }
        }
        let ghost restored = self.buffer();
        let ghost data_view = self.current_input.input.data@;

        // Overwrite one to eight bytes at drawn offsets with drawn bytes.
        let count = 1 + (randoms[0] % 8) as usize;
        self.current_input.max_mutation_count = count;
        let ghost vals = Seq::new(count as nat, |j: int| randoms@[2 + 2 * j] as u8);
        let mut i: usize = 0;
        while i < count
            invariant
                i <= count,
                count == self.current_input.max_mutation_count,
                count == 1 + randoms@[0] % 8,
                randoms@.len() >= 17,
                self.pages_wf(),
                self.mode == old(self).mode,
                self.current_input.input == old(self).current_input.input,
                self.current_input.mutation_count == old(self).current_input.mutation_count,
                self.current_input.total_bits == old(self).current_input.total_bits,
                self.current_input.offsets@.len() == 8,
                self.current_input.original@.len() == 8,
                self.input_pages@.len() == old(self).input_pages@.len(),
                data_len == self.current_input.input.data@.len(),
                data_len <= self.capacity(),
                data_len > 0,
                vals == Seq::new(count as nat, |j: int| randoms@[2 + 2 * j] as u8),
                restored.len() == self.capacity(),
                forall|j: int|
                    0 <= j < i ==> (#[trigger] self.current_input.offsets@[j]) as int
                        == randoms@[1 + 2 * j] as int % data_len as int,
                forall|j: int|
                    0 <= j < i ==> (#[trigger] self.current_input.offsets@[j]) < data_len,
                self.buffer() == spec_apply_writes(
                    restored,
                    self.current_input.offsets@,
                    vals,
                    i as int,
                ),
                forall|j: int|
                    0 <= j < i ==> (#[trigger] self.current_input.original@[j])
                        == spec_apply_writes(
                        restored,
                        self.current_input.offsets@,
                        vals,
                        j,
                    )[self.current_input.offsets@[j] as int],
            decreases count - i,
        {
            let ghost offs_before = self.current_input.offsets@;
            let ghost origs_before = self.current_input.original@;
            let off = (randoms[1 + 2 * i] % data_len as u64) as usize;
            let b = self.read_buffer_byte(off);
            self.current_input.offsets.set(i, off);
            self.current_input.original.set(i, b);
            proof {
                lemma_apply_writes_prefix(
                    restored,
                    offs_before,
                    vals,
                    self.current_input.offsets@,
                    vals,
                    i as int,
                );
                assert forall|j: int|
                    0 <= j < i implies (#[trigger] self.current_input.original@[j])
                    == spec_apply_writes(
                    restored,
                    self.current_input.offsets@,
                    vals,
                    j,
                )[self.current_input.offsets@[j] as int] by {
                    lemma_apply_writes_prefix(
                        restored,
                        offs_before,
                        vals,
                        self.current_input.offsets@,
                        vals,
                        j,
                    );
                    assert(origs_before[j] == spec_apply_writes(
                        restored,
                        offs_before,
                        vals,
                        j,
                    )[offs_before[j] as int]);
                }
                lemma_apply_writes_len(
                    restored,
                    self.current_input.offsets@,
                    vals,
                    i as int,
                );
            }
            self.write_buffer_byte(off, (randoms[2 + 2 * i] & 0xff) as u8);
            proof {
                let v = randoms@[2 + 2 * i];
                assert((v & 0xff) as u8 == v as u8) by (bit_vector);
                assert(self.buffer() == spec_apply_writes(
                    restored,
                    self.current_input.offsets@,
                    vals,
                    i + 1 as int,
                ));
            }
            i = i + 1;
        }
    }

    /// Advances the engine by one iteration in random-byte mode, drawing
    /// offsets and bytes from the given timestamp readings; when the
    /// current input's budget is spent, a copy of an input the first
    /// reading selects is mapped unmutated as a baseline.
    pub fn map_and_mutate_input_random(&mut self, corpus: &Corpus, randoms: &Vec<u64>)
        requires
            old(self).mode == MutationMode::RandomByte,
            old(self).pages_wf(),
            old(self).current_input.wf(),
            old(self).random_state_wf(),
            old(self).current_input.input.data@.len() <= old(self).capacity(),
            corpus.wf(),
            corpus.files@.len() > 0,
            corpus.data_pages_end - corpus.data_pages_start == old(self).input_pages@.len(),
            randoms@.len() >= 17,
            old(self).current_input.mutation_count <= MAX_ITERATION_COUNT_PER_FILE,
        ensures
            final(self).mode == old(self).mode,
            final(self).pages_wf(),
            final(self).current_input.wf(),
            final(self).random_state_wf(),
            final(self).input_pages@.len() == old(self).input_pages@.len(),
            final(self).current_input.input.data@.len() <= final(self).capacity(),
            final(self).current_input.mutation_count <= MAX_ITERATION_COUNT_PER_FILE,
            if old(self).current_input.mutation_count == MAX_ITERATION_COUNT_PER_FILE || old(
                self,
            ).current_input.input.data@.len() == 0 {
                ({
                    let picked = corpus.files@[(randoms@[0] % corpus.files@.len() as u64) as int];
                    &&& final(self).current_input.input.data@ == picked.data@
                    &&& final(self).current_input.input.name@ == picked.name@
                    &&& final(self).current_input.mutation_count == 0
                    &&& final(self).buffer() == spec_padded(picked.data@, old(self).capacity())
                })
            } else {
                &&& final(self).current_input.input == old(self).current_input.input
                &&& final(self).current_input.mutation_count == old(
                    self,
                ).current_input.mutation_count + 1
            },
    {
        if self.current_input.is_done(self.mode) {
            // The budget for this input is spent: pick another, and run the
            // guest without mutation first as a baseline.
            let n_files = corpus.remaining_files_count();
            let input = corpus.select_file(randoms[0]);
            proof {
                let idx = (randoms@[0] % (corpus.files@.len() as u64)) as int;
                assert(corpus.files@.len() as u64 == n_files as u64);
                assert(randoms@[0] % (n_files as u64) < n_files as u64);
                assert(0 <= idx < corpus.files@.len());
                assert(corpus.files@[idx].data@.len() <= (corpus.data_pages_end
                    - corpus.data_pages_start) * 4096);
                assert(self.capacity() <= 0x1000_0000 * 4096);
            }
            self.copy_input_to_guest_memory(&input);
            self.current_input = MutatingInput::new(input);
        } else {
            self.byte_change_input(randoms);
            self.current_input.mutation_count = self.current_input.mutation_count + 1;
        }
    }
}

} // verus!
