//! The shared pool of input files, and where their mutated copies appear in
//! the guest physical address space.

use vstd::prelude::*;
use crate::page::{size_to_pages, spec_size_to_pages};

verus! {

/// A single input file that is used as a template to mutate from.
///
/// This is immutable once initialized, and not accessible from the guest.
/// The guest-visible, mutating copy of its contents is managed by the
/// mutation engine.
pub struct InputFile {
    /// The host-only-visible copy of immutable input data.
    pub data: Vec<u8>,
    /// The name of the input: a file name if it came from a corpus
    /// directory, otherwise a derived symbolic name.
    pub name: String,
}

impl InputFile {
    /// An equal, independently owned copy of this input.
    pub fn duplicate(&self) -> (r: InputFile)
        ensures
            r.data@ == self.data@,
            r.name@ == self.name@,
    {
        let mut data: Vec<u8> = Vec::new();
        let mut i: usize = 0;
        while i < self.data.len()
            invariant
                i <= self.data@.len(),
                data@ == self.data@.subrange(0, i as int),
            decreases self.data@.len() - i,
        {
            data.push(self.data[i]);
            proof {
                assert(data@ =~= self.data@.subrange(0, i + 1 as int));
            }
            i = i + 1;
        }
        proof {
            assert(data@ =~= self.data@);
        }
        InputFile { data, name: self.name.clone() }
    }
}

/// The error cases of building the corpus.
#[derive(Clone, Copy, Debug, PartialEq, Eq, Structural)]
pub enum CorpusError {
    /// The corpus directory held no input file at all.
    Empty,
}

/// The byte length of the largest of the first `n` input files.
pub open spec fn spec_max_input_len(files: Seq<InputFile>, n: int) -> int
    decreases n,
{
    if n <= 0 {
        0
    } else if files[n - 1].data@.len() > spec_max_input_len(files, n - 1) {
        files[n - 1].data@.len() as int
    } else {
        spec_max_input_len(files, n - 1)
    }
}

/// The pool of input files and the memory addresses at which their mutated
/// copies are exposed to the guest.
pub struct Corpus {
    /// The list of immutable input files; `consume_file` pops from the end.
    pub files: Vec<InputFile>,
    /// The base guest address of the input data pages. The guest registers
    /// are adjusted to refer to this region for input to parse.
    pub data_gva: u64,
    /// The first guest frame of the input data pages: one inaccessible
    /// guard frame above the last snapshot frame.
    pub data_pages_start: usize,
    /// One past the last guest frame of the input data pages.
    pub data_pages_end: usize,
}

impl Corpus {
    /// The guard frame sits between the snapshot and the window, and the
    /// window covers at least the largest input.
    pub open spec fn wf(&self) -> bool {
        &&& self.data_pages_start <= self.data_pages_end
        &&& self.data_gva == (self.data_pages_start as int) * 4096
        &&& forall|j: int|
            0 <= j < self.files@.len() ==> (#[trigger] self.files@[j].data@.len()) <= (
            self.data_pages_end - self.data_pages_start) * 4096
    }

    /// Creates the corpus from the input files read out of the corpus
    /// directory. The input data pages are placed right above the highest
    /// snapshot frame, separated by one inaccessible guard frame, and sized
    /// to fit the largest input.
    pub fn new(input_files: Vec<InputFile>, snapshot_page_count: usize) -> (r: Result<
        Corpus,
        CorpusError,
    >)
        requires
            snapshot_page_count <= 0xfff_ffff,
            forall|j: int|
                0 <= j < input_files@.len() ==> (#[trigger] input_files@[j].data@.len())
                    <= 0xfff_ffff,
        ensures
            match r {
                Ok(c) => {
                    &&& c.wf()
                    &&& input_files@.len() > 0
                    &&& c.files@ == input_files@
                    &&& c.data_pages_start == snapshot_page_count + 1
                    &&& c.data_pages_end == c.data_pages_start + spec_size_to_pages(
                        spec_max_input_len(input_files@, input_files@.len() as int),
                    )
                    &&& c.data_gva == (snapshot_page_count + 1) * 4096
                },
                Err(e) => {
                    &&& e == CorpusError::Empty
                    &&& input_files@.len() == 0
                },
            },
    {
        if input_files.len() == 0 {
            return Err(CorpusError::Empty);
        }
        // Out of all input files, find the biggest one, to reserve a window
        // large enough to fit it (and any other).
        let mut largest: usize = 0;
        let mut j: usize = 0;
        while j < input_files.len()
            invariant
                j <= input_files@.len(),
                largest == spec_max_input_len(input_files@, j as int),
                forall|a: int|
                    0 <= a < input_files@.len() ==> (#[trigger] input_files@[a].data@.len())
                        <= 0xfff_ffff,
                largest <= 0xfff_ffff,
            decreases input_files@.len() - j,
        {
            if input_files[j].data.len() > largest {
                largest = input_files[j].data.len();
            }
            j = j + 1;
        }
        let size_in_pages = size_to_pages(largest);
        proof {
            vstd::arithmetic::div_mod::lemma_fundamental_div_mod(largest as int, 4096);
            assert(spec_size_to_pages(largest as int) * 4096 >= largest);
        }
        let data_pages_start = snapshot_page_count + 1;
        let data_pages_end = data_pages_start + size_in_pages;
        let data_gva = (data_pages_start as u64) * 4096;
        let c = Corpus { files: input_files, data_gva, data_pages_start, data_pages_end };
        proof {
            lemma_max_input_len_bounds(c.files@, c.files@.len() as int);
            assert forall|a: int|
                0 <= a < c.files@.len() implies (#[trigger] c.files@[a].data@.len()) <= (
            c.data_pages_end - c.data_pages_start) * 4096 by {
                lemma_max_covers(c.files@, c.files@.len() as int, a);
                vstd::arithmetic::div_mod::lemma_fundamental_div_mod(largest as int, 4096);
            }
        }
        Ok(c)
    }

    /// The base of the guest address range that maps the mutated contents
    /// of input files.
    pub fn data_gva(&self) -> (r: u64)
        ensures
            r == self.data_gva,
    {
        self.data_gva
    }

    /// The range of guest frames that map the mutated contents of input
    /// files.
    pub fn data_pages(&self) -> (r: (usize, usize))
        ensures
            r.0 == self.data_pages_start,
            r.1 == self.data_pages_end,
    {
        (self.data_pages_start, self.data_pages_end)
    }

    /// The number of remaining input files.
    pub fn remaining_files_count(&self) -> (r: usize)
        ensures
            r == self.files@.len(),
    {
        self.files.len()
    }

    /// Picks up the next input file, removing it from the corpus; the pop
    /// order is last in, first out. Where no input file is left, the caller
    /// is one worker less until one appears: the active worker count is
    /// decremented and nothing is returned, and the last worker to observe
    /// the count at zero ends fuzzing.
    pub fn consume_file(&mut self, active_thread_count: &mut u64) -> (r: Option<InputFile>)
        requires
            *old(active_thread_count) > 0,
        ensures
            final(self).data_gva == old(self).data_gva,
            final(self).data_pages_start == old(self).data_pages_start,
            final(self).data_pages_end == old(self).data_pages_end,
            match r {
                Some(f) => {
                    &&& old(self).files@.len() > 0
                    &&& f == old(self).files@.last()
                    &&& final(self).files@ == old(self).files@.drop_last()
                    &&& *final(active_thread_count) == *old(active_thread_count)
                },
                None => {
                    &&& old(self).files@.len() == 0
                    &&& final(self).files@ == old(self).files@
                    &&& *final(active_thread_count) == *old(active_thread_count) - 1
                },
            },
    {
        *active_thread_count = *active_thread_count - 1;
        match self.files.pop() {
            Some(input_file) => {
                *active_thread_count = *active_thread_count + 1;
                proof {
                    assert(self.files@ =~= old(self).files@.drop_last());
                }
                Some(input_file)
            },
            None => None,
        }
    }

    /// Picks up an input file chosen by the given timestamp value, returning
    /// a copy and keeping the corpus unchanged.
    pub fn select_file(&self, tsc: u64) -> (r: InputFile)
        requires
            self.files@.len() > 0,
        ensures
            r.data@ == self.files@[(tsc % (self.files@.len() as u64)) as int].data@,
            r.name@ == self.files@[(tsc % (self.files@.len() as u64)) as int].name@,
    {
        let index = (tsc % (self.files.len() as u64)) as usize;
        self.files[index].duplicate()
    }

    /// Adds a new input file into the corpus.
    pub fn add_file(&mut self, input: InputFile)
        requires
            old(self).wf(),
            input.data@.len() <= (old(self).data_pages_end - old(self).data_pages_start) * 4096,
        ensures
            final(self).wf(),
            final(self).files@ == old(self).files@.push(input),
            final(self).data_gva == old(self).data_gva,
            final(self).data_pages_start == old(self).data_pages_start,
            final(self).data_pages_end == old(self).data_pages_end,
    {
        self.files.push(input);
    }
}

/// The largest input length is no smaller than any input's length.
proof fn lemma_max_covers(files: Seq<InputFile>, n: int, a: int)
    requires
        0 <= a < n <= files.len(),
    ensures
        files[a].data@.len() <= spec_max_input_len(files, n),
    decreases n,
{
    if a < n - 1 {
        lemma_max_covers(files, n - 1, a);
    }
}

/// The largest input length is non-negative.
proof fn lemma_max_input_len_bounds(files: Seq<InputFile>, n: int)
    requires
        0 <= n <= files.len(),
    ensures
        spec_max_input_len(files, n) >= 0,
    decreases n,
{
    if n > 0 {
        lemma_max_input_len_bounds(files, n - 1);
    }
}

/// With one worker active and the corpus empty, a consume observes the
/// active worker count reach zero: fuzzing is complete, and because the
/// count is decremented before waiting, no other worker can still add an
/// input unnoticed.
pub proof fn lemma_last_worker_detects_completion(
    pre: Corpus,
    post: Corpus,
    active_before: u64,
    active_after: u64,
    r: Option<InputFile>,
)
    requires
        pre.files@.len() == 0,
        active_before == 1,
        // what `consume_file` ensures of an empty corpus:
        r is None,
        post == pre,
        active_after == active_before - 1,
    ensures
        active_after == 0,
{
}

} // verus!
