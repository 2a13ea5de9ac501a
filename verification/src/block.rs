use vstd::prelude::*;

use crate::errors::MemoryError;
use crate::fluctuator::FluctuareT;
use crate::page::{all_erased, Page};

verus! {

/// The smallest erasable unit: a fixed row of pages. Programming and
/// reading address one page; erasing always covers the whole block —
/// a single page cannot be erased in isolation. Its view is the
/// sequence of its pages.
pub struct Block {
    pub pages: Vec<Page>,
}

impl View for Block {
    type V = Seq<Page>;

    open spec fn view(&self) -> Seq<Page> {
        self.pages@
    }
}

impl Block {
    /// A fresh block: `pages_per_block` pages of `page_size` cells, all
    /// erased, wear counters 0.
    pub fn new(page_size: usize, pages_per_block: usize) -> (b: Block)
        ensures
            b@.len() == pages_per_block,
            forall|p: int|
                0 <= p < pages_per_block ==> (#[trigger] b@[p])@.len() == page_size && all_erased(
                    b@[p]@,
                ) && b@[p].write_count == 0,
    {
        let mut pages: Vec<Page> = Vec::new();
        let mut i: usize = 0;
        while i < pages_per_block
            invariant
                i <= pages_per_block,
                pages@.len() == i,
                forall|p: int|
                    0 <= p < i ==> (#[trigger] pages@[p])@.len() == page_size && all_erased(
                        pages@[p]@,
                    ) && pages@[p].write_count == 0,
            decreases pages_per_block - i,
        {
            pages.push(Page::new(page_size));
            i += 1;
        }
        Block { pages }
    }

    /// The raw levels of one page; an index outside the block is
    /// rejected with `OutOfRange`.
    pub fn read(&self, page_id: usize) -> (r: Result<&Vec<u8>, MemoryError>)
        ensures
            page_id < self@.len() ==> (r matches Ok(levels) && levels@ == self@[page_id as int]@),
            page_id >= self@.len() ==> (r matches Err(e) && e == MemoryError::OutOfRange),
    {
        if page_id < self.pages.len() {
            Ok(self.pages[page_id].read())
        } else {
            Err(MemoryError::OutOfRange)
        }
    }

    /// Program one page of the block, under the given noise model. The
    /// addressed page is written as `Page::program` describes; every
    /// other page keeps its state. A failure leaves the whole block
    /// untouched.
    pub fn program<F: FluctuareT>(&mut self, page_id: usize, data: &Vec<u8>, f: &F) -> (r: Result<
        (),
        MemoryError,
    >)
        ensures
            final(self)@.len() == old(self)@.len(),
            page_id >= old(self)@.len() ==> (r matches Err(e) && e == MemoryError::OutOfRange
                && final(self)@ == old(self)@),
            page_id < old(self)@.len() ==> (forall|p: int|
                0 <= p < old(self)@.len() && p != page_id ==> final(self)@[p] == old(self)@[p]),
            page_id < old(self)@.len() ==> final(self)@[page_id as int].write_count == old(
                self,
            )@[page_id as int].write_count && final(self)@[page_id as int]@.len() == old(
                self,
            )@[page_id as int]@.len(),
            page_id < old(self)@.len() && data@.len() != old(self)@[page_id as int]@.len() ==> (
            r matches Err(e) && e == MemoryError::SizeMismatch && final(self)@ == old(self)@),
            page_id < old(self)@.len() && data@.len() == old(self)@[page_id as int]@.len()
                && !all_erased(old(self)@[page_id as int]@) ==> (r matches Err(e) && e
                == MemoryError::IllegalReprogram && final(self)@ == old(self)@),
            page_id < old(self)@.len() && data@.len() == old(self)@[page_id as int]@.len()
                && all_erased(old(self)@[page_id as int]@) ==> (r matches Ok(u) && forall|i: int|
                0 <= i < data@.len() ==> f.fluctuate_spec(
                    old(self)@[page_id as int].write_count,
                    data@[i],
                    #[trigger] final(self)@[page_id as int]@[i],
                )),
    {
        if page_id >= self.pages.len() {
            return Err(MemoryError::OutOfRange);
        }
        let page = &mut self.pages[page_id];
        let r = page.program(data, f);
        proof {
            if r is Err {
                assert(self@ =~= old(self)@);
            }
        }
        r
    }

    /// Erase the whole block: zero every cell of every page and advance
    /// each page's wear counter by exactly one.
    pub fn reset(&mut self)
        requires
            forall|p: int|
                0 <= p < old(self)@.len() ==> (#[trigger] old(self)@[p]).write_count < u32::MAX,
        ensures
            final(self)@.len() == old(self)@.len(),
            forall|p: int|
                0 <= p < old(self)@.len() ==> (#[trigger] final(self)@[p])@.len() == old(
                    self,
                )@[p]@.len() && all_erased(final(self)@[p]@) && final(self)@[p].write_count == old(
                    self,
                )@[p].write_count + 1,
    {
        let n = self.pages.len();
        let mut i: usize = 0;
        while i < n
            invariant
                n == self@.len(),
                self@.len() == old(self)@.len(),
                i <= n,
                forall|p: int|
                    0 <= p < n ==> (#[trigger] old(self)@[p]).write_count < u32::MAX,
                forall|p: int| i <= p < n ==> self@[p] == old(self)@[p],
                forall|p: int|
                    0 <= p < i ==> (#[trigger] self@[p])@.len() == old(self)@[p]@.len()
                        && all_erased(self@[p]@) && self@[p].write_count == old(
                        self,
                    )@[p].write_count + 1,
            decreases n - i,
        {
            let page = &mut self.pages[i];
            page.reset();
            i += 1;
        }
    }
}

} // verus!
