use vstd::prelude::*;

use crate::errors::MemoryError;
use crate::fluctuator::FluctuareT;

verus! {

/// Every cell of the sequence is erased (level 0).
pub open spec fn all_erased(cells: Seq<u8>) -> bool {
    forall|i: int| 0 <= i < cells.len() ==> cells[i] == 0
}

/// The smallest programmable unit: a fixed row of analog cell levels
/// plus a wear counter that counts completed erase cycles.
///
/// A page is created all-zero and moves between two states: erased (all
/// cells 0), from which `program` may write it once, and programmed,
/// from which only `reset` leads back. Its view is the sequence of
/// stored levels.
pub struct Page {
    pub cells: Vec<u8>,
    pub write_count: u32,
}

impl View for Page {
    type V = Seq<u8>;

    open spec fn view(&self) -> Seq<u8> {
        self.cells@
    }
}

impl Page {
    /// A freshly erased page: `page_size` cells, all 0, wear counter 0.
    pub fn new(page_size: usize) -> (p: Page)
        ensures
            p@.len() == page_size,
            all_erased(p@),
            p.write_count == 0,
    {
        let mut cells: Vec<u8> = Vec::new();
        let mut i: usize = 0;
        while i < page_size
            invariant
                i <= page_size,
                cells@.len() == i,
                all_erased(cells@),
            decreases page_size - i,
        {
            cells.push(0);
            i += 1;
        }
        Page { cells, write_count: 0 }
    }

    /// Program the whole page in one operation: each cell is driven to
    /// the fluctuated image of its intended level, taken at the current
    /// wear count. Succeeds exactly on an erased page given one intended
    /// level per cell; a non-erased cell is rejected with
    /// `IllegalReprogram`, a wrong data length with `SizeMismatch`, and
    /// a rejected program leaves the page untouched — no partial write.
    /// The wear counter never moves here.
    pub fn program<F: FluctuareT>(&mut self, data: &Vec<u8>, f: &F) -> (r: Result<
        (),
        MemoryError,
    >)
        ensures
            final(self).write_count == old(self).write_count,
            final(self)@.len() == old(self)@.len(),
            data@.len() != old(self)@.len() ==> (r matches Err(e) && e
                == MemoryError::SizeMismatch && *final(self) == *old(self)),
            data@.len() == old(self)@.len() && !all_erased(old(self)@) ==> (r matches Err(e) && e
                == MemoryError::IllegalReprogram && *final(self) == *old(self)),
            data@.len() == old(self)@.len() && all_erased(old(self)@) ==> (r matches Ok(u)
                && forall|i: int|
                    0 <= i < final(self)@.len() ==> f.fluctuate_spec(
                        old(self).write_count,
                        data@[i],
                        #[trigger] final(self)@[i],
                    )),
    {
        if data.len() != self.cells.len() {
            return Err(MemoryError::SizeMismatch);
        }
        let n = self.cells.len();
        let mut i: usize = 0;
        while i < n
            invariant
                *self == *old(self),
                data@.len() == self@.len(),
                n == self@.len(),
                i <= n,
                forall|j: int| 0 <= j < i ==> self@[j] == 0,
            decreases n - i,
        {
            if self.cells[i] != 0 {
                return Err(MemoryError::IllegalReprogram);
            }
            i += 1;
        }
        let mut programmed: Vec<u8> = Vec::new();
        let mut j: usize = 0;
        while j < n
            invariant
                *self == *old(self),
                n == data@.len(),
                j <= n,
                programmed@.len() == j,
                forall|k: int|
                    0 <= k < j ==> f.fluctuate_spec(
                        self.write_count,
                        data@[k],
                        #[trigger] programmed@[k],
                    ),
            decreases n - j,
        {
            let stored = f.fluctuate(self.write_count, data[j]);
            programmed.push(stored);
            j += 1;
        }
        self.cells = programmed;
        Ok(())
    }

    /// The raw stored levels, already fluctuated; no decoding.
    pub fn read(&self) -> (r: &Vec<u8>)
        ensures
            r@ == self@,
    {
        &self.cells
    }

    /// Erase the page: zero every cell and advance the wear counter by
    /// exactly one. Cannot fail.
    pub fn reset(&mut self)
        requires
            old(self).write_count < u32::MAX,
        ensures
            final(self)@.len() == old(self)@.len(),
            all_erased(final(self)@),
            final(self).write_count == old(self).write_count + 1,
    {
        let n = self.cells.len();
        let mut i: usize = 0;
        while i < n
            invariant
                n == self@.len(),
                self@.len() == old(self)@.len(),
                self.write_count == old(self).write_count,
                i <= n,
                forall|j: int| 0 <= j < i ==> self@[j] == 0,
            decreases n - i,
        {
            self.cells[i] = 0;
            i += 1;
        }
        self.write_count = self.write_count + 1;
    }
}

} // verus!
