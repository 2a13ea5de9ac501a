use vstd::prelude::*;

use crate::block::Block;
use crate::errors::MemoryError;
use crate::fluctuator::FluctuareT;
use crate::page::all_erased;

verus! {

/// One page's address: block index, then page index within the block.
/// A pure lookup key, never a mutable handle.
#[derive(Clone, Copy, Debug, PartialEq, Eq, Hash, Structural)]
pub struct Address(pub usize, pub usize);

/// The device interface a controller above this layer programs against:
/// address-keyed raw reads and programs, block-granularity erase. The
/// concrete device of this crate is `MemoryImpl`.
pub trait Memory {
    /// Whether the wear counters of the addressed block still have
    /// headroom for one more erase cycle.
    spec fn reset_wear_ok(&self, block_id: usize) -> bool;

    /// The raw, already-fluctuated levels of the addressed page.
    fn read(&self, address: Address) -> Result<&Vec<u8>, MemoryError>;

    /// Program the addressed page with one intended level per cell.
    fn program(&mut self, address: Address, data: &Vec<u8>) -> Result<(), MemoryError>;

    /// Erase the whole addressed block.
    fn reset(&mut self, block_id: usize) -> Result<(), MemoryError>
        requires
            old(self).reset_wear_ok(block_id),
    ;
}

/// The device: a fixed row of blocks and exactly one shared noise
/// model — one wear model per device. Its view is the sequence of its
/// blocks.
pub struct MemoryImpl<F: FluctuareT> {
    pub fluctuator: F,
    pub blocks: Vec<Block>,
}

impl<F: FluctuareT> View for MemoryImpl<F> {
    type V = Seq<Block>;

    open spec fn view(&self) -> Seq<Block> {
        self.blocks@
    }
}

impl<F: FluctuareT> MemoryImpl<F> {
    /// Does the address name a page of this device?
    pub open spec fn in_range(&self, address: Address) -> bool {
        address.0 < self@.len() && address.1 < self@[address.0 as int]@.len()
    }

    /// The page an in-range address names.
    pub open spec fn spec_page(&self, address: Address) -> crate::page::Page {
        self@[address.0 as int]@[address.1 as int]
    }

    /// A fresh device: `blocks_amount` blocks of `pages_per_block`
    /// pages of `page_size` cells, all erased, wear counters 0, driven
    /// by the one given fluctuator.
    pub fn new(fluctuator: F, blocks_amount: usize, pages_per_block: usize, page_size: usize) -> (m:
        MemoryImpl<F>)
        ensures
            m.fluctuator == fluctuator,
            m@.len() == blocks_amount,
            forall|b: int| 0 <= b < blocks_amount ==> (#[trigger] m@[b])@.len() == pages_per_block,
            forall|b: int, p: int|
                0 <= b < blocks_amount && 0 <= p < pages_per_block ==> (#[trigger] m@[b]@[p])@.len()
                    == page_size && all_erased(m@[b]@[p]@) && m@[b]@[p].write_count == 0,
    {
        let mut blocks: Vec<Block> = Vec::new();
        let mut i: usize = 0;
        while i < blocks_amount
            invariant
                i <= blocks_amount,
                blocks@.len() == i,
                forall|b: int| 0 <= b < i ==> (#[trigger] blocks@[b])@.len() == pages_per_block,
                forall|b: int, p: int|
                    0 <= b < i && 0 <= p < pages_per_block ==> (#[trigger] blocks@[b]@[p])@.len()
                        == page_size && all_erased(blocks@[b]@[p]@) && blocks@[b]@[p].write_count
                        == 0,
            decreases blocks_amount - i,
        {
            blocks.push(Block::new(page_size, pages_per_block));
            i += 1;
        }
        MemoryImpl { fluctuator, blocks }
    }
}

impl<F: FluctuareT> Memory for MemoryImpl<F> {
    /// Every page of the addressed block can take one more erase cycle
    /// (an out-of-range block is rejected before any wear moves).
    open spec fn reset_wear_ok(&self, block_id: usize) -> bool {
        block_id < self@.len() ==> forall|p: int|
            0 <= p < self@[block_id as int]@.len() ==> (#[trigger] self@[block_id
                as int]@[p]).write_count < u32::MAX
    }

    /// The raw levels of the addressed page; an address outside the
    /// configured geometry is rejected with `OutOfRange`.
    fn read(&self, address: Address) -> (r: Result<&Vec<u8>, MemoryError>)
        ensures
            self.in_range(address) ==> (r matches Ok(levels) && levels@ == self@[address.0
                as int]@[address.1 as int]@),
            !self.in_range(address) ==> (r matches Err(e) && e == MemoryError::OutOfRange),
    {
        let Address(block_id, page_id) = address;
        if block_id >= self.blocks.len() {
            return Err(MemoryError::OutOfRange);
        }
        self.blocks[block_id].read(page_id)
    }

    /// Program the addressed page through the device's shared
    /// fluctuator, at the page's current wear count. Succeeds exactly
    /// on an in-range address, an erased page and one intended level
    /// per cell; any failure leaves every page of the device untouched.
    fn program(&mut self, address: Address, data: &Vec<u8>) -> (r: Result<(), MemoryError>)
        ensures
            final(self).fluctuator == old(self).fluctuator,
            final(self)@.len() == old(self)@.len(),
            r matches Err(e) ==> forall|b: int|
                0 <= b < old(self)@.len() ==> (#[trigger] final(self)@[b])@ == old(self)@[b]@,
            !old(self).in_range(address) ==> (r matches Err(e) && e == MemoryError::OutOfRange),
            old(self).in_range(address) && data@.len() != old(self).spec_page(address)@.len() ==> (
            r matches Err(e) && e == MemoryError::SizeMismatch),
            old(self).in_range(address) && data@.len() == old(self).spec_page(address)@.len()
                && !all_erased(old(self).spec_page(address)@) ==> (r matches Err(e) && e
                == MemoryError::IllegalReprogram),
            old(self).in_range(address) && data@.len() == old(self).spec_page(address)@.len()
                && all_erased(old(self).spec_page(address)@) ==> (r matches Ok(u) && (forall|b: int|
                0 <= b < old(self)@.len() && b != address.0 ==> final(self)@[b] == old(self)@[b])
                && (forall|p: int|
                0 <= p < old(self)@[address.0 as int]@.len() && p != address.1 ==> final(self)@[address.0 as int]@[p] == old(self)@[address.0 as int]@[p]) && final(self).spec_page(address).write_count == old(self).spec_page(address).write_count && final(self).spec_page(address)@.len() == data@.len() && (forall|i: int|
                0 <= i < data@.len() ==> old(self).fluctuator.fluctuate_spec(
                    old(self).spec_page(address).write_count,
                    data@[i],
                    #[trigger] final(self).spec_page(address)@[i],
                ))),
    {
        let Address(block_id, page_id) = address;
        if block_id >= self.blocks.len() {
            return Err(MemoryError::OutOfRange);
        }
        let blk = &mut self.blocks[block_id];
        let r = blk.program(page_id, data, &self.fluctuator);
        proof {
            if r is Err {
                assert forall|b: int| 0 <= b < old(self)@.len() implies (#[trigger] self@[b])@
                    == old(self)@[b]@ by {
                }
            }
        }
        r
    }

    /// Erase the whole addressed block: zero every cell of each of its
    /// pages and advance each page's wear counter by exactly one. Pages
    /// of other blocks are untouched. An out-of-range block index is
    /// rejected with `OutOfRange`.
    fn reset(&mut self, block_id: usize) -> (r: Result<(), MemoryError>)
        ensures
            final(self).fluctuator == old(self).fluctuator,
            final(self)@.len() == old(self)@.len(),
            block_id >= old(self)@.len() ==> (r matches Err(e) && e == MemoryError::OutOfRange
                && forall|b: int|
                    0 <= b < old(self)@.len() ==> (#[trigger] final(self)@[b])@ == old(self)@[b]@),
            block_id < old(self)@.len() ==> (r matches Ok(u) && (forall|b: int|
                0 <= b < old(self)@.len() && b != block_id ==> final(self)@[b] == old(self)@[b])
                && final(self)@[block_id as int]@.len() == old(self)@[block_id as int]@.len() && (
            forall|p: int|
                0 <= p < old(self)@[block_id as int]@.len() ==> (#[trigger] final(self)@[block_id
                    as int]@[p])@.len() == old(self)@[block_id as int]@[p]@.len() && all_erased(
                    final(self)@[block_id as int]@[p]@,
                ) && final(self)@[block_id as int]@[p].write_count == old(self)@[block_id
                    as int]@[p].write_count + 1)),
    {
        if block_id >= self.blocks.len() {
            return Err(MemoryError::OutOfRange);
        }
        let blk = &mut self.blocks[block_id];
        blk.reset();
        Ok(())
    }
}

} // verus!
