use vstd::prelude::*;

use crate::controller::CellState;
use crate::memory::Address;

verus! {

/// Collaborator contract for logical-occupancy tracking outside this
/// core: a controller above the device keeps one `CellState` per page,
/// independent of the raw analog content `Memory` stores. Designed, not
/// wired into the device model.
pub trait MemoryState {
    /// The tracked occupancy of every page of the given blocks.
    fn get_memory_state(&self, block_range: core::ops::Range<usize>) -> std::collections::HashMap<
        Address,
        CellState,
    >;

    /// Record one occupancy state for a range of pages of one block.
    fn set_memory_state(&mut self, block: usize, page_range: core::ops::Range<usize>, state: CellState);
}

} // verus!
