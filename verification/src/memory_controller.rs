use vstd::prelude::*;

use crate::byte_encoder::ByteEncoder;
use crate::controller::CellType;
use crate::memory::{Address, Memory};
use crate::metric::MetricStorage;

verus! {

/// The intended facade composing codec, device and occupancy tracking
/// into logical reads and writes. Composing them is outside this core;
/// the contract is exposed for the layer above.
pub trait MemoryController {
    /// Encode the bits for the addressed page's density and program
    /// them there.
    fn write_bits(&mut self, bits: Vec<bool>, address: Address, cell_type: CellType);

    /// Read the addressed page's raw levels and decode them back to
    /// bits.
    fn read_bits(&self, address: Address, cell_type: CellType) -> Vec<bool>;
}

/// The capabilities a full controller would be built from: a codec, a
/// metric collector and one device.
pub struct MemoryControllerImpl<E: ByteEncoder, S: MetricStorage, M: Memory> {
    pub byte_encoder: E,
    pub metric_storage: S,
    pub memory: M,
}

} // verus!
