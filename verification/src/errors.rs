use vstd::prelude::*;

verus! {

/// The failures the storage layer reports. All of them are fatal at this
/// layer: no retry or partial-write recovery exists here.
#[derive(Clone, Copy, Debug, PartialEq, Eq, Structural)]
pub enum MemoryError {
    /// A bit or level sequence does not have the length the page geometry
    /// demands.
    SizeMismatch,
    /// A program targeted a cell whose level is not 0; the caller must
    /// erase the block first.
    IllegalReprogram,
    /// A block or page index lies outside the configured geometry.
    OutOfRange,
}

} // verus!
