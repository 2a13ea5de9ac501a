//! Simulation of the physical storage layer of a multi-level-cell
//! flash-like device: a reversible codec from logical bit sequences to
//! per-cell analog levels, a page/block erase discipline with a wear
//! counter, a wear-dependent noise model applied at program time, and a
//! latency table indexed by cell density and operation kind.

pub mod block;
pub mod byte_encoder;
pub mod controller;
pub mod errors;
pub mod fluctuator;
pub mod memory;
pub mod memory_controller;
pub mod memory_state;
pub mod metric;
pub mod page;
