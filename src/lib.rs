//! Symbolic memory resolution and hint binding for a segmented-memory
//! virtual machine, with the two-array extraction hint and the run
//! harness's state machine.

pub mod scalar;
pub mod error;
pub mod memory;
pub mod names;
pub mod resolver;
pub mod hint;
pub mod registry;
pub mod harness;
pub mod output;
