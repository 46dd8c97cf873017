//! Execution core of a 64-bit RISC-V simulator.
//!
//! - [`memory`]: disjoint regions of 64-bit cells, addressed by byte.
//! - [`opcode`]: decoding of instruction words.
//! - [`alu`]: integer semantics of the operations.
//! - [`executor`]: the hart and its fetch-decode-execute step.
//! - [`monitor`]: buffered writes, committed at step boundaries.
//! - [`loader`] and [`image`]: from an ELF file to initial memory.
//! - [`session`]: the driver that runs a hart to completion.
//! - [`theorems`]: laws relating the parts.
pub mod layout;
pub mod memory;
pub mod opcode;
pub mod alu;
pub mod executor;
pub mod monitor;
pub mod loader;
pub mod image;
pub mod session;
pub mod theorems;
