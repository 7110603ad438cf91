//! A verified interpreter for a 14-opcode virtual machine over 32-bit words,
//! with a dynamically mappable segmented memory.
//!
//! `bitpack` extracts unsigned bit fields from instruction words, `machine`
//! holds the register file and the segmented memory with its free-identifier
//! pool, and `vm` fetches, decodes and dispatches instructions one step at a
//! time, handing every input and output byte to the caller.

pub mod bitpack;
pub mod machine;
pub mod vm;
