//! Wire-level constants of the SD protocol in SPI mode.

use vstd::prelude::*;

pub mod commands;
pub mod tokens;

verus! {

/// Size of one data block in bytes.
pub const BLOCK_SIZE: usize = 512;

/// Size of one data block in bytes, as a 64-bit value.
pub const BLOCK_SIZE_U64: u64 = 512;

} // verus!
