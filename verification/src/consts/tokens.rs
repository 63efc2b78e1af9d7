//! Single-byte markers of the data phase and of register responses.

use vstd::prelude::*;

verus! {

/// The bus is idle: the card is available, or no token has arrived yet.
pub const AVAILABLE: u8 = 0xFF;

/// Start data token for read or write single block.
pub const DATA_START_BLOCK: u8 = 0xFE;

/// Stop token for write multiple blocks.
pub const STOP_TRAN: u8 = 0xFD;

/// Start data token for write multiple blocks.
pub const WRITE_MULTIPLE: u8 = 0xFC;

/// Mask for data response tokens after a write block operation.
pub const DATA_RES_MASK: u8 = 0x1F;

/// Write data accepted token.
pub const DATA_RES_ACCEPTED: u8 = 0x05;

/// Check pattern echoed in the last byte of the CMD8 response.
pub const CMD8_STATUS: u8 = 0xAA;

/// Card capacity status bit in the first byte of the OCR.
pub const CMD58_OCR: u8 = 0x40;

} // verus!
