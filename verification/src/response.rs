//! The R1 response byte.

use vstd::prelude::*;

verus! {

/// R1 response bitset.
#[derive(Debug, Clone, Copy, PartialEq, Eq, Structural)]
pub struct R1Response(pub u8);

impl R1Response {
    /// In ready state.
    pub const READY_STATE: u8 = 0x00;

    /// In idle state.
    pub const IN_IDLE_STATE: u8 = 0x01;

    /// In idle state and illegal command.
    pub const IN_IDLE_AND_ILLEGAL: u8 = 0x05;

    /// Invalid mask.
    pub const INVALID_MASK: u8 = 0x80;

    /// A response byte is valid exactly when its high bit is clear.
    pub open spec fn spec_is_valid(&self) -> bool {
        self.0 & 0x80 == 0
    }

    /// Check if R1 response is valid.
    #[verifier::when_used_as_spec(spec_is_valid)]
    pub fn is_valid(&self) -> (valid: bool)
        ensures
            valid <==> self.0 & 0x80 == 0,
            valid <==> self.0 < 0x80,
    {
        let byte = self.0;
        assert((byte & 0x80 == 0) <==> byte < 0x80) by (bit_vector);
        (self.0 & Self::INVALID_MASK) == 0x00
    }
}

} // verus!
