//! The status bitset of the device.

use vstd::prelude::*;

verus! {

/// Flags of [`Status`].
#[derive(Debug, Clone, Copy, PartialEq, Eq, Structural)]
pub enum StatusFlag {
    /// Drive not initialized.
    NotInitialized,
    /// Drive is write protected.
    WriteProtected,
    /// Error occured.
    ErrorOccured,
}

impl StatusFlag {
    /// The bit that stands for this flag.
    pub open spec fn spec_bits(self) -> u8 {
        match self {
            StatusFlag::NotInitialized => 0x01,
            StatusFlag::WriteProtected => 0x02,
            StatusFlag::ErrorOccured => 0x04,
        }
    }

    /// The bit that stands for this flag.
    #[verifier::when_used_as_spec(spec_bits)]
    pub fn bits(self) -> (bits: u8)
        ensures
            bits == self.spec_bits(),
    {
        match self {
            StatusFlag::NotInitialized => 0x01,
            StatusFlag::WriteProtected => 0x02,
            StatusFlag::ErrorOccured => 0x04,
        }
    }
}

/// Flagset of device status.
#[derive(Debug, Clone, Copy, PartialEq, Eq, Structural)]
pub struct Status {
    bits: u8,
}

impl View for Status {
    type V = Set<StatusFlag>;

    /// The flags that are set: those whose bit is in the bit pattern.
    open spec fn view(&self) -> Set<StatusFlag> {
        Set::new(|flag: StatusFlag| self.spec_bits() & flag.spec_bits() != 0)
    }
}

proof fn lemma_flag_bits()
    by (bit_vector)
    ensures
        0x00u8 & 0x01 == 0 && 0x00u8 & 0x02 == 0 && 0x00u8 & 0x04 == 0,
        0x01u8 & 0x01 != 0 && 0x01u8 & 0x02 == 0 && 0x01u8 & 0x04 == 0,
        0x05u8 & 0x01 != 0 && 0x05u8 & 0x02 == 0 && 0x05u8 & 0x04 != 0,
{
}

impl Default for Status {
    /// No flag is set.
    fn default() -> (status: Status)
        ensures
            status@ == Set::<StatusFlag>::empty(),
            status.spec_bits() == 0x00,
    {
        Status::ready()
    }
}

impl Status {
    /// The bit pattern of the flags that are set.
    pub closed spec fn spec_bits(&self) -> u8 {
        self.bits
    }

    /// No flag is set: the device is ready.
    pub fn ready() -> (status: Status)
        ensures
            status@ == Set::<StatusFlag>::empty(),
            status.spec_bits() == 0x00,
    {
        proof {
            lemma_flag_bits();
        }
        Status { bits: 0x00 }
    }

    /// Only `NotInitialized` is set.
    pub fn not_initialized() -> (status: Status)
        ensures
            status@ == set![StatusFlag::NotInitialized],
            status.spec_bits() == 0x01,
    {
        proof {
            lemma_flag_bits();
        }
        Status { bits: 0x01 }
    }

    /// `NotInitialized` and `ErrorOccured` are set.
    pub fn failed() -> (status: Status)
        ensures
            status@ == set![StatusFlag::NotInitialized, StatusFlag::ErrorOccured],
            status.spec_bits() == 0x05,
    {
        proof {
            lemma_flag_bits();
        }
        Status { bits: 0x05 }
    }

    /// Whether `flag` is set.
    pub fn contains(&self, flag: StatusFlag) -> (set: bool)
        ensures
            set == self@.contains(flag),
    {
        (self.bits & flag.bits()) != 0
    }

    /// The bit pattern of the flags that are set: `NotInitialized` is 0x01,
    /// `WriteProtected` 0x02 and `ErrorOccured` 0x04.
    #[verifier::when_used_as_spec(spec_bits)]
    pub fn bits(&self) -> (bits: u8)
        ensures
            bits == self.spec_bits(),
    {
        self.bits
    }
}

} // verus!
