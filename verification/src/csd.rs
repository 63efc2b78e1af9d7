//! The Card Specific Data register and the capacity it encodes.
//!
//! The register is 128 bits wide and arrives most significant byte first.
//! A field that occupies bits `msb..=lsb` has the value
//! `(register / 2^lsb) mod 2^(msb - lsb + 1)`.

use vstd::prelude::*;
use vstd::arithmetic::div_mod::lemma_mod_mod;
use vstd::arithmetic::power2::{lemma2_to64, lemma_pow2_adds, pow2};
use vstd::bits::{lemma_u128_shr_is_div, lemma_u64_low_bits_mask_is_mod, lemma_u64_shl_is_mul};
use vstd::std_specs::convert::FromSpecImpl;
use size::Size;
use crate::consts::BLOCK_SIZE_U64;

verus! {

/// Card Specific Data block.
pub type CsdData = [u8; 16];

/// `size::Size`, a size in bytes. It is carried through as it is: nothing of
/// what it holds is visible here.
#[verifier::external_type_specification]
#[verifier::external_body]
pub struct ExSize(Size);

/// The `Size` that `size::Size::from_bytes` makes of a byte count.
pub uninterp spec fn size_of_bytes(bytes: u64) -> Size;

/// Calls `size::Size::from_bytes`, which stores the byte count it is given.
/// The contract only names the result: the same count gives the same `Size`.
#[verifier::external_body]
fn size_from_bytes(bytes: u64) -> (size: Size)
    ensures
        size == size_of_bytes(bytes),
{
    Size::from_bytes(bytes)
}

/// Represents capacity provider.
pub trait CapacityProvider {
    /// The card capacity in bytes.
    spec fn capacity_bytes(&self) -> nat;

    /// The card capacity in 512-byte blocks.
    spec fn capacity_blocks(&self) -> nat;

    /// Returns the card capacity in bytes.
    fn card_capacity(&self) -> (size: Size)
        ensures
            self.capacity_bytes() <= u64::MAX,
            size == size_of_bytes(self.capacity_bytes() as u64),
    ;

    /// Returns the card capacity in 512-byte blocks.
    fn card_capacity_blocks(&self) -> (blocks: u64)
        ensures
            blocks == self.capacity_blocks(),
    ;
}

/// The number that `bytes` spell, most significant byte first.
pub open spec fn be_value(bytes: Seq<u8>) -> nat
    decreases bytes.len(),
{
    if bytes.len() == 0 {
        0
    } else {
        be_value(bytes.drop_last()) * 256 + bytes.last() as nat
    }
}

/// The value of the field that occupies bits `msb..=lsb` of `raw`.
pub open spec fn bit_field(raw: u128, msb: nat, lsb: nat) -> nat {
    (raw as nat / pow2(lsb)) % pow2((msb + 1 - lsb) as nat)
}

proof fn lemma_low_half(x: u128)
    by (bit_vector)
    ensures
        x & 0xFFFF_FFFF_FFFF_FFFF == x % 0x1_0000_0000_0000_0000,
        x & 0xFFFF_FFFF_FFFF_FFFF <= 0xFFFF_FFFF_FFFF_FFFF,
{
}

/// Extracts the field that occupies bits `msb..=lsb` of `raw`.
fn extract(raw: u128, msb: u32, lsb: u32) -> (value: u32)
    requires
        lsb <= msb < 128,
        msb - lsb < 32,
    ensures
        value == bit_field(raw, msb as nat, lsb as nat),
{
    let width: u32 = msb - lsb + 1;
    let ghost w = width as nat;
    let shifted: u128 = raw >> lsb;
    proof {
        lemma2_to64();
        lemma_u128_shr_is_div(raw, lsb as u128);
        lemma_low_half(shifted);
        lemma_u64_shl_is_mul(1, width as u64);
    }
    let low: u64 = (shifted & 0xFFFF_FFFF_FFFF_FFFF) as u64;
    let mask: u64 = (1u64 << width) - 1;
    proof {
        lemma_u64_low_bits_mask_is_mod(low, w);
        lemma_pow2_adds(w, (64 - w) as nat);
        lemma_mod_mod(shifted as int, pow2(w) as int, pow2((64 - w) as nat) as int);
    }
    (low & mask) as u32
}

proof fn lemma_append_byte(raw: u128, byte: u8, count: u32)
    by (bit_vector)
    requires
        count < 16,
        raw >> (8 * count) == 0,
    ensures
        (raw << 8) | (byte as u128) == raw * 256 + byte,
        count < 15 ==> ((raw << 8) | (byte as u128)) >> (8 * (count + 1)) == 0,
{
}

/// Reads the 16 bytes of a register, most significant byte first.
fn register_value(data: &CsdData) -> (raw: u128)
    ensures
        raw == be_value(data@),
{
    let mut raw: u128 = 0;
    let mut count: u32 = 0;
    assert(0u128 >> 0 == 0) by (bit_vector);
    while count < 16
        invariant
            count <= 16,
            raw == be_value(data@.take(count as int)),
            count < 16 ==> raw >> (8 * count) == 0,
        decreases 16 - count,
    {
        let byte = data[count as usize];
        proof {
            lemma_append_byte(raw, byte, count);
            let upto = data@.take(count as int + 1);
            assert(upto.drop_last() =~= data@.take(count as int));
        }
        raw = (raw << 8) | (byte as u128);
        count += 1;
    }
    assert(data@.take(16) =~= data@);
    raw
}

/// Card Specific Data, version 1.
#[derive(Debug, Clone, Copy, PartialEq, Eq)]
pub struct CsdV1(pub u128);

/// Card Specific Data, version 2.
#[derive(Debug, Clone, Copy, PartialEq, Eq)]
pub struct CsdV2(pub u128);

/// Card Specific Data, generic container.
#[derive(Debug, Clone, Copy, PartialEq, Eq)]
pub enum Csd {
    V1(CsdV1),
    V2(CsdV2),
}

impl From<CsdData> for CsdV1 {
    fn from(csd_data: CsdData) -> (csd: Self) {
        CsdV1(register_value(&csd_data))
    }
}

impl FromSpecImpl<CsdData> for CsdV1 {
    open spec fn obeys_from_spec() -> bool {
        true
    }

    open spec fn from_spec(csd_data: CsdData) -> Self {
        CsdV1(be_value(csd_data@) as u128)
    }
}

impl From<CsdData> for CsdV2 {
    fn from(csd_data: CsdData) -> (csd: Self) {
        CsdV2(register_value(&csd_data))
    }
}

impl FromSpecImpl<CsdData> for CsdV2 {
    open spec fn obeys_from_spec() -> bool {
        true
    }

    open spec fn from_spec(csd_data: CsdData) -> Self {
        CsdV2(be_value(csd_data@) as u128)
    }
}

impl CsdV1 {
    /// Maximum read data block length, as a power of two: bits 83..=80.
    pub open spec fn spec_read_block_length(&self) -> nat {
        bit_field(self.0, 83, 80)
    }

    /// Device size: bits 73..=62.
    pub open spec fn spec_device_size(&self) -> nat {
        bit_field(self.0, 73, 62)
    }

    /// Device size multiplier: bits 49..=47.
    pub open spec fn spec_device_size_multiplier(&self) -> nat {
        bit_field(self.0, 49, 47)
    }

    /// CSD structure version: bits 127..=126.
    pub fn version(&self) -> (value: u8)
        ensures
            value == bit_field(self.0, 127, 126),
            value < 0x4,
    {
        proof {
            lemma2_to64();
        }
        extract(self.0, 127, 126) as u8
    }

    /// Data read access time, asynchronous part: bits 119..=112.
    pub fn data_read_access_time1(&self) -> (value: u8)
        ensures
            value == bit_field(self.0, 119, 112),
            value < 0x100,
    {
        proof {
            lemma2_to64();
        }
        extract(self.0, 119, 112) as u8
    }

    /// Data read access time, clock dependent part: bits 111..=104.
    pub fn data_read_access_time2(&self) -> (value: u8)
        ensures
            value == bit_field(self.0, 111, 104),
            value < 0x100,
    {
        proof {
            lemma2_to64();
        }
        extract(self.0, 111, 104) as u8
    }

    /// Maximum data transfer rate: bits 103..=96.
    pub fn max_data_transfer_rate(&self) -> (value: u8)
        ensures
            value == bit_field(self.0, 103, 96),
            value < 0x100,
    {
        proof {
            lemma2_to64();
        }
        extract(self.0, 103, 96) as u8
    }

    /// Card command classes: bits 95..=84.
    pub fn card_command_classes(&self) -> (value: u16)
        ensures
            value == bit_field(self.0, 95, 84),
            value < 0x1000,
    {
        proof {
            lemma2_to64();
        }
        extract(self.0, 95, 84) as u16
    }

    /// Maximum read data block length, as a power of two: bits 83..=80.
    pub fn read_block_length(&self) -> (value: u8)
        ensures
            value == bit_field(self.0, 83, 80),
            value < 0x10,
    {
        proof {
            lemma2_to64();
        }
        extract(self.0, 83, 80) as u8
    }

    /// Whether partial blocks may be read: bit 79.
    pub fn read_partial_blocks(&self) -> (value: bool)
        ensures
            value == (bit_field(self.0, 79, 79) == 1),
    {
        extract(self.0, 79, 79) == 1
    }

    /// Whether a written block may cross a block boundary: bit 78.
    pub fn write_block_misalignment(&self) -> (value: bool)
        ensures
            value == (bit_field(self.0, 78, 78) == 1),
    {
        extract(self.0, 78, 78) == 1
    }

    /// Whether a read block may cross a block boundary: bit 77.
    pub fn read_block_misalignment(&self) -> (value: bool)
        ensures
            value == (bit_field(self.0, 77, 77) == 1),
    {
        extract(self.0, 77, 77) == 1
    }

    /// Whether the driver stage register is implemented: bit 76.
    pub fn dsr_implemented(&self) -> (value: bool)
        ensures
            value == (bit_field(self.0, 76, 76) == 1),
    {
        extract(self.0, 76, 76) == 1
    }

    /// Device size: bits 73..=62.
    pub fn device_size(&self) -> (value: u16)
        ensures
            value == bit_field(self.0, 73, 62),
            value < 0x1000,
    {
        proof {
            lemma2_to64();
        }
        extract(self.0, 73, 62) as u16
    }

    /// Maximum read current at the maximum supply voltage: bits 61..=59.
    pub fn max_read_current_vdd_max(&self) -> (value: u8)
        ensures
            value == bit_field(self.0, 61, 59),
            value < 0x8,
    {
        proof {
            lemma2_to64();
        }
        extract(self.0, 61, 59) as u8
    }

    /// Maximum read current at the minimum supply voltage: bits 58..=56.
    pub fn max_read_current_vdd_min(&self) -> (value: u8)
        ensures
            value == bit_field(self.0, 58, 56),
            value < 0x8,
    {
        proof {
            lemma2_to64();
        }
        extract(self.0, 58, 56) as u8
    }

    /// Maximum write current at the maximum supply voltage: bits 55..=53.
    pub fn max_write_current_vdd_max(&self) -> (value: u8)
        ensures
            value == bit_field(self.0, 55, 53),
            value < 0x8,
    {
        proof {
            lemma2_to64();
        }
        extract(self.0, 55, 53) as u8
    }

    /// Maximum write current at the minimum supply voltage: bits 52..=50.
    pub fn max_write_current_vdd_min(&self) -> (value: u8)
        ensures
            value == bit_field(self.0, 52, 50),
            value < 0x8,
    {
        proof {
            lemma2_to64();
        }
        extract(self.0, 52, 50) as u8
    }

    /// Device size multiplier: bits 49..=47.
    pub fn device_size_multiplier(&self) -> (value: u8)
        ensures
            value == bit_field(self.0, 49, 47),
            value < 0x8,
    {
        proof {
            lemma2_to64();
        }
        extract(self.0, 49, 47) as u8
    }

    /// Whether single blocks may be erased: bit 46.
    pub fn erase_single_block_enabled(&self) -> (value: bool)
        ensures
            value == (bit_field(self.0, 46, 46) == 1),
    {
        extract(self.0, 46, 46) == 1
    }

    /// Erase sector size: bits 45..=39.
    pub fn erase_sector_size(&self) -> (value: u8)
        ensures
            value == bit_field(self.0, 45, 39),
            value < 0x80,
    {
        proof {
            lemma2_to64();
        }
        extract(self.0, 45, 39) as u8
    }

    /// Write protect group size: bits 38..=32.
    pub fn write_protect_group_size(&self) -> (value: u8)
        ensures
            value == bit_field(self.0, 38, 32),
            value < 0x80,
    {
        proof {
            lemma2_to64();
        }
        extract(self.0, 38, 32) as u8
    }

    /// Whether write protect groups are enabled: bit 31.
    pub fn write_protect_group_enable(&self) -> (value: bool)
        ensures
            value == (bit_field(self.0, 31, 31) == 1),
    {
        extract(self.0, 31, 31) == 1
    }

    /// Write speed factor: bits 28..=26.
    pub fn write_speed_factor(&self) -> (value: u8)
        ensures
            value == bit_field(self.0, 28, 26),
            value < 0x8,
    {
        proof {
            lemma2_to64();
        }
        extract(self.0, 28, 26) as u8
    }

    /// Maximum write data block length, as a power of two: bits 25..=22.
    pub fn max_write_data_length(&self) -> (value: u8)
        ensures
            value == bit_field(self.0, 25, 22),
            value < 0x10,
    {
        proof {
            lemma2_to64();
        }
        extract(self.0, 25, 22) as u8
    }

    /// Whether partial blocks may be written: bit 21.
    pub fn write_partial_blocks_allowed(&self) -> (value: bool)
        ensures
            value == (bit_field(self.0, 21, 21) == 1),
    {
        extract(self.0, 21, 21) == 1
    }

    /// File format group: bit 15.
    pub fn file_format_group(&self) -> (value: bool)
        ensures
            value == (bit_field(self.0, 15, 15) == 1),
    {
        extract(self.0, 15, 15) == 1
    }

    /// Copy flag: bit 14.
    pub fn copy_flag(&self) -> (value: bool)
        ensures
            value == (bit_field(self.0, 14, 14) == 1),
    {
        extract(self.0, 14, 14) == 1
    }

    /// Whether the card is permanently write protected: bit 13.
    pub fn permanent_write_protection(&self) -> (value: bool)
        ensures
            value == (bit_field(self.0, 13, 13) == 1),
    {
        extract(self.0, 13, 13) == 1
    }

    /// Whether the card is temporarily write protected: bit 12.
    pub fn temporary_write_protection(&self) -> (value: bool)
        ensures
            value == (bit_field(self.0, 12, 12) == 1),
    {
        extract(self.0, 12, 12) == 1
    }

    /// File format: bits 11..=10.
    pub fn file_format(&self) -> (value: u8)
        ensures
            value == bit_field(self.0, 11, 10),
            value < 0x4,
    {
        proof {
            lemma2_to64();
        }
        extract(self.0, 11, 10) as u8
    }

    /// The CRC-7 of the register: bits 7..=1.
    pub fn crc(&self) -> (value: u8)
        ensures
            value == bit_field(self.0, 7, 1),
            value < 0x80,
    {
        proof {
            lemma2_to64();
        }
        extract(self.0, 7, 1) as u8
    }
}

impl CsdV2 {
    /// Device size: bits 69..=48.
    pub open spec fn spec_device_size(&self) -> nat {
        bit_field(self.0, 69, 48)
    }

    /// CSD structure version: bits 127..=126.
    pub fn version(&self) -> (value: u8)
        ensures
            value == bit_field(self.0, 127, 126),
            value < 0x4,
    {
        proof {
            lemma2_to64();
        }
        extract(self.0, 127, 126) as u8
    }

    /// Data read access time, asynchronous part: bits 119..=112.
    pub fn data_read_access_time1(&self) -> (value: u8)
        ensures
            value == bit_field(self.0, 119, 112),
            value < 0x100,
    {
        proof {
            lemma2_to64();
        }
        extract(self.0, 119, 112) as u8
    }

    /// Data read access time, clock dependent part: bits 111..=104.
    pub fn data_read_access_time2(&self) -> (value: u8)
        ensures
            value == bit_field(self.0, 111, 104),
            value < 0x100,
    {
        proof {
            lemma2_to64();
        }
        extract(self.0, 111, 104) as u8
    }

    /// Maximum data transfer rate: bits 103..=96.
    pub fn max_data_transfer_rate(&self) -> (value: u8)
        ensures
            value == bit_field(self.0, 103, 96),
            value < 0x100,
    {
        proof {
            lemma2_to64();
        }
        extract(self.0, 103, 96) as u8
    }

    /// Card command classes: bits 95..=84.
    pub fn card_command_classes(&self) -> (value: u16)
        ensures
            value == bit_field(self.0, 95, 84),
            value < 0x1000,
    {
        proof {
            lemma2_to64();
        }
        extract(self.0, 95, 84) as u16
    }

    /// Maximum read data block length, as a power of two: bits 83..=80.
    pub fn read_block_length(&self) -> (value: u8)
        ensures
            value == bit_field(self.0, 83, 80),
            value < 0x10,
    {
        proof {
            lemma2_to64();
        }
        extract(self.0, 83, 80) as u8
    }

    /// Whether partial blocks may be read: bit 79.
    pub fn read_partial_blocks(&self) -> (value: bool)
        ensures
            value == (bit_field(self.0, 79, 79) == 1),
    {
        extract(self.0, 79, 79) == 1
    }

    /// Whether a written block may cross a block boundary: bit 78.
    pub fn write_block_misalignment(&self) -> (value: bool)
        ensures
            value == (bit_field(self.0, 78, 78) == 1),
    {
        extract(self.0, 78, 78) == 1
    }

    /// Whether a read block may cross a block boundary: bit 77.
    pub fn read_block_misalignment(&self) -> (value: bool)
        ensures
            value == (bit_field(self.0, 77, 77) == 1),
    {
        extract(self.0, 77, 77) == 1
    }

    /// Whether the driver stage register is implemented: bit 76.
    pub fn dsr_implemented(&self) -> (value: bool)
        ensures
            value == (bit_field(self.0, 76, 76) == 1),
    {
        extract(self.0, 76, 76) == 1
    }

    /// Device size: bits 69..=48.
    pub fn device_size(&self) -> (value: u32)
        ensures
            value == bit_field(self.0, 69, 48),
            value < 0x400000,
    {
        proof {
            lemma2_to64();
        }
        extract(self.0, 69, 48)
    }

    /// Whether single blocks may be erased: bit 46.
    pub fn erase_single_block_enabled(&self) -> (value: bool)
        ensures
            value == (bit_field(self.0, 46, 46) == 1),
    {
        extract(self.0, 46, 46) == 1
    }

    /// Erase sector size: bits 45..=39.
    pub fn erase_sector_size(&self) -> (value: u8)
        ensures
            value == bit_field(self.0, 45, 39),
            value < 0x80,
    {
        proof {
            lemma2_to64();
        }
        extract(self.0, 45, 39) as u8
    }

    /// Write protect group size: bits 38..=32.
    pub fn write_protect_group_size(&self) -> (value: u8)
        ensures
            value == bit_field(self.0, 38, 32),
            value < 0x80,
    {
        proof {
            lemma2_to64();
        }
        extract(self.0, 38, 32) as u8
    }

    /// Whether write protect groups are enabled: bit 31.
    pub fn write_protect_group_enable(&self) -> (value: bool)
        ensures
            value == (bit_field(self.0, 31, 31) == 1),
    {
        extract(self.0, 31, 31) == 1
    }

    /// Write speed factor: bits 28..=26.
    pub fn write_speed_factor(&self) -> (value: u8)
        ensures
            value == bit_field(self.0, 28, 26),
            value < 0x8,
    {
        proof {
            lemma2_to64();
        }
        extract(self.0, 28, 26) as u8
    }

    /// Maximum write data block length, as a power of two: bits 25..=22.
    pub fn max_write_data_length(&self) -> (value: u8)
        ensures
            value == bit_field(self.0, 25, 22),
            value < 0x10,
    {
        proof {
            lemma2_to64();
        }
        extract(self.0, 25, 22) as u8
    }

    /// Whether partial blocks may be written: bit 21.
    pub fn write_partial_blocks_allowed(&self) -> (value: bool)
        ensures
            value == (bit_field(self.0, 21, 21) == 1),
    {
        extract(self.0, 21, 21) == 1
    }

    /// File format group: bit 15.
    pub fn file_format_group(&self) -> (value: bool)
        ensures
            value == (bit_field(self.0, 15, 15) == 1),
    {
        extract(self.0, 15, 15) == 1
    }

    /// Copy flag: bit 14.
    pub fn copy_flag(&self) -> (value: bool)
        ensures
            value == (bit_field(self.0, 14, 14) == 1),
    {
        extract(self.0, 14, 14) == 1
    }

    /// Whether the card is permanently write protected: bit 13.
    pub fn permanent_write_protection(&self) -> (value: bool)
        ensures
            value == (bit_field(self.0, 13, 13) == 1),
    {
        extract(self.0, 13, 13) == 1
    }

    /// Whether the card is temporarily write protected: bit 12.
    pub fn temporary_write_protection(&self) -> (value: bool)
        ensures
            value == (bit_field(self.0, 12, 12) == 1),
    {
        extract(self.0, 12, 12) == 1
    }

    /// File format: bits 11..=10.
    pub fn file_format(&self) -> (value: u8)
        ensures
            value == bit_field(self.0, 11, 10),
            value < 0x4,
    {
        proof {
            lemma2_to64();
        }
        extract(self.0, 11, 10) as u8
    }

    /// The CRC-7 of the register: bits 7..=1.
    pub fn crc(&self) -> (value: u8)
        ensures
            value == bit_field(self.0, 7, 1),
            value < 0x80,
    {
        proof {
            lemma2_to64();
        }
        extract(self.0, 7, 1) as u8
    }
}

impl CsdV1 {
    /// The exponent of the byte capacity:
    /// `device_size_multiplier + read_block_length + 2`.
    pub open spec fn spec_capacity_exponent(&self) -> nat {
        self.spec_device_size_multiplier() + self.spec_read_block_length() + 2
    }

    /// The byte capacity, `(device_size + 1) * 2^exponent`, computed without
    /// overflow: it is below `2^37`.
    fn capacity_in_bytes(&self) -> (bytes: u64)
        ensures
            bytes == (self.spec_device_size() + 1) * pow2(self.spec_capacity_exponent()),
            bytes <= 0x10_0000_0000,
    {
        let size: u64 = self.device_size() as u64 + 1;
        let exponent: u32 = self.device_size_multiplier() as u32 + self.read_block_length() as u32
            + 2;
        proof {
            lemma2_to64();
            assert(size * pow2(exponent as nat) <= 4096 * 0x100_0000) by (nonlinear_arith)
                requires
                    size <= 4096,
                    pow2(exponent as nat) <= 0x100_0000,
            ;
            lemma_u64_shl_is_mul(size, exponent as u64);
        }
        size << exponent
    }
}

impl CapacityProvider for CsdV1 {
    open spec fn capacity_bytes(&self) -> nat {
        (self.spec_device_size() + 1) * pow2(self.spec_capacity_exponent())
    }

    open spec fn capacity_blocks(&self) -> nat {
        self.capacity_bytes() / 512
    }

    fn card_capacity(&self) -> (size: Size) {
        size_from_bytes(self.capacity_in_bytes())
    }

    fn card_capacity_blocks(&self) -> (blocks: u64) {
        self.capacity_in_bytes() / BLOCK_SIZE_U64
    }
}

impl CsdV2 {
    /// The block capacity, `(device_size + 1) * 1024`, computed without
    /// overflow: it is at most `2^32`.
    fn capacity_in_blocks(&self) -> (blocks: u64)
        ensures
            blocks == (self.spec_device_size() + 1) * 1024,
            blocks <= 0x1_0000_0000,
    {
        (self.device_size() as u64 + 1) * 1024
    }
}

impl CapacityProvider for CsdV2 {
    open spec fn capacity_bytes(&self) -> nat {
        self.capacity_blocks() * 512
    }

    open spec fn capacity_blocks(&self) -> nat {
        (self.spec_device_size() + 1) * 1024
    }

    fn card_capacity(&self) -> (size: Size) {
        size_from_bytes(self.capacity_in_blocks() * BLOCK_SIZE_U64)
    }

    fn card_capacity_blocks(&self) -> (blocks: u64) {
        self.capacity_in_blocks()
    }
}

impl CapacityProvider for Csd {
    open spec fn capacity_bytes(&self) -> nat {
        match self {
            Csd::V1(csd) => csd.capacity_bytes(),
            Csd::V2(csd) => csd.capacity_bytes(),
        }
    }

    open spec fn capacity_blocks(&self) -> nat {
        match self {
            Csd::V1(csd) => csd.capacity_blocks(),
            Csd::V2(csd) => csd.capacity_blocks(),
        }
    }

    fn card_capacity(&self) -> (size: Size) {
        match self {
            Csd::V1(csd) => csd.card_capacity(),
            Csd::V2(csd) => csd.card_capacity(),
        }
    }

    fn card_capacity_blocks(&self) -> (blocks: u64) {
        match self {
            Csd::V1(csd) => csd.card_capacity_blocks(),
            Csd::V2(csd) => csd.card_capacity_blocks(),
        }
    }
}

/// A version 1 register whose multiplier and block length add up to at
/// least 7 holds
/// `(device_size + 1) << (device_size_multiplier + read_block_length - 7)`
/// blocks.
pub proof fn lemma_v1_blocks_by_shift(csd: CsdV1)
    requires
        csd.spec_device_size_multiplier() + csd.spec_read_block_length() >= 7,
    ensures
        csd.capacity_blocks() == (csd.spec_device_size() + 1) * pow2(
            (csd.spec_device_size_multiplier() + csd.spec_read_block_length() - 7) as nat,
        ),
{
    let size = csd.spec_device_size() + 1;
    let low = (csd.spec_device_size_multiplier() + csd.spec_read_block_length() - 7) as nat;
    lemma2_to64();
    assert((size * (pow2(low) * 512)) / 512 == size * pow2(low)) by (nonlinear_arith);
}

} // verus!
