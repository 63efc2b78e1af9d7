//! CRC-7 for command frames and CRC-16-CCITT for data blocks.
//!
//! Both checksums are specified as the remainder of a binary long division,
//! fed one message bit at a time, most significant bit first, starting from
//! a zero remainder.

use vstd::prelude::*;

verus! {

/// Bit `index` of `byte`, counting from the least significant bit.
pub open spec fn bit_of(byte: u8, index: nat) -> bool {
    (byte >> index) & 1 == 1
}

/// One step of the division by `x^7 + x^3 + 1`: shifts `bit` into the 7-bit
/// remainder `reg`.
pub open spec fn crc7_shift(reg: u8, bit: bool) -> u8 {
    let shifted = (reg << 1) & 0x7F;
    if (reg & 0x40 != 0) != bit {
        shifted ^ 0x09
    } else {
        shifted
    }
}

/// The remainder after the `count` most significant bits of `byte` have been
/// shifted into `reg`.
pub open spec fn crc7_bits(reg: u8, byte: u8, count: nat) -> u8
    decreases count,
{
    if count == 0 {
        reg
    } else {
        crc7_shift(crc7_bits(reg, byte, (count - 1) as nat), bit_of(byte, (8 - count) as nat))
    }
}

/// CRC-7 of `data`: polynomial 0x09, zero initial value.
pub open spec fn crc7_spec(data: Seq<u8>) -> u8
    decreases data.len(),
{
    if data.len() == 0 {
        0
    } else {
        crc7_bits(crc7_spec(data.drop_last()), data.last(), 8)
    }
}

/// One step of the division by `x^16 + x^12 + x^5 + 1`: shifts `bit` into
/// the 16-bit remainder `reg`.
pub open spec fn crc16_shift(reg: u16, bit: bool) -> u16 {
    let shifted = reg << 1;
    if (reg & 0x8000 != 0) != bit {
        shifted ^ 0x1021
    } else {
        shifted
    }
}

/// The remainder after the `count` most significant bits of `byte` have been
/// shifted into `reg`.
pub open spec fn crc16_bits(reg: u16, byte: u8, count: nat) -> u16
    decreases count,
{
    if count == 0 {
        reg
    } else {
        crc16_shift(crc16_bits(reg, byte, (count - 1) as nat), bit_of(byte, (8 - count) as nat))
    }
}

/// CRC-16-CCITT of `data`: polynomial 0x1021, zero initial value, no
/// reflection, no final XOR.
pub open spec fn crc16_spec(data: Seq<u8>) -> u16
    decreases data.len(),
{
    if data.len() == 0 {
        0
    } else {
        crc16_bits(crc16_spec(data.drop_last()), data.last(), 8)
    }
}

/// The byte-at-a-time update that `crc16` performs.
pub open spec fn crc16_update(reg: u16, byte: u8) -> u16 {
    let a = ((reg >> 8) & 0xFF) | (reg << 8);
    let b = a ^ (byte as u16);
    let c = b ^ ((b & 0xFF) >> 4);
    let d = c ^ (c << 12);
    d ^ ((d & 0xFF) << 5)
}

proof fn lemma_crc7_step(crc: u8, byte: u8, done: u8)
    by (bit_vector)
    requires
        done < 8,
    ensures
        ({
            let moved = crc << 1;
            let next = if (((byte << done) & 0x80) ^ (moved & 0x80)) != 0 {
                moved ^ 0x09
            } else {
                moved
            };
            next & 0x7F == crc7_shift(crc & 0x7F, (byte >> (7 - done) as u8) & 1 == 1)
        }),
        (byte << done) << 1 == byte << ((done + 1) as u8),
{
}

proof fn lemma_crc16_update(reg: u16, byte: u8)
    by (bit_vector)
    ensures
        crc16_update(reg, byte) == crc16_shift(
            crc16_shift(
                crc16_shift(
                    crc16_shift(
                        crc16_shift(
                            crc16_shift(
                                crc16_shift(
                                    crc16_shift(reg, (byte >> 7) & 1 == 1),
                                    (byte >> 6) & 1 == 1,
                                ),
                                (byte >> 5) & 1 == 1,
                            ),
                            (byte >> 4) & 1 == 1,
                        ),
                        (byte >> 3) & 1 == 1,
                    ),
                    (byte >> 2) & 1 == 1,
                ),
                (byte >> 1) & 1 == 1,
            ),
            (byte >> 0) & 1 == 1,
        ),
{
}

/// The byte-at-a-time update equals eight steps of the long division.
pub proof fn lemma_crc16_update_is_division(reg: u16, byte: u8)
    ensures
        crc16_update(reg, byte) == crc16_bits(reg, byte, 8),
{
    lemma_crc16_update(reg, byte);
    reveal_with_fuel(crc16_bits, 9);
}

proof fn lemma_crc7_shift_is_seven_bits(reg: u8, bit: bool)
    by (bit_vector)
    ensures
        crc7_shift(reg, bit) < 0x80,
{
}

/// A CRC-7 fits in seven bits.
pub proof fn lemma_crc7_is_seven_bits(data: Seq<u8>)
    ensures
        crc7_spec(data) < 0x80,
{
    if data.len() > 0 {
        lemma_crc7_shift_is_seven_bits(
            crc7_bits(crc7_spec(data.drop_last()), data.last(), 7),
            bit_of(data.last(), 0),
        );
    }
}

/// CRC-7 calculation.
pub fn crc7(data: &[u8]) -> (crc: u8)
    ensures
        crc == crc7_spec(data@),
        crc < 0x80,
{
    let mut crc: u8 = 0;
    let mut index: usize = 0;
    assert(0u8 & 0x7F == 0) by (bit_vector);
    while index < data.len()
        invariant
            index <= data.len(),
            crc & 0x7F == crc7_spec(data@.take(index as int)),
        decreases data.len() - index,
    {
        let first = data[index];
        let ghost before = crc & 0x7F;
        let mut byte = first;
        let mut done: u8 = 0;
        assert(first << 0 == first) by (bit_vector);
        while done < 8
            invariant
                done <= 8,
                byte == first << done,
                crc & 0x7F == crc7_bits(before, first, done as nat),
            decreases 8 - done,
        {
            proof {
                lemma_crc7_step(crc, first, done);
            }
            crc <<= 1;
            if ((byte & 0x80) ^ (crc & 0x80)) != 0 {
                crc ^= 0x09;
            }
            byte <<= 1;
            done += 1;
        }
        proof {
            let upto = data@.take(index as int + 1);
            assert(upto.drop_last() =~= data@.take(index as int));
        }
        index += 1;
    }
    assert(data@.take(data.len() as int) =~= data@);
    let ghost full = crc;
    assert(full & 0x7F < 0x80) by (bit_vector);
    crc & 0x7F
}

/// CRC-16 calculation.
pub fn crc16(data: &[u8]) -> (crc: u16)
    ensures
        crc == crc16_spec(data@),
{
    let mut crc: u16 = 0;
    let mut index: usize = 0;
    while index < data.len()
        invariant
            index <= data.len(),
            crc == crc16_spec(data@.take(index as int)),
        decreases data.len() - index,
    {
        let byte = data[index];
        proof {
            lemma_crc16_update_is_division(crc, byte);
            let upto = data@.take(index as int + 1);
            assert(upto.drop_last() =~= data@.take(index as int));
        }
        crc = ((crc >> 8) & 0xFF) | (crc << 8);
        crc ^= byte as u16;
        crc ^= (crc & 0xFF) >> 4;
        crc ^= crc << 12;
        crc ^= (crc & 0xFF) << 5;
        index += 1;
    }
    assert(data@.take(data.len() as int) =~= data@);
    crc
}

} // verus!
