use sdmmc_spi::wire::command::frame_command;
use sdmmc_spi::wire::data::{check_block, check_data_response, crc_from_bytes, crc_to_bytes};
use sdmmc_spi::{crc16, crc7, Error, R1Response};

/// Bit-serial long division, the textbook way.
fn reference_crc(data: &[u8], width: u32, poly: u32) -> u32 {
    let top = 1u32 << (width - 1);
    let mask = (1u32 << width) - 1;
    let mut reg = 0u32;
    for byte in data {
        for bit in (0..8).rev() {
            let input = (u32::from(*byte) >> bit) & 1 == 1;
            let carry = reg & top != 0;
            reg = (reg << 1) & mask;
            if carry != input {
                reg ^= poly;
            }
        }
    }
    reg
}

/// A small deterministic byte generator for bulk comparisons.
fn pseudo_bytes(seed: u32, len: usize) -> Vec<u8> {
    let mut state = seed;
    (0..len)
        .map(|_| {
            state = state.wrapping_mul(1_664_525).wrapping_add(1_013_904_223);
            (state >> 24) as u8
        })
        .collect()
}

#[test]
fn crc7_of_go_idle_command() {
    assert_eq!(crc7(&[0x40, 0x00, 0x00, 0x00, 0x00]), 0x4A);
}

#[test]
fn crc7_of_send_if_cond_command() {
    assert_eq!(crc7(&[0x48, 0x00, 0x00, 0x01, 0xAA]), 0x43);
}

#[test]
fn crc7_of_nothing_is_zero() {
    assert_eq!(crc7(&[]), 0x00);
}

#[test]
fn crc7_stays_within_seven_bits() {
    for seed in 0..200u32 {
        let data = pseudo_bytes(seed, (seed % 9) as usize);
        assert!(crc7(&data) < 0x80, "crc7 of {:?}", data);
    }
}

#[test]
fn crc7_matches_long_division() {
    for seed in 0..500u32 {
        let data = pseudo_bytes(seed, (seed % 11) as usize);
        assert_eq!(u32::from(crc7(&data)), reference_crc(&data, 7, 0x09), "crc7 of {:?}", data);
    }
}

#[test]
fn crc16_of_zero_block() {
    assert_eq!(crc16(&[0x00; 512]), 0x0000);
}

#[test]
fn crc16_of_ones_block() {
    assert_eq!(crc16(&[0xFF; 512]), 0x7FA1);
}

#[test]
fn crc16_check_value() {
    assert_eq!(crc16(b"123456789"), 0x31C3);
}

#[test]
fn crc16_of_nothing_is_zero() {
    assert_eq!(crc16(&[]), 0x0000);
}

#[test]
fn crc16_matches_long_division() {
    for seed in 0..300u32 {
        let data = pseudo_bytes(seed, (seed % 40) as usize);
        assert_eq!(
            u32::from(crc16(&data)),
            reference_crc(&data, 16, 0x1021),
            "crc16 of {:?}",
            data
        );
    }
}

#[test]
fn crc16_of_block_with_its_checksum_is_zero() {
    let mut block = pseudo_bytes(7, 512);
    let (high, low) = crc_to_bytes(crc16(&block));
    block.push(high);
    block.push(low);
    assert_eq!(crc16(&block), 0x0000);
}

#[test]
fn r1_is_valid_exactly_when_high_bit_is_clear() {
    for byte in 0..=255u8 {
        assert_eq!(R1Response(byte).is_valid(), (byte & 0x80) == 0, "byte {:#04x}", byte);
    }
}

#[test]
fn r1_named_values() {
    assert_eq!(R1Response::READY_STATE, 0x00);
    assert_eq!(R1Response::IN_IDLE_STATE, 0x01);
    assert_eq!(R1Response::IN_IDLE_AND_ILLEGAL, 0x05);
    assert!(R1Response(R1Response::READY_STATE).is_valid());
    assert!(R1Response(R1Response::IN_IDLE_STATE).is_valid());
    assert!(R1Response(R1Response::IN_IDLE_AND_ILLEGAL).is_valid());
    assert!(!R1Response(0xFF).is_valid());
}

#[test]
fn frame_of_go_idle() {
    assert_eq!(frame_command(0x40, 0), [0x40, 0x00, 0x00, 0x00, 0x00, 0x95]);
}

#[test]
fn frame_of_send_if_cond() {
    assert_eq!(frame_command(0x48, 0x0000_01AA), [0x48, 0x00, 0x00, 0x01, 0xAA, 0x87]);
}

#[test]
fn frame_carries_argument_most_significant_byte_first() {
    let frame = frame_command(0x51, 0x1234_5678);
    assert_eq!(&frame[..5], &[0x51, 0x12, 0x34, 0x56, 0x78]);
}

#[test]
fn frame_ends_with_crc7_and_end_bit() {
    for seed in 0..200u32 {
        let bytes = pseudo_bytes(seed, 5);
        let cmd = 0x40 | (bytes[0] & 0x3F);
        let arg = u32::from_be_bytes([bytes[1], bytes[2], bytes[3], bytes[4]]);
        let frame = frame_command(cmd, arg);
        assert_eq!(frame[5], (crc7(&frame[..5]) << 1) | 0x01);
        assert_eq!(frame[5] & 0x01, 0x01);
    }
}

#[test]
fn checksum_bytes_are_big_endian() {
    assert_eq!(crc_from_bytes(0x7F, 0xA1), 0x7FA1);
    assert_eq!(crc_to_bytes(0x7FA1), (0x7F, 0xA1));
    assert_eq!(crc_from_bytes(0x00, 0xFF), 0x00FF);
    assert_eq!(crc_to_bytes(0xFF00), (0xFF, 0x00));
}

#[test]
fn block_with_matching_checksum_is_accepted() {
    let block = [0xFFu8; 512];
    assert_eq!(check_block::<(), ()>(&block, 0x7FA1), Ok(()));
}

#[test]
fn block_with_wrong_checksum_reports_both_values() {
    let block = [0xFFu8; 512];
    assert_eq!(check_block::<(), ()>(&block, 0x1234), Err(Error::CrcError(0x1234, 0x7FA1)));
}

#[test]
fn data_response_is_accepted_when_low_bits_are_00101() {
    for token in 0..=255u8 {
        let expected = if token & 0x1F == 0x05 { Ok(()) } else { Err(Error::WriteError) };
        assert_eq!(check_data_response::<(), ()>(token), expected, "token {:#04x}", token);
    }
}

#[test]
fn data_response_rejections() {
    assert_eq!(check_data_response::<(), ()>(0xE5), Ok(()));
    assert_eq!(check_data_response::<(), ()>(0x0B), Err(Error::WriteError));
    assert_eq!(check_data_response::<(), ()>(0x0D), Err(Error::WriteError));
    assert_eq!(check_data_response::<(), ()>(0xFF), Err(Error::WriteError));
}
