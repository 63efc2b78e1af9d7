use std::cell::RefCell;
use std::collections::VecDeque;
use std::rc::Rc;

use sdmmc_spi::wire::command::frame_command;
use sdmmc_spi::{
    crc16, crc7, CapacityProvider, CardType, ChipSelect, Csd, DefaultSdMmcSpiConfig, DiskioError,
    Error, IoctlCmd, R1Response, SdMmcSpi, SdMmcSpiConfig, SpiBus, StatusFlag,
};

const CMD0: u8 = 0x40;
const CMD8: u8 = 0x48;
const CMD9: u8 = 0x49;
const CMD12: u8 = 0x4C;
const CMD13: u8 = 0x4D;
const CMD17: u8 = 0x51;
const CMD18: u8 = 0x52;
const CMD24: u8 = 0x58;
const CMD25: u8 = 0x59;
const CMD41: u8 = 0x69;
const CMD55: u8 = 0x77;
const CMD58: u8 = 0x7A;
const CMD59: u8 = 0x7B;
const ACMD41: u8 = 0xE9;

#[derive(Debug, Clone, Copy, PartialEq, Eq)]
struct BusFault(u8);

#[derive(Debug, Clone, Copy, PartialEq, Eq)]
struct LineFault(u8);

#[derive(Debug, Clone, Copy, PartialEq, Eq)]
enum Seen {
    Byte(u8),
    Select,
    Release,
}

/// What both mock lines share: the script of the card's answers and the
/// record of what the driver did.
#[derive(Default)]
struct Wire {
    miso: VecDeque<u8>,
    seen: Vec<Seen>,
    transfers: usize,
    fail_transfer: Option<usize>,
    fail_select: bool,
    fail_release: bool,
}

struct ScriptedSpi(Rc<RefCell<Wire>>);

impl SpiBus for ScriptedSpi {
    type Error = BusFault;

    fn transfer(&mut self, byte: u8) -> Result<u8, BusFault> {
        let mut wire = self.0.borrow_mut();
        wire.seen.push(Seen::Byte(byte));
        let index = wire.transfers;
        wire.transfers += 1;
        let answer = wire.miso.pop_front().unwrap_or(0xFF);
        if wire.fail_transfer == Some(index) {
            Err(BusFault(7))
        } else {
            Ok(answer)
        }
    }
}

struct ScriptedCs(Rc<RefCell<Wire>>);

impl ChipSelect for ScriptedCs {
    type Error = LineFault;

    fn on(&mut self) -> Result<(), LineFault> {
        let mut wire = self.0.borrow_mut();
        wire.seen.push(Seen::Select);
        if wire.fail_select {
            Err(LineFault(1))
        } else {
            Ok(())
        }
    }

    fn off(&mut self) -> Result<(), LineFault> {
        let mut wire = self.0.borrow_mut();
        wire.seen.push(Seen::Release);
        if wire.fail_release {
            Err(LineFault(2))
        } else {
            Ok(())
        }
    }
}

type Device = SdMmcSpi<ScriptedSpi, ScriptedCs, DefaultSdMmcSpiConfig>;
type Failure = DiskioError<Error<BusFault, LineFault>>;

/// A conversation as it is meant to go: the card's side as the script of
/// the mock, the driver's side as the record to compare with.
#[derive(Default, Clone)]
struct Talk {
    miso: Vec<u8>,
    seen: Vec<Seen>,
}

impl Talk {
    fn select(mut self) -> Self {
        self.seen.push(Seen::Select);
        self
    }

    fn release(mut self) -> Self {
        self.seen.push(Seen::Release);
        self
    }

    /// The driver clocks 0xFF and the card answers `bytes`.
    fn receive(mut self, bytes: &[u8]) -> Self {
        for byte in bytes {
            self.miso.push(*byte);
            self.seen.push(Seen::Byte(0xFF));
        }
        self
    }

    /// The driver sends `bytes` and the card keeps the line idle.
    fn send(mut self, bytes: &[u8]) -> Self {
        for byte in bytes {
            self.miso.push(0xFF);
            self.seen.push(Seen::Byte(*byte));
        }
        self
    }

    /// The card is available at once, takes the frame and answers `r1`.
    fn command(self, cmd: u8, arg: u32, r1: u8) -> Self {
        self.receive(&[0xFF]).send(&frame_command(cmd, arg)).receive(&[r1])
    }

    fn app_command(self, cmd: u8, arg: u32, r1: u8) -> Self {
        self.command(CMD55, 0, 0x01).command(cmd, arg, r1)
    }

    /// The card sends a block: start token, payload, CRC-16.
    fn block_from_card(self, payload: &[u8]) -> Self {
        let crc = crc16(payload);
        self.receive(&[0xFE]).receive(payload).receive(&[(crc >> 8) as u8, crc as u8])
    }

    /// The driver sends a block and the card answers `response`.
    fn block_to_card(self, token: u8, payload: &[u8], response: u8) -> Self {
        let crc = crc16(payload);
        self.send(&[token]).send(payload).send(&[(crc >> 8) as u8, crc as u8]).receive(&[response])
    }

    fn then(mut self, next: Talk) -> Self {
        self.miso.extend(next.miso);
        self.seen.extend(next.seen);
        self
    }

    fn wire(&self) -> Rc<RefCell<Wire>> {
        let wire = Wire { miso: self.miso.iter().copied().collect(), ..Wire::default() };
        Rc::new(RefCell::new(wire))
    }
}

fn device_on(wire: &Rc<RefCell<Wire>>) -> Device {
    SdMmcSpi::new(ScriptedSpi(wire.clone()), ScriptedCs(wire.clone()))
}

fn seen(wire: &Rc<RefCell<Wire>>) -> Vec<Seen> {
    wire.borrow().seen.clone()
}

/// Continues the script of `wire` with the card's side of `talk` and
/// forgets what was seen so far.
fn continue_with(wire: &Rc<RefCell<Wire>>, talk: &Talk) {
    let mut wire = wire.borrow_mut();
    wire.miso = talk.miso.iter().copied().collect();
    wire.seen.clear();
    wire.transfers = 0;
}

/// The command frames among what the driver sent, in order. Only for
/// conversations in which the driver sends nothing but frames and 0xFF.
fn frames(seen: &[Seen]) -> Vec<[u8; 6]> {
    let bytes: Vec<u8> = seen
        .iter()
        .filter_map(|event| match event {
            Seen::Byte(byte) => Some(*byte),
            _ => None,
        })
        .collect();
    let mut found = Vec::new();
    let mut index = 0;
    while index < bytes.len() {
        if bytes[index] & 0xC0 == 0x40 {
            let mut frame = [0u8; 6];
            frame.copy_from_slice(&bytes[index..index + 6]);
            found.push(frame);
            index += 6;
        } else {
            index += 1;
        }
    }
    found
}

fn v2_register(device_size: u32) -> [u8; 16] {
    let raw = (1u128 << 126) | (9u128 << 80) | (u128::from(device_size) << 48);
    raw.to_be_bytes()
}

fn v1_register(device_size: u16, multiplier: u8, read_block_length: u8) -> [u8; 16] {
    let raw = (u128::from(read_block_length) << 80)
        | (u128::from(device_size) << 62)
        | (u128::from(multiplier) << 47);
    raw.to_be_bytes()
}

fn sdhc_bring_up() -> Talk {
    Talk::default()
        .release()
        .send(&[0xFF; 10])
        .select()
        .command(CMD0, 0, 0x01)
        .command(CMD59, 1, 0x01)
        .command(CMD8, 0x1AA, 0x01)
        .receive(&[0x00, 0x00, 0x01, 0xAA])
        .app_command(CMD41, 0x4000_0000, 0x01)
        .app_command(CMD41, 0x4000_0000, 0x01)
        .app_command(CMD41, 0x4000_0000, 0x00)
        .command(CMD58, 0, 0x00)
        .receive(&[0xC0, 0xFF, 0x80, 0x00])
        .command(CMD9, 0, 0x00)
        .block_from_card(&v2_register(0xEE3F))
        .release()
}

fn sd1_bring_up() -> Talk {
    Talk::default()
        .release()
        .send(&[0xFF; 10])
        .select()
        .command(CMD0, 0, 0x01)
        .command(CMD59, 1, 0x01)
        .command(CMD8, 0x1AA, 0x05)
        .app_command(CMD41, 0x0000_0000, 0x01)
        .app_command(CMD41, 0x0000_0000, 0x00)
        .command(CMD9, 0, 0x00)
        .block_from_card(&v1_register(3751, 7, 9))
        .release()
}

fn sd2_bring_up() -> Talk {
    Talk::default()
        .release()
        .send(&[0xFF; 10])
        .select()
        .command(CMD0, 0, 0x01)
        .command(CMD59, 1, 0x01)
        .command(CMD8, 0x1AA, 0x01)
        .receive(&[0x00, 0x00, 0x01, 0xAA])
        .app_command(CMD41, 0x4000_0000, 0x00)
        .command(CMD58, 0, 0x00)
        .receive(&[0x80, 0xFF, 0x80, 0x00])
        .command(CMD9, 0, 0x00)
        .block_from_card(&v2_register(0x0EFF))
        .release()
}

fn initialized(bring_up: Talk) -> (Device, Rc<RefCell<Wire>>) {
    let wire = bring_up.wire();
    let mut device = device_on(&wire);
    assert_eq!(device.initialize(), Ok(()));
    assert_eq!(seen(&wire), bring_up.seen);
    (device, wire)
}

fn payload(seed: u8, len: usize) -> Vec<u8> {
    (0..len).map(|index| (index as u8).wrapping_mul(31).wrapping_add(seed)).collect()
}

#[test]
fn new_device_is_not_initialized() {
    let wire = Talk::default().wire();
    let device = device_on(&wire);
    assert!(device.status().contains(StatusFlag::NotInitialized));
    assert!(!device.status().contains(StatusFlag::ErrorOccured));
    assert_eq!(device.status().bits(), 0x01);
    assert_eq!(device.card_type(), None);
    assert_eq!(device.csd(), None);
    assert_eq!(seen(&wire), vec![]);
}

#[test]
fn scenario_sdhc_bring_up() {
    let talk = sdhc_bring_up();
    let wire = talk.wire();
    let mut device = device_on(&wire);

    assert_eq!(device.initialize(), Ok(()));

    assert!(!device.status().contains(StatusFlag::NotInitialized));
    assert_eq!(device.status().bits(), 0x00);
    assert_eq!(device.card_type(), Some(CardType::SDHC));
    let csd = device.csd().unwrap();
    assert!(matches!(csd, Csd::V2(_)));
    assert_eq!(csd.card_capacity_blocks(), 0xEE40 * 1024);
    assert_eq!(csd.card_capacity().bytes(), 0xEE40 * 1024 * 512);
    assert_eq!(seen(&wire), talk.seen);
    assert!(wire.borrow().miso.is_empty());
}

#[test]
fn scenario_sd1_bring_up() {
    let talk = sd1_bring_up();
    let wire = talk.wire();
    let mut device = device_on(&wire);

    assert_eq!(device.initialize(), Ok(()));

    assert_eq!(device.status().bits(), 0x00);
    assert_eq!(device.card_type(), Some(CardType::SD1));
    let csd = device.csd().unwrap();
    assert!(matches!(csd, Csd::V1(_)));
    assert_eq!(csd.card_capacity_blocks(), 1_921_024);
    assert_eq!(seen(&wire), talk.seen);
    assert_eq!(device.convert_lba(3), 3 * 512);
    assert_eq!(device.convert_lba(0x80_0001), 512);
}

#[test]
fn sd1_reads_by_byte_address() {
    let (mut device, wire) = initialized(sd1_bring_up());
    let block = payload(3, 512);
    let talk =
        Talk::default().select().command(CMD17, 42 * 512, 0x00).block_from_card(&block).release();
    continue_with(&wire, &talk);

    let mut buf = [0u8; 512];
    assert_eq!(device.read(&mut buf, 42), Ok(()));

    assert_eq!(&buf[..], &block[..]);
    assert_eq!(seen(&wire), talk.seen);
}

#[test]
fn sd2_without_capacity_status_stays_sd2() {
    let (mut device, wire) = initialized(sd2_bring_up());
    assert_eq!(device.card_type(), Some(CardType::SD2));
    assert!(matches!(device.csd(), Some(Csd::V2(_))));
    assert_eq!(device.convert_lba(5), 5 * 512);

    let block = payload(9, 512);
    let talk =
        Talk::default().select().command(CMD17, 5 * 512, 0x00).block_from_card(&block).release();
    continue_with(&wire, &talk);
    let mut buf = [0u8; 512];
    assert_eq!(device.read(&mut buf, 5), Ok(()));
    assert_eq!(seen(&wire), talk.seen);
}

#[test]
fn sdhc_addresses_by_block_number() {
    let (device, _wire) = initialized(sdhc_bring_up());
    assert_eq!(device.convert_lba(0), 0);
    assert_eq!(device.convert_lba(42), 42);
    assert_eq!(device.convert_lba(0xFFFF_FFFF), 0xFFFF_FFFF);
    assert_eq!(device.convert_lba(0x1_0000_0007), 7);
}

#[test]
fn command_sequence_and_crc_during_init() {
    let (_device, wire) = initialized(sdhc_bring_up());
    let sent = frames(&seen(&wire));
    let commands: Vec<u8> = sent.iter().map(|frame| frame[0]).collect();
    assert_eq!(
        commands,
        vec![CMD0, CMD59, CMD8, CMD55, CMD41, CMD55, CMD41, CMD55, CMD41, CMD58, CMD9]
    );
    for frame in &sent {
        assert_eq!(frame[5], (crc7(&frame[..5]) << 1) | 0x01, "frame {:02x?}", frame);
    }
    assert_eq!(sent[0], [0x40, 0x00, 0x00, 0x00, 0x00, 0x95]);
    assert_eq!(sent[2], [0x48, 0x00, 0x00, 0x01, 0xAA, 0x87]);
    assert_eq!(&sent[4][..5], &[0x69, 0x40, 0x00, 0x00, 0x00]);
}

#[test]
fn scenario_single_block_read() {
    let (mut device, wire) = initialized(sdhc_bring_up());
    let block = payload(1, 512);
    let talk = Talk::default()
        .select()
        .command(CMD17, 42, 0x00)
        .receive(&[0xFF, 0xFF])
        .block_from_card(&block)
        .release();
    continue_with(&wire, &talk);

    let mut buf = [0u8; 512];
    assert_eq!(device.read(&mut buf, 42), Ok(()));

    assert_eq!(&buf[..], &block[..]);
    assert_eq!(seen(&wire), talk.seen);
    assert_eq!(frames(&seen(&wire)), vec![frame_command(CMD17, 42)]);
}

#[test]
fn multi_block_read_ends_with_stop_transmission() {
    let (mut device, wire) = initialized(sdhc_bring_up());
    let first = payload(1, 512);
    let second = payload(2, 512);
    let third = payload(3, 512);
    let talk = Talk::default()
        .select()
        .command(CMD18, 7, 0x00)
        .block_from_card(&first)
        .receive(&[0xFF])
        .block_from_card(&second)
        .block_from_card(&third)
        .receive(&[0xFF])
        .send(&frame_command(CMD12, 0))
        .receive(&[0x7F])
        .receive(&[0x00])
        .release();
    continue_with(&wire, &talk);

    let mut buf = vec![0u8; 1536];
    assert_eq!(device.read(&mut buf, 7), Ok(()));

    assert_eq!(&buf[..512], &first[..]);
    assert_eq!(&buf[512..1024], &second[..]);
    assert_eq!(&buf[1024..], &third[..]);
    assert_eq!(seen(&wire), talk.seen);
}

#[test]
fn stop_transmission_consumes_stuff_byte() {
    let (mut device, wire) = initialized(sdhc_bring_up());
    let first = payload(4, 512);
    let second = payload(5, 512);
    // The byte right after the CMD12 frame would pass for a ready R1; it is
    // dropped, and the R1 is the first valid byte after it.
    let talk = Talk::default()
        .select()
        .command(CMD18, 0, 0x00)
        .block_from_card(&first)
        .block_from_card(&second)
        .receive(&[0xFF])
        .send(&frame_command(CMD12, 0))
        .receive(&[0x00])
        .receive(&[0xFF, 0xFF, 0x00])
        .release();
    continue_with(&wire, &talk);

    let mut buf = vec![0u8; 1024];
    assert_eq!(device.read(&mut buf, 0), Ok(()));

    assert_eq!(seen(&wire), talk.seen);
    assert!(wire.borrow().miso.is_empty());
}

#[test]
fn other_commands_have_no_stuff_byte() {
    let talk = Talk::default().command(CMD13, 0, 0x00);
    let wire = talk.wire();
    let mut device = device_on(&wire);
    assert_eq!(device.send_command(CMD13, 0), Ok(R1Response(0x00)));
    assert_eq!(seen(&wire), talk.seen);

    let talk =
        Talk::default().receive(&[0xFF]).send(&frame_command(CMD12, 0)).receive(&[0x00, 0x04]);
    let wire = talk.wire();
    let mut device = device_on(&wire);
    assert_eq!(device.send_command(CMD12, 0), Ok(R1Response(0x04)));
    assert_eq!(seen(&wire), talk.seen);
}

#[test]
fn scenario_multi_block_write() {
    let (mut device, wire) = initialized(sdhc_bring_up());
    let data = [0xA5u8; 1024];
    let talk = Talk::default()
        .select()
        .command(CMD25, 100, 0x00)
        .receive(&[0xFF])
        .block_to_card(0xFC, &data[..512], 0xE5)
        .receive(&[0x00, 0x00, 0xFF])
        .block_to_card(0xFC, &data[512..], 0xE5)
        .receive(&[0x00, 0xFF])
        .send(&[0xFD])
        .release();
    continue_with(&wire, &talk);

    assert_eq!(device.write(&data, 100), Ok(()));

    assert_eq!(seen(&wire), talk.seen);
    let tokens = seen(&wire).iter().filter(|event| **event == Seen::Byte(0xFC)).count();
    assert_eq!(tokens, 2);
    let record = seen(&wire);
    assert_eq!(record[record.len() - 2], Seen::Byte(0xFD));
    assert_eq!(record[record.len() - 1], Seen::Release);
}

#[test]
fn single_block_write_checks_card_status() {
    let (mut device, wire) = initialized(sdhc_bring_up());
    let data = payload(8, 512);
    let talk = Talk::default()
        .select()
        .command(CMD24, 9, 0x00)
        .block_to_card(0xFE, &data, 0x05)
        .receive(&[0x00, 0x00, 0xFF])
        .command(CMD13, 0, 0x00)
        .receive(&[0x00])
        .release();
    continue_with(&wire, &talk);

    assert_eq!(device.write(&data, 9), Ok(()));

    assert_eq!(seen(&wire), talk.seen);
}

#[test]
fn single_block_write_fails_on_bad_status_r1() {
    let (mut device, wire) = initialized(sdhc_bring_up());
    let data = payload(8, 512);
    let talk = Talk::default()
        .select()
        .command(CMD24, 9, 0x00)
        .block_to_card(0xFE, &data, 0x05)
        .receive(&[0xFF])
        .command(CMD13, 0, 0x20)
        .release();
    continue_with(&wire, &talk);

    assert_eq!(device.write(&data, 9), Err(DiskioError::Hardware(Error::WriteError)));
    assert_eq!(seen(&wire), talk.seen);
}

#[test]
fn single_block_write_fails_on_bad_status_byte() {
    let (mut device, wire) = initialized(sdhc_bring_up());
    let data = payload(8, 512);
    let talk = Talk::default()
        .select()
        .command(CMD24, 9, 0x00)
        .block_to_card(0xFE, &data, 0x05)
        .receive(&[0xFF])
        .command(CMD13, 0, 0x00)
        .receive(&[0x08])
        .release();
    continue_with(&wire, &talk);

    assert_eq!(device.write(&data, 9), Err(DiskioError::Hardware(Error::WriteError)));
    assert_eq!(seen(&wire), talk.seen);
}

#[test]
fn scenario_failed_init() {
    // The card never answers: every byte that comes back is 0xFF.
    let wire = Talk::default().wire();
    let mut device = device_on(&wire);

    assert_eq!(device.initialize(), Err(DiskioError::Hardware(Error::CardNotFound)));

    assert_eq!(device.status().bits(), 0x05);
    assert!(device.status().contains(StatusFlag::NotInitialized));
    assert!(device.status().contains(StatusFlag::ErrorOccured));
    assert_eq!(device.card_type(), None);
    assert_eq!(device.csd(), None);

    let record = seen(&wire);
    // Release, ten warm-up bytes, select, ten attempts of CMD0 with one
    // wait, six frame bytes and 128 polls each, release.
    assert_eq!(record.len(), 1 + 10 + 1 + 10 * (1 + 6 + 128) + 1);
    assert_eq!(record[0], Seen::Release);
    assert_eq!(record[11], Seen::Select);
    assert_eq!(record[record.len() - 1], Seen::Release);
    assert_eq!(frames(&record), vec![frame_command(CMD0, 0); 10]);
}

#[test]
fn failed_init_can_be_retried() {
    let wire = Talk::default().wire();
    let mut device = device_on(&wire);
    assert_eq!(device.initialize(), Err(DiskioError::Hardware(Error::CardNotFound)));

    let talk = sdhc_bring_up();
    continue_with(&wire, &talk);
    assert_eq!(device.initialize(), Ok(()));
    assert_eq!(device.status().bits(), 0x00);
    assert_eq!(device.card_type(), Some(CardType::SDHC));
    assert_eq!(seen(&wire), talk.seen);
}

#[test]
fn init_retries_enter_spi_mode() {
    let talk = Talk::default()
        .release()
        .send(&[0xFF; 10])
        .select()
        .command(CMD0, 0, 0x00)
        .command(CMD0, 0, 0x09)
        .command(CMD0, 0, 0x01)
        .command(CMD59, 1, 0x01)
        .command(CMD8, 0x1AA, 0x05)
        .app_command(CMD41, 0, 0x00)
        .command(CMD9, 0, 0x00)
        .block_from_card(&v1_register(100, 3, 9))
        .release();
    let wire = talk.wire();
    let mut device = device_on(&wire);
    assert_eq!(device.initialize(), Ok(()));
    assert_eq!(device.card_type(), Some(CardType::SD1));
    assert_eq!(seen(&wire), talk.seen);
}

#[test]
fn init_fails_when_crc_cannot_be_enabled() {
    let talk = Talk::default()
        .release()
        .send(&[0xFF; 10])
        .select()
        .command(CMD0, 0, 0x01)
        .command(CMD59, 1, 0x00)
        .release();
    let wire = talk.wire();
    let mut device = device_on(&wire);
    assert_eq!(device.initialize(), Err(DiskioError::Hardware(Error::CardNotFound)));
    assert_eq!(device.status().bits(), 0x05);
    assert_eq!(seen(&wire), talk.seen);
}

#[test]
fn init_fails_on_warm_up_fault() {
    let wire = Talk::default().wire();
    wire.borrow_mut().fail_transfer = Some(3);
    let mut device = device_on(&wire);
    assert_eq!(device.initialize(), Err(DiskioError::Hardware(Error::CardNotFound)));
    assert_eq!(device.status().bits(), 0x05);
    assert_eq!(
        seen(&wire),
        vec![Seen::Release, Seen::Byte(0xFF), Seen::Byte(0xFF), Seen::Byte(0xFF), Seen::Byte(0xFF)]
    );
}

#[test]
fn init_fails_when_select_fails() {
    let wire = Talk::default().wire();
    wire.borrow_mut().fail_select = true;
    let mut device = device_on(&wire);
    assert_eq!(device.initialize(), Err(DiskioError::Hardware(Error::CardNotFound)));
    assert_eq!(device.status().bits(), 0x05);
    let record = seen(&wire);
    assert_eq!(record.len(), 12);
    assert_eq!(record[11], Seen::Select);
}

#[test]
fn init_fails_when_release_fails() {
    let talk = sdhc_bring_up();
    let wire = talk.wire();
    wire.borrow_mut().fail_release = true;
    let mut device = device_on(&wire);
    assert_eq!(device.initialize(), Err(DiskioError::Hardware(Error::CardNotFound)));
    assert_eq!(device.status().bits(), 0x05);
    assert_eq!(seen(&wire), vec![Seen::Release]);
}

#[test]
fn initialize_twice_is_refused() {
    let (mut device, wire) = initialized(sdhc_bring_up());
    continue_with(&wire, &Talk::default());
    assert_eq!(device.initialize(), Err(DiskioError::AlreadyInitialized));
    assert_eq!(device.status().bits(), 0x00);
    assert_eq!(device.card_type(), Some(CardType::SDHC));
    assert_eq!(seen(&wire), vec![]);
}

#[test]
fn reset_forgets_initialization() {
    let (mut device, wire) = initialized(sdhc_bring_up());
    continue_with(&wire, &Talk::default());
    device.reset();
    assert_eq!(device.status().bits(), 0x01);
    assert_eq!(device.card_type(), None);
    assert_eq!(device.csd(), None);
    device.reset();
    assert_eq!(device.status().bits(), 0x01);
    assert_eq!(seen(&wire), vec![]);

    let mut buf = [0u8; 512];
    assert_eq!(device.read(&mut buf, 0), Err(DiskioError::NotInitialized));

    let talk = sd1_bring_up();
    continue_with(&wire, &talk);
    assert_eq!(device.initialize(), Ok(()));
    assert_eq!(device.card_type(), Some(CardType::SD1));
}

#[test]
fn reset_clears_error_flag() {
    let wire = Talk::default().wire();
    wire.borrow_mut().fail_select = true;
    let mut device = device_on(&wire);
    assert_eq!(device.initialize(), Err(DiskioError::Hardware(Error::CardNotFound)));
    assert_eq!(device.status().bits(), 0x05);
    device.reset();
    assert_eq!(device.status().bits(), 0x01);
}

#[test]
fn scenario_invalid_buffer() {
    let (mut device, wire) = initialized(sdhc_bring_up());
    continue_with(&wire, &Talk::default());

    let mut empty: [u8; 0] = [];
    assert_eq!(device.read(&mut empty, 0), Err(DiskioError::InvalidArgument));
    let mut odd = [0x11u8; 300];
    assert_eq!(device.read(&mut odd, 0), Err(DiskioError::InvalidArgument));
    assert_eq!(odd, [0x11u8; 300]);
    let mut long = [0u8; 513];
    assert_eq!(device.read(&mut long, 0), Err(DiskioError::InvalidArgument));

    assert_eq!(device.write(&[], 0), Err(DiskioError::InvalidArgument));
    assert_eq!(device.write(&[0u8; 300], 0), Err(DiskioError::InvalidArgument));
    assert_eq!(device.write(&[0u8; 1023], 0), Err(DiskioError::InvalidArgument));

    assert_eq!(seen(&wire), vec![]);
}

#[test]
fn buffer_length_is_validated_before_initialization() {
    let wire = Talk::default().wire();
    let mut device = device_on(&wire);
    let mut odd = [0u8; 300];
    assert_eq!(device.read(&mut odd, 0), Err(DiskioError::InvalidArgument));
    assert_eq!(device.write(&odd, 0), Err(DiskioError::InvalidArgument));
    let mut block = [0u8; 512];
    assert_eq!(device.read(&mut block, 0), Err(DiskioError::NotInitialized));
    assert_eq!(device.write(&block, 0), Err(DiskioError::NotInitialized));
    assert_eq!(seen(&wire), vec![]);
}

#[test]
fn validate_buffer_len_accepts_block_multiples() {
    assert_eq!(Device::validate_buffer_len(512), Ok(()));
    assert_eq!(Device::validate_buffer_len(4096), Ok(()));
    assert_eq!(Device::validate_buffer_len(0), Err(DiskioError::InvalidArgument));
    assert_eq!(Device::validate_buffer_len(511), Err(DiskioError::InvalidArgument));
    assert_eq!(Device::validate_buffer_len(300), Err(DiskioError::InvalidArgument));
}

#[test]
fn crc_mismatch_reports_both_checksums() {
    let (mut device, wire) = initialized(sdhc_bring_up());
    let block = payload(6, 512);
    let host = crc16(&block);
    let card = host ^ 0x0100;
    let talk = Talk::default()
        .select()
        .command(CMD17, 1, 0x00)
        .receive(&[0xFE])
        .receive(&block)
        .receive(&[(card >> 8) as u8, card as u8])
        .release();
    continue_with(&wire, &talk);

    let mut buf = [0u8; 512];
    let result: Result<(), Failure> = device.read(&mut buf, 1);

    assert_eq!(result, Err(DiskioError::Hardware(Error::CrcError(card, host))));
    assert_eq!(seen(&wire), talk.seen);
}

#[test]
fn crc_mismatch_in_multi_block_read_stops_the_read() {
    let (mut device, wire) = initialized(sdhc_bring_up());
    let first = payload(6, 512);
    let second = payload(7, 512);
    let host = crc16(&second);
    let talk = Talk::default()
        .select()
        .command(CMD18, 1, 0x00)
        .block_from_card(&first)
        .receive(&[0xFE])
        .receive(&second)
        .receive(&[0x12, 0x34])
        .release();
    continue_with(&wire, &talk);

    let mut buf = [0u8; 1024];
    assert_eq!(
        device.read(&mut buf, 1),
        Err(DiskioError::Hardware(Error::CrcError(0x1234, host)))
    );
    assert_eq!(seen(&wire), talk.seen);
}

#[test]
fn rejected_write_reports_write_error() {
    let (mut device, wire) = initialized(sdhc_bring_up());
    let data = payload(2, 512);
    let talk = Talk::default()
        .select()
        .command(CMD24, 3, 0x00)
        .block_to_card(0xFE, &data, 0x0B)
        .release();
    continue_with(&wire, &talk);

    assert_eq!(device.write(&data, 3), Err(DiskioError::Hardware(Error::WriteError)));
    assert_eq!(seen(&wire), talk.seen);
}

#[test]
fn rejected_block_ends_multi_block_write() {
    let (mut device, wire) = initialized(sdhc_bring_up());
    let data = payload(2, 1536);
    let talk = Talk::default()
        .select()
        .command(CMD25, 3, 0x00)
        .receive(&[0xFF])
        .block_to_card(0xFC, &data[..512], 0x05)
        .receive(&[0xFF])
        .block_to_card(0xFC, &data[512..1024], 0x0D)
        .release();
    continue_with(&wire, &talk);

    assert_eq!(device.write(&data, 3), Err(DiskioError::Hardware(Error::WriteError)));
    assert_eq!(seen(&wire), talk.seen);
}

#[test]
fn read_fails_on_unexpected_token() {
    let (mut device, wire) = initialized(sdhc_bring_up());
    let talk = Talk::default().select().command(CMD17, 1, 0x00).receive(&[0xFF, 0x09]).release();
    continue_with(&wire, &talk);

    let mut buf = [0u8; 512];
    assert_eq!(device.read(&mut buf, 1), Err(DiskioError::Hardware(Error::ReadError)));
    assert_eq!(seen(&wire), talk.seen);
}

#[test]
fn read_times_out_without_token() {
    let (mut device, wire) = initialized(sdhc_bring_up());
    let talk =
        Talk::default().select().command(CMD17, 1, 0x00).receive(&[0xFF; 256]).release();
    continue_with(&wire, &talk);

    let mut buf = [0u8; 512];
    assert_eq!(device.read(&mut buf, 1), Err(DiskioError::Hardware(Error::TimeoutReadBuffer)));
    assert_eq!(seen(&wire), talk.seen);
}

#[test]
fn read_finds_token_at_last_attempt() {
    let (mut device, wire) = initialized(sdhc_bring_up());
    let block = payload(5, 512);
    let talk = Talk::default()
        .select()
        .command(CMD17, 1, 0x00)
        .receive(&[0xFF; 255])
        .block_from_card(&block)
        .release();
    continue_with(&wire, &talk);

    let mut buf = [0u8; 512];
    assert_eq!(device.read(&mut buf, 1), Ok(()));
    assert_eq!(&buf[..], &block[..]);
}

#[test]
fn command_times_out_without_response() {
    let (mut device, wire) = initialized(sdhc_bring_up());
    let talk = Talk::default()
        .select()
        .receive(&[0xFF])
        .send(&frame_command(CMD17, 1))
        .receive(&[0x80; 128])
        .release();
    continue_with(&wire, &talk);

    let mut buf = [0u8; 512];
    assert_eq!(device.read(&mut buf, 1), Err(DiskioError::Hardware(Error::TimeoutCommand(CMD17))));
    assert_eq!(seen(&wire), talk.seen);
}

#[test]
fn command_waits_for_busy_card() {
    let (mut device, wire) = initialized(sdhc_bring_up());
    let block = payload(5, 512);
    let talk = Talk::default()
        .select()
        .receive(&[0x00, 0x00, 0x00, 0xFF])
        .send(&frame_command(CMD17, 1))
        .receive(&[0xFF, 0xFF, 0x00])
        .block_from_card(&block)
        .release();
    continue_with(&wire, &talk);

    let mut buf = [0u8; 512];
    assert_eq!(device.read(&mut buf, 1), Ok(()));
    assert_eq!(seen(&wire), talk.seen);
}

#[test]
fn command_gives_up_on_busy_card() {
    let (mut device, wire) = initialized(sdhc_bring_up());
    let talk = Talk::default().select().receive(&[0x00; 256]).release();
    continue_with(&wire, &talk);

    let mut buf = [0u8; 512];
    assert_eq!(
        device.read(&mut buf, 1),
        Err(DiskioError::Hardware(Error::TimeoutWaitAvailable))
    );
    assert_eq!(seen(&wire), talk.seen);
}

#[test]
fn transport_fault_surfaces_unchanged() {
    let (mut device, wire) = initialized(sdhc_bring_up());
    continue_with(&wire, &Talk::default());
    wire.borrow_mut().fail_transfer = Some(2);

    let mut buf = [0u8; 512];
    assert_eq!(device.read(&mut buf, 1), Err(DiskioError::Hardware(Error::Transport(BusFault(7)))));
    let record = seen(&wire);
    assert_eq!(record.len(), 5);
    assert_eq!(record[0], Seen::Select);
    assert_eq!(record[4], Seen::Release);
}

#[test]
fn select_fault_ends_the_operation() {
    let (mut device, wire) = initialized(sdhc_bring_up());
    continue_with(&wire, &Talk::default());
    wire.borrow_mut().fail_select = true;

    let mut buf = [0u8; 512];
    assert_eq!(
        device.read(&mut buf, 1),
        Err(DiskioError::Hardware(Error::SelectError(LineFault(1))))
    );
    assert_eq!(device.write(&buf, 1), Err(DiskioError::Hardware(Error::SelectError(LineFault(1)))));
    assert_eq!(seen(&wire), vec![Seen::Select, Seen::Select]);
}

#[test]
fn release_fault_turns_success_into_error() {
    let (mut device, wire) = initialized(sdhc_bring_up());
    let block = payload(1, 512);
    let talk =
        Talk::default().select().command(CMD17, 42, 0x00).block_from_card(&block).release();
    continue_with(&wire, &talk);
    wire.borrow_mut().fail_release = true;

    let mut buf = [0u8; 512];
    assert_eq!(
        device.read(&mut buf, 42),
        Err(DiskioError::Hardware(Error::SelectError(LineFault(2))))
    );
    assert_eq!(seen(&wire), talk.seen);
}

#[test]
fn error_of_the_body_wins_over_release_fault() {
    let (mut device, wire) = initialized(sdhc_bring_up());
    let talk = Talk::default().select().command(CMD17, 1, 0x00).receive(&[0x09]).release();
    continue_with(&wire, &talk);
    wire.borrow_mut().fail_release = true;

    let mut buf = [0u8; 512];
    assert_eq!(device.read(&mut buf, 1), Err(DiskioError::Hardware(Error::ReadError)));
    assert_eq!(seen(&wire), talk.seen);
}

#[test]
fn chip_select_is_released_on_every_path() {
    let endings: Vec<Talk> = vec![
        Talk::default().command(CMD17, 1, 0x00).block_from_card(&payload(1, 512)),
        Talk::default().command(CMD17, 1, 0x00).receive(&[0x09]),
        Talk::default().command(CMD17, 1, 0x00).receive(&[0xFF; 256]),
        Talk::default().receive(&[0x00; 256]),
        Talk::default().receive(&[0xFF]).send(&frame_command(CMD17, 1)).receive(&[0x80; 128]),
        Talk::default()
            .command(CMD17, 1, 0x00)
            .receive(&[0xFE])
            .receive(&payload(1, 512))
            .receive(&[0x00, 0x00]),
    ];
    for body in endings {
        let (mut device, wire) = initialized(sdhc_bring_up());
        continue_with(&wire, &Talk::default().select().then(body).release());
        let mut buf = [0u8; 512];
        let _ = device.read(&mut buf, 1);
        let record = seen(&wire);
        assert_eq!(record[0], Seen::Select);
        assert_eq!(record[record.len() - 1], Seen::Release);
        let selects = record.iter().filter(|event| **event == Seen::Select).count();
        let releases = record.iter().filter(|event| **event == Seen::Release).count();
        assert_eq!((selects, releases), (1, 1));
    }
}

#[test]
fn ioctl_sync_waits_until_available() {
    let talk = Talk::default().receive(&[0x00, 0x00, 0x00, 0xFF]);
    let wire = talk.wire();
    let mut device = device_on(&wire);
    assert_eq!(device.ioctl(IoctlCmd::CtrlSync), Ok(()));
    assert_eq!(seen(&wire), talk.seen);
}

#[test]
fn ioctl_sync_times_out() {
    let talk = Talk::default().receive(&[0x00; 256]);
    let wire = talk.wire();
    let mut device = device_on(&wire);
    assert_eq!(
        device.ioctl(IoctlCmd::CtrlSync),
        Err(DiskioError::Hardware(Error::TimeoutWaitAvailable))
    );
    assert_eq!(seen(&wire), talk.seen);
}

#[test]
fn ioctl_block_size_is_512() {
    let wire = Talk::default().wire();
    let mut device = device_on(&wire);
    let mut block_size = 0usize;
    assert_eq!(device.ioctl(IoctlCmd::GetBlockSize(&mut block_size)), Ok(()));
    assert_eq!(block_size, 512);
    assert_eq!(seen(&wire), vec![]);
}

#[test]
fn ioctl_other_commands_are_not_supported() {
    let wire = Talk::default().wire();
    let mut device = device_on(&wire);
    let mut count = 11u64;
    assert_eq!(device.ioctl(IoctlCmd::GetSectorCount(&mut count)), Err(DiskioError::NotSupported));
    assert_eq!(count, 11);
    let mut size = 13usize;
    assert_eq!(device.ioctl(IoctlCmd::GetSectorSize(&mut size)), Err(DiskioError::NotSupported));
    assert_eq!(size, 13);
    let area = (0u64, 8u64);
    assert_eq!(device.ioctl(IoctlCmd::CtrlTrim(&area)), Err(DiskioError::NotSupported));
    assert_eq!(seen(&wire), vec![]);
}

#[test]
fn application_command_is_announced_by_cmd55() {
    let talk = Talk::default().command(CMD55, 0, 0x3F).command(CMD41, 0x4000_0000, 0x01);
    let wire = talk.wire();
    let mut device = device_on(&wire);
    assert_eq!(device.send_command(ACMD41, 0x4000_0000), Ok(R1Response(0x01)));
    assert_eq!(seen(&wire), talk.seen);
}

#[test]
fn application_command_stops_when_cmd55_fails() {
    let talk =
        Talk::default().receive(&[0xFF]).send(&frame_command(CMD55, 0)).receive(&[0xFF; 128]);
    let wire = talk.wire();
    let mut device = device_on(&wire);
    assert_eq!(device.send_command(ACMD41, 0), Err(Error::TimeoutCommand(CMD55)));
    assert_eq!(seen(&wire), talk.seen);
}

#[test]
fn enable_crc_needs_idle_response() {
    let talk = Talk::default().command(CMD59, 1, 0x01);
    let wire = talk.wire();
    assert_eq!(device_on(&wire).enable_crc(), Ok(()));
    assert_eq!(seen(&wire), talk.seen);

    let talk = Talk::default().command(CMD59, 1, 0x05);
    let wire = talk.wire();
    assert_eq!(device_on(&wire).enable_crc(), Err(Error::CantEnableCRC));
}

#[test]
fn enter_spi_mode_gives_up_after_ten_attempts() {
    let mut talk = Talk::default();
    for _ in 0..10 {
        talk = talk.command(CMD0, 0, 0x00);
    }
    let wire = talk.wire();
    assert_eq!(device_on(&wire).enter_spi_mode(), Err(Error::TimeoutCommand(CMD0)));
    assert_eq!(seen(&wire), talk.seen);
}

#[test]
fn enter_spi_mode_stops_on_other_errors() {
    let talk = Talk::default().receive(&[0x00; 256]);
    let wire = talk.wire();
    assert_eq!(device_on(&wire).enter_spi_mode(), Err(Error::TimeoutWaitAvailable));
    assert_eq!(seen(&wire), talk.seen);
}

#[test]
fn send_if_cond_retries_until_echo() {
    let talk = Talk::default()
        .command(CMD8, 0x1AA, 0x01)
        .receive(&[0x00, 0x00, 0x01, 0x00])
        .command(CMD8, 0x1AA, 0x01)
        .receive(&[0xAA, 0xAA, 0xAA, 0x55])
        .command(CMD8, 0x1AA, 0x01)
        .receive(&[0x00, 0x00, 0x01, 0xAA]);
    let wire = talk.wire();
    assert_eq!(device_on(&wire).send_if_cond(), Ok(CardType::SD2));
    assert_eq!(seen(&wire), talk.seen);
}

#[test]
fn send_if_cond_gives_up_without_echo() {
    let mut talk = Talk::default();
    for _ in 0..256 {
        talk = talk.command(CMD8, 0x1AA, 0x01).receive(&[0x00, 0x00, 0x00, 0x00]);
    }
    let wire = talk.wire();
    assert_eq!(device_on(&wire).send_if_cond(), Err(Error::TimeoutCommand(CMD8)));
    assert_eq!(seen(&wire), talk.seen);
}

#[test]
fn send_op_comd_gives_up_when_card_stays_idle() {
    let mut talk = Talk::default();
    for _ in 0..256 {
        talk = talk.app_command(CMD41, 0x4000_0000, 0x01);
    }
    let wire = talk.wire();
    assert_eq!(device_on(&wire).send_op_comd(0x4000_0000), Err(Error::TimeoutCommand(ACMD41)));
    assert_eq!(seen(&wire), talk.seen);
}

#[test]
fn check_type_fails_when_ocr_cannot_be_read() {
    let talk = Talk::default()
        .command(CMD8, 0x1AA, 0x01)
        .receive(&[0x00, 0x00, 0x01, 0xAA])
        .app_command(CMD41, 0x4000_0000, 0x00)
        .command(CMD58, 0, 0x04);
    let wire = talk.wire();
    assert_eq!(device_on(&wire).check_type(), Err(Error::ErrorCommand(CMD58)));
    assert_eq!(seen(&wire), talk.seen);
}

#[test]
fn check_type_reads_capacity_status_bit() {
    for (ocr, expected) in [
        (0x40u8, CardType::SDHC),
        (0xC0, CardType::SDHC),
        (0xFF, CardType::SDHC),
        (0x80, CardType::SD2),
        (0x00, CardType::SD2),
        (0xBF, CardType::SD2),
    ] {
        let talk = Talk::default()
            .command(CMD8, 0x1AA, 0x01)
            .receive(&[0x00, 0x00, 0x01, 0xAA])
            .app_command(CMD41, 0x4000_0000, 0x00)
            .command(CMD58, 0, 0x00)
            .receive(&[ocr, 0xFF, 0x80, 0x00]);
        let wire = talk.wire();
        assert_eq!(device_on(&wire).check_type(), Ok(expected), "ocr {:#04x}", ocr);
        assert_eq!(seen(&wire), talk.seen);
    }
}

#[test]
fn read_csd_needs_ready_response() {
    let talk = Talk::default().command(CMD9, 0, 0x01);
    let wire = talk.wire();
    assert_eq!(device_on(&wire).read_csd(), Err(Error::RegisterReadError));
    assert_eq!(seen(&wire), talk.seen);
}

#[test]
fn read_data_fills_the_buffer() {
    let block = payload(4, 16);
    let talk = Talk::default().receive(&[0xFF, 0xFF]).block_from_card(&block);
    let wire = talk.wire();
    let mut device = device_on(&wire);
    let mut buf = [0u8; 16];
    assert_eq!(device.read_data(&mut buf), Ok(()));
    assert_eq!(&buf[..], &block[..]);
    assert_eq!(seen(&wire), talk.seen);
}

#[test]
fn write_data_sends_token_payload_and_checksum() {
    let block = [0xFFu8; 512];
    let talk = Talk::default().send(&[0xFE]).send(&block).send(&[0x7F, 0xA1]).receive(&[0xE5]);
    let wire = talk.wire();
    let mut device = device_on(&wire);
    assert_eq!(device.write_data(0xFE, &block), Ok(()));
    assert_eq!(seen(&wire), talk.seen);
}

#[test]
fn transport_shim_sends_and_receives() {
    let talk = Talk::default().send(&[0x12]).receive(&[0x34]).send(&[1, 2, 3]).receive(&[4, 5]);
    let wire = talk.wire();
    let mut device = device_on(&wire);
    assert_eq!(device.send(0x12), Ok(()));
    assert_eq!(device.receive(), Ok(0x34));
    assert_eq!(device.send_slice(&[1, 2, 3]), Ok(()));
    let mut buf = [0u8; 2];
    assert_eq!(device.receive_slice(&mut buf), Ok(()));
    assert_eq!(buf, [4, 5]);
    assert_eq!(device.skip_byte(), Ok(()));
    assert_eq!(device.transfer(0x55), Ok(0xFF));
    let mut expected = talk.seen.clone();
    expected.push(Seen::Byte(0xFF));
    expected.push(Seen::Byte(0x55));
    assert_eq!(seen(&wire), expected);
}

#[test]
fn transport_shim_stops_at_first_fault() {
    let wire = Talk::default().wire();
    wire.borrow_mut().fail_transfer = Some(1);
    let mut device = device_on(&wire);
    assert_eq!(device.send_slice(&[1, 2, 3]), Err(Error::Transport(BusFault(7))));
    assert_eq!(seen(&wire), vec![Seen::Byte(1), Seen::Byte(2)]);
}

#[test]
fn chip_select_lines_report_faults() {
    let wire = Talk::default().wire();
    let mut device = device_on(&wire);
    assert_eq!(device.select(), Ok(()));
    assert_eq!(device.unselect(), Ok(()));
    wire.borrow_mut().fail_select = true;
    wire.borrow_mut().fail_release = true;
    assert_eq!(device.select(), Err(Error::SelectError(LineFault(1))));
    assert_eq!(device.unselect(), Err(Error::SelectError(LineFault(2))));
    assert_eq!(seen(&wire), vec![Seen::Select, Seen::Release, Seen::Select, Seen::Release]);
}

/// A configuration with small bounds.
struct TightConfig;

impl SdMmcSpiConfig for TightConfig {
    const CMD_MAX_ATTEMPTS: usize = 3;
    const READ_R1_ATTEMPTS: usize = 2;
    const ENTER_SPI_MODE_ATTEMPTS: usize = 2;
    const DELAY_DUMMY_CYCLES: usize = 1;
}

/// A configuration that allows no attempt at all.
struct NoAttemptsConfig;

impl SdMmcSpiConfig for NoAttemptsConfig {
    const CMD_MAX_ATTEMPTS: usize = 0;
    const READ_R1_ATTEMPTS: usize = 0;
    const ENTER_SPI_MODE_ATTEMPTS: usize = 0;
    const DELAY_DUMMY_CYCLES: usize = 0;
}

fn tight_device_on(wire: &Rc<RefCell<Wire>>) -> SdMmcSpi<ScriptedSpi, ScriptedCs, TightConfig> {
    SdMmcSpi::new(ScriptedSpi(wire.clone()), ScriptedCs(wire.clone()))
}

#[test]
fn default_configuration_values() {
    assert_eq!(DefaultSdMmcSpiConfig::CMD_MAX_ATTEMPTS, 256);
    assert_eq!(DefaultSdMmcSpiConfig::READ_R1_ATTEMPTS, 128);
    assert_eq!(DefaultSdMmcSpiConfig::ENTER_SPI_MODE_ATTEMPTS, 10);
    assert_eq!(DefaultSdMmcSpiConfig::DELAY_DUMMY_CYCLES, 32);
}

#[test]
fn configured_bound_limits_the_wait_for_the_card() {
    let talk = Talk::default().receive(&[0x00, 0x00, 0x00]);
    let wire = talk.wire();
    assert_eq!(tight_device_on(&wire).wait_available_state(), Err(Error::TimeoutWaitAvailable));
    assert_eq!(seen(&wire), talk.seen);

    let talk = Talk::default().receive(&[0x00, 0x00, 0xFF]);
    let wire = talk.wire();
    assert_eq!(tight_device_on(&wire).wait_available_state(), Ok(()));
    assert_eq!(seen(&wire), talk.seen);
}

#[test]
fn configured_bound_limits_the_poll_for_r1() {
    let talk =
        Talk::default().receive(&[0xFF]).send(&frame_command(CMD13, 0)).receive(&[0xFF, 0x80]);
    let wire = talk.wire();
    assert_eq!(tight_device_on(&wire).send_command(CMD13, 0), Err(Error::TimeoutCommand(CMD13)));
    assert_eq!(seen(&wire), talk.seen);

    let talk =
        Talk::default().receive(&[0xFF]).send(&frame_command(CMD13, 0)).receive(&[0xFF, 0x00]);
    let wire = talk.wire();
    assert_eq!(tight_device_on(&wire).send_command(CMD13, 0), Ok(R1Response(0x00)));
    assert_eq!(seen(&wire), talk.seen);
}

#[test]
fn configured_bound_limits_the_attempts_to_enter_spi_mode() {
    let talk = Talk::default()
        .receive(&[0xFF])
        .send(&frame_command(CMD0, 0))
        .receive(&[0xFF, 0xFF])
        .command(CMD0, 0, 0x00);
    let wire = talk.wire();
    assert_eq!(tight_device_on(&wire).enter_spi_mode(), Err(Error::TimeoutCommand(CMD0)));
    assert_eq!(seen(&wire), talk.seen);
}

#[test]
fn without_attempts_nothing_is_clocked() {
    let wire = Talk::default().wire();
    let mut device: SdMmcSpi<ScriptedSpi, ScriptedCs, NoAttemptsConfig> =
        SdMmcSpi::new(ScriptedSpi(wire.clone()), ScriptedCs(wire.clone()));
    assert_eq!(device.wait_available_state(), Err(Error::TimeoutWaitAvailable));
    assert_eq!(device.send_command(CMD13, 0), Err(Error::TimeoutWaitAvailable));
    assert_eq!(device.enter_spi_mode(), Err(Error::TimeoutCommand(CMD0)));
    assert_eq!(device.send_if_cond(), Err(Error::TimeoutCommand(CMD8)));
    assert_eq!(device.send_op_comd(0), Err(Error::TimeoutCommand(ACMD41)));
    let mut buf = [0u8; 16];
    assert_eq!(device.read_data(&mut buf), Err(Error::TimeoutReadBuffer));
    assert_eq!(seen(&wire), vec![]);
    assert_eq!(device.initialize(), Err(DiskioError::Hardware(Error::CardNotFound)));
    assert_eq!(seen(&wire).len(), 13);
}

#[test]
fn delay_leaves_the_lines_alone() {
    let wire = Talk::default().wire();
    let mut device = device_on(&wire);
    device.delay();
    tight_device_on(&wire).delay();
    assert_eq!(seen(&wire), vec![]);
    assert_eq!(device.status().bits(), 0x01);
}
