use std::cell::RefCell;
use std::collections::{HashMap, VecDeque};
use std::rc::Rc;

use sdmmc_spi::{
    crc16, crc7, CapacityProvider, CardType, ChipSelect, DefaultSdMmcSpiConfig, DiskioError,
    Error, IoctlCmd, SdMmcSpi, SpiBus,
};

/// What the simulated card is doing with the bytes it is sent.
enum Mode {
    /// Waiting for a command frame; `frame` holds its bytes so far.
    Command { frame: Vec<u8> },
    /// Waiting for the data token that opens a block, or the stop token.
    AwaitBlock { multiple: bool, lba: u64 },
    /// Taking in a block with its checksum.
    Block { multiple: bool, lba: u64, bytes: Vec<u8> },
}

/// A card in SPI mode, simulated at the level of bytes: it checks the CRC
/// of what it gets and stores the blocks that are written to it.
struct Card {
    high_capacity: bool,
    selected: bool,
    app_command: bool,
    idle: bool,
    streaming: Option<u64>,
    mode: Mode,
    out: VecDeque<u8>,
    blocks: HashMap<u64, Vec<u8>>,
    corrupt_next_read: bool,
    reject_next_write: bool,
    commands: Vec<u8>,
}

impl Card {
    fn new(high_capacity: bool) -> Self {
        Card {
            high_capacity,
            selected: false,
            app_command: false,
            idle: true,
            streaming: None,
            mode: Mode::Command { frame: Vec::new() },
            out: VecDeque::new(),
            blocks: HashMap::new(),
            corrupt_next_read: false,
            reject_next_write: false,
            commands: Vec::new(),
        }
    }

    fn block(&self, lba: u64) -> Vec<u8> {
        self.blocks.get(&lba).cloned().unwrap_or_else(|| vec![0u8; 512])
    }

    fn lba_of(&self, arg: u32) -> u64 {
        if self.high_capacity {
            u64::from(arg)
        } else {
            assert_eq!(arg % 512, 0, "byte address must be block aligned");
            u64::from(arg / 512)
        }
    }

    fn queue_block(&mut self, payload: &[u8]) {
        let mut crc = crc16(payload);
        if self.corrupt_next_read {
            crc ^= 0x8001;
            self.corrupt_next_read = false;
        }
        self.out.push_back(0xFF);
        self.out.push_back(0xFE);
        self.out.extend(payload.iter().copied());
        self.out.push_back((crc >> 8) as u8);
        self.out.push_back(crc as u8);
    }

    fn register(&self) -> [u8; 16] {
        let raw = if self.high_capacity {
            (1u128 << 126) | (9u128 << 80) | (0xEE3Fu128 << 48)
        } else {
            (9u128 << 80) | (3751u128 << 62) | (7u128 << 47)
        };
        raw.to_be_bytes()
    }

    fn execute(&mut self, frame: &[u8]) {
        assert_eq!(frame[5], (crc7(&frame[..5]) << 1) | 0x01, "command CRC");
        let index = frame[0] & 0x3F;
        let arg = u32::from_be_bytes([frame[1], frame[2], frame[3], frame[4]]);
        let app = self.app_command;
        self.app_command = false;
        self.commands.push(index);
        let r1 = if self.idle { 0x01 } else { 0x00 };
        self.out.push_back(0xFF);
        match (app, index) {
            (_, 0) => {
                self.idle = true;
                self.out.push_back(0x01);
            }
            (_, 59) => self.out.push_back(r1),
            (_, 8) => {
                if self.high_capacity {
                    self.out.push_back(r1);
                    self.out.extend([0x00, 0x00, frame[3], frame[4]]);
                } else {
                    self.out.push_back(r1 | 0x04);
                }
            }
            (_, 55) => {
                self.app_command = true;
                self.out.push_back(r1);
            }
            (true, 41) => {
                self.idle = false;
                self.out.push_back(0x00);
            }
            (_, 58) => {
                self.out.push_back(r1);
                let ocr = if self.high_capacity { 0xC0 } else { 0x80 };
                self.out.extend([ocr, 0xFF, 0x80, 0x00]);
            }
            (_, 9) => {
                self.out.push_back(r1);
                let register = self.register();
                self.queue_block(&register);
            }
            (_, 13) => {
                self.out.push_back(r1);
                self.out.push_back(0x00);
            }
            (_, 17) => {
                self.out.push_back(r1);
                let payload = self.block(self.lba_of(arg));
                self.queue_block(&payload);
            }
            (_, 18) => {
                self.out.push_back(r1);
                self.streaming = Some(self.lba_of(arg));
            }
            (_, 12) => {
                self.streaming = None;
                self.out.clear();
                self.out.push_back(0x00);
                self.out.push_back(0xFF);
                self.out.push_back(r1);
            }
            (_, 24) => {
                self.out.push_back(r1);
                self.mode = Mode::AwaitBlock { multiple: false, lba: self.lba_of(arg) };
            }
            (_, 25) => {
                self.out.push_back(r1);
                self.mode = Mode::AwaitBlock { multiple: true, lba: self.lba_of(arg) };
            }
            _ => self.out.push_back(r1 | 0x04),
        }
    }

    fn exchange(&mut self, byte: u8) -> u8 {
        assert!(self.selected || byte == 0xFF, "data sent to a card that is not selected");
        if !self.selected {
            return 0xFF;
        }
        let mode = std::mem::replace(&mut self.mode, Mode::Command { frame: Vec::new() });
        match mode {
            Mode::Command { mut frame } => {
                if frame.is_empty() && byte & 0xC0 != 0x40 {
                    assert_eq!(byte, 0xFF, "stray byte outside a command");
                } else {
                    frame.push(byte);
                    if frame.len() == 6 {
                        self.execute(&frame);
                        return 0xFF;
                    }
                    self.mode = Mode::Command { frame };
                    return 0xFF;
                }
            }
            Mode::AwaitBlock { multiple, lba } => match byte {
                0xFE if !multiple => {
                    self.mode = Mode::Block { multiple, lba, bytes: Vec::new() };
                    return 0xFF;
                }
                0xFC if multiple => {
                    self.mode = Mode::Block { multiple, lba, bytes: Vec::new() };
                    return 0xFF;
                }
                0xFD if multiple => {
                    self.out.extend([0x00, 0x00]);
                    return 0xFF;
                }
                0xFF => self.mode = Mode::AwaitBlock { multiple, lba },
                other => panic!("unexpected data token {:#04x}", other),
            },
            Mode::Block { multiple, lba, mut bytes } => {
                bytes.push(byte);
                if bytes.len() == 514 {
                    let crc = u16::from(bytes[512]) << 8 | u16::from(bytes[513]);
                    bytes.truncate(512);
                    assert_eq!(crc, crc16(&bytes), "data CRC");
                    if self.reject_next_write {
                        self.reject_next_write = false;
                        self.out.push_back(0x0B);
                    } else {
                        self.blocks.insert(lba, bytes);
                        self.out.push_back(0xE5);
                        self.out.extend([0x00, 0x00, 0x00]);
                    }
                    if multiple {
                        self.mode = Mode::AwaitBlock { multiple, lba: lba + 1 };
                    }
                } else {
                    self.mode = Mode::Block { multiple, lba, bytes };
                }
                return 0xFF;
            }
        }
        if self.out.is_empty() {
            if let Some(lba) = self.streaming {
                let payload = self.block(lba);
                self.queue_block(&payload);
                self.streaming = Some(lba + 1);
            }
        }
        self.out.pop_front().unwrap_or(0xFF)
    }
}

struct CardSpi(Rc<RefCell<Card>>);

impl SpiBus for CardSpi {
    type Error = ();

    fn transfer(&mut self, byte: u8) -> Result<u8, ()> {
        Ok(self.0.borrow_mut().exchange(byte))
    }
}

struct CardSelect(Rc<RefCell<Card>>);

impl ChipSelect for CardSelect {
    type Error = ();

    fn on(&mut self) -> Result<(), ()> {
        self.0.borrow_mut().selected = true;
        Ok(())
    }

    fn off(&mut self) -> Result<(), ()> {
        self.0.borrow_mut().selected = false;
        Ok(())
    }
}

type Device = SdMmcSpi<CardSpi, CardSelect, DefaultSdMmcSpiConfig>;

fn ready_device(high_capacity: bool) -> (Device, Rc<RefCell<Card>>) {
    let card = Rc::new(RefCell::new(Card::new(high_capacity)));
    let mut device: Device = SdMmcSpi::new(CardSpi(card.clone()), CardSelect(card.clone()));
    assert_eq!(device.initialize(), Ok(()));
    assert!(!card.borrow().selected);
    (device, card)
}

fn pattern(seed: u32, len: usize) -> Vec<u8> {
    let mut state = seed.wrapping_mul(2_654_435_761).wrapping_add(12_345);
    (0..len)
        .map(|_| {
            state = state.wrapping_mul(1_103_515_245).wrapping_add(12_345);
            (state >> 16) as u8
        })
        .collect()
}

fn round_trip(high_capacity: bool, len: usize, lba: u64) {
    let (mut device, card) = ready_device(high_capacity);
    let written = pattern(len as u32 + lba as u32, len);

    assert_eq!(device.write(&written, lba), Ok(()));
    assert!(!card.borrow().selected);
    assert_eq!(device.ioctl(IoctlCmd::CtrlSync), Ok(()));

    let mut read = vec![0u8; len];
    assert_eq!(device.read(&mut read, lba), Ok(()));
    assert!(!card.borrow().selected);

    assert_eq!(read, written);
    for index in 0..len / 512 {
        let stored = card.borrow().block(lba + index as u64);
        assert_eq!(&stored[..], &written[index * 512..(index + 1) * 512]);
    }
}

#[test]
fn simulated_sdhc_card_initializes() {
    let (device, card) = ready_device(true);
    assert_eq!(device.card_type(), Some(CardType::SDHC));
    assert_eq!(device.csd().unwrap().card_capacity_blocks(), 0xEE40 * 1024);
    assert_eq!(card.borrow().commands, vec![0, 59, 8, 55, 41, 58, 9]);
}

#[test]
fn simulated_sd1_card_initializes() {
    let (device, card) = ready_device(false);
    assert_eq!(device.card_type(), Some(CardType::SD1));
    assert_eq!(device.csd().unwrap().card_capacity_blocks(), 1_921_024);
    assert_eq!(card.borrow().commands, vec![0, 59, 8, 55, 41, 9]);
}

#[test]
fn round_trip_of_one_block() {
    round_trip(true, 512, 42);
    round_trip(false, 512, 42);
}

#[test]
fn round_trip_of_two_blocks() {
    round_trip(true, 1024, 100);
    round_trip(false, 1024, 100);
}

#[test]
fn round_trip_of_eight_blocks() {
    round_trip(true, 4096, 7);
    round_trip(false, 4096, 7);
}

#[test]
fn blocks_keep_their_addresses() {
    let (mut device, _card) = ready_device(true);
    let first = pattern(1, 512);
    let pair = pattern(2, 1024);
    assert_eq!(device.write(&first, 10), Ok(()));
    assert_eq!(device.write(&pair, 11), Ok(()));

    let mut all = vec![0u8; 2048];
    assert_eq!(device.read(&mut all, 10), Ok(()));
    assert_eq!(&all[..512], &first[..]);
    assert_eq!(&all[512..1536], &pair[..]);
    assert_eq!(&all[1536..], &[0u8; 512][..]);

    let mut second = vec![0xEEu8; 512];
    assert_eq!(device.read(&mut second, 12), Ok(()));
    assert_eq!(&second[..], &pair[512..]);
}

#[test]
fn corrupted_block_is_reported_with_both_checksums() {
    let (mut device, card) = ready_device(true);
    let written = pattern(3, 512);
    assert_eq!(device.write(&written, 5), Ok(()));
    card.borrow_mut().corrupt_next_read = true;

    let mut read = vec![0u8; 512];
    let host = crc16(&written);
    assert_eq!(
        device.read(&mut read, 5),
        Err(DiskioError::Hardware(Error::CrcError(host ^ 0x8001, host)))
    );
    assert!(!card.borrow().selected);

    assert_eq!(device.read(&mut read, 5), Ok(()));
    assert_eq!(read, written);
}

#[test]
fn rejected_block_is_not_stored() {
    let (mut device, card) = ready_device(true);
    card.borrow_mut().reject_next_write = true;
    let written = pattern(4, 512);
    assert_eq!(device.write(&written, 6), Err(DiskioError::Hardware(Error::WriteError)));
    assert!(!card.borrow().selected);
    assert!(card.borrow().blocks.is_empty());
}
