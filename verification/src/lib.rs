//! Driver for SD and MMC memory cards attached over SPI.
//!
//! The driver brings a card from power-on into SPI mode, classifies it,
//! reads its capacity, and then serves block reads and writes with CRC
//! checking.
//!
//! Nothing is assumed of the card or of the bus. Every bus operation is
//! recorded in a ghost trace ([`bus`]), and the protocol is written down as a
//! function of that trace ([`wire`]): where a piece of protocol ends and what
//! it yields, given what the bus answered. The contract of each function of
//! the driver ([`device`]) states that the trace grew by exactly one run of
//! its piece of protocol, and that it returned what that run yields.
//!
//! The layers, leaves first: [`crc`] and [`response`]; the transport shim and
//! the command engine; the data phase, the initialization sequence and the
//! [`csd`] decoder; and the block-device interface of [`SdMmcSpi`].

pub mod bus;
pub mod card;
pub mod config;
pub mod consts;
pub mod crc;
pub mod csd;
pub mod device;
pub mod error;
pub mod ioctl;
pub mod response;
pub mod status;
pub mod wire;

pub use crate::bus::{ChipSelect, SpiBus};
pub use crate::card::CardType;
pub use crate::config::{DefaultSdMmcSpiConfig, SdMmcSpiConfig};
pub use crate::crc::{crc16, crc7};
pub use crate::csd::{CapacityProvider, Csd, CsdData, CsdV1, CsdV2};
pub use crate::device::SdMmcSpi;
pub use crate::error::{DiskioError, Error};
pub use crate::ioctl::{BlockSize, DataArea, IoctlCmd, Lba, SectorSize};
pub use crate::response::R1Response;
pub use crate::status::{Status, StatusFlag};
