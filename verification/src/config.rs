//! Static configuration of the driver: the bounds of its polling loops.

use vstd::prelude::*;

verus! {

/// Represents config for [`SdMmcSpi`](crate::SdMmcSpi).
pub trait SdMmcSpiConfig {
    /// Max attempts to send command.
    const CMD_MAX_ATTEMPTS: usize;

    /// Max attempts to read R1.
    const READ_R1_ATTEMPTS: usize;

    /// Max attempts to enter SPI mode.
    const ENTER_SPI_MODE_ATTEMPTS: usize;

    /// Count of dummy cycles for delay.
    const DELAY_DUMMY_CYCLES: usize;
}

/// Default implementation of [`SdMmcSpiConfig`](crate::SdMmcSpiConfig).
pub struct DefaultSdMmcSpiConfig;

impl SdMmcSpiConfig for DefaultSdMmcSpiConfig {
    const CMD_MAX_ATTEMPTS: usize = 256;

    const READ_R1_ATTEMPTS: usize = 128;

    const ENTER_SPI_MODE_ATTEMPTS: usize = 10;

    const DELAY_DUMMY_CYCLES: usize = 32;
}

/// The bounds of the polling loops, as the protocol model reads them.
pub struct Limits {
    /// Bound on wait-for-token and classification loops.
    pub cmd_max_attempts: nat,
    /// Bound on R1 polling.
    pub read_r1_attempts: nat,
    /// Bound on CMD0 retries.
    pub enter_spi_mode_attempts: nat,
    /// Rounds of busy waiting between two polls.
    pub delay_dummy_cycles: nat,
}

/// The bounds that a configuration sets.
pub open spec fn limits_of<Config: SdMmcSpiConfig>() -> Limits {
    Limits {
        cmd_max_attempts: Config::CMD_MAX_ATTEMPTS as nat,
        read_r1_attempts: Config::READ_R1_ATTEMPTS as nat,
        enter_spi_mode_attempts: Config::ENTER_SPI_MODE_ATTEMPTS as nat,
        delay_dummy_cycles: Config::DELAY_DUMMY_CYCLES as nat,
    }
}

} // verus!
