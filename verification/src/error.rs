//! Error types of the protocol engine and of the device facade.

use vstd::prelude::*;

verus! {

/// [`SdMmcSpi`](crate::SdMmcSpi) result error.
///
/// `T` - transport error type.
/// `S` - select switch type.
#[derive(Debug, Clone, Copy, PartialEq, Eq)]
pub enum Error<T, S> {
    /// Error from the SPI peripheral.
    Transport(T),
    /// Couldn't set a select.
    SelectError(S),
    /// Failed to enable CRC checking on the card.
    CantEnableCRC,
    /// No response when reading data from the card.
    TimeoutReadBuffer,
    /// No response when waiting for the card to not be busy.
    TimeoutWaitAvailable,
    /// No response when executing this command.
    TimeoutCommand(u8),
    /// Command error.
    ErrorCommand(u8),
    /// Failed to read the Card Specific Data register.
    RegisterReadError,
    /// CRC mismatch (card, host).
    CrcError(u16, u16),
    /// Error reading from the card.
    ReadError,
    /// Error writing to the card.
    WriteError,
    /// Can't perform this operation with the card in this state.
    BadState,
    /// Couldn't find the card.
    CardNotFound,
}

/// Error of the block-device interface.
///
/// `E` - hardware error type.
#[derive(Debug, Clone, Copy, PartialEq, Eq)]
pub enum DiskioError<E> {
    /// Device isn't initialized.
    NotInitialized,
    /// Device is already initialized.
    AlreadyInitialized,
    /// The feature isn't supported by this device.
    NotSupported,
    /// Can't write to write protected device.
    WriteProtected,
    /// Invalid argument passed to device methods.
    InvalidArgument,
    /// Hardware error occurred.
    Hardware(E),
}

} // verus!
