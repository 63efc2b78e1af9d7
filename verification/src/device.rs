//! The driver: its state and the transport shim it is built on.

use vstd::prelude::*;
use core::marker::PhantomData;
use crate::bus::{extends, ChipSelect, Lines, Run, SpiBus, Trace};
use crate::card::CardType;
use crate::config::{limits_of, Limits, SdMmcSpiConfig};
use crate::consts::tokens;
use crate::csd::Csd;
use crate::error::Error;
use crate::status::Status;
use crate::wire::{exchange_at, receive_at, receive_slice_at, send_at, send_slice_at};

pub mod bringup;
pub mod command;
pub mod data;
pub mod session;

verus! {

broadcast use crate::wire::group_runs_extend;

/// Error of a driver over the bus `Spi` and the chip select `Cs`.
pub type ErrorFor<Spi, Cs> = Error<<Spi as SpiBus>::Error, <Cs as ChipSelect>::Error>;

/// SD Card SPI driver.
///
/// `Spi` - SPI.
/// `Cs` - Chip select output switch.
/// `Config` - Config implementation of driver config trait.
pub struct SdMmcSpi<Spi: SpiBus, Cs: ChipSelect, Config: SdMmcSpiConfig> {
    lines: Lines<Spi, Cs>,
    status: Status,
    card_type: CardType,
    csd: Csd,
    config: PhantomData<Config>,
}

impl<Spi: SpiBus, Cs: ChipSelect, Config: SdMmcSpiConfig> SdMmcSpi<Spi, Cs, Config> {
    /// Everything the driver has done on the bus so far.
    pub closed spec fn trace(&self) -> Trace<Spi::Error, Cs::Error> {
        self.lines.trace()
    }

    /// The status flags.
    pub closed spec fn spec_status(&self) -> Status {
        self.status
    }

    /// The card classification; meaningful once initialized.
    pub closed spec fn spec_card_type(&self) -> CardType {
        self.card_type
    }

    /// The card's CSD register; meaningful once initialized.
    pub closed spec fn spec_csd(&self) -> Csd {
        self.csd
    }

    /// The bounds of the polling loops.
    pub open spec fn limits() -> Limits {
        limits_of::<Config>()
    }

    /// Both drivers know the same of the card.
    pub open spec fn same_card(&self, other: &Self) -> bool {
        &&& self.spec_status() == other.spec_status()
        &&& self.spec_card_type() == other.spec_card_type()
        &&& self.spec_csd() == other.spec_csd()
    }

    /// Send one byte and receive one byte.
    pub fn transfer(&mut self, data: u8) -> (result: Result<u8, ErrorFor<Spi, Cs>>)
        ensures
            final(self).same_card(old(self)),
            extends(final(self).trace(), old(self).trace()),
            exchange_at(data, final(self).trace(), old(self).trace().len() as int) == Some(
                Run { end: final(self).trace().len() as int, value: result },
            ),
    {
        match self.lines.exchange(data) {
            Ok(received) => Ok(received),
            Err(error) => Err(Error::Transport(error)),
        }
    }

    /// Receive a byte from the SD card by clocking in an 0xFF byte.
    pub fn receive(&mut self) -> (result: Result<u8, ErrorFor<Spi, Cs>>)
        ensures
            final(self).same_card(old(self)),
            extends(final(self).trace(), old(self).trace()),
            receive_at(final(self).trace(), old(self).trace().len() as int) == Some(
                Run { end: final(self).trace().len() as int, value: result },
            ),
    {
        self.transfer(tokens::AVAILABLE)
    }

    /// Send a byte to the SD card.
    pub fn send(&mut self, data: u8) -> (result: Result<(), ErrorFor<Spi, Cs>>)
        ensures
            final(self).same_card(old(self)),
            extends(final(self).trace(), old(self).trace()),
            send_at(data, final(self).trace(), old(self).trace().len() as int) == Some(
                Run { end: final(self).trace().len() as int, value: result },
            ),
    {
        match self.transfer(data) {
            Ok(_) => Ok(()),
            Err(error) => Err(error),
        }
    }

    /// Receive a slice from the SD card.
    pub fn receive_slice(&mut self, data: &mut [u8]) -> (result: Result<(), ErrorFor<Spi, Cs>>)
        ensures
            final(self).same_card(old(self)),
            extends(final(self).trace(), old(self).trace()),
            final(data)@.len() == old(data)@.len(),
            receive_slice_at(
                Seq::empty(),
                old(data)@.len(),
                final(self).trace(),
                old(self).trace().len() as int,
            ) == Some(
                Run {
                    end: final(self).trace().len() as int,
                    value: match result {
                        Ok(_) => Ok(final(data)@),
                        Err(error) => Err(error),
                    },
                },
            ),
    {
        let ghost start = self.trace();
        let count = data.len();
        let mut index: usize = 0;
        assert(data@.take(0) =~= Seq::<u8>::empty());
        while index < count
            invariant
                index <= count,
                count == data@.len(),
                count == old(data)@.len(),
                self.same_card(old(self)),
                start == old(self).trace(),
                extends(self.trace(), start),
                forall|later: Trace<Spi::Error, Cs::Error>| #[trigger]
                    extends(later, self.trace()) ==> receive_slice_at(
                        Seq::empty(),
                        count as nat,
                        later,
                        start.len() as int,
                    ) == receive_slice_at(
                        data@.take(index as int),
                        (count - index) as nat,
                        later,
                        self.trace().len() as int,
                    ),
            decreases count - index,
        {
            let ghost got = data@.take(index as int);
            let byte = self.receive()?;
            data[index] = byte;
            assert(data@.take(index as int + 1) =~= got.push(byte));
            index += 1;
        }
        assert(extends(self.trace(), self.trace()));
        assert(data@.take(count as int) =~= data@);
        Ok(())
    }

    /// Send a slice to the SD card.
    pub fn send_slice(&mut self, data: &[u8]) -> (result: Result<(), ErrorFor<Spi, Cs>>)
        ensures
            final(self).same_card(old(self)),
            extends(final(self).trace(), old(self).trace()),
            send_slice_at(data@, 0, final(self).trace(), old(self).trace().len() as int) == Some(
                Run { end: final(self).trace().len() as int, value: result },
            ),
    {
        let ghost start = self.trace();
        let mut index: usize = 0;
        while index < data.len()
            invariant
                index <= data.len(),
                self.same_card(old(self)),
                start == old(self).trace(),
                extends(self.trace(), start),
                forall|later: Trace<Spi::Error, Cs::Error>| #[trigger]
                    extends(later, self.trace()) ==> send_slice_at(
                        data@,
                        0,
                        later,
                        start.len() as int,
                    ) == send_slice_at(data@, index as int, later, self.trace().len() as int),
            decreases data.len() - index,
        {
            self.send(data[index])?;
            index += 1;
        }
        assert(extends(self.trace(), self.trace()));
        Ok(())
    }

    /// Skip byte.
    pub fn skip_byte(&mut self) -> (result: Result<(), ErrorFor<Spi, Cs>>)
        ensures
            final(self).same_card(old(self)),
            extends(final(self).trace(), old(self).trace()),
            send_at(tokens::AVAILABLE, final(self).trace(), old(self).trace().len() as int)
                == Some(Run { end: final(self).trace().len() as int, value: result }),
    {
        match self.receive() {
            Ok(_) => Ok(()),
            Err(error) => Err(error),
        }
    }
}

} // verus!
