//! The initialization sequence of the driver.

use vstd::prelude::*;
use crate::bus::{extends, ChipSelect, Run, SpiBus, Trace};
use crate::card::CardType;
use crate::config::SdMmcSpiConfig;
use crate::consts::{commands, tokens};
use crate::csd::{Csd, CsdData, CsdV1, CsdV2};
use crate::device::{ErrorFor, SdMmcSpi};
use crate::error::Error;
use crate::response::R1Response;
use crate::wire::bringup::{
    check_type_at, enable_crc_at, enter_spi_mode_at, read_csd_at, send_if_cond_at, send_op_comd_at,
};
use crate::wire::receive_slice_at;

verus! {

broadcast use crate::wire::group_runs_extend;

proof fn lemma_capacity_status_bit(ocr: u8)
    by (bit_vector)
    ensures
        (ocr & 0x40 == 0x40) <==> ocr / 0x40 % 2 == 1,
{
}

impl<Spi: SpiBus, Cs: ChipSelect, Config: SdMmcSpiConfig> SdMmcSpi<Spi, Cs, Config> {
    /// Receives the four bytes that follow the R1 of an R3 or R7 response
    /// and returns the one at `index`.
    fn receive_trailer(&mut self, index: usize) -> (result: Result<u8, ErrorFor<Spi, Cs>>)
        requires
            index < 4,
        ensures
            final(self).same_card(old(self)),
            extends(final(self).trace(), old(self).trace()),
            receive_slice_at(
                Seq::empty(),
                4,
                final(self).trace(),
                old(self).trace().len() as int,
            ) matches Some(run) && run.end == final(self).trace().len() && match result {
                Ok(byte) => run.value matches Ok(bytes) && bytes[index as int] == byte,
                Err(error) => run.value == Err::<Seq<u8>, _>(error),
            },
    {
        let mut trailer: [u8; 4] = [0u8; 4];
        self.receive_slice(&mut trailer)?;
        Ok(trailer[index])
    }

    /// Enter SD to SPI mode.
    pub fn enter_spi_mode(&mut self) -> (result: Result<(), ErrorFor<Spi, Cs>>)
        ensures
            final(self).same_card(old(self)),
            extends(final(self).trace(), old(self).trace()),
            enter_spi_mode_at(
                Self::limits(),
                Config::ENTER_SPI_MODE_ATTEMPTS as nat,
                final(self).trace(),
                old(self).trace().len() as int,
            ) == Some(Run { end: final(self).trace().len() as int, value: result }),
    {
        let ghost start = self.trace();
        let mut attempt: usize = 0;
        while attempt < Config::ENTER_SPI_MODE_ATTEMPTS
            invariant
                attempt <= Config::ENTER_SPI_MODE_ATTEMPTS,
                self.same_card(old(self)),
                start == old(self).trace(),
                extends(self.trace(), start),
                forall|later: Trace<Spi::Error, Cs::Error>| #[trigger]
                    extends(later, self.trace()) ==> enter_spi_mode_at(
                        Self::limits(),
                        Config::ENTER_SPI_MODE_ATTEMPTS as nat,
                        later,
                        start.len() as int,
                    ) == enter_spi_mode_at(
                        Self::limits(),
                        (Config::ENTER_SPI_MODE_ATTEMPTS - attempt) as nat,
                        later,
                        self.trace().len() as int,
                    ),
            decreases Config::ENTER_SPI_MODE_ATTEMPTS - attempt,
        {
            match self.send_command(commands::CMD0, 0x0000_0000) {
                Ok(r1) => {
                    if r1 == R1Response(R1Response::IN_IDLE_STATE) {
                        return Ok(());
                    }
                },
                Err(error) => {
                    let timed_out = match error {
                        Error::TimeoutCommand(cmd) => cmd == commands::CMD0,
                        _ => false,
                    };
                    if !timed_out {
                        return Err(error);
                    }
                },
            }
            self.delay();
            attempt += 1;
        }
        assert(extends(self.trace(), self.trace()));
        Err(Error::TimeoutCommand(commands::CMD0))
    }

    /// Enable CRC.
    pub fn enable_crc(&mut self) -> (result: Result<(), ErrorFor<Spi, Cs>>)
        ensures
            final(self).same_card(old(self)),
            extends(final(self).trace(), old(self).trace()),
            enable_crc_at(Self::limits(), final(self).trace(), old(self).trace().len() as int)
                == Some(Run { end: final(self).trace().len() as int, value: result }),
    {
        if self.send_command(commands::CMD59, 0x0000_0001)? != R1Response(
            R1Response::IN_IDLE_STATE,
        ) {
            Err(Error::CantEnableCRC)
        } else {
            Ok(())
        }
    }

    /// Verify SD Memory Card interface operating condition.
    pub fn send_if_cond(&mut self) -> (result: Result<CardType, ErrorFor<Spi, Cs>>)
        ensures
            final(self).same_card(old(self)),
            extends(final(self).trace(), old(self).trace()),
            send_if_cond_at(
                Self::limits(),
                Config::CMD_MAX_ATTEMPTS as nat,
                final(self).trace(),
                old(self).trace().len() as int,
            ) == Some(Run { end: final(self).trace().len() as int, value: result }),
    {
        let ghost start = self.trace();
        let mut attempt: usize = 0;
        while attempt < Config::CMD_MAX_ATTEMPTS
            invariant
                attempt <= Config::CMD_MAX_ATTEMPTS,
                self.same_card(old(self)),
                start == old(self).trace(),
                extends(self.trace(), start),
                forall|later: Trace<Spi::Error, Cs::Error>| #[trigger]
                    extends(later, self.trace()) ==> send_if_cond_at(
                        Self::limits(),
                        Config::CMD_MAX_ATTEMPTS as nat,
                        later,
                        start.len() as int,
                    ) == send_if_cond_at(
                        Self::limits(),
                        (Config::CMD_MAX_ATTEMPTS - attempt) as nat,
                        later,
                        self.trace().len() as int,
                    ),
            decreases Config::CMD_MAX_ATTEMPTS - attempt,
        {
            let r1 = self.send_command(commands::CMD8, 0x0000_01AA)?;
            if r1 == R1Response(R1Response::IN_IDLE_AND_ILLEGAL) {
                return Ok(CardType::SD1);
            }
            let echo = self.receive_trailer(3)?;
            if echo == tokens::CMD8_STATUS {
                return Ok(CardType::SD2);
            }
            attempt += 1;
        }
        assert(extends(self.trace(), self.trace()));
        Err(Error::TimeoutCommand(commands::CMD8))
    }

    /// Sends host capacity support information and activates.
    pub fn send_op_comd(&mut self, arg: u32) -> (result: Result<(), ErrorFor<Spi, Cs>>)
        ensures
            final(self).same_card(old(self)),
            extends(final(self).trace(), old(self).trace()),
            send_op_comd_at(
                Self::limits(),
                arg,
                Config::CMD_MAX_ATTEMPTS as nat,
                final(self).trace(),
                old(self).trace().len() as int,
            ) == Some(Run { end: final(self).trace().len() as int, value: result }),
    {
        let ghost start = self.trace();
        let mut attempt: usize = 0;
        while attempt < Config::CMD_MAX_ATTEMPTS
            invariant
                attempt <= Config::CMD_MAX_ATTEMPTS,
                self.same_card(old(self)),
                start == old(self).trace(),
                extends(self.trace(), start),
                forall|later: Trace<Spi::Error, Cs::Error>| #[trigger]
                    extends(later, self.trace()) ==> send_op_comd_at(
                        Self::limits(),
                        arg,
                        Config::CMD_MAX_ATTEMPTS as nat,
                        later,
                        start.len() as int,
                    ) == send_op_comd_at(
                        Self::limits(),
                        arg,
                        (Config::CMD_MAX_ATTEMPTS - attempt) as nat,
                        later,
                        self.trace().len() as int,
                    ),
            decreases Config::CMD_MAX_ATTEMPTS - attempt,
        {
            let r1 = self.send_command(commands::ACMD41, arg)?;
            if r1 == R1Response(R1Response::READY_STATE) {
                return Ok(());
            }
            attempt += 1;
        }
        assert(extends(self.trace(), self.trace()));
        Err(Error::TimeoutCommand(commands::ACMD41))
    }

    /// Check SD type.
    pub fn check_type(&mut self) -> (result: Result<CardType, ErrorFor<Spi, Cs>>)
        ensures
            final(self).same_card(old(self)),
            extends(final(self).trace(), old(self).trace()),
            check_type_at(Self::limits(), final(self).trace(), old(self).trace().len() as int)
                == Some(Run { end: final(self).trace().len() as int, value: result }),
    {

        let mut card_type = self.send_if_cond()?;

        let arg: u32 = match card_type {
            CardType::SD1 => 0x0000_0000,
            CardType::SD2 | CardType::SDHC => 0x4000_0000,
        };

        self.send_op_comd(arg)?;

        if card_type == CardType::SD2 {
            if self.send_command(commands::CMD58, 0x0000_0000)? != R1Response(
                R1Response::READY_STATE,
            ) {
                return Err(Error::ErrorCommand(commands::CMD58));
            }
            let ocr = self.receive_trailer(0)?;
            proof {
                lemma_capacity_status_bit(ocr);
            }
            if (ocr & tokens::CMD58_OCR) == tokens::CMD58_OCR {
                card_type = CardType::SDHC;
            }
        }
        Ok(card_type)
    }

    /// Read CSD.
    pub fn read_csd(&mut self) -> (result: Result<Csd, ErrorFor<Spi, Cs>>)
        ensures
            final(self).same_card(old(self)),
            extends(final(self).trace(), old(self).trace()),
            read_csd_at(
                Self::limits(),
                old(self).spec_card_type(),
                final(self).trace(),
                old(self).trace().len() as int,
            ) == Some(Run { end: final(self).trace().len() as int, value: result }),
    {

        let mut csd_data: CsdData = [0u8; 16];

        if self.send_command(commands::CMD9, 0x0000_0000)? != R1Response(
            R1Response::READY_STATE,
        ) {
            return Err(Error::RegisterReadError);
        }
        self.read_data(&mut csd_data)?;

        Ok(
            match self.card_type {
                CardType::SD1 => Csd::V1(CsdV1::from(csd_data)),
                CardType::SD2 | CardType::SDHC => Csd::V2(CsdV2::from(csd_data)),
            },
        )
    }
}

} // verus!
