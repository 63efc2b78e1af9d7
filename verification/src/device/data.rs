//! The data phase of the driver.

use vstd::prelude::*;
use crate::bus::{extends, ChipSelect, Run, SpiBus};
use crate::config::SdMmcSpiConfig;
use crate::consts::tokens;
use crate::crc::crc16;
use crate::device::{ErrorFor, SdMmcSpi};
use crate::error::Error;
use crate::wire::data::{
    check_block, check_data_response, crc_from_bytes, crc_to_bytes, read_data_at, write_data_at,
};
use crate::wire::is_token;

verus! {

broadcast use crate::wire::group_runs_extend;

impl<Spi: SpiBus, Cs: ChipSelect, Config: SdMmcSpiConfig> SdMmcSpi<Spi, Cs, Config> {
    /// Read data.
    pub fn read_data(&mut self, data: &mut [u8]) -> (result: Result<(), ErrorFor<Spi, Cs>>)
        ensures
            final(self).same_card(old(self)),
            extends(final(self).trace(), old(self).trace()),
            final(data)@.len() == old(data)@.len(),
            read_data_at(
                Self::limits(),
                old(data)@.len(),
                final(self).trace(),
                old(self).trace().len() as int,
            ) == Some(
                Run {
                    end: final(self).trace().len() as int,
                    value: match result {
                        Ok(_) => Ok(final(data)@),
                        Err(error) => Err(error),
                    },
                },
            ),
    {
        let validator = |token: u8| -> (valid: bool)
            ensures
                valid == (token != tokens::AVAILABLE),
            { token != tokens::AVAILABLE };
        if self.wait_for_token(validator, Error::TimeoutReadBuffer, Ghost(is_token()))?
            != tokens::DATA_START_BLOCK {
            return Err(Error::ReadError);
        }
        self.receive_slice(data)?;

        let high = self.receive()?;
        let low = self.receive()?;
        check_block(data, crc_from_bytes(high, low))
    }

    /// Write data.
    pub fn write_data(&mut self, token: u8, data: &[u8]) -> (result: Result<
        (),
        ErrorFor<Spi, Cs>,
    >)
        ensures
            final(self).same_card(old(self)),
            extends(final(self).trace(), old(self).trace()),
            write_data_at(token, data@, final(self).trace(), old(self).trace().len() as int)
                == Some(Run { end: final(self).trace().len() as int, value: result }),
    {
        let (high, low) = crc_to_bytes(crc16(data));

        self.send(token)?;
        self.send_slice(data)?;
        self.send(high)?;
        self.send(low)?;

        check_data_response(self.receive()?)
    }
}

} // verus!
