//! The command engine of the driver.

use vstd::prelude::*;
use crate::bus::{extends, ChipSelect, Run, SpiBus, Trace};
use crate::config::SdMmcSpiConfig;
use crate::consts::{commands, tokens};
use crate::device::{ErrorFor, SdMmcSpi};
use crate::error::Error;
use crate::response::R1Response;
use crate::wire::{done, is_available, pause_at, wait_available_at, wait_for_token_at};
use crate::wire::command::{command_at, frame_command, read_r1_at, send_command_at};

verus! {

broadcast use crate::wire::group_runs_extend;

proof fn lemma_app_flag(cmd: u8)
    by (bit_vector)
    ensures
        (cmd & 0x80 != 0) <==> cmd >= 0x80,
        cmd & !0x80u8 == cmd % 0x80,
{
}

impl<Spi: SpiBus, Cs: ChipSelect, Config: SdMmcSpiConfig> SdMmcSpi<Spi, Cs, Config> {
    /// Delay: a busy wait of `DELAY_DUMMY_CYCLES` rounds.
    pub fn delay(&mut self)
        ensures
            final(self).same_card(old(self)),
            extends(final(self).trace(), old(self).trace()),
            pause_at(
                Config::DELAY_DUMMY_CYCLES as nat,
                final(self).trace(),
                old(self).trace().len() as int,
            ) == done::<(), Spi::Error, Cs::Error>(final(self).trace().len() as int, ()),
    {
        self.lines.pause(Config::DELAY_DUMMY_CYCLES);
    }

    /// Wait for token.
    pub(crate) fn wait_for_token<F: Fn(u8) -> bool>(
        &mut self,
        token_validator: F,
        error: ErrorFor<Spi, Cs>,
        Ghost(accepts): Ghost<spec_fn(u8) -> bool>,
    ) -> (result: Result<u8, ErrorFor<Spi, Cs>>)
        requires
            forall|token: u8| call_requires(token_validator, (token,)),
            forall|token: u8, valid: bool|
                call_ensures(token_validator, (token,), valid) ==> valid == accepts(token),
        ensures
            final(self).same_card(old(self)),
            extends(final(self).trace(), old(self).trace()),
            wait_for_token_at(
                accepts,
                error,
                Config::CMD_MAX_ATTEMPTS as nat,
                Some(Config::DELAY_DUMMY_CYCLES as nat),
                final(self).trace(),
                old(self).trace().len() as int,
            ) == Some(Run { end: final(self).trace().len() as int, value: result }),
    {
        let ghost start = self.trace();
        let mut attempt: usize = 0;
        while attempt < Config::CMD_MAX_ATTEMPTS
            invariant
                attempt <= Config::CMD_MAX_ATTEMPTS,
                self.same_card(old(self)),
                start == old(self).trace(),
                extends(self.trace(), start),
                forall|token: u8| call_requires(token_validator, (token,)),
                forall|token: u8, valid: bool|
                    call_ensures(token_validator, (token,), valid) ==> valid == accepts(token),
                forall|later: Trace<Spi::Error, Cs::Error>| #[trigger]
                    extends(later, self.trace()) ==> wait_for_token_at(
                        accepts,
                        error,
                        Config::CMD_MAX_ATTEMPTS as nat,
                        Some(Config::DELAY_DUMMY_CYCLES as nat),
                        later,
                        start.len() as int,
                    ) == wait_for_token_at(
                        accepts,
                        error,
                        (Config::CMD_MAX_ATTEMPTS - attempt) as nat,
                        Some(Config::DELAY_DUMMY_CYCLES as nat),
                        later,
                        self.trace().len() as int,
                    ),
            decreases Config::CMD_MAX_ATTEMPTS - attempt,
        {
            let token = self.receive()?;
            if token_validator(token) {
                return Ok(token);
            }
            self.delay();
            attempt += 1;
        }
        assert(extends(self.trace(), self.trace()));
        Err(error)
    }

    /// Wait available state of card.
    pub fn wait_available_state(&mut self) -> (result: Result<(), ErrorFor<Spi, Cs>>)
        ensures
            final(self).same_card(old(self)),
            extends(final(self).trace(), old(self).trace()),
            wait_available_at(
                Self::limits(),
                final(self).trace(),
                old(self).trace().len() as int,
            ) == Some(Run { end: final(self).trace().len() as int, value: result }),
    {
        let validator = |token: u8| -> (valid: bool)
            ensures
                valid == (token == tokens::AVAILABLE),
            { token == tokens::AVAILABLE };
        match self.wait_for_token(validator, Error::TimeoutWaitAvailable, Ghost(is_available())) {
            Ok(_) => Ok(()),
            Err(error) => Err(error),
        }
    }

    /// Send command implementation.
    pub fn send_command_impl(&mut self, cmd: u8, arg: u32) -> (result: Result<
        R1Response,
        ErrorFor<Spi, Cs>,
    >)
        ensures
            final(self).same_card(old(self)),
            extends(final(self).trace(), old(self).trace()),
            command_at(
                Self::limits(),
                cmd,
                arg,
                final(self).trace(),
                old(self).trace().len() as int,
            ) == Some(Run { end: final(self).trace().len() as int, value: result }),
    {
        let ghost start = self.trace();
        self.wait_available_state()?;

        let frame = frame_command(cmd, arg);
        self.send_slice(frame.as_slice())?;

        if cmd == commands::CMD12 {
            self.skip_byte()?;
        }
        let ghost polled = self.trace();

        let mut attempt: usize = 0;
        while attempt < Config::READ_R1_ATTEMPTS
            invariant
                attempt <= Config::READ_R1_ATTEMPTS,
                self.same_card(old(self)),
                start == old(self).trace(),
                extends(self.trace(), polled),
                extends(polled, start),
                forall|later: Trace<Spi::Error, Cs::Error>| #[trigger]
                    extends(later, polled) ==> command_at(
                        Self::limits(),
                        cmd,
                        arg,
                        later,
                        start.len() as int,
                    ) == read_r1_at(
                        cmd,
                        Config::READ_R1_ATTEMPTS as nat,
                        later,
                        polled.len() as int,
                    ),
                forall|later: Trace<Spi::Error, Cs::Error>| #[trigger]
                    extends(later, self.trace()) ==> read_r1_at(
                        cmd,
                        Config::READ_R1_ATTEMPTS as nat,
                        later,
                        polled.len() as int,
                    ) == read_r1_at(
                        cmd,
                        (Config::READ_R1_ATTEMPTS - attempt) as nat,
                        later,
                        self.trace().len() as int,
                    ),
            decreases Config::READ_R1_ATTEMPTS - attempt,
        {
            let r1 = R1Response(self.receive()?);
            if r1.is_valid() {
                return Ok(r1);
            }
            attempt += 1;
        }
        assert(extends(self.trace(), self.trace()));
        Err(Error::TimeoutCommand(cmd))
    }

    /// Send command.
    pub fn send_command(&mut self, cmd: u8, arg: u32) -> (result: Result<
        R1Response,
        ErrorFor<Spi, Cs>,
    >)
        ensures
            final(self).same_card(old(self)),
            extends(final(self).trace(), old(self).trace()),
            send_command_at(
                Self::limits(),
                cmd,
                arg,
                final(self).trace(),
                old(self).trace().len() as int,
            ) == Some(Run { end: final(self).trace().len() as int, value: result }),
    {
        proof {
            lemma_app_flag(cmd);
        }
        if (cmd & commands::ACMD_FLAG) != 0 {
            self.send_command_impl(commands::CMD55, 0x0000_0000)?;
        }
        self.send_command_impl(cmd & !commands::ACMD_FLAG, arg)
    }
}

} // verus!
