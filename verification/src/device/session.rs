//! The block-device interface of the driver.

use vstd::prelude::*;
use vstd::slice::slice_subrange;
use core::marker::PhantomData;
use crate::bus::{extends, BusEvent, ChipSelect, Lines, Run, SpiBus, Trace};
use crate::card::CardType;
use crate::config::SdMmcSpiConfig;
use crate::consts::{commands, tokens, BLOCK_SIZE};
use crate::csd::{Csd, CsdV1};
use crate::device::{ErrorFor, SdMmcSpi};
use crate::error::{DiskioError, Error};
use crate::ioctl::{IoctlCmd, Lba};
use crate::response::R1Response;
use crate::status::{Status, StatusFlag};
use crate::wire::bringup::bring_up_at;
use crate::wire::command::send_command_at;
use crate::wire::session::{
    init_at, is_block_multiple, read_at, read_blocks_at, read_body_at, release_at, scope_result,
    select_at, warm_up_at, warm_up_bytes, wire_address, write_at, write_blocks_at, write_body_at,
};
use crate::wire::wait_available_at;

verus! {

broadcast use crate::wire::group_runs_extend;

/// Error of the block-device interface of a driver over `Spi` and `Cs`.
pub type DeviceErrorFor<Spi, Cs> = DiskioError<ErrorFor<Spi, Cs>>;

/// An error of the protocol engine as the block-device interface reports it.
pub open spec fn hardware<V, E>(result: Result<V, E>) -> Result<V, DiskioError<E>> {
    match result {
        Ok(value) => Ok(value),
        Err(error) => Err(DiskioError::Hardware(error)),
    }
}

proof fn lemma_address_bits(lba: u64)
    by (bit_vector)
    ensures
        (lba & 0x7F_FFFF) << 9 == (lba % 0x80_0000) * 512,
        (lba & 0x7F_FFFF) << 9 <= 0xFFFF_FFFF,
        lba & 0xFFFF_FFFF == lba % 0x1_0000_0000,
{
}

impl<Spi: SpiBus, Cs: ChipSelect, Config: SdMmcSpiConfig> SdMmcSpi<Spi, Cs, Config> {
    /// Whether the device has been initialized.
    pub open spec fn is_initialized(&self) -> bool {
        !self.spec_status()@.contains(StatusFlag::NotInitialized)
    }

    /// Creates a new [`SdMmcSpi<Spi, Cs, Config>`].
    ///
    /// `spi` - SPI instance.
    /// `cs` - chip select output switch.
    pub fn new(spi: Spi, cs: Cs) -> (device: Self)
        ensures
            device.spec_status()@ == set![StatusFlag::NotInitialized],
            device.trace() == Seq::<BusEvent<Spi::Error, Cs::Error>>::empty(),
    {
        SdMmcSpi {
            lines: Lines::new(spi, cs),
            status: Status::not_initialized(),
            card_type: CardType::SD1,
            csd: Csd::V1(CsdV1(0)),
            config: PhantomData,
        }
    }

    /// Validate buffer for read/write.
    pub fn validate_buffer_len(buf_len: usize) -> (result: Result<(), DeviceErrorFor<Spi, Cs>>)
        ensures
            is_block_multiple(buf_len as nat) ==> result == Ok::<(), DeviceErrorFor<Spi, Cs>>(()),
            !is_block_multiple(buf_len as nat) ==> result == Err::<(), DeviceErrorFor<Spi, Cs>>(
                DiskioError::InvalidArgument,
            ),
    {
        if buf_len == 0 || buf_len % BLOCK_SIZE != 0 {
            Err(DiskioError::InvalidArgument)
        } else {
            Ok(())
        }
    }

    /// Validate initialzed.
    fn validate_initialized(&self) -> (result: Result<(), DeviceErrorFor<Spi, Cs>>)
        ensures
            self.is_initialized() ==> result == Ok::<(), DeviceErrorFor<Spi, Cs>>(()),
            !self.is_initialized() ==> result == Err::<(), DeviceErrorFor<Spi, Cs>>(
                DiskioError::NotInitialized,
            ),
    {
        if self.status.contains(StatusFlag::NotInitialized) {
            Err(DiskioError::NotInitialized)
        } else {
            Ok(())
        }
    }

    /// Get count of blocks in buffer.
    fn get_block_count(buf_len: usize) -> (count: usize)
        ensures
            count == buf_len / 512,
    {
        buf_len / BLOCK_SIZE
    }

    /// Convert lba.
    pub fn convert_lba(&self, lba: Lba) -> (address: u32)
        ensures
            address == wire_address(self.spec_card_type(), lba),
    {
        proof {
            lemma_address_bits(lba);
        }
        match self.card_type {
            CardType::SD1 | CardType::SD2 => ((lba & 0x7F_FFFF) << 9) as u32,
            CardType::SDHC => (lba & 0xFFFF_FFFF) as u32,
        }
    }

    /// Activate chip select.
    pub fn select(&mut self) -> (result: Result<(), ErrorFor<Spi, Cs>>)
        ensures
            final(self).same_card(old(self)),
            extends(final(self).trace(), old(self).trace()),
            select_at(final(self).trace(), old(self).trace().len() as int) == Some(
                Run { end: final(self).trace().len() as int, value: result },
            ),
    {
        match self.lines.select() {
            Ok(_) => Ok(()),
            Err(error) => Err(Error::SelectError(error)),
        }
    }

    /// Deactivate chip select.
    pub fn unselect(&mut self) -> (result: Result<(), ErrorFor<Spi, Cs>>)
        ensures
            final(self).same_card(old(self)),
            extends(final(self).trace(), old(self).trace()),
            release_at(final(self).trace(), old(self).trace().len() as int) == Some(
                Run { end: final(self).trace().len() as int, value: result },
            ),
    {
        match self.lines.release() {
            Ok(_) => Ok(()),
            Err(error) => Err(Error::SelectError(error)),
        }
    }

    /// Leaves a chip-select scope whose body ended with `body`: releases
    /// chip select on every path, and lets an error of the body stand.
    fn leave_scope<V>(&mut self, body: Result<V, ErrorFor<Spi, Cs>>) -> (result: Result<
        V,
        ErrorFor<Spi, Cs>,
    >)
        ensures
            final(self).same_card(old(self)),
            extends(final(self).trace(), old(self).trace()),
            release_at(final(self).trace(), old(self).trace().len() as int) matches Some(released)
                && released.end == final(self).trace().len() && result == scope_result(
                body,
                released.value,
            ),
    {
        let released = self.unselect();
        match body {
            Ok(value) => match released {
                Ok(_) => Ok(value),
                Err(error) => Err(error),
            },
            Err(error) => Err(error),
        }
    }

    /// Gives the card its warm-up clocks while chip select is released.
    fn warm_up(&mut self) -> (result: Result<(), ErrorFor<Spi, Cs>>)
        ensures
            final(self).same_card(old(self)),
            extends(final(self).trace(), old(self).trace()),
            warm_up_at(final(self).trace(), old(self).trace().len() as int) == Some(
                Run { end: final(self).trace().len() as int, value: result },
            ),
    {
        self.unselect()?;

        let idle: [u8; 10] = [tokens::AVAILABLE; 10];
        assert(idle@ =~= warm_up_bytes());
        self.send_slice(idle.as_slice())
    }

    /// What initialization does while the card is selected.
    fn bring_up(&mut self) -> (result: Result<(), ErrorFor<Spi, Cs>>)
        ensures
            final(self).spec_status() == old(self).spec_status(),
            extends(final(self).trace(), old(self).trace()),
            bring_up_at(Self::limits(), final(self).trace(), old(self).trace().len() as int)
                == Some(
                Run {
                    end: final(self).trace().len() as int,
                    value: match result {
                        Ok(_) => Ok((final(self).spec_card_type(), final(self).spec_csd())),
                        Err(error) => Err(error),
                    },
                },
            ),
    {
        self.enter_spi_mode()?;
        self.enable_crc()?;

        self.card_type = self.check_type()?;
        self.csd = self.read_csd()?;

        Ok(())
    }

    /// `self` is the device after an initialization that began at `before`
    /// and returned `result`: the bus saw the whole sequence; a success left
    /// the device ready with the card's type and register, and a failure
    /// reads "card not found" and left it uninitialized with the error flag.
    pub open spec fn after_init(
        &self,
        before: &Self,
        result: Result<(), ErrorFor<Spi, Cs>>,
    ) -> bool {
        &&& extends(self.trace(), before.trace())
        &&& match init_at(Self::limits(), self.trace(), before.trace().len() as int) {
            Some(run) => run.end == self.trace().len() && match run.value {
                Ok((card_type, csd)) => {
                    &&& result == Ok::<(), ErrorFor<Spi, Cs>>(())
                    &&& self.spec_status()@ == Set::<StatusFlag>::empty()
                    &&& self.spec_card_type() == card_type
                    &&& self.spec_csd() == csd
                },
                Err(error) => {
                    &&& result == Err::<(), ErrorFor<Spi, Cs>>(Error::CardNotFound)
                    &&& self.spec_status()@ == set![
                        StatusFlag::NotInitialized,
                        StatusFlag::ErrorOccured,
                    ]
                },
            },
            None => false,
        }
    }

    /// Initialize SD.
    fn init(&mut self) -> (result: Result<(), ErrorFor<Spi, Cs>>)
        ensures
            final(self).after_init(old(self), result),
    {
        let outcome = match self.warm_up() {
            Ok(_) => match self.select() {
                Ok(_) => {
                    let body = self.bring_up();
                    self.leave_scope(body)
                },
                Err(error) => Err(error),
            },
            Err(error) => Err(error),
        };
        match outcome {
            Ok(_) => {
                self.status = Status::default();
                Ok(())
            },
            Err(_) => {
                self.status = Status::failed();
                Err(Error::CardNotFound)
            },
        }
    }

    /// Get status of device.
    pub fn status(&self) -> (status: Status)
        ensures
            status == self.spec_status(),
    {
        self.status
    }

    /// The card's classification, once the device is initialized.
    pub fn card_type(&self) -> (card_type: Option<CardType>)
        ensures
            card_type == if self.is_initialized() {
                Some(self.spec_card_type())
            } else {
                None
            },
    {
        if self.status.contains(StatusFlag::NotInitialized) {
            None
        } else {
            Some(self.card_type)
        }
    }

    /// The card's CSD register, once the device is initialized.
    pub fn csd(&self) -> (csd: Option<Csd>)
        ensures
            csd == if self.is_initialized() {
                Some(self.spec_csd())
            } else {
                None
            },
    {
        if self.status.contains(StatusFlag::NotInitialized) {
            None
        } else {
            Some(self.csd)
        }
    }

    /// Reset device: it counts as not initialized again. Nothing goes over
    /// the bus.
    pub fn reset(&mut self)
        ensures
            final(self).spec_status()@ == set![StatusFlag::NotInitialized],
            final(self).trace() == old(self).trace(),
    {
        self.status = Status::not_initialized();
    }

    /// Initialize device.
    pub fn initialize(&mut self) -> (result: Result<(), DeviceErrorFor<Spi, Cs>>)
        ensures
            old(self).is_initialized() ==> {
                &&& result == Err::<(), DeviceErrorFor<Spi, Cs>>(DiskioError::AlreadyInitialized)
                &&& final(self).trace() == old(self).trace()
                &&& final(self).same_card(old(self))
            },
            !old(self).is_initialized() ==> {
                &&& result == Ok::<(), DeviceErrorFor<Spi, Cs>>(()) || result == Err::<
                    (),
                    DeviceErrorFor<Spi, Cs>,
                >(DiskioError::Hardware(Error::CardNotFound))
                &&& final(self).after_init(
                    old(self),
                    if result is Ok {
                        Ok(())
                    } else {
                        Err(Error::CardNotFound)
                    },
                )
            },
    {
        if !self.status.contains(StatusFlag::NotInitialized) {
            return Err(DiskioError::AlreadyInitialized);
        }
        match self.init() {
            Ok(_) => Ok(()),
            Err(error) => Err(DiskioError::Hardware(error)),
        }
    }

    /// What a read does while the card is selected.
    fn read_blocks(&mut self, buf: &mut [u8], address: u32) -> (result: Result<
        (),
        ErrorFor<Spi, Cs>,
    >)
        requires
            is_block_multiple(old(buf)@.len()),
        ensures
            final(self).same_card(old(self)),
            extends(final(self).trace(), old(self).trace()),
            final(buf)@.len() == old(buf)@.len(),
            read_body_at(
                Self::limits(),
                address,
                old(buf)@.len() / 512,
                final(self).trace(),
                old(self).trace().len() as int,
            ) == Some(
                Run {
                    end: final(self).trace().len() as int,
                    value: match result {
                        Ok(_) => Ok(final(buf)@),
                        Err(error) => Err(error),
                    },
                },
            ),
    {
        let ghost start = self.trace();
        let len = buf.len();
        let block_count = Self::get_block_count(len);
        if block_count == 1 {
            self.send_command(commands::CMD17, address)?;
            self.read_data(buf)?;
        } else {
            self.send_command(commands::CMD18, address)?;
            let ghost answered = self.trace();
            let mut done: usize = 0;
            while done < block_count
                invariant
                    done <= block_count,
                    block_count != 1,
                    block_count == len / 512,
                    len % 512 == 0,
                    len == buf@.len(),
                    len == old(buf)@.len(),
                    self.same_card(old(self)),
                    start == old(self).trace(),
                    extends(answered, start),
                    extends(self.trace(), answered),
                    match send_command_at(
                        Self::limits(),
                        commands::CMD18,
                        address,
                        answered,
                        start.len() as int,
                    ) {
                        Some(run) => run.end == answered.len() && run.value is Ok,
                        None => false,
                    },
                    forall|later: Trace<Spi::Error, Cs::Error>| #[trigger]
                        extends(later, self.trace()) ==> read_blocks_at(
                            Self::limits(),
                            Seq::empty(),
                            block_count as nat,
                            later,
                            answered.len() as int,
                        ) == read_blocks_at(
                            Self::limits(),
                            buf@.take(done * 512),
                            (block_count - done) as nat,
                            later,
                            self.trace().len() as int,
                        ),
                decreases block_count - done,
            {
                let ghost got = buf@.take(done * 512);
                let (_, tail) = buf.split_at_mut(done * BLOCK_SIZE);
                let (chunk, _) = tail.split_at_mut(BLOCK_SIZE);
                self.read_data(chunk)?;
                let ghost block = chunk@;
                assert(buf@.take(done * 512 + 512) =~= got + block);
                done += 1;
            }
            assert(buf@.take(len as int) =~= buf@);
            self.send_command(commands::CMD12, 0x0000_0000)?;
        }
        Ok(())
    }

    /// What a write does while the card is selected.
    fn write_blocks(&mut self, buf: &[u8], address: u32) -> (result: Result<(), ErrorFor<Spi, Cs>>)
        requires
            is_block_multiple(buf@.len()),
        ensures
            final(self).same_card(old(self)),
            extends(final(self).trace(), old(self).trace()),
            write_body_at(
                Self::limits(),
                address,
                buf@,
                final(self).trace(),
                old(self).trace().len() as int,
            ) == Some(Run { end: final(self).trace().len() as int, value: result }),
    {
        let ghost start = self.trace();
        let len = buf.len();
        let block_count = Self::get_block_count(len);
        if block_count == 1 {
            self.send_command(commands::CMD24, address)?;
            self.write_data(tokens::DATA_START_BLOCK, buf)?;
            self.wait_available_state()?;
            if self.send_command(commands::CMD13, 0x0000_0000)? != R1Response(
                R1Response::READY_STATE,
            ) {
                return Err(Error::WriteError);
            }
            if self.receive()? != R1Response::READY_STATE {
                return Err(Error::WriteError);
            }
        } else {
            self.send_command(commands::CMD25, address)?;
            let ghost answered = self.trace();
            let mut done: usize = 0;
            while done < block_count
                invariant
                    done <= block_count,
                    block_count != 1,
                    block_count == len / 512,
                    len % 512 == 0,
                    len == buf@.len(),
                    self.same_card(old(self)),
                    start == old(self).trace(),
                    extends(answered, start),
                    extends(self.trace(), answered),
                    match send_command_at(
                        Self::limits(),
                        commands::CMD25,
                        address,
                        answered,
                        start.len() as int,
                    ) {
                        Some(run) => run.end == answered.len() && run.value is Ok,
                        None => false,
                    },
                    forall|later: Trace<Spi::Error, Cs::Error>| #[trigger]
                        extends(later, self.trace()) ==> write_blocks_at(
                            Self::limits(),
                            buf@,
                            0,
                            later,
                            answered.len() as int,
                        ) == write_blocks_at(
                            Self::limits(),
                            buf@,
                            done as int,
                            later,
                            self.trace().len() as int,
                        ),
                decreases block_count - done,
            {
                self.wait_available_state()?;
                let block = slice_subrange(buf, done * BLOCK_SIZE, done * BLOCK_SIZE + BLOCK_SIZE);
                self.write_data(tokens::WRITE_MULTIPLE, block)?;
                done += 1;
            }
            self.wait_available_state()?;
            self.send(tokens::STOP_TRAN)?;
        }
        Ok(())
    }

    /// `self` is the device after a read into a buffer of `len` bytes from
    /// block `lba` that began at `before`, filled the buffer with `buf` and
    /// returned `result`: the bus saw the whole read in one chip-select
    /// scope; a success put the blocks' payloads into the buffer, and an
    /// error is reported as it occurred.
    pub open spec fn after_read(
        &self,
        before: &Self,
        lba: Lba,
        len: nat,
        buf: Seq<u8>,
        result: Result<(), DeviceErrorFor<Spi, Cs>>,
    ) -> bool {
        &&& extends(self.trace(), before.trace())
        &&& match read_at(
            Self::limits(),
            wire_address(before.spec_card_type(), lba),
            len / 512,
            self.trace(),
            before.trace().len() as int,
        ) {
            Some(run) => run.end == self.trace().len() && match run.value {
                Ok(data) => result == Ok::<(), DeviceErrorFor<Spi, Cs>>(()) && buf == data,
                Err(error) => result == Err::<(), DeviceErrorFor<Spi, Cs>>(
                    DiskioError::Hardware(error),
                ),
            },
            None => false,
        }
    }

    /// `self` is the device after a write of `data` to block `lba` that
    /// began at `before` and returned `result`: the bus saw the whole write
    /// in one chip-select scope, and an error is reported as it occurred.
    pub open spec fn after_write(
        &self,
        before: &Self,
        lba: Lba,
        data: Seq<u8>,
        result: Result<(), DeviceErrorFor<Spi, Cs>>,
    ) -> bool {
        &&& extends(self.trace(), before.trace())
        &&& match write_at(
            Self::limits(),
            wire_address(before.spec_card_type(), lba),
            data,
            self.trace(),
            before.trace().len() as int,
        ) {
            Some(run) => run.end == self.trace().len() && result == hardware(run.value),
            None => false,
        }
    }

    /// Read data blocks from device by address.
    pub fn read(&mut self, buf: &mut [u8], lba: Lba) -> (result: Result<
        (),
        DeviceErrorFor<Spi, Cs>,
    >)
        ensures
            final(self).same_card(old(self)),
            final(buf)@.len() == old(buf)@.len(),
            !is_block_multiple(old(buf)@.len()) ==> {
                &&& result == Err::<(), DeviceErrorFor<Spi, Cs>>(DiskioError::InvalidArgument)
                &&& final(self).trace() == old(self).trace()
                &&& final(buf)@ == old(buf)@
            },
            is_block_multiple(old(buf)@.len()) && !old(self).is_initialized() ==> {
                &&& result == Err::<(), DeviceErrorFor<Spi, Cs>>(DiskioError::NotInitialized)
                &&& final(self).trace() == old(self).trace()
                &&& final(buf)@ == old(buf)@
            },
            is_block_multiple(old(buf)@.len()) && old(self).is_initialized()
                ==> final(self).after_read(old(self), lba, old(buf)@.len(), final(buf)@, result),
    {
        Self::validate_buffer_len(buf.len())?;
        self.validate_initialized()?;

        let address = self.convert_lba(lba);

        match self.select() {
            Ok(_) => {},
            Err(error) => {
                return Err(DiskioError::Hardware(error));
            },
        }
        let body = self.read_blocks(buf, address);
        match self.leave_scope(body) {
            Ok(_) => Ok(()),
            Err(error) => Err(DiskioError::Hardware(error)),
        }
    }

    /// Write data blocks to device by address.
    pub fn write(&mut self, buf: &[u8], lba: Lba) -> (result: Result<(), DeviceErrorFor<Spi, Cs>>)
        ensures
            final(self).same_card(old(self)),
            !is_block_multiple(buf@.len()) ==> {
                &&& result == Err::<(), DeviceErrorFor<Spi, Cs>>(DiskioError::InvalidArgument)
                &&& final(self).trace() == old(self).trace()
            },
            is_block_multiple(buf@.len()) && !old(self).is_initialized() ==> {
                &&& result == Err::<(), DeviceErrorFor<Spi, Cs>>(DiskioError::NotInitialized)
                &&& final(self).trace() == old(self).trace()
            },
            is_block_multiple(buf@.len()) && old(self).is_initialized()
                ==> final(self).after_write(old(self), lba, buf@, result),
    {
        Self::validate_buffer_len(buf.len())?;
        self.validate_initialized()?;

        let address = self.convert_lba(lba);

        match self.select() {
            Ok(_) => {},
            Err(error) => {
                return Err(DiskioError::Hardware(error));
            },
        }
        let body = self.write_blocks(buf, address);
        match self.leave_scope(body) {
            Ok(_) => Ok(()),
            Err(error) => Err(DiskioError::Hardware(error)),
        }
    }

    /// Make ioctl query to device.
    pub fn ioctl(&mut self, cmd: IoctlCmd<'_>) -> (result: Result<(), DeviceErrorFor<Spi, Cs>>)
        ensures
            final(self).same_card(old(self)),
            extends(final(self).trace(), old(self).trace()),
            match cmd {
                IoctlCmd::CtrlSync => match wait_available_at(
                    Self::limits(),
                    final(self).trace(),
                    old(self).trace().len() as int,
                ) {
                    Some(run) => run.end == final(self).trace().len() && result == hardware(
                        run.value,
                    ),
                    None => false,
                },
                IoctlCmd::GetBlockSize(block_size) => {
                    &&& result == Ok::<(), DeviceErrorFor<Spi, Cs>>(())
                    &&& *final(block_size) == 512
                    &&& final(self).trace() == old(self).trace()
                },
                IoctlCmd::GetSectorCount(sector_count) => {
                    &&& result == Err::<(), DeviceErrorFor<Spi, Cs>>(DiskioError::NotSupported)
                    &&& *final(sector_count) == *sector_count
                    &&& final(self).trace() == old(self).trace()
                },
                IoctlCmd::GetSectorSize(sector_size) => {
                    &&& result == Err::<(), DeviceErrorFor<Spi, Cs>>(DiskioError::NotSupported)
                    &&& *final(sector_size) == *sector_size
                    &&& final(self).trace() == old(self).trace()
                },
                IoctlCmd::CtrlTrim(_) => {
                    &&& result == Err::<(), DeviceErrorFor<Spi, Cs>>(DiskioError::NotSupported)
                    &&& final(self).trace() == old(self).trace()
                },
            },
    {
        match cmd {
            IoctlCmd::CtrlSync => match self.wait_available_state() {
                Ok(_) => Ok(()),
                Err(error) => Err(DiskioError::Hardware(error)),
            },
            IoctlCmd::GetBlockSize(block_size) => {
                *block_size = BLOCK_SIZE;
                Ok(())
            },
            _ => Err(DiskioError::NotSupported),
        }
    }
}

} // verus!
