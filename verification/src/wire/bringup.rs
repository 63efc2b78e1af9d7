//! The initialization sequence: from idle state to a classified card whose
//! CSD register has been read.

use vstd::prelude::*;
use crate::bus::{extends, Trace};
use crate::card::CardType;
use crate::config::Limits;
use crate::consts::{commands, tokens};
use crate::csd::{be_value, Csd, CsdV1, CsdV2};
use crate::error::Error;
use crate::response::R1Response;
use crate::wire::{
    done, failed, group_transport_spans, leaves_chip_select, lemma_pause_extends,
    lemma_receive_slice_extends, lemma_receive_slice_spans, pause_at, receive_slice_at, then,
    Outcome,
};
use crate::wire::command::{
    group_command_spans, lemma_send_command_extends, lemma_send_command_spans, send_command_at,
};
use crate::wire::data::{group_data_spans, lemma_read_data_extends, read_data_at};

verus! {

/// Whether an answer to CMD0 leads to another attempt: an R1 other than
/// in-idle does, and so does a timeout of CMD0.
pub open spec fn costs_an_attempt<T, S>(answer: Result<R1Response, Error<T, S>>) -> bool {
    match answer {
        Ok(r1) => r1 != R1Response(R1Response::IN_IDLE_STATE),
        Err(error) => error == Error::<T, S>::TimeoutCommand(commands::CMD0),
    }
}

/// CMD0 with argument 0, repeated until the card answers in-idle, at most
/// `attempts` times. An answer that costs an attempt is followed by a pause
/// of `delay_dummy_cycles` rounds; any other error ends the sequence.
pub open spec fn enter_spi_mode_at<T, S>(
    lim: Limits,
    attempts: nat,
    t: Trace<T, S>,
    p: int,
) -> Outcome<(), T, S>
    decreases attempts,
{
    if attempts == 0 {
        failed(p, Error::TimeoutCommand(commands::CMD0))
    } else {
        match send_command_at(lim, commands::CMD0, 0, t, p) {
            Some(run) => if costs_an_attempt(run.value) {
                match pause_at(lim.delay_dummy_cycles, t, run.end) {
                    Some(paused) => enter_spi_mode_at(lim, (attempts - 1) as nat, t, paused.end),
                    None => None,
                }
            } else {
                match run.value {
                    Ok(_) => done(run.end, ()),
                    Err(error) => failed(run.end, error),
                }
            },
            None => None,
        }
    }
}

/// CMD59 with argument 1 switches CRC checking on; the card must answer
/// in-idle.
pub open spec fn enable_crc_at<T, S>(lim: Limits, t: Trace<T, S>, p: int) -> Outcome<(), T, S> {
    then(
        send_command_at(lim, commands::CMD59, 1, t, p),
        |end: int, r1: R1Response|
            if r1 != R1Response(R1Response::IN_IDLE_STATE) {
                failed(end, Error::CantEnableCRC)
            } else {
                done(end, ())
            },
    )
}

/// CMD8 with argument 0x1AA, at most `attempts` times. A card that rejects
/// it as illegal is SD1. Otherwise four more bytes follow; when the last
/// echoes 0xAA the card is SD2, and else the command is sent again.
pub open spec fn send_if_cond_at<T, S>(
    lim: Limits,
    attempts: nat,
    t: Trace<T, S>,
    p: int,
) -> Outcome<CardType, T, S>
    decreases attempts,
{
    if attempts == 0 {
        failed(p, Error::TimeoutCommand(commands::CMD8))
    } else {
        match send_command_at(lim, commands::CMD8, 0x1AA, t, p) {
            Some(run) => match run.value {
                Ok(r1) => if r1 == R1Response(R1Response::IN_IDLE_AND_ILLEGAL) {
                    done(run.end, CardType::SD1)
                } else {
                    match receive_slice_at(Seq::empty(), 4, t, run.end) {
                        Some(echo) => match echo.value {
                            Ok(bytes) => if bytes[3] == tokens::CMD8_STATUS {
                                done(echo.end, CardType::SD2)
                            } else {
                                send_if_cond_at(lim, (attempts - 1) as nat, t, echo.end)
                            },
                            Err(error) => failed(echo.end, error),
                        },
                        None => None,
                    }
                },
                Err(error) => failed(run.end, error),
            },
            None => None,
        }
    }
}

/// The argument of ACMD41: the host-capacity bit for every card but SD1.
pub open spec fn op_cond_argument(card_type: CardType) -> u32 {
    match card_type {
        CardType::SD1 => 0x0000_0000,
        CardType::SD2 | CardType::SDHC => 0x4000_0000,
    }
}

/// ACMD41 with argument `arg`, repeated until the card answers ready, at
/// most `attempts` times.
pub open spec fn send_op_comd_at<T, S>(
    lim: Limits,
    arg: u32,
    attempts: nat,
    t: Trace<T, S>,
    p: int,
) -> Outcome<(), T, S>
    decreases attempts,
{
    if attempts == 0 {
        failed(p, Error::TimeoutCommand(commands::ACMD41))
    } else {
        match send_command_at(lim, commands::ACMD41, arg, t, p) {
            Some(run) => match run.value {
                Ok(r1) => if r1 == R1Response(R1Response::READY_STATE) {
                    done(run.end, ())
                } else {
                    send_op_comd_at(lim, arg, (attempts - 1) as nat, t, run.end)
                },
                Err(error) => failed(run.end, error),
            },
            None => None,
        }
    }
}

/// Whether the first byte of the OCR has the card-capacity-status bit set.
pub open spec fn has_capacity_status(ocr: u8) -> bool {
    ocr / 0x40 % 2 == 1
}

/// Classifying the card: CMD8, then ACMD41 until ready, and for an SD2
/// candidate CMD58, whose four OCR bytes tell SDHC from SD2.
pub open spec fn check_type_at<T, S>(
    lim: Limits,
    t: Trace<T, S>,
    p: int,
) -> Outcome<CardType, T, S> {
    then(
        send_if_cond_at(lim, lim.cmd_max_attempts, t, p),
        |probed: int, card_type: CardType|
            then(
                send_op_comd_at(lim, op_cond_argument(card_type), lim.cmd_max_attempts, t, probed),
                |ready: int, ok: ()|
                    if card_type == CardType::SD2 {
                        then(
                            send_command_at(lim, commands::CMD58, 0, t, ready),
                            |answered: int, r1: R1Response|
                                if r1 != R1Response(R1Response::READY_STATE) {
                                    failed(answered, Error::ErrorCommand(commands::CMD58))
                                } else {
                                    then(
                                        receive_slice_at(Seq::empty(), 4, t, answered),
                                        |end: int, ocr: Seq<u8>|
                                            done(
                                                end,
                                                if has_capacity_status(ocr[0]) {
                                                    CardType::SDHC
                                                } else {
                                                    CardType::SD2
                                                },
                                            ),
                                    )
                                },
                        )
                    } else {
                        done(ready, card_type)
                    },
            ),
    )
}

/// The register that 16 bytes spell for a card of the given type: version 1
/// for SD1, version 2 for SD2 and SDHC.
pub open spec fn decode_csd(card_type: CardType, data: Seq<u8>) -> Csd {
    match card_type {
        CardType::SD1 => Csd::V1(CsdV1(be_value(data) as u128)),
        CardType::SD2 | CardType::SDHC => Csd::V2(CsdV2(be_value(data) as u128)),
    }
}

/// Reading the CSD register: CMD9 must answer ready, and a data block of 16
/// bytes follows.
pub open spec fn read_csd_at<T, S>(
    lim: Limits,
    card_type: CardType,
    t: Trace<T, S>,
    p: int,
) -> Outcome<Csd, T, S> {
    then(
        send_command_at(lim, commands::CMD9, 0, t, p),
        |answered: int, r1: R1Response|
            if r1 != R1Response(R1Response::READY_STATE) {
                failed(answered, Error::RegisterReadError)
            } else {
                then(
                    read_data_at(lim, 16, t, answered),
                    |end: int, data: Seq<u8>| done(end, decode_csd(card_type, data)),
                )
            },
    )
}

/// What the driver does while the card is selected during initialization:
/// enter SPI mode, enable CRC, classify, read the CSD.
pub open spec fn bring_up_at<T, S>(
    lim: Limits,
    t: Trace<T, S>,
    p: int,
) -> Outcome<(CardType, Csd), T, S> {
    then(
        enter_spi_mode_at(lim, lim.enter_spi_mode_attempts, t, p),
        |idle: int, ok: ()|
            then(
                enable_crc_at(lim, t, idle),
                |checked: int, ok: ()|
                    then(
                        check_type_at(lim, t, checked),
                        |classified: int, card_type: CardType|
                            then(
                                read_csd_at(lim, card_type, t, classified),
                                |end: int, csd: Csd| done(end, (card_type, csd)),
                            ),
                    ),
            ),
    )
}

/// A run of `enter_spi_mode_at` that a trace holds is the same run in every
/// continuation of the trace.
pub broadcast proof fn lemma_enter_spi_mode_extends<T, S>(
    lim: Limits,
    attempts: nat,
    t: Trace<T, S>,
    later: Trace<T, S>,
    p: int,
)
    requires
        #[trigger] extends(later, t),
        (#[trigger] enter_spi_mode_at(lim, attempts, t, p)) is Some,
    ensures
        enter_spi_mode_at(lim, attempts, later, p) == enter_spi_mode_at(lim, attempts, t, p),
    decreases attempts,
{
    if attempts > 0 {
        let run = send_command_at(lim, commands::CMD0, 0, t, p).unwrap();
        lemma_send_command_extends(lim, commands::CMD0, 0, t, later, p);
        if costs_an_attempt(run.value) {
            let paused = pause_at(lim.delay_dummy_cycles, t, run.end).unwrap();
            lemma_pause_extends(lim.delay_dummy_cycles, t, later, run.end);
            lemma_enter_spi_mode_extends(lim, (attempts - 1) as nat, t, later, paused.end);
        }
    }
}

/// A run of `enable_crc_at` that a trace holds is the same run in every
/// continuation of the trace.
pub broadcast proof fn lemma_enable_crc_extends<T, S>(
    lim: Limits,
    t: Trace<T, S>,
    later: Trace<T, S>,
    p: int,
)
    requires
        #[trigger] extends(later, t),
        (#[trigger] enable_crc_at(lim, t, p)) is Some,
    ensures
        enable_crc_at(lim, later, p) == enable_crc_at(lim, t, p),
{
    broadcast use lemma_send_command_extends;

}

/// A run of `send_if_cond_at` that a trace holds is the same run in every
/// continuation of the trace.
pub broadcast proof fn lemma_send_if_cond_extends<T, S>(
    lim: Limits,
    attempts: nat,
    t: Trace<T, S>,
    later: Trace<T, S>,
    p: int,
)
    requires
        #[trigger] extends(later, t),
        (#[trigger] send_if_cond_at(lim, attempts, t, p)) is Some,
    ensures
        send_if_cond_at(lim, attempts, later, p) == send_if_cond_at(lim, attempts, t, p),
    decreases attempts,
{
    if attempts > 0 {
        let run = send_command_at(lim, commands::CMD8, 0x1AA, t, p).unwrap();
        lemma_send_command_extends(lim, commands::CMD8, 0x1AA, t, later, p);
        if let Ok(r1) = run.value {
            if r1 != R1Response(R1Response::IN_IDLE_AND_ILLEGAL) {
                let echo = receive_slice_at(Seq::empty(), 4, t, run.end).unwrap();
                lemma_receive_slice_extends(Seq::empty(), 4, t, later, run.end);
                if let Ok(bytes) = echo.value {
                    if bytes[3] != tokens::CMD8_STATUS {
                        lemma_send_if_cond_extends(lim, (attempts - 1) as nat, t, later, echo.end);
                    }
                }
            }
        }
    }
}

/// A run of `send_op_comd_at` that a trace holds is the same run in every
/// continuation of the trace.
pub broadcast proof fn lemma_send_op_comd_extends<T, S>(
    lim: Limits,
    arg: u32,
    attempts: nat,
    t: Trace<T, S>,
    later: Trace<T, S>,
    p: int,
)
    requires
        #[trigger] extends(later, t),
        (#[trigger] send_op_comd_at(lim, arg, attempts, t, p)) is Some,
    ensures
        send_op_comd_at(lim, arg, attempts, later, p) == send_op_comd_at(lim, arg, attempts, t, p),
    decreases attempts,
{
    if attempts > 0 {
        let run = send_command_at(lim, commands::ACMD41, arg, t, p).unwrap();
        lemma_send_command_extends(lim, commands::ACMD41, arg, t, later, p);
        if let Ok(r1) = run.value {
            if r1 != R1Response(R1Response::READY_STATE) {
                lemma_send_op_comd_extends(lim, arg, (attempts - 1) as nat, t, later, run.end);
            }
        }
    }
}

/// A run of `check_type_at` that a trace holds is the same run in every
/// continuation of the trace.
pub broadcast proof fn lemma_check_type_extends<T, S>(
    lim: Limits,
    t: Trace<T, S>,
    later: Trace<T, S>,
    p: int,
)
    requires
        #[trigger] extends(later, t),
        (#[trigger] check_type_at(lim, t, p)) is Some,
    ensures
        check_type_at(lim, later, p) == check_type_at(lim, t, p),
{
    broadcast use
        lemma_send_if_cond_extends,
        lemma_send_op_comd_extends,
        lemma_send_command_extends,
        lemma_receive_slice_extends,
    ;

}

/// A run of `read_csd_at` that a trace holds is the same run in every
/// continuation of the trace.
pub broadcast proof fn lemma_read_csd_extends<T, S>(
    lim: Limits,
    card_type: CardType,
    t: Trace<T, S>,
    later: Trace<T, S>,
    p: int,
)
    requires
        #[trigger] extends(later, t),
        (#[trigger] read_csd_at(lim, card_type, t, p)) is Some,
    ensures
        read_csd_at(lim, card_type, later, p) == read_csd_at(lim, card_type, t, p),
{
    broadcast use lemma_send_command_extends, lemma_read_data_extends;

}

/// A run of `bring_up_at` that a trace holds is the same run in every
/// continuation of the trace.
pub broadcast proof fn lemma_bring_up_extends<T, S>(
    lim: Limits,
    t: Trace<T, S>,
    later: Trace<T, S>,
    p: int,
)
    requires
        #[trigger] extends(later, t),
        (#[trigger] bring_up_at(lim, t, p)) is Some,
    ensures
        bring_up_at(lim, later, p) == bring_up_at(lim, t, p),
{
    broadcast use
        lemma_enter_spi_mode_extends,
        lemma_enable_crc_extends,
        lemma_check_type_extends,
        lemma_read_csd_extends,
    ;

}

/// A run of `enter_spi_mode_at` leaves chip select alone.
pub broadcast proof fn lemma_enter_spi_mode_spans<T, S>(
    lim: Limits,
    attempts: nat,
    t: Trace<T, S>,
    p: int,
)
    ensures
        leaves_chip_select(#[trigger] enter_spi_mode_at(lim, attempts, t, p), t, p),
    decreases attempts,
{
    if attempts > 0 {
        lemma_send_command_spans(lim, commands::CMD0, 0, t, p);
        if let Some(run) = send_command_at(lim, commands::CMD0, 0, t, p) {
            lemma_enter_spi_mode_spans(lim, (attempts - 1) as nat, t, run.end + 1);
        }
    }
}

/// A run of `enable_crc_at` leaves chip select alone.
pub broadcast proof fn lemma_enable_crc_spans<T, S>(lim: Limits, t: Trace<T, S>, p: int)
    ensures
        leaves_chip_select(#[trigger] enable_crc_at(lim, t, p), t, p),
{
    broadcast use group_command_spans;

}

/// A run of `send_if_cond_at` leaves chip select alone.
pub broadcast proof fn lemma_send_if_cond_spans<T, S>(
    lim: Limits,
    attempts: nat,
    t: Trace<T, S>,
    p: int,
)
    ensures
        leaves_chip_select(#[trigger] send_if_cond_at(lim, attempts, t, p), t, p),
    decreases attempts,
{
    if attempts > 0 {
        lemma_send_command_spans(lim, commands::CMD8, 0x1AA, t, p);
        if let Some(run) = send_command_at(lim, commands::CMD8, 0x1AA, t, p) {
            lemma_receive_slice_spans(Seq::empty(), 4, t, run.end);
            if let Some(echo) = receive_slice_at(Seq::empty(), 4, t, run.end) {
                lemma_send_if_cond_spans(lim, (attempts - 1) as nat, t, echo.end);
            }
        }
    }
}

/// A run of `send_op_comd_at` leaves chip select alone.
pub broadcast proof fn lemma_send_op_comd_spans<T, S>(
    lim: Limits,
    arg: u32,
    attempts: nat,
    t: Trace<T, S>,
    p: int,
)
    ensures
        leaves_chip_select(#[trigger] send_op_comd_at(lim, arg, attempts, t, p), t, p),
    decreases attempts,
{
    if attempts > 0 {
        lemma_send_command_spans(lim, commands::ACMD41, arg, t, p);
        if let Some(run) = send_command_at(lim, commands::ACMD41, arg, t, p) {
            lemma_send_op_comd_spans(lim, arg, (attempts - 1) as nat, t, run.end);
        }
    }
}

/// A run of `check_type_at` leaves chip select alone.
pub broadcast proof fn lemma_check_type_spans<T, S>(lim: Limits, t: Trace<T, S>, p: int)
    ensures
        leaves_chip_select(#[trigger] check_type_at(lim, t, p), t, p),
{
    broadcast use
        group_transport_spans,
        group_command_spans,
        lemma_send_if_cond_spans,
        lemma_send_op_comd_spans,
    ;

}

/// A run of `read_csd_at` leaves chip select alone.
pub broadcast proof fn lemma_read_csd_spans<T, S>(
    lim: Limits,
    card_type: CardType,
    t: Trace<T, S>,
    p: int,
)
    ensures
        leaves_chip_select(#[trigger] read_csd_at(lim, card_type, t, p), t, p),
{
    broadcast use group_command_spans, group_data_spans;

}

/// A run of `bring_up_at` leaves chip select alone.
pub broadcast proof fn lemma_bring_up_spans<T, S>(lim: Limits, t: Trace<T, S>, p: int)
    ensures
        leaves_chip_select(#[trigger] bring_up_at(lim, t, p), t, p),
{
    broadcast use
        lemma_enter_spi_mode_spans,
        lemma_enable_crc_spans,
        lemma_check_type_spans,
        lemma_read_csd_spans,
    ;

}

/// A step of the initialization that a trace holds is the same run in
/// every continuation of the trace.
pub broadcast group group_bringup_extends {
    lemma_enter_spi_mode_extends,
    lemma_enable_crc_extends,
    lemma_send_if_cond_extends,
    lemma_send_op_comd_extends,
    lemma_check_type_extends,
    lemma_read_csd_extends,
    lemma_bring_up_extends,
}

} // verus!
