//! The data phase: one block travelling from or to the card.

use vstd::prelude::*;
use crate::bus::{extends, is_received, is_sent, Run, Trace};
use crate::config::Limits;
use crate::consts::tokens;
use crate::crc::{crc16, crc16_spec};
use crate::error::Error;
use crate::wire::{
    done, failed, group_transport_spans, is_token, leaves_chip_select, lemma_exchange_extends,
    lemma_receive_slice_extends, lemma_received_bytes_from_wire, lemma_send_extends,
    lemma_send_slice_extends, lemma_send_slice_fails_by_transport, lemma_sent_bytes_on_wire,
    lemma_wait_for_token_extends, receive_at, receive_slice_at, send_at, send_slice_at, then,
    wait_for_token_at, Outcome,
};

verus! {

/// The checksum that two bytes spell, most significant byte first.
pub open spec fn crc_of_bytes(high: u8, low: u8) -> u16 {
    (high * 256 + low) as u16
}

/// What becomes of a received block: it is accepted when the card's
/// checksum equals the CRC-16 of the payload, and else refused with both
/// values, the card's first.
pub open spec fn block_check<T, S>(data: Seq<u8>, card_crc: u16) -> Result<(), Error<T, S>> {
    if card_crc == crc16_spec(data) {
        Ok(())
    } else {
        Err(Error::CrcError(card_crc, crc16_spec(data)))
    }
}

/// What a data-response token means: the low five bits 0x05 accept the
/// block, anything else is a write error.
pub open spec fn data_response<T, S>(token: u8) -> Result<(), Error<T, S>> {
    if token % 0x20 == tokens::DATA_RES_ACCEPTED {
        Ok(())
    } else {
        Err(Error::WriteError)
    }
}

/// Reading one block of `len` bytes: poll for a token, which must be the
/// start-block token; receive the payload and the two checksum bytes;
/// compare checksums.
pub open spec fn read_data_at<T, S>(
    lim: Limits,
    len: nat,
    t: Trace<T, S>,
    p: int,
) -> Outcome<Seq<u8>, T, S> {
    then(
        wait_for_token_at(
            is_token(),
            Error::TimeoutReadBuffer,
            lim.cmd_max_attempts,
            Some(lim.delay_dummy_cycles),
            t,
            p,
        ),
        |started: int, token: u8|
            if token != tokens::DATA_START_BLOCK {
                failed(started, Error::ReadError)
            } else {
                then(
                    receive_slice_at(Seq::empty(), len, t, started),
                    |received: int, data: Seq<u8>|
                        then(
                            receive_at(t, received),
                            |halfway: int, high: u8|
                                then(
                                    receive_at(t, halfway),
                                    |end: int, low: u8|
                                        match block_check(data, crc_of_bytes(high, low)) {
                                            Ok(_) => done(end, data),
                                            Err(error) => failed(end, error),
                                        },
                                ),
                        ),
                )
            },
    )
}

/// Writing one block: the token, the payload, its CRC-16 most significant
/// byte first, and then the card's data-response token.
pub open spec fn write_data_at<T, S>(
    token: u8,
    data: Seq<u8>,
    t: Trace<T, S>,
    p: int,
) -> Outcome<(), T, S> {
    then(
        send_at(token, t, p),
        |opened: int, ok: ()|
            then(
                send_slice_at(data, 0, t, opened),
                |sent: int, ok: ()|
                    then(
                        send_at((crc16_spec(data) / 0x100) as u8, t, sent),
                        |halfway: int, ok: ()|
                            then(
                                send_at((crc16_spec(data) % 0x100) as u8, t, halfway),
                                |closed: int, ok: ()|
                                    then(
                                        receive_at(t, closed),
                                        |end: int, response: u8|
                                            Some(Run { end, value: data_response(response) }),
                                    ),
                            ),
                    ),
            ),
    )
}

/// A run of `read_data_at` that a trace holds is the same run in every
/// continuation of the trace.
pub broadcast proof fn lemma_read_data_extends<T, S>(
    lim: Limits,
    len: nat,
    t: Trace<T, S>,
    later: Trace<T, S>,
    p: int,
)
    requires
        #[trigger] extends(later, t),
        (#[trigger] read_data_at(lim, len, t, p)) is Some,
    ensures
        read_data_at(lim, len, later, p) == read_data_at(lim, len, t, p),
{
    broadcast use
        lemma_wait_for_token_extends,
        lemma_receive_slice_extends,
        lemma_exchange_extends,
    ;

}

/// A run of `write_data_at` that a trace holds is the same run in every
/// continuation of the trace.
pub broadcast proof fn lemma_write_data_extends<T, S>(
    token: u8,
    data: Seq<u8>,
    t: Trace<T, S>,
    later: Trace<T, S>,
    p: int,
)
    requires
        #[trigger] extends(later, t),
        (#[trigger] write_data_at(token, data, t, p)) is Some,
    ensures
        write_data_at(token, data, later, p) == write_data_at(token, data, t, p),
{
    broadcast use lemma_send_extends, lemma_send_slice_extends, lemma_exchange_extends;

}

proof fn lemma_crc_bytes(high: u8, low: u8, crc: u16)
    by (bit_vector)
    ensures
        ((high as u16) << 8) | (low as u16) == high * 256 + low,
        crc >> 8 == crc / 0x100,
        crc >> 8 <= 0xFF,
        crc & 0xFF == crc % 0x100,
{
}

proof fn lemma_response_mask(token: u8)
    by (bit_vector)
    ensures
        token & 0x1F == token % 0x20,
{
}

/// The checksum that the card sent after a block, from its two bytes.
pub fn crc_from_bytes(high: u8, low: u8) -> (crc: u16)
    ensures
        crc == crc_of_bytes(high, low),
{
    proof {
        lemma_crc_bytes(high, low, 0);
    }
    ((high as u16) << 8) | (low as u16)
}

/// The two bytes of a checksum as they go over the wire.
pub fn crc_to_bytes(crc: u16) -> (bytes: (u8, u8))
    ensures
        bytes.0 == crc / 0x100,
        bytes.1 == crc % 0x100,
        crc_of_bytes(bytes.0, bytes.1) == crc,
{
    proof {
        lemma_crc_bytes(0, 0, crc);
    }
    ((crc >> 8) as u8, (crc & 0xFF) as u8)
}

/// Holds the checksum that the card sent against the payload it sent.
pub fn check_block<T, S>(data: &[u8], card_crc: u16) -> (result: Result<(), Error<T, S>>)
    ensures
        result == block_check::<T, S>(data@, card_crc),
{
    let host_crc = crc16(data);
    if card_crc != host_crc {
        Err(Error::CrcError(card_crc, host_crc))
    } else {
        Ok(())
    }
}

/// Reads the card's data-response token.
pub fn check_data_response<T, S>(token: u8) -> (result: Result<(), Error<T, S>>)
    ensures
        result == data_response::<T, S>(token),
        result is Ok <==> token & 0x1F == 0x05,
{
    proof {
        lemma_response_mask(token);
    }
    if (token & tokens::DATA_RES_MASK) != tokens::DATA_RES_ACCEPTED {
        Err(Error::WriteError)
    } else {
        Ok(())
    }
}

/// A data block as it travels: the payload and then its CRC-16, most
/// significant byte first.
pub open spec fn block_on_wire(data: Seq<u8>) -> Seq<u8> {
    data.push((crc16_spec(data) / 0x100) as u8).push((crc16_spec(data) % 0x100) as u8)
}

/// A block that the card answered to, by accepting or by rejecting it,
/// went over the wire as its token, its payload and its CRC-16, one
/// exchange each, and the answer came with the next exchange.
pub proof fn lemma_written_block_on_wire<T, S>(token: u8, data: Seq<u8>, t: Trace<T, S>, p: int)
    requires
        write_data_at(token, data, t, p) matches Some(run) && (run.value is Ok || run.value
            == Err::<(), Error<T, S>>(Error::WriteError)),
    ensures
        is_sent(t, p, token),
        forall|i: int|
            0 <= i < data.len() + 2 ==> #[trigger] is_sent(t, p + 1 + i, block_on_wire(data)[i]),
        write_data_at(token, data, t, p).unwrap().end == p + data.len() + 4,
{
    let sent = send_slice_at(data, 0, t, p + 1).unwrap();
    lemma_send_slice_fails_by_transport(data, 0, t, p + 1);
    lemma_sent_bytes_on_wire(data, 0, t, p + 1);
    let high = send_at((crc16_spec(data) / 0x100) as u8, t, sent.end).unwrap();
    assert forall|i: int| 0 <= i < data.len() + 2 implies #[trigger] is_sent(
        t,
        p + 1 + i,
        block_on_wire(data)[i],
    ) by {
        if i < data.len() {
            assert(is_sent(t, p + 1 + i - 0, data[i]));
        }
    }
}

/// What was written reads back: when the card answers the start token and
/// then a block as it travels, payload and CRC-16, the read accepts it and
/// yields that payload.
pub proof fn lemma_block_reads_back<T, S>(lim: Limits, data: Seq<u8>, t: Trace<T, S>, p: int)
    requires
        lim.cmd_max_attempts > 0,
        is_received(t, p, tokens::DATA_START_BLOCK),
        forall|i: int|
            0 <= i < data.len() + 2 ==> #[trigger] is_received(
                t,
                p + 1 + i,
                block_on_wire(data)[i],
            ),
    ensures
        read_data_at(lim, data.len(), t, p) == done::<Seq<u8>, T, S>(p + data.len() + 3, data),
{
    assert forall|i: int| 0 <= i < data.len() implies #[trigger] is_received(
        t,
        p + 1 + i,
        data[i],
    ) by {
        assert(is_received(t, p + 1 + i, block_on_wire(data)[i]));
    }
    lemma_received_bytes_from_wire(Seq::empty(), data, t, p + 1);
    assert(is_received(t, p + 1 + data.len(), block_on_wire(data)[data.len() as int]));
    assert(is_received(t, p + 1 + (data.len() + 1), block_on_wire(data)[data.len() as int + 1]));
}

/// A run of `read_data_at` leaves chip select alone.
pub broadcast proof fn lemma_read_data_spans<T, S>(lim: Limits, len: nat, t: Trace<T, S>, p: int)
    ensures
        leaves_chip_select(#[trigger] read_data_at(lim, len, t, p), t, p),
{
    broadcast use group_transport_spans;

}

/// A run of `write_data_at` leaves chip select alone.
pub broadcast proof fn lemma_write_data_spans<T, S>(
    token: u8,
    data: Seq<u8>,
    t: Trace<T, S>,
    p: int,
)
    ensures
        leaves_chip_select(#[trigger] write_data_at(token, data, t, p), t, p),
{
    broadcast use group_transport_spans;

}

/// A data phase leaves chip select alone.
pub broadcast group group_data_spans {
    lemma_read_data_spans,
    lemma_write_data_spans,
}

/// A data phase that a trace holds is the same run in every continuation
/// of the trace.
pub broadcast group group_data_extends {
    lemma_read_data_extends,
    lemma_write_data_extends,
}

} // verus!
