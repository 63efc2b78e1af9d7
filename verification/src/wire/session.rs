//! Whole operations of the device: each selects the card, performs its
//! commands and data phases, and releases the card again.

use vstd::prelude::*;
use crate::bus::{chip_select_untouched, extends, is_release, BusEvent, Run, Trace};
use crate::card::CardType;
use crate::config::Limits;
use crate::consts::{commands, tokens};
use crate::csd::Csd;
use crate::error::Error;
use crate::response::R1Response;
use crate::wire::{
    done, failed, group_transport_spans, leaves_chip_select, lemma_exchange_extends,
    lemma_send_extends, lemma_send_slice_extends, lemma_wait_available_extends,
    lemma_wait_available_spans, receive_at, send_at, send_slice_at, then, wait_available_at,
    Outcome,
};
use crate::wire::bringup::{bring_up_at, lemma_bring_up_spans};
use crate::wire::command::{group_command_spans, lemma_send_command_extends, send_command_at};
use crate::wire::data::{
    group_data_spans, lemma_read_data_extends, lemma_read_data_spans, lemma_write_data_extends,
    lemma_write_data_spans, read_data_at, write_data_at,
};

verus! {

/// Asserting chip select.
pub open spec fn select_at<T, S>(t: Trace<T, S>, p: int) -> Outcome<(), T, S> {
    if 0 <= p < t.len() {
        match t[p] {
            BusEvent::Select { outcome } => match outcome {
                Ok(_) => done(p + 1, ()),
                Err(error) => failed(p + 1, Error::SelectError(error)),
            },
            _ => None,
        }
    } else {
        None
    }
}

/// Releasing chip select.
pub open spec fn release_at<T, S>(t: Trace<T, S>, p: int) -> Outcome<(), T, S> {
    if 0 <= p < t.len() {
        match t[p] {
            BusEvent::Release { outcome } => match outcome {
                Ok(_) => done(p + 1, ()),
                Err(error) => failed(p + 1, Error::SelectError(error)),
            },
            _ => None,
        }
    } else {
        None
    }
}

/// The result of a chip-select scope: an error of the body stands; a failed
/// release turns a success of the body into its own error.
pub open spec fn scope_result<V, T, S>(
    body: Result<V, Error<T, S>>,
    released: Result<(), Error<T, S>>,
) -> Result<V, Error<T, S>> {
    match body {
        Ok(value) => match released {
            Ok(_) => Ok(value),
            Err(error) => Err(error),
        },
        Err(error) => Err(error),
    }
}

/// Releasing chip select after the run `body`, whatever its result.
pub open spec fn released_at<V, T, S>(body: Outcome<V, T, S>, t: Trace<T, S>) -> Outcome<V, T, S> {
    match body {
        Some(inner) => match release_at(t, inner.end) {
            Some(released) => Some(
                Run { end: released.end, value: scope_result(inner.value, released.value) },
            ),
            None => None,
        },
        None => None,
    }
}

/// A chip-select scope: assert chip select, run `body` from there, and
/// release chip select. When the assertion fails nothing else happens.
pub open spec fn with_cs_at<V, T, S>(
    body: spec_fn(int) -> Outcome<V, T, S>,
    t: Trace<T, S>,
    p: int,
) -> Outcome<V, T, S> {
    then(select_at(t, p), |selected: int, ok: ()| released_at(body(selected), t))
}

/// The ten idle bytes that give the card its 80 warm-up clocks.
pub open spec fn warm_up_bytes() -> Seq<u8> {
    Seq::new(10, |i: int| 0xFFu8)
}

/// Warm-up: with chip select released, ten bytes of 0xFF.
pub open spec fn warm_up_at<T, S>(t: Trace<T, S>, p: int) -> Outcome<(), T, S> {
    then(release_at(t, p), |released: int, ok: ()| send_slice_at(warm_up_bytes(), 0, t, released))
}

/// Every error of the initialization reads as "card not found".
pub open spec fn card_not_found<V, T, S>(outcome: Outcome<V, T, S>) -> Outcome<V, T, S> {
    match outcome {
        Some(run) => Some(
            Run {
                end: run.end,
                value: match run.value {
                    Ok(value) => Ok(value),
                    Err(_) => Err(Error::CardNotFound),
                },
            },
        ),
        None => None,
    }
}

/// Initialization: warm-up, then the bring-up sequence inside one
/// chip-select scope. It yields the card's type and CSD register.
pub open spec fn init_at<T, S>(
    lim: Limits,
    t: Trace<T, S>,
    p: int,
) -> Outcome<(CardType, Csd), T, S> {
    card_not_found(
        then(
            warm_up_at(t, p),
            |warm: int, ok: ()| with_cs_at(|selected: int| bring_up_at(lim, t, selected), t, warm),
        ),
    )
}

/// The command argument that addresses block `lba`: the block number for
/// SDHC, the byte offset for SD1 and SD2, in both cases modulo 2^32.
pub open spec fn wire_address(card_type: CardType, lba: u64) -> u32 {
    match card_type {
        CardType::SD1 | CardType::SD2 => (lba * 512 % 0x1_0000_0000) as u32,
        CardType::SDHC => (lba % 0x1_0000_0000) as u32,
    }
}

/// Whether a buffer of `len` bytes holds a whole number of blocks, and at
/// least one.
pub open spec fn is_block_multiple(len: nat) -> bool {
    len > 0 && len % 512 == 0
}

/// Reading `count` more blocks after the bytes `got`.
pub open spec fn read_blocks_at<T, S>(
    lim: Limits,
    got: Seq<u8>,
    count: nat,
    t: Trace<T, S>,
    p: int,
) -> Outcome<Seq<u8>, T, S>
    decreases count,
{
    if count == 0 {
        done(p, got)
    } else {
        match read_data_at(lim, 512, t, p) {
            Some(run) => match run.value {
                Ok(block) => read_blocks_at(lim, got + block, (count - 1) as nat, t, run.end),
                Err(error) => failed(run.end, error),
            },
            None => None,
        }
    }
}

/// What a read does while the card is selected. One block: CMD17 and a
/// data phase. More: CMD18, a data phase per block, and CMD12. The R1 of
/// these commands is not examined.
pub open spec fn read_body_at<T, S>(
    lim: Limits,
    address: u32,
    count: nat,
    t: Trace<T, S>,
    p: int,
) -> Outcome<Seq<u8>, T, S> {
    if count == 1 {
        then(
            send_command_at(lim, commands::CMD17, address, t, p),
            |answered: int, r1: R1Response| read_data_at(lim, 512, t, answered),
        )
    } else {
        then(
            send_command_at(lim, commands::CMD18, address, t, p),
            |answered: int, r1: R1Response|
                then(
                    read_blocks_at(lim, Seq::empty(), count, t, answered),
                    |read: int, data: Seq<u8>|
                        then(
                            send_command_at(lim, commands::CMD12, 0, t, read),
                            |end: int, r1: R1Response| done(end, data),
                        ),
                ),
        )
    }
}

/// Reading `count` blocks from the address `address`, in one chip-select
/// scope.
pub open spec fn read_at<T, S>(
    lim: Limits,
    address: u32,
    count: nat,
    t: Trace<T, S>,
    p: int,
) -> Outcome<Seq<u8>, T, S> {
    with_cs_at(|selected: int| read_body_at(lim, address, count, t, selected), t, p)
}

/// Block `index` of `data`.
pub open spec fn block_of(data: Seq<u8>, index: int) -> Seq<u8> {
    data.subrange(index * 512, index * 512 + 512)
}

/// Writing the blocks of `data` from block `from` on: before each, wait
/// until the card is available, then a data phase opened by the
/// write-multiple token.
pub open spec fn write_blocks_at<T, S>(
    lim: Limits,
    data: Seq<u8>,
    from: int,
    t: Trace<T, S>,
    p: int,
) -> Outcome<(), T, S>
    decreases data.len() - from * 512,
{
    if from < 0 || from * 512 + 512 > data.len() {
        done(p, ())
    } else {
        match wait_available_at(lim, t, p) {
            Some(ready) => match ready.value {
                Ok(_) => match write_data_at(
                    tokens::WRITE_MULTIPLE,
                    block_of(data, from),
                    t,
                    ready.end,
                ) {
                    Some(run) => match run.value {
                        Ok(_) => write_blocks_at(lim, data, from + 1, t, run.end),
                        Err(error) => failed(run.end, error),
                    },
                    None => None,
                },
                Err(error) => failed(ready.end, error),
            },
            None => None,
        }
    }
}

/// What a write does while the card is selected. One block: CMD24, a data
/// phase, a wait until the card is available, and CMD13, which must answer
/// ready and be followed by a zero byte. More: CMD25, the blocks, a wait
/// until the card is available, and the stop token.
pub open spec fn write_body_at<T, S>(
    lim: Limits,
    address: u32,
    data: Seq<u8>,
    t: Trace<T, S>,
    p: int,
) -> Outcome<(), T, S> {
    if data.len() == 512 {
        then(
            send_command_at(lim, commands::CMD24, address, t, p),
            |answered: int, r1: R1Response|
                then(
                    write_data_at(tokens::DATA_START_BLOCK, data, t, answered),
                    |written: int, ok: ()|
                        then(
                            wait_available_at(lim, t, written),
                            |ready: int, ok: ()|
                                then(
                                    send_command_at(lim, commands::CMD13, 0, t, ready),
                                    |asked: int, r1: R1Response|
                                        if r1 != R1Response(R1Response::READY_STATE) {
                                            failed(asked, Error::WriteError)
                                        } else {
                                            then(
                                                receive_at(t, asked),
                                                |end: int, status: u8|
                                                    if status != R1Response::READY_STATE {
                                                        failed(end, Error::WriteError)
                                                    } else {
                                                        done(end, ())
                                                    },
                                            )
                                        },
                                ),
                        ),
                ),
        )
    } else {
        then(
            send_command_at(lim, commands::CMD25, address, t, p),
            |answered: int, r1: R1Response|
                then(
                    write_blocks_at(lim, data, 0, t, answered),
                    |written: int, ok: ()|
                        then(
                            wait_available_at(lim, t, written),
                            |ready: int, ok: ()| send_at(tokens::STOP_TRAN, t, ready),
                        ),
                ),
        )
    }
}

/// Writing `data` to the address `address`, in one chip-select scope.
pub open spec fn write_at<T, S>(
    lim: Limits,
    address: u32,
    data: Seq<u8>,
    t: Trace<T, S>,
    p: int,
) -> Outcome<(), T, S> {
    with_cs_at(|selected: int| write_body_at(lim, address, data, t, selected), t, p)
}

/// A run of `select_at` that a trace holds is the same run in every
/// continuation of the trace.
pub broadcast proof fn lemma_select_extends<T, S>(t: Trace<T, S>, later: Trace<T, S>, p: int)
    requires
        #[trigger] extends(later, t),
        (#[trigger] select_at(t, p)) is Some,
    ensures
        select_at(later, p) == select_at(t, p),
{
}

/// A run of `release_at` that a trace holds is the same run in every
/// continuation of the trace.
pub broadcast proof fn lemma_release_extends<T, S>(t: Trace<T, S>, later: Trace<T, S>, p: int)
    requires
        #[trigger] extends(later, t),
        (#[trigger] release_at(t, p)) is Some,
    ensures
        release_at(later, p) == release_at(t, p),
{
}

/// A run of `warm_up_at` that a trace holds is the same run in every
/// continuation of the trace.
pub broadcast proof fn lemma_warm_up_extends<T, S>(t: Trace<T, S>, later: Trace<T, S>, p: int)
    requires
        #[trigger] extends(later, t),
        (#[trigger] warm_up_at(t, p)) is Some,
    ensures
        warm_up_at(later, p) == warm_up_at(t, p),
{
    broadcast use lemma_release_extends, lemma_send_slice_extends;

}

/// A run of `read_blocks_at` that a trace holds is the same run in every
/// continuation of the trace.
pub broadcast proof fn lemma_read_blocks_extends<T, S>(
    lim: Limits,
    got: Seq<u8>,
    count: nat,
    t: Trace<T, S>,
    later: Trace<T, S>,
    p: int,
)
    requires
        #[trigger] extends(later, t),
        (#[trigger] read_blocks_at(lim, got, count, t, p)) is Some,
    ensures
        read_blocks_at(lim, got, count, later, p) == read_blocks_at(lim, got, count, t, p),
    decreases count,
{
    if count > 0 {
        let run = read_data_at(lim, 512, t, p).unwrap();
        lemma_read_data_extends(lim, 512, t, later, p);
        if let Ok(block) = run.value {
            lemma_read_blocks_extends(lim, got + block, (count - 1) as nat, t, later, run.end);
        }
    }
}

/// A run of `read_body_at` that a trace holds is the same run in every
/// continuation of the trace.
pub broadcast proof fn lemma_read_body_extends<T, S>(
    lim: Limits,
    address: u32,
    count: nat,
    t: Trace<T, S>,
    later: Trace<T, S>,
    p: int,
)
    requires
        #[trigger] extends(later, t),
        (#[trigger] read_body_at(lim, address, count, t, p)) is Some,
    ensures
        read_body_at(lim, address, count, later, p) == read_body_at(lim, address, count, t, p),
{
    broadcast use
        lemma_send_command_extends,
        lemma_read_data_extends,
        lemma_read_blocks_extends,
    ;

}

/// A run of `write_blocks_at` that a trace holds is the same run in every
/// continuation of the trace.
pub broadcast proof fn lemma_write_blocks_extends<T, S>(
    lim: Limits,
    data: Seq<u8>,
    from: int,
    t: Trace<T, S>,
    later: Trace<T, S>,
    p: int,
)
    requires
        #[trigger] extends(later, t),
        (#[trigger] write_blocks_at(lim, data, from, t, p)) is Some,
    ensures
        write_blocks_at(lim, data, from, later, p) == write_blocks_at(lim, data, from, t, p),
    decreases data.len() - from * 512,
{
    if 0 <= from && from * 512 + 512 <= data.len() {
        let ready = wait_available_at(lim, t, p).unwrap();
        lemma_wait_available_extends(lim, t, later, p);
        if ready.value is Ok {
            let run = write_data_at(tokens::WRITE_MULTIPLE, block_of(data, from), t, ready.end)
                .unwrap();
            lemma_write_data_extends(
                tokens::WRITE_MULTIPLE,
                block_of(data, from),
                t,
                later,
                ready.end,
            );
            if run.value is Ok {
                lemma_write_blocks_extends(lim, data, from + 1, t, later, run.end);
            }
        }
    }
}

/// A run of `write_body_at` that a trace holds is the same run in every
/// continuation of the trace.
pub broadcast proof fn lemma_write_body_extends<T, S>(
    lim: Limits,
    address: u32,
    data: Seq<u8>,
    t: Trace<T, S>,
    later: Trace<T, S>,
    p: int,
)
    requires
        #[trigger] extends(later, t),
        (#[trigger] write_body_at(lim, address, data, t, p)) is Some,
    ensures
        write_body_at(lim, address, data, later, p) == write_body_at(lim, address, data, t, p),
{
    broadcast use
        lemma_send_command_extends,
        lemma_write_data_extends,
        lemma_write_blocks_extends,
        lemma_wait_available_extends,
        lemma_send_extends,
        lemma_exchange_extends,
    ;

}

/// The events of `t` from `from` up to `to` are one chip-select scope: a
/// request to assert chip select that either failed, and then nothing else,
/// or succeeded, and then exchanges and pauses only and at last a request
/// to release chip select.
pub open spec fn bracketed<T, S>(t: Trace<T, S>, from: int, to: int) -> bool {
    &&& 0 <= from < to <= t.len()
    &&& match t[from] {
        BusEvent::Select { outcome: Ok(_) } => {
            &&& from + 1 < to
            &&& chip_select_untouched(t, from + 1, to - 1)
            &&& is_release(t, to - 1)
        },
        BusEvent::Select { outcome: Err(_) } => to == from + 1,
        _ => false,
    }
}

/// A chip-select scope always releases chip select. When chip select
/// could be asserted, the body ran right after it and the last event of the
/// scope is the release, whatever the body yielded; an error of the body
/// stands, and a failed release fails a successful body. When chip select
/// could not be asserted, nothing else happened.
pub proof fn lemma_scope_releases<V, T, S>(
    body: spec_fn(int) -> Outcome<V, T, S>,
    t: Trace<T, S>,
    p: int,
)
    requires
        with_cs_at(body, t, p) is Some,
    ensures
        ({
            let run = with_cs_at(body, t, p).unwrap();
            match select_at(t, p) {
                Some(Run { end, value: Ok(_) }) => match body(p + 1) {
                    Some(inner) => {
                        &&& end == p + 1
                        &&& run.end == inner.end + 1
                        &&& is_release(t, run.end - 1)
                        &&& release_at(t, inner.end) matches Some(released) && run.value
                            == scope_result(inner.value, released.value)
                        &&& inner.value is Err ==> run.value == inner.value
                    },
                    None => false,
                },
                Some(Run { end, value: Err(error) }) => run == Run {
                    end: p + 1,
                    value: Err::<V, Error<T, S>>(error),
                },
                None => false,
            }
        }),
{
}

/// A run of `read_blocks_at` leaves chip select alone.
pub broadcast proof fn lemma_read_blocks_spans<T, S>(
    lim: Limits,
    got: Seq<u8>,
    count: nat,
    t: Trace<T, S>,
    p: int,
)
    ensures
        leaves_chip_select(#[trigger] read_blocks_at(lim, got, count, t, p), t, p),
    decreases count,
{
    if count > 0 {
        lemma_read_data_spans(lim, 512, t, p);
        if let Some(run) = read_data_at(lim, 512, t, p) {
            if let Ok(block) = run.value {
                lemma_read_blocks_spans(lim, got + block, (count - 1) as nat, t, run.end);
            }
        }
    }
}

/// A run of `read_body_at` leaves chip select alone.
pub broadcast proof fn lemma_read_body_spans<T, S>(
    lim: Limits,
    address: u32,
    count: nat,
    t: Trace<T, S>,
    p: int,
)
    ensures
        leaves_chip_select(#[trigger] read_body_at(lim, address, count, t, p), t, p),
{
    broadcast use group_command_spans, group_data_spans, lemma_read_blocks_spans;

}

/// A run of `write_blocks_at` leaves chip select alone.
pub broadcast proof fn lemma_write_blocks_spans<T, S>(
    lim: Limits,
    data: Seq<u8>,
    from: int,
    t: Trace<T, S>,
    p: int,
)
    ensures
        leaves_chip_select(#[trigger] write_blocks_at(lim, data, from, t, p), t, p),
    decreases data.len() - from * 512,
{
    if 0 <= from && from * 512 + 512 <= data.len() {
        lemma_wait_available_spans(lim, t, p);
        if let Some(ready) = wait_available_at(lim, t, p) {
            lemma_write_data_spans(tokens::WRITE_MULTIPLE, block_of(data, from), t, ready.end);
            if let Some(run) = write_data_at(
                tokens::WRITE_MULTIPLE,
                block_of(data, from),
                t,
                ready.end,
            ) {
                lemma_write_blocks_spans(lim, data, from + 1, t, run.end);
            }
        }
    }
}

/// A run of `write_body_at` leaves chip select alone.
pub broadcast proof fn lemma_write_body_spans<T, S>(
    lim: Limits,
    address: u32,
    data: Seq<u8>,
    t: Trace<T, S>,
    p: int,
)
    ensures
        leaves_chip_select(#[trigger] write_body_at(lim, address, data, t, p), t, p),
{
    broadcast use
        group_transport_spans,
        group_command_spans,
        group_data_spans,
        lemma_write_blocks_spans,
    ;

}

/// Chip select brackets the conversation. A read, a write and the selected
/// part of an initialization begin with the assertion of chip select and,
/// unless that fails, end with its release; everything in between is an
/// exchange of bytes or a pause. So the card stays selected for all of its
/// commands and data, is selected for nothing else, and is released on
/// every path.
pub proof fn lemma_selected_throughout<T, S>(
    lim: Limits,
    address: u32,
    count: nat,
    data: Seq<u8>,
    t: Trace<T, S>,
    p: int,
)
    ensures
        read_at(lim, address, count, t, p) matches Some(run) ==> bracketed(t, p, run.end),
        write_at(lim, address, data, t, p) matches Some(run) ==> bracketed(t, p, run.end),
        init_at(lim, t, p) matches Some(run) ==> match warm_up_at(t, p) {
            Some(Run { end, value: Ok(_) }) => bracketed(t, end, run.end),
            Some(Run { end, value: Err(_) }) => run.end == end,
            None => false,
        },
{
    lemma_read_body_spans(lim, address, count, t, p + 1);
    lemma_write_body_spans(lim, address, data, t, p + 1);
    if let Some(warm) = warm_up_at(t, p) {
        lemma_bring_up_spans(lim, t, warm.end + 1);
    }
}

/// A part of a whole operation that a trace holds is the same run in every
/// continuation of the trace.
pub broadcast group group_session_extends {
    lemma_select_extends,
    lemma_release_extends,
    lemma_warm_up_extends,
    lemma_read_blocks_extends,
    lemma_read_body_extends,
    lemma_write_blocks_extends,
    lemma_write_body_extends,
}

} // verus!
