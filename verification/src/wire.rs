//! The protocol as a function of the bus trace.
//!
//! Each function here reads a trace from a position and tells where a piece
//! of protocol that starts there ends and what it yields, or `None` where
//! the trace does not hold a complete run of that piece.

use vstd::prelude::*;
use crate::bus::{chip_select_untouched, extends, is_received, is_sent, BusEvent, Run, Trace};
use crate::config::Limits;
use crate::consts::tokens;
use crate::error::Error;

pub mod bringup;
pub mod command;
pub mod data;
pub mod session;

verus! {

/// A run of the protocol: where it ends and its result, if the trace holds
/// one.
pub type Outcome<V, T, S> = Option<Run<Result<V, Error<T, S>>>>;

/// A run that ends at `end` with the value `value`.
pub open spec fn done<V, T, S>(end: int, value: V) -> Outcome<V, T, S> {
    Some(Run { end, value: Ok(value) })
}

/// A run that ends at `end` with the error `error`.
pub open spec fn failed<V, T, S>(end: int, error: Error<T, S>) -> Outcome<V, T, S> {
    Some(Run { end, value: Err(error) })
}

/// The run `first`, and after it the run that `next` makes of its end and
/// value. An error of `first` ends the whole.
pub open spec fn then<A, B, T, S>(
    first: Outcome<A, T, S>,
    next: spec_fn(int, A) -> Outcome<B, T, S>,
) -> Outcome<B, T, S> {
    match first {
        Some(run) => match run.value {
            Ok(value) => next(run.end, value),
            Err(error) => failed(run.end, error),
        },
        None => None,
    }
}

/// One exchange that clocks `sent` out: the byte that came back, or the
/// transport's error.
pub open spec fn exchange_at<T, S>(sent: u8, t: Trace<T, S>, p: int) -> Outcome<u8, T, S> {
    if 0 <= p < t.len() {
        match t[p] {
            BusEvent::Exchange { sent: byte, reply } => if byte == sent {
                match reply {
                    Ok(received) => done(p + 1, received),
                    Err(error) => failed(p + 1, Error::Transport(error)),
                }
            } else {
                None
            },
            _ => None,
        }
    } else {
        None
    }
}

/// Receiving one byte: an exchange that clocks 0xFF out.
pub open spec fn receive_at<T, S>(t: Trace<T, S>, p: int) -> Outcome<u8, T, S> {
    exchange_at(0xFF, t, p)
}

/// Sending one byte: an exchange whose answer is dropped.
pub open spec fn send_at<T, S>(byte: u8, t: Trace<T, S>, p: int) -> Outcome<(), T, S> {
    match exchange_at(byte, t, p) {
        Some(run) => match run.value {
            Ok(_) => done(run.end, ()),
            Err(error) => failed(run.end, error),
        },
        None => None,
    }
}

/// Sending `bytes[from..]` in order, stopping at the first error.
pub open spec fn send_slice_at<T, S>(
    bytes: Seq<u8>,
    from: int,
    t: Trace<T, S>,
    p: int,
) -> Outcome<(), T, S>
    decreases bytes.len() - from,
{
    if from < 0 || from >= bytes.len() {
        done(p, ())
    } else {
        match send_at(bytes[from], t, p) {
            Some(run) => match run.value {
                Ok(_) => send_slice_at(bytes, from + 1, t, run.end),
                Err(error) => failed(run.end, error),
            },
            None => None,
        }
    }
}

/// Receiving `count` more bytes after `got`, stopping at the first error.
pub open spec fn receive_slice_at<T, S>(
    got: Seq<u8>,
    count: nat,
    t: Trace<T, S>,
    p: int,
) -> Outcome<Seq<u8>, T, S>
    decreases count,
{
    if count == 0 {
        done(p, got)
    } else {
        match receive_at(t, p) {
            Some(run) => match run.value {
                Ok(byte) => receive_slice_at(got.push(byte), (count - 1) as nat, t, run.end),
                Err(error) => failed(run.end, error),
            },
            None => None,
        }
    }
}

/// A pause of `rounds` rounds of busy waiting.
pub open spec fn pause_at<T, S>(rounds: nat, t: Trace<T, S>, p: int) -> Outcome<(), T, S> {
    if 0 <= p < t.len() && t[p] == (BusEvent::<T, S>::Pause { rounds: rounds as usize }) {
        done(p + 1, ())
    } else {
        None
    }
}

/// What follows a poll that saw the wrong byte: a pause of the given number
/// of rounds, or nothing.
pub open spec fn relax_at<T, S>(relax: Option<nat>, t: Trace<T, S>, p: int) -> Outcome<(), T, S> {
    match relax {
        Some(rounds) => pause_at(rounds, t, p),
        None => done(p, ()),
    }
}

/// Polling for a byte that `accepts` holds of, at most `attempts` times,
/// with `relax` after each poll that saw another byte. Yields the byte, or
/// `timeout` when every attempt saw another byte.
pub open spec fn wait_for_token_at<T, S>(
    accepts: spec_fn(u8) -> bool,
    timeout: Error<T, S>,
    attempts: nat,
    relax: Option<nat>,
    t: Trace<T, S>,
    p: int,
) -> Outcome<u8, T, S>
    decreases attempts,
{
    if attempts == 0 {
        failed(p, timeout)
    } else {
        match receive_at(t, p) {
            Some(run) => match run.value {
                Ok(token) => if accepts(token) {
                    done(run.end, token)
                } else {
                    match relax_at(relax, t, run.end) {
                        Some(relaxed) => wait_for_token_at(
                            accepts,
                            timeout,
                            (attempts - 1) as nat,
                            relax,
                            t,
                            relaxed.end,
                        ),
                        None => None,
                    }
                },
                Err(error) => failed(run.end, error),
            },
            None => None,
        }
    }
}

/// Holds of the idle byte 0xFF alone.
pub open spec fn is_available() -> spec_fn(u8) -> bool {
    |token: u8| token == tokens::AVAILABLE
}

/// Holds of every byte but the idle byte 0xFF.
pub open spec fn is_token() -> spec_fn(u8) -> bool {
    |token: u8| token != tokens::AVAILABLE
}

/// Waiting until the card answers 0xFF: it is no longer busy. The card is
/// polled at most `cmd_max_attempts` times, with a pause of
/// `delay_dummy_cycles` rounds after each poll that found it busy.
pub open spec fn wait_available_at<T, S>(lim: Limits, t: Trace<T, S>, p: int) -> Outcome<(), T, S> {
    then(
        wait_for_token_at(
            is_available(),
            Error::TimeoutWaitAvailable,
            lim.cmd_max_attempts,
            Some(lim.delay_dummy_cycles),
            t,
            p,
        ),
        |end: int, token: u8| done(end, ()),
    )
}

/// A run of `exchange_at` that a trace holds is the same run in every
/// continuation of the trace.
pub broadcast proof fn lemma_exchange_extends<T, S>(
    sent: u8,
    t: Trace<T, S>,
    later: Trace<T, S>,
    p: int,
)
    requires
        #[trigger] extends(later, t),
        (#[trigger] exchange_at(sent, t, p)) is Some,
    ensures
        exchange_at(sent, later, p) == exchange_at(sent, t, p),
{
}

/// A run of `send_at` that a trace holds is the same run in every
/// continuation of the trace.
pub broadcast proof fn lemma_send_extends<T, S>(
    byte: u8,
    t: Trace<T, S>,
    later: Trace<T, S>,
    p: int,
)
    requires
        #[trigger] extends(later, t),
        (#[trigger] send_at(byte, t, p)) is Some,
    ensures
        send_at(byte, later, p) == send_at(byte, t, p),
{
}

/// A run of `send_slice_at` that a trace holds is the same run in every
/// continuation of the trace.
pub broadcast proof fn lemma_send_slice_extends<T, S>(
    bytes: Seq<u8>,
    from: int,
    t: Trace<T, S>,
    later: Trace<T, S>,
    p: int,
)
    requires
        #[trigger] extends(later, t),
        (#[trigger] send_slice_at(bytes, from, t, p)) is Some,
    ensures
        send_slice_at(bytes, from, later, p) == send_slice_at(bytes, from, t, p),
    decreases bytes.len() - from,
{
    if 0 <= from < bytes.len() {
        let run = send_at(bytes[from], t, p).unwrap();
        if run.value is Ok {
            lemma_send_slice_extends(bytes, from + 1, t, later, run.end);
        }
    }
}

/// A run of `receive_slice_at` that a trace holds is the same run in every
/// continuation of the trace.
pub broadcast proof fn lemma_receive_slice_extends<T, S>(
    got: Seq<u8>,
    count: nat,
    t: Trace<T, S>,
    later: Trace<T, S>,
    p: int,
)
    requires
        #[trigger] extends(later, t),
        (#[trigger] receive_slice_at(got, count, t, p)) is Some,
    ensures
        receive_slice_at(got, count, later, p) == receive_slice_at(got, count, t, p),
    decreases count,
{
    if count > 0 {
        let run = receive_at(t, p).unwrap();
        if let Ok(byte) = run.value {
            lemma_receive_slice_extends(got.push(byte), (count - 1) as nat, t, later, run.end);
        }
    }
}

/// A run of `pause_at` that a trace holds is the same run in every
/// continuation of the trace.
pub broadcast proof fn lemma_pause_extends<T, S>(
    rounds: nat,
    t: Trace<T, S>,
    later: Trace<T, S>,
    p: int,
)
    requires
        #[trigger] extends(later, t),
        (#[trigger] pause_at(rounds, t, p)) is Some,
    ensures
        pause_at(rounds, later, p) == pause_at(rounds, t, p),
{
}

/// A run of `relax_at` that a trace holds is the same run in every
/// continuation of the trace.
pub broadcast proof fn lemma_relax_extends<T, S>(
    relax: Option<nat>,
    t: Trace<T, S>,
    later: Trace<T, S>,
    p: int,
)
    requires
        #[trigger] extends(later, t),
        (#[trigger] relax_at(relax, t, p)) is Some,
    ensures
        relax_at(relax, later, p) == relax_at(relax, t, p),
{
}

/// A run of `wait_for_token_at` that a trace holds is the same run in every
/// continuation of the trace.
pub broadcast proof fn lemma_wait_for_token_extends<T, S>(
    accepts: spec_fn(u8) -> bool,
    timeout: Error<T, S>,
    attempts: nat,
    relax: Option<nat>,
    t: Trace<T, S>,
    later: Trace<T, S>,
    p: int,
)
    requires
        #[trigger] extends(later, t),
        (#[trigger] wait_for_token_at(accepts, timeout, attempts, relax, t, p)) is Some,
    ensures
        wait_for_token_at(accepts, timeout, attempts, relax, later, p) == wait_for_token_at(
            accepts,
            timeout,
            attempts,
            relax,
            t,
            p,
        ),
    decreases attempts,
{
    if attempts > 0 {
        let run = receive_at(t, p).unwrap();
        if let Ok(token) = run.value {
            if !accepts(token) {
                let relaxed = relax_at(relax, t, run.end).unwrap();
                lemma_wait_for_token_extends(
                    accepts,
                    timeout,
                    (attempts - 1) as nat,
                    relax,
                    t,
                    later,
                    relaxed.end,
                );
            }
        }
    }
}

/// A run of `wait_available_at` that a trace holds is the same run in every
/// continuation of the trace.
pub broadcast proof fn lemma_wait_available_extends<T, S>(
    lim: Limits,
    t: Trace<T, S>,
    later: Trace<T, S>,
    p: int,
)
    requires
        #[trigger] extends(later, t),
        (#[trigger] wait_available_at(lim, t, p)) is Some,
    ensures
        wait_available_at(lim, later, p) == wait_available_at(lim, t, p),
{
    lemma_wait_for_token_extends(
        is_available(),
        Error::<T, S>::TimeoutWaitAvailable,
        lim.cmd_max_attempts,
        Some(lim.delay_dummy_cycles),
        t,
        later,
        p,
    );
}

/// The run, if there is one, begins at `p` and leaves chip select alone: it
/// consists of exchanges and pauses only.
pub open spec fn leaves_chip_select<V, T, S>(
    outcome: Outcome<V, T, S>,
    t: Trace<T, S>,
    p: int,
) -> bool {
    outcome matches Some(run) ==> p <= run.end && chip_select_untouched(t, p, run.end)
}

/// A run of `exchange_at` leaves chip select alone.
pub broadcast proof fn lemma_exchange_spans<T, S>(sent: u8, t: Trace<T, S>, p: int)
    ensures
        leaves_chip_select(#[trigger] exchange_at(sent, t, p), t, p),
{
}

/// A run of `send_at` leaves chip select alone.
pub broadcast proof fn lemma_send_spans<T, S>(byte: u8, t: Trace<T, S>, p: int)
    ensures
        leaves_chip_select(#[trigger] send_at(byte, t, p), t, p),
{
}

/// A run of `send_slice_at` leaves chip select alone.
pub broadcast proof fn lemma_send_slice_spans<T, S>(
    bytes: Seq<u8>,
    from: int,
    t: Trace<T, S>,
    p: int,
)
    ensures
        leaves_chip_select(#[trigger] send_slice_at(bytes, from, t, p), t, p),
    decreases bytes.len() - from,
{
    if 0 <= from < bytes.len() {
        lemma_send_slice_spans(bytes, from + 1, t, p + 1);
    }
}

/// A run of `receive_slice_at` leaves chip select alone.
pub broadcast proof fn lemma_receive_slice_spans<T, S>(
    got: Seq<u8>,
    count: nat,
    t: Trace<T, S>,
    p: int,
)
    ensures
        leaves_chip_select(#[trigger] receive_slice_at(got, count, t, p), t, p),
    decreases count,
{
    if count > 0 {
        if let Some(run) = receive_at(t, p) {
            if let Ok(byte) = run.value {
                lemma_receive_slice_spans(got.push(byte), (count - 1) as nat, t, p + 1);
            }
        }
    }
}

/// A run of `wait_for_token_at` leaves chip select alone.
pub broadcast proof fn lemma_wait_for_token_spans<T, S>(
    accepts: spec_fn(u8) -> bool,
    timeout: Error<T, S>,
    attempts: nat,
    relax: Option<nat>,
    t: Trace<T, S>,
    p: int,
)
    ensures
        leaves_chip_select(
            #[trigger] wait_for_token_at(accepts, timeout, attempts, relax, t, p),
            t,
            p,
        ),
    decreases attempts,
{
    if attempts > 0 && receive_at(t, p) is Some {
        if let Some(relaxed) = relax_at(relax, t, p + 1) {
            lemma_wait_for_token_spans(
                accepts,
                timeout,
                (attempts - 1) as nat,
                relax,
                t,
                relaxed.end,
            );
        }
    }
}

/// A run of `wait_available_at` leaves chip select alone.
pub broadcast proof fn lemma_wait_available_spans<T, S>(lim: Limits, t: Trace<T, S>, p: int)
    ensures
        leaves_chip_select(#[trigger] wait_available_at(lim, t, p), t, p),
{
    lemma_wait_for_token_spans(
        is_available(),
        Error::<T, S>::TimeoutWaitAvailable,
        lim.cmd_max_attempts,
        Some(lim.delay_dummy_cycles),
        t,
        p,
    );
}

/// Sending fails only with a fault of the transport.
pub proof fn lemma_send_slice_fails_by_transport<T, S>(
    bytes: Seq<u8>,
    from: int,
    t: Trace<T, S>,
    p: int,
)
    ensures
        send_slice_at(bytes, from, t, p) matches Some(run) ==> run.value is Ok || (
        run.value matches Err(error) && error is Transport),
    decreases bytes.len() - from,
{
    if 0 <= from < bytes.len() {
        lemma_send_slice_fails_by_transport(bytes, from + 1, t, p + 1);
    }
}

/// Bytes that went out without a fault took one exchange each, in order.
pub proof fn lemma_sent_bytes_on_wire<T, S>(bytes: Seq<u8>, from: int, t: Trace<T, S>, p: int)
    requires
        0 <= from <= bytes.len(),
        send_slice_at(bytes, from, t, p) matches Some(run) && run.value is Ok,
    ensures
        send_slice_at(bytes, from, t, p) == done::<(), T, S>(p + bytes.len() - from, ()),
        forall|i: int| from <= i < bytes.len() ==> #[trigger] is_sent(t, p + i - from, bytes[i]),
    decreases bytes.len() - from,
{
    if from < bytes.len() {
        lemma_sent_bytes_on_wire(bytes, from + 1, t, p + 1);
        assert forall|i: int| from <= i < bytes.len() implies #[trigger] is_sent(
            t,
            p + i - from,
            bytes[i],
        ) by {
            if i > from {
                assert(is_sent(t, p + 1 + i - (from + 1), bytes[i]));
            }
        }
    }
}

/// Bytes that the card sent without a fault are the bytes received, in
/// order, after those already held.
pub proof fn lemma_received_bytes_from_wire<T, S>(
    got: Seq<u8>,
    bytes: Seq<u8>,
    t: Trace<T, S>,
    p: int,
)
    requires
        forall|i: int| 0 <= i < bytes.len() ==> #[trigger] is_received(t, p + i, bytes[i]),
    ensures
        receive_slice_at(got, bytes.len(), t, p) == done::<Seq<u8>, T, S>(
            p + bytes.len(),
            got + bytes,
        ),
    decreases bytes.len(),
{
    if bytes.len() == 0 {
    } else {
        let rest = bytes.drop_first();
        assert(is_received(t, p + 0, bytes[0]));
        assert forall|i: int| 0 <= i < rest.len() implies #[trigger] is_received(
            t,
            p + 1 + i,
            rest[i],
        ) by {
            assert(is_received(t, p + (i + 1), bytes[i + 1]));
        }
        lemma_received_bytes_from_wire(got.push(bytes[0]), rest, t, p + 1);
        assert(got.push(bytes[0]) + rest =~= got + bytes);
    }
}

/// A run of the transport shim that a trace holds is the same run in every
/// continuation of the trace.
pub broadcast group group_transport_extends {
    lemma_exchange_extends,
    lemma_pause_extends,
    lemma_relax_extends,
    lemma_send_extends,
    lemma_send_slice_extends,
    lemma_receive_slice_extends,
    lemma_wait_for_token_extends,
    lemma_wait_available_extends,
}

/// A run of the transport shim leaves chip select alone.
pub broadcast group group_transport_spans {
    lemma_exchange_spans,
    lemma_send_spans,
    lemma_send_slice_spans,
    lemma_receive_slice_spans,
    lemma_wait_for_token_spans,
    lemma_wait_available_spans,
}

/// Every run that a trace holds is the same run in every continuation of
/// the trace: what the driver has done stays done.
pub broadcast group group_runs_extend {
    crate::bus::lemma_extends_transitive,
    group_transport_extends,
    command::group_command_extends,
    data::group_data_extends,
    bringup::group_bringup_extends,
    session::group_session_extends,
}

} // verus!
