//! The command engine: framing, the wait before a command and the poll for
//! its R1 response.

use vstd::prelude::*;
use vstd::slice::slice_subrange;
use crate::bus::{extends, is_sent, Trace};
use crate::config::Limits;
use crate::consts::{commands, tokens};
use crate::crc::{crc7, crc7_spec, lemma_crc7_is_seven_bits};
use crate::csd::be_value;
use crate::error::Error;
use crate::response::R1Response;
use crate::wire::{
    done, group_transport_spans, leaves_chip_select, lemma_send_extends, lemma_send_slice_extends,
    lemma_sent_bytes_on_wire, lemma_wait_available_extends, lemma_wait_for_token_extends,
    lemma_wait_for_token_spans, send_at, send_slice_at, then, wait_available_at, wait_for_token_at,
    Outcome,
};

verus! {

/// The six bytes of a command on the wire: the command index, the argument
/// most significant byte first, and the CRC-7 of those five bytes shifted
/// left by one with the end bit set.
pub open spec fn command_frame(cmd: u8, arg: u32) -> Seq<u8> {
    let head = seq![
        cmd,
        (arg / 0x100_0000) as u8,
        (arg / 0x1_0000 % 0x100) as u8,
        (arg / 0x100 % 0x100) as u8,
        (arg % 0x100) as u8,
    ];
    head.push((2 * crc7_spec(head) + 1) as u8)
}

proof fn lemma_argument_bytes(arg: u32)
    by (bit_vector)
    ensures
        arg >> 24 == arg / 0x100_0000,
        arg >> 24 <= 0xFF,
        (arg >> 16) & 0xFF == arg / 0x1_0000 % 0x100,
        (arg >> 8) & 0xFF == arg / 0x100 % 0x100,
        arg & 0xFF == arg % 0x100,
{
}

proof fn lemma_crc_byte(crc: u8)
    by (bit_vector)
    requires
        crc < 0x80,
    ensures
        (crc << 1) | 0x01 == 2 * crc + 1,
{
}

/// Frames a command for the wire.
pub fn frame_command(cmd: u8, arg: u32) -> (frame: [u8; 6])
    ensures
        frame@ == command_frame(cmd, arg),
        frame[5] == 2 * crc7_spec(frame@.take(5)) + 1,
{
    proof {
        lemma_argument_bytes(arg);
    }
    let mut frame: [u8; 6] = [
        cmd,
        (arg >> 24) as u8,
        ((arg >> 16) & 0xFF) as u8,
        ((arg >> 8) & 0xFF) as u8,
        (arg & 0xFF) as u8,
        0,
    ];
    let ghost head = frame@.take(5);
    assert(head =~= seq![
        cmd,
        (arg / 0x100_0000) as u8,
        (arg / 0x1_0000 % 0x100) as u8,
        (arg / 0x100 % 0x100) as u8,
        (arg % 0x100) as u8,
    ]);
    let crc = crc7(slice_subrange(frame.as_slice(), 0, 5));
    proof {
        lemma_crc_byte(crc);
    }
    frame[5] = (crc << 1) | 0x01;
    assert(frame@.take(5) =~= head);
    frame
}

/// Holds of the bytes that are a valid R1 response: the high bit is clear.
pub open spec fn is_response() -> spec_fn(u8) -> bool {
    |byte: u8| R1Response(byte).spec_is_valid()
}

/// Polling for the R1 response of `cmd`, at most `attempts` times.
pub open spec fn read_r1_at<T, S>(
    cmd: u8,
    attempts: nat,
    t: Trace<T, S>,
    p: int,
) -> Outcome<R1Response, T, S> {
    then(
        wait_for_token_at(is_response(), Error::TimeoutCommand(cmd), attempts, None, t, p),
        |end: int, byte: u8| done(end, R1Response(byte)),
    )
}

/// One command on the wire: wait until the card is available, send the
/// frame, drop the stuff byte that follows CMD12, and poll for R1.
pub open spec fn command_at<T, S>(
    lim: Limits,
    cmd: u8,
    arg: u32,
    t: Trace<T, S>,
    p: int,
) -> Outcome<R1Response, T, S> {
    then(
        wait_available_at(lim, t, p),
        |ready: int, ok: ()|
            then(
                send_slice_at(command_frame(cmd, arg), 0, t, ready),
                |framed: int, ok: ()|
                    if cmd == commands::CMD12 {
                        then(
                            send_at(tokens::AVAILABLE, t, framed),
                            |stuffed: int, ok: ()|
                                read_r1_at(cmd, lim.read_r1_attempts, t, stuffed),
                        )
                    } else {
                        read_r1_at(cmd, lim.read_r1_attempts, t, framed)
                    },
            ),
    )
}

/// Whether `cmd` carries the application-command flag.
pub open spec fn is_app_command(cmd: u8) -> bool {
    cmd >= commands::ACMD_FLAG
}

/// `cmd` without the application-command flag.
pub open spec fn plain_command(cmd: u8) -> u8 {
    (cmd % commands::ACMD_FLAG) as u8
}

/// A command as callers issue it: an application command is announced by
/// CMD55 with argument 0, whose R1 is dropped, and goes out without its
/// flag.
pub open spec fn send_command_at<T, S>(
    lim: Limits,
    cmd: u8,
    arg: u32,
    t: Trace<T, S>,
    p: int,
) -> Outcome<R1Response, T, S> {
    if is_app_command(cmd) {
        then(
            command_at(lim, commands::CMD55, 0, t, p),
            |announced: int, r1: R1Response|
                command_at(lim, plain_command(cmd), arg, t, announced),
        )
    } else {
        command_at(lim, plain_command(cmd), arg, t, p)
    }
}

/// A run of `read_r1_at` that a trace holds is the same run in every
/// continuation of the trace.
pub broadcast proof fn lemma_read_r1_extends<T, S>(
    cmd: u8,
    attempts: nat,
    t: Trace<T, S>,
    later: Trace<T, S>,
    p: int,
)
    requires
        #[trigger] extends(later, t),
        (#[trigger] read_r1_at(cmd, attempts, t, p)) is Some,
    ensures
        read_r1_at(cmd, attempts, later, p) == read_r1_at(cmd, attempts, t, p),
{
    lemma_wait_for_token_extends(
        is_response(),
        Error::<T, S>::TimeoutCommand(cmd),
        attempts,
        None,
        t,
        later,
        p,
    );
}

/// A run of `command_at` that a trace holds is the same run in every
/// continuation of the trace.
pub broadcast proof fn lemma_command_extends<T, S>(
    lim: Limits,
    cmd: u8,
    arg: u32,
    t: Trace<T, S>,
    later: Trace<T, S>,
    p: int,
)
    requires
        #[trigger] extends(later, t),
        (#[trigger] command_at(lim, cmd, arg, t, p)) is Some,
    ensures
        command_at(lim, cmd, arg, later, p) == command_at(lim, cmd, arg, t, p),
{
    broadcast use
        lemma_wait_available_extends,
        lemma_send_slice_extends,
        lemma_send_extends,
        lemma_read_r1_extends,
    ;

}

/// A run of `send_command_at` that a trace holds is the same run in every
/// continuation of the trace.
pub broadcast proof fn lemma_send_command_extends<T, S>(
    lim: Limits,
    cmd: u8,
    arg: u32,
    t: Trace<T, S>,
    later: Trace<T, S>,
    p: int,
)
    requires
        #[trigger] extends(later, t),
        (#[trigger] send_command_at(lim, cmd, arg, t, p)) is Some,
    ensures
        send_command_at(lim, cmd, arg, later, p) == send_command_at(lim, cmd, arg, t, p),
{
    broadcast use lemma_command_extends;

}

/// Every command frame has six bytes: the command index, the argument most
/// significant byte first, and last the CRC-7 of those five shifted left by
/// one, with the end bit set.
pub proof fn lemma_frame_layout(cmd: u8, arg: u32)
    ensures
        command_frame(cmd, arg).len() == 6,
        command_frame(cmd, arg)[0] == cmd,
        be_value(command_frame(cmd, arg).subrange(1, 5)) == arg,
        command_frame(cmd, arg)[5] == 2 * crc7_spec(command_frame(cmd, arg).take(5)) + 1,
        command_frame(cmd, arg)[5] % 2 == 1,
{
    let frame = command_frame(cmd, arg);
    let head = frame.take(5);
    assert(head =~= seq![
        cmd,
        (arg / 0x100_0000) as u8,
        (arg / 0x1_0000 % 0x100) as u8,
        (arg / 0x100 % 0x100) as u8,
        (arg % 0x100) as u8,
    ]);
    lemma_crc7_is_seven_bits(head);
    reveal_with_fuel(be_value, 5);
}

/// A command that got its R1 put its frame on the wire, byte for byte,
/// right after the wait for the card. What follows the frame is the poll
/// for R1, except after CMD12: there one more byte is clocked and dropped
/// first, whatever it is.
pub proof fn lemma_command_on_wire<T, S>(lim: Limits, cmd: u8, arg: u32, t: Trace<T, S>, p: int)
    requires
        command_at(lim, cmd, arg, t, p) matches Some(run) && run.value is Ok,
    ensures
        ({
            let ready = wait_available_at(lim, t, p).unwrap().end;
            let frame = command_frame(cmd, arg);
            &&& forall|i: int| 0 <= i < 6 ==> #[trigger] is_sent(t, ready + i, frame[i])
            &&& cmd != commands::CMD12 ==> command_at(lim, cmd, arg, t, p) == read_r1_at(
                cmd,
                lim.read_r1_attempts,
                t,
                ready + 6,
            )
            &&& cmd == commands::CMD12 ==> {
                &&& is_sent(t, ready + 6, tokens::AVAILABLE)
                &&& command_at(lim, cmd, arg, t, p) == read_r1_at(
                    cmd,
                    lim.read_r1_attempts,
                    t,
                    ready + 7,
                )
            }
        }),
{
    let ready = wait_available_at(lim, t, p).unwrap().end;
    let frame = command_frame(cmd, arg);
    lemma_sent_bytes_on_wire(frame, 0, t, ready);
    assert forall|i: int| 0 <= i < 6 implies #[trigger] is_sent(t, ready + i, frame[i]) by {
        assert(is_sent(t, ready + i - 0, frame[i]));
    }
}

/// A run of `read_r1_at` leaves chip select alone.
pub broadcast proof fn lemma_read_r1_spans<T, S>(cmd: u8, attempts: nat, t: Trace<T, S>, p: int)
    ensures
        leaves_chip_select(#[trigger] read_r1_at(cmd, attempts, t, p), t, p),
{
    lemma_wait_for_token_spans(
        is_response(),
        Error::<T, S>::TimeoutCommand(cmd),
        attempts,
        None,
        t,
        p,
    );
}

/// A run of `command_at` leaves chip select alone.
pub broadcast proof fn lemma_command_spans<T, S>(
    lim: Limits,
    cmd: u8,
    arg: u32,
    t: Trace<T, S>,
    p: int,
)
    ensures
        leaves_chip_select(#[trigger] command_at(lim, cmd, arg, t, p), t, p),
{
    broadcast use group_transport_spans, lemma_read_r1_spans;

}

/// A run of `send_command_at` leaves chip select alone.
pub broadcast proof fn lemma_send_command_spans<T, S>(
    lim: Limits,
    cmd: u8,
    arg: u32,
    t: Trace<T, S>,
    p: int,
)
    ensures
        leaves_chip_select(#[trigger] send_command_at(lim, cmd, arg, t, p), t, p),
{
    broadcast use lemma_command_spans;

}

/// A run of the command engine leaves chip select alone.
pub broadcast group group_command_spans {
    lemma_read_r1_spans,
    lemma_command_spans,
    lemma_send_command_spans,
}

/// A run of the command engine that a trace holds is the same run in every
/// continuation of the trace.
pub broadcast group group_command_extends {
    lemma_read_r1_extends,
    lemma_command_extends,
    lemma_send_command_extends,
}

} // verus!
