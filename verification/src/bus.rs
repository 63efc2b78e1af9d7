//! The two lines the driver owns, and the record of what happened on them.
//!
//! Nothing is assumed of a bus: the card may answer anything and every
//! operation may fail. [`Lines`] holds both lines and appends each operation
//! it performs, together with its outcome, to a ghost trace. Its operations
//! are the only code that touches the lines or the trace, so the trace tells
//! exactly what was done, and contracts speak of it.

use vstd::prelude::*;

verus! {

/// Full-duplex byte transport to the card.
pub trait SpiBus {
    /// Error type.
    type Error;

    /// Clocks `byte` out and returns the byte that was clocked in.
    fn transfer(&mut self, byte: u8) -> Result<u8, Self::Error>;
}

/// The chip-select line of the card.
pub trait ChipSelect {
    /// Error type.
    type Error;

    /// Asserts the line: the card is selected.
    fn on(&mut self) -> Result<(), Self::Error>;

    /// Releases the line.
    fn off(&mut self) -> Result<(), Self::Error>;
}

/// One operation on the bus, with its outcome.
pub enum BusEvent<T, S> {
    /// `sent` was clocked out and the transport answered `reply`.
    Exchange { sent: u8, reply: Result<u8, T> },
    /// Chip select was asked to assert.
    Select { outcome: Result<(), S> },
    /// Chip select was asked to release.
    Release { outcome: Result<(), S> },
    /// The driver left the lines alone for `rounds` rounds of busy waiting.
    Pause { rounds: usize },
}

/// Everything that happened on the bus, oldest event first.
pub type Trace<T, S> = Seq<BusEvent<T, S>>;

/// A completed piece of protocol: the trace position after its last event,
/// and what it yielded.
pub struct Run<V> {
    pub end: int,
    pub value: V,
}

/// Hands `value` to `core::hint::black_box`, which the compiler may not see
/// through, so that the loop around the call is kept. Nothing is claimed of
/// what comes back.
#[verifier::external_body]
fn keep_busy(value: usize) -> usize {
    core::hint::black_box(value)
}

/// The SPI transport and the chip-select line of one card, with the record
/// of every operation performed on them.
pub struct Lines<Spi: SpiBus, Cs: ChipSelect> {
    spi: Spi,
    cs: Cs,
    trace: Ghost<Trace<Spi::Error, Cs::Error>>,
}

impl<Spi: SpiBus, Cs: ChipSelect> Lines<Spi, Cs> {
    /// Everything that was done on the lines so far.
    pub closed spec fn trace(&self) -> Trace<Spi::Error, Cs::Error> {
        self.trace@
    }

    /// Takes both lines; nothing has happened on them yet.
    pub fn new(spi: Spi, cs: Cs) -> (lines: Self)
        ensures
            lines.trace() == Seq::<BusEvent<Spi::Error, Cs::Error>>::empty(),
    {
        Lines { spi, cs, trace: Ghost(Seq::empty()) }
    }

    /// Clocks `byte` out and returns what the transport answered.
    pub fn exchange(&mut self, byte: u8) -> (reply: Result<u8, Spi::Error>)
        ensures
            final(self).trace() == old(self).trace().push(BusEvent::Exchange { sent: byte, reply }),
    {
        let reply = self.spi.transfer(byte);
        proof {
            self.trace@ = self.trace@.push(BusEvent::Exchange { sent: byte, reply });
        }
        reply
    }

    /// Asks chip select to assert.
    pub fn select(&mut self) -> (outcome: Result<(), Cs::Error>)
        ensures
            final(self).trace() == old(self).trace().push(BusEvent::Select { outcome }),
    {
        let outcome = self.cs.on();
        proof {
            self.trace@ = self.trace@.push(BusEvent::Select { outcome });
        }
        outcome
    }

    /// Asks chip select to release.
    pub fn release(&mut self) -> (outcome: Result<(), Cs::Error>)
        ensures
            final(self).trace() == old(self).trace().push(BusEvent::Release { outcome }),
    {
        let outcome = self.cs.off();
        proof {
            self.trace@ = self.trace@.push(BusEvent::Release { outcome });
        }
        outcome
    }

    /// Leaves the lines alone for `rounds` rounds of busy waiting.
    pub fn pause(&mut self, rounds: usize)
        ensures
            final(self).trace() == old(self).trace().push(BusEvent::Pause { rounds }),
    {
        let mut round: usize = 0;
        while round < rounds
            invariant
                round <= rounds,
            decreases rounds - round,
        {
            keep_busy(round);
            round += 1;
        }
        proof {
            self.trace@ = self.trace@.push(BusEvent::Pause { rounds });
        }
    }
}

/// The event at `p` is an exchange that clocked `byte` out without a fault.
pub open spec fn is_sent<T, S>(t: Trace<T, S>, p: int, byte: u8) -> bool {
    0 <= p < t.len() && match t[p] {
        BusEvent::Exchange { sent, reply } => sent == byte && reply is Ok,
        _ => false,
    }
}

/// The event at `p` is an exchange that clocked 0xFF out and `byte` in.
pub open spec fn is_received<T, S>(t: Trace<T, S>, p: int, byte: u8) -> bool {
    0 <= p < t.len() && t[p] == (BusEvent::<T, S>::Exchange { sent: 0xFF, reply: Ok(byte) })
}

/// The event at `p` is a request to release chip select.
pub open spec fn is_release<T, S>(t: Trace<T, S>, p: int) -> bool {
    0 <= p < t.len() && t[p] is Release
}

/// No event of `t` from position `from` up to position `to` touches chip
/// select: each is an exchange of one byte or a pause.
pub open spec fn chip_select_untouched<T, S>(t: Trace<T, S>, from: int, to: int) -> bool {
    forall|i: int| from <= i < to ==> (#[trigger] t[i]) is Exchange || t[i] is Pause
}

/// `later` continues `earlier`: it begins with the same events.
pub open spec fn extends<A>(later: Seq<A>, earlier: Seq<A>) -> bool {
    &&& earlier.len() <= later.len()
    &&& forall|i: int| 0 <= i < earlier.len() ==> earlier[i] == later[i]
}

/// A sequence continues every sequence that continues to it.
pub broadcast proof fn lemma_extends_transitive<A>(last: Seq<A>, middle: Seq<A>, first: Seq<A>)
    requires
        #[trigger] extends(last, middle),
        #[trigger] extends(middle, first),
    ensures
        extends(last, first),
{
}

} // verus!
