//! The two physical collaborators the driver consumes: a full-duplex byte
//! exchange primitive and a digital output line used as chip select.
//!
//! Both are traits for the user of the library to implement over the real
//! hardware. Their contracts expose just enough state for the driver's own
//! contracts: the history of bytes exchanged on the bus, and the level the
//! line was last driven to.

use vstd::prelude::*;

verus! {

/// The two levels a digital output line can be driven to. The chip-select
/// line is active low: `Low` asserts the chip, `High` releases it.
#[derive(Clone, Copy, Debug, PartialEq, Eq, Structural)]
pub enum LineLevel {
    Low,
    High,
}

/// A blocking, full-duplex, byte-oriented exchange primitive.
///
/// An implementation clocks one byte out and hands back the byte that was
/// clocked in during the same exchange, or reports an opaque transport fault.
pub trait SpiExchange {
    /// The bytes this primitive has clocked out so far, oldest first.
    /// An implementation overrides this view with its own model of the bus.
    open spec fn bytes_sent(&self) -> Seq<u8> {
        Seq::empty()
    }

    /// The bytes clocked in during those same exchanges, oldest first.
    /// An implementation overrides this view with its own model of the bus.
    open spec fn bytes_received(&self) -> Seq<u8> {
        Seq::empty()
    }

    /// Exchange one byte, blocking until the transfer completes.
    ///
    /// An exchange is atomic: on success exactly one byte is appended to each
    /// history, and on a transport fault neither history changes.
    fn exchange(&mut self, out_byte: u8) -> (r: Result<u8, ()>)
        ensures
            (match r {
                Ok(in_byte) => final(self).bytes_sent() == old(self).bytes_sent().push(out_byte)
                    && final(self).bytes_received() == old(self).bytes_received().push(in_byte),
                Err(_) => final(self).bytes_sent() == old(self).bytes_sent()
                    && final(self).bytes_received() == old(self).bytes_received(),
            }),
    ;
}

/// A digital output line with two levels, used to frame transactions.
///
/// The `level` view records the level the line was last commanded to; a
/// hardware fault is reported through the result, but the commanded level —
/// the part the driver is answerable for — still changes.
pub trait EnableLine {
    /// The level the line was last driven to. An implementation overrides
    /// this view with its own model of the line.
    open spec fn level(&self) -> LineLevel {
        LineLevel::High
    }

    /// Drive the line low (assert the chip).
    fn set_low(&mut self) -> (r: Result<(), ()>)
        ensures
            final(self).level() == LineLevel::Low,
    ;

    /// Drive the line high (release the chip).
    fn set_high(&mut self) -> (r: Result<(), ()>)
        ensures
            final(self).level() == LineLevel::High,
    ;
}

} // verus!
