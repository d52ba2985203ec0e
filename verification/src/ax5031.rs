//! The driver handle and the transaction engine: every configuration
//! operation is one or more 16-bit register transactions on the bus, each
//! framed by the chip-select line.
//!
//! The contracts describe each operation by the exact bytes it puts on the
//! wire and by how it uses the bytes that came back. Two conventions run
//! through them:
//!
//! * the chip-select line is never left asserted: every operation ends with
//!   the line commanded high, whatever happened on the bus;
//! * a bus or line fault aborts the operation with [`Ax5031Error::Any`], and
//!   whatever was already written stays written — the abort clauses say the
//!   wire traffic is a prefix of the intended traffic.

use vstd::prelude::*;

verus! {

use crate::bus::EnableLine;
use crate::bus::LineLevel;
use crate::bus::SpiExchange;
use crate::frame::create_frame;
use crate::frame::lemma_frame_wire_bytes;
use crate::frame::spec_frame_hi;
use crate::frame::spec_frame_lo;
use crate::frame::SpiAction;
use crate::quantize::bitrate_word;
use crate::quantize::frequency_word;
use crate::quantize::spec_bitrate_word;
use crate::quantize::spec_frequency_word;
use crate::quantize::spec_quantized;
use crate::quantize::spec_word_byte;
use crate::quantize::spec_word_from_bytes;
use crate::quantize::word_byte;
use crate::quantize::word_from_bytes;
use crate::registers::spec_get_bit;
use crate::registers::spec_pll_loop_bits;
use crate::registers::spec_power_mode_bits;
use crate::registers::spec_status;
use crate::registers::ControlRegister;
use crate::registers::Encoding;
use crate::registers::FramingMode;
use crate::registers::Modulation;
use crate::registers::PowerMode;
use crate::registers::Register;
use crate::registers::Status;

/// The failures an operation can report.
#[derive(Clone, Copy, Debug, PartialEq, Eq, Structural)]
pub enum Ax5031Error {
    /// A fault of the exchange primitive or of the chip-select line, or an
    /// unrecognized register value read back from the chip. Opaque; not
    /// retriable by this layer.
    Any,
    /// VCO calibration did not settle within the polling budget.
    AutoRangingTimeout,
    /// VCO calibration reported its error flag.
    AutoRangingError,
    /// The requested configuration variant is not driven by this driver
    /// version.
    UnsupportedMode,
}

/// The two bytes a write of `val` to the register at `addr` puts on the wire:
/// the address with the direction bit set, then the data byte.
pub open spec fn reg_write_wire(addr: u8, val: u8) -> Seq<u8> {
    seq![addr | 0x80, val]
}

/// The two bytes a read of the register at `addr` puts on the wire: the bare
/// address, then a zero don't-care byte.
pub open spec fn reg_read_wire(addr: u8) -> Seq<u8>
    recommends
        addr <= 0x7f,
{
    seq![addr, 0u8]
}

/// The eight bytes a frequency programming sequence puts on the wire: the
/// 32-bit word's bytes, most significant first, written to `FREQ3..FREQ0`.
pub open spec fn frequency_wire(word: u32) -> Seq<u8> {
    reg_write_wire(ControlRegister::FREQ3.spec_register(), spec_word_byte(word, 3))
        + reg_write_wire(ControlRegister::FREQ2.spec_register(), spec_word_byte(word, 2))
        + reg_write_wire(ControlRegister::FREQ1.spec_register(), spec_word_byte(word, 1))
        + reg_write_wire(ControlRegister::FREQ0.spec_register(), spec_word_byte(word, 0))
}

/// The eight bytes a frequency read-back puts on the wire: one read of each
/// of `FREQ3..FREQ0`, in that order.
pub open spec fn frequency_read_wire() -> Seq<u8> {
    reg_read_wire(ControlRegister::FREQ3.spec_register())
        + reg_read_wire(ControlRegister::FREQ2.spec_register())
        + reg_read_wire(ControlRegister::FREQ1.spec_register())
        + reg_read_wire(ControlRegister::FREQ0.spec_register())
}

/// The six bytes a bitrate programming sequence puts on the wire: the 24-bit
/// value's bytes, most significant first, written to `TXRATEHI`, `TXRATEMID`,
/// `TXRATELO`.
pub open spec fn bitrate_wire(word: u32) -> Seq<u8> {
    reg_write_wire(ControlRegister::TXRATEHI.spec_register(), spec_word_byte(word, 2))
        + reg_write_wire(ControlRegister::TXRATEMID.spec_register(), spec_word_byte(word, 1))
        + reg_write_wire(ControlRegister::TXRATELO.spec_register(), spec_word_byte(word, 0))
}

/// Frequency round-trip on the wire: the four data bytes of a frequency
/// programming sequence, reassembled most significant byte first the way
/// `get_frequency` reassembles what it reads back, give the programmed word
/// again.
pub proof fn lemma_frequency_wire_roundtrip(word: u32)
    ensures
        frequency_wire(word).len() == 8,
        spec_word_from_bytes(
            frequency_wire(word)[1],
            frequency_wire(word)[3],
            frequency_wire(word)[5],
            frequency_wire(word)[7],
        ) == word,
{
    crate::quantize::lemma_word_bytes_roundtrip(word);
    assert(frequency_wire(word)[1] == spec_word_byte(word, 3));
    assert(frequency_wire(word)[3] == spec_word_byte(word, 2));
    assert(frequency_wire(word)[5] == spec_word_byte(word, 1));
    assert(frequency_wire(word)[7] == spec_word_byte(word, 0));
}

/// The wire bytes of `count` consecutive reads of the register at `addr`.
pub open spec fn repeated_read_wire(addr: u8, count: int) -> Seq<u8>
    decreases count,
{
    if count <= 0 {
        Seq::empty()
    } else {
        repeated_read_wire(addr, count - 1) + reg_read_wire(addr)
    }
}

/// The data byte of poll number `k` (0-based) in a received stream that held
/// `base` bytes before an auto-ranging operation began: the start write's two
/// bytes come back first, then two bytes per poll, the data byte second of
/// each pair.
pub open spec fn poll_data(rx: Seq<u8>, base: int, k: int) -> u8 {
    rx[base + 3 + 2 * k]
}

/// What one auto-ranging poll of `PLLRANGING` says.
#[derive(Clone, Copy, Debug, PartialEq, Eq, Structural)]
pub enum RangingPoll {
    /// The busy flag is still set: calibration is still running.
    Busy,
    /// Busy cleared with the error flag set: calibration failed.
    Errored,
    /// Busy and error flags both clear: calibration completed.
    Complete,
}

/// The auto-ranging transition rule for one polled `PLLRANGING` value:
/// bit 4 is the busy flag, bit 5 the error flag.
pub fn classify_poll(pllranging: u8) -> (r: RangingPoll)
    ensures
        (r == RangingPoll::Busy) == spec_get_bit(pllranging, 4),
        (r == RangingPoll::Errored) == (!spec_get_bit(pllranging, 4) && spec_get_bit(
            pllranging,
            5,
        )),
        (r == RangingPoll::Complete) == (!spec_get_bit(pllranging, 4) && !spec_get_bit(
            pllranging,
            5,
        )),
{
    let rngstart = pllranging >> 4 & 1;
    let rngerr = pllranging >> 5 & 1;
    if rngstart == 1 {
        RangingPoll::Busy
    } else if rngerr == 1 {
        RangingPoll::Errored
    } else {
        RangingPoll::Complete
    }
}

/// Decode an observed `MODULATION` register value: zero is on-off keying and
/// any other value is an unrecognized chip state, reported as an error.
pub fn modulation_from_bits(mod_bits: u8) -> (r: Result<Modulation, Ax5031Error>)
    ensures
        mod_bits == 0 ==> r == Ok::<Modulation, Ax5031Error>(Modulation::ASK),
        mod_bits != 0 ==> r == Err::<Modulation, Ax5031Error>(Ax5031Error::Any),
{
    match mod_bits {
        0x00 => Ok(Modulation::ASK),
        _ => Err(Ax5031Error::Any),
    }
}

/// Being a prefix is transitive.
proof fn lemma_prefix_trans(a: Seq<u8>, b: Seq<u8>, c: Seq<u8>)
    requires
        a.is_prefix_of(b),
        b.is_prefix_of(c),
    ensures
        a.is_prefix_of(c),
{
    assert(a =~= c.subrange(0, a.len() as int));
}

/// The driver handle. It exclusively owns the bus exchange capability and the
/// chip-select line for its whole lifetime; dropping it releases them.
pub struct Ax5031<SPI, PIN> {
    spi: SPI,
    enable_line: PIN,
}

impl<SPI: SpiExchange, PIN: EnableLine> Ax5031<SPI, PIN> {
    /// The bytes this handle has clocked out on the bus, oldest first.
    pub closed spec fn sent(&self) -> Seq<u8> {
        self.spi.bytes_sent()
    }

    /// The bytes that came back in those same exchanges, oldest first.
    pub closed spec fn received(&self) -> Seq<u8> {
        self.spi.bytes_received()
    }

    /// The level the chip-select line was last commanded to.
    pub closed spec fn select_level(&self) -> LineLevel {
        self.enable_line.level()
    }

    /// One transaction completed: exactly the two bytes of `wire_out` went
    /// out, two bytes came back, and `ret` is the decoded status byte paired
    /// with the data byte.
    pub open spec fn transaction_ok(self, pre: Self, wire_out: Seq<u8>, ret: (Status, u8)) -> bool {
        &&& self.sent() == pre.sent() + wire_out
        &&& self.received().len() == pre.received().len() + 2
        &&& pre.received().is_prefix_of(self.received())
        &&& ret.0 == spec_status(self.received()[pre.received().len() as int])
        &&& ret.1 == self.received()[pre.received().len() as int + 1]
    }

    /// An operation that meant to put `intent` on the wire stopped at a fault:
    /// what went out is a prefix of `intent`, every byte out was still paired
    /// with a byte in, and nothing already exchanged is disturbed.
    pub open spec fn aborted_within(self, pre: Self, intent: Seq<u8>) -> bool {
        &&& pre.sent().is_prefix_of(self.sent())
        &&& self.sent().is_prefix_of(pre.sent() + intent)
        &&& pre.received().is_prefix_of(self.received())
        &&& self.received().len() - pre.received().len() == self.sent().len() - pre.sent().len()
    }

    /// The contract of one whole register write: the chip-select line ends
    /// released, and the operation either completed its two-byte write
    /// transaction or aborted within it with a bus error.
    pub open spec fn wrote(
        self,
        pre: Self,
        reg: ControlRegister,
        val: u8,
        r: Result<(Status, u8), Ax5031Error>,
    ) -> bool {
        &&& self.select_level() == LineLevel::High
        &&& (match r {
            Ok(ret) => self.transaction_ok(pre, reg_write_wire(reg.spec_register(), val), ret),
            Err(e) => e == Ax5031Error::Any && self.aborted_within(
                pre,
                reg_write_wire(reg.spec_register(), val),
            ),
        })
    }

    /// The contract of one whole register read, as [`Self::wrote`] is for
    /// writes.
    pub open spec fn read_back(
        self,
        pre: Self,
        reg: ControlRegister,
        r: Result<(Status, u8), Ax5031Error>,
    ) -> bool {
        &&& self.select_level() == LineLevel::High
        &&& (match r {
            Ok(ret) => self.transaction_ok(pre, reg_read_wire(reg.spec_register()), ret),
            Err(e) => e == Ax5031Error::Any && self.aborted_within(
                pre,
                reg_read_wire(reg.spec_register()),
            ),
        })
    }

    /// Take ownership of the bus and the chip-select line and wrap them in a
    /// driver handle. No transaction is performed.
    pub fn new(spi: SPI, enable_line: PIN) -> (r: Self)
        ensures
            r.sent() == spi.bytes_sent(),
            r.received() == spi.bytes_received(),
            r.select_level() == enable_line.level(),
    {
        Ax5031 { spi, enable_line }
    }

    /// Assert the chip by driving the select line to its active (low) level.
    fn begin_transmission(&mut self) -> (r: Result<(), Ax5031Error>)
        ensures
            final(self).select_level() == LineLevel::Low,
            final(self).sent() == old(self).sent(),
            final(self).received() == old(self).received(),
            (r matches Err(e) ==> e == Ax5031Error::Any),
    {
        if self.enable_line.set_low().is_ok() {
            Ok(())
        } else {
            Err(Ax5031Error::Any)
        }
    }

    /// Release the chip by driving the select line back to its inactive
    /// (high) level.
    fn end_transmission(&mut self) -> (r: Result<(), Ax5031Error>)
        ensures
            final(self).select_level() == LineLevel::High,
            final(self).sent() == old(self).sent(),
            final(self).received() == old(self).received(),
            (r matches Err(e) ==> e == Ax5031Error::Any),
    {
        if self.enable_line.set_high().is_ok() {
            Ok(())
        } else {
            Err(Ax5031Error::Any)
        }
    }

    /// Perform one complete register transaction: assert the select line,
    /// exchange the frame's high byte (the byte received is the status byte),
    /// exchange the low byte (the byte received is the register data), and
    /// release the line. A fault anywhere aborts, and the line is still
    /// released.
    fn send(&mut self, frame: u16) -> (r: Result<(Status, u8), Ax5031Error>)
        ensures
            final(self).select_level() == LineLevel::High,
            (match r {
                Ok(ret) => final(self).transaction_ok(
                    *old(self),
                    seq![spec_frame_hi(frame), spec_frame_lo(frame)],
                    ret,
                ),
                Err(e) => e == Ax5031Error::Any && final(self).aborted_within(
                    *old(self),
                    seq![spec_frame_hi(frame), spec_frame_lo(frame)],
                ),
            }),
    {
        let ghost intent = seq![spec_frame_hi(frame), spec_frame_lo(frame)];
        if self.begin_transmission().is_err() {
            let _ = self.end_transmission();
            proof {
                assert(old(self).sent().is_prefix_of(self.sent()));
                assert(self.sent().is_prefix_of(old(self).sent() + intent)) by {
                    assert(self.sent() =~= (old(self).sent() + intent).subrange(
                        0,
                        self.sent().len() as int,
                    ));
                }
                assert(old(self).received().is_prefix_of(self.received()));
            }
            return Err(Ax5031Error::Any);
        }
        let hi = (frame >> 8) as u8;
        let lo = (frame & 0xff) as u8;
        let status_bits = match self.spi.exchange(hi) {
            Ok(b) => b,
            Err(_) => {
                let _ = self.end_transmission();
                proof {
                    assert(old(self).sent().is_prefix_of(self.sent()));
                    assert(self.sent().is_prefix_of(old(self).sent() + intent)) by {
                        assert(self.sent() =~= (old(self).sent() + intent).subrange(
                            0,
                            self.sent().len() as int,
                        ));
                    }
                    assert(old(self).received().is_prefix_of(self.received()));
                }
                return Err(Ax5031Error::Any);
            },
        };
        let data = match self.spi.exchange(lo) {
            Ok(b) => b,
            Err(_) => {
                let _ = self.end_transmission();
                proof {
                    assert(old(self).sent().is_prefix_of(self.sent())) by {
                        assert(old(self).sent() =~= self.sent().subrange(
                            0,
                            old(self).sent().len() as int,
                        ));
                    }
                    assert(self.sent().is_prefix_of(old(self).sent() + intent)) by {
                        assert(self.sent() =~= (old(self).sent() + intent).subrange(
                            0,
                            self.sent().len() as int,
                        ));
                    }
                    assert(old(self).received().is_prefix_of(self.received())) by {
                        assert(old(self).received() =~= self.received().subrange(
                            0,
                            old(self).received().len() as int,
                        ));
                    }
                }
                return Err(Ax5031Error::Any);
            },
        };
        let ended_ok = self.end_transmission().is_ok();
        proof {
            assert(self.sent() =~= old(self).sent() + intent);
            assert(old(self).received().is_prefix_of(self.received())) by {
                assert(old(self).received() =~= self.received().subrange(
                    0,
                    old(self).received().len() as int,
                ));
            }
        }
        if !ended_ok {
            proof {
                assert(self.sent().is_prefix_of(old(self).sent() + intent)) by {
                    assert(self.sent() =~= (old(self).sent() + intent).subrange(
                        0,
                        self.sent().len() as int,
                    ));
                }
                assert(old(self).sent().is_prefix_of(self.sent())) by {
                    assert(old(self).sent() =~= self.sent().subrange(
                        0,
                        old(self).sent().len() as int,
                    ));
                }
            }
            return Err(Ax5031Error::Any);
        }
        Ok((Status::from_register(status_bits), data))
    }

    /// Write `val` to `reg` in one transaction.
    fn set_register(&mut self, reg: ControlRegister, val: u8) -> (r: Result<
        (Status, u8),
        Ax5031Error,
    >)
        ensures
            final(self).wrote(*old(self), reg, val, r),
    {
        proof {
            lemma_frame_wire_bytes(reg, val);
        }
        let frame = create_frame(SpiAction::Write(reg, val));
        let r = self.send(frame);
        proof {
            assert(seq![spec_frame_hi(frame), spec_frame_lo(frame)] =~= reg_write_wire(
                reg.spec_register(),
                val,
            ));
        }
        r
    }

    /// Read the current value of `reg` in one transaction.
    fn get_register(&mut self, reg: ControlRegister) -> (r: Result<(Status, u8), Ax5031Error>)
        ensures
            final(self).read_back(*old(self), reg, r),
    {
        proof {
            lemma_frame_wire_bytes(reg, 0);
        }
        let frame = create_frame(SpiAction::Read(reg));
        let r = self.send(frame);
        proof {
            assert(seq![spec_frame_hi(frame), spec_frame_lo(frame)] =~= reg_read_wire(
                reg.spec_register(),
            ));
        }
        r
    }

    /// Read the scratch register.
    pub fn get_scratch(&mut self) -> (r: Result<(Status, u8), Ax5031Error>)
        ensures
            final(self).read_back(*old(self), ControlRegister::SCRATCH, r),
    {
        self.get_register(ControlRegister::SCRATCH)
    }

    /// Write `val` to the scratch register.
    pub fn set_scratch(&mut self, val: u8) -> (r: Result<(Status, u8), Ax5031Error>)
        ensures
            final(self).wrote(*old(self), ControlRegister::SCRATCH, val, r),
    {
        self.set_register(ControlRegister::SCRATCH, val)
    }

    /// Program the chip's power mode: one write of the mode's bit pattern to
    /// `PWRMODE`.
    pub fn set_power_mode(&mut self, power_mode: PowerMode) -> (r: Result<
        (Status, u8),
        Ax5031Error,
    >)
        ensures
            final(self).wrote(
                *old(self),
                ControlRegister::PWRMODE,
                spec_power_mode_bits(power_mode),
                r,
            ),
    {
        let bits: u8 = match power_mode {
            PowerMode::PowerDown => 0x0,
            PowerMode::VoltageRegulatorOn => 0x4,
            PowerMode::Standby => 0x5,
            PowerMode::SynthTx => 0xc,
            PowerMode::FullTx => 0xd,
        };
        self.set_register(ControlRegister::PWRMODE, bits)
    }

    /// Pack the PLL loop filter sub-fields into one byte and write it to
    /// `PLLLOOP`.
    pub fn set_pll_loop(&mut self, flt: u8, pllcpi: u8, band_sel: u8, freq_sel: u8) -> (r: Result<
        (Status, u8),
        Ax5031Error,
    >)
        ensures
            final(self).wrote(
                *old(self),
                ControlRegister::PLLLOOP,
                spec_pll_loop_bits(flt, pllcpi, band_sel, freq_sel),
                r,
            ),
    {
        let reg: u8 = ((band_sel & 1) << 5) | ((freq_sel & 1) << 7) | ((pllcpi & 0x3) << 2) | (flt
            & 0x3);
        self.set_register(ControlRegister::PLLLOOP, reg)
    }

    /// Widening the intended traffic of an aborted operation keeps it aborted.
    proof fn lemma_abort_widen(pre: Self, post: Self, part: Seq<u8>, full: Seq<u8>)
        requires
            post.aborted_within(pre, part),
            part.is_prefix_of(full),
        ensures
            post.aborted_within(pre, full),
    {
        assert((pre.sent() + part).is_prefix_of(pre.sent() + full)) by {
            assert(pre.sent() + part =~= (pre.sent() + full).subrange(
                0,
                (pre.sent().len() + part.len()) as int,
            ));
        }
        lemma_prefix_trans(post.sent(), pre.sent() + part, pre.sent() + full);
    }

    /// A completed step with traffic `done` followed by an abort inside the
    /// next step is an abort of the whole intended traffic.
    proof fn lemma_abort_compose(
        pre: Self,
        mid: Self,
        post: Self,
        done: Seq<u8>,
        part: Seq<u8>,
        full: Seq<u8>,
    )
        requires
            mid.sent() == pre.sent() + done,
            pre.received().is_prefix_of(mid.received()),
            mid.received().len() - pre.received().len() == mid.sent().len() - pre.sent().len(),
            post.aborted_within(mid, part),
            (done + part).is_prefix_of(full),
        ensures
            post.aborted_within(pre, full),
    {
        assert(pre.sent().is_prefix_of(mid.sent())) by {
            assert(pre.sent() =~= mid.sent().subrange(0, pre.sent().len() as int));
        }
        lemma_prefix_trans(pre.sent(), mid.sent(), post.sent());
        assert(mid.sent() + part =~= pre.sent() + (done + part));
        assert((pre.sent() + (done + part)).is_prefix_of(pre.sent() + full)) by {
            assert(pre.sent() + (done + part) =~= (pre.sent() + full).subrange(
                0,
                (pre.sent().len() + (done + part).len()) as int,
            ));
        }
        lemma_prefix_trans(post.sent(), pre.sent() + (done + part), pre.sent() + full);
        lemma_prefix_trans(pre.received(), mid.received(), post.received());
    }

    /// Two completed steps in a row complete their concatenated traffic.
    proof fn lemma_step_compose(pre: Self, mid: Self, post: Self, done: Seq<u8>, part: Seq<u8>)
        requires
            mid.sent() == pre.sent() + done,
            pre.received().is_prefix_of(mid.received()),
            post.sent() == mid.sent() + part,
            mid.received().is_prefix_of(post.received()),
        ensures
            post.sent() == pre.sent() + (done + part),
            pre.received().is_prefix_of(post.received()),
    {
        assert(post.sent() =~= pre.sent() + (done + part));
        lemma_prefix_trans(pre.received(), mid.received(), post.received());
    }

    /// Program the carrier frequency: quantize `carrier_frequency` (hertz)
    /// into the 32-bit register word and write its four bytes, most
    /// significant first, to `FREQ3..FREQ0` in four transactions.
    ///
    /// The four writes are not atomic on the chip: a fault mid-sequence
    /// propagates the bus error and leaves whatever was already written
    /// written, as the abort clause states.
    pub fn set_frequency(&mut self, carrier_frequency: u32) -> (r: Result<
        (Status, u8),
        Ax5031Error,
    >)
        requires
            spec_quantized(carrier_frequency) <= u32::MAX,
        ensures
            final(self).select_level() == LineLevel::High,
            (match r {
                Ok(ret) => {
                    &&& final(self).sent() == old(self).sent() + frequency_wire(
                        spec_frequency_word(carrier_frequency),
                    )
                    &&& final(self).received().len() == old(self).received().len() + 8
                    &&& old(self).received().is_prefix_of(final(self).received())
                    &&& ret.0 == spec_status(
                        final(self).received()[final(self).received().len() - 2],
                    )
                    &&& ret.1 == final(self).received()[final(self).received().len() - 1]
                },
                Err(e) => e == Ax5031Error::Any && final(self).aborted_within(
                    *old(self),
                    frequency_wire(spec_frequency_word(carrier_frequency)),
                ),
            }),
    {
        let freq = frequency_word(carrier_frequency);
        let p3 = word_byte(freq, 3);
        let p2 = word_byte(freq, 2);
        let p1 = word_byte(freq, 1);
        let p0 = word_byte(freq, 0);
        let ghost pre = *self;
        let ghost w3 = reg_write_wire(ControlRegister::FREQ3.spec_register(), spec_word_byte(freq, 3));
        let ghost w2 = reg_write_wire(ControlRegister::FREQ2.spec_register(), spec_word_byte(freq, 2));
        let ghost w1 = reg_write_wire(ControlRegister::FREQ1.spec_register(), spec_word_byte(freq, 1));
        let ghost w0 = reg_write_wire(ControlRegister::FREQ0.spec_register(), spec_word_byte(freq, 0));
        let ghost full = frequency_wire(freq);

        if let Err(e) = self.set_register(ControlRegister::FREQ3, p3) {
            proof {
                assert(w3.is_prefix_of(full)) by {
                    assert(w3 =~= full.subrange(0, 2));
                }
                Self::lemma_abort_widen(pre, *self, w3, full);
            }
            return Err(e);
        }
        let ghost s1 = *self;
        if let Err(e) = self.set_register(ControlRegister::FREQ2, p2) {
            proof {
                assert((w3 + w2).is_prefix_of(full)) by {
                    assert(w3 + w2 =~= full.subrange(0, 4));
                }
                Self::lemma_abort_compose(pre, s1, *self, w3, w2, full);
            }
            return Err(e);
        }
        let ghost s2 = *self;
        proof {
            Self::lemma_step_compose(pre, s1, s2, w3, w2);
        }
        if let Err(e) = self.set_register(ControlRegister::FREQ1, p1) {
            proof {
                assert(((w3 + w2) + w1).is_prefix_of(full)) by {
                    assert((w3 + w2) + w1 =~= full.subrange(0, 6));
                }
                Self::lemma_abort_compose(pre, s2, *self, w3 + w2, w1, full);
            }
            return Err(e);
        }
        let ghost s3 = *self;
        proof {
            Self::lemma_step_compose(pre, s2, s3, w3 + w2, w1);
        }
        let r = self.set_register(ControlRegister::FREQ0, p0);
        match r {
            Ok(ret) => {
                proof {
                    Self::lemma_step_compose(pre, s3, *self, (w3 + w2) + w1, w0);
                    assert(self.sent() =~= pre.sent() + full);
                }
                Ok(ret)
            },
            Err(e) => {
                proof {
                    assert((((w3 + w2) + w1) + w0).is_prefix_of(full)) by {
                        assert(((w3 + w2) + w1) + w0 =~= full.subrange(0, 8));
                    }
                    Self::lemma_abort_compose(pre, s3, *self, (w3 + w2) + w1, w0, full);
                }
                Err(e)
            },
        }
    }

    /// Read the programmed carrier frequency word back: four reads of
    /// `FREQ3..FREQ0`, reassembled most significant byte first.
    pub fn get_frequency(&mut self) -> (r: Result<u32, Ax5031Error>)
        ensures
            final(self).select_level() == LineLevel::High,
            (match r {
                Ok(word) => {
                    &&& final(self).sent() == old(self).sent() + frequency_read_wire()
                    &&& final(self).received().len() == old(self).received().len() + 8
                    &&& old(self).received().is_prefix_of(final(self).received())
                    &&& word == spec_word_from_bytes(
                        final(self).received()[old(self).received().len() as int + 1],
                        final(self).received()[old(self).received().len() as int + 3],
                        final(self).received()[old(self).received().len() as int + 5],
                        final(self).received()[old(self).received().len() as int + 7],
                    )
                },
                Err(e) => e == Ax5031Error::Any && final(self).aborted_within(
                    *old(self),
                    frequency_read_wire(),
                ),
            }),
    {
        let ghost pre = *self;
        let ghost w3 = reg_read_wire(ControlRegister::FREQ3.spec_register());
        let ghost w2 = reg_read_wire(ControlRegister::FREQ2.spec_register());
        let ghost w1 = reg_read_wire(ControlRegister::FREQ1.spec_register());
        let ghost w0 = reg_read_wire(ControlRegister::FREQ0.spec_register());
        let ghost full = frequency_read_wire();

        let p3 = match self.get_register(ControlRegister::FREQ3) {
            Ok(ret) => ret.1,
            Err(e) => {
                proof {
                    assert(w3.is_prefix_of(full)) by {
                        assert(w3 =~= full.subrange(0, 2));
                    }
                    Self::lemma_abort_widen(pre, *self, w3, full);
                }
                return Err(e);
            },
        };
        let ghost s1 = *self;
        let p2 = match self.get_register(ControlRegister::FREQ2) {
            Ok(ret) => ret.1,
            Err(e) => {
                proof {
                    assert((w3 + w2).is_prefix_of(full)) by {
                        assert(w3 + w2 =~= full.subrange(0, 4));
                    }
                    Self::lemma_abort_compose(pre, s1, *self, w3, w2, full);
                }
                return Err(e);
            },
        };
        let ghost s2 = *self;
        proof {
            Self::lemma_step_compose(pre, s1, s2, w3, w2);
        }
        let p1 = match self.get_register(ControlRegister::FREQ1) {
            Ok(ret) => ret.1,
            Err(e) => {
                proof {
                    assert(((w3 + w2) + w1).is_prefix_of(full)) by {
                        assert((w3 + w2) + w1 =~= full.subrange(0, 6));
                    }
                    Self::lemma_abort_compose(pre, s2, *self, w3 + w2, w1, full);
                }
                return Err(e);
            },
        };
        let ghost s3 = *self;
        proof {
            Self::lemma_step_compose(pre, s2, s3, w3 + w2, w1);
        }
        let p0 = match self.get_register(ControlRegister::FREQ0) {
            Ok(ret) => ret.1,
            Err(e) => {
                proof {
                    assert((((w3 + w2) + w1) + w0).is_prefix_of(full)) by {
                        assert(((w3 + w2) + w1) + w0 =~= full.subrange(0, 8));
                    }
                    Self::lemma_abort_compose(pre, s3, *self, (w3 + w2) + w1, w0, full);
                }
                return Err(e);
            },
        };
        proof {
            Self::lemma_step_compose(pre, s3, *self, (w3 + w2) + w1, w0);
            assert(self.sent() =~= pre.sent() + full);
            let n = pre.received().len() as int;
            assert(s1.received().is_prefix_of(self.received())) by {
                lemma_prefix_trans(s1.received(), s2.received(), s3.received());
                lemma_prefix_trans(s1.received(), s3.received(), self.received());
            }
            assert(s2.received().is_prefix_of(self.received())) by {
                lemma_prefix_trans(s2.received(), s3.received(), self.received());
            }
            assert(self.received()[n + 1] == s1.received()[n + 1]);
            assert(self.received()[n + 3] == s2.received()[n + 3]);
            assert(self.received()[n + 5] == s3.received()[n + 5]);
        }
        Ok(word_from_bytes(p3, p2, p1, p0))
    }

    /// Program the transmitter for maximum output power: one write of the
    /// full-range code to `TXPWR`.
    pub fn set_transmit_power(&mut self) -> (r: Result<(Status, u8), Ax5031Error>)
        ensures
            final(self).wrote(*old(self), ControlRegister::TXPWR, 0xf, r),
    {
        let txrng: u8 = 0xf;
        self.set_register(ControlRegister::TXPWR, txrng)
    }

    /// Program the transmit bitrate: quantize `bitrate` (bits per second)
    /// into its 24-bit register value and write its three bytes, most
    /// significant first, to `TXRATEHI`, `TXRATEMID`, `TXRATELO`.
    pub fn set_transmit_bitrate(&mut self, bitrate: u32) -> (r: Result<(Status, u8), Ax5031Error>)
        ensures
            final(self).select_level() == LineLevel::High,
            (match r {
                Ok(ret) => {
                    &&& final(self).sent() == old(self).sent() + bitrate_wire(
                        spec_bitrate_word(bitrate),
                    )
                    &&& final(self).received().len() == old(self).received().len() + 6
                    &&& old(self).received().is_prefix_of(final(self).received())
                    &&& ret.0 == spec_status(
                        final(self).received()[final(self).received().len() - 2],
                    )
                    &&& ret.1 == final(self).received()[final(self).received().len() - 1]
                },
                Err(e) => e == Ax5031Error::Any && final(self).aborted_within(
                    *old(self),
                    bitrate_wire(spec_bitrate_word(bitrate)),
                ),
            }),
    {
        let txrate = bitrate_word(bitrate);
        let p2 = word_byte(txrate, 2);
        let p1 = word_byte(txrate, 1);
        let p0 = word_byte(txrate, 0);
        let ghost pre = *self;
        let ghost w2 = reg_write_wire(
            ControlRegister::TXRATEHI.spec_register(),
            spec_word_byte(txrate, 2),
        );
        let ghost w1 = reg_write_wire(
            ControlRegister::TXRATEMID.spec_register(),
            spec_word_byte(txrate, 1),
        );
        let ghost w0 = reg_write_wire(
            ControlRegister::TXRATELO.spec_register(),
            spec_word_byte(txrate, 0),
        );
        let ghost full = bitrate_wire(txrate);

        if let Err(e) = self.set_register(ControlRegister::TXRATEHI, p2) {
            proof {
                assert(w2.is_prefix_of(full)) by {
                    assert(w2 =~= full.subrange(0, 2));
                }
                Self::lemma_abort_widen(pre, *self, w2, full);
            }
            return Err(e);
        }
        let ghost s1 = *self;
        if let Err(e) = self.set_register(ControlRegister::TXRATEMID, p1) {
            proof {
                assert((w2 + w1).is_prefix_of(full)) by {
                    assert(w2 + w1 =~= full.subrange(0, 4));
                }
                Self::lemma_abort_compose(pre, s1, *self, w2, w1, full);
            }
            return Err(e);
        }
        let ghost s2 = *self;
        proof {
            Self::lemma_step_compose(pre, s1, s2, w2, w1);
        }
        let r = self.set_register(ControlRegister::TXRATELO, p0);
        match r {
            Ok(ret) => {
                proof {
                    Self::lemma_step_compose(pre, s2, *self, w2 + w1, w0);
                    assert(self.sent() =~= pre.sent() + full);
                }
                Ok(ret)
            },
            Err(e) => {
                proof {
                    assert(((w2 + w1) + w0).is_prefix_of(full)) by {
                        assert((w2 + w1) + w0 =~= full.subrange(0, 6));
                    }
                    Self::lemma_abort_compose(pre, s2, *self, w2 + w1, w0, full);
                }
                Err(e)
            },
        }
    }

    /// Program the modulation scheme. Only on-off keying is driven by this
    /// driver version: any other request is refused as
    /// [`Ax5031Error::UnsupportedMode`] with the chip, the bus and the select
    /// line untouched.
    pub fn set_modulation(&mut self, modulation_type: Modulation) -> (r: Result<
        (Status, u8),
        Ax5031Error,
    >)
        ensures
            (modulation_type == Modulation::ASK ==> final(self).wrote(
                *old(self),
                ControlRegister::MODULATION,
                0,
                r,
            )),
            (modulation_type != Modulation::ASK ==> r == Err::<(Status, u8), Ax5031Error>(
                Ax5031Error::UnsupportedMode,
            ) && *final(self) == *old(self)),
    {
        let modulation: u8 = match modulation_type {
            Modulation::ASK => 0x00,
            _ => {
                return Err(Ax5031Error::UnsupportedMode);
            },
        };
        let frame = modulation & 0x3f;
        proof {
            assert(0u8 & 0x3f == 0u8) by (bit_vector);
        }
        self.set_register(ControlRegister::MODULATION, frame)
    }

    /// Read the modulation scheme back: one read of `MODULATION`, decoded by
    /// [`modulation_from_bits`]. A value other than on-off keying's is an
    /// unrecognized chip state and is reported as an error.
    pub fn get_modulation(&mut self) -> (r: Result<(Status, Modulation), Ax5031Error>)
        ensures
            final(self).select_level() == LineLevel::High,
            (match r {
                Ok(p) => {
                    let n = old(self).received().len() as int;
                    &&& final(self).sent() == old(self).sent() + reg_read_wire(
                        ControlRegister::MODULATION.spec_register(),
                    )
                    &&& final(self).received().len() == n + 2
                    &&& old(self).received().is_prefix_of(final(self).received())
                    &&& p.0 == spec_status(final(self).received()[n])
                    &&& final(self).received()[n + 1] == 0
                    &&& p.1 == Modulation::ASK
                },
                Err(e) => e == Ax5031Error::Any && {
                    let n = old(self).received().len() as int;
                    ||| final(self).aborted_within(
                        *old(self),
                        reg_read_wire(ControlRegister::MODULATION.spec_register()),
                    )
                    ||| (final(self).sent() == old(self).sent() + reg_read_wire(
                        ControlRegister::MODULATION.spec_register(),
                    ) && final(self).received().len() == n + 2 && old(
                        self,
                    ).received().is_prefix_of(final(self).received()) && final(self).received()[n
                        + 1] != 0)
                },
            }),
    {
        let (status, mod_bits) = match self.get_register(ControlRegister::MODULATION) {
            Ok(p) => p,
            Err(e) => {
                return Err(e);
            },
        };
        match modulation_from_bits(mod_bits) {
            Ok(modulation) => Ok((status, modulation)),
            Err(e) => Err(e),
        }
    }

    /// Program the framing mode; raw framing, the only mode this driver
    /// version drives, is a zero written to `FRAMING`.
    pub fn set_framing_mode(&mut self, framing_mode: FramingMode) -> (r: Result<
        (Status, u8),
        Ax5031Error,
    >)
        ensures
            final(self).wrote(*old(self), ControlRegister::FRAMING, 0, r),
    {
        let bits: u8 = match framing_mode {
            FramingMode::Raw => 0x00,
        };
        self.set_register(ControlRegister::FRAMING, bits)
    }

    /// Program the line encoding; non-return-to-zero, the only encoding this
    /// driver version drives, is a zero written to `ENCODING`.
    pub fn set_encoding(&mut self, encoding_scheme: Encoding) -> (r: Result<
        (Status, u8),
        Ax5031Error,
    >)
        ensures
            final(self).wrote(*old(self), ControlRegister::ENCODING, 0, r),
    {
        let encoding_register: u8 = match encoding_scheme {
            Encoding::NonReturnZero => 0x00,
        };
        self.set_register(ControlRegister::ENCODING, encoding_register)
    }

    /// Trigger the chip's VCO auto-ranging calibration and busy-poll it to
    /// completion: write the start pattern to `PLLRANGING`, then read
    /// `PLLRANGING` until the busy flag clears, for at most 3000 polls.
    ///
    /// On success the result is the 0-based poll index at which completion
    /// was observed. The contract ties every outcome to the polled bytes: all
    /// earlier polls showed busy, and the last poll's flags decide between
    /// completion, the calibration error, and — after 3000 busy polls — the
    /// timeout.
    pub fn autoranging(&mut self) -> (r: Result<u16, Ax5031Error>)
        ensures
            final(self).select_level() == LineLevel::High,
            (match r {
                Ok(i) => {
                    let n = old(self).received().len() as int;
                    &&& i < 3000
                    &&& final(self).sent() == old(self).sent() + reg_write_wire(
                        ControlRegister::PLLRANGING.spec_register(),
                        8,
                    ) + repeated_read_wire(
                        ControlRegister::PLLRANGING.spec_register(),
                        i as int + 1,
                    )
                    &&& final(self).received().len() == n + 4 + 2 * (i as int)
                    &&& old(self).received().is_prefix_of(final(self).received())
                    &&& (forall|k: int|
                        0 <= k < i as int ==> spec_get_bit(
                            #[trigger] poll_data(final(self).received(), n, k),
                            4,
                        ))
                    &&& !spec_get_bit(poll_data(final(self).received(), n, i as int), 4)
                    &&& !spec_get_bit(poll_data(final(self).received(), n, i as int), 5)
                },
                Err(e) => match e {
                    Ax5031Error::Any => old(self).sent().is_prefix_of(final(self).sent()) && old(
                        self,
                    ).received().is_prefix_of(final(self).received()),
                    Ax5031Error::AutoRangingError => {
                        let n = old(self).received().len() as int;
                        exists|last: int|
                            {
                                &&& 0 <= last < 3000
                                &&& final(self).sent() == old(self).sent() + reg_write_wire(
                                    ControlRegister::PLLRANGING.spec_register(),
                                    8,
                                ) + repeated_read_wire(
                                    ControlRegister::PLLRANGING.spec_register(),
                                    last + 1,
                                )
                                &&& final(self).received().len() == n + 4 + 2 * last
                                &&& old(self).received().is_prefix_of(final(self).received())
                                &&& (forall|k: int|
                                    0 <= k < last ==> spec_get_bit(
                                        #[trigger] poll_data(final(self).received(), n, k),
                                        4,
                                    ))
                                &&& !spec_get_bit(
                                    #[trigger] poll_data(final(self).received(), n, last),
                                    4,
                                )
                                &&& spec_get_bit(poll_data(final(self).received(), n, last), 5)
                            }
                    },
                    Ax5031Error::AutoRangingTimeout => {
                        let n = old(self).received().len() as int;
                        &&& final(self).sent() == old(self).sent() + reg_write_wire(
                            ControlRegister::PLLRANGING.spec_register(),
                            8,
                        ) + repeated_read_wire(ControlRegister::PLLRANGING.spec_register(), 3000)
                        &&& final(self).received().len() == n + 2 + 6000
                        &&& old(self).received().is_prefix_of(final(self).received())
                        &&& (forall|k: int|
                            0 <= k < 3000 ==> spec_get_bit(
                                #[trigger] poll_data(final(self).received(), n, k),
                                4,
                            ))
                    },
                    Ax5031Error::UnsupportedMode => false,
                },
            }),
    {
        let ghost pre = *self;
        let ghost addr = ControlRegister::PLLRANGING.spec_register();
        let start_pattern: u8 = 8;
        if let Err(e) = self.set_register(ControlRegister::PLLRANGING, start_pattern) {
            return Err(e);
        }
        proof {
            assert(self.sent() =~= pre.sent() + reg_write_wire(addr, 8) + repeated_read_wire(
                addr,
                0,
            ));
        }
        let mut i: u16 = 0;
        while i < 3000
            invariant
                i <= 3000,
                pre == *old(self),
                self.select_level() == LineLevel::High,
                addr == ControlRegister::PLLRANGING.spec_register(),
                self.sent() == pre.sent() + reg_write_wire(addr, 8) + repeated_read_wire(
                    addr,
                    i as int,
                ),
                self.received().len() == pre.received().len() + 2 + 2 * (i as int),
                pre.received().is_prefix_of(self.received()),
                forall|k: int|
                    0 <= k < i as int ==> spec_get_bit(
                        #[trigger] poll_data(self.received(), pre.received().len() as int, k),
                        4,
                    ),
            decreases 3000 - i,
        {
            let ghost sp = *self;
            let pllranging = match self.get_register(ControlRegister::PLLRANGING) {
                Ok(p) => p.1,
                Err(e) => {
                    proof {
                        assert(pre.sent().is_prefix_of(sp.sent())) by {
                            assert(pre.sent() =~= sp.sent().subrange(0, pre.sent().len() as int));
                        }
                        lemma_prefix_trans(pre.sent(), sp.sent(), self.sent());
                        lemma_prefix_trans(pre.received(), sp.received(), self.received());
                    }
                    return Err(e);
                },
            };
            proof {
                let n = pre.received().len() as int;
                lemma_prefix_trans(pre.received(), sp.received(), self.received());
                assert(poll_data(self.received(), n, i as int) == pllranging);
                assert forall|k: int| 0 <= k < i as int implies spec_get_bit(
                    #[trigger] poll_data(self.received(), n, k),
                    4,
                ) by {
                    assert(sp.received() =~= self.received().subrange(
                        0,
                        sp.received().len() as int,
                    ));
                    assert(poll_data(self.received(), n, k) == poll_data(sp.received(), n, k));
                }
                assert(self.sent() =~= pre.sent() + reg_write_wire(addr, 8) + repeated_read_wire(
                    addr,
                    i as int + 1,
                )) by {
                    assert(repeated_read_wire(addr, i as int + 1) == repeated_read_wire(
                        addr,
                        i as int,
                    ) + reg_read_wire(addr));
                }
            }
            match classify_poll(pllranging) {
                RangingPoll::Busy => {
                    i = i + 1;
                },
                RangingPoll::Errored => {
                    return Err(Ax5031Error::AutoRangingError);
                },
                RangingPoll::Complete => {
                    return Ok(i);
                },
            }
        }
        Err(Ax5031Error::AutoRangingTimeout)
    }

    /// Drive the sysclk LED pin: one write of `1` or `0` to `PINCFG1`.
    pub fn sysclk_led(&mut self, on: bool) -> (r: Result<(Status, u8), Ax5031Error>)
        ensures
            final(self).wrote(
                *old(self),
                ControlRegister::PINCFG1,
                (if on {
                    1u8
                } else {
                    0u8
                }),
                r,
            ),
    {
        let data: u8 = if on {
            1
        } else {
            0
        };
        self.set_register(ControlRegister::PINCFG1, data)
    }

    /// Read back pin configuration register 1.
    pub fn get_pincfg1(&mut self) -> (r: Result<(Status, u8), Ax5031Error>)
        ensures
            final(self).read_back(*old(self), ControlRegister::PINCFG1, r),
    {
        self.get_register(ControlRegister::PINCFG1)
    }

    /// Read back pin configuration register 2.
    pub fn get_pincfg2(&mut self) -> (r: Result<(Status, u8), Ax5031Error>)
        ensures
            final(self).read_back(*old(self), ControlRegister::PINCFG2, r),
    {
        self.get_register(ControlRegister::PINCFG2)
    }

    /// Queue one byte for transmission: a single write to `FIFODATA`.
    pub fn transmit(&mut self, packet: u8) -> (r: Result<(Status, u8), Ax5031Error>)
        ensures
            final(self).wrote(*old(self), ControlRegister::FIFODATA, packet, r),
    {
        self.set_register(ControlRegister::FIFODATA, packet)
    }
}

} // verus!
