//! Register map of the transceiver, the semantic configuration enumerations,
//! and the decoder for the status byte returned by every transaction.

use vstd::prelude::*;

verus! {

/// An addressable control register: each has a fixed 7-bit hardware address.
pub trait Register {
    /// The register's hardware address, as the contracts see it.
    spec fn spec_register(&self) -> u8;

    /// The register's hardware address.
    fn register(&self) -> (r: u8)
        ensures
            r == self.spec_register(),
    ;
}

/// The control registers of the chip, a closed set. Each variant's fixed
/// 7-bit address is given by [`Register::register`].
#[derive(Clone, Copy, Debug, PartialEq, Eq, Structural)]
pub enum ControlRegister {
    /// [Address: 0] Silicon Revision
    REVISION,
    /// [Address: 1] Scratch Register
    SCRATCH,
    /// [Address: 2] Power Mode
    PWRMODE,
    /// [Address: 3] Crystal Oscillator Control
    XTALOSC,
    /// [Address: 4] FIFO Control
    FIFOCTRL,
    /// [Address: 5] FIFO Data
    FIFODATA,
    /// [Address: 6] IRQ Mask
    IRQMASK,
    /// [Address: 7] IRQ Request
    IRQREQUEST,
    /// [Address: C] Pin Configuration 1
    PINCFG1,
    /// [Address: D] Pin Configuration 2
    PINCFG2,
    /// [Address: E] Pin Configuration 3
    PINCFG3,
    /// [Address: F] IRQ Inversion
    IRQINVERSION,
    /// [Address: 10] Modulation
    MODULATION,
    /// [Address: 11] Encoder/Decoder Settings
    ENCODING,
    /// [Address: 12] Framing settings
    FRAMING,
    /// [Address: 14] CRC Initialization Data or Preamble
    CRCINIT3,
    /// [Address: 15] CRC Initialization Data or Preamble
    CRCINIT2,
    /// [Address: 16] CRC Initialization Data or Preamble
    CRCINIT1,
    /// [Address: 17] CRC Initialization Data or Preamble
    CRCINIT0,
    /// [Address: 1B] Voltage Regulator Status
    VREG,
    /// [Address: 1C] 2nd Synthesizer Frequency
    FREQB3,
    /// [Address: 1D] 2nd Synthesizer Frequency
    FREQB2,
    /// [Address: 1E] 2nd Synthesizer Frequency
    FREQB1,
    /// [Address: 1F] 2nd Synthesizer Frequency
    FREQB0,
    /// [Address: 20] Synthesizer Frequency
    FREQ3,
    /// [Address: 21] Synthesizer Frequency
    FREQ2,
    /// [Address: 22] Synthesizer Frequency
    FREQ1,
    /// [Address: 23] Synthesizer Frequency
    FREQ0,
    /// [Address: 25] FSK Frequency Deviation
    FSKDEV2,
    /// [Address: 26] FSK Frequency Deviation
    FSKDEV1,
    /// [Address: 27] FSK Frequency Deviation
    FSKDEV0,
    /// [Address: 2C] Synthesizer Loop Filter Settings
    PLLLOOP,
    /// [Address: 2D] Synthesizer VCO Auto-Ranging
    PLLRANGING,
    /// [Address: 30] Transmit Power
    TXPWR,
    /// [Address: 31] Transmitter Bitrate
    TXRATEHI,
    /// [Address: 32] Transmitter Bitrate
    TXRATEMID,
    /// [Address: 33] Transmitter Bitrate
    TXRATELO,
    /// [Address: 34] Misc RF Flags
    MODMISC,
    /// [Address: 35] FIFO Fill State
    FIFOCOUNT,
    /// [Address: 36] FIFO Threshold
    FIFOTHRESH,
    /// [Address: 37] Additional FIFO Control
    FIFOCONTROL,
    /// [Address: 4F] Crystal oscillator tuning capacitance
    XTALCAP,
    /// [Address: 50] 4-FSK Control
    FOURFSK,
}

impl Register for ControlRegister {
    open spec fn spec_register(&self) -> u8 {
        match self {
            ControlRegister::REVISION => 0x0,
            ControlRegister::SCRATCH => 0x1,
            ControlRegister::PWRMODE => 0x2,
            ControlRegister::XTALOSC => 0x3,
            ControlRegister::FIFOCTRL => 0x4,
            ControlRegister::FIFODATA => 0x5,
            ControlRegister::IRQMASK => 0x6,
            ControlRegister::IRQREQUEST => 0x7,
            ControlRegister::PINCFG1 => 0x0c,
            ControlRegister::PINCFG2 => 0x0d,
            ControlRegister::PINCFG3 => 0xe,
            ControlRegister::IRQINVERSION => 0xf,
            ControlRegister::MODULATION => 0x10,
            ControlRegister::ENCODING => 0x11,
            ControlRegister::FRAMING => 0x12,
            ControlRegister::CRCINIT3 => 0x14,
            ControlRegister::CRCINIT2 => 0x15,
            ControlRegister::CRCINIT1 => 0x16,
            ControlRegister::CRCINIT0 => 0x17,
            ControlRegister::VREG => 0x1b,
            ControlRegister::FREQB3 => 0x1c,
            ControlRegister::FREQB2 => 0x1d,
            ControlRegister::FREQB1 => 0x1e,
            ControlRegister::FREQB0 => 0x1f,
            ControlRegister::FREQ3 => 0x20,
            ControlRegister::FREQ2 => 0x21,
            ControlRegister::FREQ1 => 0x22,
            ControlRegister::FREQ0 => 0x23,
            ControlRegister::FSKDEV2 => 0x25,
            ControlRegister::FSKDEV1 => 0x26,
            ControlRegister::FSKDEV0 => 0x27,
            ControlRegister::PLLLOOP => 0x2c,
            ControlRegister::PLLRANGING => 0x2d,
            ControlRegister::TXPWR => 0x30,
            ControlRegister::TXRATEHI => 0x31,
            ControlRegister::TXRATEMID => 0x32,
            ControlRegister::TXRATELO => 0x33,
            ControlRegister::MODMISC => 0x34,
            ControlRegister::FIFOCOUNT => 0x35,
            ControlRegister::FIFOTHRESH => 0x36,
            ControlRegister::FIFOCONTROL => 0x37,
            ControlRegister::XTALCAP => 0x4f,
            ControlRegister::FOURFSK => 0x50,
        }
    }

    fn register(&self) -> (r: u8) {
        match self {
            ControlRegister::REVISION => 0x0,
            ControlRegister::SCRATCH => 0x1,
            ControlRegister::PWRMODE => 0x2,
            ControlRegister::XTALOSC => 0x3,
            ControlRegister::FIFOCTRL => 0x4,
            ControlRegister::FIFODATA => 0x5,
            ControlRegister::IRQMASK => 0x6,
            ControlRegister::IRQREQUEST => 0x7,
            ControlRegister::PINCFG1 => 0x0c,
            ControlRegister::PINCFG2 => 0x0d,
            ControlRegister::PINCFG3 => 0xe,
            ControlRegister::IRQINVERSION => 0xf,
            ControlRegister::MODULATION => 0x10,
            ControlRegister::ENCODING => 0x11,
            ControlRegister::FRAMING => 0x12,
            ControlRegister::CRCINIT3 => 0x14,
            ControlRegister::CRCINIT2 => 0x15,
            ControlRegister::CRCINIT1 => 0x16,
            ControlRegister::CRCINIT0 => 0x17,
            ControlRegister::VREG => 0x1b,
            ControlRegister::FREQB3 => 0x1c,
            ControlRegister::FREQB2 => 0x1d,
            ControlRegister::FREQB1 => 0x1e,
            ControlRegister::FREQB0 => 0x1f,
            ControlRegister::FREQ3 => 0x20,
            ControlRegister::FREQ2 => 0x21,
            ControlRegister::FREQ1 => 0x22,
            ControlRegister::FREQ0 => 0x23,
            ControlRegister::FSKDEV2 => 0x25,
            ControlRegister::FSKDEV1 => 0x26,
            ControlRegister::FSKDEV0 => 0x27,
            ControlRegister::PLLLOOP => 0x2c,
            ControlRegister::PLLRANGING => 0x2d,
            ControlRegister::TXPWR => 0x30,
            ControlRegister::TXRATEHI => 0x31,
            ControlRegister::TXRATEMID => 0x32,
            ControlRegister::TXRATELO => 0x33,
            ControlRegister::MODMISC => 0x34,
            ControlRegister::FIFOCOUNT => 0x35,
            ControlRegister::FIFOTHRESH => 0x36,
            ControlRegister::FIFOCONTROL => 0x37,
            ControlRegister::XTALCAP => 0x4f,
            ControlRegister::FOURFSK => 0x50,
        }
    }
}

/// Every register address fits in the 7-bit address field of a frame.
pub proof fn lemma_register_address_fits(reg: ControlRegister)
    ensures
        reg.spec_register() <= 0x7f,
{
}

/// Power modes the chip can be put in, written to `PWRMODE`.
#[derive(Clone, Copy, Debug, PartialEq, Eq, Structural)]
pub enum PowerMode {
    PowerDown,
    VoltageRegulatorOn,
    Standby,
    SynthTx,
    FullTx,
}

/// The register bit pattern a power mode is written as.
pub open spec fn spec_power_mode_bits(mode: PowerMode) -> u8 {
    match mode {
        PowerMode::PowerDown => 0x0,
        PowerMode::VoltageRegulatorOn => 0x4,
        PowerMode::Standby => 0x5,
        PowerMode::SynthTx => 0xc,
        PowerMode::FullTx => 0xd,
    }
}

/// The `PLLLOOP` byte packed from its four sub-fields: filter bandwidth
/// (2 bits), charge-pump current (2 bits), band select (1 bit) and frequency
/// select (1 bit).
pub open spec fn spec_pll_loop_bits(flt: u8, pllcpi: u8, band_sel: u8, freq_sel: u8) -> u8 {
    ((band_sel & 1) << 5) | ((freq_sel & 1) << 7) | ((pllcpi & 0x3) << 2) | (flt & 0x3)
}

/// Modulation schemes; only on-off keying is driven by this driver version.
#[derive(Clone, Copy, Debug, PartialEq, Eq, Structural)]
pub enum Modulation {
    ASK,
    FSK,
    MSK,
    PSK,
}

/// Framing modes; only raw framing is driven by this driver version.
#[derive(Clone, Copy, Debug, PartialEq, Eq, Structural)]
pub enum FramingMode {
    Raw,
}

/// Line encodings; only non-return-to-zero is driven by this driver version.
#[derive(Clone, Copy, Debug, PartialEq, Eq, Structural)]
pub enum Encoding {
    NonReturnZero,
}

/// Whether bit `n_bit` of `byte` is set.
pub open spec fn spec_get_bit(byte: u8, n_bit: u8) -> bool {
    (byte >> n_bit) & 1 == 1
}

/// Whether bit `n_bit` of `byte` is set.
pub fn get_bit(byte: u8, n_bit: u8) -> (r: bool)
    requires
        n_bit < 8,
    ensures
        r == spec_get_bit(byte, n_bit),
{
    (byte >> n_bit & 1) == 1
}

/// The flag set decoded from the status byte the chip returns during every
/// transaction.
#[derive(Clone, Copy, Debug, PartialEq, Eq, Structural)]
pub struct Status {
    pub pll_lock: bool,
    pub fifo_over: bool,
    pub fifo_under: bool,
    pub fifo_full: bool,
    pub fifo_empty: bool,
    pub fifo_status: u8,
}

/// The decoding of a status byte: pure bit extraction, total over all 256
/// byte values.
pub open spec fn spec_status(status_register: u8) -> Status {
    Status {
        pll_lock: spec_get_bit(status_register, 1),
        fifo_over: spec_get_bit(status_register, 1),
        fifo_under: spec_get_bit(status_register, 1),
        fifo_full: spec_get_bit(status_register, 1),
        fifo_empty: spec_get_bit(status_register, 1),
        fifo_status: (status_register >> 6) & 0x3,
    }
}

impl Status {
    /// Decode a status byte. Total: defined for every byte value, and the
    /// `fifo_status` field is always the top two bits of the byte.
    pub fn from_register(status_register: u8) -> (r: Status)
        ensures
            r == spec_status(status_register),
            r.fifo_status == (status_register >> 6) & 0x3,
    {
        Status {
            pll_lock: get_bit(status_register, 1),
            fifo_over: get_bit(status_register, 1),
            fifo_under: get_bit(status_register, 1),
            fifo_full: get_bit(status_register, 1),
            fifo_empty: get_bit(status_register, 1),
            fifo_status: status_register >> 6 & 0x3,
        }
    }
}

} // verus!
