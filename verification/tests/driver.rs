//! Tests of the driver against mock collaborators: a scripted bus that
//! records the wire traffic, a chip-select line that records its transitions,
//! and a small register-file simulation of the chip.

use std::cell::RefCell;
use std::rc::Rc;

use ax5031::ax5031::{classify_poll, modulation_from_bits, RangingPoll};
use ax5031::bus::{EnableLine, SpiExchange};
use ax5031::registers::Register;
use ax5031::{
    Ax5031, Ax5031Error, ControlRegister, Encoding, FramingMode, Modulation, PowerMode,
};

#[derive(Default)]
struct BusState {
    sent: Vec<u8>,
    rx: Vec<u8>,
    pos: usize,
    fail_at: Option<usize>,
}

/// A bus that replays scripted inbound bytes, records what was clocked out,
/// and can fault at a chosen exchange.
#[derive(Clone, Default)]
struct ScriptedBus(Rc<RefCell<BusState>>);

impl ScriptedBus {
    fn with_rx(rx: Vec<u8>) -> Self {
        let bus = ScriptedBus::default();
        bus.0.borrow_mut().rx = rx;
        bus
    }

    fn failing_at(exchange: usize) -> Self {
        let bus = ScriptedBus::default();
        bus.0.borrow_mut().fail_at = Some(exchange);
        bus
    }

    fn sent(&self) -> Vec<u8> {
        self.0.borrow().sent.clone()
    }
}

impl SpiExchange for ScriptedBus {
    fn exchange(&mut self, out_byte: u8) -> Result<u8, ()> {
        let mut state = self.0.borrow_mut();
        let index = state.pos;
        if state.fail_at == Some(index) {
            return Err(());
        }
        state.sent.push(out_byte);
        let byte_in = state.rx.get(index).copied().unwrap_or(0);
        state.pos = index + 1;
        Ok(byte_in)
    }
}

#[derive(Default)]
struct LineState {
    transitions: Vec<bool>,
    fail: bool,
}

/// A chip-select line that records every commanded transition
/// (`true` = driven low / asserted).
#[derive(Clone, Default)]
struct RecordingLine(Rc<RefCell<LineState>>);

impl RecordingLine {
    fn failing() -> Self {
        let line = RecordingLine::default();
        line.0.borrow_mut().fail = true;
        line
    }

    fn transitions(&self) -> Vec<bool> {
        self.0.borrow().transitions.clone()
    }
}

impl EnableLine for RecordingLine {
    fn set_low(&mut self) -> Result<(), ()> {
        let mut state = self.0.borrow_mut();
        state.transitions.push(true);
        if state.fail {
            Err(())
        } else {
            Ok(())
        }
    }

    fn set_high(&mut self) -> Result<(), ()> {
        let mut state = self.0.borrow_mut();
        state.transitions.push(false);
        if state.fail {
            Err(())
        } else {
            Ok(())
        }
    }
}

/// Every assertion of the select line must be followed by a release, and the
/// line must not be left asserted.
fn assert_select_discipline(transitions: &[bool]) {
    assert_eq!(transitions.len() % 2, 0);
    for pair in transitions.chunks(2) {
        assert_eq!(pair, &[true, false]);
    }
}

struct ChipState {
    regs: [u8; 0x80],
    pending_cmd: Option<u8>,
    status_byte: u8,
    ranging_busy_polls: u32,
    ranging_error: bool,
    ranging_reads: u32,
}

/// A register-file simulation of the chip: the first byte of a transaction is
/// the command (direction + address) and is answered with the status byte;
/// the second is the data and is answered with the register's prior value.
/// Reads of `PLLRANGING` follow a scripted busy/error pattern.
#[derive(Clone)]
struct ChipSim(Rc<RefCell<ChipState>>);

impl ChipSim {
    fn new() -> Self {
        ChipSim(Rc::new(RefCell::new(ChipState {
            regs: [0; 0x80],
            pending_cmd: None,
            status_byte: 0,
            ranging_busy_polls: 0,
            ranging_error: false,
            ranging_reads: 0,
        })))
    }

    fn with_ranging_busy_polls(polls: u32) -> Self {
        let chip = ChipSim::new();
        chip.0.borrow_mut().ranging_busy_polls = polls;
        chip
    }

    fn with_ranging_error() -> Self {
        let chip = ChipSim::new();
        chip.0.borrow_mut().ranging_error = true;
        chip
    }

    fn register(&self, addr: usize) -> u8 {
        self.0.borrow().regs[addr]
    }

    fn ranging_reads(&self) -> u32 {
        self.0.borrow().ranging_reads
    }
}

impl SpiExchange for ChipSim {
    fn exchange(&mut self, out_byte: u8) -> Result<u8, ()> {
        let mut chip = self.0.borrow_mut();
        match chip.pending_cmd.take() {
            None => {
                chip.pending_cmd = Some(out_byte);
                Ok(chip.status_byte)
            }
            Some(cmd) => {
                let addr = (cmd & 0x7f) as usize;
                let is_write = cmd & 0x80 != 0;
                let prior = if !is_write && addr == 0x2d {
                    let value = if chip.ranging_error {
                        0x20
                    } else if chip.ranging_reads < chip.ranging_busy_polls {
                        0x18
                    } else {
                        0x08
                    };
                    chip.ranging_reads += 1;
                    value
                } else {
                    chip.regs[addr]
                };
                if is_write {
                    chip.regs[addr] = out_byte;
                }
                Ok(prior)
            }
        }
    }
}

#[test]
fn set_scratch_puts_the_write_frame_on_the_wire() {
    let bus = ScriptedBus::with_rx(vec![0xc0, 0x12]);
    let line = RecordingLine::default();
    let mut driver = Ax5031::new(bus.clone(), line.clone());
    let (status, data) = driver.set_scratch(0x5a).unwrap();
    assert_eq!(bus.sent(), vec![0x81, 0x5a]);
    assert_eq!(status.fifo_status, 3);
    assert_eq!(data, 0x12);
    assert_select_discipline(&line.transitions());
}

#[test]
fn get_scratch_puts_the_read_frame_on_the_wire() {
    let bus = ScriptedBus::with_rx(vec![0x00, 0x77]);
    let line = RecordingLine::default();
    let mut driver = Ax5031::new(bus.clone(), line.clone());
    let (_, data) = driver.get_scratch().unwrap();
    assert_eq!(bus.sent(), vec![0x01, 0x00]);
    assert_eq!(data, 0x77);
    assert_select_discipline(&line.transitions());
}

#[test]
fn scratch_round_trips_through_the_simulated_chip() {
    let chip = ChipSim::new();
    let mut driver = Ax5031::new(chip.clone(), RecordingLine::default());
    driver.set_scratch(0x42).unwrap();
    let (_, data) = driver.get_scratch().unwrap();
    assert_eq!(data, 0x42);
}

#[test]
fn set_power_mode_writes_the_mode_bit_patterns() {
    let cases = [
        (PowerMode::PowerDown, 0x00u8),
        (PowerMode::VoltageRegulatorOn, 0x04),
        (PowerMode::Standby, 0x05),
        (PowerMode::SynthTx, 0x0c),
        (PowerMode::FullTx, 0x0d),
    ];
    for (mode, bits) in cases {
        let bus = ScriptedBus::default();
        let mut driver = Ax5031::new(bus.clone(), RecordingLine::default());
        driver.set_power_mode(mode).unwrap();
        assert_eq!(bus.sent(), vec![0x82, bits]);
    }
}

#[test]
fn set_pll_loop_packs_the_four_sub_fields() {
    let bus = ScriptedBus::default();
    let mut driver = Ax5031::new(bus.clone(), RecordingLine::default());
    driver.set_pll_loop(3, 2, 1, 1).unwrap();
    // (1 & 1) << 5 | (1 & 1) << 7 | (2 & 3) << 2 | (3 & 3) == 0xab
    assert_eq!(bus.sent(), vec![0xac, 0xab]);
}

#[test]
fn set_pll_loop_masks_oversized_sub_fields() {
    let bus = ScriptedBus::default();
    let mut driver = Ax5031::new(bus.clone(), RecordingLine::default());
    driver.set_pll_loop(0xff, 0xff, 0xfe, 0xfe).unwrap();
    // flt and pllcpi keep two bits, band and freq select keep one.
    assert_eq!(bus.sent(), vec![0xac, 0x0f]);
}

#[test]
fn set_frequency_writes_the_quantized_word_msb_first() {
    let bus = ScriptedBus::default();
    let line = RecordingLine::default();
    let mut driver = Ax5031::new(bus.clone(), line.clone());
    driver.set_frequency(433_920_000).unwrap();
    // Word 454998098 == 0x1b1eb852 across FREQ3..FREQ0.
    assert_eq!(
        bus.sent(),
        vec![0xa0, 0x1b, 0xa1, 0x1e, 0xa2, 0xb8, 0xa3, 0x52]
    );
    assert_select_discipline(&line.transitions());
}

#[test]
fn frequency_round_trips_through_the_simulated_chip() {
    let chip = ChipSim::new();
    let mut driver = Ax5031::new(chip.clone(), RecordingLine::default());
    driver.set_frequency(433_920_000).unwrap();
    assert_eq!(driver.get_frequency().unwrap(), 454_998_098);
    // Programming the same carrier again reads back the same word.
    driver.set_frequency(433_920_000).unwrap();
    assert_eq!(driver.get_frequency().unwrap(), 454_998_098);
}

#[test]
fn get_frequency_reads_freq3_to_freq0() {
    let bus = ScriptedBus::with_rx(vec![0, 0x1b, 0, 0x1e, 0, 0xb8, 0, 0x52]);
    let mut driver = Ax5031::new(bus.clone(), RecordingLine::default());
    assert_eq!(driver.get_frequency().unwrap(), 0x1b1e_b852);
    assert_eq!(bus.sent(), vec![0x20, 0x00, 0x21, 0x00, 0x22, 0x00, 0x23, 0x00]);
}

#[test]
fn set_frequency_fault_mid_sequence_leaves_earlier_registers_written() {
    // The bus faults on the fifth byte: FREQ3 and FREQ2 complete, FREQ1 aborts.
    let bus = ScriptedBus::failing_at(4);
    let line = RecordingLine::default();
    let mut driver = Ax5031::new(bus.clone(), line.clone());
    assert_eq!(driver.set_frequency(433_920_000), Err(Ax5031Error::Any));
    assert_eq!(bus.sent(), vec![0xa0, 0x1b, 0xa1, 0x1e]);
    // Even on the fault path the select line is not left asserted.
    assert_select_discipline(&line.transitions());
}

#[test]
fn set_transmit_power_writes_the_full_range_code() {
    let bus = ScriptedBus::default();
    let mut driver = Ax5031::new(bus.clone(), RecordingLine::default());
    driver.set_transmit_power().unwrap();
    assert_eq!(bus.sent(), vec![0xb0, 0x0f]);
}

#[test]
fn set_transmit_bitrate_writes_the_24_bit_value_msb_first() {
    let bus = ScriptedBus::default();
    let mut driver = Ax5031::new(bus.clone(), RecordingLine::default());
    driver.set_transmit_bitrate(9_600).unwrap();
    // Value 10067 == 0x002753 across TXRATEHI, TXRATEMID, TXRATELO.
    assert_eq!(bus.sent(), vec![0xb1, 0x00, 0xb2, 0x27, 0xb3, 0x53]);
}

#[test]
fn set_modulation_ask_writes_zero() {
    let bus = ScriptedBus::default();
    let mut driver = Ax5031::new(bus.clone(), RecordingLine::default());
    driver.set_modulation(Modulation::ASK).unwrap();
    assert_eq!(bus.sent(), vec![0x90, 0x00]);
}

#[test]
fn set_modulation_refuses_unsupported_modes_without_touching_the_bus() {
    for mode in [Modulation::FSK, Modulation::MSK, Modulation::PSK] {
        let bus = ScriptedBus::default();
        let line = RecordingLine::default();
        let mut driver = Ax5031::new(bus.clone(), line.clone());
        assert_eq!(
            driver.set_modulation(mode),
            Err(Ax5031Error::UnsupportedMode)
        );
        assert_eq!(bus.sent(), Vec::<u8>::new());
        assert_eq!(line.transitions(), Vec::<bool>::new());
    }
}

#[test]
fn get_modulation_decodes_zero_as_ask() {
    let bus = ScriptedBus::with_rx(vec![0x00, 0x00]);
    let mut driver = Ax5031::new(bus.clone(), RecordingLine::default());
    let (_, modulation) = driver.get_modulation().unwrap();
    assert_eq!(modulation, Modulation::ASK);
    assert_eq!(bus.sent(), vec![0x10, 0x00]);
}

#[test]
fn get_modulation_reports_unrecognized_values() {
    let bus = ScriptedBus::with_rx(vec![0x00, 0x05]);
    let mut driver = Ax5031::new(bus.clone(), RecordingLine::default());
    assert_eq!(driver.get_modulation(), Err(Ax5031Error::Any));
}

#[test]
fn modulation_from_bits_is_exact() {
    assert_eq!(modulation_from_bits(0), Ok(Modulation::ASK));
    for bits in 1..=255u8 {
        assert_eq!(modulation_from_bits(bits), Err(Ax5031Error::Any));
    }
}

#[test]
fn set_framing_mode_raw_writes_zero() {
    let bus = ScriptedBus::default();
    let mut driver = Ax5031::new(bus.clone(), RecordingLine::default());
    driver.set_framing_mode(FramingMode::Raw).unwrap();
    assert_eq!(bus.sent(), vec![0x92, 0x00]);
}

#[test]
fn set_encoding_nrz_writes_zero() {
    let bus = ScriptedBus::default();
    let mut driver = Ax5031::new(bus.clone(), RecordingLine::default());
    driver.set_encoding(Encoding::NonReturnZero).unwrap();
    assert_eq!(bus.sent(), vec![0x91, 0x00]);
}

#[test]
fn sysclk_led_writes_one_or_zero_to_pincfg1() {
    let bus = ScriptedBus::default();
    let mut driver = Ax5031::new(bus.clone(), RecordingLine::default());
    driver.sysclk_led(true).unwrap();
    driver.sysclk_led(false).unwrap();
    assert_eq!(bus.sent(), vec![0x8c, 0x01, 0x8c, 0x00]);
}

#[test]
fn get_pincfg_reads_both_registers() {
    let bus = ScriptedBus::with_rx(vec![0x00, 0xaa, 0x00, 0xbb]);
    let mut driver = Ax5031::new(bus.clone(), RecordingLine::default());
    assert_eq!(driver.get_pincfg1().unwrap().1, 0xaa);
    assert_eq!(driver.get_pincfg2().unwrap().1, 0xbb);
    assert_eq!(bus.sent(), vec![0x0c, 0x00, 0x0d, 0x00]);
}

#[test]
fn transmit_writes_the_byte_to_fifodata() {
    let bus = ScriptedBus::default();
    let mut driver = Ax5031::new(bus.clone(), RecordingLine::default());
    driver.transmit(0x42).unwrap();
    assert_eq!(bus.sent(), vec![0x85, 0x42]);
}

#[test]
fn classify_poll_follows_the_transition_rule() {
    // Busy flag (bit 4) set: still polling, whatever the error flag says.
    assert_eq!(classify_poll(0x18), RangingPoll::Busy);
    assert_eq!(classify_poll(0x30), RangingPoll::Busy);
    // Busy clear, error flag (bit 5) set: failed.
    assert_eq!(classify_poll(0x20), RangingPoll::Errored);
    // Both clear: complete.
    assert_eq!(classify_poll(0x08), RangingPoll::Complete);
    assert_eq!(classify_poll(0x00), RangingPoll::Complete);
}

#[test]
fn autoranging_completes_at_the_first_idle_poll() {
    let chip = ChipSim::with_ranging_busy_polls(7);
    let mut driver = Ax5031::new(chip.clone(), RecordingLine::default());
    assert_eq!(driver.autoranging(), Ok(7));
    assert_eq!(chip.ranging_reads(), 8);
    // The start pattern was written to PLLRANGING first.
    assert_eq!(chip.register(0x2d), 8);
}

#[test]
fn autoranging_completes_immediately_when_never_busy() {
    let chip = ChipSim::with_ranging_busy_polls(0);
    let mut driver = Ax5031::new(chip.clone(), RecordingLine::default());
    assert_eq!(driver.autoranging(), Ok(0));
    assert_eq!(chip.ranging_reads(), 1);
}

#[test]
fn autoranging_reports_the_error_flag() {
    let chip = ChipSim::with_ranging_error();
    let mut driver = Ax5031::new(chip.clone(), RecordingLine::default());
    assert_eq!(driver.autoranging(), Err(Ax5031Error::AutoRangingError));
    assert_eq!(chip.ranging_reads(), 1);
}

#[test]
fn autoranging_times_out_after_exactly_3000_polls() {
    let chip = ChipSim::with_ranging_busy_polls(u32::MAX);
    let line = RecordingLine::default();
    let mut driver = Ax5031::new(chip.clone(), line.clone());
    assert_eq!(driver.autoranging(), Err(Ax5031Error::AutoRangingTimeout));
    assert_eq!(chip.ranging_reads(), 3000);
    assert_select_discipline(&line.transitions());
}

#[test]
fn bus_fault_surfaces_as_the_generic_error_with_the_line_released() {
    let bus = ScriptedBus::failing_at(0);
    let line = RecordingLine::default();
    let mut driver = Ax5031::new(bus.clone(), line.clone());
    assert_eq!(driver.set_scratch(1), Err(Ax5031Error::Any));
    assert_eq!(bus.sent(), Vec::<u8>::new());
    assert_select_discipline(&line.transitions());
}

#[test]
fn bus_fault_on_the_second_byte_still_releases_the_line() {
    let bus = ScriptedBus::failing_at(1);
    let line = RecordingLine::default();
    let mut driver = Ax5031::new(bus.clone(), line.clone());
    assert_eq!(driver.get_scratch(), Err(Ax5031Error::Any));
    assert_eq!(bus.sent(), vec![0x01]);
    assert_select_discipline(&line.transitions());
}

#[test]
fn line_fault_surfaces_as_the_generic_error() {
    let bus = ScriptedBus::default();
    let line = RecordingLine::failing();
    let mut driver = Ax5031::new(bus.clone(), line.clone());
    assert_eq!(driver.set_scratch(1), Err(Ax5031Error::Any));
    // Nothing was exchanged, and the last command was still a release.
    assert_eq!(bus.sent(), Vec::<u8>::new());
    assert_eq!(line.transitions(), vec![true, false]);
}

#[test]
fn chip_select_transitions_pair_across_a_whole_session() {
    let chip = ChipSim::with_ranging_busy_polls(2);
    let line = RecordingLine::default();
    let mut driver = Ax5031::new(chip.clone(), line.clone());
    driver.set_power_mode(PowerMode::Standby).unwrap();
    driver.set_frequency(433_920_000).unwrap();
    driver.set_transmit_bitrate(9_600).unwrap();
    driver.set_modulation(Modulation::ASK).unwrap();
    driver.set_framing_mode(FramingMode::Raw).unwrap();
    driver.set_encoding(Encoding::NonReturnZero).unwrap();
    driver.autoranging().unwrap();
    driver.set_transmit_power().unwrap();
    driver.transmit(0x55).unwrap();
    driver.get_frequency().unwrap();
    assert_select_discipline(&line.transitions());
}

#[test]
fn reads_do_not_disturb_the_simulated_registers() {
    let chip = ChipSim::new();
    let mut driver = Ax5031::new(chip.clone(), RecordingLine::default());
    driver.set_scratch(0x99).unwrap();
    driver.get_scratch().unwrap();
    driver.get_scratch().unwrap();
    assert_eq!(chip.register(ControlRegister::SCRATCH.register() as usize), 0x99);
}
