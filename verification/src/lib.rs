//! Driver core for an AX5031-class RF transceiver reached over a synchronous
//! full-duplex serial bus framed by a chip-select line.
//!
//! The driver translates high-level configuration operations (power mode,
//! carrier frequency, bitrate, modulation, framing, encoding, transmit power,
//! VCO auto-ranging, FIFO transmit) into 16-bit register transactions. The
//! physical collaborators — the byte exchange primitive and the chip-select
//! output line — are consumed through the traits in [`bus`]; every contract
//! below speaks of the byte streams and line levels those traits expose.

pub mod ax5031;
pub mod bus;
pub mod frame;
pub mod quantize;
pub mod registers;

pub use ax5031::Ax5031;
pub use ax5031::Ax5031Error;
pub use bus::EnableLine;
pub use bus::LineLevel;
pub use bus::SpiExchange;
pub use registers::ControlRegister;
pub use registers::Encoding;
pub use registers::FramingMode;
pub use registers::Modulation;
pub use registers::PowerMode;
pub use registers::Register;
pub use registers::Status;
