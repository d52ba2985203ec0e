//! The frame codec: every register transaction travels as one 16-bit word,
//! bit 15 the direction (`1` = write), bits 14–8 the 7-bit register address,
//! bits 7–0 the data payload (zero, don't-care, on reads).

use vstd::prelude::*;

verus! {

use crate::registers::lemma_register_address_fits;
use crate::registers::ControlRegister;
use crate::registers::Register;

/// A register transaction: read a register, or write one byte to it.
pub enum SpiAction {
    Read(ControlRegister),
    Write(ControlRegister, u8),
}

/// The 16-bit frame of a read transaction: direction bit clear, the address
/// masked to 7 bits, and a zero data field.
pub open spec fn spec_read_frame(addr: u8) -> u16 {
    ((addr & 0x7f) as u16) << 8
}

/// The 16-bit frame of a write transaction: direction bit set, the address
/// masked to 7 bits, and the data byte in the low eight bits.
pub open spec fn spec_write_frame(addr: u8, data: u8) -> u16 {
    (1u16 << 15) | (((addr & 0x7f) as u16) << 8) | (data as u16)
}

/// The register address carried in a frame.
pub open spec fn spec_frame_address(frame: u16) -> u8 {
    ((frame >> 8) & 0x7f) as u8
}

/// The data byte carried in a frame.
pub open spec fn spec_frame_data(frame: u16) -> u8 {
    (frame & 0xff) as u8
}

/// Whether a frame's direction bit marks it as a write.
pub open spec fn spec_frame_is_write(frame: u16) -> bool {
    frame >> 15 == 1
}

/// The first byte of a frame on the wire (transmitted MSB first).
pub open spec fn spec_frame_hi(frame: u16) -> u8 {
    (frame >> 8) as u8
}

/// The second byte of a frame on the wire.
pub open spec fn spec_frame_lo(frame: u16) -> u8 {
    (frame & 0xff) as u8
}

/// Build the 16-bit transaction word for one register access.
pub fn create_frame(action: SpiAction) -> (r: u16)
    ensures
        (match action {
            SpiAction::Read(reg) => r == spec_read_frame(reg.spec_register()),
            SpiAction::Write(reg, data) => r == spec_write_frame(reg.spec_register(), data),
        }),
{
    match action {
        SpiAction::Read(addr) => {
            let a = addr.register();
            proof {
                assert(((a as u16) & 0x7f) << 8 == ((a & 0x7f) as u16) << 8) by (bit_vector);
            }
            ((a as u16) & 0x7f) << 8
        },
        SpiAction::Write(addr, data) => {
            let a = addr.register();
            proof {
                assert((1u16 << 15) | (((a as u16) & 0x7f) << 8) | ((data as u16) & 0xff)
                    == (1u16 << 15) | (((a & 0x7f) as u16) << 8) | (data as u16)) by (bit_vector);
            }
            (1u16 << 15) | (((a as u16) & 0x7f) << 8) | ((data as u16) & 0xff)
        },
    }
}

/// The register address a received or built frame carries.
pub fn decode_address(frame: u16) -> (r: u8)
    ensures
        r == spec_frame_address(frame),
{
    ((frame >> 8) & 0x7f) as u8
}

/// The data byte a received or built frame carries.
pub fn decode_data(frame: u16) -> (r: u8)
    ensures
        r == spec_frame_data(frame),
{
    (frame & 0xff) as u8
}

/// Frame codec round-trip: for every register and data byte, a write frame
/// decodes back to exactly that register address and that byte, and a read
/// frame has the direction bit clear, the same address, and a zero data field.
pub proof fn lemma_frame_roundtrip(reg: ControlRegister, data: u8)
    ensures
        spec_frame_address(spec_write_frame(reg.spec_register(), data)) == reg.spec_register(),
        spec_frame_data(spec_write_frame(reg.spec_register(), data)) == data,
        spec_frame_is_write(spec_write_frame(reg.spec_register(), data)),
        spec_frame_address(spec_read_frame(reg.spec_register())) == reg.spec_register(),
        spec_frame_data(spec_read_frame(reg.spec_register())) == 0,
        !spec_frame_is_write(spec_read_frame(reg.spec_register())),
{
    lemma_register_address_fits(reg);
    let a = reg.spec_register();
    assert(a <= 0x7f ==> spec_frame_address(spec_write_frame(a, data)) == a
        && spec_frame_data(spec_write_frame(a, data)) == data
        && spec_frame_is_write(spec_write_frame(a, data))
        && spec_frame_address(spec_read_frame(a)) == a
        && spec_frame_data(spec_read_frame(a)) == 0
        && !spec_frame_is_write(spec_read_frame(a))) by (bit_vector);
}

/// On the wire, a write frame's two bytes are the address with the direction
/// bit set, then the data byte; a read frame's are the bare address, then zero.
pub proof fn lemma_frame_wire_bytes(reg: ControlRegister, data: u8)
    ensures
        spec_frame_hi(spec_write_frame(reg.spec_register(), data)) == reg.spec_register() | 0x80,
        spec_frame_lo(spec_write_frame(reg.spec_register(), data)) == data,
        spec_frame_hi(spec_read_frame(reg.spec_register())) == reg.spec_register(),
        spec_frame_lo(spec_read_frame(reg.spec_register())) == 0,
{
    lemma_register_address_fits(reg);
    let a = reg.spec_register();
    assert(a <= 0x7f ==> spec_frame_hi(spec_write_frame(a, data)) == (a | 0x80)
        && spec_frame_lo(spec_write_frame(a, data)) == data
        && spec_frame_hi(spec_read_frame(a)) == a
        && spec_frame_lo(spec_read_frame(a)) == 0) by (bit_vector);
}

} // verus!
