//! SPI wire frames of the LAN9252 command protocol: an opcode, the 16-bit
//! address most-significant byte first, and for register values a payload
//! least-significant byte first. A hardware port builds its bus
//! transactions from these.

use vstd::prelude::*;
use crate::drivers::lan9252_cst::{
    ESC_CMD_FAST_READ, ESC_CMD_FAST_READ_DUMMY, ESC_CMD_SERIAL_WRITE,
};
use crate::word::{pack_word, spec_word_byte, word_byte, word_of_bytes};

verus! {

/// High byte of a wire address; it is sent first.
pub open spec fn addr_hi(address: u16) -> u8 {
    (address / 0x100) as u8
}

/// Low byte of a wire address.
pub open spec fn addr_lo(address: u16) -> u8 {
    (address % 0x100) as u8
}

/// Header of an incrementing serial-write transaction.
pub fn serial_write_header(address: u16) -> (f: Vec<u8>)
    ensures
        f@ == seq![ESC_CMD_SERIAL_WRITE, addr_hi(address), addr_lo(address)],
{
    let mut f: Vec<u8> = Vec::new();
    f.push(ESC_CMD_SERIAL_WRITE);
    f.push((address / 0x100) as u8);
    f.push((address % 0x100) as u8);
    proof {
        assert(f@ =~= seq![ESC_CMD_SERIAL_WRITE, addr_hi(address), addr_lo(address)]);
    }
    f
}

/// Full frame of one 32-bit register write: serial-write header, then the
/// value least-significant byte first.
pub fn serial_write_frame(address: u16, value: u32) -> (f: Vec<u8>)
    ensures
        f@ == seq![
            ESC_CMD_SERIAL_WRITE,
            addr_hi(address),
            addr_lo(address),
            spec_word_byte(value, 0),
            spec_word_byte(value, 1),
            spec_word_byte(value, 2),
            spec_word_byte(value, 3),
        ],
{
    let mut f = serial_write_header(address);
    f.push(word_byte(value, 0));
    f.push(word_byte(value, 1));
    f.push(word_byte(value, 2));
    f.push(word_byte(value, 3));
    proof {
        assert(f@ =~= seq![
            ESC_CMD_SERIAL_WRITE,
            addr_hi(address),
            addr_lo(address),
            spec_word_byte(value, 0),
            spec_word_byte(value, 1),
            spec_word_byte(value, 2),
            spec_word_byte(value, 3),
        ]);
    }
    f
}

/// Header of a fast-read transaction: opcode, address, one dummy byte.
pub fn fast_read_header(address: u16) -> (f: Vec<u8>)
    ensures
        f@ == seq![
            ESC_CMD_FAST_READ,
            addr_hi(address),
            addr_lo(address),
            ESC_CMD_FAST_READ_DUMMY,
        ],
{
    let mut f: Vec<u8> = Vec::new();
    f.push(ESC_CMD_FAST_READ);
    f.push((address / 0x100) as u8);
    f.push((address % 0x100) as u8);
    f.push(ESC_CMD_FAST_READ_DUMMY);
    proof {
        assert(f@ =~= seq![
            ESC_CMD_FAST_READ,
            addr_hi(address),
            addr_lo(address),
            ESC_CMD_FAST_READ_DUMMY,
        ]);
    }
    f
}

/// A register value as the four bytes it travels as, least significant
/// byte first.
pub fn word_to_le_bytes(value: u32) -> (f: Vec<u8>)
    ensures
        f@ == seq![
            spec_word_byte(value, 0),
            spec_word_byte(value, 1),
            spec_word_byte(value, 2),
            spec_word_byte(value, 3),
        ],
{
    let mut f: Vec<u8> = Vec::new();
    f.push(word_byte(value, 0));
    f.push(word_byte(value, 1));
    f.push(word_byte(value, 2));
    f.push(word_byte(value, 3));
    proof {
        assert(f@ =~= seq![
            spec_word_byte(value, 0),
            spec_word_byte(value, 1),
            spec_word_byte(value, 2),
            spec_word_byte(value, 3),
        ]);
    }
    f
}

/// The register value carried by four received bytes.
pub fn word_from_le_bytes(b: &Vec<u8>) -> (w: u32)
    requires
        b@.len() == 4,
    ensures
        w == word_of_bytes(b@[0], b@[1], b@[2], b@[3]),
{
    pack_word(b[0], b[1], b[2], b[3])
}

} // verus!
