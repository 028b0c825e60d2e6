//! Wire-level command constants of the LAN9252 SPI slave controller.

use vstd::prelude::*;

verus! {

// ESC SPI opcodes
pub const ESC_CMD_SERIAL_WRITE: u8 = 0x02;
pub const ESC_CMD_SERIAL_READ: u8 = 0x03;
pub const ESC_CMD_FAST_READ: u8 = 0x0B;
pub const ESC_CMD_RESET_SQI: u8 = 0xFF;

pub const ESC_CMD_FAST_READ_DUMMY: u8 = 1;
pub const ESC_CMD_ADDR_INC: u8 = 0x40;

// PRAM registers
pub const ESC_PRAM_RD_FIFO_REG: u16 = 0x000;
pub const ESC_PRAM_WR_FIFO_REG: u16 = 0x020;
pub const ESC_PRAM_RD_ADDR_LEN_REG: u16 = 0x308;
pub const ESC_PRAM_RD_CMD_REG: u16 = 0x30C;
pub const ESC_PRAM_WR_ADDR_LEN_REG: u16 = 0x310;
pub const ESC_PRAM_WR_CMD_REG: u16 = 0x314;

// PRAM command flags
pub const ESC_PRAM_CMD_BUSY: u32 = 0x8000_0000;
pub const ESC_PRAM_CMD_ABORT: u32 = 0x4000_0000;
pub const ESC_PRAM_CMD_AVAIL: u32 = 0x0000_0001;

// CSR registers
pub const ESC_CSR_DATA_REG: u16 = 0x300;
pub const ESC_CSR_CMD_REG: u16 = 0x304;

pub const ESC_CSR_CMD_BUSY: u32 = 0x8000_0000;
pub const ESC_CSR_CMD_READ: u32 = 0xC000_0000;
pub const ESC_CSR_CMD_WRITE: u32 = 0x8000_0000;

// Reset control
pub const ESC_RESET_CTRL_REG: u16 = 0x1F8;
pub const ESC_RESET_CTRL_RST: u32 = 0x40;

// Sync status
pub const ESCREG_SYNC0_STATUS: u16 = 0x098E;

// LAN9252 direct registers
pub const LAN9252_IRQ_CFG: u16 = 0x54;
pub const LAN9252_INT_EN: u16 = 0x5C;
pub const LAN9252_INT_STS: u16 = 0x58;
pub const LAN9252_BYTE_TEST: u16 = 0x64;

// AL event status register and its interesting bits
pub const ESCREG_ALEVENT: u16 = 0x220;
pub const ESCREG_ALEVENT_CONTROL: u32 = 0x1;
pub const ESCREG_ALEVENT_SMCHANGE: u32 = 0x2;
pub const ESCREG_ALEVENT_SM0: u32 = 0x4;
pub const ESCREG_ALEVENT_SM1: u32 = 0x8;

pub const ALEVENT_MASK: u32 = ESCREG_ALEVENT_CONTROL | ESCREG_ALEVENT_SMCHANGE
    | ESCREG_ALEVENT_SM0 | ESCREG_ALEVENT_SM1;

/// Single-bit mask helper.
pub fn BIT(n: u32) -> (r: u32)
    requires
        n < 32,
    ensures
        r == 1u32 << n,
{
    1u32 << n
}

/// FIFO depth count carried in bits 8..13 of a PRAM command register value.
pub fn ESC_PRAM_CMD_CNT(x: u32) -> (r: u32)
    ensures
        r == (x >> 8) & 0x1F,
        r <= 0x1F,
{
    proof {
        assert((x >> 8) & 0x1F <= 0x1F) by (bit_vector);
    }
    (x >> 8) & 0x1F
}

/// Transfer length field of a PRAM address/length register value.
pub fn ESC_PRAM_SIZE(x: u32) -> (r: u32)
    ensures
        r == x << 16,
{
    x << 16
}

/// Address field of a PRAM address/length register value.
pub fn ESC_PRAM_ADDR(x: u32) -> (r: u32)
    ensures
        r == x,
{
    x
}

/// Size-code field of a CSR command register value.
pub fn ESC_CSR_CMD_SIZE(x: u32) -> (r: u32)
    ensures
        r == x << 16,
{
    x << 16
}

} // verus!
