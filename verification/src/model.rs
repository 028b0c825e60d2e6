//! Mathematical model of the LAN9252 slave controller as seen through its
//! SPI register interface: the ESC memory, the indirect CSR engine, and the
//! two PRAM FIFO engines. Every register write and read is a step of this
//! model; the port contract in `port` holds any bus implementation to these
//! steps.

use vstd::prelude::*;
use crate::drivers::lan9252_cst::{
    ESC_CSR_CMD_REG, ESC_CSR_DATA_REG, ESC_PRAM_CMD_ABORT, ESC_PRAM_CMD_BUSY,
    ESC_PRAM_RD_ADDR_LEN_REG,
    ESC_PRAM_RD_CMD_REG, ESC_PRAM_RD_FIFO_REG, ESC_PRAM_WR_ADDR_LEN_REG, ESC_PRAM_WR_CMD_REG,
    ESC_PRAM_WR_FIFO_REG, ESC_RESET_CTRL_REG, LAN9252_BYTE_TEST,
};
use crate::mem::update_range;
use crate::word::{spec_word_byte, word_of_bytes};

verus! {

/// End of the CSR register space; process RAM starts here.
pub const ESC_CSR_SIZE: usize = 0x1000;

/// End of the modelled ESC address space (CSR space plus process RAM).
pub const ESC_MEM_SIZE: usize = 0x2000;

/// Value a healthy peripheral returns from the byte-test register.
pub const BYTE_TEST_VALUE: u32 = 0x87654321;

/// State of the peripheral.
///
/// `latency` is a characteristic of the device, not of an operation: after a
/// command is issued, the matching busy/wait flag reads as set for `latency`
/// polls of the command register before it drops.
#[verifier::ext_equal]
pub struct EscModel {
    /// Unified ESC memory: CSR registers below `ESC_CSR_SIZE`, process RAM
    /// from there to `ESC_MEM_SIZE`.
    pub mem: Seq<u8>,
    /// Value served from the identity/byte-test register.
    pub byte_test: u32,
    /// Polls of a command register before a raised busy/wait flag clears.
    pub latency: nat,
    /// CSR data register.
    pub csr_data: u32,
    /// Remaining busy polls of the CSR command register.
    pub csr_busy: nat,
    /// Remaining polls of the CSR command register with the reset bit set.
    pub reset_busy: nat,
    /// Raw PRAM-read address/length register.
    pub rd_cfg: u32,
    /// Remaining busy polls of the PRAM-read command register.
    pub rd_busy: nat,
    /// Remaining polls of the PRAM-read command register before FIFO-available.
    pub rd_wait: nat,
    /// A PRAM read transfer has been started and not aborted.
    pub rd_active: bool,
    /// Words the PRAM-read FIFO still has to hand out.
    pub rd_fifo: Seq<u32>,
    /// Raw PRAM-write address/length register.
    pub wr_cfg: u32,
    /// Remaining busy polls of the PRAM-write command register.
    pub wr_busy: nat,
    /// Remaining polls of the PRAM-write command register before FIFO-available.
    pub wr_wait: nat,
    /// A PRAM write transfer has been started and not aborted.
    pub wr_active: bool,
    /// Next memory address the PRAM-write engine will fill.
    pub wr_addr: int,
    /// Bytes the PRAM-write engine still expects.
    pub wr_left: nat,
    /// Every word ever pushed into the PRAM-write FIFO, in order.
    pub wr_log: Seq<u32>,
}

impl EscModel {
    pub open spec fn wf(self) -> bool {
        &&& self.mem.len() == ESC_MEM_SIZE
        &&& (self.wr_active ==> 0 <= self.wr_addr && self.wr_addr + self.wr_left <= ESC_MEM_SIZE)
    }
}

/// Address field (low 16 bits) of an address/length register value.
pub open spec fn field_addr(v: u32) -> u32 {
    v % 0x10000
}

/// Length field (bits 16 and up) of an address/length register value.
pub open spec fn field_len(v: u32) -> u32 {
    v / 0x10000
}

/// Size code (bits 16..18) of a CSR command register value.
pub open spec fn csr_code(v: u32) -> u32 {
    (v / 0x10000) % 4
}

/// Whether bit 30 (read select) of a CSR command register value is set.
pub open spec fn csr_is_read(v: u32) -> bool {
    (v / 0x4000_0000) % 2 == 1
}

/// Whether bit 31 (busy/start) of a command register value is set.
pub open spec fn cmd_busy_bit(v: u32) -> bool {
    v / 0x8000_0000 == 1
}

/// Access width that a CSR size code stands for.
pub open spec fn code_len(c: u32) -> u32 {
    if c == 0 {
        1
    } else if c == 1 {
        2
    } else {
        4
    }
}

/// Countdown step of a busy/wait flag.
pub open spec fn dec(n: nat) -> nat {
    if n > 0 {
        (n - 1) as nat
    } else {
        0
    }
}

/// The 32-bit little-endian word held at `a`.
pub open spec fn le_word_at(mem: Seq<u8>, a: int) -> u32 {
    word_of_bytes(mem[a], mem[a + 1], mem[a + 2], mem[a + 3])
}

/// Word the CSR engine loads into the data register for a read of `len`
/// bytes at `a`; lanes past `len` read as zero.
pub open spec fn csr_read_value(mem: Seq<u8>, a: int, len: int) -> u32 {
    word_of_bytes(
        mem[a],
        if len >= 2 { mem[a + 1] } else { 0 },
        if len >= 4 { mem[a + 2] } else { 0 },
        if len >= 4 { mem[a + 3] } else { 0 },
    )
}

/// The low `len` byte lanes of `w`, least significant first.
pub open spec fn le_bytes(w: u32, len: int) -> Seq<u8> {
    Seq::new(len as nat, |i: int| spec_word_byte(w, i))
}

/// Aligned words the PRAM-read FIFO serves for a transfer of `len` bytes
/// starting at `addr`: the aligned words that cover the byte range.
pub open spec fn fifo_words(mem: Seq<u8>, addr: int, len: int) -> Seq<u32> {
    let fbp = addr % 4;
    let base = addr - fbp;
    let n = (fbp + len + 3) / 4;
    Seq::new(n as nat, |i: int| le_word_at(mem, base + 4 * i))
}

/// Byte lane `j` of a word that carries `data` starting at lane `fbp`;
/// lanes outside the carried range are zero.
pub open spec fn lane_byte(data: Seq<u8>, fbp: int, j: int) -> u8 {
    if fbp <= j < fbp + data.len() {
        data[j - fbp]
    } else {
        0
    }
}

/// Word that carries `data` (at most `4 - fbp` bytes) in lanes `fbp` and up.
pub open spec fn lane_word(data: Seq<u8>, fbp: int) -> u32 {
    word_of_bytes(
        lane_byte(data, fbp, 0),
        lane_byte(data, fbp, 1),
        lane_byte(data, fbp, 2),
        lane_byte(data, fbp, 3),
    )
}

/// Whether a PRAM address/length register value describes a legal transfer:
/// at least one byte, wholly inside process RAM.
pub open spec fn pram_cfg_valid(cfg: u32) -> bool {
    &&& ESC_CSR_SIZE <= field_addr(cfg)
    &&& 1 <= field_len(cfg)
    &&& field_addr(cfg) + field_len(cfg) <= ESC_MEM_SIZE
}

/// One word pushed into the PRAM-write FIFO: the engine takes the next
/// `min(4 - wr_addr % 4, wr_left)` bytes out of the matching byte lanes and
/// stores them at `wr_addr`.
pub open spec fn step_push(m: EscModel, w: u32) -> EscModel {
    let fbp = m.wr_addr % 4;
    let t = if 4 - fbp <= m.wr_left { 4 - fbp } else { m.wr_left as int };
    EscModel {
        mem: update_range(
            m.mem,
            m.wr_addr,
            Seq::new(t as nat, |i: int| spec_word_byte(w, fbp + i)),
        ),
        wr_addr: m.wr_addr + t,
        wr_left: (m.wr_left - t) as nat,
        wr_log: m.wr_log.push(w),
        ..m
    }
}

/// Effect of a register write.
pub open spec fn step_write(m: EscModel, a: u16, v: u32) -> EscModel {
    if a == ESC_CSR_DATA_REG {
        EscModel { csr_data: v, ..m }
    } else if a == ESC_CSR_CMD_REG {
        let ad = field_addr(v) as int;
        let len = code_len(csr_code(v)) as int;
        if csr_is_read(v) {
            EscModel { csr_data: csr_read_value(m.mem, ad, len), csr_busy: m.latency, ..m }
        } else {
            EscModel {
                mem: update_range(m.mem, ad, le_bytes(m.csr_data, len)),
                csr_busy: m.latency,
                ..m
            }
        }
    } else if a == ESC_RESET_CTRL_REG {
        if (v / 0x40) % 2 == 1 {
            EscModel { reset_busy: m.latency, ..m }
        } else {
            m
        }
    } else if a == ESC_PRAM_RD_ADDR_LEN_REG {
        EscModel { rd_cfg: v, ..m }
    } else if a == ESC_PRAM_RD_CMD_REG {
        if v == ESC_PRAM_CMD_ABORT {
            EscModel { rd_active: false, rd_fifo: Seq::empty(), rd_busy: m.latency, rd_wait: 0, ..m }
        } else {
            EscModel {
                rd_active: true,
                rd_fifo: fifo_words(m.mem, field_addr(m.rd_cfg) as int, field_len(m.rd_cfg) as int),
                rd_wait: m.latency,
                ..m
            }
        }
    } else if a == ESC_PRAM_WR_ADDR_LEN_REG {
        EscModel { wr_cfg: v, ..m }
    } else if a == ESC_PRAM_WR_CMD_REG {
        if v == ESC_PRAM_CMD_ABORT {
            EscModel { wr_active: false, wr_busy: m.latency, wr_wait: 0, wr_left: 0, ..m }
        } else {
            EscModel {
                wr_active: true,
                wr_addr: field_addr(m.wr_cfg) as int,
                wr_left: field_len(m.wr_cfg) as nat,
                wr_wait: m.latency,
                ..m
            }
        }
    } else if a == ESC_PRAM_WR_FIFO_REG {
        step_push(m, v)
    } else {
        m
    }
}

/// Register writes the driver may issue. In particular a PRAM start command
/// is only allowed once the busy flag has dropped and a legal transfer is
/// configured, and the write FIFO only accepts words while the engine still
/// expects bytes.
pub open spec fn write_allowed(m: EscModel, a: u16, v: u32) -> bool {
    if a == ESC_CSR_DATA_REG || a == ESC_RESET_CTRL_REG || a == ESC_PRAM_RD_ADDR_LEN_REG
        || a == ESC_PRAM_WR_ADDR_LEN_REG {
        true
    } else if a == ESC_CSR_CMD_REG {
        &&& cmd_busy_bit(v)
        &&& csr_code(v) < 3
        &&& field_addr(v) % code_len(csr_code(v)) == 0
        &&& field_addr(v) + code_len(csr_code(v)) <= ESC_CSR_SIZE
    } else if a == ESC_PRAM_RD_CMD_REG {
        v == ESC_PRAM_CMD_ABORT || (v == ESC_PRAM_CMD_BUSY && m.rd_busy == 0 && pram_cfg_valid(
            m.rd_cfg,
        ))
    } else if a == ESC_PRAM_WR_CMD_REG {
        v == ESC_PRAM_CMD_ABORT || (v == ESC_PRAM_CMD_BUSY && m.wr_busy == 0 && pram_cfg_valid(
            m.wr_cfg,
        ))
    } else if a == ESC_PRAM_WR_FIFO_REG {
        m.wr_active && m.wr_left > 0
    } else {
        false
    }
}

/// Effect and result of a register read. Reading a command register polls
/// it: each such read also counts one step of its busy/wait countdowns.
pub open spec fn step_read(m: EscModel, a: u16) -> (EscModel, u32) {
    if a == ESC_CSR_DATA_REG {
        (m, m.csr_data)
    } else if a == ESC_CSR_CMD_REG {
        let v = ((if m.csr_busy > 0 { 0x8000_0000int } else { 0int }) + (if m.reset_busy > 0 { 0x40int } else { 0int })) as u32;
        (EscModel { csr_busy: dec(m.csr_busy), reset_busy: dec(m.reset_busy), ..m }, v)
    } else if a == ESC_PRAM_RD_CMD_REG {
        let avail = m.rd_active && m.rd_wait == 0;
        let cnt: int = if m.rd_fifo.len() <= 0x1F { m.rd_fifo.len() as int } else { 0x1F };
        let v = ((if m.rd_busy > 0 { 0x8000_0000int } else { 0int }) + (if avail { cnt * 0x100 + 1 } else { 0int })) as u32;
        (EscModel { rd_busy: dec(m.rd_busy), rd_wait: dec(m.rd_wait), ..m }, v)
    } else if a == ESC_PRAM_WR_CMD_REG {
        let avail = m.wr_active && m.wr_wait == 0;
        let slots: int = ((m.wr_left + 3) / 4) as int;
        let cnt: int = if slots <= 0x1F { slots } else { 0x1F };
        let v = ((if m.wr_busy > 0 { 0x8000_0000int } else { 0int }) + (if avail { cnt * 0x100 + 1 } else { 0int })) as u32;
        (EscModel { wr_busy: dec(m.wr_busy), wr_wait: dec(m.wr_wait), ..m }, v)
    } else if a == ESC_PRAM_RD_FIFO_REG {
        (EscModel { rd_fifo: m.rd_fifo.skip(1), ..m }, m.rd_fifo[0])
    } else if a == LAN9252_BYTE_TEST {
        (m, m.byte_test)
    } else {
        (m, 0)
    }
}

/// Register reads the driver may issue; the read FIFO may only be popped
/// once the transfer is available and while it still holds words.
pub open spec fn read_allowed(m: EscModel, a: u16) -> bool {
    if a == ESC_CSR_DATA_REG || a == ESC_CSR_CMD_REG || a == ESC_PRAM_RD_CMD_REG
        || a == ESC_PRAM_WR_CMD_REG || a == LAN9252_BYTE_TEST {
        true
    } else if a == ESC_PRAM_RD_FIFO_REG {
        m.rd_active && m.rd_wait == 0 && m.rd_fifo.len() > 0
    } else {
        false
    }
}

/// Effect of streaming `ws` into the PRAM-write FIFO, first word first.
pub open spec fn step_write_burst(m: EscModel, ws: Seq<u32>) -> EscModel
    decreases ws.len(),
{
    if ws.len() == 0 {
        m
    } else {
        step_write_burst(step_push(m, ws[0]), ws.skip(1))
    }
}

/// Whether every word of the stream finds the engine still expecting bytes.
pub open spec fn burst_write_allowed(m: EscModel, ws: Seq<u32>) -> bool
    decreases ws.len(),
{
    ws.len() == 0 || (m.wr_active && m.wr_left > 0 && burst_write_allowed(
        step_push(m, ws[0]),
        ws.skip(1),
    ))
}

} // verus!
