//! The LAN9252 transport driver: small Control/Status Register accesses,
//! bulk process-RAM transfers through the hardware FIFOs, and the router
//! that splits an arbitrary byte access into legal pieces and keeps the
//! AL-event mirror fresh. The driver runs on any `EscPort`; everything it
//! does is stated against the peripheral model of `model`.

use vstd::prelude::*;
use vstd::assert_seqs_equal;
use crate::align::csr_chunk_len;
use crate::drivers::lan9252_cst::{
    ESCREG_ALEVENT, ESC_CSR_CMD_BUSY, ESC_CSR_CMD_READ, ESC_CSR_CMD_REG, ESC_CSR_CMD_WRITE,
    ESC_CSR_DATA_REG, ESC_PRAM_CMD_ABORT, ESC_PRAM_CMD_AVAIL, ESC_PRAM_CMD_BUSY, ESC_PRAM_CMD_CNT,
    ESC_PRAM_ADDR, ESC_PRAM_RD_ADDR_LEN_REG, ESC_PRAM_RD_CMD_REG, ESC_PRAM_RD_FIFO_REG,
    ESC_PRAM_SIZE,
    ESC_PRAM_WR_ADDR_LEN_REG, ESC_PRAM_WR_CMD_REG, ESC_PRAM_WR_FIFO_REG, ESC_RESET_CTRL_REG,
    ESC_RESET_CTRL_RST, LAN9252_BYTE_TEST,
};
use crate::esc_driver::{valid_access, EscDriver, EscError};
use crate::mem::{
    lemma_update_range_concat, lemma_update_range_step, read_range, update_range,
};
use crate::model::{
    csr_read_value, fifo_words, lane_byte, lane_word, le_bytes, le_word_at, EscModel,
    BYTE_TEST_VALUE, ESC_CSR_SIZE, ESC_MEM_SIZE,
};
use crate::port::EscPort;
use crate::stream::{lemma_push_lane_word, lemma_stream_tail, pram_tail_words, pram_words};
use crate::word::{lemma_word_byte_of_bytes, pack_word, spec_word_byte, word_byte};

verus! {

/// Polls of a command register before the driver declares the peripheral
/// unresponsive instead of spinning forever.
pub const POLL_LIMIT: u32 = 10_000;

/// The AL-event value held in ESC memory: the 16-bit little-endian word at
/// the AL-event status register.
pub open spec fn al_event_of(mem: Seq<u8>) -> u16 {
    (mem[ESCREG_ALEVENT as int] + mem[ESCREG_ALEVENT as int + 1] * 0x100) as u16
}

/// Chip-specific transport driver for the LAN9252, generic over the bus
/// port it exclusively owns.
pub struct Lan9252<P: EscPort> {
    /// Exclusively owned word-level transport to the peripheral.
    pub port: P,
    /// Mirror of the peripheral's AL-event register, refreshed after every
    /// completed routed access.
    pub al_event: u16,
}

/// Bit tests on a PRAM command-register value of the modelled shape.
proof fn lemma_cmd_bits(v: u32, busy: bool, avail: bool, cnt: u32)
    requires
        cnt <= 0x1F,
        v == ((if busy {
            0x8000_0000int
        } else {
            0int
        }) + (if avail {
            cnt * 0x100 + 1
        } else {
            0int
        })) as u32,
    ensures
        (v & 0x8000_0000u32 != 0) <==> busy,
        (v & 1u32 != 0) <==> avail,
{
    if busy {
        if avail {
            assert((cnt <= 0x1F && v == 0x8000_0000 + cnt * 0x100 + 1) ==> ((v
                & 0x8000_0000u32 != 0) && (v & 1u32 != 0))) by (bit_vector);
        } else {
            assert(v == 0x8000_0000u32 ==> ((v & 0x8000_0000u32 != 0) && (v & 1u32 == 0)))
                by (bit_vector);
        }
    } else {
        if avail {
            assert((cnt <= 0x1F && v == cnt * 0x100 + 1) ==> ((v & 0x8000_0000u32 == 0) && (v
                & 1u32 != 0))) by (bit_vector);
        } else {
            assert(v == 0u32 ==> ((v & 0x8000_0000u32 == 0) && (v & 1u32 == 0))) by (bit_vector);
        }
    }
}

/// Bit tests on a CSR command-register value of the modelled shape.
proof fn lemma_csr_status_bits(v: u32, busy: bool, rst: bool)
    requires
        v == ((if busy {
            0x8000_0000int
        } else {
            0int
        }) + (if rst {
            0x40int
        } else {
            0int
        })) as u32,
    ensures
        (v & 0x8000_0000u32 != 0) <==> busy,
        (v & 0x40u32 != 0) <==> rst,
{
    assert(v == 0x8000_0040u32 ==> ((v & 0x8000_0000u32 != 0) && (v & 0x40u32 != 0)))
        by (bit_vector);
    assert(v == 0x8000_0000u32 ==> ((v & 0x8000_0000u32 != 0) && (v & 0x40u32 == 0)))
        by (bit_vector);
    assert(v == 0x40u32 ==> ((v & 0x8000_0000u32 == 0) && (v & 0x40u32 != 0))) by (bit_vector);
    assert(v == 0u32 ==> ((v & 0x8000_0000u32 == 0) && (v & 0x40u32 == 0))) by (bit_vector);
}

impl<P: EscPort> Lan9252<P> {
    /// Peripheral state behind the port.
    pub open spec fn model(&self) -> EscModel {
        self.port.model()
    }

    /// The driver is usable: its port's model is well formed.
    pub open spec fn wf(&self) -> bool {
        self.model().wf()
    }

    /// Takes exclusive ownership of the transport; the mirror starts at 0.
    pub fn new(port: P) -> (s: Self)
        ensures
            s.port == port,
            s.al_event == 0,
    {
        Lan9252 { port: port, al_event: 0 }
    }

    /// Polls the CSR command register until its busy bit clears.
    fn wait_csr_idle(&mut self) -> (r: Result<(), EscError>)
        requires
            old(self).wf(),
        ensures
            final(self).wf(),
            final(self).model().latency == old(self).model().latency,
            final(self).model().byte_test == old(self).model().byte_test,
            final(self).al_event == old(self).al_event,
            r is Ok ==> final(self).model() == (EscModel {
                csr_busy: 0,
                reset_busy: final(self).model().reset_busy,
                ..old(self).model()
            }),
            r == Err::<(), EscError>(EscError::Unresponsive) ==> old(self).model().csr_busy
                >= POLL_LIMIT as nat,
            r is Ok || r == Err::<(), EscError>(EscError::Unresponsive) || r == Err::<(
            ), EscError>(EscError::Bus),
    {
        let mut i: u32 = 0;
        loop
            invariant
                self.wf(),
                self.model() == (EscModel {
                    csr_busy: self.model().csr_busy,
                    reset_busy: self.model().reset_busy,
                    ..old(self).model()
                }),
                self.al_event == old(self).al_event,
                i <= POLL_LIMIT,
                self.model().csr_busy + i == old(self).model().csr_busy,
            decreases POLL_LIMIT - i,
        {
            if i >= POLL_LIMIT {
                return Err(EscError::Unresponsive);
            }
            let ghost pre = self.model();
            let v = match self.port.read_reg(ESC_CSR_CMD_REG) {
                Ok(v) => v,
                Err(_) => {
                    return Err(EscError::Bus);
                },
            };
            proof {
                lemma_csr_status_bits(v, pre.csr_busy > 0, pre.reset_busy > 0);
            }
            if v & ESC_CSR_CMD_BUSY == 0 {
                return Ok(());
            }
            i = i + 1;
        }
    }

    /// Polls the CSR command register until the reset bit clears.
    fn wait_reset_clear(&mut self) -> (r: Result<(), EscError>)
        requires
            old(self).wf(),
        ensures
            final(self).wf(),
            final(self).model().latency == old(self).model().latency,
            final(self).model().byte_test == old(self).model().byte_test,
            final(self).al_event == old(self).al_event,
            r is Ok ==> final(self).model() == (EscModel {
                csr_busy: final(self).model().csr_busy,
                reset_busy: 0,
                ..old(self).model()
            }),
            r == Err::<(), EscError>(EscError::Unresponsive) ==> old(self).model().reset_busy
                >= POLL_LIMIT as nat,
            r is Ok || r == Err::<(), EscError>(EscError::Unresponsive) || r == Err::<(
            ), EscError>(EscError::Bus),
    {
        let mut i: u32 = 0;
        loop
            invariant
                self.wf(),
                self.model() == (EscModel {
                    csr_busy: self.model().csr_busy,
                    reset_busy: self.model().reset_busy,
                    ..old(self).model()
                }),
                self.al_event == old(self).al_event,
                i <= POLL_LIMIT,
                self.model().reset_busy + i == old(self).model().reset_busy,
            decreases POLL_LIMIT - i,
        {
            if i >= POLL_LIMIT {
                return Err(EscError::Unresponsive);
            }
            let ghost pre = self.model();
            let v = match self.port.read_reg(ESC_CSR_CMD_REG) {
                Ok(v) => v,
                Err(_) => {
                    return Err(EscError::Bus);
                },
            };
            proof {
                lemma_csr_status_bits(v, pre.csr_busy > 0, pre.reset_busy > 0);
            }
            if v & ESC_RESET_CTRL_RST == 0 {
                return Ok(());
            }
            i = i + 1;
        }
    }

    /// One CSR write of `len` bytes taken from `buf` at `off`: payload into
    /// the data register, command issue, busy wait.
    fn write_csr_at(&mut self, address: u16, buf: &Vec<u8>, off: usize, len: usize) -> (r: Result<
        (),
        EscError,
    >)
        requires
            old(self).wf(),
            len == 1 || len == 2 || len == 4,
            off + len <= buf@.len(),
            address as int % len as int == 0,
            address + len <= ESC_CSR_SIZE,
        ensures
            final(self).wf(),
            final(self).model().latency == old(self).model().latency,
            final(self).model().byte_test == old(self).model().byte_test,
            final(self).al_event == old(self).al_event,
            r is Ok ==> final(self).model().mem == update_range(
                old(self).model().mem,
                address as int,
                buf@.subrange(off as int, off as int + len as int),
            ),
            r == Err::<(), EscError>(EscError::Unresponsive) ==> old(self).model().latency
                >= POLL_LIMIT as nat,
            r is Ok || r == Err::<(), EscError>(EscError::Unresponsive) || r == Err::<(
            ), EscError>(EscError::Bus),
    {
        let blen = buf.len();
        // pack the payload little-endian into the data register word
        let b0 = buf[off];
        let b1 = if len >= 2 {
            buf[off + 1]
        } else {
            0
        };
        let b2 = if len >= 4 {
            buf[off + 2]
        } else {
            0
        };
        let b3 = if len >= 4 {
            buf[off + 3]
        } else {
            0
        };
        let value = pack_word(b0, b1, b2, b3);
        match self.port.write_reg(ESC_CSR_DATA_REG, value) {
            Ok(()) => {},
            Err(_) => {
                return Err(EscError::Bus);
            },
        }
        // issue WRITE | size code | address
        let code: u32 = if len == 1 {
            0
        } else if len == 2 {
            1
        } else {
            2
        };
        let cmd = ESC_CSR_CMD_WRITE | (code << 16u32) | (address as u32);
        proof {
            let a = address as u32;
            let c = code;
            assert((a < 0x1000 && c <= 2) ==> ((0x8000_0000u32 | (c << 16u32) | a) % 0x10000 == a
                && ((0x8000_0000u32 | (c << 16u32) | a) / 0x10000) % 4 == c && ((0x8000_0000u32 | (
            c << 16u32) | a) / 0x4000_0000) % 2 == 0 && (0x8000_0000u32 | (c << 16u32) | a)
                / 0x8000_0000 == 1)) by (bit_vector);
        }
        let ghost pre = self.model();
        match self.port.write_reg(ESC_CSR_CMD_REG, cmd) {
            Ok(()) => {},
            Err(_) => {
                return Err(EscError::Bus);
            },
        }
        proof {
            lemma_word_byte_of_bytes(b0, b1, b2, b3);
            assert_seqs_equal!(
                le_bytes(value, len as int)
                    == buf@.subrange(off as int, off as int + len as int)
            );
        }
        self.wait_csr_idle()
    }

    /// One CSR read of `len` bytes into `buf` at `off`: command issue, busy
    /// wait, data register fetch.
    fn read_csr_at(&mut self, address: u16, buf: &mut Vec<u8>, off: usize, len: usize) -> (r:
        Result<(), EscError>)
        requires
            old(self).wf(),
            len == 1 || len == 2 || len == 4,
            off + len <= old(buf)@.len(),
            address as int % len as int == 0,
            address + len <= ESC_CSR_SIZE,
        ensures
            final(self).wf(),
            final(self).model().latency == old(self).model().latency,
            final(self).model().byte_test == old(self).model().byte_test,
            final(self).al_event == old(self).al_event,
            final(buf)@.len() == old(buf)@.len(),
            r is Ok ==> final(self).model().mem == old(self).model().mem && final(buf)@
                == update_range(
                old(buf)@,
                off as int,
                read_range(old(self).model().mem, address as int, len as int),
            ),
            !(r is Ok) ==> final(buf)@ == old(buf)@,
            r == Err::<(), EscError>(EscError::Unresponsive) ==> old(self).model().latency
                >= POLL_LIMIT as nat,
            r is Ok || r == Err::<(), EscError>(EscError::Unresponsive) || r == Err::<(
            ), EscError>(EscError::Bus),
    {
        let blen = buf.len();
        // issue READ | size code | address
        let code: u32 = if len == 1 {
            0
        } else if len == 2 {
            1
        } else {
            2
        };
        let cmd = ESC_CSR_CMD_READ | (code << 16u32) | (address as u32);
        proof {
            let a = address as u32;
            let c = code;
            assert((a < 0x1000 && c <= 2) ==> ((0xC000_0000u32 | (c << 16u32) | a) % 0x10000 == a
                && ((0xC000_0000u32 | (c << 16u32) | a) / 0x10000) % 4 == c && ((0xC000_0000u32 | (
            c << 16u32) | a) / 0x4000_0000) % 2 == 1 && (0xC000_0000u32 | (c << 16u32) | a)
                / 0x8000_0000 == 1)) by (bit_vector);
        }
        let ghost m0 = self.model();
        match self.port.write_reg(ESC_CSR_CMD_REG, cmd) {
            Ok(()) => {},
            Err(_) => {
                return Err(EscError::Bus);
            },
        }
        match self.wait_csr_idle() {
            Ok(()) => {},
            Err(e) => {
                return Err(e);
            },
        }
        let v = match self.port.read_reg(ESC_CSR_DATA_REG) {
            Ok(v) => v,
            Err(_) => {
                return Err(EscError::Bus);
            },
        };
        proof {
            assert(v == csr_read_value(m0.mem, address as int, len as int));
            lemma_word_byte_of_bytes(
                m0.mem[address as int],
                if len >= 2 {
                    m0.mem[address as int + 1]
                } else {
                    0
                },
                if len >= 4 {
                    m0.mem[address as int + 2]
                } else {
                    0
                },
                if len >= 4 {
                    m0.mem[address as int + 3]
                } else {
                    0
                },
            );
        }
        // copy the low `len` byte lanes into the caller's buffer
        let mut q: usize = 0;
        while q < len
            invariant
                q <= len,
                len == 1 || len == 2 || len == 4,
                off + len <= blen,
                blen == old(buf)@.len(),
                buf@.len() == old(buf)@.len(),
                m0.mem.len() == ESC_MEM_SIZE,
                address + len <= ESC_CSR_SIZE,
                forall|j: int|
                    0 <= j < q ==> #[trigger] buf@[off + j] == m0.mem[address as int + j],
                forall|j: int|
                    0 <= j < buf@.len() && !(off <= j < off + q) ==> #[trigger] buf@[j] == old(
                        buf,
                    )@[j],
                forall|j: int|
                    0 <= j < len ==> spec_word_byte(v, j) == m0.mem[address as int + j],
            decreases len - q,
        {
            let b = word_byte(v, q);
            buf[off + q] = b;
            q = q + 1;
        }
        proof {
            assert_seqs_equal!(
                buf@ == update_range(
                    old(buf)@,
                    off as int,
                    read_range(m0.mem, address as int, len as int),
                ),
                i => {
                    if off <= i < off + len {
                        let j = i - off;
                        assert(buf@[off + j] == m0.mem[address as int + j]);
                    }
                }
            );
        }
        Ok(())
    }

    /// Refreshes the AL-event mirror from the AL-event status register.
    fn update_AlEvent(&mut self) -> (r: Result<(), EscError>)
        requires
            old(self).wf(),
        ensures
            final(self).wf(),
            final(self).model().latency == old(self).model().latency,
            final(self).model().byte_test == old(self).model().byte_test,
            r is Ok ==> final(self).model().mem == old(self).model().mem && final(self).al_event
                == al_event_of(old(self).model().mem),
            !(r is Ok) ==> final(self).al_event == old(self).al_event,
            r == Err::<(), EscError>(EscError::Unresponsive) ==> old(self).model().latency
                >= POLL_LIMIT as nat,
            r is Ok || r == Err::<(), EscError>(EscError::Unresponsive) || r == Err::<(
            ), EscError>(EscError::Bus),
    {
        let mut tmp: Vec<u8> = Vec::new();
        tmp.push(0);
        tmp.push(0);
        match self.read_csr_at(ESCREG_ALEVENT, &mut tmp, 0, 2) {
            Ok(()) => {},
            Err(e) => {
                return Err(e);
            },
        }
        self.al_event = (tmp[0] as u16) + (tmp[1] as u16) * 0x100;
        Ok(())
    }

    /// Polls the PRAM-write command register until its busy bit clears.
    fn wait_wr_idle(&mut self) -> (r: Result<(), EscError>)
        requires
            old(self).wf(),
        ensures
            final(self).wf(),
            final(self).model().latency == old(self).model().latency,
            final(self).model().byte_test == old(self).model().byte_test,
            final(self).al_event == old(self).al_event,
            r is Ok ==> final(self).model() == (EscModel {
                wr_busy: 0,
                wr_wait: final(self).model().wr_wait,
                ..old(self).model()
            }),
            r == Err::<(), EscError>(EscError::Unresponsive) ==> old(self).model().wr_busy
                >= POLL_LIMIT as nat,
            r is Ok || r == Err::<(), EscError>(EscError::Unresponsive) || r == Err::<(
            ), EscError>(EscError::Bus),
    {
        let mut i: u32 = 0;
        loop
            invariant
                self.wf(),
                self.model() == (EscModel {
                    wr_busy: self.model().wr_busy,
                    wr_wait: self.model().wr_wait,
                    ..old(self).model()
                }),
                self.al_event == old(self).al_event,
                i <= POLL_LIMIT,
                self.model().wr_busy + i == old(self).model().wr_busy,
            decreases POLL_LIMIT - i,
        {
            if i >= POLL_LIMIT {
                return Err(EscError::Unresponsive);
            }
            let ghost pre = self.model();
            let v = match self.port.read_reg(ESC_PRAM_WR_CMD_REG) {
                Ok(v) => v,
                Err(_) => {
                    return Err(EscError::Bus);
                },
            };
            proof {
                let slots: int = ((pre.wr_left + 3) / 4) as int;
                let cnt: int = if slots <= 0x1F {
                    slots
                } else {
                    0x1F
                };
                lemma_cmd_bits(v, pre.wr_busy > 0, pre.wr_active && pre.wr_wait == 0, cnt as u32);
            }
            if v & ESC_PRAM_CMD_BUSY == 0 {
                return Ok(());
            }
            i = i + 1;
        }
    }

    /// Polls the PRAM-write command register until FIFO-available, returning
    /// the reported free-depth count.
    fn wait_wr_avail(&mut self) -> (r: Result<u32, EscError>)
        requires
            old(self).wf(),
            old(self).model().wr_active,
        ensures
            final(self).wf(),
            final(self).model().latency == old(self).model().latency,
            final(self).model().byte_test == old(self).model().byte_test,
            final(self).al_event == old(self).al_event,
            r is Ok ==> final(self).model() == (EscModel {
                wr_busy: final(self).model().wr_busy,
                wr_wait: 0,
                ..old(self).model()
            }),
            r == Err::<u32, EscError>(EscError::Unresponsive) ==> old(self).model().wr_wait
                >= POLL_LIMIT as nat,
            r is Ok || r == Err::<u32, EscError>(EscError::Unresponsive) || r == Err::<
                u32,
                EscError,
            >(EscError::Bus),
    {
        let mut i: u32 = 0;
        loop
            invariant
                self.wf(),
                self.model() == (EscModel {
                    wr_busy: self.model().wr_busy,
                    wr_wait: self.model().wr_wait,
                    ..old(self).model()
                }),
                self.al_event == old(self).al_event,
                i <= POLL_LIMIT,
                old(self).model().wr_active,
                self.model().wr_wait + i == old(self).model().wr_wait,
            decreases POLL_LIMIT - i,
        {
            if i >= POLL_LIMIT {
                return Err(EscError::Unresponsive);
            }
            let ghost pre = self.model();
            let v = match self.port.read_reg(ESC_PRAM_WR_CMD_REG) {
                Ok(v) => v,
                Err(_) => {
                    return Err(EscError::Bus);
                },
            };
            proof {
                let slots: int = ((pre.wr_left + 3) / 4) as int;
                let cnt: int = if slots <= 0x1F {
                    slots
                } else {
                    0x1F
                };
                lemma_cmd_bits(v, pre.wr_busy > 0, pre.wr_active && pre.wr_wait == 0, cnt as u32);
            }
            if v & ESC_PRAM_CMD_AVAIL != 0 {
                return Ok(ESC_PRAM_CMD_CNT(v));
            }
            i = i + 1;
        }
    }

    /// Polls the PRAM-read command register until its busy bit clears.
    fn wait_rd_idle(&mut self) -> (r: Result<(), EscError>)
        requires
            old(self).wf(),
        ensures
            final(self).wf(),
            final(self).model().latency == old(self).model().latency,
            final(self).model().byte_test == old(self).model().byte_test,
            final(self).al_event == old(self).al_event,
            r is Ok ==> final(self).model() == (EscModel {
                rd_busy: 0,
                rd_wait: final(self).model().rd_wait,
                ..old(self).model()
            }),
            r == Err::<(), EscError>(EscError::Unresponsive) ==> old(self).model().rd_busy
                >= POLL_LIMIT as nat,
            r is Ok || r == Err::<(), EscError>(EscError::Unresponsive) || r == Err::<(
            ), EscError>(EscError::Bus),
    {
        let mut i: u32 = 0;
        loop
            invariant
                self.wf(),
                self.model() == (EscModel {
                    rd_busy: self.model().rd_busy,
                    rd_wait: self.model().rd_wait,
                    ..old(self).model()
                }),
                self.al_event == old(self).al_event,
                i <= POLL_LIMIT,
                self.model().rd_busy + i == old(self).model().rd_busy,
            decreases POLL_LIMIT - i,
        {
            if i >= POLL_LIMIT {
                return Err(EscError::Unresponsive);
            }
            let ghost pre = self.model();
            let v = match self.port.read_reg(ESC_PRAM_RD_CMD_REG) {
                Ok(v) => v,
                Err(_) => {
                    return Err(EscError::Bus);
                },
            };
            proof {
                let cnt: int = if pre.rd_fifo.len() <= 0x1F {
                    pre.rd_fifo.len() as int
                } else {
                    0x1F
                };
                lemma_cmd_bits(v, pre.rd_busy > 0, pre.rd_active && pre.rd_wait == 0, cnt as u32);
            }
            if v & ESC_PRAM_CMD_BUSY == 0 {
                return Ok(());
            }
            i = i + 1;
        }
    }

    /// Polls the PRAM-read command register until FIFO-available, returning
    /// the reported depth count.
    fn wait_rd_avail(&mut self) -> (r: Result<u32, EscError>)
        requires
            old(self).wf(),
            old(self).model().rd_active,
        ensures
            final(self).wf(),
            final(self).model().latency == old(self).model().latency,
            final(self).model().byte_test == old(self).model().byte_test,
            final(self).al_event == old(self).al_event,
            r is Ok ==> final(self).model() == (EscModel {
                rd_busy: final(self).model().rd_busy,
                rd_wait: 0,
                ..old(self).model()
            }),
            r == Err::<u32, EscError>(EscError::Unresponsive) ==> old(self).model().rd_wait
                >= POLL_LIMIT as nat,
            r is Ok || r == Err::<u32, EscError>(EscError::Unresponsive) || r == Err::<
                u32,
                EscError,
            >(EscError::Bus),
    {
        let mut i: u32 = 0;
        loop
            invariant
                self.wf(),
                self.model() == (EscModel {
                    rd_busy: self.model().rd_busy,
                    rd_wait: self.model().rd_wait,
                    ..old(self).model()
                }),
                self.al_event == old(self).al_event,
                i <= POLL_LIMIT,
                old(self).model().rd_active,
                self.model().rd_wait + i == old(self).model().rd_wait,
            decreases POLL_LIMIT - i,
        {
            if i >= POLL_LIMIT {
                return Err(EscError::Unresponsive);
            }
            let ghost pre = self.model();
            let v = match self.port.read_reg(ESC_PRAM_RD_CMD_REG) {
                Ok(v) => v,
                Err(_) => {
                    return Err(EscError::Bus);
                },
            };
            proof {
                let cnt: int = if pre.rd_fifo.len() <= 0x1F {
                    pre.rd_fifo.len() as int
                } else {
                    0x1F
                };
                lemma_cmd_bits(v, pre.rd_busy > 0, pre.rd_active && pre.rd_wait == 0, cnt as u32);
            }
            if v & ESC_PRAM_CMD_AVAIL != 0 {
                return Ok(ESC_PRAM_CMD_CNT(v));
            }
            i = i + 1;
        }
    }

    /// Bulk write into process RAM through the write FIFO: abort for a
    /// clean start, program address and length, start, wait for the FIFO,
    /// push the lane-shifted first word, then stream the rest in one
    /// continuous framed transaction.
    #[verifier::rlimit(100)]
    pub fn write_bulk(&mut self, address: u16, buf: &Vec<u8>) -> (r: Result<(), EscError>)
        requires
            old(self).wf(),
            ESC_CSR_SIZE <= address,
            1 <= buf@.len(),
            address + buf@.len() <= ESC_MEM_SIZE,
        ensures
            final(self).wf(),
            final(self).model().latency == old(self).model().latency,
            final(self).model().byte_test == old(self).model().byte_test,
            final(self).al_event == old(self).al_event,
            r is Ok ==> final(self).model().mem == update_range(
                old(self).model().mem,
                address as int,
                buf@,
            ) && final(self).model().wr_log == old(self).model().wr_log + pram_words(
                address as int,
                buf@,
            ),
            r == Err::<(), EscError>(EscError::Unresponsive) ==> old(self).model().latency
                >= POLL_LIMIT as nat,
            r is Ok || r == Err::<(), EscError>(EscError::Unresponsive) || r == Err::<(
            ), EscError>(EscError::Bus),
    {
        let len = buf.len();
        // abort any ongoing write transfer: clean start whatever came before
        match self.port.write_reg(ESC_PRAM_WR_CMD_REG, ESC_PRAM_CMD_ABORT) {
            Ok(()) => {},
            Err(_) => {
                return Err(EscError::Bus);
            },
        }
        match self.wait_wr_idle() {
            Ok(()) => {},
            Err(e) => {
                return Err(e);
            },
        }
        // program address and length, then start the transfer
        let cfg = ESC_PRAM_SIZE(len as u32) | ESC_PRAM_ADDR(address as u32);
        proof {
            let l = len as u32;
            let a = address as u32;
            assert((l <= 0x2000 && a < 0x2000) ==> (((l << 16u32) | a) % 0x10000 == a && ((l
                << 16u32) | a) / 0x10000 == l)) by (bit_vector);
        }
        match self.port.write_reg(ESC_PRAM_WR_ADDR_LEN_REG, cfg) {
            Ok(()) => {},
            Err(_) => {
                return Err(EscError::Bus);
            },
        }
        match self.port.write_reg(ESC_PRAM_WR_CMD_REG, ESC_PRAM_CMD_BUSY) {
            Ok(()) => {},
            Err(_) => {
                return Err(EscError::Bus);
            },
        }
        // the transfer loop below is bound by the requested length; the
        // depth count the device reports is informational only
        let _fifo_cnt = match self.wait_wr_avail() {
            Ok(c) => c,
            Err(e) => {
                return Err(e);
            },
        };
        // first word: payload shifted to the byte lanes at address % 4
        let fbp = (address & 0x03) as usize;
        proof {
            let a = address;
            assert((a & 0x03) == a % 4) by (bit_vector);
        }
        let t = if 4 - fbp <= len {
            4 - fbp
        } else {
            len
        };
        let x0 = if fbp == 0 {
            buf[0]
        } else {
            0
        };
        let x1 = if fbp <= 1 && 1 < fbp + t {
            buf[1 - fbp]
        } else {
            0
        };
        let x2 = if fbp <= 2 && 2 < fbp + t {
            buf[2 - fbp]
        } else {
            0
        };
        let x3 = if fbp <= 3 && 3 < fbp + t {
            buf[3 - fbp]
        } else {
            0
        };
        let w0 = pack_word(x0, x1, x2, x3);
        proof {
            assert(lane_byte(buf@.take(t as int), fbp as int, 0) == x0);
            assert(lane_byte(buf@.take(t as int), fbp as int, 1) == x1);
            assert(lane_byte(buf@.take(t as int), fbp as int, 2) == x2);
            assert(lane_byte(buf@.take(t as int), fbp as int, 3) == x3);
            assert(w0 == lane_word(buf@.take(t as int), fbp as int));
        }
        let ghost m1 = self.model();
        match self.port.write_reg(ESC_PRAM_WR_FIFO_REG, w0) {
            Ok(()) => {},
            Err(_) => {
                return Err(EscError::Bus);
            },
        }
        proof {
            lemma_push_lane_word(m1, buf@.take(t as int), fbp as int);
        }
        // stream the remaining payload as whole little-endian words
        let mut words: Vec<u32> = Vec::new();
        let mut off: usize = t;
        while off < len
            invariant
                t <= off <= len,
                len == buf@.len(),
                len <= 0x1000,
                pram_tail_words(buf@.skip(t as int)) == words@ + pram_tail_words(
                    buf@.skip(off as int),
                ),
            decreases len - off,
        {
            let c0 = buf[off];
            let c1 = if off + 1 < len {
                buf[off + 1]
            } else {
                0
            };
            let c2 = if off + 2 < len {
                buf[off + 2]
            } else {
                0
            };
            let c3 = if off + 3 < len {
                buf[off + 3]
            } else {
                0
            };
            let w = pack_word(c0, c1, c2, c3);
            let step = if len - off < 4 {
                len - off
            } else {
                4
            };
            proof {
                let d = buf@.skip(off as int);
                assert(lane_byte(d.take(step as int), 0, 0) == c0);
                assert(lane_byte(d.take(step as int), 0, 1) == c1);
                assert(lane_byte(d.take(step as int), 0, 2) == c2);
                assert(lane_byte(d.take(step as int), 0, 3) == c3);
                assert(w == lane_word(d.take(step as int), 0));
                assert(d.skip(step as int) =~= buf@.skip(off as int + step as int));
                assert(pram_tail_words(d) == seq![w] + pram_tail_words(
                    buf@.skip(off as int + step as int),
                ));
                assert(words@.push(w) =~= words@ + seq![w]);
                assert((words@ + seq![w]) + pram_tail_words(buf@.skip(off as int + step as int))
                    =~= words@ + (seq![w] + pram_tail_words(buf@.skip(off as int + step as int))));
            }
            words.push(w);
            off = off + step;
        }
        proof {
            assert(buf@.skip(len as int) =~= Seq::<u8>::empty());
            assert(pram_tail_words(Seq::<u8>::empty()) =~= Seq::<u32>::empty());
            assert(words@ + Seq::<u32>::empty() =~= words@);
            assert(words@ == pram_tail_words(buf@.skip(t as int)));
        }
        let ghost m2 = self.model();
        proof {
            assert(buf@.skip(t as int).len() > 0 ==> m2.wr_addr % 4 == 0) by {
                if t < len {
                    assert((address as int + t as int) % 4 == 0) by (nonlinear_arith)
                        requires
                            address as int % 4 == fbp as int,
                            t == 4 - fbp,
                            0 <= fbp < 4,
                    ;
                }
            }
            lemma_stream_tail(m2, buf@.skip(t as int));
        }
        match self.port.write_burst(ESC_PRAM_WR_FIFO_REG, &words) {
            Ok(()) => {},
            Err(_) => {
                return Err(EscError::Bus);
            },
        }
        proof {
            lemma_update_range_concat(
                m1.mem,
                address as int,
                buf@.take(t as int),
                buf@.skip(t as int),
            );
            assert(buf@.take(t as int) + buf@.skip(t as int) =~= buf@);
            assert(m1.wr_log.push(w0) + pram_tail_words(buf@.skip(t as int)) =~= m1.wr_log + (
            seq![w0] + pram_tail_words(buf@.skip(t as int))));
            assert(pram_words(address as int, buf@) == seq![w0] + pram_tail_words(
                buf@.skip(t as int),
            ));
        }
        Ok(())
    }

    /// Bulk read from process RAM through the read FIFO: abort for a clean
    /// start, program address and length, start, wait for the FIFO, pop the
    /// lane-shifted first word, then take the rest in one continuous framed
    /// transaction.
    #[verifier::rlimit(100)]
    pub fn read_bulk(&mut self, address: u16, buf: &mut Vec<u8>) -> (r: Result<(), EscError>)
        requires
            old(self).wf(),
            ESC_CSR_SIZE <= address,
            1 <= old(buf)@.len(),
            address + old(buf)@.len() <= ESC_MEM_SIZE,
        ensures
            final(self).wf(),
            final(self).model().latency == old(self).model().latency,
            final(self).model().byte_test == old(self).model().byte_test,
            final(self).al_event == old(self).al_event,
            final(buf)@.len() == old(buf)@.len(),
            r is Ok ==> final(self).model().mem == old(self).model().mem && final(buf)@
                == read_range(old(self).model().mem, address as int, old(buf)@.len() as int),
            r == Err::<(), EscError>(EscError::Unresponsive) ==> old(self).model().latency
                >= POLL_LIMIT as nat,
            r is Ok || r == Err::<(), EscError>(EscError::Unresponsive) || r == Err::<(
            ), EscError>(EscError::Bus),
    {
        let len = buf.len();
        // abort any ongoing read transfer: clean start whatever came before
        match self.port.write_reg(ESC_PRAM_RD_CMD_REG, ESC_PRAM_CMD_ABORT) {
            Ok(()) => {},
            Err(_) => {
                return Err(EscError::Bus);
            },
        }
        match self.wait_rd_idle() {
            Ok(()) => {},
            Err(e) => {
                return Err(e);
            },
        }
        // program address and length, then start the transfer
        let cfg = ESC_PRAM_SIZE(len as u32) | ESC_PRAM_ADDR(address as u32);
        proof {
            let l = len as u32;
            let a = address as u32;
            assert((l <= 0x2000 && a < 0x2000) ==> (((l << 16u32) | a) % 0x10000 == a && ((l
                << 16u32) | a) / 0x10000 == l)) by (bit_vector);
        }
        match self.port.write_reg(ESC_PRAM_RD_ADDR_LEN_REG, cfg) {
            Ok(()) => {},
            Err(_) => {
                return Err(EscError::Bus);
            },
        }
        match self.port.write_reg(ESC_PRAM_RD_CMD_REG, ESC_PRAM_CMD_BUSY) {
            Ok(()) => {},
            Err(_) => {
                return Err(EscError::Bus);
            },
        }
        // the transfer loop below is bound by the requested length; the
        // depth count the device reports is informational only
        let _fifo_cnt = match self.wait_rd_avail() {
            Ok(c) => c,
            Err(e) => {
                return Err(e);
            },
        };
        let fbp = (address & 0x03) as usize;
        proof {
            let a = address;
            assert((a & 0x03) == a % 4) by (bit_vector);
        }
        let t = if 4 - fbp <= len {
            4 - fbp
        } else {
            len
        };
        let ghost m0 = self.model();
        let ghost base = address as int - fbp as int;
        let ghost fifo = m0.rd_fifo;
        proof {
            assert(fifo == fifo_words(m0.mem, address as int, len as int));
            assert(fifo.len() == (fbp + len + 3) / 4);
            assert(4 <= fbp + len + 3 <= 0x2003);
            assert(fifo.len() >= 1);
        }
        // pop the first word and take its bytes from lane `fbp` up
        let w0 = match self.port.read_reg(ESC_PRAM_RD_FIFO_REG) {
            Ok(v) => v,
            Err(_) => {
                return Err(EscError::Bus);
            },
        };
        proof {
            assert(w0 == le_word_at(m0.mem, base));
            lemma_word_byte_of_bytes(
                m0.mem[base],
                m0.mem[base + 1],
                m0.mem[base + 2],
                m0.mem[base + 3],
            );
        }
        let mut q: usize = 0;
        while q < t
            invariant
                q <= t,
                fbp < 4,
                fbp + t <= 4,
                t <= len,
                len == old(buf)@.len(),
                buf@.len() == len,
                base == address as int - fbp as int,
                forall|j: int| 0 <= j < 4 ==> #[trigger] spec_word_byte(w0, j) == m0.mem[base + j],
                forall|j: int| 0 <= j < q ==> #[trigger] buf@[j] == m0.mem[address as int + j],
            decreases t - q,
        {
            let b = word_byte(w0, fbp + q);
            buf[q] = b;
            q = q + 1;
        }
        // take the remaining words in one continuous transaction
        let nw = (len - t) / 4 + if (len - t) % 4 != 0 {
            1
        } else {
            0
        };
        proof {
            assert(4 * ((len - t) as int / 4) + (len - t) as int % 4 == (len - t) as int);
            if len > t {
                assert(t == 4 - fbp);
                assert(fifo.len() - 1 == (fbp + len + 3) / 4 - 1);
                assert((fbp + len + 3) / 4 - 1 == (fbp + len - 1) / 4) by (nonlinear_arith)
                    requires
                        0 <= fbp + len - 1,
                ;
                assert(nw == ((len - t) + 3) / 4) by (nonlinear_arith)
                    requires
                        nw == (len - t) as int / 4 + (if (len - t) as int % 4 != 0 {
                            1int
                        } else {
                            0int
                        }),
                        0 <= (len - t) as int,
                ;
                assert((fbp + len - 1) == (len - t) + 3);
            } else {
                assert(t == len);
                assert(nw == 0);
                assert(fbp + len <= 4);
                assert(fifo.len() == 1);
            }
            assert(nw == fifo.len() - 1);
        }
        let ws = match self.port.read_burst(ESC_PRAM_RD_FIFO_REG, nw) {
            Ok(v) => v,
            Err(_) => {
                return Err(EscError::Bus);
            },
        };
        proof {
            assert(ws@ =~= fifo.skip(1));
            assert(forall|j: int|
                0 <= j < nw ==> #[trigger] ws@[j] == le_word_at(m0.mem, base + 4 * (j + 1)));
            assert(4 * nw >= len - t) by (nonlinear_arith)
                requires
                    nw == ((len - t) as int + 3) / 4 || ((len - t) as int == 0 && nw == 0),
                    0 <= (len - t) as int,
            ;
        }
        let mut k: usize = t;
        while k < len
            invariant
                t <= k <= len,
                fbp < 4,
                t <= 4,
                len > t ==> fbp + t == 4,
                1 <= len <= 0x1000,
                len == old(buf)@.len(),
                buf@.len() == len,
                base == address as int - fbp as int,
                ws@.len() == nw,
                4 * nw >= len - t,
                forall|j: int|
                    0 <= j < nw ==> #[trigger] ws@[j] == le_word_at(m0.mem, base + 4 * (j + 1)),
                forall|i: int| 0 <= i < k ==> #[trigger] buf@[i] == m0.mem[address as int + i],
            decreases len - k,
        {
            let idx = (k - t) / 4;
            let lane = (k - t) % 4;
            proof {
                assert(4 * ((k - t) as int / 4) + (k - t) as int % 4 == (k - t) as int);
                assert((k - t) as int / 4 < nw) by (nonlinear_arith)
                    requires
                        ((k - t) as int) < 4 * nw,
                        0 <= (k - t) as int,
                ;
                let a = base + 4 * (idx + 1);
                lemma_word_byte_of_bytes(
                    m0.mem[a],
                    m0.mem[a + 1],
                    m0.mem[a + 2],
                    m0.mem[a + 3],
                );
                assert(a + lane == address as int + k);
            }
            let b = word_byte(ws[idx], lane);
            buf[k] = b;
            k = k + 1;
        }
        proof {
            assert_seqs_equal!(
                buf@ == read_range(m0.mem, address as int, len as int)
            );
        }
        Ok(())
    }

    /// Brings the peripheral out of reset and verifies the byte-test value.
    pub fn init(&mut self) -> (r: Result<(), EscError>)
        requires
            old(self).wf(),
        ensures
            final(self).wf(),
            final(self).model().latency == old(self).model().latency,
            final(self).model().byte_test == old(self).model().byte_test,
            final(self).al_event == old(self).al_event,
            r is Ok ==> final(self).model().mem == old(self).model().mem && old(
                self,
            ).model().byte_test == BYTE_TEST_VALUE,
            r == Err::<(), EscError>(EscError::SelfTest) ==> old(self).model().byte_test
                != BYTE_TEST_VALUE,
            r == Err::<(), EscError>(EscError::Unresponsive) ==> old(self).model().latency
                >= POLL_LIMIT as nat,
            r is Ok || r == Err::<(), EscError>(EscError::SelfTest) || r == Err::<(
            ), EscError>(EscError::Unresponsive) || r == Err::<(), EscError>(EscError::Bus),
    {
        match self.port.write_reg(ESC_RESET_CTRL_REG, ESC_RESET_CTRL_RST) {
            Ok(()) => {},
            Err(_) => {
                return Err(EscError::Bus);
            },
        }
        match self.wait_reset_clear() {
            Ok(()) => {},
            Err(e) => {
                return Err(e);
            },
        }
        let v = match self.port.read_reg(LAN9252_BYTE_TEST) {
            Ok(v) => v,
            Err(_) => {
                return Err(EscError::Bus);
            },
        };
        if v != BYTE_TEST_VALUE {
            return Err(EscError::SelfTest);
        }
        Ok(())
    }

    /// Deliberate no-op: the peripheral is reset through `init`.
    pub fn reset(&mut self)
        ensures
            *final(self) == *old(self),
    {
    }

    /// One Control/Status Register write. A width other than 1, 2 or 4
    /// bytes is a caller error and is rejected before any bus traffic; the
    /// access must be naturally aligned and lie inside CSR space.
    pub fn write_register(&mut self, address: u16, buf: &Vec<u8>) -> (r: Result<(), EscError>)
        requires
            old(self).wf(),
            (buf@.len() == 1 || buf@.len() == 2 || buf@.len() == 4) ==> (address as int % (
            buf@.len() as int) == 0 && address + buf@.len() <= ESC_CSR_SIZE),
        ensures
            final(self).wf(),
            final(self).model().latency == old(self).model().latency,
            final(self).model().byte_test == old(self).model().byte_test,
            final(self).al_event == old(self).al_event,
            r == Err::<(), EscError>(EscError::InvalidLength) <==> !(buf@.len() == 1 || buf@.len()
                == 2 || buf@.len() == 4),
            r == Err::<(), EscError>(EscError::InvalidLength) ==> *final(self) == *old(self),
            r is Ok ==> final(self).model().mem == update_range(
                old(self).model().mem,
                address as int,
                buf@,
            ),
            r == Err::<(), EscError>(EscError::Unresponsive) ==> old(self).model().latency
                >= POLL_LIMIT as nat,
            r is Ok || r == Err::<(), EscError>(EscError::InvalidLength) || r == Err::<(
            ), EscError>(EscError::Unresponsive) || r == Err::<(), EscError>(EscError::Bus),
    {
        let len = buf.len();
        if !(len == 1 || len == 2 || len == 4) {
            return Err(EscError::InvalidLength);
        }
        let r = self.write_csr_at(address, buf, 0, len);
        proof {
            assert(buf@.subrange(0, len as int) =~= buf@);
        }
        r
    }

    /// One Control/Status Register read filling the whole buffer. A width
    /// other than 1, 2 or 4 bytes is rejected before any bus traffic; the
    /// access must be naturally aligned and lie inside CSR space.
    pub fn read_register(&mut self, address: u16, buf: &mut Vec<u8>) -> (r: Result<(), EscError>)
        requires
            old(self).wf(),
            (old(buf)@.len() == 1 || old(buf)@.len() == 2 || old(buf)@.len() == 4) ==> (
            address as int % (old(buf)@.len() as int) == 0 && address + old(buf)@.len()
                <= ESC_CSR_SIZE),
        ensures
            final(self).wf(),
            final(self).model().latency == old(self).model().latency,
            final(self).model().byte_test == old(self).model().byte_test,
            final(self).al_event == old(self).al_event,
            final(buf)@.len() == old(buf)@.len(),
            r == Err::<(), EscError>(EscError::InvalidLength) <==> !(old(buf)@.len() == 1 || old(
                buf,
            )@.len() == 2 || old(buf)@.len() == 4),
            r is Ok ==> final(self).model().mem == old(self).model().mem && final(buf)@
                == read_range(old(self).model().mem, address as int, old(buf)@.len() as int),
            !(r is Ok) ==> final(buf)@ == old(buf)@,
            r == Err::<(), EscError>(EscError::Unresponsive) ==> old(self).model().latency
                >= POLL_LIMIT as nat,
            r is Ok || r == Err::<(), EscError>(EscError::InvalidLength) || r == Err::<(
            ), EscError>(EscError::Unresponsive) || r == Err::<(), EscError>(EscError::Bus),
    {
        let len = buf.len();
        if !(len == 1 || len == 2 || len == 4) {
            return Err(EscError::InvalidLength);
        }
        let ghost m0 = self.model();
        let r = self.read_csr_at(address, buf, 0, len);
        proof {
            if r is Ok {
                assert(buf@ =~= read_range(m0.mem, address as int, len as int));
            }
        }
        r
    }

    /// Stores `buf` into ESC memory at `address`: whole-buffer PRAM write
    /// above the CSR boundary, alignment-legal CSR chunks below it; then
    /// refreshes the AL-event mirror.
    pub fn write(&mut self, address: u16, buf: &Vec<u8>) -> (r: Result<(), EscError>)
        requires
            old(self).wf(),
            valid_access(address, buf@.len()),
        ensures
            final(self).wf(),
            final(self).model().latency == old(self).model().latency,
            final(self).model().byte_test == old(self).model().byte_test,
            r is Ok ==> final(self).model().mem == update_range(
                old(self).model().mem,
                address as int,
                buf@,
            ) && final(self).al_event == al_event_of(final(self).model().mem),
            r == Err::<(), EscError>(EscError::Unresponsive) ==> old(self).model().latency
                >= POLL_LIMIT as nat,
            r is Ok || r == Err::<(), EscError>(EscError::Unresponsive) || r == Err::<(
            ), EscError>(EscError::Bus),
    {
        let len = buf.len();
        if address >= ESC_CSR_SIZE as u16 {
            match self.write_bulk(address, buf) {
                Ok(()) => {},
                Err(e) => {
                    return Err(e);
                },
            }
        } else {
            let mut off: usize = 0;
            while off < len
                invariant
                    self.wf(),
                    off <= len,
                    len == buf@.len(),
                    self.model().latency == old(self).model().latency,
                    self.model().byte_test == old(self).model().byte_test,
                    self.al_event == old(self).al_event,
                    address + len <= ESC_CSR_SIZE,
                    self.model().mem == update_range(
                        old(self).model().mem,
                        address as int,
                        buf@.take(off as int),
                    ),
                    old(self).model().mem.len() == ESC_MEM_SIZE,
                decreases len - off,
            {
                let cur = address + off as u16;
                let size = csr_chunk_len(cur, len - off);
                let ghost pre = self.model();
                match self.write_csr_at(cur, buf, off, size) {
                    Ok(()) => {},
                    Err(e) => {
                        return Err(e);
                    },
                }
                proof {
                    lemma_update_range_step(
                        old(self).model().mem,
                        address as int,
                        buf@,
                        off as int,
                        size as int,
                    );
                }
                off = off + size;
            }
            proof {
                assert(buf@.take(len as int) =~= buf@);
            }
        }
        // mirror the AL-event register, as controllers that expose it on
        // every bus transaction would
        match self.update_AlEvent() {
            Ok(()) => Ok(()),
            Err(e) => Err(e),
        }
    }

    /// Fills `buf` from ESC memory at `address`: whole-buffer PRAM read
    /// above the CSR boundary, alignment-legal CSR chunks below it; then
    /// refreshes the AL-event mirror.
    pub fn read(&mut self, address: u16, buf: &mut Vec<u8>) -> (r: Result<(), EscError>)
        requires
            old(self).wf(),
            valid_access(address, old(buf)@.len()),
        ensures
            final(self).wf(),
            final(self).model().latency == old(self).model().latency,
            final(self).model().byte_test == old(self).model().byte_test,
            final(buf)@.len() == old(buf)@.len(),
            r is Ok ==> final(self).model().mem == old(self).model().mem && final(buf)@
                == read_range(old(self).model().mem, address as int, old(buf)@.len() as int)
                && final(self).al_event == al_event_of(final(self).model().mem),
            r == Err::<(), EscError>(EscError::Unresponsive) ==> old(self).model().latency
                >= POLL_LIMIT as nat,
            r is Ok || r == Err::<(), EscError>(EscError::Unresponsive) || r == Err::<(
            ), EscError>(EscError::Bus),
    {
        let len = buf.len();
        if address >= ESC_CSR_SIZE as u16 {
            match self.read_bulk(address, buf) {
                Ok(()) => {},
                Err(e) => {
                    return Err(e);
                },
            }
        } else {
            let mut off: usize = 0;
            while off < len
                invariant
                    self.wf(),
                    off <= len,
                    len == old(buf)@.len(),
                    buf@.len() == len,
                    self.model().latency == old(self).model().latency,
                    self.model().byte_test == old(self).model().byte_test,
                    self.al_event == old(self).al_event,
                    address + len <= ESC_CSR_SIZE,
                    self.model().mem == old(self).model().mem,
                    old(self).model().mem.len() == ESC_MEM_SIZE,
                    buf@.take(off as int) == read_range(
                        old(self).model().mem,
                        address as int,
                        off as int,
                    ),
                decreases len - off,
            {
                let cur = address + off as u16;
                let size = csr_chunk_len(cur, len - off);
                let ghost bpre = buf@;
                match self.read_csr_at(cur, buf, off, size) {
                    Ok(()) => {},
                    Err(e) => {
                        return Err(e);
                    },
                }
                proof {
                    assert_seqs_equal!(
                        buf@.take(off as int + size as int) == read_range(
                            old(self).model().mem,
                            address as int,
                            off as int + size as int,
                        ),
                        i => {
                            if i < off {
                                assert(buf@[i] == bpre.take(off as int)[i]);
                            } else {
                                let j = i - off;
                                assert(buf@[off + j] == old(self).model().mem[cur as int + j]);
                            }
                        }
                    );
                }
                off = off + size;
            }
            proof {
                assert(buf@.take(len as int) =~= buf@);
            }
        }
        // mirror the AL-event register, as controllers that expose it on
        // every bus transaction would
        match self.update_AlEvent() {
            Ok(()) => Ok(()),
            Err(e) => Err(e),
        }
    }
}

impl<P: EscPort> EscDriver for Lan9252<P> {
    open spec fn ready(&self) -> bool {
        self.wf()
    }

    open spec fn mem_view(&self) -> Seq<u8> {
        self.model().mem
    }

    fn init(&mut self) -> (r: Result<(), EscError>) {
        self.init()
    }

    fn reset(&mut self) {
        self.reset()
    }

    fn write(&mut self, address: u16, buf: &Vec<u8>) -> (r: Result<(), EscError>) {
        self.write(address, buf)
    }

    fn read(&mut self, address: u16, buf: &mut Vec<u8>) -> (r: Result<(), EscError>) {
        self.read(address, buf)
    }
}

} // verus!
