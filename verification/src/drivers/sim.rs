//! Simulated LAN9252 peripheral: an executable register file and memory
//! that provably takes exactly the steps of the model in `model` for every
//! port operation. The driver can be exercised against it end to end, with
//! helpers to seed memory, inspect it, and replay the words that went
//! through the write FIFO.

use vstd::prelude::*;
use vstd::assert_seqs_equal;
use crate::drivers::lan9252_cst::{
    ESC_CSR_CMD_REG, ESC_CSR_DATA_REG, ESC_PRAM_CMD_ABORT, ESC_PRAM_RD_ADDR_LEN_REG,
    ESC_PRAM_RD_CMD_REG, ESC_PRAM_RD_FIFO_REG, ESC_PRAM_WR_ADDR_LEN_REG, ESC_PRAM_WR_CMD_REG,
    ESC_PRAM_WR_FIFO_REG, ESC_RESET_CTRL_REG, LAN9252_BYTE_TEST,
};
use crate::mem::{read_range, update_range};
use crate::model::{
    burst_write_allowed, fifo_words, le_bytes, le_word_at, step_push, step_read, step_write,
    step_write_burst, EscModel, BYTE_TEST_VALUE, ESC_MEM_SIZE,
};
use crate::port::{BusFault, EscPort};
use crate::stream::lemma_burst_allowed_prefix;
use crate::word::{pack_word, spec_word_byte, word_byte};

verus! {

/// A software stand-in for the peripheral, one field per piece of model
/// state. The bus itself never fails here.
pub struct Lan9252Sim {
    pub mem: Vec<u8>,
    pub byte_test: u32,
    pub latency: u32,
    pub csr_data: u32,
    pub csr_busy: u32,
    pub reset_busy: u32,
    pub rd_cfg: u32,
    pub rd_busy: u32,
    pub rd_wait: u32,
    pub rd_active: bool,
    pub rd_fifo: Vec<u32>,
    pub wr_cfg: u32,
    pub wr_busy: u32,
    pub wr_wait: u32,
    pub wr_active: bool,
    pub wr_addr: usize,
    pub wr_left: usize,
    pub wr_log: Vec<u32>,
}

impl Lan9252Sim {
    /// Fresh peripheral: zeroed memory, idle engines, the given busy
    /// latency, and the healthy byte-test value.
    pub fn new(latency: u32) -> (s: Self)
        ensures
            s.model().wf(),
            s.model() == (EscModel {
                mem: Seq::new(ESC_MEM_SIZE as nat, |i: int| 0u8),
                byte_test: BYTE_TEST_VALUE,
                latency: latency as nat,
                csr_data: 0,
                csr_busy: 0,
                reset_busy: 0,
                rd_cfg: 0,
                rd_busy: 0,
                rd_wait: 0,
                rd_active: false,
                rd_fifo: Seq::empty(),
                wr_cfg: 0,
                wr_busy: 0,
                wr_wait: 0,
                wr_active: false,
                wr_addr: 0,
                wr_left: 0,
                wr_log: Seq::empty(),
            }),
    {
        let mut mem: Vec<u8> = Vec::new();
        while mem.len() < ESC_MEM_SIZE
            invariant
                forall|i: int| 0 <= i < mem@.len() ==> mem@[i] == 0u8,
                mem@.len() <= ESC_MEM_SIZE,
            decreases ESC_MEM_SIZE - mem@.len(),
        {
            mem.push(0);
        }
        proof {
            assert_seqs_equal!(mem@ == Seq::new(ESC_MEM_SIZE as nat, |i: int| 0u8));
        }
        Lan9252Sim {
            mem: mem,
            byte_test: BYTE_TEST_VALUE,
            latency: latency,
            csr_data: 0,
            csr_busy: 0,
            reset_busy: 0,
            rd_cfg: 0,
            rd_busy: 0,
            rd_wait: 0,
            rd_active: false,
            rd_fifo: Vec::new(),
            wr_cfg: 0,
            wr_busy: 0,
            wr_wait: 0,
            wr_active: false,
            wr_addr: 0,
            wr_left: 0,
            wr_log: Vec::new(),
        }
    }

    /// Seeds ESC memory directly, bypassing the bus.
    pub fn load(&mut self, address: u16, data: &Vec<u8>)
        requires
            old(self).model().wf(),
            address + data@.len() <= ESC_MEM_SIZE,
        ensures
            final(self).model().wf(),
            final(self).model() == (EscModel {
                mem: update_range(old(self).model().mem, address as int, data@),
                ..old(self).model()
            }),
    {
        let n = data.len();
        let mut i: usize = 0;
        while i < n
            invariant
                i <= n,
                n == data@.len(),
                address + n <= ESC_MEM_SIZE,
                self.mem@.len() == old(self).mem@.len(),
                old(self).mem@.len() == ESC_MEM_SIZE,
                forall|j: int|
                    0 <= j < i ==> #[trigger] self.mem@[address + j] == data@[j],
                forall|j: int|
                    0 <= j < self.mem@.len() && !(address <= j < address + i) ==> #[trigger]
                        self.mem@[j] == old(self).mem@[j],
                self.byte_test == old(self).byte_test,
                self.latency == old(self).latency,
                self.csr_data == old(self).csr_data,
                self.csr_busy == old(self).csr_busy,
                self.reset_busy == old(self).reset_busy,
                self.rd_cfg == old(self).rd_cfg,
                self.rd_busy == old(self).rd_busy,
                self.rd_wait == old(self).rd_wait,
                self.rd_active == old(self).rd_active,
                self.rd_fifo@ == old(self).rd_fifo@,
                self.wr_cfg == old(self).wr_cfg,
                self.wr_busy == old(self).wr_busy,
                self.wr_wait == old(self).wr_wait,
                self.wr_active == old(self).wr_active,
                self.wr_addr == old(self).wr_addr,
                self.wr_left == old(self).wr_left,
                self.wr_log@ == old(self).wr_log@,
            decreases n - i,
        {
            let b = data[i];
            self.mem[address as usize + i] = b;
            i = i + 1;
        }
        proof {
            assert_seqs_equal!(
                self.mem@ == update_range(old(self).mem@, address as int, data@),
                k => {
                    if address <= k < address + data@.len() {
                        let j = k - address;
                        assert(self.mem@[address + j] == data@[j]);
                    }
                }
            );
        }
    }

    /// Reads ESC memory directly, bypassing the bus.
    pub fn peek(&self, address: u16, len: usize) -> (r: Vec<u8>)
        requires
            self.model().wf(),
            address + len <= ESC_MEM_SIZE,
        ensures
            r@ == read_range(self.model().mem, address as int, len as int),
    {
        let mut out: Vec<u8> = Vec::new();
        let mut i: usize = 0;
        while i < len
            invariant
                i <= len,
                address + len <= ESC_MEM_SIZE,
                self.mem@.len() == ESC_MEM_SIZE,
                out@.len() == i,
                forall|j: int| 0 <= j < i ==> #[trigger] out@[j] == self.mem@[address + j],
            decreases len - i,
        {
            let b = self.mem[address as usize + i];
            out.push(b);
            i = i + 1;
        }
        proof {
            assert_seqs_equal!(out@ == read_range(self.model().mem, address as int, len as int));
        }
        out
    }

    /// How many words have gone through the write FIFO so far.
    pub fn pushed_count(&self) -> (n: usize)
        ensures
            n == self.model().wr_log.len(),
    {
        self.wr_log.len()
    }

    /// The `i`-th word ever pushed into the write FIFO.
    pub fn pushed_word(&self, i: usize) -> (w: u32)
        requires
            i < self.model().wr_log.len(),
        ensures
            w == self.model().wr_log[i as int],
    {
        self.wr_log[i]
    }

    /// One word through the write engine: takes the next bytes out of the
    /// matching lanes and stores them at the engine's position.
    fn push_one(&mut self, w: u32)
        requires
            old(self).model().wf(),
            old(self).model().wr_active,
            old(self).model().wr_left > 0,
        ensures
            final(self).model().wf(),
            final(self).model() == step_push(old(self).model(), w),
    {
        let fbp = self.wr_addr % 4;
        let t = if 4 - fbp <= self.wr_left {
            4 - fbp
        } else {
            self.wr_left
        };
        let ghost m = self.model();
        let mut i: usize = 0;
        while i < t
            invariant
                i <= t,
                fbp == m.wr_addr % 4,
                t == (if 4 - m.wr_addr % 4 <= m.wr_left {
                    4 - m.wr_addr % 4
                } else {
                    m.wr_left as int
                }),
                fbp < 4,
                self.wr_addr == m.wr_addr,
                self.wr_addr + t <= ESC_MEM_SIZE,
                self.mem@.len() == ESC_MEM_SIZE,
                m.mem.len() == ESC_MEM_SIZE,
                forall|j: int|
                    0 <= j < i ==> #[trigger] self.mem@[m.wr_addr + j] == spec_word_byte(
                        w,
                        m.wr_addr % 4 + j,
                    ),
                forall|j: int|
                    0 <= j < self.mem@.len() && !(m.wr_addr <= j < m.wr_addr + i)
                        ==> #[trigger] self.mem@[j] == m.mem[j],
                self.byte_test == old(self).byte_test,
                self.latency == old(self).latency,
                self.csr_data == old(self).csr_data,
                self.csr_busy == old(self).csr_busy,
                self.reset_busy == old(self).reset_busy,
                self.rd_cfg == old(self).rd_cfg,
                self.rd_busy == old(self).rd_busy,
                self.rd_wait == old(self).rd_wait,
                self.rd_active == old(self).rd_active,
                self.rd_fifo@ == old(self).rd_fifo@,
                self.wr_cfg == old(self).wr_cfg,
                self.wr_busy == old(self).wr_busy,
                self.wr_wait == old(self).wr_wait,
                self.wr_active == old(self).wr_active,
                self.wr_left == old(self).wr_left,
                self.wr_log@ == old(self).wr_log@,
            decreases t - i,
        {
            let b = word_byte(w, fbp + i);
            self.mem[self.wr_addr + i] = b;
            i = i + 1;
        }
        self.wr_addr = self.wr_addr + t;
        self.wr_left = self.wr_left - t;
        self.wr_log.push(w);
        proof {
            let ghost tt = if 4 - m.wr_addr % 4 <= m.wr_left {
                4 - m.wr_addr % 4
            } else {
                m.wr_left as int
            };
            assert_seqs_equal!(
                self.mem@ == update_range(
                    m.mem,
                    m.wr_addr,
                    Seq::new(tt as nat, |j: int| spec_word_byte(w, m.wr_addr % 4 + j)),
                ),
                k => {
                    if m.wr_addr <= k < m.wr_addr + tt {
                        let j = k - m.wr_addr;
                        assert(self.mem@[m.wr_addr + j] == spec_word_byte(w, m.wr_addr % 4 + j));
                    }
                }
            );
            assert(self.model() =~= step_push(m, w));
        }
    }
}

impl EscPort for Lan9252Sim {
    open spec fn model(&self) -> EscModel {
        EscModel {
            mem: self.mem@,
            byte_test: self.byte_test,
            latency: self.latency as nat,
            csr_data: self.csr_data,
            csr_busy: self.csr_busy as nat,
            reset_busy: self.reset_busy as nat,
            rd_cfg: self.rd_cfg,
            rd_busy: self.rd_busy as nat,
            rd_wait: self.rd_wait as nat,
            rd_active: self.rd_active,
            rd_fifo: self.rd_fifo@,
            wr_cfg: self.wr_cfg,
            wr_busy: self.wr_busy as nat,
            wr_wait: self.wr_wait as nat,
            wr_active: self.wr_active,
            wr_addr: self.wr_addr as int,
            wr_left: self.wr_left as nat,
            wr_log: self.wr_log@,
        }
    }

    fn write_reg(&mut self, address: u16, value: u32) -> (r: Result<(), BusFault>) {
        let ghost m = self.model();
        if address == ESC_CSR_DATA_REG {
            self.csr_data = value;
        } else if address == ESC_CSR_CMD_REG {
            let a = (value & 0xFFFF) as usize;
            let code = (value >> 16u32) & 0x3;
            let is_read = (value >> 30u32) & 1 == 1;
            proof {
                assert((value & 0xFFFF) == value % 0x10000 && ((value >> 16u32) & 0x3) == (value
                    / 0x10000) % 4 && (((value >> 30u32) & 1 == 1) == ((value / 0x4000_0000) % 2
                    == 1))) by (bit_vector);
            }
            let len: usize = if code == 0 {
                1
            } else if code == 1 {
                2
            } else {
                4
            };
            if is_read {
                let b0 = self.mem[a];
                let b1 = if len >= 2 {
                    self.mem[a + 1]
                } else {
                    0
                };
                let b2 = if len >= 4 {
                    self.mem[a + 2]
                } else {
                    0
                };
                let b3 = if len >= 4 {
                    self.mem[a + 3]
                } else {
                    0
                };
                self.csr_data = pack_word(b0, b1, b2, b3);
                self.csr_busy = self.latency;
            } else {
                let src = self.csr_data;
                let mut i: usize = 0;
                while i < len
                    invariant
                        i <= len,
                        len <= 4,
                        a + len <= ESC_MEM_SIZE,
                        self.mem@.len() == ESC_MEM_SIZE,
                        m.mem.len() == ESC_MEM_SIZE,
                        src == m.csr_data,
                        forall|j: int|
                            0 <= j < i ==> #[trigger] self.mem@[a + j] == spec_word_byte(src, j),
                        forall|j: int|
                            0 <= j < self.mem@.len() && !(a <= j < a + i) ==> #[trigger] self.mem@[j]
                                == m.mem[j],
                        self.csr_data == m.csr_data,
                        self.byte_test == old(self).byte_test,
                        self.latency == old(self).latency,
                        self.csr_busy == old(self).csr_busy,
                        self.reset_busy == old(self).reset_busy,
                        self.rd_cfg == old(self).rd_cfg,
                        self.rd_busy == old(self).rd_busy,
                        self.rd_wait == old(self).rd_wait,
                        self.rd_active == old(self).rd_active,
                        self.rd_fifo@ == old(self).rd_fifo@,
                        self.wr_cfg == old(self).wr_cfg,
                        self.wr_busy == old(self).wr_busy,
                        self.wr_wait == old(self).wr_wait,
                        self.wr_active == old(self).wr_active,
                        self.wr_addr == old(self).wr_addr,
                        self.wr_left == old(self).wr_left,
                        self.wr_log@ == old(self).wr_log@,
                    decreases len - i,
                {
                    let b = word_byte(src, i);
                    self.mem[a + i] = b;
                    i = i + 1;
                }
                self.csr_busy = self.latency;
                proof {
                    assert_seqs_equal!(
                        self.mem@ == update_range(
                            m.mem,
                            a as int,
                            le_bytes(m.csr_data, len as int),
                        ),
                        k => {
                            if a <= k < a + len {
                                let j = k - a;
                                assert(self.mem@[a + j] == spec_word_byte(m.csr_data, j));
                            }
                        }
                    );
                }
            }
        } else if address == ESC_RESET_CTRL_REG {
            let rst = value & 0x40 != 0;
            proof {
                assert((value & 0x40 != 0) == ((value / 0x40) % 2 == 1)) by (bit_vector);
            }
            if rst {
                self.reset_busy = self.latency;
            }
        } else if address == ESC_PRAM_RD_ADDR_LEN_REG {
            self.rd_cfg = value;
        } else if address == ESC_PRAM_RD_CMD_REG {
            if value == ESC_PRAM_CMD_ABORT {
                self.rd_active = false;
                self.rd_fifo = Vec::new();
                self.rd_busy = self.latency;
                self.rd_wait = 0;
            } else {
                let a = (self.rd_cfg & 0xFFFF) as usize;
                let l = (self.rd_cfg >> 16u32) as usize;
                proof {
                    let c = self.rd_cfg;
                    assert((c & 0xFFFF) == c % 0x10000 && (c >> 16u32) == c / 0x10000)
                        by (bit_vector);
                }
                let fbp = a % 4;
                let base = a - fbp;
                let n = (fbp + l + 3) / 4;
                proof {
                    assert(base % 4 == 0) by (nonlinear_arith)
                        requires
                            base == a - a % 4,
                            0 <= a,
                    ;
                    assert(4 * n <= fbp + l + 3 && fbp + l <= 4 * n) by (nonlinear_arith)
                        requires
                            n == (fbp + l + 3) as int / 4,
                            0 <= fbp + l,
                    ;
                    assert((base + 4 * n) % 4 == 0) by (nonlinear_arith)
                        requires
                            base % 4 == 0,
                    ;
                    assert(base + fbp + l <= 0x2000);
                    assert(base + 4 * n <= 0x2003);
                    assert(base + 4 * n <= 0x2000) by (nonlinear_arith)
                        requires
                            (base + 4 * n) % 4 == 0,
                            base + 4 * n <= 0x2003,
                    ;
                }
                let mut fifo: Vec<u32> = Vec::new();
                let mut i: usize = 0;
                while i < n
                    invariant
                        i <= n,
                        base + 4 * n <= 0x2000,
                        self.mem@.len() == ESC_MEM_SIZE,
                        fifo@.len() == i,
                        forall|j: int|
                            0 <= j < i ==> #[trigger] fifo@[j] == le_word_at(
                                self.mem@,
                                base + 4 * j,
                            ),
                    decreases n - i,
                {
                    let w = pack_word(
                        self.mem[base + 4 * i],
                        self.mem[base + 4 * i + 1],
                        self.mem[base + 4 * i + 2],
                        self.mem[base + 4 * i + 3],
                    );
                    fifo.push(w);
                    i = i + 1;
                }
                proof {
                    assert_seqs_equal!(
                        fifo@ == fifo_words(self.mem@, a as int, l as int)
                    );
                }
                self.rd_fifo = fifo;
                self.rd_active = true;
                self.rd_wait = self.latency;
            }
        } else if address == ESC_PRAM_WR_ADDR_LEN_REG {
            self.wr_cfg = value;
        } else if address == ESC_PRAM_WR_CMD_REG {
            if value == ESC_PRAM_CMD_ABORT {
                self.wr_active = false;
                self.wr_busy = self.latency;
                self.wr_wait = 0;
                self.wr_left = 0;
            } else {
                let a = (self.wr_cfg & 0xFFFF) as usize;
                let l = (self.wr_cfg >> 16u32) as usize;
                proof {
                    let c = self.wr_cfg;
                    assert((c & 0xFFFF) == c % 0x10000 && (c >> 16u32) == c / 0x10000)
                        by (bit_vector);
                }
                self.wr_active = true;
                self.wr_addr = a;
                self.wr_left = l;
                self.wr_wait = self.latency;
            }
        } else if address == ESC_PRAM_WR_FIFO_REG {
            self.push_one(value);
        } else {
            proof {
                assert(false);
            }
        }
        proof {
            assert(self.model() =~= step_write(m, address, value));
        }
        Ok(())
    }

    fn read_reg(&mut self, address: u16) -> (r: Result<u32, BusFault>) {
        let ghost m = self.model();
        let v: u32;
        if address == ESC_CSR_DATA_REG {
            v = self.csr_data;
        } else if address == ESC_CSR_CMD_REG {
            v = (if self.csr_busy > 0 {
                0x8000_0000u32
            } else {
                0u32
            }) + (if self.reset_busy > 0 {
                0x40u32
            } else {
                0u32
            });
            if self.csr_busy > 0 {
                self.csr_busy = self.csr_busy - 1;
            }
            if self.reset_busy > 0 {
                self.reset_busy = self.reset_busy - 1;
            }
        } else if address == ESC_PRAM_RD_CMD_REG {
            let avail = self.rd_active && self.rd_wait == 0;
            let fl = self.rd_fifo.len();
            let cnt: u32 = if fl <= 0x1F {
                fl as u32
            } else {
                0x1F
            };
            v = (if self.rd_busy > 0 {
                0x8000_0000u32
            } else {
                0u32
            }) + (if avail {
                cnt * 0x100 + 1
            } else {
                0u32
            });
            if self.rd_busy > 0 {
                self.rd_busy = self.rd_busy - 1;
            }
            if self.rd_wait > 0 {
                self.rd_wait = self.rd_wait - 1;
            }
        } else if address == ESC_PRAM_WR_CMD_REG {
            let avail = self.wr_active && self.wr_wait == 0;
            let cnt: u32 = if self.wr_left >= 0x7D {
                0x1F
            } else {
                ((self.wr_left + 3) / 4) as u32
            };
            proof {
                let slots: int = ((m.wr_left + 3) / 4) as int;
                assert(m.wr_left >= 0x7D ==> slots > 0x1F) by (nonlinear_arith)
                    requires
                        slots == ((m.wr_left + 3) as int) / 4,
                        0 <= m.wr_left,
                ;
            }
            v = (if self.wr_busy > 0 {
                0x8000_0000u32
            } else {
                0u32
            }) + (if avail {
                cnt * 0x100 + 1
            } else {
                0u32
            });
            if self.wr_busy > 0 {
                self.wr_busy = self.wr_busy - 1;
            }
            if self.wr_wait > 0 {
                self.wr_wait = self.wr_wait - 1;
            }
        } else if address == ESC_PRAM_RD_FIFO_REG {
            v = self.rd_fifo.remove(0);
            proof {
                assert(self.rd_fifo@ =~= m.rd_fifo.skip(1));
            }
        } else if address == LAN9252_BYTE_TEST {
            v = self.byte_test;
        } else {
            proof {
                assert(false);
            }
            v = 0;
        }
        proof {
            assert(self.model() =~= step_read(m, address).0);
            assert(v == step_read(m, address).1);
        }
        Ok(v)
    }

    fn write_burst(&mut self, address: u16, words: &Vec<u32>) -> (r: Result<(), BusFault>) {
        let ghost m0 = self.model();
        let n = words.len();
        let mut i: usize = 0;
        while i < n
            invariant
                i <= n,
                n == words@.len(),
                burst_write_allowed(m0, words@),
                self.model().wf(),
                self.model().latency == m0.latency,
                self.model().byte_test == m0.byte_test,
                self.model() == step_write_burst(m0, words@.take(i as int)),
            decreases n - i,
        {
            proof {
                lemma_burst_allowed_prefix(m0, words@, i as int);
            }
            let w = words[i];
            let ghost pre = self.model();
            self.push_one(w);
            proof {
                assert(words@.take(i as int).push(words@[i as int]) =~= words@.take(i as int + 1));
                crate::stream::lemma_burst_snoc(m0, words@.take(i as int), words@[i as int]);
            }
            i = i + 1;
        }
        proof {
            assert(words@.take(n as int) =~= words@);
        }
        Ok(())
    }

    fn read_burst(&mut self, address: u16, count: usize) -> (r: Result<Vec<u32>, BusFault>) {
        let ghost m0 = self.model();
        let mut out: Vec<u32> = Vec::new();
        let mut i: usize = 0;
        while i < count
            invariant
                i <= count,
                count <= m0.rd_fifo.len(),
                out@ == m0.rd_fifo.take(i as int),
                self.model() == (EscModel { rd_fifo: m0.rd_fifo.skip(i as int), ..m0 }),
            decreases count - i,
        {
            let ghost pre = self.model();
            let w = self.rd_fifo.remove(0);
            out.push(w);
            proof {
                assert(pre.rd_fifo.len() > 0);
                assert(w == m0.rd_fifo[i as int]);
                assert(self.rd_fifo@ =~= m0.rd_fifo.skip(i as int + 1));
                assert(out@ =~= m0.rd_fifo.take(i as int + 1));
                assert(self.model() =~= (EscModel {
                    rd_fifo: m0.rd_fifo.skip(i as int + 1),
                    ..m0
                }));
            }
            i = i + 1;
        }
        Ok(out)
    }
}

} // verus!
