//! The word-level transport a driver runs on: one register write or read per
//! framed bus transaction, plus the two burst forms that stream FIFO words in
//! a single chip-select frame. A port promises to behave like the model in
//! `model`; the simulated peripheral proves it, a hardware binding provides
//! the same interface over a real SPI bus.

use vstd::prelude::*;
use crate::drivers::lan9252_cst::{ESC_PRAM_RD_FIFO_REG, ESC_PRAM_WR_FIFO_REG};
use crate::model::{
    burst_write_allowed, read_allowed, step_read, step_write, step_write_burst, write_allowed,
    EscModel,
};

verus! {

/// An unrecoverable bus-exchange failure, surfaced to the caller.
#[derive(Clone, Copy, Debug, PartialEq, Eq, Structural)]
pub struct BusFault;

/// Word-level access to the peripheral's SPI register interface.
///
/// Every method is one framed bus transaction. On success the port's model
/// takes exactly the matching step; on a bus fault nothing is promised
/// beyond well-formedness, and the driver gives up on the operation. The
/// device's latency and identity are characteristics, not state, and
/// survive any outcome.
pub trait EscPort: Sized {
    /// The peripheral state this port stands in front of. A port that is
    /// reasoned about overrides this; for one that only moves bytes on real
    /// hardware the default leaves the state unconstrained.
    open spec fn model(&self) -> EscModel {
        vstd::pervasive::arbitrary()
    }

    /// Writes one 32-bit register.
    fn write_reg(&mut self, address: u16, value: u32) -> (r: Result<(), BusFault>)
        requires
            old(self).model().wf(),
            write_allowed(old(self).model(), address, value),
        ensures
            final(self).model().wf(),
            final(self).model().latency == old(self).model().latency,
            final(self).model().byte_test == old(self).model().byte_test,
            r is Ok ==> final(self).model() == step_write(old(self).model(), address, value),
    ;

    /// Reads one 32-bit register.
    fn read_reg(&mut self, address: u16) -> (r: Result<u32, BusFault>)
        requires
            old(self).model().wf(),
            read_allowed(old(self).model(), address),
        ensures
            final(self).model().wf(),
            final(self).model().latency == old(self).model().latency,
            final(self).model().byte_test == old(self).model().byte_test,
            r is Ok ==> final(self).model() == step_read(old(self).model(), address).0
                && r->Ok_0 == step_read(old(self).model(), address).1,
    ;

    /// Streams `words` into the PRAM-write FIFO in one continuous framed
    /// transaction; the device auto-increments within the FIFO.
    fn write_burst(&mut self, address: u16, words: &Vec<u32>) -> (r: Result<(), BusFault>)
        requires
            old(self).model().wf(),
            address == ESC_PRAM_WR_FIFO_REG,
            burst_write_allowed(old(self).model(), words@),
        ensures
            final(self).model().wf(),
            final(self).model().latency == old(self).model().latency,
            final(self).model().byte_test == old(self).model().byte_test,
            r is Ok ==> final(self).model() == step_write_burst(old(self).model(), words@),
    ;

    /// Takes `count` words out of the PRAM-read FIFO in one continuous
    /// framed transaction.
    fn read_burst(&mut self, address: u16, count: usize) -> (r: Result<Vec<u32>, BusFault>)
        requires
            old(self).model().wf(),
            address == ESC_PRAM_RD_FIFO_REG,
            count <= old(self).model().rd_fifo.len(),
            count > 0 ==> old(self).model().rd_active && old(self).model().rd_wait == 0,
        ensures
            final(self).model().wf(),
            final(self).model().latency == old(self).model().latency,
            final(self).model().byte_test == old(self).model().byte_test,
            r is Ok ==> final(self).model() == (EscModel {
                rd_fifo: old(self).model().rd_fifo.skip(count as int),
                ..old(self).model()
            }) && r->Ok_0@ == old(self).model().rd_fifo.take(count as int),
    ;
}

} // verus!
