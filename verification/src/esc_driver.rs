//! The narrow capability contract the ESC protocol stack consumes: bring the
//! peripheral up, then read and write ESC memory by address.

use vstd::prelude::*;
use crate::mem::{read_range, update_range};
use crate::model::{ESC_CSR_SIZE, ESC_MEM_SIZE};

verus! {

/// Failure of a driver operation.
#[derive(Clone, Copy, Debug, PartialEq, Eq, Structural)]
pub enum EscError {
    /// The bus exchange itself failed; not recoverable at this layer.
    Bus,
    /// A busy or wait flag never cleared within the poll bound.
    Unresponsive,
    /// A CSR access asked for a width other than 1, 2 or 4 bytes.
    InvalidLength,
    /// The identity/byte-test register did not hold its known value.
    SelfTest,
}

/// Whether an access of `len` bytes at `address` stays inside one region of
/// the ESC address space: CSR registers below `ESC_CSR_SIZE`, process RAM
/// from there to `ESC_MEM_SIZE` (where it must cover at least one byte).
pub open spec fn valid_access(address: u16, len: nat) -> bool {
    if address < ESC_CSR_SIZE {
        address + len <= ESC_CSR_SIZE
    } else {
        1 <= len && address + len <= ESC_MEM_SIZE
    }
}

/// Capability contract exposed to the protocol stack: a driver stands in
/// front of an ESC memory, and a completed operation moves exactly the
/// requested bytes.
pub trait EscDriver: Sized {
    /// The driver is in a state in which operations may be issued.
    spec fn ready(&self) -> bool;

    /// The ESC memory as the driver lets its callers see it.
    spec fn mem_view(&self) -> Seq<u8>;

    /// Brings the peripheral out of reset and verifies its identity.
    fn init(&mut self) -> (r: Result<(), EscError>)
        requires
            old(self).ready(),
        ensures
            final(self).ready(),
            r is Ok ==> final(self).mem_view() == old(self).mem_view(),
    ;

    /// Placeholder; resetting is done through `init`.
    fn reset(&mut self)
        requires
            old(self).ready(),
        ensures
            final(self).ready(),
            final(self).mem_view() == old(self).mem_view(),
    ;

    /// Stores `buf` into ESC memory at `address`.
    fn write(&mut self, address: u16, buf: &Vec<u8>) -> (r: Result<(), EscError>)
        requires
            old(self).ready(),
            valid_access(address, buf@.len()),
        ensures
            final(self).ready(),
            r is Ok ==> final(self).mem_view() == update_range(
                old(self).mem_view(),
                address as int,
                buf@,
            ),
    ;

    /// Fills `buf` from ESC memory at `address`.
    fn read(&mut self, address: u16, buf: &mut Vec<u8>) -> (r: Result<(), EscError>)
        requires
            old(self).ready(),
            valid_access(address, old(buf)@.len()),
        ensures
            final(self).ready(),
            final(buf)@.len() == old(buf)@.len(),
            r is Ok ==> final(self).mem_view() == old(self).mem_view() && final(buf)@
                == read_range(old(self).mem_view(), address as int, old(buf)@.len() as int),
    ;
}

} // verus!
