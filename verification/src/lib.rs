//! Transport driver for the LAN9252, a SPI-attached EtherCAT slave
//! controller: wire framing, register and process-RAM accessors, and the
//! address router behind the narrow read/write capability an EtherCAT
//! protocol stack consumes. Every operation is specified against a
//! mathematical model of the peripheral and verified; a simulated
//! peripheral proves the model implementable and lets the driver run end
//! to end.

#![allow(non_snake_case)]
use vstd::prelude::*;

pub mod align;
pub mod drivers;
pub mod esc_driver;
pub mod frame;
pub mod mem;
pub mod model;
pub mod port;
pub mod soes;
pub mod stream;
pub mod word;

verus! {

/// Version tag of the slave-stack glue layer.
pub fn soes_version() -> (v: u32)
    ensures
        v == 1,
{
    1
}

} // verus!
