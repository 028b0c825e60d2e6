//! Small helpers of the slave-stack glue layer: process-data flags and the
//! CoE object-index range tests.

use vstd::prelude::*;

verus! {

pub const DIG_PROCESS_INPUTS_FLAG: u8 = 0x01;
pub const DIG_PROCESS_OUTPUTS_FLAG: u8 = 0x02;
pub const DIG_PROCESS_WD_FLAG: u8 = 0x04;
pub const DIG_PROCESS_APP_HOOK_FLAG: u8 = 0x08;

/// The larger of two sizes.
pub fn max(a: usize, b: usize) -> (r: usize)
    ensures
        r == if a > b {
            a
        } else {
            b
        },
{
    if a > b {
        a
    } else {
        b
    }
}

/// Whether a CoE object index lies in the RxPDO mapping range.
pub fn is_rxpdo(index: u16) -> (r: bool)
    ensures
        r == (0x1600 <= index < 0x1800),
{
    index >= 0x1600 && index < 0x1800
}

/// Whether a CoE object index lies in the TxPDO mapping range.
pub fn is_txpdo(index: u16) -> (r: bool)
    ensures
        r == (0x1A00 <= index < 0x1C00),
{
    index >= 0x1A00 && index < 0x1C00
}

} // verus!
