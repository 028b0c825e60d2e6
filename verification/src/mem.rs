//! Byte-range views of the slave controller's memory, and the laws that
//! connect writing a range with reading it back.

use vstd::prelude::*;
use vstd::assert_seqs_equal;

verus! {

/// The `len` bytes of `mem` starting at `addr`.
pub open spec fn read_range(mem: Seq<u8>, addr: int, len: int) -> Seq<u8> {
    mem.subrange(addr, addr + len)
}

/// `mem` with the bytes starting at `addr` replaced by `data`.
pub open spec fn update_range(mem: Seq<u8>, addr: int, data: Seq<u8>) -> Seq<u8> {
    Seq::new(
        mem.len(),
        |i: int| if addr <= i < addr + data.len() { data[i - addr] } else { mem[i] },
    )
}

/// Round trip: reading back a just-written range returns exactly the bytes
/// that were written, whatever the memory held before. A completed driver
/// write leaves `update_range(mem, addr, data)` and a completed read
/// returns `read_range(mem, addr, len)`, so this is the write-then-read
/// round-trip law for the whole ESC address space, register and
/// process-RAM alike.
pub proof fn lemma_write_read_round_trip(mem: Seq<u8>, addr: int, data: Seq<u8>)
    requires
        0 <= addr,
        addr + data.len() <= mem.len(),
    ensures
        read_range(update_range(mem, addr, data), addr, data.len() as int) == data,
{
    assert_seqs_equal!(read_range(update_range(mem, addr, data), addr, data.len() as int) == data);
}

/// Writing two adjacent ranges one after the other is the same as writing
/// their concatenation at once.
pub proof fn lemma_update_range_concat(mem: Seq<u8>, addr: int, d1: Seq<u8>, d2: Seq<u8>)
    requires
        0 <= addr,
        addr + d1.len() + d2.len() <= mem.len(),
    ensures
        update_range(update_range(mem, addr, d1), addr + d1.len(), d2)
            == update_range(mem, addr, d1 + d2),
{
    assert_seqs_equal!(
        update_range(update_range(mem, addr, d1), addr + d1.len(), d2)
            == update_range(mem, addr, d1 + d2),
        i => {
            if addr + d1.len() <= i < addr + d1.len() + d2.len() {
                assert((d1 + d2)[i - addr] == d2[i - addr - d1.len()]);
            } else if addr <= i < addr + d1.len() {
                assert((d1 + d2)[i - addr] == d1[i - addr]);
            }
        }
    );
}

/// Step form of the concatenation law, shaped for a loop that works through
/// `data` one chunk at a time: after `k` bytes are in place, writing the next
/// `c` bytes extends the settled prefix to `k + c` bytes.
pub proof fn lemma_update_range_step(mem: Seq<u8>, addr: int, data: Seq<u8>, k: int, c: int)
    requires
        0 <= addr,
        0 <= k,
        0 < c,
        k + c <= data.len(),
        addr + data.len() <= mem.len(),
    ensures
        update_range(update_range(mem, addr, data.take(k)), addr + k, data.subrange(k, k + c))
            == update_range(mem, addr, data.take(k + c)),
{
    assert(data.take(k) + data.subrange(k, k + c) == data.take(k + c)) by {
        assert_seqs_equal!(data.take(k) + data.subrange(k, k + c) == data.take(k + c));
    }
    lemma_update_range_concat(mem, addr, data.take(k), data.subrange(k, k + c));
}

} // verus!
