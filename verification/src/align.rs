//! CSR alignment rules: a register access may be 1, 2 or 4 bytes wide and
//! must be naturally aligned, so the router splits an arbitrary access into
//! legal chunks. This module holds the chunk rule, its executable form, and
//! the law that the chunks cover the request exactly.

use vstd::prelude::*;

verus! {

/// Width of the next CSR chunk for an access at `address` with `remaining`
/// bytes to go: start from `min(remaining, 4)`, then force width 1 at odd
/// addresses; at addresses 2 mod 4 force 1 when the candidate is odd, else
/// 2; and replace the illegal width 3 by 1.
pub open spec fn spec_chunk_len(address: int, remaining: int) -> int {
    let s = if remaining <= 4 {
        remaining
    } else {
        4
    };
    if address % 2 == 1 {
        1
    } else if address % 4 >= 2 {
        if s % 2 == 1 {
            1
        } else {
            2
        }
    } else if s == 3 {
        1
    } else {
        s
    }
}

/// The chunk rule always yields a legal register access: a width of 1, 2 or
/// 4, no more than what remains, starting at an address aligned to it.
pub proof fn lemma_chunk_len_legal(address: int, remaining: int)
    requires
        0 <= address,
        1 <= remaining,
    ensures
        spec_chunk_len(address, remaining) == 1 || spec_chunk_len(address, remaining) == 2
            || spec_chunk_len(address, remaining) == 4,
        spec_chunk_len(address, remaining) <= remaining,
        address % spec_chunk_len(address, remaining) == 0,
{
    let c = spec_chunk_len(address, remaining);
    assert(address % 1 == 0) by (nonlinear_arith);
    if address % 2 == 1 {
    } else if address % 4 >= 2 {
        assert(address % 4 == 2 ==> address % 2 == 0) by (nonlinear_arith);
        assert(address % 2 == 0 && address % 4 >= 2 ==> address % 4 == 2) by (nonlinear_arith);
    } else {
        assert(address % 4 == 0 ==> address % 2 == 0) by (nonlinear_arith);
    }
}

/// The chunk widths the router works through for an access of `len` bytes
/// at `address`, in order.
pub open spec fn csr_chunks(address: int, len: int) -> Seq<int>
    decreases len,
{
    if len <= 0 {
        Seq::empty()
    } else {
        let c = spec_chunk_len(address, len);
        seq![c] + csr_chunks(address + c, len - c)
    }
}

/// The addresses at which those chunks start.
pub open spec fn csr_chunk_starts(address: int, len: int) -> Seq<int>
    decreases len,
{
    if len <= 0 {
        Seq::empty()
    } else {
        let c = spec_chunk_len(address, len);
        seq![address] + csr_chunk_starts(address + c, len - c)
    }
}

/// Sum of a sequence of widths.
pub open spec fn chunk_sum(s: Seq<int>) -> int
    decreases s.len(),
{
    if s.len() == 0 {
        0
    } else {
        s[0] + chunk_sum(s.skip(1))
    }
}

/// Alignment splitting law: for any access the generated chunks are each a
/// legal aligned register access and together cover exactly the requested
/// byte count.
pub proof fn lemma_csr_chunks_cover(address: int, len: int)
    requires
        0 <= address,
        0 <= len,
    ensures
        chunk_sum(csr_chunks(address, len)) == len,
        csr_chunks(address, len).len() == csr_chunk_starts(address, len).len(),
        forall|i: int|
            0 <= i < csr_chunks(address, len).len() ==> {
                let c = #[trigger] csr_chunks(address, len)[i];
                (c == 1 || c == 2 || c == 4) && csr_chunk_starts(address, len)[i] % c == 0
            },
    decreases len,
{
    if len <= 0 {
    } else {
        let c = spec_chunk_len(address, len);
        lemma_chunk_len_legal(address, len);
        lemma_csr_chunks_cover(address + c, len - c);
        let rest = csr_chunks(address + c, len - c);
        assert(csr_chunks(address, len).skip(1) =~= rest);
        assert forall|i: int| 0 <= i < csr_chunks(address, len).len() implies {
            let ci = #[trigger] csr_chunks(address, len)[i];
            (ci == 1 || ci == 2 || ci == 4) && csr_chunk_starts(address, len)[i] % ci == 0
        } by {
            if i > 0 {
                assert(csr_chunks(address, len)[i] == rest[i - 1]);
                assert(csr_chunk_starts(address, len)[i] == csr_chunk_starts(
                    address + c,
                    len - c,
                )[i - 1]);
            }
        }
    }
}

/// Executable form of the chunk rule, as the router applies it.
pub fn csr_chunk_len(address: u16, remaining: usize) -> (s: usize)
    requires
        1 <= remaining,
    ensures
        s == spec_chunk_len(address as int, remaining as int),
        1 <= s <= remaining,
        s == 1 || s == 2 || s == 4,
        address as int % s as int == 0,
{
    proof {
        lemma_chunk_len_legal(address as int, remaining as int);
        assert((address & 0x01 != 0) == (address % 2 == 1)) by (bit_vector);
        assert((address & 0x02 != 0) == (address % 4 >= 2)) by (bit_vector);
    }
    let mut size: usize = if remaining < 4 {
        remaining
    } else {
        4
    };
    if address & 0x01 != 0 {
        size = 1;
    } else if address & 0x02 != 0 {
        proof {
            let s = size;
            assert((s & 0x01 != 0) == (s % 2 == 1)) by (bit_vector);
        }
        size = if size & 0x01 != 0 {
            1
        } else {
            2
        };
    } else if size == 3 {
        size = 1;
    }
    size
}

} // verus!
