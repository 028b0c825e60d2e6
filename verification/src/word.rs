//! Little-endian codec between 32-bit register words and their four byte
//! lanes. Register values travel over the wire least-significant byte first,
//! so every transfer in the driver goes through these conversions.

use vstd::prelude::*;

verus! {

/// The 32-bit word whose byte lanes, from least significant to most
/// significant, are `b0`, `b1`, `b2`, `b3`.
pub open spec fn word_of_bytes(b0: u8, b1: u8, b2: u8, b3: u8) -> u32 {
    (b0 + b1 * 0x100 + b2 * 0x1_0000 + b3 * 0x100_0000) as u32
}

/// Byte lane `i` (0 = least significant) of the word `w`.
pub open spec fn spec_word_byte(w: u32, i: int) -> u8 {
    if i == 0 {
        (w % 0x100) as u8
    } else if i == 1 {
        ((w / 0x100) % 0x100) as u8
    } else if i == 2 {
        ((w / 0x1_0000) % 0x100) as u8
    } else {
        ((w / 0x100_0000) % 0x100) as u8
    }
}

/// Taking a byte lane out of an assembled word gives back the byte that was
/// put in.
pub proof fn lemma_word_byte_of_bytes(b0: u8, b1: u8, b2: u8, b3: u8)
    ensures
        spec_word_byte(word_of_bytes(b0, b1, b2, b3), 0) == b0,
        spec_word_byte(word_of_bytes(b0, b1, b2, b3), 1) == b1,
        spec_word_byte(word_of_bytes(b0, b1, b2, b3), 2) == b2,
        spec_word_byte(word_of_bytes(b0, b1, b2, b3), 3) == b3,
{
    assert(((b0 + b1 * 0x100 + b2 * 0x1_0000 + b3 * 0x100_0000) as u32) % 0x100 == b0)
        by (bit_vector);
    assert((((b0 + b1 * 0x100 + b2 * 0x1_0000 + b3 * 0x100_0000) as u32) / 0x100) % 0x100 == b1)
        by (bit_vector);
    assert((((b0 + b1 * 0x100 + b2 * 0x1_0000 + b3 * 0x100_0000) as u32) / 0x1_0000) % 0x100 == b2)
        by (bit_vector);
    assert((((b0 + b1 * 0x100 + b2 * 0x1_0000 + b3 * 0x100_0000) as u32) / 0x100_0000) % 0x100
        == b3) by (bit_vector);
}

/// Assembles a word from its four byte lanes, least significant first.
pub fn pack_word(b0: u8, b1: u8, b2: u8, b3: u8) -> (w: u32)
    ensures
        w == word_of_bytes(b0, b1, b2, b3),
{
    let w = (b0 as u32) | ((b1 as u32) << 8u32) | ((b2 as u32) << 16u32) | ((b3 as u32) << 24u32);
    proof {
        assert((b0 as u32) | ((b1 as u32) << 8u32) | ((b2 as u32) << 16u32) | ((b3 as u32)
            << 24u32) == (b0 + b1 * 0x100 + b2 * 0x1_0000 + b3 * 0x100_0000) as u32)
            by (bit_vector);
    }
    w
}

/// Extracts byte lane `i` (0 = least significant) of the word `w`.
pub fn word_byte(w: u32, i: usize) -> (b: u8)
    requires
        i < 4,
    ensures
        b == spec_word_byte(w, i as int),
{
    if i == 0 {
        proof {
            assert((w & 0xFF) == w % 0x100) by (bit_vector);
        }
        (w & 0xFF) as u8
    } else if i == 1 {
        proof {
            assert(((w >> 8u32) & 0xFF) == (w / 0x100) % 0x100) by (bit_vector);
        }
        ((w >> 8u32) & 0xFF) as u8
    } else if i == 2 {
        proof {
            assert(((w >> 16u32) & 0xFF) == (w / 0x1_0000) % 0x100) by (bit_vector);
        }
        ((w >> 16u32) & 0xFF) as u8
    } else {
        proof {
            assert(((w >> 24u32) & 0xFF) == (w / 0x100_0000) % 0x100) by (bit_vector);
        }
        ((w >> 24u32) & 0xFF) as u8
    }
}

} // verus!
