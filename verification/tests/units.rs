//! Unit tests: wire constants and frames, the alignment rule, and the
//! slave-stack helpers.

use soes_rs::align::csr_chunk_len;
use soes_rs::drivers::lan9252_cst::{
    BIT, ESC_CSR_CMD_SIZE, ESC_PRAM_ADDR, ESC_PRAM_CMD_CNT, ESC_PRAM_SIZE,
};
use soes_rs::frame::{
    fast_read_header, serial_write_frame, serial_write_header, word_from_le_bytes,
    word_to_le_bytes,
};
use soes_rs::soes::{is_rxpdo, is_txpdo, max};
use soes_rs::soes_version;

#[test]
fn alignment_splitting_covers_every_request() {
    for address in 0u32..0x1000u32 {
        for length in 1usize..=64usize {
            let mut addr = address as u16;
            let mut remaining = length;
            while remaining > 0 {
                let size = csr_chunk_len(addr, remaining);
                // a legal width, aligned to its own size
                assert!(size == 1 || size == 2 || size == 4);
                assert!(size <= remaining);
                assert_eq!(addr as usize % size, 0);
                // the rule itself, spelled out
                let candidate = remaining.min(4);
                let expect = if addr & 1 != 0 {
                    1
                } else if addr & 2 != 0 {
                    if candidate & 1 != 0 { 1 } else { 2 }
                } else if candidate == 3 {
                    1
                } else {
                    candidate
                };
                assert_eq!(size, expect);
                addr += size as u16;
                remaining -= size;
            }
            // the chunks summed exactly to the requested length
            assert_eq!(addr as u32, address + length as u32);
        }
    }
}

#[test]
fn wire_constant_helpers() {
    assert_eq!(BIT(0), 1);
    assert_eq!(BIT(6), 0x40);
    assert_eq!(BIT(31), 0x8000_0000);
    assert_eq!(ESC_PRAM_CMD_CNT(0x0000_1F00), 0x1F);
    assert_eq!(ESC_PRAM_CMD_CNT(0x8000_0501), 0x05);
    assert_eq!(ESC_PRAM_SIZE(2), 0x0002_0000);
    assert_eq!(ESC_PRAM_ADDR(0x1234), 0x1234);
    assert_eq!(ESC_CSR_CMD_SIZE(4), 0x0004_0000);
}

#[test]
fn wire_frames_are_bit_exact() {
    assert_eq!(serial_write_header(0x0020), vec![0x02, 0x00, 0x20]);
    assert_eq!(
        serial_write_frame(0x0304, 0x8004_0123),
        vec![0x02, 0x03, 0x04, 0x23, 0x01, 0x04, 0x80]
    );
    assert_eq!(fast_read_header(0x01F8), vec![0x0B, 0x01, 0xF8, 0x01]);
    assert_eq!(word_to_le_bytes(0xDDCC_BBAA), vec![0xAA, 0xBB, 0xCC, 0xDD]);
    let bytes = vec![0xAA, 0xBB, 0xCC, 0xDD];
    assert_eq!(word_from_le_bytes(&bytes), 0xDDCC_BBAA);
    assert_eq!(word_from_le_bytes(&word_to_le_bytes(0x0102_0304)), 0x0102_0304);
}

#[test]
fn slave_stack_helpers() {
    assert_eq!(soes_version(), 1);
    assert_eq!(max(3, 9), 9);
    assert_eq!(max(9, 3), 9);
    assert_eq!(max(4, 4), 4);
    assert!(is_rxpdo(0x1600));
    assert!(is_rxpdo(0x17FF));
    assert!(!is_rxpdo(0x1800));
    assert!(!is_rxpdo(0x15FF));
    assert!(is_txpdo(0x1A00));
    assert!(is_txpdo(0x1BFF));
    assert!(!is_txpdo(0x1C00));
    assert!(!is_txpdo(0x1600));
}
