//! End-to-end scenarios: the driver run against the simulated peripheral.

use soes_rs::drivers::lan9252::{Lan9252, POLL_LIMIT};
use soes_rs::drivers::sim::Lan9252Sim;
use soes_rs::esc_driver::{EscDriver, EscError};

fn fresh(latency: u32) -> Lan9252<Lan9252Sim> {
    Lan9252::new(Lan9252Sim::new(latency))
}

fn pattern(len: usize, seed: u8) -> Vec<u8> {
    let mut v = Vec::new();
    let mut x = seed;
    for _ in 0..len {
        x = x.wrapping_mul(31).wrapping_add(7);
        v.push(x);
    }
    v
}

#[test]
fn csr_round_trip_all_small_lengths() {
    let mut drv = fresh(2);
    for addr in 0u16..64u16 {
        for len in 1usize..=4usize {
            let data = pattern(len, (addr as u8).wrapping_add(len as u8));
            assert!(drv.write(addr, &data).is_ok());
            let mut back = vec![0u8; len];
            assert!(drv.read(addr, &mut back).is_ok());
            assert_eq!(back, data, "addr {addr} len {len}");
        }
    }
    // near the top of CSR space
    let data = pattern(4, 0x5A);
    assert!(drv.write(0x0FFC, &data).is_ok());
    let mut back = vec![0u8; 4];
    assert!(drv.read(0x0FFC, &mut back).is_ok());
    assert_eq!(back, data);
}

#[test]
fn csr_write_lands_in_memory() {
    let mut drv = fresh(1);
    let data = vec![0x11, 0x22, 0x33, 0x44, 0x55, 0x66, 0x77, 0x88, 0x99];
    // start at an odd address so every alignment rule is exercised
    assert!(drv.write(0x0001, &data).is_ok());
    let got = drv.port.peek(0x0001, data.len());
    assert_eq!(got, data);
    // bytes around the written range stay zero
    assert_eq!(drv.port.peek(0x0000, 1), vec![0u8]);
    assert_eq!(drv.port.peek(0x000A, 1), vec![0u8]);
}

#[test]
fn pram_round_trip_long_unaligned() {
    let mut drv = fresh(3);
    let data = pattern(300, 0xA7);
    assert!(drv.write(0x1002, &data).is_ok());
    let mut back = vec![0u8; 300];
    assert!(drv.read(0x1002, &mut back).is_ok());
    assert_eq!(back, data);
    // and the bytes really sit in process RAM
    assert_eq!(drv.port.peek(0x1002, 300), data);
}

#[test]
fn pram_round_trip_various_offsets() {
    let mut drv = fresh(1);
    for (addr, len, seed) in [
        (0x1000u16, 4usize, 1u8),
        (0x1001, 1, 2),
        (0x1003, 257, 3),
        (0x17FF, 513, 4),
        (0x1FFC, 4, 5),
    ] {
        let data = pattern(len, seed);
        assert!(drv.write(addr, &data).is_ok());
        let mut back = vec![0u8; len];
        assert!(drv.read(addr, &mut back).is_ok());
        assert_eq!(back, data, "addr {addr:#x} len {len}");
    }
}

#[test]
fn first_word_framing() {
    let mut drv = fresh(0);
    let data = vec![1, 2, 3, 4, 5, 6];
    assert!(drv.write(0x1002, &data).is_ok());
    // bytes [1, 2] at byte lanes 2 and 3 of the first FIFO word,
    // then [3, 4, 5, 6] streamed as the next word
    assert_eq!(drv.port.pushed_count(), 2);
    assert_eq!(drv.port.pushed_word(0), 0x0201_0000);
    assert_eq!(drv.port.pushed_word(1), 0x0605_0403);
    assert_eq!(drv.port.peek(0x1002, 6), data);
}

#[test]
fn transfers_complete_through_busy_polls() {
    // a device that keeps its busy and wait flags up for several polls
    let mut drv = fresh(7);
    let data = pattern(33, 0x3C);
    assert!(drv.write(0x1234, &data).is_ok());
    let mut back = vec![0u8; 33];
    assert!(drv.read(0x1234, &mut back).is_ok());
    assert_eq!(back, data);
    let small = vec![0xEE, 0xFF];
    assert!(drv.write(0x0200, &small).is_ok());
    assert_eq!(drv.port.peek(0x0200, 2), small);
}

#[test]
fn unresponsive_device_times_out() {
    let mut drv = fresh(POLL_LIMIT + 1);
    let data = vec![1, 2, 3];
    assert_eq!(drv.write(0x1010, &data), Err(EscError::Unresponsive));
    let small = vec![9];
    assert_eq!(drv.write(0x0010, &small), Err(EscError::Unresponsive));
    let mut back = vec![0u8; 2];
    assert_eq!(drv.read(0x1000, &mut back), Err(EscError::Unresponsive));
}

#[test]
fn mirror_freshness() {
    let mut drv = fresh(2);
    let ev1 = vec![0x34, 0x12];
    drv.port.load(0x0220, &ev1);
    let mut one = vec![0u8; 1];
    assert!(drv.read(0x0000, &mut one).is_ok());
    assert_eq!(drv.al_event, 0x1234);

    let ev2 = vec![0x78, 0x56];
    drv.port.load(0x0220, &ev2);
    let data = vec![0xAB];
    assert!(drv.write(0x0040, &data).is_ok());
    assert_eq!(drv.al_event, 0x5678);

    let ev3 = vec![0xBC, 0x9A];
    drv.port.load(0x0220, &ev3);
    let bulk = vec![1, 2, 3, 4, 5];
    assert!(drv.write(0x1800, &bulk).is_ok());
    assert_eq!(drv.al_event, 0x9ABC);
}

#[test]
fn register_access_rejects_bad_width() {
    let mut drv = fresh(1);
    let three = vec![1, 2, 3];
    assert_eq!(drv.write_register(0x0100, &three), Err(EscError::InvalidLength));
    let mut five = vec![0u8; 5];
    assert_eq!(drv.read_register(0x0100, &mut five), Err(EscError::InvalidLength));
    // nothing was written
    assert_eq!(drv.port.peek(0x0100, 3), vec![0, 0, 0]);
}

#[test]
fn register_access_small_widths() {
    let mut drv = fresh(1);
    let two = vec![0xCD, 0xAB];
    assert!(drv.write_register(0x0102, &two).is_ok());
    let mut back = vec![0u8; 2];
    assert!(drv.read_register(0x0102, &mut back).is_ok());
    assert_eq!(back, two);
}

#[test]
fn init_checks_identity() {
    let mut drv = fresh(2);
    assert!(drv.init().is_ok());

    let mut bad = Lan9252Sim::new(2);
    bad.byte_test = 0xDEAD_BEEF;
    let mut drv2 = Lan9252::new(bad);
    assert_eq!(drv2.init(), Err(EscError::SelfTest));

    let mut drv3 = fresh(POLL_LIMIT + 1);
    assert_eq!(drv3.init(), Err(EscError::Unresponsive));
}

#[test]
fn empty_csr_access_only_refreshes_the_mirror() {
    let mut drv = fresh(1);
    let ev = vec![0x21, 0x43];
    drv.port.load(0x0220, &ev);
    let nothing: Vec<u8> = Vec::new();
    assert!(drv.write(0x0100, &nothing).is_ok());
    assert_eq!(drv.al_event, 0x4321);
    let mut empty: Vec<u8> = Vec::new();
    assert!(drv.read(0x0100, &mut empty).is_ok());
    assert!(empty.is_empty());
}

#[test]
fn pram_round_trip_whole_window() {
    let mut drv = fresh(1);
    let data = pattern(0x1000, 0x11);
    assert!(drv.write(0x1000, &data).is_ok());
    let mut back = vec![0u8; 0x1000];
    assert!(drv.read(0x1000, &mut back).is_ok());
    assert_eq!(back, data);
}

#[test]
fn capability_trait_round_trip() {
    // through the narrow interface the protocol stack consumes
    let mut drv = fresh(2);
    assert!(EscDriver::init(&mut drv).is_ok());
    EscDriver::reset(&mut drv);
    let data = vec![0x10, 0x20, 0x30, 0x40, 0x50];
    assert!(EscDriver::write(&mut drv, 0x1100, &data).is_ok());
    let mut back = vec![0u8; 5];
    assert!(EscDriver::read(&mut drv, 0x1100, &mut back).is_ok());
    assert_eq!(back, data);
}

#[test]
fn reset_is_a_placeholder() {
    let mut drv = fresh(1);
    let data = vec![7, 8];
    assert!(drv.write(0x0300, &data).is_ok());
    let before = drv.al_event;
    drv.reset();
    assert_eq!(drv.al_event, before);
    assert_eq!(drv.port.peek(0x0300, 2), data);
}
