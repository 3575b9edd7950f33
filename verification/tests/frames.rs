//! The MPSSE frame encoders: exact wire bytes and receive counts.

use arrange_ftdi::mpsse::{
    init_clock, read_high_byte, read_low_byte, send_spi, set_gpio, transfer_spi,
    transfer_spi_bits, IoOp, MPSSECommand,
};

fn write_bytes(op: &IoOp) -> Vec<u8> {
    match op {
        IoOp::Write { bytes } => bytes.clone(),
        IoOp::ReadBytes { .. } => panic!("expected a write"),
    }
}

fn read_count(op: &IoOp) -> usize {
    match op {
        IoOp::ReadBytes { count } => *count,
        IoOp::Write { .. } => panic!("expected a read"),
    }
}

#[test]
fn send_spi_frames_one_byte() {
    let ops = send_spi(&vec![0xAB]);
    assert_eq!(ops.len(), 1);
    assert_eq!(write_bytes(&ops[0]), vec![0x11, 0x00, 0x00, 0xAB]);
}

#[test]
fn send_spi_frames_five_bytes() {
    let payload = vec![1, 2, 3, 4, 5];
    let ops = send_spi(&payload);
    assert_eq!(ops.len(), 1);
    let mut expected = vec![0x11, 0x04, 0x00];
    expected.extend_from_slice(&payload);
    assert_eq!(write_bytes(&ops[0]), expected);
}

#[test]
fn send_spi_frames_largest_payload() {
    let payload = vec![0x5A; 65536];
    let ops = send_spi(&payload);
    assert_eq!(ops.len(), 1);
    let bytes = write_bytes(&ops[0]);
    assert_eq!(bytes.len(), 3 + 65536);
    assert_eq!(&bytes[..3], &[0x11, 0xFF, 0xFF]);
    assert_eq!(&bytes[3..], &payload[..]);
}

#[test]
fn send_spi_empty_is_noop() {
    let ops = send_spi(&vec![]);
    assert_eq!(ops.len(), 0);
}

#[test]
fn send_spi_issues_no_receives() {
    let ops = send_spi(&vec![9, 8, 7]);
    for op in &ops {
        assert!(matches!(op, IoOp::Write { .. }));
    }
}

#[test]
fn transfer_spi_frames_and_receives() {
    let payload = vec![0x05, 0x05];
    let ops = transfer_spi(&payload);
    assert_eq!(ops.len(), 1 + 2);
    assert_eq!(write_bytes(&ops[0]), vec![0x31, 0x01, 0x00, 0x05, 0x05]);
    assert_eq!(read_count(&ops[1]), 1);
    assert_eq!(read_count(&ops[2]), 1);
}

#[test]
fn transfer_spi_one_receive_per_byte() {
    for n in [1usize, 3, 256, 1000] {
        let payload = vec![0u8; n];
        let ops = transfer_spi(&payload);
        assert_eq!(ops.len(), 1 + n);
        let reads: usize = ops[1..].iter().map(read_count).sum();
        assert_eq!(reads, n);
    }
}

#[test]
fn transfer_spi_empty_is_noop() {
    let ops = transfer_spi(&vec![]);
    assert_eq!(ops.len(), 0);
}

#[test]
fn transfer_spi_bits_frames() {
    let ops = transfer_spi_bits(0xFF, 2);
    assert_eq!(ops.len(), 2);
    assert_eq!(write_bytes(&ops[0]), vec![0x33, 0x01, 0xFF]);
    assert_eq!(read_count(&ops[1]), 1);
}

#[test]
fn set_gpio_frames() {
    let ops = set_gpio(0x00, 0x93);
    assert_eq!(ops.len(), 1);
    assert_eq!(write_bytes(&ops[0]), vec![0x80, 0x00, 0x93]);
}

#[test]
fn gpio_reads() {
    let ops = read_low_byte();
    assert_eq!(ops.len(), 2);
    assert_eq!(write_bytes(&ops[0]), vec![0x81]);
    assert_eq!(read_count(&ops[1]), 1);

    let ops = read_high_byte();
    assert_eq!(ops.len(), 2);
    assert_eq!(write_bytes(&ops[0]), vec![0x83]);
    assert_eq!(read_count(&ops[1]), 1);
}

#[test]
fn clock_setup_normal() {
    let ops = init_clock(false);
    let bytes: Vec<u8> = ops.iter().flat_map(|op| write_bytes(op)).collect();
    assert_eq!(bytes, vec![0x8A, 0x86, 0x00, 0x00]);
}

#[test]
fn clock_setup_slow() {
    let ops = init_clock(true);
    let bytes: Vec<u8> = ops.iter().flat_map(|op| write_bytes(op)).collect();
    assert_eq!(bytes, vec![0x8A, 0x8B, 0x86, 119, 0x00]);
}

#[test]
fn mpsse_command_bytes() {
    assert_eq!(MPSSECommand::SETBLOW.byte(), 0x80);
    assert_eq!(MPSSECommand::READBLOW.byte(), 0x81);
    assert_eq!(MPSSECommand::READBHIGH.byte(), 0x83);
    assert_eq!(MPSSECommand::SETCLKDIV.byte(), 0x86);
    assert_eq!(MPSSECommand::TCKX5.byte(), 0x8A);
    assert_eq!(MPSSECommand::TCKD5.byte(), 0x8B);
    assert_eq!(MPSSECommand::CPUWE.byte(), 0x93);
}
