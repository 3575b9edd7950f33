//! The flash command builders, response parsing, and the busy-wait loop.

use arrange_ftdi::error::ArrangeError;
use arrange_ftdi::flash::{
    bulk_erase, chip_deselect, chip_select, disable_protection, parse_jedec, power_down, power_up,
    prog, protection_cleared, read, read_extended_id, read_id, read_status, release_reset, reset,
    sector_erase, status_busy, status_from_response, status_protection, status_write_enabled,
    wait_polls, wait_step, write_enable, BlockErase, DeviceIdentity, FlashCommand,
};
use arrange_ftdi::mpsse::IoOp;

fn write_bytes(op: &IoOp) -> Vec<u8> {
    match op {
        IoOp::Write { bytes } => bytes.clone(),
        IoOp::ReadBytes { .. } => panic!("expected a write"),
    }
}

fn read_count(op: &IoOp) -> usize {
    match op {
        IoOp::ReadBytes { count } => *count,
        IoOp::Write { .. } => panic!("expected a read"),
    }
}

/// All bytes written, with each expected receive shown as `None`.
fn wire_trace(ops: &[IoOp]) -> (Vec<u8>, usize) {
    let mut written = Vec::new();
    let mut reads = 0;
    for op in ops {
        match op {
            IoOp::Write { bytes } => written.extend_from_slice(bytes),
            IoOp::ReadBytes { count } => reads += count,
        }
    }
    (written, reads)
}

#[test]
fn chip_select_lines() {
    assert_eq!(write_bytes(&chip_select()[0]), vec![0x80, 0x00, 0x93]);
    assert_eq!(write_bytes(&chip_deselect()[0]), vec![0x80, 0x00, 0x83]);
    assert_eq!(write_bytes(&release_reset()[0]), vec![0x80, 0x00, 0x03]);
}

#[test]
fn single_opcode_commands() {
    for (ops, opcode) in [
        (power_up(), 0xAB),
        (power_down(), 0xB9),
        (write_enable(), 0x06),
        (bulk_erase(), 0xC7),
    ] {
        let (written, reads) = wire_trace(&ops);
        assert_eq!(
            written,
            vec![0x80, 0x00, 0x93, 0x31, 0x00, 0x00, opcode, 0x80, 0x00, 0x83]
        );
        assert_eq!(reads, 1);
    }
}

#[test]
fn sector_erase_encodings() {
    let cases = [
        (BlockErase::FourK, 0x20u8),
        (BlockErase::ThirtyTwoK, 0x52),
        (BlockErase::SixtyFourK, 0xD8),
    ];
    for (block, opcode) in cases {
        let ops = sector_erase(block, 0x0ABCDE);
        let (written, reads) = wire_trace(&ops);
        assert_eq!(
            written,
            vec![
                0x80, 0x00, 0x93, // select
                0x11, 0x03, 0x00, opcode, 0x0A, 0xBC, 0xDE, // opcode + address
                0x80, 0x00, 0x83, // deselect
            ]
        );
        assert_eq!(reads, 0);
    }
}

#[test]
fn prog_encodes_address_then_payload() {
    let data = vec![0xDE, 0xAD];
    let ops = prog(0x000100, &data);
    let (written, reads) = wire_trace(&ops);
    assert_eq!(
        written,
        vec![
            0x80, 0x00, 0x93, // select
            0x11, 0x03, 0x00, 0x02, 0x00, 0x01, 0x00, // page program + address
            0x11, 0x01, 0x00, 0xDE, 0xAD, // payload
            0x80, 0x00, 0x83, // deselect
        ]
    );
    assert_eq!(reads, 0);
}

#[test]
fn read_encodes_address_and_pulls_data() {
    let ops = read(0x000200, 4);
    let (written, reads) = wire_trace(&ops);
    assert_eq!(
        written,
        vec![
            0x80, 0x00, 0x93, // select
            0x11, 0x03, 0x00, 0x03, 0x00, 0x02, 0x00, // read data + address
            0x31, 0x03, 0x00, 0x00, 0x00, 0x00, 0x00, // four don't-care bytes
            0x80, 0x00, 0x83, // deselect
        ]
    );
    assert_eq!(reads, 4);
}

#[test]
fn read_status_pulls_two_bytes() {
    let ops = read_status();
    let (written, reads) = wire_trace(&ops);
    assert_eq!(
        written,
        vec![0x80, 0x00, 0x93, 0x31, 0x01, 0x00, 0x05, 0x05, 0x80, 0x00, 0x83]
    );
    assert_eq!(reads, 2);
    assert_eq!(status_from_response(&vec![0x05, 0x42]), 0x42);
}

#[test]
fn status_bits() {
    assert!(status_busy(0x01));
    assert!(!status_busy(0x02));
    assert!(status_write_enabled(0x02));
    assert!(!status_write_enabled(0x01));
    assert_eq!(status_protection(0b0000_1100), 3);
    assert_eq!(status_protection(0b0000_0100), 1);
    assert_eq!(status_protection(0x00), 0);
}

#[test]
fn reset_flushes_partial_commands() {
    let ops = reset();
    let (written, reads) = wire_trace(&ops);
    assert_eq!(
        written,
        vec![
            0x80, 0x00, 0x93, // select
            0x31, 0x07, 0x00, 0xFF, 0xFF, 0xFF, 0xFF, 0xFF, 0xFF, 0xFF, 0xFF, // 8 dummies
            0x80, 0x00, 0x83, // deselect
            0x80, 0x00, 0x93, // select
            0x33, 0x01, 0xFF, // 2-bit dummy clock
            0x80, 0x00, 0x83, // deselect
        ]
    );
    assert_eq!(reads, 8 + 1);
}

#[test]
fn disable_protection_writes_zero() {
    let ops = disable_protection();
    let (written, _) = wire_trace(&ops);
    assert_eq!(
        written,
        vec![0x80, 0x00, 0x93, 0x31, 0x01, 0x00, 0x01, 0x00, 0x80, 0x00, 0x83]
    );
    assert!(protection_cleared(0x00));
    assert!(!protection_cleared(0x1C));
}

#[test]
fn jedec_id_with_no_extended_string() {
    let ops = read_id();
    let (written, reads) = wire_trace(&ops);
    assert_eq!(
        written,
        vec![0x80, 0x00, 0x93, 0x31, 0x04, 0x00, 0x9F, 0x9F, 0x9F, 0x9F, 0x9F]
    );
    assert_eq!(reads, 5);

    let summary = parse_jedec(&vec![0x9F, 0xEF, 0x40, 0x18, 0x00]).unwrap();
    assert_eq!(summary.mfg, 0xEF);
    assert_eq!(summary.dev1, 0x40);
    assert_eq!(summary.dev2, 0x18);
    assert_eq!(summary.ext_len, 0);

    let id = DeviceIdentity::from_parts(summary, &vec![]);
    assert_eq!(id.extended, Vec::<u8>::new());
    assert_eq!(id.render(), b"0xEF 0x40 0x18 ".to_vec());
}

#[test]
fn jedec_id_floating_line_is_read_error() {
    let r = parse_jedec(&vec![0x9F, 0xFF, 0xFF, 0xFF, 0xFF]);
    assert!(matches!(r, Err(ArrangeError::ReadError)));
}

#[test]
fn jedec_extended_string_fetch() {
    let summary = parse_jedec(&vec![0x9F, 0x1F, 0x26, 0x00, 0x03]).unwrap();
    assert_eq!(summary.ext_len, 3);

    let ops = read_extended_id(summary.ext_len);
    let (written, reads) = wire_trace(&ops);
    assert_eq!(written, vec![0x31, 0x02, 0x00, 0x00, 0x00, 0x00]);
    assert_eq!(reads, 3);

    let id = DeviceIdentity::from_parts(summary, &vec![0x00, 0x10, 0x20]);
    assert_eq!(id.extended, vec![0x10, 0x20]);
    assert_eq!(id.render(), b"0x1F 0x26 0x00 0x10 0x20 ".to_vec());
}

#[test]
fn identity_rendering_pads_hex_digits() {
    let summary = parse_jedec(&vec![0x9F, 0x00, 0x0A, 0xF0, 0x00]).unwrap();
    let id = DeviceIdentity::from_parts(summary, &vec![]);
    assert_eq!(id.render(), b"0x00 0x0A 0xF0 ".to_vec());
}

#[test]
fn flash_command_bytes() {
    assert_eq!(FlashCommand::WE.byte(), 0x06);
    assert_eq!(FlashCommand::JEDECID.byte(), 0x9F);
    assert_eq!(FlashCommand::RD.byte(), 0x03);
    assert_eq!(FlashCommand::PP.byte(), 0x02);
    assert_eq!(FlashCommand::SE.byte(), 0x20);
    assert_eq!(FlashCommand::BE32.byte(), 0x52);
    assert_eq!(FlashCommand::BE64.byte(), 0xD8);
    assert_eq!(FlashCommand::CE.byte(), 0xC7);
    assert_eq!(FlashCommand::RSR1.byte(), 0x05);
    assert_eq!(FlashCommand::WSR1.byte(), 0x01);
    assert_eq!(FlashCommand::RPD.byte(), 0xAB);
    assert_eq!(FlashCommand::PD.byte(), 0xB9);
}

#[test]
fn block_geometry() {
    assert_eq!(BlockErase::FourK.kib(), 4);
    assert_eq!(BlockErase::ThirtyTwoK.kib(), 32);
    assert_eq!(BlockErase::SixtyFourK.kib(), 64);
    assert_eq!(BlockErase::FourK.block_size(), 4096);
    assert_eq!(BlockErase::ThirtyTwoK.block_size(), 32768);
    assert_eq!(BlockErase::SixtyFourK.block_size(), 65536);
}

#[test]
fn wait_steps_need_three_consecutive_ready_polls() {
    // busy, ready, busy, ready, ready, ready: exactly six polls.
    let statuses = vec![0x01, 0x00, 0x01, 0x00, 0x00, 0x00];
    assert_eq!(wait_polls(&statuses), Some(6));

    let mut count = 0u8;
    let mut polls = 0usize;
    for s in &statuses {
        polls += 1;
        match wait_step(count, *s) {
            Some(c) => count = c,
            None => break,
        }
    }
    assert_eq!(polls, 6);
}

#[test]
fn wait_does_not_stop_early() {
    // Never three in a row: still polling when the stream runs out.
    let statuses = vec![0x00, 0x00, 0x01, 0x00, 0x00, 0x01];
    assert_eq!(wait_polls(&statuses), None);
    // Three immediately-ready polls stop at the third.
    assert_eq!(wait_polls(&vec![0x00, 0x00, 0x00, 0x00]), Some(3));
}
