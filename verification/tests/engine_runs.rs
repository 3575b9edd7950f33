//! The programming orchestrator, run against a simulated flash.

use arrange_ftdi::engine::{erase_addresses, Action, ProgramEngine};
use arrange_ftdi::error::ArrangeError;
use arrange_ftdi::flash::BlockErase;

/// What one simulated programming cycle did.
struct Trace {
    outcome: Result<bool, ArrangeError>,
    erases: Vec<usize>,
    progs: Vec<(usize, usize)>,
    reads: Vec<(usize, usize)>,
}

/// Drives an engine against an in-memory flash model. Erasing sets a block
/// to 0xFF, programming writes the page data. When `corrupt_after_prog` is
/// set, that byte of the model is overwritten once programming is done,
/// before the verify pass reads it back.
fn run(
    buffer: Vec<u8>,
    block: BlockErase,
    flash: &mut Vec<u8>,
    corrupt_after_prog: Option<(usize, u8)>,
) -> Trace {
    let mut engine = ProgramEngine::new(buffer, block);
    let mut trace = Trace {
        outcome: Ok(false),
        erases: Vec::new(),
        progs: Vec::new(),
        reads: Vec::new(),
    };
    let mut corrupted = false;
    loop {
        match engine.next_action() {
            Action::Read { addr, len } => {
                if !trace.progs.is_empty() && !corrupted {
                    if let Some((at, value)) = corrupt_after_prog {
                        flash[at] = value;
                    }
                    corrupted = true;
                }
                trace.reads.push((addr, len));
                let data = flash[addr..addr + len].to_vec();
                engine.handle_read(&data);
            }
            Action::EraseBlock { addr } => {
                trace.erases.push(addr);
                let end = (addr + block.block_size()).min(flash.len());
                for b in &mut flash[addr..end] {
                    *b = 0xFF;
                }
                engine.handle_done();
            }
            Action::ProgramPage { addr, len } => {
                trace.progs.push((addr, len));
                let data = engine.page_data();
                assert_eq!(data.len(), len);
                flash[addr..addr + len].copy_from_slice(&data);
                engine.handle_done();
            }
            Action::Finish { outcome } => {
                trace.outcome = outcome;
                return trace;
            }
        }
    }
}

#[test]
fn skip_path_when_flash_already_matches() {
    let buffer: Vec<u8> = (0..=255).cycle().take(1000).map(|b: u16| b as u8).collect();
    let mut flash = buffer.clone();
    let trace = run(buffer, BlockErase::SixtyFourK, &mut flash, None);
    assert_eq!(trace.outcome, Ok(false));
    assert_eq!(trace.erases, Vec::<usize>::new());
    assert_eq!(trace.progs, Vec::<(usize, usize)>::new());
    assert_eq!(trace.reads, vec![(0, 256), (256, 256), (512, 256), (768, 232)]);
}

#[test]
fn blank_flash_scenario_300_bytes() {
    let buffer = vec![0x42u8; 300];
    let mut flash = vec![0xFFu8; 300];
    let trace = run(buffer.clone(), BlockErase::SixtyFourK, &mut flash, None);
    assert_eq!(trace.outcome, Ok(true));
    assert_eq!(trace.erases, vec![0]);
    assert_eq!(trace.progs, vec![(0, 256), (256, 44)]);
    // The pre-check stopped at the first difference; the verify pass then
    // read all 300 bytes back and they matched.
    assert_eq!(trace.reads, vec![(0, 256), (0, 256), (256, 44)]);
    assert_eq!(flash, buffer);
}

#[test]
fn erase_pass_covers_buffer_with_4k_blocks() {
    let buffer = vec![0xA5u8; 10000];
    let mut flash = vec![0x00u8; 10000];
    let trace = run(buffer, BlockErase::FourK, &mut flash, None);
    assert_eq!(trace.outcome, Ok(true));
    // ceil(10000 / 4096) = 3 blocks, each a multiple of 4096.
    assert_eq!(trace.erases, vec![0, 4096, 8192]);
}

#[test]
fn program_pass_chunks_cover_buffer() {
    let n = 700;
    let buffer = vec![0x3Cu8; n];
    let mut flash = vec![0x00u8; n];
    let trace = run(buffer, BlockErase::SixtyFourK, &mut flash, None);
    assert_eq!(trace.outcome, Ok(true));
    // ceil(700 / 256) = 3 chunks: contiguous, non-overlapping, union [0, n).
    assert_eq!(trace.progs, vec![(0, 256), (256, 256), (512, 188)]);
    let mut next = 0;
    for (addr, len) in &trace.progs {
        assert_eq!(*addr, next);
        assert!(*len >= 1 && *len <= 256);
        next = addr + len;
    }
    assert_eq!(next, n);
}

#[test]
fn verify_fails_on_a_single_corrupted_byte() {
    let buffer = vec![0x42u8; 300];
    let mut flash = vec![0xFFu8; 300];
    let trace = run(
        buffer,
        BlockErase::SixtyFourK,
        &mut flash,
        Some((299, 0x43)),
    );
    assert_eq!(trace.outcome, Err(ArrangeError::WriteError));
    assert_eq!(trace.erases, vec![0]);
    assert_eq!(trace.progs, vec![(0, 256), (256, 44)]);
}

#[test]
fn empty_buffer_finishes_immediately() {
    let mut flash = Vec::new();
    let trace = run(Vec::new(), BlockErase::SixtyFourK, &mut flash, None);
    assert_eq!(trace.outcome, Ok(false));
    assert!(trace.reads.is_empty());
    assert!(trace.erases.is_empty());
    assert!(trace.progs.is_empty());
}

#[test]
fn one_byte_buffer_programs_one_chunk() {
    let buffer = vec![0x7Eu8];
    let mut flash = vec![0x00u8];
    let trace = run(buffer, BlockErase::SixtyFourK, &mut flash, None);
    assert_eq!(trace.outcome, Ok(true));
    assert_eq!(trace.erases, vec![0]);
    assert_eq!(trace.progs, vec![(0, 1)]);
    assert_eq!(flash, vec![0x7E]);
}

#[test]
fn erase_pass_with_32k_blocks() {
    let n = 40000;
    let buffer = vec![0x11u8; n];
    let mut flash = vec![0x22u8; n];
    let trace = run(buffer, BlockErase::ThirtyTwoK, &mut flash, None);
    assert_eq!(trace.outcome, Ok(true));
    // ceil(40000 / 32768) = 2 blocks.
    assert_eq!(trace.erases, vec![0, 32768]);
    assert_eq!(trace.progs.len(), (n + 255) / 256);
}

#[test]
fn mismatch_in_a_late_chunk_still_programs_everything() {
    let n = 600;
    let buffer = vec![0x55u8; n];
    let mut flash = buffer.clone();
    // Only the very last byte differs: the pre-check reads up to it, then
    // the full erase and program passes run.
    flash[n - 1] = 0xAA;
    let trace = run(buffer, BlockErase::SixtyFourK, &mut flash, None);
    assert_eq!(trace.outcome, Ok(true));
    assert_eq!(trace.erases, vec![0]);
    assert_eq!(trace.progs, vec![(0, 256), (256, 256), (512, 88)]);
    assert_eq!(
        trace.reads[..3],
        [(0, 256), (256, 256), (512, 88)],
        "the pre-check walked to the differing chunk"
    );
}

#[test]
fn erase_addresses_at_offset_zero() {
    let addrs = erase_addresses(0, 300, BlockErase::SixtyFourK);
    assert_eq!(addrs, vec![0]);
    let addrs = erase_addresses(0, 65537, BlockErase::SixtyFourK);
    assert_eq!(addrs, vec![0, 65536]);
}

#[test]
fn erase_addresses_align_around_offset() {
    // [5000, 15000) needs the 4 KiB blocks from 4096 up to 16384.
    let addrs = erase_addresses(5000, 10000, BlockErase::FourK);
    assert_eq!(addrs, vec![4096, 8192, 12288]);
    // An exactly aligned range stays exact.
    let addrs = erase_addresses(4096, 8192, BlockErase::FourK);
    assert_eq!(addrs, vec![4096, 8192]);
}
