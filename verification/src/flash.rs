//! SPI NOR flash command set and response interpretation.
//!
//! Every flash operation is a chip-select-framed SPI command sequence. The
//! builders here return the exact transport operations (writes and expected
//! reads, see [`crate::mpsse::IoOp`]) that perform one operation; the parsing
//! functions interpret the bytes a caller read back. Chip-select and reset
//! are two independent active-low lines multiplexed into the low GPIO byte.

use vstd::prelude::*;

use crate::error::ArrangeError;
use crate::mpsse::{
    lemma_ops_view_concat, ops_view, send_spi, set_gpio, spec_send_spi_ops, spec_set_gpio_ops,
    spec_transfer_spi_bits_ops, spec_transfer_spi_ops, transfer_spi, transfer_spi_bits, IoOp,
    SpecIoOp,
};

verus! {

/// Flash command opcodes. Only the literal byte value of each command
/// matters on the wire; see [`FlashCommand::byte`].
#[allow(non_camel_case_types)]
#[derive(Clone, Copy, Debug, PartialEq, Eq, Structural)]
pub enum FlashCommand {
    /// Write enable
    WE,
    /// Volatile status-register write enable
    SRWE,
    /// Write disable
    WD,
    /// Release power-down, returns device id
    RPD,
    /// Read manufacturer/device id
    MFGID,
    /// Read JEDEC id
    JEDECID,
    /// Read unique id
    UID,
    /// Read data
    RD,
    /// Fast read
    FR,
    /// Page program
    PP,
    /// Sector erase, 4 KiB
    SE,
    /// Block erase, 32 KiB
    BE32,
    /// Block erase, 64 KiB
    BE64,
    /// Chip erase
    CE,
    /// Read status register 1
    RSR1,
    /// Write status register 1
    WSR1,
    /// Read status register 2
    RSR2,
    /// Write status register 2
    WSR2,
    /// Read status register 3
    RSR3,
    /// Write status register 3
    WSR3,
    /// Read SFDP register
    RSFDP,
    /// Erase security register
    ESR,
    /// Program security register
    PSR,
    /// Read security register
    RSR,
    /// Global block lock
    GBL,
    /// Global block unlock
    GBU,
    /// Read block lock
    RBL,
    /// Read sector protection registers
    RPR,
    /// Individual block lock
    IBL,
    /// Individual block unlock
    IBU,
    /// Erase / program suspend
    EPS,
    /// Erase / program resume
    EPR,
    /// Power-down
    PD,
    /// Enter QPI mode
    QPI,
    /// Enable reset
    ERESET,
    /// Reset device
    RESET,
}

impl FlashCommand {
    /// The single-byte wire encoding of this command.
    pub open spec fn spec_byte(self) -> u8 {
        match self {
            FlashCommand::WE => 0x06,
            FlashCommand::SRWE => 0x50,
            FlashCommand::WD => 0x04,
            FlashCommand::RPD => 0xAB,
            FlashCommand::MFGID => 0x90,
            FlashCommand::JEDECID => 0x9F,
            FlashCommand::UID => 0x4B,
            FlashCommand::RD => 0x03,
            FlashCommand::FR => 0x0B,
            FlashCommand::PP => 0x02,
            FlashCommand::SE => 0x20,
            FlashCommand::BE32 => 0x52,
            FlashCommand::BE64 => 0xD8,
            FlashCommand::CE => 0xC7,
            FlashCommand::RSR1 => 0x05,
            FlashCommand::WSR1 => 0x01,
            FlashCommand::RSR2 => 0x35,
            FlashCommand::WSR2 => 0x31,
            FlashCommand::RSR3 => 0x15,
            FlashCommand::WSR3 => 0x11,
            FlashCommand::RSFDP => 0x5A,
            FlashCommand::ESR => 0x44,
            FlashCommand::PSR => 0x42,
            FlashCommand::RSR => 0x48,
            FlashCommand::GBL => 0x7E,
            FlashCommand::GBU => 0x98,
            FlashCommand::RBL => 0x3D,
            FlashCommand::RPR => 0x3C,
            FlashCommand::IBL => 0x36,
            FlashCommand::IBU => 0x39,
            FlashCommand::EPS => 0x75,
            FlashCommand::EPR => 0x7A,
            FlashCommand::PD => 0xB9,
            FlashCommand::QPI => 0x38,
            FlashCommand::ERESET => 0x66,
            FlashCommand::RESET => 0x99,
        }
    }

    /// The single-byte wire encoding of this command.
    #[verifier::when_used_as_spec(spec_byte)]
    pub fn byte(self) -> (b: u8)
        ensures
            b == self.spec_byte(),
    {
        match self {
            FlashCommand::WE => 0x06,
            FlashCommand::SRWE => 0x50,
            FlashCommand::WD => 0x04,
            FlashCommand::RPD => 0xAB,
            FlashCommand::MFGID => 0x90,
            FlashCommand::JEDECID => 0x9F,
            FlashCommand::UID => 0x4B,
            FlashCommand::RD => 0x03,
            FlashCommand::FR => 0x0B,
            FlashCommand::PP => 0x02,
            FlashCommand::SE => 0x20,
            FlashCommand::BE32 => 0x52,
            FlashCommand::BE64 => 0xD8,
            FlashCommand::CE => 0xC7,
            FlashCommand::RSR1 => 0x05,
            FlashCommand::WSR1 => 0x01,
            FlashCommand::RSR2 => 0x35,
            FlashCommand::WSR2 => 0x31,
            FlashCommand::RSR3 => 0x15,
            FlashCommand::WSR3 => 0x11,
            FlashCommand::RSFDP => 0x5A,
            FlashCommand::ESR => 0x44,
            FlashCommand::PSR => 0x42,
            FlashCommand::RSR => 0x48,
            FlashCommand::GBL => 0x7E,
            FlashCommand::GBU => 0x98,
            FlashCommand::RBL => 0x3D,
            FlashCommand::RPR => 0x3C,
            FlashCommand::IBL => 0x36,
            FlashCommand::IBU => 0x39,
            FlashCommand::EPS => 0x75,
            FlashCommand::EPR => 0x7A,
            FlashCommand::PD => 0xB9,
            FlashCommand::QPI => 0x38,
            FlashCommand::ERESET => 0x66,
            FlashCommand::RESET => 0x99,
        }
    }
}

/// The three supported erase-block geometries.
#[derive(Clone, Copy, Debug, PartialEq, Eq, Structural)]
pub enum BlockErase {
    FourK,
    ThirtyTwoK,
    SixtyFourK,
}

impl BlockErase {
    /// Block size in KiB.
    pub open spec fn spec_kib(self) -> usize {
        match self {
            BlockErase::FourK => 4,
            BlockErase::ThirtyTwoK => 32,
            BlockErase::SixtyFourK => 64,
        }
    }

    /// Block size in KiB.
    #[verifier::when_used_as_spec(spec_kib)]
    pub fn kib(self) -> (k: usize)
        ensures
            k == self.spec_kib(),
    {
        match self {
            BlockErase::FourK => 4,
            BlockErase::ThirtyTwoK => 32,
            BlockErase::SixtyFourK => 64,
        }
    }

    /// Block size in bytes: 4 KiB, 32 KiB or 64 KiB.
    pub open spec fn spec_block_size(self) -> usize {
        match self {
            BlockErase::FourK => 4096,
            BlockErase::ThirtyTwoK => 32768,
            BlockErase::SixtyFourK => 65536,
        }
    }

    /// Block size in bytes: 4 KiB, 32 KiB or 64 KiB.
    #[verifier::when_used_as_spec(spec_block_size)]
    pub fn block_size(self) -> (n: usize)
        ensures
            n == self.spec_block_size(),
    {
        match self {
            BlockErase::FourK => 4096,
            BlockErase::ThirtyTwoK => 32768,
            BlockErase::SixtyFourK => 65536,
        }
    }

    /// The erase opcode paired with this block size.
    pub open spec fn spec_opcode(self) -> u8 {
        match self {
            BlockErase::FourK => FlashCommand::SE.spec_byte(),
            BlockErase::ThirtyTwoK => FlashCommand::BE32.spec_byte(),
            BlockErase::SixtyFourK => FlashCommand::BE64.spec_byte(),
        }
    }

    /// The erase opcode paired with this block size.
    #[verifier::when_used_as_spec(spec_opcode)]
    pub fn opcode(self) -> (b: u8)
        ensures
            b == self.spec_opcode(),
    {
        match self {
            BlockErase::FourK => FlashCommand::SE.byte(),
            BlockErase::ThirtyTwoK => FlashCommand::BE32.byte(),
            BlockErase::SixtyFourK => FlashCommand::BE64.byte(),
        }
    }
}

/// Direction mask of the low GPIO byte. The two low bits (clock, data out)
/// always drive; chip-select and reset drive low exactly when asserted.
pub open spec fn spec_gpio_direction(cs_low: bool, creset_low: bool) -> u8 {
    ((0x03int + (if cs_low {
        0x10int
    } else {
        0x00int
    }) + (if creset_low {
        0x80int
    } else {
        0x00int
    })) as u8)
}

/// Operations that drive the chip-select and reset lines. Both lines are
/// active low: a line is pulled low by driving its pin (direction bit set)
/// with an output value of zero.
pub open spec fn spec_cs_creset_ops(cs_low: bool, creset_low: bool) -> Seq<SpecIoOp> {
    spec_set_gpio_ops(0, spec_gpio_direction(cs_low, creset_low))
}

/// Encodes driving the chip-select and reset lines; `true` asserts (pulls
/// low) the corresponding active-low line.
pub fn set_cs_creset(cs_low: bool, creset_low: bool) -> (ops: Vec<IoOp>)
    ensures
        ops_view(ops@) == spec_cs_creset_ops(cs_low, creset_low),
{
    let mut direction: u8 = 0x03;
    if cs_low {
        direction = direction + 0x10;
    }
    if creset_low {
        direction = direction + 0x80;
    }
    set_gpio(0, direction)
}

/// Operations that assert chip-select, keeping reset asserted.
pub open spec fn spec_chip_select_ops() -> Seq<SpecIoOp> {
    spec_cs_creset_ops(true, true)
}

/// Encodes asserting chip-select for a command sequence.
pub fn chip_select() -> (ops: Vec<IoOp>)
    ensures
        ops_view(ops@) == spec_chip_select_ops(),
{
    set_cs_creset(true, true)
}

/// Operations that deassert chip-select, keeping reset asserted.
pub open spec fn spec_chip_deselect_ops() -> Seq<SpecIoOp> {
    spec_cs_creset_ops(false, true)
}

/// Encodes deasserting chip-select after a command sequence.
pub fn chip_deselect() -> (ops: Vec<IoOp>)
    ensures
        ops_view(ops@) == spec_chip_deselect_ops(),
{
    set_cs_creset(false, true)
}

/// Operations that release both lines, bringing the part out of
/// programming mode.
pub open spec fn spec_release_reset_ops() -> Seq<SpecIoOp> {
    spec_cs_creset_ops(false, false)
}

/// Encodes releasing chip-select and reset.
pub fn release_reset() -> (ops: Vec<IoOp>)
    ensures
        ops_view(ops@) == spec_release_reset_ops(),
{
    set_cs_creset(false, false)
}

/// Appends `more` to `ops`, concatenating their transport images.
fn append_ops(ops: &mut Vec<IoOp>, more: Vec<IoOp>)
    ensures
        ops_view(final(ops)@) == ops_view(old(ops)@) + ops_view(more@),
{
    let mut m = more;
    proof {
        lemma_ops_view_concat(ops@, m@);
    }
    ops.append(&mut m);
}

/// The three big-endian address bytes of a 24-bit flash address.
pub open spec fn spec_addr_bytes(addr: nat) -> Seq<u8>
    recommends
        addr < 0x1000000,
{
    seq![((addr / 0x10000) % 256) as u8, ((addr / 0x100) % 256) as u8, (addr % 256) as u8]
}

/// An opcode followed by the three big-endian address bytes.
fn opcode_addr(opcode: u8, addr: usize) -> (cmd: Vec<u8>)
    requires
        addr < 0x1000000,
    ensures
        cmd@ == seq![opcode] + spec_addr_bytes(addr as nat),
{
    let mut cmd: Vec<u8> = Vec::new();
    cmd.push(opcode);
    cmd.push(((addr / 0x10000) % 256) as u8);
    cmd.push(((addr / 0x100) % 256) as u8);
    cmd.push((addr % 256) as u8);
    assert(cmd@ =~= seq![opcode] + spec_addr_bytes(addr as nat));
    cmd
}

/// Operations of a flash reset: eight dummy 0xFF bytes clocked through,
/// then a two-bit dummy clock, flushing any partial command the part may be
/// mid-way through. Each half is framed by chip-select.
pub open spec fn spec_reset_ops() -> Seq<SpecIoOp> {
    spec_chip_select_ops() + spec_transfer_spi_ops(
        seq![0xFFu8, 0xFF, 0xFF, 0xFF, 0xFF, 0xFF, 0xFF, 0xFF],
    ) + spec_chip_deselect_ops() + spec_chip_select_ops() + spec_transfer_spi_bits_ops(0xFF, 2)
        + spec_chip_deselect_ops()
}

/// Encodes a flash reset sequence.
pub fn reset() -> (ops: Vec<IoOp>)
    ensures
        ops_view(ops@) == spec_reset_ops(),
{
    let mut cmd: Vec<u8> = Vec::new();
    let mut i: usize = 0;
    while i < 8
        invariant
            i <= 8,
            cmd@ == Seq::new(i as nat, |j: int| 0xFFu8),
        decreases 8 - i,
    {
        cmd.push(0xFF);
        i = i + 1;
        assert(cmd@ =~= Seq::new(i as nat, |j: int| 0xFFu8));
    }
    assert(cmd@ =~= seq![0xFFu8, 0xFF, 0xFF, 0xFF, 0xFF, 0xFF, 0xFF, 0xFF]);
    let mut ops = chip_select();
    append_ops(&mut ops, transfer_spi(&cmd));
    append_ops(&mut ops, chip_deselect());
    append_ops(&mut ops, chip_select());
    append_ops(&mut ops, transfer_spi_bits(0xFF, 2));
    append_ops(&mut ops, chip_deselect());
    assert(ops_view(ops@) =~= spec_reset_ops());
    ops
}

/// Operations of a one-opcode command framed by chip-select.
pub open spec fn spec_single_command_ops(opcode: u8) -> Seq<SpecIoOp> {
    spec_chip_select_ops() + spec_transfer_spi_ops(seq![opcode]) + spec_chip_deselect_ops()
}

/// Encodes a single-opcode, chip-select-framed command; one echo byte
/// comes back and is discarded by the caller.
fn single_command(opcode: u8) -> (ops: Vec<IoOp>)
    ensures
        ops_view(ops@) == spec_single_command_ops(opcode),
{
    let mut cmd: Vec<u8> = Vec::new();
    cmd.push(opcode);
    let mut ops = chip_select();
    append_ops(&mut ops, transfer_spi(&cmd));
    append_ops(&mut ops, chip_deselect());
    assert(ops_view(ops@) =~= spec_single_command_ops(opcode));
    ops
}

/// Encodes Release-Power-Down.
pub fn power_up() -> (ops: Vec<IoOp>)
    ensures
        ops_view(ops@) == spec_single_command_ops(FlashCommand::RPD.spec_byte()),
{
    single_command(FlashCommand::RPD.byte())
}

/// Encodes Power-Down.
pub fn power_down() -> (ops: Vec<IoOp>)
    ensures
        ops_view(ops@) == spec_single_command_ops(FlashCommand::PD.spec_byte()),
{
    single_command(FlashCommand::PD.byte())
}

/// Encodes Write-Enable. Erase and program operations clear the
/// write-enable latch when they complete, so this must run immediately
/// before every one of them.
pub fn write_enable() -> (ops: Vec<IoOp>)
    ensures
        ops_view(ops@) == spec_single_command_ops(FlashCommand::WE.spec_byte()),
{
    single_command(FlashCommand::WE.byte())
}

/// Encodes Chip-Erase.
pub fn bulk_erase() -> (ops: Vec<IoOp>)
    ensures
        ops_view(ops@) == spec_single_command_ops(FlashCommand::CE.spec_byte()),
{
    single_command(FlashCommand::CE.byte())
}

/// Operations of a status-register read: the opcode clocked through twice,
/// returning the echo byte then the register value.
pub open spec fn spec_read_status_ops() -> Seq<SpecIoOp> {
    spec_chip_select_ops() + spec_transfer_spi_ops(
        seq![FlashCommand::RSR1.spec_byte(), FlashCommand::RSR1.spec_byte()],
    ) + spec_chip_deselect_ops()
}

/// Encodes Read-Status-Register-1; two response bytes come back.
pub fn read_status() -> (ops: Vec<IoOp>)
    ensures
        ops_view(ops@) == spec_read_status_ops(),
{
    let mut cmd: Vec<u8> = Vec::new();
    cmd.push(FlashCommand::RSR1.byte());
    cmd.push(FlashCommand::RSR1.byte());
    assert(cmd@ =~= seq![FlashCommand::RSR1.spec_byte(), FlashCommand::RSR1.spec_byte()]);
    let mut ops = chip_select();
    append_ops(&mut ops, transfer_spi(&cmd));
    append_ops(&mut ops, chip_deselect());
    assert(ops_view(ops@) =~= spec_read_status_ops());
    ops
}

/// The status-register byte in a status-read response: the second byte.
/// The first byte is the opcode echo and is discarded.
pub fn status_from_response(resp: &Vec<u8>) -> (status: u8)
    requires
        resp@.len() == 2,
    ensures
        status == resp@[1],
{
    resp[1]
}

/// Busy/ready bit of the status register: an erase or program operation is
/// still in progress while it is set.
pub open spec fn spec_status_busy(status: u8) -> bool {
    status & 0x01 != 0
}

/// Whether the busy bit of a status-register byte is set.
#[verifier::when_used_as_spec(spec_status_busy)]
pub fn status_busy(status: u8) -> (b: bool)
    ensures
        b == spec_status_busy(status),
{
    status & 0x01 != 0
}

/// Whether the write-enable latch of a status-register byte is set.
pub open spec fn spec_status_write_enabled(status: u8) -> bool {
    status & 0x02 != 0
}

/// Whether the write-enable latch of a status-register byte is set.
#[verifier::when_used_as_spec(spec_status_write_enabled)]
pub fn status_write_enabled(status: u8) -> (b: bool)
    ensures
        b == spec_status_write_enabled(status),
{
    status & 0x02 != 0
}

/// The two protection-range bits of a status-register byte.
pub open spec fn spec_status_protection(status: u8) -> u8 {
    (status >> 2) & 0x03
}

/// The two protection-range bits of a status-register byte.
#[verifier::when_used_as_spec(spec_status_protection)]
pub fn status_protection(status: u8) -> (p: u8)
    ensures
        p == spec_status_protection(status),
{
    (status >> 2) & 0x03
}

/// Operations of a sector erase: the opcode matching the block size, then
/// the three big-endian address bytes, framed by chip-select.
pub open spec fn spec_sector_erase_ops(block: BlockErase, addr: nat) -> Seq<SpecIoOp>
    recommends
        addr < 0x1000000,
{
    spec_chip_select_ops() + spec_send_spi_ops(
        seq![block.spec_opcode()] + spec_addr_bytes(addr),
    ) + spec_chip_deselect_ops()
}

/// Encodes a block erase of the given geometry at a 24-bit address.
pub fn sector_erase(block: BlockErase, addr: usize) -> (ops: Vec<IoOp>)
    requires
        addr < 0x1000000,
    ensures
        ops_view(ops@) == spec_sector_erase_ops(block, addr as nat),
{
    let cmd = opcode_addr(block.opcode(), addr);
    let mut ops = chip_select();
    append_ops(&mut ops, send_spi(&cmd));
    append_ops(&mut ops, chip_deselect());
    assert(ops_view(ops@) =~= spec_sector_erase_ops(block, addr as nat));
    ops
}

/// Operations of a page program: Page-Program plus the address sent first,
/// the payload sent as a second half-duplex send within the same
/// chip-select assertion.
pub open spec fn spec_prog_ops(addr: nat, data: Seq<u8>) -> Seq<SpecIoOp>
    recommends
        addr < 0x1000000,
        data.len() <= 256,
{
    spec_chip_select_ops() + spec_send_spi_ops(
        seq![FlashCommand::PP.spec_byte()] + spec_addr_bytes(addr),
    ) + spec_send_spi_ops(data) + spec_chip_deselect_ops()
}

/// Encodes programming `data` at a 24-bit address. The payload must not
/// exceed the part's 256-byte page size.
pub fn prog(addr: usize, data: &Vec<u8>) -> (ops: Vec<IoOp>)
    requires
        addr < 0x1000000,
        data@.len() <= 256,
    ensures
        ops_view(ops@) == spec_prog_ops(addr as nat, data@),
{
    let cmd = opcode_addr(FlashCommand::PP.byte(), addr);
    let mut ops = chip_select();
    append_ops(&mut ops, send_spi(&cmd));
    append_ops(&mut ops, send_spi(data));
    append_ops(&mut ops, chip_deselect());
    assert(ops_view(ops@) =~= spec_prog_ops(addr as nat, data@));
    ops
}

/// Operations of a data read: Read-Data plus the address sent first, then
/// `len` don't-care bytes clocked through to pull the data back. The `len`
/// response bytes are the flash contents at `addr`.
pub open spec fn spec_read_ops(addr: nat, len: nat) -> Seq<SpecIoOp>
    recommends
        addr < 0x1000000,
        len <= 0x10000,
{
    spec_chip_select_ops() + spec_send_spi_ops(
        seq![FlashCommand::RD.spec_byte()] + spec_addr_bytes(addr),
    ) + spec_transfer_spi_ops(Seq::new(len, |i: int| 0u8)) + spec_chip_deselect_ops()
}

/// Encodes reading `len` bytes of flash contents at a 24-bit address;
/// exactly `len` response bytes come back.
pub fn read(addr: usize, len: usize) -> (ops: Vec<IoOp>)
    requires
        addr < 0x1000000,
        len <= 0x10000,
    ensures
        ops_view(ops@) == spec_read_ops(addr as nat, len as nat),
{
    let cmd = opcode_addr(FlashCommand::RD.byte(), addr);
    let dummy: Vec<u8> = vec![0u8; len];
    assert(dummy@ =~= Seq::new(len as nat, |i: int| 0u8));
    let mut ops = chip_select();
    append_ops(&mut ops, send_spi(&cmd));
    append_ops(&mut ops, transfer_spi(&dummy));
    append_ops(&mut ops, chip_deselect());
    assert(ops_view(ops@) =~= spec_read_ops(addr as nat, len as nat));
    ops
}

/// Operations that write 0x00 to status register 1, clearing the
/// protection bits. The caller must write-enable first, busy-wait after,
/// then read the register back and check it with [`protection_cleared`].
pub open spec fn spec_disable_protection_ops() -> Seq<SpecIoOp> {
    spec_chip_select_ops() + spec_transfer_spi_ops(
        seq![FlashCommand::WSR1.spec_byte(), 0u8],
    ) + spec_chip_deselect_ops()
}

/// Encodes clearing status register 1 to 0x00.
pub fn disable_protection() -> (ops: Vec<IoOp>)
    ensures
        ops_view(ops@) == spec_disable_protection_ops(),
{
    let mut cmd: Vec<u8> = Vec::new();
    cmd.push(FlashCommand::WSR1.byte());
    cmd.push(0);
    assert(cmd@ =~= seq![FlashCommand::WSR1.spec_byte(), 0u8]);
    let mut ops = chip_select();
    append_ops(&mut ops, transfer_spi(&cmd));
    append_ops(&mut ops, chip_deselect());
    assert(ops_view(ops@) =~= spec_disable_protection_ops());
    ops
}

/// Whether a protection-clear attempt took: the register must read back as
/// exactly 0x00, anything else means the protection bits rejected the
/// clear.
pub fn protection_cleared(status: u8) -> (ok: bool)
    ensures
        ok == (status == 0),
{
    status == 0
}

/// Operations of a JEDEC-ID request: the opcode clocked through five times,
/// returning the echo byte, the manufacturer id, two device-id bytes, and
/// the extended-string length byte. Chip-select stays asserted so that an
/// extended-string fetch can follow; the caller deselects when done.
pub open spec fn spec_read_id_ops() -> Seq<SpecIoOp> {
    spec_chip_select_ops() + spec_transfer_spi_ops(
        Seq::new(5, |i: int| FlashCommand::JEDECID.spec_byte()),
    )
}

/// Encodes a JEDEC-ID request; five response bytes come back.
pub fn read_id() -> (ops: Vec<IoOp>)
    ensures
        ops_view(ops@) == spec_read_id_ops(),
{
    let cmd: Vec<u8> = vec![FlashCommand::JEDECID.byte(); 5];
    assert(cmd@ =~= Seq::new(5, |i: int| FlashCommand::JEDECID.spec_byte()));
    let mut ops = chip_select();
    append_ops(&mut ops, transfer_spi(&cmd));
    assert(ops_view(ops@) =~= spec_read_id_ops());
    ops
}

/// The fixed-length part of a JEDEC-ID response.
#[derive(Clone, Copy, Debug, PartialEq, Eq, Structural)]
pub struct JedecSummary {
    /// Manufacturer id.
    pub mfg: u8,
    /// First device-id byte.
    pub dev1: u8,
    /// Second device-id byte.
    pub dev2: u8,
    /// Length of the extended device string; zero when the part has none.
    pub ext_len: u8,
}

/// Interprets the five bytes a JEDEC-ID request returned. The first byte is
/// the opcode echo and is discarded. An extended-string length byte of 0xFF
/// means the line is floating or noisy, so it is a read error and no
/// extended fetch must be attempted.
pub fn parse_jedec(resp: &Vec<u8>) -> (r: Result<JedecSummary, ArrangeError>)
    requires
        resp@.len() == 5,
    ensures
        match r {
            Ok(s) => resp@[4] != 0xFF && s.mfg == resp@[1] && s.dev1 == resp@[2] && s.dev2
                == resp@[3] && s.ext_len == resp@[4],
            Err(e) => resp@[4] == 0xFF && e == ArrangeError::ReadError,
        },
{
    if resp[4] == 0xFF {
        Err(ArrangeError::ReadError)
    } else {
        Ok(
            JedecSummary {
                mfg: resp[1],
                dev1: resp[2],
                dev2: resp[3],
                ext_len: resp[4],
            },
        )
    }
}

/// Operations that pull the extended device string: `len` don't-care bytes
/// clocked through under the chip-select assertion the JEDEC-ID request
/// opened.
pub open spec fn spec_read_extended_id_ops(len: u8) -> Seq<SpecIoOp>
    recommends
        1 <= len,
{
    spec_transfer_spi_ops(Seq::new(len as nat, |i: int| 0u8))
}

/// Encodes fetching a nonzero-length extended device string; `len` response
/// bytes come back.
pub fn read_extended_id(len: u8) -> (ops: Vec<IoOp>)
    requires
        1 <= len,
    ensures
        ops_view(ops@) == spec_read_extended_id_ops(len),
{
    let dummy: Vec<u8> = vec![0u8; len as usize];
    assert(dummy@ =~= Seq::new(len as nat, |i: int| 0u8));
    let ops = transfer_spi(&dummy);
    assert(ops_view(ops@) =~= spec_read_extended_id_ops(len));
    ops
}

/// The identity a flash part reported: the fixed JEDEC bytes and the
/// extended device string, if any.
#[derive(Debug)]
pub struct DeviceIdentity {
    /// Manufacturer id.
    pub mfg: u8,
    /// First device-id byte.
    pub dev1: u8,
    /// Second device-id byte.
    pub dev2: u8,
    /// Extended device string, without its leading echo byte; empty when
    /// the part reported a zero extended length.
    pub extended: Vec<u8>,
}

impl DeviceIdentity {
    /// Assembles the identity from a parsed JEDEC summary and the bytes an
    /// extended-string fetch returned (empty when none was needed, see
    /// [`JedecSummary::ext_len`]). The first fetched byte is clocked out
    /// while the command is still shifting and is discarded.
    pub fn from_parts(summary: JedecSummary, ext_resp: &Vec<u8>) -> (id: DeviceIdentity)
        requires
            summary.ext_len != 0xFF,
            ext_resp@.len() == (if summary.ext_len == 0 {
                0int
            } else {
                summary.ext_len as int
            }),
        ensures
            id.mfg == summary.mfg,
            id.dev1 == summary.dev1,
            id.dev2 == summary.dev2,
            id.extended@ == (if summary.ext_len == 0 {
                Seq::<u8>::empty()
            } else {
                ext_resp@.subrange(1, ext_resp@.len() as int)
            }),
    {
        let mut extended: Vec<u8> = Vec::new();
        if summary.ext_len > 0 {
            let mut i: usize = 1;
            while i < ext_resp.len()
                invariant
                    1 <= i <= ext_resp@.len(),
                    extended@ == ext_resp@.subrange(1, i as int),
                decreases ext_resp@.len() - i,
            {
                extended.push(ext_resp[i]);
                i = i + 1;
                assert(extended@ =~= ext_resp@.subrange(1, i as int));
            }
        }
        assert(summary.ext_len == 0 ==> extended@ =~= Seq::<u8>::empty());
        DeviceIdentity { mfg: summary.mfg, dev1: summary.dev1, dev2: summary.dev2, extended }
    }

    /// The identity bytes in report order: manufacturer, the two device-id
    /// bytes, then the extended string.
    pub open spec fn spec_report_bytes(self) -> Seq<u8> {
        seq![self.mfg, self.dev1, self.dev2] + self.extended@
    }

    /// The human-readable rendering of the identity: each byte as `0x`, two
    /// upper-case hex digits, and a trailing space, in report order. The
    /// result is ASCII.
    pub fn render(&self) -> (text: Vec<u8>)
        ensures
            text@ == spec_hex_report(self.spec_report_bytes()),
    {
        let mut bytes: Vec<u8> = Vec::new();
        bytes.push(self.mfg);
        bytes.push(self.dev1);
        bytes.push(self.dev2);
        let mut i: usize = 0;
        while i < self.extended.len()
            invariant
                i <= self.extended@.len(),
                bytes@ == seq![self.mfg, self.dev1, self.dev2] + self.extended@.subrange(
                    0,
                    i as int,
                ),
            decreases self.extended@.len() - i,
        {
            bytes.push(self.extended[i]);
            i = i + 1;
            assert(bytes@ =~= seq![self.mfg, self.dev1, self.dev2] + self.extended@.subrange(
                0,
                i as int,
            ));
        }
        assert(bytes@ =~= self.spec_report_bytes());
        let mut text: Vec<u8> = Vec::new();
        let mut j: usize = 0;
        while j < bytes.len()
            invariant
                j <= bytes@.len(),
                bytes@ == self.spec_report_bytes(),
                text@ == spec_hex_report(bytes@.subrange(0, j as int)),
            decreases bytes@.len() - j,
        {
            let b = bytes[j];
            text.push(0x30);  // '0'
            text.push(0x78);  // 'x'
            text.push(hex_digit(b / 16));
            text.push(hex_digit(b % 16));
            text.push(0x20);  // ' '
            j = j + 1;
            proof {
                lemma_hex_report_snoc(bytes@.subrange(0, j - 1), bytes@[j - 1]);
                assert(bytes@.subrange(0, j - 1).push(bytes@[j - 1]) =~= bytes@.subrange(
                    0,
                    j as int,
                ));
                assert(text@ =~= spec_hex_report(bytes@.subrange(0, j as int)));
            }
        }
        assert(bytes@.subrange(0, bytes@.len() as int) =~= bytes@);
        text
    }
}

/// The ASCII code of one upper-case hex digit.
pub open spec fn spec_hex_digit(n: nat) -> u8
    recommends
        n < 16,
{
    if n < 10 {
        (0x30 + n) as u8
    } else {
        (0x37 + n) as u8
    }
}

/// The ASCII code of one upper-case hex digit.
fn hex_digit(n: u8) -> (d: u8)
    requires
        n < 16,
    ensures
        d == spec_hex_digit(n as nat),
{
    if n < 10 {
        0x30 + n
    } else {
        0x37 + n
    }
}

/// The ASCII rendering of one byte: `0x`, two upper-case hex digits, and a
/// trailing space.
pub open spec fn spec_hex_byte(b: u8) -> Seq<u8> {
    seq![0x30u8, 0x78u8, spec_hex_digit((b / 16) as nat), spec_hex_digit((b % 16) as nat), 0x20u8]
}

/// The ASCII rendering of a byte string, byte by byte.
pub open spec fn spec_hex_report(bytes: Seq<u8>) -> Seq<u8>
    decreases bytes.len(),
{
    if bytes.len() == 0 {
        Seq::empty()
    } else {
        spec_hex_byte(bytes[0]) + spec_hex_report(bytes.drop_first())
    }
}

/// Rendering one more byte appends its rendering.
proof fn lemma_hex_report_snoc(bytes: Seq<u8>, b: u8)
    ensures
        spec_hex_report(bytes.push(b)) == spec_hex_report(bytes) + spec_hex_byte(b),
    decreases bytes.len(),
{
    if bytes.len() == 0 {
        assert(bytes.push(b)[0] == b);
        assert(bytes.push(b).drop_first() =~= Seq::<u8>::empty());
        assert(spec_hex_report(Seq::<u8>::empty()) == Seq::<u8>::empty());
        assert(bytes =~= Seq::<u8>::empty());
        assert(spec_hex_report(bytes.push(b)) =~= spec_hex_report(bytes) + spec_hex_byte(b));
    } else {
        let t = bytes.drop_first();
        assert(bytes.push(b)[0] == bytes[0]);
        assert(bytes.push(b).drop_first() =~= t.push(b));
        lemma_hex_report_snoc(t, b);
        assert(spec_hex_report(bytes.push(b)) == spec_hex_byte(bytes[0]) + spec_hex_report(
            t.push(b),
        ));
        assert(spec_hex_byte(bytes[0]) + (spec_hex_report(t) + spec_hex_byte(b)) =~= (spec_hex_byte(
            bytes[0],
        ) + spec_hex_report(t)) + spec_hex_byte(b));
    }
}

/// One step of the busy-wait loop. `count` is how many consecutive ready
/// (busy bit clear) polls have been seen so far; the loop may stop only
/// when a third consecutive ready poll arrives, and any busy poll resets
/// the count, tolerating a status register that has not yet settled.
pub open spec fn spec_wait_step(count: u8, status: u8) -> Option<u8> {
    if spec_status_busy(status) {
        Some(0u8)
    } else if count < 2 {
        Some((count + 1) as u8)
    } else {
        None
    }
}

/// One step of the busy-wait loop: feeds one freshly read status byte in.
/// `None` means the wait is over; `Some` carries the consecutive-ready
/// count to poll again with (after a millisecond-scale sleep).
pub fn wait_step(count: u8, status: u8) -> (r: Option<u8>)
    requires
        count <= 2,
    ensures
        r == spec_wait_step(count, status),
        r matches Some(c) ==> c <= 2,
{
    if status_busy(status) {
        Some(0)
    } else if count < 2 {
        Some(count + 1)
    } else {
        None
    }
}

/// A poll count shifted by the `i` polls already made.
pub open spec fn spec_polls_after(r: Option<nat>, i: nat) -> Option<nat> {
    match r {
        None => None,
        Some(k) => Some((k + i) as nat),
    }
}

/// The number of polls the busy-wait loop makes when fed `statuses` in
/// order, starting with `count` consecutive ready polls already seen.
/// `None` means the loop is still polling when the sequence runs out.
pub open spec fn spec_wait_polls(statuses: Seq<u8>, count: u8) -> Option<nat>
    decreases statuses.len(),
{
    if statuses.len() == 0 {
        None
    } else {
        match spec_wait_step(count, statuses[0]) {
            None => Some(1nat),
            Some(c) => match spec_wait_polls(statuses.drop_first(), c) {
                None => None,
                Some(k) => Some((k + 1) as nat),
            },
        }
    }
}

/// The busy-wait loop returns only after observing the busy bit clear on
/// three consecutive polls: if it stops at poll `k` having started with
/// `count` consecutive ready polls already seen, then at least `3 - count`
/// polls happened and the last three polls (fewer only when the head start
/// covers the rest) all read ready.
pub proof fn lemma_wait_three_consecutive_ready(statuses: Seq<u8>, count: u8, k: nat)
    requires
        count <= 2,
        spec_wait_polls(statuses, count) == Some(k),
    ensures
        1 <= k <= statuses.len(),
        k + count >= 3,
        forall|j: int|
            (if k >= 3 {
                k - 3
            } else {
                0int
            }) <= j < k ==> !spec_status_busy(#[trigger] statuses[j]),
    decreases statuses.len(),
{
    let rest = statuses.drop_first();
    if spec_status_busy(statuses[0]) {
        lemma_wait_three_consecutive_ready(rest, 0, (k - 1) as nat);
        assert forall|j: int| k - 3 <= j < k implies !spec_status_busy(
            #[trigger] statuses[j],
        ) by {
            assert(!spec_status_busy(rest[j - 1]));
        }
    } else if count < 2 {
        lemma_wait_three_consecutive_ready(rest, (count + 1) as u8, (k - 1) as nat);
        assert forall|j: int|
            (if k >= 3 {
                k - 3
            } else {
                0int
            }) <= j < k implies !spec_status_busy(#[trigger] statuses[j]) by {
            if j >= 1 {
                assert(!spec_status_busy(rest[j - 1]));
            }
        }
    }
}

/// Whether the busy-wait loop, started with `c` consecutive ready polls
/// already seen, stops right after poll `j` (0-based) of `s`: the poll
/// reads ready, as did the up to two polls before it, and together with
/// the head start they make three consecutive ready observations.
pub open spec fn spec_wait_stop_at(s: Seq<u8>, c: u8, j: int) -> bool {
    &&& 0 <= j < s.len()
    &&& j + c >= 2
    &&& !spec_status_busy(s[j])
    &&& (j >= 1 ==> !spec_status_busy(s[j - 1]))
    &&& (j >= 2 ==> !spec_status_busy(s[j - 2]))
}

/// The busy-wait loop stops at the first run of three consecutive ready
/// polls, and not before: if poll `i` completes such a run and no earlier
/// poll does, the loop makes exactly `i + 1` polls.
pub proof fn lemma_wait_stops_at_first_ready_run(s: Seq<u8>, c: u8, i: int)
    requires
        c <= 2,
        spec_wait_stop_at(s, c, i),
        forall|j: int| 0 <= j < i ==> !(#[trigger] spec_wait_stop_at(s, c, j)),
    ensures
        spec_wait_polls(s, c) == Some((i + 1) as nat),
    decreases s.len(),
{
    let rest = s.drop_first();
    if i == 0 {
        assert(spec_wait_step(c, s[0]) is None);
    } else if spec_status_busy(s[0]) {
        assert(i >= 3);
        assert(spec_wait_stop_at(rest, 0, i - 1));
        assert forall|j: int| 0 <= j < i - 1 implies !(#[trigger] spec_wait_stop_at(
            rest,
            0,
            j,
        )) by {
            if spec_wait_stop_at(rest, 0, j) {
                assert(spec_wait_stop_at(s, c, j + 1));
            }
        }
        lemma_wait_stops_at_first_ready_run(rest, 0, i - 1);
    } else {
        assert(!spec_wait_stop_at(s, c, 0));
        assert(c < 2);
        assert(spec_wait_stop_at(rest, (c + 1) as u8, i - 1));
        assert forall|j: int| 0 <= j < i - 1 implies !(#[trigger] spec_wait_stop_at(
            rest,
            (c + 1) as u8,
            j,
        )) by {
            if spec_wait_stop_at(rest, (c + 1) as u8, j) {
                assert(spec_wait_stop_at(s, c, j + 1));
            }
        }
        lemma_wait_stops_at_first_ready_run(rest, (c + 1) as u8, i - 1);
    }
}

/// Runs the busy-wait loop against a sequence of status bytes, returning
/// how many polls it makes before stopping, or `None` if it is still
/// polling when the sequence runs out.
pub fn wait_polls(statuses: &Vec<u8>) -> (r: Option<usize>)
    ensures
        match r {
            Some(k) => spec_wait_polls(statuses@, 0) == Some(k as nat),
            None => spec_wait_polls(statuses@, 0) is None,
        },
{
    let ghost all = statuses@;
    let mut count: u8 = 0;
    let mut i: usize = 0;
    proof {
        assert(all.skip(0) =~= all);
    }
    while i < statuses.len()
        invariant
            i <= all.len(),
            statuses@ == all,
            count <= 2,
            spec_wait_polls(all, 0) == spec_polls_after(
                spec_wait_polls(all.skip(i as int), count),
                i as nat,
            ),
        decreases all.len() - i,
    {
        let status = statuses[i];
        proof {
            assert(all.skip(i as int)[0] == all[i as int]);
            assert(all.skip(i as int).drop_first() =~= all.skip(i as int + 1));
        }
        match wait_step(count, status) {
            None => {
                return Some(i + 1);
            },
            Some(c) => {
                count = c;
            },
        }
        i = i + 1;
    }
    proof {
        assert(all.skip(all.len() as int) =~= Seq::<u8>::empty());
    }
    None
}

} // verus!
