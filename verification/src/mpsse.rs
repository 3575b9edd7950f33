//! MPSSE (multi-protocol synchronous serial engine) command encoding.
//!
//! The USB bridge chip is driven by writing command frames to it and reading
//! response bytes back. This module encodes every serial-engine request as an
//! explicit list of [`IoOp`] values: blocking writes of exact byte strings
//! and blocking single-byte reads. A caller that owns the USB transport
//! executes the operations in order; the contracts here pin down exactly
//! which bytes go over the wire and how many bytes come back.

use vstd::prelude::*;

verus! {

/// USB vendor id of the bridge chip family.
pub const FTDI_VENDOR: u16 = 0x0403;

/// First known product id of the bridge chip family.
pub const DEVICE_ID_1: u16 = 0x6010;

/// Second known product id of the bridge chip family.
pub const DEVICE_ID_2: u16 = 0x6014;

/// Latency-timer value pushed to the chip during initialization (1 ms,
/// fast polling). The original value is read first and restored on close.
pub const FAST_LATENCY_MS: u8 = 1;

/// When set in a clocking command, read data (data IN).
pub const DATA_IN: u8 = 0x20;

/// When set in a clocking command, write data (data OUT).
pub const DATA_OUT: u8 = 0x10;

/// When set in a clocking command, count bits instead of bytes.
pub const DATA_BITS: u8 = 0x02;

/// When set in a clocking command, update data on the negative clock edge.
pub const DATA_OCN: u8 = 0x01;

/// Mode commands understood by the serial engine. Only the literal byte
/// value of each command matters on the wire; see [`MPSSECommand::byte`].
#[allow(non_camel_case_types)]
#[derive(Clone, Copy, Debug, PartialEq, Eq, Structural)]
pub enum MPSSECommand {
    /// Set data bits, low byte
    SETBLOW,
    /// Read data bits, low byte
    READBLOW,
    /// Set data bits, high byte
    SETBHIGH,
    /// Read data bits, high byte
    READBHIGH,
    /// Enable loopback
    LOOPBACKEN,
    /// Disable loopback
    LOOPBACKDIS,
    /// Set clock divisor
    SETCLKDIV,
    /// Flush buffer fifos to the PC
    FLUSH,
    /// Wait on GPIOL1 to go high
    WAITH,
    /// Wait on GPIOL1 to go low
    WAITL,
    /// Disable /5 divisor, enabling the 60 MHz master clock
    TCKX5,
    /// Enable /5 divisor, backward compatible clocking
    TCKD5,
    /// Enable 3-phase clocking
    EN3PHCLK,
    /// Disable 3-phase clocking
    DIS3PHCLK,
    /// Clock every bit
    CLKN,
    /// Clock every byte
    CLKN8,
    /// Clock until GPIOL1 goes high
    CLKTOH,
    /// Clock until GPIOL1 goes low
    CLKTOL,
    /// Enable adaptive clocking
    ENADPTCLK,
    /// Disable adaptive clocking
    DISADPTCLK,
    /// Clock until GPIOL1 goes high, counting bytes
    CLK8TOH,
    /// Clock until GPIOL1 goes low, counting bytes
    CLK8TOL,
    /// Tristate IO on 1, drive on 0
    TRI,
    /// CPU-mode read, short address
    CPURS,
    /// CPU-mode read, extended address
    CPURE,
    /// CPU-mode write, short address
    CPUWS,
    /// CPU-mode write, extended address
    CPUWE,
}

impl MPSSECommand {
    /// The single-byte wire encoding of this command.
    pub open spec fn spec_byte(self) -> u8 {
        match self {
            MPSSECommand::SETBLOW => 0x80,
            MPSSECommand::READBLOW => 0x81,
            MPSSECommand::SETBHIGH => 0x82,
            MPSSECommand::READBHIGH => 0x83,
            MPSSECommand::LOOPBACKEN => 0x84,
            MPSSECommand::LOOPBACKDIS => 0x85,
            MPSSECommand::SETCLKDIV => 0x86,
            MPSSECommand::FLUSH => 0x87,
            MPSSECommand::WAITH => 0x88,
            MPSSECommand::WAITL => 0x89,
            MPSSECommand::TCKX5 => 0x8A,
            MPSSECommand::TCKD5 => 0x8B,
            MPSSECommand::EN3PHCLK => 0x8C,
            MPSSECommand::DIS3PHCLK => 0x8D,
            MPSSECommand::CLKN => 0x8E,
            MPSSECommand::CLKN8 => 0x8F,
            MPSSECommand::CLKTOH => 0x94,
            MPSSECommand::CLKTOL => 0x95,
            MPSSECommand::ENADPTCLK => 0x96,
            MPSSECommand::DISADPTCLK => 0x97,
            MPSSECommand::CLK8TOH => 0x9C,
            MPSSECommand::CLK8TOL => 0x9D,
            MPSSECommand::TRI => 0x9E,
            MPSSECommand::CPURS => 0x90,
            MPSSECommand::CPURE => 0x91,
            MPSSECommand::CPUWS => 0x92,
            MPSSECommand::CPUWE => 0x93,
        }
    }

    /// The single-byte wire encoding of this command.
    #[verifier::when_used_as_spec(spec_byte)]
    pub fn byte(self) -> (b: u8)
        ensures
            b == self.spec_byte(),
    {
        match self {
            MPSSECommand::SETBLOW => 0x80,
            MPSSECommand::READBLOW => 0x81,
            MPSSECommand::SETBHIGH => 0x82,
            MPSSECommand::READBHIGH => 0x83,
            MPSSECommand::LOOPBACKEN => 0x84,
            MPSSECommand::LOOPBACKDIS => 0x85,
            MPSSECommand::SETCLKDIV => 0x86,
            MPSSECommand::FLUSH => 0x87,
            MPSSECommand::WAITH => 0x88,
            MPSSECommand::WAITL => 0x89,
            MPSSECommand::TCKX5 => 0x8A,
            MPSSECommand::TCKD5 => 0x8B,
            MPSSECommand::EN3PHCLK => 0x8C,
            MPSSECommand::DIS3PHCLK => 0x8D,
            MPSSECommand::CLKN => 0x8E,
            MPSSECommand::CLKN8 => 0x8F,
            MPSSECommand::CLKTOH => 0x94,
            MPSSECommand::CLKTOL => 0x95,
            MPSSECommand::ENADPTCLK => 0x96,
            MPSSECommand::DISADPTCLK => 0x97,
            MPSSECommand::CLK8TOH => 0x9C,
            MPSSECommand::CLK8TOL => 0x9D,
            MPSSECommand::TRI => 0x9E,
            MPSSECommand::CPURS => 0x90,
            MPSSECommand::CPURE => 0x91,
            MPSSECommand::CPUWS => 0x92,
            MPSSECommand::CPUWE => 0x93,
        }
    }
}

/// One blocking operation on the USB transport.
///
/// `Write` hands the transport a byte string that must be written whole (a
/// short write is a fatal `WriteError`). `ReadBytes` asks the transport for
/// exactly `count` bytes, blocking until they arrive (a negative transport
/// count is a fatal `ReadError`).
#[derive(Debug)]
pub enum IoOp {
    Write { bytes: Vec<u8> },
    ReadBytes { count: usize },
}

/// Mathematical image of one transport operation.
pub ghost enum SpecIoOp {
    Write(Seq<u8>),
    ReadBytes(nat),
}

impl IoOp {
    /// The mathematical image of this operation.
    pub open spec fn view_op(self) -> SpecIoOp {
        match self {
            IoOp::Write { bytes } => SpecIoOp::Write(bytes@),
            IoOp::ReadBytes { count } => SpecIoOp::ReadBytes(count as nat),
        }
    }
}

/// The mathematical image of an operation list.
pub open spec fn ops_view(s: Seq<IoOp>) -> Seq<SpecIoOp> {
    s.map_values(|op: IoOp| op.view_op())
}

/// The image of a concatenation is the concatenation of the images.
pub proof fn lemma_ops_view_concat(a: Seq<IoOp>, b: Seq<IoOp>)
    ensures
        ops_view(a + b) == ops_view(a) + ops_view(b),
{
    assert(ops_view(a + b) =~= ops_view(a) + ops_view(b));
}

/// Header of a byte-granularity clocking command: the flag byte, then the
/// payload length minus one, 16 bits little-endian.
pub open spec fn spi_header(flags: u8, len: nat) -> Seq<u8>
    recommends
        1 <= len <= 0x10000,
{
    seq![flags, (((len - 1) as nat) % 256) as u8, (((len - 1) as nat) / 256) as u8]
}

/// Bytes written by a half-duplex SPI send: the "clock bytes out on the
/// negative edge" header (flags `DATA_OUT | DATA_OCN`, 0x11) followed by
/// the payload.
pub open spec fn spec_send_spi_bytes(data: Seq<u8>) -> Seq<u8> {
    spi_header(0x11, data.len()) + data
}

/// Operations of a half-duplex SPI send: one write, no reads.
pub open spec fn spec_send_spi_ops(data: Seq<u8>) -> Seq<SpecIoOp> {
    if data.len() == 0 {
        seq![]
    } else {
        seq![SpecIoOp::Write(spec_send_spi_bytes(data))]
    }
}

/// Bytes written by a full-duplex SPI transfer: the same header with the IN
/// flag additionally set (flags `DATA_IN | DATA_OUT | DATA_OCN`, 0x31),
/// followed by the payload.
pub open spec fn spec_transfer_spi_bytes(data: Seq<u8>) -> Seq<u8> {
    spi_header(0x31, data.len()) + data
}

/// Operations of a full-duplex SPI transfer: one write, then exactly one
/// single-byte read per payload byte.
pub open spec fn spec_transfer_spi_ops(data: Seq<u8>) -> Seq<SpecIoOp> {
    if data.len() == 0 {
        seq![]
    } else {
        seq![SpecIoOp::Write(spec_transfer_spi_bytes(data))]
            + Seq::new(data.len(), |i: int| SpecIoOp::ReadBytes(1))
    }
}

/// Encodes a half-duplex SPI send of `data`: the payload is clocked out and
/// no response bytes are expected. A no-op for empty input.
pub fn send_spi(data: &Vec<u8>) -> (ops: Vec<IoOp>)
    requires
        data@.len() <= 0x10000,
    ensures
        ops_view(ops@) == spec_send_spi_ops(data@),
{
    let mut ops: Vec<IoOp> = Vec::new();
    if data.len() == 0 {
        assert(ops_view(ops@) =~= spec_send_spi_ops(data@));
        return ops;
    }
    let n: usize = data.len() - 1;
    let mut bytes: Vec<u8> = Vec::new();
    proof {
        assert((0x10u8 | 0x01u8) == 0x11u8) by (bit_vector);
    }
    bytes.push(DATA_OUT | DATA_OCN);
    bytes.push((n % 256) as u8);
    bytes.push((n / 256) as u8);
    let mut i: usize = 0;
    while i < data.len()
        invariant
            i <= data@.len(),
            data@.len() >= 1,
            bytes@ == spi_header(0x11, data@.len()) + data@.subrange(0, i as int),
        decreases data@.len() - i,
    {
        bytes.push(data[i]);
        i = i + 1;
        assert(bytes@ =~= spi_header(0x11, data@.len()) + data@.subrange(0, i as int));
    }
    assert(bytes@ =~= spec_send_spi_bytes(data@));
    ops.push(IoOp::Write { bytes });
    assert(ops_view(ops@) =~= spec_send_spi_ops(data@));
    ops
}

/// Encodes a full-duplex SPI transfer of `data`: the payload is clocked out
/// and exactly `data.len()` single-byte receives follow, one response byte
/// per byte sent. A no-op for empty input.
pub fn transfer_spi(data: &Vec<u8>) -> (ops: Vec<IoOp>)
    requires
        data@.len() <= 0x10000,
    ensures
        ops_view(ops@) == spec_transfer_spi_ops(data@),
{
    let mut ops: Vec<IoOp> = Vec::new();
    if data.len() == 0 {
        assert(ops_view(ops@) =~= spec_transfer_spi_ops(data@));
        return ops;
    }
    let n: usize = data.len() - 1;
    let mut bytes: Vec<u8> = Vec::new();
    proof {
        assert((0x20u8 | 0x10u8 | 0x01u8) == 0x31u8) by (bit_vector);
    }
    bytes.push(DATA_IN | DATA_OUT | DATA_OCN);
    bytes.push((n % 256) as u8);
    bytes.push((n / 256) as u8);
    let mut i: usize = 0;
    while i < data.len()
        invariant
            i <= data@.len(),
            data@.len() >= 1,
            bytes@ == spi_header(0x31, data@.len()) + data@.subrange(0, i as int),
        decreases data@.len() - i,
    {
        bytes.push(data[i]);
        i = i + 1;
        assert(bytes@ =~= spi_header(0x31, data@.len()) + data@.subrange(0, i as int));
    }
    assert(bytes@ =~= spec_transfer_spi_bytes(data@));
    ops.push(IoOp::Write { bytes });
    let mut r: usize = 0;
    while r < data.len()
        invariant
            r <= data@.len(),
            data@.len() >= 1,
            ops@.len() == 1 + r,
            ops@[0] matches IoOp::Write { bytes } && bytes@ == spec_transfer_spi_bytes(data@),
            forall|j: int| 1 <= j < ops@.len() ==> (#[trigger] ops@[j] matches IoOp::ReadBytes {
                count,
            } && count == 1),
        decreases data@.len() - r,
    {
        ops.push(IoOp::ReadBytes { count: 1 });
        r = r + 1;
    }
    assert(ops_view(ops@) =~= spec_transfer_spi_ops(data@));
    ops
}

/// Operations of a bit-granularity duplex transfer: one three-byte write
/// (flags, bit count minus one, data byte), then one single-byte read.
pub open spec fn spec_transfer_spi_bits_ops(data: u8, n: u8) -> Seq<SpecIoOp>
    recommends
        1 <= n <= 8,
{
    seq![
        SpecIoOp::Write(seq![0x33u8, ((n as int - 1) as u8), data]),
        SpecIoOp::ReadBytes(1),
    ]
}

/// Encodes a sub-byte duplex transfer clocking `n` bits of `data`, used for
/// protocol framing that ends mid-byte. One response byte comes back.
pub fn transfer_spi_bits(data: u8, n: u8) -> (ops: Vec<IoOp>)
    requires
        1 <= n <= 8,
    ensures
        ops_view(ops@) == spec_transfer_spi_bits_ops(data, n),
{
    let mut bytes: Vec<u8> = Vec::new();
    proof {
        assert((0x20u8 | 0x10u8 | 0x01u8 | 0x02u8) == 0x33u8) by (bit_vector);
    }
    bytes.push(DATA_IN | DATA_OUT | DATA_OCN | DATA_BITS);
    bytes.push(n - 1);
    bytes.push(data);
    assert(bytes@ =~= seq![0x33u8, ((n as int - 1) as u8), data]);
    let mut ops: Vec<IoOp> = Vec::new();
    ops.push(IoOp::Write { bytes });
    ops.push(IoOp::ReadBytes { count: 1 });
    assert(ops_view(ops@) =~= spec_transfer_spi_bits_ops(data, n));
    ops
}

/// Operations that set the low GPIO byte: value then direction.
pub open spec fn spec_set_gpio_ops(gpio: u8, direction: u8) -> Seq<SpecIoOp> {
    seq![SpecIoOp::Write(seq![0x80u8, gpio, direction])]
}

/// Encodes a write of the low GPIO byte: output values and direction mask.
pub fn set_gpio(gpio: u8, direction: u8) -> (ops: Vec<IoOp>)
    ensures
        ops_view(ops@) == spec_set_gpio_ops(gpio, direction),
{
    let mut bytes: Vec<u8> = Vec::new();
    bytes.push(MPSSECommand::SETBLOW.byte());
    bytes.push(gpio);
    bytes.push(direction);
    assert(bytes@ =~= seq![0x80u8, gpio, direction]);
    let mut ops: Vec<IoOp> = Vec::new();
    ops.push(IoOp::Write { bytes });
    assert(ops_view(ops@) =~= spec_set_gpio_ops(gpio, direction));
    ops
}

/// Operations that query the low GPIO byte: one command write, one read.
pub open spec fn spec_read_low_byte_ops() -> Seq<SpecIoOp> {
    seq![SpecIoOp::Write(seq![0x81u8]), SpecIoOp::ReadBytes(1)]
}

/// Encodes a query of the low GPIO byte; one response byte comes back.
pub fn read_low_byte() -> (ops: Vec<IoOp>)
    ensures
        ops_view(ops@) == spec_read_low_byte_ops(),
{
    let mut bytes: Vec<u8> = Vec::new();
    bytes.push(MPSSECommand::READBLOW.byte());
    let mut ops: Vec<IoOp> = Vec::new();
    ops.push(IoOp::Write { bytes });
    ops.push(IoOp::ReadBytes { count: 1 });
    assert(ops_view(ops@) =~= spec_read_low_byte_ops());
    ops
}

/// Operations that query the high GPIO byte: one command write, one read.
pub open spec fn spec_read_high_byte_ops() -> Seq<SpecIoOp> {
    seq![SpecIoOp::Write(seq![0x83u8]), SpecIoOp::ReadBytes(1)]
}

/// Encodes a query of the high GPIO byte; one response byte comes back.
pub fn read_high_byte() -> (ops: Vec<IoOp>)
    ensures
        ops_view(ops@) == spec_read_high_byte_ops(),
{
    let mut bytes: Vec<u8> = Vec::new();
    bytes.push(MPSSECommand::READBHIGH.byte());
    let mut ops: Vec<IoOp> = Vec::new();
    ops.push(IoOp::Write { bytes });
    ops.push(IoOp::ReadBytes { count: 1 });
    assert(ops_view(ops@) =~= spec_read_high_byte_ops());
    ops
}

/// Operations that push the initial clock configuration, one command byte
/// per write. The 60 MHz master clock is selected first; the slow variant
/// then re-enables the /5 divisor and a large divisor for a ~50 kHz-class
/// clock, while the normal variant selects a zero divisor.
pub open spec fn spec_init_clock_ops(slow_clock: bool) -> Seq<SpecIoOp> {
    if slow_clock {
        seq![
            SpecIoOp::Write(seq![0x8Au8]),
            SpecIoOp::Write(seq![0x8Bu8]),
            SpecIoOp::Write(seq![0x86u8]),
            SpecIoOp::Write(seq![119u8]),
            SpecIoOp::Write(seq![0u8]),
        ]
    } else {
        seq![
            SpecIoOp::Write(seq![0x8Au8]),
            SpecIoOp::Write(seq![0x86u8]),
            SpecIoOp::Write(seq![0u8]),
            SpecIoOp::Write(seq![0u8]),
        ]
    }
}

/// Encodes the clock-divisor setup pushed right after the chip enters MPSSE
/// mode, selecting either a slow (~50 kHz-class) or the normal clock.
pub fn init_clock(slow_clock: bool) -> (ops: Vec<IoOp>)
    ensures
        ops_view(ops@) == spec_init_clock_ops(slow_clock),
{
    let mut ops: Vec<IoOp> = Vec::new();
    ops.push(single_byte_write(MPSSECommand::TCKX5.byte()));
    if slow_clock {
        ops.push(single_byte_write(MPSSECommand::TCKD5.byte()));
        ops.push(single_byte_write(MPSSECommand::SETCLKDIV.byte()));
        ops.push(single_byte_write(119));
        ops.push(single_byte_write(0));
    } else {
        ops.push(single_byte_write(MPSSECommand::SETCLKDIV.byte()));
        ops.push(single_byte_write(0));
        ops.push(single_byte_write(0));
    }
    assert(ops_view(ops@) =~= spec_init_clock_ops(slow_clock));
    ops
}

/// A write of exactly one byte.
fn single_byte_write(b: u8) -> (op: IoOp)
    ensures
        op.view_op() == SpecIoOp::Write(seq![b]),
{
    let mut bytes: Vec<u8> = Vec::new();
    bytes.push(b);
    IoOp::Write { bytes }
}

} // verus!
