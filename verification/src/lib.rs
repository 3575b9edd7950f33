//! Verified core of a SPI NOR flash programmer that drives the flash through
//! a USB bridge chip's MPSSE (bit-banged synchronous serial) mode.
//!
//! The library contains the logic of the driver stack: encoding MPSSE command
//! frames ([`mpsse`]), encoding SPI NOR flash commands and interpreting their
//! responses ([`flash`]), and sequencing a check/erase/program/verify
//! programming cycle ([`engine`]). The USB transport itself (blocking reads
//! and writes on the bridge chip) is I/O and lives outside the library:
//! callers execute the byte-level operations this library produces
//! ([`mpsse::IoOp`]) and feed the responses back in.

pub mod cli;
pub mod engine;
pub mod error;
pub mod flash;
pub mod mpsse;
pub mod traits;
