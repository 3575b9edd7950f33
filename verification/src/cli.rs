//! Typed command-line option values and their parsers.
//!
//! The argument front end hands these parsers one string each and gets a
//! typed option value back, or an error carrying the message to show.

use vstd::prelude::*;

use crate::flash::BlockErase;

verus! {

/// An argument-parsing error carrying the message to show the user.
#[derive(Clone, Debug)]
pub struct GenericArgumentError {
    /// The message to show.
    pub display: String,
}

impl GenericArgumentError {
    /// Wraps a message.
    pub fn new(display: &str) -> (e: GenericArgumentError)
        ensures
            e.display@ == display@,
    {
        GenericArgumentError { display: display.to_owned() }
    }

    /// The message to show.
    pub fn message(&self) -> (m: &str)
        ensures
            m@ == self.display@,
    {
        self.display.as_str()
    }
}

/// The test modes the tool can run in instead of programming.
#[derive(Clone, Copy, Debug, PartialEq, Eq, Structural)]
pub enum TestMode {
    /// No test: program the flash.
    NoTest,
    /// Plain SPI test: read and report the flash id.
    Normal,
    /// Quad-SPI test.
    Quad,
}

/// The selectable ports of the bridge chip.
#[derive(Clone, Copy, Debug, PartialEq, Eq, Structural)]
pub enum FtdiInterface {
    A,
    B,
    C,
    D,
}

/// The erase-block geometry a block-size argument selects, if any:
/// only `4`, `32` and `64` (KiB) are valid.
pub open spec fn spec_block_erase_of(s: Seq<char>) -> Option<BlockErase> {
    if s.len() == 1 && s[0] == '4' {
        Some(BlockErase::FourK)
    } else if s.len() == 2 && s[0] == '3' && s[1] == '2' {
        Some(BlockErase::ThirtyTwoK)
    } else if s.len() == 2 && s[0] == '6' && s[1] == '4' {
        Some(BlockErase::SixtyFourK)
    } else {
        None
    }
}

/// Parses an erase-block-size argument: `4`, `32` or `64` (KiB).
pub fn block_erase_parser(arg: &str) -> (r: Result<BlockErase, GenericArgumentError>)
    ensures
        match r {
            Ok(b) => spec_block_erase_of(arg@) == Some(b),
            Err(e) => spec_block_erase_of(arg@) is None && e.display@ == (
            "Only valid values are 4, 32, or 64")@,
        },
{
    let len = arg.unicode_len();
    if len == 1 && arg.get_char(0) == '4' {
        Ok(BlockErase::FourK)
    } else if len == 2 && arg.get_char(0) == '3' && arg.get_char(1) == '2' {
        Ok(BlockErase::ThirtyTwoK)
    } else if len == 2 && arg.get_char(0) == '6' && arg.get_char(1) == '4' {
        Ok(BlockErase::SixtyFourK)
    } else {
        Err(GenericArgumentError::new("Only valid values are 4, 32, or 64"))
    }
}

/// The test mode a test-mode argument selects, if any: only `0`, `1` and
/// `2` are valid.
pub open spec fn spec_test_mode_of(s: Seq<char>) -> Option<TestMode> {
    if s.len() == 1 && s[0] == '0' {
        Some(TestMode::NoTest)
    } else if s.len() == 1 && s[0] == '1' {
        Some(TestMode::Normal)
    } else if s.len() == 1 && s[0] == '2' {
        Some(TestMode::Quad)
    } else {
        None
    }
}

/// Parses a test-mode argument: `0` (no test), `1` (plain) or `2` (quad).
pub fn test_mode_parser(arg: &str) -> (r: Result<TestMode, GenericArgumentError>)
    ensures
        match r {
            Ok(m) => spec_test_mode_of(arg@) == Some(m),
            Err(e) => spec_test_mode_of(arg@) is None && e.display@ == (
            "Only valid values are 0, 1, or 2")@,
        },
{
    let len = arg.unicode_len();
    if len == 1 && arg.get_char(0) == '0' {
        Ok(TestMode::NoTest)
    } else if len == 1 && arg.get_char(0) == '1' {
        Ok(TestMode::Normal)
    } else if len == 1 && arg.get_char(0) == '2' {
        Ok(TestMode::Quad)
    } else {
        Err(GenericArgumentError::new("Only valid values are 0, 1, or 2"))
    }
}

/// The bridge-chip port an interface argument selects, if any: only `A`,
/// `B`, `C` and `D` are valid.
pub open spec fn spec_ftdi_interface_of(s: Seq<char>) -> Option<FtdiInterface> {
    if s.len() == 1 && s[0] == 'A' {
        Some(FtdiInterface::A)
    } else if s.len() == 1 && s[0] == 'B' {
        Some(FtdiInterface::B)
    } else if s.len() == 1 && s[0] == 'C' {
        Some(FtdiInterface::C)
    } else if s.len() == 1 && s[0] == 'D' {
        Some(FtdiInterface::D)
    } else {
        None
    }
}

/// Parses an interface argument: the bridge-chip port `A`, `B`, `C` or `D`.
pub fn ftdi_interface_parser(arg: &str) -> (r: Result<FtdiInterface, GenericArgumentError>)
    ensures
        match r {
            Ok(i) => spec_ftdi_interface_of(arg@) == Some(i),
            Err(e) => spec_ftdi_interface_of(arg@) is None && e.display@ == (
            "Only valid values are A, B, C or D")@,
        },
{
    let len = arg.unicode_len();
    if len == 1 && arg.get_char(0) == 'A' {
        Ok(FtdiInterface::A)
    } else if len == 1 && arg.get_char(0) == 'B' {
        Ok(FtdiInterface::B)
    } else if len == 1 && arg.get_char(0) == 'C' {
        Ok(FtdiInterface::C)
    } else if len == 1 && arg.get_char(0) == 'D' {
        Ok(FtdiInterface::D)
    } else {
        Err(GenericArgumentError::new("Only valid values are A, B, C or D"))
    }
}

} // verus!
