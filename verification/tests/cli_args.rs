//! The typed command-line option parsers.

use arrange_ftdi::cli::{
    block_erase_parser, ftdi_interface_parser, test_mode_parser, FtdiInterface,
    GenericArgumentError, TestMode,
};
use arrange_ftdi::flash::BlockErase;

#[test]
fn block_erase_accepts_the_three_sizes() {
    assert_eq!(block_erase_parser("4").unwrap(), BlockErase::FourK);
    assert_eq!(block_erase_parser("32").unwrap(), BlockErase::ThirtyTwoK);
    assert_eq!(block_erase_parser("64").unwrap(), BlockErase::SixtyFourK);
}

#[test]
fn block_erase_rejects_everything_else() {
    for bad in ["", "8", "16", "128", "644", "4 ", "sixty-four"] {
        let err = block_erase_parser(bad).unwrap_err();
        assert_eq!(err.message(), "Only valid values are 4, 32, or 64");
    }
}

#[test]
fn test_mode_accepts_zero_one_two() {
    assert_eq!(test_mode_parser("0").unwrap(), TestMode::NoTest);
    assert_eq!(test_mode_parser("1").unwrap(), TestMode::Normal);
    assert_eq!(test_mode_parser("2").unwrap(), TestMode::Quad);
}

#[test]
fn test_mode_rejects_everything_else() {
    for bad in ["", "3", "10", "one", "-1"] {
        let err = test_mode_parser(bad).unwrap_err();
        assert_eq!(err.message(), "Only valid values are 0, 1, or 2");
    }
}

#[test]
fn interface_accepts_the_four_ports() {
    assert_eq!(ftdi_interface_parser("A").unwrap(), FtdiInterface::A);
    assert_eq!(ftdi_interface_parser("B").unwrap(), FtdiInterface::B);
    assert_eq!(ftdi_interface_parser("C").unwrap(), FtdiInterface::C);
    assert_eq!(ftdi_interface_parser("D").unwrap(), FtdiInterface::D);
}

#[test]
fn interface_rejects_everything_else() {
    for bad in ["", "a", "E", "AB", "1"] {
        let err = ftdi_interface_parser(bad).unwrap_err();
        assert_eq!(err.message(), "Only valid values are A, B, C or D");
    }
}

#[test]
fn argument_error_keeps_its_message() {
    let err = GenericArgumentError::new("no such option");
    assert_eq!(err.message(), "no such option");
}
