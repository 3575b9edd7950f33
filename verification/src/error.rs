//! Error taxonomy of the driver stack.

use vstd::prelude::*;

verus! {

/// Errors surfaced by the driver stack.
///
/// * `WriteError` — a write to the USB transport moved fewer bytes than
///   requested, or a post-program readback did not match the intended
///   contents. Partial writes corrupt MPSSE command framing, so they are
///   fatal and never retried.
/// * `ReadError` — a read from the USB transport failed, or a response byte
///   shows the line is floating (an extended-ID length byte of 0xFF).
/// * `DeviceError` — the USB device was not found, or a control transfer
///   failed while opening it.
#[derive(Clone, Copy, Debug, PartialEq, Eq, Structural)]
pub enum ArrangeError {
    WriteError,
    ReadError,
    DeviceError,
}

} // verus!
