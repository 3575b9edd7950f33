//! The device-facing interface a programmer backend offers.

use vstd::prelude::*;

use crate::error::ArrangeError;

verus! {

/// A programmer backend: something that owns a device and can burn a byte
/// stream onto it. Implementations live with the transport they drive.
pub trait Arrange: Sized {
    /// Creates a backend that has not touched any device yet.
    fn new() -> Self;

    /// Opens and configures the device, checking it is present and ready.
    fn init(&mut self) -> Result<(), ArrangeError>;

    /// Burns a byte stream onto the device's flash.
    fn burn(&mut self, bytes: &[u8]) -> Result<(), ArrangeError>;

    /// Reads the byte stream held on the device's flash.
    fn read(&self) -> Result<Vec<u8>, ArrangeError>;

    /// Sends raw bytes to the device.
    fn send(&mut self, bytes: &[u8]) -> Result<(), ArrangeError>;

    /// Receives `length` raw bytes from the device.
    fn recv(&mut self, length: usize) -> Result<Vec<u8>, ArrangeError>;
}

} // verus!
