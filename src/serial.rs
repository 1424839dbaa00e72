//! The decisions of the serial port driver; the port accesses themselves
//! are made by the caller.

use vstd::prelude::*;

verus! {

/// The byte written and read back in the loopback test.
pub const LOOPBACK_PROBE: u8 = 0x42;

/// A serial port at I/O port base `PORT`, occupying eight registers.
pub struct SerialPort<const PORT: u16> {
    initialized: bool,
}

impl<const PORT: u16> SerialPort<PORT> {
    pub closed spec fn spec_initialized(&self) -> bool {
        self.initialized
    }

    /// A port not yet initialized.
    pub fn new() -> (r: Self)
        ensures
            !r.spec_initialized(),
    {
        SerialPort { initialized: false }
    }

    /// Has the port passed its loopback test?
    pub fn is_initialized(&self) -> (r: bool)
        ensures
            r == self.spec_initialized(),
    {
        self.initialized
    }

    /// Record the byte read back during the loopback test: the port is
    /// initialized exactly when the probe byte came back.
    pub fn record_loopback(&mut self, echoed: u8)
        ensures
            final(self).spec_initialized() == (echoed == LOOPBACK_PROBE),
    {
        self.initialized = echoed == LOOPBACK_PROBE;
    }

    /// The I/O port of register `offset` (0 to 7) of this serial port.
    pub fn register(offset: u16) -> (r: u16)
        requires
            offset < 8,
            PORT + offset <= u16::MAX,
        ensures
            r == PORT + offset,
    {
        PORT + offset
    }
}

/// The low and high bytes of a baud rate divisor.
pub fn baud_divisor_bytes(val: u16) -> (r: (u8, u8))
    ensures
        r.0 == val % 0x100,
        r.1 == val / 0x100,
{
    ((val % 0x100) as u8, (val / 0x100) as u8)
}

} // verus!
