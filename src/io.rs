//! Registers in the x86 I/O port space.

use vstd::prelude::*;

verus! {

/// A register in the I/O port space.
#[derive(Clone, Copy, Debug, PartialEq, Eq, Structural)]
pub struct IoPort {
    port: u16,
}

impl IoPort {
    pub closed spec fn spec_port(self) -> u16 {
        self.port
    }

    /// The register at `port`.
    pub fn new(port: u16) -> (r: Self)
        ensures
            r.spec_port() == port,
    {
        IoPort { port }
    }

    /// The port number.
    pub fn port(&self) -> (r: u16)
        ensures
            r == self.spec_port(),
    {
        self.port
    }
}

/// Access to the I/O port space.
pub struct Io;

} // verus!
