//! The contents of the global and interrupt descriptor table registers.

use vstd::prelude::*;

verus! {

/// What a descriptor table register holds: the table's size in bytes
/// minus one, and its virtual address.
#[derive(Clone, Copy, Debug, PartialEq, Eq, Structural)]
pub struct DescriptorTableRegister {
    limit: u16,
    ptr: u64,
}

impl DescriptorTableRegister {
    pub closed spec fn spec_limit(self) -> u16 {
        self.limit
    }

    pub closed spec fn spec_ptr(self) -> u64 {
        self.ptr
    }

    /// The register value for a table at `ptr` of `limit + 1` bytes.
    pub fn new(limit: u16, ptr: u64) -> (r: Self)
        ensures
            r.spec_limit() == limit,
            r.spec_ptr() == ptr,
    {
        DescriptorTableRegister { limit, ptr }
    }

    /// Virtual address of the table.
    pub fn ptr(&self) -> (r: u64)
        ensures
            r == self.spec_ptr(),
    {
        self.ptr
    }

    /// Size of the table in bytes, minus one.
    pub fn limit(&self) -> (r: u16)
        ensures
            r == self.spec_limit(),
    {
        self.limit
    }

    /// Size of the table in bytes.
    pub fn size(&self) -> (r: usize)
        ensures
            r == self.spec_limit() + 1,
    {
        (self.limit as usize) + 1
    }
}

/// Access to the global descriptor table register.
pub struct GDTR;

/// Access to the interrupt descriptor table register.
pub struct IDTR;

} // verus!
