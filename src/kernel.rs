//! Kernel-side holders of platform state.

use vstd::prelude::*;

verus! {

/// Where the kernel found the ACPI tables: the physical address of the
/// root pointer and of the two tables it reads; zero where not yet known.
#[derive(Clone, Copy, Debug, PartialEq, Eq, Structural)]
pub struct AcpiManager {
    pub rsdp: u64,
    pub fadt: u64,
    pub madt: u64,
}

impl AcpiManager {
    /// Nothing known yet.
    pub fn new() -> (r: Self)
        ensures
            r.rsdp == 0 && r.fadt == 0 && r.madt == 0,
    {
        AcpiManager { rsdp: 0, fadt: 0, madt: 0 }
    }
}

/// Maps physical regions for the ACPI table parser: the regions are taken
/// to be identity-mapped.
#[derive(Clone, Copy, Debug)]
pub struct MrldAcpiHandler;

/// Installs the interrupt descriptor table.
pub struct IdtManager;

/// The kernel image as downloaded: its address and size in bytes.
#[derive(Clone, Copy, Debug, PartialEq, Eq, Structural)]
pub struct KernelImage {
    pub addr: u64,
    pub size: usize,
}

} // verus!
