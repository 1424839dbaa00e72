//! Arguments passed from the loader to the kernel.

use vstd::prelude::*;

verus! {

/// What the loader tells the kernel: where the platform configuration root
/// is, and where the firmware memory map lies and how it is laid out.
#[derive(Clone, Copy, Debug, PartialEq, Eq, Structural)]
pub struct MrldBootArgs {
    /// Physical address of the platform configuration root pointer.
    pub rsdp_addr: u64,
    /// Physical address of the firmware memory map.
    pub uefi_map: u64,
    /// Size of the firmware memory map in bytes.
    pub uefi_map_size: usize,
    /// Bytes from one firmware memory descriptor to the next.
    pub uefi_map_desc_size: usize,
}

impl MrldBootArgs {
    /// Arguments with every field zero.
    pub fn new_empty() -> (r: Self)
        ensures
            r.rsdp_addr == 0,
            r.uefi_map == 0,
            r.uefi_map_size == 0,
            r.uefi_map_desc_size == 0,
    {
        MrldBootArgs { rsdp_addr: 0, uefi_map: 0, uefi_map_size: 0, uefi_map_desc_size: 0 }
    }

    /// Number of descriptors in the firmware memory map; zero when no
    /// stride is given.
    pub fn num_descriptors(&self) -> (r: usize)
        ensures
            self.uefi_map_desc_size == 0 ==> r == 0,
            self.uefi_map_desc_size != 0 ==> r == self.uefi_map_size / self.uefi_map_desc_size,
    {
        if self.uefi_map_desc_size == 0 {
            0
        } else {
            self.uefi_map_size / self.uefi_map_desc_size
        }
    }
}

} // verus!
