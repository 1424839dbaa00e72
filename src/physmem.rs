//! Physical address ranges, memory kinds, and memory region descriptors.

use vstd::prelude::*;
use crate::paging::PageSize;

verus! {

/// A half-open interval `[start, end)` of physical addresses.
#[derive(Clone, Copy, Debug, PartialEq, Eq, Structural)]
pub struct PhysRange {
    pub start: u64,
    pub end: u64,
}

/// Two ranges share at least one address.
pub open spec fn overlaps(a: PhysRange, b: PhysRange) -> bool {
    &&& a.start < b.end
    &&& b.start < a.end
    &&& a.start < a.end
    &&& b.start < b.end
}

/// One range ends at or before the start of the other.
pub open spec fn apart(a: PhysRange, b: PhysRange) -> bool {
    a.end <= b.start || b.end <= a.start
}

/// `inner` lies within `outer`.
pub open spec fn range_within(outer: PhysRange, inner: PhysRange) -> bool {
    outer.start <= inner.start && inner.end <= outer.end
}

/// The smallest multiple of `sz` that is at least `a`.
pub open spec fn align_up(a: int, sz: int) -> int {
    if a % sz == 0 {
        a
    } else {
        a - a % sz + sz
    }
}

impl PhysRange {
    /// The range is well formed: it does not end before it starts.
    pub open spec fn wf(self) -> bool {
        self.start <= self.end
    }

    pub open spec fn len(self) -> int {
        self.end - self.start
    }

    /// Create the range `[start, end)`.
    pub fn new(start: u64, end: u64) -> (r: Self)
        requires
            start <= end,
        ensures
            r.start == start,
            r.end == end,
            r.wf(),
    {
        PhysRange { start, end }
    }

    /// Number of bytes in the range.
    pub fn size(&self) -> (r: u64)
        requires
            self.wf(),
        ensures
            r == self.len(),
    {
        self.end - self.start
    }

    /// Does the range hold `addr`?
    pub fn contains(&self, addr: u64) -> (r: bool)
        ensures
            r == (self.start <= addr && addr < self.end),
    {
        self.start <= addr && addr < self.end
    }

    /// Does the range hold all of `other`?
    pub fn contains_range(&self, other: &PhysRange) -> (r: bool)
        ensures
            r == range_within(*self, *other),
    {
        self.start <= other.start && other.end <= self.end
    }

    /// Does `other` lie within this range and begin where it begins?
    pub fn aligned_to_start(&self, other: &PhysRange) -> (r: bool)
        ensures
            r == (range_within(*self, *other) && other.start == self.start),
    {
        self.contains_range(other) && other.start == self.start
    }

    /// Does `other` lie within this range and end where it ends?
    pub fn aligned_to_end(&self, other: &PhysRange) -> (r: bool)
        ensures
            r == (range_within(*self, *other) && other.end == self.end),
    {
        self.contains_range(other) && other.end == self.end
    }
}


/// The result of carving a sub-range out of a range.
#[derive(Clone, Copy, Debug, PartialEq, Eq, Structural)]
pub enum PhysRangeSet {
    /// The sub-range touches one end; `old` is what remains on the other side.
    Pair { old: PhysRange, new: PhysRange },
    /// The sub-range lies strictly inside; a remainder stays on each side.
    Triad { old_lo: PhysRange, new: PhysRange, old_hi: PhysRange },
    /// The sub-range was not contained in the range.
    Invalid,
}

/// What `split` yields when `o` is carved out of `r`.
pub open spec fn split_of(r: PhysRange, o: PhysRange) -> PhysRangeSet {
    if !range_within(r, o) {
        PhysRangeSet::Invalid
    } else if o.end == r.end {
        PhysRangeSet::Pair { old: PhysRange { start: r.start, end: o.start }, new: o }
    } else if o.start == r.start {
        PhysRangeSet::Pair { old: PhysRange { start: o.end, end: r.end }, new: o }
    } else {
        PhysRangeSet::Triad {
            old_lo: PhysRange { start: r.start, end: o.start },
            new: o,
            old_hi: PhysRange { start: o.end, end: r.end },
        }
    }
}

/// The block of `count` pages of `sz` bytes that starts at the first
/// multiple of `sz` in `r`, if that multiple lies inside `r` and the block
/// fits before its end.
pub open spec fn pages_in(r: PhysRange, sz: int, count: int) -> Option<PhysRange> {
    let a = align_up(r.start as int, sz);
    if a < r.end && a + count * sz <= r.end {
        Some(PhysRange { start: a as u64, end: (a + count * sz) as u64 })
    } else {
        None
    }
}

impl PhysRangeSet {
    /// The pieces in address order.
    pub open spec fn pieces(self) -> Seq<PhysRange> {
        match self {
            PhysRangeSet::Pair { old, new } => if old.end <= new.start {
                seq![old, new]
            } else {
                seq![new, old]
            },
            PhysRangeSet::Triad { old_lo, new, old_hi } => seq![old_lo, new, old_hi],
            PhysRangeSet::Invalid => seq![],
        }
    }
}

/// `parts` cover `r` end to end, in order, with no gap and no overlap.
pub open spec fn tiles(parts: Seq<PhysRange>, r: PhysRange) -> bool {
    &&& parts.len() > 0
    &&& parts[0].start == r.start
    &&& parts[parts.len() - 1].end == r.end
    &&& forall|i: int| 0 <= i < parts.len() ==> (#[trigger] parts[i]).wf()
    &&& forall|i: int| 0 <= i < parts.len() - 1 ==> (#[trigger] parts[i]).end == parts[i + 1].start
}

/// Splitting a range at a sub-range that it contains yields pieces that,
/// taken in address order, rebuild the range exactly, with no gap or overlap.
pub proof fn lemma_split_tiles(r: PhysRange, s: PhysRange)
    requires
        r.wf(),
        s.wf(),
        range_within(r, s),
    ensures
        tiles(split_of(r, s).pieces(), r),
{
}

impl PhysRange {
    /// Is each end of the range a multiple of the page size?
    pub fn is_page_aligned(&self, pagesize: PageSize) -> (r: bool)
        ensures
            r == (self.start % pagesize.bytes() == 0 && self.end % pagesize.bytes() == 0),
    {
        let sz = pagesize.as_u64();
        self.start % sz == 0 && self.end % sz == 0
    }

    /// Number of whole pages of the given size that fit in the range.
    pub fn num_pages(&self, pagesize: PageSize) -> (r: u64)
        requires
            self.wf(),
        ensures
            r == self.len() / pagesize.bytes() as int,
    {
        (self.end - self.start) / pagesize.as_u64()
    }

    /// Find `count` pages of the given size in the range, starting at the
    /// first multiple of the page size at or after the start of the range.
    pub fn try_get_pages(&self, pagesize: PageSize, count: usize) -> (r: Option<PhysRange>)
        ensures
            r == pages_in(*self, pagesize.bytes() as int, count as int),
    {
        let sz = pagesize.as_u64();
        let rem: u64 = self.start % sz;
        proof {
            let st = self.start as int;
            let z = sz as int;
            assert(st % z <= st) by (nonlinear_arith)
                requires st >= 0, z > 0;
        }
        let aligned: u64 = if rem == 0 {
            self.start
        } else {
            match (self.start - rem).checked_add(sz) {
                Some(a) => a,
                None => {
                    return None;
                },
            }
        };
        if aligned >= self.end {
            return None;
        }
        let bytes: u64 = match (count as u64).checked_mul(sz) {
            Some(b) => b,
            None => {
                proof {
                    assert(count as int * sz as int >= sz as int) by (nonlinear_arith)
                        requires count as int * sz as int > u64::MAX, sz > 0;
                }
                return None;
            },
        };
        match aligned.checked_add(bytes) {
            Some(top) => if top <= self.end {
                Some(PhysRange { start: aligned, end: top })
            } else {
                None
            },
            None => None,
        }
    }

    /// Carve `other` out of this range, reporting which remainders are left.
    pub fn split(&self, other: &PhysRange) -> (r: PhysRangeSet)
        ensures
            r == split_of(*self, *other),
    {
        if !self.contains_range(other) {
            PhysRangeSet::Invalid
        } else if other.end == self.end {
            PhysRangeSet::Pair { old: PhysRange { start: self.start, end: other.start }, new: *other }
        } else if other.start == self.start {
            PhysRangeSet::Pair { old: PhysRange { start: other.end, end: self.end }, new: *other }
        } else {
            PhysRangeSet::Triad {
                old_lo: PhysRange { start: self.start, end: other.start },
                new: *other,
                old_hi: PhysRange { start: other.end, end: self.end },
            }
        }
    }
}


/// Firmware memory type: reserved.
pub const FW_RESERVED: u32 = 0;
/// Firmware memory type: code of a loaded program.
pub const FW_LOADER_CODE: u32 = 1;
/// Firmware memory type: data of a loaded program.
pub const FW_LOADER_DATA: u32 = 2;
/// Firmware memory type: boot services code.
pub const FW_BOOT_SERVICES_CODE: u32 = 3;
/// Firmware memory type: boot services data.
pub const FW_BOOT_SERVICES_DATA: u32 = 4;
/// Firmware memory type: runtime services code.
pub const FW_RUNTIME_SERVICES_CODE: u32 = 5;
/// Firmware memory type: runtime services data.
pub const FW_RUNTIME_SERVICES_DATA: u32 = 6;
/// Firmware memory type: free memory.
pub const FW_CONVENTIONAL: u32 = 7;
/// Firmware memory type: memory with errors.
pub const FW_UNUSABLE: u32 = 8;
/// Firmware memory type: ACPI tables, reclaimable once read.
pub const FW_ACPI_RECLAIM: u32 = 9;
/// Firmware memory type: ACPI non-volatile storage.
pub const FW_ACPI_NON_VOLATILE: u32 = 10;
/// Firmware memory type: memory-mapped I/O.
pub const FW_MMIO: u32 = 11;
/// Firmware memory type: memory-mapped I/O port space.
pub const FW_MMIO_PORT_SPACE: u32 = 12;
/// Firmware memory type: processor firmware code.
pub const FW_PAL_CODE: u32 = 13;
/// Loader-defined memory type: the boot arguments.
pub const FW_BOOT_ARGS_DATA: u32 = 0x8000_0000;
/// Loader-defined memory type: the kernel image.
pub const FW_KERNEL_IMAGE_DATA: u32 = 0x8000_0001;
/// Loader-defined memory type: page tables built by the loader.
pub const FW_PAGE_TABLE_DATA: u32 = 0x8000_0002;

/// The kind of a physical memory region.
#[derive(Clone, Copy, Debug, PartialEq, Eq, Structural)]
pub enum MrldMemoryKind {
    Invalid,
    /// Free for the kernel to use.
    Available,
    /// Used by firmware or the loader; the kernel may take it back.
    Reclaimable,
    /// Arguments passed from the loader to the kernel.
    BootArgs,
    /// The kernel image.
    KernelImage,
    /// ACPI non-volatile storage.
    AcpiNonVolatile,
    /// Firmware runtime services.
    UefiRuntime,
    /// Memory-mapped I/O.
    Mmio,
    /// Backing store for the kernel's page tables.
    KernelPaging,
    /// Backing store for the kernel heap.
    KernelHeap,
    /// Reserved by firmware.
    UefiReserved,
}

/// The kind that a firmware memory type code stands for.
pub open spec fn kind_of_firmware_type(code: u32) -> MrldMemoryKind {
    if code == FW_CONVENTIONAL {
        MrldMemoryKind::Available
    } else if code == FW_LOADER_CODE || code == FW_LOADER_DATA || code == FW_BOOT_SERVICES_CODE
        || code == FW_BOOT_SERVICES_DATA || code == FW_ACPI_RECLAIM {
        MrldMemoryKind::Reclaimable
    } else if code == FW_RUNTIME_SERVICES_CODE || code == FW_RUNTIME_SERVICES_DATA {
        MrldMemoryKind::UefiRuntime
    } else if code == FW_ACPI_NON_VOLATILE {
        MrldMemoryKind::AcpiNonVolatile
    } else if code == FW_MMIO || code == FW_MMIO_PORT_SPACE {
        MrldMemoryKind::Mmio
    } else if code == FW_RESERVED || code == FW_UNUSABLE || code == FW_PAL_CODE {
        MrldMemoryKind::UefiReserved
    } else if code == FW_BOOT_ARGS_DATA {
        MrldMemoryKind::BootArgs
    } else if code == FW_KERNEL_IMAGE_DATA {
        MrldMemoryKind::KernelImage
    } else if code == FW_PAGE_TABLE_DATA {
        MrldMemoryKind::KernelPaging
    } else {
        MrldMemoryKind::Invalid
    }
}

impl MrldMemoryKind {
    /// Classify a firmware memory type code; unknown codes are `Invalid`.
    pub fn from_firmware_type(code: u32) -> (r: MrldMemoryKind)
        ensures
            r == kind_of_firmware_type(code),
    {
        match code {
            FW_CONVENTIONAL => MrldMemoryKind::Available,
            FW_LOADER_CODE | FW_LOADER_DATA | FW_BOOT_SERVICES_CODE | FW_BOOT_SERVICES_DATA
            | FW_ACPI_RECLAIM => MrldMemoryKind::Reclaimable,
            FW_RUNTIME_SERVICES_CODE | FW_RUNTIME_SERVICES_DATA => MrldMemoryKind::UefiRuntime,
            FW_ACPI_NON_VOLATILE => MrldMemoryKind::AcpiNonVolatile,
            FW_MMIO | FW_MMIO_PORT_SPACE => MrldMemoryKind::Mmio,
            FW_RESERVED | FW_UNUSABLE | FW_PAL_CODE => MrldMemoryKind::UefiReserved,
            FW_BOOT_ARGS_DATA => MrldMemoryKind::BootArgs,
            FW_KERNEL_IMAGE_DATA => MrldMemoryKind::KernelImage,
            FW_PAGE_TABLE_DATA => MrldMemoryKind::KernelPaging,
            _ => MrldMemoryKind::Invalid,
        }
    }
}

/// A physical memory region: a kind and an address range.
#[derive(Clone, Copy, Debug, PartialEq, Eq, Structural)]
pub struct MrldMemoryDesc {
    pub kind: MrldMemoryKind,
    pub range: PhysRange,
}

/// `a` and `b` have the same kind and `b` begins where `a` ends.
pub open spec fn mergeable(a: MrldMemoryDesc, b: MrldMemoryDesc) -> bool {
    a.kind == b.kind && a.range.end == b.range.start
}

/// The region that spans `a` and `b`.
pub open spec fn merged(a: MrldMemoryDesc, b: MrldMemoryDesc) -> MrldMemoryDesc {
    MrldMemoryDesc { kind: a.kind, range: PhysRange { start: a.range.start, end: b.range.end } }
}

impl MrldMemoryDesc {
    /// The region may stand in a memory map: it has a real kind and at
    /// least one byte.
    pub open spec fn usable(self) -> bool {
        self.kind != MrldMemoryKind::Invalid && self.range.start < self.range.end
    }

    pub fn new(range: PhysRange, kind: MrldMemoryKind) -> (r: Self)
        ensures
            r.range == range,
            r.kind == kind,
    {
        MrldMemoryDesc { kind, range }
    }

    /// An `Invalid` region over the empty range at address zero.
    pub fn new_invalid() -> (r: Self)
        ensures
            r.kind == MrldMemoryKind::Invalid,
            r.range == (PhysRange { start: 0, end: 0 }),
    {
        MrldMemoryDesc { kind: MrldMemoryKind::Invalid, range: PhysRange { start: 0, end: 0 } }
    }

    /// Does the region have a real kind, and neither end at address zero?
    pub fn is_valid(&self) -> (r: bool)
        ensures
            r == (self.kind != MrldMemoryKind::Invalid && self.range.start != 0 && self.range.end
                != 0),
    {
        self.kind != MrldMemoryKind::Invalid && self.range.start != 0 && self.range.end != 0
    }

    /// May the region stand in a memory map: does it have a real kind and
    /// at least one byte?
    pub fn is_usable(&self) -> (r: bool)
        ensures
            r == self.usable(),
    {
        self.kind != MrldMemoryKind::Invalid && self.range.start < self.range.end
    }

    pub fn range(&self) -> (r: PhysRange)
        ensures
            r == self.range,
    {
        self.range
    }

    pub fn set_range(&mut self, range: PhysRange)
        ensures
            final(self).range == range,
            final(self).kind == old(self).kind,
    {
        self.range = range;
    }

    pub fn start(&self) -> (r: u64)
        ensures
            r == self.range.start,
    {
        self.range.start
    }

    pub fn end(&self) -> (r: u64)
        ensures
            r == self.range.end,
    {
        self.range.end
    }

    pub fn size(&self) -> (r: u64)
        requires
            self.range.wf(),
        ensures
            r == self.range.len(),
    {
        self.range.end - self.range.start
    }

    /// Same kind, and `other` begins where this region ends.
    pub fn can_merge_with(&self, other: &MrldMemoryDesc) -> (r: bool)
        ensures
            r == mergeable(*self, *other),
    {
        self.kind == other.kind && self.range.end == other.range.start
    }

    /// The region spanning both, when they can be merged.
    pub fn try_merge_with(&self, other: &MrldMemoryDesc) -> (r: Option<MrldMemoryDesc>)
        ensures
            r == (if mergeable(*self, *other) {
                Some(merged(*self, *other))
            } else {
                None
            }),
    {
        if self.can_merge_with(other) {
            Some(
                MrldMemoryDesc {
                    kind: self.kind,
                    range: PhysRange { start: self.range.start, end: other.range.end },
                },
            )
        } else {
            None
        }
    }
}

/// The frame sizes that the physical allocator hands out.
#[derive(Clone, Copy, Debug, PartialEq, Eq, Structural)]
pub enum FrameSize {
    Size4KiB,
    Size2MiB,
    Size1GiB,
}

impl FrameSize {
    pub open spec fn bytes(self) -> u64 {
        match self {
            FrameSize::Size4KiB => 0x1000,
            FrameSize::Size2MiB => 0x20_0000,
            FrameSize::Size1GiB => 0x4000_0000,
        }
    }

    /// The size in bytes.
    pub fn as_usize(&self) -> (r: usize)
        ensures
            r as u64 == self.bytes(),
    {
        match self {
            FrameSize::Size4KiB => 0x1000,
            FrameSize::Size2MiB => 0x20_0000,
            FrameSize::Size1GiB => 0x4000_0000,
        }
    }

    /// The frame size whose byte count is the length of `range`.
    pub fn from_range(range: PhysRange) -> (r: FrameSize)
        requires
            range.wf(),
            range.len() == 0x1000 || range.len() == 0x20_0000 || range.len() == 0x4000_0000,
        ensures
            r.bytes() == range.len(),
    {
        let sz = range.end - range.start;
        if sz == 0x1000 {
            FrameSize::Size4KiB
        } else if sz == 0x20_0000 {
            FrameSize::Size2MiB
        } else {
            FrameSize::Size1GiB
        }
    }
}

/// A physical frame.
pub struct Frame {
    range: PhysRange,
}

/// A physical memory allocator over one contiguous range of addresses.
pub struct PhysicalAllocator {
    range: PhysRange,
}

} // verus!
