//! Building a global descriptor table.

use vstd::prelude::*;
use crate::segment::{PrivilegeLevel, SegmentSelector, TableIndicator};

verus! {

/// Descriptor flag: granularity.
pub const DF_G: u64 = 1u64 << 55u64;
/// Descriptor flag: default operand size.
pub const DF_D: u64 = 1u64 << 54u64;
/// Descriptor flag: long mode.
pub const DF_L: u64 = 1u64 << 53u64;
/// Descriptor flag: available to software.
pub const DF_AVL: u64 = 1u64 << 52u64;
/// Descriptor flag: present.
pub const DF_P: u64 = 1u64 << 47u64;
/// Descriptor flag: user segment.
pub const DF_S: u64 = 1u64 << 44u64;
/// Descriptor flag: executable.
pub const DF_E: u64 = 1u64 << 43u64;
/// Descriptor flag: conforming.
pub const DF_C: u64 = 1u64 << 42u64;
/// Descriptor flag: writable data, or readable code.
pub const DF_W: u64 = 1u64 << 41u64;
/// Descriptor flag: accessed.
pub const DF_A: u64 = 1u64 << 40u64;

/// All the descriptor flag bits: 40 to 44, 47 and 52 to 55.
pub const DFLAG_MASK: u64 = 0x00f0_9f00_0000_0000;

/// A set of descriptor flags.
#[derive(Clone, Copy, Debug, PartialEq, Eq, Structural)]
pub struct DFlags {
    bits: u64,
}

impl View for DFlags {
    type V = u64;

    closed spec fn view(&self) -> u64 {
        self.bits
    }
}

impl DFlags {
    /// A set holds flag bits only.
    #[verifier::type_invariant]
    spec fn inv(self) -> bool {
        self.bits & DFLAG_MASK == self.bits
    }

    /// The flags among the bits of `bits`; other bits are dropped.
    pub fn from_bits_truncate(bits: u64) -> (r: DFlags)
        ensures
            r@ == bits & DFLAG_MASK,
    {
        assert((bits & 0x00f0_9f00_0000_0000) & 0x00f0_9f00_0000_0000 == bits & 0x00f0_9f00_0000_0000)
            by (bit_vector);
        DFlags { bits: bits & DFLAG_MASK }
    }

    /// The bits of the set: flag bits only.
    pub fn bits(&self) -> (r: u64)
        ensures
            r == self@,
            r & DFLAG_MASK == r,
    {
        proof {
            use_type_invariant(self);
        }
        self.bits
    }

    /// Present, user, granularity, writable or readable, accessed.
    pub fn default_flags() -> (r: DFlags)
        ensures
            r@ == (DF_P | DF_S | DF_G | DF_W | DF_A) & DFLAG_MASK,
    {
        DFlags::from_bits_truncate(DF_P | DF_S | DF_G | DF_W | DF_A)
    }

    /// The default flags, long mode and executable: a 64-bit code segment.
    pub fn code() -> (r: DFlags)
        ensures
            r@ == (((DF_P | DF_S | DF_G | DF_W | DF_A) & DFLAG_MASK) | DF_L | DF_E) & DFLAG_MASK,
    {
        DFlags::from_bits_truncate(DFlags::default_flags().bits() | DF_L | DF_E)
    }

    /// The default flags and long mode: a data segment.
    pub fn data() -> (r: DFlags)
        ensures
            r@ == (((DF_P | DF_S | DF_G | DF_W | DF_A) & DFLAG_MASK) | DF_L) & DFLAG_MASK,
    {
        DFlags::from_bits_truncate(DFlags::default_flags().bits() | DF_L)
    }
}

/// The value of a user descriptor with the given fields.
pub open spec fn descriptor_value(base_addr: u32, dpl: u64, segment_limit: u16, flags: u64) -> u64 {
    (((base_addr as u64 & 0xff00_0000) << 32u64) | ((base_addr as u64 & 0x00ff_ffff) << 16u64) | (dpl
        << 45u64) | flags | segment_limit as u64)
}

/// A 64-bit user segment descriptor.
#[derive(Clone, Copy, Debug, PartialEq, Eq, Structural)]
pub struct Descriptor {
    val: u64,
}

impl View for Descriptor {
    type V = u64;

    closed spec fn view(&self) -> u64 {
        self.val
    }
}

impl Descriptor {
    /// The flag bits of the descriptor.
    pub fn flags(&self) -> (r: DFlags)
        ensures
            r@ == self@ & DFLAG_MASK,
    {
        DFlags::from_bits_truncate(self.val)
    }

    /// Bits 0 to 15 of the segment limit.
    pub fn segment_limit(&self) -> (r: u16)
        ensures
            r == (self@ & 0xffff) as u16,
    {
        (self.val & 0xffff) as u16
    }

    /// The 32-bit base address: bits 16 to 39 and 56 to 63 of the
    /// descriptor.
    pub fn base_addr(&self) -> (r: u32)
        ensures
            r == (((self@ & 0xff00_0000_0000_0000) >> 32u64) | ((self@ & 0x0000_00ff_ffff_0000)
                >> 16u64)) as u32,
    {
        let hi = (self.val & 0xff00_0000_0000_0000) >> 32u64;
        let lo = (self.val & 0x0000_00ff_ffff_0000) >> 16u64;
        (hi | lo) as u32
    }

    /// The raw value.
    pub fn as_u64(&self) -> (r: u64)
        ensures
            r == self@,
    {
        self.val
    }

    /// The null descriptor.
    pub fn new_null() -> (r: Self)
        ensures
            r@ == 0,
    {
        Descriptor { val: 0 }
    }

    /// The descriptor with raw value `x`.
    pub fn new_from_u64(x: u64) -> (r: Self)
        ensures
            r@ == x,
    {
        Descriptor { val: x }
    }

    /// The descriptor with the given base, privilege, limit and flags.
    pub fn new(base_addr: u32, dpl: PrivilegeLevel, segment_limit: u16, flags: DFlags) -> (r: Self)
        ensures
            r@ == descriptor_value(base_addr, dpl.ring() as u64, segment_limit, flags@),
            (((r@ & 0xff00_0000_0000_0000) >> 32u64) | ((r@ & 0x0000_00ff_ffff_0000) >> 16u64)) as u32
                == base_addr,
            (r@ & 0xffff) as u16 == segment_limit,
            r@ & DFLAG_MASK == flags@,
            (r@ >> 45u64) & 0b11 == dpl.ring(),
    {
        let f = flags.bits();
        let dv = dpl.as_u64();
        assert({
            let v = ((base_addr as u64 & 0xff00_0000) << 32u64) | ((base_addr as u64 & 0x00ff_ffff)
                << 16u64) | (dv << 45u64) | f | segment_limit as u64;
            &&& (((v & 0xff00_0000_0000_0000) >> 32u64) | ((v & 0x0000_00ff_ffff_0000) >> 16u64)) as u32
                == base_addr
            &&& (v & 0xffff) as u16 == segment_limit
            &&& v & 0x00f0_9f00_0000_0000 == f
            &&& (v >> 45u64) & 0b11 == dv
        }) by (bit_vector)
            requires
                f & 0x00f0_9f00_0000_0000 == f,
                dv <= 3,
        ;
        let hi = (base_addr as u64 & 0xff00_0000) << 32u64;
        let lo = (base_addr as u64 & 0x00ff_ffff) << 16u64;
        let d = dpl.as_u64() << 45u64;
        Descriptor { val: hi | lo | d | flags.bits() | segment_limit as u64 }
    }
}

/// A 128-bit system descriptor, as its two 64-bit halves.
#[derive(Clone, Copy, Debug, PartialEq, Eq, Structural)]
pub enum SystemDescriptor {
    LdtPointer(u64, u64),
    TssAvailable(u64, u64),
    TssBusy(u64, u64),
    CallGate(u64, u64),
    InterruptGate(u64, u64),
    TrapGate(u64, u64),
}

impl SystemDescriptor {
    /// The two halves, whatever the kind.
    pub open spec fn halves(self) -> (u64, u64) {
        match self {
            SystemDescriptor::LdtPointer(x, y) => (x, y),
            SystemDescriptor::TssAvailable(x, y) => (x, y),
            SystemDescriptor::TssBusy(x, y) => (x, y),
            SystemDescriptor::CallGate(x, y) => (x, y),
            SystemDescriptor::InterruptGate(x, y) => (x, y),
            SystemDescriptor::TrapGate(x, y) => (x, y),
        }
    }

    /// The two halves, whatever the kind.
    pub fn as_u64(&self) -> (r: (u64, u64))
        ensures
            r == self.halves(),
    {
        match self {
            SystemDescriptor::LdtPointer(x, y) => (*x, *y),
            SystemDescriptor::TssAvailable(x, y) => (*x, *y),
            SystemDescriptor::TssBusy(x, y) => (*x, *y),
            SystemDescriptor::CallGate(x, y) => (*x, *y),
            SystemDescriptor::InterruptGate(x, y) => (*x, *y),
            SystemDescriptor::TrapGate(x, y) => (*x, *y),
        }
    }
}

/// An entry to be written to a global descriptor table.
pub enum GdtEntry {
    /// A code descriptor.
    Code(DFlags, PrivilegeLevel),
    /// A data descriptor.
    Data(DFlags, PrivilegeLevel),
    /// A system descriptor.
    System(SystemDescriptor),
}

/// The kernel's code segment selector: entry 1 of the global table, ring 0.
pub fn kernel_code_sel() -> (r: SegmentSelector)
    ensures
        r@ == crate::segment::selector_value(1, TableIndicator::Global, PrivilegeLevel::Ring0),
{
    SegmentSelector::new(1, TableIndicator::Global, PrivilegeLevel::Ring0)
}

/// The kernel's data segment selector: entry 2 of the global table, ring 0.
pub fn kernel_data_sel() -> (r: SegmentSelector)
    ensures
        r@ == crate::segment::selector_value(2, TableIndicator::Global, PrivilegeLevel::Ring0),
{
    SegmentSelector::new(2, TableIndicator::Global, PrivilegeLevel::Ring0)
}

/// A global descriptor table of `SZ` 64-bit words under construction, with
/// a cursor at the next word to write.
pub struct GlobalDescriptorTable<const SZ: usize> {
    pub entries: [u64; SZ],
    pub cursor: usize,
}

impl<const SZ: usize> GlobalDescriptorTable<SZ> {
    /// The table fits the 16-bit limit of the descriptor table register.
    pub open spec fn fits() -> bool {
        8 * SZ <= 0x1_0000
    }

    /// Size of the table in bytes.
    pub fn size(&self) -> (r: usize)
        requires
            Self::fits(),
        ensures
            r == 8 * SZ,
    {
        8 * SZ
    }

    /// Size of the table in bytes, minus one.
    pub fn limit(&self) -> (r: u16)
        requires
            Self::fits(),
            SZ > 0,
        ensures
            r == 8 * SZ - 1,
    {
        (8 * SZ - 1) as u16
    }

    /// A table of zero words with the cursor at the start.
    pub fn new_zeroed() -> (r: Self)
        ensures
            r.cursor == 0,
            forall|i: int| 0 <= i < SZ ==> #[trigger] r.entries@[i] == 0,
    {
        GlobalDescriptorTable { entries: [0u64; SZ], cursor: 0 }
    }

    /// Write a null descriptor at the cursor and move past it.
    pub fn push_null_desc(self) -> (r: Self)
        requires
            self.cursor < SZ,
        ensures
            r.entries@ == self.entries@.update(self.cursor as int, 0),
            r.cursor == self.cursor + 1,
    {
        let mut t = self;
        t.entries[t.cursor] = 0;
        t.cursor = t.cursor + 1;
        t
    }

    /// Write a 64-bit user descriptor at the cursor and move past it.
    pub fn push_user_desc(self, entry: Descriptor) -> (r: Self)
        requires
            self.cursor < SZ,
        ensures
            r.entries@ == self.entries@.update(self.cursor as int, entry@),
            r.cursor == self.cursor + 1,
    {
        let mut t = self;
        t.entries[t.cursor] = entry.as_u64();
        t.cursor = t.cursor + 1;
        t
    }

    /// Write a 128-bit system descriptor at the cursor and move past it.
    pub fn push_sys_desc(self, entry: (u64, u64)) -> (r: Self)
        requires
            self.cursor + 1 < SZ,
        ensures
            r.entries@ == self.entries@.update(self.cursor as int, entry.0).update(
                self.cursor + 1,
                entry.1,
            ),
            r.cursor == self.cursor + 2,
    {
        let mut t = self;
        let c = t.cursor;
        t.entries[c] = entry.0;
        t.entries[c + 1] = entry.1;
        t.cursor = c + 2;
        t
    }
}

} // verus!
