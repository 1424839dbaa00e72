//! Segment selectors and descriptor table pointers.

use vstd::prelude::*;

verus! {

/// The descriptor table that a selector refers to.
#[derive(Clone, Copy, Debug, PartialEq, Eq, Structural)]
pub enum TableIndicator {
    Global,
    Local,
}

/// The x86 privilege levels.
#[derive(Clone, Copy, Debug, PartialEq, Eq, Structural)]
pub enum PrivilegeLevel {
    Ring0,
    Ring1,
    Ring2,
    Ring3,
}

impl TableIndicator {
    /// The indicator bit: 0 for the global table, 1 for a local one.
    pub open spec fn bit(self) -> u16 {
        match self {
            TableIndicator::Global => 0,
            TableIndicator::Local => 1,
        }
    }
}

impl PrivilegeLevel {
    /// The ring number.
    pub open spec fn ring(self) -> u16 {
        match self {
            PrivilegeLevel::Ring0 => 0,
            PrivilegeLevel::Ring1 => 1,
            PrivilegeLevel::Ring2 => 2,
            PrivilegeLevel::Ring3 => 3,
        }
    }

    /// The level of ring `x`.
    pub fn from_u16(x: u16) -> (r: PrivilegeLevel)
        requires
            x <= 3,
        ensures
            r.ring() == x,
    {
        match x {
            0 => PrivilegeLevel::Ring0,
            1 => PrivilegeLevel::Ring1,
            2 => PrivilegeLevel::Ring2,
            _ => PrivilegeLevel::Ring3,
        }
    }

    /// The ring number.
    pub fn as_u16(&self) -> (r: u16)
        ensures
            r == self.ring(),
    {
        match self {
            PrivilegeLevel::Ring0 => 0,
            PrivilegeLevel::Ring1 => 1,
            PrivilegeLevel::Ring2 => 2,
            PrivilegeLevel::Ring3 => 3,
        }
    }

    /// The ring number.
    pub fn as_u64(&self) -> (r: u64)
        ensures
            r == self.ring(),
    {
        self.as_u16() as u64
    }
}

/// A selector for an entry of the global or a local descriptor table:
/// the entry index in bits 3 to 15, the table indicator in bit 2 and the
/// requested privilege level in bits 0 and 1.
#[derive(Clone, Copy, Debug, PartialEq, Eq, Structural)]
pub struct SegmentSelector {
    val: u16,
}

impl View for SegmentSelector {
    type V = u16;

    closed spec fn view(&self) -> u16 {
        self.val
    }
}

/// The selector value for entry `index` of `table` at privilege `rpl`.
pub open spec fn selector_value(index: u16, table: TableIndicator, rpl: PrivilegeLevel) -> u16 {
    ((index << 3u16) | (table.bit() << 2u16) | rpl.ring()) as u16
}

impl SegmentSelector {
    /// The selector for entry `index` of `table`, requesting `rpl`.
    pub fn new(index: u16, table: TableIndicator, rpl: PrivilegeLevel) -> (r: Self)
        ensures
            r@ == selector_value(index, table, rpl),
    {
        let ti: u16 = match table {
            TableIndicator::Global => 0,
            TableIndicator::Local => 1,
        };
        SegmentSelector { val: (index << 3u16) | (ti << 2u16) | rpl.as_u16() }
    }

    /// The raw value.
    pub fn as_u16(&self) -> (r: u16)
        ensures
            r == self@,
    {
        self.val
    }

    /// Index into the table.
    pub fn index(&self) -> (r: usize)
        ensures
            r == self@ >> 3u16,
    {
        (self.val >> 3u16) as usize
    }

    /// Byte offset of the entry in the table.
    pub fn byte_index(&self) -> (r: usize)
        ensures
            r == self@ & 0xfff8,
    {
        (self.val & 0xfff8) as usize
    }

    /// The table the selector refers to.
    pub fn table_indicator(&self) -> (r: TableIndicator)
        ensures
            r == (if self@ & 0x4 != 0 {
                TableIndicator::Local
            } else {
                TableIndicator::Global
            }),
    {
        if self.val & 0x4 != 0 {
            TableIndicator::Local
        } else {
            TableIndicator::Global
        }
    }
}

/// The operand of the instructions that load and store a descriptor table
/// register: the table's size in bytes and its virtual address.
#[derive(Clone, Copy, Debug, PartialEq, Eq, Structural)]
pub struct DescriptorTablePointer {
    pub size: u16,
    pub ptr: u64,
}

impl DescriptorTablePointer {
    pub fn new(size: u16, ptr: u64) -> (r: Self)
        ensures
            r.size == size,
            r.ptr == ptr,
    {
        DescriptorTablePointer { size, ptr }
    }

    pub fn ptr(&self) -> (r: u64)
        ensures
            r == self.ptr,
    {
        self.ptr
    }

    pub fn size(&self) -> (r: u16)
        ensures
            r == self.size,
    {
        self.size
    }
}

/// Access to the global descriptor table register.
pub struct GDT;

/// Access to the interrupt descriptor table register.
pub struct IDT;

/// A 64-bit entry of a descriptor table.
#[derive(Clone, Copy, Debug, PartialEq, Eq, Structural)]
pub struct DescriptorTableEntry {
    val: u64,
}

impl View for DescriptorTableEntry {
    type V = u64;

    closed spec fn view(&self) -> u64 {
        self.val
    }
}

impl DescriptorTableEntry {
    pub fn from_u64(x: u64) -> (r: Self)
        ensures
            r@ == x,
    {
        DescriptorTableEntry { val: x }
    }

    pub fn as_u64(&self) -> (r: u64)
        ensures
            r == self@,
    {
        self.val
    }
}

/// A global descriptor table of `SZ` 64-bit entries.
pub struct GlobalDescriptorTable<const SZ: usize> {
    entries: [DescriptorTableEntry; SZ],
}

impl<const SZ: usize> View for GlobalDescriptorTable<SZ> {
    type V = Seq<DescriptorTableEntry>;

    closed spec fn view(&self) -> Seq<DescriptorTableEntry> {
        self.entries@
    }
}

impl<const SZ: usize> GlobalDescriptorTable<SZ> {
    /// A table whose entries are all zero.
    pub fn new() -> (r: Self)
        ensures
            r@.len() == SZ,
            forall|i: int| 0 <= i < SZ ==> (#[trigger] r@[i])@ == 0,
    {
        GlobalDescriptorTable { entries: [DescriptorTableEntry { val: 0 }; SZ] }
    }
}

/// A local descriptor table.
pub struct LocalDescriptorTable {}

} // verus!
