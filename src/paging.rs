//! Page sizes, page table levels, entries and tables, and virtual addresses
//! for x86-64 four-level paging.

use vstd::prelude::*;

verus! {

/// Bytes in a 4 KiB page.
pub const SIZE_4KIB: u64 = 0x1000;

/// Bytes in a 2 MiB page.
pub const SIZE_2MIB: u64 = 0x20_0000;

/// Bytes in a 1 GiB page.
pub const SIZE_1GIB: u64 = 0x4000_0000;

/// The page sizes that the paging hardware supports.
#[derive(Clone, Copy, Debug, PartialEq, Eq, Structural)]
pub enum PageSize {
    Size4KiB,
    Size2MiB,
    Size1GiB,
}

impl PageSize {
    /// The size in bytes.
    pub open spec fn bytes(self) -> u64 {
        match self {
            PageSize::Size4KiB => SIZE_4KIB,
            PageSize::Size2MiB => SIZE_2MIB,
            PageSize::Size1GiB => SIZE_1GIB,
        }
    }

    /// The size in bytes.
    pub fn as_usize(&self) -> (r: usize)
        ensures
            r as u64 == self.bytes(),
    {
        match self {
            PageSize::Size4KiB => 0x1000,
            PageSize::Size2MiB => 0x20_0000,
            PageSize::Size1GiB => 0x4000_0000,
        }
    }

    /// Is `addr` a multiple of the page size?
    pub fn is_aligned(&self, addr: u64) -> (r: bool)
        ensures
            r == (addr % self.bytes() == 0),
    {
        addr % self.as_u64() == 0
    }

    /// The size in bytes.
    pub fn as_u64(&self) -> (r: u64)
        ensures
            r == self.bytes(),
    {
        match self {
            PageSize::Size4KiB => SIZE_4KIB,
            PageSize::Size2MiB => SIZE_2MIB,
            PageSize::Size1GiB => SIZE_1GIB,
        }
    }
}


/// Number of entries in a page table of any level.
pub const NUM_TABLE_ENTRIES: usize = 512;

/// The levels of the paging hierarchy, top to bottom.
#[derive(Clone, Copy, Debug, PartialEq, Eq, Structural)]
pub enum PageTableLevel {
    PML4,
    PDP,
    PD,
    PT,
}

/// The level below `l`, if any.
pub open spec fn level_below(l: PageTableLevel) -> Option<PageTableLevel> {
    match l {
        PageTableLevel::PML4 => Some(PageTableLevel::PDP),
        PageTableLevel::PDP => Some(PageTableLevel::PD),
        PageTableLevel::PD => Some(PageTableLevel::PT),
        PageTableLevel::PT => None,
    }
}

/// The size of the page that a terminal entry at level `l` maps.
pub open spec fn terminal_size_of(l: PageTableLevel) -> Option<PageSize> {
    match l {
        PageTableLevel::PML4 => None,
        PageTableLevel::PDP => Some(PageSize::Size1GiB),
        PageTableLevel::PD => Some(PageSize::Size2MiB),
        PageTableLevel::PT => Some(PageSize::Size4KiB),
    }
}

/// The lowest bit of the virtual address field that indexes level `l`.
pub open spec fn index_shift_of(l: PageTableLevel) -> u64 {
    match l {
        PageTableLevel::PML4 => 39,
        PageTableLevel::PDP => 30,
        PageTableLevel::PD => 21,
        PageTableLevel::PT => 12,
    }
}

impl PageTableLevel {
    /// The level below this one, if any.
    pub fn next_level(&self) -> (r: Option<PageTableLevel>)
        ensures
            r == level_below(*self),
    {
        match self {
            PageTableLevel::PML4 => Some(PageTableLevel::PDP),
            PageTableLevel::PDP => Some(PageTableLevel::PD),
            PageTableLevel::PD => Some(PageTableLevel::PT),
            PageTableLevel::PT => None,
        }
    }

    /// The lowest bit of the virtual address field that indexes this level.
    pub fn index_shift(&self) -> (r: u64)
        ensures
            r == index_shift_of(*self),
    {
        match self {
            PageTableLevel::PML4 => 39,
            PageTableLevel::PDP => 30,
            PageTableLevel::PD => 21,
            PageTableLevel::PT => 12,
        }
    }

    /// The size of the page that a terminal entry at this level maps.
    pub fn terminal_size(&self) -> (r: Option<PageSize>)
        ensures
            r == terminal_size_of(*self),
    {
        match self {
            PageTableLevel::PML4 => None,
            PageTableLevel::PDP => Some(PageSize::Size1GiB),
            PageTableLevel::PD => Some(PageSize::Size2MiB),
            PageTableLevel::PT => Some(PageSize::Size4KiB),
        }
    }
}

/// Implemented by the marker types that name a level of page table.
pub trait PageTableKind: Sized {
    spec fn spec_level() -> PageTableLevel;

    /// The level this marker names.
    fn level() -> (r: PageTableLevel)
        ensures
            r == Self::spec_level(),
    ;

    spec fn spec_name() -> Seq<char>;

    spec fn spec_entry_name() -> Seq<char>;

    /// Human-readable name of a table at this level.
    fn name() -> (r: &'static str)
        ensures
            r@ == Self::spec_name(),
    ;

    /// Human-readable name of an entry at this level.
    fn entry_name() -> (r: &'static str)
        ensures
            r@ == Self::spec_entry_name(),
    ;
}

/// Marker for a page map level-4 table.
#[derive(Clone, Copy, Debug)]
pub struct PML4;

/// Marker for a page directory pointer table.
#[derive(Clone, Copy, Debug)]
pub struct PDP;

/// Marker for a page directory.
#[derive(Clone, Copy, Debug)]
pub struct PD;

/// Marker for a last-level page table.
#[derive(Clone, Copy, Debug)]
pub struct PT;

impl PageTableKind for PML4 {
    open spec fn spec_level() -> PageTableLevel {
        PageTableLevel::PML4
    }

    fn level() -> (r: PageTableLevel) {
        PageTableLevel::PML4
    }

    open spec fn spec_name() -> Seq<char> {
        "PML4"@
    }

    open spec fn spec_entry_name() -> Seq<char> {
        "PML4E"@
    }

    fn name() -> (r: &'static str) {
        "PML4"
    }

    fn entry_name() -> (r: &'static str) {
        "PML4E"
    }
}

impl PageTableKind for PDP {
    open spec fn spec_level() -> PageTableLevel {
        PageTableLevel::PDP
    }

    fn level() -> (r: PageTableLevel) {
        PageTableLevel::PDP
    }

    open spec fn spec_name() -> Seq<char> {
        "PDP"@
    }

    open spec fn spec_entry_name() -> Seq<char> {
        "PDPE"@
    }

    fn name() -> (r: &'static str) {
        "PDP"
    }

    fn entry_name() -> (r: &'static str) {
        "PDPE"
    }
}

impl PageTableKind for PD {
    open spec fn spec_level() -> PageTableLevel {
        PageTableLevel::PD
    }

    fn level() -> (r: PageTableLevel) {
        PageTableLevel::PD
    }

    open spec fn spec_name() -> Seq<char> {
        "PD"@
    }

    open spec fn spec_entry_name() -> Seq<char> {
        "PDE"@
    }

    fn name() -> (r: &'static str) {
        "PD"
    }

    fn entry_name() -> (r: &'static str) {
        "PDE"
    }
}

impl PageTableKind for PT {
    open spec fn spec_level() -> PageTableLevel {
        PageTableLevel::PT
    }

    fn level() -> (r: PageTableLevel) {
        PageTableLevel::PT
    }

    open spec fn spec_name() -> Seq<char> {
        "PT"@
    }

    open spec fn spec_entry_name() -> Seq<char> {
        "PTE"@
    }

    fn name() -> (r: &'static str) {
        "PT"
    }

    fn entry_name() -> (r: &'static str) {
        "PTE"
    }
}

/// Entry flag: present.
pub const PTF_P: u64 = 1;
/// Entry flag: writable.
pub const PTF_RW: u64 = 0x2;
/// Entry flag: accessible from user mode.
pub const PTF_US: u64 = 0x4;
/// Entry flag: write-through caching.
pub const PTF_PWT: u64 = 0x8;
/// Entry flag: caching disabled.
pub const PTF_PCD: u64 = 0x10;
/// Entry flag: accessed.
pub const PTF_A: u64 = 0x20;
/// Entry flag: dirty.
pub const PTF_D: u64 = 0x40;
/// Entry flag: page size; the entry maps a page rather than a table.
pub const PTF_PS: u64 = 0x80;
/// Entry flag: global.
pub const PTF_G: u64 = 0x100;
/// Entry flag: no-execute.
pub const PTF_NX: u64 = 0x8000_0000_0000_0000;

/// All the entry flag bits.
pub const FLAG_MASK: u64 = 0x8000_0000_0000_01ff;

/// The physical address field of an entry, bits 12 to 51.
pub const ADDRESS_MASK: u64 = 0x000f_ffff_ffff_f000;

/// A set of page table entry flags.
#[derive(Clone, Copy, Debug, PartialEq, Eq, Structural)]
pub struct PTFlag {
    bits: u64,
}

impl View for PTFlag {
    type V = u64;

    closed spec fn view(&self) -> u64 {
        self.bits
    }
}

impl PTFlag {
    /// The set with exactly the bits of `bits`, flag bits or not.
    pub fn from_bits_retain(bits: u64) -> (r: PTFlag)
        ensures
            r@ == bits,
    {
        PTFlag { bits }
    }

    /// The flags among the bits of `bits`; other bits are dropped.
    pub fn from_bits_truncate(bits: u64) -> (r: PTFlag)
        ensures
            r@ == bits & FLAG_MASK,
    {
        PTFlag { bits: bits & FLAG_MASK }
    }

    /// The empty set.
    pub fn empty() -> (r: PTFlag)
        ensures
            r@ == 0,
    {
        PTFlag { bits: 0 }
    }

    /// Every flag.
    pub fn all() -> (r: PTFlag)
        ensures
            r@ == FLAG_MASK,
    {
        PTFlag { bits: FLAG_MASK }
    }

    /// The flags in either set.
    pub fn union(&self, other: PTFlag) -> (r: PTFlag)
        ensures
            r@ == self@ | other@,
    {
        PTFlag { bits: self.bits | other.bits }
    }

    /// The flags in both sets.
    pub fn intersection(&self, other: PTFlag) -> (r: PTFlag)
        ensures
            r@ == self@ & other@,
    {
        PTFlag { bits: self.bits & other.bits }
    }

    /// Are all flags of `other` in this set?
    pub fn contains(&self, other: PTFlag) -> (r: bool)
        ensures
            r == (self@ & other@ == other@),
    {
        self.bits & other.bits == other.bits
    }

    /// The bits of the set.
    pub fn as_u64(&self) -> (r: u64)
        ensures
            r == self@,
    {
        self.bits
    }
}

/// The value of an entry built from `address` and `flags`.
pub open spec fn entry_value(address: u64, flags: u64) -> u64 {
    (address & ADDRESS_MASK) | (flags & FLAG_MASK)
}

/// Does the entry value `v` at level `l` map a page (rather than point to
/// a table of the level below)?
pub open spec fn entry_terminal(l: PageTableLevel, v: u64) -> bool {
    match l {
        PageTableLevel::PML4 => false,
        PageTableLevel::PDP => v & PTF_PS != 0,
        PageTableLevel::PD => v & PTF_PS != 0,
        PageTableLevel::PT => true,
    }
}

/// A 64-bit entry of a page table at the level that `K` names.
#[derive(Debug)]
pub struct PageTableEntry<K: PageTableKind> {
    val: u64,
    _level: core::marker::PhantomData<K>,
}

impl<K: PageTableKind> Clone for PageTableEntry<K> {
    fn clone(&self) -> (r: Self)
        ensures
            r == *self,
    {
        PageTableEntry { val: self.val, _level: core::marker::PhantomData }
    }
}

impl<K: PageTableKind> Copy for PageTableEntry<K> {

}

impl<K: PageTableKind> View for PageTableEntry<K> {
    type V = u64;

    closed spec fn view(&self) -> u64 {
        self.val
    }
}

/// An entry that holds a 4 KiB-aligned address within the address field
/// gives that address back, whatever the flags.
pub proof fn lemma_entry_address(address: u64, flags: u64)
    requires
        address & 0xfff == 0,
        address < 0x10_0000_0000_0000,
    ensures
        entry_value(address, flags) & ADDRESS_MASK == address,
{
    assert(((address & 0x000f_ffff_ffff_f000) | (flags & 0x8000_0000_0000_01ff)) & 0x000f_ffff_ffff_f000
        == address) by (bit_vector)
        requires
            address & 0xfff == 0,
            address < 0x10_0000_0000_0000,
    ;
}

impl<K: PageTableKind> PageTableEntry<K> {
    /// The entry with raw value `val`.
    pub fn from_u64(val: u64) -> (r: Self)
        ensures
            r@ == val,
    {
        PageTableEntry { val, _level: core::marker::PhantomData }
    }

    /// The entry holding the address bits of `address` and the flag bits of
    /// `flags`.
    pub fn new(address: u64, flags: PTFlag) -> (r: Self)
        ensures
            r@ == entry_value(address, flags@),
            r@ & ADDRESS_MASK == address & ADDRESS_MASK,
            r@ & FLAG_MASK == flags@ & FLAG_MASK,
            flags@ & FLAG_MASK == flags@ ==> r@ == (address & ADDRESS_MASK) | flags@,
    {
        let f = flags.as_u64();
        assert({
            let v = (address & 0x000f_ffff_ffff_f000) | (f & 0x8000_0000_0000_01ff);
            &&& v & 0x8000_0000_0000_01ff == f & 0x8000_0000_0000_01ff
            &&& v & 0x000f_ffff_ffff_f000 == address & 0x000f_ffff_ffff_f000
        }) by (bit_vector);
        let mut val: u64 = 0;
        val = val | (address & ADDRESS_MASK);
        val = val | (flags.as_u64() & FLAG_MASK);
        assert(0u64 | (address & ADDRESS_MASK) == address & ADDRESS_MASK) by (bit_vector);
        PageTableEntry { val, _level: core::marker::PhantomData }
    }

    /// An entry pointing at a table of the level below, present and
    /// writable.
    pub fn new_table_ptr(address: u64) -> (r: Self)
        ensures
            r@ == entry_value(address, PTF_P | PTF_RW),
    {
        PageTableEntry {
            val: (address & ADDRESS_MASK) | ((PTF_P | PTF_RW) & FLAG_MASK),
            _level: core::marker::PhantomData,
        }
    }

    /// The raw value.
    pub fn as_u64(&self) -> (r: u64)
        ensures
            r == self@,
    {
        self.val
    }

    /// The level of table this entry belongs to.
    pub fn level(&self) -> (r: PageTableLevel)
        ensures
            r == K::spec_level(),
    {
        K::level()
    }

    /// The raw value as a set of flags: every bit is kept, the address
    /// field included.
    pub fn flags(&self) -> (r: PTFlag)
        ensures
            r@ == self@,
    {
        PTFlag::from_bits_retain(self.val)
    }

    /// Does the entry map a page rather than point to a table? Never at the
    /// top level; at the two middle levels when the page-size flag is set;
    /// always at the bottom level.
    pub fn terminal(&self) -> (r: bool)
        ensures
            r == entry_terminal(K::spec_level(), self@),
    {
        match K::level() {
            PageTableLevel::PML4 => false,
            PageTableLevel::PDP => self.val & PTF_PS != 0,
            PageTableLevel::PD => self.val & PTF_PS != 0,
            PageTableLevel::PT => true,
        }
    }

    /// Is the raw value zero?
    pub fn invalid(&self) -> (r: bool)
        ensures
            r == (self@ == 0),
    {
        self.val == 0
    }

    /// The physical address field.
    pub fn address(&self) -> (r: u64)
        ensures
            r == self@ & ADDRESS_MASK,
    {
        self.val & ADDRESS_MASK
    }
}


/// A page table: 512 entries of the level that `K` names.
pub struct PageTable<K: PageTableKind> {
    entries: [PageTableEntry<K>; NUM_TABLE_ENTRIES],
}

impl<K: PageTableKind> View for PageTable<K> {
    type V = Seq<u64>;

    closed spec fn view(&self) -> Seq<u64> {
        self.entries@.map_values(|e: PageTableEntry<K>| e@)
    }
}

impl<K: PageTableKind> PageTable<K> {
    /// A table whose entries are all zero.
    pub fn new_zeroed() -> (r: Self)
        ensures
            r@.len() == NUM_TABLE_ENTRIES,
            forall|i: int| 0 <= i < NUM_TABLE_ENTRIES ==> r@[i] == 0,
    {
        let e = PageTableEntry::<K>::from_u64(0);
        PageTable { entries: [e; NUM_TABLE_ENTRIES] }
    }

    /// The entry at `idx`.
    pub fn get(&self, idx: usize) -> (r: PageTableEntry<K>)
        requires
            idx < NUM_TABLE_ENTRIES,
        ensures
            r@ == self@[idx as int],
            self@.len() == NUM_TABLE_ENTRIES,
    {
        self.entries[idx]
    }

    /// Replace the entry at `idx`.
    pub fn set_entry(&mut self, idx: usize, entry: PageTableEntry<K>)
        requires
            idx < NUM_TABLE_ENTRIES,
        ensures
            old(self)@.len() == NUM_TABLE_ENTRIES,
            final(self)@ == old(self)@.update(idx as int, entry@),
    {
        self.entries[idx] = entry;
        assert(self@ =~= old(self)@.update(idx as int, entry@));
    }

    /// Zero the entry at `idx`.
    pub fn clear_entry(&mut self, idx: usize)
        requires
            idx < NUM_TABLE_ENTRIES,
        ensures
            old(self)@.len() == NUM_TABLE_ENTRIES,
            final(self)@ == old(self)@.update(idx as int, 0),
    {
        self.set_entry(idx, PageTableEntry::from_u64(0));
    }

    /// The raw values of the entries, in index order.
    pub fn raw_entries(&self) -> (r: Vec<u64>)
        ensures
            r@ == self@,
            r@.len() == NUM_TABLE_ENTRIES,
    {
        let mut r: Vec<u64> = Vec::new();
        let mut i: usize = 0;
        while i < NUM_TABLE_ENTRIES
            invariant
                i <= NUM_TABLE_ENTRIES,
                self@.len() == NUM_TABLE_ENTRIES,
                r@ == self@.take(i as int),
            decreases NUM_TABLE_ENTRIES - i,
        {
            r.push(self.entries[i].as_u64());
            i += 1;
            assert(r@ =~= self@.take(i as int));
        }
        assert(self@.take(NUM_TABLE_ENTRIES as int) =~= self@);
        r
    }

    /// Each index with its entry, in index order.
    pub fn iter_entries(&self) -> (r: Vec<(PageTableIdx, PageTableEntry<K>)>)
        ensures
            r@.len() == NUM_TABLE_ENTRIES,
            forall|i: int|
                0 <= i < NUM_TABLE_ENTRIES ==> (#[trigger] r@[i]).0@ == i && r@[i].1@ == self@[i],
    {
        let mut r: Vec<(PageTableIdx, PageTableEntry<K>)> = Vec::new();
        let mut i: usize = 0;
        while i < NUM_TABLE_ENTRIES
            invariant
                i <= NUM_TABLE_ENTRIES,
                self@.len() == NUM_TABLE_ENTRIES,
                r@.len() == i,
                forall|j: int| 0 <= j < i ==> (#[trigger] r@[j]).0@ == j && r@[j].1@ == self@[j],
            decreases NUM_TABLE_ENTRIES - i,
        {
            r.push((PageTableIdx::from_usize(i), self.entries[i]));
            i += 1;
        }
        r
    }

    /// The entries, in index order, to be changed in place.
    pub fn entries_mut(&mut self) -> (r: &mut [PageTableEntry<K>])
        ensures
            r@.map_values(|e: PageTableEntry<K>| e@) == old(self)@,
            final(r)@.map_values(|e: PageTableEntry<K>| e@) == final(self)@,
    {
        &mut self.entries
    }

    /// The entries, in index order.
    pub fn entries(&self) -> (r: &[PageTableEntry<K>])
        ensures
            r@.map_values(|e: PageTableEntry<K>| e@) == self@,
            self@.len() == NUM_TABLE_ENTRIES,
    {
        self.entries.as_slice()
    }
}

/// An index into one level of page table: less than 512.
#[derive(Clone, Copy, Debug, PartialEq, Eq, PartialOrd, Ord, Structural)]
pub struct PageTableIdx {
    idx: u16,
}

impl View for PageTableIdx {
    type V = nat;

    closed spec fn view(&self) -> nat {
        self.idx as nat
    }
}

impl PageTableIdx {
    /// Every index is below 512.
    pub open spec fn wf(self) -> bool {
        self@ < NUM_TABLE_ENTRIES
    }

    /// The index `idx`.
    pub fn from_usize(idx: usize) -> (r: PageTableIdx)
        requires
            idx < NUM_TABLE_ENTRIES,
        ensures
            r@ == idx,
            r.wf(),
    {
        PageTableIdx { idx: idx as u16 }
    }

    /// The index as a `usize`.
    pub fn as_usize(&self) -> (r: usize)
        ensures
            r == self@,
    {
        self.idx as usize
    }
}

/// Bits 63 down to 47 of `v` are all equal.
pub open spec fn canonical(v: u64) -> bool {
    v >> 47u64 == 0 || v >> 47u64 == 0x1_ffff
}

/// The 9-bit index that `v` holds from bit `shift` up.
pub open spec fn index_at(v: u64, shift: u64) -> u64 {
    (v >> shift) & 0x1ff
}

/// The address made of four level indices, sign-extended from bit 47.
pub open spec fn address_from_indices(i4: u64, i3: u64, i2: u64, i1: u64) -> u64 {
    let raw = (i4 << 39u64) | (i3 << 30u64) | (i2 << 21u64) | (i1 << 12u64);
    if raw & 0x8000_0000_0000 != 0 {
        raw | 0xffff_0000_0000_0000
    } else {
        raw
    }
}

/// A virtual address.
#[derive(Clone, Copy, Debug, PartialEq, Eq, Structural)]
pub struct VirtAddr {
    val: u64,
}

impl View for VirtAddr {
    type V = u64;

    closed spec fn view(&self) -> u64 {
        self.val
    }
}

/// Rebuilding a canonical address from its four level indices gives the
/// address back, when its page offset bits are zero.
pub proof fn lemma_decompose_round_trip(v: u64)
    requires
        canonical(v),
        v & 0xfff == 0,
    ensures
        address_from_indices(index_at(v, 39), index_at(v, 30), index_at(v, 21), index_at(v, 12))
            == v,
{
    assert(address_from_indices(
        (v >> 39u64) & 0x1ff,
        (v >> 30u64) & 0x1ff,
        (v >> 21u64) & 0x1ff,
        (v >> 12u64) & 0x1ff,
    ) == v) by (bit_vector)
        requires
            v >> 47u64 == 0 || v >> 47u64 == 0x1_ffff,
            v & 0xfff == 0,
    ;
}

impl VirtAddr {
    /// The address with value `val`.
    pub fn from_u64(val: u64) -> (r: VirtAddr)
        ensures
            r@ == val,
    {
        VirtAddr { val }
    }

    /// The raw value.
    pub fn as_u64(&self) -> (r: u64)
        ensures
            r == self@,
    {
        self.val
    }

    /// Are bits 63 down to 47 all equal?
    pub fn is_canonical(&self) -> (r: bool)
        ensures
            r == canonical(self@),
    {
        let v = self.val;
        let r = if v & (1u64 << 47u64) != 0 {
            v & 0xffff_0000_0000_0000 == 0xffff_0000_0000_0000
        } else {
            v & 0xffff_0000_0000_0000 == 0
        };
        assert(r == (v >> 47u64 == 0 || v >> 47u64 == 0x1_ffff)) by (bit_vector)
            requires
                r == if v & (1u64 << 47u64) != 0 {
                    v & 0xffff_0000_0000_0000 == 0xffff_0000_0000_0000
                } else {
                    v & 0xffff_0000_0000_0000 == 0
                },
        ;
        r
    }

    /// The index into the level-4 table: bits 39 to 47.
    pub fn pml4_idx(&self) -> (r: usize)
        ensures
            r == index_at(self@, 39),
            r < NUM_TABLE_ENTRIES,
    {
        let v = self.val;
        assert((v & 0x0000_ff80_0000_0000) >> 39u64 == (v >> 39u64) & 0x1ff) by (bit_vector);
        assert((v >> 39u64) & 0x1ff < 512) by (bit_vector);
        ((v & 0x0000_ff80_0000_0000) >> 39u64) as usize
    }

    /// The index into the page directory pointer table: bits 30 to 38.
    pub fn pdp_idx(&self) -> (r: usize)
        ensures
            r == index_at(self@, 30),
            r < NUM_TABLE_ENTRIES,
    {
        let v = self.val;
        assert((v & 0x0000_007f_c000_0000) >> 30u64 == (v >> 30u64) & 0x1ff) by (bit_vector);
        assert((v >> 30u64) & 0x1ff < 512) by (bit_vector);
        ((v & 0x0000_007f_c000_0000) >> 30u64) as usize
    }

    /// The index into the page directory: bits 21 to 29.
    pub fn pd_idx(&self) -> (r: usize)
        ensures
            r == index_at(self@, 21),
            r < NUM_TABLE_ENTRIES,
    {
        let v = self.val;
        assert((v & 0x0000_0000_3fe0_0000) >> 21u64 == (v >> 21u64) & 0x1ff) by (bit_vector);
        assert((v >> 21u64) & 0x1ff < 512) by (bit_vector);
        ((v & 0x0000_0000_3fe0_0000) >> 21u64) as usize
    }

    /// The index into the last-level page table: bits 12 to 20.
    pub fn pt_idx(&self) -> (r: usize)
        ensures
            r == index_at(self@, 12),
            r < NUM_TABLE_ENTRIES,
    {
        let v = self.val;
        assert((v & 0x0000_0000_001f_f000) >> 12u64 == (v >> 12u64) & 0x1ff) by (bit_vector);
        assert((v >> 12u64) & 0x1ff < 512) by (bit_vector);
        ((v & 0x0000_0000_001f_f000) >> 12u64) as usize
    }

    /// The four level indices, top level first.
    pub fn decompose(&self) -> (r: (PageTableIdx, PageTableIdx, PageTableIdx, PageTableIdx))
        ensures
            r.0@ == index_at(self@, 39),
            r.1@ == index_at(self@, 30),
            r.2@ == index_at(self@, 21),
            r.3@ == index_at(self@, 12),
    {
        (
            PageTableIdx::from_usize(self.pml4_idx()),
            PageTableIdx::from_usize(self.pdp_idx()),
            PageTableIdx::from_usize(self.pd_idx()),
            PageTableIdx::from_usize(self.pt_idx()),
        )
    }

    /// The canonical address whose level indices are the given ones and
    /// whose page offset is zero.
    pub fn canonical_from_index(
        pml4: PageTableIdx,
        pdp: PageTableIdx,
        pd: PageTableIdx,
        pt: PageTableIdx,
    ) -> (r: VirtAddr)
        ensures
            r@ == address_from_indices(pml4@ as u64, pdp@ as u64, pd@ as u64, pt@ as u64),
    {
        let i4 = pml4.idx as u64;
        let i3 = pdp.idx as u64;
        let i2 = pd.idx as u64;
        let i1 = pt.idx as u64;
        let raw: u64 = (i4 << 39u64) | (i3 << 30u64) | (i2 << 21u64) | (i1 << 12u64);
        let val = if raw & 0x8000_0000_0000 != 0 {
            raw | 0xffff_0000_0000_0000
        } else {
            raw
        };
        VirtAddr { val }
    }
}


/// Each level index of an address is below 512.
pub proof fn lemma_index_bounds(v: u64)
    ensures
        index_at(v, 39) < 512,
        index_at(v, 30) < 512,
        index_at(v, 21) < 512,
        index_at(v, 12) < 512,
{
    assert((v >> 39u64) & 0x1ff < 512 && (v >> 30u64) & 0x1ff < 512 && (v >> 21u64) & 0x1ff < 512
        && (v >> 12u64) & 0x1ff < 512) by (bit_vector);
}

} // verus!
