use mrld::builder::{
    BuilderState, MapError, MrldPageTable, KERNEL_HEAP_BASE, KERNEL_TEXT_BASE,
};
use mrld::memmap::KERNEL_PHYS_BASE;
use mrld::paging::{
    PTFlag, PageSize, PageTable, PageTableEntry, PageTableIdx, PageTableLevel, VirtAddr, PD,
    PDP, PML4, PT, PTF_NX, PTF_P, PTF_PS, PTF_RW,
};
use mrld::physmem::{MrldMemoryDesc, MrldMemoryKind, PhysRange};

fn region(kind: MrldMemoryKind, start: u64, end: u64) -> MrldMemoryDesc {
    MrldMemoryDesc::new(PhysRange::new(start, end), kind)
}

/// Walk the built tables the way the processor does.
fn walk(tables: &[(u64, Vec<u64>)], va: u64, size: PageSize) -> Option<u64> {
    let find = |addr: u64| tables.iter().find(|t| t.0 == addr).map(|t| &t.1);
    let mask = 0x000f_ffff_ffff_f000u64;
    let root = &tables[0].1;
    let e4 = root[((va >> 39) & 0x1ff) as usize];
    if e4 == 0 {
        return None;
    }
    let pdp = find(e4 & mask)?;
    let e3 = pdp[((va >> 30) & 0x1ff) as usize];
    if e3 == 0 {
        return None;
    }
    if e3 & PTF_PS != 0 {
        return if size == PageSize::Size1GiB { Some(e3 & mask) } else { None };
    }
    let pd = find(e3 & mask)?;
    let e2 = pd[((va >> 21) & 0x1ff) as usize];
    if e2 != 0 && e2 & PTF_PS != 0 && size == PageSize::Size2MiB {
        Some(e2 & mask)
    } else {
        None
    }
}

#[test]
fn page_sizes_and_levels() {
    assert_eq!(PageSize::Size4KiB.as_usize(), 4096);
    assert_eq!(PageSize::Size2MiB.as_u64(), 2 * 1024 * 1024);
    assert_eq!(PageSize::Size1GiB.as_usize(), 1 << 30);
    assert_eq!(PageTableLevel::PML4.next_level(), Some(PageTableLevel::PDP));
    assert_eq!(PageTableLevel::PD.next_level(), Some(PageTableLevel::PT));
    assert_eq!(PageTableLevel::PT.next_level(), None);
    assert_eq!(PageTableLevel::PDP.terminal_size(), Some(PageSize::Size1GiB));
    assert_eq!(PageTableLevel::PML4.terminal_size(), None);
    assert_eq!(PageTableLevel::PD.index_shift(), 21);
}

#[test]
fn entry_address_round_trip() {
    let flags = PTFlag::from_bits_truncate(PTF_P | PTF_RW | PTF_NX);
    for addr in [0u64, 0x1000, 0x20_0000, 0x000f_ffff_ffff_f000, 0x1234_5678_9000] {
        let e = PageTableEntry::<PDP>::new(addr, flags);
        assert_eq!(e.address(), addr);
        assert_eq!(e.flags().intersection(PTFlag::all()), flags);
        assert_eq!(e.flags().as_u64(), addr | flags.as_u64());
    }
    // Flag bits inside the address field are not taken as flags.
    let e = PageTableEntry::<PD>::new(0x4000, PTFlag::from_bits_retain(0xffff_ffff_ffff_ffff));
    assert_eq!(e.address(), 0x4000);
    assert_eq!(e.as_u64(), 0x4000 | 0x8000_0000_0000_01ff);
    // The raw value is kept whole by flags().
    assert_eq!(PageTableEntry::<PD>::from_u64(0x1000).flags().as_u64(), 0x1000);
    // Address bits outside the field are dropped.
    assert_eq!(PageTableEntry::<PD>::new(0xfff0_0000_0000_1000, PTFlag::empty()).address(), 0x1000);
}

#[test]
fn entry_terminal_depends_on_level() {
    let ps = PTFlag::from_bits_truncate(PTF_P | PTF_PS);
    let p = PTFlag::from_bits_truncate(PTF_P);
    assert!(!PageTableEntry::<PML4>::new(0x1000, ps).terminal());
    assert!(PageTableEntry::<PDP>::new(0x1000, ps).terminal());
    assert!(!PageTableEntry::<PDP>::new(0x1000, p).terminal());
    assert!(PageTableEntry::<PD>::new(0x1000, ps).terminal());
    assert!(!PageTableEntry::<PD>::new(0x1000, p).terminal());
    assert!(PageTableEntry::<PT>::new(0x1000, p).terminal());
    assert_eq!(PageTableEntry::<PT>::from_u64(0).level(), PageTableLevel::PT);
    assert!(PageTableEntry::<PT>::from_u64(0).invalid());
    assert!(!PageTableEntry::<PT>::from_u64(0x1000).invalid());
    assert_eq!(PageTableEntry::<PML4>::new_table_ptr(0x5000).as_u64(), 0x5003);
}

#[test]
fn flags_sets() {
    let a = PTFlag::from_bits_truncate(PTF_P);
    let b = PTFlag::from_bits_truncate(PTF_RW);
    let ab = a.union(b);
    assert_eq!(ab.as_u64(), 3);
    assert!(ab.contains(a));
    assert!(!a.contains(ab));
    assert_eq!(PTFlag::from_bits_truncate(0x1000).as_u64(), 0);
    assert_eq!(PTFlag::from_bits_retain(0x1003).as_u64(), 0x1003);
    assert_eq!(PTFlag::from_bits_retain(0x1003).intersection(PTFlag::all()), ab);
}

#[test]
fn table_entries() {
    let mut t = PageTable::<PD>::new_zeroed();
    assert!(t.entries().iter().all(|e| e.invalid()));
    t.set_entry(7, PageTableEntry::from_u64(0x2083));
    assert_eq!(t.get(7).as_u64(), 0x2083);
    assert_eq!(t.entries().len(), 512);
    assert_eq!(t.raw_entries()[7], 0x2083);
    t.clear_entry(7);
    assert!(t.get(7).invalid());
}

#[test]
fn canonical_addresses() {
    assert!(VirtAddr::from_u64(0).is_canonical());
    assert!(VirtAddr::from_u64(0x0000_7fff_ffff_ffff).is_canonical());
    assert!(!VirtAddr::from_u64(0x0000_8000_0000_0000).is_canonical());
    assert!(VirtAddr::from_u64(0xffff_8000_0000_0000).is_canonical());
    assert!(!VirtAddr::from_u64(0xfffe_8000_0000_0000).is_canonical());
    assert!(!VirtAddr::from_u64(0x8000_0000_0000_0000).is_canonical());
    assert!(VirtAddr::from_u64(KERNEL_TEXT_BASE).is_canonical());
}

#[test]
fn decompose_and_rebuild() {
    let v = VirtAddr::from_u64(KERNEL_TEXT_BASE + 3 * 0x20_0000 + 5 * 0x1000);
    assert_eq!(v.pml4_idx(), 511);
    assert_eq!(v.pdp_idx(), 510);
    assert_eq!(v.pd_idx(), 3);
    assert_eq!(v.pt_idx(), 5);
    for a in [0u64, 0x1000, 0x0000_7fff_ffff_f000, 0xffff_8000_0000_0000, KERNEL_HEAP_BASE, 0x1234_5678_9000] {
        let va = VirtAddr::from_u64(a);
        let (i4, i3, i2, i1) = va.decompose();
        assert_eq!(VirtAddr::canonical_from_index(i4, i3, i2, i1).as_u64(), a);
    }
    let z = PageTableIdx::from_usize(0);
    let top = PageTableIdx::from_usize(511);
    assert_eq!(top.as_usize(), 511);
    assert_eq!(VirtAddr::canonical_from_index(top, z, z, z).as_u64(), 0xffff_ff80_0000_0000);
    assert_eq!(VirtAddr::canonical_from_index(PageTableIdx::from_usize(1), z, z, top).as_u64(), 0x80_001f_f000);
}

fn backed() -> MrldPageTable {
    let mut pt = MrldPageTable::new_empty();
    assert_eq!(pt.state(), BuilderState::Empty);
    pt.init(
        region(MrldMemoryKind::KernelPaging, 0x20_0000, 0x40_0000),
        region(MrldMemoryKind::KernelHeap, 0x4000_0000, 0x8000_0000),
    )
    .unwrap();
    pt
}

#[test]
fn four_kib_mapping_is_unsupported() {
    assert_eq!(
        MrldPageTable::check_request(0x1000, 0x2000, PageSize::Size4KiB),
        Err(MapError::UnsupportedGranularity)
    );
    assert_eq!(MrldPageTable::check_request(0x20_0000, 0x40_0000, PageSize::Size2MiB), Ok(()));
    assert_eq!(MrldPageTable::check_request(0, 0x4000_0000, PageSize::Size1GiB), Ok(()));
}

#[test]
fn misaligned_mapping_is_refused() {
    assert_eq!(
        MrldPageTable::check_request(0x1000, 0x20_0000, PageSize::Size2MiB),
        Err(MapError::MisalignedAddress)
    );
    assert_eq!(
        MrldPageTable::check_request(0x20_0000, 0x1000, PageSize::Size2MiB),
        Err(MapError::MisalignedAddress)
    );
    assert_eq!(
        MrldPageTable::check_request(0x1000, 0x1001, PageSize::Size4KiB),
        Err(MapError::MisalignedAddress)
    );
}

#[test]
fn terminal_entries_are_present_and_writable() {
    let pt = backed();
    let tables = pt.tables();
    // The identity table holds 1 GiB entries with P, RW and PS.
    let identity = tables.iter().find(|t| t.0 == tables[0].1[0] & 0x000f_ffff_ffff_f000).unwrap();
    for (j, e) in identity.1.iter().enumerate() {
        assert_eq!(e & 0x8000_0000_0000_01ff, PTF_P | PTF_RW | PTF_PS);
        assert_eq!(e & 0x000f_ffff_ffff_f000, (j as u64) << 30);
    }
}

#[test]
fn init_builds_the_three_mappings() {
    let pt = backed();
    assert_eq!(pt.state(), BuilderState::Backed);
    assert_eq!(pt.root_address(), 0x20_0000);
    let tables = pt.tables();
    // Root, two page directory pointer tables, one page directory.
    assert_eq!(tables.len(), 4);
    assert_eq!(pt.next_page(), 0x20_0000 + 4 * 0x1000);
    for j in 0..512u64 {
        assert_eq!(walk(&tables, j << 30, PageSize::Size1GiB), Some(j << 30));
    }
    for j in 0..32u64 {
        assert_eq!(
            walk(&tables, KERNEL_TEXT_BASE + j * 0x20_0000, PageSize::Size2MiB),
            Some(KERNEL_PHYS_BASE + j * 0x20_0000)
        );
    }
    assert_eq!(walk(&tables, KERNEL_HEAP_BASE, PageSize::Size1GiB), Some(0x4000_0000));
    assert_eq!(walk(&tables, KERNEL_HEAP_BASE + (1 << 30), PageSize::Size1GiB), None);
}

#[test]
fn intermediate_tables_are_reused() {
    let mut pt = backed();
    let before = pt.next_page();
    // Same level-4 and level-3 entries as the kernel image: no new table.
    pt.map_page(KERNEL_TEXT_BASE + 100 * 0x20_0000, 0x1_0000_0000, PageSize::Size2MiB).unwrap();
    assert_eq!(pt.next_page(), before);
    // A fresh level-3 entry under an existing table: one new directory.
    pt.map_page(0xffff_ff80_0000_0000, 0x20_0000, PageSize::Size2MiB).unwrap();
    assert_eq!(pt.next_page(), before + 0x1000);
    // A fresh level-4 entry: two new tables.
    pt.map_page(0x0000_4000_0000_0000, 0x40_0000, PageSize::Size2MiB).unwrap();
    assert_eq!(pt.next_page(), before + 0x3000);
    let tables = pt.tables();
    assert_eq!(walk(&tables, 0x0000_4000_0000_0000, PageSize::Size2MiB), Some(0x40_0000));
    assert_eq!(walk(&tables, 0xffff_ff80_0000_0000, PageSize::Size2MiB), Some(0x20_0000));
    assert_eq!(walk(&tables, KERNEL_TEXT_BASE, PageSize::Size2MiB), Some(KERNEL_PHYS_BASE));
}

#[test]
fn backing_region_runs_out() {
    let mut pt = MrldPageTable::new_empty();
    // Room for the root and two more tables.
    assert_eq!(
        pt.init(
            region(MrldMemoryKind::KernelPaging, 0x20_0000, 0x20_3000),
            region(MrldMemoryKind::KernelHeap, 0x4000_0000, 0x8000_0000),
        ),
        Err(MapError::AllocationExhausted)
    );
    let mut pt = MrldPageTable::new_empty();
    assert_eq!(
        pt.init(
            region(MrldMemoryKind::KernelPaging, 0x20_0800, 0x40_0000),
            region(MrldMemoryKind::KernelHeap, 0x4000_0000, 0x8000_0000),
        ),
        Err(MapError::MisalignedAddress)
    );
    assert_eq!(
        pt.init(
            region(MrldMemoryKind::KernelPaging, 0x20_0000, 0x40_0000),
            region(MrldMemoryKind::KernelHeap, 0x4020_0000, 0x8000_0000),
        ),
        Err(MapError::MisalignedAddress)
    );
}

#[test]
fn the_last_page_of_the_region_is_used() {
    let mut pt = MrldPageTable::new_empty();
    // Root, identity table, kernel-half table and kernel image directory:
    // exactly four pages.
    pt.init(
        region(MrldMemoryKind::KernelPaging, 0x20_0000, 0x20_4000),
        region(MrldMemoryKind::KernelHeap, 0x4000_0000, 0x8000_0000),
    )
    .unwrap();
    assert_eq!(pt.next_page(), 0x20_4000);
    assert_eq!(pt.map_page(0x0000_4000_0000_0000, 0, PageSize::Size1GiB), Err(MapError::AllocationExhausted));
}

#[test]
fn commit_is_one_shot() {
    let mut pt = backed();
    assert_eq!(pt.commit(), Some(0x20_0000));
    assert_eq!(pt.state(), BuilderState::Committed);
    assert_eq!(pt.commit(), None);
    let mut empty = MrldPageTable::new_empty();
    assert_eq!(empty.commit(), None);
}
