use uefi_raw::table::boot::MemoryType;
use mrld::memmap::{
    parse_firmware_map, raws_are_disjoint, MemoryError, MrldMemoryMap, RawMemoryDescriptor,
    KERNEL_PHYS_BASE, NUM_ENTRIES,
};
use mrld::paging::PageSize;
use mrld::physmem::{FrameSize, MrldMemoryDesc, MrldMemoryKind, PhysRange, PhysRangeSet};

const CONVENTIONAL: u32 = 7;

fn raw(ty: u32, start: u64, pages: u64) -> RawMemoryDescriptor {
    RawMemoryDescriptor { ty, phys_start: start, page_count: pages }
}

fn desc(kind: MrldMemoryKind, start: u64, end: u64) -> MrldMemoryDesc {
    MrldMemoryDesc::new(PhysRange::new(start, end), kind)
}

fn live(map: &MrldMemoryMap) -> Vec<MrldMemoryDesc> {
    map.iter_valid()
}

fn overlap(a: &PhysRange, b: &PhysRange) -> bool {
    a.start < b.end && b.start < a.end && a.start < a.end && b.start < b.end
}

fn assert_disjoint(map: &MrldMemoryMap) {
    let v = live(map);
    for i in 0..v.len() {
        for j in 0..v.len() {
            if i != j {
                assert!(!overlap(&v[i].range, &v[j].range), "{:?} overlaps {:?}", v[i], v[j]);
            }
        }
    }
}

#[test]
fn split_at_start_gives_low_new_part() {
    let r = PhysRange::new(0x1000, 0x5000);
    let s = PhysRange::new(0x1000, 0x2000);
    assert_eq!(
        r.split(&s),
        PhysRangeSet::Pair { old: PhysRange::new(0x2000, 0x5000), new: s }
    );
}

#[test]
fn split_at_end_gives_high_new_part() {
    let r = PhysRange::new(0x1000, 0x5000);
    let s = PhysRange::new(0x4000, 0x5000);
    assert_eq!(
        r.split(&s),
        PhysRangeSet::Pair { old: PhysRange::new(0x1000, 0x4000), new: s }
    );
}

#[test]
fn split_whole_range_leaves_empty_low_remainder() {
    let r = PhysRange::new(0x1000, 0x5000);
    assert_eq!(
        r.split(&r),
        PhysRangeSet::Pair { old: PhysRange::new(0x1000, 0x1000), new: r }
    );
}

#[test]
fn split_interior_gives_triad() {
    let r = PhysRange::new(0x1000, 0x5000);
    let s = PhysRange::new(0x2000, 0x3000);
    assert_eq!(
        r.split(&s),
        PhysRangeSet::Triad {
            old_lo: PhysRange::new(0x1000, 0x2000),
            new: s,
            old_hi: PhysRange::new(0x3000, 0x5000),
        }
    );
}

#[test]
fn split_outside_is_invalid() {
    let r = PhysRange::new(0x1000, 0x5000);
    assert_eq!(r.split(&PhysRange::new(0x4000, 0x6000)), PhysRangeSet::Invalid);
    assert_eq!(r.split(&PhysRange::new(0x0, 0x2000)), PhysRangeSet::Invalid);
}

#[test]
fn split_pieces_rebuild_the_range() {
    let r = PhysRange::new(0x10_0000, 0x90_0000);
    for (s, e) in [(0x10_0000u64, 0x20_0000u64), (0x80_0000, 0x90_0000), (0x30_0000, 0x40_0000)] {
        let pieces = match r.split(&PhysRange::new(s, e)) {
            PhysRangeSet::Pair { old, new } => {
                if old.end <= new.start {
                    vec![old, new]
                } else {
                    vec![new, old]
                }
            },
            PhysRangeSet::Triad { old_lo, new, old_hi } => vec![old_lo, new, old_hi],
            PhysRangeSet::Invalid => panic!("contained range reported invalid"),
        };
        assert_eq!(pieces[0].start, r.start);
        assert_eq!(pieces[pieces.len() - 1].end, r.end);
        for w in pieces.windows(2) {
            assert_eq!(w[0].end, w[1].start);
        }
    }
}

#[test]
fn range_queries() {
    let r = PhysRange::new(0x1000, 0x3000);
    assert!(r.contains(0x1000));
    assert!(r.contains(0x2fff));
    assert!(!r.contains(0x3000));
    assert!(r.contains_range(&PhysRange::new(0x1000, 0x3000)));
    assert!(!r.contains_range(&PhysRange::new(0x800, 0x2000)));
    assert!(r.aligned_to_start(&PhysRange::new(0x1000, 0x2000)));
    assert!(!r.aligned_to_start(&PhysRange::new(0x2000, 0x3000)));
    assert!(r.aligned_to_end(&PhysRange::new(0x2000, 0x3000)));
    assert!(!r.aligned_to_end(&PhysRange::new(0x1000, 0x2000)));
    assert_eq!(r.size(), 0x2000);
    assert_eq!(r.num_pages(PageSize::Size4KiB), 2);
    assert!(r.is_page_aligned(PageSize::Size4KiB));
    assert!(!r.is_page_aligned(PageSize::Size2MiB));
}

#[test]
fn try_get_pages_rounds_start_up() {
    let r = PhysRange::new(0x1000, 0x60_0000);
    assert_eq!(
        r.try_get_pages(PageSize::Size2MiB, 2),
        Some(PhysRange::new(0x20_0000, 0x60_0000))
    );
    assert_eq!(r.try_get_pages(PageSize::Size2MiB, 3), None);
    assert_eq!(
        r.try_get_pages(PageSize::Size4KiB, 1),
        Some(PhysRange::new(0x1000, 0x2000))
    );
    // The first multiple of the page size lies at the end: not inside.
    assert_eq!(PhysRange::new(0x1000, 0x20_0000).try_get_pages(PageSize::Size2MiB, 0), None);
}

#[test]
fn firmware_types_classify() {
    let k = MrldMemoryKind::from_firmware_type;
    assert_eq!(k(MemoryType::CONVENTIONAL.0), MrldMemoryKind::Available);
    assert_eq!(k(MemoryType::LOADER_CODE.0), MrldMemoryKind::Reclaimable);
    assert_eq!(k(MemoryType::LOADER_DATA.0), MrldMemoryKind::Reclaimable);
    assert_eq!(k(MemoryType::BOOT_SERVICES_CODE.0), MrldMemoryKind::Reclaimable);
    assert_eq!(k(MemoryType::BOOT_SERVICES_DATA.0), MrldMemoryKind::Reclaimable);
    assert_eq!(k(MemoryType::ACPI_RECLAIM.0), MrldMemoryKind::Reclaimable);
    assert_eq!(k(MemoryType::RUNTIME_SERVICES_CODE.0), MrldMemoryKind::UefiRuntime);
    assert_eq!(k(MemoryType::RUNTIME_SERVICES_DATA.0), MrldMemoryKind::UefiRuntime);
    assert_eq!(k(MemoryType::ACPI_NON_VOLATILE.0), MrldMemoryKind::AcpiNonVolatile);
    assert_eq!(k(MemoryType::MMIO.0), MrldMemoryKind::Mmio);
    assert_eq!(k(MemoryType::MMIO_PORT_SPACE.0), MrldMemoryKind::Mmio);
    assert_eq!(k(MemoryType::RESERVED.0), MrldMemoryKind::UefiReserved);
    assert_eq!(k(MemoryType::UNUSABLE.0), MrldMemoryKind::UefiReserved);
    assert_eq!(k(MemoryType::PAL_CODE.0), MrldMemoryKind::UefiReserved);
    assert_eq!(k(MemoryType::PERSISTENT_MEMORY.0), MrldMemoryKind::Invalid);
    assert_eq!(k(0x8000_0000), MrldMemoryKind::BootArgs);
    assert_eq!(k(0x8000_0001), MrldMemoryKind::KernelImage);
    assert_eq!(k(0x8000_0002), MrldMemoryKind::KernelPaging);
    assert_eq!(k(0x8000_0003), MrldMemoryKind::Invalid);
}

#[test]
fn descriptors_merge_only_when_contiguous_and_same_kind() {
    let a = desc(MrldMemoryKind::Available, 0, 0x1000);
    let b = desc(MrldMemoryKind::Available, 0x1000, 0x3000);
    let c = desc(MrldMemoryKind::Reclaimable, 0x3000, 0x4000);
    assert!(a.can_merge_with(&b));
    assert_eq!(a.try_merge_with(&b), Some(desc(MrldMemoryKind::Available, 0, 0x3000)));
    assert!(!b.can_merge_with(&a));
    assert_eq!(b.try_merge_with(&c), None);
    assert!(a.is_usable());
    assert!(!a.is_valid());
    assert!(b.is_valid());
    assert!(!MrldMemoryDesc::new_invalid().is_valid());
    assert!(!MrldMemoryDesc::new_invalid().is_usable());
    assert!(desc(MrldMemoryKind::Available, 0x1000, 0x1000).is_valid());
    assert!(!desc(MrldMemoryKind::Available, 0x1000, 0x1000).is_usable());
    assert_eq!(b.size(), 0x2000);
}

#[test]
fn frame_sizes() {
    assert_eq!(FrameSize::Size2MiB.as_usize(), 0x20_0000);
    assert_eq!(FrameSize::from_range(PhysRange::new(0x1000, 0x2000)), FrameSize::Size4KiB);
    assert_eq!(FrameSize::from_range(PhysRange::new(0, 0x4000_0000)), FrameSize::Size1GiB);
}

#[test]
fn adjacent_available_regions_merge_on_init() {
    let raws = [raw(CONVENTIONAL, 0, 1), raw(CONVENTIONAL, 0x1000, 1)];
    assert!(raws_are_disjoint(&raws));
    let mut map = MrldMemoryMap::new_empty();
    // The kernel image cannot be reserved in 8 KiB, so init may not be
    // called; reading the descriptors merges them.
    assert!(!MrldMemoryMap::kernel_image_reservable(&raws));
    assert_eq!(map.load_firmware_map(&raws), Ok(()));
    assert_eq!(live(&map), vec![desc(MrldMemoryKind::Available, 0, 0x2000)]);
}

#[test]
fn adjacent_available_regions_merge_before_the_reservation() {
    let raws = [raw(CONVENTIONAL, 0, 1), raw(CONVENTIONAL, 0x1000, 0xffff)];
    assert!(MrldMemoryMap::kernel_image_reservable(&raws));
    let mut map = MrldMemoryMap::new_empty();
    let k = map.init(&raws);
    assert_eq!(
        live(&map),
        vec![
            desc(MrldMemoryKind::Available, 0, KERNEL_PHYS_BASE),
            k,
            desc(MrldMemoryKind::Available, 0x0800_0000, 0x1000_0000),
        ]
    );
}

#[test]
fn load_merges_in_order_and_skips_unusable() {
    let raws = [
        raw(CONVENTIONAL, 0, 1),
        raw(CONVENTIONAL, 0x1000, 2),
        raw(3, 0x3000, 1),
        raw(4, 0x4000, 1),
        raw(999, 0x5000, 1),
        raw(CONVENTIONAL, 0x6000, 0),
        raw(CONVENTIONAL, 0x6000, 1),
        raw(CONVENTIONAL, 0x7000, 1),
    ];
    let mut map = MrldMemoryMap::new_empty();
    assert_eq!(map.load_firmware_map(&raws), Ok(()));
    assert_eq!(
        live(&map),
        vec![
            desc(MrldMemoryKind::Available, 0, 0x3000),
            desc(MrldMemoryKind::Reclaimable, 0x3000, 0x5000),
            desc(MrldMemoryKind::Available, 0x6000, 0x8000),
        ]
    );
    assert_disjoint(&map);
    let v = live(&map);
    for i in 0..v.len() {
        for j in 0..v.len() {
            if i != j {
                assert!(!v[i].can_merge_with(&v[j]));
            }
        }
    }
}

#[test]
fn load_reports_too_many_regions() {
    let raws: Vec<RawMemoryDescriptor> =
        (0..(NUM_ENTRIES as u64 + 1)).map(|i| raw(if i % 2 == 0 { 7 } else { 3 }, i * 0x1000, 1)).collect();
    let mut map = MrldMemoryMap::new_empty();
    assert_eq!(map.load_firmware_map(&raws), Err(MemoryError::AllocationExhausted));
    assert!(live(&map).is_empty());
    let fits: Vec<RawMemoryDescriptor> = raws[..NUM_ENTRIES].to_vec();
    assert_eq!(map.load_firmware_map(&fits), Ok(()));
    assert_eq!(live(&map).len(), NUM_ENTRIES);
}

#[test]
fn overlapping_descriptors_are_detected() {
    assert!(!raws_are_disjoint(&[raw(CONVENTIONAL, 0, 2), raw(3, 0x1000, 1)]));
    assert!(raws_are_disjoint(&[raw(CONVENTIONAL, 0, 1), raw(3, 0x1000, 1)]));
}

#[test]
fn init_reserves_the_kernel_image() {
    let raws = [raw(CONVENTIONAL, 0, 0x1_0000)];
    let mut map = MrldMemoryMap::new_empty();
    assert!(MrldMemoryMap::kernel_image_reservable(&raws));
    let k = map.init(&raws);
    assert_eq!(k, desc(MrldMemoryKind::KernelImage, KERNEL_PHYS_BASE, KERNEL_PHYS_BASE + 32 * 0x20_0000));
    assert_eq!(
        live(&map),
        vec![
            desc(MrldMemoryKind::Available, 0, KERNEL_PHYS_BASE),
            k,
            desc(MrldMemoryKind::Available, 0x0800_0000, 0x1000_0000),
        ]
    );
    assert_disjoint(&map);
}

#[test]
fn allocate_whole_gib_region() {
    let mut map = MrldMemoryMap::new_empty();
    map.load_firmware_map(&[raw(CONVENTIONAL, 0, 0x4_0000)]).unwrap();
    let d = map.allocate(PageSize::Size1GiB, 1, MrldMemoryKind::KernelHeap).unwrap();
    assert_eq!(d, desc(MrldMemoryKind::KernelHeap, 0, 0x4000_0000));
    // Nothing of the candidate remains: its slot is emptied, and the new
    // region takes the slot that was the first empty one.
    assert_eq!(map.get(0), None);
    assert_eq!(map.get(1), Some(d));
    assert_eq!(live(&map), vec![d]);
    assert_disjoint(&map);
}

#[test]
fn allocate_misaligned_candidate_splits_in_three() {
    let mut map = MrldMemoryMap::new_empty();
    map.load_firmware_map(&[raw(CONVENTIONAL, 0x1000, 0x400)]).unwrap();
    let d = map.allocate(PageSize::Size2MiB, 1, MrldMemoryKind::KernelPaging).unwrap();
    assert_eq!(d, desc(MrldMemoryKind::KernelPaging, 0x20_0000, 0x40_0000));
    assert_eq!(d.range.start % 0x20_0000, 0);
    assert_eq!(d.size(), 0x20_0000);
    assert_eq!(map.get(0), Some(desc(MrldMemoryKind::Available, 0x1000, 0x20_0000)));
    assert_eq!(map.get(1), Some(d));
    assert_eq!(map.get(2), Some(desc(MrldMemoryKind::Available, 0x40_0000, 0x40_1000)));
    assert_disjoint(&map);
}

#[test]
fn allocate_is_first_fit_in_slot_order() {
    let mut map = MrldMemoryMap::new_empty();
    map.load_firmware_map(&[
        raw(CONVENTIONAL, 0x100_0000, 0x400),
        raw(3, 0x140_0000, 1),
        raw(CONVENTIONAL, 0x20_0000, 0x200),
    ])
    .unwrap();
    let d = map.allocate(PageSize::Size2MiB, 1, MrldMemoryKind::KernelHeap).unwrap();
    assert_eq!(d.range.start, 0x100_0000);
    let e = map.allocate(PageSize::Size2MiB, 2, MrldMemoryKind::KernelHeap);
    assert_eq!(e, None);
    let f = map.allocate(PageSize::Size2MiB, 1, MrldMemoryKind::KernelHeap).unwrap();
    assert_eq!(f.range.start, 0x120_0000);
    assert_disjoint(&map);
}

#[test]
fn allocate_zero_pages_or_without_candidate_fails() {
    let mut map = MrldMemoryMap::new_empty();
    map.load_firmware_map(&[raw(CONVENTIONAL, 0, 0x10)]).unwrap();
    assert_eq!(map.allocate(PageSize::Size4KiB, 0, MrldMemoryKind::KernelHeap), None);
    assert_eq!(map.allocate(PageSize::Size2MiB, 1, MrldMemoryKind::KernelHeap), None);
    assert_eq!(live(&map), vec![desc(MrldMemoryKind::Available, 0, 0x10000)]);
}

#[test]
fn allocate_fails_when_no_slot_is_free() {
    let raws: Vec<RawMemoryDescriptor> =
        (0..NUM_ENTRIES as u64).map(|i| raw(if i % 2 == 0 { 7 } else { 3 }, i * 0x10_0000, 0x100)).collect();
    let mut map = MrldMemoryMap::new_empty();
    map.load_firmware_map(&raws).unwrap();
    assert_eq!(map.allocate(PageSize::Size4KiB, 1, MrldMemoryKind::KernelHeap), None);
    assert_eq!(live(&map).len(), NUM_ENTRIES);
}

#[test]
fn allocate_at_misaligned_address_fails() {
    // An address off the page size is refused before the map is touched.
    assert!(!PageSize::Size2MiB.is_aligned(0x1000));
    assert!(PageSize::Size2MiB.is_aligned(0x40_0000));
    assert!(PageSize::Size4KiB.is_aligned(0x1000));
}

#[test]
fn live_entries_change_in_place() {
    let mut map = MrldMemoryMap::new_empty();
    map.load_firmware_map(&[raw(CONVENTIONAL, 0, 1), raw(3, 0x1000, 1)]).unwrap();
    let slots = map.iter_mut_valid();
    assert_eq!(slots, vec![0, 1]);
    for i in slots {
        let d = map.get_valid_mut(i);
        d.kind = MrldMemoryKind::UefiReserved;
    }
    assert!(live(&map).iter().all(|d| d.kind == MrldMemoryKind::UefiReserved));
}

#[test]
fn allocate_at_exact_address() {
    let mut map = MrldMemoryMap::new_empty();
    map.load_firmware_map(&[raw(CONVENTIONAL, 0, 0x4_0000)]).unwrap();
    let d = map.allocate_at(0x40_0000, PageSize::Size2MiB, 2, MrldMemoryKind::BootArgs).unwrap();
    assert_eq!(d, desc(MrldMemoryKind::BootArgs, 0x40_0000, 0x80_0000));
    assert_eq!(map.allocate_at(0x40_0000, PageSize::Size2MiB, 1, MrldMemoryKind::BootArgs), None);
    assert_eq!(map.allocate_at(0x4000_0000, PageSize::Size2MiB, 1, MrldMemoryKind::BootArgs), None);
    assert_eq!(map.allocate_at(0, PageSize::Size2MiB, 0, MrldMemoryKind::BootArgs), None);
    assert_disjoint(&map);
}

#[test]
fn whole_region_reservation_leaves_no_empty_region() {
    let mut map = MrldMemoryMap::new_empty();
    map.init(&[raw(CONVENTIONAL, KERNEL_PHYS_BASE, 0x4000)]);
    assert_eq!(
        live(&map),
        vec![desc(MrldMemoryKind::KernelImage, KERNEL_PHYS_BASE, KERNEL_PHYS_BASE + 0x400_0000)]
    );
    assert!(live(&map).iter().all(|d| d.is_usable()));
}

#[test]
fn map_accessors() {
    let mut map = MrldMemoryMap::new_empty();
    map.load_firmware_map(&[raw(CONVENTIONAL, 0, 1), raw(3, 0x1000, 1)]).unwrap();
    let found = map.find_with(|d: &MrldMemoryDesc| d.kind == MrldMemoryKind::Reclaimable);
    assert_eq!(found, Some(desc(MrldMemoryKind::Reclaimable, 0x1000, 0x2000)));
    assert_eq!(map.find_mut_with(|d: &MrldMemoryDesc| d.kind == MrldMemoryKind::Reclaimable), Some(1));
    assert_eq!(map.find_with(|d: &MrldMemoryDesc| d.kind == MrldMemoryKind::Mmio), None);
    *map.get_mut(5) = Some(desc(MrldMemoryKind::Mmio, 0x9000, 0xa000));
    assert_eq!(map.get(5), Some(desc(MrldMemoryKind::Mmio, 0x9000, 0xa000)));
    map.invalidate(0);
    assert_eq!(map.get(0), None);
    assert_eq!(live(&map).len(), 2);
    assert!(map.allocate_new_region(desc(MrldMemoryKind::Mmio, 0xa000, 0xb000)));
    assert_eq!(map.get(0), Some(desc(MrldMemoryKind::Mmio, 0xa000, 0xb000)));
}

#[test]
fn parse_firmware_table_with_long_stride() {
    let stride = 48usize;
    let mut bytes = vec![0u8; stride * 2 + 7];
    let put = |b: &mut Vec<u8>, off: usize, v: u64, n: usize| {
        for i in 0..n {
            b[off + i] = (v >> (8 * i)) as u8;
        }
    };
    put(&mut bytes, 0, 7, 4);
    put(&mut bytes, 8, 0x1234_5000, 8);
    put(&mut bytes, 24, 0x10, 8);
    put(&mut bytes, stride, 0x8000_0001, 4);
    put(&mut bytes, stride + 8, 0xffff_0000_0000, 8);
    put(&mut bytes, stride + 24, 0x1_0000_0002, 8);
    let v = parse_firmware_map(&bytes, stride).unwrap();
    assert_eq!(v, vec![raw(7, 0x1234_5000, 0x10), raw(0x8000_0001, 0xffff_0000_0000, 0x1_0000_0002)]);
    assert_eq!(parse_firmware_map(&bytes, 39), None);
    assert_eq!(parse_firmware_map(&[], 40), Some(vec![]));
}

#[test]
fn raw_descriptor_end_overflow_is_skipped() {
    assert_eq!(raw(CONVENTIONAL, 0xffff_ffff_ffff_f000, 2).to_desc(), None);
    assert_eq!(raw(CONVENTIONAL, 0, 0).to_desc(), None);
    assert_eq!(raw(999, 0, 1).to_desc(), None);
    assert_eq!(raw(CONVENTIONAL, 0x2000, 3).to_desc(), Some(desc(MrldMemoryKind::Available, 0x2000, 0x5000)));
}
