use mrld::bootargs::MrldBootArgs;
use mrld::cpu::{MTRR0, MTRR3, MTRR7, VariableMTRR};
use mrld::dtr::DescriptorTableRegister;
use mrld::gdt::{
    kernel_code_sel, kernel_data_sel, DFlags, Descriptor, GlobalDescriptorTable, SystemDescriptor,
};
use mrld::heap::MrldHeap;
use mrld::idt::{Idt, IdtEntry, IdtVector, InterruptHandler, InterruptHandlerErr};
use mrld::io::IoPort;
use mrld::kernel::{AcpiManager, KernelImage};
use mrld::segment::{
    DescriptorTableEntry, DescriptorTablePointer, PrivilegeLevel, SegmentSelector, TableIndicator,
};
use mrld::serial::{baud_divisor_bytes, SerialPort};

#[test]
fn kernel_descriptors() {
    let code = Descriptor::new(0, PrivilegeLevel::Ring0, 0xffff, DFlags::code());
    let data = Descriptor::new(0, PrivilegeLevel::Ring0, 0xffff, DFlags::data());
    assert_eq!(code.as_u64(), 0x00a0_9b00_0000_ffff);
    assert_eq!(data.as_u64(), 0x00a0_9300_0000_ffff);
    assert_eq!(code.segment_limit(), 0xffff);
    assert_eq!(code.base_addr(), 0);
    assert_eq!(code.flags().bits(), 0x00a0_9b00_0000_0000);
}

#[test]
fn descriptor_fields() {
    let d = Descriptor::new(0x1234_5678, PrivilegeLevel::Ring3, 0xabcd, DFlags::from_bits_truncate(0));
    assert_eq!(d.as_u64(), 0x1200_6034_5678_abcd);
    assert_eq!(d.base_addr(), 0x1234_5678);
    assert_eq!(d.segment_limit(), 0xabcd);
    assert_eq!(Descriptor::new_null().as_u64(), 0);
    assert_eq!(Descriptor::new_from_u64(42).as_u64(), 42);
    assert_eq!(SystemDescriptor::TssAvailable(1, 2).as_u64(), (1, 2));
    assert_eq!(SystemDescriptor::TrapGate(3, 4).as_u64(), (3, 4));
}

#[test]
fn selectors() {
    assert_eq!(kernel_code_sel().as_u16(), 0x08);
    assert_eq!(kernel_data_sel().as_u16(), 0x10);
    let s = SegmentSelector::new(5, TableIndicator::Local, PrivilegeLevel::Ring3);
    assert_eq!(s.as_u16(), 0x2f);
    assert_eq!(s.index(), 5);
    assert_eq!(s.byte_index(), 0x28);
    assert_eq!(s.table_indicator(), TableIndicator::Local);
    assert_eq!(kernel_code_sel().table_indicator(), TableIndicator::Global);
    assert_eq!(PrivilegeLevel::from_u16(2), PrivilegeLevel::Ring2);
    assert_eq!(PrivilegeLevel::Ring3.as_u64(), 3);
}

#[test]
fn gdt_building() {
    let code = Descriptor::new(0, PrivilegeLevel::Ring0, 0xffff, DFlags::code());
    let g = GlobalDescriptorTable::<5>::new_zeroed()
        .push_null_desc()
        .push_user_desc(code)
        .push_sys_desc((7, 9));
    assert_eq!(g.entries, [0, code.as_u64(), 7, 9, 0]);
    assert_eq!(g.cursor, 4);
    assert_eq!(g.size(), 40);
    assert_eq!(g.limit(), 39);
}

#[test]
fn descriptor_table_registers() {
    let r = DescriptorTableRegister::new(0x17, 0xdead_b000);
    assert_eq!(r.limit(), 0x17);
    assert_eq!(r.size(), 0x18);
    assert_eq!(r.ptr(), 0xdead_b000);
    let p = DescriptorTablePointer::new(0x10, 0x5000);
    assert_eq!(p.size(), 0x10);
    assert_eq!(p.ptr(), 0x5000);
    assert_eq!(DescriptorTableEntry::from_u64(77).as_u64(), 77);
}

#[test]
fn interrupt_entries() {
    let e = IdtEntry::<InterruptHandler>::new_interrupt(0x1234_5678_9abc_def0);
    assert_eq!(e.target_offset(), 0x1234_5678_9abc_def0);
    assert_eq!(e.type_bits(), 0b1110);
    assert_eq!(e.dpl(), 0);
    assert!(e.present());
    assert_eq!(e.ist_bits(), 0);
    let empty = IdtEntry::<InterruptHandlerErr>::empty();
    assert!(!empty.present());
    assert_eq!(empty.target_offset(), 0);
    let f = empty.with_dpl(3).with_type(0b1111).with_target_selector(0x10).with_target_offset(0xffff_0000);
    assert_eq!(f.dpl(), 3);
    assert_eq!(f.type_bits(), 0b1111);
    assert_eq!(f.target_offset(), 0xffff_0000);
    assert!(!f.present());
    assert!(f.with_present().present());
}

#[test]
fn interrupt_table_starts_empty() {
    let idt = Idt::init();
    assert!(!idt.pf.present());
    assert!(!idt.de.present());
    assert!(idt.usr.iter().all(|e| !e.present()));
    assert_eq!(idt.usr.len(), 224);
}

#[test]
fn vector_numbers() {
    assert_eq!(usize::from(IdtVector::DivideByZero), 0);
    assert_eq!(usize::from(IdtVector::DoubleFault), 8);
    assert_eq!(usize::from(IdtVector::InvalidTss), 10);
    assert_eq!(usize::from(IdtVector::PageFault), 14);
    assert_eq!(IdtVector::ControlProt.number(), 21);
    assert_eq!(IdtVector::Security.number(), 30);
}

#[test]
fn mtrr_register_numbers() {
    assert_eq!(VariableMTRR::<MTRR0>::base_msr(), 0x200);
    assert_eq!(VariableMTRR::<MTRR0>::mask_msr(), 0x201);
    assert_eq!(VariableMTRR::<MTRR3>::base_msr(), 0x206);
    assert_eq!(VariableMTRR::<MTRR7>::mask_msr(), 0x20f);
}

#[test]
fn io_ports_and_serial() {
    assert_eq!(IoPort::new(0x3f8).port(), 0x3f8);
    assert_eq!(SerialPort::<0x3f8>::register(5), 0x3fd);
    let mut com1 = SerialPort::<0x3f8>::new();
    assert!(!com1.is_initialized());
    com1.record_loopback(0x42);
    assert!(com1.is_initialized());
    com1.record_loopback(0x00);
    assert!(!com1.is_initialized());
    assert_eq!(baud_divisor_bytes(0x0003), (0x03, 0x00));
    assert_eq!(baud_divisor_bytes(0x1234), (0x34, 0x12));
}

#[test]
fn heap_bumps_aligned_blocks() {
    let mut h = MrldHeap::new();
    assert_eq!(h.bump(1, 1), None);
    h.init();
    let a = h.bump(10, 8).unwrap();
    assert_eq!(a, 0xffff_ffd0_0000_0000);
    let b = h.bump(16, 16).unwrap();
    assert_eq!(b, 0xffff_ffd0_0000_0010);
    let c = h.bump(1, 4096).unwrap();
    assert_eq!(c, 0xffff_ffd0_0000_1000);
    assert_eq!(h.bump(0x4000_0000, 1), None);
}

#[test]
fn boot_args_and_holders() {
    let mut a = MrldBootArgs::new_empty();
    assert_eq!(a.num_descriptors(), 0);
    a.uefi_map_size = 48 * 10 + 5;
    a.uefi_map_desc_size = 48;
    assert_eq!(a.num_descriptors(), 10);
    let m = AcpiManager::new();
    assert_eq!((m.rsdp, m.fadt, m.madt), (0, 0, 0));
    let k = KernelImage { addr: 0x1000, size: 10 };
    assert_eq!(k.size, 10);
}
