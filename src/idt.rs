//! Building an interrupt descriptor table.

use vstd::prelude::*;
use crate::gdt::kernel_code_sel;

verus! {

/// Gate type of a call gate.
pub const CALL_GATE_TYPE: u8 = 0b1100;
/// Gate type of an interrupt gate.
pub const INT_GATE_TYPE: u8 = 0b1110;
/// Gate type of a trap gate.
pub const TRAP_GATE_TYPE: u8 = 0b1111;

/// Marker for a handler that takes no error code.
#[derive(Clone, Copy, Debug)]
pub struct InterruptHandler;

/// Marker for a handler that takes an error code.
#[derive(Clone, Copy, Debug)]
pub struct InterruptHandlerErr;

/// Marker for a handler that takes no error code and does not return.
#[derive(Clone, Copy, Debug)]
pub struct DivergingInterruptHandler;

/// Marker for a handler that takes an error code and does not return.
#[derive(Clone, Copy, Debug)]
pub struct DivergingInterruptHandlerErr;

/// Implemented by the markers of the kinds of interrupt handler.
pub trait HandlerKind {}

impl HandlerKind for InterruptHandler {}

impl HandlerKind for InterruptHandlerErr {}

impl HandlerKind for DivergingInterruptHandler {}

impl HandlerKind for DivergingInterruptHandlerErr {}

/// What the processor pushes on the stack before calling a handler.
#[derive(Clone, Copy, Debug)]
pub struct InterruptStackFrame {
    pub rip: u64,
    pub return_cs: u16,
    pub _reserved1: [u8; 6],
    pub return_rflags: u64,
    pub return_rsp: u64,
    pub return_ss: u16,
    pub _reserved2: [u8; 6],
}

/// The fields of a call gate descriptor.
#[derive(Clone, Copy, Debug)]
pub struct CallGateDescriptor {
    tgt_off_00_15: u16,
    tgt_sel: u16,
    resv_04: u8,
    flags: u8,
    tgt_off_16_31: u16,
    tgt_off_32_63: u32,
    resv: u32,
}

/// The fields of an interrupt gate descriptor.
#[derive(Clone, Copy, Debug)]
pub struct InterruptGateDescriptor {
    tgt_off_00_15: u16,
    tgt_sel: u16,
    ist: u8,
    flags: u8,
    tgt_off_16_31: u16,
    tgt_off_32_63: u32,
    resv: u32,
}

/// The meaning of an interrupt descriptor table entry.
pub struct IdtGate {
    /// Address of the handler.
    pub offset: u64,
    /// Code segment selector of the handler.
    pub selector: u16,
    /// Interrupt stack table byte.
    pub ist: u8,
    /// Type in bits 0 to 3, privilege level in bits 5 and 6, present in
    /// bit 7.
    pub flags: u8,
}

/// What an all-zero entry holds.
pub open spec fn empty_gate() -> IdtGate {
    IdtGate { offset: 0, selector: 0, ist: 0, flags: 0 }
}

/// An entry of the interrupt descriptor table for a handler of kind `K`.
#[derive(Debug)]
pub struct IdtEntry<K: HandlerKind> {
    tgt_off_00_15: u16,
    tgt_sel: u16,
    ist: u8,
    flags: u8,
    tgt_off_16_31: u16,
    tgt_off_32_63: u32,
    resv: u32,
    kind: core::marker::PhantomData<K>,
}

impl<K: HandlerKind> Clone for IdtEntry<K> {
    fn clone(&self) -> (r: Self)
        ensures
            r == *self,
    {
        IdtEntry {
            tgt_off_00_15: self.tgt_off_00_15,
            tgt_sel: self.tgt_sel,
            ist: self.ist,
            flags: self.flags,
            tgt_off_16_31: self.tgt_off_16_31,
            tgt_off_32_63: self.tgt_off_32_63,
            resv: self.resv,
            kind: core::marker::PhantomData,
        }
    }
}

impl<K: HandlerKind> Copy for IdtEntry<K> {

}

impl<K: HandlerKind> View for IdtEntry<K> {
    type V = IdtGate;

    closed spec fn view(&self) -> IdtGate {
        IdtGate {
            offset: ((self.tgt_off_32_63 as u64) << 32u64) | ((self.tgt_off_16_31 as u64) << 16u64)
                | (self.tgt_off_00_15 as u64),
            selector: self.tgt_sel,
            ist: self.ist,
            flags: self.flags,
        }
    }
}

impl<K: HandlerKind> IdtEntry<K> {
    /// Address of the handler.
    pub fn target_offset(&self) -> (r: u64)
        ensures
            r == self@.offset,
    {
        ((self.tgt_off_32_63 as u64) << 32u64) | ((self.tgt_off_16_31 as u64) << 16u64) | (
        self.tgt_off_00_15 as u64)
    }

    /// The interrupt stack table index: bits 0 to 2 of its byte.
    pub fn ist_bits(&self) -> (r: u8)
        ensures
            r == self@.ist & 0b111,
    {
        self.ist & 0b111
    }

    /// The descriptor type field.
    pub fn type_bits(&self) -> (r: u8)
        ensures
            r == self@.flags & 0b1111,
    {
        self.flags & 0b1111
    }

    /// The descriptor privilege level.
    pub fn dpl(&self) -> (r: u8)
        ensures
            r == (self@.flags & 0b0110_0000) >> 5u8,
    {
        (self.flags & 0b0110_0000) >> 5u8
    }

    /// Is the present bit set?
    pub fn present(&self) -> (r: bool)
        ensures
            r == (self@.flags & 0b1000_0000 != 0),
    {
        self.flags & 0b1000_0000 != 0
    }

    /// The entry with its handler address set to `offset`.
    pub fn with_target_offset(self, offset: usize) -> (r: Self)
        ensures
            r@ == (IdtGate { offset: offset as u64, ..self@ }),
    {
        let o = offset as u64;
        let mut e = self;
        e.tgt_off_00_15 = (o & 0xffff) as u16;
        e.tgt_off_16_31 = ((o & 0xffff_0000) >> 16u64) as u16;
        e.tgt_off_32_63 = ((o & 0xffff_ffff_0000_0000) >> 32u64) as u32;
        assert(((((o & 0xffff_ffff_0000_0000) >> 32u64) as u32 as u64) << 32u64) | ((((o
            & 0xffff_0000) >> 16u64) as u16 as u64) << 16u64) | ((o & 0xffff) as u16 as u64) == o)
            by (bit_vector);
        e
    }

    /// The entry with its code segment selector set to `sel`.
    pub fn with_target_selector(self, sel: u16) -> (r: Self)
        ensures
            r@ == (IdtGate { selector: sel, ..self@ }),
    {
        let mut e = self;
        e.tgt_sel = sel;
        e
    }

    /// The entry with the bits of the descriptor type `ty` added.
    pub fn with_type(self, ty: u8) -> (r: Self)
        ensures
            r@ == (IdtGate { flags: self@.flags | (ty & 0b1111), ..self@ }),
    {
        let mut e = self;
        e.flags = e.flags | (ty & 0b1111);
        e
    }

    /// The entry with the present bit set.
    pub fn with_present(self) -> (r: Self)
        ensures
            r@ == (IdtGate { flags: self@.flags | 0b1000_0000, ..self@ }),
    {
        let mut e = self;
        e.flags = e.flags | 0b1000_0000;
        e
    }

    /// The entry with the bits of the privilege level `dpl` added.
    pub fn with_dpl(self, dpl: u8) -> (r: Self)
        ensures
            r@ == (IdtGate { flags: self@.flags | ((dpl & 0b11) << 5u8), ..self@ }),
    {
        let mut e = self;
        e.flags = e.flags | ((dpl & 0b11) << 5u8);
        e
    }

    /// The all-zero entry: not present.
    pub fn empty() -> (r: Self)
        ensures
            r@ == empty_gate(),
    {
        assert(((0u32 as u64) << 32u64) | ((0u16 as u64) << 16u64) | (0u16 as u64) == 0) by (bit_vector);
        IdtEntry {
            tgt_off_00_15: 0,
            tgt_sel: 0,
            ist: 0,
            flags: 0,
            tgt_off_16_31: 0,
            tgt_off_32_63: 0,
            resv: 0,
            kind: core::marker::PhantomData,
        }
    }

    /// A present interrupt gate at privilege level 0 for the handler at
    /// `handler`, entered through the kernel code segment.
    pub fn new_interrupt(handler: usize) -> (r: Self)
        ensures
            r@ == (IdtGate {
                offset: handler as u64,
                selector: crate::segment::selector_value(1, crate::segment::TableIndicator::Global, crate::segment::PrivilegeLevel::Ring0),
                ist: 0,
                flags: ((0u8 | (INT_GATE_TYPE & 0b1111)) | ((0u8 & 0b11) << 5u8)) | 0b1000_0000,
            }),
    {
        Self::empty().with_type(INT_GATE_TYPE).with_target_selector(kernel_code_sel().as_u16()).with_dpl(
            0b00,
        ).with_present().with_target_offset(handler)
    }
}

/// The processor's exception vectors.
#[derive(Clone, Copy, Debug, PartialEq, Eq, Structural)]
pub enum IdtVector {
    DivideByZero,
    Debug,
    Nmi,
    Breakpoint,
    Overflow,
    BoundRange,
    InvalidOpcode,
    DeviceNotAvail,
    DoubleFault,
    InvalidTss,
    SegmentNotPresent,
    Stack,
    GeneralProt,
    PageFault,
    X87Fp,
    AlignmentCheck,
    MachineCheck,
    SimdFp,
    ControlProt,
    HypervisorInj,
    VmmComm,
    Security,
}

impl IdtVector {
    /// The vector number.
    pub open spec fn spec_number(self) -> usize {
        match self {
            IdtVector::DivideByZero => 0,
            IdtVector::Debug => 1,
            IdtVector::Nmi => 2,
            IdtVector::Breakpoint => 3,
            IdtVector::Overflow => 4,
            IdtVector::BoundRange => 5,
            IdtVector::InvalidOpcode => 6,
            IdtVector::DeviceNotAvail => 7,
            IdtVector::DoubleFault => 8,
            IdtVector::InvalidTss => 10,
            IdtVector::SegmentNotPresent => 11,
            IdtVector::Stack => 12,
            IdtVector::GeneralProt => 13,
            IdtVector::PageFault => 14,
            IdtVector::X87Fp => 16,
            IdtVector::AlignmentCheck => 17,
            IdtVector::MachineCheck => 18,
            IdtVector::SimdFp => 19,
            IdtVector::ControlProt => 21,
            IdtVector::HypervisorInj => 28,
            IdtVector::VmmComm => 29,
            IdtVector::Security => 30,
        }
    }

    /// The vector number.
    pub fn number(&self) -> (r: usize)
        ensures
            r == self.spec_number(),
    {
        match self {
            IdtVector::DivideByZero => 0,
            IdtVector::Debug => 1,
            IdtVector::Nmi => 2,
            IdtVector::Breakpoint => 3,
            IdtVector::Overflow => 4,
            IdtVector::BoundRange => 5,
            IdtVector::InvalidOpcode => 6,
            IdtVector::DeviceNotAvail => 7,
            IdtVector::DoubleFault => 8,
            IdtVector::InvalidTss => 10,
            IdtVector::SegmentNotPresent => 11,
            IdtVector::Stack => 12,
            IdtVector::GeneralProt => 13,
            IdtVector::PageFault => 14,
            IdtVector::X87Fp => 16,
            IdtVector::AlignmentCheck => 17,
            IdtVector::MachineCheck => 18,
            IdtVector::SimdFp => 19,
            IdtVector::ControlProt => 21,
            IdtVector::HypervisorInj => 28,
            IdtVector::VmmComm => 29,
            IdtVector::Security => 30,
        }
    }
}

impl From<IdtVector> for usize {
    fn from(v: IdtVector) -> (r: usize) {
        v.number()
    }
}

impl vstd::std_specs::convert::FromSpecImpl<IdtVector> for usize {
    open spec fn obeys_from_spec() -> bool {
        true
    }

    open spec fn from_spec(v: IdtVector) -> usize {
        v.spec_number()
    }
}

/// Number of vectors after the 32 that the processor defines.
pub const NUM_USER: usize = 224;

/// The interrupt descriptor table: one entry for each of the 32 vectors
/// that the processor defines, then 224 for other interrupts.
pub struct Idt {
    /// Divide error.
    pub de: IdtEntry<InterruptHandler>,
    /// Debug exception.
    pub db: IdtEntry<InterruptHandler>,
    /// Non-maskable interrupt.
    pub nmi: IdtEntry<InterruptHandler>,
    /// Breakpoint.
    pub bp: IdtEntry<InterruptHandler>,
    /// Overflow.
    pub of: IdtEntry<InterruptHandler>,
    /// Bound range exceeded.
    pub br: IdtEntry<InterruptHandler>,
    /// Invalid opcode.
    pub ud: IdtEntry<InterruptHandler>,
    /// Device not available.
    pub nm: IdtEntry<InterruptHandler>,
    /// Double fault.
    pub df: IdtEntry<InterruptHandler>,
    /// Reserved.
    pub r9: IdtEntry<InterruptHandler>,
    /// Invalid task state segment.
    pub ts: IdtEntry<InterruptHandlerErr>,
    /// Segment not present.
    pub np: IdtEntry<InterruptHandlerErr>,
    /// Stack fault.
    pub ss: IdtEntry<InterruptHandlerErr>,
    /// General protection fault.
    pub gp: IdtEntry<InterruptHandlerErr>,
    /// Page fault.
    pub pf: IdtEntry<InterruptHandlerErr>,
    /// Reserved.
    pub r15: IdtEntry<InterruptHandler>,
    /// x87 floating-point exception.
    pub mf: IdtEntry<InterruptHandler>,
    /// Alignment check.
    pub ac: IdtEntry<InterruptHandlerErr>,
    /// Machine check.
    pub mc: IdtEntry<InterruptHandler>,
    /// SIMD floating-point exception.
    pub xf: IdtEntry<InterruptHandler>,
    /// Reserved.
    pub r20: IdtEntry<InterruptHandler>,
    /// Control protection exception.
    pub cp: IdtEntry<InterruptHandlerErr>,
    /// Reserved.
    pub r22: IdtEntry<InterruptHandler>,
    /// Reserved.
    pub r23: IdtEntry<InterruptHandler>,
    /// Reserved.
    pub r24: IdtEntry<InterruptHandler>,
    /// Reserved.
    pub r25: IdtEntry<InterruptHandler>,
    /// Reserved.
    pub r26: IdtEntry<InterruptHandler>,
    /// Reserved.
    pub r27: IdtEntry<InterruptHandler>,
    /// Hypervisor injection exception.
    pub hv: IdtEntry<InterruptHandler>,
    /// VMM communication exception.
    pub vc: IdtEntry<InterruptHandlerErr>,
    /// Security exception.
    pub sx: IdtEntry<InterruptHandlerErr>,
    /// Reserved.
    pub r31: IdtEntry<InterruptHandler>,
    /// Vectors 32 to 255.
    pub usr: [IdtEntry<InterruptHandler>; 224],
}

impl Idt {
    /// Every entry is the all-zero one.
    pub open spec fn all_empty(self) -> bool {
        &&& self.de@ == empty_gate()
        &&& self.db@ == empty_gate()
        &&& self.nmi@ == empty_gate()
        &&& self.bp@ == empty_gate()
        &&& self.of@ == empty_gate()
        &&& self.br@ == empty_gate()
        &&& self.ud@ == empty_gate()
        &&& self.nm@ == empty_gate()
        &&& self.df@ == empty_gate()
        &&& self.r9@ == empty_gate()
        &&& self.ts@ == empty_gate()
        &&& self.np@ == empty_gate()
        &&& self.ss@ == empty_gate()
        &&& self.gp@ == empty_gate()
        &&& self.pf@ == empty_gate()
        &&& self.r15@ == empty_gate()
        &&& self.mf@ == empty_gate()
        &&& self.ac@ == empty_gate()
        &&& self.mc@ == empty_gate()
        &&& self.xf@ == empty_gate()
        &&& self.r20@ == empty_gate()
        &&& self.cp@ == empty_gate()
        &&& self.r22@ == empty_gate()
        &&& self.r23@ == empty_gate()
        &&& self.r24@ == empty_gate()
        &&& self.r25@ == empty_gate()
        &&& self.r26@ == empty_gate()
        &&& self.r27@ == empty_gate()
        &&& self.hv@ == empty_gate()
        &&& self.vc@ == empty_gate()
        &&& self.sx@ == empty_gate()
        &&& self.r31@ == empty_gate()
        &&& forall|i: int| 0 <= i < NUM_USER ==> (#[trigger] self.usr@[i])@ == empty_gate()
    }

    /// A table with every entry empty.
    pub fn init() -> (r: Self)
        ensures
            r.all_empty(),
    {
        Idt {
            de: IdtEntry::empty(),
            db: IdtEntry::empty(),
            nmi: IdtEntry::empty(),
            bp: IdtEntry::empty(),
            of: IdtEntry::empty(),
            br: IdtEntry::empty(),
            ud: IdtEntry::empty(),
            nm: IdtEntry::empty(),
            df: IdtEntry::empty(),
            r9: IdtEntry::empty(),
            ts: IdtEntry::empty(),
            np: IdtEntry::empty(),
            ss: IdtEntry::empty(),
            gp: IdtEntry::empty(),
            pf: IdtEntry::empty(),
            r15: IdtEntry::empty(),
            mf: IdtEntry::empty(),
            ac: IdtEntry::empty(),
            mc: IdtEntry::empty(),
            xf: IdtEntry::empty(),
            r20: IdtEntry::empty(),
            cp: IdtEntry::empty(),
            r22: IdtEntry::empty(),
            r23: IdtEntry::empty(),
            r24: IdtEntry::empty(),
            r25: IdtEntry::empty(),
            r26: IdtEntry::empty(),
            r27: IdtEntry::empty(),
            hv: IdtEntry::empty(),
            vc: IdtEntry::empty(),
            sx: IdtEntry::empty(),
            r31: IdtEntry::empty(),
            usr: [IdtEntry::empty(); 224],
        }
    }
}

} // verus!
