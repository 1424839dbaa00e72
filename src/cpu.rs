//! Model-specific and control registers.

use vstd::prelude::*;

verus! {

/// First model-specific register of the variable-range memory type
/// range registers.
pub const MSR_MTRR_VAR_BASE: u32 = 0x200;

/// Implemented by the markers of the variable-range memory type range
/// registers.
pub trait MTRRId {
    spec fn spec_idx() -> u32;

    /// The register pair's number, below 8.
    fn idx() -> (r: u32)
        ensures
            r == Self::spec_idx(),
            r < 8,
    ;
}

/// Marker for variable range register pair 0.
pub struct MTRR0;
/// Marker for variable range register pair 1.
pub struct MTRR1;
/// Marker for variable range register pair 2.
pub struct MTRR2;
/// Marker for variable range register pair 3.
pub struct MTRR3;
/// Marker for variable range register pair 4.
pub struct MTRR4;
/// Marker for variable range register pair 5.
pub struct MTRR5;
/// Marker for variable range register pair 6.
pub struct MTRR6;
/// Marker for variable range register pair 7.
pub struct MTRR7;

impl MTRRId for MTRR0 {
    open spec fn spec_idx() -> u32 { 0 }
    fn idx() -> (r: u32) { 0 }
}

impl MTRRId for MTRR1 {
    open spec fn spec_idx() -> u32 { 1 }
    fn idx() -> (r: u32) { 1 }
}

impl MTRRId for MTRR2 {
    open spec fn spec_idx() -> u32 { 2 }
    fn idx() -> (r: u32) { 2 }
}

impl MTRRId for MTRR3 {
    open spec fn spec_idx() -> u32 { 3 }
    fn idx() -> (r: u32) { 3 }
}

impl MTRRId for MTRR4 {
    open spec fn spec_idx() -> u32 { 4 }
    fn idx() -> (r: u32) { 4 }
}

impl MTRRId for MTRR5 {
    open spec fn spec_idx() -> u32 { 5 }
    fn idx() -> (r: u32) { 5 }
}

impl MTRRId for MTRR6 {
    open spec fn spec_idx() -> u32 { 6 }
    fn idx() -> (r: u32) { 6 }
}

impl MTRRId for MTRR7 {
    open spec fn spec_idx() -> u32 { 7 }
    fn idx() -> (r: u32) { 7 }
}

/// A variable-range memory type range register pair: a base register and
/// a mask register, next to each other.
pub struct VariableMTRR<I: MTRRId> {
    _id: core::marker::PhantomData<I>,
}

impl<I: MTRRId> VariableMTRR<I> {
    /// The number of the pair's base register.
    pub fn base_msr() -> (r: u32)
        ensures
            r == MSR_MTRR_VAR_BASE + 2 * I::spec_idx(),
    {
        MSR_MTRR_VAR_BASE + 2 * I::idx()
    }

    /// The number of the pair's mask register.
    pub fn mask_msr() -> (r: u32)
        ensures
            r == MSR_MTRR_VAR_BASE + 2 * I::spec_idx() + 1,
    {
        Self::base_msr() + 1
    }
}

/// Access to control register 3, the paging root.
pub struct CR3;

/// Access to control register 4.
pub struct CR4;

} // verus!
