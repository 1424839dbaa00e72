//! The kernel heap: a bump allocator over the heap mapping.

use vstd::prelude::*;
use crate::builder::KERNEL_HEAP_BASE;
use crate::physmem::align_up;
use crate::memmap::lemma_align_up;

verus! {

/// Bytes in the kernel heap mapping.
pub const KERNEL_HEAP_SIZE: u64 = 0x4000_0000;

/// A bump allocator: memory is handed out from `next` up to `end` and
/// never given back.
pub struct MrldHeap {
    next: u64,
    end: u64,
}

impl View for MrldHeap {
    type V = (u64, u64);

    closed spec fn view(&self) -> (u64, u64) {
        (self.next, self.end)
    }
}

impl MrldHeap {
    /// A heap with nothing to hand out.
    pub fn new() -> (r: Self)
        ensures
            r@ == (0u64, 0u64),
    {
        MrldHeap { next: 0, end: 0 }
    }

    /// Set the heap to the whole kernel heap mapping.
    pub fn init(&mut self)
        ensures
            final(self)@ == (KERNEL_HEAP_BASE, (KERNEL_HEAP_BASE + KERNEL_HEAP_SIZE) as u64),
    {
        self.next = KERNEL_HEAP_BASE;
        self.end = KERNEL_HEAP_BASE + KERNEL_HEAP_SIZE;
    }

    /// Hand out `size` bytes at the first multiple of `align` from the
    /// cursor, when they fit before the end; the cursor moves past them.
    /// `None`, with nothing changed, when they do not fit.
    pub fn bump(&mut self, size: u64, align: u64) -> (r: Option<u64>)
        requires
            align > 0,
        ensures
            r == (if old(self)@.0 <= old(self)@.1 && align_up(old(self)@.0 as int, align as int)
                + size <= old(self)@.1 {
                Some(align_up(old(self)@.0 as int, align as int) as u64)
            } else {
                None
            }),
            r matches Some(p) ==> p % align == 0 && final(self)@ == ((p + size) as u64, old(
                self,
            )@.1),
            r is None ==> final(self)@ == old(self)@,
    {
        proof {
            lemma_align_up(self.next as int, align as int);
        }
        let rem = self.next % align;
        let pad: u64 = if rem == 0 {
            0
        } else {
            align - rem
        };
        if self.next > self.end || self.end - self.next < pad || self.end - self.next - pad < size {
            return None;
        }
        let p = self.next + pad;
        proof {
            let n = self.next as int;
            let a = align as int;
            assert((n + (if n % a == 0 { 0 } else { a - n % a })) % a == 0) by (nonlinear_arith)
                requires a > 0, n >= 0;
        }
        self.next = p + size;
        Some(p)
    }
}

} // verus!
