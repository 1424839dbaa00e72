//! Bring-up support for a small x86-64 system: a model of physical memory
//! regions with a first-fit allocator, and multi-level page tables.

pub mod physmem;
pub mod paging;
pub mod memmap;
pub mod builder;
pub mod bootargs;
pub mod segment;
pub mod dtr;
pub mod io;
pub mod cpu;
pub mod gdt;
pub mod idt;
pub mod serial;
pub mod heap;
pub mod kernel;
