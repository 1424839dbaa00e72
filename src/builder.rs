//! Building the kernel's page tables from a reserved physical region.
//!
//! Tables are handed out one 4 KiB page at a time by a bump cursor through
//! the region; the level-4 table takes the first page. A table is known by
//! its physical address, which is what the entry above it holds.

use vstd::prelude::*;
use crate::paging::{
    entry_value, index_at, lemma_index_bounds, PTFlag, PageSize, FLAG_MASK, PageTable, PageTableEntry, VirtAddr, ADDRESS_MASK,
    NUM_TABLE_ENTRIES, PD, PDP, PML4, PTF_P, PTF_PS, PTF_RW,
};
use crate::physmem::{MrldMemoryDesc, PhysRange};
use crate::memmap::KERNEL_PHYS_BASE;
use vstd::arithmetic::div_mod::{lemma_mod_adds, lemma_mod_multiples_basic};
use vstd::arithmetic::mul::lemma_mul_strict_inequality;

verus! {

/// Bytes in one table.
pub const TABLE_SIZE: u64 = 0x1000;

/// Highest physical address, exclusive, that an entry can hold.
pub const PHYS_LIMIT: u64 = 0x10_0000_0000_0000;

/// Why a mapping could not be made.
#[derive(Clone, Copy, Debug, PartialEq, Eq, Structural)]
pub enum MapError {
    /// A 4 KiB mapping was asked for; only 2 MiB and 1 GiB pages are mapped.
    UnsupportedGranularity,
    /// The virtual or physical base is not a multiple of the page size.
    MisalignedAddress,
    /// The backing region has no page left for a new table.
    AllocationExhausted,
}

/// Where the builder stands.
#[derive(Clone, Copy, Debug, PartialEq, Eq, Structural)]
pub enum BuilderState {
    /// No backing region yet.
    Empty,
    /// Tables are being built in the backing region.
    Backed,
    /// The level-4 table has been handed out as the paging root.
    Committed,
}

/// What the builder holds, as mathematical values.
pub struct PagingView {
    pub state: BuilderState,
    /// The backing region.
    pub region: PhysRange,
    /// Physical address of the next free page of the region.
    pub next_page: u64,
    /// The level-4 table's entries.
    pub root: Seq<u64>,
    /// Physical addresses of the page directory pointer tables.
    pub pdp_addrs: Seq<u64>,
    /// Their entries, in the same order.
    pub pdps: Seq<Seq<u64>>,
    /// Physical addresses of the page directories.
    pub pd_addrs: Seq<u64>,
    /// Their entries, in the same order.
    pub pds: Seq<Seq<u64>>,
}

/// `a` is one of `addrs`.
pub open spec fn has_addr(addrs: Seq<u64>, a: u64) -> bool {
    exists|k: int| 0 <= k < addrs.len() && addrs[k] == a
}

/// The position of `a` in `addrs`, when it is there.
pub open spec fn table_of(addrs: Seq<u64>, a: u64) -> int {
    choose|k: int| 0 <= k < addrs.len() && addrs[k] == a
}

/// A level-3 entry that points to a page directory.
pub open spec fn links(e: u64) -> bool {
    e != 0 && e & PTF_PS == 0
}

/// No address occurs twice.
pub open spec fn distinct(addrs: Seq<u64>) -> bool {
    forall|a: int, b: int| 0 <= a < b < addrs.len() ==> addrs[a] != addrs[b]
}

impl PagingView {
    /// The level-4 entry for `va` does not lead to a known table: a new page
    /// directory pointer table is needed to map `va`.
    pub open spec fn needs_pdp(self, va: u64) -> bool {
        let e4 = self.root[index_at(va, 39) as int];
        e4 == 0 || !has_addr(self.pdp_addrs, e4 & ADDRESS_MASK)
    }

    /// The page directory pointer table that `va` leads to.
    pub open spec fn pdp_of(self, va: u64) -> int {
        table_of(self.pdp_addrs, self.root[index_at(va, 39) as int] & ADDRESS_MASK)
    }

    /// The level-3 entry for `va`, when its table is known.
    pub open spec fn pdpe(self, va: u64) -> u64 {
        self.pdps[self.pdp_of(va)][index_at(va, 30) as int]
    }

    /// A new page directory is needed to map a 2 MiB page at `va`.
    pub open spec fn needs_pd(self, va: u64) -> bool {
        self.needs_pdp(va) || self.pdpe(va) == 0 || self.pdpe(va) & PTF_PS != 0 || !has_addr(
            self.pd_addrs,
            self.pdpe(va) & ADDRESS_MASK,
        )
    }

    /// The level-2 entry for `va`, when its table is known.
    pub open spec fn pde(self, va: u64) -> u64 {
        self.pds[table_of(self.pd_addrs, self.pdpe(va) & ADDRESS_MASK)][index_at(va, 21) as int]
    }

    /// Number of new tables that mapping a page of `size` at `va` takes.
    pub open spec fn tables_needed(self, va: u64, size: PageSize) -> int {
        (if self.needs_pdp(va) {
            1int
        } else {
            0int
        }) + (if size == PageSize::Size2MiB && self.needs_pd(va) {
            1int
        } else {
            0int
        })
    }

    /// The physical page that `va` maps to through a terminal entry for a
    /// page of `size`, if any.
    pub open spec fn resolve(self, va: u64, size: PageSize) -> Option<u64> {
        if self.needs_pdp(va) {
            None
        } else {
            match size {
                PageSize::Size1GiB => if self.pdpe(va) != 0 && self.pdpe(va) & PTF_PS != 0 {
                    Some(self.pdpe(va) & ADDRESS_MASK)
                } else {
                    None
                },
                PageSize::Size2MiB => if !self.needs_pd(va) && self.pde(va) != 0 && self.pde(va)
                    & PTF_PS != 0 {
                    Some(self.pde(va) & ADDRESS_MASK)
                } else {
                    None
                },
                PageSize::Size4KiB => None,
            }
        }
    }

    /// The invariant of a builder that holds a backing region.
    pub open spec fn backed_wf(self) -> bool {
        &&& self.region.start % TABLE_SIZE == 0
        &&& self.region.end <= PHYS_LIMIT
        &&& self.region.start + TABLE_SIZE <= self.next_page <= self.region.end
        &&& self.next_page % TABLE_SIZE == 0
        &&& self.root.len() == NUM_TABLE_ENTRIES
        &&& self.pdps.len() == self.pdp_addrs.len()
        &&& self.pds.len() == self.pd_addrs.len()
        &&& forall|k: int| 0 <= k < self.pdps.len() ==> (#[trigger] self.pdps[k]).len() == NUM_TABLE_ENTRIES
        &&& forall|k: int| 0 <= k < self.pds.len() ==> (#[trigger] self.pds[k]).len() == NUM_TABLE_ENTRIES
        &&& distinct(self.pdp_addrs)
        &&& distinct(self.pd_addrs)
        &&& forall|k: int| 0 <= k < self.pdp_addrs.len() ==> (#[trigger] self.pdp_addrs[k]) < self.next_page
        &&& forall|k: int| 0 <= k < self.pd_addrs.len() ==> (#[trigger] self.pd_addrs[k]) < self.next_page
        &&& forall|k: int| 0 <= k < self.pdp_addrs.len() ==> (#[trigger] self.pdp_addrs[k]) % TABLE_SIZE == 0
        &&& forall|k: int| 0 <= k < self.pd_addrs.len() ==> (#[trigger] self.pd_addrs[k]) % TABLE_SIZE == 0
        &&& forall|i: int|
            0 <= i < NUM_TABLE_ENTRIES && #[trigger] self.root[i] != 0 ==> has_addr(
                self.pdp_addrs,
                self.root[i] & ADDRESS_MASK,
            )
        &&& forall|i: int, j: int|
            0 <= i < NUM_TABLE_ENTRIES && 0 <= j < NUM_TABLE_ENTRIES && i != j && #[trigger] self.root[i]
                != 0 && #[trigger] self.root[j] != 0 ==> self.root[i] & ADDRESS_MASK != self.root[j]
                & ADDRESS_MASK
        &&& forall|k: int, i: int|
            0 <= k < self.pdps.len() && 0 <= i < NUM_TABLE_ENTRIES && links(#[trigger] self.pdps[k][i])
                ==> has_addr(self.pd_addrs, self.pdps[k][i] & ADDRESS_MASK)
        &&& forall|k: int, i: int, k2: int, i2: int|
            0 <= k < self.pdps.len() && 0 <= i < NUM_TABLE_ENTRIES && 0 <= k2 < self.pdps.len() && 0
                <= i2 < NUM_TABLE_ENTRIES && (k != k2 || i != i2) && links(#[trigger] self.pdps[k][i])
                && links(#[trigger] self.pdps[k2][i2]) ==> self.pdps[k][i] & ADDRESS_MASK
                != self.pdps[k2][i2] & ADDRESS_MASK
    }

    pub open spec fn wf(self) -> bool {
        self.state != BuilderState::Empty ==> self.backed_wf()
    }
}

/// Builds and owns the kernel's page tables.
pub struct MrldPageTable {
    state: BuilderState,
    desc: MrldMemoryDesc,
    next_page: u64,
    pml4: PageTable<PML4>,
    pdp_addrs: Vec<u64>,
    pdps: Vec<PageTable<PDP>>,
    pd_addrs: Vec<u64>,
    pds: Vec<PageTable<PD>>,
}

impl View for MrldPageTable {
    type V = PagingView;

    closed spec fn view(&self) -> PagingView {
        PagingView {
            state: self.state,
            region: self.desc.range,
            next_page: self.next_page,
            root: self.pml4@,
            pdp_addrs: self.pdp_addrs@,
            pdps: self.pdps@.map_values(|t: PageTable<PDP>| t@),
            pd_addrs: self.pd_addrs@,
            pds: self.pds@.map_values(|t: PageTable<PD>| t@),
        }
    }
}

impl MrldPageTable {
    /// A builder with no backing region.
    pub fn new_empty() -> (r: Self)
        ensures
            r@.state == BuilderState::Empty,
            r@.wf(),
    {
        MrldPageTable {
            state: BuilderState::Empty,
            desc: MrldMemoryDesc::new_invalid(),
            next_page: 0,
            pml4: PageTable::new_zeroed(),
            pdp_addrs: Vec::new(),
            pdps: Vec::new(),
            pd_addrs: Vec::new(),
            pds: Vec::new(),
        }
    }

    /// Where the builder stands.
    pub fn state(&self) -> (r: BuilderState)
        ensures
            r == self@.state,
    {
        self.state
    }

    /// Physical address of the next free page of the backing region.
    pub fn next_page(&self) -> (r: u64)
        ensures
            r == self@.next_page,
    {
        self.next_page
    }

    /// Physical address of the level-4 table: the first page of the backing
    /// region.
    pub fn root_address(&self) -> (r: u64)
        ensures
            r == self@.region.start,
    {
        self.desc.range.start
    }

    /// Take the next page of the backing region, when one is left. A page
    /// that ends exactly at the end of the region is handed out too.
    fn allocate(&mut self) -> (r: Option<u64>)
        requires
            old(self)@.backed_wf(),
        ensures
            final(self)@.backed_wf(),
            r is Some == (old(self)@.next_page + TABLE_SIZE <= old(self)@.region.end),
            r matches Some(a) ==> a == old(self)@.next_page && final(self)@ == (PagingView {
                next_page: (a + TABLE_SIZE) as u64,
                ..old(self)@
            }),
            r is None ==> final(self)@ == old(self)@,
    {
        if self.next_page > self.desc.range.end - TABLE_SIZE {
            return None;
        }
        let p = self.next_page;
        self.next_page = self.next_page + TABLE_SIZE;
        Some(p)
    }

    /// The position of the page directory pointer table at `a`.
    fn find_pdp(&self, a: u64) -> (r: Option<usize>)
        ensures
            r matches Some(k) ==> k < self@.pdp_addrs.len() && self@.pdp_addrs[k as int] == a,
            r is None ==> !has_addr(self@.pdp_addrs, a),
    {
        let mut k: usize = 0;
        while k < self.pdp_addrs.len()
            invariant
                forall|j: int| 0 <= j < k ==> self@.pdp_addrs[j] != a,
            decreases self.pdp_addrs.len() - k,
        {
            if self.pdp_addrs[k] == a {
                return Some(k);
            }
            k += 1;
        }
        None
    }

    /// The position of the page directory at `a`.
    fn find_pd(&self, a: u64) -> (r: Option<usize>)
        ensures
            r matches Some(k) ==> k < self@.pd_addrs.len() && self@.pd_addrs[k as int] == a,
            r is None ==> !has_addr(self@.pd_addrs, a),
    {
        let mut k: usize = 0;
        while k < self.pd_addrs.len()
            invariant
                forall|j: int| 0 <= j < k ==> self@.pd_addrs[j] != a,
            decreases self.pd_addrs.len() - k,
        {
            if self.pd_addrs[k] == a {
                return Some(k);
            }
            k += 1;
        }
        None
    }
}


proof fn lemma_table_of(addrs: Seq<u64>, k: int)
    requires
        distinct(addrs),
        0 <= k < addrs.len(),
    ensures
        has_addr(addrs, addrs[k]),
        table_of(addrs, addrs[k]) == k,
{
    let j = table_of(addrs, addrs[k]);
    if j != k {
        if j < k {
            assert(addrs[j] != addrs[k]);
        } else {
            assert(addrs[k] != addrs[j]);
        }
    }
}

proof fn lemma_push_fresh(addrs: Seq<u64>, a: u64)
    requires
        distinct(addrs),
        forall|k: int| 0 <= k < addrs.len() ==> addrs[k] < a,
    ensures
        distinct(addrs.push(a)),
        forall|x: u64| #[trigger] has_addr(addrs.push(a), x) == (has_addr(addrs, x) || x == a),
        forall|x: u64|
            has_addr(addrs, x) ==> #[trigger] table_of(addrs.push(a), x) == table_of(addrs, x),
        has_addr(addrs.push(a), a),
        table_of(addrs.push(a), a) == addrs.len(),
{
    let t = addrs.push(a);
    assert forall|x: u64| #[trigger] has_addr(t, x) == (has_addr(addrs, x) || x == a) by {
        if has_addr(addrs, x) {
            let k = choose|k: int| 0 <= k < addrs.len() && addrs[k] == x;
            assert(t[k] == x);
        }
        if x == a {
            assert(t[addrs.len() as int] == a);
        }
        if has_addr(t, x) && x != a {
            let k = choose|k: int| 0 <= k < t.len() && t[k] == x;
            assert(k < addrs.len());
            assert(addrs[k] == x);
        }
    }
    assert forall|x: u64| has_addr(addrs, x) implies #[trigger] table_of(t, x) == table_of(addrs, x) by {
        let k = table_of(addrs, x);
        assert(t[k] == x);
        lemma_table_of(t, k);
    }
    lemma_table_of(t, addrs.len() as int);
}

/// Bits of the two kinds of entry the builder writes.
proof fn lemma_entry_bits(a: u64, pa: u64)
    requires
        a % TABLE_SIZE == 0,
        a < PHYS_LIMIT,
    ensures
        page_flags() == 0x83,
        entry_value(pa, PTF_P | PTF_RW | PTF_PS) & FLAG_MASK == 0x83,
        entry_value(a, PTF_P | PTF_RW) & ADDRESS_MASK == a,
        links(entry_value(a, PTF_P | PTF_RW)),
        entry_value(pa, PTF_P | PTF_RW | PTF_PS) != 0,
        entry_value(pa, PTF_P | PTF_RW | PTF_PS) & PTF_PS != 0,
        entry_value(pa, PTF_P | PTF_RW | PTF_PS) & ADDRESS_MASK == pa & ADDRESS_MASK,
{
    let p = PTF_P | PTF_RW;
    let q = PTF_P | PTF_RW | PTF_PS;
    assert(1u64 | 2u64 == 3u64 && 1u64 | 2u64 | 0x80u64 == 0x83u64) by (bit_vector);
    assert((a & 0x000f_ffff_ffff_f000) | (p & 0x8000_0000_0000_01ff) == entry_value(a, p));
    assert((pa & 0x000f_ffff_ffff_f000) | (q & 0x8000_0000_0000_01ff) == entry_value(pa, q));
    assert({
        let x = (a & 0x000f_ffff_ffff_f000) | (p & 0x8000_0000_0000_01ff);
        let y = (pa & 0x000f_ffff_ffff_f000) | (q & 0x8000_0000_0000_01ff);
        &&& x & 0x000f_ffff_ffff_f000 == a
        &&& x != 0
        &&& x & 0x80 == 0
        &&& y != 0
        &&& y & 0x80 != 0
        &&& y & 0x000f_ffff_ffff_f000 == pa & 0x000f_ffff_ffff_f000
        &&& y & 0x8000_0000_0000_01ff == 0x83
    }) by (bit_vector)
        requires
            a % 0x1000 == 0,
            a < 0x10_0000_0000_0000,
            p == 3,
            q == 0x83,
    ;
}


/// `w` and `va` share their level-4 and level-3 indices.
pub open spec fn same_pdpe(w: u64, va: u64) -> bool {
    index_at(w, 39) == index_at(va, 39) && index_at(w, 30) == index_at(va, 30)
}

/// A table of 512 zero entries.
pub open spec fn zero_table() -> Seq<u64> {
    Seq::new(NUM_TABLE_ENTRIES as nat, |i: int| 0u64)
}

impl PagingView {
    /// The builder after linking a new, empty page directory pointer table,
    /// at the next free page, into the level-4 entry for `va`, when that
    /// entry leads to no table; else unchanged.
    pub open spec fn with_pdp(self, va: u64) -> PagingView {
        if self.needs_pdp(va) {
            PagingView {
                next_page: (self.next_page + TABLE_SIZE) as u64,
                root: self.root.update(
                    index_at(va, 39) as int,
                    entry_value(self.next_page, PTF_P | PTF_RW),
                ),
                pdp_addrs: self.pdp_addrs.push(self.next_page),
                pdps: self.pdps.push(zero_table()),
                ..self
            }
        } else {
            self
        }
    }

    /// The builder after linking a new, empty page directory, at the next
    /// free page, into the level-3 entry for `va`, when that entry leads to
    /// no page directory; else unchanged.
    pub open spec fn with_pd(self, va: u64) -> PagingView {
        if self.needs_pd(va) {
            PagingView {
                next_page: (self.next_page + TABLE_SIZE) as u64,
                pdps: self.pdps.update(
                    self.pdp_of(va),
                    self.pdps[self.pdp_of(va)].update(
                        index_at(va, 30) as int,
                        entry_value(self.next_page, PTF_P | PTF_RW),
                    ),
                ),
                pd_addrs: self.pd_addrs.push(self.next_page),
                pds: self.pds.push(zero_table()),
                ..self
            }
        } else {
            self
        }
    }

    /// The builder with the level-3 entry for `va` replaced by `e`.
    pub open spec fn set_pdpe(self, va: u64, e: u64) -> PagingView {
        PagingView {
            pdps: self.pdps.update(
                self.pdp_of(va),
                self.pdps[self.pdp_of(va)].update(index_at(va, 30) as int, e),
            ),
            ..self
        }
    }

    /// The builder with the level-2 entry for `va` replaced by `e`.
    pub open spec fn set_pde(self, va: u64, e: u64) -> PagingView {
        let k2 = table_of(self.pd_addrs, self.pdpe(va) & ADDRESS_MASK);
        PagingView {
            pds: self.pds.update(k2, self.pds[k2].update(index_at(va, 21) as int, e)),
            ..self
        }
    }

    /// The builder after mapping the page of `size` at `va` to `pa`: the
    /// missing tables on the way down are linked in, then the terminal
    /// entry is written. No other entry changes.
    pub open spec fn mapped(self, va: u64, pa: u64, size: PageSize) -> PagingView {
        let g1 = self.with_pdp(va);
        if size == PageSize::Size1GiB {
            g1.set_pdpe(va, entry_value(pa, page_flags()))
        } else {
            g1.with_pd(va).set_pde(va, entry_value(pa, page_flags()))
        }
    }
}

/// Every entry of `t` is zero, but perhaps the one at `i`.
pub open spec fn zero_but(t: Seq<u64>, i: int) -> bool {
    forall|j: int| 0 <= j < t.len() && j != i ==> #[trigger] t[j] == 0
}

/// Linking a new, empty page directory pointer table into an empty level-4
/// entry changes no mapping.
proof fn lemma_frame_new_pdp(g: PagingView, f: PagingView, va: u64, a: u64)
    requires
        g.backed_wf(),
        g.root[index_at(va, 39) as int] == 0,
        forall|k: int| 0 <= k < g.pdp_addrs.len() ==> g.pdp_addrs[k] < a,
        links(entry_value(a, PTF_P | PTF_RW)),
        entry_value(a, PTF_P | PTF_RW) & ADDRESS_MASK == a,
        f.root == g.root.update(index_at(va, 39) as int, entry_value(a, PTF_P | PTF_RW)),
        f.pdp_addrs == g.pdp_addrs.push(a),
        f.pdps.len() == g.pdps.len() + 1,
        forall|k: int| 0 <= k < g.pdps.len() ==> f.pdps[k] == g.pdps[k],
        f.pdps.last().len() == NUM_TABLE_ENTRIES,
        zero_but(f.pdps.last(), -1),
        f.pd_addrs == g.pd_addrs,
        f.pds == g.pds,
    ensures
        forall|w: u64, s2: PageSize| #[trigger] f.resolve(w, s2) == g.resolve(w, s2),
{
    lemma_push_fresh(g.pdp_addrs, a);
    let i4 = index_at(va, 39) as int;
    lemma_index_bounds(va);
    assert forall|w: u64, s2: PageSize| #[trigger] f.resolve(w, s2) == g.resolve(w, s2) by {
        let iw = index_at(w, 39) as int;
        lemma_index_bounds(w);
        if iw == i4 {
            assert(g.needs_pdp(w));
            assert(f.pdp_of(w) == g.pdps.len());
            assert(f.pdpe(w) == 0);
        } else {
            assert(f.root[iw] == g.root[iw]);
            if !g.needs_pdp(w) {
                assert(f.pdp_of(w) == g.pdp_of(w));
                let k = g.pdp_of(w);
                assert(0 <= k < g.pdps.len());
                assert(f.pdpe(w) == g.pdpe(w));
            }
        }
    }
}

/// Pushing a new page directory that nothing links to yet changes no
/// mapping.
proof fn lemma_frame_new_pd(g: PagingView, f: PagingView, b: u64)
    requires
        g.backed_wf(),
        forall|k: int| 0 <= k < g.pd_addrs.len() ==> g.pd_addrs[k] < b,
        f.root == g.root,
        f.pdp_addrs == g.pdp_addrs,
        f.pdps == g.pdps,
        f.pd_addrs == g.pd_addrs.push(b),
        f.pds.len() == g.pds.len() + 1,
        forall|k: int| 0 <= k < g.pds.len() ==> f.pds[k] == g.pds[k],
    ensures
        forall|w: u64, s2: PageSize| #[trigger] f.resolve(w, s2) == g.resolve(w, s2),
{
    lemma_push_fresh(g.pd_addrs, b);
    assert forall|w: u64, s2: PageSize| #[trigger] f.resolve(w, s2) == g.resolve(w, s2) by {
        lemma_index_bounds(w);
        if !g.needs_pdp(w) {
            assert(f.pdpe(w) == g.pdpe(w));
            if links(g.pdpe(w)) {
                let k = g.pdp_of(w);
                assert(links(g.pdps[k][index_at(w, 30) as int]));
                assert(has_addr(g.pd_addrs, g.pdpe(w) & ADDRESS_MASK));
                let t = table_of(g.pd_addrs, g.pdpe(w) & ADDRESS_MASK);
                assert(f.pde(w) == g.pde(w));
            }
        }
    }
}

/// Replacing the level-3 entry that `va` leads to changes no mapping of
/// an address with other level-4 or level-3 indices. Where it links an
/// empty page directory in place of one that did not lead to a table, no
/// 2 MiB mapping changes at all.
proof fn lemma_frame_set_pdpe(g: PagingView, f: PagingView, va: u64, e: u64)
    requires
        g.backed_wf(),
        !g.needs_pdp(va),
        f.root == g.root,
        f.pdp_addrs == g.pdp_addrs,
        f.pdps == g.pdps.update(
            g.pdp_of(va),
            g.pdps[g.pdp_of(va)].update(index_at(va, 30) as int, e),
        ),
        f.pd_addrs == g.pd_addrs,
        f.pds == g.pds,
    ensures
        forall|w: u64, s2: PageSize|
            !same_pdpe(w, va) ==> #[trigger] f.resolve(w, s2) == g.resolve(w, s2),
        (links(e) && has_addr(g.pd_addrs, e & ADDRESS_MASK) && zero_but(
            g.pds[table_of(g.pd_addrs, e & ADDRESS_MASK)],
            -1,
        ) && g.needs_pd(va)) ==> forall|w: u64|
            same_pdpe(w, va) ==> #[trigger] f.resolve(w, PageSize::Size2MiB) == g.resolve(
                w,
                PageSize::Size2MiB,
            ),
{
    let k = g.pdp_of(va);
    let i4 = index_at(va, 39) as int;
    let i3 = index_at(va, 30) as int;
    lemma_index_bounds(va);
    assert(0 <= k < g.pdps.len());
    assert forall|w: u64, s2: PageSize| !same_pdpe(w, va) implies #[trigger] f.resolve(w, s2) == g.resolve(w, s2) by {
        lemma_index_bounds(w);
        if !g.needs_pdp(w) {
            let kw = g.pdp_of(w);
            assert(f.pdp_of(w) == kw);
            if kw == k {
                let iw = index_at(w, 39) as int;
                if iw != i4 {
                    assert(g.root[iw] != 0 && g.root[i4] != 0);
                    assert(g.root[iw] & ADDRESS_MASK == g.pdp_addrs[kw]);
                }
                assert(f.pdpe(w) == g.pdpe(w));
            } else {
                assert(f.pdpe(w) == g.pdpe(w));
            }
        }
    }
    if links(e) && has_addr(g.pd_addrs, e & ADDRESS_MASK) && zero_but(
        g.pds[table_of(g.pd_addrs, e & ADDRESS_MASK)],
        -1,
    ) && g.needs_pd(va) {
        assert forall|w: u64| same_pdpe(w, va) implies #[trigger] f.resolve(w, PageSize::Size2MiB) == g.resolve(
            w,
            PageSize::Size2MiB,
        ) by {
            lemma_index_bounds(w);
            assert(g.pdp_of(w) == k);
            assert(f.pdpe(w) == e);
            let t = table_of(g.pd_addrs, e & ADDRESS_MASK);
            assert(0 <= t < g.pds.len());
            assert(f.pde(w) == 0);
        }
    }
}

/// Replacing the level-2 entry that `va` leads to changes no mapping
/// but the 2 MiB one of addresses sharing all three upper indices of `va`.
proof fn lemma_frame_set_pde(g: PagingView, f: PagingView, va: u64, e: u64)
    requires
        g.backed_wf(),
        !g.needs_pd(va),
        f.root == g.root,
        f.pdp_addrs == g.pdp_addrs,
        f.pdps == g.pdps,
        f.pd_addrs == g.pd_addrs,
        f.pds == g.pds.update(
            table_of(g.pd_addrs, g.pdpe(va) & ADDRESS_MASK),
            g.pds[table_of(g.pd_addrs, g.pdpe(va) & ADDRESS_MASK)].update(index_at(va, 21) as int, e),
        ),
    ensures
        forall|w: u64, s2: PageSize|
            !same_pdpe(w, va) ==> #[trigger] f.resolve(w, s2) == g.resolve(w, s2),
        forall|w: u64|
            same_pdpe(w, va) && index_at(w, 21) != index_at(va, 21) ==> #[trigger] f.resolve(
                w,
                PageSize::Size2MiB,
            ) == g.resolve(w, PageSize::Size2MiB),
{
    let k = g.pdp_of(va);
    let k2 = table_of(g.pd_addrs, g.pdpe(va) & ADDRESS_MASK);
    let i4 = index_at(va, 39) as int;
    let i3 = index_at(va, 30) as int;
    lemma_index_bounds(va);
    assert(0 <= k < g.pdps.len());
    assert(0 <= k2 < g.pds.len());
    assert(links(g.pdps[k][i3]));
    assert forall|w: u64, s2: PageSize| !same_pdpe(w, va) implies #[trigger] f.resolve(w, s2) == g.resolve(w, s2) by {
        lemma_index_bounds(w);
        if !g.needs_pd(w) {
            let kw = g.pdp_of(w);
            let iw = index_at(w, 39) as int;
            let i3w = index_at(w, 30) as int;
            assert(0 <= kw < g.pdps.len());
            if kw == k && iw != i4 {
                assert(g.root[iw] != 0 && g.root[i4] != 0);
                assert(g.root[iw] & ADDRESS_MASK == g.pdp_addrs[kw]);
            }
            assert(kw != k || i3w != i3);
            assert(links(g.pdps[kw][i3w]));
            let k2w = table_of(g.pd_addrs, g.pdpe(w) & ADDRESS_MASK);
            assert(g.pdps[kw][i3w] & ADDRESS_MASK != g.pdps[k][i3] & ADDRESS_MASK);
            assert(k2w != k2);
            assert(f.pde(w) == g.pde(w));
        }
    }
    assert forall|w: u64|
        same_pdpe(w, va) && index_at(w, 21) != index_at(va, 21) implies #[trigger] f.resolve(
        w,
        PageSize::Size2MiB,
    ) == g.resolve(w, PageSize::Size2MiB) by {
        lemma_index_bounds(w);
        assert(g.pdp_of(w) == k);
        assert(g.pdpe(w) == g.pdpe(va));
        assert(f.pde(w) == g.pde(w));
    }
}

/// Flags of an entry that maps a 2 MiB or 1 GiB page.
pub open spec fn page_flags() -> u64 {
    PTF_P | PTF_RW | PTF_PS
}

impl MrldPageTable {
    /// Classify a request to map the page of `size` at `va` to `pa`:
    /// `MisalignedAddress` when either base is not a multiple of the page
    /// size, `UnsupportedGranularity` for an aligned 4 KiB request, and
    /// `Ok` exactly for the requests that `map_page` takes.
    pub fn check_request(va: u64, pa: u64, size: PageSize) -> (r: Result<(), MapError>)
        ensures
            (r == Err::<(), MapError>(MapError::MisalignedAddress)) == (va % size.bytes() != 0 || pa
                % size.bytes() != 0),
            (r == Err::<(), MapError>(MapError::UnsupportedGranularity)) == (va % size.bytes() == 0
                && pa % size.bytes() == 0 && size == PageSize::Size4KiB),
            r is Ok == (va % size.bytes() == 0 && pa % size.bytes() == 0 && size
                != PageSize::Size4KiB),
    {
        if !size.is_aligned(va) || !size.is_aligned(pa) {
            return Err(MapError::MisalignedAddress);
        }
        if let PageSize::Size4KiB = size {
            return Err(MapError::UnsupportedGranularity);
        }
        Ok(())
    }
}

impl MrldPageTable {
    /// Map the page of `size` at virtual address `va` to physical address
    /// `pa`. Tables on the way down are reused where the entries above lead
    /// to them, and otherwise taken from the backing region and linked in.
    /// The terminal entry is present, writable and has the page-size flag.
    /// On an error nothing changes.
    pub fn map_page(&mut self, va: u64, pa: u64, size: PageSize) -> (r: Result<(), MapError>)
        requires
            old(self)@.state == BuilderState::Backed,
            old(self)@.wf(),
            size != PageSize::Size4KiB,
            va % size.bytes() == 0,
            pa % size.bytes() == 0,
        ensures
            final(self)@.wf(),
            final(self)@.state == old(self)@.state,
            final(self)@.region == old(self)@.region,
            r is Err ==> r == Err::<(), MapError>(MapError::AllocationExhausted),
            r is Err == (old(self)@.next_page + old(self)@.tables_needed(va, size) * TABLE_SIZE
                > old(self)@.region.end),
            r is Err ==> final(self)@ == old(self)@,
            r is Ok ==> final(self)@ == old(self)@.mapped(va, pa, size),
            r is Ok && size == PageSize::Size1GiB ==> final(self)@.pdpe(va) & FLAG_MASK == page_flags(),
            r is Ok && size == PageSize::Size2MiB ==> final(self)@.pde(va) & FLAG_MASK == page_flags(),
            r is Ok ==> forall|w: u64|
                index_at(w, 39) == index_at(va, 39) ==> !#[trigger] final(self)@.needs_pdp(w),
            r is Ok && size == PageSize::Size2MiB ==> forall|w: u64|
                same_pdpe(w, va) ==> !#[trigger] final(self)@.needs_pd(w),
            r is Ok ==> final(self)@.resolve(va, size) == Some(pa & ADDRESS_MASK),
            r is Ok ==> final(self)@.next_page == old(self)@.next_page + old(self)@.tables_needed(
                va,
                size,
            ) * TABLE_SIZE,
            r is Ok ==> forall|w: u64, s2: PageSize|
                !same_pdpe(w, va) ==> #[trigger] final(self)@.resolve(w, s2) == old(self)@.resolve(
                    w,
                    s2,
                ),
            r is Ok && size == PageSize::Size2MiB ==> forall|w: u64|
                same_pdpe(w, va) && index_at(w, 21) != index_at(va, 21) ==> #[trigger] final(self)@.resolve(w, PageSize::Size2MiB)
                    == old(self)@.resolve(w, PageSize::Size2MiB),
    {
        let ghost g = self@;
        let v = VirtAddr::from_u64(va);
        let i4 = v.pml4_idx();
        let i3 = v.pdp_idx();
        let i2 = v.pd_idx();
        let e4 = self.pml4.get(i4);
        let found_pdp: Option<usize> = if e4.invalid() {
            None
        } else {
            self.find_pdp(e4.address())
        };
        proof {
            if let Some(k) = found_pdp {
                lemma_table_of(g.pdp_addrs, k as int);
                assert(!g.needs_pdp(va));
                assert(g.pdp_of(va) == k);
            } else {
                assert(g.needs_pdp(va));
            }
        }
        let found_pd: Option<usize> = match found_pdp {
            None => None,
            Some(k) => {
                let e3 = self.pdps[k].get(i3);
                if e3.invalid() || e3.as_u64() & PTF_PS != 0 {
                    None
                } else {
                    self.find_pd(e3.address())
                }
            },
        };
        proof {
            if let Some(k2) = found_pd {
                lemma_table_of(g.pd_addrs, k2 as int);
                assert(!g.needs_pd(va));
            } else {
                assert(g.needs_pd(va));
            }
        }
        let mut needed: u64 = 0;
        if found_pdp.is_none() {
            needed = needed + 1;
        }
        if size == PageSize::Size2MiB && found_pd.is_none() {
            needed = needed + 1;
        }
        assert(needed == g.tables_needed(va, size));
        if self.desc.range.end - self.next_page < needed * TABLE_SIZE {
            return Err(MapError::AllocationExhausted);
        }
        let flags = PTFlag::from_bits_truncate(PTF_P | PTF_RW | PTF_PS);
        assert((PTF_P | PTF_RW | PTF_PS) & 0x8000_0000_0000_01ff == PTF_P | PTF_RW | PTF_PS) by (bit_vector);
        let k: usize = match found_pdp {
            Some(k) => k,
            None => {
                let a = match self.allocate() {
                    Some(a) => a,
                    None => {
                        return Err(MapError::AllocationExhausted);
                    },
                };
                let ghost g1 = self@;
                proof {
                    lemma_entry_bits(a, pa);
                    lemma_push_fresh(g1.pdp_addrs, a);
                }
                self.pdp_addrs.push(a);
                self.pdps.push(PageTable::new_zeroed());
                self.pml4.set_entry(i4, PageTableEntry::new_table_ptr(a));
                proof {
                    let g2 = self@;
                    assert(g2.pdps =~= g1.pdps.push(g2.pdps.last()));
                    assert(forall|i: int| 0 <= i < NUM_TABLE_ENTRIES ==> g2.pdps.last()[i] == 0);
                    assert(g2.backed_wf()) by {
                        assert forall|i: int| 0 <= i < NUM_TABLE_ENTRIES && #[trigger] g2.root[i] != 0 implies has_addr(
                            g2.pdp_addrs,
                            g2.root[i] & ADDRESS_MASK,
                        ) by {
                            if i != i4 {
                                assert(g1.root[i] == g2.root[i]);
                            }
                        }
                        assert forall|i: int, j: int|
                            0 <= i < NUM_TABLE_ENTRIES && 0 <= j < NUM_TABLE_ENTRIES && i != j
                                && #[trigger] g2.root[i] != 0 && #[trigger] g2.root[j] != 0 implies g2.root[i]
                                & ADDRESS_MASK != g2.root[j] & ADDRESS_MASK by {
                            if i == i4 {
                                assert(g1.root[j] == g2.root[j]);
                                let t = table_of(g1.pdp_addrs, g1.root[j] & ADDRESS_MASK);
                                assert(g1.pdp_addrs[t] < a);
                            } else if j == i4 {
                                assert(g1.root[i] == g2.root[i]);
                                let t = table_of(g1.pdp_addrs, g1.root[i] & ADDRESS_MASK);
                                assert(g1.pdp_addrs[t] < a);
                            } else {
                                assert(g1.root[i] == g2.root[i]);
                                assert(g1.root[j] == g2.root[j]);
                            }
                        }
                        assert forall|k: int, i: int|
                            0 <= k < g2.pdps.len() && 0 <= i < NUM_TABLE_ENTRIES && links(#[trigger] g2.pdps[k][i])
                                implies has_addr(g2.pd_addrs, g2.pdps[k][i] & ADDRESS_MASK) by {
                            if k < g1.pdps.len() {
                                assert(g2.pdps[k] == g1.pdps[k]);
                            }
                        }
                        assert forall|k: int, i: int, k2: int, i2: int|
                            0 <= k < g2.pdps.len() && 0 <= i < NUM_TABLE_ENTRIES && 0 <= k2 < g2.pdps.len()
                                && 0 <= i2 < NUM_TABLE_ENTRIES && (k != k2 || i != i2) && links(
                                #[trigger] g2.pdps[k][i],
                            ) && links(#[trigger] g2.pdps[k2][i2]) implies g2.pdps[k][i] & ADDRESS_MASK
                                != g2.pdps[k2][i2] & ADDRESS_MASK by {
                            if k < g1.pdps.len() && k2 < g1.pdps.len() {
                                assert(g2.pdps[k] == g1.pdps[k]);
                                assert(g2.pdps[k2] == g1.pdps[k2]);
                            }
                        }
                    }
                }
                proof {
                    lemma_table_of(self@.pdp_addrs, g1.pdp_addrs.len() as int);
                    assert(g.root[i4 as int] == 0);
                    assert(zero_but(self@.pdps.last(), -1));
                    lemma_frame_new_pdp(g1, self@, va, a);
                }
                self.pdps.len() - 1
            },
        };
        let ghost gk = self@;
        assert(!gk.needs_pdp(va) && gk.pdp_of(va) == k && k < gk.pdps.len());
        proof {
            let w = g.with_pdp(va);
            if found_pdp is None {
                assert(gk.root =~= w.root);
                assert(gk.pdp_addrs =~= w.pdp_addrs);
                assert(gk.pdps.last() =~= zero_table());
                assert(gk.pdps =~= w.pdps);
            }
            assert(gk == w);
        }
        assert(flags@ == page_flags());
        assert(forall|w: u64, s2: PageSize| #[trigger] gk.resolve(w, s2) == g.resolve(w, s2));
        assert(found_pd is None ==> gk.needs_pd(va));
        assert(gk.next_page + (needed - (if found_pdp is None {
            1int
        } else {
            0int
        })) * TABLE_SIZE <= gk.region.end);
        proof {
            lemma_entry_bits(0, pa);
        }
        if let PageSize::Size1GiB = size {
            self.pdps[k].set_entry(i3, PageTableEntry::new(pa, flags));
            proof {
                let g3 = self@;
                assert(g3.pdps =~= gk.pdps.update(k as int, gk.pdps[k as int].update(i3 as int, entry_value(pa, flags@))));
                assert(g3.backed_wf()) by {
                    assert forall|kk: int, i: int|
                        0 <= kk < g3.pdps.len() && 0 <= i < NUM_TABLE_ENTRIES && links(#[trigger] g3.pdps[kk][i])
                            implies has_addr(g3.pd_addrs, g3.pdps[kk][i] & ADDRESS_MASK) by {
                        assert(g3.pdps[kk][i] == gk.pdps[kk][i]);
                    }
                    assert forall|ka: int, i: int, kb: int, ib: int|
                        0 <= ka < g3.pdps.len() && 0 <= i < NUM_TABLE_ENTRIES && 0 <= kb < g3.pdps.len()
                            && 0 <= ib < NUM_TABLE_ENTRIES && (ka != kb || i != ib) && links(
                            #[trigger] g3.pdps[ka][i],
                        ) && links(#[trigger] g3.pdps[kb][ib]) implies g3.pdps[ka][i] & ADDRESS_MASK
                            != g3.pdps[kb][ib] & ADDRESS_MASK by {
                        assert(g3.pdps[ka][i] == gk.pdps[ka][i]);
                        assert(g3.pdps[kb][ib] == gk.pdps[kb][ib]);
                    }
                }
                assert(g3.pdp_of(va) == k);
                assert(g3.pdpe(va) == entry_value(pa, flags@));
                lemma_frame_set_pdpe(gk, g3, va, entry_value(pa, flags@));
                assert(g3 == gk.set_pdpe(va, entry_value(pa, page_flags())));
            }
            return Ok(());
        }
        let k2: usize = match found_pd {
            Some(k2) => k2,
            None => {
                let b = match self.allocate() {
                    Some(b) => b,
                    None => {
                        return Err(MapError::AllocationExhausted);
                    },
                };
                let ghost g1 = self@;
                proof {
                    lemma_entry_bits(b, pa);
                    lemma_push_fresh(g1.pd_addrs, b);
                }
                self.pd_addrs.push(b);
                self.pds.push(PageTable::new_zeroed());
                let ghost gp = self@;
                proof {
                    lemma_frame_new_pd(g1, gp, b);
                    lemma_table_of(gp.pd_addrs, g1.pd_addrs.len() as int);
                    assert(gp.needs_pd(va));
                    assert(zero_but(gp.pds[table_of(gp.pd_addrs, b)], -1));
                }
                self.pdps[k].set_entry(i3, PageTableEntry::new_table_ptr(b));
                proof {
                    let g2 = self@;
                    assert(g2.pds =~= g1.pds.push(g2.pds.last()));
                    assert(g2.pdps =~= g1.pdps.update(k as int, g1.pdps[k as int].update(i3 as int, entry_value(b, PTF_P | PTF_RW))));
                    assert(g2.backed_wf()) by {
                        assert forall|kk: int, i: int|
                            0 <= kk < g2.pdps.len() && 0 <= i < NUM_TABLE_ENTRIES && links(#[trigger] g2.pdps[kk][i])
                                implies has_addr(g2.pd_addrs, g2.pdps[kk][i] & ADDRESS_MASK) by {
                            if kk != k || i != i3 {
                                assert(g2.pdps[kk][i] == g1.pdps[kk][i]);
                            }
                        }
                        assert forall|ka: int, i: int, kb: int, ib: int|
                            0 <= ka < g2.pdps.len() && 0 <= i < NUM_TABLE_ENTRIES && 0 <= kb < g2.pdps.len()
                                && 0 <= ib < NUM_TABLE_ENTRIES && (ka != kb || i != ib) && links(
                                #[trigger] g2.pdps[ka][i],
                            ) && links(#[trigger] g2.pdps[kb][ib]) implies g2.pdps[ka][i] & ADDRESS_MASK
                                != g2.pdps[kb][ib] & ADDRESS_MASK by {
                            if ka == k && i == i3 {
                                assert(g2.pdps[kb][ib] == g1.pdps[kb][ib]);
                                let t = table_of(g1.pd_addrs, g1.pdps[kb][ib] & ADDRESS_MASK);
                                assert(g1.pd_addrs[t] < b);
                            } else if kb == k && ib == i3 {
                                assert(g2.pdps[ka][i] == g1.pdps[ka][i]);
                                let t = table_of(g1.pd_addrs, g1.pdps[ka][i] & ADDRESS_MASK);
                                assert(g1.pd_addrs[t] < b);
                            } else {
                                assert(g2.pdps[ka][i] == g1.pdps[ka][i]);
                                assert(g2.pdps[kb][ib] == g1.pdps[kb][ib]);
                            }
                        }
                    }
                    lemma_table_of(g2.pd_addrs, g1.pd_addrs.len() as int);
                    assert(entry_value(b, PTF_P | PTF_RW) & ADDRESS_MASK == b);
                    lemma_frame_set_pdpe(gp, g2, va, entry_value(b, PTF_P | PTF_RW));
                    assert forall|w: u64, s2: PageSize| !same_pdpe(w, va) implies #[trigger] g2.resolve(w, s2)
                        == g.resolve(w, s2) by {
                        assert(g2.resolve(w, s2) == gp.resolve(w, s2));
                        assert(gp.resolve(w, s2) == g1.resolve(w, s2));
                        assert(g1.resolve(w, s2) == gk.resolve(w, s2));
                    }
                    assert forall|w: u64| same_pdpe(w, va) implies #[trigger] g2.resolve(w, PageSize::Size2MiB)
                        == g.resolve(w, PageSize::Size2MiB) by {
                        assert(g2.resolve(w, PageSize::Size2MiB) == gp.resolve(w, PageSize::Size2MiB));
                        assert(gp.resolve(w, PageSize::Size2MiB) == g1.resolve(w, PageSize::Size2MiB));
                        assert(g1.resolve(w, PageSize::Size2MiB) == gk.resolve(w, PageSize::Size2MiB));
                    }
                    assert(g2.pdp_of(va) == k);
                    assert(g2.pdpe(va) == entry_value(b, PTF_P | PTF_RW));
                    assert(!g2.needs_pd(va));
                }
                self.pds.len() - 1
            },
        };
        let ghost gm = self@;
        proof {
            let w = gk.with_pd(va);
            if found_pd is None {
                assert(gm.pdps =~= w.pdps);
                assert(gm.pd_addrs =~= w.pd_addrs);
                assert(gm.pds.last() =~= zero_table());
                assert(gm.pds =~= w.pds);
            } else {
                assert(!gk.needs_pd(va));
            }
            assert(gm == w);
        }
        assert(forall|w: u64, s2: PageSize| !same_pdpe(w, va) ==> #[trigger] gm.resolve(w, s2) == g.resolve(w, s2));
        assert(forall|w: u64| same_pdpe(w, va) ==> #[trigger] gm.resolve(w, PageSize::Size2MiB) == g.resolve(w, PageSize::Size2MiB));
        assert(!gm.needs_pdp(va) && gm.pdp_of(va) == k && !gm.needs_pd(va) && table_of(
            gm.pd_addrs,
            gm.pdpe(va) & ADDRESS_MASK,
        ) == k2 && k2 < gm.pds.len());
        self.pds[k2].set_entry(i2, PageTableEntry::new(pa, flags));
        proof {
            let g3 = self@;
            assert(g3.pds =~= gm.pds.update(k2 as int, gm.pds[k2 as int].update(i2 as int, entry_value(pa, flags@))));
            assert(g3.pdps == gm.pdps);
            assert(g3.pdpe(va) == gm.pdpe(va));
            assert(g3.pde(va) == entry_value(pa, flags@));
            lemma_frame_set_pde(gm, g3, va, entry_value(pa, flags@));
            assert(g3 == gm.set_pde(va, entry_value(pa, page_flags())));
        }
        Ok(())
    }
}


/// A multiple of `m` plus `k` times `m` is a multiple of `m`.
proof fn lemma_step_aligned(x: int, k: int, m: int)
    requires
        m > 0,
        x % m == 0,
    ensures
        (x + k * m) % m == 0,
{
    lemma_mod_multiples_basic(k, m);
    lemma_mod_adds(x, k * m, m);
}

/// Two page-aligned addresses less than 512 pages apart differ in the
/// indices above the page offset.
proof fn lemma_pages_apart(a: u64, d: u64, size: PageSize)
    requires
        size != PageSize::Size4KiB,
        a % size.bytes() == 0,
        d % size.bytes() == 0,
        0 < d < 512 * size.bytes(),
        a + d <= u64::MAX,
    ensures
        size == PageSize::Size1GiB ==> !same_pdpe((a + d) as u64, a),
        size == PageSize::Size2MiB ==> !(same_pdpe((a + d) as u64, a) && index_at((a + d) as u64, 21)
            == index_at(a, 21)),
{
    let b = (a + d) as u64;
    if size == PageSize::Size1GiB {
        assert(a & 0x3fff_ffff == 0 && d & 0x3fff_ffff == 0) by (bit_vector)
            requires a % 0x4000_0000 == 0, d % 0x4000_0000 == 0;
        assert(!((b >> 39u64) & 0x1ff == (a >> 39u64) & 0x1ff && (b >> 30u64) & 0x1ff == (a >> 30u64)
            & 0x1ff)) by (bit_vector)
            requires
                a & 0x3fff_ffff == 0,
                d & 0x3fff_ffff == 0,
                0 < d,
                d < 512 * 0x4000_0000,
                a + d <= 0xffff_ffff_ffff_ffff,
                b == a + d,
        ;
    } else {
        assert(a & 0x1f_ffff == 0 && d & 0x1f_ffff == 0) by (bit_vector)
            requires a % 0x20_0000 == 0, d % 0x20_0000 == 0;
        assert(!((b >> 39u64) & 0x1ff == (a >> 39u64) & 0x1ff && (b >> 30u64) & 0x1ff == (a >> 30u64)
            & 0x1ff && (b >> 21u64) & 0x1ff == (a >> 21u64) & 0x1ff)) by (bit_vector)
            requires
                a & 0x1f_ffff == 0,
                d & 0x1f_ffff == 0,
                0 < d,
                d < 512 * 0x20_0000,
                a + d <= 0xffff_ffff_ffff_ffff,
                b == a + d,
        ;
    }
}

/// All `count` pages from `va` lie under one level-4 entry and, for 2 MiB
/// pages, under one level-3 entry: the run takes at most two new tables.
pub open spec fn one_entry_run(va: u64, size: PageSize, count: int) -> bool {
    forall|j: int|
        0 <= j < count ==> index_at(#[trigger] ((va + j * size.bytes()) as u64), 39) == index_at(va, 39)
            && (size == PageSize::Size2MiB ==> index_at((va + j * size.bytes()) as u64, 30)
            == index_at(va, 30))
}

impl MrldPageTable {
    /// Map `count` consecutive pages of `size`, the first at virtual
    /// address `va` to physical address `pa`, each as `map_page` does. The
    /// alignment and granularity are checked before any page is mapped; on
    /// `AllocationExhausted` the pages before the failing one stay mapped.
    pub fn map_pages(&mut self, va: u64, pa: u64, size: PageSize, count: usize) -> (r: Result<
        (),
        MapError,
    >)
        requires
            old(self)@.state == BuilderState::Backed,
            old(self)@.wf(),
            count <= NUM_TABLE_ENTRIES,
            va + count * size.bytes() <= u64::MAX,
            pa + count * size.bytes() <= u64::MAX,
            size != PageSize::Size4KiB,
            va % size.bytes() == 0,
            pa % size.bytes() == 0,
        ensures
            final(self)@.wf(),
            final(self)@.state == old(self)@.state,
            final(self)@.region == old(self)@.region,
            r is Err ==> r == Err::<(), MapError>(MapError::AllocationExhausted),
            r is Err ==> old(self)@.next_page + 2 * count * TABLE_SIZE > old(self)@.region.end,
            one_entry_run(va, size, count as int) && old(self)@.next_page + 2 * TABLE_SIZE
                <= old(self)@.region.end ==> r is Ok,
            r is Ok && one_entry_run(va, size, count as int) ==> final(self)@.next_page
                <= old(self)@.next_page + 2 * TABLE_SIZE,
            r is Ok ==> forall|j: int|
                0 <= j < count ==> #[trigger] final(self)@.resolve(
                    (va + j * size.bytes()) as u64,
                    size,
                ) == Some(((pa + j * size.bytes()) as u64) & ADDRESS_MASK),
            r is Ok ==> final(self)@.next_page <= old(self)@.next_page + 2 * count * TABLE_SIZE,
            r is Ok ==> forall|w: u64, s2: PageSize|
                (forall|j: int|
                    0 <= j < count ==> !same_pdpe(w, #[trigger] ((va + j * size.bytes()) as u64)))
                    ==> #[trigger] final(self)@.resolve(w, s2) == old(self)@.resolve(w, s2),
    {
        let sz = size.as_u64();
        let ghost g = self@;
        let ghost run = one_entry_run(va, size, count as int);
        let mut j: usize = 0;
        let mut cv: u64 = va;
        let mut cp: u64 = pa;
        while j < count
            invariant
                self@.wf(),
                self@.state == BuilderState::Backed,
                self@.region == g.region,
                g == old(self)@,
                g.state == BuilderState::Backed,
                g.wf(),
                sz == size.bytes(),
                size != PageSize::Size4KiB,
                va % sz == 0,
                pa % sz == 0,
                j <= count,
                count <= NUM_TABLE_ENTRIES,
                va + count * sz <= u64::MAX,
                pa + count * sz <= u64::MAX,
                cv == va + j * sz,
                cp == pa + j * sz,
                self@.next_page <= g.next_page + 2 * j * TABLE_SIZE,
                run == one_entry_run(va, size, count as int),
                run ==> self@.next_page <= g.next_page + 2 * TABLE_SIZE,
                run && j > 0 ==> forall|w: u64|
                    index_at(w, 39) == index_at(va, 39) ==> !#[trigger] self@.needs_pdp(w),
                run && j > 0 && size == PageSize::Size2MiB ==> forall|w: u64|
                    same_pdpe(w, va) ==> !#[trigger] self@.needs_pd(w),
                forall|w: u64, s2: PageSize|
                    (forall|i: int| 0 <= i < j ==> !same_pdpe(w, #[trigger] ((va + i * sz) as u64)))
                        ==> #[trigger] self@.resolve(w, s2) == g.resolve(w, s2),
                forall|i: int|
                    0 <= i < j ==> #[trigger] self@.resolve((va + i * sz) as u64, size) == Some(
                        ((pa + i * sz) as u64) & ADDRESS_MASK,
                    ),
            decreases count - j,
        {
            proof {
                assert(j * sz <= count * sz) by (nonlinear_arith)
                    requires j <= count, sz > 0;
                lemma_step_aligned(va as int, j as int, sz as int);
                lemma_step_aligned(pa as int, j as int, sz as int);
                if run {
                    let jj = j as int;
                    assert(cv == ((va + jj * size.bytes()) as u64));
                    assert(index_at(((va + jj * size.bytes()) as u64), 39) == index_at(va, 39));
                    assert(size == PageSize::Size2MiB ==> index_at(((va + jj * size.bytes()) as u64), 30)
                        == index_at(va, 30));
                }
            }
            let ghost before = self@;
            match self.map_page(cv, cp, size) {
                Ok(()) => {},
                Err(e) => {
                    proof {
                        assert(e == MapError::AllocationExhausted);
                        assert(before.tables_needed(cv, size) <= 2);
                        if run && j > 0 {
                            assert(index_at(cv, 39) == index_at(va, 39));
                            assert(!before.needs_pdp(cv));
                            if size == PageSize::Size2MiB {
                                assert(same_pdpe(cv, va));
                                assert(!before.needs_pd(cv));
                            }
                        }
                        assert(j * TABLE_SIZE <= count * TABLE_SIZE) by (nonlinear_arith)
                            requires j <= count;
                    }
                    return Err(e);
                },
            }
            proof {
                assert forall|i: int| 0 <= i < j + 1 implies #[trigger] self@.resolve((va + i * sz) as u64, size) == Some(
                    ((pa + i * sz) as u64) & ADDRESS_MASK,
                ) by {
                    if i < j {
                        let a = (va + i * sz) as u64;
                        let d = ((j - i) * sz) as u64;
                        assert((j - i) * sz == j * sz - i * sz) by (nonlinear_arith);
                        assert(i * sz <= j * sz) by (nonlinear_arith)
                            requires i < j, sz > 0;
                        lemma_mul_strict_inequality(0, j - i, sz as int);
                        lemma_mul_strict_inequality(j - i, 512, sz as int);
                        lemma_step_aligned(va as int, i, sz as int);
                        lemma_step_aligned(0, j - i, sz as int);
                        assert(a == va + i * sz);
                        assert(d == (j - i) * sz);
                        lemma_pages_apart(a, d, size);
                        assert(cv == a + d);
                        assert(self@.resolve(a, size) == before.resolve(a, size));
                    }
                }
                assert forall|w: u64, s2: PageSize|
                    (forall|i: int| 0 <= i < j + 1 ==> !same_pdpe(w, #[trigger] ((va + i * sz) as u64)))
                        implies #[trigger] self@.resolve(w, s2) == g.resolve(w, s2) by {
                    assert(!same_pdpe(w, ((va + j * sz) as u64)));
                    assert(self@.resolve(w, s2) == before.resolve(w, s2));
                    assert forall|i: int| 0 <= i < j implies !same_pdpe(w, #[trigger] ((va + i * sz) as u64)) by {
                        assert(0 <= i < j + 1);
                    }
                }
                assert(((j + 1) * sz) == j * sz + sz) by (nonlinear_arith);
                assert((j + 1) * sz <= count * sz) by (nonlinear_arith)
                    requires j + 1 <= count, sz > 0;
            }
            j += 1;
            cv = cv + sz;
            cp = cp + sz;
        }
        Ok(())
    }
}


/// Virtual base of the kernel image mapping.
pub const KERNEL_TEXT_BASE: u64 = 0xffff_ffff_8000_0000;

/// Virtual base of the kernel heap mapping.
pub const KERNEL_HEAP_BASE: u64 = 0xffff_ffd0_0000_0000;

/// Number of 1 GiB pages of the identity mapping.
pub const IDENTITY_PAGES: usize = 512;

/// Number of 2 MiB pages of the kernel image mapping.
pub const KERNEL_TEXT_PAGES: usize = 32;

/// Pages of backing store that `init` is sure to need no more of: the
/// level-4 table, and at most two tables for each of the three mappings.
pub const INIT_TABLES: u64 = 7;

/// Number of 1 GiB pages of the kernel heap mapping.
pub const KERNEL_HEAP_PAGES: usize = 1;

/// Where the three fixed mappings lie in the upper indices.
proof fn lemma_fixed_indices()
    ensures
        forall|j: int|
            0 <= j < 512 ==> index_at(#[trigger] ((j * one_gib()) as u64), 39) == 0,
        forall|j: int|
            0 <= j < 32 ==> index_at(#[trigger] ((KERNEL_TEXT_BASE + j * 0x20_0000) as u64), 39) == 511
                && index_at((KERNEL_TEXT_BASE + j * 0x20_0000) as u64, 30) == 510,
        index_at(KERNEL_HEAP_BASE, 39) == 511,
        index_at(KERNEL_HEAP_BASE, 30) == 320,
{
    assert forall|j: int| 0 <= j < 512 implies index_at(#[trigger] ((j * one_gib()) as u64), 39) == 0 by {
        let x = (j * one_gib()) as u64;
        assert(x < 0x80_0000_0000);
        assert((x >> 39u64) & 0x1ff == 0) by (bit_vector)
            requires x < 0x80_0000_0000;
    }
    assert forall|j: int| 0 <= j < 32 implies index_at(#[trigger] ((KERNEL_TEXT_BASE + j * 0x20_0000) as u64), 39)
        == 511 && index_at((KERNEL_TEXT_BASE + j * 0x20_0000) as u64, 30) == 510 by {
        let x = (KERNEL_TEXT_BASE + j * 0x20_0000) as u64;
        assert(0xffff_ffff_8000_0000 <= x < 0xffff_ffff_8400_0000);
        assert((x >> 39u64) & 0x1ff == 511 && (x >> 30u64) & 0x1ff == 510) by (bit_vector)
            requires 0xffff_ffff_8000_0000 <= x, x < 0xffff_ffff_8400_0000;
    }
    assert((0xffff_ffd0_0000_0000u64 >> 39u64) & 0x1ff == 511) by (bit_vector);
    assert((0xffff_ffd0_0000_0000u64 >> 30u64) & 0x1ff == 320) by (bit_vector);
}

/// Bytes in a 1 GiB page, as an integer.
pub open spec fn one_gib() -> int {
    0x4000_0000
}

impl MrldPageTable {
    /// Take `pt_desc` as the backing region of a builder that has none yet,
    /// and build the kernel's tables
    /// in it: an identity mapping of the low 512 GiB with 1 GiB pages, the
    /// kernel image at its fixed virtual and physical bases with 2 MiB
    /// pages, and the kernel heap at its fixed virtual base onto the start
    /// of `heap_desc` with one 1 GiB page. The level-4 table takes the first
    /// page of the region. `MisalignedAddress` when the region does not
    /// start on a 4 KiB boundary or the heap does not start on a 1 GiB
    /// boundary; `AllocationExhausted` when the region cannot hold the
    /// tables or reaches past the addresses an entry can hold.
    pub fn init(&mut self, pt_desc: MrldMemoryDesc, heap_desc: MrldMemoryDesc) -> (r: Result<(), MapError>)
        requires
            old(self)@.wf(),
            old(self)@.state == BuilderState::Empty,
            heap_desc.range.start + one_gib() <= u64::MAX,
        ensures
            final(self)@.wf(),
            r is Ok ==> final(self)@.state == BuilderState::Backed,
            r is Ok ==> final(self)@.region == pt_desc.range,
            (r == Err::<(), MapError>(MapError::MisalignedAddress)) == (pt_desc.range.start
                % TABLE_SIZE != 0 || heap_desc.range.start % one_gib() as u64 != 0),
            r == Err::<(), MapError>(MapError::MisalignedAddress) ==> final(self)@ == old(self)@,
            r is Err ==> r == Err::<(), MapError>(MapError::MisalignedAddress) || r == Err::<
                (),
                MapError,
            >(MapError::AllocationExhausted),
            (r == Err::<(), MapError>(MapError::AllocationExhausted)) ==> !(pt_desc.range.end
                <= PHYS_LIMIT && pt_desc.range.start + INIT_TABLES * TABLE_SIZE <= pt_desc.range.end),
            pt_desc.range.start % TABLE_SIZE == 0 && heap_desc.range.start % one_gib() as u64 == 0
                && pt_desc.range.end <= PHYS_LIMIT && pt_desc.range.start + INIT_TABLES * TABLE_SIZE
                <= pt_desc.range.end ==> r is Ok,
            r is Ok ==> forall|j: int|
                0 <= j < IDENTITY_PAGES ==> #[trigger] final(self)@.resolve(
                    (j * one_gib()) as u64,
                    PageSize::Size1GiB,
                ) == Some((j * one_gib()) as u64),
            r is Ok ==> forall|j: int|
                0 <= j < KERNEL_TEXT_PAGES ==> #[trigger] final(self)@.resolve(
                    (KERNEL_TEXT_BASE + j * 0x20_0000) as u64,
                    PageSize::Size2MiB,
                ) == Some((KERNEL_PHYS_BASE + j * 0x20_0000) as u64),
            r is Ok ==> final(self)@.resolve(KERNEL_HEAP_BASE, PageSize::Size1GiB) == Some(
                heap_desc.range.start & ADDRESS_MASK,
            ),
    {
        let start = pt_desc.range.start;
        let end = pt_desc.range.end;
        if start % TABLE_SIZE != 0 || heap_desc.range.start % 0x4000_0000 != 0 {
            return Err(MapError::MisalignedAddress);
        }
        if end > PHYS_LIMIT || start >= end || end - start < TABLE_SIZE {
            return Err(MapError::AllocationExhausted);
        }
        self.state = BuilderState::Backed;
        self.desc = pt_desc;
        self.next_page = start + TABLE_SIZE;
        self.pml4 = PageTable::new_zeroed();
        self.pdp_addrs = Vec::new();
        self.pdps = Vec::new();
        self.pd_addrs = Vec::new();
        self.pds = Vec::new();
        proof {
            lemma_step_aligned(start as int, 1, TABLE_SIZE as int);
            assert(self@.pdps =~= Seq::<Seq<u64>>::empty());
            assert(self@.pds =~= Seq::<Seq<u64>>::empty());
            assert(self@.backed_wf());
            lemma_fixed_indices();
            assert forall|j: int| 0 <= j < IDENTITY_PAGES implies index_at(
                #[trigger] ((0 + j * PageSize::Size1GiB.bytes()) as u64),
                39,
            ) == index_at(0, 39) by {
                assert((0 + j * PageSize::Size1GiB.bytes()) as u64 == (j * one_gib()) as u64);
                assert(index_at(0, 39) == 0) by (bit_vector);
            }
            assert(one_entry_run(0, PageSize::Size1GiB, IDENTITY_PAGES as int));
        }
        match self.map_pages(0, 0, PageSize::Size1GiB, IDENTITY_PAGES) {
            Ok(()) => {},
            Err(e) => {
                return Err(e);
            },
        }
        let ghost g1 = self@;
        assert(forall|j: int|
            0 <= j < IDENTITY_PAGES ==> #[trigger] g1.resolve((j * one_gib()) as u64, PageSize::Size1GiB)
                == Some((j * one_gib()) as u64)) by {
            assert forall|j: int| 0 <= j < IDENTITY_PAGES implies #[trigger] g1.resolve(
                (j * one_gib()) as u64,
                PageSize::Size1GiB,
            ) == Some((j * one_gib()) as u64) by {
                let x = (j * one_gib()) as u64;
                assert(g1.resolve((0 + j * PageSize::Size1GiB.bytes()) as u64, PageSize::Size1GiB) == Some(
                    ((0 + j * PageSize::Size1GiB.bytes()) as u64) & ADDRESS_MASK,
                ));
                assert(x < 0x80_0000_0000);
                lemma_mod_multiples_basic(j, one_gib());
                assert(x % 0x4000_0000 == 0);
                assert(x & 0x000f_ffff_ffff_f000 == x) by (bit_vector)
                    requires x < 0x80_0000_0000, x % 0x4000_0000 == 0;
            }
        }
        assert(0xffff_ffff_8000_0000u64 % 0x20_0000u64 == 0 && 0x0400_0000u64 % 0x20_0000u64 == 0) by (bit_vector);
        proof {
            assert((KERNEL_TEXT_BASE + 0 * 0x20_0000) as u64 == KERNEL_TEXT_BASE);
            assert forall|j: int| 0 <= j < KERNEL_TEXT_PAGES implies index_at(
                #[trigger] ((KERNEL_TEXT_BASE + j * PageSize::Size2MiB.bytes()) as u64),
                39,
            ) == index_at(KERNEL_TEXT_BASE, 39) && index_at(
                (KERNEL_TEXT_BASE + j * PageSize::Size2MiB.bytes()) as u64,
                30,
            ) == index_at(KERNEL_TEXT_BASE, 30) by {
                assert(index_at((KERNEL_TEXT_BASE + 0 * 0x20_0000) as u64, 39) == 511);
                assert(index_at((KERNEL_TEXT_BASE + j * 0x20_0000) as u64, 39) == 511);
            }
            assert(one_entry_run(KERNEL_TEXT_BASE, PageSize::Size2MiB, KERNEL_TEXT_PAGES as int));
            assert forall|j: int| 0 <= j < KERNEL_HEAP_PAGES implies index_at(
                #[trigger] ((KERNEL_HEAP_BASE + j * PageSize::Size1GiB.bytes()) as u64),
                39,
            ) == index_at(KERNEL_HEAP_BASE, 39) by {
                assert(j == 0);
                assert((KERNEL_HEAP_BASE + j * PageSize::Size1GiB.bytes()) as u64 == KERNEL_HEAP_BASE);
            }
            assert(one_entry_run(KERNEL_HEAP_BASE, PageSize::Size1GiB, KERNEL_HEAP_PAGES as int));
        }
        match self.map_pages(KERNEL_TEXT_BASE, KERNEL_PHYS_BASE, PageSize::Size2MiB, KERNEL_TEXT_PAGES) {
            Ok(()) => {},
            Err(e) => {
                return Err(e);
            },
        }
        let ghost g2 = self@;
        proof {
            assert forall|j: int| 0 <= j < IDENTITY_PAGES implies #[trigger] g2.resolve(
                (j * one_gib()) as u64,
                PageSize::Size1GiB,
            ) == Some((j * one_gib()) as u64) by {
                let w = (j * one_gib()) as u64;
                assert forall|t: int| 0 <= t < KERNEL_TEXT_PAGES implies !same_pdpe(
                    w,
                    #[trigger] ((KERNEL_TEXT_BASE + t * PageSize::Size2MiB.bytes()) as u64),
                ) by {
                    assert(index_at((KERNEL_TEXT_BASE + t * 0x20_0000) as u64, 39) == 511);
                }
                assert(g2.resolve(w, PageSize::Size1GiB) == g1.resolve(w, PageSize::Size1GiB));
            }
            assert forall|j: int| 0 <= j < KERNEL_TEXT_PAGES implies #[trigger] g2.resolve(
                (KERNEL_TEXT_BASE + j * 0x20_0000) as u64,
                PageSize::Size2MiB,
            ) == Some((KERNEL_PHYS_BASE + j * 0x20_0000) as u64) by {
                let x = (KERNEL_PHYS_BASE + j * 0x20_0000) as u64;
                assert(g2.resolve(
                    (KERNEL_TEXT_BASE + j * PageSize::Size2MiB.bytes()) as u64,
                    PageSize::Size2MiB,
                ) == Some(((KERNEL_PHYS_BASE + j * PageSize::Size2MiB.bytes()) as u64) & ADDRESS_MASK));
                assert(x < 0x1000_0000);
                lemma_step_aligned(KERNEL_PHYS_BASE as int, j, 0x20_0000);
                assert(x % 0x20_0000 == 0);
                assert(x & 0x000f_ffff_ffff_f000 == x) by (bit_vector)
                    requires x < 0x1000_0000, x % 0x20_0000 == 0;
            }
        }
        match self.map_pages(KERNEL_HEAP_BASE, heap_desc.range.start, PageSize::Size1GiB, KERNEL_HEAP_PAGES) {
            Ok(()) => {},
            Err(e) => {
                return Err(e);
            },
        }
        proof {
            let g3 = self@;
            assert(g3.resolve((KERNEL_HEAP_BASE + 0 * PageSize::Size1GiB.bytes()) as u64, PageSize::Size1GiB)
                == Some(((heap_desc.range.start + 0 * PageSize::Size1GiB.bytes()) as u64) & ADDRESS_MASK));
            assert forall|j: int| 0 <= j < IDENTITY_PAGES implies #[trigger] g3.resolve(
                (j * one_gib()) as u64,
                PageSize::Size1GiB,
            ) == Some((j * one_gib()) as u64) by {
                let w = (j * one_gib()) as u64;
                assert forall|t: int| 0 <= t < KERNEL_HEAP_PAGES implies !same_pdpe(
                    w,
                    #[trigger] ((KERNEL_HEAP_BASE + t * PageSize::Size1GiB.bytes()) as u64),
                ) by {
                    assert(t == 0);
                }
                assert(g3.resolve(w, PageSize::Size1GiB) == g2.resolve(w, PageSize::Size1GiB));
            }
            assert forall|j: int| 0 <= j < KERNEL_TEXT_PAGES implies #[trigger] g3.resolve(
                (KERNEL_TEXT_BASE + j * 0x20_0000) as u64,
                PageSize::Size2MiB,
            ) == Some((KERNEL_PHYS_BASE + j * 0x20_0000) as u64) by {
                let w = (KERNEL_TEXT_BASE + j * 0x20_0000) as u64;
                assert(index_at(w, 30) == 510);
                assert forall|t: int| 0 <= t < KERNEL_HEAP_PAGES implies !same_pdpe(
                    w,
                    #[trigger] ((KERNEL_HEAP_BASE + t * PageSize::Size1GiB.bytes()) as u64),
                ) by {
                    assert(t == 0);
                }
                assert(g3.resolve(w, PageSize::Size2MiB) == g2.resolve(w, PageSize::Size2MiB));
            }
        }
        Ok(())
    }

    /// Hand out the level-4 table as the paging root: a backed builder
    /// becomes committed and returns the table's physical address; in any
    /// other state nothing changes and `None` comes back.
    pub fn commit(&mut self) -> (r: Option<u64>)
        requires
            old(self)@.wf(),
        ensures
            final(self)@.wf(),
            old(self)@.state == BuilderState::Backed ==> r == Some(old(self)@.region.start)
                && final(self)@ == (PagingView { state: BuilderState::Committed, ..old(self)@ }),
            old(self)@.state != BuilderState::Backed ==> r is None && final(self)@ == old(self)@,
    {
        if let BuilderState::Backed = self.state {
            self.state = BuilderState::Committed;
            Some(self.desc.range.start)
        } else {
            None
        }
    }
}


impl MrldPageTable {
    /// Every table built, as its physical address and the raw values of its
    /// entries: the level-4 table first, then the page directory pointer
    /// tables, then the page directories, each group in the order built.
    pub fn tables(&self) -> (r: Vec<(u64, Vec<u64>)>)
        requires
            self@.wf(),
            self@.state != BuilderState::Empty,
        ensures
            r@.len() == 1 + self@.pdps.len() + self@.pds.len(),
            r@[0].0 == self@.region.start && r@[0].1@ == self@.root,
            forall|k: int|
                0 <= k < self@.pdps.len() ==> (#[trigger] r@[1 + k]).0 == self@.pdp_addrs[k] && r@[1
                    + k].1@ == self@.pdps[k],
            forall|k: int|
                0 <= k < self@.pds.len() ==> (#[trigger] r@[1 + self@.pdps.len() + k]).0
                    == self@.pd_addrs[k] && r@[1 + self@.pdps.len() + k].1@ == self@.pds[k],
    {
        let mut r: Vec<(u64, Vec<u64>)> = Vec::new();
        r.push((self.desc.range.start, self.pml4.raw_entries()));
        let mut k: usize = 0;
        while k < self.pdps.len()
            invariant
                self@.wf(),
                self@.state != BuilderState::Empty,
                k <= self@.pdps.len(),
                r@.len() == 1 + k,
                r@[0].0 == self@.region.start && r@[0].1@ == self@.root,
                forall|j: int|
                    0 <= j < k ==> (#[trigger] r@[1 + j]).0 == self@.pdp_addrs[j] && r@[1 + j].1@
                        == self@.pdps[j],
            decreases self.pdps.len() - k,
        {
            r.push((self.pdp_addrs[k], self.pdps[k].raw_entries()));
            k += 1;
        }
        let n = self.pdps.len();
        let mut k: usize = 0;
        while k < self.pds.len()
            invariant
                self@.wf(),
                self@.state != BuilderState::Empty,
                n == self@.pdps.len(),
                k <= self@.pds.len(),
                r@.len() == 1 + n + k,
                r@[0].0 == self@.region.start && r@[0].1@ == self@.root,
                forall|j: int|
                    0 <= j < n ==> (#[trigger] r@[1 + j]).0 == self@.pdp_addrs[j] && r@[1 + j].1@
                        == self@.pdps[j],
                forall|j: int|
                    0 <= j < k ==> (#[trigger] r@[1 + n + j]).0 == self@.pd_addrs[j] && r@[1 + n
                        + j].1@ == self@.pds[j],
            decreases self.pds.len() - k,
        {
            r.push((self.pd_addrs[k], self.pds[k].raw_entries()));
            k += 1;
        }
        r
    }
}

} // verus!
