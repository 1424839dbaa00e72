//! The physical memory map: a fixed number of region slots, filled from the
//! firmware's memory descriptors and carved up by a first-fit allocator.

use vstd::prelude::*;
use crate::paging::PageSize;
use crate::physmem::{
    align_up, apart, kind_of_firmware_type, overlaps, pages_in, range_within, split_of, MrldMemoryDesc,
    MrldMemoryKind, PhysRange, PhysRangeSet,
};

verus! {

/// Number of region slots in a memory map.
pub const NUM_ENTRIES: usize = 128;

/// Physical base of the kernel image.
pub const KERNEL_PHYS_BASE: u64 = 0x0400_0000;

/// Number of 2 MiB pages reserved for the kernel image.
pub const KERNEL_IMAGE_PAGES: usize = 32;

/// Bytes in one firmware page.
pub const FW_PAGE_SIZE: u64 = 0x1000;

/// Why a memory map operation could not be carried out.
#[derive(Clone, Copy, Debug, PartialEq, Eq, Structural)]
pub enum MemoryError {
    /// No available region can satisfy the request, or no slot is free.
    AllocationExhausted,
}

/// The fields of one firmware memory descriptor that the map reads.
#[derive(Clone, Copy, Debug, PartialEq, Eq, Structural)]
pub struct RawMemoryDescriptor {
    /// Firmware memory type code.
    pub ty: u32,
    /// First physical address of the region.
    pub phys_start: u64,
    /// Length of the region in 4 KiB pages.
    pub page_count: u64,
}

/// The region a firmware descriptor stands for, when it may enter a map:
/// its kind is known, it holds at least one page, and it ends within the
/// 64-bit address space.
pub open spec fn raw_desc(r: RawMemoryDescriptor) -> Option<MrldMemoryDesc> {
    let end = r.phys_start + r.page_count * FW_PAGE_SIZE;
    let kind = kind_of_firmware_type(r.ty);
    if end <= u64::MAX && kind != MrldMemoryKind::Invalid && r.page_count > 0 {
        Some(MrldMemoryDesc { kind, range: PhysRange { start: r.phys_start, end: end as u64 } })
    } else {
        None
    }
}

/// The regions that result from reading `raws` in order, merging each into
/// the region before it where the two are contiguous and of the same kind.
pub open spec fn coalesced(raws: Seq<RawMemoryDescriptor>) -> Seq<MrldMemoryDesc>
    decreases raws.len(),
{
    if raws.len() == 0 {
        seq![]
    } else {
        let prev = coalesced(raws.drop_last());
        match raw_desc(raws.last()) {
            None => prev,
            Some(d) => if prev.len() > 0 && crate::physmem::mergeable(prev.last(), d) {
                prev.update(prev.len() - 1, crate::physmem::merged(prev.last(), d))
            } else {
                prev.push(d)
            },
        }
    }
}

/// No two of the regions that the descriptors stand for overlap.
pub open spec fn raws_disjoint(raws: Seq<RawMemoryDescriptor>) -> bool {
    forall|i: int, j: int|
        0 <= i < raws.len() && 0 <= j < raws.len() && i != j && raw_desc(raws[i]) is Some
            && raw_desc(raws[j]) is Some ==> !overlaps(
            raw_desc(raws[i])->0.range,
            raw_desc(raws[j])->0.range,
        )
}

/// Slot `f` is the first empty slot at or after `from`.
pub open spec fn is_first_free(s: Seq<Option<MrldMemoryDesc>>, f: int, from: int) -> bool {
    &&& from <= f < s.len()
    &&& s[f] is None
    &&& forall|j: int| from <= j < f ==> s[j] is Some
}

/// Some slot at or after `from` is empty.
pub open spec fn has_free(s: Seq<Option<MrldMemoryDesc>>, from: int) -> bool {
    exists|f: int| from <= f < s.len() && s[f] is None
}

/// Slot `i` holds an available region in which `pages_in` finds the block.
pub open spec fn fits(s: Seq<Option<MrldMemoryDesc>>, i: int, sz: int, count: int) -> bool {
    &&& s[i] is Some
    &&& s[i]->0.kind == MrldMemoryKind::Available
    &&& pages_in(s[i]->0.range, sz, count) is Some
}

/// Slot `i` holds an available region that contains `req`.
pub open spec fn holds(s: Seq<Option<MrldMemoryDesc>>, i: int, req: PhysRange) -> bool {
    &&& s[i] is Some
    &&& s[i]->0.kind == MrldMemoryKind::Available
    &&& range_within(s[i]->0.range, req)
}

/// The slots after carving `sub` out of the region in slot `i`: the
/// remainder stays in slot `i`, or the slot is emptied where nothing
/// remains, the new region of `kind` goes to slot `f1`,
/// and for a strictly interior `sub` the upper remainder goes to slot `f2`.
pub open spec fn carved(
    s: Seq<Option<MrldMemoryDesc>>,
    i: int,
    f1: int,
    f2: int,
    sub: PhysRange,
    kind: MrldMemoryKind,
) -> Seq<Option<MrldMemoryDesc>> {
    let c = s[i]->0;
    match split_of(c.range, sub) {
        PhysRangeSet::Pair { old, new } => s.update(
            i,
            if old.start < old.end {
                Some(MrldMemoryDesc { kind: c.kind, range: old })
            } else {
                None
            },
        ).update(f1, Some(MrldMemoryDesc { kind, range: new })),
        PhysRangeSet::Triad { old_lo, new, old_hi } => s.update(
            i,
            Some(MrldMemoryDesc { kind: c.kind, range: old_lo }),
        ).update(f1, Some(MrldMemoryDesc { kind, range: new })).update(
            f2,
            Some(MrldMemoryDesc { kind: c.kind, range: old_hi }),
        ),
        PhysRangeSet::Invalid => s,
    }
}

/// Carving `sub` out of slot `i` can be done: a slot is free, and a second
/// one after it where `sub` lies strictly inside the region.
pub open spec fn room_to_carve(s: Seq<Option<MrldMemoryDesc>>, i: int, sub: PhysRange) -> bool {
    exists|f1: int|
        is_first_free(s, f1, 0) && (split_of(s[i]->0.range, sub) is Triad ==> has_free(s, f1 + 1))
}

/// The slots after a successful carve, and the region it returns.
pub open spec fn carve_result(
    s: Seq<Option<MrldMemoryDesc>>,
    t: Seq<Option<MrldMemoryDesc>>,
    i: int,
    sub: PhysRange,
    kind: MrldMemoryKind,
) -> bool {
    exists|f1: int, f2: int|
        is_first_free(s, f1, 0) && (split_of(s[i]->0.range, sub) is Triad ==> is_first_free(
            s,
            f2,
            f1 + 1,
        )) && t == carved(s, i, f1, f2, sub, kind)
}

/// The slots that hold `c` in order, the rest empty.
pub open spec fn slots_of(c: Seq<MrldMemoryDesc>) -> Seq<Option<MrldMemoryDesc>> {
    Seq::new(NUM_ENTRIES as nat, |j: int| if j < c.len() { Some(c[j]) } else { None })
}

/// A fixed number of slots, each empty or holding a region.
pub struct MrldMemoryMap {
    entries: [Option<MrldMemoryDesc>; NUM_ENTRIES],
}

impl View for MrldMemoryMap {
    type V = Seq<Option<MrldMemoryDesc>>;

    closed spec fn view(&self) -> Seq<Option<MrldMemoryDesc>> {
        self.entries@
    }
}

/// Every region held has a real kind and at least one byte, and of any two
/// regions one ends at or before the start of the other.
pub open spec fn slots_wf(s: Seq<Option<MrldMemoryDesc>>) -> bool {
    &&& s.len() == NUM_ENTRIES
    &&& forall|i: int| 0 <= i < s.len() && (#[trigger] s[i]) is Some ==> s[i]->0.usable()
    &&& forall|i: int, j: int|
        0 <= i < s.len() && 0 <= j < s.len() && i != j && (#[trigger] s[i]) is Some && (
        #[trigger] s[j]) is Some ==> apart(s[i]->0.range, s[j]->0.range)
}

/// The regions held, in slot order.
pub open spec fn live(s: Seq<Option<MrldMemoryDesc>>) -> Seq<MrldMemoryDesc>
    decreases s.len(),
{
    if s.len() == 0 {
        seq![]
    } else {
        let rest = live(s.drop_last());
        match s.last() {
            Some(d) => rest.push(d),
            None => rest,
        }
    }
}

impl MrldMemoryMap {
    pub open spec fn wf(&self) -> bool {
        slots_wf(self@)
    }

    /// A map with every slot empty.
    pub fn new_empty() -> (r: Self)
        ensures
            r.wf(),
            forall|i: int| 0 <= i < NUM_ENTRIES ==> (#[trigger] r@[i]) is None,
    {
        let r = MrldMemoryMap { entries: [None; NUM_ENTRIES] };
        assert(r@.len() == NUM_ENTRIES);
        r
    }

    /// The contents of slot `idx`.
    pub fn get(&self, idx: usize) -> (r: Option<MrldMemoryDesc>)
        requires
            idx < NUM_ENTRIES,
        ensures
            r == self@[idx as int],
    {
        self.entries[idx]
    }

    /// Empty slot `idx`.
    pub fn invalidate(&mut self, idx: usize)
        requires
            idx < NUM_ENTRIES,
        ensures
            final(self)@ == old(self)@.update(idx as int, None),
            old(self).wf() ==> final(self).wf(),
    {
        self.entries[idx] = None;
    }

    /// The index of the first empty slot at or after `from`.
    fn first_free(&self, from: usize) -> (r: Option<usize>)
        requires
            self@.len() == NUM_ENTRIES,
        ensures
            match r {
                Some(f) => is_first_free(self@, f as int, from as int),
                None => !has_free(self@, from as int),
            },
    {
        let mut k: usize = from;
        while k < NUM_ENTRIES
            invariant
                self@.len() == NUM_ENTRIES,
                from <= k,
                forall|j: int| from <= j < k ==> self@[j] is Some,
            decreases NUM_ENTRIES - k,
        {
            if self.entries[k].is_none() {
                return Some(k);
            }
            k += 1;
        }
        None
    }

    /// Put `desc` into the first empty slot; report whether one was empty.
    pub fn allocate_new_region(&mut self, desc: MrldMemoryDesc) -> (r: bool)
        requires
            old(self)@.len() == NUM_ENTRIES,
            desc.usable(),
        ensures
            r == has_free(old(self)@, 0),
            r ==> exists|f: int|
                is_first_free(old(self)@, f, 0) && final(self)@ == old(self)@.update(
                    f,
                    Some(desc),
                ),
            !r ==> final(self)@ == old(self)@,
    {
        match self.first_free(0) {
            Some(f) => {
                self.entries[f] = Some(desc);
                true
            },
            None => false,
        }
    }
}


/// Carving a contained sub-range out of one region into empty slots keeps
/// the regions well formed and apart.
proof fn lemma_carved_wf(
    s: Seq<Option<MrldMemoryDesc>>,
    i: int,
    f1: int,
    f2: int,
    sub: PhysRange,
    kind: MrldMemoryKind,
)
    requires
        slots_wf(s),
        0 <= i < s.len(),
        s[i] is Some,
        range_within(s[i]->0.range, sub),
        sub.start < sub.end,
        kind != MrldMemoryKind::Invalid,
        0 <= f1 < s.len(),
        s[f1] is None,
        split_of(s[i]->0.range, sub) is Triad ==> (0 <= f2 < s.len() && s[f2] is None && f2
            != f1),
    ensures
        slots_wf(carved(s, i, f1, f2, sub, kind)),
{
    let t = carved(s, i, f1, f2, sub, kind);
    let c = s[i]->0;
    assert(t.len() == s.len());
    assert forall|a: int| 0 <= a < t.len() && (#[trigger] t[a]) is Some implies t[a]->0.usable()
        && range_within(c.range, t[a]->0.range) || (a != i && a != f1 && (split_of(c.range, sub) is Triad ==> a != f2) && t[a] == s[a]) by {
    }
    assert forall|a: int, b: int|
        0 <= a < t.len() && 0 <= b < t.len() && a != b && (#[trigger] t[a]) is Some && (
        #[trigger] t[b]) is Some implies apart(t[a]->0.range, t[b]->0.range) by {
        assert(s[i] is Some);
    }
}

/// Every region held in a slot other than `f` lies apart from the one in
/// slot `f`.
pub open spec fn isolated(s: Seq<Option<MrldMemoryDesc>>, f: int) -> bool {
    forall|j: int|
        0 <= j < s.len() && j != f && (#[trigger] s[j]) is Some ==> apart(s[j]->0.range, s[f]->0.range)
}

/// After a carve, the new region stands in one slot, and every other
/// region lies apart from it.
proof fn lemma_carved_places(
    s: Seq<Option<MrldMemoryDesc>>,
    t: Seq<Option<MrldMemoryDesc>>,
    i: int,
    sub: PhysRange,
    kind: MrldMemoryKind,
)
    requires
        slots_wf(t),
        carve_result(s, t, i, sub, kind),
        0 <= i < s.len(),
        s.len() == NUM_ENTRIES,
        s[i] is Some,
        range_within(s[i]->0.range, sub),
    ensures
        exists|f: int|
            0 <= f < NUM_ENTRIES && t[f] == Some(MrldMemoryDesc { kind, range: sub }) && isolated(t, f),
{
    let (f1, f2) = choose|f1: int, f2: int|
        is_first_free(s, f1, 0) && (split_of(s[i]->0.range, sub) is Triad ==> is_first_free(
            s,
            f2,
            f1 + 1,
        )) && t == carved(s, i, f1, f2, sub, kind);
    assert(t[f1] == Some(MrldMemoryDesc { kind, range: sub }));
    assert forall|j: int| 0 <= j < t.len() && j != f1 && (#[trigger] t[j]) is Some implies apart(
        t[j]->0.range,
        t[f1]->0.range,
    ) by {
        assert(t[f1] is Some);
    }
    assert(isolated(t, f1));
}

impl MrldMemoryMap {
    /// Carve `sub` out of the region in slot `i`: the remainder stays in
    /// slot `i`, the new region of `kind` goes to the first empty slot, and
    /// an upper remainder, if any, to the next empty slot after that.
    fn carve(&mut self, i: usize, sub: PhysRange, kind: MrldMemoryKind) -> (r: Option<MrldMemoryDesc>)
        requires
            old(self).wf(),
            i < NUM_ENTRIES,
            old(self)@[i as int] is Some,
            range_within(old(self)@[i as int]->0.range, sub),
            sub.start < sub.end,
            kind != MrldMemoryKind::Invalid,
        ensures
            final(self).wf(),
            r is Some == room_to_carve(old(self)@, i as int, sub),
            r is Some ==> r == Some(MrldMemoryDesc { kind, range: sub }) && carve_result(
                old(self)@,
                final(self)@,
                i as int,
                sub,
                kind,
            ),
            r is None ==> final(self)@ == old(self)@,
    {
        let ghost s = self@;
        let c = match self.entries[i] {
            Some(c) => c,
            None => {
                return None;
            },
        };
        let f1 = match self.first_free(0) {
            Some(f) => f,
            None => {
                return None;
            },
        };
        assert(f1 != i);
        match c.range.split(&sub) {
            PhysRangeSet::Pair { old, new } => {
                proof {
                    lemma_carved_wf(s, i as int, f1 as int, 0, sub, kind);
                    assert(is_first_free(s, f1 as int, 0));
                }
                if old.start < old.end {
                    self.entries[i] = Some(MrldMemoryDesc { kind: c.kind, range: old });
                } else {
                    self.entries[i] = None;
                }
                self.entries[f1] = Some(MrldMemoryDesc { kind, range: new });
                assert(self@ =~= carved(s, i as int, f1 as int, 0, sub, kind));
                Some(MrldMemoryDesc { kind, range: new })
            },
            PhysRangeSet::Triad { old_lo, new, old_hi } => {
                let f2 = match self.first_free(f1 + 1) {
                    Some(f) => f,
                    None => {
                        assert forall|g: int| is_first_free(s, g, 0) implies g == f1 by {
                            if g < f1 {
                                assert(s[g] is Some);
                            } else if g > f1 {
                                assert(s[f1 as int] is Some);
                            }
                        }
                        return None;
                    },
                };
                proof {
                    lemma_carved_wf(s, i as int, f1 as int, f2 as int, sub, kind);
                }
                self.entries[i] = Some(MrldMemoryDesc { kind: c.kind, range: old_lo });
                self.entries[f1] = Some(MrldMemoryDesc { kind, range: new });
                self.entries[f2] = Some(MrldMemoryDesc { kind: c.kind, range: old_hi });
                assert(self@ =~= carved(s, i as int, f1 as int, f2 as int, sub, kind));
                Some(MrldMemoryDesc { kind, range: new })
            },
            PhysRangeSet::Invalid => {
                assert(false);
                None
            },
        }
    }
}


/// Slot `i` is the first that holds an available region in which
/// `count` pages of `sz` bytes can be found.
pub open spec fn is_first_fit(s: Seq<Option<MrldMemoryDesc>>, i: int, sz: int, count: int) -> bool {
    &&& 0 <= i < s.len()
    &&& fits(s, i, sz, count)
    &&& forall|j: int| 0 <= j < i ==> !fits(s, j, sz, count)
}

/// Slot `i` is the first that holds an available region containing `req`.
pub open spec fn is_first_holding(s: Seq<Option<MrldMemoryDesc>>, i: int, req: PhysRange) -> bool {
    &&& 0 <= i < s.len()
    &&& holds(s, i, req)
    &&& forall|j: int| 0 <= j < i ==> !holds(s, j, req)
}

/// The first multiple of `sz` at or after `a` is a multiple of `sz` and lies
/// less than `sz` past `a`.
pub proof fn lemma_align_up(a: int, sz: int)
    requires
        a >= 0,
        sz > 0,
    ensures
        align_up(a, sz) % sz == 0,
        a <= align_up(a, sz) < a + sz,
{
    let q = a / sz;
    let r = a % sz;
    assert(a == q * sz + r && 0 <= r < sz) by (nonlinear_arith)
        requires q == a / sz, r == a % sz, sz > 0;
    if r != 0 {
        assert((q * sz + sz) % sz == 0) by (nonlinear_arith)
            requires sz > 0;
        assert(q * sz + sz == a - r + sz);
    }
}

/// The block that `pages_in` finds starts at a multiple of `sz`, holds
/// `count * sz` bytes, and lies within the range.
pub proof fn lemma_pages_in(r: PhysRange, sz: int, count: int)
    requires
        r.wf(),
        sz > 0,
        count >= 0,
        pages_in(r, sz, count) is Some,
    ensures
        pages_in(r, sz, count)->0.start as int % sz == 0,
        pages_in(r, sz, count)->0.len() == count * sz,
        pages_in(r, sz, count)->0.wf(),
        range_within(r, pages_in(r, sz, count)->0),
{
    lemma_align_up(r.start as int, sz);
    assert(count * sz >= 0) by (nonlinear_arith)
        requires count >= 0, sz > 0;
}

impl MrldMemoryMap {
    /// Carve the block `sub` that `pages_in` found in slot `i`, the first
    /// slot able to give it, and hand it out as a region of `kind`.
    fn allocate_in(
        &mut self,
        i: usize,
        sub: PhysRange,
        pagesize: PageSize,
        count: usize,
        kind: MrldMemoryKind,
    ) -> (r: Option<MrldMemoryDesc>)
        requires
            old(self).wf(),
            kind != MrldMemoryKind::Invalid,
            count > 0,
            i < NUM_ENTRIES,
            is_first_fit(old(self)@, i as int, pagesize.bytes() as int, count as int),
            Some(sub) == pages_in(old(self)@[i as int]->0.range, pagesize.bytes() as int, count as int),
        ensures
            final(self).wf(),
            r is Some == (count > 0 && exists|i: int|
                is_first_fit(old(self)@, i, pagesize.bytes() as int, count as int)
                    && room_to_carve(
                    old(self)@,
                    i,
                    pages_in(old(self)@[i]->0.range, pagesize.bytes() as int, count as int)->0,
                )),
            r is None ==> final(self)@ == old(self)@,
            r matches Some(d) ==> {
                &&& d.kind == kind
                &&& d.range.start % pagesize.bytes() == 0
                &&& d.range.len() == count * pagesize.bytes()
                &&& exists|f: int|
                    0 <= f < NUM_ENTRIES && final(self)@[f] == Some(d) && isolated(final(self)@, f)
                &&& exists|i: int|
                    is_first_fit(old(self)@, i, pagesize.bytes() as int, count as int)
                        && d.range == pages_in(
                        old(self)@[i]->0.range,
                        pagesize.bytes() as int,
                        count as int,
                    )->0 && carve_result(old(self)@, final(self)@, i, d.range, kind)
            },
    {
        let ghost s = self@;
        let ghost sz = pagesize.bytes() as int;
        let ghost d = s[i as int]->0;
        proof {
            lemma_pages_in(d.range, sz, count as int);
            assert(count * sz > 0) by (nonlinear_arith)
                requires count > 0, sz > 0;
            assert(is_first_fit(s, i as int, sz, count as int));
            assert forall|k: int| is_first_fit(s, k, sz, count as int) implies k
                == i by {
                if k < i {
                } else if k > i {
                    assert(fits(s, i as int, sz, count as int));
                }
            }
        }
        let r = self.carve(i, sub, kind);
        proof {
            assert(sub == pages_in(s[i as int]->0.range, sz, count as int)->0);
            if r is None {
                assert forall|k: int| is_first_fit(s, k, sz, count as int) implies !room_to_carve(
                    s,
                    k,
                    pages_in(s[k]->0.range, sz, count as int)->0,
                ) by {
                    assert(k == i);
                }
            }
            if r is Some {
                assert(room_to_carve(s, i as int, sub));
                assert(is_first_fit(s, i as int, sz, count as int) && room_to_carve(
                    s,
                    i as int,
                    pages_in(s[i as int]->0.range, sz, count as int)->0,
                ));
                lemma_carved_places(s, self@, i as int, sub, kind);
            }
        }
        return r;
    }

    /// Reserve `count` pages of the given size from the first slot, in slot
    /// order, that holds an available region where they can be found. The
    /// block starts at the first multiple of the page size in that region.
    /// The remainder keeps the slot; the new region, of `kind`, and an upper
    /// remainder where there is one, go to the first empty slots.
    /// `None` when `count` is zero, when no region can give the block, or
    /// when no slot is free for the pieces.
    pub fn allocate(&mut self, pagesize: PageSize, count: usize, kind: MrldMemoryKind) -> (r: Option<
        MrldMemoryDesc,
    >)
        requires
            old(self).wf(),
            kind != MrldMemoryKind::Invalid,
        ensures
            final(self).wf(),
            r is Some == (count > 0 && exists|i: int|
                is_first_fit(old(self)@, i, pagesize.bytes() as int, count as int)
                    && room_to_carve(
                    old(self)@,
                    i,
                    pages_in(old(self)@[i]->0.range, pagesize.bytes() as int, count as int)->0,
                )),
            r is None ==> final(self)@ == old(self)@,
            r matches Some(d) ==> {
                &&& d.kind == kind
                &&& d.range.start % pagesize.bytes() == 0
                &&& d.range.len() == count * pagesize.bytes()
                &&& exists|f: int|
                    0 <= f < NUM_ENTRIES && final(self)@[f] == Some(d) && isolated(final(self)@, f)
                &&& exists|i: int|
                    is_first_fit(old(self)@, i, pagesize.bytes() as int, count as int)
                        && d.range == pages_in(
                        old(self)@[i]->0.range,
                        pagesize.bytes() as int,
                        count as int,
                    )->0 && carve_result(old(self)@, final(self)@, i, d.range, kind)
            },
    {
        let ghost s = self@;
        let ghost sz = pagesize.bytes() as int;
        if count == 0 {
            return None;
        }
        let mut i: usize = 0;
        while i < NUM_ENTRIES
            invariant
                self@ == s,
                s == old(self)@,
                self.wf(),
                sz == pagesize.bytes(),
                count > 0,
                kind != MrldMemoryKind::Invalid,
                forall|j: int| 0 <= j < i ==> !fits(s, j, sz, count as int),
            decreases NUM_ENTRIES - i,
        {
            if let Some(d) = self.entries[i] {
                if d.kind == MrldMemoryKind::Available {
                    if let Some(sub) = d.range.try_get_pages(pagesize, count) {
                        proof {
                            lemma_pages_in(d.range, sz, count as int);
                        }
                        return self.allocate_in(i, sub, pagesize, count, kind);
                    }
                }
            }
            i += 1;
        }
        None
    }
}


/// The range of `count` pages of `sz` bytes from `addr`.
pub open spec fn block_at(addr: u64, sz: int, count: int) -> PhysRange {
    PhysRange { start: addr, end: (addr + count * sz) as u64 }
}

impl MrldMemoryMap {
    /// Reserve the `count` pages of the given size that start at `addr`,
    /// which must be a multiple of the page size, from the first slot, in
    /// slot order, holding an available region that contains them; the
    /// pieces are placed as by `allocate`. `None` when `count` is zero, the
    /// block passes the end of the address space, no available region
    /// contains it, or no slot is free for the pieces.
    pub fn allocate_at(
        &mut self,
        addr: u64,
        pagesize: PageSize,
        count: usize,
        kind: MrldMemoryKind,
    ) -> (r: Option<MrldMemoryDesc>)
        requires
            old(self).wf(),
            addr % pagesize.bytes() == 0,
            kind != MrldMemoryKind::Invalid,
        ensures
            final(self).wf(),
            r is None ==> final(self)@ == old(self)@,
            r is Some == (count > 0 && addr + count * pagesize.bytes() <= u64::MAX && exists|i: int|
                is_first_holding(
                    old(self)@,
                    i,
                    block_at(addr, pagesize.bytes() as int, count as int),
                ) && room_to_carve(
                    old(self)@,
                    i,
                    block_at(addr, pagesize.bytes() as int, count as int),
                )),
            r matches Some(d) ==> {
                &&& d.kind == kind
                &&& d.range == block_at(addr, pagesize.bytes() as int, count as int)
                &&& exists|i: int|
                    is_first_holding(old(self)@, i, d.range) && carve_result(
                        old(self)@,
                        final(self)@,
                        i,
                        d.range,
                        kind,
                    )
            },
    {
        let ghost s = self@;
        let sz = pagesize.as_u64();
        if count == 0 {
            return None;
        }
        let bytes: u64 = match (count as u64).checked_mul(sz) {
            Some(b) => b,
            None => {
                proof {
                    assert(count as int * sz as int >= sz as int) by (nonlinear_arith)
                        requires count as int * sz as int > u64::MAX, sz > 0;
                }
                return None;
            },
        };
        assert(bytes > 0) by (nonlinear_arith)
            requires bytes == count * sz, count > 0, sz > 0;
        let end: u64 = match addr.checked_add(bytes) {
            Some(e) => e,
            None => {
                return None;
            },
        };
        let req = PhysRange { start: addr, end };
        let ghost gsz = sz as int;
        assert(req == block_at(addr, gsz, count as int));
        let mut i: usize = 0;
        while i < NUM_ENTRIES
            invariant
                self@ == s,
                s == old(self)@,
                self.wf(),
                req.wf(),
                req.start < req.end,
                kind != MrldMemoryKind::Invalid,
                count > 0,
                sz == pagesize.bytes(),
                gsz == sz,
                addr % sz == 0,
                req == block_at(addr, gsz, count as int),
                addr + count * sz <= u64::MAX,
                forall|j: int| 0 <= j < i ==> !holds(s, j, req),
            decreases NUM_ENTRIES - i,
        {
            if let Some(d) = self.entries[i] {
                if d.kind == MrldMemoryKind::Available && d.range.contains_range(&req) {
                    proof {
                        assert(is_first_holding(s, i as int, req));
                        assert forall|k: int| is_first_holding(s, k, req) implies k == i by {
                            if k < i {
                            } else if k > i {
                                assert(holds(s, i as int, req));
                            }
                        }
                    }
                    let r = self.carve(i, req, kind);
                    return match r {
                        Some(nd) => {
                            assert(is_first_holding(s, i as int, req) && room_to_carve(
                                s,
                                i as int,
                                req,
                            ));
                            assert(nd.range == req);
                            assert(is_first_holding(s, i as int, nd.range) && carve_result(
                                s,
                                self@,
                                i as int,
                                nd.range,
                                kind,
                            ));
                            Some(nd)
                        },
                        None => {
                            assert forall|k: int| is_first_holding(s, k, req) implies !room_to_carve(
                                s,
                                k,
                                req,
                            ) by {
                                assert(k == i);
                            }
                            None
                        },
                    };
                }
            }
            i += 1;
        }
        None
    }
}


impl RawMemoryDescriptor {
    /// The region this descriptor stands for, when it may enter a map.
    pub fn to_desc(&self) -> (r: Option<MrldMemoryDesc>)
        ensures
            r == raw_desc(*self),
    {
        let kind = MrldMemoryKind::from_firmware_type(self.ty);
        if self.page_count == 0 {
            return None;
        }
        if let MrldMemoryKind::Invalid = kind {
            return None;
        }
        let bytes: u64 = match self.page_count.checked_mul(FW_PAGE_SIZE) {
            Some(b) => b,
            None => {
                proof {
                    let n = self.page_count as int;
                    assert(n * FW_PAGE_SIZE >= n) by (nonlinear_arith)
                        requires n >= 0;
                }
                return None;
            },
        };
        match self.phys_start.checked_add(bytes) {
            Some(end) => Some(MrldMemoryDesc { kind, range: PhysRange { start: self.phys_start, end } }),
            None => None,
        }
    }
}

/// The regions of the descriptors in `raws` are pairwise apart.
pub fn raws_are_disjoint(raws: &[RawMemoryDescriptor]) -> (r: bool)
    ensures
        r == raws_disjoint(raws@),
{
    let n = raws.len();
    let mut i: usize = 0;
    while i < n
        invariant
            n == raws@.len(),
            forall|a: int, b: int|
                0 <= a < i && 0 <= b < n && a != b && raw_desc(raws@[a]) is Some && raw_desc(
                    raws@[b],
                ) is Some ==> !overlaps(raw_desc(raws@[a])->0.range, raw_desc(raws@[b])->0.range),
        decreases n - i,
    {
        if let Some(a) = raws[i].to_desc() {
            let mut j: usize = 0;
            while j < n
                invariant
                    n == raws@.len(),
                    i < n,
                    raw_desc(raws@[i as int]) == Some(a),
                    forall|a: int, b: int|
                        0 <= a < i && 0 <= b < n && a != b && raw_desc(raws@[a]) is Some
                            && raw_desc(raws@[b]) is Some ==> !overlaps(
                            raw_desc(raws@[a])->0.range,
                            raw_desc(raws@[b])->0.range,
                        ),
                    forall|b: int|
                        0 <= b < j && b != i && raw_desc(raws@[b]) is Some ==> !overlaps(
                            a.range,
                            raw_desc(raws@[b])->0.range,
                        ),
                decreases n - j,
            {
                if j != i {
                    if let Some(b) = raws[j].to_desc() {
                        if a.range.start < b.range.end && b.range.start < a.range.end
                            && a.range.start < a.range.end && b.range.start < b.range.end {
                            assert(overlaps(
                                raw_desc(raws@[i as int])->0.range,
                                raw_desc(raws@[j as int])->0.range,
                            ));
                            return false;
                        }
                    }
                }
                j += 1;
            }
        }
        i += 1;
    }
    true
}

/// Reading one more descriptor never shrinks the coalesced list.
proof fn lemma_coalesced_grows(raws: Seq<RawMemoryDescriptor>, a: int, b: int)
    requires
        0 <= a <= b <= raws.len(),
    ensures
        coalesced(raws.take(a)).len() <= coalesced(raws.take(b)).len(),
    decreases b - a,
{
    if a < b {
        lemma_coalesced_grows(raws, a, b - 1);
        assert(raws.take(b).drop_last() =~= raws.take(b - 1));
    }
}

impl MrldMemoryMap {
    /// Fill the map from firmware descriptors, read in order: a descriptor
    /// whose region cannot enter a map is skipped, one that is contiguous
    /// with and of the same kind as the region before it is merged into it,
    /// and any other takes the next slot. `AllocationExhausted`, with every
    /// slot empty, when the regions do not fit in the slots.
    pub fn load_firmware_map(&mut self, raws: &[RawMemoryDescriptor]) -> (r: Result<(), MemoryError>)
        ensures
            r == (if coalesced(raws@).len() <= NUM_ENTRIES {
                Ok::<(), MemoryError>(())
            } else {
                Err(MemoryError::AllocationExhausted)
            }),
            r is Ok ==> final(self)@ == slots_of(coalesced(raws@)),
            r is Err ==> forall|j: int| 0 <= j < NUM_ENTRIES ==> (#[trigger] final(self)@[j]) is None,
            raws_disjoint(raws@) ==> final(self).wf(),
    {
        self.entries = [None; NUM_ENTRIES];
        let mut n: usize = 0;
        let mut k: usize = 0;
        while k < raws.len()
            invariant
                k <= raws@.len(),
                n <= NUM_ENTRIES,
                n == coalesced(raws@.take(k as int)).len(),
                self@.len() == NUM_ENTRIES,
                forall|j: int|
                    0 <= j < NUM_ENTRIES ==> (#[trigger] self@[j]) == (if j < n {
                        Some(coalesced(raws@.take(k as int))[j])
                    } else {
                        None
                    }),
            decreases raws.len() - k,
        {
            let ghost prev = coalesced(raws@.take(k as int));
            proof {
                assert(raws@.take(k + 1).drop_last() =~= raws@.take(k as int));
                assert(raws@.take(k + 1).last() == raws@[k as int]);
            }
            if let Some(d) = raws[k].to_desc() {
                let mut merged_in: bool = false;
                if n > 0 {
                    if let Some(p) = self.entries[n - 1] {
                        if let Some(m) = p.try_merge_with(&d) {
                            self.entries[n - 1] = Some(m);
                            merged_in = true;
                        }
                    }
                }
                if !merged_in {
                    if n == NUM_ENTRIES {
                        proof {
                            lemma_coalesced_grows(raws@, k + 1, raws@.len() as int);
                            assert(raws@.take(raws@.len() as int) =~= raws@);
                        }
                        self.entries = [None; NUM_ENTRIES];
                        return Err(MemoryError::AllocationExhausted);
                    }
                    self.entries[n] = Some(d);
                    n += 1;
                }
            }
            k += 1;
        }
        assert(raws@.take(raws@.len() as int) =~= raws@);
        assert(self@ =~= slots_of(coalesced(raws@)));
        proof {
            if raws_disjoint(raws@) {
                lemma_slots_of_disjoint(raws@);
            }
        }
        Ok(())
    }
}


/// The descriptors' regions come in increasing address order: each one
/// ends at or before the start of every later one.
pub open spec fn raws_sorted(raws: Seq<RawMemoryDescriptor>) -> bool {
    forall|i: int, j: int|
        0 <= i < j < raws.len() && raw_desc(raws[i]) is Some && raw_desc(raws[j]) is Some
            ==> raw_desc(raws[i])->0.range.end <= raw_desc(raws[j])->0.range.start
}

proof fn lemma_coalesced_apart(raws: Seq<RawMemoryDescriptor>, p: int)
    requires
        raws_disjoint(raws),
        0 <= p <= raws.len(),
    ensures
        forall|i: int|
            0 <= i < coalesced(raws.take(p)).len() ==> (#[trigger] coalesced(raws.take(p))[i]).usable(),
        forall|i: int, j: int|
            0 <= i < coalesced(raws.take(p)).len() && 0 <= j < coalesced(raws.take(p)).len() && i
                != j ==> !overlaps(
                (#[trigger] coalesced(raws.take(p))[i]).range,
                (#[trigger] coalesced(raws.take(p))[j]).range,
            ),
        forall|i: int, q: int|
            0 <= i < coalesced(raws.take(p)).len() && p <= q < raws.len() && (#[trigger] raw_desc(
                raws[q],
            )) is Some ==> !overlaps(
                (#[trigger] coalesced(raws.take(p))[i]).range,
                raw_desc(raws[q])->0.range,
            ),
    decreases p,
{
    if p > 0 {
        lemma_coalesced_apart(raws, p - 1);
        assert(raws.take(p).drop_last() =~= raws.take(p - 1));
        assert(raws.take(p).last() == raws[p - 1]);
        let c = coalesced(raws.take(p - 1));
        if let Some(d) = raw_desc(raws[p - 1]) {
            assert forall|q: int| p <= q < raws.len() && (#[trigger] raw_desc(raws[q])) is Some implies !overlaps(
                d.range,
                raw_desc(raws[q])->0.range,
            ) by {
                assert(p - 1 != q);
            }
            assert forall|i: int| 0 <= i < c.len() implies !overlaps((#[trigger] c[i]).range, d.range) by {
                assert(raw_desc(raws[p - 1]) is Some);
            }
        } else {
        }
    } else {
        assert(raws.take(0) =~= Seq::<RawMemoryDescriptor>::empty());
    }
}

proof fn lemma_coalesced_ordered(raws: Seq<RawMemoryDescriptor>, p: int)
    requires
        raws_sorted(raws),
        0 <= p <= raws.len(),
    ensures
        forall|i: int|
            0 <= i < coalesced(raws.take(p)).len() ==> (#[trigger] coalesced(raws.take(p))[i]).usable(),
        forall|i: int, j: int|
            0 <= i < j < coalesced(raws.take(p)).len() ==> (#[trigger] coalesced(raws.take(p))[i]).range.end
                <= (#[trigger] coalesced(raws.take(p))[j]).range.start,
        forall|i: int|
            0 <= i < coalesced(raws.take(p)).len() - 1 ==> !crate::physmem::mergeable(
                #[trigger] coalesced(raws.take(p))[i],
                coalesced(raws.take(p))[i + 1],
            ),
        forall|i: int, q: int|
            0 <= i < coalesced(raws.take(p)).len() && p <= q < raws.len() && (#[trigger] raw_desc(
                raws[q],
            )) is Some ==> (#[trigger] coalesced(raws.take(p))[i]).range.end <= raw_desc(
                raws[q],
            )->0.range.start,
    decreases p,
{
    if p > 0 {
        lemma_coalesced_ordered(raws, p - 1);
        assert(raws.take(p).drop_last() =~= raws.take(p - 1));
        assert(raws.take(p).last() == raws[p - 1]);
        let c = coalesced(raws.take(p - 1));
        if let Some(d) = raw_desc(raws[p - 1]) {
            assert forall|q: int| p <= q < raws.len() && (#[trigger] raw_desc(raws[q])) is Some implies d.range.end
                <= raw_desc(raws[q])->0.range.start by {
                assert(p - 1 < q);
            }
            assert forall|i: int| 0 <= i < c.len() implies (#[trigger] c[i]).range.end <= d.range.start by {
                assert(raw_desc(raws[p - 1]) is Some);
            }
        }
    } else {
        assert(raws.take(0) =~= Seq::<RawMemoryDescriptor>::empty());
    }
}

/// Reading firmware descriptors whose regions are pairwise apart gives
/// regions that are pairwise apart, each of a real kind and non-empty. When the descriptors also come in
/// address order, no two of the resulting regions are contiguous and of the
/// same kind: every such pair has been merged into one.
pub proof fn lemma_coalesced_law(raws: Seq<RawMemoryDescriptor>)
    requires
        raws_disjoint(raws),
    ensures
        forall|i: int, j: int|
            0 <= i < coalesced(raws).len() && 0 <= j < coalesced(raws).len() && i != j ==> apart(
                (#[trigger] coalesced(raws)[i]).range,
                (#[trigger] coalesced(raws)[j]).range,
            ),
        forall|i: int| 0 <= i < coalesced(raws).len() ==> (#[trigger] coalesced(raws)[i]).usable(),
        raws_sorted(raws) ==> forall|i: int, j: int|
            0 <= i < coalesced(raws).len() && 0 <= j < coalesced(raws).len() && i != j
                ==> !crate::physmem::mergeable(
                #[trigger] coalesced(raws)[i],
                #[trigger] coalesced(raws)[j],
            ),
{
    assert(raws.take(raws.len() as int) =~= raws);
    lemma_coalesced_apart(raws, raws.len() as int);
    let c0 = coalesced(raws);
    assert forall|i: int, j: int| 0 <= i < c0.len() && 0 <= j < c0.len() && i != j implies apart(
        (#[trigger] c0[i]).range,
        (#[trigger] c0[j]).range,
    ) by {
        assert(c0[i].usable() && c0[j].usable());
    }
    if raws_sorted(raws) {
        lemma_coalesced_ordered(raws, raws.len() as int);
        let c = coalesced(raws);
        assert forall|i: int, j: int|
            0 <= i < c.len() && 0 <= j < c.len() && i != j implies !crate::physmem::mergeable(
            #[trigger] c[i],
            #[trigger] c[j],
        ) by {
            if j == i + 1 {
            } else if j > i + 1 {
                assert(c[i].range.end <= c[i + 1].range.start);
                assert(c[i + 1].range.end <= c[j].range.start);
                assert(c[i + 1].usable());
            } else {
                assert(c[j].range.end <= c[i].range.start);
                assert(c[i].usable());
                assert(c[j].usable());
            }
        }
    }
}


/// The slots holding the regions read from descriptors that are pairwise
/// apart are well formed.
proof fn lemma_slots_of_disjoint(raws: Seq<RawMemoryDescriptor>)
    requires
        raws_disjoint(raws),
        coalesced(raws).len() <= NUM_ENTRIES,
    ensures
        slots_wf(slots_of(coalesced(raws))),
{
    lemma_coalesced_law(raws);
    lemma_coalesced_apart(raws, raws.len() as int);
    assert(raws.take(raws.len() as int) =~= raws);
    let c = coalesced(raws);
    let s = slots_of(c);
    assert forall|i: int, j: int|
        0 <= i < s.len() && 0 <= j < s.len() && i != j && (#[trigger] s[i]) is Some && (
        #[trigger] s[j]) is Some implies apart(s[i]->0.range, s[j]->0.range) by {
        assert(s[i] == Some(c[i]));
        assert(s[j] == Some(c[j]));
        assert(c[i].usable() && c[j].usable());
    }
    assert forall|i: int| 0 <= i < s.len() && (#[trigger] s[i]) is Some implies s[i]->0.usable() by {
        assert(c[i].usable());
    }
}

/// The block reserved for the kernel image.
pub open spec fn kernel_image_block() -> PhysRange {
    block_at(KERNEL_PHYS_BASE, PageSize::Size2MiB.bytes() as int, KERNEL_IMAGE_PAGES as int)
}

/// The regions read from `raws` fit in the slots, and the kernel image's
/// region can then be reserved at its fixed physical base.
pub open spec fn kernel_image_fits(raws: Seq<RawMemoryDescriptor>) -> bool {
    &&& coalesced(raws).len() <= NUM_ENTRIES
    &&& exists|i: int|
        is_first_holding(slots_of(coalesced(raws)), i, kernel_image_block()) && room_to_carve(
            slots_of(coalesced(raws)),
            i,
            kernel_image_block(),
        )
}

impl MrldMemoryMap {
    /// Fill the map from the firmware descriptors (see `load_firmware_map`),
    /// then reserve the kernel image's region at its fixed physical base,
    /// as `allocate_at` does; report when either step cannot be done.
    fn fill_and_reserve(&mut self, raws: &[RawMemoryDescriptor]) -> (r: Result<MrldMemoryDesc, MemoryError>)
        requires
            raws_disjoint(raws@),
        ensures
            final(self).wf(),
            coalesced(raws@).len() > NUM_ENTRIES ==> r == Err::<MrldMemoryDesc, MemoryError>(
                MemoryError::AllocationExhausted,
            ) && forall|j: int| 0 <= j < NUM_ENTRIES ==> (#[trigger] final(self)@[j]) is None,
            coalesced(raws@).len() <= NUM_ENTRIES ==> {
                let s = slots_of(coalesced(raws@));
                &&& r is Ok == exists|i: int|
                    is_first_holding(s, i, kernel_image_block()) && room_to_carve(
                        s,
                        i,
                        kernel_image_block(),
                    )
                &&& r is Err ==> r == Err::<MrldMemoryDesc, MemoryError>(
                    MemoryError::AllocationExhausted,
                ) && final(self)@ == s
                &&& r matches Ok(d) ==> d == MrldMemoryDesc {
                    kind: MrldMemoryKind::KernelImage,
                    range: kernel_image_block(),
                } && exists|i: int|
                    is_first_holding(s, i, d.range) && carve_result(
                        s,
                        final(self)@,
                        i,
                        d.range,
                        MrldMemoryKind::KernelImage,
                    )
            },
    {
        match self.load_firmware_map(raws) {
            Ok(()) => {},
            Err(e) => {
                proof {
                    assert(slots_wf(self@));
                }
                return Err(e);
            },
        }
        let ghost s = self@;
        assert(0x0400_0000u64 % 0x20_0000u64 == 0) by (bit_vector);
        assert(KERNEL_PHYS_BASE % PageSize::Size2MiB.bytes() == 0);
        assert(KERNEL_PHYS_BASE + KERNEL_IMAGE_PAGES * PageSize::Size2MiB.bytes() <= u64::MAX);
        let r = self.allocate_at(
            KERNEL_PHYS_BASE,
            PageSize::Size2MiB,
            KERNEL_IMAGE_PAGES,
            MrldMemoryKind::KernelImage,
        );
        assert(s == slots_of(coalesced(raws@)));
        assert(block_at(KERNEL_PHYS_BASE, PageSize::Size2MiB.bytes() as int, KERNEL_IMAGE_PAGES as int)
            == kernel_image_block());
        match r {
            Some(d) => Ok(d),
            None => Err(MemoryError::AllocationExhausted),
        }
    }
}


impl MrldMemoryMap {
    /// Can `init` be done on `raws`: do the regions fit in the slots, and
    /// can the kernel image's region then be reserved?
    pub fn kernel_image_reservable(raws: &[RawMemoryDescriptor]) -> (r: bool)
        requires
            raws_disjoint(raws@),
        ensures
            r == kernel_image_fits(raws@),
    {
        let mut m = MrldMemoryMap::new_empty();
        m.fill_and_reserve(raws).is_ok()
    }

    /// Fill the map from the firmware descriptors (see `load_firmware_map`),
    /// then reserve the kernel image's region at its fixed physical base,
    /// as `allocate_at` does, and return that region. The caller makes sure
    /// beforehand, with `kernel_image_reservable`, that both can be done.
    pub fn init(&mut self, raws: &[RawMemoryDescriptor]) -> (d: MrldMemoryDesc)
        requires
            raws_disjoint(raws@),
            kernel_image_fits(raws@),
        ensures
            final(self).wf(),
            d == (MrldMemoryDesc { kind: MrldMemoryKind::KernelImage, range: kernel_image_block() }),
            exists|i: int|
                is_first_holding(slots_of(coalesced(raws@)), i, d.range) && carve_result(
                    slots_of(coalesced(raws@)),
                    final(self)@,
                    i,
                    d.range,
                    MrldMemoryKind::KernelImage,
                ),
    {
        match self.fill_and_reserve(raws) {
            Ok(d) => d,
            Err(_) => {
                assert(false);
                MrldMemoryDesc::new_invalid()
            },
        }
    }
}

impl MrldMemoryMap {
    /// A mutable reference to slot `idx`.
    pub fn get_mut(&mut self, idx: usize) -> (r: &mut Option<MrldMemoryDesc>)
        requires
            idx < NUM_ENTRIES,
        ensures
            *r == old(self)@[idx as int],
            final(self)@ == old(self)@.update(idx as int, *final(r)),
    {
        &mut self.entries[idx]
    }

    /// A mutable reference to the region held in slot `idx`.
    pub fn get_valid_mut(&mut self, idx: usize) -> (r: &mut MrldMemoryDesc)
        requires
            idx < NUM_ENTRIES,
            old(self)@[idx as int] is Some,
        ensures
            *r == old(self)@[idx as int]->0,
            final(self)@ == old(self)@.update(idx as int, Some(*final(r))),
    {
        match &mut self.entries[idx] {
            Some(d) => d,
            None => vstd::pervasive::unreached(),
        }
    }

    /// The slots that hold a region, in slot order: the regions can then be
    /// changed in place with `get_valid_mut`.
    pub fn iter_mut_valid(&self) -> (r: Vec<usize>)
        ensures
            forall|k: int| 0 <= k < r@.len() ==> r@[k] < NUM_ENTRIES && self@[r@[k] as int] is Some,
            forall|k: int, l: int| 0 <= k < l < r@.len() ==> r@[k] < r@[l],
            forall|j: int|
                0 <= j < NUM_ENTRIES && self@[j] is Some ==> exists|k: int|
                    0 <= k < r@.len() && r@[k] == j,
    {
        let mut r: Vec<usize> = Vec::new();
        let mut i: usize = 0;
        while i < NUM_ENTRIES
            invariant
                self@.len() == NUM_ENTRIES,
                i <= NUM_ENTRIES,
                forall|k: int| 0 <= k < r@.len() ==> r@[k] < i && self@[r@[k] as int] is Some,
                forall|k: int, l: int| 0 <= k < l < r@.len() ==> r@[k] < r@[l],
                forall|j: int|
                    0 <= j < i && self@[j] is Some ==> exists|k: int| 0 <= k < r@.len() && r@[k] == j,
            decreases NUM_ENTRIES - i,
        {
            let ghost before = r@;
            if self.entries[i].is_some() {
                r.push(i);
                assert(r@[r@.len() - 1] == i);
            }
            assert forall|j: int| 0 <= j < i + 1 && self@[j] is Some implies exists|k: int|
                0 <= k < r@.len() && r@[k] == j by {
                if j < i {
                    let k = choose|k: int| 0 <= k < before.len() && before[k] == j;
                    assert(r@[k] == j);
                } else {
                    assert(r@[r@.len() - 1] == j);
                }
            }
            i += 1;
        }
        r
    }

    /// The regions held, in slot order.
    pub fn iter_valid(&self) -> (r: Vec<MrldMemoryDesc>)
        ensures
            r@ == live(self@),
    {
        let mut r: Vec<MrldMemoryDesc> = Vec::new();
        let mut i: usize = 0;
        while i < NUM_ENTRIES
            invariant
                self@.len() == NUM_ENTRIES,
                i <= NUM_ENTRIES,
                r@ == live(self@.take(i as int)),
            decreases NUM_ENTRIES - i,
        {
            proof {
                assert(self@.take(i + 1).drop_last() =~= self@.take(i as int));
            }
            if let Some(d) = self.entries[i] {
                r.push(d);
            }
            i += 1;
        }
        assert(self@.take(NUM_ENTRIES as int) =~= self@);
        r
    }

    /// The index of the first slot, in slot order, holding a region for
    /// which `f` returns true.
    pub fn find_mut_with<F: Fn(&MrldMemoryDesc) -> bool>(&self, f: F) -> (r: Option<usize>)
        requires
            forall|d: &MrldMemoryDesc| #[trigger] f.requires((d,)),
        ensures
            r matches Some(i) ==> i < NUM_ENTRIES && self@[i as int] is Some && f.ensures(
                (&self@[i as int]->0,),
                true,
            ) && forall|j: int|
                0 <= j < i && self@[j] is Some ==> f.ensures((&self@[j]->0,), false),
            r is None ==> forall|j: int|
                0 <= j < NUM_ENTRIES && self@[j] is Some ==> f.ensures((&self@[j]->0,), false),
    {
        let mut i: usize = 0;
        while i < NUM_ENTRIES
            invariant
                self@.len() == NUM_ENTRIES,
                forall|d: &MrldMemoryDesc| #[trigger] f.requires((d,)),
                forall|j: int| 0 <= j < i && self@[j] is Some ==> f.ensures((&self@[j]->0,), false),
            decreases NUM_ENTRIES - i,
        {
            if let Some(d) = &self.entries[i] {
                if f(d) {
                    return Some(i);
                }
            }
            i += 1;
        }
        None
    }

    /// The first region, in slot order, for which `f` returns true.
    pub fn find_with<F: Fn(&MrldMemoryDesc) -> bool>(&self, f: F) -> (r: Option<MrldMemoryDesc>)
        requires
            forall|d: &MrldMemoryDesc| #[trigger] f.requires((d,)),
        ensures
            r matches Some(d) ==> exists|i: int|
                0 <= i < NUM_ENTRIES && self@[i] == Some(d) && f.ensures((&d,), true) && forall|
                    j: int,
                | 0 <= j < i && self@[j] is Some ==> f.ensures((&self@[j]->0,), false),
            r is None ==> forall|j: int|
                0 <= j < NUM_ENTRIES && self@[j] is Some ==> f.ensures((&self@[j]->0,), false),
    {
        match self.find_mut_with(f) {
            Some(i) => self.entries[i],
            None => None,
        }
    }
}


/// Bytes that a firmware memory descriptor takes at the least.
pub const FW_DESC_SIZE: usize = 40;

/// The little-endian 32-bit value at `o` in `b`.
pub open spec fn le_u32(b: Seq<u8>, o: int) -> int {
    b[o] + 0x100 * b[o + 1] + 0x1_0000 * b[o + 2] + 0x100_0000 * b[o + 3]
}

/// The little-endian 64-bit value at `o` in `b`.
pub open spec fn le_u64(b: Seq<u8>, o: int) -> int {
    le_u32(b, o) + 0x1_0000_0000 * le_u32(b, o + 4)
}

/// The descriptor stored at `o` in `b`: its type code at offset 0, its
/// physical start at offset 8 and its page count at offset 24.
pub open spec fn desc_at(b: Seq<u8>, o: int) -> RawMemoryDescriptor {
    RawMemoryDescriptor {
        ty: le_u32(b, o) as u32,
        phys_start: le_u64(b, o + 8) as u64,
        page_count: le_u64(b, o + 24) as u64,
    }
}

fn read_u32(b: &[u8], o: usize) -> (r: u32)
    requires
        o + 4 <= b@.len(),
    ensures
        r == le_u32(b@, o as int),
{
    b[o] as u32 + 0x100 * (b[o + 1] as u32) + 0x1_0000 * (b[o + 2] as u32) + 0x100_0000 * (b[o
        + 3] as u32)
}

fn read_u64(b: &[u8], o: usize) -> (r: u64)
    requires
        o + 8 <= b@.len(),
    ensures
        r == le_u64(b@, o as int),
{
    let len = b.len();
    let lo = read_u32(b, o) as u64;
    let hi = read_u32(b, o + 4) as u64;
    assert(0x1_0000_0000 * hi <= 0xffff_ffff_0000_0000) by (nonlinear_arith)
        requires hi <= 0xffff_ffff;
    lo + 0x1_0000_0000 * hi
}

/// Read the firmware's memory descriptor table: `bytes` holds
/// `bytes.len() / stride` descriptors, one every `stride` bytes; a
/// descriptor may be longer than the fields read here. `None` when the
/// stride is shorter than a descriptor.
pub fn parse_firmware_map(bytes: &[u8], stride: usize) -> (r: Option<Vec<RawMemoryDescriptor>>)
    ensures
        stride < FW_DESC_SIZE ==> r is None,
        stride >= FW_DESC_SIZE ==> (r matches Some(v) && v@.len() == bytes@.len() as int / stride as int
            && forall|k: int| 0 <= k < v@.len() ==> #[trigger] v@[k] == desc_at(bytes@, k * stride)),
{
    if stride < FW_DESC_SIZE {
        return None;
    }
    let total = bytes.len();
    let n = total / stride;
    let mut v: Vec<RawMemoryDescriptor> = Vec::new();
    let mut k: usize = 0;
    let mut o: usize = 0;
    while k < n
        invariant
            stride >= FW_DESC_SIZE,
            total == bytes@.len(),
            n == bytes@.len() as int / stride as int,
            k <= n,
            o == k * stride,
            v@.len() == k,
            forall|i: int| 0 <= i < k ==> #[trigger] v@[i] == desc_at(bytes@, i * stride),
        decreases n - k,
    {
        proof {
            assert((k + 1) * stride <= n * stride) by (nonlinear_arith)
                requires k + 1 <= n, stride > 0;
            assert(n * stride <= bytes@.len()) by (nonlinear_arith)
                requires n == bytes@.len() as int / stride as int, stride > 0;
            assert((k + 1) * stride == k * stride + stride) by (nonlinear_arith);
            assert(o + stride <= bytes@.len());
        }
        let d = RawMemoryDescriptor {
            ty: read_u32(bytes, o),
            phys_start: read_u64(bytes, o + 8),
            page_count: read_u64(bytes, o + 24),
        };
        v.push(d);
        k += 1;
        o = o + stride;
    }
    Some(v)
}

} // verus!
